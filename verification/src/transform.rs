//! World-transform resolution: each entity's global transform composed from
//! its parent chain of local transforms.
//!
//! A transform is an affine fixed-point matrix; composing a child onto its
//! parent is one matrix product. Entities arrive in an order where every
//! parent precedes its children, so one forward walk resolves the whole
//! hierarchy.

use vstd::prelude::*;

use crate::errors::EngineGraphicsError;
use crate::fp::FP_BOUND;
use crate::mat4::{Mat4, mat_mul_spec, mat_within};

verus! {

/// The resolved global transform of entity `i`: its local transform composed
/// onto its parent's global one; a missing or malformed parent leaves the
/// local transform as the global one.
pub open spec fn resolved_transform(locals: Seq<Mat4>, parents: Seq<Option<usize>>, i: int) -> Mat4
    decreases i,
{
    if 0 <= i < locals.len() {
        match parents[i] {
            Some(p) => if (p as int) < i {
                mat_mul_spec(resolved_transform(locals, parents, p as int), locals[i])
            } else {
                locals[i]
            },
            None => locals[i],
        }
    } else {
        Mat4 {
            m00: 0, m01: 0, m02: 0, m03: 0,
            m10: 0, m11: 0, m12: 0, m13: 0,
            m20: 0, m21: 0, m22: 0, m23: 0,
            m30: 0, m31: 0, m32: 0, m33: 0,
        }
    }
}

/// Resolve every entity's global transform from its parent chain: entity
/// `i`'s parent, when it has one, comes earlier in the arrays. Fails exactly
/// when some resolved transform leaves the working range the rest of the
/// renderer accepts.
pub fn resolve_transform_hierarchy(locals: &Vec<Mat4>, parents: &Vec<Option<usize>>) -> (r: Result<
    Vec<Mat4>,
    EngineGraphicsError,
>)
    requires
        locals@.len() == parents@.len(),
        forall|i: int|
            0 <= i < parents@.len() ==> ((#[trigger] parents@[i]) matches Some(p) ==> (p as int)
                < i),
        forall|i: int| 0 <= i < locals@.len() ==> mat_within(#[trigger] locals@[i], FP_BOUND as int / 2),
    ensures
        r is Ok <==> forall|i: int|
            0 <= i < locals@.len() ==> mat_within(
                #[trigger] resolved_transform(locals@, parents@, i),
                FP_BOUND as int / 2,
            ),
        r matches Ok(globals) ==> {
            &&& globals@.len() == locals@.len()
            &&& forall|i: int|
                0 <= i < locals@.len() ==> #[trigger] globals@[i] == resolved_transform(
                    locals@,
                    parents@,
                    i,
                )
        },
{
    let mut globals: Vec<Mat4> = Vec::new();
    let mut i: usize = 0;
    while i < locals.len()
        invariant
            0 <= i <= locals@.len(),
            locals@.len() == parents@.len(),
            globals@.len() == i,
            forall|k: int|
                0 <= k < parents@.len() ==> ((#[trigger] parents@[k]) matches Some(p) ==> (
                p as int) < k),
            forall|k: int|
                0 <= k < locals@.len() ==> mat_within(#[trigger] locals@[k], FP_BOUND as int / 2),
            forall|k: int|
                0 <= k < i ==> #[trigger] globals@[k] == resolved_transform(locals@, parents@, k),
            forall|k: int|
                0 <= k < i ==> mat_within(#[trigger] globals@[k], FP_BOUND as int / 2),
        decreases locals@.len() - i,
    {
        let global: Mat4 = match parents[i] {
            Some(p) => {
                if p < i {
                    globals[p].mul(&locals[i])
                } else {
                    locals[i]
                }
            },
            None => locals[i],
        };
        assert(global == resolved_transform(locals@, parents@, i as int));
        if !global.within(FP_BOUND / 2) {
            assert(!mat_within(
                resolved_transform(locals@, parents@, i as int),
                FP_BOUND as int / 2,
            ));
            return Err(
                EngineGraphicsError::RendererError(
                    "Resolved transform out of the working range".to_string(),
                ),
            );
        }
        globals.push(global);
        i = i + 1;
    }
    proof {
        assert forall|k: int| 0 <= k < locals@.len() implies mat_within(
            #[trigger] resolved_transform(locals@, parents@, k),
            FP_BOUND as int / 2,
        ) by {
            assert(globals@[k] == resolved_transform(locals@, parents@, k));
            assert(mat_within(globals@[k], FP_BOUND as int / 2));
        }
    }
    Ok(globals)
}

} // verus!
