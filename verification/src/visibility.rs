//! Per-frame selection of renderable sets: which meshes enter the opaque
//! pass, the forward (transparency) pass, and each shadow layer.
//!
//! A mesh without bounding data is always kept; a mesh whose box opts out of
//! culling is always kept; otherwise the box is tested against the frustum
//! planes. Forward-rendered meshes follow identical cull logic into their own
//! set, and shadow casters are selected per light and per cascade.

use vstd::prelude::*;

use crate::aabb::AABB;
use crate::fp::FP_BOUND;
use crate::frustum::{FrustumPlane, aabb_in_frustum, box_in_frustum, plane_fits};
use crate::vec3::vec_within;

verus! {

/// One renderable entity as the culling step sees it: a stable id, optional
/// bounding data, and the flags that route it to a render set.
#[derive(Clone, Copy, Debug)]
pub struct RenderItem {
    pub id: u64,
    pub aabb: Option<AABB>,
    pub forward_rendered: bool,
    pub shadow_casting: bool,
}

/// Which of the per-frame render sets is being selected.
#[derive(Clone, Copy, Debug, PartialEq, Eq, Structural)]
pub enum RenderSet {
    Opaque,
    Forward,
    Shadow,
}

/// The world-space box of an item stays in the fixed-point working range.
pub open spec fn item_fits(item: RenderItem) -> bool {
    match item.aabb {
        None => true,
        Some(a) => vec_within(a.min_ws, FP_BOUND as int) && vec_within(a.max_ws, FP_BOUND as int),
    }
}

/// An item is visible against the planes: no bounding data or an opted-out
/// box always passes; otherwise the box must survive the frustum test.
pub open spec fn mesh_visible(item: RenderItem, planes: Seq<FrustumPlane>) -> bool {
    match item.aabb {
        None => true,
        Some(a) => !a.frustum_cull || box_in_frustum(a.min_ws, a.max_ws, planes),
    }
}

/// Whether an item belongs to the given render set this frame.
pub open spec fn keeps(item: RenderItem, planes: Seq<FrustumPlane>, set: RenderSet) -> bool {
    match set {
        RenderSet::Opaque => !item.forward_rendered && mesh_visible(item, planes),
        RenderSet::Forward => item.forward_rendered && mesh_visible(item, planes),
        RenderSet::Shadow => item.shadow_casting && !item.forward_rendered && item.aabb is Some
            && mesh_visible(item, planes),
    }
}

/// The ids of the items kept for a render set, in input order.
pub open spec fn selected(items: Seq<RenderItem>, planes: Seq<FrustumPlane>, set: RenderSet) -> Seq<
    u64,
>
    decreases items.len(),
{
    if items.len() == 0 {
        Seq::empty()
    } else {
        let prefix = selected(items.drop_last(), planes, set);
        if keeps(items.last(), planes, set) {
            prefix.push(items.last().id)
        } else {
            prefix
        }
    }
}

/// Select the ids of a render set by walking the items in order and culling
/// each against the planes.
pub fn select_ids(items: &Vec<RenderItem>, planes: &[FrustumPlane; 6], set: RenderSet) -> (r: Vec<
    u64,
>)
    requires
        forall|k: int| 0 <= k < items@.len() ==> item_fits(#[trigger] items@[k]),
        forall|i: int| 0 <= i < 6 ==> plane_fits(#[trigger] planes@[i]),
    ensures
        r@ == selected(items@, planes@, set),
{
    let mut r: Vec<u64> = Vec::new();
    let mut i: usize = 0;
    while i < items.len()
        invariant
            0 <= i <= items@.len(),
            forall|k: int| 0 <= k < items@.len() ==> item_fits(#[trigger] items@[k]),
            forall|k: int| 0 <= k < 6 ==> plane_fits(#[trigger] planes@[k]),
            r@ == selected(items@.subrange(0, i as int), planes@, set),
        decreases items@.len() - i,
    {
        let item = &items[i];
        let visible: bool = match &item.aabb {
            None => true,
            Some(a) => {
                if a.frustum_cull {
                    aabb_in_frustum(&a.min_ws, &a.max_ws, planes)
                } else {
                    true
                }
            },
        };
        let keep: bool = match set {
            RenderSet::Opaque => !item.forward_rendered && visible,
            RenderSet::Forward => item.forward_rendered && visible,
            RenderSet::Shadow => {
                item.shadow_casting && !item.forward_rendered && item.aabb.is_some() && visible
            },
        };
        if keep {
            r.push(item.id);
        }
        proof {
            let sub = items@.subrange(0, i as int + 1);
            assert(sub.drop_last() =~= items@.subrange(0, i as int));
            assert(sub.last() == items@[i as int]);
        }
        i = i + 1;
    }
    proof {
        assert(items@.subrange(0, items@.len() as int) =~= items@);
    }
    r
}

/// Some item kept for the set carries this id.
pub open spec fn id_from_kept(
    items: Seq<RenderItem>,
    planes: Seq<FrustumPlane>,
    set: RenderSet,
    id: u64,
) -> bool {
    exists|k: int|
        0 <= k < items.len() && #[trigger] keeps(items[k], planes, set) && items[k].id == id
}

/// Membership in a selected set is exactly visibility with the right flags:
/// an id is listed if and only if some kept item carries it.
pub proof fn lemma_selected_membership(
    items: Seq<RenderItem>,
    planes: Seq<FrustumPlane>,
    set: RenderSet,
)
    ensures
        forall|j: int|
            0 <= j < selected(items, planes, set).len() ==> id_from_kept(
                items,
                planes,
                set,
                #[trigger] selected(items, planes, set)[j],
            ),
        forall|k: int|
            0 <= k < items.len() && #[trigger] keeps(items[k], planes, set) ==> selected(
                items,
                planes,
                set,
            ).contains(items[k].id),
    decreases items.len(),
{
    if items.len() > 0 {
        lemma_selected_membership(items.drop_last(), planes, set);
        let prefix = selected(items.drop_last(), planes, set);
        let whole = selected(items, planes, set);
        assert forall|j: int| 0 <= j < whole.len() implies id_from_kept(
            items,
            planes,
            set,
            #[trigger] whole[j],
        ) by {
            if j < prefix.len() {
                assert(id_from_kept(items.drop_last(), planes, set, prefix[j]));
                let k = choose|k: int|
                    0 <= k < items.drop_last().len() && #[trigger] keeps(
                        items.drop_last()[k],
                        planes,
                        set,
                    ) && items.drop_last()[k].id == prefix[j];
                assert(items[k] == items.drop_last()[k]);
                assert(keeps(items[k], planes, set) && items[k].id == whole[j]);
            } else {
                let k = items.len() - 1;
                assert(keeps(items[k], planes, set) && items[k].id == whole[j]);
            }
        }
        assert forall|k: int|
            0 <= k < items.len() && #[trigger] keeps(items[k], planes, set) implies whole.contains(
            items[k].id,
        ) by {
            if k < items.len() - 1 {
                assert(items.drop_last()[k] == items[k]);
                assert(prefix.contains(items[k].id));
                let j = choose|j: int| 0 <= j < prefix.len() && prefix[j] == items[k].id;
                assert(whole[j] == items[k].id);
            } else {
                assert(whole.last() == items[k].id);
                assert(whole[whole.len() - 1] == items[k].id);
            }
        }
    }
}

} // verus!
