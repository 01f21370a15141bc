//! Text meshes: screen-space glyph quads laid out from an atlas, and the
//! packed interaction-state word the text pass binds per glyph run.
//!
//! Coordinates are fixed-point pixels. Each character found in the atlas map
//! emits one quad — four vertices and two triangles — advances the cursor,
//! and widens the pixel bounds used for input handling.

use vstd::prelude::*;

use crate::fp::{FP_BOUND, SCALE, div_i64, iabs, tdiv};
use crate::vec3::{imax, imin};

verus! {

/// Magnitude bound on atlas-region coordinates and sizes, in fixed-point
/// pixels.
pub const GLYPH_BOUND: i64 = 1000000000;

/// One glyph's rectangle in the atlas and its layout metrics.
#[derive(Clone, Copy, Debug)]
pub struct AtlasRegion {
    pub x: i64,
    pub y: i64,
    pub width: i64,
    pub height: i64,
    pub offset_x: i64,
    pub offset_y: i64,
    pub advance_x: Option<i64>,
}

/// One text vertex: a screen position and an atlas coordinate.
#[derive(Clone, Copy, Debug)]
pub struct VertexText {
    pub position: [i64; 2],
    pub uv_coords: [i64; 2],
}

/// An atlas region usable by the layout: all metrics bounded, non-negative
/// extents.
pub open spec fn region_fits(r: AtlasRegion) -> bool {
    &&& iabs(r.x as int) <= GLYPH_BOUND as int
    &&& iabs(r.y as int) <= GLYPH_BOUND as int
    &&& 0 <= r.width <= GLYPH_BOUND as int
    &&& 0 <= r.height <= GLYPH_BOUND as int
    &&& iabs(r.offset_x as int) <= GLYPH_BOUND as int
    &&& iabs(r.offset_y as int) <= GLYPH_BOUND as int
    &&& match r.advance_x {
        Some(a) => 0 <= a <= GLYPH_BOUND as int,
        None => true,
    }
}

/// How far the cursor moves after a glyph: its advance, or its width when no
/// advance is given.
pub open spec fn region_advance(r: AtlasRegion) -> int {
    match r.advance_x {
        Some(a) => a as int,
        None => r.width as int,
    }
}

/// First atlas region mapped to a character, scanning the map in order.
pub open spec fn lookup_region(map: Seq<(char, AtlasRegion)>, c: char) -> Option<AtlasRegion>
    decreases map.len(),
{
    if map.len() == 0 {
        None
    } else if map[0].0 == c {
        Some(map[0].1)
    } else {
        lookup_region(map.drop_first(), c)
    }
}

/// The four vertices of one glyph quad: positions from the cursor and the
/// glyph metrics, atlas coordinates normalized by the atlas size.
pub open spec fn glyph_quad(r: AtlasRegion, cursor_x: int, atlas_w: int, atlas_h: int) -> Seq<
    VertexText,
> {
    let x_left = cursor_x + r.offset_x;
    let x_right = x_left + r.width;
    let y_top = r.offset_y as int;
    let y_bottom = y_top + r.height;
    let u0 = tdiv(r.x * SCALE, atlas_w);
    let v0 = tdiv(r.y * SCALE, atlas_h);
    let u1 = tdiv((r.x + r.width) * SCALE, atlas_w);
    let v1 = tdiv((r.y + r.height) * SCALE, atlas_h);
    seq![
        VertexText { position: [x_left as i64, y_top as i64], uv_coords: [u0 as i64, v0 as i64] },
        VertexText { position: [x_right as i64, y_top as i64], uv_coords: [u1 as i64, v0 as i64] },
        VertexText {
            position: [x_right as i64, y_bottom as i64],
            uv_coords: [u1 as i64, v1 as i64],
        },
        VertexText {
            position: [x_left as i64, y_bottom as i64],
            uv_coords: [u0 as i64, v1 as i64],
        },
    ]
}

/// The state of a glyph layout after some prefix of the text: the vertices
/// and triangle indices emitted so far, the cursor, and the pixel bounds.
pub struct GlyphLayout {
    pub vertices: Seq<VertexText>,
    pub indices: Seq<u32>,
    pub cursor_x: int,
    pub min_x: int,
    pub min_y: int,
    pub max_x: int,
    pub max_y: int,
}

/// The layout state advanced by one character: unmapped characters change
/// nothing; a mapped glyph emits its quad and two triangles, widens the
/// bounds, and advances the cursor.
pub open spec fn layout_step(
    st: GlyphLayout,
    map: Seq<(char, AtlasRegion)>,
    c: char,
    atlas_w: int,
    atlas_h: int,
) -> GlyphLayout {
    match lookup_region(map, c) {
        None => st,
        Some(r) => {
            let x_left = st.cursor_x + r.offset_x;
            let x_right = x_left + r.width;
            let y_top = r.offset_y as int;
            let y_bottom = y_top + r.height;
            let base = st.vertices.len() as int;
            GlyphLayout {
                vertices: st.vertices + glyph_quad(r, st.cursor_x, atlas_w, atlas_h),
                indices: st.indices + seq![
                    base as u32,
                    (base + 1) as u32,
                    (base + 2) as u32,
                    base as u32,
                    (base + 2) as u32,
                    (base + 3) as u32,
                ],
                cursor_x: st.cursor_x + region_advance(r),
                min_x: imin(st.min_x, x_left),
                min_y: imin(st.min_y, y_top),
                max_x: imax(st.max_x, x_right),
                max_y: imax(st.max_y, y_bottom),
            }
        },
    }
}

/// The layout of a whole text, character by character, starting from a
/// cursor at the origin and bounds seeded with the viewport extents.
pub open spec fn layout_text(
    text: Seq<char>,
    map: Seq<(char, AtlasRegion)>,
    atlas_w: int,
    atlas_h: int,
    viewport_w: int,
    viewport_h: int,
) -> GlyphLayout
    decreases text.len(),
{
    if text.len() == 0 {
        GlyphLayout {
            vertices: Seq::empty(),
            indices: Seq::empty(),
            cursor_x: 0,
            min_x: viewport_w,
            min_y: viewport_h,
            max_x: 0,
            max_y: 0,
        }
    } else {
        layout_step(
            layout_text(text.drop_last(), map, atlas_w, atlas_h, viewport_w, viewport_h),
            map,
            text.last(),
            atlas_w,
            atlas_h,
        )
    }
}

/// A glyph run laid out for the text pass: vertices, triangle indices, the
/// draw range, the pixel bounds for input handling, and the packed
/// interaction state.
#[derive(Clone, Debug)]
pub struct MeshText {
    pub id: u64,
    pub vertices: Vec<VertexText>,
    pub indices: Vec<u32>,
    pub draw_range: u32,
    pub bounds_min: [i64; 2],
    pub bounds_max: [i64; 2],
    pub state: u32,
}

/// The exec layout state agrees with a spec layout state, field by field.
pub open spec fn layout_matches(
    lay: GlyphLayout,
    vertices: Seq<VertexText>,
    indices: Seq<u32>,
    cursor_x: int,
    min_x: int,
    min_y: int,
    max_x: int,
    max_y: int,
) -> bool {
    &&& lay.vertices == vertices
    &&& lay.indices == indices
    &&& lay.cursor_x == cursor_x
    &&& lay.min_x == min_x
    &&& lay.min_y == min_y
    &&& lay.max_x == max_x
    &&& lay.max_y == max_y
}

/// Find the atlas region of a character, scanning the map in order.
fn find_region(map: &Vec<(char, AtlasRegion)>, c: char) -> (r: Option<AtlasRegion>)
    ensures
        r == lookup_region(map@, c),
{
    let mut k: usize = 0;
    proof {
        assert(map@.subrange(0, map@.len() as int) =~= map@);
    }
    while k < map.len()
        invariant
            0 <= k <= map@.len(),
            lookup_region(map@, c) == lookup_region(map@.subrange(k as int, map@.len() as int), c),
        decreases map@.len() - k,
    {
        let entry = &map[k];
        proof {
            let tail = map@.subrange(k as int, map@.len() as int);
            assert(tail[0] == map@[k as int]);
            assert(tail.drop_first() =~= map@.subrange(k as int + 1, map@.len() as int));
        }
        if entry.0 == c {
            return Some(entry.1);
        }
        k = k + 1;
    }
    proof {
        assert(map@.subrange(map@.len() as int, map@.len() as int).len() == 0);
    }
    None
}

impl MeshText {
    /// Lay out a string's glyph quads from the atlas map: one quad and two
    /// triangles per mapped character, cursor advanced by each glyph, pixel
    /// bounds seeded with the viewport and widened by each quad. Unmapped
    /// characters are skipped.
    #[verifier::rlimit(100)]
    pub fn new_from_string(
        id: u64,
        text: &Vec<char>,
        map: &Vec<(char, AtlasRegion)>,
        atlas_width: i64,
        atlas_height: i64,
        viewport_width: i64,
        viewport_height: i64,
    ) -> (r: MeshText)
        requires
            forall|k: int| 0 <= k < map@.len() ==> region_fits((#[trigger] map@[k]).1),
            0 < atlas_width <= GLYPH_BOUND,
            0 < atlas_height <= GLYPH_BOUND,
            0 <= viewport_width <= GLYPH_BOUND,
            0 <= viewport_height <= GLYPH_BOUND,
            text@.len() <= 1000,
        ensures
            ({
                let lay = layout_text(
                    text@,
                    map@,
                    atlas_width as int,
                    atlas_height as int,
                    viewport_width as int,
                    viewport_height as int,
                );
                &&& r.vertices@ == lay.vertices
                &&& r.indices@ == lay.indices
                &&& r.draw_range == lay.indices.len()
                &&& r.bounds_min@ == seq![lay.min_x as i64, lay.min_y as i64]
                &&& r.bounds_max@ == seq![lay.max_x as i64, lay.max_y as i64]
                &&& r.id == id
                &&& r.state == 0
            }),
    {
        let ghost aw = atlas_width as int;
        let ghost ah = atlas_height as int;
        let ghost vw = viewport_width as int;
        let ghost vh = viewport_height as int;
        let mut vertices: Vec<VertexText> = Vec::new();
        let mut indices: Vec<u32> = Vec::new();
        let mut cursor_x: i64 = 0;
        let mut min_x: i64 = viewport_width;
        let mut min_y: i64 = viewport_height;
        let mut max_x: i64 = 0;
        let mut max_y: i64 = 0;
        let mut i: usize = 0;
        while i < text.len()
            invariant
                0 <= i <= text@.len(),
                text@.len() <= 1000,
                forall|k: int| 0 <= k < map@.len() ==> region_fits((#[trigger] map@[k]).1),
                0 < atlas_width <= GLYPH_BOUND,
                0 < atlas_height <= GLYPH_BOUND,
                0 <= viewport_width <= GLYPH_BOUND,
                0 <= viewport_height <= GLYPH_BOUND,
                aw == atlas_width as int && ah == atlas_height as int,
                vw == viewport_width as int && vh == viewport_height as int,
                layout_matches(
                    layout_text(text@.subrange(0, i as int), map@, aw, ah, vw, vh),
                    vertices@,
                    indices@,
                    cursor_x as int,
                    min_x as int,
                    min_y as int,
                    max_x as int,
                    max_y as int,
                ),
                0 <= cursor_x <= i * GLYPH_BOUND,
                -GLYPH_BOUND <= min_x <= GLYPH_BOUND,
                -GLYPH_BOUND <= min_y <= GLYPH_BOUND,
                0 <= max_x <= (i + 2) * GLYPH_BOUND,
                0 <= max_y <= 2 * GLYPH_BOUND,
                vertices@.len() == 4 * indices@.len() / 6,
                indices@.len() == 6 * (vertices@.len() / 4),
                vertices@.len() <= 4 * i,
                indices@.len() <= 6 * i,
            decreases text@.len() - i,
        {
            let c = text[i];
            proof {
                let sub = text@.subrange(0, i as int + 1);
                assert(sub.drop_last() =~= text@.subrange(0, i as int));
                assert(sub.last() == text@[i as int]);
            }
            match find_region(map, c) {
                None => {
                },
                Some(region) => {
                    proof {
                        lemma_lookup_found_fits(map@, c);
                        assert((i + 1) * GLYPH_BOUND == i * GLYPH_BOUND + GLYPH_BOUND)
                            by (nonlinear_arith);
                        assert((i + 3) * GLYPH_BOUND == (i + 2) * GLYPH_BOUND + GLYPH_BOUND)
                            by (nonlinear_arith);
                        assert(i * GLYPH_BOUND <= 1000 * GLYPH_BOUND) by (nonlinear_arith)
                            requires
                                0 <= i <= 1000,
                                GLYPH_BOUND as int > 0,
                        ;
                        crate::vec3::lemma_product_bound(region.x as int, SCALE as int);
                        crate::vec3::lemma_product_bound(region.y as int, SCALE as int);
                        assert(iabs((region.x + region.width) * SCALE) <= 2 * GLYPH_BOUND as int
                            * SCALE as int) by (nonlinear_arith)
                            requires
                                iabs(region.x as int + region.width as int) <= 2
                                    * GLYPH_BOUND as int,
                                SCALE as int > 0,
                        ;
                        assert(iabs((region.y + region.height) * SCALE) <= 2 * GLYPH_BOUND as int
                            * SCALE as int) by (nonlinear_arith)
                            requires
                                iabs(region.y as int + region.height as int) <= 2
                                    * GLYPH_BOUND as int,
                                SCALE as int > 0,
                        ;
                    }
                    let x_left: i64 = cursor_x + region.offset_x;
                    let x_right: i64 = x_left + region.width;
                    let y_top: i64 = region.offset_y;
                    let y_bottom: i64 = y_top + region.height;
                    let u0: i64 = div_i64(region.x * SCALE, atlas_width);
                    let v0: i64 = div_i64(region.y * SCALE, atlas_height);
                    let u1: i64 = div_i64((region.x + region.width) * SCALE, atlas_width);
                    let v1: i64 = div_i64((region.y + region.height) * SCALE, atlas_height);
                    let base: u32 = (vertices.len() as u32);
                    vertices.push(
                        VertexText { position: [x_left, y_top], uv_coords: [u0, v0] },
                    );
                    vertices.push(
                        VertexText { position: [x_right, y_top], uv_coords: [u1, v0] },
                    );
                    vertices.push(
                        VertexText { position: [x_right, y_bottom], uv_coords: [u1, v1] },
                    );
                    vertices.push(
                        VertexText { position: [x_left, y_bottom], uv_coords: [u0, v1] },
                    );
                    indices.push(base);
                    indices.push(base + 1);
                    indices.push(base + 2);
                    indices.push(base);
                    indices.push(base + 2);
                    indices.push(base + 3);
                    min_x = if x_left < min_x {
                        x_left
                    } else {
                        min_x
                    };
                    min_y = if y_top < min_y {
                        y_top
                    } else {
                        min_y
                    };
                    max_x = if x_right > max_x {
                        x_right
                    } else {
                        max_x
                    };
                    max_y = if y_bottom > max_y {
                        y_bottom
                    } else {
                        max_y
                    };
                    let advance: i64 = match region.advance_x {
                        Some(a) => a,
                        None => region.width,
                    };
                    cursor_x = cursor_x + advance;
                    proof {
                        let prev = layout_text(text@.subrange(0, i as int), map@, aw, ah, vw, vh);
                        let next = layout_step(prev, map@, text@[i as int], aw, ah);
                        assert(vertices@ =~= prev.vertices + glyph_quad(
                            region,
                            prev.cursor_x,
                            aw,
                            ah,
                        ));
                        assert(indices@ =~= next.indices);
                    }
                },
            }
            i = i + 1;
        }
        proof {
            assert(text@.subrange(0, text@.len() as int) =~= text@);
        }
        let draw_range: u32 = indices.len() as u32;
        MeshText {
            id,
            vertices,
            indices,
            draw_range,
            bounds_min: [min_x, min_y],
            bounds_max: [max_x, max_y],
            state: 0,
        }
    }
}

/// A region found in a well-formed map is itself well-formed.
proof fn lemma_lookup_found_fits(map: Seq<(char, AtlasRegion)>, c: char)
    requires
        forall|k: int| 0 <= k < map.len() ==> region_fits((#[trigger] map[k]).1),
    ensures
        lookup_region(map, c) matches Some(r) ==> region_fits(r),
    decreases map.len(),
{
    if map.len() > 0 && map[0].0 != c {
        assert forall|k: int| 0 <= k < map.drop_first().len() implies region_fits(
            (#[trigger] map.drop_first()[k]).1,
        ) by {
            assert(map.drop_first()[k] == map[k + 1]);
        }
        lemma_lookup_found_fits(map.drop_first(), c);
    }
}

/// The interaction flags packed into one word, one bit each: hovered,
/// focused, active, disabled.
pub open spec fn packed_state(
    is_hovered: bool,
    is_focused: bool,
    is_active: bool,
    is_disabled: bool,
) -> u32 {
    ((if is_hovered {
        1int
    } else {
        0int
    }) + (if is_focused {
        2int
    } else {
        0int
    }) + (if is_active {
        4int
    } else {
        0int
    }) + (if is_disabled {
        8int
    } else {
        0int
    })) as u32
}

impl MeshText {
    /// Pack the interaction flags into the per-run state word.
    pub fn update_state(
        &mut self,
        is_hovered: bool,
        is_focused: bool,
        is_active: bool,
        is_disabled: bool,
    )
        ensures
            final(self).state == packed_state(is_hovered, is_focused, is_active, is_disabled),
            final(self).vertices == old(self).vertices,
            final(self).indices == old(self).indices,
            final(self).draw_range == old(self).draw_range,
            final(self).bounds_min == old(self).bounds_min,
            final(self).bounds_max == old(self).bounds_max,
            final(self).id == old(self).id,
    {
        let h: u32 = if is_hovered {
            1
        } else {
            0
        };
        let f: u32 = if is_focused {
            1
        } else {
            0
        };
        let a: u32 = if is_active {
            1
        } else {
            0
        };
        let d: u32 = if is_disabled {
            1
        } else {
            0
        };
        let state: u32 = h + 2 * f + 4 * a + 8 * d;
        self.state = state;
    }
}

} // verus!
