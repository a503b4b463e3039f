//! Texture atlas bookkeeping: packing tiles into rows of a square atlas, handing out
//! material identifiers for the packed regions, and copying a texture's RGBA pixels into
//! its region of the atlas image (`add_texture_pixels`, `blit_rgba`).
//!
//! Texture coordinates are not kept here: a material's region is given in pixels of the
//! atlas.

use vstd::prelude::*;

verus! {

/// Identifier of a material in the atlas; 0 is the default material.
pub type MaterialId = u32;

/// Padding, in pixels, kept around every tile against bleeding.
pub const ATLAS_PADDING: u32 = 2;

/// A rectangle of the atlas, in pixels.
#[derive(Clone, Copy, Debug, PartialEq, Eq, Structural)]
pub struct PackedRect {
    pub x: u32,
    pub y: u32,
    pub width: u32,
    pub height: u32,
}

/// Packing state of a texture atlas.
pub struct AtlasPacking {
    pub atlas_size: u32,
    pub tile_size: u32,
    pub padding: u32,
    /// The pixel region of each material, in order of the identifiers.
    pub material_regions: Vec<(MaterialId, PackedRect)>,
    pub next_material_id: MaterialId,
    /// The rectangles packed so far, padding included, in packing order.
    pub packed_rects: Vec<PackedRect>,
    pub dirty: bool,
}

/// Predefined materials of the engine.
#[derive(Clone, Copy, Debug, PartialEq, Eq, Structural)]
pub struct MaterialLibrary {
    pub stone: MaterialId,
    pub dirt: MaterialId,
    pub grass_top: MaterialId,
    pub grass_side: MaterialId,
    pub sand: MaterialId,
    pub water: MaterialId,
    pub wood: MaterialId,
    pub leaves: MaterialId,
}

/// The row the packing is in after `rects`, and that row's height: a rectangle whose `y`
/// differs from the current row's starts a new row.
pub open spec fn current_row(rects: Seq<PackedRect>) -> (int, int)
    decreases rects.len(),
{
    if rects.len() == 0 {
        (0, 0)
    } else {
        let (y, row_height) = current_row(rects.drop_last());
        let r = rects.last();
        let base = if r.y != y { r.height as int } else { row_height };
        (r.y as int, if base < r.height { r.height as int } else { base })
    }
}

/// The right edge of the rectangles of row `y`: the largest `x + width` among them, or 0.
pub open spec fn row_end(rects: Seq<PackedRect>, y: int) -> int
    decreases rects.len(),
{
    if rects.len() == 0 {
        0
    } else {
        let rest = row_end(rects.drop_last(), y);
        let r = rects.last();
        if r.y == y && rest < r.x + r.width {
            r.x + r.width
        } else {
            rest
        }
    }
}

/// Where a rectangle of `width` by `height` goes: after the current row's rectangles where
/// it fits across the atlas, else at the start of the row below, where that fits down the
/// atlas; nowhere otherwise.
pub open spec fn pack_position(rects: Seq<PackedRect>, atlas_size: int, width: int, height: int) -> Option<
    (int, int),
> {
    let (y, row_height) = current_row(rects);
    let x = row_end(rects, y);
    if x + width <= atlas_size {
        Some((x, y))
    } else if y + row_height + height <= atlas_size {
        Some((0, y + row_height))
    } else {
        None
    }
}

/// The packing arithmetic stays within `u32`: what the packing of a rectangle of `width` by
/// `height` adds up does not overflow.
pub open spec fn packing_in_range(rects: Seq<PackedRect>, width: int, height: int) -> bool {
    let (y, row_height) = current_row(rects);
    &&& forall|i: int| 0 <= i < rects.len() ==> #[trigger] rects[i].x + rects[i].width <= u32::MAX
    &&& row_end(rects, y) + width <= u32::MAX
    &&& y + row_height + height <= u32::MAX
}

/// The row state never exceeds the rectangles' bounds.
proof fn lemma_row_bounds(rects: Seq<PackedRect>, y: int)
    requires
        forall|i: int| 0 <= i < rects.len() ==> #[trigger] rects[i].x + rects[i].width <= u32::MAX,
    ensures
        0 <= row_end(rects, y) <= u32::MAX,
        0 <= current_row(rects).0 <= u32::MAX,
        0 <= current_row(rects).1 <= u32::MAX,
    decreases rects.len(),
{
    if rects.len() > 0 {
        let rest = rects.drop_last();
        assert forall|i: int| 0 <= i < rest.len() implies #[trigger] rest[i].x + rest[i].width
            <= u32::MAX by {
            assert(rest[i] == rects[i]);
        }
        lemma_row_bounds(rest, y);
        assert(rects[rects.len() - 1] == rects.last());
    }
}

/// Where to pack a rectangle of `width` by `height`, or `None` where the atlas is full.
pub fn find_packing_position(data: &AtlasPacking, width: u32, height: u32) -> (r: Option<PackedRect>)
    requires
        packing_in_range(data.packed_rects@, width as int, height as int),
    ensures
        match pack_position(data.packed_rects@, data.atlas_size as int, width as int, height as int) {
            Some((x, y)) => r == Some(PackedRect { x: x as u32, y: y as u32, width, height }),
            None => r is None,
        },
{
    let rects = &data.packed_rects;
    proof {
        lemma_row_bounds(rects@, 0);
    }
    let mut y: u32 = 0;
    let mut row_height: u32 = 0;
    let mut i: usize = 0;
    while i < rects.len()
        invariant
            i <= rects@.len(),
            forall|k: int| 0 <= k < rects@.len() ==> #[trigger] rects@[k].x + rects@[k].width <= u32::MAX,
            (y as int, row_height as int) == current_row(rects@.take(i as int)),
        decreases rects@.len() - i,
    {
        let rect = rects[i];
        if rect.y != y {
            y = rect.y;
            row_height = rect.height;
        }
        if row_height < rect.height {
            row_height = rect.height;
        }
        proof {
            assert(rects@.take(i + 1).drop_last() =~= rects@.take(i as int));
        }
        i += 1;
    }
    assert(rects@.take(rects@.len() as int) =~= rects@);
    let mut x: u32 = 0;
    let mut j: usize = 0;
    while j < rects.len()
        invariant
            j <= rects@.len(),
            forall|k: int| 0 <= k < rects@.len() ==> #[trigger] rects@[k].x + rects@[k].width <= u32::MAX,
            x as int == row_end(rects@.take(j as int), y as int),
        decreases rects@.len() - j,
    {
        let rect = rects[j];
        assert(rects@[j as int] == rect);
        if rect.y == y && x < rect.x + rect.width {
            x = rect.x + rect.width;
        }
        proof {
            assert(rects@.take(j + 1).drop_last() =~= rects@.take(j as int));
        }
        j += 1;
    }
    assert(rects@.take(rects@.len() as int) =~= rects@);
    if x + width <= data.atlas_size {
        return Some(PackedRect { x, y, width, height });
    }
    let next_row = y + row_height;
    if next_row + height <= data.atlas_size {
        return Some(PackedRect { x: 0, y: next_row, width, height });
    }
    None
}

/// The smaller of two sizes.
pub open spec fn min_size(a: int, b: int) -> int {
    if a < b {
        a
    } else {
        b
    }
}

/// The rectangle that a texture of `image_width` by `image_height` takes: the image cut to
/// the tile size, with padding on every side; `None` where the atlas is full.
pub open spec fn texture_rect(
    rects: Seq<PackedRect>,
    atlas_size: int,
    tile_size: int,
    padding: int,
    image_width: int,
    image_height: int,
) -> Option<PackedRect> {
    let width = min_size(image_width, tile_size) + padding * 2;
    let height = min_size(image_height, tile_size) + padding * 2;
    match pack_position(rects, atlas_size, width, height) {
        Some((x, y)) => Some(
            PackedRect { x: x as u32, y: y as u32, width: width as u32, height: height as u32 },
        ),
        None => None,
    }
}

/// The pixel region of the texture inside its packed rectangle.
pub open spec fn inner_region(rect: PackedRect, padding: int) -> PackedRect {
    PackedRect {
        x: (rect.x + padding) as u32,
        y: (rect.y + padding) as u32,
        width: (rect.width - padding * 2) as u32,
        height: (rect.height - padding * 2) as u32,
    }
}

/// Adding a texture of the given size stays within `u32`.
pub open spec fn texture_in_range(
    rects: Seq<PackedRect>,
    next_material_id: int,
    atlas_size: int,
    tile_size: int,
    padding: int,
    image_width: int,
    image_height: int,
) -> bool {
    let width = min_size(image_width, tile_size) + padding * 2;
    let height = min_size(image_height, tile_size) + padding * 2;
    &&& width <= u32::MAX
    &&& height <= u32::MAX
    &&& packing_in_range(rects, width, height)
    &&& texture_rect(rects, atlas_size, tile_size, padding, image_width, image_height) is Some
        ==> next_material_id < u32::MAX
}

impl AtlasPacking {
    /// Whether adding a texture of the given size stays within `u32`.
    pub open spec fn can_add(&self, image_width: int, image_height: int) -> bool {
        texture_in_range(
            self.packed_rects@,
            self.next_material_id as int,
            self.atlas_size as int,
            self.tile_size as int,
            self.padding as int,
            image_width,
            image_height,
        )
    }

    /// The packed rectangles lie in stacked rows, each at least one pixel high, so no
    /// two share a pixel (`lemma_stacked_rows_apart`).
    pub open spec fn layout_ok(&self) -> bool {
        rows_stacked(self.packed_rects@) && all_positive_heights(self.packed_rects@)
    }

    /// The rectangle that a texture of the given size would take.
    pub open spec fn rect_for(&self, image_width: int, image_height: int) -> Option<PackedRect> {
        texture_rect(
            self.packed_rects@,
            self.atlas_size as int,
            self.tile_size as int,
            self.padding as int,
            image_width,
            image_height,
        )
    }
}

/// The rectangles lie in rows: each starts no higher than the ones before it; one in the
/// same row starts right of every earlier one of that row; one in a later row starts
/// below every earlier one.
pub open spec fn rows_stacked(rects: Seq<PackedRect>) -> bool {
    forall|i: int, j: int|
        #![trigger rects[i], rects[j]]
        0 <= i < j < rects.len() ==> {
            &&& rects[i].y <= rects[j].y
            &&& (rects[i].y == rects[j].y ==> rects[i].x + rects[i].width <= rects[j].x)
            &&& (rects[i].y != rects[j].y ==> rects[i].y + rects[i].height <= rects[j].y)
        }
}

/// Every rectangle is at least one pixel high.
pub open spec fn all_positive_heights(rects: Seq<PackedRect>) -> bool {
    forall|i: int| 0 <= i < rects.len() ==> #[trigger] rects[i].height > 0
}

/// Two rectangles share some pixel.
pub open spec fn rects_overlap(a: PackedRect, b: PackedRect) -> bool {
    &&& a.x < b.x + b.width
    &&& b.x < a.x + a.width
    &&& a.y < b.y + b.height
    &&& b.y < a.y + a.height
}

/// No two of the rectangles share a pixel.
pub open spec fn rects_apart(rects: Seq<PackedRect>) -> bool {
    forall|i: int, j: int|
        #![trigger rects[i], rects[j]]
        0 <= i < rects.len() && 0 <= j < rects.len() && i != j ==> !rects_overlap(rects[i], rects[j])
}

/// The right edge of row `y` reaches past every rectangle of that row.
proof fn lemma_row_end_covers(rects: Seq<PackedRect>, y: int, i: int)
    requires
        0 <= i < rects.len(),
        rects[i].y == y,
    ensures
        rects[i].x + rects[i].width <= row_end(rects, y),
    decreases rects.len(),
{
    if i < rects.len() - 1 {
        lemma_row_end_covers(rects.drop_last(), y, i);
        assert(rects.drop_last()[i] == rects[i]);
    }
}

/// In stacked rows the current row is that of the last rectangle, and its height is at
/// least that of every rectangle in it.
proof fn lemma_current_row_of_stacked(rects: Seq<PackedRect>)
    requires
        rows_stacked(rects),
        rects.len() > 0,
    ensures
        current_row(rects).0 == rects.last().y,
        current_row(rects).1 >= rects.last().height,
        forall|i: int| 0 <= i < rects.len() && #[trigger] rects[i].y == rects.last().y ==> rects[i].height
            <= current_row(rects).1,
    decreases rects.len(),
{
    let rest = rects.drop_last();
    let r = rects.last();
    if rest.len() > 0 {
        assert(rows_stacked(rest)) by {
            assert forall|i: int, j: int| 0 <= i < j < rest.len() implies {
                &&& rest[i].y <= rest[j].y
                &&& (rest[i].y == rest[j].y ==> rest[i].x + rest[i].width <= rest[j].x)
                &&& (rest[i].y != rest[j].y ==> rest[i].y + rest[i].height <= rest[j].y)
            } by {
                assert(rest[i] == rects[i] && rest[j] == rects[j]);
            }
        }
        lemma_current_row_of_stacked(rest);
        assert forall|i: int| 0 <= i < rects.len() && #[trigger] rects[i].y == r.y implies rects[i].height
            <= current_row(rects).1 by {
            if i < rects.len() - 1 {
                assert(rest[i] == rects[i]);
                assert(rects[i].y <= rects[rects.len() - 2].y);
                assert(rects[rects.len() - 2].y <= r.y);
                assert(rest.last() == rects[rects.len() - 2]);
            }
        }
    }
}

/// Packing keeps the rows stacked: a rectangle of positive height put where
/// `pack_position` says lies right of its row, or in a new row below every earlier one.
pub proof fn lemma_packing_keeps_rows_stacked(rects: Seq<PackedRect>, atlas_size: int, width: int, height: int)
    requires
        rows_stacked(rects),
        all_positive_heights(rects),
        0 <= width <= u32::MAX,
        0 < height <= u32::MAX,
        pack_position(rects, atlas_size, width, height) matches Some((x, y)) && 0 <= x <= u32::MAX && 0
            <= y <= u32::MAX,
    ensures
        ({
            let (x, y) = pack_position(rects, atlas_size, width, height)->0;
            let placed = rects.push(PackedRect { x: x as u32, y: y as u32, width: width as u32, height: height as u32 });
            rows_stacked(placed) && all_positive_heights(placed)
        }),
{
    let (x, y) = pack_position(rects, atlas_size, width, height)->0;
    let rect = PackedRect { x: x as u32, y: y as u32, width: width as u32, height: height as u32 };
    let placed = rects.push(rect);
    let (row_y, row_height) = current_row(rects);
    if rects.len() > 0 {
        lemma_current_row_of_stacked(rects);
    }
    assert forall|i: int| 0 <= i < rects.len() implies {
        &&& #[trigger] rects[i].y <= rect.y
        &&& (rects[i].y == rect.y ==> rects[i].x + rects[i].width <= rect.x)
        &&& (rects[i].y != rect.y ==> rects[i].y + rects[i].height <= rect.y)
    } by {
        let last = rects.len() - 1;
        if i < last {
            assert(rects[last] == rects.last());
        }
        if rects[i].y == row_y {
            lemma_row_end_covers(rects, row_y, i);
        }
    }
    assert forall|i: int, j: int| 0 <= i < j < placed.len() implies {
        &&& #[trigger] placed[i].y <= #[trigger] placed[j].y
        &&& (placed[i].y == placed[j].y ==> placed[i].x + placed[i].width <= placed[j].x)
        &&& (placed[i].y != placed[j].y ==> placed[i].y + placed[i].height <= placed[j].y)
    } by {
        if j < rects.len() {
            assert(placed[i] == rects[i] && placed[j] == rects[j]);
        } else {
            assert(placed[i] == rects[i] && placed[j] == rect);
        }
    }
    assert forall|i: int| 0 <= i < placed.len() implies #[trigger] placed[i].height > 0 by {
        if i < rects.len() {
            assert(placed[i] == rects[i]);
        }
    }
}

/// Rectangles in stacked rows share no pixel.
pub proof fn lemma_stacked_rows_apart(rects: Seq<PackedRect>)
    requires
        rows_stacked(rects),
    ensures
        rects_apart(rects),
{
    assert forall|i: int, j: int|
        0 <= i < rects.len() && 0 <= j < rects.len() && i != j implies !rects_overlap(
        #[trigger] rects[i],
        #[trigger] rects[j],
    ) by {
        if i < j {
            assert(rects[i].y <= rects[j].y);
        } else {
            assert(rects[j].y <= rects[i].y);
        }
    }
}

/// Packing state of an empty atlas of `atlas_size` pixels square, cut to the largest texture
/// dimension the device allows; identifiers start at 1.
pub fn create_texture_atlas(atlas_size: u32, tile_size: u32, max_dimension: u32) -> (r: AtlasPacking)
    ensures
        r.atlas_size == min_size(atlas_size as int, max_dimension as int),
        r.tile_size == tile_size,
        r.padding == ATLAS_PADDING,
        r.material_regions@.len() == 0,
        r.next_material_id == 1,
        r.packed_rects@.len() == 0,
        !r.dirty,
        r.layout_ok(),
{
    let clamped = if atlas_size < max_dimension {
        atlas_size
    } else {
        max_dimension
    };
    AtlasPacking {
        atlas_size: clamped,
        tile_size,
        padding: ATLAS_PADDING,
        material_regions: Vec::new(),
        next_material_id: 1,
        packed_rects: Vec::new(),
        dirty: false,
    }
}

/// `d` is `d0` after a texture of `image_width` by `image_height` pixels was offered and
/// given material `r`: where it fits, its padded rectangle is packed, its inner region is
/// recorded under the next material identifier and the atlas is marked changed; otherwise
/// `r` is 0 and nothing is recorded.
pub open spec fn texture_added(d0: AtlasPacking, d: AtlasPacking, image_width: int, image_height: int, r: MaterialId) -> bool {
    match d0.rect_for(image_width, image_height) {
        Some(rect) => {
            &&& r == d0.next_material_id
            &&& d.next_material_id == d0.next_material_id + 1
            &&& d.packed_rects@ == d0.packed_rects@.push(rect)
            &&& d.material_regions@ == d0.material_regions@.push((r, inner_region(rect, d0.padding as int)))
            &&& d.dirty
        },
        None => {
            &&& r == 0
            &&& d.next_material_id == d0.next_material_id
            &&& d.packed_rects@ == d0.packed_rects@
            &&& d.material_regions@ == d0.material_regions@
            &&& d.dirty == d0.dirty
        },
    }
}

/// Adds a texture of `image_width` by `image_height` pixels, cut to the tile size, and
/// returns its material; 0, the default material, where the atlas is full.
pub fn add_texture(data: &mut AtlasPacking, image_width: u32, image_height: u32) -> (r: MaterialId)
    requires
        old(data).can_add(image_width as int, image_height as int),
    ensures
        final(data).atlas_size == old(data).atlas_size,
        final(data).tile_size == old(data).tile_size,
        final(data).padding == old(data).padding,
        old(data).layout_ok() && old(data).padding > 0 ==> final(data).layout_ok(),
        texture_added(*old(data), *final(data), image_width as int, image_height as int, r),
{
    let width = if image_width < data.tile_size {
        image_width
    } else {
        data.tile_size
    };
    let height = if image_height < data.tile_size {
        image_height
    } else {
        data.tile_size
    };
    let padded_width = width + data.padding * 2;
    let padded_height = height + data.padding * 2;
    match find_packing_position(data, padded_width, padded_height) {
        Some(rect) => {
            proof {
                if data.padding > 0 && data.layout_ok() {
                    lemma_row_bounds(data.packed_rects@, current_row(data.packed_rects@).0);
                    lemma_packing_keeps_rows_stacked(
                        data.packed_rects@,
                        data.atlas_size as int,
                        padded_width as int,
                        padded_height as int,
                    );
                }
            }
            let region = PackedRect {
                x: rect.x + data.padding,
                y: rect.y + data.padding,
                width,
                height,
            };
            let material_id = data.next_material_id;
            data.next_material_id = material_id + 1;
            data.material_regions.push((material_id, region));
            data.packed_rects.push(rect);
            data.dirty = true;
            material_id
        },
        None => 0,
    }
}

/// The pixel region of a material, where the atlas holds it.
pub fn get_region(data: &AtlasPacking, material_id: MaterialId) -> (r: Option<PackedRect>)
    ensures
        match r {
            Some(region) => exists|i: int|
                0 <= i < data.material_regions@.len() && data.material_regions@[i] == (
                    material_id,
                    region,
                ) && forall|j: int|
                    0 <= j < i ==> (#[trigger] data.material_regions@[j]).0 != material_id,
            None => forall|i: int|
                0 <= i < data.material_regions@.len() ==> (
                #[trigger] data.material_regions@[i]).0 != material_id,
        },
{
    let mut i: usize = 0;
    while i < data.material_regions.len()
        invariant
            i <= data.material_regions@.len(),
            forall|j: int| 0 <= j < i ==> (#[trigger] data.material_regions@[j]).0 != material_id,
        decreases data.material_regions@.len() - i,
    {
        let (id, region) = data.material_regions[i];
        if id == material_id {
            assert(data.material_regions@[i as int] == (material_id, region));
            return Some(region);
        }
        i += 1;
    }
    None
}

/// Marks the atlas as uploaded.
pub fn mark_uploaded(data: &mut AtlasPacking)
    ensures
        !final(data).dirty,
        final(data).atlas_size == old(data).atlas_size,
        final(data).tile_size == old(data).tile_size,
        final(data).padding == old(data).padding,
        final(data).next_material_id == old(data).next_material_id,
        final(data).packed_rects@ == old(data).packed_rects@,
        final(data).material_regions@ == old(data).material_regions@,
{
    data.dirty = false;
}

/// Edge, in pixels, of the solid placeholder textures of the default materials.
pub const DEFAULT_TEXTURE_EDGE: u32 = 16;

/// The materials that `count` textures of `width` by `height` pixels get, one after the
/// other, from the packing state `rects` and the next identifier `next_id`.
pub open spec fn chained_ids(
    rects: Seq<PackedRect>,
    next_id: int,
    atlas_size: int,
    tile_size: int,
    padding: int,
    width: int,
    height: int,
    count: nat,
) -> Seq<MaterialId>
    decreases count,
{
    if count == 0 {
        Seq::empty()
    } else {
        match texture_rect(rects, atlas_size, tile_size, padding, width, height) {
            Some(rect) => seq![next_id as MaterialId] + chained_ids(
                rects.push(rect),
                next_id + 1,
                atlas_size,
                tile_size,
                padding,
                width,
                height,
                (count - 1) as nat,
            ),
            None => seq![0 as MaterialId] + chained_ids(
                rects,
                next_id,
                atlas_size,
                tile_size,
                padding,
                width,
                height,
                (count - 1) as nat,
            ),
        }
    }
}

/// Adding `count` textures of `width` by `height` pixels one after the other stays within
/// `u32`.
pub open spec fn chain_in_range(
    rects: Seq<PackedRect>,
    next_id: int,
    atlas_size: int,
    tile_size: int,
    padding: int,
    width: int,
    height: int,
    count: nat,
) -> bool
    decreases count,
{
    count == 0 || {
        &&& texture_in_range(rects, next_id, atlas_size, tile_size, padding, width, height)
        &&& match texture_rect(rects, atlas_size, tile_size, padding, width, height) {
            Some(rect) => chain_in_range(
                rects.push(rect),
                next_id + 1,
                atlas_size,
                tile_size,
                padding,
                width,
                height,
                (count - 1) as nat,
            ),
            None => chain_in_range(
                rects,
                next_id,
                atlas_size,
                tile_size,
                padding,
                width,
                height,
                (count - 1) as nat,
            ),
        }
    }
}

/// The library's materials in declaration order.
pub open spec fn library_ids(lib: MaterialLibrary) -> Seq<MaterialId> {
    seq![
        lib.stone,
        lib.dirt,
        lib.grass_top,
        lib.grass_side,
        lib.sand,
        lib.water,
        lib.wood,
        lib.leaves,
    ]
}

/// Adds a placeholder texture and states what the chain of additions then continues from.
fn add_default_texture(data: &mut AtlasPacking, Ghost(count): Ghost<nat>) -> (r: MaterialId)
    requires
        count >= 1,
        chain_in_range(
            old(data).packed_rects@,
            old(data).next_material_id as int,
            old(data).atlas_size as int,
            old(data).tile_size as int,
            old(data).padding as int,
            DEFAULT_TEXTURE_EDGE as int,
            DEFAULT_TEXTURE_EDGE as int,
            count,
        ),
    ensures
        final(data).atlas_size == old(data).atlas_size,
        final(data).tile_size == old(data).tile_size,
        final(data).padding == old(data).padding,
        old(data).layout_ok() && old(data).padding > 0 ==> final(data).layout_ok(),
        chained_ids(
            old(data).packed_rects@,
            old(data).next_material_id as int,
            old(data).atlas_size as int,
            old(data).tile_size as int,
            old(data).padding as int,
            DEFAULT_TEXTURE_EDGE as int,
            DEFAULT_TEXTURE_EDGE as int,
            count,
        ) == seq![r] + chained_ids(
            final(data).packed_rects@,
            final(data).next_material_id as int,
            final(data).atlas_size as int,
            final(data).tile_size as int,
            final(data).padding as int,
            DEFAULT_TEXTURE_EDGE as int,
            DEFAULT_TEXTURE_EDGE as int,
            (count - 1) as nat,
        ),
        chain_in_range(
            final(data).packed_rects@,
            final(data).next_material_id as int,
            final(data).atlas_size as int,
            final(data).tile_size as int,
            final(data).padding as int,
            DEFAULT_TEXTURE_EDGE as int,
            DEFAULT_TEXTURE_EDGE as int,
            (count - 1) as nat,
        ),
{
    add_texture(data, DEFAULT_TEXTURE_EDGE, DEFAULT_TEXTURE_EDGE)
}

/// Adds the placeholder textures of the default materials, in declaration order; a material
/// that no longer fits is the default material 0.
pub fn load_default_materials(data: &mut AtlasPacking) -> (lib: MaterialLibrary)
    requires
        chain_in_range(
            old(data).packed_rects@,
            old(data).next_material_id as int,
            old(data).atlas_size as int,
            old(data).tile_size as int,
            old(data).padding as int,
            DEFAULT_TEXTURE_EDGE as int,
            DEFAULT_TEXTURE_EDGE as int,
            8,
        ),
    ensures
        old(data).layout_ok() && old(data).padding > 0 ==> final(data).layout_ok(),
        library_ids(lib) == chained_ids(
            old(data).packed_rects@,
            old(data).next_material_id as int,
            old(data).atlas_size as int,
            old(data).tile_size as int,
            old(data).padding as int,
            DEFAULT_TEXTURE_EDGE as int,
            DEFAULT_TEXTURE_EDGE as int,
            8,
        ),
{
    let stone = add_default_texture(data, Ghost(8));
    let dirt = add_default_texture(data, Ghost(7));
    let grass_top = add_default_texture(data, Ghost(6));
    let grass_side = add_default_texture(data, Ghost(5));
    let sand = add_default_texture(data, Ghost(4));
    let water = add_default_texture(data, Ghost(3));
    let wood = add_default_texture(data, Ghost(2));
    let leaves = add_default_texture(data, Ghost(1));
    let lib = MaterialLibrary { stone, dirt, grass_top, grass_side, sand, water, wood, leaves };
    assert(library_ids(lib) =~= seq![stone] + (seq![dirt] + (seq![grass_top] + (seq![grass_side]
        + (seq![sand] + (seq![water] + (seq![wood] + (seq![leaves] + Seq::<MaterialId>::empty()))))))));
    lib
}

/// Adds the `tiles_x` by `tiles_y` tiles of a tileset of `tileset_width` by
/// `tileset_height` pixels, row by row, and returns their materials.
pub fn add_tileset(
    data: &mut AtlasPacking,
    tileset_width: u32,
    tileset_height: u32,
    tiles_x: u32,
    tiles_y: u32,
) -> (ids: Vec<MaterialId>)
    requires
        tiles_x > 0,
        tiles_y > 0,
        tiles_x * tiles_y <= u32::MAX,
        chain_in_range(
            old(data).packed_rects@,
            old(data).next_material_id as int,
            old(data).atlas_size as int,
            old(data).tile_size as int,
            old(data).padding as int,
            (tileset_width / tiles_x) as int,
            (tileset_height / tiles_y) as int,
            (tiles_x * tiles_y) as nat,
        ),
    ensures
        old(data).layout_ok() && old(data).padding > 0 ==> final(data).layout_ok(),
        ids@ == chained_ids(
            old(data).packed_rects@,
            old(data).next_material_id as int,
            old(data).atlas_size as int,
            old(data).tile_size as int,
            old(data).padding as int,
            (tileset_width / tiles_x) as int,
            (tileset_height / tiles_y) as int,
            (tiles_x * tiles_y) as nat,
        ),
{
    let tile_width = tileset_width / tiles_x;
    let tile_height = tileset_height / tiles_y;
    let total = tiles_x * tiles_y;
    let ghost start = chained_ids(
        data.packed_rects@,
        data.next_material_id as int,
        data.atlas_size as int,
        data.tile_size as int,
        data.padding as int,
        tile_width as int,
        tile_height as int,
        total as nat,
    );
    let ghost atlas_size = data.atlas_size;
    let ghost tile_size = data.tile_size;
    let ghost padding = data.padding;
    let ghost keeps_layout = data.layout_ok() && data.padding > 0;
    let mut ids: Vec<MaterialId> = Vec::new();
    let mut k: u32 = 0;
    while k < total
        invariant
            k <= total,
            keeps_layout ==> data.layout_ok() && data.padding > 0,
            data.atlas_size == atlas_size,
            data.tile_size == tile_size,
            data.padding == padding,
            chain_in_range(
                data.packed_rects@,
                data.next_material_id as int,
                atlas_size as int,
                tile_size as int,
                padding as int,
                tile_width as int,
                tile_height as int,
                (total - k) as nat,
            ),
            start == ids@ + chained_ids(
                data.packed_rects@,
                data.next_material_id as int,
                atlas_size as int,
                tile_size as int,
                padding as int,
                tile_width as int,
                tile_height as int,
                (total - k) as nat,
            ),
        decreases total - k,
    {
        let ghost before = ids@;
        let id = add_texture(data, tile_width, tile_height);
        ids.push(id);
        assert(ids@ + chained_ids(
            data.packed_rects@,
            data.next_material_id as int,
            atlas_size as int,
            tile_size as int,
            padding as int,
            tile_width as int,
            tile_height as int,
            (total - k - 1) as nat,
        ) =~= before + (seq![id] + chained_ids(
            data.packed_rects@,
            data.next_material_id as int,
            atlas_size as int,
            tile_size as int,
            padding as int,
            tile_width as int,
            tile_height as int,
            (total - k - 1) as nat,
        )));
        k += 1;
    }
    assert(ids@ =~= ids@ + chained_ids(
        data.packed_rects@,
        data.next_material_id as int,
        atlas_size as int,
        tile_size as int,
        padding as int,
        tile_width as int,
        tile_height as int,
        0,
    ));
    ids
}

/// The byte `j` of row `yy` of a `width`-pixel region at (`x0`, `y0`) in an RGBA image
/// `size` pixels wide.
pub open spec fn region_byte(size: int, x0: int, y0: int, yy: int, j: int) -> int {
    4 * ((y0 + yy) * size + x0) + j
}

/// The byte `j` of row `yy` of an RGBA image `width` pixels wide.
pub open spec fn image_byte(width: int, yy: int, j: int) -> int {
    4 * (yy * width) + j
}

/// Whether byte `i` lies outside the first `rows` rows of the region, and outside the first
/// `cols` bytes of its next row.
pub open spec fn outside_region(size: int, x0: int, y0: int, width: int, rows: int, cols: int, i: int) -> bool {
    &&& forall|yy: int, j: int|
        0 <= yy < rows && 0 <= j < 4 * width ==> i != #[trigger] region_byte(size, x0, y0, yy, j)
    &&& forall|j: int| 0 <= j < cols ==> i != #[trigger] region_byte(size, x0, y0, rows, j)
}

/// A row lies wholly before every later row of the region, and inside the atlas.
proof fn lemma_region_rows(size: int, x0: int, y0: int, width: int, height: int, yy: int, j: int)
    requires
        0 <= x0,
        0 <= y0,
        0 <= width,
        x0 + width <= size,
        y0 + height <= size,
        0 <= yy < height,
        0 <= j < 4 * width,
    ensures
        0 <= (y0 + yy) * size,
        (y0 + yy) * size + x0 + width <= size * size,
        4 * size * size == 4 * (size * size),
        0 <= region_byte(size, x0, y0, yy, j) < 4 * size * size,
        forall|y2: int, j2: int|
            0 <= y2 < yy && 0 <= j2 < 4 * width ==> #[trigger] region_byte(size, x0, y0, y2, j2)
                < region_byte(size, x0, y0, yy, j),
{
    assert(0 <= (y0 + yy) * size) by (nonlinear_arith)
        requires
            0 <= y0 + yy,
            0 <= size;
    assert((y0 + yy) * size + x0 + width <= size * size) by (nonlinear_arith)
        requires
            x0 + width <= size,
            y0 + yy + 1 <= size,
            0 <= y0 + yy;
    assert(4 * size * size == 4 * (size * size)) by (nonlinear_arith);
    assert forall|y2: int, j2: int| 0 <= y2 < yy && 0 <= j2 < 4 * width implies #[trigger] region_byte(size, x0, y0, y2, j2)
        < region_byte(size, x0, y0, yy, j) by {
        assert((y0 + y2) * size + size <= (y0 + yy) * size) by (nonlinear_arith)
            requires
                y2 + 1 <= yy,
                0 <= size;
    }
}

/// A row of the source image lies inside it.
proof fn lemma_image_rows(width: int, height: int, yy: int, j: int)
    requires
        0 <= width,
        0 <= yy < height,
        0 <= j < 4 * width,
    ensures
        0 <= yy * width,
        yy * width + width <= width * height,
        4 * width * height == 4 * (width * height),
        0 <= image_byte(width, yy, j) < 4 * width * height,
{
    assert(0 <= yy * width) by (nonlinear_arith)
        requires
            0 <= yy,
            0 <= width;
    assert(yy * width + width <= width * height) by (nonlinear_arith)
        requires
            yy + 1 <= height,
            0 <= width,
            0 <= yy;
    assert(4 * width * height == 4 * (width * height)) by (nonlinear_arith);
}

/// Copies a `width` by `height` pixel block of the RGBA image `src` (`src_width` by
/// `src_height` pixels, four bytes each, row after row) into the RGBA atlas `atlas`
/// (`atlas_size` pixels square) with its corner at (`x0`, `y0`). Every other byte of the
/// atlas stays.
pub fn blit_rgba(
    atlas: &mut Vec<u8>,
    atlas_size: u32,
    x0: u32,
    y0: u32,
    src: &[u8],
    src_width: u32,
    src_height: u32,
    width: u32,
    height: u32,
)
    requires
        old(atlas)@.len() == 4 * atlas_size * atlas_size,
        src@.len() == 4 * src_width * src_height,
        x0 + width <= atlas_size,
        y0 + height <= atlas_size,
        width <= src_width,
        height <= src_height,
    ensures
        final(atlas)@.len() == old(atlas)@.len(),
        forall|yy: int, j: int|
            0 <= yy < height && 0 <= j < 4 * width ==> final(atlas)@[#[trigger] region_byte(
                atlas_size as int,
                x0 as int,
                y0 as int,
                yy,
                j,
            )] == src@[image_byte(src_width as int, yy, j)],
        forall|i: int|
            0 <= i < old(atlas)@.len() && outside_region(
                atlas_size as int,
                x0 as int,
                y0 as int,
                width as int,
                height as int,
                0,
                i,
            ) ==> final(atlas)@[i] == old(atlas)@[i],
{
    let ghost size = atlas_size as int;
    let ghost before = atlas@;
    let total: usize = atlas.len();
    let src_total: usize = src.len();
    proof {
        assert(4 * width <= 4 * size * size) by (nonlinear_arith)
            requires
                width <= size,
                0 <= width;
    }
    let row_bytes: usize = 4 * width as usize;
    let mut y: u32 = 0;
    while y < height
        invariant
            atlas@.len() == before.len(),
            before.len() == 4 * size * size,
            total == before.len(),
            src_total == src@.len(),
            size == atlas_size,
            src@.len() == 4 * src_width * src_height,
            x0 + width <= atlas_size,
            y0 + height <= atlas_size,
            width <= src_width,
            height <= src_height,
            row_bytes == 4 * width,
            y <= height,
            forall|yy: int, j: int|
                0 <= yy < y && 0 <= j < 4 * width ==> atlas@[#[trigger] region_byte(size, x0 as int, y0 as int, yy, j)]
                    == src@[image_byte(src_width as int, yy, j)],
            forall|i: int|
                0 <= i < before.len() && outside_region(size, x0 as int, y0 as int, width as int, y as int, 0, i)
                    ==> atlas@[i] == before[i],
        decreases height - y,
    {
        let mut j: usize = 0;
        while j < row_bytes
            invariant
                atlas@.len() == before.len(),
                before.len() == 4 * size * size,
                total == before.len(),
                src_total == src@.len(),
            src_total == src@.len(),
                size == atlas_size,
                src@.len() == 4 * src_width * src_height,
                x0 + width <= atlas_size,
                y0 + height <= atlas_size,
                width <= src_width,
                height <= src_height,
                row_bytes == 4 * width,
                y < height,
                j <= row_bytes,
                forall|yy: int, jj: int|
                    0 <= yy < y && 0 <= jj < 4 * width ==> atlas@[#[trigger] region_byte(size, x0 as int, y0 as int, yy, jj)]
                        == src@[image_byte(src_width as int, yy, jj)],
                forall|jj: int|
                    0 <= jj < j ==> atlas@[#[trigger] region_byte(size, x0 as int, y0 as int, y as int, jj)]
                        == src@[image_byte(src_width as int, y as int, jj)],
                forall|i: int|
                    0 <= i < before.len() && outside_region(size, x0 as int, y0 as int, width as int, y as int, j as int, i)
                        ==> atlas@[i] == before[i],
            decreases row_bytes - j,
        {
            proof {
                lemma_region_rows(size, x0 as int, y0 as int, width as int, height as int, y as int, j as int);
                lemma_image_rows(src_width as int, src_height as int, y as int, j as int);
            }
            let d: usize = 4 * ((y0 as usize + y as usize) * atlas_size as usize + x0 as usize) + j;
            let s: usize = 4 * (y as usize * src_width as usize) + j;
            let ghost prev = atlas@;
            atlas.set(d, src[s]);
            proof {
                assert forall|yy: int, jj: int|
                    0 <= yy < y && 0 <= jj < 4 * width implies atlas@[#[trigger] region_byte(size, x0 as int, y0 as int, yy, jj)]
                        == src@[image_byte(src_width as int, yy, jj)] by {
                    assert(region_byte(size, x0 as int, y0 as int, yy, jj) < d);
                }
                assert forall|i: int|
                    0 <= i < before.len() && outside_region(size, x0 as int, y0 as int, width as int, y as int, j + 1, i)
                        implies atlas@[i] == before[i] by {
                    assert(i != region_byte(size, x0 as int, y0 as int, y as int, j as int));
                    assert(outside_region(size, x0 as int, y0 as int, width as int, y as int, j as int, i));
                }
            }
            j += 1;
        }
        proof {
            assert forall|i: int|
                0 <= i < before.len() && outside_region(size, x0 as int, y0 as int, width as int, y + 1, 0, i)
                    implies atlas@[i] == before[i] by {
                assert forall|jj: int| 0 <= jj < row_bytes implies i != #[trigger] region_byte(size, x0 as int, y0 as int, y as int, jj) by {
                    assert(0 <= y < y + 1 && 0 <= jj < 4 * width);
                }
                assert(outside_region(size, x0 as int, y0 as int, width as int, y as int, row_bytes as int, i));
            }
        }
        y += 1;
    }
}

/// Whether the region lies inside an atlas `atlas_size` pixels square.
pub open spec fn region_inside(region: PackedRect, atlas_size: int) -> bool {
    region.x + region.width <= atlas_size && region.y + region.height <= atlas_size
}

/// Adds the RGBA texture `rgba`, `image_width` by `image_height` pixels, to the atlas: packs
/// it as `add_texture` does and, where it fits, copies its pixels, cut to the tile size,
/// into its region of the RGBA atlas image `pixels`; every other pixel stays. Returns its
/// material, or 0 where the atlas is full. A region reaching past the atlas image is
/// refused by `requires`, as no pixel can be written there.
pub fn add_texture_pixels(
    data: &mut AtlasPacking,
    pixels: &mut Vec<u8>,
    rgba: &[u8],
    image_width: u32,
    image_height: u32,
) -> (r: MaterialId)
    requires
        old(data).can_add(image_width as int, image_height as int),
        old(pixels)@.len() == 4 * old(data).atlas_size * old(data).atlas_size,
        rgba@.len() == 4 * image_width * image_height,
        old(data).rect_for(image_width as int, image_height as int) matches Some(rect) ==> region_inside(
            inner_region(rect, old(data).padding as int),
            old(data).atlas_size as int,
        ),
    ensures
        final(data).atlas_size == old(data).atlas_size,
        final(data).tile_size == old(data).tile_size,
        final(data).padding == old(data).padding,
        texture_added(*old(data), *final(data), image_width as int, image_height as int, r),
        final(pixels)@.len() == old(pixels)@.len(),
        match old(data).rect_for(image_width as int, image_height as int) {
            Some(rect) => {
                let region = inner_region(rect, old(data).padding as int);
                &&& forall|yy: int, j: int|
                    0 <= yy < region.height && 0 <= j < 4 * region.width ==> final(pixels)@[#[trigger] region_byte(
                        old(data).atlas_size as int,
                        region.x as int,
                        region.y as int,
                        yy,
                        j,
                    )] == rgba@[image_byte(image_width as int, yy, j)]
                &&& forall|i: int|
                    0 <= i < old(pixels)@.len() && outside_region(
                        old(data).atlas_size as int,
                        region.x as int,
                        region.y as int,
                        region.width as int,
                        region.height as int,
                        0,
                        i,
                    ) ==> final(pixels)@[i] == old(pixels)@[i]
            },
            None => final(pixels)@ == old(pixels)@,
        },
{
    let before = data.material_regions.len();
    let r = add_texture(data, image_width, image_height);
    let n = data.material_regions.len();
    if n > before {
        let (_, region) = data.material_regions[n - 1];
        let size = data.atlas_size;
        blit_rgba(pixels, size, region.x, region.y, rgba, image_width, image_height, region.width, region.height);
    }
    r
}

} // verus!
