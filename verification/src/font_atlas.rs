use vstd::prelude::*;

verus! {

/// Width and height of the font atlas texture
pub const FONT_ATLAS_SIZE: u32 = 4096;

/// Space left after each glyph in the font atlas, and between rows
pub const FONT_ATLAS_PADDING: u32 = 10;

/// Where a glyph of width `width` goes when the cursor is at `cursor`: there, or at the start
/// of the next row when it does not fit in what is left of the row.
pub open spec fn glyph_position(
    cursor: (int, int),
    width: int,
    atlas_width: int,
    padding: int,
    row_height: int,
) -> (int, int) {
    if width + padding > atlas_width - cursor.0 {
        (0, cursor.1 + row_height + padding)
    } else {
        cursor
    }
}

/// Cursor after the first `count` glyphs have been placed
pub open spec fn cursor_after(
    dimensions: Seq<(u32, u32)>,
    count: int,
    atlas_width: int,
    padding: int,
    row_height: int,
) -> (int, int)
    decreases count,
{
    if count <= 0 {
        (0, 0)
    } else {
        let pos = glyph_position(
            cursor_after(dimensions, count - 1, atlas_width, padding, row_height),
            dimensions[count - 1].0 as int,
            atlas_width,
            padding,
            row_height,
        );
        (pos.0 + dimensions[count - 1].0 + padding, pos.1)
    }
}

/// Position of glyph `i` in the atlas
pub open spec fn glyph_offset(
    dimensions: Seq<(u32, u32)>,
    i: int,
    atlas_width: int,
    padding: int,
    row_height: int,
) -> (int, int) {
    glyph_position(
        cursor_after(dimensions, i, atlas_width, padding, row_height),
        dimensions[i].0 as int,
        atlas_width,
        padding,
        row_height,
    )
}

/// The glyphs can be placed without overflow: each but the last fits in a row beside its
/// padding, and the rows fit in `u32`.
pub open spec fn glyphs_fit(
    dimensions: Seq<(u32, u32)>,
    atlas_width: u32,
    padding: u32,
    row_height: u32,
) -> bool {
    &&& forall|i: int| 0 <= i < dimensions.len() ==> #[trigger] dimensions[i].0 + padding <= u32::MAX
    &&& forall|i: int| 0 <= i < dimensions.len() - 1 ==> #[trigger] dimensions[i].0 + padding <= atlas_width
    &&& row_height + padding <= u32::MAX
    &&& cursor_after(dimensions, dimensions.len() as int, atlas_width as int, padding as int, row_height as int).1
        <= u32::MAX
}

/// The largest glyph height
pub open spec fn max_height_of(dimensions: Seq<(u32, u32)>) -> u32
    decreases dimensions.len(),
{
    if dimensions.len() == 0 {
        0
    } else {
        let rest = max_height_of(dimensions.drop_last());
        if dimensions.last().1 > rest {
            dimensions.last().1
        } else {
            rest
        }
    }
}

proof fn lemma_max_height_bounds(dimensions: Seq<(u32, u32)>)
    ensures
        forall|i: int| 0 <= i < dimensions.len() ==> #[trigger] dimensions[i].1 <= max_height_of(dimensions),
        dimensions.len() > 0 ==> exists|i: int| 0 <= i < dimensions.len() && dimensions[i].1 == max_height_of(dimensions),
    decreases dimensions.len(),
{
    if dimensions.len() > 0 {
        let rest = dimensions.drop_last();
        lemma_max_height_bounds(rest);
        assert forall|i: int| 0 <= i < dimensions.len() implies #[trigger] dimensions[i].1 <= max_height_of(dimensions) by {
            if i < dimensions.len() - 1 {
                assert(dimensions[i] == rest[i]);
            }
        }
        if dimensions.last().1 <= max_height_of(rest) && rest.len() > 0 {
            let k = choose|k: int| 0 <= k < rest.len() && rest[k].1 == max_height_of(rest);
            assert(dimensions[k] == rest[k]);
        }
    }
}

/// The largest glyph height, the height of the rows of the atlas
pub fn max_glyph_height(dimensions: &Vec<(u32, u32)>) -> (max_height: u32)
    requires
        dimensions@.len() > 0,
    ensures
        max_height == max_height_of(dimensions@),
        forall|i: int| 0 <= i < dimensions@.len() ==> #[trigger] dimensions@[i].1 <= max_height,
        exists|i: int| 0 <= i < dimensions@.len() && dimensions@[i].1 == max_height,
{
    let mut max_height: u32 = 0;
    let mut i: usize = 0;
    while i < dimensions.len()
        invariant
            i <= dimensions@.len(),
            max_height == max_height_of(dimensions@.take(i as int)),
        decreases dimensions@.len() - i,
    {
        assert(dimensions@.take(i + 1).drop_last() =~= dimensions@.take(i as int));
        if dimensions[i].1 > max_height {
            max_height = dimensions[i].1;
        }
        i = i + 1;
    }
    proof {
        assert(dimensions@.take(dimensions@.len() as int) =~= dimensions@);
        lemma_max_height_bounds(dimensions@);
    }
    max_height
}

proof fn lemma_cursor_y_monotonic(
    dimensions: Seq<(u32, u32)>,
    i: int,
    j: int,
    atlas_width: int,
    padding: int,
    row_height: int,
)
    requires
        0 <= i <= j,
        padding >= 0,
        row_height >= 0,
    ensures
        cursor_after(dimensions, i, atlas_width, padding, row_height).1 <= cursor_after(
            dimensions,
            j,
            atlas_width,
            padding,
            row_height,
        ).1,
    decreases j - i,
{
    if i < j {
        lemma_cursor_y_monotonic(dimensions, i, j - 1, atlas_width, padding, row_height);
    }
}

/// Offset of each glyph in the font atlas, glyphs placed left to right in rows of
/// `max_height` (plus padding), a new row begun where a glyph does not fit in the current one.
pub fn glyph_offsets(dimensions: &Vec<(u32, u32)>, atlas_width: u32, padding: u32, max_height: u32) -> (offsets:
    Vec<(u32, u32)>)
    requires
        glyphs_fit(dimensions@, atlas_width, padding, max_height),
    ensures
        offsets@.len() == dimensions@.len(),
        forall|i: int|
            0 <= i < offsets@.len() ==> (#[trigger] offsets@[i].0 as int, offsets@[i].1 as int)
                == glyph_offset(dimensions@, i, atlas_width as int, padding as int, max_height as int),
{
    let ghost w = atlas_width as int;
    let ghost p = padding as int;
    let ghost h = max_height as int;
    let mut offset_x: u32 = 0;
    let mut offset_y: u32 = 0;
    let mut offsets: Vec<(u32, u32)> = Vec::new();
    let mut i: usize = 0;
    while i < dimensions.len()
        invariant
            i <= dimensions@.len(),
            glyphs_fit(dimensions@, atlas_width, padding, max_height),
            w == atlas_width,
            p == padding,
            h == max_height,
            (offset_x as int, offset_y as int) == cursor_after(dimensions@, i as int, w, p, h),
            i > 0 ==> offset_x <= atlas_width || i == dimensions@.len(),
            offsets@.len() == i,
            forall|j: int|
                0 <= j < i ==> (#[trigger] offsets@[j].0 as int, offsets@[j].1 as int) == glyph_offset(
                    dimensions@,
                    j,
                    w,
                    p,
                    h,
                ),
        decreases dimensions@.len() - i,
    {
        let (width, _height) = dimensions[i];
        proof {
            lemma_cursor_y_monotonic(dimensions@, i + 1, dimensions@.len() as int, w, p, h);
        }
        // wrap
        if width + padding > atlas_width - offset_x {
            offset_y = offset_y + (max_height + padding);
            offset_x = 0;
        }
        offsets.push((offset_x, offset_y));
        offset_x = offset_x + (width + padding);
        i = i + 1;
    }
    offsets
}

/// Whether `glyph_offsets` can place the glyphs without overflow
pub fn glyphs_fit_in(dimensions: &Vec<(u32, u32)>, atlas_width: u32, padding: u32, row_height: u32) -> (fit:
    bool)
    ensures
        fit == glyphs_fit(dimensions@, atlas_width, padding, row_height),
{
    let ghost w = atlas_width as int;
    let ghost p = padding as int;
    let ghost h = row_height as int;
    if row_height as u64 + padding as u64 > u32::MAX as u64 {
        return false;
    }
    let n = dimensions.len();
    let mut x: u64 = 0;
    let mut y: u64 = 0;
    let mut i: usize = 0;
    while i < n
        invariant
            n == dimensions@.len(),
            i <= n,
            w == atlas_width,
            p == padding,
            h == row_height,
            row_height + padding <= u32::MAX,
            forall|j: int| 0 <= j < i ==> #[trigger] dimensions@[j].0 + padding <= u32::MAX,
            forall|j: int| 0 <= j < i && j < n - 1 ==> #[trigger] dimensions@[j].0 + padding <= atlas_width,
            (x as int, y as int) == cursor_after(dimensions@, i as int, w, p, h),
            x <= u32::MAX,
            y <= u32::MAX,
        decreases n - i,
    {
        let step = dimensions[i].0 as u64 + padding as u64;
        if step > u32::MAX as u64 {
            return false;
        }
        if i + 1 < n && step > atlas_width as u64 {
            return false;
        }
        if x + step > atlas_width as u64 {
            y = y + (row_height as u64 + padding as u64);
            x = 0;
        }
        x = x + step;
        if y > u32::MAX as u64 {
            proof {
                lemma_cursor_y_monotonic(dimensions@, i + 1, n as int, w, p, h);
            }
            return false;
        }
        i = i + 1;
    }
    true
}

/// Two glyph rectangles `[x, x + width) x [y, y + height)` do not overlap.
pub open spec fn disjoint_rects(a: (int, int), a_size: (u32, u32), b: (int, int), b_size: (u32, u32)) -> bool {
    ||| a.0 + a_size.0 <= b.0
    ||| b.0 + b_size.0 <= a.0
    ||| a.1 + a_size.1 <= b.1
    ||| b.1 + b_size.1 <= a.1
}

/// A later glyph is below the rows of an earlier one, or in the same row to its right,
/// past the padding.
proof fn lemma_later_glyph_after(
    dimensions: Seq<(u32, u32)>,
    i: int,
    j: int,
    w: int,
    p: int,
    h: int,
)
    requires
        0 <= i < j < dimensions.len(),
        p >= 0,
        h >= 0,
    ensures
        ({
            let a = glyph_offset(dimensions, i, w, p, h);
            let b = glyph_offset(dimensions, j, w, p, h);
            ||| b.1 >= a.1 + h + p
            ||| (b.1 == a.1 && b.0 >= a.0 + dimensions[i].0 + p)
        }),
    decreases j - i,
{
    let a = glyph_offset(dimensions, i, w, p, h);
    let b = glyph_offset(dimensions, j, w, p, h);
    let c = cursor_after(dimensions, j, w, p, h);
    if j == i + 1 {
        assert(c == (a.0 + dimensions[i].0 + p, a.1));
    } else {
        lemma_later_glyph_after(dimensions, i, j - 1, w, p, h);
        let m = glyph_offset(dimensions, j - 1, w, p, h);
        assert(c == (m.0 + dimensions[j - 1].0 + p, m.1));
    }
}

/// Glyphs placed in the atlas do not overlap, when no glyph is higher than the rows.
pub proof fn glyphs_do_not_overlap(
    dimensions: Seq<(u32, u32)>,
    atlas_width: u32,
    padding: u32,
    max_height: u32,
    i: int,
    j: int,
)
    requires
        0 <= i < j < dimensions.len(),
        forall|k: int| 0 <= k < dimensions.len() ==> #[trigger] dimensions[k].1 <= max_height,
    ensures
        disjoint_rects(
            glyph_offset(dimensions, i, atlas_width as int, padding as int, max_height as int),
            dimensions[i],
            glyph_offset(dimensions, j, atlas_width as int, padding as int, max_height as int),
            dimensions[j],
        ),
{
    lemma_later_glyph_after(dimensions, i, j, atlas_width as int, padding as int, max_height as int);
    assert(dimensions[i].1 <= max_height);
}

/// A glyph that is not the last lies within the width of the atlas.
pub proof fn glyph_within_atlas_width(
    dimensions: Seq<(u32, u32)>,
    atlas_width: u32,
    padding: u32,
    max_height: u32,
    i: int,
)
    requires
        0 <= i < dimensions.len() - 1,
        glyphs_fit(dimensions, atlas_width, padding, max_height),
    ensures
        0 <= glyph_offset(dimensions, i, atlas_width as int, padding as int, max_height as int).0,
        glyph_offset(dimensions, i, atlas_width as int, padding as int, max_height as int).0
            + dimensions[i].0 <= atlas_width,
{
    lemma_cursor_x_bounded(dimensions, i, atlas_width, padding, max_height);
    assert(dimensions[i].0 + padding <= atlas_width);
}

proof fn lemma_cursor_x_bounded(
    dimensions: Seq<(u32, u32)>,
    i: int,
    atlas_width: u32,
    padding: u32,
    max_height: u32,
)
    requires
        0 <= i < dimensions.len(),
        glyphs_fit(dimensions, atlas_width, padding, max_height),
    ensures
        0 <= cursor_after(dimensions, i, atlas_width as int, padding as int, max_height as int).0 <= atlas_width,
    decreases i,
{
    if i > 0 {
        lemma_cursor_x_bounded(dimensions, i - 1, atlas_width, padding, max_height);
        assert(dimensions[i - 1].0 + padding <= atlas_width);
    }
}

} // verus!
