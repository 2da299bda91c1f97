//! Uploading NV12 pixels into the image of a surface.

use vstd::prelude::*;

use crate::bindings::VA_FOURCC_NV12;

verus! {

/// Where the planes of a mapped image are.
#[derive(Copy, Clone, Debug)]
pub struct ImageLayout {
    /// Where each plane starts, in bytes.
    pub offsets: [u32; 3],
    /// From one row of a plane to the next, in bytes.
    pub pitches: [u32; 3],
}

/// The length of a tightly packed NV12 frame: a luma row for each row of the
/// picture, and a chroma row for every two of them or what is left of two.
pub open spec fn nv12_length(width: int, height: int) -> int {
    width * height + width * ((height + 1) / 2)
}

/// `dest` with `row` written at `at`.
pub open spec fn overwritten(dest: Seq<u8>, at: int, row: Seq<u8>) -> Seq<u8> {
    Seq::new(
        dest.len(),
        |i: int|
            if at <= i < at + row.len() {
                row[i - at]
            } else {
                dest[i]
            },
    )
}

/// `dest` with `rows` rows of `width` bytes written one after the other: out
/// of `data`, where they lie back to back from `from` on, and to every
/// `pitch` bytes from `offset` on.
pub open spec fn with_rows(
    dest: Seq<u8>,
    offset: int,
    pitch: int,
    width: int,
    rows: nat,
    data: Seq<u8>,
    from: int,
) -> Seq<u8>
    decreases rows,
{
    if rows == 0 {
        dest
    } else {
        let y = rows - 1;
        overwritten(
            with_rows(dest, offset, pitch, width, y as nat, data, from),
            offset + y * pitch,
            data.subrange(from + y * width, from + y * width + width),
        )
    }
}

/// A plane of `rows` rows has its place in an image of `length` bytes: the
/// visible part of each row, and a whole pitch for each.
pub open spec fn plane_fits(
    length: int,
    offset: int,
    pitch: int,
    width: int,
    rows: int,
) -> bool {
    &&& offset + rows * pitch <= length
    &&& rows > 0 ==> offset + (rows - 1) * pitch + width <= length
}

/// An NV12 picture has its place in an image of `length` bytes.
pub open spec fn image_fits(length: int, layout: ImageLayout, width: int, height: int) -> bool {
    &&& plane_fits(length, layout.offsets[0] as int, layout.pitches[0] as int, width, height)
    &&& plane_fits(length, layout.offsets[1] as int, layout.pitches[1] as int, width, height / 2)
}

/// `dest` with the NV12 frame `data` written into its planes, luma first.
pub open spec fn with_nv12(
    dest: Seq<u8>,
    layout: ImageLayout,
    width: int,
    height: int,
    data: Seq<u8>,
) -> Seq<u8> {
    with_rows(
        with_rows(
            dest,
            layout.offsets[0] as int,
            layout.pitches[0] as int,
            width,
            height as nat,
            data,
            0,
        ),
        layout.offsets[1] as int,
        layout.pitches[1] as int,
        width,
        (height / 2) as nat,
        data,
        width * height,
    )
}

/// Copies one row.
fn copy_row(dest: &mut [u8], at: usize, width: usize, data: &[u8], from: usize)
    requires
        at + width <= old(dest)@.len(),
        from + width <= data@.len(),
    ensures
        final(dest)@ == overwritten(
            old(dest)@,
            at as int,
            data@.subrange(from as int, from + width),
        ),
{
    let ghost before = dest@;
    let length: usize = dest.len();
    let available: usize = data.len();
    let mut x: usize = 0;
    while x < width
        invariant
            x <= width,
            at + width <= dest@.len() == length,
            from + width <= data@.len() == available,
            dest@ == overwritten(before, at as int, data@.subrange(from as int, from + x)),
        decreases width - x,
    {
        dest[at + x] = data[from + x];
        x += 1;
        assert(dest@ =~= overwritten(before, at as int, data@.subrange(from as int, from + x)));
    }
}

/// Copies the rows of one plane.
fn copy_rows(
    dest: &mut [u8],
    offset: usize,
    pitch: usize,
    width: usize,
    rows: usize,
    data: &[u8],
    from: usize,
)
    requires
        plane_fits(
            old(dest)@.len() as int,
            offset as int,
            pitch as int,
            width as int,
            rows as int,
        ),
        from + rows * width <= data@.len(),
    ensures
        final(dest)@ == with_rows(
            old(dest)@,
            offset as int,
            pitch as int,
            width as int,
            rows as nat,
            data@,
            from as int,
        ),
        final(dest)@.len() == old(dest)@.len(),
{
    let ghost before = dest@;
    let length: usize = dest.len();
    let available: usize = data.len();
    let mut y: usize = 0;
    let mut to: usize = offset;
    let mut at: usize = from;
    proof {
        assert(0 * pitch == 0 && 0 * width == 0) by (nonlinear_arith);
        assert(rows * pitch >= 0) by (nonlinear_arith);
    }
    while y < rows
        invariant
            y <= rows,
            to == offset + y * pitch,
            at == from + y * width,
            dest@.len() == before.len() == length,
            plane_fits(
                before.len() as int,
                offset as int,
                pitch as int,
                width as int,
                rows as int,
            ),
            from + rows * width <= data@.len() == available,
            dest@ == with_rows(
                before,
                offset as int,
                pitch as int,
                width as int,
                y as nat,
                data@,
                from as int,
            ),
        decreases rows - y,
    {
        proof {
            assert(y * pitch <= (rows - 1) * pitch && y * width + width <= rows * width && y * pitch
                + pitch <= rows * pitch && (y + 1) * pitch == y * pitch + pitch && (y + 1) * width
                == y * width + width) by (nonlinear_arith)
                requires
                    y < rows,
            ;
        }
        copy_row(dest, to, width, data, at);
        y += 1;
        to += pitch;
        at += width;
    }
}

/// Uploads a tightly packed NV12 frame into the bytes of an image, going by
/// the image's offsets and pitches.
pub fn upload_nv12(dest: &mut [u8], layout: &ImageLayout, width: u32, height: u32, data: &[u8])
    requires
        image_fits(old(dest)@.len() as int, *layout, width as int, height as int),
        data@.len() >= width * height + width * (height / 2),
    ensures
        final(dest)@ == with_nv12(old(dest)@, *layout, width as int, height as int, data@),
{
    let w: usize = width as usize;
    let h: usize = height as usize;
    let available: usize = data.len();
    proof {
        assert(w * h <= available && h * w == w * h && w * (h / 2) == (h / 2) * w) by (
        nonlinear_arith)
            requires
                available >= w * h + w * (h / 2),
        ;
    }
    // Luma plane.
    copy_rows(dest, layout.offsets[0] as usize, layout.pitches[0] as usize, w, h, data, 0);
    // Interleaved chroma plane (h/2 rows of w bytes).
    copy_rows(
        dest,
        layout.offsets[1] as usize,
        layout.pitches[1] as usize,
        w,
        h / 2,
        data,
        w * h,
    );
}

/// The first NV12 in a list of image formats.
pub open spec fn first_nv12(fourccs: Seq<u32>, i: int) -> bool {
    &&& 0 <= i < fourccs.len()
    &&& fourccs[i] == VA_FOURCC_NV12
    &&& forall|j: int| 0 <= j < i ==> fourccs[j] != VA_FOURCC_NV12
}

/// Returns which of the driver's image formats is NV12: the first that is.
pub fn nv12_format(fourccs: &[u32]) -> (r: Option<usize>)
    ensures
        r is Some <==> fourccs@.contains(VA_FOURCC_NV12),
        r is Some ==> first_nv12(fourccs@, r->0 as int),
{
    let mut i: usize = 0;
    while i < fourccs.len()
        invariant
            i <= fourccs@.len(),
            forall|j: int| 0 <= j < i ==> fourccs@[j] != VA_FOURCC_NV12,
        decreases fourccs@.len() - i,
    {
        if fourccs[i] == VA_FOURCC_NV12 {
            return Some(i);
        }
        i += 1;
    }
    None
}

/// A plane's rows do not run into each other.
pub open spec fn rows_apart(pitch: int, width: int) -> bool {
    pitch >= width
}

/// The byte of a plane that holds column `x` of row `y`.
pub open spec fn place(offset: int, pitch: int, x: int, y: int) -> int {
    offset + y * pitch + x
}

/// Rows below `rows` end in front of the next one's start.
proof fn lemma_rows_in_order(pitch: int, width: int, y: int, rows: int)
    requires
        pitch >= width,
        width >= 0,
        0 <= y < rows,
    ensures
        y * pitch + width <= rows * pitch,
        y * pitch >= 0,
        rows * pitch >= 0,
        y * width + width <= rows * width,
        y * width >= 0,
{
    assert(y * pitch + width <= rows * pitch && y * pitch >= 0 && rows * pitch >= 0 && y * width
        + width <= rows * width && y * width >= 0) by (nonlinear_arith)
        requires
            pitch >= width,
            width >= 0,
            0 <= y < rows,
    ;
}

/// Writing a plane whose rows do not run into each other puts each of its
/// bytes in its place.
proof fn lemma_plane_arrives(
    dest: Seq<u8>,
    offset: int,
    pitch: int,
    width: int,
    rows: nat,
    data: Seq<u8>,
    from: int,
    x: int,
    y: int,
)
    requires
        offset >= 0,
        from >= 0,
        width >= 0,
        pitch >= 0,
        rows_apart(pitch, width),
        plane_fits(dest.len() as int, offset, pitch, width, rows as int),
        from + rows * width <= data.len(),
        0 <= x < width,
        0 <= y < rows,
    ensures
        with_rows(dest, offset, pitch, width, rows, data, from).len() == dest.len(),
        0 <= place(offset, pitch, x, y) < dest.len(),
        with_rows(dest, offset, pitch, width, rows, data, from)[place(offset, pitch, x, y)]
            == data[from + y * width + x],
    decreases rows,
{
    let last = rows - 1;
    lemma_rows_length(dest, offset, pitch, width, rows, data, from);
    lemma_rows_length(dest, offset, pitch, width, last as nat, data, from);
    lemma_rows_in_order(pitch, width, y, rows as int);
    assert(last * pitch + pitch == rows * pitch && last * width + width == rows * width) by (
    nonlinear_arith)
        requires
            last == rows - 1,
    ;
    assert(offset + y * pitch + width <= dest.len()) by {
        assert(y * pitch <= last * pitch) by (nonlinear_arith)
            requires
                y <= last,
                pitch >= 0,
        ;
    }
    if y < last {
        lemma_rows_in_order(pitch, width, y, last);
        assert(plane_fits(dest.len() as int, offset, pitch, width, last)) by {
            assert((last - 1) * pitch <= last * pitch) by (nonlinear_arith)
                requires
                    pitch >= 0,
            ;
        }
        lemma_plane_arrives(dest, offset, pitch, width, last as nat, data, from, x, y);
    }
}

/// Writing rows keeps the length.
proof fn lemma_rows_length(
    dest: Seq<u8>,
    offset: int,
    pitch: int,
    width: int,
    rows: nat,
    data: Seq<u8>,
    from: int,
)
    ensures
        with_rows(dest, offset, pitch, width, rows, data, from).len() == dest.len(),
    decreases rows,
{
    if rows > 0 {
        lemma_rows_length(dest, offset, pitch, width, (rows - 1) as nat, data, from);
    }
}

/// A byte lies in the visible part of a plane.
pub open spec fn in_plane(offset: int, pitch: int, width: int, rows: int, i: int) -> bool {
    exists|y: int|
        0 <= y < rows && #[trigger] place(offset, pitch, 0, y) <= i < place(
            offset,
            pitch,
            width,
            y,
        )
}

/// Writing a plane leaves the bytes outside of it alone.
proof fn lemma_rest_stays(
    dest: Seq<u8>,
    offset: int,
    pitch: int,
    width: int,
    rows: nat,
    data: Seq<u8>,
    from: int,
    i: int,
)
    requires
        from >= 0,
        width >= 0,
        from + rows * width <= data.len(),
        0 <= i < dest.len(),
        !in_plane(offset, pitch, width, rows as int, i),
    ensures
        with_rows(dest, offset, pitch, width, rows, data, from)[i] == dest[i],
    decreases rows,
{
    lemma_rows_length(dest, offset, pitch, width, rows, data, from);
    if rows > 0 {
        let last = rows - 1;
        lemma_rows_length(dest, offset, pitch, width, last as nat, data, from);
        assert(last * width + width == rows * width && last * width >= 0) by (nonlinear_arith)
            requires
                last == rows - 1,
                last >= 0,
                width >= 0,
        ;
        assert(!(place(offset, pitch, 0, last) <= i < place(offset, pitch, width, last)));
        if in_plane(offset, pitch, width, last, i) {
            let y = choose|y: int|
                0 <= y < last && #[trigger] place(offset, pitch, 0, y) <= i < place(
                    offset,
                    pitch,
                    width,
                    y,
                );
            assert(0 <= y < rows);
            assert(in_plane(offset, pitch, width, rows as int, i));
        }
        lemma_rest_stays(dest, offset, pitch, width, last as nat, data, from, i);
    }
}

/// The two planes of an image do not run into each other: no visible byte
/// belongs to both.
pub open spec fn planes_apart(layout: ImageLayout, width: int, height: int) -> bool {
    forall|i: int|
        !(#[trigger] in_plane(
            layout.offsets[0] as int,
            layout.pitches[0] as int,
            width,
            height,
            i,
        ) && in_plane(
            layout.offsets[1] as int,
            layout.pitches[1] as int,
            width,
            height / 2,
            i,
        ))
}

/// The rows of a plane are all that is read of the data.
proof fn lemma_rows_read(
    dest: Seq<u8>,
    offset: int,
    pitch: int,
    width: int,
    rows: nat,
    data: Seq<u8>,
    more: Seq<u8>,
    from: int,
)
    requires
        width >= 0,
        from >= 0,
        from + rows * width <= data.len(),
    ensures
        with_rows(dest, offset, pitch, width, rows, data + more, from) == with_rows(
            dest,
            offset,
            pitch,
            width,
            rows,
            data,
            from,
        ),
    decreases rows,
{
    if rows > 0 {
        let y = rows - 1;
        assert(0 <= y * width && y * width + width == rows * width) by (nonlinear_arith)
            requires
                width >= 0,
                rows >= 1,
                y == rows - 1,
        ;
        lemma_rows_read(dest, offset, pitch, width, y as nat, data, more, from);
        let (start, end) = (from + y * width, from + y * width + width);
        assert((data + more).subrange(start, end) =~= data.subrange(start, end));
    }
}

/// Bytes behind those of a frame do not matter.
pub proof fn bytes_behind_the_frame_do_not_matter(
    dest: Seq<u8>,
    layout: ImageLayout,
    width: int,
    height: int,
    data: Seq<u8>,
    more: Seq<u8>,
)
    requires
        width >= 0,
        height >= 0,
        data.len() >= nv12_length(width, height),
    ensures
        with_nv12(dest, layout, width, height, data + more) == with_nv12(
            dest,
            layout,
            width,
            height,
            data,
        ),
{
    let (h, half) = (height as nat, (height / 2) as nat);
    assert(h * width == width * height && half * width <= width * ((height + 1) / 2) && 0 <= width
        * height && 0 <= width * ((height + 1) / 2)) by (nonlinear_arith)
        requires
            h == height,
            half == height / 2,
            width >= 0,
            height >= 0,
    ;
    let (luma, luma_pitch) = (layout.offsets[0] as int, layout.pitches[0] as int);
    let (chroma, chroma_pitch) = (layout.offsets[1] as int, layout.pitches[1] as int);
    lemma_rows_read(dest, luma, luma_pitch, width, h, data, more, 0);
    let first = with_rows(dest, luma, luma_pitch, width, h, data, 0);
    lemma_rows_read(first, chroma, chroma_pitch, width, half, data, more, width * height);
}

/// An upload puts every sample of the frame in its place, and touches no
/// byte outside the visible part of the planes, in any image whose rows and
/// planes do not run into each other.
pub proof fn every_sample_arrives(
    dest: Seq<u8>,
    layout: ImageLayout,
    width: int,
    height: int,
    data: Seq<u8>,
)
    requires
        width >= 0,
        height >= 0,
        image_fits(dest.len() as int, layout, width, height),
        rows_apart(layout.pitches[0] as int, width),
        rows_apart(layout.pitches[1] as int, width),
        planes_apart(layout, width, height),
        data.len() >= width * height + width * (height / 2),
    ensures
        ({
            let image = with_nv12(dest, layout, width, height, data);
            let (luma, chroma) = (layout.offsets[0] as int, layout.offsets[1] as int);
            let (luma_pitch, chroma_pitch) = (layout.pitches[0] as int, layout.pitches[1] as int);
            &&& image.len() == dest.len()
            &&& forall|x: int, y: int|
                0 <= x < width && 0 <= y < height ==> image[#[trigger] place(
                    luma,
                    luma_pitch,
                    x,
                    y,
                )] == data[y * width + x]
            &&& forall|x: int, y: int|
                0 <= x < width && 0 <= y < height / 2 ==> image[#[trigger] place(
                    chroma,
                    chroma_pitch,
                    x,
                    y,
                )] == data[width * height + y * width + x]
            &&& forall|i: int|
                0 <= i < dest.len() && !in_plane(luma, luma_pitch, width, height, i) && !in_plane(
                    chroma,
                    chroma_pitch,
                    width,
                    height / 2,
                    i,
                ) ==> #[trigger] image[i] == dest[i]
        }),
{
    let (luma, chroma) = (layout.offsets[0] as int, layout.offsets[1] as int);
    let (luma_pitch, chroma_pitch) = (layout.pitches[0] as int, layout.pitches[1] as int);
    let (h, half) = (height as nat, (height / 2) as nat);
    let first = with_rows(dest, luma, luma_pitch, width, h, data, 0);
    let image = with_nv12(dest, layout, width, height, data);
    assert(h * width == width * height && half * width == width * (height / 2) && width * height
        >= 0 && width * (height / 2) >= 0) by (nonlinear_arith)
        requires
            h == height,
            half == height / 2,
            width >= 0,
            height >= 0,
    ;
    lemma_rows_length(dest, luma, luma_pitch, width, h, data, 0);
    lemma_rows_length(first, chroma, chroma_pitch, width, half, data, width * height);
    assert forall|x: int, y: int| 0 <= x < width && 0 <= y < height implies image[#[trigger] place(
        luma,
        luma_pitch,
        x,
        y,
    )] == data[y * width + x] by {
        lemma_plane_arrives(dest, luma, luma_pitch, width, h, data, 0, x, y);
        let i = place(luma, luma_pitch, x, y);
        assert(place(luma, luma_pitch, 0, y) <= i < place(luma, luma_pitch, width, y));
        assert(in_plane(luma, luma_pitch, width, height, i));
        lemma_rest_stays(first, chroma, chroma_pitch, width, half, data, width * height, i);
    }
    assert forall|x: int, y: int|
        0 <= x < width && 0 <= y < height / 2 implies image[#[trigger] place(
        chroma,
        chroma_pitch,
        x,
        y,
    )] == data[width * height + y * width + x] by {
        lemma_plane_arrives(first, chroma, chroma_pitch, width, half, data, width * height, x, y);
    }
    assert forall|i: int|
        0 <= i < dest.len() && !in_plane(luma, luma_pitch, width, height, i) && !in_plane(
            chroma,
            chroma_pitch,
            width,
            height / 2,
            i,
        ) implies #[trigger] image[i] == dest[i] by {
        lemma_rest_stays(dest, luma, luma_pitch, width, h, data, 0, i);
        lemma_rest_stays(first, chroma, chroma_pitch, width, half, data, width * height, i);
    }
}

} // verus!
