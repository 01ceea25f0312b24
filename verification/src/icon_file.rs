//! The icon as files: PNG frames (encoded by the `png` crate), 32-bit DIB
//! frames, and the Windows `.ico` and macOS `.icns` containers that hold them.
use crate::icon::{draw_monitor_icon, icon_pixel};
use vstd::prelude::*;

verus! {

#[verifier::external_type_specification]
#[verifier::external_body]
pub struct ExEncodingError(png::EncodingError);

/// The bytes `png::Encoder` writes for an RGBA image with 8 bits per sample
/// at `Compression::Best`.
pub uninterp spec fn png_rgba8(width: u32, height: u32, rgba: Seq<u8>) -> Seq<u8>;

/// `png::Encoder::new` over a `Vec`, then `set_color(Rgba)`,
/// `set_depth(Eight)`, `set_compression(Best)`, `write_header` and
/// `write_image_data`; dropping the writer appends the closing chunk. It
/// succeeds exactly when the image has a width, a height and 4 bytes per
/// pixel (the source refuses a zero width or height and a buffer of another
/// size, and writing into a `Vec` does not fail); the bytes are then a
/// function of the arguments.
#[verifier::external_body]
fn encode_png(width: u32, height: u32, rgba: &[u8]) -> (r: Result<Vec<u8>, png::EncodingError>)
    requires
        4 * width * height <= usize::MAX,
    ensures
        r is Ok <==> (width > 0 && height > 0 && rgba@.len() == 4 * width * height),
        r matches Ok(b) ==> b@ == png_rgba8(width, height, rgba@),
{
    let mut out = Vec::new();
    {
        let mut encoder = png::Encoder::new(&mut out, width, height);
        encoder.set_color(png::ColorType::Rgba);
        encoder.set_depth(png::BitDepth::Eight);
        encoder.set_compression(png::Compression::Best);
        let mut writer = encoder.write_header()?;
        writer.write_image_data(rgba)?;
    }
    Ok(out)
}

/// The text of a `png::EncodingError` (its `Display`).
#[verifier::external_body]
fn encoding_message(e: &png::EncodingError) -> String {
    e.to_string()
}

// ---------------------------------------------------------------------------
// Bytes
// ---------------------------------------------------------------------------
pub open spec fn le16(v: int) -> Seq<u8> {
    seq![(v % 256) as u8, ((v / 256) % 256) as u8]
}

pub open spec fn le32(v: int) -> Seq<u8> {
    seq![(v % 256) as u8, ((v / 256) % 256) as u8, ((v / 0x10000) % 256) as u8, ((v / 0x100_0000) % 256) as u8]
}

pub open spec fn be32(v: int) -> Seq<u8> {
    seq![((v / 0x100_0000) % 256) as u8, ((v / 0x10000) % 256) as u8, ((v / 256) % 256) as u8, (v % 256) as u8]
}

pub open spec fn zeros(n: nat) -> Seq<u8> {
    Seq::new(n, |i: int| 0u8)
}

fn push_le16(out: &mut Vec<u8>, v: u16)
    ensures
        final(out)@ == old(out)@ + le16(v as int),
{
    out.push((v % 256) as u8);
    out.push(((v / 256) % 256) as u8);
    assert(final(out)@ =~= old(out)@ + le16(v as int));
}

fn push_le32(out: &mut Vec<u8>, v: u32)
    ensures
        final(out)@ == old(out)@ + le32(v as int),
{
    out.push((v % 256) as u8);
    out.push(((v / 256) % 256) as u8);
    out.push(((v / 0x10000) % 256) as u8);
    out.push(((v / 0x100_0000) % 256) as u8);
    assert(final(out)@ =~= old(out)@ + le32(v as int));
}

fn push_be32(out: &mut Vec<u8>, v: u32)
    ensures
        final(out)@ == old(out)@ + be32(v as int),
{
    out.push(((v / 0x100_0000) % 256) as u8);
    out.push(((v / 0x10000) % 256) as u8);
    out.push(((v / 256) % 256) as u8);
    out.push((v % 256) as u8);
    assert(final(out)@ =~= old(out)@ + be32(v as int));
}

fn push_all(out: &mut Vec<u8>, bytes: &[u8])
    ensures
        final(out)@ == old(out)@ + bytes@,
{
    let mut i: usize = 0;
    while i < bytes.len()
        invariant
            i <= bytes@.len(),
            out@ == old(out)@ + bytes@.take(i as int),
        decreases bytes@.len() - i,
    {
        out.push(bytes[i]);
        i = i + 1;
        assert(out@ =~= old(out)@ + bytes@.take(i as int));
    }
    assert(bytes@.take(i as int) =~= bytes@);
}

fn push_zeros(out: &mut Vec<u8>, n: usize)
    ensures
        final(out)@ == old(out)@ + zeros(n as nat),
{
    let mut i: usize = 0;
    while i < n
        invariant
            i <= n,
            out@ == old(out)@ + zeros(i as nat),
        decreases n - i,
    {
        out.push(0);
        i = i + 1;
        assert(out@ =~= old(out)@ + zeros(i as nat));
    }
}

// ---------------------------------------------------------------------------
// Frames
// ---------------------------------------------------------------------------
/// The icon canvas of `size`×`size` pixels, row by row.
pub open spec fn canvas(size: int) -> Seq<u32> {
    Seq::new((size * size) as nat, |i: int| icon_pixel(size, i))
}

/// A premultiplied BGRA pixel as R, G, B, A bytes.
pub open spec fn rgba_bytes(px: u32) -> Seq<u8> {
    seq![((px / 0x10000) % 256) as u8, ((px / 256) % 256) as u8, (px % 256) as u8, ((px / 0x100_0000) % 256) as u8]
}

pub open spec fn rgba_of(px: Seq<u32>) -> Seq<u8>
    decreases px.len(),
{
    if px.len() == 0 {
        Seq::empty()
    } else {
        rgba_of(px.drop_last()) + rgba_bytes(px.last())
    }
}

proof fn lemma_rgba_len(px: Seq<u32>)
    ensures
        rgba_of(px).len() == 4 * px.len(),
    decreases px.len(),
{
    if px.len() > 0 {
        lemma_rgba_len(px.drop_last());
    }
}

/// The canvas drawn into a new buffer.
fn drawn_canvas(size: i32) -> (r: Vec<u32>)
    requires
        0 <= size <= 23170,
    ensures
        r@ == canvas(size as int),
{
    assert(0 <= size * size <= 536848900) by (nonlinear_arith)
        requires
            0 <= size <= 23170,
    ;
    let n = (size * size) as usize;
    let mut px: Vec<u32> = vec![0u32; n];
    draw_monitor_icon(px.as_mut_slice(), size);
    assert(px@ =~= canvas(size as int));
    px
}

fn rgba(px: &Vec<u32>) -> (r: Vec<u8>)
    ensures
        r@ == rgba_of(px@),
{
    let mut out: Vec<u8> = Vec::new();
    let mut i: usize = 0;
    assert(px@.take(0) =~= Seq::<u32>::empty());
    while i < px.len()
        invariant
            i <= px@.len(),
            out@ == rgba_of(px@.take(i as int)),
        decreases px@.len() - i,
    {
        let p = px[i];
        out.push(((p / 0x10000) % 256) as u8);
        out.push(((p / 256) % 256) as u8);
        out.push((p % 256) as u8);
        out.push(((p / 0x100_0000) % 256) as u8);
        assert(px@.take(i + 1).drop_last() =~= px@.take(i as int));
        i = i + 1;
        assert(out@ =~= rgba_of(px@.take(i as int)));
    }
    assert(px@.take(i as int) =~= px@);
    out
}

/// The PNG of the `size`×`size` icon; an error (the encoder's text) for an
/// empty canvas.
pub fn png_image(size: i32) -> (r: Result<Vec<u8>, String>)
    requires
        0 <= size <= 23170,
    ensures
        match r {
            Ok(b) => size > 0 && b@ == png_rgba8(size as u32, size as u32, rgba_of(canvas(size as int))),
            Err(_) => size == 0,
        },
{
    let px = drawn_canvas(size);
    let bytes = rgba(&px);
    proof {
        lemma_rgba_len(px@);
        assert(0 <= 4 * size * size <= 2147395600) by (nonlinear_arith)
            requires
                0 <= size <= 23170,
        ;
    }
    let slice = bytes.as_slice();
    assert(slice@ == rgba_of(canvas(size as int)));
    assert(canvas(size as int).len() == size * size);
    assert(4 * (size * size) == 4 * (size as u32) * (size as u32)) by (nonlinear_arith)
        requires
            0 <= size,
    ;
    assert(slice@.len() == 4 * (size as u32) * (size as u32));
    match encode_png(size as u32, size as u32, slice) {
        Ok(b) => {
            assert(b@ == png_rgba8(size as u32, size as u32, rgba_of(canvas(size as int))));
            assert(size > 0);
            Ok(b)
        },
        Err(e) => Err(encoding_message(&e)),
    }
}

/// Row `y` of the canvas as little-endian pixels, its first `k` pixels.
pub open spec fn row_bytes(size: int, y: int, k: int) -> Seq<u8>
    decreases k,
{
    if k <= 0 {
        Seq::empty()
    } else {
        row_bytes(size, y, k - 1) + le32(icon_pixel(size, y * size + k - 1) as int)
    }
}

/// The last `rows` rows of the canvas, bottom row first.
pub open spec fn dib_rows(size: int, rows: int) -> Seq<u8>
    decreases rows,
{
    if rows <= 0 {
        Seq::empty()
    } else {
        dib_rows(size, rows - 1) + row_bytes(size, size - rows, size)
    }
}

/// A 32-bit DIB frame as an `.ico` holds it: the 40-byte header (height
/// doubled for the mask), the pixels bottom row first, then an all-zero
/// 1-bit mask with rows padded to 4 bytes.
pub open spec fn dib_spec(size: int) -> Seq<u8> {
    let xor_size = size * size * 4;
    let and_size = ((size + 31) / 32) * 4 * size;
    le32(40) + le32(size) + le32(size * 2) + le16(1) + le16(32) + le32(0) + le32(xor_size) + zeros(
        16,
    ) + dib_rows(size, size) + zeros(and_size as nat)
}

pub fn dib_image(size: i32) -> (r: Vec<u8>)
    requires
        0 <= size <= 23170,
    ensures
        r@ == dib_spec(size as int),
{
    let px = drawn_canvas(size);
    assert(0 <= size * size * 4 <= 2147395600) by (nonlinear_arith)
        requires
            0 <= size <= 23170,
    ;
    let and_row = ((size + 31) / 32) * 4;
    assert(0 <= and_row <= 2904);
    assert(0 <= and_row * size <= 67_286_000) by (nonlinear_arith)
        requires
            0 <= size <= 23170,
            0 <= and_row <= 2904,
    ;
    let xor_size = size * size * 4;
    let and_size = and_row * size;
    let mut data: Vec<u8> = Vec::new();
    push_le32(&mut data, 40);
    push_le32(&mut data, size as u32);
    push_le32(&mut data, (size * 2) as u32);
    push_le16(&mut data, 1);
    push_le16(&mut data, 32);
    push_le32(&mut data, 0);
    push_le32(&mut data, xor_size as u32);
    push_zeros(&mut data, 16);
    let ghost head = data@;
    let mut k: i32 = 0;
    while k < size
        invariant
            0 <= k <= size <= 23170,
            px@ == canvas(size as int),
            data@ == head + dib_rows(size as int, k as int),
        decreases size - k,
    {
        let y = size - 1 - k;
        assert(0 <= y * size <= size * size - size && size * size <= 536848900) by (nonlinear_arith)
            requires
                0 <= y < size,
                size <= 23170,
        ;
        let start = y * size;
        let ghost before = data@;
        let mut x: i32 = 0;
        while x < size
            invariant
                0 <= x <= size <= 23170,
                0 <= y < size,
                start == y * size,
                0 <= start <= size * size - size,
                size * size <= 536848900,
                px@ == canvas(size as int),
                data@ == before + row_bytes(size as int, y as int, x as int),
            decreases size - x,
        {
            let i = (start + x) as usize;
            let p = px[i];
            push_le32(&mut data, p);
            x = x + 1;
            assert(data@ =~= before + row_bytes(size as int, y as int, x as int));
        }
        k = k + 1;
        assert(data@ =~= head + dib_rows(size as int, k as int));
    }
    push_zeros(&mut data, and_size as usize);
    assert(data@ =~= dib_spec(size as int));
    data
}

proof fn lemma_row_len(size: int, y: int, k: int)
    requires
        0 <= k,
    ensures
        row_bytes(size, y, k).len() == 4 * k,
    decreases k,
{
    if k > 0 {
        lemma_row_len(size, y, k - 1);
    }
}

proof fn lemma_rows_len(size: int, rows: int)
    requires
        0 <= rows,
        0 <= size,
    ensures
        dib_rows(size, rows).len() == 4 * size * rows,
    decreases rows,
{
    if rows > 0 {
        lemma_rows_len(size, rows - 1);
        lemma_row_len(size, size - rows, size);
        assert(4 * size * (rows - 1) + 4 * size == 4 * size * rows) by (nonlinear_arith);
    } else {
        assert(4 * size * rows == 0) by (nonlinear_arith)
            requires
                rows == 0,
        ;
    }
}

// ---------------------------------------------------------------------------
// Containers
// ---------------------------------------------------------------------------
/// A frame as (pixel size, bytes).
pub open spec fn frames_of(v: Seq<(i32, Vec<u8>)>) -> Seq<(int, Seq<u8>)> {
    Seq::new(v.len(), |i: int| (v[i].0 as int, v[i].1@))
}

/// The bytes of all frames before the last, summed.
pub open spec fn frames_len(f: Seq<(int, Seq<u8>)>) -> int
    decreases f.len(),
{
    if f.len() == 0 {
        0
    } else {
        frames_len(f.drop_last()) + f.last().1.len()
    }
}

/// One `.ico` directory entry: width and height (0 meaning 256), no
/// palette, 1 plane, 32 bits per pixel, the data's length and offset.
pub open spec fn ico_entry(size: int, len: int, offset: int) -> Seq<u8> {
    let dim: u8 = if size >= 256 {
        0u8
    } else {
        size as u8
    };
    seq![dim, dim, 0u8, 0u8] + le16(1) + le16(32) + le32(len) + le32(offset)
}

pub open spec fn ico_dir(f: Seq<(int, Seq<u8>)>, base: int) -> Seq<u8>
    decreases f.len(),
{
    if f.len() == 0 {
        Seq::empty()
    } else {
        ico_dir(f.drop_last(), base) + ico_entry(
            f.last().0,
            f.last().1.len() as int,
            base + frames_len(f.drop_last()),
        )
    }
}

pub open spec fn frames_data(f: Seq<(int, Seq<u8>)>) -> Seq<u8>
    decreases f.len(),
{
    if f.len() == 0 {
        Seq::empty()
    } else {
        frames_data(f.drop_last()) + f.last().1
    }
}

/// An `.ico` file: reserved 0, type 1 (icon), the frame count, a directory
/// entry per frame, then the frames' bytes in order.
pub open spec fn ico_spec(f: Seq<(int, Seq<u8>)>) -> Seq<u8> {
    le16(0) + le16(1) + le16(f.len() as int) + ico_dir(f, (6 + 16 * f.len()) as int) + frames_data(f)
}

/// Frames small enough for the `.ico` offsets: at most 16, each of at most
/// 16 MiB, of at most 256 pixels.
pub open spec fn ico_fits(f: Seq<(int, Seq<u8>)>) -> bool {
    &&& f.len() <= 16
    &&& forall|i: int| 0 <= i < f.len() ==> 0 <= (#[trigger] f[i]).0 <= 256 && f[i].1.len() <= 0x100_0000
}

proof fn lemma_frames_len_bound(f: Seq<(int, Seq<u8>)>)
    requires
        forall|i: int| 0 <= i < f.len() ==> (#[trigger] f[i]).1.len() <= 0x100_0000,
    ensures
        0 <= frames_len(f) <= 0x100_0000 * f.len(),
    decreases f.len(),
{
    if f.len() > 0 {
        let g = f.drop_last();
        assert forall|i: int| 0 <= i < g.len() implies (#[trigger] g[i]).1.len() <= 0x100_0000 by {
            assert(g[i] == f[i]);
        }
        lemma_frames_len_bound(g);
        assert(f.last() == f[f.len() - 1]);
    }
}

/// The `.ico` file holding `frames`.
pub fn ico_from(frames: &Vec<(i32, Vec<u8>)>) -> (r: Vec<u8>)
    requires
        ico_fits(frames_of(frames@)),
    ensures
        r@ == ico_spec(frames_of(frames@)),
{
    let ghost fv = frames_of(frames@);
    let n = frames.len();
    let mut data: Vec<u8> = Vec::new();
    push_le16(&mut data, 0);
    push_le16(&mut data, 1);
    push_le16(&mut data, n as u16);
    let ghost head = data@;
    let base: u32 = (6 + 16 * n) as u32;
    let mut offset: u32 = base;
    let mut i: usize = 0;
    assert(fv.take(0) =~= Seq::<(int, Seq<u8>)>::empty());
    while i < n
        invariant
            i <= n <= 16,
            n == frames@.len(),
            fv == frames_of(frames@),
            ico_fits(fv),
            base == 6 + 16 * n,
            offset == base + frames_len(fv.take(i as int)),
            frames_len(fv.take(i as int)) <= 0x100_0000 * i,
            data@ == head + ico_dir(fv.take(i as int), base as int),
        decreases n - i,
    {
        let size = frames[i].0;
        let len = frames[i].1.len();
        assert(fv[i as int] == (size as int, frames@[i as int].1@));
        assert(len <= 0x100_0000);
        let dim: u8 = if size >= 256 {
            0
        } else {
            size as u8
        };
        data.push(dim);
        data.push(dim);
        data.push(0);
        data.push(0);
        push_le16(&mut data, 1);
        push_le16(&mut data, 32);
        push_le32(&mut data, len as u32);
        push_le32(&mut data, offset);
        proof {
            let t = fv.take(i + 1);
            assert(t.drop_last() =~= fv.take(i as int));
            assert(t.last() == fv[i as int]);
        }
        offset = offset + len as u32;
        i = i + 1;
        assert(data@ =~= head + ico_dir(fv.take(i as int), base as int));
    }
    assert(fv.take(n as int) =~= fv);
    let ghost dir = data@;
    let mut k: usize = 0;
    assert(fv.take(0) =~= Seq::<(int, Seq<u8>)>::empty());
    while k < n
        invariant
            k <= n,
            n == frames@.len(),
            fv == frames_of(frames@),
            data@ == dir + frames_data(fv.take(k as int)),
        decreases n - k,
    {
        push_all(&mut data, frames[k].1.as_slice());
        proof {
            let t = fv.take(k + 1);
            assert(t.drop_last() =~= fv.take(k as int));
            assert(t.last() == fv[k as int]);
        }
        k = k + 1;
        assert(data@ =~= dir + frames_data(fv.take(k as int)));
    }
    assert(data@ =~= ico_spec(fv));
    data
}

/// The DIB sizes of the `.ico`: 16 to 64 pixels, so the shell scales down,
/// never up; 256 comes as PNG.
pub open spec fn ico_frames() -> Seq<(int, Seq<u8>)> {
    seq![
        (16int, dib_spec(16)),
        (20int, dib_spec(20)),
        (24int, dib_spec(24)),
        (32int, dib_spec(32)),
        (40int, dib_spec(40)),
        (48int, dib_spec(48)),
        (64int, dib_spec(64)),
        (256int, png_rgba8(256, 256, rgba_of(canvas(256)))),
    ]
}

proof fn lemma_dib_small(size: int)
    requires
        0 <= size <= 64,
    ensures
        dib_spec(size).len() <= 0x100_0000,
{
    lemma_rows_len(size, size);
    assert(4 * size * size <= 16384) by (nonlinear_arith)
        requires
            0 <= size <= 64,
    ;
    assert(((size + 31) / 32) * 4 * size <= 1024) by (nonlinear_arith)
        requires
            0 <= size <= 64,
            (size + 31) / 32 <= 3,
    ;
}

fn dib_frame(size: i32) -> (r: (i32, Vec<u8>))
    requires
        0 <= size <= 64,
    ensures
        r.0 == size,
        r.1@ == dib_spec(size as int),
        r.1@.len() <= 0x100_0000,
{
    proof {
        lemma_dib_small(size as int);
    }
    (size, dib_image(size))
}

/// The Windows `.ico` of the icon; `None` only if the 256-pixel PNG would
/// not fit its 16 MiB slot.
pub fn ico_image() -> (r: Option<Vec<u8>>)
    ensures
        match r {
            Some(b) => b@ == ico_spec(ico_frames()),
            None => png_rgba8(256, 256, rgba_of(canvas(256))).len() > 0x100_0000,
        },
{
    let png = match png_image(256) {
        Ok(b) => b,
        Err(_) => {
            return None;
        },
    };
    if png.len() > 0x100_0000 {
        return None;
    }
    let mut frames: Vec<(i32, Vec<u8>)> = Vec::new();
    frames.push(dib_frame(16));
    frames.push(dib_frame(20));
    frames.push(dib_frame(24));
    frames.push(dib_frame(32));
    frames.push(dib_frame(40));
    frames.push(dib_frame(48));
    frames.push(dib_frame(64));
    frames.push((256, png));
    assert(frames_of(frames@) =~= ico_frames());
    Some(ico_from(&frames))
}

/// An `.icns` chunk: its 4-byte type, its length with this header, the PNG.
pub open spec fn icns_chunk(tag: Seq<u8>, png: Seq<u8>) -> Seq<u8> {
    tag + be32((8 + png.len()) as int) + png
}

pub open spec fn icns_body(c: Seq<(Seq<u8>, Seq<u8>)>) -> Seq<u8>
    decreases c.len(),
{
    if c.len() == 0 {
        Seq::empty()
    } else {
        icns_body(c.drop_last()) + icns_chunk(c.last().0, c.last().1)
    }
}

/// An `.icns` file: `icns`, the total length, then the chunks.
pub open spec fn icns_spec(c: Seq<(Seq<u8>, Seq<u8>)>) -> Seq<u8> {
    seq![0x69u8, 0x63u8, 0x6Eu8, 0x73u8] + be32((8 + icns_body(c).len()) as int) + icns_body(c)
}

pub open spec fn png_of(size: u32) -> Seq<u8> {
    png_rgba8(size, size, rgba_of(canvas(size as int)))
}

/// The PNG chunks of the `.icns`: `icp4` 16, `icp5` 32, `icp6` 64, `ic07`
/// 128, `ic08` 256 and `ic09` 512 pixels.
pub open spec fn icns_chunks() -> Seq<(Seq<u8>, Seq<u8>)> {
    seq![
        (seq![0x69u8, 0x63u8, 0x70u8, 0x34u8], png_of(16)),
        (seq![0x69u8, 0x63u8, 0x70u8, 0x35u8], png_of(32)),
        (seq![0x69u8, 0x63u8, 0x70u8, 0x36u8], png_of(64)),
        (seq![0x69u8, 0x63u8, 0x30u8, 0x37u8], png_of(128)),
        (seq![0x69u8, 0x63u8, 0x30u8, 0x38u8], png_of(256)),
        (seq![0x69u8, 0x63u8, 0x30u8, 0x39u8], png_of(512)),
    ]
}

proof fn lemma_body_len(c: Seq<(Seq<u8>, Seq<u8>)>)
    requires
        forall|i: int| 0 <= i < c.len() ==> (#[trigger] c[i]).0.len() == 4 && c[i].1.len() <= 0x100_0000,
    ensures
        icns_body(c).len() <= (8 + 0x100_0000) * c.len(),
    decreases c.len(),
{
    if c.len() > 0 {
        let d = c.drop_last();
        assert forall|i: int| 0 <= i < d.len() implies (#[trigger] d[i]).0.len() == 4 && d[i].1.len()
            <= 0x100_0000 by {
            assert(d[i] == c[i]);
        }
        lemma_body_len(d);
        assert(c.last() == c[c.len() - 1]);
        let last = c.last();
        assert(last.0.len() == 4 && last.1.len() <= 0x100_0000);
        assert(icns_chunk(last.0, last.1).len() == 8 + last.1.len());
        assert(icns_body(c).len() == icns_body(d).len() + icns_chunk(last.0, last.1).len());
        assert((8 + 0x100_0000) * d.len() + (8 + 0x100_0000) == (8 + 0x100_0000) * c.len()) by (nonlinear_arith)
            requires
                d.len() + 1 == c.len(),
        ;
    }
}

/// The macOS `.icns` of the icon (PNG chunks, macOS 10.8 on); `None` only
/// if a PNG would not fit its 16 MiB bound.
pub fn icns_image() -> (r: Option<Vec<u8>>)
    ensures
        match r {
            Some(b) => b@ == icns_spec(icns_chunks()),
            None => exists|i: int| 0 <= i < 6 && (#[trigger] icns_chunks()[i]).1.len() > 0x100_0000,
        },
{
    let tags: [[u8; 4]; 6] = [
        [0x69, 0x63, 0x70, 0x34],
        [0x69, 0x63, 0x70, 0x35],
        [0x69, 0x63, 0x70, 0x36],
        [0x69, 0x63, 0x30, 0x37],
        [0x69, 0x63, 0x30, 0x38],
        [0x69, 0x63, 0x30, 0x39],
    ];
    let sizes: [i32; 6] = [16, 32, 64, 128, 256, 512];
    let ghost chunks = icns_chunks();
    let mut body: Vec<u8> = Vec::new();
    let mut i: usize = 0;
    assert(chunks.take(0) =~= Seq::<(Seq<u8>, Seq<u8>)>::empty());
    while i < 6
        invariant
            i <= 6,
            chunks == icns_chunks(),
            tags@.len() == 6,
            sizes@ == seq![16i32, 32i32, 64i32, 128i32, 256i32, 512i32],
            forall|j: int| 0 <= j < 6 ==> (#[trigger] tags@[j])@ == chunks[j].0,
            forall|j: int| 0 <= j < i ==> (#[trigger] chunks[j]).1.len() <= 0x100_0000,
            body@ == icns_body(chunks.take(i as int)),
        decreases 6 - i,
    {
        let size = sizes[i];
        let png = match png_image(size) {
            Ok(b) => b,
            Err(_) => {
                return None;
            },
        };
        assert(png@ == chunks[i as int].1);
        if png.len() > 0x100_0000 {
            return None;
        }
        let tag = tags[i];
        push_all(&mut body, tag.as_slice());
        push_be32(&mut body, 8 + png.len() as u32);
        push_all(&mut body, png.as_slice());
        proof {
            let t = chunks.take(i + 1);
            assert(t.drop_last() =~= chunks.take(i as int));
            assert(t.last() == chunks[i as int]);
        }
        i = i + 1;
        assert(body@ =~= icns_body(chunks.take(i as int)));
    }
    assert(chunks.take(6) =~= chunks);
    proof {
        lemma_body_len(chunks);
    }
    let mut out: Vec<u8> = Vec::new();
    out.push(0x69);
    out.push(0x63);
    out.push(0x6E);
    out.push(0x73);
    push_be32(&mut out, 8 + body.len() as u32);
    push_all(&mut out, body.as_slice());
    assert(out@ =~= icns_spec(chunks));
    Some(out)
}

} // verus!
