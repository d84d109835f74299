//! CAPTCHA solver for VulnyX's download gate. The captcha is a clean
//! 160x50 PNG with a dotted 3x5 uppercase font (A-Z0-9), no distortion:
//! it is solved by binarizing, segmenting glyphs and template-matching them
//! against a built-in font table. Unknown shapes give `None`.
use vstd::prelude::*;

use crate::text::{decimal, push_decimal};

verus! {

// ---------------------------------------------------------------------
// zlib, through miniz_oxide
// ---------------------------------------------------------------------

/// What `miniz_oxide::inflate::decompress_to_vec_zlib` yields for a zlib
/// stream: the inflated bytes, or the `Debug` text of the error it reports.
pub uninterp spec fn zlib_inflate_of(data: Seq<u8>) -> Result<Seq<u8>, Seq<char>>;

/// `miniz_oxide::inflate::decompress_to_vec_zlib`: inflates a zlib stream,
/// its error given as the error's `Debug` text. The contract names the
/// outcome by the input bytes alone.
#[verifier::external_body]
fn zlib_decompress(data: &[u8]) -> (r: Result<Vec<u8>, String>)
    ensures
        match r {
            Ok(v) => zlib_inflate_of(data@) == Ok::<Seq<u8>, Seq<char>>(v@),
            Err(e) => zlib_inflate_of(data@) == Err::<Seq<u8>, Seq<char>>(e@),
        },
{
    match miniz_oxide::inflate::decompress_to_vec_zlib(data) {
        Ok(v) => Ok(v),
        Err(e) => Err(format!("{e:?}")),
    }
}

// ---------------------------------------------------------------------
// PNG model
// ---------------------------------------------------------------------

/// Why a PNG could not be turned into a luminance bitmap; a zlib failure
/// carries the inflater's own account of it.
#[derive(Debug, Clone, PartialEq, Eq)]
pub enum PngError {
    NotPng,
    Empty,
    UnsupportedColorType(u8),
    Zlib(String),
    Truncated,
    UnsupportedFilter(u8),
}

/// The contents of a [`PngError`].
pub enum PngFault {
    NotPng,
    Empty,
    UnsupportedColorType(u8),
    Zlib(Seq<char>),
    Truncated,
    UnsupportedFilter(u8),
}

impl View for PngError {
    type V = PngFault;

    open spec fn view(&self) -> PngFault {
        match self {
            PngError::NotPng => PngFault::NotPng,
            PngError::Empty => PngFault::Empty,
            PngError::UnsupportedColorType(c) => PngFault::UnsupportedColorType(*c),
            PngError::Zlib(d) => PngFault::Zlib(d@),
            PngError::Truncated => PngFault::Truncated,
            PngError::UnsupportedFilter(f) => PngFault::UnsupportedFilter(*f),
        }
    }
}

/// The 8-byte PNG file signature.
pub open spec fn png_signature() -> Seq<u8> {
    seq![0x89u8, 0x50u8, 0x4Eu8, 0x47u8, 0x0Du8, 0x0Au8, 0x1Au8, 0x0Au8]
}

pub open spec fn has_png_signature(png: Seq<u8>) -> bool {
    png.len() >= 8 && png.subrange(0, 8) == png_signature()
}

pub open spec fn tag_ihdr() -> Seq<u8> {
    seq![0x49u8, 0x48u8, 0x44u8, 0x52u8]
}

pub open spec fn tag_idat() -> Seq<u8> {
    seq![0x49u8, 0x44u8, 0x41u8, 0x54u8]
}

pub open spec fn tag_iend() -> Seq<u8> {
    seq![0x49u8, 0x45u8, 0x4Eu8, 0x44u8]
}

/// The big-endian 32-bit number at `s[i..i + 4]`.
pub open spec fn be32(s: Seq<u8>, i: int) -> int {
    s[i] * 16777216 + s[i + 1] * 65536 + s[i + 2] * 256 + s[i + 3]
}

/// The header fields and the concatenated image data gathered by walking
/// the chunks from `pos` on: `(width, height, color type, IDAT bytes)`.
/// The walk stops at `IEND` or when fewer than 8 bytes remain.
pub open spec fn scan_chunks(png: Seq<u8>, pos: int, st: (int, int, int, Seq<u8>)) -> (
    int,
    int,
    int,
    Seq<u8>,
)
    decreases png.len() - pos,
{
    if pos < 0 || pos + 8 > png.len() {
        st
    } else {
        let length = be32(png, pos);
        let tag = png.subrange(pos + 4, pos + 8);
        let chunk = png.subrange(pos + 8, pos + 8 + length);
        let next = pos + 12 + length;
        let after = if tag == tag_ihdr() {
            (be32(chunk, 0), be32(chunk, 4), chunk[9] as int, st.3)
        } else if tag == tag_idat() {
            (st.0, st.1, st.2, st.3 + chunk)
        } else {
            st
        };
        if tag == tag_iend() {
            st
        } else if next + 8 > png.len() {
            after
        } else {
            scan_chunks(png, next, after)
        }
    }
}

/// Every chunk met by the walk from `pos` lies inside the file, and an
/// `IHDR` chunk holds at least the ten bytes that are read from it.
pub open spec fn chunks_framed(png: Seq<u8>, pos: int) -> bool
    decreases png.len() - pos,
{
    if pos < 0 || pos + 8 > png.len() {
        true
    } else {
        let length = be32(png, pos);
        let tag = png.subrange(pos + 4, pos + 8);
        &&& pos + 8 + length <= png.len()
        &&& (tag == tag_ihdr() ==> length >= 10)
        &&& (tag != tag_iend() && pos + 20 + length <= png.len() ==> chunks_framed(
            png,
            pos + 12 + length,
        ))
    }
}

/// The inputs on which the decoder reads only inside the file.
pub open spec fn png_readable(png: Seq<u8>) -> bool {
    has_png_signature(png) ==> chunks_framed(png, 8)
}

/// The distance between `x` and `y`.
pub open spec fn distance(x: int, y: int) -> int {
    if x >= y {
        x - y
    } else {
        y - x
    }
}

/// The PNG Paeth predictor: of the left, upper and upper-left bytes `a`,
/// `b` and `c`, the one nearest to `a + b - c`, ties going to `a`, then
/// `b`.
pub open spec fn paeth_spec(a: int, b: int, c: int) -> int {
    let p = a + b - c;
    let pa = distance(p, a);
    let pb = distance(p, b);
    let pc = distance(p, c);
    if pa <= pb && pa <= pc {
        a
    } else if pb <= pc {
        b
    } else {
        c
    }
}

/// Byte `i` of a scanline after undoing filter `f` (0 None, 1 Sub, 2 Up,
/// 3 Average, 4 Paeth) against the previous reconstructed line `prev`.
pub open spec fn recon(f: u8, line: Seq<u8>, prev: Seq<u8>, i: int) -> u8
    decreases i,
{
    let a: int = if i >= 3 {
        recon(f, line, prev, i - 3) as int
    } else {
        0
    };
    let b: int = prev[i] as int;
    let c: int = if i >= 3 {
        prev[i - 3] as int
    } else {
        0
    };
    let pred: int = if f == 0 {
        0
    } else if f == 1 {
        a
    } else if f == 2 {
        b
    } else if f == 3 {
        (a + b) / 2
    } else {
        paeth_spec(a, b, c)
    };
    ((line[i] + pred) % 256) as u8
}

/// A scanline with its filter undone.
pub open spec fn unfilter(f: u8, line: Seq<u8>, prev: Seq<u8>) -> Seq<u8> {
    Seq::new(line.len(), |i: int| recon(f, line, prev, i))
}

/// The luminance of each RGB pixel of a line: the mean of its three bytes.
pub open spec fn luma_of_row(line: Seq<u8>) -> Seq<u8> {
    Seq::new(
        line.len() / 3,
        |k: int| ((line[3 * k] + line[3 * k + 1] + line[3 * k + 2]) / 3) as u8,
    )
}

/// `l` put in front of the bytes of a successful result.
pub open spec fn prefix_result(l: Seq<u8>, r: Result<Seq<u8>, PngFault>) -> Result<
    Seq<u8>,
    PngFault,
> {
    match r {
        Ok(rest) => Ok(l + rest),
        Err(e) => Err(e),
    }
}

/// The luminance of the `remaining` rows that start at byte `p` of the
/// inflated data, each row a filter byte and `stride` data bytes.
pub open spec fn rows_luma(
    raw: Seq<u8>,
    stride: int,
    remaining: int,
    p: int,
    prev: Seq<u8>,
) -> Result<Seq<u8>, PngFault>
    decreases remaining,
{
    if remaining <= 0 {
        Ok(Seq::empty())
    } else if p < 0 || p + 1 + stride > raw.len() {
        Err(PngFault::Truncated)
    } else if raw[p] > 4 {
        Err(PngFault::UnsupportedFilter(raw[p]))
    } else {
        let line = unfilter(raw[p], raw.subrange(p + 1, p + 1 + stride), prev);
        prefix_result(luma_of_row(line), rows_luma(raw, stride, remaining - 1, p + 1 + stride, line))
    }
}

/// The luminance bitmap of an RGB image of the given size whose filtered
/// scanlines are `raw`.
pub open spec fn image_luma(width: int, height: int, raw: Seq<u8>) -> Result<Seq<u8>, PngFault> {
    rows_luma(raw, 3 * width, height, 0, Seq::new((3 * width) as nat, |i: int| 0u8))
}

/// What decoding `png` gives: `(width, height, luminance)` or the error.
pub open spec fn png_decode(png: Seq<u8>) -> Result<(int, int, Seq<u8>), PngFault> {
    if !has_png_signature(png) {
        Err(PngFault::NotPng)
    } else {
        let s = scan_chunks(png, 8, (0, 0, 0, Seq::empty()));
        if s.0 == 0 || s.1 == 0 {
            Err(PngFault::Empty)
        } else if s.2 != 2 {
            Err(PngFault::UnsupportedColorType(s.2 as u8))
        } else {
            match zlib_inflate_of(s.3) {
                Err(d) => Err(PngFault::Zlib(d)),
                Ok(raw) => match image_luma(s.0, s.1, raw) {
                    Ok(l) => Ok((s.0, s.1, l)),
                    Err(e) => Err(e),
                },
            }
        }
    }
}

impl PngFault {
    /// The error text shown to the user.
    pub open spec fn text(self) -> Seq<char> {
        match self {
            PngFault::NotPng => "Not a PNG file."@,
            PngFault::Empty => "Empty PNG."@,
            PngFault::UnsupportedColorType(c) => "Unsupported PNG color type "@ + decimal(
                c as nat,
            ) + " (expected RGB)."@,
            PngFault::Zlib(d) => "zlib decompression failed: "@ + d,
            PngFault::Truncated => "Truncated PNG data."@,
            PngFault::UnsupportedFilter(f) => "Unsupported PNG filter "@ + decimal(f as nat)
                + "."@,
        }
    }

}

impl PngError {
    /// The error text shown to the user.
    pub fn message(&self) -> (r: String)
        ensures
            r@ == self@.text(),
    {
        let mut out = String::new();
        match self {
            PngError::NotPng => out.append("Not a PNG file."),
            PngError::Empty => out.append("Empty PNG."),
            PngError::UnsupportedColorType(c) => {
                out.append("Unsupported PNG color type ");
                push_decimal(&mut out, *c as u64);
                out.append(" (expected RGB).");
            },
            PngError::Zlib(d) => {
                out.append("zlib decompression failed: ");
                out.append(d.as_str());
            },
            PngError::Truncated => out.append("Truncated PNG data."),
            PngError::UnsupportedFilter(f) => {
                out.append("Unsupported PNG filter ");
                push_decimal(&mut out, *f as u64);
                out.append(".");
            },
        }
        out
    }
}

// ---------------------------------------------------------------------
// PNG decoding
// ---------------------------------------------------------------------

fn read_be32(s: &[u8], i: usize) -> (r: u32)
    requires
        i + 4 <= s.len(),
    ensures
        r as int == be32(s@, i as int),
{
    (s[i] as u32) * 16777216 + (s[i + 1] as u32) * 65536 + (s[i + 2] as u32) * 256 + (s[i
        + 3] as u32)
}

fn tag_is(png: &[u8], pos: usize, t0: u8, t1: u8, t2: u8, t3: u8) -> (r: bool)
    requires
        pos + 8 <= png.len(),
    ensures
        r == (png@.subrange(pos + 4, pos + 8) == seq![t0, t1, t2, t3]),
{
    let r = png[pos + 4] == t0 && png[pos + 5] == t1 && png[pos + 6] == t2 && png[pos + 7] == t3;
    proof {
        let sub = png@.subrange(pos + 4, pos + 8);
        if r {
            assert(sub =~= seq![t0, t1, t2, t3]);
        } else if sub == seq![t0, t1, t2, t3] {
            assert(sub[0] == t0 && sub[1] == t1 && sub[2] == t2 && sub[3] == t3);
        }
    }
    r
}

/// The Paeth predictor on bytes.
fn paeth(a: u8, b: u8, c: u8) -> (r: u8)
    ensures
        r as int == paeth_spec(a as int, b as int, c as int),
{
    let p: i32 = a as i32 + b as i32 - c as i32;
    let pa: i32 = if p >= a as i32 { p - a as i32 } else { a as i32 - p };
    let pb: i32 = if p >= b as i32 { p - b as i32 } else { b as i32 - p };
    let pc: i32 = if p >= c as i32 { p - c as i32 } else { c as i32 - p };
    if pa <= pb && pa <= pc {
        a
    } else if pb <= pc {
        b
    } else {
        c
    }
}

/// Walks the chunks: `(width, height, color type, IDAT bytes)`.
fn read_chunks(png: &[u8]) -> (r: (u32, u32, u8, Vec<u8>))
    requires
        has_png_signature(png@),
        chunks_framed(png@, 8),
    ensures
        scan_chunks(png@, 8, (0, 0, 0, Seq::empty())) == (
            r.0 as int,
            r.1 as int,
            r.2 as int,
            r.3@,
        ),
{
    let mut pos: usize = 8;
    let mut width: u32 = 0;
    let mut height: u32 = 0;
    let mut color: u8 = 0;
    let mut idat: Vec<u8> = Vec::new();
    let mut done = false;
    let ghost target = scan_chunks(png@, 8, (0, 0, 0, Seq::empty()));
    while !done
        invariant
            png.len() >= 8,
            target == scan_chunks(png@, 8, (0, 0, 0, Seq::empty())),
            done ==> target == (width as int, height as int, color as int, idat@),
            !done ==> {
                &&& 8 <= pos <= png.len()
                &&& chunks_framed(png@, pos as int)
                &&& target == scan_chunks(
                    png@,
                    pos as int,
                    (width as int, height as int, color as int, idat@),
                )
            },
        decreases (if done {
            0
        } else {
            png.len() - pos + 1
        }),
    {
        if pos > png.len() - 8 {
            done = true;
        } else {
            let length = read_be32(png, pos) as usize;
            let end = pos + 8 + length;
            let ghost st = (width as int, height as int, color as int, idat@);
            if tag_is(png, pos, 0x49, 0x48, 0x44, 0x52) {
                width = read_be32(png, pos + 8);
                height = read_be32(png, pos + 12);
                color = png[pos + 17];
                proof {
                    let chunk = png@.subrange(pos + 8, pos + 8 + length);
                    assert(be32(chunk, 0) == be32(png@, pos + 8));
                    assert(be32(chunk, 4) == be32(png@, pos + 12));
                    assert(chunk[9] == png@[pos + 17]);
                }
            } else if tag_is(png, pos, 0x49, 0x44, 0x41, 0x54) {
                let mut k: usize = pos + 8;
                while k < end
                    invariant
                        pos + 8 <= k <= end <= png.len(),
                        idat@ == st.3 + png@.subrange(pos + 8, k as int),
                    decreases end - k,
                {
                    idat.push(png[k]);
                    assert(png@.subrange(pos + 8, k + 1) == png@.subrange(pos + 8, k as int).push(
                        png@[k as int],
                    ));
                    k += 1;
                }
            } else if tag_is(png, pos, 0x49, 0x45, 0x4E, 0x44) {
                done = true;
            }
            if !done {
                if png.len() - end < 12 {
                    done = true;
                } else {
                    pos = end + 4;
                }
            }
        }
    }
    (width, height, color, idat)
}

proof fn lemma_luma_of_row_len(line: Seq<u8>, width: int)
    requires
        width >= 0,
        line.len() == 3 * width,
    ensures
        luma_of_row(line).len() == width,
{
}

/// Undoes the filter of one scanline: `line` holds the raw line on entry
/// and the reconstructed line on exit.
fn unfilter_line(f: u8, line: &mut Vec<u8>, prev: &Vec<u8>)
    requires
        f <= 4,
        old(line).len() == prev.len(),
    ensures
        final(line)@ == unfilter(f, old(line)@, prev@),
{
    let ghost orig = line@;
    let n = line.len();
    let mut i: usize = 0;
    while i < n
        invariant
            n == line.len() == prev.len() == orig.len(),
            i <= n,
            f <= 4,
            forall|j: int| 0 <= j < i ==> line@[j] == recon(f, orig, prev@, j),
            forall|j: int| i <= j < n ==> line@[j] == orig[j],
        decreases n - i,
    {
        let a: u8 = if i >= 3 {
            line[i - 3]
        } else {
            0
        };
        let b: u8 = prev[i];
        let c: u8 = if i >= 3 {
            prev[i - 3]
        } else {
            0
        };
        let pred: u8 = if f == 0 {
            0
        } else if f == 1 {
            a
        } else if f == 2 {
            b
        } else if f == 3 {
            ((a as u16 + b as u16) / 2) as u8
        } else {
            paeth(a, b, c)
        };
        let v = ((line[i] as u16 + pred as u16) % 256) as u8;
        line.set(i, v);
        assert(v == recon(f, orig, prev@, i as int));
        i += 1;
    }
    assert(line@ =~= unfilter(f, orig, prev@));
}

/// Undoes the PNG row filters of `height` RGB scanlines of `width` pixels
/// in `raw` (the inflated image data) and averages every pixel to its
/// luminance.
pub fn unfilter_luma(width: usize, height: usize, raw: &[u8]) -> (r: Result<Vec<u8>, PngError>)
    ensures
        match r {
            Ok(l) => image_luma(width as int, height as int, raw@) == Ok::<Seq<u8>, PngFault>(l@),
            Err(e) => image_luma(width as int, height as int, raw@) == Err::<Seq<u8>, _>(e@),
        },
{
    if height == 0 {
        return Ok(Vec::new());
    }
    if width > (usize::MAX - 1) / 3 {
        let n = raw.len();
        proof {
            let m: int = usize::MAX - 1;
            let q: int = m / 3;
            vstd::arithmetic::div_mod::lemma_fundamental_div_mod(m, 3);
            assert(width >= q + 1);
            assert(m % 3 < 3);
            assert(3 * width >= usize::MAX);
        }
        assert(raw@.len() < 1 + 3 * width);
        return Err(PngError::Truncated);
    }
    let stride = width * 3;
    let mut prev: Vec<u8> = Vec::new();
    while prev.len() < stride
        invariant
            prev.len() <= stride,
            forall|j: int| 0 <= j < prev.len() ==> prev@[j] == 0u8,
        decreases stride - prev.len(),
    {
        prev.push(0);
    }
    assert(prev@ =~= Seq::new((3 * width) as nat, |i: int| 0u8));
    let ghost whole = image_luma(width as int, height as int, raw@);
    let mut luma: Vec<u8> = Vec::new();
    let mut p: usize = 0;
    let mut r: usize = 0;
    while r < height
        invariant
            stride == 3 * width,
            stride + 1 <= usize::MAX,
            r <= height,
            p <= raw.len(),
            prev.len() == stride,
            whole == image_luma(width as int, height as int, raw@),
            whole == prefix_result(
                luma@,
                rows_luma(raw@, stride as int, height - r, p as int, prev@),
            ),
        decreases height - r,
    {
        if raw.len() - p < 1 + stride {
            return Err(PngError::Truncated);
        }
        let filter = raw[p];
        if filter > 4 {
            return Err(PngError::UnsupportedFilter(filter));
        }
        let mut line: Vec<u8> = Vec::new();
        let mut k: usize = p + 1;
        while k < p + 1 + stride
            invariant
                p + 1 + stride <= raw.len(),
                p + 1 <= k <= p + 1 + stride,
                line@ == raw@.subrange(p + 1, k as int),
            decreases p + 1 + stride - k,
        {
            line.push(raw[k]);
            assert(raw@.subrange(p + 1, k + 1) == raw@.subrange(p + 1, k as int).push(
                raw@[k as int],
            ));
            k += 1;
        }
        let ghost rest_before = rows_luma(raw@, stride as int, height - r, p as int, prev@);
        unfilter_line(filter, &mut line, &prev);
        let ghost row_start = luma@;
        let mut x: usize = 0;
        while x < width
            invariant
                line.len() == stride == 3 * width,
                x <= width,
                luma@ == row_start + luma_of_row(line@).subrange(0, x as int),
            decreases width - x,
        {
            let v = ((line[3 * x] as u16 + line[3 * x + 1] as u16 + line[3 * x + 2] as u16)
                / 3) as u8;
            luma.push(v);
            assert(luma_of_row(line@).subrange(0, x + 1) == luma_of_row(line@).subrange(
                0,
                x as int,
            ).push(v));
            x += 1;
        }
        assert(luma_of_row(line@).subrange(0, width as int) == luma_of_row(line@));
        proof {
            assert(rest_before == prefix_result(
                luma_of_row(line@),
                rows_luma(raw@, stride as int, height - r - 1, p + 1 + stride, line@),
            ));
            match rows_luma(raw@, stride as int, height - r - 1, p + 1 + stride, line@) {
                Ok(t) => {
                    assert(row_start + (luma_of_row(line@) + t) == luma@ + t);
                },
                Err(_) => {},
            }
        }
        p = p + 1 + stride;
        prev = line;
        r += 1;
    }
    assert(luma@ + Seq::<u8>::empty() == luma@);
    Ok(luma)
}

/// Whether the decoder can read `png` without running past its end: a
/// file with the PNG signature must have every chunk it walks, and the
/// header's ten bytes, inside the file. Callers check this before
/// [`decode_png_luma`] and [`solve`].
pub fn png_is_readable(png: &[u8]) -> (r: bool)
    ensures
        r == png_readable(png@),
{
    if png.len() < 8 || png[0] != 0x89 || png[1] != 0x50 || png[2] != 0x4E || png[3] != 0x47
        || png[4] != 0x0D || png[5] != 0x0A || png[6] != 0x1A || png[7] != 0x0A {
        proof {
            if png@.len() >= 8 && png@.subrange(0, 8) == png_signature() {
                assert(png@.subrange(0, 8)[0] == png@[0]);
                assert(png@.subrange(0, 8)[1] == png@[1]);
                assert(png@.subrange(0, 8)[2] == png@[2]);
                assert(png@.subrange(0, 8)[3] == png@[3]);
                assert(png@.subrange(0, 8)[4] == png@[4]);
                assert(png@.subrange(0, 8)[5] == png@[5]);
                assert(png@.subrange(0, 8)[6] == png@[6]);
                assert(png@.subrange(0, 8)[7] == png@[7]);
            }
        }
        return true;
    }
    assert(png@.subrange(0, 8) =~= png_signature());
    let mut pos: usize = 8;
    while png.len() - pos >= 8
        invariant
            8 <= pos <= png.len(),
            has_png_signature(png@),
            chunks_framed(png@, 8) == chunks_framed(png@, pos as int),
        decreases png.len() - pos,
    {
        let length = read_be32(png, pos) as usize;
        if length > png.len() - pos - 8 {
            return false;
        }
        if tag_is(png, pos, 0x49, 0x48, 0x44, 0x52) && length < 10 {
            return false;
        }
        if tag_is(png, pos, 0x49, 0x45, 0x4E, 0x44) || png.len() - pos < 20 || length > png.len()
            - pos - 20 {
            return true;
        }
        pos = pos + 12 + length;
    }
    true
}

/// Decodes a non-interlaced RGB (color type 2) PNG into a luminance bitmap
/// (0..255): `(width, height, luma)`, one byte per pixel, row by row.
pub fn decode_png_luma(png: &[u8]) -> (r: Result<(usize, usize, Vec<u8>), PngError>)
    requires
        png_readable(png@),
    ensures
        match r {
            Ok((w, h, l)) => png_decode(png@) == Ok::<_, PngFault>((w as int, h as int, l@)),
            Err(e) => png_decode(png@) == Err::<(int, int, Seq<u8>), _>(e@),
        },
{
    if png.len() < 8 || png[0] != 0x89 || png[1] != 0x50 || png[2] != 0x4E || png[3] != 0x47
        || png[4] != 0x0D || png[5] != 0x0A || png[6] != 0x1A || png[7] != 0x0A {
        proof {
            if png@.len() >= 8 && png@.subrange(0, 8) == png_signature() {
                assert(png@.subrange(0, 8)[0] == png@[0]);
                assert(png@.subrange(0, 8)[1] == png@[1]);
                assert(png@.subrange(0, 8)[2] == png@[2]);
                assert(png@.subrange(0, 8)[3] == png@[3]);
                assert(png@.subrange(0, 8)[4] == png@[4]);
                assert(png@.subrange(0, 8)[5] == png@[5]);
                assert(png@.subrange(0, 8)[6] == png@[6]);
                assert(png@.subrange(0, 8)[7] == png@[7]);
            }
        }
        return Err(PngError::NotPng);
    }
    assert(png@.subrange(0, 8) =~= png_signature());
    let (width, height, color, idat) = read_chunks(png);
    if width == 0 || height == 0 {
        return Err(PngError::Empty);
    }
    if color != 2 {
        return Err(PngError::UnsupportedColorType(color));
    }
    let raw = match zlib_decompress(idat.as_slice()) {
        Ok(raw) => raw,
        Err(detail) => return Err(PngError::Zlib(detail)),
    };
    let w = width as usize;
    let h = height as usize;
    match unfilter_luma(w, h, raw.as_slice()) {
        Ok(luma) => Ok((w, h, luma)),
        Err(e) => Err(e),
    }
}


// ---------------------------------------------------------------------
// Glyph segmentation and matching
// ---------------------------------------------------------------------

/// The pixel at column `x`, row `y` is ink (dark).
pub open spec fn ink(width: int, luma: Seq<u8>, x: int, y: int) -> bool {
    luma[y * width + x] < 128
}

/// Some pixel of column `x` is ink.
pub open spec fn column_has_ink(width: int, height: int, luma: Seq<u8>, x: int) -> bool {
    exists|y: int| 0 <= y < height && #[trigger] ink(width, luma, x, y)
}

/// For each column, whether it holds ink.
pub open spec fn ink_columns(width: int, height: int, luma: Seq<u8>) -> Seq<bool> {
    Seq::new(width as nat, |x: int| column_has_ink(width, height, luma, x))
}

/// The glyph column ranges `[start, end)` found from column `x` on, with
/// `start` the beginning of the run of ink columns in progress: a run that
/// a blank column closes counts when it is at least 2 columns wide; a run
/// still open at the right edge always counts.
pub open spec fn segments(col: Seq<bool>, x: int, start: Option<int>) -> Seq<(int, int)>
    decreases col.len() - x,
{
    if x >= col.len() {
        match start {
            Some(s) => seq![(s, col.len() as int)],
            None => Seq::empty(),
        }
    } else if col[x] {
        segments(
            col,
            x + 1,
            match start {
                Some(s) => Some(s),
                None => Some(x),
            },
        )
    } else {
        match start {
            Some(s) => if x - s >= 2 {
                seq![(s, x)] + segments(col, x + 1, None)
            } else {
                segments(col, x + 1, None)
            },
            None => segments(col, x + 1, None),
        }
    }
}

/// Some pixel of row `y` within columns `[s, e)` is ink.
pub open spec fn row_has_ink(width: int, luma: Seq<u8>, s: int, e: int, y: int) -> bool {
    exists|x: int| s <= x < e && #[trigger] ink(width, luma, x, y)
}

/// The topmost row among the first `n` rows that has ink within `[s, e)`,
/// or `height` when none has.
pub open spec fn ink_top(width: int, luma: Seq<u8>, s: int, e: int, height: int, n: int) -> int
    decreases n,
{
    if n <= 0 {
        height
    } else {
        let t = ink_top(width, luma, s, e, height, n - 1);
        if t == height && row_has_ink(width, luma, s, e, n - 1) {
            n - 1
        } else {
            t
        }
    }
}

/// The bottommost row among the first `n` rows that has ink within
/// `[s, e)`, or 0 when none has.
pub open spec fn ink_bottom(width: int, luma: Seq<u8>, s: int, e: int, n: int) -> int
    decreases n,
{
    if n <= 0 {
        0
    } else if row_has_ink(width, luma, s, e, n - 1) {
        n - 1
    } else {
        ink_bottom(width, luma, s, e, n - 1)
    }
}

/// The number of ink pixels of row `y` within columns `[x0, x)`.
pub open spec fn row_ink_count(width: int, luma: Seq<u8>, y: int, x0: int, x: int) -> int
    decreases x - x0,
{
    if x <= x0 {
        0
    } else {
        row_ink_count(width, luma, y, x0, x - 1) + if ink(width, luma, x - 1, y) {
            1int
        } else {
            0int
        }
    }
}

/// The number of ink pixels in columns `[x0, x1)` and rows `[y0, y)`.
pub open spec fn rect_ink_count(width: int, luma: Seq<u8>, x0: int, x1: int, y0: int, y: int) -> int
    decreases y - y0,
{
    if y <= y0 {
        0
    } else {
        rect_ink_count(width, luma, x0, x1, y0, y - 1) + row_ink_count(width, luma, y - 1, x0, x1)
    }
}

/// A font pixel is ink when at least a third of its cells are.
pub open spec fn cell_bit(width: int, luma: Seq<u8>, x0: int, x1: int, y0: int, y1: int) -> bool {
    let total = (x1 - x0) * (y1 - y0);
    total > 0 && 3 * rect_ink_count(width, luma, x0, x1, y0, y1) >= total
}

/// Font pixel `i` (row `i / 3`, column `i % 3`) of a glyph whose box starts
/// at column `s` and row `top` and is `gw` by `gh` pixels: the box is cut
/// into 3 columns and 5 rows of equal (fractional) size.
pub open spec fn glyph_cell(width: int, luma: Seq<u8>, s: int, gw: int, top: int, gh: int, i: int) -> bool {
    let r = i / 3;
    let c = i % 3;
    cell_bit(
        width,
        luma,
        s + c * gw / 3,
        s + (c + 1) * gw / 3,
        top + r * gh / 5,
        top + (r + 1) * gh / 5,
    )
}

/// The number whose binary digits, most significant first, are `b`.
pub open spec fn bits_value(b: Seq<bool>) -> int
    decreases b.len(),
{
    if b.len() == 0 {
        0
    } else {
        2 * bits_value(b.drop_last()) + if b.last() {
            1int
        } else {
            0int
        }
    }
}

/// The 3x5 font bitmap of the glyph in columns `[s, e)`, as a 15-bit
/// number read row by row, left to right; `None` when the glyph has no ink
/// or its box is not the font's 3x5 grid of 2-pixel dots.
pub open spec fn coarse_code(width: int, height: int, luma: Seq<u8>, s: int, e: int) -> Option<int> {
    let top = ink_top(width, luma, s, e, height, height);
    let bottom = ink_bottom(width, luma, s, e, height);
    if bottom < top {
        None
    } else {
        let gw = e - s;
        let gh = bottom - top + 1;
        let cols = if gw / 2 >= 1 {
            gw / 2
        } else {
            1
        };
        let rows = if gh / 2 >= 1 {
            gh / 2
        } else {
            1
        };
        if cols != 3 || rows != 5 {
            None
        } else {
            Some(bits_value(Seq::new(15, |i: int| glyph_cell(width, luma, s, gw, top, gh, i))))
        }
    }
}

/// The dotted 3x5 font for A-Z0-9, each glyph as its 15-bit bitmap read
/// row by row, left to right (1 = ink).
pub open spec fn font_table() -> Seq<(char, u16)> {
    seq![
        ('0', 0b111101101101111u16),
        ('1', 0b010110010010111u16),
        ('2', 0b111001111100111u16),
        ('3', 0b111001111001111u16),
        ('4', 0b101101111001001u16),
        ('5', 0b111100111001111u16),
        ('6', 0b111100111101111u16),
        ('7', 0b111001001001001u16),
        ('8', 0b111101111101111u16),
        ('9', 0b111101111001111u16),
        ('A', 0b111101111101101u16),
        ('B', 0b110101110101110u16),
        ('C', 0b111100100100111u16),
        ('D', 0b110101101101110u16),
        ('E', 0b111100110100111u16),
        ('F', 0b111100110100100u16),
        ('G', 0b111100101101111u16),
        ('H', 0b101101111101101u16),
        ('I', 0b111010010010111u16),
        ('J', 0b001001001101111u16),
        ('K', 0b101101110101101u16),
        ('L', 0b100100100100111u16),
        ('M', 0b101111111101101u16),
        ('N', 0b101111110110101u16),
        ('O', 0b111101101101111u16),
        ('P', 0b111101111100100u16),
        ('Q', 0b111101101111001u16),
        ('R', 0b111101110101101u16),
        ('S', 0b111100111001111u16),
        ('T', 0b111010010010010u16),
        ('U', 0b101101101101111u16),
        ('V', 0b101101101101010u16),
        ('W', 0b101101111111101u16),
        ('X', 0b101101010101101u16),
        ('Y', 0b101101010010010u16),
        ('Z', 0b111001010100111u16)
    ]
}

/// The first character of the font table from entry `k` on whose bitmap
/// is `code`.
pub open spec fn font_lookup(code: int, k: int) -> Option<char>
    decreases font_table().len() - k,
{
    if k < 0 || k >= font_table().len() {
        None
    } else if font_table()[k].1 == code {
        Some(font_table()[k].0)
    } else {
        font_lookup(code, k + 1)
    }
}

/// How many entries of the font table from entry `k` on have bitmap
/// `code`.
pub open spec fn font_matches(code: int, k: int) -> nat
    decreases font_table().len() - k,
{
    if k < 0 || k >= font_table().len() {
        0
    } else {
        font_matches(code, k + 1) + if font_table()[k].1 == code {
            1nat
        } else {
            0nat
        }
    }
}

/// The character whose bitmap is `code`, when exactly one character of the
/// font has it; a bitmap shared by two characters (such as '0' and 'O')
/// cannot be read with certainty.
pub open spec fn font_char(code: int) -> Option<char> {
    if font_matches(code, 0) == 1 {
        font_lookup(code, 0)
    } else {
        None
    }
}

/// The character read from the glyph in columns `seg`.
pub open spec fn glyph_of(width: int, height: int, luma: Seq<u8>, seg: (int, int)) -> Option<char> {
    match coarse_code(width, height, luma, seg.0, seg.1) {
        Some(code) => font_char(code),
        None => None,
    }
}

/// The characters read from the glyphs `segs`, when every one matches.
pub open spec fn read_glyphs(width: int, height: int, luma: Seq<u8>, segs: Seq<(int, int)>) -> Option<
    Seq<char>,
>
    decreases segs.len(),
{
    if segs.len() == 0 {
        Some(Seq::empty())
    } else {
        match (read_glyphs(width, height, luma, segs.drop_last()), glyph_of(width, height, luma, segs.last())) {
            (Some(p), Some(c)) => Some(p.push(c)),
            _ => None,
        }
    }
}

/// The code read from a luminance bitmap: exactly five glyphs, each
/// matching the font.
pub open spec fn captcha_code(width: int, height: int, luma: Seq<u8>) -> Option<Seq<char>> {
    let segs = segments(ink_columns(width, height, luma), 0, None);
    if segs.len() != 5 {
        None
    } else {
        read_glyphs(width, height, luma, segs)
    }
}

/// The font table.
pub fn font() -> (r: Vec<(char, u16)>)
    ensures
        r@ == font_table(),
{
    let mut v: Vec<(char, u16)> = Vec::new();
    v.push(('0', 0b111101101101111u16));
    v.push(('1', 0b010110010010111u16));
    v.push(('2', 0b111001111100111u16));
    v.push(('3', 0b111001111001111u16));
    v.push(('4', 0b101101111001001u16));
    v.push(('5', 0b111100111001111u16));
    v.push(('6', 0b111100111101111u16));
    v.push(('7', 0b111001001001001u16));
    v.push(('8', 0b111101111101111u16));
    v.push(('9', 0b111101111001111u16));
    v.push(('A', 0b111101111101101u16));
    v.push(('B', 0b110101110101110u16));
    v.push(('C', 0b111100100100111u16));
    v.push(('D', 0b110101101101110u16));
    v.push(('E', 0b111100110100111u16));
    v.push(('F', 0b111100110100100u16));
    v.push(('G', 0b111100101101111u16));
    v.push(('H', 0b101101111101101u16));
    v.push(('I', 0b111010010010111u16));
    v.push(('J', 0b001001001101111u16));
    v.push(('K', 0b101101110101101u16));
    v.push(('L', 0b100100100100111u16));
    v.push(('M', 0b101111111101101u16));
    v.push(('N', 0b101111110110101u16));
    v.push(('O', 0b111101101101111u16));
    v.push(('P', 0b111101111100100u16));
    v.push(('Q', 0b111101101111001u16));
    v.push(('R', 0b111101110101101u16));
    v.push(('S', 0b111100111001111u16));
    v.push(('T', 0b111010010010010u16));
    v.push(('U', 0b101101101101111u16));
    v.push(('V', 0b101101101101010u16));
    v.push(('W', 0b101101111111101u16));
    v.push(('X', 0b101101010101101u16));
    v.push(('Y', 0b101101010010010u16));
    v.push(('Z', 0b111001010100111u16));
    assert(v@ =~= font_table());
    v
}

fn glyph_char(code: u16) -> (r: Option<char>)
    ensures
        r == font_char(code as int),
{
    let table = font();
    let mut first: Option<char> = None;
    let mut count: usize = 0;
    let mut k: usize = 0;
    while k < table.len()
        invariant
            table@ == font_table(),
            k <= table.len(),
            count <= k,
            font_matches(code as int, 0) == count + font_matches(code as int, k as int),
            count == 0 ==> first is None && font_lookup(code as int, 0) == font_lookup(
                code as int,
                k as int,
            ),
            count > 0 ==> first == font_lookup(code as int, 0),
        decreases table.len() - k,
    {
        if table[k].1 == code {
            if count == 0 {
                first = Some(table[k].0);
            }
            count += 1;
        }
        k += 1;
    }
    if count == 1 {
        first
    } else {
        None
    }
}

proof fn lemma_pixel_index(x: int, y: int, width: int, height: int)
    requires
        0 <= x < width,
        0 <= y < height,
    ensures
        0 <= y * width + x < width * height,
{
    assert(y * width + x < (y + 1) * width) by (nonlinear_arith)
        requires
            x < width,
    ;
    assert((y + 1) * width <= height * width) by (nonlinear_arith)
        requires
            y + 1 <= height,
            width > 0,
    ;
    assert(y * width >= 0) by (nonlinear_arith)
        requires
            y >= 0,
            width > 0,
    ;
    assert(height * width == width * height) by (nonlinear_arith);
}

fn is_ink(width: usize, height: usize, luma: &[u8], x: usize, y: usize) -> (r: bool)
    requires
        width * height <= luma.len(),
        x < width,
        y < height,
    ensures
        r == ink(width as int, luma@, x as int, y as int),
{
    proof {
        lemma_pixel_index(x as int, y as int, width as int, height as int);
    }
    luma[y * width + x] < 128
}

/// Columns holding ink.
fn columns_with_ink(width: usize, height: usize, luma: &[u8]) -> (r: Vec<bool>)
    requires
        width * height <= luma.len(),
    ensures
        r@ == ink_columns(width as int, height as int, luma@),
{
    let mut col: Vec<bool> = Vec::new();
    while col.len() < width
        invariant
            col.len() <= width,
            forall|x: int| 0 <= x < col.len() ==> !col@[x],
        decreases width - col.len(),
    {
        col.push(false);
    }
    let mut y: usize = 0;
    while y < height
        invariant
            width * height <= luma.len(),
            col.len() == width,
            y <= height,
            forall|x: int|
                0 <= x < width ==> col@[x] == exists|yy: int|
                    0 <= yy < y && #[trigger] ink(width as int, luma@, x, yy),
        decreases height - y,
    {
        let mut x: usize = 0;
        while x < width
            invariant
                width * height <= luma.len(),
                col.len() == width,
                x <= width,
                y < height,
                forall|xx: int|
                    0 <= xx < x ==> col@[xx] == exists|yy: int|
                        0 <= yy < y + 1 && #[trigger] ink(width as int, luma@, xx, yy),
                forall|xx: int|
                    x <= xx < width ==> col@[xx] == exists|yy: int|
                        0 <= yy < y && #[trigger] ink(width as int, luma@, xx, yy),
            decreases width - x,
        {
            if is_ink(width, height, luma, x, y) {
                col.set(x, true);
            }
            proof {
                if !ink(width as int, luma@, x as int, y as int) {
                    assert forall|yy: int|
                        0 <= yy < y + 1 && #[trigger] ink(width as int, luma@, x as int, yy) implies 0
                        <= yy < y by {}
                }
            }
            x += 1;
        }
        y += 1;
    }
    assert(col@ =~= ink_columns(width as int, height as int, luma@));
    col
}

spec fn ranges_view(v: Seq<(usize, usize)>) -> Seq<(int, int)> {
    v.map_values(|p: (usize, usize)| (p.0 as int, p.1 as int))
}

spec fn start_view(s: Option<usize>) -> Option<int> {
    match s {
        Some(v) => Some(v as int),
        None => None,
    }
}

/// The glyph column ranges of the ink columns `col`.
fn segment_columns(col: &Vec<bool>) -> (r: Vec<(usize, usize)>)
    ensures
        ranges_view(r@) == segments(col@, 0, None),
        forall|k: int| #![trigger r@[k]] 0 <= k < r.len() ==> r@[k].0 < r@[k].1 <= col.len(),
{
    let mut ranges: Vec<(usize, usize)> = Vec::new();
    let mut start: Option<usize> = None;
    let mut x: usize = 0;
    while x < col.len()
        invariant
            x <= col.len(),
            segments(col@, 0, None) == ranges_view(ranges@) + segments(col@, x as int, start_view(start)),
            start matches Some(s) ==> s < x,
            forall|k: int| #![trigger ranges@[k]] 0 <= k < ranges.len() ==> ranges@[k].0 < ranges@[k].1 <= col.len(),
        decreases col.len() - x,
    {
        let inked = col[x];
        let ghost before = ranges@;
        if inked && start.is_none() {
            start = Some(x);
        }
        if !inked {
            if let Some(s) = start {
                start = None;
                if x - s >= 2 {
                    ranges.push((s, x));
                    assert(ranges_view(ranges@) == ranges_view(before) + seq![(s as int, x as int)]);
                }
            }
        }
        x += 1;
    }
    if let Some(s) = start {
        let ghost before = ranges@;
        ranges.push((s, col.len()));
        assert(ranges_view(ranges@) == ranges_view(before) + seq![(s as int, col.len() as int)]);
        assert forall|k: int| #![trigger ranges@[k]] 0 <= k < ranges.len() implies ranges@[k].0 < ranges@[k].1
            <= col.len() by {
            if k < before.len() {
                assert(ranges@[k] == before[k]);
            }
        }
    }
    assert(ranges_view(ranges@) =~= segments(col@, 0, None));
    assert(forall|k: int| #![trigger ranges@[k]] 0 <= k < ranges.len() ==> ranges@[k].0 < ranges@[k].1 <= col.len());
    ranges
}


proof fn lemma_cell_spans(c: int, gw: int, r: int, gh: int)
    requires
        0 <= c < 3,
        6 <= gw <= 7,
        0 <= r < 5,
        10 <= gh <= 11,
    ensures
        0 <= c * gw / 3,
        2 <= (c + 1) * gw / 3 - c * gw / 3 <= 3,
        (c + 1) * gw / 3 <= gw,
        0 <= r * gh / 5,
        2 <= (r + 1) * gh / 5 - r * gh / 5 <= 3,
        (r + 1) * gh / 5 <= gh,
{
    if gw == 6 {
        if c == 0 {
        } else if c == 1 {
        } else {
        }
    } else {
        if c == 0 {
        } else if c == 1 {
        } else {
        }
    }
    if gh == 10 {
        if r == 0 {
        } else if r == 1 {
        } else if r == 2 {
        } else if r == 3 {
        } else {
        }
    } else {
        if r == 0 {
        } else if r == 1 {
        } else if r == 2 {
        } else if r == 3 {
        } else {
        }
    }
}

/// Whether row `y` holds ink within columns `[s, e)`.
fn row_ink(width: usize, height: usize, luma: &[u8], s: usize, e: usize, y: usize) -> (r: bool)
    requires
        width * height <= luma.len(),
        s <= e <= width,
        y < height,
    ensures
        r == row_has_ink(width as int, luma@, s as int, e as int, y as int),
{
    let mut x: usize = s;
    while x < e
        invariant
            width * height <= luma.len(),
            s <= x <= e <= width,
            y < height,
            forall|xx: int| s <= xx < x ==> !#[trigger] ink(width as int, luma@, xx, y as int),
        decreases e - x,
    {
        if is_ink(width, height, luma, x, y) {
            return true;
        }
        x += 1;
    }
    false
}

/// The number of ink pixels in columns `[x0, x1)` and rows `[y0, y1)`.
fn cell_ink_count(width: usize, height: usize, luma: &[u8], x0: usize, x1: usize, y0: usize, y1: usize) -> (n: usize)
    requires
        width * height <= luma.len(),
        x0 <= x1 <= width,
        y0 <= y1 <= height,
        x1 - x0 <= 3,
        y1 - y0 <= 3,
    ensures
        n as int == rect_ink_count(width as int, luma@, x0 as int, x1 as int, y0 as int, y1 as int),
        n <= 9,
{
    let mut n: usize = 0;
    let mut y: usize = y0;
    while y < y1
        invariant
            width * height <= luma.len(),
            x0 <= x1 <= width,
            y0 <= y <= y1 <= height,
            x1 - x0 <= 3,
            y1 - y0 <= 3,
            n <= 3 * (y - y0),
            n as int == rect_ink_count(width as int, luma@, x0 as int, x1 as int, y0 as int, y as int),
        decreases y1 - y,
    {
        let mut m: usize = 0;
        let mut x: usize = x0;
        while x < x1
            invariant
                width * height <= luma.len(),
                x0 <= x <= x1 <= width,
                y < y1 <= height,
                x1 - x0 <= 3,
                m <= x - x0,
                m as int == row_ink_count(width as int, luma@, y as int, x0 as int, x as int),
            decreases x1 - x,
        {
            if is_ink(width, height, luma, x, y) {
                m += 1;
            }
            x += 1;
        }
        n += m;
        y += 1;
    }
    n
}

/// Downsamples the glyph in columns `[start, end)` to the font's 3x5 grid:
/// the 15-bit bitmap, or `None` for a shape the font cannot hold.
fn coarse_grid(width: usize, height: usize, luma: &[u8], start: usize, end: usize) -> (r: Option<u16>)
    requires
        width * height <= luma.len(),
        start < end <= width,
    ensures
        match r {
            Some(code) => coarse_code(width as int, height as int, luma@, start as int, end as int)
                == Some(code as int),
            None => coarse_code(width as int, height as int, luma@, start as int, end as int) is None,
        },
{
    let ghost w = width as int;
    let ghost s = start as int;
    let ghost e = end as int;
    let mut top: usize = height;
    let mut bottom: usize = 0;
    let mut y: usize = 0;
    while y < height
        invariant
            width * height <= luma.len(),
            start < end <= width,
            w == width as int,
            s == start as int,
            e == end as int,
            y <= height,
            top as int == ink_top(w, luma@, s, e, height as int, y as int),
            bottom as int == ink_bottom(w, luma@, s, e, y as int),
            top == height || top < y,
            bottom <= y,
            bottom < height || y == 0,
        decreases height - y,
    {
        let has = row_ink(width, height, luma, start, end, y);
        if has {
            if top == height {
                top = y;
            }
            bottom = y;
        }
        proof {
            let t = ink_top(w, luma@, s, e, height as int, y as int);
            assert(ink_top(w, luma@, s, e, height as int, y + 1) == if t == height && has {
                y as int
            } else {
                t
            });
            assert(ink_bottom(w, luma@, s, e, y + 1) == if has {
                y as int
            } else {
                ink_bottom(w, luma@, s, e, y as int)
            });
        }
        y += 1;
    }
    if bottom < top {
        return None;
    }
    let gw = end - start;
    let gh = bottom - top + 1;
    let cols = if gw / 2 >= 1 {
        gw / 2
    } else {
        1
    };
    let rows = if gh / 2 >= 1 {
        gh / 2
    } else {
        1
    };
    if cols != 3 || rows != 5 {
        return None;
    }
    assert(6 <= gw <= 7);
    assert(10 <= gh <= 11);
    let ghost bits = Seq::new(15, |i: int| glyph_cell(w, luma@, s, gw as int, top as int, gh as int, i));
    let mut code: u16 = 0;
    let mut r: usize = 0;
    while r < 5
        invariant
            width * height <= luma.len(),
            start < end <= width,
            gw == end - start,
            w == width as int,
            s == start as int,
            6 <= gw <= 7,
            10 <= gh <= 11,
            top + gh <= height,
            r <= 5,
            bits == Seq::new(15, |i: int| glyph_cell(w, luma@, s, gw as int, top as int, gh as int, i)),
            code as int == bits_value(bits.take(3 * r)),
            code < pow2_u16(3 * r),
        decreases 5 - r,
    {
        let mut c: usize = 0;
        while c < 3
            invariant
                width * height <= luma.len(),
                start < end <= width,
                gw == end - start,
                w == width as int,
                s == start as int,
                6 <= gw <= 7,
                10 <= gh <= 11,
                top + gh <= height,
                r < 5,
                c <= 3,
                bits == Seq::new(15, |i: int| glyph_cell(w, luma@, s, gw as int, top as int, gh as int, i)),
                code as int == bits_value(bits.take(3 * r + c)),
                code < pow2_u16(3 * r + c),
            decreases 3 - c,
        {
            proof {
                lemma_cell_spans(c as int, gw as int, r as int, gh as int);
            }
            let x0 = start + c * gw / 3;
            let x1 = start + (c + 1) * gw / 3;
            let y0 = top + r * gh / 5;
            let y1 = top + (r + 1) * gh / 5;
            let ink_count = cell_ink_count(width, height, luma, x0, x1, y0, y1);
            let xs = x1 - x0;
            let ys = y1 - y0;
            assert(xs * ys <= 9) by (nonlinear_arith)
                requires
                    xs <= 3,
                    ys <= 3,
            ;
            let total = xs * ys;
            let bit = total > 0 && ink_count * 3 >= total;
            proof {
                let i = 3 * r + c;
                assert(i / 3 == r as int);
                assert(i % 3 == c as int);
                assert(bits[i] == glyph_cell(w, luma@, s, gw as int, top as int, gh as int, i));
                assert(glyph_cell(w, luma@, s, gw as int, top as int, gh as int, i) == cell_bit(
                    w,
                    luma@,
                    x0 as int,
                    x1 as int,
                    y0 as int,
                    y1 as int,
                ));
                assert(bits[i] == bit);
                assert(bits.take(i + 1).drop_last() == bits.take(i));
                lemma_pow2_step(i);
            }
            code = code * 2 + if bit {
                1
            } else {
                0
            };
            c += 1;
        }
        r += 1;
    }
    assert(bits.take(15) == bits);
    Some(code)
}

spec fn pow2_u16(n: int) -> int
    decreases n,
{
    if n <= 0 {
        1
    } else {
        2 * pow2_u16(n - 1)
    }
}

proof fn lemma_pow2_step(i: int)
    requires
        0 <= i < 15,
    ensures
        pow2_u16(i + 1) == 2 * pow2_u16(i),
        pow2_u16(i + 1) <= 32768,
{
    lemma_pow2_mono(i + 1);
    assert(pow2_u16(15) == 32768) by {
        reveal_with_fuel(pow2_u16, 16);
    }
}

proof fn lemma_pow2_pos(i: int)
    ensures
        pow2_u16(i) >= 1,
    decreases i,
{
    if i > 0 {
        lemma_pow2_pos(i - 1);
    }
}

proof fn lemma_pow2_mono(i: int)
    requires
        0 <= i <= 15,
    ensures
        pow2_u16(i) <= pow2_u16(15),
    decreases 15 - i,
{
    lemma_pow2_pos(i);
    if i < 15 {
        lemma_pow2_mono(i + 1);
    }
}

proof fn lemma_read_glyphs_none(width: int, height: int, luma: Seq<u8>, segs: Seq<(int, int)>, k: int)
    requires
        0 <= k < segs.len(),
        glyph_of(width, height, luma, segs[k]) is None,
    ensures
        read_glyphs(width, height, luma, segs) is None,
    decreases segs.len(),
{
    if k < segs.len() - 1 {
        lemma_read_glyphs_none(width, height, luma, segs.drop_last(), k);
    }
}

/// Glyph segmentation and matching over a luminance bitmap: the 5-character
/// code, or `None` when the bitmap does not hold exactly five glyphs that
/// all match the font.
pub fn solve_luma(width: usize, height: usize, luma: &[u8]) -> (r: Option<String>)
    requires
        width * height <= luma.len(),
    ensures
        match r {
            Some(code) => captcha_code(width as int, height as int, luma@) == Some(code@),
            None => captcha_code(width as int, height as int, luma@) is None,
        },
{
    let col = columns_with_ink(width, height, luma);
    let ranges = segment_columns(&col);
    let ghost segs = ranges_view(ranges@);
    if ranges.len() != 5 {
        return None;
    }
    let mut code = String::new();
    let mut k: usize = 0;
    while k < 5
        invariant
            width * height <= luma.len(),
            ranges.len() == 5,
            col.len() == width,
            col@ == ink_columns(width as int, height as int, luma@),
            segs == ranges_view(ranges@),
            segs == segments(col@, 0, None),
            forall|j: int| 0 <= j < ranges.len() ==> #[trigger] ranges@[j].0 < ranges@[j].1 <= col.len(),
            k <= 5,
            read_glyphs(width as int, height as int, luma@, segs.take(k as int)) == Some(code@),
        decreases 5 - k,
    {
        let (s, e) = ranges[k];
        assert(segs[k as int] == (s as int, e as int));
        assert(segs.take(k + 1).drop_last() == segs.take(k as int));
        match coarse_grid(width, height, luma, s, e) {
            None => {
                proof {
                    lemma_read_glyphs_none(width as int, height as int, luma@, segs, k as int);
                }
                return None;
            },
            Some(g) => match glyph_char(g) {
                None => {
                    proof {
                        lemma_read_glyphs_none(width as int, height as int, luma@, segs, k as int);
                    }
                    return None;
                },
                Some(ch) => {
                    code.push(ch);
                },
            },
        }
        k += 1;
    }
    assert(segs.take(5) == segs);
    Some(code)
}

proof fn lemma_rows_luma_len(raw: Seq<u8>, width: int, n: int, p: int, prev: Seq<u8>)
    requires
        width >= 0,
        n >= 0,
        prev.len() == 3 * width,
        rows_luma(raw, 3 * width, n, p, prev) is Ok,
    ensures
        rows_luma(raw, 3 * width, n, p, prev)->Ok_0.len() == n * width,
    decreases n,
{
    if n > 0 {
        assert(p >= 0 && p + 1 + 3 * width <= raw.len() && raw[p] <= 4);
        let line = unfilter(raw[p], raw.subrange(p + 1, p + 1 + 3 * width), prev);
        assert(rows_luma(raw, 3 * width, n, p, prev) == prefix_result(
            luma_of_row(line),
            rows_luma(raw, 3 * width, n - 1, p + 1 + 3 * width, line),
        ));
        assert(line.len() == 3 * width);
        assert((3 * width) / 3 == width) by (nonlinear_arith);
        assert(luma_of_row(line).len() == width);
        assert(rows_luma(raw, 3 * width, n - 1, p + 1 + 3 * width, line) is Ok);
        lemma_rows_luma_len(raw, width, n - 1, p + 1 + 3 * width, line);
        let rest = rows_luma(raw, 3 * width, n - 1, p + 1 + 3 * width, line)->Ok_0;
        assert(rows_luma(raw, 3 * width, n, p, prev)->Ok_0 == luma_of_row(line) + rest);
        assert(width + (n - 1) * width == n * width) by (nonlinear_arith);
    } else {
        assert(n * width == 0) by (nonlinear_arith)
            requires
                n == 0,
        ;
    }
}

/// The code read from a luminance bitmap decoded from `png`.
pub open spec fn png_captcha_code(png: Seq<u8>) -> Option<Seq<char>> {
    match png_decode(png) {
        Ok((w, h, l)) => captcha_code(w, h, l),
        Err(_) => None,
    }
}

/// Solves the captcha from its PNG bytes: the 5-character code, or `None`
/// when the image cannot be decoded or a glyph cannot be matched.
pub fn solve(png: &[u8]) -> (r: Option<String>)
    requires
        png_readable(png@),
    ensures
        match r {
            Some(code) => png_captcha_code(png@) == Some(code@),
            None => png_captcha_code(png@) is None,
        },
{
    match decode_png_luma(png) {
        Ok((width, height, luma)) => {
            proof {
                let s = scan_chunks(png@, 8, (0, 0, 0, Seq::empty()));
                let raw = zlib_inflate_of(s.3)->Ok_0;
                lemma_rows_luma_len(raw, width as int, height as int, 0, Seq::new((3 * width) as nat, |i: int| 0u8));
                assert(width * height == height * width) by (nonlinear_arith);
            }
            solve_luma(width, height, luma.as_slice())
        },
        Err(_) => None,
    }
}

} // verus!

verus! {

/// The captcha's alphabet: upper-case letters and digits.
pub open spec fn captcha_alphabet(c: char) -> bool {
    ('A' <= c <= 'Z') || ('0' <= c <= '9')
}

proof fn lemma_font_alphabet()
    ensures
        forall|j: int| 0 <= j < font_table().len() ==> captcha_alphabet(#[trigger] font_table()[j].0),
{
    assert forall|j: int| 0 <= j < font_table().len() implies captcha_alphabet(
        #[trigger] font_table()[j].0,
    ) by {
        if j == 0 {
            assert(captcha_alphabet(font_table()[0].0));
        } else if j == 1 {
            assert(captcha_alphabet(font_table()[1].0));
        } else if j == 2 {
            assert(captcha_alphabet(font_table()[2].0));
        } else if j == 3 {
            assert(captcha_alphabet(font_table()[3].0));
        } else if j == 4 {
            assert(captcha_alphabet(font_table()[4].0));
        } else if j == 5 {
            assert(captcha_alphabet(font_table()[5].0));
        } else if j == 6 {
            assert(captcha_alphabet(font_table()[6].0));
        } else if j == 7 {
            assert(captcha_alphabet(font_table()[7].0));
        } else if j == 8 {
            assert(captcha_alphabet(font_table()[8].0));
        } else if j == 9 {
            assert(captcha_alphabet(font_table()[9].0));
        } else if j == 10 {
            assert(captcha_alphabet(font_table()[10].0));
        } else if j == 11 {
            assert(captcha_alphabet(font_table()[11].0));
        } else if j == 12 {
            assert(captcha_alphabet(font_table()[12].0));
        } else if j == 13 {
            assert(captcha_alphabet(font_table()[13].0));
        } else if j == 14 {
            assert(captcha_alphabet(font_table()[14].0));
        } else if j == 15 {
            assert(captcha_alphabet(font_table()[15].0));
        } else if j == 16 {
            assert(captcha_alphabet(font_table()[16].0));
        } else if j == 17 {
            assert(captcha_alphabet(font_table()[17].0));
        } else if j == 18 {
            assert(captcha_alphabet(font_table()[18].0));
        } else if j == 19 {
            assert(captcha_alphabet(font_table()[19].0));
        } else if j == 20 {
            assert(captcha_alphabet(font_table()[20].0));
        } else if j == 21 {
            assert(captcha_alphabet(font_table()[21].0));
        } else if j == 22 {
            assert(captcha_alphabet(font_table()[22].0));
        } else if j == 23 {
            assert(captcha_alphabet(font_table()[23].0));
        } else if j == 24 {
            assert(captcha_alphabet(font_table()[24].0));
        } else if j == 25 {
            assert(captcha_alphabet(font_table()[25].0));
        } else if j == 26 {
            assert(captcha_alphabet(font_table()[26].0));
        } else if j == 27 {
            assert(captcha_alphabet(font_table()[27].0));
        } else if j == 28 {
            assert(captcha_alphabet(font_table()[28].0));
        } else if j == 29 {
            assert(captcha_alphabet(font_table()[29].0));
        } else if j == 30 {
            assert(captcha_alphabet(font_table()[30].0));
        } else if j == 31 {
            assert(captcha_alphabet(font_table()[31].0));
        } else if j == 32 {
            assert(captcha_alphabet(font_table()[32].0));
        } else if j == 33 {
            assert(captcha_alphabet(font_table()[33].0));
        } else if j == 34 {
            assert(captcha_alphabet(font_table()[34].0));
        } else if j == 35 {
            assert(captcha_alphabet(font_table()[35].0));
        }
    }
}

proof fn lemma_font_lookup_alphabet(code: int, k: int)
    ensures
        font_lookup(code, k) matches Some(c) ==> captcha_alphabet(c),
    decreases font_table().len() - k,
{
    lemma_font_alphabet();
    if 0 <= k < font_table().len() && font_table()[k].1 != code {
        lemma_font_lookup_alphabet(code, k + 1);
    }
}

proof fn lemma_read_glyphs_alphabet(width: int, height: int, luma: Seq<u8>, segs: Seq<(int, int)>)
    ensures
        read_glyphs(width, height, luma, segs) matches Some(cs) ==> cs.len() == segs.len()
            && forall|i: int| 0 <= i < cs.len() ==> captcha_alphabet(#[trigger] cs[i]),
    decreases segs.len(),
{
    if segs.len() > 0 {
        lemma_read_glyphs_alphabet(width, height, luma, segs.drop_last());
        match coarse_code(width, height, luma, segs.last().0, segs.last().1) {
            Some(code) => lemma_font_lookup_alphabet(code, 0),
            None => {},
        }
        match read_glyphs(width, height, luma, segs) {
            Some(cs) => {
                let p = read_glyphs(width, height, luma, segs.drop_last())->Some_0;
                assert forall|i: int| 0 <= i < cs.len() implies captcha_alphabet(#[trigger] cs[i]) by {
                    if i < p.len() {
                        assert(cs[i] == p[i]);
                    }
                }
            },
            None => {},
        }
    }
}

/// A code read from the captcha has exactly five characters, each an
/// upper-case letter or a digit.
pub proof fn solved_codes_are_five_characters(png: Seq<u8>)
    ensures
        png_captcha_code(png) matches Some(code) ==> code.len() == 5 && forall|i: int|
            0 <= i < code.len() ==> captcha_alphabet(#[trigger] code[i]),
{
    match png_decode(png) {
        Ok((w, h, l)) => {
            let segs = segments(ink_columns(w, h, l), 0, None);
            lemma_read_glyphs_alphabet(w, h, l, segs);
        },
        Err(_) => {},
    }
}


/// Undoing a row filter rebuilds every byte as the PNG format defines it:
/// the filtered byte plus the filter's predictor, modulo 256. With `a` the
/// rebuilt byte one pixel (three bytes) to the left (0 at the row's start),
/// `b` the byte above and `c` the byte above `a`, the predictor is 0 for
/// None, `a` for Sub, `b` for Up, the integer mean of `a + b` (up to 510,
/// never wrapped) for Average, and for Paeth whichever of `a`, `b`, `c` is
/// nearest to `a + b - c`, ties going to `a`, then to `b`.
pub proof fn unfiltering_follows_the_png_predictors(f: u8, line: Seq<u8>, prev: Seq<u8>, i: int)
    requires
        f <= 4,
        prev.len() == line.len(),
        0 <= i < line.len(),
    ensures
        unfilter(f, line, prev).len() == line.len(),
        ({
            let out = unfilter(f, line, prev);
            let a: int = if i >= 3 { out[i - 3] as int } else { 0 };
            let b: int = prev[i] as int;
            let c: int = if i >= 3 { prev[i - 3] as int } else { 0 };
            let p: int = a + b - c;
            let pa: int = if p >= a { p - a } else { a - p };
            let pb: int = if p >= b { p - b } else { b - p };
            let pc: int = if p >= c { p - c } else { c - p };
            let pred: int = if f == 0 {
                0
            } else if f == 1 {
                a
            } else if f == 2 {
                b
            } else if f == 3 {
                (b + a) / 2
            } else if pa <= pb && pa <= pc {
                a
            } else if pb <= pc {
                b
            } else {
                c
            };
            out[i] as int == (line[i] as int + pred) % 256
        }),
{
    let out = unfilter(f, line, prev);
    assert(out[i] == recon(f, line, prev, i));
    if i >= 3 {
        assert(out[i - 3] == recon(f, line, prev, i - 3));
    }
}

/// The luminance of a pixel is the mean of its three bytes, rounded down:
/// three times it is at most their sum and more than the sum less three.
pub proof fn luminance_is_the_mean_of_the_pixel(line: Seq<u8>, k: int)
    requires
        0 <= k < line.len() / 3,
    ensures
        luma_of_row(line).len() == line.len() / 3,
        3 * (luma_of_row(line)[k] as int) <= line[3 * k] + line[3 * k + 1] + line[3 * k + 2],
        line[3 * k] + line[3 * k + 1] + line[3 * k + 2] < 3 * (luma_of_row(line)[k] as int) + 3,
{
}

/// Scanline `k` of the inflated image data `raw`, whose rows are a filter
/// byte and `stride` data bytes each, with its filter undone against the
/// rebuilt scanline above it (against zeros for the first).
pub open spec fn rebuilt_line(raw: Seq<u8>, stride: int, k: nat) -> Seq<u8>
    decreases k,
{
    let above = if k == 0 {
        Seq::new(stride as nat, |i: int| 0u8)
    } else {
        rebuilt_line(raw, stride, (k - 1) as nat)
    };
    let at = k * (stride + 1);
    unfilter(raw[at], raw.subrange(at + 1, at + 1 + stride), above)
}

/// The scanline a row is unfiltered against: zeros above the first.
spec fn line_above(raw: Seq<u8>, stride: int, k: nat) -> Seq<u8> {
    if k == 0 {
        Seq::new(stride as nat, |i: int| 0u8)
    } else {
        rebuilt_line(raw, stride, (k - 1) as nat)
    }
}

proof fn lemma_rows_are_rebuilt(raw: Seq<u8>, width: int, n: int, k: nat)
    requires
        width >= 0,
        n >= 0,
        rows_luma(raw, 3 * width, n, k * (3 * width + 1), line_above(raw, 3 * width, k)) is Ok,
    ensures
        ({
            let l = rows_luma(raw, 3 * width, n, k * (3 * width + 1), line_above(raw, 3 * width, k))->Ok_0;
            &&& l.len() == n * width
            &&& forall|j: int, x: int|
                0 <= j < n && 0 <= x < width ==> l[j * width + x] == #[trigger] luma_of_row(
                    rebuilt_line(raw, 3 * width, (k + j) as nat),
                )[x]
        }),
    decreases n,
{
    let s = 3 * width;
    let p = k * (s + 1);
    let prev = line_above(raw, s, k);
    if n == 0 {
        assert(n * width == 0) by (nonlinear_arith)
            requires
                n == 0,
        ;
    } else {
        assert(p >= 0) by (nonlinear_arith)
            requires
                p == k * (s + 1),
                s >= 0,
        ;
        let line = unfilter(raw[p], raw.subrange(p + 1, p + 1 + s), prev);
        assert(line == rebuilt_line(raw, s, k));
        assert(line.len() == s);
        assert(s / 3 == width);
        assert(luma_of_row(line).len() == width);
        let next: nat = k + 1;
        assert(p + 1 + s == next * (s + 1)) by (nonlinear_arith)
            requires
                p == k * (s + 1),
                next == k + 1,
        ;
        assert(line_above(raw, s, next) == line);
        lemma_rows_are_rebuilt(raw, width, n - 1, next);
        let rest = rows_luma(raw, s, n - 1, p + 1 + s, line)->Ok_0;
        let l = rows_luma(raw, s, n, p, prev)->Ok_0;
        assert(l == luma_of_row(line) + rest);
        assert(width + (n - 1) * width == n * width) by (nonlinear_arith);
        assert forall|j: int, x: int| 0 <= j < n && 0 <= x < width implies l[j * width + x]
            == #[trigger] luma_of_row(rebuilt_line(raw, s, (k + j) as nat))[x] by {
            if j == 0 {
                assert(j * width + x == x) by (nonlinear_arith)
                    requires
                        j == 0,
                ;
            } else {
                assert(j * width + x == width + ((j - 1) * width + x)) by (nonlinear_arith);
                assert((j - 1) * width + x < (n - 1) * width) by (nonlinear_arith)
                    requires
                        0 <= j - 1 < n - 1,
                        0 <= x < width,
                ;
                assert(rest[(j - 1) * width + x] == luma_of_row(
                    rebuilt_line(raw, s, (next + (j - 1)) as nat),
                )[x]);
                assert((next + (j - 1)) as nat == (k + j) as nat);
            }
        }
    }
}

/// A decoded image is its scanlines rebuilt one after another, each
/// against the one above: pixel `x` of row `r` is the luminance of pixel
/// `x` of rebuilt scanline `r`, and there are `height` rows of `width`.
pub proof fn image_rows_are_the_rebuilt_scanlines(width: int, height: int, raw: Seq<u8>)
    requires
        width >= 0,
        height >= 0,
    ensures
        image_luma(width, height, raw) matches Ok(l) ==> {
            &&& l.len() == height * width
            &&& forall|r: int, x: int|
                0 <= r < height && 0 <= x < width ==> l[r * width + x] == #[trigger] luma_of_row(
                    rebuilt_line(raw, 3 * width, r as nat),
                )[x]
        },
{
    if image_luma(width, height, raw) is Ok {
        assert(0nat * (3 * width + 1) == 0);
        assert(line_above(raw, 3 * width, 0) == Seq::new((3 * width) as nat, |i: int| 0u8));
        lemma_rows_are_rebuilt(raw, width, height, 0);
        let l = image_luma(width, height, raw)->Ok_0;
        assert forall|r: int, x: int| 0 <= r < height && 0 <= x < width implies l[r * width + x]
            == #[trigger] luma_of_row(rebuilt_line(raw, 3 * width, r as nat))[x] by {
            assert((0 + r) as nat == r as nat);
            assert(l[r * width + x] == luma_of_row(rebuilt_line(raw, 3 * width, (0 + r) as nat))[x]);
        }
    }
}

/// Entry `j` of the font table has bitmap `code`.
spec fn font_entry_is(code: int, j: int) -> bool {
    font_table()[j].1 == code
}

proof fn lemma_font_scan(code: int, k: int)
    requires
        0 <= k <= font_table().len(),
    ensures
        font_matches(code, k) == 0 <==> (forall|j: int|
            k <= j < font_table().len() ==> !#[trigger] font_entry_is(code, j)),
        font_matches(code, k) == 1 <==> (exists|j: int|
            k <= j < font_table().len() && #[trigger] font_entry_is(code, j)) && (forall|j1: int, j2: int|
            k <= j1 < font_table().len() && k <= j2 < font_table().len() && #[trigger] font_entry_is(
                code,
                j1,
            ) && #[trigger] font_entry_is(code, j2) ==> j1 == j2),
        font_lookup(code, k) matches Some(ch) ==> exists|j: int|
            k <= j < font_table().len() && #[trigger] font_entry_is(code, j) && font_table()[j].0 == ch,
        font_lookup(code, k) is None <==> font_matches(code, k) == 0,
    decreases font_table().len() - k,
{
    let n = font_table().len() as int;
    if k < n {
        lemma_font_scan(code, k + 1);
        let here = font_entry_is(code, k);
        if here {
            assert(font_entry_is(code, k));
            if font_matches(code, k + 1) == 0 {
                assert forall|j1: int, j2: int|
                    k <= j1 < n && k <= j2 < n && #[trigger] font_entry_is(code, j1)
                        && #[trigger] font_entry_is(code, j2) implies j1 == j2 by {
                    if j1 > k {
                        assert(!font_entry_is(code, j1));
                    }
                    if j2 > k {
                        assert(!font_entry_is(code, j2));
                    }
                }
            } else {
                if (forall|j1: int, j2: int|
                    k <= j1 < n && k <= j2 < n && #[trigger] font_entry_is(code, j1)
                        && #[trigger] font_entry_is(code, j2) ==> j1 == j2) {
                    assert forall|j: int| k + 1 <= j < n implies !#[trigger] font_entry_is(code, j) by {
                        if font_entry_is(code, j) {
                            assert(font_entry_is(code, k));
                        }
                    }
                }
            }
        } else {
            assert forall|j: int| k <= j < n && #[trigger] font_entry_is(code, j) implies k + 1 <= j by {}
            if (exists|j: int| k <= j < n && #[trigger] font_entry_is(code, j)) {
                let j = choose|j: int| k <= j < n && #[trigger] font_entry_is(code, j);
                assert(k + 1 <= j < n && font_entry_is(code, j));
            }
        }
    }
}

/// A glyph's bitmap reads as the character `c` exactly when some entry of
/// the font gives `c` that bitmap and no other entry has it: a bitmap two
/// characters share (`0` and `O`, `5` and `S`) reads as nothing, and one
/// that no character has reads as nothing.
pub proof fn glyphs_read_only_when_unambiguous(code: int, c: char)
    ensures
        font_char(code) == Some(c) <==> (exists|j: int|
            0 <= j < font_table().len() && (#[trigger] font_table()[j]).1 == code && font_table()[j].0
                == c) && (forall|j1: int, j2: int|
            0 <= j1 < font_table().len() && 0 <= j2 < font_table().len() && (
            #[trigger] font_table()[j1]).1 == code && (#[trigger] font_table()[j2]).1 == code
                ==> j1 == j2),
{
    lemma_font_scan(code, 0);
    let n = font_table().len() as int;
    assert forall|j: int| 0 <= j < n implies (#[trigger] font_table()[j]).1 == code <==> font_entry_is(
        code,
        j,
    ) by {}
    if font_char(code) == Some(c) {
        let j = choose|j: int| 0 <= j < n && #[trigger] font_entry_is(code, j) && font_table()[j].0 == c;
        assert(font_table()[j].1 == code);
        assert forall|j1: int, j2: int|
            0 <= j1 < n && 0 <= j2 < n && (#[trigger] font_table()[j1]).1 == code && (
            #[trigger] font_table()[j2]).1 == code implies j1 == j2 by {
            assert(font_entry_is(code, j1) && font_entry_is(code, j2));
        }
    }
    if (exists|j: int| 0 <= j < n && (#[trigger] font_table()[j]).1 == code && font_table()[j].0 == c)
        && (forall|j1: int, j2: int|
        0 <= j1 < n && 0 <= j2 < n && (#[trigger] font_table()[j1]).1 == code && (
        #[trigger] font_table()[j2]).1 == code ==> j1 == j2) {
        let j = choose|j: int| 0 <= j < n && (#[trigger] font_table()[j]).1 == code && font_table()[j].0 == c;
        assert(font_entry_is(code, j));
        assert forall|j1: int, j2: int|
            0 <= j1 < n && 0 <= j2 < n && #[trigger] font_entry_is(code, j1) && #[trigger] font_entry_is(
                code,
                j2,
            ) implies j1 == j2 by {
            assert(font_table()[j1].1 == code && font_table()[j2].1 == code);
        }
        assert(font_matches(code, 0) == 1);
        let ch = font_lookup(code, 0)->Some_0;
        let j3 = choose|j3: int| 0 <= j3 < n && #[trigger] font_entry_is(code, j3) && font_table()[j3].0 == ch;
        assert(font_table()[j3].1 == code);
        assert(j3 == j);
    }
}

} // verus!
