use super::{Image, ImageFormat};
use crate::monos_gfx::types::{Color, Dimension};
use vstd::prelude::*;
use vstd::slice::{slice_subrange, slice_to_vec};

verus! {

/// Whether a byte is an ASCII digit.
pub open spec fn is_digit(b: u8) -> bool {
    0x30 <= b <= 0x39
}

/// How many digits a text starts with.
pub open spec fn digits_len(s: Seq<u8>) -> nat
    decreases s.len(),
{
    if s.len() > 0 && is_digit(s[0]) {
        1 + digits_len(s.drop_first())
    } else {
        0
    }
}

/// The decimal value of the first `k` bytes, read as digits.
pub open spec fn digits_value(s: Seq<u8>, k: int) -> int
    decreases k,
{
    if k <= 0 {
        0
    } else {
        digits_value(s, k - 1) * 10 + (s[k - 1] - 0x30)
    }
}

/// The number a text starts with (0 if none), and what follows it.
pub open spec fn spec_read_number(s: Seq<u8>) -> (int, Seq<u8>) {
    (digits_value(s, digits_len(s) as int), s.skip(digits_len(s) as int))
}

/// The number a text starts with fits in a `u32`.
pub open spec fn number_fits(s: Seq<u8>) -> bool {
    digits_value(s, digits_len(s) as int) <= u32::MAX
}

proof fn lemma_digits_len(s: Seq<u8>)
    ensures
        digits_len(s) <= s.len(),
        forall|i: int| 0 <= i < digits_len(s) ==> is_digit(#[trigger] s[i]),
        digits_len(s) < s.len() ==> !is_digit(s[digits_len(s) as int]),
    decreases s.len(),
{
    if s.len() > 0 && is_digit(s[0]) {
        lemma_digits_len(s.drop_first());
        assert forall|i: int| 1 <= i < digits_len(s) implies is_digit(#[trigger] s[i]) by {
            assert(s[i] == s.drop_first()[i - 1]);
        }
    }
}

proof fn lemma_digits_value_mono(s: Seq<u8>, j: int, k: int)
    requires
        0 <= j <= k <= s.len(),
        forall|i: int| 0 <= i < k ==> is_digit(#[trigger] s[i]),
    ensures
        0 <= digits_value(s, j) <= digits_value(s, k),
    decreases k - j,
{
    lemma_digits_value_nonneg(s, j);
    if j < k {
        lemma_digits_value_mono(s, j, k - 1);
        assert(is_digit(s[k - 1]));
    }
}

proof fn lemma_digits_value_nonneg(s: Seq<u8>, k: int)
    requires
        0 <= k <= s.len(),
        forall|i: int| 0 <= i < k ==> is_digit(#[trigger] s[i]),
    ensures
        0 <= digits_value(s, k),
    decreases k,
{
    if k > 0 {
        lemma_digits_value_nonneg(s, k - 1);
        assert(is_digit(s[k - 1]));
    }
}

/// Reads the decimal number a text starts with; gives it (0 if there is none) and what
/// follows it.
pub fn read_number(data: &[u8]) -> (r: (u32, &[u8]))
    requires
        number_fits(data@),
    ensures
        r.0 == spec_read_number(data@).0,
        r.1@ == spec_read_number(data@).1,
{
    proof {
        lemma_digits_len(data@);
    }
    let ghost k = digits_len(data@) as int;
    let mut number: u32 = 0;
    let mut i: usize = 0;
    while i < data.len() && 0x30 <= data[i] && data[i] <= 0x39
        invariant
            0 <= i <= k,
            k <= data@.len(),
            k == digits_len(data@),
            forall|j: int| 0 <= j < k ==> is_digit(#[trigger] data@[j]),
            k < data@.len() ==> !is_digit(data@[k]),
            number == digits_value(data@, i as int),
            digits_value(data@, k) <= u32::MAX,
        decreases data@.len() - i,
    {
        proof {
            lemma_digits_value_mono(data@, i + 1, k);
        }
        number = number * 10 + (data[i] - 0x30) as u32;
        i = i + 1;
    }
    let rest = slice_subrange(data, i, data.len());
    assert(rest@ =~= data@.skip(k));
    (number, rest)
}

/// What reading `n` bytes at `pos` of `data` into a zeroed buffer leaves in it.
pub open spec fn read_into(data: Seq<u8>, pos: int, n: int) -> Seq<u8> {
    Seq::new(n as nat, |i: int| if 0 <= pos + i < data.len() { data[pos + i] } else { 0u8 })
}

/// Reads `n` bytes at `pos` into a zeroed buffer.
fn read_at(data: &[u8], pos: usize, n: usize) -> (r: Vec<u8>)
    ensures
        r@ == read_into(data@, pos as int, n as int),
{
    let mut buf: Vec<u8> = Vec::new();
    let mut i: usize = 0;
    while i < n
        invariant
            i <= n,
            buf@.len() == i,
            forall|j: int| 0 <= j < i ==> buf@[j] == read_into(data@, pos as int, n as int)[j],
        decreases n - i,
    {
        let b = if pos < data.len() && i < data.len() - pos {
            data[pos + i]
        } else {
            0
        };
        buf.push(b);
        i = i + 1;
    }
    assert(buf@ =~= read_into(data@, pos as int, n as int));
    buf
}

/// The parts of a header after its two magic bytes: its width, its height, and the rest
/// of the 16 bytes read after the first 3.
pub open spec fn header_parts(data: Seq<u8>) -> (int, int, Seq<u8>) {
    let size = read_into(data, 3, 16);
    let (width, after_width) = spec_read_number(size);
    let (height, after_height) = spec_read_number(after_width.skip(1));
    (width, height, after_height.skip(1))
}

/// The header is read without running out of bytes or overflowing.
pub open spec fn header_ok(data: Seq<u8>) -> bool {
    let size = read_into(data, 3, 16);
    let after_width = spec_read_number(size).1;
    &&& number_fits(size)
    &&& after_width.len() >= 1
    &&& number_fits(after_width.skip(1))
    &&& spec_read_number(after_width.skip(1)).1.len() >= 1
}

/// The first three bytes start with the expected magic.
pub open spec fn magic_ok(data: Seq<u8>, expected: Seq<u8>) -> bool {
    read_into(data, 0, 3).take(expected.len() as int) == expected
}

/// Reads the magic, the width and the height of a netpbm header; gives the size and the
/// bytes read after them, or nothing if the magic is another.
pub fn parse_header(data: &[u8], expected: &[u8]) -> (r: Option<(Dimension, Vec<u8>)>)
    requires
        expected@.len() <= 3,
        magic_ok(data@, expected@) ==> header_ok(data@),
    ensures
        !magic_ok(data@, expected@) ==> r is None,
        magic_ok(data@, expected@) ==> (r matches Some((d, rest)) && d.width == header_parts(data@).0
            && d.height == header_parts(data@).1 && rest@ == header_parts(data@).2),
{
    let header = read_at(data, 0, 3);
    let mut i: usize = 0;
    while i < expected.len()
        invariant
            expected@.len() <= 3,
            header@ == read_into(data@, 0, 3),
            i <= expected@.len(),
            forall|j: int| 0 <= j < i ==> header@[j] == expected@[j],
        decreases expected@.len() - i,
    {
        if header[i] != expected[i] {
            proof {
                assert(header@.take(expected@.len() as int)[i as int] != expected@[i as int]);
            }
            return None;
        }
        i = i + 1;
    }
    proof {
        assert(header@.take(expected@.len() as int) =~= expected@);
    }
    let size_header = read_at(data, 3, 16);
    let (width, after_width) = read_number(size_header.as_slice());
    let after_width = slice_subrange(after_width, 1, after_width.len());
    let (height, after_height) = read_number(after_width);
    let rest = slice_subrange(after_height, 1, after_height.len());
    proof {
        assert(after_width@ =~= spec_read_number(read_into(data@, 3, 16)).1.skip(1));
        assert(rest@ =~= header_parts(data@).2);
    }
    Some((Dimension::new(width, height), slice_to_vec(rest)))
}

/// Loads binary PPM images (`P6`).
pub struct PPMLoader;

/// Loads binary PBM images (`P4`).
pub struct PBMLoader;

/// The magic of each format.
pub open spec fn ppm_magic() -> Seq<u8> {
    seq![0x50u8, 0x36]
}

pub open spec fn pbm_magic() -> Seq<u8> {
    seq![0x50u8, 0x34]
}

/// The pixel bytes of a PPM file: after the header, the maximum value and the byte after
/// it, the header's leftover bytes and then as many more from the file (zeros past its
/// end) as make the image's size.
pub open spec fn ppm_pixels(data: Seq<u8>) -> Seq<u8> {
    let (w, h, rest) = header_parts(data);
    let left = spec_read_number(rest).1.skip(1);
    left + read_into(data, 19, w * h * 3 - left.len())
}

/// A PPM file is read without overflowing or running out of its header.
pub open spec fn ppm_ok(data: Seq<u8>) -> bool {
    let (w, h, rest) = header_parts(data);
    &&& header_ok(data)
    &&& number_fits(rest)
    &&& spec_read_number(rest).1.len() >= 1
    &&& w * h * 3 <= usize::MAX
    &&& spec_read_number(rest).1.len() - 1 <= w * h * 3
}

/// The pixel bytes of a PBM file: the header's leftover bytes and then more from the file
/// up to the image's size in whole bytes.
pub open spec fn pbm_pixels(data: Seq<u8>) -> Seq<u8> {
    let (w, h, rest) = header_parts(data);
    rest + read_into(data, 19, w * h / 8 - rest.len())
}

/// A PBM file is read without overflowing or running out of its header.
pub open spec fn pbm_ok(data: Seq<u8>) -> bool {
    let (w, h, rest) = header_parts(data);
    &&& header_ok(data)
    &&& w * h <= usize::MAX
    &&& rest.len() <= w * h / 8
}

/// The image a PPM file holds.
pub open spec fn is_ppm_image(img: Image, data: Seq<u8>) -> bool {
    &&& img.dimensions.width == header_parts(data).0
    &&& img.dimensions.height == header_parts(data).1
    &&& match img.data {
        ImageFormat::RGB { data: d, alpha_val: a } => d@ == ppm_pixels(data) && a == Some(
            Color { r: 0, g: 0, b: 0 },
        ),
        _ => false,
    }
}

/// The image a PBM file holds.
pub open spec fn is_pbm_image(img: Image, data: Seq<u8>) -> bool {
    &&& img.dimensions.width == header_parts(data).0
    &&& img.dimensions.height == header_parts(data).1
    &&& match img.data {
        ImageFormat::Bitmap { data: d, color: c } => d@ == pbm_pixels(data) && c == (Color {
            r: 255,
            g: 255,
            b: 255,
        }),
        _ => false,
    }
}

impl PPMLoader {
    /// Reads a PPM image; its black pixels are transparent.
    pub fn load_image(&self, data: &[u8]) -> (r: Option<Image>)
        requires
            magic_ok(data@, ppm_magic()) ==> ppm_ok(data@),
        ensures
            !magic_ok(data@, ppm_magic()) ==> r is None,
            magic_ok(data@, ppm_magic()) ==> (r matches Some(img) && is_ppm_image(img, data@)),
    {
        let magic: [u8; 2] = [0x50, 0x36];
        proof {
            assert(magic@ =~= ppm_magic());
        }
        let (dimensions, header_remaining) = match parse_header(data, magic.as_slice()) {
            Some(h) => h,
            None => {
                return None;
            },
        };
        let (_, after_max) = read_number(header_remaining.as_slice());
        let left = slice_subrange(after_max, 1, after_max.len());
        let size_bytes = dimensions.width as usize * dimensions.height as usize * 3;
        let start_offset = left.len();
        let mut pixel_data = slice_to_vec(left);
        let more = read_at(data, 19, size_bytes - start_offset);
        let mut i: usize = 0;
        while i < more.len()
            invariant
                i <= more@.len(),
                pixel_data@ == left@ + more@.take(i as int),
            decreases more@.len() - i,
        {
            pixel_data.push(more[i]);
            proof {
                assert(more@.take(i + 1) =~= more@.take(i as int).push(more@[i as int]));
            }
            i = i + 1;
        }
        proof {
            assert(more@.take(more@.len() as int) =~= more@);
            assert(left@ =~= spec_read_number(header_parts(data@).2).1.skip(1));
        }
        Some(
            Image::new(
                dimensions,
                ImageFormat::RGB { data: pixel_data, alpha_val: Some(Color::new(0, 0, 0)) },
            ),
        )
    }
}

impl PBMLoader {
    /// Reads a PBM image; its set pixels are white.
    pub fn load_image(&self, data: &[u8]) -> (r: Option<Image>)
        requires
            magic_ok(data@, pbm_magic()) ==> pbm_ok(data@),
        ensures
            !magic_ok(data@, pbm_magic()) ==> r is None,
            magic_ok(data@, pbm_magic()) ==> (r matches Some(img) && is_pbm_image(img, data@)),
    {
        let magic: [u8; 2] = [0x50, 0x34];
        proof {
            assert(magic@ =~= pbm_magic());
        }
        let (dimensions, header_remaining) = match parse_header(data, magic.as_slice()) {
            Some(h) => h,
            None => {
                return None;
            },
        };
        let size_bytes = dimensions.width as usize * dimensions.height as usize / 8;
        let start_offset = header_remaining.len();
        let mut pixel_data = header_remaining;
        let more = read_at(data, 19, size_bytes - start_offset);
        let ghost head = pixel_data@;
        let mut i: usize = 0;
        while i < more.len()
            invariant
                i <= more@.len(),
                pixel_data@ == head + more@.take(i as int),
            decreases more@.len() - i,
        {
            pixel_data.push(more[i]);
            proof {
                assert(more@.take(i + 1) =~= more@.take(i as int).push(more@[i as int]));
            }
            i = i + 1;
        }
        proof {
            assert(more@.take(more@.len() as int) =~= more@);
        }
        Some(
            Image::new(
                dimensions,
                ImageFormat::Bitmap { data: pixel_data, color: Color::new(255, 255, 255) },
            ),
        )
    }
}

impl Image {
    pub fn from_ppm(data: &[u8]) -> (r: Option<Image>)
        requires
            magic_ok(data@, ppm_magic()) ==> ppm_ok(data@),
        ensures
            !magic_ok(data@, ppm_magic()) ==> r is None,
            magic_ok(data@, ppm_magic()) ==> (r matches Some(img) && is_ppm_image(img, data@)),
    {
        PPMLoader.load_image(data)
    }

    pub fn from_pbm(data: &[u8]) -> (r: Option<Image>)
        requires
            magic_ok(data@, pbm_magic()) ==> pbm_ok(data@),
        ensures
            !magic_ok(data@, pbm_magic()) ==> r is None,
            magic_ok(data@, pbm_magic()) ==> (r matches Some(img) && is_pbm_image(img, data@)),
    {
        PBMLoader.load_image(data)
    }

    /// Reads a PPM image, or else a PBM image; nothing if the data is neither.
    pub fn detect_format(data: &[u8]) -> (r: Option<Image>)
        requires
            magic_ok(data@, ppm_magic()) ==> ppm_ok(data@),
            magic_ok(data@, pbm_magic()) ==> pbm_ok(data@),
        ensures
            magic_ok(data@, ppm_magic()) ==> (r matches Some(img) && is_ppm_image(img, data@)),
            !magic_ok(data@, ppm_magic()) && magic_ok(data@, pbm_magic()) ==> (r matches Some(img)
                && is_pbm_image(img, data@)),
            !magic_ok(data@, ppm_magic()) && !magic_ok(data@, pbm_magic()) ==> r is None,
    {
        if let Some(image) = Image::from_ppm(data) {
            return Some(image);
        }
        if let Some(image) = Image::from_pbm(data) {
            return Some(image);
        }
        None
    }
}

} // verus!
