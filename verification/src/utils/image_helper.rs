//! Pixel dimensions of embedded PNG, GIF and JPEG images, read from their headers.
use vstd::prelude::*;
use crate::error::{CoreRsError, ErrorKind, ErrorV, err};
use crate::utils::text::owned;

verus! {

pub open spec fn be16(d: Seq<u8>, i: int) -> nat {
    (d[i] as nat) * 256 + (d[i + 1] as nat)
}

pub open spec fn le16(d: Seq<u8>, i: int) -> nat {
    (d[i + 1] as nat) * 256 + (d[i] as nat)
}

pub open spec fn be32(d: Seq<u8>, i: int) -> nat {
    (d[i] as nat) * 16777216 + (d[i + 1] as nat) * 65536 + (d[i + 2] as nat) * 256 + (d[i + 3] as nat)
}

/// A dimension of zero counts as one.
pub open spec fn at_least_one(n: nat) -> nat {
    if n == 0 { 1 } else { n }
}

pub open spec fn png_signature() -> Seq<u8> {
    seq![0x89u8, 0x50u8, 0x4Eu8, 0x47u8, 0x0Du8, 0x0Au8, 0x1Au8, 0x0Au8]
}

pub open spec fn spec_png_dimensions(d: Seq<u8>) -> Result<(nat, nat), ErrorV> {
    if d.len() < 24 || d.take(8) != png_signature() {
        Err(err(ErrorKind::InvalidMarkdown, "invalid PNG image data"@))
    } else {
        Ok((at_least_one(be32(d, 16)), at_least_one(be32(d, 20))))
    }
}

pub open spec fn gif_header(version: u8) -> Seq<u8> {
    seq![0x47u8, 0x49u8, 0x46u8, 0x38u8, version, 0x61u8]
}

pub open spec fn spec_gif_dimensions(d: Seq<u8>) -> Result<(nat, nat), ErrorV> {
    if d.len() < 10 || (d.take(6) != gif_header(0x37) && d.take(6) != gif_header(0x39)) {
        Err(err(ErrorKind::InvalidMarkdown, "invalid GIF image data"@))
    } else {
        Ok((at_least_one(le16(d, 6)), at_least_one(le16(d, 8))))
    }
}

/// Whether a JPEG marker starts a frame, whose header holds the dimensions.
pub open spec fn is_frame_marker(m: u8) -> bool {
    m == 0xC0 || m == 0xC1 || m == 0xC2 || m == 0xC3 || m == 0xC5 || m == 0xC6 || m == 0xC7 || m == 0xC9
        || m == 0xCA || m == 0xCB || m == 0xCD || m == 0xCE || m == 0xCF
}

/// The first index at or after `i` that holds 0xFF, or the length.
pub open spec fn next_ff(d: Seq<u8>, i: nat) -> nat
    decreases d.len() - i,
{
    if i >= d.len() || d[i as int] == 0xFF {
        i
    } else {
        next_ff(d, i + 1)
    }
}

pub proof fn lemma_next_ff(d: Seq<u8>, i: nat)
    ensures
        i <= next_ff(d, i),
        i <= d.len() ==> next_ff(d, i) <= d.len(),
        next_ff(d, i) < d.len() ==> d[next_ff(d, i) as int] == 0xFF,
    decreases d.len() - i,
{
    if !(i >= d.len() || d[i as int] == 0xFF) {
        lemma_next_ff(d, i + 1);
    }
}

pub open spec fn jpeg_unknown() -> ErrorV {
    err(ErrorKind::InvalidMarkdown, "could not determine JPEG image dimensions"@)
}

/// Walks the JPEG segments from `index` to the first frame header.
pub open spec fn spec_jpeg_scan(d: Seq<u8>, index: nat) -> Result<(nat, nat), ErrorV>
    decreases d.len() - index,
{
    if !(index + 8 < d.len()) {
        Err(jpeg_unknown())
    } else {
        let j: int = next_ff(d, index) as int;
        proof {
            lemma_next_ff(d, index);
        }
        if j >= d.len() || d.len() - j <= 1 {
            Err(jpeg_unknown())
        } else {
            let marker = d[j + 1];
            let k: int = j + 2;
            if marker == 0xD9 || marker == 0xDA || d.len() - k < 2 {
                Err(jpeg_unknown())
            } else {
                let length = be16(d, k);
                if length < 2 || length > d.len() - k {
                    Err(jpeg_unknown())
                } else if is_frame_marker(marker) && length >= 7 {
                    Ok((at_least_one(be16(d, k + 5)), at_least_one(be16(d, k + 3))))
                } else {
                    spec_jpeg_scan(d, (k + length) as nat)
                }
            }
        }
    }
}

pub open spec fn spec_jpeg_dimensions(d: Seq<u8>) -> Result<(nat, nat), ErrorV> {
    if d.len() < 4 || d[0] != 0xFF || d[1] != 0xD8 {
        Err(err(ErrorKind::InvalidMarkdown, "invalid JPEG image data"@))
    } else {
        spec_jpeg_scan(d, 2)
    }
}

/// The width and height of an image, by its MIME type.
pub open spec fn spec_image_dimensions(mime: Seq<char>, d: Seq<u8>) -> Result<(nat, nat), ErrorV> {
    if mime == "image/png"@ {
        spec_png_dimensions(d)
    } else if mime == "image/gif"@ {
        spec_gif_dimensions(d)
    } else if mime == "image/jpeg"@ || mime == "image/jpg"@ {
        spec_jpeg_dimensions(d)
    } else {
        Err(err(ErrorKind::UnsupportedFeature, "unsupported image mime type: "@ + mime))
    }
}

fn read_be32(d: &Vec<u8>, i: usize) -> (n: u32)
    requires
        i + 4 <= d.len(),
    ensures
        n == be32(d@, i as int),
{
    let n = (d[i] as u32) * 16777216 + (d[i + 1] as u32) * 65536 + (d[i + 2] as u32) * 256 + (d[i + 3] as u32);
    n
}

fn read_be16(d: &Vec<u8>, i: usize) -> (n: u32)
    requires
        i + 2 <= d.len(),
    ensures
        n == be16(d@, i as int),
{
    (d[i] as u32) * 256 + (d[i + 1] as u32)
}

fn at_least_one_u32(n: u32) -> (r: u32)
    ensures
        r == at_least_one(n as nat),
{
    if n == 0 { 1 } else { n }
}

fn png_dimensions(d: &Vec<u8>) -> (r: Result<(u32, u32), CoreRsError>)
    ensures
        match spec_png_dimensions(d@) {
            Ok((w, h)) => r matches Ok((a, b)) && a == w && b == h,
            Err(e) => r matches Err(x) && x@ == e,
        },
{
    if d.len() < 24 || d[0] != 0x89 || d[1] != 0x50 || d[2] != 0x4E || d[3] != 0x47 || d[4] != 0x0D || d[5] != 0x0A
        || d[6] != 0x1A || d[7] != 0x0A {
        proof {
            if d@.len() >= 24 {
                assert(d@.take(8)[0] == d@[0] && d@.take(8)[1] == d@[1] && d@.take(8)[2] == d@[2] && d@.take(8)[3] == d@[3]);
                assert(d@.take(8)[4] == d@[4] && d@.take(8)[5] == d@[5] && d@.take(8)[6] == d@[6] && d@.take(8)[7] == d@[7]);
            }
        }
        return Err(CoreRsError::from_str_detail(ErrorKind::InvalidMarkdown, "invalid PNG image data"));
    }
    assert(d@.take(8) =~= png_signature());
    let w = read_be32(d, 16);
    let h = read_be32(d, 20);
    Ok((at_least_one_u32(w), at_least_one_u32(h)))
}

fn gif_dimensions(d: &Vec<u8>) -> (r: Result<(u32, u32), CoreRsError>)
    ensures
        match spec_gif_dimensions(d@) {
            Ok((w, h)) => r matches Ok((a, b)) && a == w && b == h,
            Err(e) => r matches Err(x) && x@ == e,
        },
{
    let head_ok = d.len() >= 10 && d[0] == 0x47 && d[1] == 0x49 && d[2] == 0x46 && d[3] == 0x38 && (d[4] == 0x37
        || d[4] == 0x39) && d[5] == 0x61;
    if !head_ok {
        proof {
            if d@.len() >= 10 {
                let t = d@.take(6);
                assert(t[0] == d@[0] && t[1] == d@[1] && t[2] == d@[2] && t[3] == d@[3] && t[4] == d@[4] && t[5] == d@[5]);
                assert(gif_header(0x37)[4] == 0x37 && gif_header(0x39)[4] == 0x39);
            }
        }
        return Err(CoreRsError::from_str_detail(ErrorKind::InvalidMarkdown, "invalid GIF image data"));
    }
    proof {
        if d@[4] == 0x37 {
            assert(d@.take(6) =~= gif_header(0x37));
        } else {
            assert(d@.take(6) =~= gif_header(0x39));
        }
    }
    let w = (d[7] as u32) * 256 + (d[6] as u32);
    let h = (d[9] as u32) * 256 + (d[8] as u32);
    Ok((at_least_one_u32(w), at_least_one_u32(h)))
}

fn jpeg_dimensions(d: &Vec<u8>) -> (r: Result<(u32, u32), CoreRsError>)
    ensures
        match spec_jpeg_dimensions(d@) {
            Ok((w, h)) => r matches Ok((a, b)) && a == w && b == h,
            Err(e) => r matches Err(x) && x@ == e,
        },
{
    if d.len() < 4 || d[0] != 0xFF || d[1] != 0xD8 {
        return Err(CoreRsError::from_str_detail(ErrorKind::InvalidMarkdown, "invalid JPEG image data"));
    }
    let mut index: usize = 2;
    while index < d.len() && d.len() - index > 8
        invariant
            2 <= index <= d.len(),
            d@.len() >= 4,
            spec_jpeg_dimensions(d@) == spec_jpeg_scan(d@, index as nat),
        decreases d.len() - index,
    {
        let ghost start = index as nat;
        let mut j = index;
        while j < d.len() && d[j] != 0xFF
            invariant
                index <= j <= d.len(),
                next_ff(d@, start) == next_ff(d@, j as nat),
            decreases d.len() - j,
        {
            j += 1;
        }
        if j >= d.len() || d.len() - j <= 1 {
            return Err(CoreRsError::from_str_detail(ErrorKind::InvalidMarkdown, "could not determine JPEG image dimensions"));
        }
        let marker = d[j + 1];
        let k = j + 2;
        if marker == 0xD9 || marker == 0xDA || d.len() - k < 2 {
            return Err(CoreRsError::from_str_detail(ErrorKind::InvalidMarkdown, "could not determine JPEG image dimensions"));
        }
        let length = read_be16(d, k) as usize;
        if length < 2 || length > d.len() - k {
            return Err(CoreRsError::from_str_detail(ErrorKind::InvalidMarkdown, "could not determine JPEG image dimensions"));
        }
        let frame = marker == 0xC0 || marker == 0xC1 || marker == 0xC2 || marker == 0xC3 || marker == 0xC5
            || marker == 0xC6 || marker == 0xC7 || marker == 0xC9 || marker == 0xCA || marker == 0xCB
            || marker == 0xCD || marker == 0xCE || marker == 0xCF;
        if frame && length >= 7 {
            let h = read_be16(d, k + 3);
            let w = read_be16(d, k + 5);
            return Ok((at_least_one_u32(w), at_least_one_u32(h)));
        }
        index = k + length;
    }
    Err(CoreRsError::from_str_detail(ErrorKind::InvalidMarkdown, "could not determine JPEG image dimensions"))
}

/// The width and height of an embedded image, read from its header.
pub fn image_dimensions(mime_type: &str, data: &Vec<u8>) -> (r: Result<(u32, u32), CoreRsError>)
    ensures
        match spec_image_dimensions(mime_type@, data@) {
            Ok((w, h)) => r matches Ok((a, b)) && a == w && b == h,
            Err(e) => r matches Err(x) && x@ == e,
        },
{
    if crate::utils::text::str_eq(mime_type, "image/png") {
        png_dimensions(data)
    } else if crate::utils::text::str_eq(mime_type, "image/gif") {
        gif_dimensions(data)
    } else if crate::utils::text::str_eq(mime_type, "image/jpeg") || crate::utils::text::str_eq(mime_type, "image/jpg") {
        jpeg_dimensions(data)
    } else {
        let mut m = owned("unsupported image mime type: ");
        m.append(mime_type);
        Err(CoreRsError::new(ErrorKind::UnsupportedFeature, m))
    }
}

} // verus!
