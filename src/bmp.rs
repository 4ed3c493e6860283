//! The header of a BMP file holding 24-bit pixels, bottom row first.

use vstd::prelude::*;

verus! {

/// Bytes in one stored row of `width` pixels: three per pixel, padded to a
/// multiple of four.
pub open spec fn row_size(width: int) -> int {
    (3 * width + 3) / 4 * 4
}

/// Size of the whole file: a 14-byte file header, a 108-byte info header and
/// the pixel rows.
pub open spec fn file_size(width: int, height: int) -> int {
    122 + row_size(width) * height
}

/// `x` as four little-endian bytes.
pub open spec fn le32(x: int) -> Seq<u8> {
    seq![
        (x % 256) as u8,
        (x / 0x100 % 256) as u8,
        (x / 0x10000 % 256) as u8,
        (x / 0x1000000 % 256) as u8,
    ]
}

/// `n` zero bytes.
pub open spec fn zeros(n: nat) -> Seq<u8> {
    Seq::new(n, |i: int| 0u8)
}

/// The 122 header bytes of a `width` by `height` image: no compression, 72
/// DPI, no palette, no bit masks, the sRGB color space.
pub open spec fn header_bytes(width: int, height: int) -> Seq<u8> {
    seq![0x42u8, 0x4Du8] + le32(file_size(width, height)) + zeros(4) + le32(122) + le32(108)
        + le32(width) + le32(height) + seq![1u8, 0u8, 24u8, 0u8] + zeros(4)
        + le32(row_size(width) * height) + le32(2835) + le32(2835) + zeros(8) + zeros(16)
        + seq![0x42u8, 0x47u8, 0x52u8, 0x73u8] + zeros(48)
}

/// A BMP header and the length of one stored row.
pub struct BmpHeader {
    pub bytes: Vec<u8>,
    pub row_bytes: u32,
}

fn push_le32(v: &mut Vec<u8>, x: u32)
    ensures
        final(v)@ == old(v)@ + le32(x as int),
{
    v.push((x % 256) as u8);
    v.push((x / 0x100 % 256) as u8);
    v.push((x / 0x10000 % 256) as u8);
    v.push((x / 0x1000000 % 256) as u8);
    assert(final(v)@ =~= old(v)@ + le32(x as int));
}

fn push_zeros(v: &mut Vec<u8>, n: usize)
    ensures
        final(v)@ == old(v)@ + zeros(n as nat),
{
    let ghost start = v@;
    let mut k: usize = 0;
    while k < n
        invariant
            0 <= k <= n,
            v@ == start + zeros(k as nat),
        decreases n - k,
    {
        v.push(0u8);
        k = k + 1;
        assert(v@ =~= start + zeros(k as nat));
    }
}

fn push_bytes(v: &mut Vec<u8>, b: &[u8])
    ensures
        final(v)@ == old(v)@ + b@,
{
    let ghost start = v@;
    let mut k: usize = 0;
    while k < b.len()
        invariant
            0 <= k <= b@.len(),
            v@ == start + b@.take(k as int),
        decreases b@.len() - k,
    {
        v.push(b[k]);
        k = k + 1;
        assert(v@ =~= start + b@.take(k as int));
    }
    assert(b@.take(b@.len() as int) =~= b@);
}

/// The header of a `width` by `height` image, and the length of a stored
/// row; `None` when the row length or the file size does not fit in 32 bits.
pub fn header(width: u32, height: u32) -> (r: Option<BmpHeader>)
    ensures
        r is None <==> row_size(width as int) > u32::MAX || file_size(width as int, height as int) > u32::MAX,
        r matches Some(hd) ==> hd.row_bytes == row_size(width as int) && hd.bytes@ == header_bytes(
            width as int,
            height as int,
        ),
{
    let row: u64 = (3 * (width as u64) + 3) / 4 * 4;
    if row > u32::MAX as u64 {
        return None;
    }
    assert(row * (height as u64) <= u64::MAX) by (nonlinear_arith)
        requires
            row <= u32::MAX,
            height <= u32::MAX,
    ;
    let pixels: u64 = row * (height as u64);
    if pixels > u32::MAX as u64 - 122 {
        return None;
    }
    let size = (122 + pixels) as u32;
    let mut b: Vec<u8> = Vec::new();
    push_bytes(&mut b, &[0x42u8, 0x4Du8]);
    push_le32(&mut b, size);
    push_zeros(&mut b, 4);
    push_le32(&mut b, 122);
    push_le32(&mut b, 108);
    push_le32(&mut b, width);
    push_le32(&mut b, height);
    push_bytes(&mut b, &[1u8, 0u8, 24u8, 0u8]);
    push_zeros(&mut b, 4);
    push_le32(&mut b, pixels as u32);
    push_le32(&mut b, 2835);
    push_le32(&mut b, 2835);
    push_zeros(&mut b, 8);
    push_zeros(&mut b, 16);
    push_bytes(&mut b, &[0x42u8, 0x47u8, 0x52u8, 0x73u8]);
    push_zeros(&mut b, 48);
    Some(BmpHeader { bytes: b, row_bytes: row as u32 })
}

} // verus!
