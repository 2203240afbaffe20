//! Frame normalisation: every paint, software or GPU, becomes a tightly packed
//! RGBA8 buffer, and rendered regions are cut out of such buffers.
use vstd::prelude::*;

verus! {

/// Row pitch alignment that GPU buffer copies require, in bytes.
pub const COPY_ROW_ALIGNMENT: u32 = 256;

/// Bytes per RGBA8 pixel.
pub const BYTES_PER_PIXEL: usize = 4;

/// `rows` rows of `row_len` bytes taken from `b`, the first at `offset` and each
/// next one `stride` bytes further.
pub open spec fn strided_rows(b: Seq<u8>, offset: int, stride: int, row_len: int, rows: int) -> Seq<u8> {
    Seq::new(
        (rows * row_len) as nat,
        |i: int| b[offset + (i / row_len) * stride + i % row_len],
    )
}

/// Whether those rows lie within a buffer of `len` bytes.
pub open spec fn rows_in_bounds(len: int, offset: int, stride: int, row_len: int, rows: int) -> bool {
    rows == 0 || row_len == 0 || offset + (rows - 1) * stride + row_len <= len
}

/// Whether strided rows can be copied out: they lie in the buffer and their
/// total size is addressable.
pub open spec fn rows_copyable(len: int, offset: int, stride: int, row_len: int, rows: int) -> bool {
    rows_in_bounds(len, offset, stride, row_len, rows) && rows * row_len <= usize::MAX
}

/// The smallest multiple of `alignment` that is at least `value`.
pub open spec fn aligned_up(value: int, alignment: int) -> int {
    ((value + alignment - 1) / alignment) * alignment
}

proof fn lemma_row_index(k: int, row: int, col: int, row_len: int)
    requires
        0 <= row,
        0 <= col < row_len,
        k == row * row_len + col,
    ensures
        k / row_len == row,
        k % row_len == col,
{
    vstd::arithmetic::div_mod::lemma_fundamental_div_mod_converse(k, row_len, row, col);
}

/// Copies strided rows out of `buffer` into one packed buffer.
///
/// Returns `None` exactly when the rows do not lie within `buffer` or their total
/// size does not fit in memory.
pub fn copy_rows(buffer: &[u8], offset: usize, stride: usize, row_len: usize, rows: usize) -> (r:
    Option<Vec<u8>>)
    ensures
        match r {
            Some(v) => rows_copyable(buffer@.len() as int, offset as int, stride as int, row_len as int, rows as int)
                && v@ == strided_rows(buffer@, offset as int, stride as int, row_len as int, rows as int),
            None => !rows_copyable(buffer@.len() as int, offset as int, stride as int, row_len as int, rows as int),
        },
{
    if rows == 0 || row_len == 0 {
        let empty: Vec<u8> = Vec::new();
        proof {
            assert(rows * row_len == 0) by (nonlinear_arith)
                requires
                    rows == 0 || row_len == 0,
            ;
            assert(empty@ =~= strided_rows(buffer@, offset as int, stride as int, row_len as int, rows as int));
        }
        return Some(empty);
    }
    proof {
        vstd::arithmetic::mul::lemma_mul_inequality(rows as int, 0xffff_ffff_ffff_ffff, row_len as int);
        vstd::arithmetic::mul::lemma_mul_inequality(row_len as int, 0xffff_ffff_ffff_ffff, 0xffff_ffff_ffff_ffff);
        vstd::arithmetic::mul::lemma_mul_inequality((rows - 1) as int, 0xffff_ffff_ffff_ffff, stride as int);
        vstd::arithmetic::mul::lemma_mul_inequality(stride as int, 0xffff_ffff_ffff_ffff, 0xffff_ffff_ffff_ffff);
    }
    let total: u128 = rows as u128 * row_len as u128;
    let end: u128 = offset as u128 + (rows - 1) as u128 * stride as u128 + row_len as u128;
    if total > usize::MAX as u128 || end > buffer.len() as u128 {
        return None;
    }
    let mut out: Vec<u8> = Vec::with_capacity(total as usize);
    let mut row: usize = 0;
    while row < rows
        invariant
            0 < row_len,
            row <= rows,
            buffer@.len() <= usize::MAX,
            offset + (rows - 1) * stride + row_len <= buffer@.len(),
            out@.len() == row * row_len,
            forall|k: int|
                0 <= k < out@.len() ==> #[trigger] out@[k] == buffer@[offset + (k / row_len as int) * stride
                    + k % (row_len as int)],
        decreases rows - row,
    {
        proof {
            vstd::arithmetic::mul::lemma_mul_inequality(row as int, rows - 1, stride as int);
            assert(row * stride <= (rows - 1) * stride);
            assert(offset + row * stride + row_len <= buffer@.len());
        }
        let start: usize = offset + row * stride;
        let mut col: usize = 0;
        while col < row_len
            invariant
                0 < row_len,
                row < rows,
                buffer@.len() <= usize::MAX,
                start == offset + row * stride,
                start + row_len <= buffer@.len(),
                out@.len() == row * row_len + col,
                col <= row_len,
                forall|k: int|
                    0 <= k < out@.len() ==> #[trigger] out@[k] == buffer@[offset + (k / row_len as int)
                        * stride + k % (row_len as int)],
            decreases row_len - col,
        {
            proof {
                lemma_row_index(row * row_len + col, row as int, col as int, row_len as int);
            }
            out.push(buffer[start + col]);
            col = col + 1;
        }
        proof {
            vstd::arithmetic::mul::lemma_mul_is_distributive_add_other_way(row_len as int, row as int, 1);
        }
        row = row + 1;
    }
    proof {
        assert(out@ =~= strided_rows(buffer@, offset as int, stride as int, row_len as int, rows as int));
    }
    Some(out)
}

/// Rounds `value` up to a multiple of `alignment`.
pub fn align_to(value: u32, alignment: u32) -> (r: u32)
    requires
        alignment > 0,
        aligned_up(value as int, alignment as int) <= u32::MAX,
    ensures
        r == aligned_up(value as int, alignment as int),
        r % alignment == 0,
        value <= r < value + alignment,
{
    let q: u64 = (value as u64 + alignment as u64 - 1) / alignment as u64;
    proof {
        let v = value as int;
        let a = alignment as int;
        vstd::arithmetic::div_mod::lemma_fundamental_div_mod(v + a - 1, a);
        vstd::arithmetic::div_mod::lemma_mod_pos_bound(v + a - 1, a);
        vstd::arithmetic::div_mod::lemma_mod_multiples_basic(q as int, a);
        vstd::arithmetic::mul::lemma_mul_is_commutative(q as int, a);
        assert(q * a == aligned_up(v, a));
    }
    (q * alignment as u64) as u32
}

/// Tightly packs a paint buffer whose rows are `bytes_per_row` bytes apart.
///
/// Returns `None` when the buffer is too short for `height` rows of `width`
/// pixels.
pub fn pack_rows(buffer: &[u8], width: usize, height: usize, bytes_per_row: usize) -> (r: Option<
    Vec<u8>,
>)
    ensures
        match r {
            Some(v) => width * 4 <= usize::MAX && rows_copyable(buffer@.len() as int, 0, bytes_per_row as int, width * 4, height as int)
                && v@ == strided_rows(buffer@, 0, bytes_per_row as int, width * 4, height as int),
            None => width * 4 > usize::MAX || !rows_copyable(buffer@.len() as int, 0, bytes_per_row as int, width * 4, height as int),
        },
{
    if width > usize::MAX / BYTES_PER_PIXEL {
        return None;
    }
    copy_rows(buffer, 0, bytes_per_row, width * BYTES_PER_PIXEL, height)
}

/// Why a GPU paint could not be captured.
#[derive(Debug, Clone, Copy, PartialEq, Eq, Structural)]
pub enum CaptureError {
    /// The texture reported a zero or negative size.
    InvalidTextureSize,
    /// The readback buffer for that size does not fit the GPU's limits.
    TextureTooLarge,
}

/// The size of a shared texture, refused when not positive.
pub fn texture_extent(width: i32, height: i32) -> (r: Result<(u32, u32), CaptureError>)
    ensures
        width <= 0 || height <= 0 ==> r == Err::<(u32, u32), CaptureError>(CaptureError::InvalidTextureSize),
        width > 0 && height > 0 ==> r == Ok::<(u32, u32), CaptureError>((width as u32, height as u32)),
{
    if width <= 0 || height <= 0 {
        return Err(CaptureError::InvalidTextureSize);
    }
    Ok((width as u32, height as u32))
}

/// Row pitch and total size of the host-readable buffer that a `width` by
/// `height` RGBA8 texture is copied into: rows padded to the copy alignment.
pub fn readback_layout(width: u32, height: u32) -> (r: Result<(u32, u64), CaptureError>)
    ensures
        match r {
            Ok((bytes_per_row, size)) => {
                &&& bytes_per_row == aligned_up(width * 4, COPY_ROW_ALIGNMENT as int)
                &&& size == bytes_per_row * height
            },
            Err(e) => e == CaptureError::TextureTooLarge && aligned_up(width * 4, COPY_ROW_ALIGNMENT as int) > u32::MAX,
        },
{
    let row: u64 = width as u64 * 4;
    let q: u64 = (row + COPY_ROW_ALIGNMENT as u64 - 1) / COPY_ROW_ALIGNMENT as u64;
    if q * (COPY_ROW_ALIGNMENT as u64) > u32::MAX as u64 {
        proof {
            vstd::arithmetic::mul::lemma_mul_is_commutative(q as int, COPY_ROW_ALIGNMENT as int);
        }
        return Err(CaptureError::TextureTooLarge);
    }
    proof {
        vstd::arithmetic::mul::lemma_mul_is_commutative(q as int, COPY_ROW_ALIGNMENT as int);
    }
    let bytes_per_row = align_to((width as u64 * 4) as u32, COPY_ROW_ALIGNMENT);
    proof {
        vstd::arithmetic::mul::lemma_mul_upper_bound(bytes_per_row as int, u32::MAX as int, height as int, u32::MAX as int);
    }
    Ok((bytes_per_row, bytes_per_row as u64 * height as u64))
}

} // verus!
