//! Decoding of the MNIST files: labels into batches of one-hot rows, images
//! into batches of rows of raw intensities.
//!
//! Both files start with big-endian 32-bit words: a magic number, which is
//! not looked at, and the number of items; the image file adds the height
//! and the width of an image. The items follow, a byte per label or per
//! pixel. Items are grouped into batches of `batch_size` rows, and what is
//! left over at the end is dropped.
use vstd::prelude::*;
use crate::matrix::{rows_form_grid, Matrix};
use crate::scalar::Scalar;

verus! {

/// Why a file could not be decoded.
#[derive(Clone, Copy, Debug, PartialEq, Eq, Structural)]
pub enum ParseError {
    /// The data ends before the header does, or before the last item of the
    /// last batch.
    UnexpectedEnd,
    /// The batch size is zero.
    EmptyBatch,
    /// The byte at `position` is no label: it is not below ten.
    LabelOutOfRange { position: usize, label: u8 },
    /// The header announces images without pixels.
    EmptyImage,
}

/// The number of classes of a label.
pub const CLASSES: usize = 10;

/// The length of the header of a label file.
pub const LABEL_HEADER: usize = 8;

/// The length of the header of an image file.
pub const IMAGE_HEADER: usize = 16;

/// The big-endian word in the four bytes from `at` on.
pub open spec fn word_at(bytes: Seq<u8>, at: int) -> int {
    bytes[at] * 0x100_0000 + bytes[at + 1] * 0x1_0000 + bytes[at + 2] * 0x100 + bytes[at + 3]
}

/// The big-endian word in the four bytes from `at` on, where the data holds
/// them.
pub fn read_u32(bytes: &[u8], at: usize) -> (r: Option<u32>)
    ensures
        at + 4 <= bytes@.len() ==> r == Some(word_at(bytes@, at as int) as u32) && r.unwrap()
            == word_at(bytes@, at as int),
        at + 4 > bytes@.len() ==> r.is_none(),
{
    if bytes.len() < 4 || at > bytes.len() - 4 {
        return None;
    }
    let b0: u32 = bytes[at] as u32;
    let b1: u32 = bytes[at + 1] as u32;
    let b2: u32 = bytes[at + 2] as u32;
    let b3: u32 = bytes[at + 3] as u32;
    Some(b0 * 0x100_0000 + b1 * 0x1_0000 + b2 * 0x100 + b3)
}

/// The first thing wrong with the labels from `from` up to, but not
/// including, `to`: the data ends, or a byte is not below ten.
pub open spec fn first_label_error(bytes: Seq<u8>, from: int, to: int) -> Option<ParseError>
    decreases to - from,
{
    if from >= to {
        None
    } else if from >= bytes.len() {
        Some(ParseError::UnexpectedEnd)
    } else if bytes[from] >= CLASSES {
        Some(ParseError::LabelOutOfRange { position: from as usize, label: bytes[from] })
    } else {
        first_label_error(bytes, from + 1, to)
    }
}

/// The number of whole batches that the announced items fill.
pub open spec fn batch_count(bytes: Seq<u8>, batch_size: usize) -> int {
    word_at(bytes, 4) / (batch_size as int)
}

/// What is wrong with a label file, if anything.
pub open spec fn label_error(bytes: Seq<u8>, batch_size: usize) -> Option<ParseError> {
    if bytes.len() < LABEL_HEADER {
        Some(ParseError::UnexpectedEnd)
    } else if batch_size == 0 {
        Some(ParseError::EmptyBatch)
    } else {
        first_label_error(
            bytes,
            LABEL_HEADER as int,
            LABEL_HEADER + batch_count(bytes, batch_size) * batch_size,
        )
    }
}

/// The row that stands for `label`: one in its place, zero elsewhere.
pub open spec fn one_hot<T: Scalar>(label: u8) -> Seq<T> {
    Seq::new(CLASSES as nat, |c: int| if c == label { T::one_spec() } else { T::zero_spec() })
}

/// The row that stands for `label`.
fn one_hot_row<T: Scalar>(label: u8) -> (r: Vec<T>)
    requires
        label < CLASSES,
    ensures
        r@ == one_hot::<T>(label),
{
    let mut r: Vec<T> = Vec::with_capacity(CLASSES);
    let mut c: usize = 0;
    while c < CLASSES
        invariant
            c <= CLASSES,
            r@.len() == c,
            forall|k: int| 0 <= k < c ==> r@[k] == one_hot::<T>(label)[k],
        decreases CLASSES - c,
    {
        if c == label as usize {
            r.push(T::one());
        } else {
            r.push(T::zero());
        }
        c += 1;
    }
    r
}

/// A whole number of batches of `batch_size` items is no more than the
/// items, and the items before row `k` of batch `b` are fewer than that.
proof fn lemma_batches_fit(items: int, batch_size: int, b: int, k: int)
    requires
        items >= 0,
        batch_size > 0,
        0 <= b < items / batch_size,
        0 <= k < batch_size,
    ensures
        0 <= b * batch_size + k < (items / batch_size) * batch_size <= items,
        (b + 1) * batch_size == b * batch_size + batch_size,
{
    let q = items / batch_size;
    vstd::arithmetic::div_mod::lemma_fundamental_div_mod(items, batch_size);
    vstd::arithmetic::div_mod::lemma_mod_bound(items, batch_size);
    assert(b * batch_size + batch_size <= q * batch_size) by (nonlinear_arith)
        requires
            b + 1 <= q,
            batch_size > 0,
    ;
    assert(b * batch_size >= 0) by (nonlinear_arith)
        requires
            b >= 0,
            batch_size > 0,
    ;
    assert((b + 1) * batch_size == b * batch_size + batch_size) by (nonlinear_arith);
}

/// The labels of the file, as batches of one-hot rows of ten cells: row `k`
/// of batch `b` stands for the label at place `b * batch_size + k`. Fails
/// where the header is cut short, where the batch size is zero, and at the
/// first label of a batch that is missing or not below ten.
pub fn get_labels<T: Scalar>(bytes: &[u8], batch_size: usize) -> (r: Result<
    Vec<Matrix<T>>,
    ParseError,
>)
    ensures
        match r {
            Ok(batches) => {
                &&& label_error(bytes@, batch_size).is_none()
                &&& batches@.len() == batch_count(bytes@, batch_size)
                &&& forall|b: int|
                    0 <= b < batches@.len() ==> {
                        let batch = #[trigger] batches@[b];
                        &&& batch.wf()
                        &&& batch.rows() == batch_size
                        &&& batch.cols() == CLASSES
                        &&& forall|k: int|
                            0 <= k < batch_size ==> #[trigger] batch@[k] == one_hot::<T>(
                                bytes@[LABEL_HEADER + b * batch_size + k],
                            )
                    }
            },
            Err(e) => label_error(bytes@, batch_size) == Some(e),
        },
{
    let items: usize = match read_u32(bytes, 4) {
        Some(n) => n as usize,
        None => {
            return Err(ParseError::UnexpectedEnd);
        },
    };
    if batch_size == 0 {
        return Err(ParseError::EmptyBatch);
    }
    let count: usize = items / batch_size;
    let ghost end: int = LABEL_HEADER + count * batch_size;
    let mut result: Vec<Matrix<T>> = Vec::new();
    let mut position: usize = LABEL_HEADER;
    let mut b: usize = 0;
    while b < count
        invariant
            batch_size > 0,
            items == word_at(bytes@, 4),
            count == items / batch_size,
            end == LABEL_HEADER + count * batch_size,
            bytes@.len() >= LABEL_HEADER,
            b <= count,
            position == LABEL_HEADER + b * batch_size,
            position <= bytes@.len(),
            first_label_error(bytes@, LABEL_HEADER as int, end) == first_label_error(
                bytes@,
                position as int,
                end,
            ),
            result@.len() == b,
            forall|p: int|
                0 <= p < b ==> {
                    let batch = #[trigger] result@[p];
                    &&& batch.wf()
                    &&& batch.rows() == batch_size
                    &&& batch.cols() == CLASSES
                    &&& forall|k: int|
                        0 <= k < batch_size ==> #[trigger] batch@[k] == one_hot::<T>(
                            bytes@[LABEL_HEADER + p * batch_size + k],
                        )
                },
        decreases count - b,
    {
        let mut values: Vec<Vec<T>> = Vec::new();
        let mut k: usize = 0;
        while k < batch_size
            invariant
                batch_size > 0,
                items == word_at(bytes@, 4),
                count == items / batch_size,
                end == LABEL_HEADER + count * batch_size,
                b < count,
                k <= batch_size,
                position == LABEL_HEADER + b * batch_size + k,
                position <= bytes@.len(),
                first_label_error(bytes@, LABEL_HEADER as int, end) == first_label_error(
                    bytes@,
                    position as int,
                    end,
                ),
                values@.len() == k,
                forall|q: int|
                    0 <= q < k ==> (#[trigger] values@[q])@ == one_hot::<T>(
                        bytes@[LABEL_HEADER + b * batch_size + q],
                    ),
            decreases batch_size - k,
        {
            proof {
                lemma_batches_fit(items as int, batch_size as int, b as int, k as int);
            }
            if position >= bytes.len() {
                return Err(ParseError::UnexpectedEnd);
            }
            let label: u8 = bytes[position];
            if label as usize >= CLASSES {
                return Err(ParseError::LabelOutOfRange { position, label });
            }
            values.push(one_hot_row(label));
            position += 1;
            k += 1;
        }
        proof {
            lemma_batches_fit(items as int, batch_size as int, b as int, 0);
        }
        assert(rows_form_grid(values));
        let ghost stored = values@;
        let batch = Matrix::from_values(values).unwrap();
        assert forall|q: int| 0 <= q < batch_size implies #[trigger] batch@[q] == one_hot::<T>(
            bytes@[LABEL_HEADER + b * batch_size + q],
        ) by {
            assert(batch@[q] == stored[q]@);
        }
        result.push(batch);
        b += 1;
    }
    Ok(result)
}

/// The number of pixels of an image: its height times its width.
pub open spec fn image_size(bytes: Seq<u8>) -> int {
    word_at(bytes, 8) * word_at(bytes, 12)
}

/// What is wrong with an image file, if anything.
pub open spec fn image_error(bytes: Seq<u8>, batch_size: usize) -> Option<ParseError> {
    if bytes.len() < IMAGE_HEADER {
        Some(ParseError::UnexpectedEnd)
    } else if batch_size == 0 {
        Some(ParseError::EmptyBatch)
    } else if batch_count(bytes, batch_size) == 0 {
        None
    } else if image_size(bytes) == 0 {
        Some(ParseError::EmptyImage)
    } else if IMAGE_HEADER + batch_count(bytes, batch_size) * batch_size * image_size(bytes)
        > bytes.len() {
        Some(ParseError::UnexpectedEnd)
    } else {
        None
    }
}

/// Pixel `j` of image `r` lies before the end of `total` images of `size`
/// pixels each.
proof fn lemma_pixel_fits(total: int, size: int, r: int, j: int)
    requires
        0 <= r < total,
        0 <= j < size,
    ensures
        0 <= r * size + j < total * size,
        (r + 1) * size == r * size + size,
{
    assert(r * size + size <= total * size) by (nonlinear_arith)
        requires
            r + 1 <= total,
            size > 0,
    ;
    assert(r * size >= 0) by (nonlinear_arith)
        requires
            r >= 0,
            size > 0,
    ;
    assert((r + 1) * size == r * size + size) by (nonlinear_arith);
}

/// The images of the file, as batches of rows of raw intensities: cell `j`
/// of row `k` of batch `b` is pixel `j` of the image at place
/// `b * batch_size + k`. Fails where the header is cut short, where the
/// batch size is zero, where there is a batch to fill and an image has no
/// pixels, and where the data ends before the last pixel of the last batch.
pub fn get_input_vec(bytes: &[u8], batch_size: usize) -> (r: Result<Vec<Matrix<u8>>, ParseError>)
    ensures
        match r {
            Ok(batches) => {
                &&& image_error(bytes@, batch_size).is_none()
                &&& batches@.len() == batch_count(bytes@, batch_size)
                &&& forall|b: int|
                    0 <= b < batches@.len() ==> {
                        let batch = #[trigger] batches@[b];
                        &&& batch.wf()
                        &&& batch.rows() == batch_size
                        &&& batch.cols() == image_size(bytes@)
                        &&& forall|k: int, j: int|
                            0 <= k < batch_size && 0 <= j < image_size(bytes@)
                                ==> #[trigger] batch@[k][j] == bytes@[IMAGE_HEADER + (b * batch_size
                                + k) * image_size(bytes@) + j]
                    }
            },
            Err(e) => image_error(bytes@, batch_size) == Some(e),
        },
{
    if bytes.len() < IMAGE_HEADER {
        return Err(ParseError::UnexpectedEnd);
    }
    let items: usize = read_u32(bytes, 4).unwrap() as usize;
    let height: u64 = read_u32(bytes, 8).unwrap() as u64;
    let width: u64 = read_u32(bytes, 12).unwrap() as u64;
    if batch_size == 0 {
        return Err(ParseError::EmptyBatch);
    }
    let count: usize = items / batch_size;
    if count == 0 {
        return Ok(Vec::new());
    }
    assert(height * width <= 0xffff_ffff * 0xffff_ffff) by (nonlinear_arith)
        requires
            height <= 0xffff_ffff,
            width <= 0xffff_ffff,
    ;
    let wide_size: u64 = height * width;
    if wide_size == 0 {
        return Err(ParseError::EmptyImage);
    }
    proof {
        lemma_batches_fit(items as int, batch_size as int, 0, 0);
    }
    let total: usize = count * batch_size;
    assert(total * wide_size <= 0xffff_ffff * 0xffff_ffff_ffff_ffff) by (nonlinear_arith)
        requires
            total <= 0xffff_ffff,
            wide_size <= 0xffff_ffff_ffff_ffff,
    ;
    let needed: u128 = (total as u128) * (wide_size as u128) + 16;
    if needed > bytes.len() as u128 {
        return Err(ParseError::UnexpectedEnd);
    }
    assert(wide_size <= total * wide_size) by (nonlinear_arith)
        requires
            total >= 1,
            wide_size >= 0,
    ;
    let size: usize = wide_size as usize;
    let mut result: Vec<Matrix<u8>> = Vec::new();
    let mut position: usize = IMAGE_HEADER;
    let mut b: usize = 0;
    while b < count
        invariant
            batch_size > 0,
            size > 0,
            size == image_size(bytes@),
            items == word_at(bytes@, 4),
            count == items / batch_size,
            total == count * batch_size,
            IMAGE_HEADER + total * size <= bytes@.len(),
            b <= count,
            position == IMAGE_HEADER + (b * batch_size) * size,
            result@.len() == b,
            forall|p: int|
                0 <= p < b ==> {
                    let batch = #[trigger] result@[p];
                    &&& batch.wf()
                    &&& batch.rows() == batch_size
                    &&& batch.cols() == size
                    &&& forall|k: int, j: int|
                        0 <= k < batch_size && 0 <= j < size ==> #[trigger] batch@[k][j]
                            == bytes@[IMAGE_HEADER + (p * batch_size + k) * size + j]
                },
        decreases count - b,
    {
        let mut values: Vec<Vec<u8>> = Vec::new();
        let mut k: usize = 0;
        while k < batch_size
            invariant
                batch_size > 0,
                size > 0,
                items == word_at(bytes@, 4),
                count == items / batch_size,
                total == count * batch_size,
                IMAGE_HEADER + total * size <= bytes@.len(),
                b < count,
                k <= batch_size,
                position == IMAGE_HEADER + (b * batch_size + k) * size,
                values@.len() == k,
                forall|q: int| 0 <= q < k ==> (#[trigger] values@[q])@.len() == size,
                forall|q: int, j: int|
                    0 <= q < k && 0 <= j < size ==> #[trigger] values@[q]@[j]
                        == bytes@[IMAGE_HEADER + (b * batch_size + q) * size + j],
            decreases batch_size - k,
        {
            let mut pixels: Vec<u8> = Vec::new();
            let mut j: usize = 0;
            while j < size
                invariant
                    batch_size > 0,
                    size > 0,
                    items == word_at(bytes@, 4),
                    count == items / batch_size,
                    total == count * batch_size,
                    IMAGE_HEADER + total * size <= bytes@.len(),
                    b < count,
                    k < batch_size,
                    j <= size,
                    position == IMAGE_HEADER + (b * batch_size + k) * size + j,
                    pixels@.len() == j,
                    forall|c: int|
                        0 <= c < j ==> pixels@[c] == bytes@[IMAGE_HEADER + (b * batch_size + k)
                            * size + c],
                decreases size - j,
            {
                proof {
                    lemma_batches_fit(items as int, batch_size as int, b as int, k as int);
                    lemma_pixel_fits(total as int, size as int, b * batch_size + k, j as int);
                }
                pixels.push(bytes[position]);
                position += 1;
                j += 1;
            }
            proof {
                lemma_batches_fit(items as int, batch_size as int, b as int, k as int);
                lemma_pixel_fits(total as int, size as int, b * batch_size + k, 0);
            }
            values.push(pixels);
            k += 1;
        }
        proof {
            lemma_batches_fit(items as int, batch_size as int, b as int, 0);
        }
        assert(rows_form_grid(values));
        let ghost stored = values@;
        let batch = Matrix::from_values(values).unwrap();
        assert forall|q: int, j: int|
            0 <= q < batch_size && 0 <= j < size implies #[trigger] batch@[q][j]
            == bytes@[IMAGE_HEADER + (b * batch_size + q) * size + j] by {
            assert(batch@[q] == stored[q]@);
        }
        result.push(batch);
        b += 1;
    }
    Ok(result)
}

} // verus!
