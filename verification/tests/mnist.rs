use densenet::matrix::Matrix;
use densenet::mnist_parser::{get_input_vec, get_labels, read_u32, ParseError};

fn label_file(announced: u32, labels: &[u8]) -> Vec<u8> {
    let mut bytes = vec![0, 0, 8, 1];
    bytes.extend_from_slice(&announced.to_be_bytes());
    bytes.extend_from_slice(labels);
    bytes
}

fn image_file(announced: u32, height: u32, width: u32, pixels: &[u8]) -> Vec<u8> {
    let mut bytes = vec![0, 0, 8, 3];
    bytes.extend_from_slice(&announced.to_be_bytes());
    bytes.extend_from_slice(&height.to_be_bytes());
    bytes.extend_from_slice(&width.to_be_bytes());
    bytes.extend_from_slice(pixels);
    bytes
}

#[test]
fn words_are_big_endian() {
    let bytes = [0x12, 0x34, 0x56, 0x78, 0x9a];
    assert_eq!(read_u32(&bytes, 0), Some(0x1234_5678));
    assert_eq!(read_u32(&bytes, 1), Some(0x3456_789a));
    assert_eq!(read_u32(&bytes, 2), None);
    assert_eq!(read_u32(&bytes, usize::MAX), None);
    assert_eq!(read_u32(&[0xff, 0xff, 0xff, 0xff], 0), Some(u32::MAX));
    assert_eq!(read_u32(&[1, 2, 3], 0), None);
}

#[test]
fn labels_become_one_hot_rows() {
    let bytes = label_file(5, &[3, 0, 9, 1, 7]);
    let batches: Vec<Matrix<i64>> = get_labels(&bytes, 2).unwrap();
    assert_eq!(batches.len(), 2);
    assert_eq!((batches[0].rows(), batches[0].cols()), (2, 10));
    assert_eq!(
        batches[0].values(),
        &vec![vec![0, 0, 0, 1, 0, 0, 0, 0, 0, 0], vec![1, 0, 0, 0, 0, 0, 0, 0, 0, 0]]
    );
    assert_eq!(
        batches[1].values(),
        &vec![vec![0, 0, 0, 0, 0, 0, 0, 0, 0, 1], vec![0, 1, 0, 0, 0, 0, 0, 0, 0, 0]]
    );
}

#[test]
fn labels_that_fill_no_batch_give_none() {
    let bytes = label_file(3, &[1, 2, 3]);
    let batches: Vec<Matrix<i64>> = get_labels(&bytes, 4).unwrap();
    assert!(batches.is_empty());
    let none: Vec<Matrix<i64>> = get_labels(&label_file(0, &[]), 1).unwrap();
    assert!(none.is_empty());
}

#[test]
fn label_errors_are_told_apart() {
    assert_eq!(get_labels::<i64>(&[0, 0, 8, 1, 0, 0, 0], 1).err(), Some(ParseError::UnexpectedEnd));
    assert_eq!(get_labels::<i64>(&[], 1).err(), Some(ParseError::UnexpectedEnd));
    assert_eq!(get_labels::<i64>(&label_file(2, &[1, 2]), 0).err(), Some(ParseError::EmptyBatch));
    assert_eq!(get_labels::<i64>(&label_file(4, &[1, 2, 3]), 2).err(), Some(ParseError::UnexpectedEnd));
    assert_eq!(
        get_labels::<i64>(&label_file(4, &[1, 10, 3, 4]), 2).err(),
        Some(ParseError::LabelOutOfRange { position: 9, label: 10 })
    );
    assert_eq!(
        get_labels::<i64>(&label_file(4, &[1, 2, 200]), 2).err(),
        Some(ParseError::LabelOutOfRange { position: 10, label: 200 })
    );
    let dropped: Vec<Matrix<i64>> = get_labels(&label_file(3, &[1, 2, 77]), 2).unwrap();
    assert_eq!(dropped.len(), 1);
}

#[test]
fn images_become_rows_of_intensities() {
    let pixels: Vec<u8> = (1..=30).collect();
    let bytes = image_file(5, 2, 3, &pixels);
    let batches = get_input_vec(&bytes, 2).unwrap();
    assert_eq!(batches.len(), 2);
    assert_eq!((batches[0].rows(), batches[0].cols()), (2, 6));
    assert_eq!(batches[0].values(), &vec![vec![1, 2, 3, 4, 5, 6], vec![7, 8, 9, 10, 11, 12]]);
    assert_eq!(batches[1].values(), &vec![vec![13, 14, 15, 16, 17, 18], vec![19, 20, 21, 22, 23, 24]]);
}

#[test]
fn image_errors_are_told_apart() {
    assert_eq!(get_input_vec(&[0; 15], 1).err(), Some(ParseError::UnexpectedEnd));
    assert_eq!(get_input_vec(&image_file(1, 1, 1, &[5]), 0).err(), Some(ParseError::EmptyBatch));
    assert_eq!(get_input_vec(&image_file(2, 0, 3, &[]), 2).err(), Some(ParseError::EmptyImage));
    assert_eq!(get_input_vec(&image_file(2, 3, 0, &[]), 1).err(), Some(ParseError::EmptyImage));
    assert_eq!(get_input_vec(&image_file(2, 2, 2, &[1, 2, 3, 4, 5, 6, 7]), 2).err(), Some(ParseError::UnexpectedEnd));
    assert_eq!(
        get_input_vec(&image_file(u32::MAX, u32::MAX, u32::MAX, &[1, 2, 3]), 1).err(),
        Some(ParseError::UnexpectedEnd)
    );
    assert!(get_input_vec(&image_file(1, 0, 0, &[]), 2).unwrap().is_empty());
    let one = get_input_vec(&image_file(3, 2, 2, &[1, 2, 3, 4, 5, 6, 7, 8]), 2).unwrap();
    assert_eq!(one.len(), 1);
    assert_eq!(one[0].values(), &vec![vec![1, 2, 3, 4], vec![5, 6, 7, 8]]);
}
