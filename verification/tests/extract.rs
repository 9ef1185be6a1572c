//! End-to-end checks of the extraction library: label parsing, container
//! parsing, bitmap encoding (validated against a standard decoder), and
//! output planning.

use imgunpack::PIXEL_BYTES;
use imgunpack::RECORD_BYTES;
use imgunpack::PipelineError;
use imgunpack::bmp::encode_bmp;
use imgunpack::container::parse_container;
use imgunpack::labels::parse_labels;
use imgunpack::output::plan_record;
use imgunpack::output::plan_record_fresh;
use imgunpack::pipeline::process_container;
use imgunpack::pipeline::setup_dirs;

fn patterned_pixels() -> Vec<u8> {
    let mut p = Vec::with_capacity(PIXEL_BYTES);
    for i in 0..PIXEL_BYTES {
        p.push((i * 7 % 251) as u8);
    }
    p
}

fn one_record_container(label: u8, fill: u8) -> Vec<u8> {
    let mut data = vec![label];
    data.extend(std::iter::repeat(fill).take(PIXEL_BYTES));
    data
}

#[test]
fn labels_from_terminated_list() {
    let labels = parse_labels(&b"cat\ndog\n".to_vec());
    assert_eq!(labels, vec![b"cat".to_vec(), b"dog".to_vec()]);
}

#[test]
fn labels_without_trailing_terminator() {
    let labels = parse_labels(&b"cat\ndog".to_vec());
    assert_eq!(labels, vec![b"cat".to_vec(), b"dog".to_vec()]);
}

#[test]
fn labels_strip_carriage_returns() {
    let labels = parse_labels(&b"ca\rt\r\ndog\r\n".to_vec());
    assert_eq!(labels, vec![b"cat".to_vec(), b"dog".to_vec()]);
}

#[test]
fn labels_keep_inner_blank_lines() {
    let labels = parse_labels(&b"a\n\nb\n".to_vec());
    assert_eq!(labels, vec![b"a".to_vec(), b"".to_vec(), b"b".to_vec()]);
}

#[test]
fn labels_empty_text() {
    let labels = parse_labels(&Vec::new());
    assert!(labels.is_empty());
}

#[test]
fn empty_container_yields_no_records() {
    let (recs, trailing) = parse_container(&Vec::new());
    assert_eq!(recs.len(), 0);
    assert_eq!(trailing, None);
}

#[test]
fn single_record_container_yields_one_record() {
    let data = one_record_container(1, 0x2a);
    assert_eq!(data.len(), RECORD_BYTES);
    let (recs, trailing) = parse_container(&data);
    assert_eq!(trailing, None);
    assert_eq!(recs.len(), 1);
    assert_eq!(recs[0].label, 1);
    assert_eq!(recs[0].pixels.len(), PIXEL_BYTES);
    assert!(recs[0].pixels.iter().all(|&b| b == 0x2a));
}

#[test]
fn two_record_container_keeps_order() {
    let mut data = one_record_container(0, 1);
    data.extend(one_record_container(3, 2));
    let (recs, trailing) = parse_container(&data);
    assert_eq!(trailing, None);
    assert_eq!(recs.len(), 2);
    assert_eq!(recs[0].label, 0);
    assert_eq!(recs[1].label, 3);
    assert!(recs[0].pixels.iter().all(|&b| b == 1));
    assert!(recs[1].pixels.iter().all(|&b| b == 2));
}

#[test]
fn truncated_record_is_corruption() {
    let data = vec![1u8, 0, 0, 0];
    let (recs, trailing) = parse_container(&data);
    assert!(recs.is_empty());
    assert_eq!(trailing, Some(PipelineError::TruncatedRecord));
}

#[test]
fn truncation_keeps_the_complete_leading_record() {
    let mut data = one_record_container(0, 7);
    data.push(1);
    data.extend(std::iter::repeat(0u8).take(100));
    let (recs, trailing) = parse_container(&data);
    assert_eq!(trailing, Some(PipelineError::TruncatedRecord));
    assert_eq!(recs.len(), 1);
    assert_eq!(recs[0].label, 0);
    assert!(recs[0].pixels.iter().all(|&b| b == 7));
}

#[test]
fn encode_rejects_wrong_buffer_length() {
    assert_eq!(encode_bmp(&vec![0u8; 5]), Err(PipelineError::WrongPixelCount));
    assert_eq!(
        encode_bmp(&vec![0u8; PIXEL_BYTES + 1]),
        Err(PipelineError::WrongPixelCount)
    );
}

#[test]
fn encode_writes_bitmap_header() {
    let bytes = encode_bmp(&vec![0u8; PIXEL_BYTES]).unwrap();
    assert_eq!(bytes.len(), 54 + PIXEL_BYTES);
    assert_eq!(&bytes[0..2], b"BM");
    // little-endian file size, pixel-data offset, info-header size
    assert_eq!(&bytes[2..6], &[0x36, 0x00, 0x03, 0x00]);
    assert_eq!(&bytes[10..14], &[0x36, 0x00, 0x00, 0x00]);
    assert_eq!(&bytes[14..18], &[0x28, 0x00, 0x00, 0x00]);
    // little-endian width and height of 256, 1 plane, 24 bits per pixel
    assert_eq!(&bytes[18..22], &[0x00, 0x01, 0x00, 0x00]);
    assert_eq!(&bytes[22..26], &[0x00, 0x01, 0x00, 0x00]);
    assert_eq!(&bytes[26..28], &[0x01, 0x00]);
    assert_eq!(&bytes[28..30], &[0x18, 0x00]);
}

#[test]
fn encode_mirrors_rows_and_swaps_channels() {
    let mut pixels = vec![0u8; PIXEL_BYTES];
    // top-left pixel of the image: RGB (1, 2, 3)
    pixels[0] = 1;
    pixels[1] = 2;
    pixels[2] = 3;
    // bottom-right pixel of the image: RGB (9, 8, 7)
    let last = 255 * 768 + 255 * 3;
    pixels[last] = 9;
    pixels[last + 1] = 8;
    pixels[last + 2] = 7;
    let bytes = encode_bmp(&pixels).unwrap();
    // the image's top row is the last stored row, with BGR channels
    let top_left = 54 + 255 * 768;
    assert_eq!(&bytes[top_left..top_left + 3], &[3, 2, 1]);
    // the image's bottom row is the first stored row
    let bottom_right = 54 + 255 * 3;
    assert_eq!(&bytes[bottom_right..bottom_right + 3], &[7, 8, 9]);
}

#[test]
fn encoded_bitmap_round_trips_through_standard_decoder() {
    let pixels = patterned_pixels();
    let bytes = encode_bmp(&pixels).unwrap();
    let decoded = image::load_from_memory(&bytes).unwrap().to_rgb8();
    assert_eq!(decoded.dimensions(), (256, 256));
    assert_eq!(decoded.into_raw(), pixels);
}

#[test]
fn plan_uses_the_label_directory() {
    let labels = parse_labels(&b"cat\ndog\n".to_vec());
    let (recs, _) = parse_container(&one_record_container(1, 0));
    let name = b"some-name".to_vec();
    let plan = plan_record(&labels, &recs[0], &name).unwrap();
    assert_eq!(plan.path, b"./destination/dog/some-name.bmp".to_vec());
    assert_eq!(plan.bytes, encode_bmp(&recs[0].pixels).unwrap());
}

#[test]
fn plan_rejects_label_beyond_table() {
    let labels = parse_labels(&b"cat\ndog\n".to_vec());
    let (recs, _) = parse_container(&one_record_container(9, 0));
    let name = b"n".to_vec();
    assert_eq!(
        plan_record(&labels, &recs[0], &name),
        Err(PipelineError::LabelOutOfRange(9))
    );
}

#[test]
fn plan_rejects_short_pixel_buffer() {
    let labels = parse_labels(&b"cat\ndog\n".to_vec());
    let rec = imgunpack::container::Record { label: 0, pixels: vec![0u8; 5] };
    let name = b"n".to_vec();
    assert_eq!(
        plan_record(&labels, &rec, &name),
        Err(PipelineError::WrongPixelCount)
    );
}

#[test]
fn fresh_plan_generates_a_name() {
    let labels = parse_labels(&b"cat\ndog\n".to_vec());
    let (recs, _) = parse_container(&one_record_container(1, 0));
    let plan = plan_record_fresh(&labels, &recs[0]).unwrap();
    let prefix = b"./destination/dog/";
    let suffix = b".bmp";
    assert_eq!(plan.path.len(), prefix.len() + 36 + suffix.len());
    assert_eq!(&plan.path[..prefix.len()], prefix);
    assert_eq!(&plan.path[plan.path.len() - suffix.len()..], suffix);
    let name = &plan.path[prefix.len()..prefix.len() + 36];
    for (i, &b) in name.iter().enumerate() {
        if i == 8 || i == 13 || i == 18 || i == 23 {
            assert_eq!(b, b'-');
        } else {
            assert!(b.is_ascii_digit() || (b'a'..=b'f').contains(&b));
        }
    }
}

#[test]
fn fresh_plans_get_distinct_names() {
    let labels = parse_labels(&b"cat\ndog\n".to_vec());
    let (recs, _) = parse_container(&one_record_container(0, 0));
    let first = plan_record_fresh(&labels, &recs[0]).unwrap();
    let second = plan_record_fresh(&labels, &recs[0]).unwrap();
    assert_ne!(first.path, second.path);
}

#[test]
fn setup_lists_one_directory_per_label() {
    let labels = parse_labels(&b"cat\ndog\n".to_vec());
    let dirs = setup_dirs(&labels);
    assert_eq!(
        dirs,
        vec![b"./destination/cat".to_vec(), b"./destination/dog".to_vec()]
    );
}

#[test]
fn single_black_record_plans_one_black_image() {
    let labels = parse_labels(&b"cat\ndog\n".to_vec());
    let data = one_record_container(1, 0);
    let outcome = process_container(&labels, &data);
    assert_eq!(outcome.corruption, None);
    assert_eq!(outcome.results.len(), 1);
    let plan = outcome.results[0].as_ref().unwrap();
    assert_eq!(&plan.path[..b"./destination/dog/".len()], b"./destination/dog/");
    let decoded = image::load_from_memory(&plan.bytes).unwrap().to_rgb8();
    assert_eq!(decoded.dimensions(), (256, 256));
    assert!(decoded.into_raw().iter().all(|&b| b == 0));
}

#[test]
fn processing_empty_container_plans_nothing() {
    let labels = parse_labels(&b"cat\ndog\n".to_vec());
    let outcome = process_container(&labels, &Vec::new());
    assert!(outcome.results.is_empty());
    assert_eq!(outcome.corruption, None);
}

#[test]
fn processing_truncated_container_reports_corruption() {
    let labels = parse_labels(&b"cat\ndog\n".to_vec());
    let mut data = one_record_container(1, 0);
    data.push(0);
    let outcome = process_container(&labels, &data);
    assert_eq!(outcome.corruption, Some(PipelineError::TruncatedRecord));
    assert_eq!(outcome.results.len(), 1);
    assert!(outcome.results[0].is_ok());
}

#[test]
fn truncated_container_still_plans_leading_records() {
    let labels = parse_labels(&b"cat\ndog\n".to_vec());
    let mut data = one_record_container(0, 1);
    data.extend(one_record_container(1, 2));
    data.push(1);
    data.extend(std::iter::repeat(0u8).take(50));
    let outcome = process_container(&labels, &data);
    assert_eq!(outcome.corruption, Some(PipelineError::TruncatedRecord));
    assert_eq!(outcome.results.len(), 2);
    let first = outcome.results[0].as_ref().unwrap();
    let second = outcome.results[1].as_ref().unwrap();
    assert_eq!(&first.path[..b"./destination/cat/".len()], b"./destination/cat/");
    assert_eq!(&second.path[..b"./destination/dog/".len()], b"./destination/dog/");
}

#[test]
fn unknown_label_does_not_lose_sibling_records() {
    let labels = parse_labels(&b"cat\ndog\n".to_vec());
    let mut data = one_record_container(5, 0);
    data.extend(one_record_container(1, 0));
    let outcome = process_container(&labels, &data);
    assert_eq!(outcome.corruption, None);
    assert_eq!(outcome.results.len(), 2);
    assert_eq!(
        outcome.results[0],
        Err(PipelineError::LabelOutOfRange(5))
    );
    let sibling = outcome.results[1].as_ref().unwrap();
    assert_eq!(&sibling.path[..b"./destination/dog/".len()], b"./destination/dog/");
}
