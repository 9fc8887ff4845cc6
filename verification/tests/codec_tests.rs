use image_process::engine::codec::{decode, encode, reencode};
use image_process::engine::image_error::ErrorCode;
use image_process::engine::image_processing::ImageProcess;
use image_process::engine::pixel_grid::{ColorRgba, PixelGrid};

fn sample_grid() -> PixelGrid {
    let mut px: Vec<ColorRgba> = Vec::new();
    for i in 0..6u8 {
        px.push(ColorRgba::new(10 * i, 255 - 20 * i, 7 * i, 255 - i));
    }
    PixelGrid::new(3, 2, px).unwrap()
}

#[test]
fn roundtrip_keeps_every_sample() {
    let g = sample_grid();
    let back = reencode(&g);
    assert_eq!(back.width(), 3);
    assert_eq!(back.height(), 2);
    assert_eq!(back.raw_bytes(), g.raw_bytes());
}

#[test]
fn decode_of_encode_matches_source() {
    let g = sample_grid();
    let bytes = encode(&g);
    let back = decode(&bytes).unwrap();
    assert_eq!(back.width(), g.width());
    assert_eq!(back.height(), g.height());
    assert_eq!(back.raw_bytes(), g.raw_bytes());
}

#[test]
fn decode_rejects_garbage() {
    let r = decode(&vec![1u8, 2, 3, 4, 5]);
    assert!(matches!(r, Err(ErrorCode::UnableToDecode)));
}

#[test]
fn decode_rejects_an_image_with_no_pixels() {
    let mut bytes: Vec<u8> = b"farbfeld".to_vec();
    bytes.extend_from_slice(&[0u8; 8]);
    let r = decode(&bytes);
    assert!(matches!(r, Err(ErrorCode::UnableToDecode)));
}

#[test]
fn estimate_without_padding() {
    assert_eq!(ImageProcess::get_image_weight_byte("QUJD".to_string()).unwrap(), 3);
}

#[test]
fn estimate_with_one_padding_char() {
    assert_eq!(ImageProcess::get_image_weight_byte("QUI=".to_string()).unwrap(), 2);
}

#[test]
fn estimate_with_two_padding_chars() {
    assert_eq!(ImageProcess::get_image_weight_byte("QQ==".to_string()).unwrap(), 1);
}

#[test]
fn estimate_of_empty_text_fails() {
    let r = ImageProcess::get_image_weight_byte(String::new());
    assert!(matches!(r, Err(ErrorCode::ImageEmpty)));
}

#[test]
fn estimate_strips_data_uri_marker() {
    let plain = ImageProcess::get_image_weight_byte("QUJD".to_string()).unwrap();
    let marked =
        ImageProcess::get_image_weight_byte("data:image/png;base64,QUJD".to_string()).unwrap();
    assert_eq!(plain, marked);
}

#[test]
fn estimate_of_marker_alone_fails() {
    let r = ImageProcess::get_image_weight_byte("data:image/png;base64,".to_string());
    assert!(matches!(r, Err(ErrorCode::ImageEmpty)));
}

#[test]
fn parse_strips_marker_and_keeps_plain_text() {
    let s = "data:image/png;base64,QUJD".to_string();
    assert_eq!(ImageProcess::parse_base64_input_if_needed(&s), "QUJD");
    let p = "QUJDRA==".to_string();
    assert_eq!(ImageProcess::parse_base64_input_if_needed(&p), "QUJDRA==");
}

#[test]
fn to_base64_encodes_the_held_bytes() {
    let ip = ImageProcess::new(vec![1u8, 2, 3]).unwrap();
    assert_eq!(ip.to_base64(), "AQID");
    assert_eq!(ip.as_byte(), vec![1u8, 2, 3]);
}

#[test]
fn base64_input_decodes_to_bytes() {
    let ip = ImageProcess::new("AQID".to_string()).unwrap();
    assert_eq!(ip.as_byte(), vec![1u8, 2, 3]);
}

#[test]
fn invalid_base64_input_fails() {
    let r = ImageProcess::new("!!!not base64!!!".to_string());
    assert!(matches!(r, Err(ErrorCode::UnableToDecode)));
}

#[test]
fn dimension_query_reads_the_image() {
    let g = sample_grid();
    let ip = ImageProcess::new(encode(&g)).unwrap();
    let d = ip.get_image_dimension().unwrap();
    assert_eq!(d.width, 3);
    assert_eq!(d.height, 2);
}

#[test]
fn dimension_query_rejects_non_image_bytes() {
    let ip = ImageProcess::new(vec![9u8, 9, 9]).unwrap();
    assert!(matches!(ip.get_image_dimension(), Err(ErrorCode::UnableToDecode)));
}

#[test]
fn result_can_feed_a_new_facade() {
    let g = sample_grid();
    let ip = ImageProcess::new(encode(&g)).unwrap();
    let res = ip.compute_filter_sobel().unwrap();
    let ip2 = ImageProcess::new(res).unwrap();
    let d = ip2.get_image_dimension().unwrap();
    assert_eq!(d.width, 3);
    assert_eq!(d.height, 2);
}

#[test]
fn grid_constructor_rejects_bad_shapes() {
    let c = ColorRgba::new(0, 0, 0, 255);
    assert!(PixelGrid::new(2, 2, vec![c; 3]).is_none());
    assert!(PixelGrid::new(0, 1, Vec::new()).is_none());
    assert!(PixelGrid::new(1, 1, vec![c]).is_some());
    assert!(PixelGrid::filled(0, 5, c).is_none());
}

#[test]
fn error_messages_are_fixed() {
    assert_eq!(ErrorCode::UnableToDecode.message(), "Unable to decode");
    assert_eq!(ErrorCode::InvalidParsing.message(), "Invalid parsing");
    assert_eq!(ErrorCode::UnableToSave.message(), "Unable to save");
    assert_eq!(ErrorCode::NoColorInput.message(), "No color to apply for filter");
    assert_eq!(ErrorCode::NotImplemented.message(), "Not implemented yet");
    assert_eq!(ErrorCode::ImageEmpty.message(), "The image is empty");
}
