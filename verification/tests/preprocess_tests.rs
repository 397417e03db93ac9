use image::{ImageBuffer, ImageFormat, Rgb};
use inferbench::errors::{get_error_code, ErrorType};
use inferbench::preprocess::{
    chw_tensor, tensor_to_le_bytes, transform, MODEL_IMAGE_HEIGHT, MODEL_IMAGE_WIDTH,
    NORMALIZATION_TABLE_LEN,
};

/// The fixed per-channel normalization of the pipeline, tabulated: entry
/// `c * 256 + v` holds the bits of `(v/255 - mean[c]) / std[c]`.
fn normalization_table() -> Vec<u32> {
    let mean = [0.485f32, 0.456, 0.406];
    let std = [0.229f32, 0.224, 0.225];
    let mut table = Vec::with_capacity(NORMALIZATION_TABLE_LEN);
    for c in 0..3 {
        for v in 0..256 {
            let normalized = ((v as f32) / 255.0 - mean[c]) / std[c];
            table.push(normalized.to_bits());
        }
    }
    table
}

/// An identity-like table that makes tensor entries show which table
/// cell they came from.
fn index_table() -> Vec<u32> {
    (0..NORMALIZATION_TABLE_LEN as u32).collect()
}

fn solid_png(width: u32, height: u32, rgb: [u8; 3]) -> Vec<u8> {
    let img: image::RgbImage = ImageBuffer::from_pixel(width, height, Rgb(rgb));
    let mut bytes: Vec<u8> = Vec::new();
    img.write_to(&mut std::io::Cursor::new(&mut bytes), ImageFormat::Png)
        .unwrap();
    bytes
}

#[test]
fn chw_tensor_is_channel_major() {
    // One row of two pixels: (r0 g0 b0) (r1 g1 b1).
    let pixels: Vec<u8> = vec![10, 20, 30, 40, 50, 60];
    let tensor = chw_tensor(&pixels, 2, 1, &index_table());
    assert_eq!(
        tensor,
        vec![10, 40, 256 + 20, 256 + 50, 512 + 30, 512 + 60]
    );
}

#[test]
fn chw_tensor_orders_rows_before_columns() {
    // Two rows of one pixel each.
    let pixels: Vec<u8> = vec![1, 2, 3, 4, 5, 6];
    let tensor = chw_tensor(&pixels, 1, 2, &index_table());
    assert_eq!(tensor, vec![1, 4, 256 + 2, 256 + 5, 512 + 3, 512 + 6]);
}

#[test]
fn tensor_serializes_little_endian() {
    let tensor: Vec<u32> = vec![0x0403_0201, 0xdead_beef];
    let bytes = tensor_to_le_bytes(&tensor);
    assert_eq!(bytes, vec![0x01, 0x02, 0x03, 0x04, 0xef, 0xbe, 0xad, 0xde]);
}

#[test]
fn transform_normalizes_a_white_image() {
    // For a solid white image every raw value is 255, so channel 0 of the
    // tensor holds (1.0 - 0.485) / 0.229, channel 1 (1.0 - 0.456) / 0.224,
    // channel 2 (1.0 - 0.406) / 0.225.
    let bytes = solid_png(MODEL_IMAGE_WIDTH, MODEL_IMAGE_HEIGHT, [255, 255, 255]);
    let table = normalization_table();
    let tensor = transform(&bytes, MODEL_IMAGE_WIDTH, MODEL_IMAGE_HEIGHT, &table).unwrap();
    let plane = (MODEL_IMAGE_WIDTH * MODEL_IMAGE_HEIGHT) as usize;
    assert_eq!(tensor.len(), 3 * plane);
    assert_eq!(
        f32::from_bits(tensor[0]),
        (1.0f32 - 0.485) / 0.229,
        "channel 0 of a white pixel"
    );
    assert_eq!(f32::from_bits(tensor[plane]), (1.0f32 - 0.456) / 0.224);
    assert_eq!(f32::from_bits(tensor[2 * plane]), (1.0f32 - 0.406) / 0.225);
    // The tensor is constant per channel plane.
    assert!(tensor[..plane].iter().all(|&b| b == tensor[0]));
    assert!(tensor[plane..2 * plane].iter().all(|&b| b == tensor[plane]));
}

#[test]
fn transform_separates_channels() {
    let bytes = solid_png(MODEL_IMAGE_WIDTH, MODEL_IMAGE_HEIGHT, [10, 200, 30]);
    let table = normalization_table();
    let tensor = transform(&bytes, MODEL_IMAGE_WIDTH, MODEL_IMAGE_HEIGHT, &table).unwrap();
    let plane = (MODEL_IMAGE_WIDTH * MODEL_IMAGE_HEIGHT) as usize;
    assert_eq!(tensor[0], table[10]);
    assert_eq!(tensor[plane], table[256 + 200]);
    assert_eq!(tensor[2 * plane], table[512 + 30]);
}

#[test]
fn transform_is_deterministic_for_equal_bytes() {
    let bytes = solid_png(32, 16, [1, 2, 3]);
    let table = normalization_table();
    let first = transform(&bytes, MODEL_IMAGE_WIDTH, MODEL_IMAGE_HEIGHT, &table).unwrap();
    let second = transform(&bytes, MODEL_IMAGE_WIDTH, MODEL_IMAGE_HEIGHT, &table).unwrap();
    assert_eq!(first, second);
    // Byte-identical after serialization too.
    assert_eq!(tensor_to_le_bytes(&first), tensor_to_le_bytes(&second));
}

#[test]
fn transform_resizes_to_the_target_dimensions() {
    // A non-square source must still come out at the model's dimensions.
    let bytes = solid_png(7, 50, [128, 128, 128]);
    let table = normalization_table();
    let tensor = transform(&bytes, MODEL_IMAGE_WIDTH, MODEL_IMAGE_HEIGHT, &table).unwrap();
    assert_eq!(
        tensor.len(),
        3 * (MODEL_IMAGE_WIDTH * MODEL_IMAGE_HEIGHT) as usize
    );
}

#[test]
fn undecodable_bytes_are_an_image_load_error() {
    let table = normalization_table();
    let garbage: Vec<u8> = vec![1, 2, 3, 4, 5];
    let result = transform(&garbage, MODEL_IMAGE_WIDTH, MODEL_IMAGE_HEIGHT, &table);
    assert_eq!(result, Err(ErrorType::ImageLoad));
    assert_eq!(get_error_code(result.unwrap_err()), -5);
}
