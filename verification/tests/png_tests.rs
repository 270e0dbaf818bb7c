use ddnet_client::png_image::{
    expand_to_rgba, load_png_image, png_result_from_decoded, save_png_image, DecodedPng, PngError,
    COLOR_GRAYSCALE, COLOR_GRAYSCALE_ALPHA, COLOR_RGB, COLOR_RGBA,
};

fn encode_with(color: png::ColorType, width: u32, height: u32, data: &[u8]) -> Vec<u8> {
    let mut out = Vec::new();
    {
        let mut enc = png::Encoder::new(&mut out, width, height);
        enc.set_color(color);
        enc.set_depth(png::BitDepth::Eight);
        let mut w = enc.write_header().unwrap();
        w.write_image_data(data).unwrap();
    }
    out
}

#[test]
fn rgba_image_round_trips() {
    let raw = vec![1, 2, 3, 4, 5, 6, 7, 8];
    let file = save_png_image(&raw, 2, 1).ok().unwrap();
    let img = load_png_image(&file).ok().unwrap();
    assert_eq!(img.width, 2);
    assert_eq!(img.height, 1);
    assert_eq!(img.data, raw);
}

#[test]
fn save_refuses_wrong_sizes() {
    let raw = vec![1, 2, 3, 4];
    assert!(matches!(save_png_image(&raw, 0, 1), Err(PngError::Encoding(_))));
    assert!(matches!(save_png_image(&raw, 2, 1), Err(PngError::Encoding(_))));
    assert!(save_png_image(&raw, 1, 1).is_ok());
}

#[test]
fn garbage_is_not_an_image() {
    assert!(matches!(load_png_image(&vec![1, 2, 3]), Err(PngError::Decoding(_))));
}

#[test]
fn gray_image_becomes_opaque_rgba() {
    let file = encode_with(png::ColorType::Grayscale, 2, 1, &[10, 200]);
    let img = load_png_image(&file).ok().unwrap();
    assert_eq!(img.data, vec![10, 10, 10, 255, 200, 200, 200, 255]);
}

#[test]
fn rgb_image_gets_opaque_alpha() {
    let file = encode_with(png::ColorType::Rgb, 1, 2, &[1, 2, 3, 4, 5, 6]);
    let img = load_png_image(&file).ok().unwrap();
    assert_eq!((img.width, img.height), (1, 2));
    assert_eq!(img.data, vec![1, 2, 3, 255, 4, 5, 6, 255]);
}

#[test]
fn gray_alpha_keeps_a_zero_tail() {
    let data = expand_to_rgba(COLOR_GRAYSCALE_ALPHA, &vec![7, 100, 9, 50]);
    assert_eq!(data, vec![7, 7, 7, 100, 9, 9, 9, 50, 0, 0, 0, 0, 0, 0, 0, 0]);
}

#[test]
fn expansion_of_each_color_type() {
    assert_eq!(expand_to_rgba(COLOR_RGBA, &vec![1, 2, 3, 4]), vec![1, 2, 3, 4]);
    assert_eq!(expand_to_rgba(COLOR_RGB, &vec![1, 2, 3]), vec![1, 2, 3, 255]);
    assert_eq!(expand_to_rgba(COLOR_GRAYSCALE, &vec![5]), vec![5, 5, 5, 255]);
}

#[test]
fn decoded_frame_keeps_its_size() {
    let img = png_result_from_decoded(DecodedPng {
        color: COLOR_GRAYSCALE,
        width: 3,
        height: 4,
        data: vec![1; 12],
    })
    .ok()
    .unwrap();
    assert_eq!((img.width, img.height), (3, 4));
    assert_eq!(img.data.len(), 48);
}
