use scop::img_loader::{Image, ImageError, Mode};

fn file(header_size: u8, width: u8, height: u8, pixels: &[u8]) -> Vec<u8> {
    let mut data = vec![0u8; 54];
    data[0] = b'B';
    data[1] = b'M';
    data[0x0a] = header_size;
    data[0x12] = width;
    data[0x16] = height;
    data.extend_from_slice(pixels);
    data
}

#[test]
fn powers_of_two() {
    for k in 0..(usize::BITS - 1) {
        assert!(Image::is_pow2(1usize << k));
    }
    for value in [0usize, 3, 5, 6, 7, 9, 10, 12, 24, 100, 1023, 1025, usize::MAX] {
        assert!(!Image::is_pow2(value));
    }
}

#[test]
fn header_of_each_layout() {
    let gray = file(54, 2, 2, &[0; 4]);
    assert_eq!(Image::load_bmp_header(&gray), Ok((2, 2, Mode::Gray)));
    let rgb = file(0, 4, 2, &[0; 24]);
    assert_eq!(Image::load_bmp_header(&rgb), Ok((4, 2, Mode::RGB)));
    let rgba = file(54, 1, 8, &[0; 32]);
    assert_eq!(Image::load_bmp_header(&rgba), Ok((1, 8, Mode::RGBA)));
    let one = file(54, 1, 1, &[0; 1]);
    assert_eq!(Image::load_bmp_header(&one), Ok((1, 1, Mode::Gray)));
}

#[test]
fn header_refusals() {
    assert_eq!(Image::load_bmp_header(&Vec::new()), Err(ImageError::NotBmp));
    assert_eq!(
        Image::load_bmp_header(&vec![b'B'; 53]),
        Err(ImageError::NotBmp)
    );
    let mut data = file(54, 2, 2, &[0; 4]);
    data[0] = b'P';
    assert_eq!(Image::load_bmp_header(&data), Err(ImageError::NotBmp));
    let mut data = file(54, 2, 2, &[0; 4]);
    data[1] = b'N';
    assert_eq!(Image::load_bmp_header(&data), Err(ImageError::NotBmp));
    assert_eq!(
        Image::load_bmp_header(&file(40, 2, 2, &[0; 4])),
        Err(ImageError::HeaderSize)
    );
    assert_eq!(
        Image::load_bmp_header(&file(54, 3, 2, &[0; 6])),
        Err(ImageError::PixelCount)
    );
    assert_eq!(
        Image::load_bmp_header(&file(54, 0, 2, &[])),
        Err(ImageError::PixelCount)
    );
    assert_eq!(
        Image::load_bmp_header(&file(54, 2, 2, &[0; 5])),
        Err(ImageError::DataSize)
    );
    assert_eq!(
        Image::load_bmp_header(&file(54, 2, 2, &[0; 8])),
        Err(ImageError::DataSize)
    );
    assert_eq!(
        Image::load_bmp_header(&file(40, 3, 2, &[0; 5])),
        Err(ImageError::HeaderSize)
    );
    assert_eq!(
        Image::load_bmp_header(&file(0, 3, 2, &[0; 5])),
        Err(ImageError::PixelCount)
    );
}

#[test]
fn gray_pixels_are_spread() {
    let data = file(54, 2, 1, &[10, 200]);
    assert_eq!(
        Image::load_bmp_data(&data, 2, 1, Mode::Gray),
        vec![10, 10, 10, 200, 200, 200]
    );
}

#[test]
fn colour_pixels_are_reordered() {
    let data = file(54, 2, 2, &[1, 2, 3, 4, 5, 6, 7, 8, 9, 10, 11, 12]);
    assert_eq!(
        Image::load_bmp_data(&data, 2, 2, Mode::RGB),
        vec![3, 2, 1, 6, 5, 4, 9, 8, 7, 12, 11, 10]
    );
    let data = file(54, 2, 1, &[1, 2, 3, 255, 5, 6, 7, 0]);
    assert_eq!(
        Image::load_bmp_data(&data, 2, 1, Mode::RGBA),
        vec![3, 2, 1, 7, 6, 5]
    );
}

#[test]
fn image_of_a_file() {
    let data = file(54, 2, 1, &[1, 2, 3, 255, 5, 6, 7, 0]);
    let image = Image::new("textures/two.bmp", &data).ok().unwrap();
    assert_eq!(image.get_width(), 2);
    assert_eq!(image.get_height(), 1);
    assert_eq!(image.get_data(), &vec![3, 2, 1, 7, 6, 5]);
    let scaled: Vec<f32> = image.get_data().iter().map(|b| *b as f32 / 256.0).collect();
    assert_eq!(
        scaled,
        vec![0.01171875, 0.0078125, 0.00390625, 0.02734375, 0.0234375, 0.01953125]
    );
}

#[test]
fn image_refusals_name_the_path() {
    let message = |data: &Vec<u8>| Image::new("textures/bad.bmp", data).err().unwrap();
    assert_eq!(
        message(&vec![0u8; 10]),
        "error: not bmp: textures/bad.bmp"
    );
    assert_eq!(
        message(&file(12, 2, 2, &[0; 4])),
        "error: not supported bmp: header_size != 54: textures/bad.bmp"
    );
    assert_eq!(
        message(&file(54, 3, 3, &[0; 9])),
        "error: not supported bmp: size != 2^n: textures/bad.bmp"
    );
    assert_eq!(
        message(&file(54, 2, 2, &[0; 7])),
        "error: not supported bmp: data size: textures/bad.bmp"
    );
}

#[test]
fn image_errors_in_words() {
    assert_eq!(ImageError::NotBmp.message(), "error: not bmp");
    assert_eq!(
        ImageError::HeaderSize.message(),
        "error: not supported bmp: header_size != 54"
    );
    assert_eq!(
        ImageError::PixelCount.message(),
        "error: not supported bmp: size != 2^n"
    );
    assert_eq!(
        ImageError::DataSize.message(),
        "error: not supported bmp: data size"
    );
}
