use image_average::add_images;
use image_average::to_rgba8;
use image_average::AverageError;
use image_average::Averager;
use image_average::DecodedImage;
use image_average::Rgb32;
use image_average::Rgb32Image;
use image_average::Rgb8;
use image_average::Rgb8Image;

fn img_from(width: u32, height: u32, px: &[(u8, u8, u8)]) -> Rgb8Image {
    let mut data = Vec::new();
    for &(r, g, b) in px {
        data.push(Rgb8 { r, g, b });
    }
    assert_eq!(data.len(), (width * height) as usize);
    Rgb8Image { width, height, data }
}

fn channels(img: &Rgb8Image) -> Vec<(u8, u8, u8)> {
    img.data.iter().map(|p| (p.r, p.g, p.b)).collect()
}

#[test]
fn black_is_all_zero() {
    let z = Rgb32::black();
    assert_eq!((z.r, z.g, z.b), (0, 0, 0));
}

#[test]
fn new_accumulator_is_zeroed() {
    let acc = Rgb32Image::new((3, 2));
    assert_eq!(acc.dim, (3, 2));
    assert_eq!(acc.data.len(), 6);
    for cell in &acc.data {
        assert_eq!((cell.r, cell.g, cell.b), (0, 0, 0));
    }
}

#[test]
fn average_truncates_per_channel() {
    // sums (25, 41, 63) over two images; floor halves are (12, 20, 31)
    let a = img_from(2, 1, &[(10, 20, 30), (0, 255, 2)]);
    let b = img_from(2, 1, &[(15, 21, 33), (1, 254, 5)]);
    let mut avg = Averager::new();
    assert!(avg.push(&a).is_ok());
    assert!(avg.push(&b).is_ok());
    let out = avg.finish().unwrap();
    assert_eq!((out.width, out.height), (2, 1));
    assert_eq!(channels(&out), vec![(12, 20, 31), (0, 254, 3)]);
}

#[test]
fn repeated_image_unchanged() {
    let a = img_from(2, 2, &[(1, 2, 3), (255, 0, 128), (7, 7, 7), (90, 200, 250)]);
    let mut avg = Averager::new();
    for _ in 0..3 {
        assert!(avg.push(&a).is_ok());
    }
    let out = avg.finish().unwrap();
    assert_eq!((out.width, out.height), (2, 2));
    assert_eq!(channels(&out), channels(&a));
}

#[test]
fn single_image_unchanged() {
    let a = img_from(1, 3, &[(0, 0, 0), (255, 255, 255), (13, 44, 91)]);
    let mut avg = Averager::new();
    assert!(avg.push(&a).is_ok());
    let out = avg.finish().unwrap();
    assert_eq!((out.width, out.height), (1, 3));
    assert_eq!(channels(&out), channels(&a));
}

#[test]
fn two_black_one_white_gives_85() {
    let black = img_from(2, 2, &[(0, 0, 0); 4]);
    let white = img_from(2, 2, &[(255, 255, 255); 4]);
    let mut avg = Averager::new();
    assert!(avg.push(&black).is_ok());
    assert!(avg.push(&black).is_ok());
    assert!(avg.push(&white).is_ok());
    let out = avg.finish().unwrap();
    for &(r, g, b) in channels(&out).iter() {
        assert_eq!((r, g, b), (85, 85, 85));
    }
}

#[test]
fn zero_inputs_rejected() {
    let avg = Averager::new();
    assert_eq!(avg.finish().unwrap_err(), AverageError::NoImages);
}

#[test]
fn dimension_mismatch_rejected() {
    let a = img_from(2, 1, &[(10, 10, 10), (20, 20, 20)]);
    let b = img_from(1, 2, &[(30, 30, 30), (40, 40, 40)]);
    let mut avg = Averager::new();
    assert!(avg.push(&a).is_ok());
    assert_eq!(avg.push(&b).unwrap_err(), AverageError::DimensionMismatch);
    // the rejection left the pipeline unchanged: the first image comes back
    let out = avg.finish().unwrap();
    assert_eq!(channels(&out), channels(&a));
}

#[test]
fn four_channel_input_drops_alpha() {
    let rgba = DecodedImage::Rgba8 {
        width: 2,
        height: 1,
        data: vec![1, 2, 3, 200, 4, 5, 6, 9],
    };
    let img = to_rgba8(rgba).unwrap();
    assert_eq!((img.width, img.height), (2, 1));
    assert_eq!(channels(&img), vec![(1, 2, 3), (4, 5, 6)]);
}

#[test]
fn four_channel_alongside_three_channel() {
    let rgb = to_rgba8(DecodedImage::Rgb8 { width: 1, height: 1, data: vec![10, 20, 30] }).unwrap();
    let rgba =
        to_rgba8(DecodedImage::Rgba8 { width: 1, height: 1, data: vec![20, 40, 60, 0] }).unwrap();
    let mut avg = Averager::new();
    assert!(avg.push(&rgb).is_ok());
    assert!(avg.push(&rgba).is_ok());
    let out = avg.finish().unwrap();
    assert_eq!(channels(&out), vec![(15, 30, 45)]);
}

#[test]
fn unsupported_layout_rejected() {
    assert_eq!(to_rgba8(DecodedImage::Unsupported).unwrap_err(), AverageError::UnsupportedFormat);
}

#[test]
fn three_channel_passes_through() {
    let rgb =
        to_rgba8(DecodedImage::Rgb8 { width: 1, height: 2, data: vec![9, 8, 7, 6, 5, 4] }).unwrap();
    assert_eq!((rgb.width, rgb.height), (1, 2));
    assert_eq!(channels(&rgb), vec![(9, 8, 7), (6, 5, 4)]);
}

#[test]
fn add_images_sums_then_divides() {
    // the original pipeline shape: sum into the wide buffer, divide, narrow
    let a = img_from(2, 1, &[(10, 0, 255), (1, 1, 1)]);
    let b = img_from(2, 1, &[(11, 0, 255), (2, 2, 2)]);
    let c = img_from(2, 1, &[(12, 1, 255), (3, 3, 3)]);
    let images = vec![a, b, c];
    let acc = add_images(&images);
    assert_eq!(acc.dim, (2, 1));
    assert_eq!((acc.data[0].r, acc.data[0].g, acc.data[0].b), (33, 1, 765));
    assert_eq!((acc.data[1].r, acc.data[1].g, acc.data[1].b), (6, 6, 6));
    let out = acc.div(3).to_rgb8();
    assert_eq!(channels(&out), vec![(11, 0, 255), (2, 2, 2)]);
}

#[test]
fn div_truncates_toward_zero() {
    let acc = Rgb32Image {
        dim: (1, 1),
        data: vec![Rgb32 { r: 7, g: 8, b: 9 }],
    };
    let d = acc.div(4);
    assert_eq!((d.data[0].r, d.data[0].g, d.data[0].b), (1, 2, 2));
}

#[test]
fn to_rgb8_narrows_cells() {
    let acc = Rgb32Image {
        dim: (1, 2),
        data: vec![Rgb32 { r: 0, g: 128, b: 255 }, Rgb32 { r: 85, g: 1, b: 254 }],
    };
    let img = acc.to_rgb8();
    assert_eq!((img.width, img.height), (1, 2));
    assert_eq!(channels(&img), vec![(0, 128, 255), (85, 1, 254)]);
}
