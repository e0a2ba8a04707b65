use hdtr::composite::channel_of_sum;
use hdtr::normalize::weight_share;
use hdtr::pipeline::MaskType;
use hdtr::{InputImage, InputImages};
use image::{DynamicImage, GenericImageView, Pixel, Rgb, RgbImage, Rgba, RgbaImage};

fn solid(width: u32, height: u32, rgb: [u8; 3]) -> DynamicImage {
    DynamicImage::ImageRgb8(RgbImage::from_pixel(width, height, Rgb(rgb)))
}

fn rgb_at(im: &DynamicImage, x: u32, y: u32) -> [u8; 3] {
    im.get_pixel(x, y).to_rgb().0
}

fn gradient(width: u32, height: u32, seed: u32) -> DynamicImage {
    DynamicImage::ImageRgb8(RgbImage::from_fn(width, height, |x, y| {
        Rgb([
            ((seed + 7 * x + 13 * y) % 256) as u8,
            ((2 * seed + 3 * x + y) % 256) as u8,
            ((seed * seed + x * y) % 256) as u8,
        ])
    }))
}

fn set_of(images: Vec<DynamicImage>) -> InputImages {
    let mut inputs = Vec::new();
    for (i, im) in images.into_iter().enumerate() {
        inputs.push(InputImage::new(format!("image{i}.png"), im));
    }
    InputImages::new(inputs)
}

#[test]
fn weight_share_is_the_share_of_255_rounded_down() {
    assert_eq!(weight_share(100, 150), 170);
    assert_eq!(weight_share(50, 150), 85);
    assert_eq!(weight_share(1, 3), 85);
    assert_eq!(weight_share(1, 7), 36);
    assert_eq!(weight_share(255, 255), 255);
    assert_eq!(weight_share(255, 510), 127);
    assert_eq!(weight_share(0, 9), 0);
}

#[test]
fn weight_share_of_nothing_is_zero() {
    assert_eq!(weight_share(0, 0), 0);
}

#[test]
fn channel_of_sum_divides_and_cuts_off() {
    assert_eq!(channel_of_sum(0), 0);
    assert_eq!(channel_of_sum(254), 0);
    assert_eq!(channel_of_sum(255), 1);
    assert_eq!(channel_of_sum(255 * 255), 255);
    assert_eq!(channel_of_sum(255 * 255 + 254), 255);
    assert_eq!(channel_of_sum(255 * 256), 255);
    assert_eq!(channel_of_sum(u128::MAX), 255);
}

#[test]
fn normalize_shares_out_255_in_proportion() {
    let mut set = set_of(vec![solid(2, 2, [0; 3]), solid(2, 2, [0; 3])]);
    set.set_mask(0, solid(2, 2, [100, 100, 100]));
    set.set_mask(1, solid(2, 2, [50, 50, 50]));
    set.normalize_masks();
    for x in 0..2u32 {
        for y in 0..2u32 {
            assert_eq!(rgb_at(&set.masks[0], x, y), [170, 170, 170]);
            assert_eq!(rgb_at(&set.masks[1], x, y), [85, 85, 85]);
        }
    }
}

#[test]
fn normalize_goes_by_the_first_channel_and_gives_gray() {
    let mut set = set_of(vec![solid(1, 1, [0; 3]), solid(1, 1, [0; 3])]);
    set.set_mask(0, solid(1, 1, [30, 200, 1]));
    set.set_mask(1, solid(1, 1, [90, 0, 255]));
    set.normalize_masks();
    assert_eq!(rgb_at(&set.masks[0], 0, 0), [63, 63, 63]);
    assert_eq!(rgb_at(&set.masks[1], 0, 0), [191, 191, 191]);
}

#[test]
fn normalize_leaves_zero_where_no_mask_has_weight() {
    let mut set = set_of(vec![solid(2, 1, [0; 3]), solid(2, 1, [0; 3])]);
    let mut left = RgbImage::new(2, 1);
    left.put_pixel(0, 0, Rgb([40, 40, 40]));
    set.set_mask(0, DynamicImage::ImageRgb8(left));
    set.set_mask(1, solid(2, 1, [0, 0, 0]));
    set.normalize_masks();
    assert_eq!(rgb_at(&set.masks[0], 0, 0), [255, 255, 255]);
    assert_eq!(rgb_at(&set.masks[1], 0, 0), [0, 0, 0]);
    assert_eq!(rgb_at(&set.masks[0], 1, 0), [0, 0, 0]);
    assert_eq!(rgb_at(&set.masks[1], 1, 0), [0, 0, 0]);
}

#[test]
fn normalized_weights_sum_to_255_less_rounding() {
    for n in 1..=9usize {
        let mut set = set_of((0..n).map(|_| solid(3, 2, [0; 3])).collect());
        set.create_masks(|i, x, y| (1 + (37 * i as u32 + 11 * x + 5 * y) % 200) as u8);
        set.normalize_masks();
        for x in 0..3u32 {
            for y in 0..2u32 {
                let sum: u32 = set.masks.iter().map(|m| rgb_at(m, x, y)[0] as u32).sum();
                assert!(sum <= 255);
                assert!(sum + n as u32 > 255);
            }
        }
    }
}

#[test]
fn normalize_seven_equal_weights() {
    let mut set = set_of((0..7).map(|_| solid(1, 1, [0; 3])).collect());
    set.create_masks(|_, _, _| 1);
    set.normalize_masks();
    for mask in &set.masks {
        assert_eq!(rgb_at(mask, 0, 0), [36, 36, 36]);
    }
}

#[test]
fn normalize_reads_masks_of_any_colour_type() {
    let mut set = set_of(vec![solid(1, 1, [0; 3]), solid(1, 1, [0; 3])]);
    set.set_mask(0, DynamicImage::ImageRgba8(RgbaImage::from_pixel(1, 1, Rgba([60, 60, 60, 10]))));
    set.set_mask(1, solid(1, 1, [20, 20, 20]));
    set.normalize_masks();
    assert_eq!(rgb_at(&set.masks[0], 0, 0), [191, 191, 191]);
    assert_eq!(rgb_at(&set.masks[1], 0, 0), [63, 63, 63]);
    assert_eq!(set.masks[0].dimensions(), (1, 1));
}

#[test]
fn one_image_with_a_full_mask_comes_back_unchanged() {
    let image = gradient(7, 5, 3);
    let set = set_of(vec![image.clone()]);
    let out = set.composite();
    assert_eq!(out.dimensions(), (7, 5));
    for x in 0..7u32 {
        for y in 0..5u32 {
            assert_eq!(rgb_at(&out, x, y), rgb_at(&image, x, y));
        }
    }
}

#[test]
fn two_images_with_flat_masks_are_put_side_by_side() {
    for width in [4u32, 5, 1, 9] {
        let a = gradient(width, 3, 1);
        let b = gradient(width, 3, 90);
        let mut set = set_of(vec![a.clone(), b.clone()]);
        set.generate_masks(&MaskType::VerticalFlat);
        let out = set.composite();
        for x in 0..width {
            for y in 0..3u32 {
                let from = if x < width / 2 { &a } else { &b };
                assert_eq!(rgb_at(&out, x, y), rgb_at(from, x, y));
            }
        }
    }
}

#[test]
fn composite_weighs_each_channel_by_the_masks_own_channel() {
    let mut set = set_of(vec![solid(1, 1, [200, 100, 50]), solid(1, 1, [10, 20, 30])]);
    set.set_mask(0, solid(1, 1, [255, 128, 0]));
    set.set_mask(1, solid(1, 1, [0, 127, 255]));
    let out = set.composite();
    // red 200, green (100 * 128 + 20 * 127) / 255 = 60, blue 30
    assert_eq!(rgb_at(&out, 0, 0), [200, 60, 30]);
}

#[test]
fn composite_rounds_down() {
    let mut set = set_of(vec![solid(1, 1, [3, 254, 1])]);
    set.set_mask(0, solid(1, 1, [85, 254, 254]));
    let out = set.composite();
    // 3 * 85 / 255 = 1, 254 * 254 / 255 = 253.003..., 1 * 254 / 255 = 0.99...
    assert_eq!(rgb_at(&out, 0, 0), [1, 253, 0]);
}

#[test]
fn composite_cuts_off_at_255() {
    let mut set = set_of(vec![solid(1, 1, [200, 255, 1]), solid(1, 1, [200, 255, 1])]);
    set.set_mask(0, solid(1, 1, [255, 255, 255]));
    set.set_mask(1, solid(1, 1, [255, 255, 255]));
    let out = set.composite();
    assert_eq!(rgb_at(&out, 0, 0), [255, 255, 2]);
}

#[test]
fn composite_of_an_empty_canvas_is_empty() {
    let set = set_of(vec![solid(0, 0, [0; 3])]);
    let out = set.composite();
    assert_eq!(out.dimensions(), (0, 0));
}

#[test]
fn composite_after_normalize_blends_in_proportion() {
    let mut set = set_of(vec![solid(2, 1, [240, 0, 60]), solid(2, 1, [0, 120, 60])]);
    set.create_masks(|i, x, _| if x == 0 { 50 } else { (10 + 20 * i) as u8 });
    set.normalize_masks();
    // column 0: weights 127 and 127; column 1: weights 63 and 191
    assert_eq!(rgb_at(&set.masks[0], 0, 0), [127; 3]);
    assert_eq!(rgb_at(&set.masks[1], 1, 0), [191; 3]);
    let out = set.composite();
    assert_eq!(rgb_at(&out, 0, 0), [119, 59, 59]);
    assert_eq!(rgb_at(&out, 1, 0), [59, 89, 59]);
}
