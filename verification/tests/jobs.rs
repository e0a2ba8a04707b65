use hdtr::pipeline::{MaskType, Pipeline, PipelineInputImage};
use hdtr::{HdtrError, InputImage};
use image::{DynamicImage, GenericImageView, Pixel, Rgb, Rgb32FImage, RgbImage};

fn solid(width: u32, height: u32, rgb: [u8; 3]) -> DynamicImage {
    DynamicImage::ImageRgb8(RgbImage::from_pixel(width, height, Rgb(rgb)))
}

fn rgb_at(im: &DynamicImage, x: u32, y: u32) -> [u8; 3] {
    im.get_pixel(x, y).to_rgb().0
}

fn not_a_number(width: u32, height: u32) -> DynamicImage {
    DynamicImage::ImageRgb32F(Rgb32FImage::from_pixel(width, height, Rgb([f32::NAN; 3])))
}

fn job(inputs: Vec<PipelineInputImage>) -> Pipeline {
    Pipeline {
        filenames: inputs,
        generate_masks: None,
        normalize_masks: None,
        save_masks: None,
        save: "blended.png".to_string(),
    }
}

fn two_inputs() -> Vec<PipelineInputImage> {
    vec![
        PipelineInputImage::new("a.png".to_string(), Some("a_mask.png".to_string())),
        PipelineInputImage::from("b.png".to_string()),
    ]
}

fn input(name: &str, im: DynamicImage) -> InputImage {
    InputImage::new(name.to_string(), im)
}

#[test]
fn from_a_path_names_no_mask() {
    let entry = PipelineInputImage::from("b.png".to_string());
    assert_eq!(entry.image, "b.png");
    assert!(entry.mask.is_none());
}

#[test]
fn required_files_lists_images_and_masks_in_order() {
    let files = job(two_inputs()).required_files();
    assert_eq!(files, vec!["a.png", "a_mask.png", "b.png"]);
    assert!(job(Vec::new()).required_files().is_empty());
}

#[test]
fn validate_refuses_a_job_without_inputs() {
    let r = job(Vec::new()).validate(&Vec::new());
    assert!(matches!(r, Err(HdtrError::NoInputFilesSpecified)));
}

#[test]
fn validate_accepts_when_every_file_is_there() {
    assert!(job(two_inputs()).validate(&vec![true, true, true]).is_ok());
}

#[test]
fn validate_reports_the_first_missing_file() {
    let r = job(two_inputs()).validate(&vec![true, false, false]);
    match r {
        Err(HdtrError::InputFileDoesNotExist(name)) => assert_eq!(name, "a_mask.png"),
        other => panic!("unexpected: {other:?}"),
    }
    let r = job(two_inputs()).validate(&vec![false, true, true]);
    match r {
        Err(HdtrError::InputFileDoesNotExist(name)) => assert_eq!(name, "a.png"),
        other => panic!("unexpected: {other:?}"),
    }
}

#[test]
fn validate_counts_a_file_without_an_entry_as_missing() {
    let r = job(two_inputs()).validate(&vec![true, true]);
    match r {
        Err(HdtrError::InputFileDoesNotExist(name)) => assert_eq!(name, "b.png"),
        other => panic!("unexpected: {other:?}"),
    }
}

#[test]
fn load_without_a_mask_leaves_the_mask_to_the_set() {
    let entry = PipelineInputImage::from("b.png".to_string());
    let (image, mask) = entry.load(solid(4, 3, [5, 6, 7]), None).unwrap();
    assert_eq!(image.path, "b.png");
    assert_eq!(rgb_at(&image.im, 3, 2), [5, 6, 7]);
    assert!(mask.is_none());
}

#[test]
fn load_keeps_a_mask_of_the_right_size() {
    let entry = PipelineInputImage::new("a.png".to_string(), Some("a_mask.png".to_string()));
    let (image, mask) = entry.load(solid(4, 3, [5, 6, 7]), Some(solid(4, 3, [9, 9, 9]))).unwrap();
    assert_eq!(image.path, "a.png");
    assert_eq!(rgb_at(&mask.unwrap(), 0, 0), [9, 9, 9]);
}

#[test]
fn load_refuses_what_cannot_be_read() {
    let entry = PipelineInputImage::new("a.exr".to_string(), Some("a_mask.exr".to_string()));
    match entry.load(not_a_number(2, 2), Some(solid(2, 2, [9; 3]))) {
        Err(HdtrError::PipelineError(details)) => {
            assert_eq!(details, "a.exr stores floating-point samples")
        }
        _ => panic!("an image that cannot be read was accepted"),
    }
    match entry.load(solid(2, 2, [9; 3]), Some(not_a_number(2, 2))) {
        Err(HdtrError::PipelineError(details)) => {
            assert_eq!(details, "a_mask.exr stores floating-point samples")
        }
        _ => panic!("a mask that cannot be read was accepted"),
    }
    let entry = PipelineInputImage::from("b.exr".to_string());
    match entry.load(not_a_number(1, 1), None) {
        Err(HdtrError::PipelineError(details)) => {
            assert_eq!(details, "b.exr stores floating-point samples")
        }
        _ => panic!("an image that cannot be read was accepted"),
    }
    // the sizes are looked at first
    let entry = PipelineInputImage::new("a.exr".to_string(), Some("a_mask.exr".to_string()));
    assert!(matches!(
        entry.load(not_a_number(2, 2), Some(solid(2, 3, [9; 3]))),
        Err(HdtrError::DimensionMismatch { .. })
    ));
}

#[test]
fn load_refuses_a_mask_of_another_size() {
    let entry = PipelineInputImage::new("a.png".to_string(), Some("a_mask.png".to_string()));
    let r = entry.load(solid(100, 100, [0; 3]), Some(solid(100, 101, [0; 3])));
    match r {
        Err(HdtrError::DimensionMismatch { expected, received, details }) => {
            assert_eq!(expected, (100, 100));
            assert_eq!(received, (100, 101));
            assert_eq!(details, "a.png and its mask a_mask.png have different dimensions");
        }
        _ => panic!("a mask of another size was accepted"),
    }
}

#[test]
fn execute_reports_both_sizes_of_a_mismatch() {
    let images = vec![input("a.png", solid(100, 100, [1; 3])), input("b.png", solid(100, 101, [2; 3]))];
    let masks = vec![Some(solid(100, 100, [255; 3])), Some(solid(100, 101, [255; 3]))];
    let mut p = job(two_inputs());
    p.generate_masks = Some(MaskType::VerticalFlat);
    match p.execute(images, masks) {
        Err(HdtrError::DimensionMismatch { expected, received, details }) => {
            assert_eq!(expected, (100, 100));
            assert_eq!(received, (100, 101));
            assert_eq!(details, "b.png has different dimensions than expected");
        }
        _ => panic!("images of different sizes were blended"),
    }
}

#[test]
fn execute_reports_the_first_image_that_differs() {
    let images = vec![
        input("a.png", solid(4, 4, [1; 3])),
        input("b.png", solid(4, 4, [2; 3])),
        input("c.png", solid(5, 4, [3; 3])),
        input("d.png", solid(4, 6, [4; 3])),
    ];
    let masks = vec![None, None, None, None];
    match job(two_inputs()).execute(images, masks) {
        Err(HdtrError::DimensionMismatch { expected, received, details }) => {
            assert_eq!(expected, (4, 4));
            assert_eq!(received, (5, 4));
            assert_eq!(details, "c.png has different dimensions than expected");
        }
        _ => panic!("images of different sizes were blended"),
    }
}

#[test]
fn execute_refuses_a_job_without_inputs() {
    let r = job(Vec::new()).execute(Vec::new(), Vec::new());
    assert!(matches!(r, Err(HdtrError::NoInputFilesSpecified)));
}

#[test]
fn execute_refuses_when_nothing_was_loaded() {
    match job(two_inputs()).execute(Vec::new(), Vec::new()) {
        Err(HdtrError::HDTR(message)) => assert_eq!(message, "No images were loaded"),
        _ => panic!("a run without images went through"),
    }
}

#[test]
fn execute_with_the_given_masks_blends_through_them() {
    let images = vec![input("a.png", solid(2, 1, [200, 100, 0])), input("b.png", solid(2, 1, [0, 100, 200]))];
    let masks = vec![Some(solid(2, 1, [255, 255, 255])), Some(solid(2, 1, [0, 0, 0]))];
    let (set, out) = job(two_inputs()).execute(images, masks).unwrap();
    assert_eq!((set.width, set.height), (2, 1));
    assert_eq!(rgb_at(&set.masks[0], 0, 0), [255, 255, 255]);
    assert_eq!(rgb_at(&out, 0, 0), [200, 100, 0]);
    assert_eq!(rgb_at(&out, 1, 0), [200, 100, 0]);
}

#[test]
fn execute_generates_masks_over_the_given_ones() {
    let images = vec![input("a.png", solid(4, 2, [200, 100, 0])), input("b.png", solid(4, 2, [0, 100, 200]))];
    let masks = vec![Some(solid(4, 2, [0; 3])), None];
    let mut p = job(two_inputs());
    p.generate_masks = Some(MaskType::VerticalFlat);
    let (set, out) = p.execute(images, masks).unwrap();
    assert_eq!(set.images[1].path, "b.png");
    for y in 0..2u32 {
        assert_eq!(rgb_at(&out, 0, y), [200, 100, 0]);
        assert_eq!(rgb_at(&out, 1, y), [200, 100, 0]);
        assert_eq!(rgb_at(&out, 2, y), [0, 100, 200]);
        assert_eq!(rgb_at(&out, 3, y), [0, 100, 200]);
        assert_eq!(rgb_at(&set.masks[0], 1, y), [255, 255, 255]);
        assert_eq!(rgb_at(&set.masks[0], 2, y), [0, 0, 0]);
    }
}

#[test]
fn execute_normalizes_only_when_asked() {
    let images = || vec![input("a.png", solid(1, 1, [100, 100, 100])), input("b.png", solid(1, 1, [200, 200, 200]))];
    let masks = || vec![Some(solid(1, 1, [10, 10, 10])), Some(solid(1, 1, [30, 30, 30]))];

    let mut p = job(two_inputs());
    p.normalize_masks = Some(false);
    let (set, out) = p.execute(images(), masks()).unwrap();
    assert_eq!(rgb_at(&set.masks[0], 0, 0), [10, 10, 10]);
    // (100 * 10 + 200 * 30) / 255 = 27
    assert_eq!(rgb_at(&out, 0, 0), [27, 27, 27]);

    p.normalize_masks = Some(true);
    let (set, out) = p.execute(images(), masks()).unwrap();
    assert_eq!(rgb_at(&set.masks[0], 0, 0), [63, 63, 63]);
    assert_eq!(rgb_at(&set.masks[1], 0, 0), [191, 191, 191]);
    // (100 * 63 + 200 * 191) / 255 = 174
    assert_eq!(rgb_at(&out, 0, 0), [174, 174, 174]);
}

#[test]
fn execute_with_logistic_masks_and_normalizing() {
    let images = vec![input("a.png", solid(4, 1, [255, 0, 0])), input("b.png", solid(4, 1, [0, 0, 255]))];
    let masks = vec![None, None];
    let mut p = job(two_inputs());
    let mut falloff = vec![0u8; 13];
    falloff[0] = 120;
    falloff[4] = 60;
    falloff[8] = 30;
    p.generate_masks = Some(MaskType::VerticalLogistic { falloff });
    p.normalize_masks = Some(true);
    let (set, out) = p.execute(images, masks).unwrap();
    // centres at columns 1 and 3, units of a quarter pixel; weights before normalizing:
    //   first  60 120 60 30
    //   second  0  30 60 120
    let first = [255u8, 204, 127, 51];
    let second = [0u8, 51, 127, 204];
    for x in 0..4u32 {
        assert_eq!(rgb_at(&set.masks[0], x, 0), [first[x as usize]; 3]);
        assert_eq!(rgb_at(&set.masks[1], x, 0), [second[x as usize]; 3]);
        assert_eq!(rgb_at(&out, x, 0), [first[x as usize], 0, second[x as usize]]);
    }
}

#[test]
fn execute_without_masks_blends_through_the_default_stripes() {
    let images = vec![input("a.png", solid(1, 1, [10, 20, 30]))];
    let (set, out) = job(vec![PipelineInputImage::from("a.png".to_string())])
        .execute(images, vec![None])
        .unwrap();
    assert_eq!(rgb_at(&set.masks[0], 0, 0), [255, 255, 255]);
    assert_eq!(rgb_at(&out, 0, 0), [10, 20, 30]);

    let images = vec![
        input("a.png", solid(5, 2, [1, 2, 3])),
        input("b.png", solid(5, 2, [4, 5, 6])),
        input("c.png", solid(5, 2, [7, 8, 9])),
    ];
    let (set, out) = job(two_inputs()).execute(images, vec![None, None, None]).unwrap();
    // stripes of 5 columns for 3 images: 0..1, 1..3, 3..5
    let owner = [0usize, 1, 1, 2, 2];
    for x in 0..5u32 {
        for y in 0..2u32 {
            let i = owner[x as usize];
            assert_eq!(rgb_at(&out, x, y), rgb_at(&set.images[i].im, x, y));
            for (j, mask) in set.masks.iter().enumerate() {
                assert_eq!(rgb_at(mask, x, y), if i == j { [255; 3] } else { [0; 3] });
            }
        }
    }
}

#[test]
fn execute_without_masks_is_the_same_with_normalizing() {
    let images = || vec![input("a.png", solid(3, 1, [9, 8, 7])), input("b.png", solid(3, 1, [1, 2, 3]))];
    let mut p = job(two_inputs());
    p.normalize_masks = Some(true);
    let (set, out) = p.execute(images(), vec![None, None]).unwrap();
    // stripes of 3 columns for 2 images: 0..1 and 1..3
    assert_eq!(rgb_at(&set.masks[0], 0, 0), [255; 3]);
    assert_eq!(rgb_at(&set.masks[0], 1, 0), [0; 3]);
    assert_eq!(rgb_at(&set.masks[1], 2, 0), [255; 3]);
    assert_eq!(rgb_at(&out, 0, 0), [9, 8, 7]);
    assert_eq!(rgb_at(&out, 1, 0), [1, 2, 3]);
    assert_eq!(rgb_at(&out, 2, 0), [1, 2, 3]);
}

#[test]
fn execute_gives_inputs_without_a_mask_their_own_stripe() {
    let images = vec![input("a.png", solid(4, 1, [200, 0, 0])), input("b.png", solid(4, 1, [0, 0, 100]))];
    let masks = vec![Some(solid(4, 1, [51, 51, 51])), None];
    let (set, out) = job(two_inputs()).execute(images, masks).unwrap();
    for x in 0..4u32 {
        assert_eq!(rgb_at(&set.masks[0], x, 0), [51, 51, 51]);
        assert_eq!(rgb_at(&set.masks[1], x, 0), if x < 2 { [0; 3] } else { [255; 3] });
        // 200 * 51 / 255 = 40
        assert_eq!(rgb_at(&out, x, 0), if x < 2 { [40, 0, 0] } else { [40, 0, 100] });
    }
}

#[test]
fn execute_refuses_what_cannot_be_read() {
    let images = vec![input("a.png", solid(2, 2, [1; 3])), input("b.exr", not_a_number(2, 2))];
    match job(two_inputs()).execute(images, vec![None, None]) {
        Err(HdtrError::PipelineError(details)) => {
            assert_eq!(details, "b.exr stores floating-point samples")
        }
        _ => panic!("an image that cannot be read was blended"),
    }
    let images = vec![input("a.png", solid(2, 2, [1; 3])), input("b.png", solid(2, 2, [2; 3]))];
    match job(two_inputs()).execute(images, vec![None, Some(not_a_number(2, 2))]) {
        Err(HdtrError::PipelineError(details)) => {
            assert_eq!(details, "The mask of b.png stores floating-point samples")
        }
        _ => panic!("a mask that cannot be read was blended through"),
    }
}

#[test]
fn example_inputs_default_to_four_images() {
    let inputs = Pipeline::example_inputs(None);
    let names: Vec<&str> = inputs.iter().map(|f| f.image.as_str()).collect();
    assert_eq!(names, vec!["image01.png", "image02.png", "image03.png", "image04.png"]);
    assert!(inputs.iter().all(|f| f.mask.is_none()));
}

#[test]
fn example_inputs_take_the_given_images() {
    let inputs = Pipeline::example_inputs(Some(vec!["1.jpg".to_string(), "2.png".to_string()]));
    let names: Vec<&str> = inputs.iter().map(|f| f.image.as_str()).collect();
    assert_eq!(names, vec!["1.jpg", "2.png"]);
    assert!(inputs.iter().all(|f| f.mask.is_none()));
    assert!(Pipeline::example_inputs(Some(Vec::new())).is_empty());
}

#[test]
fn errors_come_from_their_causes() {
    let e = HdtrError::from("something".to_string());
    assert!(matches!(e, HdtrError::HDTR(ref s) if s == "something"));
    let e = HdtrError::from("in other words");
    assert!(matches!(e, HdtrError::HDTR(ref s) if s == "in other words"));
    let e = HdtrError::from(std::io::Error::new(std::io::ErrorKind::NotFound, "gone"));
    assert!(matches!(e, HdtrError::IO(_)));
    let e = HdtrError::from(image::ImageError::IoError(std::io::Error::new(
        std::io::ErrorKind::InvalidData,
        "bad",
    )));
    assert!(matches!(e, HdtrError::InputFileReadError(_)));
    let bad = serde_json::from_str::<bool>("not json").unwrap_err();
    assert!(matches!(HdtrError::from(bad), HdtrError::InvalidPipelineJson(_)));
}
