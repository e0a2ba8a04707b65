//! Job descriptions: which images to blend, with which masks, and how.
//!
//! A job is carried out in steps, and only the steps that decide or compute
//! are here. Reading and decoding the files comes before `load` and
//! `execute`, looking for the files before `validate`, and writing the
//! results after `execute`; none of that is done in this module.

use crate::composite::{is_composite, lemma_flat_composite};
use crate::err::HdtrError;
use crate::generate::{is_generated_mask, lemma_normalized_flat_masks};
use crate::images::{
    all_readable, first_of_other_size, first_unreadable, same_sizes, size_mismatch_details,
    unreadable_details, InputImage, InputImages,
};
use crate::normalize::is_normalized;
use crate::raster::{dimensions, fits, image_dims, pixel, readable, stores_floats};
use crate::stripes::in_stripe;
use image::DynamicImage;
use vstd::prelude::*;
use vstd::std_specs::convert::FromSpecImpl;

verus! {

/// Where the mask of an image comes from.
pub enum Mask {
    Default,
    Path(String),
}

/// One input of a job: the path of an image and, if it has one, the path of
/// its mask.
pub struct PipelineInputImage {
    pub image: String,
    pub mask: Option<String>,
}

/// How the masks of a set are generated.
///
/// The flat kinds cut the canvas into one stripe for each image, across its
/// width (vertical stripes) or its height (horizontal stripes); a mask is
/// 255 inside its own stripe and 0 outside. The logistic kinds let the weight
/// fall off smoothly with the distance from the centre of the stripe. The
/// centre of a stripe is its start plus half its fractional width and may
/// lie between two pixels, so distances are counted in units of
/// `1 / (2 * n)` of a pixel, `n` being the number of images, which makes
/// them whole numbers: `falloff[d]` is the weight at `d` such units from
/// the centre, and the weight is 0 beyond the end of the table.
#[derive(Debug)]
pub enum MaskType {
    VerticalFlat,
    HorizontalFlat,
    VerticalLogistic { falloff: Vec<u8> },
    HorizontalLogistic { falloff: Vec<u8> },
}

/// A job: the inputs in order, how to make the masks, and what to write.
pub struct Pipeline {
    pub filenames: Vec<PipelineInputImage>,
    /// Replace all masks by generated ones of this kind.
    pub generate_masks: Option<MaskType>,
    /// Normalise the masks before blending.
    pub normalize_masks: Option<bool>,
    /// Write each mask next to its image.
    pub save_masks: Option<bool>,
    /// Where the blended image goes.
    pub save: String,
}

/// What is reported when an image and its mask differ in size.
pub open spec fn mask_mismatch_details(image: Seq<char>, mask: Seq<char>) -> Seq<char> {
    image + " and its mask "@ + mask + " have different dimensions"@
}

/// What is reported when the mask of the image at `path` cannot be read
/// because it stores floating-point samples.
pub open spec fn unreadable_mask_details(path: Seq<char>) -> Seq<char> {
    "The mask of "@ + path + " stores floating-point samples"@
}

impl PipelineInputImage {
    /// An input with the given image path and mask path.
    pub fn new(image: String, mask: Option<String>) -> (r: Self)
        ensures
            r.image == image,
            r.mask == mask,
    {
        PipelineInputImage { image, mask }
    }

    /// Pairs the decoded image of this input with its decoded mask, which
    /// is given exactly when the input names a mask file. A mask whose size
    /// differs from that of the image is refused, and so is an image or a
    /// mask that cannot be read. An input without a mask gets none here: the
    /// set gives it its default mask.
    pub fn load(&self, image: DynamicImage, mask: Option<DynamicImage>) -> (r: Result<
        (InputImage, Option<DynamicImage>),
        HdtrError,
    >)
        requires
            mask is Some <==> self.mask is Some,
        ensures
            match r {
                Ok((input, m)) => {
                    &&& input.im == image
                    &&& input.path@ == self.image@
                    &&& m == mask
                    &&& readable(image)
                    &&& mask matches Some(given) ==> image_dims(given) == image_dims(image)
                        && readable(given)
                },
                Err(HdtrError::DimensionMismatch { expected, received, details }) => {
                    &&& mask is Some
                    &&& expected == image_dims(image)
                    &&& received == image_dims(mask->0)
                    &&& expected != received
                    &&& details@ == mask_mismatch_details(self.image@, self.mask->0@)
                },
                Err(HdtrError::PipelineError(details)) => {
                    &&& mask matches Some(given) ==> image_dims(given) == image_dims(image)
                    &&& if !readable(image) {
                        details@ == unreadable_details(self.image@)
                    } else {
                        &&& mask is Some
                        &&& !readable(mask->0)
                        &&& details@ == unreadable_details(self.mask->0@)
                    }
                },
                Err(_) => false,
            },
    {
        if let Some(mask) = &mask {
            // check the dimensions
            let expected = dimensions(&image);
            let received = dimensions(mask);
            if expected.0 != received.0 || expected.1 != received.1 {
                let mut details = self.image.clone();
                details.push_str(" and its mask ");
                if let Some(mask_filename) = &self.mask {
                    details.push_str(mask_filename.as_str());
                }
                details.push_str(" have different dimensions");
                return Err(HdtrError::DimensionMismatch { expected, received, details });
            }
        }
        if stores_floats(&image) {
            let mut details = self.image.clone();
            details.push_str(" stores floating-point samples");
            return Err(HdtrError::PipelineError(details));
        }
        if let Some(mask) = &mask {
            if stores_floats(mask) {
                let mut details = String::new();
                if let Some(mask_filename) = &self.mask {
                    details.push_str(mask_filename.as_str());
                }
                details.push_str(" stores floating-point samples");
                return Err(HdtrError::PipelineError(details));
            }
        }
        Ok((InputImage::new(self.image.clone(), image), mask))
    }
}

impl From<String> for PipelineInputImage {
    fn from(value: String) -> (r: Self) {
        PipelineInputImage { image: value, mask: None }
    }
}

impl FromSpecImpl<String> for PipelineInputImage {
    open spec fn obeys_from_spec() -> bool {
        true
    }

    open spec fn from_spec(value: String) -> Self {
        PipelineInputImage { image: value, mask: None }
    }
}

/// The files that the first `n` inputs need, in the order in which they are
/// looked for: for each input its image, then its mask if it names one.
pub open spec fn required_files(files: Seq<PipelineInputImage>, n: nat) -> Seq<Seq<char>>
    decreases n,
{
    if n == 0 {
        Seq::empty()
    } else {
        let before = required_files(files, (n - 1) as nat);
        let file = files[n - 1];
        match file.mask {
            Some(mask) => before.push(file.image@).push(mask@),
            None => before.push(file.image@),
        }
    }
}

/// Whether file `i` of the required files was found.
pub open spec fn file_present(present: Seq<bool>, i: int) -> bool {
    0 <= i < present.len() && present[i]
}

/// Whether file `i` is the first of the required files that was not found.
pub open spec fn first_missing(present: Seq<bool>, i: int) -> bool {
    !file_present(present, i) && forall|j: int| 0 <= j < i ==> file_present(present, j)
}

/// The names of the files that `example_inputs` lists when it is given none.
pub open spec fn example_names() -> Seq<Seq<char>> {
    seq!["image01.png"@, "image02.png"@, "image03.png"@, "image04.png"@]
}

/// Whether `masks` are the masks that a set starts with when `loaded` holds
/// the masks that were given: for an image with a given mask that mask, and
/// for an image without one its default mask, the vertical flat stripe of
/// its place among the images.
pub open spec fn is_starting_masks(
    loaded: Seq<Option<DynamicImage>>,
    masks: Seq<DynamicImage>,
    width: u32,
    height: u32,
) -> bool {
    &&& masks.len() == loaded.len()
    &&& forall|i: int|
        0 <= i < masks.len() ==> match loaded[i] {
            Some(given) => #[trigger] masks[i] == given,
            None => is_generated_mask(
                masks[i],
                MaskType::VerticalFlat,
                width,
                height,
                loaded.len() as int,
                i,
            ),
        }
}

/// Whether `masks` are the masks that a job blends with, for given masks
/// `loaded` on a canvas of `width` by `height`: generated ones if the job
/// asks for any, else the starting masks; and normalised if the job asks for
/// that.
pub open spec fn is_job_masks(
    job: Pipeline,
    loaded: Seq<Option<DynamicImage>>,
    masks: Seq<DynamicImage>,
    width: u32,
    height: u32,
) -> bool {
    let n = loaded.len() as int;
    let normalize = job.normalize_masks == Some(true);
    match job.generate_masks {
        None => if normalize {
            exists|starting: Seq<DynamicImage>|
                is_starting_masks(loaded, starting, width, height) && #[trigger] is_normalized(
                    starting,
                    masks,
                    width,
                    height,
                )
        } else {
            is_starting_masks(loaded, masks, width, height)
        },
        Some(mask_type) => if normalize {
            exists|generated: Seq<DynamicImage>|
                {
                    &&& generated.len() == n
                    &&& forall|i: int|
                        0 <= i < n ==> is_generated_mask(
                            #[trigger] generated[i],
                            mask_type,
                            width,
                            height,
                            n,
                            i,
                        )
                    &&& #[trigger] is_normalized(generated, masks, width, height)
                }
        } else {
            &&& masks.len() == n
            &&& forall|i: int|
                0 <= i < n ==> is_generated_mask(
                    #[trigger] masks[i],
                    mask_type,
                    width,
                    height,
                    n,
                    i,
                )
        },
    }
}

/// Whether every given mask can be read.
pub open spec fn masks_readable(loaded: Seq<Option<DynamicImage>>) -> bool {
    forall|i: int|
        0 <= i < loaded.len() ==> ((#[trigger] loaded[i]) matches Some(given) ==> readable(given))
}

/// Whether mask `i` is the first given mask that cannot be read.
pub open spec fn first_unreadable_mask(loaded: Seq<Option<DynamicImage>>, i: int) -> bool {
    &&& 0 <= i < loaded.len()
    &&& loaded[i] matches Some(given) && !readable(given)
    &&& forall|j: int|
        0 <= j < i ==> ((#[trigger] loaded[j]) matches Some(given) ==> readable(given))
}

/// A job that is given no masks and generates none blends through the
/// default masks, the vertical flat stripes, whether it normalises them or
/// not: each pixel of the blended image is the pixel of the image whose
/// stripe it lies in.
pub proof fn lemma_job_without_masks(
    job: Pipeline,
    loaded: Seq<Option<DynamicImage>>,
    set: InputImages,
    out: DynamicImage,
    x: int,
    y: int,
    i: int,
)
    requires
        job.generate_masks is None,
        loaded.len() == set.images.len(),
        forall|j: int| 0 <= j < loaded.len() ==> (#[trigger] loaded[j]) is None,
        is_job_masks(job, loaded, set.masks@, set.width, set.height),
        is_composite(out, set.images@, set.masks@, set.width, set.height),
        0 <= x < set.width,
        0 <= y < set.height,
        0 <= i < set.images.len(),
        in_stripe(set.width as int, set.images.len() as int, i, x),
    ensures
        set.has_generated_masks(MaskType::VerticalFlat),
        pixel(out, x, y) == pixel(set.images[i].im, x, y),
{
    if job.normalize_masks == Some(true) {
        let starting = choose|starting: Seq<DynamicImage>|
            is_starting_masks(loaded, starting, set.width, set.height) && #[trigger] is_normalized(
                starting,
                set.masks@,
                set.width,
                set.height,
            );
        lemma_normalized_flat_masks(
            starting,
            set.masks@,
            MaskType::VerticalFlat,
            set.width,
            set.height,
        );
    }
    lemma_flat_composite(set, MaskType::VerticalFlat, out, x, y, i);
}

impl Pipeline {
    /// The inputs of an example job: one for each of the given image paths,
    /// or four images named `image01.png` to `image04.png` if none are
    /// given. None of them names a mask.
    pub fn example_inputs(images: Option<Vec<String>>) -> (inputs: Vec<PipelineInputImage>)
        ensures
            match images {
                Some(paths) => {
                    &&& inputs.len() == paths.len()
                    &&& forall|i: int|
                        0 <= i < inputs.len() ==> (#[trigger] inputs[i]).image == paths[i]
                            && inputs[i].mask is None
                },
                None => {
                    &&& inputs.len() == 4
                    &&& forall|i: int|
                        0 <= i < 4 ==> (#[trigger] inputs[i]).image@ == example_names()[i]
                            && inputs[i].mask is None
                },
            },
    {
        let mut inputs: Vec<PipelineInputImage> = Vec::new();
        match images {
            Some(paths) => {
                let mut i: usize = 0;
                while i < paths.len()
                    invariant
                        i <= paths.len(),
                        inputs.len() == i,
                        forall|j: int|
                            0 <= j < i ==> (#[trigger] inputs[j]).image == paths[j]
                                && inputs[j].mask is None,
                    decreases paths.len() - i,
                {
                    inputs.push(PipelineInputImage::new(paths[i].clone(), None));
                    i += 1;
                }
            },
            None => {
                inputs.push(PipelineInputImage::new("image01.png".to_owned(), None));
                inputs.push(PipelineInputImage::new("image02.png".to_owned(), None));
                inputs.push(PipelineInputImage::new("image03.png".to_owned(), None));
                inputs.push(PipelineInputImage::new("image04.png".to_owned(), None));
            },
        }
        inputs
    }

    /// The paths of the files that the job needs, in the order in which
    /// `validate` looks at them.
    pub fn required_files(&self) -> (files: Vec<String>)
        ensures
            files.len() == required_files(self.filenames@, self.filenames.len() as nat).len(),
            forall|i: int|
                0 <= i < files.len() ==> (#[trigger] files[i])@ == required_files(
                    self.filenames@,
                    self.filenames.len() as nat,
                )[i],
    {
        let mut files: Vec<String> = Vec::new();
        let mut i: usize = 0;
        while i < self.filenames.len()
            invariant
                i <= self.filenames.len(),
                files.len() == required_files(self.filenames@, i as nat).len(),
                forall|j: int|
                    0 <= j < files.len() ==> (#[trigger] files[j])@ == required_files(
                        self.filenames@,
                        i as nat,
                    )[j],
            decreases self.filenames.len() - i,
        {
            let file = &self.filenames[i];
            files.push(file.image.clone());
            match &file.mask {
                Some(mask) => files.push(mask.clone()),
                None => {},
            }
            i += 1;
        }
        files
    }

    /// Checks that the job can be started: it lists at least one input, and
    /// every file it needs was found. `present[i]` says whether file `i` of
    /// `required_files` was found; a file without an entry counts as not
    /// found. The first file that is missing is reported.
    pub fn validate(&self, present: &Vec<bool>) -> (r: Result<(), HdtrError>)
        ensures
            match r {
                Ok(()) => {
                    &&& self.filenames.len() > 0
                    &&& forall|i: int|
                        0 <= i < required_files(self.filenames@, self.filenames.len() as nat).len()
                            ==> file_present(present@, i)
                },
                Err(HdtrError::NoInputFilesSpecified) => self.filenames.len() == 0,
                Err(HdtrError::InputFileDoesNotExist(name)) => {
                    &&& self.filenames.len() > 0
                    &&& exists|i: int|
                        0 <= i < required_files(self.filenames@, self.filenames.len() as nat).len()
                            && #[trigger] first_missing(present@, i) && name@ == required_files(
                            self.filenames@,
                            self.filenames.len() as nat,
                        )[i]
                },
                Err(_) => false,
            },
    {
        if self.filenames.len() == 0 {
            return Err(HdtrError::NoInputFilesSpecified);
        }
        let files = self.required_files();
        let mut i: usize = 0;
        while i < files.len()
            invariant
                i <= files.len(),
                self.filenames.len() > 0,
                files.len() == required_files(self.filenames@, self.filenames.len() as nat).len(),
                forall|j: int|
                    0 <= j < files.len() ==> (#[trigger] files[j])@ == required_files(
                        self.filenames@,
                        self.filenames.len() as nat,
                    )[j],
                forall|j: int| 0 <= j < i ==> file_present(present@, j),
            decreases files.len() - i,
        {
            if !(i < present.len() && present[i]) {
                assert(first_missing(present@, i as int));
                return Err(HdtrError::InputFileDoesNotExist(files[i].clone()));
            }
            i += 1;
        }
        Ok(())
    }

    /// Carries out the job on its decoded inputs: `images` in the order of
    /// the job, and for each the mask that was given for it, if any, of the
    /// same size as the image.
    ///
    /// All images must have the size of the first; the first that does not
    /// is reported by its path and with both sizes, before any mask is made
    /// or any pixel is blended. An image or a mask that cannot be read is
    /// refused. Then the set is made: an image without a given mask has its
    /// default mask, the vertical flat stripe of its place. The masks are
    /// generated and normalised as the job asks, and the images are blended
    /// through them. The result is the set with its final masks and the
    /// blended image.
    pub fn execute(&self, images: Vec<InputImage>, masks: Vec<Option<DynamicImage>>) -> (r: Result<
        (InputImages, DynamicImage),
        HdtrError,
    >)
        requires
            images.len() == masks.len(),
            forall|i: int|
                0 <= i < masks.len() ==> ((#[trigger] masks[i]) matches Some(given) ==> image_dims(
                    given,
                ) == image_dims(images[i].im)),
            images.len() > 0 ==> fits(image_dims(images[0].im).0, image_dims(images[0].im).1),
        ensures
            match r {
                Ok((set, out)) => {
                    &&& self.filenames.len() > 0
                    &&& images.len() > 0
                    &&& same_sizes(images@)
                    &&& all_readable(images@)
                    &&& masks_readable(masks@)
                    &&& set.wf()
                    &&& set.images == images
                    &&& (set.width, set.height) == image_dims(images[0].im)
                    &&& is_job_masks(*self, masks@, set.masks@, set.width, set.height)
                    &&& is_composite(out, set.images@, set.masks@, set.width, set.height)
                },
                Err(HdtrError::NoInputFilesSpecified) => self.filenames.len() == 0,
                Err(HdtrError::HDTR(message)) => {
                    &&& self.filenames.len() > 0
                    &&& images.len() == 0
                    &&& message@ == "No images were loaded"@
                },
                Err(HdtrError::DimensionMismatch { expected, received, details }) => {
                    &&& self.filenames.len() > 0
                    &&& images.len() > 0
                    &&& expected == image_dims(images[0].im)
                    &&& exists|i: int|
                        {
                            &&& #[trigger] first_of_other_size(images@, i)
                            &&& received == image_dims(images[i].im)
                            &&& details@ == size_mismatch_details(images[i].path@)
                        }
                },
                Err(HdtrError::PipelineError(details)) => {
                    &&& self.filenames.len() > 0
                    &&& images.len() > 0
                    &&& same_sizes(images@)
                    &&& if all_readable(images@) {
                        exists|i: int|
                            #[trigger] first_unreadable_mask(masks@, i) && details@
                                == unreadable_mask_details(images[i].path@)
                    } else {
                        exists|i: int|
                            #[trigger] first_unreadable(images@, i) && details@
                                == unreadable_details(images[i].path@)
                    }
                },
                Err(_) => false,
            },
    {
        if self.filenames.len() == 0 {
            return Err(HdtrError::NoInputFilesSpecified);
        }
        if images.len() == 0 {
            return Err(HdtrError::HDTR("No images were loaded".to_owned()));
        }
        let n = images.len();
        let ghost loaded = masks@;
        let mut set = match InputImages::try_new(images) {
            Ok(set) => set,
            Err(e) => {
                return Err(e);
            },
        };
        let mut i: usize = 0;
        while i < n
            invariant
                i <= n,
                n == masks.len(),
                n == images.len(),
                self.filenames.len() > 0,
                set.images == images,
                same_sizes(images@),
                all_readable(images@),
                masks@ == loaded,
                forall|j: int|
                    0 <= j < i ==> ((#[trigger] masks[j]) matches Some(given) ==> readable(given)),
            decreases n - i,
        {
            if let Some(mask) = &masks[i] {
                if stores_floats(mask) {
                    let mut details = "The mask of ".to_owned();
                    details.push_str(set.images[i].path.as_str());
                    details.push_str(" stores floating-point samples");
                    assert(first_unreadable_mask(loaded, i as int));
                    return Err(HdtrError::PipelineError(details));
                }
            }
            i += 1;
        }
        let mut rest = masks;
        while rest.len() > 0
            invariant
                rest.len() <= n,
                n == loaded.len(),
                forall|j: int| 0 <= j < rest.len() ==> rest[j] == loaded[j],
                masks_readable(loaded),
                forall|j: int|
                    0 <= j < n ==> ((#[trigger] loaded[j]) matches Some(given) ==> image_dims(given)
                        == (set.width, set.height)),
                set.wf(),
                set.images == images,
                (set.width, set.height) == image_dims(images[0].im),
                set.masks.len() == n,
                forall|j: int|
                    0 <= j < n ==> if j < rest.len() || loaded[j] is None {
                        is_generated_mask(
                            #[trigger] set.masks[j],
                            MaskType::VerticalFlat,
                            set.width,
                            set.height,
                            n as int,
                            j,
                        )
                    } else {
                        set.masks[j] == loaded[j]->0
                    },
            decreases rest.len(),
        {
            let i = rest.len() - 1;
            assert(rest[i as int] == loaded[i as int]);
            if let Some(Some(mask)) = rest.pop() {
                set.set_mask(i, mask);
            }
        }
        if let Some(mask_type) = &self.generate_masks {
            set.generate_masks(mask_type);
        }
        if let Some(true) = self.normalize_masks {
            set.normalize_masks();
        }
        let out = set.composite();
        Ok((set, out))
    }
}

} // verus!
