//! The set of input images with their masks.

use crate::err::HdtrError;
use crate::generate::{flat_mask, is_generated_mask};
use crate::pipeline::MaskType;
use crate::raster::{
    blank, canvas_fits, dimensions, fits, gray, image_dims, is_canvas, pixel, put_pixel, readable,
    stores_floats,
};
use image::DynamicImage;
use vstd::prelude::*;

verus! {

/// One input image and the path of the file it came from.
pub struct InputImage {
    pub path: String,
    pub im: DynamicImage,
}

/// The name of the file that a mask is written to, for an image whose file
/// name without its extension is `stem`.
pub open spec fn mask_file_name(stem: Seq<char>) -> Seq<char> {
    stem + "_mask.png"@
}

impl InputImage {
    /// Names the file that the mask of an image is written to, next to the
    /// image: the image's file name without its extension, then `_mask.png`.
    pub fn mask_file_name(stem: &str) -> (name: String)
        ensures
            name@ == mask_file_name(stem@),
    {
        let mut name = stem.to_owned();
        name.push_str("_mask.png");
        name
    }

    /// Pairs a decoded image with the path it was read from.
    pub fn new(path: String, im: DynamicImage) -> (r: Self)
        ensures
            r.path == path,
            r.im == im,
    {
        Self { path, im }
    }
}

/// The input images, one mask for each, and the size they all share.
pub struct InputImages {
    pub images: Vec<InputImage>,
    pub masks: Vec<DynamicImage>,
    pub width: u32,
    pub height: u32,
}

/// Whether `mask` is a gray canvas of `width` by `height` whose weight at
/// each pixel `(x, y)` is a value that `f` returns for `(x, y)`.
pub open spec fn is_painted_by<F: Fn(u32, u32) -> u8>(
    mask: DynamicImage,
    f: F,
    width: u32,
    height: u32,
) -> bool {
    &&& image_dims(mask) == (width, height)
    &&& forall|x: u32, y: u32|
        x < width && y < height ==> {
            let p = #[trigger] pixel(mask, x as int, y as int);
            p == gray(p.0) && f.ensures((x, y), p.0)
        }
}

/// Whether `mask` is a gray canvas of `width` by `height` whose weight at
/// each pixel `(x, y)` is a value that `f` returns for `(i, x, y)`.
pub open spec fn is_painted_by_indexed<F: Fn(usize, u32, u32) -> u8>(
    mask: DynamicImage,
    f: F,
    i: usize,
    width: u32,
    height: u32,
) -> bool {
    &&& image_dims(mask) == (width, height)
    &&& forall|x: u32, y: u32|
        x < width && y < height ==> {
            let p = #[trigger] pixel(mask, x as int, y as int);
            p == gray(p.0) && f.ensures((i, x, y), p.0)
        }
}

/// Whether all images have the size of the first.
pub open spec fn same_sizes(images: Seq<InputImage>) -> bool {
    forall|i: int|
        0 <= i < images.len() ==> image_dims((#[trigger] images[i]).im) == image_dims(images[0].im)
}

/// Whether image `i` is the first that does not have the size of the first.
pub open spec fn first_of_other_size(images: Seq<InputImage>, i: int) -> bool {
    &&& 0 < i < images.len()
    &&& image_dims(images[i].im) != image_dims(images[0].im)
    &&& forall|j: int|
        0 <= j < i ==> image_dims((#[trigger] images[j]).im) == image_dims(images[0].im)
}

/// Whether the pixels of all images can be read.
pub open spec fn all_readable(images: Seq<InputImage>) -> bool {
    forall|i: int| 0 <= i < images.len() ==> readable((#[trigger] images[i]).im)
}

/// Whether image `i` is the first whose pixels cannot be read.
pub open spec fn first_unreadable(images: Seq<InputImage>, i: int) -> bool {
    &&& 0 <= i < images.len()
    &&& !readable(images[i].im)
    &&& forall|j: int| 0 <= j < i ==> readable((#[trigger] images[j]).im)
}

/// What is reported when the image at `path` does not have the size of the
/// first image.
pub open spec fn size_mismatch_details(path: Seq<char>) -> Seq<char> {
    path + " has different dimensions than expected"@
}

/// What is reported when the image at `path` cannot be read because it
/// stores floating-point samples.
pub open spec fn unreadable_details(path: Seq<char>) -> Seq<char> {
    path + " stores floating-point samples"@
}

/// What is reported when no canvas of the size of the images can be
/// allocated.
pub open spec fn too_large_details() -> Seq<char> {
    "Images are too large to blend"@
}

/// Paints a canvas pixel by pixel with the weights that `f` returns, walking
/// it column by column.
pub(crate) fn paint_with<F: Fn(u32, u32) -> u8>(width: u32, height: u32, f: &F) -> (mask:
    DynamicImage)
    requires
        fits(width, height),
        forall|x: u32, y: u32| x < width && y < height ==> f.requires((x, y)),
    ensures
        is_canvas(mask),
        is_painted_by(mask, *f, width, height),
{
    let mut canvas = blank(width, height);
    let mut x: u32 = 0;
    while x < width
        invariant
            x <= width,
            is_canvas(canvas),
            image_dims(canvas) == (width, height),
            forall|a: u32, b: u32| a < width && b < height ==> f.requires((a, b)),
            forall|a: u32, b: u32|
                a < x && b < height ==> {
                    let p = #[trigger] pixel(canvas, a as int, b as int);
                    p == gray(p.0) && f.ensures((a, b), p.0)
                },
        decreases width - x,
    {
        let mut y: u32 = 0;
        while y < height
            invariant
                x < width,
                y <= height,
                is_canvas(canvas),
                image_dims(canvas) == (width, height),
                forall|a: u32, b: u32| a < width && b < height ==> f.requires((a, b)),
                forall|a: u32, b: u32|
                    a < width && b < height && (a < x || (a == x && b < y)) ==> {
                        let p = #[trigger] pixel(canvas, a as int, b as int);
                        p == gray(p.0) && f.ensures((a, b), p.0)
                    },
            decreases height - y,
        {
            let p = f(x, y);
            put_pixel(&mut canvas, x, y, (p, p, p));
            y += 1;
        }
        x += 1;
    }
    canvas
}

impl InputImages {
    /// There is one mask for each image, every image and every mask is
    /// `width` by `height` and can be read, and a canvas of that size can be
    /// allocated.
    pub open spec fn wf(&self) -> bool {
        &&& self.images.len() == self.masks.len()
        &&& fits(self.width, self.height)
        &&& forall|i: int|
            0 <= i < self.images.len() ==> {
                &&& image_dims((#[trigger] self.images[i]).im) == (self.width, self.height)
                &&& readable(self.images[i].im)
            }
        &&& forall|i: int|
            0 <= i < self.masks.len() ==> {
                &&& image_dims(#[trigger] self.masks[i]) == (self.width, self.height)
                &&& readable(self.masks[i])
            }
    }

    /// The masks that a set starts with: vertical flat stripes, one for each
    /// image, that together cover the canvas.
    pub fn default_masks(images: &Vec<InputImage>, width: u32, height: u32) -> (masks: Vec<
        DynamicImage,
    >)
        requires
            fits(width, height),
        ensures
            masks.len() == images.len(),
            forall|i: int|
                0 <= i < masks.len() ==> {
                    &&& readable(#[trigger] masks[i])
                    &&& is_generated_mask(
                        masks[i],
                        MaskType::VerticalFlat,
                        width,
                        height,
                        images.len() as int,
                        i,
                    )
                },
    {
        let n = images.len();
        let mut masks: Vec<DynamicImage> = Vec::new();
        let mut i: usize = 0;
        while i < n
            invariant
                i <= n,
                n == images.len(),
                fits(width, height),
                masks.len() == i,
                forall|j: int|
                    0 <= j < i ==> {
                        &&& readable(#[trigger] masks[j])
                        &&& is_generated_mask(
                            masks[j],
                            MaskType::VerticalFlat,
                            width,
                            height,
                            n as int,
                            j,
                        )
                    },
            decreases n - i,
        {
            masks.push(flat_mask(width, height, n, i, true));
            i += 1;
        }
        masks
    }

    /// Makes a set of images that all have the size of the first, each with
    /// its default mask.
    pub fn new(images: Vec<InputImage>) -> (r: Self)
        requires
            images.len() > 0,
            same_sizes(images@),
            all_readable(images@),
            fits(image_dims(images[0].im).0, image_dims(images[0].im).1),
        ensures
            r.wf(),
            r.images == images,
            (r.width, r.height) == image_dims(images[0].im),
            r.has_generated_masks(MaskType::VerticalFlat),
    {
        let (width, height) = dimensions(&images[0].im);
        let masks = Self::default_masks(&images, width, height);
        Self { images, masks, width, height }
    }

    /// Makes a set as `new` does if the images can form one, and says why
    /// not if they cannot. There must be an image. All images must have the
    /// size of the first: the first that does not is reported by its path
    /// and with both sizes. All images must be readable: the first that is
    /// not is reported by its path. And a canvas of their size must fit in
    /// memory.
    pub fn try_new(images: Vec<InputImage>) -> (r: Result<Self, HdtrError>)
        ensures
            match r {
                Ok(set) => {
                    &&& images.len() > 0
                    &&& same_sizes(images@)
                    &&& all_readable(images@)
                    &&& fits(image_dims(images[0].im).0, image_dims(images[0].im).1)
                    &&& set.wf()
                    &&& set.images == images
                    &&& (set.width, set.height) == image_dims(images[0].im)
                    &&& set.has_generated_masks(MaskType::VerticalFlat)
                },
                Err(HdtrError::NoInputFilesSpecified) => images.len() == 0,
                Err(HdtrError::DimensionMismatch { expected, received, details }) => {
                    &&& images.len() > 0
                    &&& expected == image_dims(images[0].im)
                    &&& exists|i: int|
                        {
                            &&& #[trigger] first_of_other_size(images@, i)
                            &&& received == image_dims(images[i].im)
                            &&& details@ == size_mismatch_details(images[i].path@)
                        }
                },
                Err(HdtrError::PipelineError(details)) => {
                    &&& images.len() > 0
                    &&& same_sizes(images@)
                    &&& if all_readable(images@) {
                        &&& !fits(image_dims(images[0].im).0, image_dims(images[0].im).1)
                        &&& details@ == too_large_details()
                    } else {
                        exists|i: int|
                            #[trigger] first_unreadable(images@, i) && details@
                                == unreadable_details(images[i].path@)
                    }
                },
                Err(_) => false,
            },
    {
        if images.len() == 0 {
            return Err(HdtrError::NoInputFilesSpecified);
        }
        let expected = dimensions(&images[0].im);
        let mut i: usize = 1;
        while i < images.len()
            invariant
                1 <= i <= images.len(),
                expected == image_dims(images[0].im),
                forall|j: int|
                    0 <= j < i ==> image_dims((#[trigger] images[j]).im) == image_dims(
                        images[0].im,
                    ),
            decreases images.len() - i,
        {
            let received = dimensions(&images[i].im);
            if expected.0 != received.0 || expected.1 != received.1 {
                let mut details = images[i].path.clone();
                details.push_str(" has different dimensions than expected");
                assert(first_of_other_size(images@, i as int));
                return Err(HdtrError::DimensionMismatch { expected, received, details });
            }
            i += 1;
        }
        let mut i: usize = 0;
        while i < images.len()
            invariant
                i <= images.len(),
                same_sizes(images@),
                forall|j: int| 0 <= j < i ==> readable((#[trigger] images[j]).im),
            decreases images.len() - i,
        {
            if stores_floats(&images[i].im) {
                let mut details = images[i].path.clone();
                details.push_str(" stores floating-point samples");
                assert(first_unreadable(images@, i as int));
                return Err(HdtrError::PipelineError(details));
            }
            i += 1;
        }
        if !canvas_fits(&images[0].im) {
            return Err(HdtrError::PipelineError("Images are too large to blend".to_owned()));
        }
        Ok(Self::new(images))
    }

    /// Replaces the mask of image `index`. The mask must have the size of the
    /// set and be readable.
    pub fn set_mask(&mut self, index: usize, mask: DynamicImage)
        requires
            old(self).wf(),
            index < old(self).masks.len(),
            image_dims(mask) == (old(self).width, old(self).height),
            readable(mask),
        ensures
            final(self).wf(),
            final(self).images == old(self).images,
            final(self).width == old(self).width,
            final(self).height == old(self).height,
            final(self).masks@ == old(self).masks@.update(index as int, mask),
    {
        self.masks[index] = mask;
    }

    /// Replaces the mask of image `index` if there is such an image and the
    /// mask has the size of the set and is readable. Otherwise the set stays
    /// as it is.
    pub fn try_set_mask(&mut self, index: usize, mask: DynamicImage) -> (replaced: bool)
        requires
            old(self).wf(),
        ensures
            replaced <==> {
                &&& index < old(self).masks.len()
                &&& image_dims(mask) == (old(self).width, old(self).height)
                &&& readable(mask)
            },
            replaced ==> {
                &&& final(self).wf()
                &&& final(self).images == old(self).images
                &&& final(self).width == old(self).width
                &&& final(self).height == old(self).height
                &&& final(self).masks@ == old(self).masks@.update(index as int, mask)
            },
            !replaced ==> *final(self) == *old(self),
    {
        if index >= self.masks.len() {
            return false;
        }
        let (width, height) = dimensions(&mask);
        if width != self.width || height != self.height || stores_floats(&mask) {
            return false;
        }
        self.set_mask(index, mask);
        true
    }

    /// Replaces every mask by a gray canvas painted by `f`: the weight of
    /// mask `i` at `(x, y)` is `f(i, x, y)`.
    pub fn create_masks<F>(&mut self, f: F) where F: Fn(usize, u32, u32) -> u8
        requires
            old(self).wf(),
            forall|i: usize, x: u32, y: u32|
                i < old(self).masks.len() && x < old(self).width && y < old(self).height
                    ==> f.requires((i, x, y)),
        ensures
            final(self).wf(),
            final(self).images == old(self).images,
            final(self).width == old(self).width,
            final(self).height == old(self).height,
            forall|i: int|
                0 <= i < final(self).masks.len() ==> is_painted_by_indexed(
                    #[trigger] final(self).masks[i],
                    f,
                    i as usize,
                    old(self).width,
                    old(self).height,
                ),
    {
        let n = self.masks.len();
        let mut i: usize = 0;
        while i < n
            invariant
                i <= n,
                n == self.masks.len(),
                self.wf(),
                self.images == old(self).images,
                self.width == old(self).width,
                self.height == old(self).height,
                forall|j: usize, x: u32, y: u32|
                    j < n && x < self.width && y < self.height ==> f.requires((j, x, y)),
                forall|j: int|
                    0 <= j < i ==> is_painted_by_indexed(
                        #[trigger] self.masks[j],
                        f,
                        j as usize,
                        self.width,
                        self.height,
                    ),
            decreases n - i,
        {
            let width = self.width;
            let height = self.height;
            let weigh = &f;
            let paint = |x: u32, y: u32| -> (w: u8)
                requires
                    weigh.requires((i, x, y)),
                ensures
                    weigh.ensures((i, x, y), w),
                { weigh(i, x, y) };
            let mask = paint_with(width, height, &paint);
            self.masks[i] = mask;
            i += 1;
        }
    }

    /// Replaces the mask of image `index` by a gray canvas painted by `f`:
    /// its weight at `(x, y)` is `f(x, y)`.
    pub fn create_mask<F>(&mut self, index: usize, f: F) where F: Fn(u32, u32) -> u8
        requires
            old(self).wf(),
            index < old(self).masks.len(),
            forall|x: u32, y: u32|
                x < old(self).width && y < old(self).height ==> f.requires((x, y)),
        ensures
            final(self).wf(),
            final(self).images == old(self).images,
            final(self).width == old(self).width,
            final(self).height == old(self).height,
            final(self).masks.len() == old(self).masks.len(),
            is_painted_by(final(self).masks[index as int], f, old(self).width, old(self).height),
            forall|j: int|
                0 <= j < final(self).masks.len() && j != index ==> final(self).masks[j] == old(
                    self,
                ).masks[j],
    {
        let mask = paint_with(self.width, self.height, &f);
        self.masks[index] = mask;
    }
}

} // verus!
