use vstd::prelude::*;

use crate::pixel::Pixel;

verus! {

/// Why an image, or a set of images, could not be accepted.
#[derive(Clone, Copy, Debug, PartialEq, Eq, Structural)]
pub enum ImageError {
    /// The pixel buffer's length is not `width * height`.
    DimensionMismatch,
    /// The images do not all share one width and one height.
    InconsistentImageSizes,
}

/// A raster image: `width * height` pixels in row-major order.
#[derive(Debug)]
pub struct Image {
    data: Vec<Pixel>,
    width: u32,
    height: u32,
}

impl Image {
    #[verifier::type_invariant]
    spec fn inv(&self) -> bool {
        self.data@.len() == self.width * self.height
    }

    /// The pixels of the image.
    pub closed spec fn spec_data(&self) -> Seq<Pixel> {
        self.data@
    }

    pub closed spec fn spec_width(&self) -> u32 {
        self.width
    }

    pub closed spec fn spec_height(&self) -> u32 {
        self.height
    }

    /// Builds an image from a copy of `data`, which must hold exactly
    /// `width * height` pixels.
    pub fn new_from_parts(data: &[Pixel], width: u32, height: u32) -> (r: Result<Image, ImageError>)
        ensures
            r is Ok <==> data@.len() == width * height,
            r is Err ==> r == Err::<Image, ImageError>(ImageError::DimensionMismatch),
            r matches Ok(img) ==> img.spec_data() == data@ && img.spec_width() == width
                && img.spec_height() == height,
    {
        assert(width as u64 * height as u64 <= u32::MAX as u64 * u32::MAX as u64) by (nonlinear_arith);
        let area: u64 = width as u64 * height as u64;
        if data.len() as u64 != area {
            return Err(ImageError::DimensionMismatch);
        }
        Ok(Image { data: vstd::slice::slice_to_vec(data), width, height })
    }

    /// Builds an image that takes over `data`, which holds exactly
    /// `width * height` pixels.
    pub fn from_pixels(data: Vec<Pixel>, width: u32, height: u32) -> (r: Image)
        requires
            data@.len() == width * height,
        ensures
            r.spec_data() == data@,
            r.spec_width() == width,
            r.spec_height() == height,
    {
        Image { data, width, height }
    }

    /// The pixels of the image.
    pub fn data(&self) -> (r: &[Pixel])
        ensures
            r@ == self.spec_data(),
    {
        self.data.as_slice()
    }

    #[verifier::when_used_as_spec(spec_width)]
    pub fn width(&self) -> (r: u32)
        ensures
            r == self.spec_width(),
    {
        self.width
    }

    #[verifier::when_used_as_spec(spec_height)]
    pub fn height(&self) -> (r: u32)
        ensures
            r == self.spec_height(),
    {
        self.height
    }

    /// Holds the pixel count to the dimensions.
    pub fn len_matches(&self)
        ensures
            self.spec_data().len() == self.spec_width() * self.spec_height(),
    {
        proof {
            use_type_invariant(self);
        }
    }

    /// A copy of the image, pixel for pixel.
    pub fn duplicate(&self) -> (r: Image)
        ensures
            r.spec_data() == self.spec_data(),
            r.spec_width() == self.spec_width(),
            r.spec_height() == self.spec_height(),
    {
        proof {
            use_type_invariant(self);
        }
        Image { data: vstd::slice::slice_to_vec(self.data.as_slice()), width: self.width, height: self.height }
    }
}

/// All images share the width and height of the first.
pub open spec fn same_size(images: Seq<Image>) -> bool {
    forall|i: int|
        0 <= i < images.len() ==> (#[trigger] images[i]).spec_width() == images[0].spec_width()
            && images[i].spec_height() == images[0].spec_height()
}

/// Checks that every image has the width and height of the first.
pub fn check_sizes(images: &[Image]) -> (r: Result<(), ImageError>)
    ensures
        r is Ok <==> same_size(images@),
        r is Err ==> r == Err::<(), ImageError>(ImageError::InconsistentImageSizes),
{
    if images.len() == 0 {
        return Ok(());
    }
    let w = images[0].width();
    let h = images[0].height();
    let mut i: usize = 1;
    while i < images.len()
        invariant
            1 <= i <= images@.len(),
            w == images@[0].spec_width(),
            h == images@[0].spec_height(),
            forall|j: int|
                0 <= j < i ==> (#[trigger] images@[j]).spec_width() == w
                    && images@[j].spec_height() == h,
        decreases images@.len() - i,
    {
        if images[i].width() != w || images[i].height() != h {
            return Err(ImageError::InconsistentImageSizes);
        }
        i = i + 1;
    }
    Ok(())
}

} // verus!
