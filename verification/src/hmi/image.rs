use vstd::prelude::*;

use crate::hmi::base::GenericHandle;

verus! {

/// An image, or the part `region` (x, y, width, height) of one.
#[derive(Copy, Clone, Debug)]
pub struct Image {
    pub handle: GenericHandle,
    pub w: u16,
    pub h: u16,
    pub region: [u16; 4],
}

impl Image {
    /// The whole image behind `handle`.
    pub fn image_handle(handle: GenericHandle) -> (img: Image)
        ensures
            img.handle == handle,
            img.w == 0,
            img.h == 0,
            img.region@ == seq![0u16, 0u16, 0u16, 0u16],
    {
        Image { handle, w: 0, h: 0, region: [0u16, 0u16, 0u16, 0u16] }
    }

    /// The whole image at address `ptr`.
    pub fn image_ptr(ptr: usize) -> (img: Image)
        ensures
            img.handle == GenericHandle::Ptr(ptr),
            img.w == 0,
            img.h == 0,
            img.region@ == seq![0u16, 0u16, 0u16, 0u16],
    {
        Self::image_handle(GenericHandle::Ptr(ptr))
    }

    /// The whole image with id `id`.
    pub fn image_id(id: u32) -> (img: Image)
        ensures
            img.handle == GenericHandle::Id(id),
            img.w == 0,
            img.h == 0,
            img.region@ == seq![0u16, 0u16, 0u16, 0u16],
    {
        Self::image_handle(GenericHandle::Id(id))
    }

    /// The image is a part of a larger one: it has a size.
    pub fn is_subimage(&self) -> (b: bool)
        ensures
            b == (self.w != 0 && self.h != 0),
    {
        self.w != 0 && self.h != 0
    }
}

/// A whole image is not a sub image.
pub proof fn lemma_whole_image_is_not_subimage(img: Image)
    requires
        img.w == 0,
        img.h == 0,
    ensures
        !(img.w != 0 && img.h != 0),
{
}

} // verus!
