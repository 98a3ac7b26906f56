use vstd::prelude::*;
use crate::cmyk::{CmykChannels, is_plate_of, split_channels};
use crate::errors::Error;
use crate::raster::{GrayRaster, Raster};

verus! {

/// Drives a full four-channel separation of one source raster.
#[derive(Debug)]
pub struct ImageTreatment<'a> {
    pub image: &'a Raster,
}

impl<'a> ImageTreatment<'a> {
    /// Wraps a well-formed source raster; this never fails.
    pub fn new(image: &'a Raster) -> (r: Result<Self, Error>)
        requires
            image.wf(),
        ensures
            r matches Ok(t) && t.image == image,
    {
        Ok(Self { image })
    }

    /// Separates all four channels; yields the plates in canonical order.
    pub fn process_channel(&self) -> (r: Option<Vec<GrayRaster>>)
        requires
            self.image.wf(),
        ensures
            r matches Some(plates) && plates.len() == 4
                && forall|j: int| 0 <= j < 4 ==> is_plate_of(#[trigger] plates@[j], *self.image, j),
    {
        let channels = split_channels(self.image, CmykChannels::all());
        proof {
            assert((0xfu8 & 0x1u8) != 0 && (0xfu8 & 0x2u8) != 0 && (0xfu8 & 0x4u8) != 0
                && (0xfu8 & 0x8u8) != 0) by (bit_vector);
            assert(CmykChannels { 0: 0xfu8 }.selected() =~= seq![0int, 1int, 2int, 3int]);
        }
        Some(channels)
    }

    /// Separates all four channels, reporting failure as a processing error;
    /// with a well-formed source the separation always succeeds.
    pub fn process(&self) -> (r: Result<Vec<GrayRaster>, Error>)
        requires
            self.image.wf(),
        ensures
            r matches Ok(plates) && plates.len() == 4
                && forall|j: int| 0 <= j < 4 ==> is_plate_of(#[trigger] plates@[j], *self.image, j),
    {
        match self.process_channel() {
            Some(channels) => Ok(channels),
            None => Err(Error::Processing(String::from_str("Failed to process image"))),
        }
    }
}

} // verus!
