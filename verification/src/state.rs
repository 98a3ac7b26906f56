use vstd::prelude::*;
use crate::raster::GrayRaster;

verus! {

/// The closed set of per-plate effects a pipeline run may request.
#[derive(Clone, Copy, Debug, PartialEq, Eq, Structural)]
pub enum ImageEffect {
    Original,
    Dither,
    HalfTone,
    Threshold,
    Posterize,
}

/// The closed set of full-colour filters a pipeline run may request.
#[derive(Clone, Copy, Debug, PartialEq, Eq, Structural)]
pub enum ImageFilter {
    Grayscale,
    Sepia,
    Invert,
    Pixelate,
    Brighten,
    Darken,
    Contrast,
    Blur,
    Sharpen,
}

/// The configuration bundle for one pipeline run. Every field is
/// independently optional; absence means "skip this stage".
#[derive(Debug)]
pub struct ProcessSettings {
    /// Ordered gradient colour stops as hex strings, for the recolour stage.
    pub colors: Option<Vec<String>>,
    /// The per-plate effect to apply after separation.
    pub effect: Option<ImageEffect>,
    /// The full-colour filter to apply before separation.
    pub filter: Option<ImageFilter>,
}

/// Where the interactive session currently stands.
#[derive(Clone, Copy, Debug, PartialEq, Eq, Structural)]
pub enum ProcessingStatus {
    Idle,
    Processing,
    Completed,
    Failed,
}

impl Default for ProcessingStatus {
    /// A fresh session is idle.
    fn default() -> (r: Self)
        ensures
            r == ProcessingStatus::Idle,
    {
        ProcessingStatus::Idle
    }
}

/// A channel separation kept for reuse, tagged with the identity of the
/// source image it was computed from so that stale results can be told apart.
pub struct SeparationCache {
    /// The path of the image the plates were separated from.
    pub image: String,
    /// The four plates, in canonical cyan, magenta, yellow, black order.
    pub plates: Vec<GrayRaster>,
}

/// The per-session context: the image under work, the last requested
/// settings and results, and the single most-recent separation cache slot.
pub struct AppStateInner {
    pub image_path: Option<String>,
    pub image_type: Option<String>,
    pub image_name: Option<String>,
    pub current_image: Option<String>,
    pub process_settings: Option<ProcessSettings>,
    pub processed_images: Option<Vec<crate::processes::ProcessResult>>,
    pub processing_status: ProcessingStatus,
    /// The cache slot: at most one separation, keyed by source image.
    pub preprocessed_channels: Option<SeparationCache>,
}

impl AppStateInner {
    /// A fresh session: nothing selected, nothing cached, idle.
    pub fn new() -> (r: Self)
        ensures
            r.image_path is None,
            r.image_type is None,
            r.image_name is None,
            r.current_image is None,
            r.process_settings is None,
            r.processed_images is None,
            r.processing_status == ProcessingStatus::Idle,
            r.preprocessed_channels is None,
    {
        AppStateInner {
            image_path: None,
            image_type: None,
            image_name: None,
            current_image: None,
            process_settings: None,
            processed_images: None,
            processing_status: ProcessingStatus::Idle,
            preprocessed_channels: None,
        }
    }

    /// Records a newly selected image, marks the session as processing, and
    /// invalidates the separation cache: a cached separation belongs to the
    /// previously loaded image and must never serve the new one.
    pub fn load_image(&mut self, path: String, image_type: String, image_name: String)
        ensures
            final(self).image_path matches Some(p) && p == path,
            final(self).current_image matches Some(p) && p == path,
            final(self).image_type matches Some(t) && t == image_type,
            final(self).image_name matches Some(n) && n == image_name,
            final(self).processing_status == ProcessingStatus::Processing,
            final(self).preprocessed_channels is None,
            final(self).process_settings == old(self).process_settings,
            final(self).processed_images == old(self).processed_images,
    {
        self.image_path = Some(path.clone());
        self.current_image = Some(path);
        self.image_type = Some(image_type);
        self.image_name = Some(image_name);
        self.processing_status = ProcessingStatus::Processing;
        self.preprocessed_channels = None;
    }

    /// Delivers the result of a background separation into the cache slot.
    /// The write lands only when `for_image` still is the loaded image;
    /// a stale result, computed for an image that has since been replaced,
    /// is discarded and the state stays untouched.
    pub fn store_separation(&mut self, for_image: &String, plates: Vec<GrayRaster>)
        ensures
            (old(self).current_image matches Some(cur) && cur@ == for_image@) ==> {
                &&& final(self).preprocessed_channels matches Some(c) && c.image@ == for_image@
                    && c.plates == plates
                &&& final(self).image_path == old(self).image_path
                &&& final(self).current_image == old(self).current_image
                &&& final(self).image_type == old(self).image_type
                &&& final(self).image_name == old(self).image_name
                &&& final(self).process_settings == old(self).process_settings
                &&& final(self).processed_images == old(self).processed_images
                &&& final(self).processing_status == old(self).processing_status
            },
            !(old(self).current_image matches Some(cur) && cur@ == for_image@)
                ==> *final(self) == *old(self),
    {
        let fresh = match &self.current_image {
            Some(cur) => cur.eq(for_image),
            None => false,
        };
        if fresh {
            self.preprocessed_channels = Some(SeparationCache {
                image: for_image.clone(),
                plates,
            });
        }
    }

    /// Looks the cache slot up for a given source image. Yields the plates
    /// only when the slot holds a separation computed for exactly that
    /// image; an empty or mismatched slot is a miss, not an error.
    pub fn cache_for(&self, path: &String) -> (r: Option<&Vec<GrayRaster>>)
        ensures
            r is Some <==> (self.preprocessed_channels matches Some(c) && c.image@ == path@),
            r matches Some(v) ==> (self.preprocessed_channels matches Some(c)
                && c.plates == *v),
    {
        match &self.preprocessed_channels {
            Some(c) => {
                if c.image.eq(path) {
                    Some(&c.plates)
                } else {
                    None
                }
            },
            None => None,
        }
    }
}

} // verus!
