use vstd::prelude::*;
use crate::errors::Error;
use crate::processes::{ProcessResult, is_pipeline_result, process_image};
use crate::raster::{GrayRaster, Raster};
use crate::state::{AppStateInner, ProcessSettings, ProcessingStatus};

verus! {

/// The response a host shell shows after a request: the produced channel
/// artifacts, if any, and the identity of the image under work.
#[derive(Debug)]
pub struct AppResponse {
    pub processed_images: Option<Vec<ProcessResult>>,
    pub image_path: String,
    pub image_type: String,
    pub image_name: String,
    pub processing_status: ProcessingStatus,
}

/// The notification payload sent when background processing finishes.
#[derive(Debug)]
pub struct ProcessingCompletePayload {
    pub processed_images: Option<Vec<ProcessResult>>,
    pub status: ProcessingStatus,
}

/// The characters after the last occurrence of `sep`, or nothing when the
/// separator never occurs.
pub open spec fn spec_after_last(s: Seq<char>, sep: char) -> Seq<char> {
    match s.index_of_last(sep) {
        Some(i) => s.subrange(i + 1, s.len() as int),
        None => Seq::empty(),
    }
}

/// Extracts the characters after the last occurrence of a separator.
pub fn after_last(s: &str, sep: char) -> (r: String)
    ensures
        r@ == spec_after_last(s@, sep),
{
    let n = s.unicode_len();
    let mut i: usize = n;
    while i > 0
        invariant
            n == s@.len(),
            i <= n,
            forall|j: int| i <= j < n ==> s@[j] != sep,
        decreases i,
    {
        if s.get_char(i - 1) == sep {
            proof {
                s@.index_of_last_ensures(sep);
            }
            let tail = s.substring_char(i, n);
            return String::from_str(tail);
        }
        i -= 1;
    }
    proof {
        s@.index_of_last_ensures(sep);
    }
    String::new()
}

/// The file extension of a path: the text after the last dot, or nothing.
pub fn image_type_of(path: &str) -> (r: String)
    ensures
        r@ == spec_after_last(path@, '.'),
{
    after_last(path, '.')
}

/// The file name of a path: the text after the last slash, or nothing.
pub fn image_name_of(path: &str) -> (r: String)
    ensures
        r@ == spec_after_last(path@, '/'),
{
    after_last(path, '/')
}

/// The cached separation the session may serve for the loaded image: only a
/// slot computed for exactly the loaded image counts; anything else is a
/// miss.
pub open spec fn spec_session_cache(state: AppStateInner) -> Option<Seq<GrayRaster>> {
    match state.preprocessed_channels {
        Some(c) => {
            if state.image_path matches Some(p) && p@ == c.image@ {
                Some(c.plates@)
            } else {
                None
            }
        },
        None => None,
    }
}

/// The decision core of a request to process the selected image: with no
/// image loaded it fails and leaves the session untouched; otherwise it
/// runs the pipeline over the decoded source with the session's cache under
/// the cache policy, and records the requested settings.
pub fn process_selected(
    state: &mut AppStateInner,
    source: &Raster,
    settings: ProcessSettings,
) -> (r: Result<Vec<GrayRaster>, Error>)
    requires
        source.wf(),
        old(state).preprocessed_channels matches Some(c) ==> forall|j: int|
            0 <= j < c.plates.len() ==> (#[trigger] c.plates@[j]).wf(),
    ensures
        old(state).image_path is None ==> (r matches Err(e) && e is NoImageSelected
            && *final(state) == *old(state)),
        old(state).image_path is Some ==> ({
            &&& is_pipeline_result(r, *source, settings, spec_session_cache(*old(state)))
            &&& final(state).process_settings matches Some(s) && s == settings
            &&& final(state).image_path == old(state).image_path
            &&& final(state).image_type == old(state).image_type
            &&& final(state).image_name == old(state).image_name
            &&& final(state).current_image == old(state).current_image
            &&& final(state).processed_images == old(state).processed_images
            &&& final(state).processing_status == old(state).processing_status
            &&& final(state).preprocessed_channels == old(state).preprocessed_channels
        }),
{
    if state.image_path.is_none() {
        return Err(Error::NoImageSelected);
    }
    let cached: Option<&Vec<GrayRaster>> = match (&state.preprocessed_channels, &state.image_path) {
        (Some(c), Some(p)) => {
            if c.image.eq(p) {
                Some(&c.plates)
            } else {
                None
            }
        },
        _ => None,
    };
    let r = process_image(source, &settings, cached);
    state.process_settings = Some(settings);
    r
}

/// Clones a list of produced artifacts, field by field.
fn clone_results(v: &Vec<ProcessResult>) -> (r: Vec<ProcessResult>)
    ensures
        r@.len() == v@.len(),
        forall|i: int|
            0 <= i < v@.len() ==> (#[trigger] r@[i]).channel == v@[i].channel
                && r@[i].image_path == v@[i].image_path,
{
    let mut out: Vec<ProcessResult> = Vec::new();
    let n = v.len();
    let mut i: usize = 0;
    while i < n
        invariant
            n == v.len(),
            i <= n,
            out.len() == i,
            forall|j: int|
                0 <= j < i ==> (#[trigger] out@[j]).channel == v@[j].channel
                    && out@[j].image_path == v@[j].image_path,
        decreases n - i,
    {
        out.push(ProcessResult {
            channel: v[i].channel.clone(),
            image_path: v[i].image_path.clone(),
        });
        i += 1;
    }
    out
}

/// Records the saved artifacts of a finished request on the session and
/// builds the response the host shell shows: the artifacts plus the
/// identity of the image under work, with absent identity fields shown
/// empty.
pub fn complete_response(state: &mut AppStateInner, results: Vec<ProcessResult>) -> (r:
    AppResponse)
    ensures
        final(state).processed_images matches Some(v) && v == results,
        final(state).image_path == old(state).image_path,
        final(state).image_type == old(state).image_type,
        final(state).image_name == old(state).image_name,
        final(state).current_image == old(state).current_image,
        final(state).process_settings == old(state).process_settings,
        final(state).processing_status == old(state).processing_status,
        final(state).preprocessed_channels == old(state).preprocessed_channels,
        r.processed_images matches Some(v) && v@.len() == results@.len() && forall|i: int|
            0 <= i < results@.len() ==> (#[trigger] v@[i]).channel == results@[i].channel
                && v@[i].image_path == results@[i].image_path,
        r.image_path@ == (match old(state).image_path {
            Some(p) => p@,
            None => Seq::<char>::empty(),
        }),
        r.image_type@ == (match old(state).image_type {
            Some(t) => t@,
            None => Seq::<char>::empty(),
        }),
        r.image_name@ == (match old(state).image_name {
            Some(n) => n@,
            None => Seq::<char>::empty(),
        }),
        r.processing_status == old(state).processing_status,
{
    let copy = clone_results(&results);
    let image_path = match &state.image_path {
        Some(p) => p.clone(),
        None => String::new(),
    };
    let image_type = match &state.image_type {
        Some(t) => t.clone(),
        None => String::new(),
    };
    let image_name = match &state.image_name {
        Some(n) => n.clone(),
        None => String::new(),
    };
    let processing_status = state.processing_status;
    state.processed_images = Some(results);
    AppResponse {
        processed_images: Some(copy),
        image_path,
        image_type,
        image_name,
        processing_status,
    }
}

} // verus!
