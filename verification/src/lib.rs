//! Core of an image browser and tagger: a sliding-window prefetch engine
//! that keeps a bounded set of decoded images resident around the user's
//! position in an ordered file list, together with the registry of the
//! cancellable decode tasks, the tagging model and the settings form.
//! Everything here is pure control logic; directory listing, image decoding
//! and rendering are collaborators that call in from outside.
use vstd::prelude::*;
use vstd::string::StringExecFns;

pub mod image_widget;
pub mod numtext;
pub mod pathlist;
pub mod reconcile;
pub mod settings;
pub mod sorting;
pub mod task_manager;

use crate::sorting::Tag;

verus! {

/// Upper bound on the number of decode tasks that may be in flight at once.
pub const PRELOAD_IN_FLIGHT: usize = 8;

/// Session configuration for the prefetch window and decode target sizes.
#[derive(Debug, Clone, Copy)]
pub struct Config {
    pub preload_back_num: usize,
    pub preload_front_num: usize,
    pub scale_down_size: (u32, u32),
}

/// A decoded pixel buffer: RGBA bytes, row-major.
#[derive(Debug, Clone)]
pub struct ImageData {
    pub width: u32,
    pub height: u32,
    pub data: Vec<u8>,
}

/// A full-size decoded image together with its thumbnail.
#[derive(Debug, Clone)]
pub struct LoadedImageAndThumb {
    pub image: ImageData,
    pub thumb: ImageData,
}

/// Load state of one entry of the list. Exactly one variant holds at any time.
/// `Failed` records a decode error; a failed entry is never retried and no
/// longer counts against the in-flight budget.
#[derive(Debug)]
pub enum PreloadImage {
    Loading(String),
    Loaded(LoadedImageAndThumb),
    NotLoading,
    Failed,
}

/// Per-entry user metadata, independent of the load state.
#[derive(Debug, Clone, Copy)]
pub struct Metadata {
    pub tag: Option<Tag>,
}

/// One file of the ordered list: its path, its load state and its metadata.
#[derive(Debug)]
pub struct ImageInfo {
    pub path: String,
    pub data: PreloadImage,
    pub metadata: Metadata,
}

/// The tabs of the surrounding application.
#[derive(PartialEq, Eq, Structural, Debug, Clone, Copy)]
pub enum TabId {
    Main,
    Actions,
    Settings,
}

#[derive(Debug, Clone, PartialEq, Eq, Structural)]
pub enum SortingViewStyle {
    NoThumbnails,
    ThumbsAbove,
}

impl SortingViewStyle {
    pub fn display_name(&self) -> (r: &'static str)
        ensures
            self is NoThumbnails ==> r@ == "No Thumbnails"@,
            self is ThumbsAbove ==> r@ == "Thumbnails Above"@,
    {
        match self {
            SortingViewStyle::NoThumbnails => "No Thumbnails",
            SortingViewStyle::ThumbsAbove => "Thumbnails Above",
        }
    }

    pub fn all_variants() -> (r: Vec<SortingViewStyle>)
        ensures
            r@.len() == 2,
            r@[0] is NoThumbnails,
            r@[1] is ThumbsAbove,
    {
        let mut v: Vec<SortingViewStyle> = Vec::new();
        v.push(SortingViewStyle::NoThumbnails);
        v.push(SortingViewStyle::ThumbsAbove);
        v
    }

    pub fn from_display_name(name: &str) -> (r: Option<SortingViewStyle>)
        ensures
            name@ == "No Thumbnails"@ ==> r == Some(SortingViewStyle::NoThumbnails),
            name@ == "Thumbnails Above"@ ==> r == Some(SortingViewStyle::ThumbsAbove),
            name@ != "No Thumbnails"@ && name@ != "Thumbnails Above"@ ==> r is None,
    {
        proof {
            reveal_strlit("No Thumbnails");
            reveal_strlit("Thumbnails Above");
            assert("No Thumbnails"@.len() == 13);
            assert("Thumbnails Above"@.len() == 16);
        }
        let owned: String = name.to_owned();
        if owned == String::from_str("No Thumbnails") {
            Some(SortingViewStyle::NoThumbnails)
        } else if owned == String::from_str("Thumbnails Above") {
            Some(SortingViewStyle::ThumbsAbove)
        } else {
            None
        }
    }
}

} // verus!
