use vstd::prelude::*;

use crate::sorting::Dim;
use crate::ImageData;

verus! {

/// Message sent by the canvas when the widget learns its size.
#[derive(Debug, Clone)]
pub enum PixelCanvasMessage {
    CanvasSized(Dim),
}

/// What a canvas draws: the pixel buffer to show, if one is loaded, and
/// whether this canvas reports size changes (only the main image does, so
/// that thumbnails do not flood the queue).
pub struct PixelCanvas<'a> {
    pub image_data: Option<&'a ImageData>,
    pub send_resize_messages: bool,
}

impl<'a> PixelCanvas<'a> {
    pub fn new(image_data: Option<&'a ImageData>, send_resize_messages: bool) -> (r: Self)
        ensures
            r.send_resize_messages == send_resize_messages,
            image_data is Some ==> (r.image_data matches Some(d) && d == image_data.unwrap()),
            image_data is None ==> r.image_data is None,
    {
        Self { image_data, send_resize_messages }
    }
}

} // verus!
