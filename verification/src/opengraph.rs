//! The Open Graph description of a stored file, which link previews show.
use vstd::prelude::*;
use vstd::string::*;

use crate::media::MimeType;

verus! {

/// What a stored file is, for a link preview.
#[derive(Debug)]
pub enum Content {
    Audio(Audio),
    Video(Video),
    Image(Image),
    Unknown,
}

/// A sound file.
#[derive(Debug)]
pub struct Audio {
    pub url: String,
    pub mime_type: String,
    pub duration_secs: u16,
    pub album: Option<String>,
    pub musician: String,
}

/// A video file.
#[derive(Debug)]
pub struct Video {
    pub url: String,
    pub mime_type: String,
}

/// An image shown in a preview.
#[derive(Debug)]
pub struct Image {
    pub url: String,
    pub mime_type: String,
    pub alt: String,
}

impl Image {
    /// The image at `url` with the alternative text `alt`, of the media type
    /// `mime_type`.
    pub fn new(url: &str, alt: &str, mime_type: &MimeType) -> (res: Image)
        ensures
            res.url@ == url@,
            res.alt@ == alt@,
            res.mime_type@ == mime_type.text@,
    {
        Image {
            url: String::from_str(url),
            alt: String::from_str(alt),
            mime_type: mime_type.text.clone(),
        }
    }
}

} // verus!
