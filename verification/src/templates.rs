//! Rendering pages: a page that failed to render is replaced by an error page.
use vstd::prelude::*;
use vstd::string::*;

use crate::templates::error_template::{spec_render_error, ErrorTemplate};

pub mod embed_template;
pub mod error_template;

verus! {

/// The text of a page whose rendering gave `rendered`: the page itself, or
/// the error page naming the rendering failure and its message.
pub open spec fn spec_render_safe(rendered: Result<Seq<char>, Seq<char>>) -> Seq<char> {
    match rendered {
        Ok(text) => text,
        Err(message) => spec_render_error("Failed to render askama template"@, message),
    }
}

/// The text of a page whose rendering gave `rendered` (the message of the
/// failure in the error case).
pub fn render_safe(rendered: Result<String, String>) -> (res: String)
    ensures
        res@ == spec_render_safe(
            match rendered {
                Ok(t) => Ok(t@),
                Err(e) => Err(e@),
            },
        ),
{
    match rendered {
        Ok(text) => text,
        Err(message) => ErrorTemplate {
            name: String::from_str("Failed to render askama template"),
            text: message,
        }.render(),
    }
}

/// The status code and body of the response carrying a page whose
/// rendering gave `rendered`: always 200, with the text of [`render_safe`].
pub fn render_response(rendered: Result<String, String>) -> (res: (u16, String))
    ensures
        res.0 == 200,
        res.1@ == spec_render_safe(
            match rendered {
                Ok(t) => Ok(t@),
                Err(e) => Err(e@),
            },
        ),
{
    (200, render_safe(rendered))
}

} // verus!
