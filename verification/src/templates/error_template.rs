//! The error page, filled in without a template engine so that it cannot
//! itself fail to render.
use vstd::prelude::*;
use vstd::string::*;

use crate::text::{replace_all, replace_str};

verus! {

/// The error page: `{{name}}` and `{{text}}` mark where the error's name and
/// its message go.
pub const TEMPLATE: &'static str = "<!DOCTYPE html>\n<html>\n<head>\n<meta charset=\"utf-8\">\n<title>{{name}}</title>\n</head>\n<body>\n<h1>{{name}}</h1>\n<p>{{text}}</p>\n</body>\n</html>\n";

/// An error to be shown as a page.
pub struct ErrorTemplate {
    pub name: String,
    pub text: String,
}

/// The error page for `name` and `text`: the template with every
/// `{{name}}` replaced by the name, then every `{{text}}` by the text.
pub open spec fn spec_render_error(name: Seq<char>, text: Seq<char>) -> Seq<char> {
    replace_all(replace_all(TEMPLATE@, "{{name}}"@, name), "{{text}}"@, text)
}

impl ErrorTemplate {
    /// The error page.
    pub fn render(self) -> (res: String)
        ensures
            res@ == spec_render_error(self.name@, self.text@),
    {
        proof {
            reveal_strlit("{{name}}");
            reveal_strlit("{{text}}");
        }
        let page = replace_str(TEMPLATE, "{{name}}", self.name.as_str());
        replace_str(page.as_str(), "{{text}}", self.text.as_str())
    }
}

} // verus!
