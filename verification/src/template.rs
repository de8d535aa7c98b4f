//! A plain HTML page made of a title and lines of body text.
use vstd::prelude::*;
use vstd::string::*;

use crate::text::{join_strings, join_with, replace_all, replace_str, string_views};

verus! {

/// The page that [`HtmlTemplate::build`] fills in: `{{title}}` and
/// `{{body}}` mark where the title and the body go.
pub const BASE_HTML: &'static str = "<!DOCTYPE html>\n<html>\n<head>\n<meta charset=\"utf-8\">\n<title>{{title}}</title>\n</head>\n<body>\n{{body}}\n</body>\n</html>\n";

/// An HTML page being put together.
pub struct HtmlTemplate {
    title: String,
    body: Vec<String>,
}

impl View for HtmlTemplate {
    /// The title and the body lines.
    type V = (Seq<char>, Seq<Seq<char>>);

    closed spec fn view(&self) -> (Seq<char>, Seq<Seq<char>>) {
        (self.title@, string_views(self.body@))
    }
}

/// The page with title `title` and body lines `body`: the base page with
/// every `{{title}}` replaced by the title, then every `{{body}}` by the
/// lines joined with newlines.
pub open spec fn spec_build(title: Seq<char>, body: Seq<Seq<char>>) -> Seq<char> {
    replace_all(
        replace_all(BASE_HTML@, "{{title}}"@, title),
        "{{body}}"@,
        join_with(body, "\n"@),
    )
}

impl Default for HtmlTemplate {
    /// A page with an empty title and no body lines.
    fn default() -> (res: Self)
        ensures
            res@ == (Seq::<char>::empty(), Seq::<Seq<char>>::empty()),
    {
        let res = HtmlTemplate { title: String::new(), body: Vec::new() };
        assert(string_views(res.body@) =~= Seq::<Seq<char>>::empty());
        res
    }
}

impl HtmlTemplate {
    /// A page with an empty title and no body lines.
    pub fn new() -> (res: Self)
        ensures
            res@ == (Seq::<char>::empty(), Seq::<Seq<char>>::empty()),
    {
        Self::default()
    }

    /// The page with one more body line, the displayed text of `s`.
    pub fn body_line<T: core::fmt::Display>(self, s: T) -> (res: Self)
        ensures
            res@.0 == self@.0,
            res@.1.len() == self@.1.len() + 1,
            res@.1.take(self@.1.len() as int) == self@.1,
            exists|line: String|
                to_string_from_display_ensures::<T>(&s, line) && res@.1.last() == line@,
    {
        let mut res = self;
        let ghost before = string_views(res.body@);
        let line = s.to_string();
        res.body.push(line);
        assert(string_views(res.body@) =~= before.push(line@));
        assert(string_views(res.body@).take(before.len() as int) =~= before);
        res
    }

    /// The finished page.
    pub fn build(self) -> (res: String)
        ensures
            res@ == spec_build(self@.0, self@.1),
    {
        let body = join_strings(&self.body, "\n");
        proof {
            reveal_strlit("{{title}}");
            reveal_strlit("{{body}}");
        }
        let page = replace_str(BASE_HTML, "{{title}}", self.title.as_str());
        replace_str(page.as_str(), "{{body}}", body.as_str())
    }
}

} // verus!
