//! The pages of the web interface: which page a path asks for, and how a
//! page template is filled in.

use vstd::prelude::*;

verus! {

/// The three pages.
#[derive(Clone, Copy, Debug, PartialEq, Eq, Structural)]
pub enum Asset {
    Html,
    Css,
    Js,
}

/// The page that a path asks for.
pub open spec fn asset_of(path: Seq<char>) -> Option<Asset> {
    if path == "/"@ || path == "/index.html"@ {
        Some(Asset::Html)
    } else if path == "/style.css"@ {
        Some(Asset::Css)
    } else if path == "/app.js"@ {
        Some(Asset::Js)
    } else {
        None
    }
}

/// The media type of a page.
pub open spec fn mime_of(asset: Asset) -> Seq<char> {
    match asset {
        Asset::Html => "text/html"@,
        Asset::Css => "text/css"@,
        Asset::Js => "application/javascript"@,
    }
}

/// `text` with every occurrence of `from` replaced by `to`. Occurrences are
/// found from the left and do not overlap.
pub open spec fn substituted(text: Seq<char>, from: Seq<char>, to: Seq<char>) -> Seq<char>
    decreases text.len(),
{
    if from.len() == 0 || text.len() < from.len() {
        text
    } else if text.subrange(0, from.len() as int) == from {
        to + substituted(text.skip(from.len() as int), from, to)
    } else {
        seq![text[0]] + substituted(text.skip(1), from, to)
    }
}

/// The page as it is sent: the style sheet and the script have the color
/// put in where the template names it, the document is sent as it is.
pub open spec fn rendered(asset: Asset, template: Seq<char>, color: Seq<char>) -> Seq<char> {
    match asset {
        Asset::Html => template,
        Asset::Css => substituted(template, "TEMPLATE_COLOR"@, color),
        Asset::Js => substituted(template, "TEMPLATE_COLOR"@, color),
    }
}

/// `str::replace` of the standard library, for a pattern that is not
/// empty. The contract claims what its documentation says: all matches of
/// the pattern are replaced, the matches being found from the left and not
/// overlapping.
#[verifier::external_body]
fn replace_all(text: &str, from: &str, to: &str) -> (r: String)
    requires
        from@.len() > 0,
    ensures
        r@ == substituted(text@, from@, to@),
{
    text.replace(from, to)
}

/// The pages of the web interface, in the color of the service.
#[derive(Debug)]
pub struct Assets {
    color: String,
}

impl Assets {
    /// The color that the pages are shown in.
    pub closed spec fn color(&self) -> Seq<char> {
        self.color@
    }

    /// The pages in this color.
    pub fn new(color: String) -> (a: Assets)
        ensures
            a.color() == color@,
    {
        Assets { color }
    }

    /// The page that a path asks for.
    pub fn asset_for_path(&self, path: &String) -> (r: Option<Asset>)
        ensures
            r == asset_of(path@),
    {
        if *path == "/".to_owned() || *path == "/index.html".to_owned() {
            Some(Asset::Html)
        } else if *path == "/style.css".to_owned() {
            Some(Asset::Css)
        } else if *path == "/app.js".to_owned() {
            Some(Asset::Js)
        } else {
            None
        }
    }

    /// The document, as it is sent, and its media type.
    pub fn html(&self, template: &str) -> (r: (String, &'static str))
        ensures
            r.0@ == rendered(Asset::Html, template@, self.color()),
            r.1@ == mime_of(Asset::Html),
    {
        (template.to_owned(), "text/html")
    }

    /// The style sheet, as it is sent, and its media type.
    pub fn css(&self, template: &str) -> (r: (String, &'static str))
        ensures
            r.0@ == rendered(Asset::Css, template@, self.color()),
            r.1@ == mime_of(Asset::Css),
    {
        proof {
            reveal_strlit("TEMPLATE_COLOR");
        }
        (replace_all(template, "TEMPLATE_COLOR", self.color.as_str()), "text/css")
    }

    /// The script, as it is sent, and its media type.
    pub fn js(&self, template: &str) -> (r: (String, &'static str))
        ensures
            r.0@ == rendered(Asset::Js, template@, self.color()),
            r.1@ == mime_of(Asset::Js),
    {
        proof {
            reveal_strlit("TEMPLATE_COLOR");
        }
        (replace_all(template, "TEMPLATE_COLOR", self.color.as_str()), "application/javascript")
    }

    /// The page of the given kind, as it is sent, and its media type.
    pub fn render(&self, asset: Asset, template: &str) -> (r: (String, &'static str))
        ensures
            r.0@ == rendered(asset, template@, self.color()),
            r.1@ == mime_of(asset),
    {
        match asset {
            Asset::Html => self.html(template),
            Asset::Css => self.css(template),
            Asset::Js => self.js(template),
        }
    }
}

} // verus!
