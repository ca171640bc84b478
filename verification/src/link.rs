//! Hypermedia links attached to catalog documents.

use vstd::prelude::*;

verus! {

/// A hypermedia link: a target URL, its relationship to the current
/// document, and optional presentation and request details.
#[derive(Debug, Clone, PartialEq, Eq)]
pub struct Link {
    /// The target, as a relative or absolute URL.
    pub href: String,
    /// The relationship between the current document and the target.
    pub rel: String,
    /// The media type of the target.
    pub media_type: Option<String>,
    /// A human-readable title for the link.
    pub title: Option<String>,
    /// The HTTP method for requests to the target, uppercase; GET by default.
    pub method: Option<String>,
    /// HTTP headers to send with requests to the target.
    pub headers: Option<Vec<(String, Vec<String>)>>,
    /// A request body to send to the target, as raw text.
    pub body: Option<String>,
}

impl Link {
    /// A link with the given target, relationship, media type and title and
    /// no request details.
    pub fn simple(href: String, rel: String, media_type: String, title: String) -> (r: Link)
        ensures
            r.href == href,
            r.rel == rel,
            r.media_type == Some(media_type),
            r.title == Some(title),
            r.method is None,
            r.headers is None,
            r.body is None,
    {
        Link {
            href,
            rel,
            media_type: Some(media_type),
            title: Some(title),
            method: None,
            headers: None,
            body: None,
        }
    }
}

} // verus!
