//! Builds the URLs the server hands out in documents and links.

use vstd::prelude::*;
use crate::config::Config;
use crate::strutil::{spec_starts_with, spec_trim_end_char, starts_with, trim_end_char};

verus! {

/// The base URL that every generated link starts from.
#[derive(Debug, Clone, PartialEq, Eq)]
pub struct ServerConfig {
    /// The base URL, such as `http://127.0.0.1:3000/v1`.
    pub base_url: String,
}

/// The URL for `path` under `base`: an already absolute path is kept as it
/// is; otherwise trailing slashes of the base and one leading slash of the
/// path give way to a single joining slash.
pub open spec fn spec_href(base: Seq<char>, path: Seq<char>) -> Seq<char> {
    if spec_starts_with(path, "http://"@) || spec_starts_with(path, "https://"@) {
        path
    } else {
        let clean = if path.len() > 0 && path[0] == '/' {
            path.skip(1)
        } else {
            path
        };
        spec_trim_end_char(base, '/') + seq!['/'] + clean
    }
}

impl ServerConfig {
    /// The default base URL for a local server.
    pub fn default() -> (r: ServerConfig)
        ensures
            r.base_url@ == "http://127.0.0.1:3000"@,
    {
        ServerConfig { base_url: "http://127.0.0.1:3000".to_owned() }
    }

    /// The base URL the given configuration asks for.
    pub fn from_config(config: &Config) -> (r: ServerConfig)
        ensures
            r.base_url@ == config.spec_base_url(),
    {
        ServerConfig { base_url: config.base_url() }
    }

    /// A full URL for `path` under the base URL.
    pub fn href(&self, path: &str) -> (r: String)
        ensures
            r@ == spec_href(self.base_url@, path@),
    {
        if starts_with(path, "http://") || starts_with(path, "https://") {
            path.to_owned()
        } else {
            let len: usize = path.unicode_len();
            let clean: &str = if len > 0 && path.get_char(0) == '/' {
                let c = path.substring_char(1, len);
                proof {
                    assert(c@ =~= path@.skip(1));
                }
                c
            } else {
                path
            };
            let mut out = trim_end_char(self.base_url.as_str(), '/');
            out.append("/");
            out.append(clean);
            proof {
                reveal_strlit("/");
                assert("/"@ =~= seq!['/']);
                assert((spec_trim_end_char(self.base_url@, '/') + "/"@) + clean@ =~= spec_href(
                    self.base_url@,
                    path@,
                ));
            }
            out
        }
    }

    /// The URL of the root document.
    pub fn root_href(&self) -> (r: String)
        ensures
            r@ == self.base_url@,
    {
        self.base_url.clone()
    }

    /// The URL of the conformance document.
    pub fn conformance_href(&self) -> (r: String)
        ensures
            r@ == spec_href(self.base_url@, "conformance"@),
    {
        self.href("conformance")
    }

    /// The URL of the groupings listing.
    pub fn collections_href(&self) -> (r: String)
        ensures
            r@ == spec_href(self.base_url@, "collections"@),
    {
        self.href("collections")
    }

    /// The URL of one grouping.
    pub fn collection_href(&self, collection_id: &str) -> (r: String)
        ensures
            r@ == spec_href(self.base_url@, "collections/"@ + collection_id@),
    {
        let mut path = "collections/".to_owned();
        path.append(collection_id);
        self.href(path.as_str())
    }

    /// The URL of a grouping's entry listing.
    pub fn collection_items_href(&self, collection_id: &str) -> (r: String)
        ensures
            r@ == spec_href(self.base_url@, "collections/"@ + collection_id@ + "/items"@),
    {
        let mut path = "collections/".to_owned();
        path.append(collection_id);
        path.append("/items");
        self.href(path.as_str())
    }

    /// The URL of one entry.
    pub fn item_href(&self, collection_id: &str, item_id: &str) -> (r: String)
        ensures
            r@ == spec_href(
                self.base_url@,
                "collections/"@ + collection_id@ + "/items/"@ + item_id@,
            ),
    {
        let mut path = "collections/".to_owned();
        path.append(collection_id);
        path.append("/items/");
        path.append(item_id);
        self.href(path.as_str())
    }

    /// The URL an asset is served under: the entry's route followed by the
    /// asset key, which is also the served filename.
    pub fn asset_href(&self, collection_id: &str, item_id: &str, asset_key: &str) -> (r: String)
        ensures
            r@ == spec_href(
                self.base_url@,
                "collections/"@ + collection_id@ + "/items/"@ + item_id@ + "/"@ + asset_key@,
            ),
    {
        let mut path = "collections/".to_owned();
        path.append(collection_id);
        path.append("/items/");
        path.append(item_id);
        path.append("/");
        path.append(asset_key);
        self.href(path.as_str())
    }

    /// The URL of the machine-readable API description.
    pub fn api_href(&self) -> (r: String)
        ensures
            r@ == spec_href(self.base_url@, "api"@),
    {
        self.href("api")
    }

    /// The URL of the human-readable API description.
    pub fn api_html_href(&self) -> (r: String)
        ensures
            r@ == spec_href(self.base_url@, "api.html"@),
    {
        self.href("api.html")
    }

    /// The URL of the search endpoint.
    pub fn search_href(&self) -> (r: String)
        ensures
            r@ == spec_href(self.base_url@, "search"@),
    {
        self.href("search")
    }
}

} // verus!
