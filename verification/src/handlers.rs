//! The decisions behind the request handlers: body validation, media
//! types, asset roles, redirect targets, and the standard links each
//! document carries.

use vstd::prelude::*;
use crate::asset::{Asset, AssetRole};
use crate::link::Link;
use crate::strutil::{
    ascii_lower, contains_sub, spec_ascii_lower, spec_starts_with, spec_trim_end_char,
    starts_with, str_eq, trim_end_char,
};
use crate::urls::{spec_href, ServerConfig};

verus! {

// ---------------------------------------------------------------------------
// Media types and asset roles
// ---------------------------------------------------------------------------
/// The media type served for a filename extension, decided on its
/// lowercased form; anything unknown is a plain octet stream.
pub open spec fn spec_content_type(ext: Seq<char>) -> Seq<char> {
    let l = spec_ascii_lower(ext);
    if l == "jpg"@ || l == "jpeg"@ {
        "image/jpeg"@
    } else if l == "png"@ {
        "image/png"@
    } else if l == "gif"@ {
        "image/gif"@
    } else if l == "webp"@ {
        "image/webp"@
    } else if l == "svg"@ {
        "image/svg+xml"@
    } else if l == "tif"@ || l == "tiff"@ {
        "image/tiff"@
    } else if l == "pdf"@ {
        "application/pdf"@
    } else if l == "json"@ {
        "application/json"@
    } else if l == "xml"@ {
        "application/xml"@
    } else if l == "txt"@ {
        "text/plain"@
    } else if l == "csv"@ {
        "text/csv"@
    } else {
        "application/octet-stream"@
    }
}

/// The media type to serve a file under, from its filename extension.
pub fn content_type_for_extension(ext: &str) -> (r: &'static str)
    ensures
        r@ == spec_content_type(ext@),
{
    let l = ascii_lower(ext);
    let ls = l.as_str();
    if str_eq(ls, "jpg") || str_eq(ls, "jpeg") {
        "image/jpeg"
    } else if str_eq(ls, "png") {
        "image/png"
    } else if str_eq(ls, "gif") {
        "image/gif"
    } else if str_eq(ls, "webp") {
        "image/webp"
    } else if str_eq(ls, "svg") {
        "image/svg+xml"
    } else if str_eq(ls, "tif") || str_eq(ls, "tiff") {
        "image/tiff"
    } else if str_eq(ls, "pdf") {
        "application/pdf"
    } else if str_eq(ls, "json") {
        "application/json"
    } else if str_eq(ls, "xml") {
        "application/xml"
    } else if str_eq(ls, "txt") {
        "text/plain"
    } else if str_eq(ls, "csv") {
        "text/csv"
    } else {
        "application/octet-stream"
    }
}

/// The role an uploaded asset gets: the key `thumbnail` names a thumbnail;
/// an image media type is an overview; everything else is data.
pub open spec fn spec_uploaded_role(key: Seq<char>, content_type: Seq<char>) -> AssetRole {
    if key == "thumbnail"@ {
        AssetRole::Thumbnail
    } else if spec_starts_with(content_type, "image/"@) {
        AssetRole::Overview
    } else {
        AssetRole::Data
    }
}

/// The record stored for an uploaded asset: its serving URL, the uploaded
/// media type, the filename as title, a standard description, and the role
/// its key and media type decide.
pub fn uploaded_asset(href: String, content_type: String, filename: String, asset_key: &str) -> (r:
    Asset)
    ensures
        r.href == href,
        r.media_type == Some(content_type),
        r.title == Some(filename),
        r.description is Some,
        r.description->Some_0@ == "Uploaded asset: "@ + filename@,
        r.roles is Some,
        r.roles->Some_0@ == seq![spec_uploaded_role(asset_key@, content_type@)],
{
    // The tagged image formats and everything else both store as data; the
    // two arms mirror how the media types group.
    let role = if str_eq(asset_key, "thumbnail") {
        AssetRole::Thumbnail
    } else if starts_with(content_type.as_str(), "image/") {
        AssetRole::Overview
    } else if contains_sub(content_type.as_str(), "geotiff") || contains_sub(
        content_type.as_str(),
        "tiff",
    ) {
        AssetRole::Data
    } else {
        AssetRole::Data
    };
    let mut roles: Vec<AssetRole> = Vec::new();
    roles.push(role);
    let mut description = "Uploaded asset: ".to_owned();
    description.append(filename.as_str());
    proof {
        assert(roles@ =~= seq![spec_uploaded_role(asset_key@, content_type@)]);
    }
    Asset {
        href,
        title: Some(filename),
        description: Some(description),
        media_type: Some(content_type),
        roles: Some(roles),
    }
}

// ---------------------------------------------------------------------------
// Body validation
// ---------------------------------------------------------------------------
/// Why a request body was rejected against its path.
#[derive(Debug, Clone, PartialEq, Eq)]
pub enum BodyMismatch {
    /// The entry identifier in the body differs from the path.
    ItemId,
    /// The grouping identifier in the body differs from the path.
    CollectionId,
}

/// The message a body mismatch reports.
pub fn mismatch_message(e: &BodyMismatch) -> (r: &'static str)
    ensures
        e is ItemId ==> r@ == "Item ID in request body does not match path parameter"@,
        e is CollectionId ==> r@ == "Collection ID in request body does not match path parameter"@,
{
    match e {
        BodyMismatch::ItemId => "Item ID in request body does not match path parameter",
        BodyMismatch::CollectionId => "Collection ID in request body does not match path parameter",
    }
}

/// Checks an entry body against its path: the body's identifier must read
/// as the path's, and its grouping must name the path's grouping.
pub fn validate_item_body(
    body_item_id: &str,
    body_collection: &Option<String>,
    path_collection_id: &str,
    path_item_id: &str,
) -> (r: Result<(), BodyMismatch>)
    ensures
        body_item_id@ != path_item_id@ ==> r == Err::<(), BodyMismatch>(BodyMismatch::ItemId),
        body_item_id@ == path_item_id@ && !(body_collection matches Some(c) && c@
            == path_collection_id@) ==> r == Err::<(), BodyMismatch>(BodyMismatch::CollectionId),
        body_item_id@ == path_item_id@ && (body_collection matches Some(c) && c@
            == path_collection_id@) ==> r is Ok,
{
    if !str_eq(body_item_id, path_item_id) {
        return Err(BodyMismatch::ItemId);
    }
    match body_collection {
        Some(c) => {
            if !str_eq(c.as_str(), path_collection_id) {
                return Err(BodyMismatch::CollectionId);
            }
        },
        None => {
            return Err(BodyMismatch::CollectionId);
        },
    }
    Ok(())
}

/// Checks a grouping body against its path: the identifiers must read the
/// same.
pub fn validate_collection_body(body_id: &str, path_id: &str) -> (r: Result<(), BodyMismatch>)
    ensures
        (r is Ok) <==> body_id@ == path_id@,
        r is Err ==> r->Err_0 == BodyMismatch::CollectionId,
{
    if str_eq(body_id, path_id) {
        Ok(())
    } else {
        Err(BodyMismatch::CollectionId)
    }
}

/// The first missing required field of a grouping body, if any: `id`,
/// `description` and `license` are required, in that order.
pub fn missing_collection_field(has_id: bool, has_description: bool, has_license: bool) -> (r:
    Option<&'static str>)
    ensures
        !has_id ==> (r matches Some(f) && f@ == "id"@),
        has_id && !has_description ==> (r matches Some(f) && f@ == "description"@),
        has_id && has_description && !has_license ==> (r matches Some(f) && f@ == "license"@),
        has_id && has_description && has_license ==> r is None,
{
    if !has_id {
        Some("id")
    } else if !has_description {
        Some("description")
    } else if !has_license {
        Some("license")
    } else {
        None
    }
}

/// The first missing required field of an entry body, if any: `id`,
/// `geometry`, `properties` and `assets` are required, in that order.
pub fn missing_item_field(
    has_id: bool,
    has_geometry: bool,
    has_properties: bool,
    has_assets: bool,
) -> (r: Option<&'static str>)
    ensures
        !has_id ==> (r matches Some(f) && f@ == "id"@),
        has_id && !has_geometry ==> (r matches Some(f) && f@ == "geometry"@),
        has_id && has_geometry && !has_properties ==> (r matches Some(f) && f@ == "properties"@),
        has_id && has_geometry && has_properties && !has_assets ==> (r matches Some(f) && f@
            == "assets"@),
        has_id && has_geometry && has_properties && has_assets ==> r is None,
{
    if !has_id {
        Some("id")
    } else if !has_geometry {
        Some("geometry")
    } else if !has_properties {
        Some("properties")
    } else if !has_assets {
        Some("assets")
    } else {
        None
    }
}

// ---------------------------------------------------------------------------
// Keyed lookups and deletes
// ---------------------------------------------------------------------------
/// What a keyed store lookup reported, reduced to what the handler needs.
#[derive(Debug, Clone, PartialEq, Eq)]
pub enum StoreLookup {
    /// The record exists.
    Found,
    /// No record under that key.
    NotFound,
    /// The store failed.
    StoreError,
}

/// How a handler answers an existence check before acting.
#[derive(Debug, Clone, PartialEq, Eq)]
pub enum Precheck {
    /// The record exists; act on it.
    Proceed,
    /// Answer that the record was not found.
    RespondNotFound,
    /// Answer that the store failed.
    RespondStoreError,
}

/// Decides how to act on an existence check: only a found record is acted
/// on; a missing one is not found, and a store failure is a server error.
pub fn delete_precheck(lookup: &StoreLookup) -> (r: Precheck)
    ensures
        lookup is Found <==> r is Proceed,
        lookup is NotFound <==> r is RespondNotFound,
        lookup is StoreError <==> r is RespondStoreError,
{
    match lookup {
        StoreLookup::Found => Precheck::Proceed,
        StoreLookup::NotFound => Precheck::RespondNotFound,
        StoreLookup::StoreError => Precheck::RespondStoreError,
    }
}

/// What follows a grouping delete: on success the delete has already been
/// answered successful and a cleanup job for the grouping's whole asset
/// tree is enqueued; on failure the store error is answered and nothing is
/// enqueued.
pub fn collection_delete_followup(collection_id: String, delete_ok: bool) -> (r: Option<
    crate::cleanup::CleanupJob,
>)
    ensures
        delete_ok ==> (r matches Some(job) && job.collection_id == collection_id && job.item_id
            is None && job.kind == crate::cleanup::CleanupKind::Collection),
        !delete_ok ==> r is None,
{
    if delete_ok {
        Some(
            crate::cleanup::CleanupJob {
                collection_id,
                item_id: None,
                kind: crate::cleanup::CleanupKind::Collection,
            },
        )
    } else {
        None
    }
}

/// What follows an entry delete: on success a cleanup job for the entry's
/// asset directory is enqueued; on failure nothing is.
pub fn item_delete_followup(collection_id: String, item_id: String, delete_ok: bool) -> (r: Option<
    crate::cleanup::CleanupJob,
>)
    ensures
        delete_ok ==> (r matches Some(job) && job.collection_id == collection_id && job.item_id
            == Some(item_id) && job.kind == crate::cleanup::CleanupKind::Item),
        !delete_ok ==> r is None,
{
    if delete_ok {
        Some(
            crate::cleanup::CleanupJob {
                collection_id,
                item_id: Some(item_id),
                kind: crate::cleanup::CleanupKind::Item,
            },
        )
    } else {
        None
    }
}

// ---------------------------------------------------------------------------
// Trailing slash redirects
// ---------------------------------------------------------------------------
/// Where a request path redirects: only a GET of a path that ends in a
/// slash and is not the bare root moves, to the path with its trailing
/// slashes removed and the query string kept.
pub open spec fn spec_redirect_target(
    path: Seq<char>,
    query: Option<Seq<char>>,
    is_get: bool,
) -> Option<Seq<char>> {
    if is_get && path.len() > 0 && path[path.len() - 1] == '/' && path != "/"@ {
        let base = spec_trim_end_char(path, '/');
        Some(
            match query {
                Some(q) => base + seq!['?'] + q,
                None => base,
            },
        )
    } else {
        None
    }
}

/// The redirect a request gets, if any.
pub fn redirect_target(path: &str, query: Option<&str>, is_get: bool) -> (r: Option<String>)
    ensures
        (r is Some) <==> (spec_redirect_target(path@, (match query {
            Some(q) => Some(q@),
            None => None,
        }), is_get) is Some),
        r is Some ==> r->Some_0@ == spec_redirect_target(path@, (match query {
            Some(q) => Some(q@),
            None => None,
        }), is_get)->Some_0,
{
    if !is_get {
        return None;
    }
    let len: usize = path.unicode_len();
    if len == 0 {
        return None;
    }
    if path.get_char(len - 1) != '/' {
        return None;
    }
    proof {
        reveal_strlit("/");
    }
    if str_eq(path, "/") {
        return None;
    }
    let mut out = trim_end_char(path, '/');
    match query {
        Some(q) => {
            out.append("?");
            out.append(q);
            proof {
                reveal_strlit("?");
                assert("?"@ =~= seq!['?']);
                assert((spec_trim_end_char(path@, '/') + "?"@) + q@ =~= spec_trim_end_char(
                    path@,
                    '/',
                ) + seq!['?'] + q@);
            }
            Some(out)
        },
        None => Some(out),
    }
}

// ---------------------------------------------------------------------------
// Standard document links
// ---------------------------------------------------------------------------
/// The standard links an entry document carries: root, self, collection
/// and parent.
pub fn item_links(sc: &ServerConfig, collection_id: &str, item_id: &str) -> (r: Vec<Link>)
    ensures
        r@.len() == 4,
        r@[0].href@ == sc.base_url@ && r@[0].rel@ == "root"@,
        r@[1].href@ == spec_href(
            sc.base_url@,
            "collections/"@ + collection_id@ + "/items/"@ + item_id@,
        ) && r@[1].rel@ == "self"@,
        r@[2].href@ == spec_href(sc.base_url@, "collections/"@ + collection_id@) && r@[2].rel@
            == "collection"@,
        r@[3].href@ == spec_href(sc.base_url@, "collections/"@ + collection_id@) && r@[3].rel@
            == "parent"@,
{
    let mut links: Vec<Link> = Vec::new();
    links.push(
        Link::simple(
            sc.root_href(),
            "root".to_owned(),
            "application/json".to_owned(),
            "Root Catalog".to_owned(),
        ),
    );
    links.push(
        Link::simple(
            sc.item_href(collection_id, item_id),
            "self".to_owned(),
            "application/geo+json".to_owned(),
            "This Item".to_owned(),
        ),
    );
    links.push(
        Link::simple(
            sc.collection_href(collection_id),
            "collection".to_owned(),
            "application/json".to_owned(),
            "Collection".to_owned(),
        ),
    );
    links.push(
        Link::simple(
            sc.collection_href(collection_id),
            "parent".to_owned(),
            "application/json".to_owned(),
            "Parent Collection".to_owned(),
        ),
    );
    links
}

/// The standard links a grouping document carries: self, its entry
/// listing, root and parent.
pub fn collection_links(sc: &ServerConfig, collection_id: &str) -> (r: Vec<Link>)
    ensures
        r@.len() == 4,
        r@[0].href@ == spec_href(sc.base_url@, "collections/"@ + collection_id@) && r@[0].rel@
            == "self"@,
        r@[1].href@ == spec_href(sc.base_url@, "collections/"@ + collection_id@ + "/items"@)
            && r@[1].rel@ == "items"@,
        r@[2].href@ == sc.base_url@ && r@[2].rel@ == "root"@,
        r@[3].href@ == sc.base_url@ && r@[3].rel@ == "parent"@,
{
    let mut links: Vec<Link> = Vec::new();
    links.push(
        Link::simple(
            sc.collection_href(collection_id),
            "self".to_owned(),
            "application/json".to_owned(),
            "This Collection".to_owned(),
        ),
    );
    links.push(
        Link::simple(
            sc.collection_items_href(collection_id),
            "items".to_owned(),
            "application/geo+json".to_owned(),
            "Items in this Collection".to_owned(),
        ),
    );
    links.push(
        Link::simple(
            sc.root_href(),
            "root".to_owned(),
            "application/json".to_owned(),
            "Root Catalog".to_owned(),
        ),
    );
    links.push(
        Link::simple(
            sc.root_href(),
            "parent".to_owned(),
            "application/json".to_owned(),
            "Parent Catalog".to_owned(),
        ),
    );
    links
}

/// The links the root catalog document carries: itself, the root, the
/// grouping listing as child and data, the conformance document, search,
/// and the two forms of the API description.
pub fn catalog_links(sc: &ServerConfig) -> (r: Vec<Link>)
    ensures
        r@.len() == 8,
        r@[0].href@ == sc.base_url@ && r@[0].rel@ == "self"@,
        r@[1].href@ == sc.base_url@ && r@[1].rel@ == "root"@,
        r@[2].href@ == spec_href(sc.base_url@, "collections"@) && r@[2].rel@ == "child"@,
        r@[3].href@ == spec_href(sc.base_url@, "conformance"@) && r@[3].rel@ == "conformance"@,
        r@[4].href@ == spec_href(sc.base_url@, "collections"@) && r@[4].rel@ == "data"@,
        r@[5].href@ == spec_href(sc.base_url@, "search"@) && r@[5].rel@ == "search"@,
        r@[6].href@ == spec_href(sc.base_url@, "api"@) && r@[6].rel@ == "service-desc"@,
        r@[7].href@ == spec_href(sc.base_url@, "api.html"@) && r@[7].rel@ == "service-doc"@,
{
    let mut links: Vec<Link> = Vec::new();
    links.push(
        Link::simple(
            sc.root_href(),
            "self".to_owned(),
            "application/json".to_owned(),
            "This Catalog".to_owned(),
        ),
    );
    links.push(
        Link::simple(
            sc.root_href(),
            "root".to_owned(),
            "application/json".to_owned(),
            "Root Catalog".to_owned(),
        ),
    );
    links.push(
        Link::simple(
            sc.collections_href(),
            "child".to_owned(),
            "application/json".to_owned(),
            "Collections".to_owned(),
        ),
    );
    links.push(
        Link::simple(
            sc.conformance_href(),
            "conformance".to_owned(),
            "application/json".to_owned(),
            "Conformance Classes".to_owned(),
        ),
    );
    links.push(
        Link::simple(
            sc.collections_href(),
            "data".to_owned(),
            "application/json".to_owned(),
            "Collections".to_owned(),
        ),
    );
    links.push(
        Link::simple(
            sc.search_href(),
            "search".to_owned(),
            "application/geo+json".to_owned(),
            "Item Search".to_owned(),
        ),
    );
    links.push(
        Link::simple(
            sc.api_href(),
            "service-desc".to_owned(),
            "application/vnd.oai.openapi+json;version=3.0".to_owned(),
            "API Documentation".to_owned(),
        ),
    );
    links.push(
        Link::simple(
            sc.api_html_href(),
            "service-doc".to_owned(),
            "text/html".to_owned(),
            "API Documentation".to_owned(),
        ),
    );
    links
}

// ---------------------------------------------------------------------------
// Store status
// ---------------------------------------------------------------------------
/// Status of the backing store, as a management surface reads it.
#[derive(Debug, Clone, PartialEq, Eq)]
pub struct DatabaseStatus {
    /// How many groupings the store holds.
    pub collections_count: usize,
    /// How many entries the store holds over all groupings.
    pub total_items_count: usize,
    /// Whether the store holds no grouping.
    pub is_empty: bool,
}

/// The sum of the per-grouping entry counts.
pub open spec fn spec_sum(counts: Seq<usize>) -> int
    decreases counts.len(),
{
    if counts.len() == 0 {
        0
    } else {
        spec_sum(counts.drop_last()) + counts.last()
    }
}

/// Builds the store status from the grouping count and the per-grouping
/// entry counts.
pub fn database_status(collections_count: usize, item_counts: &Vec<usize>) -> (r: DatabaseStatus)
    requires
        spec_sum(item_counts@) <= usize::MAX,
    ensures
        r.collections_count == collections_count,
        r.total_items_count == spec_sum(item_counts@),
        r.is_empty == (collections_count == 0),
{
    let n = item_counts.len();
    let mut total: usize = 0;
    let mut i: usize = 0;
    proof {
        assert(item_counts@.take(0) =~= Seq::<usize>::empty());
    }
    while i < n
        invariant
            i <= n,
            n == item_counts@.len(),
            spec_sum(item_counts@) <= usize::MAX,
            total == spec_sum(item_counts@.take(i as int)),
        decreases n - i,
    {
        proof {
            assert(item_counts@.take(i + 1).drop_last() =~= item_counts@.take(i as int));
            assert(item_counts@.take(i + 1).last() == item_counts@[i as int]);
            lemma_sum_prefix(item_counts@, i + 1);
            lemma_sum_nonneg(item_counts@.take(i as int));
        }
        total = total + item_counts[i];
        i = i + 1;
    }
    proof {
        assert(item_counts@.take(n as int) =~= item_counts@);
    }
    DatabaseStatus {
        collections_count,
        total_items_count: total,
        is_empty: collections_count == 0,
    }
}

proof fn lemma_sum_nonneg(counts: Seq<usize>)
    ensures
        spec_sum(counts) >= 0,
    decreases counts.len(),
{
    if counts.len() > 0 {
        lemma_sum_nonneg(counts.drop_last());
    }
}

proof fn lemma_sum_prefix(counts: Seq<usize>, i: int)
    requires
        0 <= i <= counts.len(),
    ensures
        spec_sum(counts.take(i)) <= spec_sum(counts),
    decreases counts.len() - i,
{
    if i < counts.len() {
        lemma_sum_prefix(counts, i + 1);
        assert(counts.take(i + 1).drop_last() =~= counts.take(i));
        assert(spec_sum(counts.take(i + 1)) == spec_sum(counts.take(i)) + counts[i]);
    } else {
        assert(counts.take(i) =~= counts);
    }
}

} // verus!
