//! Catalog entries: a geometry with its bounding box, timestamped
//! properties, named assets and hyperlinks.

use vstd::prelude::*;
use crate::asset::{Asset, AssetRole};
use crate::geometry::{calculate_bbox_for_geometry, geom_wf, spec_geom_bbox, Geometry};
use crate::link::Link;
use crate::properties::Properties;
use crate::strutil::str_eq;
use crate::time::rfc3339_instant;

verus! {

/// A single spatiotemporal record.
#[derive(Debug, PartialEq, Eq)]
pub struct Item {
    /// The document kind; always `Feature`.
    pub kind: String,
    /// The specification version the entry implements.
    pub stac_version: String,
    /// Extension schemas the entry implements.
    pub stac_extensions: Option<Vec<String>>,
    /// Identifier, unique within the grouping that holds the entry.
    pub id: String,
    /// The footprint of the asset the entry stands for.
    pub geometry: Option<Geometry>,
    /// Bounding box, in millionths of a degree; required when the geometry
    /// is present.
    pub bbox: Option<Vec<i64>>,
    /// The property bag.
    pub properties: Properties,
    /// Links to related resources.
    pub links: Vec<Link>,
    /// Assets under their unique keys, in insertion order.
    pub assets: Vec<(String, Asset)>,
    /// The grouping the entry belongs to.
    pub collection: Option<String>,
}

/// Whether an asset carries the given role.
pub open spec fn asset_has_role(a: Asset, role: AssetRole) -> bool {
    a.roles is Some && a.roles->Some_0@.contains(role)
}

/// The first index of `s` whose asset carries the role, if any.
pub open spec fn spec_find_role(s: Seq<(String, Asset)>, role: AssetRole) -> Option<int>
    decreases s.len(),
{
    if s.len() == 0 {
        None
    } else if asset_has_role(s[0].1, role) {
        Some(0)
    } else {
        match spec_find_role(s.skip(1), role) {
            Some(i) => Some(i + 1),
            None => None,
        }
    }
}

/// The first index of `s` whose key reads `key`, if any.
pub open spec fn spec_find_key(s: Seq<(String, Asset)>, key: Seq<char>) -> Option<int>
    decreases s.len(),
{
    if s.len() == 0 {
        None
    } else if s[0].0@ == key {
        Some(0)
    } else {
        match spec_find_key(s.skip(1), key) {
            Some(i) => Some(i + 1),
            None => None,
        }
    }
}

impl Item {
    /// Whether the bounding box is present whenever the geometry is.
    pub open spec fn spec_has_valid_bbox(&self) -> bool {
        self.geometry is Some ==> self.bbox is Some
    }

    /// Whether the entry has all its required parts: the `Feature` kind, a
    /// version, an identifier, valid properties, at least one link and one
    /// asset, and a bounding box wherever a geometry stands.
    pub open spec fn spec_is_valid(&self) -> bool {
        &&& self.kind@ == "Feature"@
        &&& self.stac_version@.len() > 0
        &&& self.id@.len() > 0
        &&& (if self.properties.datetime is None {
            self.properties.start_datetime is Some && self.properties.end_datetime is Some
        } else {
            rfc3339_instant(self.properties.datetime->Some_0@) is Some
        })
        &&& self.links@.len() > 0
        &&& self.assets@.len() > 0
        &&& self.spec_has_valid_bbox()
    }

    /// A new entry with the required fields; kind and version get their
    /// standard values.
    pub fn new(id: String, properties: Properties, links: Vec<Link>, assets: Vec<(String, Asset)>)
        -> (r: Item)
        ensures
            r.kind@ == "Feature"@,
            r.stac_version@ == "1.0.0"@,
            r.stac_extensions is None,
            r.id == id,
            r.geometry is None,
            r.bbox is None,
            r.properties == properties,
            r.links == links,
            r.assets == assets,
            r.collection is None,
    {
        Item {
            kind: "Feature".to_owned(),
            stac_version: "1.0.0".to_owned(),
            stac_extensions: None,
            id,
            geometry: None,
            bbox: None,
            properties,
            links,
            assets,
            collection: None,
        }
    }

    /// This entry with the geometry set.
    pub fn with_geometry(self, geometry: Geometry) -> (r: Item)
        ensures
            r == (Item { geometry: Some(geometry), ..self }),
    {
        Item { geometry: Some(geometry), ..self }
    }

    /// This entry with the bounding box set.
    pub fn with_bbox(self, bbox: Vec<i64>) -> (r: Item)
        ensures
            r == (Item { bbox: Some(bbox), ..self }),
    {
        Item { bbox: Some(bbox), ..self }
    }

    /// This entry with the extension list set.
    pub fn with_extensions(self, extensions: Vec<String>) -> (r: Item)
        ensures
            r == (Item { stac_extensions: Some(extensions), ..self }),
    {
        Item { stac_extensions: Some(extensions), ..self }
    }

    /// This entry with the grouping set.
    pub fn with_collection(self, collection: String) -> (r: Item)
        ensures
            r == (Item { collection: Some(collection), ..self }),
    {
        Item { collection: Some(collection), ..self }
    }

    /// Adds a link.
    pub fn add_link(&mut self, link: Link)
        ensures
            *final(self) == (Item { links: final(self).links, ..*old(self) }),
            final(self).links@ == old(self).links@.push(link),
    {
        self.links.push(link);
    }

    /// Adds an asset under a key, replacing the one the key already names.
    pub fn add_asset(&mut self, key: String, asset: Asset)
        ensures
            *final(self) == (Item { assets: final(self).assets, ..*old(self) }),
            final(self).assets@ == (match spec_find_key(old(self).assets@, key@) {
                Some(i) => old(self).assets@.update(i, (key, asset)),
                None => old(self).assets@.push((key, asset)),
            }),
    {
        let n = self.assets.len();
        let mut i: usize = 0;
        while i < n
            invariant
                i <= n,
                n == self.assets@.len(),
                *self == *old(self),
                forall|j: int| 0 <= j < i ==> (#[trigger] self.assets@[j]).0@ != key@,
            decreases n - i,
        {
            if str_eq(self.assets[i].0.as_str(), key.as_str()) {
                proof {
                    lemma_find_key_first(self.assets@, key@, i as int);
                }
                self.assets.set(i, (key, asset));
                return ;
            }
            i = i + 1;
        }
        proof {
            lemma_find_key_none(self.assets@, key@);
        }
        self.assets.push((key, asset));
    }

    /// A basic entry: the required fields and one self link.
    pub fn basic(id: String, properties: Properties, assets: Vec<(String, Asset)>) -> (r: Item)
        ensures
            r.kind@ == "Feature"@,
            r.stac_version@ == "1.0.0"@,
            r.stac_extensions is None,
            r.id == id,
            r.geometry is None,
            r.bbox is None,
            r.properties == properties,
            r.assets == assets,
            r.collection is None,
            r.links@.len() == 1,
            r.links@[0].href@ == "/items/"@ + id@,
            r.links@[0].rel@ == "self"@,
            r.links@[0].media_type is Some && r.links@[0].media_type->Some_0@
                == "application/geo+json"@,
            r.links@[0].title is Some && r.links@[0].title->Some_0@ == "Item "@ + id@,
    {
        let mut href = "/items/".to_owned();
        href.append(id.as_str());
        let mut title = "Item ".to_owned();
        title.append(id.as_str());
        let link = Link::simple(
            href,
            "self".to_owned(),
            "application/geo+json".to_owned(),
            title,
        );
        let mut links: Vec<Link> = Vec::new();
        links.push(link);
        Item::new(id, properties, links, assets)
    }

    /// An entry whose geometry is a single point; the bounding box collapses
    /// onto the point.
    pub fn point(
        id: String,
        properties: Properties,
        longitude: i64,
        latitude: i64,
        assets: Vec<(String, Asset)>,
    ) -> (r: Item)
        ensures
            r.id == id,
            r.properties == properties,
            r.assets == assets,
            r.geometry is Some,
            r.geometry->Some_0 matches Geometry::Point { coordinates } && coordinates@ =~= seq![
                longitude,
                latitude,
            ],
            r.bbox is Some,
            r.bbox->Some_0@ =~= seq![longitude, latitude, longitude, latitude],
    {
        let mut coordinates: Vec<i64> = Vec::new();
        coordinates.push(longitude);
        coordinates.push(latitude);
        let geometry = Geometry::Point { coordinates };
        let mut bbox: Vec<i64> = Vec::new();
        bbox.push(longitude);
        bbox.push(latitude);
        bbox.push(longitude);
        bbox.push(latitude);
        Item::basic(id, properties, assets).with_geometry(geometry).with_bbox(bbox)
    }

    /// The bounding box spanned by the positions of one polygon ring.
    pub fn calculate_bbox_from_polygon(coordinates: &Vec<Vec<i64>>) -> (r: Vec<i64>)
        requires
            forall|i: int| 0 <= i < coordinates@.len() ==> (#[trigger] coordinates@[i])@.len() >= 2,
        ensures
            r@.len() == 4,
            (r@[0] as int, r@[1] as int, r@[2] as int, r@[3] as int) == spec_geom_bbox(
                Geometry::LineString { coordinates: *coordinates },
            ),
    {
        let ring = Geometry::LineString { coordinates: coordinates.clone() };
        calculate_bbox_for_geometry(&ring)
    }

    /// An entry whose geometry is a polygon; the bounding box spans the
    /// outer ring.
    pub fn polygon(
        id: String,
        properties: Properties,
        coordinates: Vec<Vec<Vec<i64>>>,
        assets: Vec<(String, Asset)>,
    ) -> (r: Item)
        requires
            coordinates@.len() >= 1,
            forall|i: int, j: int|
                0 <= i < coordinates@.len() && 0 <= j < (#[trigger] coordinates@[i])@.len() ==> (
                #[trigger] coordinates@[i]@[j])@.len() >= 2,
        ensures
            r.id == id,
            r.properties == properties,
            r.assets == assets,
            r.geometry is Some,
            r.geometry->Some_0 matches Geometry::Polygon { coordinates: cs } && cs == coordinates,
            r.bbox is Some,
            r.bbox->Some_0@.len() == 4,
            (
                r.bbox->Some_0@[0] as int,
                r.bbox->Some_0@[1] as int,
                r.bbox->Some_0@[2] as int,
                r.bbox->Some_0@[3] as int,
            ) == spec_geom_bbox(Geometry::LineString { coordinates: coordinates@[0] }),
    {
        let bbox = Item::calculate_bbox_from_polygon(&coordinates[0]);
        let geometry = Geometry::Polygon { coordinates };
        Item::basic(id, properties, assets).with_geometry(geometry).with_bbox(bbox)
    }

    /// An entry whose geometry is the rectangle of a bounding box.
    pub fn bbox_item(
        id: String,
        properties: Properties,
        bbox: Vec<i64>,
        assets: Vec<(String, Asset)>,
    ) -> (r: Item)
        requires
            bbox@.len() >= 4,
        ensures
            r.id == id,
            r.properties == properties,
            r.assets == assets,
            r.geometry is Some,
            r.geometry->Some_0 matches Geometry::Polygon { coordinates: cs } && cs@.len() == 1
                && cs@[0]@.len() == 5,
            r.bbox == Some(bbox),
    {
        let mut ring: Vec<Vec<i64>> = Vec::new();
        let mut p0: Vec<i64> = Vec::new();
        p0.push(bbox[0]);
        p0.push(bbox[1]);
        let mut p1: Vec<i64> = Vec::new();
        p1.push(bbox[2]);
        p1.push(bbox[1]);
        let mut p2: Vec<i64> = Vec::new();
        p2.push(bbox[2]);
        p2.push(bbox[3]);
        let mut p3: Vec<i64> = Vec::new();
        p3.push(bbox[0]);
        p3.push(bbox[3]);
        let mut p4: Vec<i64> = Vec::new();
        p4.push(bbox[0]);
        p4.push(bbox[1]);
        ring.push(p0);
        ring.push(p1);
        ring.push(p2);
        ring.push(p3);
        ring.push(p4);
        let mut coordinates: Vec<Vec<Vec<i64>>> = Vec::new();
        coordinates.push(ring);
        let geometry = Geometry::Polygon { coordinates };
        Item::basic(id, properties, assets).with_geometry(geometry).with_bbox(bbox)
    }

    /// Whether the entry has all its required parts.
    pub fn is_valid(&self) -> (r: bool)
        ensures
            r == self.spec_is_valid(),
    {
        str_eq(self.kind.as_str(), "Feature") && !self.stac_version.as_str().is_empty()
            && !self.id.as_str().is_empty() && self.properties.is_valid() && self.links.len() > 0
            && self.assets.len() > 0 && self.has_valid_bbox()
    }

    /// Whether the bounding box is present whenever the geometry is.
    pub fn has_valid_bbox(&self) -> (r: bool)
        ensures
            r == self.spec_has_valid_bbox(),
    {
        if self.geometry.is_some() {
            self.bbox.is_some()
        } else {
            true
        }
    }

    /// The first link with the given relationship, if any.
    pub fn get_link_by_rel(&self, rel: &str) -> (r: Option<&Link>)
        ensures
            (r is Some) <==> (exists|i: int|
                0 <= i < self.links@.len() && (#[trigger] self.links@[i]).rel@ == rel@),
            r is Some ==> exists|i: int|
                0 <= i < self.links@.len() && (#[trigger] self.links@[i]).rel@ == rel@ && *r->Some_0
                    == self.links@[i] && forall|j: int|
                    0 <= j < i ==> (#[trigger] self.links@[j]).rel@ != rel@,
    {
        let n = self.links.len();
        let mut i: usize = 0;
        while i < n
            invariant
                i <= n,
                n == self.links@.len(),
                forall|j: int| 0 <= j < i ==> (#[trigger] self.links@[j]).rel@ != rel@,
            decreases n - i,
        {
            if str_eq(self.links[i].rel.as_str(), rel) {
                return Some(&self.links[i]);
            }
            i = i + 1;
        }
        None
    }

    /// All links with the given relationship, in order.
    pub fn get_links_by_rel(&self, rel: &str) -> (r: Vec<&Link>)
        ensures
            r@ == self.links@.filter(|l: Link| l.rel@ == rel@).map_values(|l: Link| &l),
    {
        let n = self.links.len();
        let mut out: Vec<&Link> = Vec::new();
        let mut i: usize = 0;
        proof {
            assert(self.links@.take(0) =~= Seq::<Link>::empty());
            assert(self.links@.take(0).filter(|l: Link| l.rel@ == rel@).map_values(|l: Link| &l)
                =~= Seq::<&Link>::empty());
        }
        while i < n
            invariant
                i <= n,
                n == self.links@.len(),
                out@ == self.links@.take(i as int).filter(|l: Link| l.rel@ == rel@).map_values(
                    |l: Link| &l,
                ),
            decreases n - i,
        {
            proof {
                let pred = |l: Link| l.rel@ == rel@;
                let prefix = self.links@.take(i as int);
                let next = self.links@.take(i + 1);
                assert(next.drop_last() =~= prefix);
                assert(next.last() == self.links@[i as int]);
                reveal_with_fuel(Seq::filter, 2);
                if pred(self.links@[i as int]) {
                    assert(next.filter(pred) =~= prefix.filter(pred).push(self.links@[i as int]));
                } else {
                    assert(next.filter(pred) =~= prefix.filter(pred));
                }
            }
            if str_eq(self.links[i].rel.as_str(), rel) {
                out.push(&self.links[i]);
                proof {
                    let pred = |l: Link| l.rel@ == rel@;
                    assert(out@ =~= self.links@.take(i + 1).filter(pred).map_values(
                        |l: Link| &l,
                    ));
                }
            } else {
                proof {
                    let pred = |l: Link| l.rel@ == rel@;
                    assert(out@ =~= self.links@.take(i + 1).filter(pred).map_values(
                        |l: Link| &l,
                    ));
                }
            }
            i = i + 1;
        }
        proof {
            assert(self.links@.take(n as int) =~= self.links@);
        }
        out
    }

    /// The asset under the given key, if any.
    pub fn get_asset(&self, key: &str) -> (r: Option<&Asset>)
        ensures
            r == (match spec_find_key(self.assets@, key@) {
                Some(i) => Some(&self.assets@[i].1),
                None => None::<&Asset>,
            }),
    {
        let n = self.assets.len();
        let mut i: usize = 0;
        while i < n
            invariant
                i <= n,
                n == self.assets@.len(),
                forall|j: int| 0 <= j < i ==> (#[trigger] self.assets@[j]).0@ != key@,
            decreases n - i,
        {
            if str_eq(self.assets[i].0.as_str(), key) {
                proof {
                    lemma_find_key_first(self.assets@, key@, i as int);
                }
                return Some(&self.assets[i].1);
            }
            i = i + 1;
        }
        proof {
            lemma_find_key_none(self.assets@, key@);
        }
        None
    }

    /// The first asset with the thumbnail role, if any.
    pub fn get_thumbnail(&self) -> (r: Option<&Asset>)
        ensures
            r == (match spec_find_role(self.assets@, AssetRole::Thumbnail) {
                Some(i) => Some(&self.assets@[i].1),
                None => None::<&Asset>,
            }),
    {
        self.find_asset_with_role(AssetRole::Thumbnail)
    }

    /// The first asset with the data role, if any.
    pub fn get_data_asset(&self) -> (r: Option<&Asset>)
        ensures
            r == (match spec_find_role(self.assets@, AssetRole::Data) {
                Some(i) => Some(&self.assets@[i].1),
                None => None::<&Asset>,
            }),
    {
        self.find_asset_with_role(AssetRole::Data)
    }

    fn find_asset_with_role(&self, role: AssetRole) -> (r: Option<&Asset>)
        requires
            !(role is Custom),
        ensures
            r == (match spec_find_role(self.assets@, role) {
                Some(i) => Some(&self.assets@[i].1),
                None => None::<&Asset>,
            }),
    {
        let n = self.assets.len();
        let mut i: usize = 0;
        while i < n
            invariant
                i <= n,
                n == self.assets@.len(),
                !(role is Custom),
                forall|j: int| 0 <= j < i ==> !asset_has_role((#[trigger] self.assets@[j]).1, role),
            decreases n - i,
        {
            let has = match &self.assets[i].1.roles {
                Some(roles) => {
                    let m = roles.len();
                    let mut k: usize = 0;
                    let mut found = false;
                    while k < m
                        invariant
                            k <= m,
                            m == roles@.len(),
                            !(role is Custom),
                            found == exists|q: int| 0 <= q < k && roles@[q] == role,
                        decreases m - k,
                    {
                        if asset_role_eq(&roles[k], &role) {
                            proof {
                                assert(roles@[k as int] == role);
                            }
                            found = true;
                        }
                        k = k + 1;
                    }
                    proof {
                        if found {
                            let q = choose|q: int| 0 <= q < m && roles@[q] == role;
                            assert(roles@.contains(role));
                        } else {
                            assert(!roles@.contains(role)) by {
                                if roles@.contains(role) {
                                    let q = choose|q: int|
                                        0 <= q < roles@.len() && roles@[q] == role;
                                }
                            }
                        }
                    }
                    found
                },
                None => false,
            };
            if has {
                proof {
                    lemma_find_role_first(self.assets@, role, i as int);
                }
                return Some(&self.assets[i].1);
            }
            i = i + 1;
        }
        proof {
            lemma_find_role_none(self.assets@, role);
        }
        None
    }

    /// This entry with the standard API links for its grouping added:
    /// self, collection and root.
    pub fn with_stac_api_links(self, base_url: &str, collection_id: &str) -> (r: Item)
        ensures
            r == (Item { links: r.links, ..self }),
            r.links@.len() == self.links@.len() + 3,
            r.links@.subrange(0, self.links@.len() as int) == self.links@,
            r.links@[self.links@.len() as int].href@ == base_url@ + "/collections/"@
                + collection_id@ + "/items/"@ + self.id@,
            r.links@[self.links@.len() as int].rel@ == "self"@,
            r.links@[self.links@.len() as int + 1].href@ == base_url@ + "/collections/"@ + collection_id@,
            r.links@[self.links@.len() as int + 1].rel@ == "collection"@,
            r.links@[self.links@.len() as int + 2].href@ == base_url@ + "/"@,
            r.links@[self.links@.len() as int + 2].rel@ == "root"@,
    {
        let mut out = self;
        let mut href1 = base_url.to_owned();
        href1.append("/collections/");
        href1.append(collection_id);
        href1.append("/items/");
        href1.append(out.id.as_str());
        out.add_link(
            Link::simple(
                href1,
                "self".to_owned(),
                "application/geo+json".to_owned(),
                "This Item".to_owned(),
            ),
        );
        let mut href2 = base_url.to_owned();
        href2.append("/collections/");
        href2.append(collection_id);
        out.add_link(
            Link::simple(
                href2,
                "collection".to_owned(),
                "application/json".to_owned(),
                "Parent Collection".to_owned(),
            ),
        );
        let mut href3 = base_url.to_owned();
        href3.append("/");
        out.add_link(
            Link::simple(
                href3,
                "root".to_owned(),
                "application/json".to_owned(),
                "Root Catalog".to_owned(),
            ),
        );
        proof {
            assert(out.links@.subrange(0, self.links@.len() as int) =~= self.links@);
        }
        out
    }
}

/// Whether two asset roles read the same: equal variants, with custom
/// role names compared by their characters.
pub open spec fn role_like(a: AssetRole, b: AssetRole) -> bool {
    match (a, b) {
        (AssetRole::Thumbnail, AssetRole::Thumbnail) => true,
        (AssetRole::Overview, AssetRole::Overview) => true,
        (AssetRole::Data, AssetRole::Data) => true,
        (AssetRole::Metadata, AssetRole::Metadata) => true,
        (AssetRole::Custom(x), AssetRole::Custom(y)) => x@ == y@,
        _ => false,
    }
}

/// Compares two asset roles by how they read.
pub fn asset_role_eq(a: &AssetRole, b: &AssetRole) -> (r: bool)
    ensures
        r == role_like(*a, *b),
{
    match (a, b) {
        (AssetRole::Thumbnail, AssetRole::Thumbnail) => true,
        (AssetRole::Overview, AssetRole::Overview) => true,
        (AssetRole::Data, AssetRole::Data) => true,
        (AssetRole::Metadata, AssetRole::Metadata) => true,
        (AssetRole::Custom(x), AssetRole::Custom(y)) => crate::strutil::str_eq(
            x.as_str(),
            y.as_str(),
        ),
        _ => false,
    }
}

/// When the first `i` keys of `s` differ from `key` and `s[i]` carries it,
/// `i` is the first index with that key.
proof fn lemma_find_key_first(s: Seq<(String, Asset)>, key: Seq<char>, i: int)
    requires
        0 <= i < s.len(),
        s[i].0@ == key,
        forall|j: int| 0 <= j < i ==> (#[trigger] s[j]).0@ != key,
    ensures
        spec_find_key(s, key) == Some(i),
    decreases i,
{
    if i == 0 {
    } else {
        assert(s.skip(1)[i - 1] == s[i]);
        assert(forall|j: int| 0 <= j < i - 1 ==> (#[trigger] s.skip(1)[j]).0@ != key);
        lemma_find_key_first(s.skip(1), key, i - 1);
    }
}

/// When no key of `s` reads `key`, the search finds nothing.
proof fn lemma_find_key_none(s: Seq<(String, Asset)>, key: Seq<char>)
    requires
        forall|j: int| 0 <= j < s.len() ==> (#[trigger] s[j]).0@ != key,
    ensures
        spec_find_key(s, key) is None,
    decreases s.len(),
{
    if s.len() > 0 {
        assert(forall|j: int| 0 <= j < s.skip(1).len() ==> (#[trigger] s.skip(1)[j]).0@ != key);
        lemma_find_key_none(s.skip(1), key);
    }
}

/// When the first `i` assets of `s` lack the role and `s[i]` carries it,
/// `i` is the first index with that role.
proof fn lemma_find_role_first(s: Seq<(String, Asset)>, role: AssetRole, i: int)
    requires
        0 <= i < s.len(),
        asset_has_role(s[i].1, role),
        forall|j: int| 0 <= j < i ==> !asset_has_role((#[trigger] s[j]).1, role),
    ensures
        spec_find_role(s, role) == Some(i),
    decreases i,
{
    if i == 0 {
    } else {
        assert(s.skip(1)[i - 1] == s[i]);
        assert(forall|j: int|
            0 <= j < i - 1 ==> !asset_has_role((#[trigger] s.skip(1)[j]).1, role));
        lemma_find_role_first(s.skip(1), role, i - 1);
    }
}

/// When no asset of `s` carries the role, the search finds nothing.
proof fn lemma_find_role_none(s: Seq<(String, Asset)>, role: AssetRole)
    requires
        forall|j: int| 0 <= j < s.len() ==> !asset_has_role((#[trigger] s[j]).1, role),
    ensures
        spec_find_role(s, role) is None,
    decreases s.len(),
{
    if s.len() > 0 {
        assert(forall|j: int|
            0 <= j < s.skip(1).len() ==> !asset_has_role((#[trigger] s.skip(1)[j]).1, role));
        lemma_find_role_none(s.skip(1), role);
    }
}

} // verus!
