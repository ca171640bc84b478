//! Catalog groupings: sets of entries sharing description, licensing and
//! extent metadata. A grouping owns its entries; deleting it cascades to
//! them at the store level.

use vstd::prelude::*;
use crate::asset::Asset;
use crate::link::Link;
use crate::provider::Provider;
use crate::range::Range;
use crate::spatial_extent::SpatialExtent;
use crate::strutil::str_eq;
use crate::temporal_extent::TemporalExtent;

verus! {

/// A set of entries sharing schema, licensing and extent metadata.
#[derive(Debug, PartialEq, Eq)]
pub struct Collection {
    /// The document kind; always `Collection`.
    pub kind: String,
    /// The specification version the grouping implements.
    pub stac_version: String,
    /// Extension schemas the grouping implements.
    pub stac_extensions: Option<Vec<String>>,
    /// Identifier, unique across the provider.
    pub id: String,
    /// A short one-line title.
    pub title: Option<String>,
    /// Detailed description.
    pub description: String,
    /// Keywords describing the grouping.
    pub keywords: Option<Vec<String>>,
    /// The grouping's license.
    pub license: String,
    /// The providers, most recent last.
    pub providers: Option<Vec<Provider>>,
    /// Spatial and temporal extents.
    pub extent: Extent,
    /// Property summaries under their keys, in insertion order.
    pub summaries: Option<Vec<(String, SummaryValue)>>,
    /// Links to related resources.
    pub links: Vec<Link>,
    /// Assets under their unique keys, in insertion order.
    pub assets: Option<Vec<(String, Asset)>>,
    /// Conformance classes the grouping declares.
    pub conforms_to: Vec<String>,
}

/// The spatial and temporal extents of a grouping.
#[derive(Debug, Clone, PartialEq, Eq)]
pub struct Extent {
    /// Spatial extent.
    pub spatial: SpatialExtent,
    /// Temporal extent.
    pub temporal: TemporalExtent,
}

/// A property summary: a range of its values.
#[derive(Debug, Clone, PartialEq, Eq)]
pub enum SummaryValue {
    /// A range of values.
    Range(Range),
}

/// The first index of `s` whose key reads `key`, if any.
pub open spec fn spec_find_pair<T>(s: Seq<(String, T)>, key: Seq<char>) -> Option<int>
    decreases s.len(),
{
    if s.len() == 0 {
        None
    } else if s[0].0@ == key {
        Some(0)
    } else {
        match spec_find_pair(s.skip(1), key) {
            Some(i) => Some(i + 1),
            None => None,
        }
    }
}

/// When the first `i` keys of `s` differ from `key` and `s[i]` carries it,
/// `i` is the first index with that key.
proof fn lemma_find_pair_first<T>(s: Seq<(String, T)>, key: Seq<char>, i: int)
    requires
        0 <= i < s.len(),
        s[i].0@ == key,
        forall|j: int| 0 <= j < i ==> (#[trigger] s[j]).0@ != key,
    ensures
        spec_find_pair(s, key) == Some(i),
    decreases i,
{
    if i > 0 {
        assert(s.skip(1)[i - 1] == s[i]);
        assert(forall|j: int| 0 <= j < i - 1 ==> (#[trigger] s.skip(1)[j]).0@ != key);
        lemma_find_pair_first(s.skip(1), key, i - 1);
    }
}

/// When no key of `s` reads `key`, the search finds nothing.
proof fn lemma_find_pair_none<T>(s: Seq<(String, T)>, key: Seq<char>)
    requires
        forall|j: int| 0 <= j < s.len() ==> (#[trigger] s[j]).0@ != key,
    ensures
        spec_find_pair(s, key) is None,
    decreases s.len(),
{
    if s.len() > 0 {
        assert(forall|j: int| 0 <= j < s.skip(1).len() ==> (#[trigger] s.skip(1)[j]).0@ != key);
        lemma_find_pair_none(s.skip(1), key);
    }
}

/// `pairs` with `value` stored under `key`: the first pair with that key is
/// replaced, or the new pair is appended when none carries it.
pub open spec fn spec_upsert<T>(pairs: Seq<(String, T)>, key: String, value: T) -> Seq<(String, T)> {
    match spec_find_pair(pairs, key@) {
        Some(i) => pairs.update(i, (key, value)),
        None => pairs.push((key, value)),
    }
}

fn upsert_pair<T>(pairs: &mut Vec<(String, T)>, key: String, value: T)
    ensures
        final(pairs)@ == spec_upsert(old(pairs)@, key, value),
{
    let n = pairs.len();
    let mut i: usize = 0;
    while i < n
        invariant
            i <= n,
            n == pairs@.len(),
            *pairs == *old(pairs),
            forall|j: int| 0 <= j < i ==> (#[trigger] pairs@[j]).0@ != key@,
        decreases n - i,
    {
        if str_eq(pairs[i].0.as_str(), key.as_str()) {
            proof {
                lemma_find_pair_first(pairs@, key@, i as int);
            }
            pairs.set(i, (key, value));
            return ;
        }
        i = i + 1;
    }
    proof {
        lemma_find_pair_none(pairs@, key@);
    }
    pairs.push((key, value));
}

impl Collection {
    /// Whether the grouping has all its required parts: the `Collection`
    /// kind, a version, an identifier, a description, a license and at
    /// least one link.
    pub open spec fn spec_is_valid(&self) -> bool {
        &&& self.kind@ == "Collection"@
        &&& self.stac_version@.len() > 0
        &&& self.id@.len() > 0
        &&& self.description@.len() > 0
        &&& self.license@.len() > 0
        &&& self.links@.len() > 0
    }

    /// A new grouping with the required fields; kind and version get their
    /// standard values.
    pub fn new(
        id: String,
        description: String,
        license: String,
        extent: Extent,
        links: Vec<Link>,
    ) -> (r: Collection)
        ensures
            r.kind@ == "Collection"@,
            r.stac_version@ == "1.0.0"@,
            r.stac_extensions is None,
            r.id == id,
            r.title is None,
            r.description == description,
            r.keywords is None,
            r.license == license,
            r.providers is None,
            r.extent == extent,
            r.summaries is None,
            r.links == links,
            r.assets is None,
            r.conforms_to@.len() == 0,
    {
        Collection {
            kind: "Collection".to_owned(),
            stac_version: "1.0.0".to_owned(),
            stac_extensions: None,
            id,
            title: None,
            description,
            keywords: None,
            license,
            providers: None,
            extent,
            summaries: None,
            links,
            assets: None,
            conforms_to: Vec::new(),
        }
    }

    /// This grouping with the title set.
    pub fn with_title(self, title: String) -> (r: Collection)
        ensures
            r == (Collection { title: Some(title), ..self }),
    {
        Collection { title: Some(title), ..self }
    }

    /// This grouping with the extension list set.
    pub fn with_extensions(self, extensions: Vec<String>) -> (r: Collection)
        ensures
            r == (Collection { stac_extensions: Some(extensions), ..self }),
    {
        Collection { stac_extensions: Some(extensions), ..self }
    }

    /// This grouping with the keywords set.
    pub fn with_keywords(self, keywords: Vec<String>) -> (r: Collection)
        ensures
            r == (Collection { keywords: Some(keywords), ..self }),
    {
        Collection { keywords: Some(keywords), ..self }
    }

    /// This grouping with the providers set.
    pub fn with_providers(self, providers: Vec<Provider>) -> (r: Collection)
        ensures
            r == (Collection { providers: Some(providers), ..self }),
    {
        Collection { providers: Some(providers), ..self }
    }

    /// Adds one provider, starting the list when there was none.
    pub fn add_provider(&mut self, provider: Provider)
        ensures
            *final(self) == (Collection { providers: final(self).providers, ..*old(self) }),
            final(self).providers is Some,
            old(self).providers is Some ==> final(self).providers->Some_0@ == old(
                self,
            ).providers->Some_0@.push(provider),
            old(self).providers is None ==> final(self).providers->Some_0@ == seq![provider],
    {
        match self.providers.take() {
            Some(mut providers) => {
                providers.push(provider);
                self.providers = Some(providers);
            },
            None => {
                let mut providers: Vec<Provider> = Vec::new();
                providers.push(provider);
                proof {
                    assert(providers@ =~= seq![provider]);
                }
                self.providers = Some(providers);
            },
        }
    }

    /// This grouping with the summaries set.
    pub fn with_summaries(self, summaries: Vec<(String, SummaryValue)>) -> (r: Collection)
        ensures
            r == (Collection { summaries: Some(summaries), ..self }),
    {
        Collection { summaries: Some(summaries), ..self }
    }

    /// Stores a summary under a key, replacing the one the key already
    /// names, and starting the map when there was none.
    pub fn add_summary(&mut self, key: String, value: SummaryValue)
        ensures
            *final(self) == (Collection { summaries: final(self).summaries, ..*old(self) }),
            final(self).summaries is Some,
            old(self).summaries is Some ==> final(self).summaries->Some_0@ == spec_upsert(
                old(self).summaries->Some_0@,
                key,
                value,
            ),
            old(self).summaries is None ==> final(self).summaries->Some_0@ == seq![(key, value)],
    {
        match self.summaries.take() {
            Some(mut summaries) => {
                upsert_pair(&mut summaries, key, value);
                self.summaries = Some(summaries);
            },
            None => {
                let mut summaries: Vec<(String, SummaryValue)> = Vec::new();
                let ghost kv = (key, value);
                summaries.push((key, value));
                proof {
                    assert(summaries@ =~= seq![kv]);
                }
                self.summaries = Some(summaries);
            },
        }
    }

    /// This grouping with the assets set.
    pub fn with_assets(self, assets: Vec<(String, Asset)>) -> (r: Collection)
        ensures
            r == (Collection { assets: Some(assets), ..self }),
    {
        Collection { assets: Some(assets), ..self }
    }

    /// Stores an asset under a key, replacing the one the key already
    /// names, and starting the map when there was none.
    pub fn add_asset(&mut self, key: String, asset: Asset)
        ensures
            *final(self) == (Collection { assets: final(self).assets, ..*old(self) }),
            final(self).assets is Some,
            old(self).assets is Some ==> final(self).assets->Some_0@ == spec_upsert(
                old(self).assets->Some_0@,
                key,
                asset,
            ),
            old(self).assets is None ==> final(self).assets->Some_0@ == seq![(key, asset)],
    {
        match self.assets.take() {
            Some(mut assets) => {
                upsert_pair(&mut assets, key, asset);
                self.assets = Some(assets);
            },
            None => {
                let mut assets: Vec<(String, Asset)> = Vec::new();
                let ghost kv = (key, asset);
                assets.push((key, asset));
                proof {
                    assert(assets@ =~= seq![kv]);
                }
                self.assets = Some(assets);
            },
        }
    }

    /// Adds a link.
    pub fn add_link(&mut self, link: Link)
        ensures
            *final(self) == (Collection { links: final(self).links, ..*old(self) }),
            final(self).links@ == old(self).links@.push(link),
    {
        self.links.push(link);
    }

    /// A basic grouping: the required fields, a title and one self link.
    pub fn basic(
        id: String,
        title: String,
        description: String,
        license: String,
        spatial_extent: SpatialExtent,
        temporal_extent: TemporalExtent,
    ) -> (r: Collection)
        ensures
            r.kind@ == "Collection"@,
            r.stac_version@ == "1.0.0"@,
            r.id == id,
            r.title == Some(title),
            r.description == description,
            r.license == license,
            r.extent.spatial == spatial_extent,
            r.extent.temporal == temporal_extent,
            r.links@.len() == 1,
            r.links@[0].href@ == "/collections/"@ + id@,
            r.links@[0].rel@ == "self"@,
            r.links@[0].title is Some && r.links@[0].title->Some_0@ == title@ + " Collection"@,
    {
        let extent = Extent { spatial: spatial_extent, temporal: temporal_extent };
        let mut href = "/collections/".to_owned();
        href.append(id.as_str());
        let mut link_title = title.clone();
        link_title.append(" Collection");
        let link = Link::simple(href, "self".to_owned(), "application/json".to_owned(), link_title);
        let mut links: Vec<Link> = Vec::new();
        links.push(link);
        Collection::new(id, description, license, extent, links).with_title(title)
    }

    /// Whether the grouping has all its required parts.
    pub fn is_valid(&self) -> (r: bool)
        ensures
            r == self.spec_is_valid(),
    {
        str_eq(self.kind.as_str(), "Collection") && !self.stac_version.as_str().is_empty()
            && !self.id.as_str().is_empty() && !self.description.as_str().is_empty()
            && !self.license.as_str().is_empty() && self.links.len() > 0
    }

    /// The first link with the given relationship, if any.
    pub fn get_link_by_rel(&self, rel: &str) -> (r: Option<&Link>)
        ensures
            (r is Some) <==> (exists|i: int|
                0 <= i < self.links@.len() && (#[trigger] self.links@[i]).rel@ == rel@),
            r is Some ==> exists|i: int|
                0 <= i < self.links@.len() && (#[trigger] self.links@[i]).rel@ == rel@ && *r->Some_0
                    == self.links@[i] && forall|j: int|
                    0 <= j < i ==> (#[trigger] self.links@[j]).rel@ != rel@,
    {
        let n = self.links.len();
        let mut i: usize = 0;
        while i < n
            invariant
                i <= n,
                n == self.links@.len(),
                forall|j: int| 0 <= j < i ==> (#[trigger] self.links@[j]).rel@ != rel@,
            decreases n - i,
        {
            if str_eq(self.links[i].rel.as_str(), rel) {
                return Some(&self.links[i]);
            }
            i = i + 1;
        }
        None
    }

    /// All links with the given relationship, in order.
    pub fn get_links_by_rel(&self, rel: &str) -> (r: Vec<&Link>)
        ensures
            r@ == self.links@.filter(|l: Link| l.rel@ == rel@).map_values(|l: Link| &l),
    {
        let n = self.links.len();
        let mut out: Vec<&Link> = Vec::new();
        let mut i: usize = 0;
        proof {
            assert(self.links@.take(0) =~= Seq::<Link>::empty());
            assert(self.links@.take(0).filter(|l: Link| l.rel@ == rel@).map_values(|l: Link| &l)
                =~= Seq::<&Link>::empty());
        }
        while i < n
            invariant
                i <= n,
                n == self.links@.len(),
                out@ == self.links@.take(i as int).filter(|l: Link| l.rel@ == rel@).map_values(
                    |l: Link| &l,
                ),
            decreases n - i,
        {
            proof {
                let pred = |l: Link| l.rel@ == rel@;
                let prefix = self.links@.take(i as int);
                let next = self.links@.take(i + 1);
                assert(next.drop_last() =~= prefix);
                assert(next.last() == self.links@[i as int]);
                reveal_with_fuel(Seq::filter, 2);
                if pred(self.links@[i as int]) {
                    assert(next.filter(pred) =~= prefix.filter(pred).push(self.links@[i as int]));
                } else {
                    assert(next.filter(pred) =~= prefix.filter(pred));
                }
            }
            if str_eq(self.links[i].rel.as_str(), rel) {
                out.push(&self.links[i]);
                proof {
                    let pred = |l: Link| l.rel@ == rel@;
                    assert(out@ =~= self.links@.take(i + 1).filter(pred).map_values(
                        |l: Link| &l,
                    ));
                }
            } else {
                proof {
                    let pred = |l: Link| l.rel@ == rel@;
                    assert(out@ =~= self.links@.take(i + 1).filter(pred).map_values(
                        |l: Link| &l,
                    ));
                }
            }
            i = i + 1;
        }
        proof {
            assert(self.links@.take(n as int) =~= self.links@);
        }
        out
    }

    /// The asset under the given key, if any.
    pub fn get_asset(&self, key: &str) -> (r: Option<&Asset>)
        ensures
            self.assets is None ==> r is None,
            self.assets matches Some(assets) ==> r == (match spec_find_pair(assets@, key@) {
                Some(i) => Some(&assets@[i].1),
                None => None::<&Asset>,
            }),
    {
        match &self.assets {
            None => None,
            Some(assets) => {
                let n = assets.len();
                let mut i: usize = 0;
                while i < n
                    invariant
                        i <= n,
                        n == assets@.len(),
                        self.assets == Some(*assets),
                        forall|j: int| 0 <= j < i ==> (#[trigger] assets@[j]).0@ != key@,
                    decreases n - i,
                {
                    if str_eq(assets[i].0.as_str(), key) {
                        proof {
                            lemma_find_pair_first(assets@, key@, i as int);
                        }
                        return Some(&assets[i].1);
                    }
                    i = i + 1;
                }
                proof {
                    lemma_find_pair_none(assets@, key@);
                }
                None
            },
        }
    }

    /// The summary under the given key, if any.
    pub fn get_summary(&self, key: &str) -> (r: Option<&SummaryValue>)
        ensures
            self.summaries is None ==> r is None,
            self.summaries matches Some(summaries) ==> r == (match spec_find_pair(
                summaries@,
                key@,
            ) {
                Some(i) => Some(&summaries@[i].1),
                None => None::<&SummaryValue>,
            }),
    {
        match &self.summaries {
            None => None,
            Some(summaries) => {
                let n = summaries.len();
                let mut i: usize = 0;
                while i < n
                    invariant
                        i <= n,
                        n == summaries@.len(),
                        self.summaries == Some(*summaries),
                        forall|j: int| 0 <= j < i ==> (#[trigger] summaries@[j]).0@ != key@,
                    decreases n - i,
                {
                    if str_eq(summaries[i].0.as_str(), key) {
                        proof {
                            lemma_find_pair_first(summaries@, key@, i as int);
                        }
                        return Some(&summaries[i].1);
                    }
                    i = i + 1;
                }
                proof {
                    lemma_find_pair_none(summaries@, key@);
                }
                None
            },
        }
    }

    /// The spatial extent.
    pub fn spatial_extent(&self) -> (r: &SpatialExtent)
        ensures
            *r == self.extent.spatial,
    {
        &self.extent.spatial
    }

    /// The temporal extent.
    pub fn temporal_extent(&self) -> (r: &TemporalExtent)
        ensures
            *r == self.extent.temporal,
    {
        &self.extent.temporal
    }

    /// This grouping with the standard API links added: self, its entry
    /// listing, and root.
    pub fn with_stac_api_links(self, base_url: &str, collection_id: &str) -> (r: Collection)
        ensures
            r == (Collection { links: r.links, ..self }),
            r.links@.len() == self.links@.len() + 3,
            r.links@.subrange(0, self.links@.len() as int) == self.links@,
            r.links@[self.links@.len() as int].href@ == base_url@ + "/collections/"@
                + collection_id@,
            r.links@[self.links@.len() as int].rel@ == "self"@,
            r.links@[self.links@.len() as int + 1].href@ == base_url@ + "/collections/"@
                + collection_id@ + "/items"@,
            r.links@[self.links@.len() as int + 1].rel@ == "items"@,
            r.links@[self.links@.len() as int + 2].href@ == base_url@ + "/"@,
            r.links@[self.links@.len() as int + 2].rel@ == "root"@,
    {
        let mut out = self;
        let mut href1 = base_url.to_owned();
        href1.append("/collections/");
        href1.append(collection_id);
        out.add_link(
            Link::simple(
                href1,
                "self".to_owned(),
                "application/json".to_owned(),
                "This Collection".to_owned(),
            ),
        );
        let mut href2 = base_url.to_owned();
        href2.append("/collections/");
        href2.append(collection_id);
        href2.append("/items");
        out.add_link(
            Link::simple(
                href2,
                "items".to_owned(),
                "application/geo+json".to_owned(),
                "Items in this Collection".to_owned(),
            ),
        );
        let mut href3 = base_url.to_owned();
        href3.append("/");
        out.add_link(
            Link::simple(
                href3,
                "root".to_owned(),
                "application/json".to_owned(),
                "Root Catalog".to_owned(),
            ),
        );
        proof {
            assert(out.links@.subrange(0, self.links@.len() as int) =~= self.links@);
        }
        out
    }
}

impl Extent {
    /// An extent from its spatial and temporal parts.
    pub fn new(spatial: SpatialExtent, temporal: TemporalExtent) -> (r: Extent)
        ensures
            r.spatial == spatial,
            r.temporal == temporal,
    {
        Extent { spatial, temporal }
    }
}

} // verus!
