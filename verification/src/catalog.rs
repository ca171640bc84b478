//! The root catalog document.

use vstd::prelude::*;
use crate::config::Config;
use crate::handlers::catalog_links;
use crate::link::Link;
use crate::urls::ServerConfig;

verus! {

/// The root catalog: the landing document that names the service and links
/// to everything it offers.
#[derive(Debug, PartialEq, Eq)]
pub struct Catalog {
    /// The document kind; always `Catalog`.
    pub kind: String,
    /// The specification version the catalog implements.
    pub stac_version: String,
    /// Extension schemas the catalog implements.
    pub stac_extensions: Option<Vec<String>>,
    /// Identifier for the catalog.
    pub id: String,
    /// A short one-line title.
    pub title: Option<String>,
    /// Detailed description.
    pub description: String,
    /// Links to related resources.
    pub links: Vec<Link>,
    /// Conformance classes the catalog declares.
    pub conforms_to: Vec<String>,
}

/// The root catalog document the configuration describes, carrying the
/// standard landing links.
pub fn root_catalog(config: &Config, sc: &ServerConfig) -> (r: Catalog)
    ensures
        r.kind@ == "Catalog"@,
        r.stac_version == config.catalog.stac_version,
        (r.stac_extensions matches Some(v) && v@ == config.catalog.stac_extensions@),
        r.id == config.catalog.id,
        r.title == Some(config.catalog.title),
        r.description == config.catalog.description,
        r.conforms_to@ == config.catalog.conforms_to@,
        r.links@.len() == 8,
        r.links@[0].rel@ == "self"@ && r.links@[0].href@ == sc.base_url@,
        r.links@[1].rel@ == "root"@,
        r.links@[2].rel@ == "child"@,
        r.links@[3].rel@ == "conformance"@,
        r.links@[4].rel@ == "data"@,
        r.links@[5].rel@ == "search"@,
        r.links@[6].rel@ == "service-desc"@,
        r.links@[7].rel@ == "service-doc"@,
{
    let extensions = config.catalog.stac_extensions.clone();
    let conforms = config.catalog.conforms_to.clone();
    proof {
        assert forall|i: int|
            0 <= i < extensions@.len() implies extensions@[i]
            == config.catalog.stac_extensions@[i] by {
            assert(vstd::pervasive::cloned::<String>(
                config.catalog.stac_extensions@[i],
                extensions@[i],
            ));
        }
        assert(extensions@ =~= config.catalog.stac_extensions@);
        assert forall|i: int|
            0 <= i < conforms@.len() implies conforms@[i] == config.catalog.conforms_to@[i] by {
            assert(vstd::pervasive::cloned::<String>(config.catalog.conforms_to@[i], conforms@[i]));
        }
        assert(conforms@ =~= config.catalog.conforms_to@);
    }
    Catalog {
        kind: "Catalog".to_owned(),
        stac_version: config.catalog.stac_version.clone(),
        stac_extensions: Some(extensions),
        id: config.catalog.id.clone(),
        title: Some(config.catalog.title.clone()),
        description: config.catalog.description.clone(),
        links: catalog_links(sc),
        conforms_to: conforms,
    }
}

} // verus!
