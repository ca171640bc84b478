//! The application configuration: catalog metadata, the server's addresses
//! and port, and where the database and asset files live.

use vstd::prelude::*;
use crate::numeral::{parse_u16, push_u64, spec_dec, spec_parse_u16};
use crate::strutil::{spec_starts_with, starts_with};

verus! {

/// Catalog metadata.
#[derive(Debug, Clone, PartialEq, Eq)]
pub struct CatalogConfig {
    /// Unique identifier for the catalog.
    pub id: String,
    /// Human-readable title for the catalog.
    pub title: String,
    /// Detailed description of the catalog.
    pub description: String,
    /// Version of the catalog specification in use.
    pub stac_version: String,
    /// License information.
    pub license: String,
    /// Extension schemas the catalog supports.
    pub stac_extensions: Vec<String>,
    /// Conformance classes the catalog declares.
    pub conforms_to: Vec<String>,
}

/// The server's addresses and port.
#[derive(Debug, Clone, PartialEq, Eq)]
pub struct ServerConfig {
    /// Address the listener binds to.
    pub internal_address: String,
    /// Address served to clients in generated URLs.
    pub external_address: String,
    /// Port number.
    pub port: u16,
    /// API version path, such as `/v1`.
    pub api_version: String,
}

/// Where the database file lives.
#[derive(Debug, Clone, PartialEq, Eq)]
pub struct DatabaseConfig {
    /// Database file path.
    pub path: String,
}

/// The whole configuration.
#[derive(Debug, Clone, PartialEq, Eq)]
pub struct Config {
    /// Catalog metadata.
    pub catalog: CatalogConfig,
    /// Server addresses and port.
    pub server: ServerConfig,
    /// Database location.
    pub database: DatabaseConfig,
    /// The application data directory, under which the database and the
    /// asset files live.
    pub data_dir: String,
}

/// Whether `c` is the stock configuration rooted at `data_dir`.
pub open spec fn is_stock_config(c: Config, data_dir: Seq<char>) -> bool {
    &&& c.data_dir@ == data_dir
    &&& c.catalog.id@ == "zenstac-catalog"@
    &&& c.catalog.title@ == "ZenSTAC Catalog"@
    &&& c.catalog.description@
        == "ZenSTAC is a lightweight, STAC-compliant server for seamless geospatial data management. Powered by Earthal Labs."@
    &&& c.catalog.stac_version@ == "1.0.0"@
    &&& c.catalog.license@ == "CC-BY-4.0"@
    &&& c.catalog.stac_extensions@.len() == 1
    &&& c.catalog.stac_extensions@[0]@ == "https://stac-extensions.github.io/eo/v1.0.0/schema.json"@
    &&& c.catalog.conforms_to@.len() == 7
    &&& c.catalog.conforms_to@[0]@ == "https://api.stacspec.org/v1.0.0/core"@
    &&& c.catalog.conforms_to@[1]@ == "https://api.stacspec.org/v1.0.0/collections"@
    &&& c.catalog.conforms_to@[2]@ == "https://api.stacspec.org/v1.0.0/item-search"@
    &&& c.catalog.conforms_to@[3]@ == "https://api.stacspec.org/v1.0.0/ogcapi-features"@
    &&& c.catalog.conforms_to@[4]@
        == "http://www.opengis.net/spec/ogcapi-features-1/1.0/conf/core"@
    &&& c.catalog.conforms_to@[5]@
        == "http://www.opengis.net/spec/ogcapi-features-1/1.0/conf/oas30"@
    &&& c.catalog.conforms_to@[6]@
        == "http://www.opengis.net/spec/ogcapi-features-1/1.0/conf/geojson"@
    &&& c.server.internal_address@ == "127.0.0.1"@
    &&& c.server.external_address@ == "127.0.0.1"@
    &&& c.server.port == 3000
    &&& c.server.api_version@ == "/v1"@
    &&& c.database.path@ == data_dir + "/zenstac.db"@
}

impl Config {
    /// The stock configuration rooted at the given data directory.
    pub fn for_data_dir(data_dir: String) -> (r: Config)
        ensures
            is_stock_config(r, data_dir@),
    {
        let mut stac_extensions: Vec<String> = Vec::new();
        stac_extensions.push("https://stac-extensions.github.io/eo/v1.0.0/schema.json".to_owned());
        let mut conforms_to: Vec<String> = Vec::new();
        conforms_to.push("https://api.stacspec.org/v1.0.0/core".to_owned());
        conforms_to.push("https://api.stacspec.org/v1.0.0/collections".to_owned());
        conforms_to.push("https://api.stacspec.org/v1.0.0/item-search".to_owned());
        conforms_to.push("https://api.stacspec.org/v1.0.0/ogcapi-features".to_owned());
        conforms_to.push("http://www.opengis.net/spec/ogcapi-features-1/1.0/conf/core".to_owned());
        conforms_to.push("http://www.opengis.net/spec/ogcapi-features-1/1.0/conf/oas30".to_owned());
        conforms_to.push(
            "http://www.opengis.net/spec/ogcapi-features-1/1.0/conf/geojson".to_owned(),
        );
        let mut db_path = data_dir.clone();
        db_path.append("/zenstac.db");
        Config {
            catalog: CatalogConfig {
                id: "zenstac-catalog".to_owned(),
                title: "ZenSTAC Catalog".to_owned(),
                description:
                    "ZenSTAC is a lightweight, STAC-compliant server for seamless geospatial data management. Powered by Earthal Labs.".to_owned(),
                stac_version: "1.0.0".to_owned(),
                license: "CC-BY-4.0".to_owned(),
                stac_extensions,
                conforms_to,
            },
            server: ServerConfig {
                internal_address: "127.0.0.1".to_owned(),
                external_address: "127.0.0.1".to_owned(),
                port: 3000,
                api_version: "/v1".to_owned(),
            },
            database: DatabaseConfig { path: db_path },
            data_dir,
        }
    }

    /// Overrides the server settings with values read from storage, keeping
    /// each current value where none was stored. A stored port takes effect
    /// only when it reads as a port number.
    pub fn apply_server_settings(
        &mut self,
        internal_address: Option<String>,
        external_address: Option<String>,
        port_text: Option<String>,
    )
        ensures
            final(self).catalog == old(self).catalog,
            final(self).database == old(self).database,
            final(self).data_dir == old(self).data_dir,
            final(self).server.api_version == old(self).server.api_version,
            final(self).server.internal_address == (if internal_address is Some {
                internal_address->Some_0
            } else {
                old(self).server.internal_address
            }),
            final(self).server.external_address == (if external_address is Some {
                external_address->Some_0
            } else {
                old(self).server.external_address
            }),
            final(self).server.port == (if port_text is Some && spec_parse_u16(
                port_text->Some_0@,
            ) is Some {
                spec_parse_u16(port_text->Some_0@)->Some_0
            } else {
                old(self).server.port
            }),
    {
        if let Some(addr) = internal_address {
            self.server.internal_address = addr;
        }
        if let Some(addr) = external_address {
            self.server.external_address = addr;
        }
        if let Some(text) = port_text {
            if let Some(port) = parse_u16(text.as_str()) {
                self.server.port = port;
            }
        }
    }

    /// The URL the listener binds to, as seen from this machine.
    pub open spec fn spec_internal_url(&self) -> Seq<char> {
        "http://"@ + self.server.internal_address@ + ":"@ + spec_dec(self.server.port as int)
    }

    /// The full internal server URL.
    pub fn internal_url(&self) -> (r: String)
        ensures
            r@ == self.spec_internal_url(),
    {
        let mut out = "http://".to_owned();
        out.append(self.server.internal_address.as_str());
        out.append(":");
        push_u64(&mut out, self.server.port as u64);
        proof {
            assert((("http://"@ + self.server.internal_address@) + ":"@) + spec_dec(
                self.server.port as int,
            ) =~= self.spec_internal_url());
        }
        out
    }

    /// The URL served to clients: the external address as given when it
    /// already carries a scheme, otherwise assembled with `http://` and the
    /// port; the API version path follows either way.
    pub open spec fn spec_external_url(&self) -> Seq<char> {
        if spec_starts_with(self.server.external_address@, "http://"@) || spec_starts_with(
            self.server.external_address@,
            "https://"@,
        ) {
            self.server.external_address@ + self.server.api_version@
        } else {
            "http://"@ + self.server.external_address@ + ":"@ + spec_dec(self.server.port as int)
                + self.server.api_version@
        }
    }

    /// The full external server URL.
    pub fn external_url(&self) -> (r: String)
        ensures
            r@ == self.spec_external_url(),
    {
        if starts_with(self.server.external_address.as_str(), "http://") || starts_with(
            self.server.external_address.as_str(),
            "https://",
        ) {
            let mut out = self.server.external_address.clone();
            out.append(self.server.api_version.as_str());
            out
        } else {
            let mut out = "http://".to_owned();
            out.append(self.server.external_address.as_str());
            out.append(":");
            push_u64(&mut out, self.server.port as u64);
            out.append(self.server.api_version.as_str());
            proof {
                assert(((("http://"@ + self.server.external_address@) + ":"@) + spec_dec(
                    self.server.port as int,
                )) + self.server.api_version@ =~= self.spec_external_url());
            }
            out
        }
    }

    /// The base URL for generated links; the external URL serves as it.
    pub open spec fn spec_base_url(&self) -> Seq<char> {
        self.spec_external_url()
    }

    /// The base URL for API endpoints.
    pub fn base_url(&self) -> (r: String)
        ensures
            r@ == self.spec_base_url(),
    {
        self.external_url()
    }

    /// The API version path, such as `/v1`.
    pub fn api_version_path(&self) -> (r: &str)
        ensures
            r@ == self.server.api_version@,
    {
        self.server.api_version.as_str()
    }

    /// The directory asset files live under.
    pub fn assets_dir(&self) -> (r: String)
        ensures
            r@ == self.data_dir@ + "/assets"@,
    {
        let mut out = self.data_dir.clone();
        out.append("/assets");
        out
    }
}

impl Default for Config {
    /// The stock configuration rooted at the fallback data directory.
    fn default() -> (r: Config)
        ensures
            is_stock_config(r, "data"@),
    {
        Config::for_data_dir("data".to_owned())
    }
}

} // verus!
