use zenstac::config::Config;
use zenstac::handlers::{
    content_type_for_extension, database_status, delete_precheck, missing_collection_field,
    missing_item_field, mismatch_message, redirect_target, uploaded_asset, validate_collection_body,
    validate_item_body, BodyMismatch, Precheck, StoreLookup,
};
use zenstac::asset::AssetRole;
use zenstac::catalog::root_catalog;
use zenstac::numeral::{parse_coord, parse_u16};
use zenstac::urls::ServerConfig;

#[test]
fn stock_config_has_the_expected_values() {
    let c = Config::default();
    assert_eq!(c.catalog.id, "zenstac-catalog");
    assert_eq!(c.catalog.title, "ZenSTAC Catalog");
    assert_eq!(c.catalog.stac_version, "1.0.0");
    assert_eq!(c.catalog.license, "CC-BY-4.0");
    assert_eq!(c.catalog.conforms_to.len(), 7);
    assert_eq!(c.server.internal_address, "127.0.0.1");
    assert_eq!(c.server.external_address, "127.0.0.1");
    assert_eq!(c.server.port, 3000);
    assert_eq!(c.server.api_version, "/v1");
    assert_eq!(c.database.path, "data/zenstac.db");
    assert_eq!(c.assets_dir(), "data/assets");
    let c = Config::for_data_dir("/srv/app".to_string());
    assert_eq!(c.database.path, "/srv/app/zenstac.db");
    assert_eq!(c.assets_dir(), "/srv/app/assets");
}

#[test]
fn urls_are_assembled_from_the_settings() {
    let c = Config::default();
    assert_eq!(c.internal_url(), "http://127.0.0.1:3000");
    assert_eq!(c.external_url(), "http://127.0.0.1:3000/v1");
    assert_eq!(c.base_url(), "http://127.0.0.1:3000/v1");
    assert_eq!(c.api_version_path(), "/v1");
    let mut c = Config::default();
    c.server.external_address = "https://maps.example.net".to_string();
    assert_eq!(c.external_url(), "https://maps.example.net/v1");
}

#[test]
fn server_settings_apply_only_when_readable() {
    let mut c = Config::default();
    c.apply_server_settings(
        Some("0.0.0.0".to_string()),
        None,
        Some("8080".to_string()),
    );
    assert_eq!(c.server.internal_address, "0.0.0.0");
    assert_eq!(c.server.external_address, "127.0.0.1");
    assert_eq!(c.server.port, 8080);
    c.apply_server_settings(None, None, Some("not-a-port".to_string()));
    assert_eq!(c.server.port, 8080);
    c.apply_server_settings(None, None, Some("70000".to_string()));
    assert_eq!(c.server.port, 8080);
}

#[test]
fn port_strings_parse_like_ports() {
    assert_eq!(parse_u16("3000"), Some(3000));
    assert_eq!(parse_u16("+443"), Some(443));
    assert_eq!(parse_u16("65535"), Some(65535));
    assert_eq!(parse_u16("65536"), None);
    assert_eq!(parse_u16(""), None);
    assert_eq!(parse_u16("-1"), None);
    assert_eq!(parse_u16("80a"), None);
}

#[test]
fn coordinates_parse_in_millionths() {
    assert_eq!(parse_coord("1"), Some(1_000_000));
    assert_eq!(parse_coord("-5.25"), Some(-5_250_000));
    assert_eq!(parse_coord(".5"), Some(500_000));
    assert_eq!(parse_coord("3."), Some(3_000_000));
    assert_eq!(parse_coord("0.1234569"), Some(123_456));
    assert_eq!(parse_coord(""), None);
    assert_eq!(parse_coord("."), None);
    assert_eq!(parse_coord("1.2.3"), None);
    assert_eq!(parse_coord("abc"), None);
    assert_eq!(parse_coord("1e5"), None);
}

#[test]
fn hrefs_join_under_the_base_url() {
    let sc = ServerConfig { base_url: "http://127.0.0.1:3000/v1/".to_string() };
    assert_eq!(sc.root_href(), "http://127.0.0.1:3000/v1/");
    assert_eq!(sc.href("conformance"), "http://127.0.0.1:3000/v1/conformance");
    assert_eq!(sc.href("/leading"), "http://127.0.0.1:3000/v1/leading");
    assert_eq!(sc.href("https://elsewhere.example.net/x"), "https://elsewhere.example.net/x");
    assert_eq!(sc.collections_href(), "http://127.0.0.1:3000/v1/collections");
    assert_eq!(sc.collection_href("c1"), "http://127.0.0.1:3000/v1/collections/c1");
    assert_eq!(
        sc.collection_items_href("c1"),
        "http://127.0.0.1:3000/v1/collections/c1/items"
    );
    assert_eq!(sc.item_href("c1", "i1"), "http://127.0.0.1:3000/v1/collections/c1/items/i1");
    assert_eq!(
        sc.asset_href("c1", "i1", "img.png"),
        "http://127.0.0.1:3000/v1/collections/c1/items/i1/img.png"
    );
    assert_eq!(sc.api_href(), "http://127.0.0.1:3000/v1/api");
    assert_eq!(sc.api_html_href(), "http://127.0.0.1:3000/v1/api.html");
    assert_eq!(sc.search_href(), "http://127.0.0.1:3000/v1/search");
    assert_eq!(sc.conformance_href(), "http://127.0.0.1:3000/v1/conformance");
    let default = ServerConfig::default();
    assert_eq!(default.base_url, "http://127.0.0.1:3000");
    let from = ServerConfig::from_config(&Config::default());
    assert_eq!(from.base_url, "http://127.0.0.1:3000/v1");
}

#[test]
fn content_types_follow_the_extension() {
    assert_eq!(content_type_for_extension("JPG"), "image/jpeg");
    assert_eq!(content_type_for_extension("jpeg"), "image/jpeg");
    assert_eq!(content_type_for_extension("png"), "image/png");
    assert_eq!(content_type_for_extension("gif"), "image/gif");
    assert_eq!(content_type_for_extension("webp"), "image/webp");
    assert_eq!(content_type_for_extension("svg"), "image/svg+xml");
    assert_eq!(content_type_for_extension("TIFF"), "image/tiff");
    assert_eq!(content_type_for_extension("pdf"), "application/pdf");
    assert_eq!(content_type_for_extension("json"), "application/json");
    assert_eq!(content_type_for_extension("xml"), "application/xml");
    assert_eq!(content_type_for_extension("txt"), "text/plain");
    assert_eq!(content_type_for_extension("csv"), "text/csv");
    assert_eq!(content_type_for_extension("bin"), "application/octet-stream");
}

#[test]
fn uploaded_assets_get_role_and_description() {
    let a = uploaded_asset(
        "http://h/u".to_string(),
        "image/png".to_string(),
        "pic.png".to_string(),
        "thumbnail",
    );
    assert_eq!(a.roles, Some(vec![AssetRole::Thumbnail]));
    assert_eq!(a.description.as_deref(), Some("Uploaded asset: pic.png"));
    let a = uploaded_asset(
        "http://h/u".to_string(),
        "image/png".to_string(),
        "pic.png".to_string(),
        "other",
    );
    assert_eq!(a.roles, Some(vec![AssetRole::Overview]));
    let a = uploaded_asset(
        "http://h/u".to_string(),
        "application/geotiff".to_string(),
        "scene.tif".to_string(),
        "raw",
    );
    assert_eq!(a.roles, Some(vec![AssetRole::Data]));
    assert_eq!(a.title.as_deref(), Some("scene.tif"));
    assert_eq!(a.media_type.as_deref(), Some("application/geotiff"));
}

#[test]
fn body_validation_matches_path_parameters() {
    assert!(validate_item_body("i1", &Some("c1".to_string()), "c1", "i1").is_ok());
    assert_eq!(
        validate_item_body("other", &Some("c1".to_string()), "c1", "i1"),
        Err(BodyMismatch::ItemId)
    );
    assert_eq!(
        validate_item_body("i1", &Some("other".to_string()), "c1", "i1"),
        Err(BodyMismatch::CollectionId)
    );
    assert_eq!(validate_item_body("i1", &None, "c1", "i1"), Err(BodyMismatch::CollectionId));
    assert!(validate_collection_body("c1", "c1").is_ok());
    assert_eq!(validate_collection_body("c2", "c1"), Err(BodyMismatch::CollectionId));
    assert_eq!(
        mismatch_message(&BodyMismatch::ItemId),
        "Item ID in request body does not match path parameter"
    );
    assert_eq!(
        mismatch_message(&BodyMismatch::CollectionId),
        "Collection ID in request body does not match path parameter"
    );
}

#[test]
fn missing_fields_report_the_first_gap() {
    assert_eq!(missing_collection_field(false, true, true), Some("id"));
    assert_eq!(missing_collection_field(true, false, true), Some("description"));
    assert_eq!(missing_collection_field(true, true, false), Some("license"));
    assert_eq!(missing_collection_field(true, true, true), None);
    assert_eq!(missing_item_field(false, true, true, true), Some("id"));
    assert_eq!(missing_item_field(true, false, true, true), Some("geometry"));
    assert_eq!(missing_item_field(true, true, false, true), Some("properties"));
    assert_eq!(missing_item_field(true, true, true, false), Some("assets"));
    assert_eq!(missing_item_field(true, true, true, true), None);
}

#[test]
fn prechecks_follow_the_lookup() {
    assert_eq!(delete_precheck(&StoreLookup::Found), Precheck::Proceed);
    assert_eq!(delete_precheck(&StoreLookup::NotFound), Precheck::RespondNotFound);
    assert_eq!(delete_precheck(&StoreLookup::StoreError), Precheck::RespondStoreError);
}

#[test]
fn trailing_slashes_redirect_only_on_get() {
    assert_eq!(
        redirect_target("/v1/collections/", None, true),
        Some("/v1/collections".to_string())
    );
    assert_eq!(
        redirect_target("/v1/collections//", Some("limit=5"), true),
        Some("/v1/collections?limit=5".to_string())
    );
    assert_eq!(redirect_target("/v1/collections/", None, false), None);
    assert_eq!(redirect_target("/", None, true), None);
    assert_eq!(redirect_target("/v1/collections", None, true), None);
}

#[test]
fn database_status_sums_entry_counts() {
    let s = database_status(2, &vec![3, 4]);
    assert_eq!(s.collections_count, 2);
    assert_eq!(s.total_items_count, 7);
    assert!(!s.is_empty);
    let s = database_status(0, &vec![]);
    assert_eq!(s.total_items_count, 0);
    assert!(s.is_empty);
}

#[test]
fn root_catalog_carries_the_landing_links() {
    let config = Config::default();
    let sc = ServerConfig::from_config(&config);
    let cat = root_catalog(&config, &sc);
    assert_eq!(cat.kind, "Catalog");
    assert_eq!(cat.id, "zenstac-catalog");
    assert_eq!(cat.links.len(), 8);
    assert_eq!(cat.links[0].rel, "self");
    assert_eq!(cat.links[0].href, "http://127.0.0.1:3000/v1");
    assert_eq!(cat.links[5].rel, "search");
    assert_eq!(cat.links[5].href, "http://127.0.0.1:3000/v1/search");
    assert_eq!(cat.conforms_to.len(), 7);
}
