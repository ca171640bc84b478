use zenstac::asset::{Asset, AssetRole};
use zenstac::collection::{Collection, Extent, SummaryValue};
use zenstac::conformance::{default_conforms_to, Conformance};
use zenstac::geometry::{calculate_bbox_for_geometry, Geometry};
use zenstac::item::Item;
use zenstac::properties::Properties;
use zenstac::provider::{Provider, ProviderRole};
use zenstac::range::{Range, RangeValue};
use zenstac::spatial_extent::SpatialExtent;
use zenstac::temporal_extent::TemporalExtent;
use zenstac::link::Link;

const M: i64 = 1_000_000;

fn one_asset() -> Vec<(String, Asset)> {
    vec![("data".to_string(), Asset::new("file.tif".to_string()))]
}

#[test]
fn asset_builders_set_their_fields() {
    let a = Asset::new("u".to_string())
        .with_title("t".to_string())
        .with_description("d".to_string())
        .with_type("image/png".to_string());
    assert_eq!(a.title.as_deref(), Some("t"));
    assert_eq!(a.description.as_deref(), Some("d"));
    assert_eq!(a.media_type.as_deref(), Some("image/png"));
    let th = Asset::thumbnail("u".to_string());
    assert_eq!(th.title.as_deref(), Some("Thumbnail"));
    assert_eq!(th.media_type.as_deref(), Some("image/jpeg"));
    assert_eq!(th.roles, Some(vec![AssetRole::Thumbnail]));
    let d = Asset::data("u".to_string(), "application/geotiff".to_string());
    assert_eq!(d.roles, Some(vec![AssetRole::Data]));
    let o = Asset::overview("u".to_string());
    assert_eq!(o.roles, Some(vec![AssetRole::Overview]));
    let m = Asset::metadata("u".to_string(), "application/xml".to_string());
    assert_eq!(m.roles, Some(vec![AssetRole::Metadata]));
    let mut a = Asset::new("u".to_string());
    a.add_role(AssetRole::Data);
    a.add_role(AssetRole::Overview);
    assert_eq!(a.roles, Some(vec![AssetRole::Data, AssetRole::Overview]));
}

#[test]
fn provider_roles_and_validity() {
    let mut p = Provider::new("org".to_string());
    assert!(!p.is_licensor());
    p.add_role(ProviderRole::Licensor);
    assert!(p.is_licensor());
    assert!(!p.is_host());
    assert!(p.is_valid());
    p.add_role(ProviderRole::Host);
    assert!(p.is_host());
    assert!(p.is_valid());
    p.add_role(ProviderRole::Host);
    assert!(!p.is_valid());
    let pr = Provider::producer("x".to_string(), Some("d".to_string()), None);
    assert!(pr.is_producer());
    assert_eq!(pr.primary_role(), Some(&ProviderRole::Producer));
    let multi = Provider::multi_role(
        "y".to_string(),
        vec![ProviderRole::Processor, ProviderRole::Host],
    );
    assert_eq!(
        multi.get_roles(),
        Some(&[ProviderRole::Processor, ProviderRole::Host][..])
    );
}

#[test]
fn conformance_lists_grow_in_order() {
    let mut c = Conformance::default();
    assert_eq!(c.conforms_to, vec!["https://api.stacspec.org/v1.0.0/core".to_string()]);
    c.add_conformance("a".to_string());
    c.add_conformances(vec!["b".to_string(), "c".to_string()]);
    assert_eq!(c.conforms_to.len(), 4);
    assert_eq!(c.conforms_to[3], "c");
    assert_eq!(default_conforms_to(), vec!["https://api.stacspec.org/v1.0.0/core".to_string()]);
}

#[test]
fn properties_validity_follows_the_timestamp_rules() {
    let p = Properties::new(Some("2022-06-01T00:00:00Z".to_string()));
    assert!(p.is_valid());
    assert!(p.has_valid_datetimes());
    let p = Properties::new(Some("not a time".to_string()));
    assert!(!p.is_valid());
    assert!(!p.has_valid_datetimes());
    let p = Properties::new(None);
    assert!(!p.is_valid());
    let p = Properties::with_datetime_range(
        "2020-01-01T00:00:00Z".to_string(),
        "2021-01-01T00:00:00Z".to_string(),
    );
    assert!(p.is_valid());
    assert!(p.has_valid_datetimes());
}

#[test]
fn properties_datetime_reads_as_an_instant() {
    let p = Properties::new(Some("1970-01-01T00:01:00Z".to_string()));
    assert_eq!(p.datetime_as_instant(), Some((60, 0)));
    let p = Properties::new(Some("1970-01-01T00:00:00.5Z".to_string()));
    assert_eq!(p.datetime_as_instant(), Some((0, 500_000_000)));
}

#[test]
fn item_basic_carries_a_self_link() {
    let it = Item::basic(
        "x1".to_string(),
        Properties::new(Some("2022-06-01T00:00:00Z".to_string())),
        one_asset(),
    );
    assert_eq!(it.kind, "Feature");
    assert_eq!(it.stac_version, "1.0.0");
    assert_eq!(it.links.len(), 1);
    assert_eq!(it.links[0].href, "/items/x1");
    assert_eq!(it.links[0].rel, "self");
    assert_eq!(it.links[0].title.as_deref(), Some("Item x1"));
    assert!(it.is_valid());
}

#[test]
fn item_point_collapses_bbox_onto_the_point() {
    let it = Item::point(
        "p".to_string(),
        Properties::new(Some("2022-06-01T00:00:00Z".to_string())),
        139_691_700,
        35_689_500,
        one_asset(),
    );
    assert_eq!(
        it.bbox,
        Some(vec![139_691_700, 35_689_500, 139_691_700, 35_689_500])
    );
}

#[test]
fn item_requires_bbox_when_geometry_present() {
    let it = Item::basic(
        "p".to_string(),
        Properties::new(Some("2022-06-01T00:00:00Z".to_string())),
        one_asset(),
    );
    let it = it.with_geometry(Geometry::Point { coordinates: vec![0, 0] });
    assert!(!it.has_valid_bbox());
    assert!(!it.is_valid());
    let it = it.with_bbox(vec![0, 0, 0, 0]);
    assert!(it.has_valid_bbox());
    assert!(it.is_valid());
}

#[test]
fn item_assets_replace_under_their_key() {
    let mut it = Item::basic(
        "p".to_string(),
        Properties::new(Some("2022-06-01T00:00:00Z".to_string())),
        one_asset(),
    );
    it.add_asset("thumb".to_string(), Asset::thumbnail("one".to_string()));
    it.add_asset("thumb".to_string(), Asset::thumbnail("two".to_string()));
    assert_eq!(it.assets.len(), 2);
    assert_eq!(it.get_asset("thumb").unwrap().href, "two");
    assert!(it.get_asset("absent").is_none());
    assert_eq!(it.get_thumbnail().unwrap().href, "two");
    assert_eq!(it.get_data_asset(), None);
}

#[test]
fn item_links_find_by_relationship() {
    let it = Item::basic(
        "p".to_string(),
        Properties::new(Some("2022-06-01T00:00:00Z".to_string())),
        one_asset(),
    );
    let it = it.with_stac_api_links("http://h:1/v1", "col");
    assert_eq!(it.links.len(), 4);
    assert_eq!(
        it.get_link_by_rel("collection").unwrap().href,
        "http://h:1/v1/collections/col"
    );
    assert_eq!(it.get_link_by_rel("root").unwrap().href, "http://h:1/v1/");
    assert!(it.get_link_by_rel("nothing").is_none());
    assert_eq!(it.get_links_by_rel("self").len(), 2);
}

#[test]
fn geometry_bbox_spans_the_positions() {
    let point = Geometry::Point { coordinates: vec![3 * M, 4 * M] };
    assert_eq!(calculate_bbox_for_geometry(&point), vec![3 * M, 4 * M, 3 * M, 4 * M]);

    let line = Geometry::LineString {
        coordinates: vec![vec![-M, 2 * M], vec![5 * M, -3 * M], vec![0, 0]],
    };
    assert_eq!(calculate_bbox_for_geometry(&line), vec![-M, -3 * M, 5 * M, 2 * M]);

    let empty_line = Geometry::LineString { coordinates: vec![] };
    assert_eq!(calculate_bbox_for_geometry(&empty_line), vec![0, 0, 0, 0]);

    let polygon = Geometry::Polygon {
        coordinates: vec![vec![
            vec![0, 0],
            vec![10 * M, 0],
            vec![10 * M, 10 * M],
            vec![0, 10 * M],
            vec![0, 0],
        ]],
    };
    assert_eq!(calculate_bbox_for_geometry(&polygon), vec![0, 0, 10 * M, 10 * M]);

    let multi = Geometry::MultiPolygon {
        coordinates: vec![
            vec![vec![vec![0, 0], vec![M, M]]],
            vec![vec![vec![-5 * M, 2 * M], vec![3 * M, 7 * M]]],
        ],
    };
    assert_eq!(calculate_bbox_for_geometry(&multi), vec![-5 * M, 0, 3 * M, 7 * M]);

    let gc = Geometry::GeometryCollection {
        geometries: vec![
            Geometry::Point { coordinates: vec![2 * M, 2 * M] },
            Geometry::Point { coordinates: vec![-M, 9 * M] },
        ],
    };
    assert_eq!(calculate_bbox_for_geometry(&gc), vec![-M, 2 * M, 2 * M, 9 * M]);
}

#[test]
fn item_polygon_bbox_comes_from_the_outer_ring() {
    let it = Item::polygon(
        "poly".to_string(),
        Properties::new(Some("2022-06-01T00:00:00Z".to_string())),
        vec![vec![vec![0, 0], vec![4 * M, 0], vec![4 * M, 2 * M], vec![0, 0]]],
        one_asset(),
    );
    assert_eq!(it.bbox, Some(vec![0, 0, 4 * M, 2 * M]));
}

#[test]
fn item_bbox_item_closes_its_ring() {
    let it = Item::bbox_item(
        "bb".to_string(),
        Properties::new(Some("2022-06-01T00:00:00Z".to_string())),
        vec![0, 0, M, M],
        one_asset(),
    );
    match it.geometry {
        Some(Geometry::Polygon { ref coordinates }) => {
            assert_eq!(coordinates.len(), 1);
            assert_eq!(coordinates[0].len(), 5);
            assert_eq!(coordinates[0][0], coordinates[0][4]);
        },
        _ => panic!("expected a polygon"),
    }
    assert_eq!(it.bbox, Some(vec![0, 0, M, M]));
}

#[test]
fn temporal_extent_builders_render_timestamps() {
    let y = TemporalExtent::year(2023);
    assert_eq!(
        y.interval,
        vec![vec![
            Some("2023-01-01T00:00:00Z".to_string()),
            Some("2023-12-31T23:59:59Z".to_string()),
        ]]
    );
    let m = TemporalExtent::month(2023, 12).unwrap();
    assert_eq!(
        m.interval,
        vec![vec![
            Some("2023-12-01T00:00:00Z".to_string()),
            Some("2024-01-01T00:00:00Z".to_string()),
        ]]
    );
    assert_eq!(
        TemporalExtent::month(2023, 13),
        Err("Month must be between 1 and 12".to_string())
    );
    let d = TemporalExtent::day(2023, 2, 5).unwrap();
    assert_eq!(
        d.interval,
        vec![vec![
            Some("2023-02-05T00:00:00Z".to_string()),
            Some("2023-02-05T23:59:59Z".to_string()),
        ]]
    );
    assert_eq!(
        TemporalExtent::day(2023, 2, 32),
        Err("Day must be between 1 and 31".to_string())
    );
}

#[test]
fn temporal_extent_validates_and_folds_instants() {
    let ext = TemporalExtent::from_rfc3339_interval(
        Some("2020-01-01T00:00:00Z"),
        Some("2021-01-01T00:00:00Z"),
    )
    .unwrap();
    assert!(ext.is_valid());
    assert!(ext.has_valid_timestamps());
    assert_eq!(
        TemporalExtent::from_rfc3339_interval(Some("bogus"), None),
        Err("Invalid RFC 3339 start timestamp: bogus".to_string())
    );
    assert_eq!(
        TemporalExtent::from_rfc3339_interval(Some("2020-01-01T00:00:00Z"), Some("nope")),
        Err("Invalid RFC 3339 end timestamp: nope".to_string())
    );

    let mut ext = TemporalExtent::single_interval(
        Some("1970-01-01T00:01:00Z".to_string()),
        Some("1970-01-01T00:02:00Z".to_string()),
    );
    ext.add_interval(
        Some("1970-01-01T00:00:30Z".to_string()),
        Some("1970-01-01T00:03:00Z".to_string()),
    );
    assert_eq!(ext.earliest_start(), Some((30, 0)));
    assert_eq!(ext.latest_end(), Some((180, 0)));
    assert_eq!(ext.overall_extent().unwrap().len(), 2);

    let open = TemporalExtent::open();
    assert_eq!(open.earliest_start(), None);
    assert_eq!(open.latest_end(), None);
    assert!(open.is_valid());
}

#[test]
fn spatial_extent_shapes_and_validity() {
    let e = SpatialExtent::whole_earth_2d();
    assert_eq!(e.bbox, vec![vec![-180 * M, -90 * M, 180 * M, 90 * M]]);
    assert!(e.is_2d());
    assert!(e.is_valid());
    assert_eq!(e.dimensions(), Some(2));
    let e3 = SpatialExtent::whole_earth_3d(-100 * M, 100 * M);
    assert!(e3.is_3d());
    assert_eq!(e3.dimensions(), Some(3));
    let mut mixed = SpatialExtent::from_2d_coords(0, 0, M, M);
    mixed.add_bbox(vec![0, 0, 0, M, M, M]);
    assert!(!mixed.is_valid());
    assert!(SpatialExtent::new(vec![]).overall_extent().is_none());
    assert!(SpatialExtent::single_2d_bbox(vec![1, 2, 3]).is_err());
    assert!(SpatialExtent::single_3d_bbox(vec![1, 2, 3, 4, 5, 6]).is_ok());
}

#[test]
fn range_bounds_and_membership() {
    let r = Range::numeric(0, 10 * M);
    assert!(r.is_numeric());
    assert!(r.is_valid());
    assert_eq!(r.min_number(), Some(0));
    assert_eq!(r.max_number(), Some(10 * M));
    assert_eq!(r.span(), Some(10 * M));
    assert!(r.contains_number(5 * M));
    assert!(!r.contains_number(11 * M));
    assert!(!r.contains_text("5"));

    let g = Range::grades();
    assert!(g.is_string());
    assert_eq!(g.min_string(), Some("A"));
    assert!(g.contains_text("B"));
    assert!(!g.contains_text("G"));

    let mixed = Range::new(RangeValue::Number(0), RangeValue::Text("x".to_string()));
    assert!(!mixed.is_valid());

    let feb = Range::month(2024, 2).unwrap();
    assert_eq!(feb.max_string(), Some("2024-02-29"));
    let feb = Range::month(2023, 2).unwrap();
    assert_eq!(feb.max_string(), Some("2023-02-28"));
    let apr = Range::month(2023, 4).unwrap();
    assert_eq!(apr.max_string(), Some("2023-04-30"));
    let year = Range::year(2023);
    assert_eq!(year.min_string(), Some("2023-01-01"));
    assert_eq!(year.max_string(), Some("2023-12-31"));
}

#[test]
fn collection_basic_and_maps() {
    let mut c = Collection::basic(
        "cities".to_string(),
        "Cities".to_string(),
        "All the cities".to_string(),
        "CC-BY-4.0".to_string(),
        SpatialExtent::whole_earth_2d(),
        TemporalExtent::open(),
    );
    assert!(c.is_valid());
    assert_eq!(c.links[0].href, "/collections/cities");
    assert_eq!(c.links[0].title.as_deref(), Some("Cities Collection"));
    c.add_summary(
        "population".to_string(),
        SummaryValue::Range(Range::numeric(0, 100)),
    );
    c.add_summary(
        "population".to_string(),
        SummaryValue::Range(Range::numeric(0, 200)),
    );
    let summaries = c.summaries.as_ref().unwrap();
    assert_eq!(summaries.len(), 1);
    match c.get_summary("population") {
        Some(SummaryValue::Range(r)) => assert_eq!(r.max_number(), Some(200)),
        None => panic!("summary missing"),
    }
    c.add_asset("thumb".to_string(), Asset::thumbnail("t".to_string()));
    assert_eq!(c.get_asset("thumb").unwrap().href, "t");
    assert!(c.get_asset("other").is_none());
    c.add_provider(Provider::new("org".to_string()));
    assert_eq!(c.providers.as_ref().unwrap().len(), 1);
    let c = c.with_stac_api_links("http://h:1/v1", "cities");
    assert_eq!(c.get_link_by_rel("items").unwrap().href, "http://h:1/v1/collections/cities/items");

    let ex = Extent::new(SpatialExtent::whole_earth_2d(), TemporalExtent::open());
    assert!(ex.spatial.is_2d());
}

#[test]
fn remaining_builders_set_their_fields() {
    let p = Provider::new("org".to_string())
        .with_description("d".to_string())
        .with_roles(vec![ProviderRole::Licensor])
        .with_url("https://example.net".to_string());
    assert_eq!(p.description.as_deref(), Some("d"));
    assert_eq!(p.roles, Some(vec![ProviderRole::Licensor]));
    assert_eq!(p.url.as_deref(), Some("https://example.net"));
    let h = Provider::host("h".to_string(), None, Some("u".to_string()));
    assert!(h.is_host());
    let pr = Provider::processor("p".to_string(), None, None);
    assert!(pr.is_processor());
    let li = Provider::licensor("l".to_string(), Some("u".to_string()));
    assert_eq!(li.url.as_deref(), Some("u"));

    let a = Asset::new("u".to_string()).with_roles(vec![AssetRole::Custom("web".to_string())]);
    assert_eq!(a.roles, Some(vec![AssetRole::Custom("web".to_string())]));

    let props = Properties::new(None)
        .with_license("MIT".to_string())
        .with_providers(vec!["org".to_string()])
        .with_platform("sat-1".to_string())
        .with_instruments(vec!["cam".to_string()])
        .with_constellation("flock".to_string())
        .with_mission("m1".to_string())
        .with_collection("c1".to_string())
        .with_gsd(1_500_000)
        .with_title("t".to_string())
        .with_description("d".to_string());
    assert_eq!(props.license.as_deref(), Some("MIT"));
    assert_eq!(props.gsd, Some(1_500_000));
    assert_eq!(props.platform.as_deref(), Some("sat-1"));
    let props = Properties::with_datetime_str("2020-01-01T00:00:00Z".to_string());
    assert_eq!(props.datetime.as_deref(), Some("2020-01-01T00:00:00Z"));

    let c = Conformance::new(vec!["x".to_string()]);
    assert_eq!(c.conforms_to, vec!["x".to_string()]);

    let e = TemporalExtent::new(vec![vec![None, None]]);
    assert!(e.is_valid());
    let e = TemporalExtent::from_start("2020-01-01T00:00:00Z".to_string());
    assert_eq!(e.interval[0][1], None);
    let e = TemporalExtent::until_end("2020-01-01T00:00:00Z".to_string());
    assert_eq!(e.interval[0][0], None);
    let e = TemporalExtent::single_interval_validated(
        Some("2020-01-01T00:00:00Z".to_string()),
        None,
    )
    .unwrap();
    assert!(e.has_valid_timestamps());
    assert!(TemporalExtent::single_interval_validated(Some("x".to_string()), None).is_err());

    let se = SpatialExtent::from_3d_coords(0, 0, -10, M, M, 10);
    assert_eq!(se.bbox[0].len(), 6);

    let r = Range::time_period("2020-01-01T00:00:00Z", "2021-01-01T00:00:00Z");
    assert_eq!(r.min_string(), Some("2020-01-01T00:00:00Z"));
    let r = Range::date_period("2020-01-01", "2021-01-01");
    assert_eq!(r.max_string(), Some("2021-01-01"));
    let r = Range::letter_grades();
    assert_eq!(r.min_string(), Some("A+"));
    assert_eq!(r.max_string(), Some("F-"));
    let r = Range::string_ref("a", "c");
    assert!(r.contains_text("b"));

    let it = Item::basic(
        "i".to_string(),
        Properties::new(Some("2020-01-01T00:00:00Z".to_string())),
        one_asset(),
    )
    .with_extensions(vec!["https://example.net/ext".to_string()])
    .with_collection("c1".to_string());
    assert_eq!(it.collection.as_deref(), Some("c1"));
    assert_eq!(it.stac_extensions, Some(vec!["https://example.net/ext".to_string()]));

    let mut col = Collection::new(
        "c".to_string(),
        "d".to_string(),
        "MIT".to_string(),
        Extent::new(SpatialExtent::whole_earth_2d(), TemporalExtent::open()),
        Vec::new(),
    )
    .with_title("T".to_string())
    .with_extensions(vec![])
    .with_keywords(vec!["k".to_string()])
    .with_providers(vec![])
    .with_summaries(vec![])
    .with_assets(vec![]);
    assert!(!col.is_valid());
    col.add_link(Link::simple(
        "/collections/c".to_string(),
        "self".to_string(),
        "application/json".to_string(),
        "T".to_string(),
    ));
    assert!(col.is_valid());
    assert_eq!(col.spatial_extent().bbox.len(), 1);
    assert_eq!(col.temporal_extent().interval.len(), 1);
    assert_eq!(col.keywords, Some(vec!["k".to_string()]));
}

#[test]
fn geometry_constructors_build_their_variants() {
    assert_eq!(
        Geometry::point(1, 2),
        Geometry::Point { coordinates: vec![1, 2] }
    );
    assert_eq!(
        Geometry::point_3d(1, 2, 3),
        Geometry::Point { coordinates: vec![1, 2, 3] }
    );
    assert_eq!(
        Geometry::line_string(vec![vec![0, 0]]),
        Geometry::LineString { coordinates: vec![vec![0, 0]] }
    );
    let rect = Geometry::polygon_from_bbox(0, 0, M, M);
    match &rect {
        Geometry::Polygon { coordinates } => {
            assert_eq!(coordinates[0].len(), 5);
            assert_eq!(coordinates[0][0], coordinates[0][4]);
            assert_eq!(coordinates[0][2], vec![M, M]);
        },
        _ => panic!("expected a polygon"),
    }
    assert_eq!(calculate_bbox_for_geometry(&rect), vec![0, 0, M, M]);
    assert_eq!(
        Geometry::multi_point(vec![vec![0, 0]]),
        Geometry::MultiPoint { coordinates: vec![vec![0, 0]] }
    );
    assert_eq!(
        Geometry::geometry_collection(vec![Geometry::point(1, 1)]),
        Geometry::GeometryCollection { geometries: vec![Geometry::point(1, 1)] }
    );
    assert_eq!(
        Geometry::multi_line_string(vec![]),
        Geometry::MultiLineString { coordinates: vec![] }
    );
    assert_eq!(
        Geometry::multi_polygon(vec![]),
        Geometry::MultiPolygon { coordinates: vec![] }
    );
    assert_eq!(
        Geometry::polygon(vec![]),
        Geometry::Polygon { coordinates: vec![] }
    );
}

#[test]
fn collection_links_find_by_relationship() {
    let c = Collection::basic(
        "c".to_string(),
        "T".to_string(),
        "d".to_string(),
        "MIT".to_string(),
        SpatialExtent::whole_earth_2d(),
        TemporalExtent::open(),
    )
    .with_stac_api_links("http://h:1/v1", "c");
    assert_eq!(c.get_links_by_rel("self").len(), 2);
    assert_eq!(c.get_links_by_rel("items").len(), 1);
    assert_eq!(c.get_links_by_rel("nothing").len(), 0);
}
