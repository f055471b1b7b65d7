use internetarchive_rs::urls::UrlParseError;
use internetarchive_rs::{Endpoint, SearchQuery, SearchSort, SortDirection};

#[test]
fn default_endpoints_match_archive_org() {
    let endpoint = Endpoint::default();
    assert_eq!(endpoint.archive_base(), "https://archive.org/");
    assert_eq!(endpoint.s3_base(), "https://s3.us.archive.org/");
    assert_eq!(
        endpoint.metadata_url("xfetch").unwrap(),
        "https://archive.org/metadata/xfetch"
    );
    assert_eq!(
        endpoint.download_url("xfetch", "xfetch.pdf").unwrap(),
        "https://archive.org/download/xfetch/xfetch.pdf"
    );
    assert_eq!(
        endpoint.details_url("xfetch").unwrap(),
        "https://archive.org/details/xfetch"
    );
    assert_eq!(
        endpoint.s3_item_url("xfetch").unwrap(),
        "https://s3.us.archive.org/xfetch"
    );
}

#[test]
fn custom_endpoints_are_normalized() {
    let endpoint =
        Endpoint::custom("http://localhost:3000/root", "http://localhost:3000/s3").unwrap();

    assert_eq!(endpoint.archive_base(), "http://localhost:3000/root/");
    assert_eq!(endpoint.s3_base(), "http://localhost:3000/s3/");
    assert_eq!(
        endpoint.search_url().unwrap(),
        "http://localhost:3000/root/advancedsearch.php"
    );
    assert_eq!(
        endpoint.s3_object_url("demo", "file.txt").unwrap(),
        "http://localhost:3000/s3/demo/file.txt"
    );
}

#[test]
fn limit_check_urls_include_expected_query_pairs() {
    let endpoint = Endpoint::default();
    let url = endpoint.s3_limit_check_url("abc", "demo").unwrap();
    assert!(url.contains("check_limit=1"));
    assert!(url.contains("accesskey=abc"));
    assert!(url.contains("bucket=demo"));
}

#[test]
fn custom_endpoints_reject_relative_roots() {
    assert_eq!(
        Endpoint::custom("not a url", "http://localhost:3000/s3").unwrap_err(),
        UrlParseError::RelativeUrlWithoutBase
    );
}

#[test]
fn endpoint_paths_are_joined_and_encoded_by_the_url_parser() {
    let endpoint = Endpoint::default();
    assert_eq!(
        endpoint.download_url("demo", "dir/file name.txt").unwrap(),
        "https://archive.org/download/demo/dir/file%20name.txt"
    );
}

#[test]
fn search_query_encodes_common_parameters() {
    let query = SearchQuery::builder("identifier:xfetch")
        .field("identifier")
        .field("title")
        .rows(10)
        .page(2)
        .sort("publicdate", SortDirection::Desc)
        .build();

    let url = query
        .into_url("https://archive.org/advancedsearch.php")
        .unwrap();

    assert!(url.contains("q=identifier%3Axfetch"));
    assert!(url.contains("fl%5B%5D=identifier"));
    assert!(url.contains("rows=10"));
    assert!(url.contains("page=2"));
    assert!(url.contains("sort%5B%5D=publicdate+desc"));
    assert!(url.contains("output=json"));
}

#[test]
fn identifier_query_accessors_and_extra_params_work() {
    let query = SearchQuery::builder(SearchQuery::identifier("demo-item").query())
        .field("identifier")
        .extra_param("mediatype", "texts")
        .sort("title", SortDirection::Asc)
        .build();

    assert_eq!(query.query(), "identifier:demo-item");
    assert_eq!(query.fields(), &["identifier".to_owned()]);

    let url = query
        .into_url("https://archive.org/advancedsearch.php")
        .unwrap();
    assert!(url.contains("mediatype=texts"));
    assert!(url.contains("sort%5B%5D=title+asc"));
}

#[test]
fn search_sort_new_preserves_field_and_direction() {
    let sort = SearchSort::new("publicdate", SortDirection::Asc);
    assert_eq!(sort.field, "publicdate");
    assert_eq!(sort.direction, SortDirection::Asc);
    assert_eq!(sort.as_param(), "publicdate asc");
}

#[test]
fn query_pairs_come_in_order() {
    let query = SearchQuery::builder("q1")
        .field("a")
        .field("b")
        .sort("s", SortDirection::Desc)
        .rows(3)
        .page(4)
        .build();
    let pairs = query.query_pairs();
    let names: Vec<&str> = pairs.iter().map(|(k, _)| k.as_str()).collect();
    assert_eq!(
        names,
        vec!["q", "output", "fl[]", "fl[]", "rows", "page", "sort[]"]
    );
    assert_eq!(pairs[0].1, "q1");
    assert_eq!(pairs[1].1, "json");
    assert_eq!(pairs[4].1, "3");
    assert_eq!(pairs[5].1, "4");
    assert_eq!(pairs[6].1, "s desc");
}
