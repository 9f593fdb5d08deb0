use tilebook::errors::PageSpecError;
use tilebook::pagespec::parse_page_specifier;
use tilebook::request::{build_tile_url, u32_to_decimal};
use tilebook::{Page, Settings};

#[test]
fn single_page_and_plain_range() {
    assert_eq!(parse_page_specifier("3", 10), Ok(vec![3]));
    assert_eq!(parse_page_specifier("4-7", 10), Ok(vec![4, 5, 6, 7]));
}

#[test]
fn open_range_runs_to_page_count() {
    assert_eq!(parse_page_specifier("1-", 5), Ok(vec![1, 2, 3, 4, 5]));
    assert_eq!(parse_page_specifier("4-", 5), Ok(vec![4, 5]));
}

#[test]
fn mixed_specifier_concatenates_in_order() {
    assert_eq!(
        parse_page_specifier("1,4-7,9-", 12),
        Ok(vec![1, 4, 5, 6, 7, 9, 10, 11, 12])
    );
}

#[test]
fn leading_plus_parses_like_the_standard_library() {
    assert_eq!(parse_page_specifier("+5", 9), Ok(vec![5]));
    assert_eq!(parse_page_specifier("+2-+4", 9), Ok(vec![2, 3, 4]));
}

#[test]
fn extra_dash_pieces_are_ignored() {
    assert_eq!(parse_page_specifier("1-2-3", 9), Ok(vec![1, 2]));
    assert_eq!(parse_page_specifier("1-2-x", 9), Ok(vec![1, 2]));
}

#[test]
fn reversed_range_is_empty() {
    assert_eq!(parse_page_specifier("5-3", 9), Ok(vec![]));
}

#[test]
fn malformed_specifiers_fail() {
    assert_eq!(parse_page_specifier("", 5), Err(PageSpecError::InvalidNumber));
    assert_eq!(parse_page_specifier("x", 5), Err(PageSpecError::InvalidNumber));
    assert_eq!(parse_page_specifier("1,", 5), Err(PageSpecError::InvalidNumber));
    assert_eq!(parse_page_specifier("-5", 5), Err(PageSpecError::InvalidNumber));
    assert_eq!(parse_page_specifier("1,,3", 5), Err(PageSpecError::InvalidNumber));
}

#[test]
fn out_of_range_numbers_fail() {
    assert_eq!(parse_page_specifier("4294967295", 5), Ok(vec![4294967295]));
    assert_eq!(
        parse_page_specifier("4294967296", 5),
        Err(PageSpecError::InvalidNumber)
    );
}

#[test]
fn decimal_rendering() {
    assert_eq!(u32_to_decimal(0), "0");
    assert_eq!(u32_to_decimal(7), "7");
    assert_eq!(u32_to_decimal(10), "10");
    assert_eq!(u32_to_decimal(250), "250");
    assert_eq!(u32_to_decimal(4294967295), "4294967295");
}

#[test]
fn tile_url_has_the_exact_server_shape() {
    let settings = Settings {
        iip_server_url: String::from("https://example.org/fcgi-bin/iipsrv.fcgi"),
        image_dir: String::from("/var/www/images"),
        object_data: String::from("unused-here"),
    };
    let page = Page {
        zoom: 4,
        width: 600,
        height: 300,
        filename: String::from("scan_0001.tif"),
    };
    let url = build_tile_url(&settings, &page, page.zoom, 5);
    assert_eq!(
        url,
        "https://example.org/fcgi-bin/iipsrv.fcgi?FIF=/var/www/images/scan_0001.tif&JTL=4,5&CVT=JPEG"
    );
}
