//! Building the request that addresses one tile on the remote image server.
//!
//! A tile is addressed by the target file (`image_root/filename`), the zoom
//! level and the row-major tile index, with the output requested as JPEG:
//! `<server>?FIF=<dir>/<file>&JTL=<zoom>,<index>&CVT=JPEG`. This shape is a
//! compatibility contract with the remote server, not a free choice: any
//! deviation addresses the wrong tile or nothing at all.

use crate::{Page, Settings};
use vstd::prelude::*;
use vstd::string::StringExecFns;

verus! {

/// The digit character for `d` in `0 ..= 9`.
pub open spec fn digit_char(d: int) -> char {
    ((48 + d) as u8) as char
}

/// The decimal digits of `v`, most significant first, no sign and no
/// leading zero (a single zero for `v == 0`).
pub open spec fn spec_decimal_digits(v: int) -> Seq<char>
    decreases v,
{
    if v < 10 {
        seq![digit_char(v)]
    } else {
        spec_decimal_digits(v / 10).push(digit_char(v % 10))
    }
}

/// The exact character sequence of the tile-fetch URL for the given server,
/// image directory, filename, zoom level and tile index.
pub open spec fn spec_tile_url(
    server: Seq<char>,
    image_dir: Seq<char>,
    filename: Seq<char>,
    zoom: u32,
    index: u32,
) -> Seq<char> {
    server + "?FIF="@ + image_dir + "/"@ + filename + "&JTL="@ + spec_decimal_digits(zoom as int)
        + ","@ + spec_decimal_digits(index as int) + "&CVT=JPEG"@
}

/// Renders `value` in decimal, exactly as `spec_decimal_digits` says.
pub fn u32_to_decimal(value: u32) -> (rendered: String)
    ensures
        rendered@ == spec_decimal_digits(value as int),
    decreases value,
{
    let digit = value % 10;
    let digit_str: &str = match digit {
        0 => "0",
        1 => "1",
        2 => "2",
        3 => "3",
        4 => "4",
        5 => "5",
        6 => "6",
        7 => "7",
        8 => "8",
        _ => "9",
    };
    proof {
        reveal_strlit("0");
        reveal_strlit("1");
        reveal_strlit("2");
        reveal_strlit("3");
        reveal_strlit("4");
        reveal_strlit("5");
        reveal_strlit("6");
        reveal_strlit("7");
        reveal_strlit("8");
        reveal_strlit("9");
        assert(digit_str@ =~= seq![digit_char(digit as int)]);
    }
    if value < 10 {
        String::from_str(digit_str)
    } else {
        let mut rendered = u32_to_decimal(value / 10);
        rendered.append(digit_str);
        proof {
            assert(rendered@ =~= spec_decimal_digits(value as int));
        }
        rendered
    }
}

/// Builds the URL that fetches one tile: the server's address, the target
/// file under the image root, the `zoom,index` tile coordinate, and the
/// JPEG output request, character for character as `spec_tile_url` says.
pub fn build_tile_url(settings: &Settings, page: &Page, zoom: u32, index: u32) -> (url: String)
    ensures
        url@ == spec_tile_url(
            settings.iip_server_url@,
            settings.image_dir@,
            page.filename@,
            zoom,
            index,
        ),
{
    let mut url = String::new();
    url.append(settings.iip_server_url.as_str());
    url.append("?FIF=");
    url.append(settings.image_dir.as_str());
    url.append("/");
    url.append(page.filename.as_str());
    url.append("&JTL=");
    let zoom_digits = u32_to_decimal(zoom);
    url.append(zoom_digits.as_str());
    url.append(",");
    let index_digits = u32_to_decimal(index);
    url.append(index_digits.as_str());
    url.append("&CVT=JPEG");
    proof {
        assert(url@ =~= spec_tile_url(
            settings.iip_server_url@,
            settings.image_dir@,
            page.filename@,
            zoom,
            index,
        ));
    }
    url
}

} // verus!
