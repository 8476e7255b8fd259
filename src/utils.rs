use vstd::prelude::*;
use vstd::utf8::encode_utf8;

use crate::fields::{lookup, FieldView, HeaderField, HeaderMap};
use crate::http::Encoding;
use crate::response::{accepted_codings, codings_all, lists_gzip};
use crate::split::{decode_all, decode_pieces, segments_from, split_segments};

verus! {

broadcast use vstd::string::group_string_axioms;

/// The non-empty pieces of a path between slashes.
pub fn get_path_parts(s: &str) -> (r: Vec<String>)
    ensures
        crate::fields::strings_view(r@) == decode_all(segments_from(encode_utf8(s@), 0)),
{
    let bytes = s.as_bytes();
    proof {
        vstd::utf8::encode_utf8_valid_utf8(s@);
    }
    let pieces = split_segments(bytes);
    decode_pieces(&pieces)
}

/// The value of a header as a handler reads it. For `Accept-Encoding` that
/// is `gzip` where a token between the commas of a listed item is `gzip`,
/// and nothing otherwise; for any other name it is the header's value.
pub open spec fn header_value(name: Seq<char>, hs: Seq<(Seq<char>, FieldView)>) -> Option<Seq<char>> {
    if name == "Accept-Encoding"@ {
        match lookup(hs, name) {
            Some(FieldView::Multiple(v)) => if codings_all(v).contains(Encoding::Gzip) {
                Some("gzip"@)
            } else {
                None
            },
            _ => None,
        }
    } else {
        match lookup(hs, name) {
            Some(FieldView::Single(s)) => Some(s),
            _ => None,
        }
    }
}

/// The value of the header named `val`, as `header_value` says.
pub fn get_header_value(val: &str, headers: &HeaderMap) -> (r: Option<String>)
    ensures
        match r {
            Some(s) => header_value(val@, headers@) == Some(s@),
            None => header_value(val@, headers@) is None,
        },
{
    let name = val.to_string();
    let accept = "Accept-Encoding".to_string();
    let found = headers.get(val);
    if name == accept {
        match found {
            Some(HeaderField::Multiple(v)) => {
                if lists_gzip(&accepted_codings(v)) {
                    Some("gzip".to_string())
                } else {
                    None
                }
            },
            _ => None,
        }
    } else {
        match found {
            Some(HeaderField::Single(s)) => Some(s.clone()),
            _ => None,
        }
    }
}

} // verus!
