use vstd::prelude::*;
use vstd::utf8::{decode_utf8, valid_utf8};

use crate::fields::strings_view;
use crate::scan::{find_byte, find_byte_exec, lemma_ascii_cut, lemma_find_byte};
use crate::text::utf8_string;

verus! {

/// The non-empty pieces of `p[i..]` between slashes.
pub open spec fn segments_from(p: Seq<u8>, i: int) -> Seq<Seq<u8>>
    decreases p.len() - i,
{
    if 0 <= i < p.len() {
        let k = find_byte(p, 47, i);
        proof {
            lemma_find_byte(p, 47, i);
        }
        let rest = if k < p.len() {
            segments_from(p, k + 1)
        } else {
            Seq::empty()
        };
        if k == i {
            rest
        } else {
            seq![p.subrange(i, k)] + rest
        }
    } else {
        Seq::empty()
    }
}

/// The first index at or after `i` where `", "` starts, or the end of `s`.
pub open spec fn find_sep(s: Seq<u8>, i: int) -> int
    decreases s.len() - i,
{
    if 0 <= i < s.len() && !(s[i] == 44 && i + 1 < s.len() && s[i + 1] == 32) {
        find_sep(s, i + 1)
    } else {
        i
    }
}

/// The pieces of `s[i..]` between occurrences of `", "`, empty ones included.
pub open spec fn items_from(s: Seq<u8>, i: int) -> Seq<Seq<u8>>
    decreases s.len() - i,
{
    if 0 <= i <= s.len() {
        let k = find_sep(s, i);
        proof {
            lemma_find_sep(s, i);
        }
        if k < s.len() {
            seq![s.subrange(i, k)] + items_from(s, k + 2)
        } else {
            seq![s.subrange(i, s.len() as int)]
        }
    } else {
        Seq::empty()
    }
}

/// The pieces of `s[i..]` between commas, empty ones included.
pub open spec fn comma_pieces(s: Seq<u8>, i: int) -> Seq<Seq<u8>>
    decreases s.len() - i,
{
    if 0 <= i <= s.len() {
        let k = find_byte(s, 44, i);
        proof {
            lemma_find_byte(s, 44, i);
        }
        if k < s.len() {
            seq![s.subrange(i, k)] + comma_pieces(s, k + 1)
        } else {
            seq![s.subrange(i, s.len() as int)]
        }
    } else {
        Seq::empty()
    }
}

/// The characters that each piece of valid UTF-8 encodes.
pub open spec fn decode_all(pieces: Seq<Seq<u8>>) -> Seq<Seq<char>> {
    pieces.map_values(|b: Seq<u8>| decode_utf8(b))
}

pub open spec fn bytes_view(v: Seq<Vec<u8>>) -> Seq<Seq<u8>> {
    v.map_values(|b: Vec<u8>| b@)
}

pub proof fn lemma_find_sep(s: Seq<u8>, i: int)
    requires
        0 <= i <= s.len(),
    ensures
        i <= find_sep(s, i) <= s.len(),
        find_sep(s, i) < s.len() ==> find_sep(s, i) + 1 < s.len() && s[find_sep(s, i)] == 44
            && s[find_sep(s, i) + 1] == 32,
    decreases s.len() - i,
{
    if i < s.len() && !(s[i] == 44 && i + 1 < s.len() && s[i + 1] == 32) {
        lemma_find_sep(s, i + 1);
    }
}

/// Splits a path into its non-empty pieces between slashes.
pub fn split_segments(p: &[u8]) -> (r: Vec<Vec<u8>>)
    ensures
        bytes_view(r@) == segments_from(p@, 0),
        valid_utf8(p@) ==> forall|j: int| 0 <= j < r@.len() ==> valid_utf8(#[trigger] r@[j]@),
{
    let mut out: Vec<Vec<u8>> = Vec::new();
    let mut i: usize = 0;
    while i < p.len()
        invariant
            i <= p@.len(),
            bytes_view(out@) + segments_from(p@, i as int) == segments_from(p@, 0),
            i == 0 || p@[i - 1] == 47,
            valid_utf8(p@) ==> forall|j: int| 0 <= j < out@.len() ==> valid_utf8(#[trigger] out@[j]@),
        decreases p@.len() - i,
    {
        let k = find_byte_exec(p, 47u8, i);
        proof {
            lemma_find_byte(p@, 47, i as int);
        }
        let ghost before = bytes_view(out@);
        if k > i {
            let piece = vstd::slice::slice_to_vec(vstd::slice::slice_subrange(p, i, k));
            proof {
                if valid_utf8(p@) {
                    lemma_ascii_cut(p@, i as int, k as int);
                }
            }
            out.push(piece);
            assert(bytes_view(out@) =~= before.push(p@.subrange(i as int, k as int)));
        }
        if k < p.len() {
            assert(bytes_view(out@) + segments_from(p@, k + 1) =~= segments_from(p@, 0));
            i = k + 1;
        } else {
            assert(bytes_view(out@) =~= segments_from(p@, 0));
            return out;
        }
    }
    assert(bytes_view(out@) =~= segments_from(p@, 0));
    out
}

/// Splits a list-valued header into its items between `", "`.
pub fn split_items(s: &[u8]) -> (r: Vec<Vec<u8>>)
    ensures
        bytes_view(r@) == items_from(s@, 0),
        valid_utf8(s@) ==> forall|j: int| 0 <= j < r@.len() ==> valid_utf8(#[trigger] r@[j]@),
{
    let mut out: Vec<Vec<u8>> = Vec::new();
    let mut i: usize = 0;
    loop
        invariant
            i <= s@.len(),
            bytes_view(out@) + items_from(s@, i as int) == items_from(s@, 0),
            i == 0 || s@[i - 1] == 32,
            valid_utf8(s@) ==> forall|j: int| 0 <= j < out@.len() ==> valid_utf8(#[trigger] out@[j]@),
        decreases s@.len() - i,
    {
        let mut k = i;
        while k < s.len() && !(s[k] == 44u8 && k + 1 < s.len() && s[k + 1] == 32u8)
            invariant
                i <= k <= s@.len(),
                find_sep(s@, i as int) == find_sep(s@, k as int),
            decreases s@.len() - k,
        {
            k += 1;
        }
        proof {
            lemma_find_sep(s@, i as int);
        }
        let ghost before = bytes_view(out@);
        let piece = vstd::slice::slice_to_vec(vstd::slice::slice_subrange(s, i, k));
        proof {
            if valid_utf8(s@) {
                lemma_ascii_cut(s@, i as int, k as int);
            }
        }
        out.push(piece);
        assert(bytes_view(out@) =~= before.push(s@.subrange(i as int, k as int)));
        if k < s.len() {
            assert(bytes_view(out@) + items_from(s@, k + 2) =~= items_from(s@, 0));
            i = k + 2;
        } else {
            assert(bytes_view(out@) =~= items_from(s@, 0));
            return out;
        }
    }
}

/// Splits bytes into their pieces between commas.
pub fn split_commas(s: &[u8]) -> (r: Vec<Vec<u8>>)
    ensures
        bytes_view(r@) == comma_pieces(s@, 0),
{
    let mut out: Vec<Vec<u8>> = Vec::new();
    let mut i: usize = 0;
    loop
        invariant
            i <= s@.len(),
            bytes_view(out@) + comma_pieces(s@, i as int) == comma_pieces(s@, 0),
        decreases s@.len() - i,
    {
        let k = find_byte_exec(s, 44u8, i);
        proof {
            lemma_find_byte(s@, 44, i as int);
        }
        let ghost before = bytes_view(out@);
        out.push(vstd::slice::slice_to_vec(vstd::slice::slice_subrange(s, i, k)));
        assert(bytes_view(out@) =~= before.push(s@.subrange(i as int, k as int)));
        if k < s.len() {
            assert(bytes_view(out@) + comma_pieces(s@, k + 1) =~= comma_pieces(s@, 0));
            i = k + 1;
        } else {
            assert(bytes_view(out@) =~= comma_pieces(s@, 0));
            return out;
        }
    }
}

/// The strings that pieces of valid UTF-8 encode.
pub fn decode_pieces(v: &Vec<Vec<u8>>) -> (r: Vec<String>)
    requires
        forall|j: int| 0 <= j < v@.len() ==> valid_utf8(#[trigger] v@[j]@),
    ensures
        strings_view(r@) == decode_all(bytes_view(v@)),
{
    let mut out: Vec<String> = Vec::new();
    let mut i: usize = 0;
    while i < v.len()
        invariant
            i <= v@.len(),
            forall|j: int| 0 <= j < v@.len() ==> valid_utf8(#[trigger] v@[j]@),
            strings_view(out@) == decode_all(bytes_view(v@.subrange(0, i as int))),
        decreases v@.len() - i,
    {
        let ghost before = out@;
        let b = v[i].as_slice();
        assert(b@ == v@[i as int]@);
        assert(valid_utf8(v@[i as int]@));
        let o = utf8_string(b);
        if let Some(s) = o {
            out.push(s);
            assert(strings_view(out@) =~= strings_view(before).push(decode_utf8(b@)));
        }
        assert(v@.subrange(0, i + 1) =~= v@.subrange(0, i as int).push(v@[i as int]));
        assert(bytes_view(v@.subrange(0, i + 1)) =~= bytes_view(v@.subrange(0, i as int)).push(
            v@[i as int]@,
        ));
        assert(decode_all(bytes_view(v@.subrange(0, i as int)).push(v@[i as int]@)) =~= decode_all(
            bytes_view(v@.subrange(0, i as int)),
        ).push(decode_utf8(v@[i as int]@)));
        assert(strings_view(out@) =~= decode_all(bytes_view(v@.subrange(0, i + 1))));
        i += 1;
    }
    assert(v@.subrange(0, i as int) =~= v@);
    out
}

} // verus!
