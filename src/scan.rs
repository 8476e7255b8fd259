use vstd::prelude::*;
use vstd::utf8::valid_utf8;

verus! {

/// ASCII whitespace: space, tab, line feed, form feed and carriage return.
pub open spec fn is_space(b: u8) -> bool {
    b == 32 || b == 9 || b == 10 || b == 12 || b == 13
}

/// The index of the first line feed at or after `i`, or the end of `d`.
pub open spec fn line_end(d: Seq<u8>, i: int) -> int
    decreases d.len() - i,
{
    if 0 <= i < d.len() && d[i] != 10 {
        line_end(d, i + 1)
    } else {
        i
    }
}

/// The first index at or after `i` that holds no whitespace.
pub open spec fn skip_space(s: Seq<u8>, i: int) -> int
    decreases s.len() - i,
{
    if 0 <= i < s.len() && is_space(s[i]) {
        skip_space(s, i + 1)
    } else {
        i
    }
}

/// The first index at or after `i` that holds whitespace.
pub open spec fn skip_word(s: Seq<u8>, i: int) -> int
    decreases s.len() - i,
{
    if 0 <= i < s.len() && !is_space(s[i]) {
        skip_word(s, i + 1)
    } else {
        i
    }
}

/// The first index at or after `i` that holds `c`, or the end of `s`.
pub open spec fn find_byte(s: Seq<u8>, c: u8, i: int) -> int
    decreases s.len() - i,
{
    if 0 <= i < s.len() && s[i] != c {
        find_byte(s, c, i + 1)
    } else {
        i
    }
}

/// The end of `s` once the whitespace before `j`, down to `lo`, is dropped.
pub open spec fn trim_back(s: Seq<u8>, lo: int, j: int) -> int
    decreases j - lo,
{
    if lo < j && j <= s.len() && is_space(s[j - 1]) {
        trim_back(s, lo, j - 1)
    } else {
        j
    }
}

/// `s` without leading and trailing whitespace.
pub open spec fn trim(s: Seq<u8>) -> Seq<u8> {
    let a = skip_space(s, 0);
    s.subrange(a, trim_back(s, a, s.len() as int))
}

pub proof fn lemma_line_end(d: Seq<u8>, i: int)
    requires
        0 <= i <= d.len(),
    ensures
        i <= line_end(d, i) <= d.len(),
        line_end(d, i) < d.len() ==> d[line_end(d, i)] == 10,
    decreases d.len() - i,
{
    if i < d.len() && d[i] != 10 {
        lemma_line_end(d, i + 1);
    }
}

pub proof fn lemma_skip_space(s: Seq<u8>, i: int)
    requires
        0 <= i <= s.len(),
    ensures
        i <= skip_space(s, i) <= s.len(),
        skip_space(s, i) < s.len() ==> !is_space(s[skip_space(s, i)]),
        forall|j: int| i <= j < skip_space(s, i) ==> is_space(s[j]),
    decreases s.len() - i,
{
    if i < s.len() && is_space(s[i]) {
        lemma_skip_space(s, i + 1);
    }
}

pub proof fn lemma_skip_word(s: Seq<u8>, i: int)
    requires
        0 <= i <= s.len(),
    ensures
        i <= skip_word(s, i) <= s.len(),
        skip_word(s, i) < s.len() ==> is_space(s[skip_word(s, i)]),
    decreases s.len() - i,
{
    if i < s.len() && !is_space(s[i]) {
        lemma_skip_word(s, i + 1);
    }
}

pub proof fn lemma_find_byte(s: Seq<u8>, c: u8, i: int)
    requires
        0 <= i <= s.len(),
    ensures
        i <= find_byte(s, c, i) <= s.len(),
        find_byte(s, c, i) < s.len() ==> s[find_byte(s, c, i)] == c,
    decreases s.len() - i,
{
    if i < s.len() && s[i] != c {
        lemma_find_byte(s, c, i + 1);
    }
}

pub proof fn lemma_trim_back(s: Seq<u8>, lo: int, j: int)
    requires
        0 <= lo <= j <= s.len(),
    ensures
        lo <= trim_back(s, lo, j) <= j,
        trim_back(s, lo, j) < j ==> is_space(s[trim_back(s, lo, j) as int]),
    decreases j - lo,
{
    if lo < j && is_space(s[j - 1]) {
        lemma_trim_back(s, lo, j - 1);
    }
}

/// Cutting valid UTF-8 just before or just after an ASCII byte leaves valid
/// UTF-8 on both sides.
pub proof fn lemma_split_ascii(b: Seq<u8>, i: int)
    requires
        valid_utf8(b),
        0 <= i < b.len(),
        b[i] < 0x80,
    ensures
        valid_utf8(b.subrange(0, i)),
        valid_utf8(b.subrange(i + 1, b.len() as int)),
{
    vstd::utf8::is_char_boundary_iff_not_is_continuation_byte(b, i);
    vstd::utf8::valid_utf8_split(b, i);
    let t = b.subrange(i, b.len() as int);
    assert(valid_utf8(vstd::utf8::pop_first_scalar(t)));
    assert(vstd::utf8::pop_first_scalar(t) =~= b.subrange(i + 1, b.len() as int));
}

/// A piece of valid UTF-8 cut out at ASCII bytes is valid UTF-8.
pub proof fn lemma_ascii_cut(b: Seq<u8>, a: int, k: int)
    requires
        valid_utf8(b),
        0 <= a <= k <= b.len(),
        a == 0 || b[a - 1] < 0x80,
        k == b.len() || b[k] < 0x80,
    ensures
        valid_utf8(b.subrange(a, k)),
{
    let c = if a == 0 {
        b
    } else {
        lemma_split_ascii(b, a - 1);
        b.subrange(a, b.len() as int)
    };
    assert(c =~= b.subrange(a, b.len() as int));
    if k < b.len() {
        lemma_split_ascii(c, k - a);
        assert(c.subrange(0, k - a) =~= b.subrange(a, k));
    } else {
        assert(c =~= b.subrange(a, k));
    }
}

/// Trimming valid UTF-8 leaves valid UTF-8.
pub proof fn lemma_trim_valid(s: Seq<u8>)
    requires
        valid_utf8(s),
    ensures
        valid_utf8(trim(s)),
{
    lemma_skip_space(s, 0);
    let a = skip_space(s, 0);
    lemma_trim_back(s, a, s.len() as int);
    lemma_ascii_cut(s, a, trim_back(s, a, s.len() as int));
}

pub fn line_end_exec(d: &[u8], i: usize) -> (r: usize)
    requires
        i <= d@.len(),
    ensures
        r == line_end(d@, i as int),
{
    let mut j = i;
    while j < d.len() && d[j] != 10u8
        invariant
            i <= j <= d@.len(),
            line_end(d@, i as int) == line_end(d@, j as int),
        decreases d@.len() - j,
    {
        j += 1;
    }
    j
}

pub fn skip_space_exec(s: &[u8], i: usize) -> (r: usize)
    requires
        i <= s@.len(),
    ensures
        r == skip_space(s@, i as int),
{
    let mut j = i;
    while j < s.len() && is_space_exec(s[j])
        invariant
            i <= j <= s@.len(),
            skip_space(s@, i as int) == skip_space(s@, j as int),
        decreases s@.len() - j,
    {
        j += 1;
    }
    j
}

pub fn skip_word_exec(s: &[u8], i: usize) -> (r: usize)
    requires
        i <= s@.len(),
    ensures
        r == skip_word(s@, i as int),
{
    let mut j = i;
    while j < s.len() && !is_space_exec(s[j])
        invariant
            i <= j <= s@.len(),
            skip_word(s@, i as int) == skip_word(s@, j as int),
        decreases s@.len() - j,
    {
        j += 1;
    }
    j
}

pub fn find_byte_exec(s: &[u8], c: u8, i: usize) -> (r: usize)
    requires
        i <= s@.len(),
    ensures
        r == find_byte(s@, c, i as int),
{
    let mut j = i;
    while j < s.len() && s[j] != c
        invariant
            i <= j <= s@.len(),
            find_byte(s@, c, i as int) == find_byte(s@, c, j as int),
        decreases s@.len() - j,
    {
        j += 1;
    }
    j
}

pub fn is_space_exec(b: u8) -> (r: bool)
    ensures
        r == is_space(b),
{
    b == 32u8 || b == 9u8 || b == 10u8 || b == 12u8 || b == 13u8
}

/// `s` without leading and trailing whitespace.
pub fn trim_exec(s: &[u8]) -> (r: &[u8])
    ensures
        r@ == trim(s@),
{
    let a = skip_space_exec(s, 0);
    proof {
        lemma_skip_space(s@, 0);
    }
    let mut j = s.len();
    while a < j && is_space_exec(s[j - 1])
        invariant
            a <= j <= s@.len(),
            trim_back(s@, a as int, s@.len() as int) == trim_back(s@, a as int, j as int),
        decreases j,
    {
        j -= 1;
    }
    vstd::slice::slice_subrange(s, a, j)
}

} // verus!
