use vstd::prelude::*;

verus! {

broadcast use vstd::string::group_string_axioms;

/// The value of a header: one string, or the ordered items of a list-valued
/// header such as `Accept-Encoding`.
#[derive(Debug, Clone, PartialEq, Eq)]
pub enum HeaderField {
    Single(String),
    Multiple(Vec<String>),
}

/// What a header value holds.
pub enum FieldView {
    Single(Seq<char>),
    Multiple(Seq<Seq<char>>),
}

/// The characters of each string of a list.
pub open spec fn strings_view(v: Seq<String>) -> Seq<Seq<char>> {
    v.map_values(|s: String| s@)
}

impl View for HeaderField {
    type V = FieldView;

    open spec fn view(&self) -> FieldView {
        match self {
            HeaderField::Single(s) => FieldView::Single(s@),
            HeaderField::Multiple(v) => FieldView::Multiple(strings_view(v@)),
        }
    }
}

/// The value that a header name has in a list of entries: that of the last
/// entry with the name, so a repeated header overrides the earlier one.
pub open spec fn lookup(es: Seq<(Seq<char>, FieldView)>, k: Seq<char>) -> Option<FieldView>
    decreases es.len(),
{
    if es.len() == 0 {
        None
    } else if es.last().0 == k {
        Some(es.last().1)
    } else {
        lookup(es.drop_last(), k)
    }
}

/// The headers of a request, in the order in which they came. Names are
/// compared exactly, case included. They are held in a `Vec` searched from
/// the end rather than in a `HashMap`: with `String` keys, Verus proves
/// nothing of what a `HashMap` lookup returns.
#[derive(Debug, Clone, PartialEq, Eq)]
pub struct HeaderMap {
    entries: Vec<(String, HeaderField)>,
}

impl View for HeaderMap {
    type V = Seq<(Seq<char>, FieldView)>;

    closed spec fn view(&self) -> Seq<(Seq<char>, FieldView)> {
        self.entries@.map_values(|e: (String, HeaderField)| (e.0@, e.1@))
    }
}

impl HeaderMap {
    /// A map without headers.
    pub fn new() -> (r: HeaderMap)
        ensures
            r@ == Seq::<(Seq<char>, FieldView)>::empty(),
    {
        let r = HeaderMap { entries: Vec::new() };
        assert(r@ =~= Seq::<(Seq<char>, FieldView)>::empty());
        r
    }

    /// Records a header; it overrides any earlier one of the same name.
    pub fn insert(&mut self, key: String, value: HeaderField)
        ensures
            final(self)@ == old(self)@.push((key@, value@)),
    {
        self.entries.push((key, value));
        assert(self@ =~= old(self)@.push((key@, value@)));
    }

    /// The value of the header named `key`, if the request has one.
    pub fn get(&self, key: &str) -> (r: Option<&HeaderField>)
        ensures
            match r {
                Some(f) => lookup(self@, key@) == Some(f@),
                None => lookup(self@, key@) is None,
            },
    {
        let k = key.to_string();
        let mut i = self.entries.len();
        assert(self@.subrange(0, i as int) =~= self@);
        while i > 0
            invariant
                i <= self.entries@.len(),
                k@ == key@,
                lookup(self@, key@) == lookup(self@.subrange(0, i as int), key@),
            decreases i,
        {
            assert(self@.subrange(0, i as int).drop_last() =~= self@.subrange(0, i - 1));
            if self.entries[i - 1].0 == k {
                return Some(&self.entries[i - 1].1);
            }
            i -= 1;
        }
        None
    }
}

} // verus!
