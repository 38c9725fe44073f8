//! The query-string mapping: the text after `?` split on `&` into
//! `key[=value]` fragments, accumulated into a mapping from key to one or
//! several values.  All parameter text borrows from the buffer the request
//! was parsed from; nothing is copied.

use vstd::prelude::*;
use crate::scan::{first_in, pair_set, find_first_of, str_eq};

verus! {

/// The fragment separator `&` as a character set.
pub open spec fn ampersand_set() -> Set<char> {
    pair_set('&', '&')
}

/// The key/value separator `=` as a character set.
pub open spec fn equals_set() -> Set<char> {
    pair_set('=', '=')
}

/// The value(s) a parameter carries: one value when its key occurred once,
/// an ordered list when the key occurred repeatedly.
#[derive(Debug)]
pub enum QueryStringValue<'buf> {
    Single(&'buf str),
    Multiple(Vec<&'buf str>),
}

/// Mathematical counterpart of [`QueryStringValue`].
pub enum QueryValueView {
    Single(Seq<char>),
    Multiple(Seq<Seq<char>>),
}

impl<'buf> View for QueryStringValue<'buf> {
    type V = QueryValueView;

    open spec fn view(&self) -> QueryValueView {
        match self {
            QueryStringValue::Single(v) => QueryValueView::Single(v@),
            QueryStringValue::Multiple(vs) => QueryValueView::Multiple(vs.deep_view()),
        }
    }
}

/// A mapping from parameter name to [`QueryStringValue`], with unique keys in
/// first-encounter order.  Its view is the entry sequence that
/// [`spec_query_string`] assigns to the text it was built from.
#[derive(Debug)]
pub struct QueryString<'buf> {
    entries: Vec<(&'buf str, QueryStringValue<'buf>)>,
}

/// The view of one entry vector: each key and value replaced by its view.
pub open spec fn entries_view<'buf>(es: Seq<(&'buf str, QueryStringValue<'buf>)>) -> Seq<
    (Seq<char>, QueryValueView),
> {
    es.map_values(|e: (&'buf str, QueryStringValue<'buf>)| (e.0@, e.1@))
}

impl<'buf> View for QueryString<'buf> {
    type V = Seq<(Seq<char>, QueryValueView)>;

    closed spec fn view(&self) -> Seq<(Seq<char>, QueryValueView)> {
        entries_view(self.entries@)
    }
}

/// The fragments of `s` between `&` separators, in order.  An input without
/// `&` is one fragment; in particular the empty input is one empty fragment.
pub open spec fn split_fragments(s: Seq<char>) -> Seq<Seq<char>>
    decreases s.len(),
{
    let i = first_in(s, ampersand_set());
    if 0 <= i < s.len() {
        seq![s.subrange(0, i)] + split_fragments(s.subrange(i + 1, s.len() as int))
    } else {
        seq![s]
    }
}

/// A fragment split at its first `=`: the key before it and the value after
/// it.  A fragment without `=` is a key carrying the empty value.
pub open spec fn pair_of(f: Seq<char>) -> (Seq<char>, Seq<char>) {
    let i = first_in(f, equals_set());
    if 0 <= i < f.len() {
        (f.subrange(0, i), f.subrange(i + 1, f.len() as int))
    } else {
        (f, Seq::empty())
    }
}

/// The values carried by key `k` among `frags`, in encounter order.
pub open spec fn fragment_values(frags: Seq<Seq<char>>, k: Seq<char>) -> Seq<Seq<char>>
    decreases frags.len(),
{
    if frags.len() == 0 {
        Seq::empty()
    } else {
        let rest = fragment_values(frags.drop_first(), k);
        if pair_of(frags[0]).0 == k {
            seq![pair_of(frags[0]).1] + rest
        } else {
            rest
        }
    }
}

/// The values the query-string text `s` assigns to key `k`, in encounter
/// order.
pub open spec fn query_values(s: Seq<char>, k: Seq<char>) -> Seq<Seq<char>> {
    fragment_values(split_fragments(s), k)
}

/// Index of the first entry whose key is `k`, or the number of entries if no
/// key matches.
pub open spec fn find_key(es: Seq<(Seq<char>, QueryValueView)>, k: Seq<char>) -> int
    decreases es.len(),
{
    if es.len() == 0 {
        0
    } else if es[0].0 == k {
        0
    } else {
        1 + find_key(es.drop_first(), k)
    }
}

/// The value entry `es` maps `k` to, if any.
pub open spec fn query_lookup(es: Seq<(Seq<char>, QueryValueView)>, k: Seq<char>) -> Option<
    QueryValueView,
> {
    let i = find_key(es, k);
    if 0 <= i < es.len() {
        Some(es[i].1)
    } else {
        None
    }
}

/// The values one entry holds.
pub open spec fn entry_values(v: QueryValueView) -> Seq<Seq<char>> {
    match v {
        QueryValueView::Single(x) => seq![x],
        QueryValueView::Multiple(xs) => xs,
    }
}

/// The values `es` holds for key `k`: those of its entry, or none.
pub open spec fn values_at(es: Seq<(Seq<char>, QueryValueView)>, k: Seq<char>) -> Seq<Seq<char>> {
    match query_lookup(es, k) {
        Some(e) => entry_values(e),
        None => Seq::empty(),
    }
}

/// Keys are unique and a `Multiple` entry holds at least two values.
pub open spec fn entries_wf(es: Seq<(Seq<char>, QueryValueView)>) -> bool {
    &&& forall|i: int, j: int|
        #![trigger es[i], es[j]]
        0 <= i < j < es.len() ==> es[i].0 != es[j].0
    &&& forall|i: int|
        0 <= i < es.len() ==> ((#[trigger] es[i].1) matches QueryValueView::Multiple(xs)
            ==> xs.len() >= 2)
}

/// One `(key, value)` pair folded into the entries: a new key is appended as
/// `Single`; an existing key's entry grows into (or extends) a `Multiple`.
pub open spec fn insert_value(
    es: Seq<(Seq<char>, QueryValueView)>,
    k: Seq<char>,
    v: Seq<char>,
) -> Seq<(Seq<char>, QueryValueView)> {
    let i = find_key(es, k);
    if 0 <= i < es.len() {
        es.update(i, (es[i].0, QueryValueView::Multiple(entry_values(es[i].1).push(v))))
    } else {
        es.push((k, QueryValueView::Single(v)))
    }
}

/// A fragment sequence folded into entries, left to right.
pub open spec fn build_entries(
    es: Seq<(Seq<char>, QueryValueView)>,
    frags: Seq<Seq<char>>,
) -> Seq<(Seq<char>, QueryValueView)>
    decreases frags.len(),
{
    if frags.len() == 0 {
        es
    } else {
        build_entries(insert_value(es, pair_of(frags[0]).0, pair_of(frags[0]).1),
            frags.drop_first())
    }
}

/// The entries denoted by the query-string text `s`.
pub open spec fn spec_query_string(s: Seq<char>) -> Seq<(Seq<char>, QueryValueView)> {
    build_entries(Seq::empty(), split_fragments(s))
}

/// `find_key` lies between 0 and `es.len()`, points at an entry keyed `k`
/// whenever it is in range, and no earlier entry is keyed `k`.
pub proof fn lemma_find_key_props(es: Seq<(Seq<char>, QueryValueView)>, k: Seq<char>)
    ensures
        0 <= find_key(es, k) <= es.len(),
        find_key(es, k) < es.len() ==> es[find_key(es, k)].0 == k,
        forall|j: int| #![trigger es[j]] 0 <= j < find_key(es, k) ==> es[j].0 != k,
    decreases es.len(),
{
    if es.len() == 0 {
    } else if es[0].0 == k {
    } else {
        lemma_find_key_props(es.drop_first(), k);
        assert forall|j: int| #![trigger es[j]] 0 <= j < find_key(es, k) implies es[j].0 != k by {
            if j > 0 {
                assert(es.drop_first()[j - 1] == es[j]);
            }
        }
    }
}

/// An entry keyed `k` at position `i` with no earlier entry keyed `k` is
/// exactly where `find_key` points.
pub proof fn lemma_find_key_at(es: Seq<(Seq<char>, QueryValueView)>, k: Seq<char>, i: int)
    requires
        0 <= i < es.len(),
        es[i].0 == k,
        forall|j: int| #![trigger es[j]] 0 <= j < i ==> es[j].0 != k,
    ensures
        find_key(es, k) == i,
{
    lemma_find_key_props(es, k);
}

/// When no entry is keyed `k`, `find_key` is `es.len()`.
pub proof fn lemma_find_key_none(es: Seq<(Seq<char>, QueryValueView)>, k: Seq<char>)
    requires
        forall|j: int| #![trigger es[j]] 0 <= j < es.len() ==> es[j].0 != k,
    ensures
        find_key(es, k) == es.len(),
{
    lemma_find_key_props(es, k);
}

/// How one insertion changes the values seen for each key: the inserted key
/// gains `v` at the end of its values, every other key is untouched, and
/// well-formedness is preserved.
pub proof fn lemma_insert_value(
    es: Seq<(Seq<char>, QueryValueView)>,
    k: Seq<char>,
    v: Seq<char>,
    k2: Seq<char>,
)
    requires
        entries_wf(es),
    ensures
        entries_wf(insert_value(es, k, v)),
        values_at(insert_value(es, k, v), k) == values_at(es, k).push(v),
        k2 != k ==> values_at(insert_value(es, k, v), k2) == values_at(es, k2),
{
    lemma_find_key_props(es, k);
    lemma_find_key_props(es, k2);
    let i = find_key(es, k);
    let es2 = insert_value(es, k, v);
    if 0 <= i < es.len() {
        assert(es2 == es.update(i, (es[i].0, QueryValueView::Multiple(
            entry_values(es[i].1).push(v),
        ))));
        lemma_find_key_at(es2, k, i);
        assert(values_at(es2, k) == entry_values(es[i].1).push(v));
        match es[i].1 {
            QueryValueView::Single(x) => {},
            QueryValueView::Multiple(xs) => {},
        }
        if k2 != k {
            let i2 = find_key(es, k2);
            if 0 <= i2 < es.len() {
                assert(i2 != i);
                lemma_find_key_at(es2, k2, i2);
            } else {
                assert forall|j: int| #![trigger es2[j]] 0 <= j < es2.len() implies es2[j].0
                    != k2 by {
                    assert(es2[j].0 == es[j].0);
                }
                lemma_find_key_none(es2, k2);
            }
        }
    } else {
        assert(es2 == es.push((k, QueryValueView::Single(v))));
        lemma_find_key_at(es2, k, es.len() as int);
        assert(values_at(es2, k) == seq![v]);
        assert(values_at(es, k).push(v) =~= seq![v]);
        if k2 != k {
            let i2 = find_key(es, k2);
            if 0 <= i2 < es.len() {
                assert(es2[i2] == es[i2]);
                lemma_find_key_at(es2, k2, i2);
            } else {
                assert forall|j: int| #![trigger es2[j]] 0 <= j < es2.len() implies es2[j].0
                    != k2 by {
                    if j < es.len() {
                        assert(es2[j] == es[j]);
                    }
                }
                lemma_find_key_none(es2, k2);
            }
        }
    }
}

/// Folding fragments appends, key by key, exactly the values those fragments
/// carry, and keeps the entries well-formed.
pub proof fn lemma_build_entries(
    es: Seq<(Seq<char>, QueryValueView)>,
    frags: Seq<Seq<char>>,
    k: Seq<char>,
)
    requires
        entries_wf(es),
    ensures
        entries_wf(build_entries(es, frags)),
        values_at(build_entries(es, frags), k) == values_at(es, k) + fragment_values(frags, k),
    decreases frags.len(),
{
    if frags.len() == 0 {
        assert(values_at(es, k) + Seq::<Seq<char>>::empty() =~= values_at(es, k));
    } else {
        let p = pair_of(frags[0]);
        lemma_insert_value(es, p.0, p.1, k);
        let es1 = insert_value(es, p.0, p.1);
        lemma_build_entries(es1, frags.drop_first(), k);
        if p.0 == k {
            assert(values_at(es, k).push(p.1) + fragment_values(frags.drop_first(), k)
                =~= values_at(es, k) + (seq![p.1] + fragment_values(frags.drop_first(), k)));
        }
    }
}

/// For every query-string text `s` and key `k`: a key carrying no value is
/// absent from the built mapping; a key carrying exactly one value maps to
/// `Single` of it; a key carrying several maps to `Multiple` of all of them,
/// in encounter order.
pub proof fn lemma_query_string_lookup(s: Seq<char>, k: Seq<char>)
    ensures
        query_values(s, k).len() == 0 ==> query_lookup(spec_query_string(s), k) is None,
        query_values(s, k).len() == 1 ==> query_lookup(spec_query_string(s), k) == Some(
            QueryValueView::Single(query_values(s, k)[0]),
        ),
        query_values(s, k).len() >= 2 ==> query_lookup(spec_query_string(s), k) == Some(
            QueryValueView::Multiple(query_values(s, k)),
        ),
{
    let empty = Seq::<(Seq<char>, QueryValueView)>::empty();
    lemma_build_entries(empty, split_fragments(s), k);
    let es = spec_query_string(s);
    let vs = query_values(s, k);
    assert(values_at(empty, k) + vs =~= vs);
    assert(values_at(es, k) == vs);
    lemma_find_key_props(es, k);
    match query_lookup(es, k) {
        Some(e) => {
            let i = find_key(es, k);
            assert(es[i].1 == e);
            match e {
                QueryValueView::Single(x) => {
                    assert(vs =~= seq![x]);
                },
                QueryValueView::Multiple(xs) => {
                    assert(xs.len() >= 2);
                },
            }
        },
        None => {},
    }
}

/// Folds one `(key, value)` pair into the entry vector, exactly as
/// [`insert_value`] says.
fn insert_pair<'buf>(
    entries: &mut Vec<(&'buf str, QueryStringValue<'buf>)>,
    key: &'buf str,
    value: &'buf str,
)
    ensures
        entries_view(final(entries)@) == insert_value(entries_view(old(entries)@), key@, value@),
{
    let ghost es0 = entries_view(entries@);
    let len = entries.len();
    let mut j: usize = 0;
    while j < len
        invariant
            len == entries.len(),
            0 <= j <= len,
            entries@ == old(entries)@,
            es0 == entries_view(entries@),
            forall|t: int| #![trigger es0[t]] 0 <= t < j ==> es0[t].0 != key@,
        decreases len - j,
    {
        if str_eq(entries[j].0, key) {
            proof {
                lemma_find_key_at(es0, key@, j as int);
            }
            let pair = entries.remove(j);
            let k0 = pair.0;
            match pair.1 {
                QueryStringValue::Single(x) => {
                    let mut xs: Vec<&'buf str> = Vec::new();
                    xs.push(x);
                    xs.push(value);
                    proof {
                        assert(xs.deep_view() =~= entry_values(es0[j as int].1).push(value@));
                    }
                    entries.insert(j, (k0, QueryStringValue::Multiple(xs)));
                },
                QueryStringValue::Multiple(mut xs) => {
                    let ghost xs0 = xs.deep_view();
                    xs.push(value);
                    proof {
                        assert(xs.deep_view() =~= xs0.push(value@));
                    }
                    entries.insert(j, (k0, QueryStringValue::Multiple(xs)));
                },
            }
            proof {
                assert(entries_view(entries@) =~= insert_value(es0, key@, value@));
            }
            return;
        }
        j = j + 1;
    }
    proof {
        lemma_find_key_none(es0, key@);
    }
    entries.push((key, QueryStringValue::Single(value)));
    proof {
        assert(entries_view(entries@) =~= es0.push((key@, QueryValueView::Single(value@))));
    }
}

/// Splits one fragment at its first `=` and folds the resulting pair into the
/// entry vector.
fn insert_fragment<'buf>(entries: &mut Vec<(&'buf str, QueryStringValue<'buf>)>, frag: &'buf str)
    ensures
        entries_view(final(entries)@) == insert_value(
            entries_view(old(entries)@),
            pair_of(frag@).0,
            pair_of(frag@).1,
        ),
{
    let n = frag.unicode_len();
    match find_first_of(frag, '=', '=') {
        Some(i) => {
            let key = frag.substring_char(0, i);
            let value = frag.substring_char(i + 1, n);
            insert_pair(entries, key, value);
        },
        None => {
            let value = frag.substring_char(n, n);
            proof {
                assert(value@ =~= pair_of(frag@).1);
            }
            insert_pair(entries, frag, value);
        },
    }
}

impl<'buf> QueryString<'buf> {
    /// Builds the mapping for the text after `?`: fragments between `&` are
    /// split at their first `=`; a first occurrence of a key is kept as
    /// `Single`, repeated occurrences accumulate into `Multiple` in encounter
    /// order.  Building never fails.
    pub fn from(s: &'buf str) -> (r: QueryString<'buf>)
        ensures
            r@ == spec_query_string(s@),
    {
        let mut entries: Vec<(&'buf str, QueryStringValue<'buf>)> = Vec::new();
        let mut rest: &'buf str = s;
        proof {
            assert(entries_view(entries@) =~= Seq::<(Seq<char>, QueryValueView)>::empty());
        }
        loop
            invariant
                entries_wf(entries_view(entries@)),
                build_entries(entries_view(entries@), split_fragments(rest@))
                    == spec_query_string(s@),
            decreases rest@.len(),
        {
            let ghost es0 = entries_view(entries@);
            match find_first_of(rest, '&', '&') {
                Some(i) => {
                    let n = rest.unicode_len();
                    let frag = rest.substring_char(0, i);
                    let next = rest.substring_char(i + 1, n);
                    proof {
                        let frags = split_fragments(rest@);
                        assert(frags == seq![frag@] + split_fragments(next@));
                        assert(frags[0] == frag@);
                        assert(frags.drop_first() =~= split_fragments(next@));
                        lemma_insert_value(es0, pair_of(frag@).0, pair_of(frag@).1,
                            pair_of(frag@).0);
                    }
                    insert_fragment(&mut entries, frag);
                    rest = next;
                },
                None => {
                    insert_fragment(&mut entries, rest);
                    proof {
                        let frags = split_fragments(rest@);
                        assert(frags == seq![rest@]);
                        assert(frags[0] == rest@);
                        assert(frags.drop_first() =~= Seq::<Seq<char>>::empty());
                        let es1 = insert_value(es0, pair_of(rest@).0, pair_of(rest@).1);
                        assert(build_entries(es1, frags.drop_first()) == es1);
                        assert(build_entries(es0, frags) == es1);
                    }
                    return QueryString { entries };
                },
            }
        }
    }

    /// Looks the key up by exact character equality; an absent key yields
    /// `None`, never a default.
    pub fn get(&self, key: &str) -> (r: Option<&QueryStringValue<'buf>>)
        ensures
            match r {
                Some(v) => query_lookup(self@, key@) == Some(v@),
                None => query_lookup(self@, key@) is None,
            },
    {
        let len = self.entries.len();
        let mut j: usize = 0;
        while j < len
            invariant
                len == self.entries.len(),
                0 <= j <= len,
                forall|t: int| #![trigger self@[t]] 0 <= t < j ==> self@[t].0 != key@,
            decreases len - j,
        {
            if str_eq(self.entries[j].0, key) {
                proof {
                    lemma_find_key_at(self@, key@, j as int);
                }
                return Some(&self.entries[j].1);
            }
            j = j + 1;
        }
        proof {
            lemma_find_key_none(self@, key@);
        }
        None
    }
}

} // verus!
