//! Name-to-value tables: the headers of requests and responses, which are
//! looked up without regard to the case of ASCII letters, and query
//! parameters, which are looked up exactly.
//!
//! A table holds each name once. Its entries stand in the order in which they
//! were last written, so that of two headers whose names differ in case only
//! the one that was written last is found.

use crate::chars::{fold_case, folded, same_chars, to_chars};
use vstd::prelude::*;

verus! {

/// The model of a table: its entries, the one that was written last at the
/// end.
pub type Entries = Seq<(Seq<char>, Seq<char>)>;

/// What a name is compared by: itself, or itself with ASCII letters in lower
/// case where `fold` is set.
pub open spec fn key(fold: bool, name: Seq<char>) -> Seq<char> {
    if fold {
        folded(name)
    } else {
        name
    }
}

/// Index of the last entry of `e` whose name has the key of `name`, or -1 if
/// there is none.
pub open spec fn last_match(fold: bool, e: Entries, name: Seq<char>) -> int
    decreases e.len(),
{
    if e.len() == 0 {
        -1
    } else if key(fold, e.last().0) == key(fold, name) {
        e.len() - 1
    } else {
        last_match(fold, e.drop_last(), name)
    }
}

/// The value that is found under `name`: that of the entry with the key of
/// `name` that was written last.
pub open spec fn lookup(fold: bool, e: Entries, name: Seq<char>) -> Option<Seq<char>> {
    let i = last_match(fold, e, name);
    if i >= 0 {
        Some(e[i].1)
    } else {
        None
    }
}

/// `e` without the entry named `name`, letter for letter.
pub open spec fn without(e: Entries, name: Seq<char>) -> Entries {
    let i = last_match(false, e, name);
    if i >= 0 {
        e.remove(i)
    } else {
        e
    }
}

/// `e` after writing `value` under `name`: the entry of that name, letter
/// for letter, is taken out, and the new entry is added at the end.
pub open spec fn put(e: Entries, name: Seq<char>, value: Seq<char>) -> Entries {
    without(e, name).push((name, value))
}

/// `e` after writing each of `pairs`, first to last.
pub open spec fn put_all(e: Entries, pairs: Entries) -> Entries
    decreases pairs.len(),
{
    if pairs.len() == 0 {
        e
    } else {
        put_all(put(e, pairs[0].0, pairs[0].1), pairs.drop_first())
    }
}

/// No two entries of `e` have the same name.
pub open spec fn distinct(e: Entries) -> bool {
    forall|i: int, j: int| 0 <= i < j < e.len() ==> (#[trigger] e[i]).0 != (#[trigger] e[j]).0
}

/// `i` is the last index of `e` with the key of `name`, or -1.
pub open spec fn is_last_match(fold: bool, e: Entries, name: Seq<char>, i: int) -> bool {
    &&& -1 <= i < e.len()
    &&& forall|j: int| i < j < e.len() ==> key(fold, (#[trigger] e[j]).0) != key(fold, name)
    &&& i >= 0 ==> key(fold, e[i].0) == key(fold, name)
}

/// `last_match` is the one index that `is_last_match` describes.
pub proof fn lemma_last_match(fold: bool, e: Entries, name: Seq<char>)
    ensures
        is_last_match(fold, e, name, last_match(fold, e, name)),
        forall|i: int| is_last_match(fold, e, name, i) ==> i == last_match(fold, e, name),
    decreases e.len(),
{
    if e.len() == 0 {
    } else if key(fold, e.last().0) == key(fold, name) {
        assert forall|i: int| is_last_match(fold, e, name, i) implies i == e.len() - 1 by {
            if i < e.len() - 1 {
                assert(key(fold, e[e.len() - 1].0) != key(fold, name));
            }
        }
    } else {
        let t = e.drop_last();
        lemma_last_match(fold, t, name);
        let p = last_match(fold, t, name);
        assert forall|j: int| p < j < e.len() implies key(fold, (#[trigger] e[j]).0) != key(
            fold,
            name,
        ) by {
            if j < t.len() {
                assert(e[j] == t[j]);
            }
        }
        if p >= 0 {
            assert(e[p] == t[p]);
        }
        assert forall|i: int| is_last_match(fold, e, name, i) implies i == p by {
            assert(i < e.len() - 1);
            assert forall|j: int| i < j < t.len() implies key(fold, (#[trigger] t[j]).0) != key(
                fold,
                name,
            ) by {
                assert(t[j] == e[j]);
            }
            if i >= 0 {
                assert(t[i] == e[i]);
            }
            assert(is_last_match(fold, t, name, i));
        }
    }
}

/// Names with one key are one name for `lookup`.
pub proof fn lemma_same_key(fold: bool, e: Entries, a: Seq<char>, b: Seq<char>)
    requires
        key(fold, a) == key(fold, b),
    ensures
        last_match(fold, e, a) == last_match(fold, e, b),
        lookup(fold, e, a) == lookup(fold, e, b),
    decreases e.len(),
{
    if e.len() > 0 && key(fold, e.last().0) != key(fold, a) {
        lemma_same_key(fold, e.drop_last(), a, b);
    }
}

/// Taking out an entry under another key changes nothing of what is found.
proof fn lemma_lookup_remove(fold: bool, e: Entries, i: int, other: Seq<char>)
    requires
        0 <= i < e.len(),
        key(fold, e[i].0) != key(fold, other),
    ensures
        lookup(fold, e.remove(i), other) == lookup(fold, e, other),
{
    let r = e.remove(i);
    let q = last_match(fold, e, other);
    lemma_last_match(fold, e, other);
    lemma_last_match(fold, r, other);
    let q2 = if q > i {
        q - 1
    } else {
        q
    };
    assert(is_last_match(fold, r, other, q2)) by {
        assert forall|j: int| q2 < j < r.len() implies key(fold, (#[trigger] r[j]).0) != key(
            fold,
            other,
        ) by {
            if j < i {
                assert(r[j] == e[j]);
            } else {
                assert(r[j] == e[j + 1]);
            }
        }
        if q2 >= 0 {
            if q > i {
                assert(r[q2] == e[q]);
            } else {
                assert(q != i);
                assert(r[q2] == e[q]);
            }
        }
    }
    if q >= 0 {
        assert(r[q2] == e[q]);
    }
}

/// Reading after writing: under the key just written the new value is found,
/// under any other key what was found before.
pub proof fn lemma_lookup_put(
    fold: bool,
    e: Entries,
    name: Seq<char>,
    value: Seq<char>,
    other: Seq<char>,
)
    ensures
        lookup(fold, put(e, name, value), other) == if key(fold, other) == key(fold, name) {
            Some(value)
        } else {
            lookup(fold, e, other)
        },
{
    let w = without(e, name);
    let e2 = put(e, name, value);
    lemma_last_match(fold, e2, other);
    if key(fold, other) == key(fold, name) {
        assert(e2.last() == (name, value));
    } else {
        lemma_last_match(false, e, name);
        let i = last_match(false, e, name);
        if i >= 0 {
            assert(e[i].0 == name);
            lemma_lookup_remove(fold, e, i, other);
        }
        assert(e2.drop_last() =~= w);
        assert(e2.last().0 == name);
    }
}

/// Writing keeps the names of a table distinct, and the written name has
/// its entry at the end.
pub proof fn lemma_put_distinct(e: Entries, name: Seq<char>, value: Seq<char>)
    requires
        distinct(e),
    ensures
        distinct(put(e, name, value)),
{
    let i = last_match(false, e, name);
    let w = without(e, name);
    let e2 = put(e, name, value);
    lemma_last_match(false, e, name);
    assert forall|a: int| 0 <= a < w.len() implies (#[trigger] w[a]).0 != name by {
        if i >= 0 {
            if a < i {
                assert(w[a] == e[a]);
                assert(e[a].0 != e[i].0);
            } else {
                assert(w[a] == e[a + 1]);
            }
        } else {
            assert(key(false, e[a].0) != key(false, name));
        }
    }
    assert forall|a: int, b: int| 0 <= a < b < e2.len() implies (#[trigger] e2[a]).0 != (
    #[trigger] e2[b]).0 by {
        if b == w.len() {
            assert(e2[a] == w[a]);
        } else if i >= 0 {
            let a0 = if a < i {
                a
            } else {
                a + 1
            };
            let b0 = if b < i {
                b
            } else {
                b + 1
            };
            assert(e2[a] == e[a0]);
            assert(e2[b] == e[b0]);
        } else {
            assert(e2[a] == e[a]);
            assert(e2[b] == e[b]);
        }
    }
}

/// Writing keeps a table's names distinct, however many entries are written.
pub proof fn lemma_put_all_keeps_distinct(e: Entries, pairs: Entries)
    requires
        distinct(e),
    ensures
        distinct(put_all(e, pairs)),
    decreases pairs.len(),
{
    if pairs.len() > 0 {
        lemma_put_distinct(e, pairs[0].0, pairs[0].1);
        lemma_put_all_keeps_distinct(put(e, pairs[0].0, pairs[0].1), pairs.drop_first());
    }
}

/// Writing one after another the entries of a table whose names are distinct
/// builds that table again.
pub proof fn lemma_put_all_distinct(e: Entries, pairs: Entries)
    requires
        distinct(e + pairs),
    ensures
        put_all(e, pairs) == e + pairs,
    decreases pairs.len(),
{
    if pairs.len() == 0 {
        assert(e + pairs =~= e);
    } else {
        let all = e + pairs;
        let name = pairs[0].0;
        assert(is_last_match(false, e, name, -1)) by {
            assert forall|j: int| -1 < j < e.len() implies key(false, (#[trigger] e[j]).0) != key(
                false,
                name,
            ) by {
                assert(all[j] == e[j]);
                assert(all[e.len() as int] == pairs[0]);
                assert(all[j].0 != all[e.len() as int].0);
            }
        }
        lemma_last_match(false, e, name);
        let e2 = put(e, pairs[0].0, pairs[0].1);
        assert(e2 =~= e.push(pairs[0]));
        assert(e2 + pairs.drop_first() =~= all);
        lemma_put_all_distinct(e2, pairs.drop_first());
    }
}

/// Writing some pairs and one more is writing that one after the others.
pub proof fn lemma_put_all_push(e: Entries, pairs: Entries, p: (Seq<char>, Seq<char>))
    ensures
        put_all(e, pairs.push(p)) == put(put_all(e, pairs), p.0, p.1),
    decreases pairs.len(),
{
    let all = pairs.push(p);
    if pairs.len() == 0 {
        assert(all[0] == p);
        assert(all.drop_first() =~= pairs);
        assert(put_all(put(e, p.0, p.1), pairs) == put(e, p.0, p.1));
    } else {
        assert(all[0] == pairs[0]);
        assert(all.drop_first() =~= pairs.drop_first().push(p));
        lemma_put_all_push(put(e, pairs[0].0, pairs[0].1), pairs.drop_first(), p);
    }
}

/// The last value that is written under a name is the one that is found.
pub proof fn lemma_last_write_wins(
    fold: bool,
    e: Entries,
    pairs: Entries,
    name: Seq<char>,
    value: Seq<char>,
    other: Seq<char>,
)
    requires
        key(fold, other) == key(fold, name),
    ensures
        lookup(fold, put_all(e, pairs.push((name, value))), other) == Some(value),
{
    lemma_put_all_push(e, pairs, (name, value));
    lemma_lookup_put(fold, put_all(e, pairs), name, value, other);
}

/// The model of stored entries.
pub open spec fn entries_view(v: Seq<(String, String)>) -> Entries {
    Seq::new(v.len(), |i: int| (v[i].0@, v[i].1@))
}

/// The characters that `name` is compared by.
fn key_chars(fold: bool, name: &str) -> (k: Vec<char>)
    ensures
        k@ == key(fold, name@),
{
    let chars = to_chars(name);
    if fold {
        fold_case(chars.as_slice())
    } else {
        chars
    }
}

/// Index of the last entry with the key of `name`, if there is one.
fn find_entry(entries: &Vec<(String, String)>, fold: bool, name: &str) -> (r: Option<usize>)
    ensures
        match r {
            Some(i) => i < entries@.len() && i == last_match(
                fold,
                entries_view(entries@),
                name@,
            ),
            None => last_match(fold, entries_view(entries@), name@) == -1,
        },
{
    let wanted = key_chars(fold, name);
    let ghost e = entries_view(entries@);
    let mut i: usize = entries.len();
    proof {
        lemma_last_match(fold, e, name@);
    }
    while i > 0
        invariant
            i <= entries@.len(),
            e == entries_view(entries@),
            wanted@ == key(fold, name@),
            forall|j: int| i <= j < e.len() ==> key(fold, (#[trigger] e[j]).0) != key(fold, name@),
            forall|k: int| is_last_match(fold, e, name@, k) ==> k == last_match(fold, e, name@),
        decreases i,
    {
        i -= 1;
        let k = key_chars(fold, entries[i].0.as_str());
        if same_chars(k.as_slice(), wanted.as_slice()) {
            assert(is_last_match(fold, e, name@, i as int));
            return Some(i);
        }
    }
    assert(is_last_match(fold, e, name@, -1));
    None
}

/// Writes `value` under `name`.
fn write_entry(entries: &mut Vec<(String, String)>, name: String, value: String)
    ensures
        entries_view(final(entries)@) == put(entries_view(old(entries)@), name@, value@),
{
    match find_entry(entries, false, name.as_str()) {
        Some(i) => {
            entries.remove(i);
            assert(entries_view(entries@) =~= without(entries_view(old(entries)@), name@));
        },
        None => {},
    }
    entries.push((name, value));
    assert(entries_view(entries@) =~= put(entries_view(old(entries)@), name@, value@));
}

/// The value that is found under `name`, if there is one.
fn read_entry<'a>(entries: &'a Vec<(String, String)>, fold: bool, name: &str) -> (r: Option<
    &'a String,
>)
    ensures
        match r {
            Some(v) => lookup(fold, entries_view(entries@), name@) == Some(v@),
            None => lookup(fold, entries_view(entries@), name@) is None,
        },
{
    match find_entry(entries, fold, name) {
        Some(i) => Some(&entries[i].1),
        None => None,
    }
}

/// A copy of `entries`.
fn copy_entries(entries: &Vec<(String, String)>) -> (r: Vec<(String, String)>)
    ensures
        entries_view(r@) == entries_view(entries@),
{
    let mut out: Vec<(String, String)> = Vec::new();
    let mut i: usize = 0;
    while i < entries.len()
        invariant
            i <= entries@.len(),
            out@.len() == i,
            forall|j: int|
                0 <= j < i ==> out@[j].0@ == entries@[j].0@ && out@[j].1@ == entries@[j].1@,
        decreases entries@.len() - i,
    {
        out.push((entries[i].0.clone(), entries[i].1.clone()));
        i += 1;
    }
    assert(entries_view(out@) =~= entries_view(entries@));
    out
}

/// A table of headers. Each name occurs once; a header is found under its
/// name whatever the case of the ASCII letters that it is asked for with.
#[derive(Debug)]
pub struct Headers {
    entries: Vec<(String, String)>,
}

impl View for Headers {
    type V = Entries;

    closed spec fn view(&self) -> Entries {
        entries_view(self.entries@)
    }
}

impl Headers {
    #[verifier::type_invariant]
    spec fn well_formed(self) -> bool {
        distinct(entries_view(self.entries@))
    }

    /// The empty table.
    pub fn new() -> (r: Headers)
        ensures
            r@ == Seq::<(Seq<char>, Seq<char>)>::empty(),
    {
        let r = Headers { entries: Vec::new() };
        assert(r@ =~= Seq::<(Seq<char>, Seq<char>)>::empty());
        r
    }

    /// Writes `value` under `name`, in place of what stood under that name.
    pub fn insert(&mut self, name: String, value: String)
        ensures
            final(self)@ == put(old(self)@, name@, value@),
    {
        proof {
            use_type_invariant(&*self);
            lemma_put_distinct(self@, name@, value@);
        }
        // The entries are taken out while they are changed, and put back.
        let mut entries: Vec<(String, String)> = Vec::new();
        core::mem::swap(&mut self.entries, &mut entries);
        write_entry(&mut entries, name, value);
        core::mem::swap(&mut self.entries, &mut entries);
    }

    /// The value of the header `name`, whatever the case of its letters. Of
    /// headers whose names differ in case only, the one written last is
    /// found.
    pub fn get(&self, name: &str) -> (r: Option<&String>)
        ensures
            match r {
                Some(v) => lookup(true, self@, name@) == Some(v@),
                None => lookup(true, self@, name@) is None,
            },
    {
        read_entry(&self.entries, true, name)
    }

    /// Whether there is a header `name`, whatever the case of its letters.
    pub fn contains_key(&self, name: &str) -> (r: bool)
        ensures
            r == lookup(true, self@, name@).is_some(),
    {
        self.get(name).is_some()
    }

    /// The number of names, which are distinct.
    pub fn len(&self) -> (n: usize)
        ensures
            n == self@.len(),
            distinct(self@),
    {
        proof {
            use_type_invariant(self);
        }
        self.entries.len()
    }

    /// Whether the table is empty.
    pub fn is_empty(&self) -> (r: bool)
        ensures
            r == (self@.len() == 0),
    {
        self.entries.len() == 0
    }

    /// The name of the entry at `i`.
    pub fn name_at(&self, i: usize) -> (r: &String)
        requires
            i < self@.len(),
        ensures
            r@ == self@[i as int].0,
    {
        &self.entries[i].0
    }

    /// The value of the entry at `i`.
    pub fn value_at(&self, i: usize) -> (r: &String)
        requires
            i < self@.len(),
        ensures
            r@ == self@[i as int].1,
    {
        &self.entries[i].1
    }
}

impl Clone for Headers {
    fn clone(&self) -> (r: Self)
        ensures
            r@ == self@,
    {
        proof {
            use_type_invariant(self);
        }
        Headers { entries: copy_entries(&self.entries) }
    }
}

/// A table of query parameters. Each name occurs once, and a parameter is
/// found under its name letter for letter.
#[derive(Debug)]
pub struct QueryParams {
    entries: Vec<(String, String)>,
}

impl View for QueryParams {
    type V = Entries;

    closed spec fn view(&self) -> Entries {
        entries_view(self.entries@)
    }
}

impl QueryParams {
    #[verifier::type_invariant]
    spec fn well_formed(self) -> bool {
        distinct(entries_view(self.entries@))
    }

    /// The empty table.
    pub fn new() -> (r: QueryParams)
        ensures
            r@ == Seq::<(Seq<char>, Seq<char>)>::empty(),
    {
        let r = QueryParams { entries: Vec::new() };
        assert(r@ =~= Seq::<(Seq<char>, Seq<char>)>::empty());
        r
    }

    /// Writes `value` under `name`, in place of what stood under that name.
    pub fn insert(&mut self, name: String, value: String)
        ensures
            final(self)@ == put(old(self)@, name@, value@),
    {
        proof {
            use_type_invariant(&*self);
            lemma_put_distinct(self@, name@, value@);
        }
        // The entries are taken out while they are changed, and put back.
        let mut entries: Vec<(String, String)> = Vec::new();
        core::mem::swap(&mut self.entries, &mut entries);
        write_entry(&mut entries, name, value);
        core::mem::swap(&mut self.entries, &mut entries);
    }

    /// The value of the parameter `name`, if there is one.
    pub fn get(&self, name: &str) -> (r: Option<&String>)
        ensures
            match r {
                Some(v) => lookup(false, self@, name@) == Some(v@),
                None => lookup(false, self@, name@) is None,
            },
    {
        read_entry(&self.entries, false, name)
    }

    /// Whether there is a parameter `name`.
    pub fn contains_key(&self, name: &str) -> (r: bool)
        ensures
            r == lookup(false, self@, name@).is_some(),
    {
        self.get(name).is_some()
    }

    /// The number of names, which are distinct.
    pub fn len(&self) -> (n: usize)
        ensures
            n == self@.len(),
            distinct(self@),
    {
        proof {
            use_type_invariant(self);
        }
        self.entries.len()
    }

    /// Whether the table is empty.
    pub fn is_empty(&self) -> (r: bool)
        ensures
            r == (self@.len() == 0),
    {
        self.entries.len() == 0
    }

    /// The name of the entry at `i`.
    pub fn name_at(&self, i: usize) -> (r: &String)
        requires
            i < self@.len(),
        ensures
            r@ == self@[i as int].0,
    {
        &self.entries[i].0
    }

    /// The value of the entry at `i`.
    pub fn value_at(&self, i: usize) -> (r: &String)
        requires
            i < self@.len(),
        ensures
            r@ == self@[i as int].1,
    {
        &self.entries[i].1
    }
}

impl Clone for QueryParams {
    fn clone(&self) -> (r: Self)
        ensures
            r@ == self@,
    {
        proof {
            use_type_invariant(self);
        }
        QueryParams { entries: copy_entries(&self.entries) }
    }
}

} // verus!
