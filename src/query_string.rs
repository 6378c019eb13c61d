use vstd::prelude::*;
use vstd::string::*;
use crate::text::{chars_of, find_char, find_in, lemma_find_in_bounds, same_text};

verus! {

/// What one key of a query string holds: one value, or several in the order they came.
#[derive(Debug, PartialEq, Eq)]
pub enum Value<'a> {
    Single(&'a str),
    Multiple(Vec<&'a str>),
}

impl<'a> View for Value<'a> {
    type V = Seq<Seq<char>>;

    open spec fn view(&self) -> Seq<Seq<char>> {
        match self {
            Value::Single(v) => seq![v@],
            Value::Multiple(vs) => vs@.map_values(|t: &'a str| t@),
        }
    }
}

/// The keys of a query string in order of first appearance, each with its values.
pub type Entries = Seq<(Seq<char>, Seq<Seq<char>>)>;

/// Position of the first entry at or after `i` whose key is `k`, or `e.len()`.
pub open spec fn key_index(e: Entries, k: Seq<char>, i: int) -> int
    decreases e.len() - i,
{
    if i >= e.len() {
        e.len() as int
    } else if e[i].0 == k {
        i
    } else {
        key_index(e, k, i + 1)
    }
}

/// `key_index` lands in its range, on an entry for `k` when it is below the length, with
/// none for `k` before it.
pub proof fn lemma_key_index_bounds(e: Entries, k: Seq<char>, i: int)
    requires
        0 <= i <= e.len(),
    ensures
        i <= key_index(e, k, i) <= e.len(),
        key_index(e, k, i) < e.len() ==> e[key_index(e, k, i)].0 == k,
        forall|j: int| i <= j < key_index(e, k, i) ==> e[j].0 != k,
    decreases e.len() - i,
{
    if i < e.len() && e[i].0 != k {
        lemma_key_index_bounds(e, k, i + 1);
    }
}

/// The values held under `k`, if `k` occurs.
pub open spec fn lookup(e: Entries, k: Seq<char>) -> Option<Seq<Seq<char>>> {
    let i = key_index(e, k, 0);
    if 0 <= i < e.len() {
        Some(e[i].1)
    } else {
        None
    }
}

/// Adds `v` under `k`: at the end of the values of an existing key, or as a new last key.
pub open spec fn add_value(e: Entries, k: Seq<char>, v: Seq<char>) -> Entries {
    let i = key_index(e, k, 0);
    if 0 <= i < e.len() {
        e.update(i, (k, e[i].1.push(v)))
    } else {
        e.push((k, seq![v]))
    }
}

/// Folds the `&`-separated pairs of `s` from position `start` into `acc`. A pair is split at
/// its first `=`; a pair without `=` is a key whose value is empty.
pub open spec fn entries_from(s: Seq<char>, start: int, acc: Entries) -> Entries
    decreases s.len() - start,
{
    if start < 0 || start > s.len() {
        acc
    } else {
        let j = find_in(s, '&', start, s.len() as int);
        let e = find_in(s, '=', start, j);
        let key = s.subrange(start, e);
        let value = if e < j {
            s.subrange(e + 1, j)
        } else {
            Seq::empty()
        };
        let next = add_value(acc, key, value);
        proof {
            lemma_find_in_bounds(s, '&', start, s.len() as int);
        }
        if j >= s.len() {
            next
        } else {
            entries_from(s, j + 1, next)
        }
    }
}

/// The entries that a query fragment (the text after `?`) describes.
pub open spec fn query_entries(s: Seq<char>) -> Entries {
    entries_from(s, 0, Seq::empty())
}

/// Each key occurs once, and holds at least one value.
pub open spec fn entries_wf(e: Entries) -> bool {
    &&& forall|i: int, j: int| 0 <= i < j < e.len() ==> e[i].0 != e[j].0
    &&& forall|i: int| 0 <= i < e.len() ==> (#[trigger] e[i]).1.len() > 0
}

/// Adding a value keeps entries well-formed.
proof fn lemma_add_value_wf(e: Entries, k: Seq<char>, v: Seq<char>)
    requires
        entries_wf(e),
    ensures
        entries_wf(add_value(e, k, v)),
{
    lemma_key_index_bounds(e, k, 0);
    let r = add_value(e, k, v);
    let i = key_index(e, k, 0);
    assert forall|a: int, b: int| 0 <= a < b < r.len() implies r[a].0 != r[b].0 by {
        if i >= e.len() {
            if b == e.len() {
                assert(e[a].0 != k);
            }
        }
    }
}

/// Folding pairs into well-formed entries keeps them well-formed.
pub proof fn lemma_entries_from_wf(s: Seq<char>, start: int, acc: Entries)
    requires
        entries_wf(acc),
    ensures
        entries_wf(entries_from(s, start, acc)),
    decreases s.len() - start,
{
    if 0 <= start <= s.len() {
        let j = find_in(s, '&', start, s.len() as int);
        let e = find_in(s, '=', start, j);
        let key = s.subrange(start, e);
        let value = if e < j {
            s.subrange(e + 1, j)
        } else {
            Seq::empty()
        };
        lemma_add_value_wf(acc, key, value);
        lemma_find_in_bounds(s, '&', start, s.len() as int);
        if j < s.len() {
            lemma_entries_from_wf(s, j + 1, add_value(acc, key, value));
        }
    }
}

/// The view of stored entries.
pub open spec fn entries_view<'a>(d: Seq<(&'a str, Value<'a>)>) -> Entries {
    d.map_values(|p: (&'a str, Value<'a>)| (p.0@, p.1@))
}

/// A parsed query string: each key with its values, borrowed from the request text.
#[derive(Debug, PartialEq, Eq)]
pub struct QueryString<'a> {
    data: Vec<(&'a str, Value<'a>)>,
}

impl<'a> View for QueryString<'a> {
    type V = Entries;

    closed spec fn view(&self) -> Entries {
        entries_view(self.data@)
    }
}

/// Position of the entry whose key is `key`, or `data.len()`.
fn find_key<'a>(data: &Vec<(&'a str, Value<'a>)>, key: &str) -> (r: usize)
    ensures
        r as int == key_index(entries_view(data@), key@, 0),
{
    let mut i: usize = 0;
    while i < data.len()
        invariant
            i <= data@.len(),
            key_index(entries_view(data@), key@, i as int) == key_index(
                entries_view(data@),
                key@,
                0,
            ),
        decreases data@.len() - i,
    {
        if same_text(data[i].0, key) {
            return i;
        }
        i = i + 1;
    }
    i
}

/// Records `value` under `key`, as `add_value` describes.
fn add_to<'a>(data: &mut Vec<(&'a str, Value<'a>)>, key: &'a str, value: &'a str)
    ensures
        entries_view(final(data)@) == add_value(entries_view(old(data)@), key@, value@),
{
    let i = find_key(data, key);
    let ghost before = entries_view(data@);
    let ghost stored = data@;
    proof {
        lemma_key_index_bounds(before, key@, 0);
    }
    if i < data.len() {
        let (k, held) = data.remove(i);
        let grown = match held {
            Value::Single(first) => Value::Multiple(vec![first, value]),
            Value::Multiple(mut all) => {
                all.push(value);
                Value::Multiple(all)
            },
        };
        assert(grown@ =~= before[i as int].1.push(value@));
        data.insert(i, (k, grown));
        assert(data@ =~= stored.update(i as int, (k, grown)));
        assert(entries_view(data@) =~= before.update(i as int, (key@, before[i as int].1.push(value@))));
    } else {
        data.push((key, Value::Single(value)));
        assert(entries_view(data@) =~= before.push((key@, seq![value@])));
    }
}

impl<'a> QueryString<'a> {
    /// Parses a query fragment: the text after `?`, without it.
    pub fn parse(s: &'a str) -> (r: QueryString<'a>)
        ensures
            r@ == query_entries(s@),
            entries_wf(r@),
    {
        proof {
            lemma_entries_from_wf(s@, 0, Seq::empty());
        }
        let chars = chars_of(s);
        let n = chars.len();
        let mut data: Vec<(&'a str, Value<'a>)> = Vec::new();
        let mut start: usize = 0;
        assert(entries_view(data@) =~= Seq::empty());
        loop
            invariant_except_break
                entries_from(s@, start as int, entries_view(data@)) == query_entries(s@),
            invariant
                chars@ == s@,
                n == s@.len(),
                start <= n,
            ensures
                entries_view(data@) == query_entries(s@),
            decreases n - start,
        {
            let j = find_char(&chars, '&', start, n);
            proof {
                lemma_find_in_bounds(s@, '&', start as int, n as int);
            }
            let e = find_char(&chars, '=', start, j);
            proof {
                lemma_find_in_bounds(s@, '=', start as int, j as int);
            }
            let key = s.substring_char(start, e);
            let value = if e < j {
                s.substring_char(e + 1, j)
            } else {
                proof {
                    reveal_strlit("");
                }
                assert(""@ =~= Seq::<char>::empty());
                ""
            };
            add_to(&mut data, key, value);
            if j >= n {
                break;
            }
            start = j + 1;
        }
        QueryString { data }
    }

    /// The value held under `key`, if the key occurs.
    pub fn get(&self, key: &str) -> (r: Option<&Value<'a>>)
        ensures
            match lookup(self@, key@) {
                Some(vs) => r is Some && r->0@ == vs,
                None => r is None,
            },
    {
        let i = find_key(&self.data, key);
        if i < self.data.len() {
            Some(&self.data[i].1)
        } else {
            None
        }
    }

    /// Number of distinct keys.
    pub fn len(&self) -> (r: usize)
        ensures
            r == self@.len(),
    {
        self.data.len()
    }
}

} // verus!
