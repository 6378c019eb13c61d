use vstd::prelude::*;
use vstd::std_specs::iter::IteratorSpec;

verus! {

/// Characters that end a token of the request line.
pub open spec fn is_delim(c: char) -> bool {
    c == ' ' || c == '\r'
}

/// Index of the first `c` in `s[lo..hi]`, or `hi` when there is none.
pub open spec fn find_in(s: Seq<char>, c: char, lo: int, hi: int) -> int
    decreases hi - lo,
{
    if lo >= hi {
        hi
    } else if s[lo] == c {
        lo
    } else {
        find_in(s, c, lo + 1, hi)
    }
}

/// Index of the first delimiter in `s[lo..hi]`, or `hi` when there is none.
pub open spec fn delim_in(s: Seq<char>, lo: int, hi: int) -> int
    decreases hi - lo,
{
    if lo >= hi {
        hi
    } else if is_delim(s[lo]) {
        lo
    } else {
        delim_in(s, lo + 1, hi)
    }
}

/// `find_in` lands in its range, on a `c` when it is below `hi`, with no `c` before it.
pub proof fn lemma_find_in_bounds(s: Seq<char>, c: char, lo: int, hi: int)
    requires
        0 <= lo <= hi <= s.len(),
    ensures
        lo <= find_in(s, c, lo, hi) <= hi,
        find_in(s, c, lo, hi) < hi ==> s[find_in(s, c, lo, hi)] == c,
        forall|k: int| lo <= k < find_in(s, c, lo, hi) ==> s[k] != c,
    decreases hi - lo,
{
    if lo < hi && s[lo] != c {
        lemma_find_in_bounds(s, c, lo + 1, hi);
    }
}

/// `delim_in` lands in its range, on a delimiter when it is below `hi`, with none before it.
pub proof fn lemma_delim_in_bounds(s: Seq<char>, lo: int, hi: int)
    requires
        0 <= lo <= hi <= s.len(),
    ensures
        lo <= delim_in(s, lo, hi) <= hi,
        delim_in(s, lo, hi) < hi ==> is_delim(s[delim_in(s, lo, hi)]),
        forall|k: int| lo <= k < delim_in(s, lo, hi) ==> !is_delim(#[trigger] s[k]),
    decreases hi - lo,
{
    if lo < hi && !is_delim(s[lo]) {
        lemma_delim_in_bounds(s, lo + 1, hi);
    }
}

/// The characters of `s`, in order, gathered into a vector.
pub fn chars_of(s: &str) -> (v: Vec<char>)
    ensures
        v@ == s@,
{
    let mut v: Vec<char> = Vec::new();
    for c in it: s.chars()
        invariant
            it.seq() == s@,
            v@ == it.seq().subrange(0, it.index() as int),
    {
        v.push(c);
    }
    v
}

/// Position of the first `c` in `chars[lo..hi]`, or `hi`.
pub fn find_char(chars: &Vec<char>, c: char, lo: usize, hi: usize) -> (r: usize)
    requires
        lo <= hi <= chars@.len(),
    ensures
        r as int == find_in(chars@, c, lo as int, hi as int),
{
    let mut i: usize = lo;
    while i < hi
        invariant
            lo <= i <= hi <= chars@.len(),
            find_in(chars@, c, i as int, hi as int) == find_in(chars@, c, lo as int, hi as int),
        decreases hi - i,
    {
        if chars[i] == c {
            return i;
        }
        i = i + 1;
    }
    i
}

/// Position of the first delimiter in `chars[lo..hi]`, or `hi`.
pub fn find_delim(chars: &Vec<char>, lo: usize, hi: usize) -> (r: usize)
    requires
        lo <= hi <= chars@.len(),
    ensures
        r as int == delim_in(chars@, lo as int, hi as int),
{
    let mut i: usize = lo;
    while i < hi
        invariant
            lo <= i <= hi <= chars@.len(),
            delim_in(chars@, i as int, hi as int) == delim_in(chars@, lo as int, hi as int),
        decreases hi - i,
    {
        let c = chars[i];
        if c == ' ' || c == '\r' {
            return i;
        }
        i = i + 1;
    }
    i
}

/// Whether two pieces of text hold the same characters.
pub fn same_text(a: &str, b: &str) -> (r: bool)
    ensures
        r == (a@ == b@),
{
    let x = chars_of(a);
    let y = chars_of(b);
    if x.len() != y.len() {
        return false;
    }
    let mut i: usize = 0;
    while i < x.len()
        invariant
            x@ == a@,
            y@ == b@,
            x@.len() == y@.len(),
            i <= x@.len(),
            forall|k: int| 0 <= k < i ==> x@[k] == y@[k],
        decreases x@.len() - i,
    {
        if x[i] != y[i] {
            return false;
        }
        i = i + 1;
    }
    assert(x@ =~= y@);
    true
}

} // verus!
