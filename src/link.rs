//! Parsing of the HTTP `Link` response header used for cursor pagination.
//!
//! A header is a comma-separated list of entries of the form
//! `<url>; rel="value"`. Only an entry whose single parameter is exactly
//! `rel="next"` and whose target is enclosed in angle brackets designates the
//! next page; every other entry is ignored.
use vstd::prelude::*;
use vstd::string::*;

verus! {

/// Whitespace allowed around the parts of an entry.
pub open spec fn is_blank(c: char) -> bool {
    c == ' ' || c == '\t'
}

/// The pieces of `s` between occurrences of `sep`, in order.
/// An input without `sep` is a single piece; an empty input is one empty piece.
pub open spec fn split_on(s: Seq<char>, sep: char) -> Seq<Seq<char>>
    decreases s.len(),
{
    if s.len() == 0 {
        seq![Seq::<char>::empty()]
    } else {
        let prev = split_on(s.drop_last(), sep);
        if s.last() == sep {
            prev.push(Seq::<char>::empty())
        } else {
            prev.update(prev.len() - 1, prev.last().push(s.last()))
        }
    }
}

pub open spec fn trim_start(s: Seq<char>) -> Seq<char>
    decreases s.len(),
{
    if s.len() > 0 && is_blank(s[0]) {
        trim_start(s.drop_first())
    } else {
        s
    }
}

pub open spec fn trim_end(s: Seq<char>) -> Seq<char>
    decreases s.len(),
{
    if s.len() > 0 && is_blank(s.last()) {
        trim_end(s.drop_last())
    } else {
        s
    }
}

/// `s` without leading and trailing blanks.
pub open spec fn trim(s: Seq<char>) -> Seq<char> {
    trim_end(trim_start(s))
}

/// The only relation parameter that designates the next page.
pub open spec fn rel_next() -> Seq<char> {
    seq!['r', 'e', 'l', '=', '"', 'n', 'e', 'x', 't', '"']
}

/// The text between `<` and `>` when `t` is exactly `<...>`.
pub open spec fn bracketed(t: Seq<char>) -> Option<Seq<char>> {
    if t.len() >= 2 && t[0] == '<' && t.last() == '>' {
        Some(t.subrange(1, t.len() - 1))
    } else {
        None
    }
}

/// An entry has exactly one parameter, and that parameter is `rel="next"`.
pub open spec fn relation_is_next(e: Seq<char>) -> bool {
    let parts = split_on(e, ';');
    parts.len() == 2 && trim(parts[1]) == rel_next()
}

/// The target of an entry that designates the next page.
pub open spec fn entry_target(e: Seq<char>) -> Option<Seq<char>> {
    if relation_is_next(e) {
        bracketed(trim(split_on(e, ';')[0]))
    } else {
        None
    }
}

/// The target of the first entry of `entries` that designates the next page.
pub open spec fn first_target(entries: Seq<Seq<char>>) -> Option<Seq<char>>
    decreases entries.len(),
{
    if entries.len() == 0 {
        None
    } else {
        match first_target(entries.drop_last()) {
            Some(u) => Some(u),
            None => entry_target(entries.last()),
        }
    }
}

/// The next-page target that a `Link` header designates, if any.
pub open spec fn next_link_of(header: Seq<char>) -> Option<Seq<char>> {
    first_target(split_on(header, ','))
}

/// The texts that a list of index ranges of `h` denotes.
pub open spec fn range_texts(h: Seq<char>, ranges: Seq<(usize, usize)>) -> Seq<Seq<char>> {
    Seq::new(ranges.len(), |j: int| h.subrange(ranges[j].0 as int, ranges[j].1 as int))
}

/// Splits the characters `a..b` of `h` at each `sep`, as index ranges.
fn split_ranges(h: &str, a: usize, b: usize, sep: char) -> (r: Vec<(usize, usize)>)
    requires
        a <= b <= h@.len(),
    ensures
        range_texts(h@, r@) == split_on(h@.subrange(a as int, b as int), sep),
        forall|j: int| 0 <= j < r@.len() ==> a <= #[trigger] r@[j].0 <= r@[j].1 <= b,
{
    let mut ranges: Vec<(usize, usize)> = Vec::new();
    let mut start: usize = a;
    let mut i: usize = a;
    assert(h@.subrange(a as int, a as int) =~= Seq::<char>::empty());
    assert(range_texts(h@, ranges@).push(h@.subrange(start as int, i as int)) =~= split_on(
        h@.subrange(a as int, i as int),
        sep,
    ));
    while i < b
        invariant
            a <= start <= i <= b <= h@.len(),
            range_texts(h@, ranges@).push(h@.subrange(start as int, i as int)) == split_on(
                h@.subrange(a as int, i as int),
                sep,
            ),
            forall|j: int| 0 <= j < ranges@.len() ==> a <= #[trigger] ranges@[j].0 <= ranges@[j].1 <= start,
        decreases b - i,
    {
        let c = h.get_char(i);
        let ghost before = range_texts(h@, ranges@);
        let ghost cur = h@.subrange(start as int, i as int);
        assert(h@.subrange(a as int, i + 1).drop_last() =~= h@.subrange(a as int, i as int));
        assert(h@.subrange(a as int, i + 1).last() == c);
        if c == sep {
            ranges.push((start, i));
            assert(range_texts(h@, ranges@) =~= before.push(cur));
            start = i + 1;
            assert(h@.subrange(start as int, start as int) =~= Seq::<char>::empty());
        } else {
            assert(cur.push(c) =~= h@.subrange(start as int, i + 1));
            assert(before.push(cur).update(before.len() as int, cur.push(c)) =~= before.push(
                h@.subrange(start as int, i + 1),
            ));
        }
        i = i + 1;
    }
    let ghost before = range_texts(h@, ranges@);
    ranges.push((start, b));
    assert(range_texts(h@, ranges@) =~= before.push(h@.subrange(start as int, b as int)));
    ranges
}

/// The range of the characters `a..b` of `h` without leading and trailing blanks.
fn trim_range(h: &str, a: usize, b: usize) -> (r: (usize, usize))
    requires
        a <= b <= h@.len(),
    ensures
        a <= r.0 <= r.1 <= b,
        h@.subrange(r.0 as int, r.1 as int) == trim(h@.subrange(a as int, b as int)),
{
    let mut lo: usize = a;
    while lo < b && is_blank_char(h.get_char(lo))
        invariant
            a <= lo <= b <= h@.len(),
            trim_start(h@.subrange(lo as int, b as int)) == trim_start(
                h@.subrange(a as int, b as int),
            ),
        decreases b - lo,
    {
        assert(h@.subrange(lo as int, b as int).drop_first() =~= h@.subrange(lo + 1, b as int));
        lo = lo + 1;
    }
    assert(trim_start(h@.subrange(lo as int, b as int)) == h@.subrange(lo as int, b as int));
    let mut hi: usize = b;
    while hi > lo && is_blank_char(h.get_char(hi - 1))
        invariant
            a <= lo <= hi <= b <= h@.len(),
            trim_end(h@.subrange(lo as int, hi as int)) == trim(h@.subrange(a as int, b as int)),
        decreases hi,
    {
        assert(h@.subrange(lo as int, hi as int).drop_last() =~= h@.subrange(lo as int, hi - 1));
        hi = hi - 1;
    }
    (lo, hi)
}

fn is_blank_char(c: char) -> (r: bool)
    ensures
        r == is_blank(c),
{
    c == ' ' || c == '\t'
}

/// Whether the characters `a..b` of `h` are exactly `lit`.
fn range_equals(h: &str, a: usize, b: usize, lit: &str) -> (r: bool)
    requires
        a <= b <= h@.len(),
    ensures
        r == (h@.subrange(a as int, b as int) == lit@),
{
    let n = lit.unicode_len();
    if b - a != n {
        return false;
    }
    let mut k: usize = 0;
    while k < n
        invariant
            0 <= k <= n,
            n == lit@.len(),
            b - a == n,
            a <= b <= h@.len(),
            forall|j: int| 0 <= j < k ==> h@[a + j] == lit@[j],
        decreases n - k,
    {
        if h.get_char(a + k) != lit.get_char(k) {
            assert(h@.subrange(a as int, b as int)[k as int] != lit@[k as int]);
            return false;
        }
        k = k + 1;
    }
    assert(h@.subrange(a as int, b as int) =~= lit@);
    true
}

/// The target range of the entry `a..b` of `h`, when it designates the next page.
fn entry_target_range(h: &str, a: usize, b: usize) -> (r: Option<(usize, usize)>)
    requires
        a <= b <= h@.len(),
    ensures
        match r {
            Some((x, y)) => x <= y <= h@.len() && entry_target(h@.subrange(a as int, b as int))
                == Some(h@.subrange(x as int, y as int)),
            None => entry_target(h@.subrange(a as int, b as int)) is None,
        },
{
    let ghost e = h@.subrange(a as int, b as int);
    let parts = split_ranges(h, a, b, ';');
    if parts.len() != 2 {
        assert(range_texts(h@, parts@).len() == parts@.len());
        return None;
    }
    let (pa, pb) = parts[1];
    assert(range_texts(h@, parts@)[1] == h@.subrange(pa as int, pb as int));
    let (ra, rb) = trim_range(h, pa, pb);
    let lit = "rel=\"next\"";
    proof {
        reveal_strlit("rel=\"next\"");
        assert(lit@ =~= rel_next());
    }
    if !range_equals(h, ra, rb, lit) {
        return None;
    }
    let (qa, qb) = parts[0];
    assert(range_texts(h@, parts@)[0] == h@.subrange(qa as int, qb as int));
    let (ta, tb) = trim_range(h, qa, qb);
    if tb - ta >= 2 && h.get_char(ta) == '<' && h.get_char(tb - 1) == '>' {
        let ghost t = h@.subrange(ta as int, tb as int);
        assert(t.subrange(1, t.len() - 1) =~= h@.subrange(ta + 1, tb - 1));
        Some((ta + 1, tb - 1))
    } else {
        None
    }
}

/// Finds the next-page target in the text of a `Link` header.
///
/// Entries are tried in order; the first whose only parameter is exactly
/// `rel="next"` and whose target is written `<...>` gives the result.
pub fn parse_next_link(header: &str) -> (r: Option<String>)
    ensures
        match r {
            Some(u) => next_link_of(header@) == Some(u@),
            None => next_link_of(header@) is None,
        },
{
    let n = header.unicode_len();
    let entries = split_ranges(header, 0, n, ',');
    let ghost all = split_on(header@.subrange(0, n as int), ',');
    assert(header@.subrange(0, n as int) =~= header@);
    let mut k: usize = 0;
    while k < entries.len()
        invariant
            0 <= k <= entries@.len(),
            range_texts(header@, entries@) == all,
            all == split_on(header@, ','),
            forall|j: int| 0 <= j < entries@.len() ==> 0 <= #[trigger] entries@[j].0 <= entries@[j].1 <= n,
            n == header@.len(),
            first_target(all.take(k as int)) is None,
        decreases entries@.len() - k,
    {
        let (ea, eb) = entries[k];
        assert(entries@[k as int].0 <= entries@[k as int].1);
        assert(all.take(k + 1).drop_last() =~= all.take(k as int));
        assert(all.take(k + 1).last() == header@.subrange(ea as int, eb as int));
        match entry_target_range(header, ea, eb) {
            Some((x, y)) => {
                assert(first_target(all.take(k + 1)) == Some(header@.subrange(x as int, y as int)));
                proof { lemma_first_target_prefix(all, k + 1); }
                return Some(String::from_str(header.substring_char(x, y)));
            },
            None => {},
        }
        k = k + 1;
    }
    assert(all.take(k as int) =~= all);
    None
}

/// A next-page target comes only from an entry whose one parameter is
/// exactly `rel="next"`: no other entry of a header ever designates the next page.
pub proof fn next_link_needs_exact_relation(header: Seq<char>)
    ensures
        next_link_of(header) matches Some(u) ==> exists|i: int|
            0 <= i < split_on(header, ',').len() && relation_is_next(
                #[trigger] split_on(header, ',')[i],
            ) && entry_target(split_on(header, ',')[i]) == Some(u),
{
    lemma_first_target_source(split_on(header, ','));
}

proof fn lemma_first_target_source(entries: Seq<Seq<char>>)
    ensures
        first_target(entries) matches Some(u) ==> exists|i: int|
            0 <= i < entries.len() && relation_is_next(#[trigger] entries[i]) && entry_target(
                entries[i],
            ) == Some(u),
    decreases entries.len(),
{
    if entries.len() > 0 {
        let prev = entries.drop_last();
        lemma_first_target_source(prev);
        match first_target(prev) {
            Some(u) => {
                let i = choose|i: int|
                    0 <= i < prev.len() && relation_is_next(#[trigger] prev[i]) && entry_target(
                        prev[i],
                    ) == Some(u);
                assert(entries[i] == prev[i]);
            },
            None => {
                let i = entries.len() - 1;
                if entry_target(entries[i]) is Some {
                    assert(relation_is_next(entries[i]));
                }
            },
        }
    }
}

/// Once a prefix of the entries has a target, the whole list has the same one.
proof fn lemma_first_target_prefix(entries: Seq<Seq<char>>, k: int)
    requires
        0 <= k <= entries.len(),
        first_target(entries.take(k)) is Some,
    ensures
        first_target(entries) == first_target(entries.take(k)),
    decreases entries.len() - k,
{
    if k < entries.len() {
        assert(entries.take(k + 1).drop_last() =~= entries.take(k));
        lemma_first_target_prefix(entries, k + 1);
    } else {
        assert(entries.take(k) =~= entries);
    }
}

} // verus!
