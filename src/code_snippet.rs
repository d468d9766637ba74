//! The source lines around a target line, keyed by their 1-based line number.
use std::collections::BTreeMap;
use vstd::std_specs::btree::spec_btree_map_iter;
use vstd::std_specs::iter::IteratorSpec;
use vstd::prelude::*;
use crate::decimal::{decimal_text, is_u32_text, u32_of_text, lemma_u32_text_round_trip, parse_u32, u32_text};

verus! {

broadcast use vstd::laws_cmp::group_laws_cmp, vstd::std_specs::btree::group_btree_axioms;

/// Source lines keyed by line number; the keys are unique and ascending.
#[derive(Eq, PartialEq, Clone, Debug)]
pub struct CodeSnippet(pub BTreeMap<u32, String>);

impl View for CodeSnippet {
    type V = Map<u32, String>;

    open spec fn view(&self) -> Map<u32, String> {
        self.0@
    }
}

/// The first line of the window around `line` with radius `surround`.
pub open spec fn window_low(line: int, surround: int) -> int {
    if line - surround > 1 { line - surround } else { 1 }
}

/// The last line of that window in a file of `n` lines.
pub open spec fn window_high(n: int, line: int, surround: int) -> int {
    if line + surround < n { line + surround } else { n }
}

/// Whether line `k` lies in the window, clipped to the file's lines.
pub open spec fn in_window(k: int, n: int, line: int, surround: int) -> bool {
    window_low(line, surround) <= k <= window_high(n, line, surround)
}

/// The snippet of `lines` around `line`: each line of the clipped window,
/// keyed by its 1-based position, verbatim.
pub open spec fn window_of(lines: Seq<String>, line: int, surround: int) -> Map<u32, String> {
    Map::new(
        |k: u32| in_window(k as int, lines.len() as int, line, surround),
        |k: u32| lines[k - 1],
    )
}

/// Whether `e` is an encoding of `m` as text-keyed entries, in any order:
/// each entry holds the decimal text of a key of `m` and its line, and each
/// key of `m` has such an entry.
pub open spec fn encodes(e: Seq<(String, String)>, m: Map<u32, String>) -> bool {
    &&& forall|i: int| 0 <= i < e.len() ==> is_entry_of(#[trigger] e[i], m)
    &&& forall|k: u32|
        #[trigger] m.contains_key(k) ==> exists|i: int|
            0 <= i < e.len() && #[trigger] e[i].0@ == decimal_text(k as nat) && e[i].1 == m[k]
}

/// Whether `x` holds the decimal text of a key of `m` and that key's line.
pub open spec fn is_entry_of(x: (String, String), m: Map<u32, String>) -> bool {
    exists|k: u32| #[trigger] m.contains_key(k) && x.0@ == decimal_text(k as nat) && x.1 == m[k]
}

/// Whether every key of the entries is the text of a `u32`.
pub open spec fn keys_valid(e: Seq<(String, String)>) -> bool {
    forall|i: int| 0 <= i < e.len() ==> is_u32_text(#[trigger] e[i].0@)
}

/// The position of the first entry whose key is not the text of a `u32`.
pub open spec fn first_bad_key(e: Seq<(String, String)>, i: int) -> bool {
    &&& 0 <= i < e.len()
    &&& !is_u32_text(e[i].0@)
    &&& forall|j: int| 0 <= j < i ==> is_u32_text(#[trigger] e[j].0@)
}

/// The map that the entries give when each is inserted in turn, a later entry
/// replacing an earlier one with the same key.
pub open spec fn decoded(e: Seq<(String, String)>) -> Map<u32, String>
    decreases e.len(),
{
    if e.len() == 0 {
        Map::empty()
    } else {
        decoded(e.drop_last()).insert(u32_of_text(e.last().0@), e.last().1)
    }
}

/// Each key of the decoded map comes from an entry whose line it keeps, and
/// each entry's key is in the decoded map.
proof fn lemma_decoded_keys(e: Seq<(String, String)>)
    ensures
        forall|k: u32| #[trigger] decoded(e).contains_key(k) ==> exists|i: int|
            0 <= i < e.len() && u32_of_text(e[i].0@) == k && decoded(e)[k] == #[trigger] e[i].1,
        forall|i: int| 0 <= i < e.len() ==> decoded(e).contains_key(#[trigger] u32_of_text(e[i].0@)),
    decreases e.len(),
{
    if e.len() > 0 {
        let p = e.drop_last();
        lemma_decoded_keys(p);
        assert forall|k: u32| #[trigger] decoded(e).contains_key(k) implies exists|i: int|
            0 <= i < e.len() && u32_of_text(e[i].0@) == k && decoded(e)[k] == #[trigger] e[i].1 by {
            if k != u32_of_text(e.last().0@) {
                let i = choose|i: int| 0 <= i < p.len() && u32_of_text(p[i].0@) == k && decoded(p)[k] == #[trigger] p[i].1;
                assert(e[i] == p[i]);
            } else {
                assert(e[e.len() - 1] == e.last());
            }
        }
        assert forall|i: int| 0 <= i < e.len() implies decoded(e).contains_key(#[trigger] u32_of_text(e[i].0@)) by {
            if i < p.len() {
                assert(e[i] == p[i]);
                assert(decoded(p).contains_key(u32_of_text(p[i].0@)));
            }
        }
    }
}

/// Decoding any encoding of a snippet's lines, in whatever order its entries
/// come, succeeds and gives back exactly those lines.
pub proof fn lemma_entries_round_trip(m: Map<u32, String>, e: Seq<(String, String)>)
    requires
        encodes(e, m),
    ensures
        keys_valid(e),
        decoded(e) == m,
{
    assert forall|i: int| 0 <= i < e.len() implies is_u32_text(#[trigger] e[i].0@) by {
        assert(is_entry_of(e[i], m));
        let k = choose|k: u32| #[trigger] m.contains_key(k) && e[i].0@ == decimal_text(k as nat) && e[i].1 == m[k];
        lemma_u32_text_round_trip(k);
    }
    lemma_decoded_keys(e);
    let d = decoded(e);
    assert forall|k: u32| #[trigger] m.contains_key(k) implies d.contains_key(k) && d[k] == m[k] by {
        let i = choose|i: int| 0 <= i < e.len() && #[trigger] e[i].0@ == decimal_text(k as nat) && e[i].1 == m[k];
        lemma_u32_text_round_trip(k);
        assert(d.contains_key(u32_of_text(e[i].0@)));
        let j = choose|j: int| 0 <= j < e.len() && u32_of_text(e[j].0@) == k && d[k] == #[trigger] e[j].1;
        assert(is_entry_of(e[j], m));
        let k2 = choose|k2: u32| #[trigger] m.contains_key(k2) && e[j].0@ == decimal_text(k2 as nat) && e[j].1 == m[k2];
        lemma_u32_text_round_trip(k2);
    }
    assert forall|k: u32| #[trigger] d.contains_key(k) implies m.contains_key(k) by {
        let j = choose|j: int| 0 <= j < e.len() && u32_of_text(e[j].0@) == k && d[k] == #[trigger] e[j].1;
        assert(is_entry_of(e[j], m));
        let k2 = choose|k2: u32| #[trigger] m.contains_key(k2) && e[j].0@ == decimal_text(k2 as nat) && e[j].1 == m[k2];
        lemma_u32_text_round_trip(k2);
    }
    assert(d =~= m);
}

/// An entry key that is not the decimal text of a `u32`.
#[derive(Clone, Debug, PartialEq, Eq)]
pub struct SnippetKeyError {
    pub key: String,
}

impl CodeSnippet {
    /// An empty snippet.
    pub fn new() -> (r: Self)
        ensures
            r@ == Map::<u32, String>::empty(),
    {
        CodeSnippet(BTreeMap::new())
    }

    /// The lines of the window `[max(1, line - surround), min(n, line + surround)]`
    /// of a file whose lines are `lines`, keyed by their 1-based position.
    pub fn extract(lines: &Vec<String>, line_number: u32, surround: u32) -> (r: Self)
        requires
            lines@.len() <= u32::MAX,
        ensures
            r@ == window_of(lines@, line_number as int, surround as int),
    {
        let low: u32 = if line_number.saturating_sub(surround) > 1 {
            line_number - surround
        } else {
            1
        };
        let n = lines.len() as u32;
        let high: u32 = if line_number.saturating_add(surround) < n {
            line_number + surround
        } else {
            n
        };
        let mut map: BTreeMap<u32, String> = BTreeMap::new();
        let mut k: u64 = low as u64;
        while k <= high as u64
            invariant
                lines@.len() == n,
                low == window_low(line_number as int, surround as int),
                high == window_high(n as int, line_number as int, surround as int),
                low <= k,
                k <= high as int + 1 || k == low,
                map@ == Map::new(|j: u32| low <= j < k, |j: u32| lines@[j - 1]),
            decreases high as int + 1 - k,
        {
            map.insert(k as u32, lines[(k - 1) as usize].clone());
            k = k + 1;
            assert(map@ =~= Map::new(|j: u32| low <= j < k, |j: u32| lines@[j - 1]));
        }
        let r = CodeSnippet(map);
        assert(r@ =~= window_of(lines@, line_number as int, surround as int));
        r
    }

    /// The snippet as text-keyed entries, each key the decimal text of its
    /// line number.
    pub fn to_entries(&self) -> (r: Vec<(String, String)>)
        ensures
            encodes(r@, self@),
    {
        let mut out: Vec<(String, String)> = Vec::new();
        let ghost v = spec_btree_map_iter(&self.0).remaining();
        for (k, x) in it: self.0.iter()
            invariant
                it.seq() == v,
                out@.len() == it.index(),
                forall|i: int|
                    0 <= i < it.index() ==> (#[trigger] out@[i]).0@ == decimal_text(*it.seq()[i].0 as nat)
                        && out@[i].1 == *it.seq()[i].1,
        {
            out.push((u32_text(*k), x.clone()));
        }
        assert(out@.len() == v.len());
        assert forall|i: int| 0 <= i < out@.len() implies is_entry_of(#[trigger] out@[i], self@) by {
            let k = *v[i].0;
            assert(self@.contains_key(k));
        }
        assert forall|k: u32| #[trigger] self@.contains_key(k) implies exists|i: int|
            0 <= i < out@.len() && #[trigger] out@[i].0@ == decimal_text(k as nat) && out@[i].1 == self@[k] by {
            assert(v.contains((&k, &self@[k])));
            let i = choose|i: int| 0 <= i < v.len() && v[i] == (&k, &self@[k]);
            assert(out@[i].0@ == decimal_text(k as nat));
        }
        assert(encodes(out@, self@));
        out
    }

    /// A snippet from text-keyed entries, inserted in turn; fails on the first
    /// key that is not the decimal text of a `u32`.
    pub fn from_entries(entries: &Vec<(String, String)>) -> (r: Result<Self, SnippetKeyError>)
        ensures
            r is Ok <==> keys_valid(entries@),
            r is Ok ==> r->Ok_0@ == decoded(entries@),
            r is Err ==> exists|i: int|
                first_bad_key(entries@, i) && r->Err_0.key == #[trigger] entries@[i].0,
    {
        let mut map: BTreeMap<u32, String> = BTreeMap::new();
        let mut i: usize = 0;
        while i < entries.len()
            invariant
                i <= entries@.len(),
                keys_valid(entries@.subrange(0, i as int)),
                map@ == decoded(entries@.subrange(0, i as int)),
            decreases entries@.len() - i,
        {
            let key = &entries[i].0;
            match parse_u32(key.as_str()) {
                None => {
                    assert forall|j: int| 0 <= j < i implies is_u32_text(#[trigger] entries@[j].0@) by {
                        assert(entries@.subrange(0, i as int)[j] == entries@[j]);
                    }
                    assert(first_bad_key(entries@, i as int));
                    return Err(SnippetKeyError { key: key.clone() });
                }
                Some(n) => {
                    let ghost prev = entries@.subrange(0, i as int);
                    let ghost next = entries@.subrange(0, i + 1);
                    assert(next.drop_last() =~= prev);
                    map.insert(n, entries[i].1.clone());
                    i = i + 1;
                    assert forall|j: int| 0 <= j < next.len() implies is_u32_text(#[trigger] next[j].0@) by {
                        if j < prev.len() {
                            assert(prev[j] == next[j]);
                        }
                    }
                }
            }
        }
        assert(entries@.subrange(0, i as int) =~= entries@);
        Ok(CodeSnippet(map))
    }
}

impl Default for CodeSnippet {
    fn default() -> (r: Self)
        ensures
            r@ == Map::<u32, String>::empty(),
    {
        Self::new()
    }
}

} // verus!
