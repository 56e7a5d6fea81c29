//! Query-string parsing for the control surface: `a=1&b=2` becomes a map
//! from parameter name to value. Pieces are split on `&`; a piece without
//! `=` is skipped; the first `=` in a piece separates name from value; a
//! repeated name keeps its last value.
use vstd::prelude::*;
use crate::text::find_char;
use crate::text::find_char_in;
use crate::text::lemma_find_char_first;
use crate::text::str_eq;

verus! {

/// Fold one piece into the map: insert at the first `=`, or skip the piece.
pub open spec fn piece_insert(
    piece: Seq<char>,
    m: Map<Seq<char>, Seq<char>>,
) -> Map<Seq<char>, Seq<char>> {
    match find_char(piece, '=') {
        Some(j) => m.insert(piece.take(j), piece.skip(j + 1)),
        None => m,
    }
}

/// Fold the remaining input into the map, piece by piece.
pub open spec fn pq_go(s: Seq<char>, m: Map<Seq<char>, Seq<char>>) -> Map<Seq<char>, Seq<char>>
    decreases s.len(),
{
    if s.len() == 0 {
        piece_insert(s, m)
    } else {
        match find_char(s, '&') {
            Some(i) => {
                let cut = if 0 <= i < s.len() {
                    i
                } else {
                    0
                };
                pq_go(s.skip(cut + 1), piece_insert(s.take(cut), m))
            },
            None => piece_insert(s, m),
        }
    }
}

/// The parameter map a query string denotes.
pub open spec fn parse_query_spec(s: Seq<char>) -> Map<Seq<char>, Seq<char>> {
    pq_go(s, Map::empty())
}

/// The map a pair list denotes: pairs folded in order, last value winning.
pub open spec fn pairs_map(ps: Seq<(String, String)>) -> Map<Seq<char>, Seq<char>>
    decreases ps.len(),
{
    if ps.len() == 0 {
        Map::empty()
    } else {
        pairs_map(ps.drop_last()).insert(ps.last().0@, ps.last().1@)
    }
}

proof fn lemma_pairs_map_get(ps: Seq<(String, String)>, k: Seq<char>, i: int)
    requires
        0 <= i < ps.len(),
        ps[i].0@ == k,
        forall|j: int| i < j < ps.len() ==> (#[trigger] ps[j]).0@ != k,
    ensures
        pairs_map(ps).contains_key(k),
        pairs_map(ps)[k] == ps[i].1@,
    decreases ps.len(),
{
    if i == ps.len() - 1 {
    } else {
        assert(ps.last().0@ != k);
        lemma_pairs_map_get(ps.drop_last(), k, i);
    }
}

proof fn lemma_pairs_map_absent(ps: Seq<(String, String)>, k: Seq<char>)
    requires
        forall|j: int| 0 <= j < ps.len() ==> (#[trigger] ps[j]).0@ != k,
    ensures
        !pairs_map(ps).contains_key(k),
    decreases ps.len(),
{
    if ps.len() > 0 {
        lemma_pairs_map_absent(ps.drop_last(), k);
    }
}

/// The parameters of one request, as (name, value) pairs in arrival order.
pub struct QueryParams {
    pairs: Vec<(String, String)>,
}

impl View for QueryParams {
    type V = Map<Seq<char>, Seq<char>>;

    closed spec fn view(&self) -> Map<Seq<char>, Seq<char>> {
        pairs_map(self.pairs@)
    }
}

impl QueryParams {
    pub fn new() -> (r: QueryParams)
        ensures
            r@ == Map::<Seq<char>, Seq<char>>::empty(),
    {
        QueryParams { pairs: Vec::new() }
    }

    /// Record a parameter; a later value for the same name wins.
    pub fn insert(&mut self, k: String, v: String)
        ensures
            final(self)@ == old(self)@.insert(k@, v@),
    {
        let ghost before = self.pairs@;
        self.pairs.push((k, v));
        proof {
            assert(self.pairs@.drop_last() =~= before);
        }
    }

    /// The value of parameter `k`, if the request carried one.
    pub fn get(&self, k: &str) -> (r: Option<&String>)
        ensures
            match r {
                Some(v) => self@.contains_key(k@) && v@ == self@[k@],
                None => !self@.contains_key(k@),
            },
    {
        let n = self.pairs.len();
        let mut i: usize = n;
        while i > 0
            invariant
                n == self.pairs@.len(),
                0 <= i <= n,
                forall|j: int| i <= j < n ==> (#[trigger] self.pairs@[j]).0@ != k@,
            decreases i,
        {
            i = i - 1;
            if str_eq(self.pairs[i].0.as_str(), k) {
                proof {
                    lemma_pairs_map_get(self.pairs@, k@, i as int);
                }
                return Some(&self.pairs[i].1);
            }
        }
        proof {
            lemma_pairs_map_absent(self.pairs@, k@);
        }
        None
    }

    /// Whether the request carried parameter `k`.
    pub fn contains_key(&self, k: &str) -> (r: bool)
        ensures
            r == self@.contains_key(k@),
    {
        self.get(k).is_some()
    }
}

/// Parse a form-encoded query string into its parameter map.
pub fn parse_query_string(string: &String) -> (r: QueryParams)
    ensures
        r@ == parse_query_spec(string@),
{
    let mut params = QueryParams::new();
    let mut remaining: &str = string.as_str();
    let mut done = false;
    while !done
        invariant
            !done ==> parse_query_spec(string@) == pq_go(remaining@, params@),
            done ==> parse_query_spec(string@) == params@,
        decreases remaining@.len() + (if done {
            0int
        } else {
            1int
        }),
    {
        let n = remaining.unicode_len();
        let amp = find_char_in(remaining, '&');
        proof {
            lemma_find_char_first(remaining@, '&');
        }
        let piece: &str = match amp {
            Some(i) => remaining.substring_char(0, i),
            None => remaining,
        };
        proof {
            lemma_find_char_first(piece@, '=');
        }
        let pn = piece.unicode_len();
        match find_char_in(piece, '=') {
            Some(j) => {
                let key = piece.substring_char(0, j).to_owned();
                let value = piece.substring_char(j + 1, pn).to_owned();
                params.insert(key, value);
            },
            None => {},
        }
        match amp {
            Some(i) => {
                remaining = remaining.substring_char(i + 1, n);
            },
            None => {
                done = true;
            },
        }
    }
    params
}

} // verus!
