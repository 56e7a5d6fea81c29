//! Flap encoder: turns free text into the 15-byte display command of a
//! split-flap device. The text is split on the first space into a lead word
//! and a body; both are upper-cased; the lead word selects an indicator code
//! from the lead table, and the body is tokenized against the character
//! table, longest symbol name first, into at most six glyph codes.
use vstd::prelude::*;
use crate::text::find_char;
use crate::text::find_char_in;
use crate::text::lemma_find_char_first;
use crate::text::str_chars;
use crate::text::str_eq;

verus! {

/// The uppercase image of a character sequence, as `str::to_uppercase`
/// computes it.
pub uninterp spec fn upper_of(s: Seq<char>) -> Seq<char>;

/// Relies on str::to_uppercase: the result depends on the characters alone.
#[verifier::external_body]
fn to_upper(s: &str) -> (r: String)
    ensures
        r@ == upper_of(s@),
{
    s.to_uppercase()
}

/// The lead table: entry i is the name of the indicator code i. Order is
/// the wire-level code assignment and is fixed.
pub open spec fn lead_table() -> Seq<&'static str> {
    Seq::empty().push("BLANK").push("BLAST").push("LIKE_RU").push("7").push("LIKE_FR").push(
        "LIKE_US_EN",
    ).push("LIKE_EN").push("LIKE_JA").push("LIKE_KO").push("8").push("LIKE_ZH").push(
        "FOLLOW_US_ES",
    ).push("FOLLOW_US_PT").push("FOLLOW_US_RU").push("FOLLOW_US_FR").push("9").push(
        "FOLLOW_US_EN",
    ).push("FOLLOW_US_IT").push("FOLLOW_US_DE").push("FOLLOW_US_JP").push("FOLLOW_US_KO").push(
        "FOLLOW_US_ZH",
    ).push("CHECK_IN_PT").push("CHECK_IN_RU").push("CHECK_IN_JP").push("CHECK_IN_KO").push(
        "CHECK_IN_ZH",
    ).push("CHECK_IN_EN").push("1").push("#").push("TWITTER").push("ZOMATO").push("YOUTUBE").push(
        "2",
    ).push("INSTAGRAM").push("GOOGLE_STATS").push("VKONTAKTE").push("FOURSQUARE").push(
        "SWARM",
    ).push("3").push("YELP").push("TRIPADVISOR").push("WEIBO").push("DIANPING").push(
        "FACEBOOK",
    ).push("4").push("SMILEY").push("FACEBOOK_THUMB").push("THANKS_ES").push("THANKS_PT").push(
        "THANKS_RU",
    ).push("5").push("THANKS_FR").push("THANKS_EN").push("THANKS_IT").push("THANKS_DE").push(
        "THANKS_JA",
    ).push("6").push("THANKS_KO").push("THANKS_ZH")
}

/// The character table: entry i is the name of the glyph code i. Order is
/// the wire-level code assignment and is fixed.
pub open spec fn char_table() -> Seq<&'static str> {
    Seq::empty().push("BLANK").push("EMPTY_BUBBLE").push("1").push("A").push("B").push("C").push(
        "D",
    ).push("/").push("E").push("F").push("G").push("H").push("I").push("2").push("J").push(
        "K",
    ).push("L").push("M").push("N").push("5").push("O").push("P").push("Q").push("R").push(
        "S",
    ).push("3").push("T").push("U").push("V").push("W").push("X").push("6").push("Z").push(
        "Y",
    ).push("HEART").push("\u{20ac}").push("$").push("4").push("\u{a3}").push("\u{a5}").push(
        "+",
    ).push("?").push("!").push("FULL_BUBBLE").push("&").push("@").push("#").push("->").push(
        ":",
    ).push("0").push(".").push("9").push("HALF_BUBBLE").push("FULL_STAR").push("HALF_STAR").push(
        "EMPTY_STAR",
    ).push("BLANK2").push("8").push("PERCENT").push("7")
}

/// The lead table, as runtime data.
pub fn lead_entries() -> (v: Vec<&'static str>)
    ensures
        v@ == lead_table(),
        v@.len() == 60,
{
    let mut v: Vec<&'static str> = Vec::new();
    v.push("BLANK");
    v.push("BLAST");
    v.push("LIKE_RU");
    v.push("7");
    v.push("LIKE_FR");
    v.push("LIKE_US_EN");
    v.push("LIKE_EN");
    v.push("LIKE_JA");
    v.push("LIKE_KO");
    v.push("8");
    v.push("LIKE_ZH");
    v.push("FOLLOW_US_ES");
    v.push("FOLLOW_US_PT");
    v.push("FOLLOW_US_RU");
    v.push("FOLLOW_US_FR");
    v.push("9");
    v.push("FOLLOW_US_EN");
    v.push("FOLLOW_US_IT");
    v.push("FOLLOW_US_DE");
    v.push("FOLLOW_US_JP");
    v.push("FOLLOW_US_KO");
    v.push("FOLLOW_US_ZH");
    v.push("CHECK_IN_PT");
    v.push("CHECK_IN_RU");
    v.push("CHECK_IN_JP");
    v.push("CHECK_IN_KO");
    v.push("CHECK_IN_ZH");
    v.push("CHECK_IN_EN");
    v.push("1");
    v.push("#");
    v.push("TWITTER");
    v.push("ZOMATO");
    v.push("YOUTUBE");
    v.push("2");
    v.push("INSTAGRAM");
    v.push("GOOGLE_STATS");
    v.push("VKONTAKTE");
    v.push("FOURSQUARE");
    v.push("SWARM");
    v.push("3");
    v.push("YELP");
    v.push("TRIPADVISOR");
    v.push("WEIBO");
    v.push("DIANPING");
    v.push("FACEBOOK");
    v.push("4");
    v.push("SMILEY");
    v.push("FACEBOOK_THUMB");
    v.push("THANKS_ES");
    v.push("THANKS_PT");
    v.push("THANKS_RU");
    v.push("5");
    v.push("THANKS_FR");
    v.push("THANKS_EN");
    v.push("THANKS_IT");
    v.push("THANKS_DE");
    v.push("THANKS_JA");
    v.push("6");
    v.push("THANKS_KO");
    v.push("THANKS_ZH");
    assert(v@ == lead_table());
    v
}

/// The character table, as runtime data.
pub fn char_entries() -> (v: Vec<&'static str>)
    ensures
        v@ == char_table(),
        v@.len() == 60,
{
    let mut v: Vec<&'static str> = Vec::new();
    v.push("BLANK");
    v.push("EMPTY_BUBBLE");
    v.push("1");
    v.push("A");
    v.push("B");
    v.push("C");
    v.push("D");
    v.push("/");
    v.push("E");
    v.push("F");
    v.push("G");
    v.push("H");
    v.push("I");
    v.push("2");
    v.push("J");
    v.push("K");
    v.push("L");
    v.push("M");
    v.push("N");
    v.push("5");
    v.push("O");
    v.push("P");
    v.push("Q");
    v.push("R");
    v.push("S");
    v.push("3");
    v.push("T");
    v.push("U");
    v.push("V");
    v.push("W");
    v.push("X");
    v.push("6");
    v.push("Z");
    v.push("Y");
    v.push("HEART");
    v.push("\u{20ac}");
    v.push("$");
    v.push("4");
    v.push("\u{a3}");
    v.push("\u{a5}");
    v.push("+");
    v.push("?");
    v.push("!");
    v.push("FULL_BUBBLE");
    v.push("&");
    v.push("@");
    v.push("#");
    v.push("->");
    v.push(":");
    v.push("0");
    v.push(".");
    v.push("9");
    v.push("HALF_BUBBLE");
    v.push("FULL_STAR");
    v.push("HALF_STAR");
    v.push("EMPTY_STAR");
    v.push("BLANK2");
    v.push("8");
    v.push("PERCENT");
    v.push("7");
    assert(v@ == char_table());
    v
}

/// A non-empty symbol name `e` stands verbatim in `body` at position `p`.
pub open spec fn entry_matches_at(body: Seq<char>, p: int, e: Seq<char>) -> bool {
    &&& e.len() > 0
    &&& 0 <= p
    &&& p + e.len() <= body.len()
    &&& body.subrange(p, p + e.len()) == e
}

/// The best match at position `p` among the first `n` table entries: the
/// longest entry that stands there; among equally long ones, the first in
/// table order (the order a longest-first alternation would try them in).
pub open spec fn best_upto(table: Seq<&str>, body: Seq<char>, p: int, n: int) -> Option<int>
    decreases n,
{
    if n <= 0 {
        None
    } else {
        let prev = best_upto(table, body, p, n - 1);
        if entry_matches_at(body, p, table[n - 1]@) {
            match prev {
                None => Some(n - 1),
                Some(k) => if table[n - 1]@.len() > table[k]@.len() {
                    Some(n - 1)
                } else {
                    prev
                },
            }
        } else {
            prev
        }
    }
}

/// The best match at position `p` over the whole table.
pub open spec fn best_at(table: Seq<&str>, body: Seq<char>, p: int) -> Option<int> {
    best_upto(table, body, p, table.len() as int)
}

/// The chosen entry matches, no matching entry is longer, and `None` means
/// nothing matches.
pub proof fn lemma_best_upto_props(table: Seq<&str>, body: Seq<char>, p: int, n: int)
    requires
        0 <= n <= table.len(),
    ensures
        match best_upto(table, body, p, n) {
            Some(k) => 0 <= k < n && entry_matches_at(body, p, table[k]@) && (forall|j: int|
                0 <= j < n && entry_matches_at(body, p, (#[trigger] table[j])@) ==> table[j]@.len()
                    <= table[k]@.len()),
            None => forall|j: int|
                0 <= j < n ==> !entry_matches_at(body, p, (#[trigger] table[j])@),
        },
    decreases n,
{
    if n > 0 {
        lemma_best_upto_props(table, body, p, n - 1);
    }
}

/// The glyph codes chosen left to right from position `p` on: at each
/// position the longest matching symbol name wins and the scan continues
/// after it; where nothing matches, the scan advances one character.
pub open spec fn tokenize_from(table: Seq<&str>, body: Seq<char>, p: int) -> Seq<int>
    decreases body.len() - p,
{
    if p < 0 || p >= body.len() {
        Seq::empty()
    } else {
        match best_at(table, body, p) {
            None => tokenize_from(table, body, p + 1),
            Some(k) => {
                let step = if table[k]@.len() < 1 {
                    1int
                } else {
                    table[k]@.len() as int
                };
                let q = if p + step > body.len() {
                    body.len() as int
                } else {
                    p + step
                };
                Seq::empty().push(k) + tokenize_from(table, body, q)
            },
        }
    }
}

/// At most the first six glyph codes of the tokenization.
pub open spec fn flap_indices(table: Seq<&str>, body: Seq<char>) -> Seq<int> {
    let all = tokenize_from(table, body, 0);
    all.take(
        if all.len() < 6 {
            all.len() as int
        } else {
            6
        },
    )
}

/// First table entry equal to `name`, scanning from `i`.
pub open spec fn find_entry_from(table: Seq<&str>, name: Seq<char>, i: int) -> Option<int>
    decreases table.len() - i,
{
    if i < 0 || i >= table.len() {
        None
    } else if table[i]@ == name {
        Some(i)
    } else {
        find_entry_from(table, name, i + 1)
    }
}

/// First table entry equal to `name`, if any.
pub open spec fn find_entry(table: Seq<&str>, name: Seq<char>) -> Option<int> {
    find_entry_from(table, name, 0)
}

/// The lead word before the first space, or "blank" when there is none.
pub open spec fn lead_of(s: Seq<char>) -> Seq<char> {
    match find_char(s, ' ') {
        Some(i) => s.take(i),
        None => "blank"@,
    }
}

/// The body after the first space, or the whole text when there is none.
pub open spec fn body_of(s: Seq<char>) -> Seq<char> {
    match find_char(s, ' ') {
        Some(i) => s.skip(i + 1),
        None => s,
    }
}

/// The indicator code of an (upper-cased) lead word: its lead-table index,
/// or 0 ("BLANK") when the word is not in the table.
pub open spec fn lead_code(name: Seq<char>) -> int {
    match find_entry(lead_table(), name) {
        Some(i) => i,
        None => 0,
    }
}

/// The 15-byte display command: a fixed template, the indicator code at
/// byte 8, and up to six glyph codes at bytes 9..15, zero-padded.
pub open spec fn payload_bytes(li: int, toks: Seq<int>) -> Seq<u8> {
    Seq::empty().push(0u8).push(0u8).push(0u8).push(11u8).push(0u8).push(0u8).push(0u8).push(
        2u8,
    ).push(li as u8) + Seq::new(6, |i: int| if i < toks.len() {
        toks[i] as u8
    } else {
        0u8
    })
}

/// The display command for free text: split on the first space, upper-case,
/// look the lead word up, tokenize the body longest-match-first.
pub open spec fn flap_payload_spec(text: Seq<char>) -> Seq<u8> {
    payload_bytes(
        lead_code(upper_of(lead_of(text))),
        flap_indices(char_table(), upper_of(body_of(text))),
    )
}

fn entry_match(body: &Vec<char>, p: usize, e: &str) -> (r: bool)
    requires
        p <= body@.len(),
    ensures
        r == entry_matches_at(body@, p as int, e@),
{
    let el = e.unicode_len();
    if el == 0 {
        return false;
    }
    if el > body.len() - p {
        return false;
    }
    let pe: usize = p + el;
    let mut j: usize = 0;
    while j < el
        invariant
            el == e@.len(),
            0 <= p,
            pe == p + el,
            pe <= body@.len(),
            0 <= j <= el,
            forall|t: int| 0 <= t < j ==> body@[p + t] == e@[t],
        decreases el - j,
    {
        if body[p + j] != e.get_char(j) {
            proof {
                assert(body@.subrange(p as int, p + el) != e@) by {
                    if body@.subrange(p as int, p + el) == e@ {
                        assert(body@.subrange(p as int, p + el)[j as int] == body@[p + j]);
                    }
                }
            }
            return false;
        }
        j = j + 1;
    }
    proof {
        assert(body@.subrange(p as int, p + el) =~= e@);
    }
    true
}

fn best_match(table: &Vec<&'static str>, body: &Vec<char>, p: usize) -> (r: Option<usize>)
    requires
        p <= body@.len(),
    ensures
        match r {
            Some(k) => best_at(table@, body@, p as int) == Some(k as int) && k < table@.len(),
            None => best_at(table@, body@, p as int) is None,
        },
{
    let n = table.len();
    let mut i: usize = 0;
    let mut best: Option<usize> = None;
    let mut best_len: usize = 0;
    while i < n
        invariant
            p <= body@.len(),
            n == table@.len(),
            0 <= i <= n,
            match best {
                Some(k) => best_upto(table@, body@, p as int, i as int) == Some(k as int) && k < i
                    && best_len == table@[k as int]@.len(),
                None => best_upto(table@, body@, p as int, i as int) is None,
            },
        decreases n - i,
    {
        let m = entry_match(body, p, table[i]);
        if m {
            match best {
                None => {
                    best = Some(i);
                    best_len = table[i].unicode_len();
                },
                Some(_) => {
                    let el = table[i].unicode_len();
                    if el > best_len {
                        best = Some(i);
                        best_len = el;
                    }
                },
            }
        }
        i = i + 1;
    }
    best
}

fn find_entry_exec(table: &Vec<&'static str>, name: &str) -> (r: Option<usize>)
    ensures
        match r {
            Some(i) => find_entry(table@, name@) == Some(i as int) && i < table@.len(),
            None => find_entry(table@, name@) is None,
        },
{
    let n = table.len();
    let mut i: usize = 0;
    while i < n
        invariant
            n == table@.len(),
            0 <= i <= n,
            find_entry(table@, name@) == find_entry_from(table@, name@, i as int),
        decreases n - i,
    {
        if str_eq(table[i], name) {
            return Some(i);
        }
        i = i + 1;
    }
    None
}

/// Sequence of table indices, as mathematical integers.
spec fn toks_int(s: Seq<usize>) -> Seq<int> {
    Seq::new(s.len(), |i: int| s[i] as int)
}

/// Encode free text as the 15-byte display command.
pub fn flaps_from_string(message: &String) -> (r: Vec<u8>)
    ensures
        r@ == flap_payload_spec(message@),
        r@.len() == 15,
{
    let s = message.as_str();
    let (lead_raw, body_raw): (&str, &str) = match find_char_in(s, ' ') {
        Some(i) => {
            proof {
                lemma_find_char_first(s@, ' ');
            }
            let n = s.unicode_len();
            (s.substring_char(0, i), s.substring_char(i + 1, n))
        },
        None => ("blank", s),
    };
    proof {
        assert(lead_raw@ == lead_of(message@));
        assert(body_raw@ == body_of(message@));
    }
    let lead_u = to_upper(lead_raw);
    let body_u = to_upper(body_raw);

    let ltab = lead_entries();
    let li: usize = match find_entry_exec(&ltab, lead_u.as_str()) {
        Some(i) => i,
        None => 0,
    };
    assert(li as int == lead_code(upper_of(lead_of(message@))));

    let ctab = char_entries();
    let chars = str_chars(body_u.as_str());
    let ghost full = tokenize_from(ctab@, chars@, 0);
    let mut toks: Vec<usize> = Vec::new();
    let mut p: usize = 0;
    while p < chars.len() && toks.len() < 6
        invariant
            ctab@ == char_table(),
            full == tokenize_from(ctab@, chars@, 0),
            p <= chars@.len(),
            toks@.len() <= 6,
            forall|t: int| 0 <= t < toks@.len() ==> (#[trigger] toks@[t]) < 60,
            full == toks_int(toks@) + tokenize_from(ctab@, chars@, p as int),
        decreases chars@.len() - p,
    {
        match best_match(&ctab, &chars, p) {
            None => {
                proof {
                    assert(tokenize_from(ctab@, chars@, p as int) == tokenize_from(
                        ctab@,
                        chars@,
                        p as int + 1,
                    ));
                }
                p = p + 1;
            },
            Some(k) => {
                let el = ctab[k].unicode_len();
                let step: usize = if el < 1 {
                    1
                } else {
                    el
                };
                let q: usize = if step > chars.len() - p {
                    chars.len()
                } else {
                    p + step
                };
                proof {
                    assert(tokenize_from(ctab@, chars@, p as int) == Seq::empty().push(
                        k as int,
                    ) + tokenize_from(ctab@, chars@, q as int));
                    assert(toks_int(toks@.push(k)) =~= toks_int(toks@) + Seq::empty().push(
                        k as int,
                    ));
                    assert(toks_int(toks@) + (Seq::empty().push(k as int) + tokenize_from(
                        ctab@,
                        chars@,
                        q as int,
                    )) =~= (toks_int(toks@) + Seq::empty().push(k as int)) + tokenize_from(
                        ctab@,
                        chars@,
                        q as int,
                    ));
                }
                toks.push(k);
                p = q;
            },
        }
    }
    proof {
        if toks@.len() == 6 {
            assert(flap_indices(ctab@, chars@) =~= toks_int(toks@));
        } else {
            assert(tokenize_from(ctab@, chars@, p as int) == Seq::<int>::empty());
            assert(full =~= toks_int(toks@));
            assert(flap_indices(ctab@, chars@) =~= toks_int(toks@));
        }
    }

    let mut out: Vec<u8> = Vec::new();
    out.push(0);
    out.push(0);
    out.push(0);
    out.push(11);
    out.push(0);
    out.push(0);
    out.push(0);
    out.push(2);
    out.push(li as u8);
    let mut j: usize = 0;
    while j < 6
        invariant
            0 <= j <= 6,
            toks@.len() <= 6,
            forall|t: int| 0 <= t < toks@.len() ==> (#[trigger] toks@[t]) < 60,
            out@.len() == 9 + j,
            forall|t: int|
                0 <= t < 9 ==> out@[t] == payload_bytes(li as int, toks_int(toks@))[t],
            forall|t: int|
                9 <= t < 9 + j ==> (#[trigger] out@[t]) == payload_bytes(
                    li as int,
                    toks_int(toks@),
                )[t],
        decreases 6 - j,
    {
        let b: u8 = if j < toks.len() {
            toks[j] as u8
        } else {
            0u8
        };
        out.push(b);
        j = j + 1;
    }
    proof {
        assert(out@ =~= payload_bytes(li as int, toks_int(toks@)));
    }
    out
}

/// Longest-match precedence: where one symbol name is a strict prefix of
/// another and the longer one stands in the body at the scan position, the
/// scan never selects the shorter prefix there; whatever it selects is at
/// least as long as the longer name.
pub proof fn lemma_longest_match(table: Seq<&str>, body: Seq<char>, p: int, i: int, j: int)
    requires
        0 <= i < table.len(),
        0 <= j < table.len(),
        table[j]@.len() < table[i]@.len(),
        table[j]@ == table[i]@.take(table[j]@.len() as int),
        entry_matches_at(body, p, table[i]@),
    ensures
        best_at(table, body, p) is Some,
        best_at(table, body, p) != Some(j),
        match best_at(table, body, p) {
            Some(k) => table[k]@.len() >= table[i]@.len(),
            None => false,
        },
{
    lemma_best_upto_props(table, body, p, table.len() as int);
}

} // verus!
