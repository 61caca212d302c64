//! The occurrence extractor: finds the feature names referenced by
//! conditional-compilation guards of the form `feature = "<name>"` in one
//! line of source text, plus small verified helpers for building the decimal
//! representation of a line number.
//!
//! The guard grammar is: the literal `feature`, optional whitespace, `=`,
//! optional whitespace, a double quote, a possibly empty run of name
//! characters (ASCII letters, digits, `_`, `-`), and a closing double quote.
//! Matches are found left to right and do not overlap. An empty name is a
//! structurally valid match and is preserved.

use vstd::prelude::*;

verus! {

/// ASCII word characters: letters, digits and underscore.
pub open spec fn is_word_char(c: char) -> bool {
    (48 <= c as u32 && c as u32 <= 57) || (65 <= c as u32 && c as u32 <= 90) || (97 <= c as u32
        && c as u32 <= 122) || c as u32 == 95
}

/// Characters a feature name may consist of: word characters and hyphens.
pub open spec fn is_name_char(c: char) -> bool {
    is_word_char(c) || c as u32 == 45
}

/// ASCII whitespace: space, tab, line feed, vertical tab, form feed,
/// carriage return.
pub open spec fn is_space_char(c: char) -> bool {
    c as u32 == 32 || c as u32 == 9 || c as u32 == 10 || c as u32 == 11 || c as u32 == 12
        || c as u32 == 13
}

fn word_char(c: char) -> (r: bool)
    ensures
        r == is_word_char(c),
{
    let u = c as u32;
    (48 <= u && u <= 57) || (65 <= u && u <= 90) || (97 <= u && u <= 122) || u == 95
}

fn name_char(c: char) -> (r: bool)
    ensures
        r == is_name_char(c),
{
    word_char(c) || c as u32 == 45
}

fn space_char(c: char) -> (r: bool)
    ensures
        r == is_space_char(c),
{
    let u = c as u32;
    u == 32 || u == 9 || u == 10 || u == 11 || u == 12 || u == 13
}

/// Length of the maximal run of whitespace characters starting at `i`.
pub open spec fn space_run(s: Seq<char>, i: int) -> nat
    decreases s.len() - i,
{
    if 0 <= i && i < s.len() && is_space_char(s[i]) {
        (space_run(s, i + 1) + 1) as nat
    } else {
        0
    }
}

/// Length of the maximal run of name characters starting at `i`.
pub open spec fn name_run(s: Seq<char>, i: int) -> nat
    decreases s.len() - i,
{
    if 0 <= i && i < s.len() && is_name_char(s[i]) {
        (name_run(s, i + 1) + 1) as nat
    } else {
        0
    }
}

fn skip_spaces(s: &str, from: usize) -> (r: usize)
    requires
        from <= s@.len(),
    ensures
        r as int == from + space_run(s@, from as int),
        from <= r <= s@.len(),
{
    let n = s.unicode_len();
    let mut j = from;
    while j < n && space_char(s.get_char(j))
        invariant
            from <= j <= n,
            n == s@.len(),
            space_run(s@, from as int) == j - from + space_run(s@, j as int),
        decreases n - j,
    {
        j = j + 1;
    }
    j
}

fn skip_name_chars(s: &str, from: usize) -> (r: usize)
    requires
        from <= s@.len(),
    ensures
        r as int == from + name_run(s@, from as int),
        from <= r <= s@.len(),
{
    let n = s.unicode_len();
    let mut j = from;
    while j < n && name_char(s.get_char(j))
        invariant
            from <= j <= n,
            n == s@.len(),
            name_run(s@, from as int) == j - from + name_run(s@, j as int),
        decreases n - j,
    {
        j = j + 1;
    }
    j
}

/// The literal word `feature` stands at position `i`.
pub open spec fn feature_lit_at(s: Seq<char>, i: int) -> bool {
    s[i] == 'f' && s[i + 1] == 'e' && s[i + 2] == 'a' && s[i + 3] == 't' && s[i + 4] == 'u' && s[i
        + 5] == 'r' && s[i + 6] == 'e'
}

/// Position of the `=` that a guard starting at `i` requires.
pub open spec fn eq_pos(s: Seq<char>, i: int) -> int {
    i + 7 + space_run(s, i + 7)
}

/// Position of the opening double quote of a guard starting at `i`.
pub open spec fn quote_pos(s: Seq<char>, i: int) -> int {
    eq_pos(s, i) + 1 + space_run(s, eq_pos(s, i) + 1)
}

/// First position of the name captured by a guard starting at `i`.
pub open spec fn name_start(s: Seq<char>, i: int) -> int {
    quote_pos(s, i) + 1
}

/// Position just past the name captured by a guard starting at `i`; the
/// closing double quote must stand here.
pub open spec fn name_end(s: Seq<char>, i: int) -> int {
    name_start(s, i) + name_run(s, name_start(s, i))
}

/// A whole guard matches at position `i`.
pub open spec fn guard_at(s: Seq<char>, i: int) -> bool {
    &&& 0 <= i
    &&& i + 7 <= s.len()
    &&& feature_lit_at(s, i)
    &&& eq_pos(s, i) < s.len()
    &&& s[eq_pos(s, i)] == '='
    &&& quote_pos(s, i) < s.len()
    &&& s[quote_pos(s, i)] == '"'
    &&& name_end(s, i) < s.len()
    &&& s[name_end(s, i)] == '"'
}

/// The name captured by the guard matching at position `i`.
pub open spec fn guard_name(s: Seq<char>, i: int) -> Seq<char> {
    s.subrange(name_start(s, i), name_end(s, i))
}

/// Scanning resumes after the closing quote of the guard at `i`.
pub open spec fn guard_end(s: Seq<char>, i: int) -> int {
    name_end(s, i) + 1
}

/// The names of all guards in `s` from position `i` on, leftmost first,
/// non-overlapping.
pub open spec fn extract_from(s: Seq<char>, i: int) -> Seq<Seq<char>>
    decreases s.len() - i,
{
    if i < 0 || i >= s.len() {
        Seq::empty()
    } else if guard_at(s, i) {
        seq![guard_name(s, i)] + extract_from(s, guard_end(s, i))
    } else {
        extract_from(s, i + 1)
    }
}

/// The ordered sequence of feature names referenced by guards in one line.
pub open spec fn feature_names_of_line(s: Seq<char>) -> Seq<Seq<char>> {
    extract_from(s, 0)
}

/// The views of a vector of strings.
pub open spec fn str_views(v: Seq<String>) -> Seq<Seq<char>> {
    v.map_values(|s: String| s@)
}

/// Extracts the features from a given line of source text and collects them
/// into a vector, e.g. `#[cfg(feature = "foo", feature = "bar")]` yields
/// `foo` and `bar`. Unparsable text simply yields no names.
pub fn extract_feature_names(line: &str) -> (r: Option<Vec<String>>)
    ensures
        r is Some,
        str_views(r->Some_0@) == feature_names_of_line(line@),
{
    let n = line.unicode_len();
    let mut out: Vec<String> = Vec::new();
    let mut i: usize = 0;
    while i < n
        invariant
            i <= n,
            n == line@.len(),
            feature_names_of_line(line@) == str_views(out@) + extract_from(line@, i as int),
        decreases n - i,
    {
        let mut matched = false;
        if n - i >= 7 && line.get_char(i) == 'f' && line.get_char(i + 1) == 'e' && line.get_char(
            i + 2,
        ) == 'a' && line.get_char(i + 3) == 't' && line.get_char(i + 4) == 'u' && line.get_char(
            i + 5,
        ) == 'r' && line.get_char(i + 6) == 'e' {
            let e = skip_spaces(line, i + 7);
            if e < n && line.get_char(e) == '=' {
                let q = skip_spaces(line, e + 1);
                if q < n && line.get_char(q) == '"' {
                    let ns = q + 1;
                    let ne = skip_name_chars(line, ns);
                    if ne < n && line.get_char(ne) == '"' {
                        assert(guard_at(line@, i as int));
                        assert(ne as int == name_end(line@, i as int));
                        let name = String::from_str(line.substring_char(ns, ne));
                        let ghost prev = out@;
                        out.push(name);
                        proof {
                            assert(str_views(out@) =~= str_views(prev) + seq![
                                guard_name(line@, i as int),
                            ]);
                            assert(feature_names_of_line(line@) =~= str_views(out@)
                                + extract_from(line@, guard_end(line@, i as int)));
                        }
                        i = ne + 1;
                        matched = true;
                    }
                }
            }
        }
        if !matched {
            proof {
                assert(!guard_at(line@, i as int));
                assert(extract_from(line@, i as int) == extract_from(line@, i + 1));
            }
            i = i + 1;
        }
    }
    assert(feature_names_of_line(line@) =~= str_views(out@));
    Some(out)
}

/// Maps a single decimal digit to its character.
pub open spec fn digit_char(d: int) -> char {
    if d == 0 {
        '0'
    } else if d == 1 {
        '1'
    } else if d == 2 {
        '2'
    } else if d == 3 {
        '3'
    } else if d == 4 {
        '4'
    } else if d == 5 {
        '5'
    } else if d == 6 {
        '6'
    } else if d == 7 {
        '7'
    } else if d == 8 {
        '8'
    } else {
        '9'
    }
}

/// The usual decimal representation of `n`, without leading zeroes (except
/// for `n == 0` itself).
pub open spec fn dec_rep(n: nat) -> Seq<char>
    decreases n,
{
    if n < 10 {
        seq![digit_char(n as int)]
    } else {
        dec_rep(n / 10) + seq![digit_char((n % 10) as int)]
    }
}

fn digit_str(d: u64) -> (r: &'static str)
    requires
        d < 10,
    ensures
        r@ =~= seq![digit_char(d as int)],
{
    proof {
        reveal_strlit("0");
        reveal_strlit("1");
        reveal_strlit("2");
        reveal_strlit("3");
        reveal_strlit("4");
        reveal_strlit("5");
        reveal_strlit("6");
        reveal_strlit("7");
        reveal_strlit("8");
        reveal_strlit("9");
    }
    if d == 0 {
        "0"
    } else if d == 1 {
        "1"
    } else if d == 2 {
        "2"
    } else if d == 3 {
        "3"
    } else if d == 4 {
        "4"
    } else if d == 5 {
        "5"
    } else if d == 6 {
        "6"
    } else if d == 7 {
        "7"
    } else if d == 8 {
        "8"
    } else {
        "9"
    }
}

/// Renders `n` in decimal.
pub fn u64_to_string(n: u64) -> (s: String)
    ensures
        s@ == dec_rep(n as nat),
{
    let mut m: u64 = n / 10;
    let mut s: String = String::from_str(digit_str(n % 10));
    proof {
        if m > 0 {
            assert(dec_rep(n as nat) =~= dec_rep(m as nat) + s@);
        } else {
            assert(dec_rep(n as nat) =~= s@);
        }
    }
    while m > 0
        invariant
            m > 0 ==> dec_rep(n as nat) == dec_rep(m as nat) + s@,
            m == 0 ==> dec_rep(n as nat) == s@,
        decreases m,
    {
        let ghost m0 = m as nat;
        let ghost s0 = s@;
        let d = digit_str(m % 10);
        s = String::from_str(d).concat(s.as_str());
        m = m / 10;
        proof {
            assert(s@ =~= seq![digit_char((m0 % 10) as int)] + s0);
            if m > 0 {
                assert(dec_rep(m0) =~= dec_rep(m as nat) + seq![digit_char((m0 % 10) as int)]);
                assert(dec_rep(n as nat) =~= dec_rep(m as nat) + s@);
            } else {
                assert(dec_rep(m0) =~= seq![digit_char((m0 % 10) as int)]);
                assert(dec_rep(n as nat) =~= s@);
            }
        }
    }
    s
}

} // verus!
