//! Small verified text helpers shared by the cookie parser and the request
//! decoder: first occurrence of a character, splitting, trimming, and
//! ASCII case folding.

use vstd::prelude::*;

verus! {

/// The index of the first occurrence of `c` in `s`, or -1 when absent.
pub open spec fn first_index(s: Seq<char>, c: char) -> int
    decreases s.len(),
{
    if s.len() == 0 {
        -1
    } else if s[0] == c {
        0
    } else {
        let r = first_index(s.drop_first(), c);
        if r < 0 {
            -1
        } else {
            r + 1
        }
    }
}

/// What `first_index` finds: a valid position holding `c` with no earlier
/// occurrence, or -1 when `c` is absent everywhere.
pub proof fn lemma_first_index(s: Seq<char>, c: char)
    ensures
        first_index(s, c) == -1 <==> (forall|j: int| 0 <= j < s.len() ==> s[j] != c),
        first_index(s, c) >= 0 ==> {
            let fi = first_index(s, c);
            &&& fi < s.len()
            &&& s[fi] == c
            &&& forall|j: int| 0 <= j < fi ==> s[j] != c
        },
    decreases s.len(),
{
    if s.len() == 0 {
    } else if s[0] == c {
    } else {
        let st = s.drop_first();
        lemma_first_index(st, c);
        assert forall|j: int| 1 <= j < s.len() implies s[j] == st[j - 1] by {}
    }
}

/// The parts of `s` between occurrences of the separator `sep`; always at
/// least one part, and an empty part for each pair of adjacent separators.
pub open spec fn spec_split(s: Seq<char>, sep: char) -> Seq<Seq<char>>
    decreases s.len(),
    via spec_split_via
{
    let j = first_index(s, sep);
    if j < 0 {
        seq![s]
    } else {
        seq![s.take(j)] + spec_split(s.skip(j + 1), sep)
    }
}

#[via_fn]
proof fn spec_split_via(s: Seq<char>, sep: char) {
    lemma_first_index(s, sep);
}

pub proof fn lemma_split_nonempty(s: Seq<char>, sep: char)
    ensures
        spec_split(s, sep).len() >= 1,
    decreases s.len(),
{
    let j = first_index(s, sep);
    if j >= 0 {
        lemma_first_index(s, sep);
        lemma_split_nonempty(s.skip(j + 1), sep);
    }
}

/// The views of a vector of strings, in order.
pub open spec fn views_of(v: Seq<String>) -> Seq<Seq<char>> {
    v.map_values(|p: String| p@)
}

/// The index of the first occurrence of `c` in `s`, if any.
pub fn find_char(s: &str, c: char) -> (r: Option<usize>)
    ensures
        match r {
            Some(i) => i == first_index(s@, c) && i < s@.len(),
            None => first_index(s@, c) == -1,
        },
{
    proof {
        lemma_first_index(s@, c);
    }
    let n = s.unicode_len();
    let mut i: usize = 0;
    while i < n
        invariant
            0 <= i <= n == s@.len(),
            forall|j: int| 0 <= j < i ==> s@[j] != c,
        decreases n - i,
    {
        if s.get_char(i) == c {
            proof {
                lemma_first_index(s@, c);
            }
            return Some(i);
        }
        i = i + 1;
    }
    None
}

/// Splits `s` at every occurrence of `sep`.
pub fn split_str(s: &str, sep: char) -> (r: Vec<String>)
    ensures
        views_of(r@) == spec_split(s@, sep),
    decreases s@.len(),
{
    match find_char(s, sep) {
        None => {
            let mut r: Vec<String> = Vec::new();
            r.push(s.to_owned());
            proof {
                assert(views_of(r@) =~~= spec_split(s@, sep));
            }
            r
        },
        Some(j) => {
            let n = s.unicode_len();
            let head = s.substring_char(0, j);
            let tail = s.substring_char(j + 1, n);
            let mut r: Vec<String> = Vec::new();
            r.push(head.to_owned());
            let mut rest = split_str(tail, sep);
            let ghost rest0 = rest@;
            let m = rest.len();
            let mut i: usize = 0;
            while i < m
                invariant
                    0 <= i <= m == rest0.len(),
                    rest@.len() == rest0.len(),
                    r@.len() == 1 + i,
                    r@[0]@ == s@.subrange(0, j as int),
                    forall|t: int| 1 <= t <= i ==> #[trigger] r@[t] == rest0[t - 1],
                    forall|t: int| i <= t < m ==> #[trigger] rest@[t] == rest0[t],
                decreases m - i,
            {
                let x = rest[i].clone();
                r.push(x);
                i = i + 1;
            }
            proof {
                assert(s@.take(first_index(s@, sep)) == s@.subrange(0, j as int));
                assert(tail@ =~= s@.skip(j + 1));
                assert forall|t: int| 0 <= t < views_of(r@).len() implies views_of(r@)[t]
                    == spec_split(s@, sep)[t] by {
                    if t >= 1 {
                        assert(r@[t] == rest0[t - 1]);
                        assert(views_of(rest0)[t - 1] == spec_split(tail@, sep)[t - 1]);
                    }
                }
                assert(views_of(r@) =~= spec_split(s@, sep));
            }
            r
        },
    }
}

/// Whether `c` counts as surrounding whitespace when trimming.
pub open spec fn is_space(c: char) -> bool {
    c == ' ' || c == '\t'
}

/// `s` with leading and trailing whitespace removed.
pub open spec fn spec_trim(s: Seq<char>) -> Seq<char>
    decreases s.len(),
{
    if s.len() > 0 && is_space(s[0]) {
        spec_trim(s.drop_first())
    } else if s.len() > 0 && is_space(s.last()) {
        spec_trim(s.drop_last())
    } else {
        s
    }
}

/// Removes leading and trailing spaces and tabs.
pub fn trim_str(s: &str) -> (r: String)
    ensures
        r@ == spec_trim(s@),
    decreases s@.len(),
{
    let n = s.unicode_len();
    if n > 0 {
        let c0 = s.get_char(0);
        if c0 == ' ' || c0 == '\t' {
            assert(s@.subrange(1, n as int) == s@.drop_first());
            return trim_str(s.substring_char(1, n));
        }
        let cl = s.get_char(n - 1);
        if cl == ' ' || cl == '\t' {
            assert(s@.subrange(0, n - 1) == s@.drop_last());
            return trim_str(s.substring_char(0, n - 1));
        }
    }
    s.to_owned()
}

/// The lower-case form of an ASCII upper-case letter; any other character
/// is unchanged.
pub open spec fn lower_char(c: char) -> char {
    match c {
        'A' => 'a',
        'B' => 'b',
        'C' => 'c',
        'D' => 'd',
        'E' => 'e',
        'F' => 'f',
        'G' => 'g',
        'H' => 'h',
        'I' => 'i',
        'J' => 'j',
        'K' => 'k',
        'L' => 'l',
        'M' => 'm',
        'N' => 'n',
        'O' => 'o',
        'P' => 'p',
        'Q' => 'q',
        'R' => 'r',
        'S' => 's',
        'T' => 't',
        'U' => 'u',
        'V' => 'v',
        'W' => 'w',
        'X' => 'x',
        'Y' => 'y',
        'Z' => 'z',
        _ => c,
    }
}

/// `s` with every ASCII upper-case letter lowered.
pub open spec fn lower_seq(s: Seq<char>) -> Seq<char> {
    s.map_values(|c: char| lower_char(c))
}

fn lower_char_exec(c: char) -> (r: char)
    ensures
        r == lower_char(c),
{
    match c {
        'A' => 'a',
        'B' => 'b',
        'C' => 'c',
        'D' => 'd',
        'E' => 'e',
        'F' => 'f',
        'G' => 'g',
        'H' => 'h',
        'I' => 'i',
        'J' => 'j',
        'K' => 'k',
        'L' => 'l',
        'M' => 'm',
        'N' => 'n',
        'O' => 'o',
        'P' => 'p',
        'Q' => 'q',
        'R' => 'r',
        'S' => 's',
        'T' => 't',
        'U' => 'u',
        'V' => 'v',
        'W' => 'w',
        'X' => 'x',
        'Y' => 'y',
        'Z' => 'z',
        _ => c,
    }
}

/// Whether `a`, folded to lower case, equals `b` (given as it stands).
pub fn eq_lowered(a: &str, b: &str) -> (r: bool)
    ensures
        r == (lower_seq(a@) == b@),
{
    let na = a.unicode_len();
    let nb = b.unicode_len();
    if na != nb {
        proof {
            assert(lower_seq(a@).len() == a@.len());
        }
        return false;
    }
    let mut i: usize = 0;
    while i < na
        invariant
            0 <= i <= na == a@.len(),
            nb == b@.len(),
            na == nb,
            forall|j: int| 0 <= j < i ==> lower_seq(a@)[j] == b@[j],
        decreases na - i,
    {
        if lower_char_exec(a.get_char(i)) != b.get_char(i) {
            assert(lower_seq(a@)[i as int] != b@[i as int]);
            return false;
        }
        i = i + 1;
    }
    proof {
        assert(lower_seq(a@) =~= b@);
    }
    true
}

} // verus!
