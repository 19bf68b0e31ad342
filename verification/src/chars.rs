//! Character-sequence utilities shared by the text-processing components:
//! conversion between `String` and `Vec<char>`, whitespace classification,
//! trimming, whitespace collapsing, substring replacement, and
//! ASCII-case-insensitive search.

use vstd::prelude::*;
use vstd::string::*;

verus! {

/// The characters with the Unicode `White_Space` property, as documented for
/// `char::is_whitespace`; `str::trim` and `str::split_whitespace` go by it.
pub open spec fn is_space(c: char) -> bool {
    c == ' ' || c == '\t' || c == '\n' || c == '\u{b}' || c == '\u{c}' || c == '\r'
        || c == '\u{85}' || c == '\u{a0}' || c == '\u{1680}' || c == '\u{2000}'
        || c == '\u{2001}' || c == '\u{2002}' || c == '\u{2003}' || c == '\u{2004}'
        || c == '\u{2005}' || c == '\u{2006}' || c == '\u{2007}' || c == '\u{2008}'
        || c == '\u{2009}' || c == '\u{200a}' || c == '\u{2028}' || c == '\u{2029}'
        || c == '\u{202f}' || c == '\u{205f}' || c == '\u{3000}'
}

pub(crate) fn is_space_char(c: char) -> (r: bool)
    ensures
        r == is_space(c),
{
    c == ' ' || c == '\t' || c == '\n' || c == '\u{b}' || c == '\u{c}' || c == '\r'
        || c == '\u{85}' || c == '\u{a0}' || c == '\u{1680}' || c == '\u{2000}'
        || c == '\u{2001}' || c == '\u{2002}' || c == '\u{2003}' || c == '\u{2004}'
        || c == '\u{2005}' || c == '\u{2006}' || c == '\u{2007}' || c == '\u{2008}'
        || c == '\u{2009}' || c == '\u{200a}' || c == '\u{2028}' || c == '\u{2029}'
        || c == '\u{202f}' || c == '\u{205f}' || c == '\u{3000}'
}

/// The characters of `s`, in order.
pub(crate) fn chars_vec(s: &str) -> (r: Vec<char>)
    ensures
        r@ == s@,
{
    let n = s.unicode_len();
    let mut v: Vec<char> = Vec::new();
    let mut i: usize = 0;
    while i < n
        invariant
            i <= n,
            n == s@.len(),
            v@ == s@.subrange(0, i as int),
        decreases n - i,
    {
        let c = s.get_char(i);
        v.push(c);
        i = i + 1;
        assert(v@ =~= s@.subrange(0, i as int));
    }
    assert(s@.subrange(0, n as int) =~= s@);
    v
}

/// Relies on `String: FromIterator<char>`: collecting characters yields the
/// string holding exactly those characters in order.
#[verifier::external_body]
pub(crate) fn string_of(v: &Vec<char>) -> (r: String)
    ensures
        r@ == v@,
{
    v.iter().collect()
}

pub open spec fn skip_spaces(s: Seq<char>) -> Seq<char>
    decreases s.len(),
{
    if s.len() > 0 && is_space(s[0]) {
        skip_spaces(s.drop_first())
    } else {
        s
    }
}

pub open spec fn trim_back(s: Seq<char>) -> Seq<char>
    decreases s.len(),
{
    if s.len() > 0 && is_space(s.last()) {
        trim_back(s.drop_last())
    } else {
        s
    }
}

/// `s` without leading and trailing whitespace, as `str::trim` leaves it.
pub open spec fn trim_spec(s: Seq<char>) -> Seq<char> {
    trim_back(skip_spaces(s))
}

pub(crate) fn trim_chars(v: &Vec<char>) -> (r: Vec<char>)
    ensures
        r@ == trim_spec(v@),
{
    let n = v.len();
    let mut start: usize = 0;
    assert(v@.subrange(0, n as int) =~= v@);
    while start < n && is_space_char(v[start])
        invariant
            start <= n,
            n == v@.len(),
            skip_spaces(v@) == skip_spaces(v@.subrange(start as int, n as int)),
        decreases n - start,
    {
        assert(v@.subrange(start as int, n as int).drop_first() =~= v@.subrange(
            start as int + 1,
            n as int,
        ));
        start = start + 1;
    }
    assert(skip_spaces(v@) == v@.subrange(start as int, n as int));
    let mut end: usize = n;
    while end > start && is_space_char(v[end - 1])
        invariant
            start <= end <= n,
            n == v@.len(),
            skip_spaces(v@) == v@.subrange(start as int, n as int),
            trim_back(v@.subrange(start as int, n as int)) == trim_back(
                v@.subrange(start as int, end as int),
            ),
        decreases end,
    {
        assert(v@.subrange(start as int, end as int).drop_last() =~= v@.subrange(
            start as int,
            end as int - 1,
        ));
        end = end - 1;
    }
    assert(trim_spec(v@) == v@.subrange(start as int, end as int));
    let mut out: Vec<char> = Vec::new();
    let mut i: usize = start;
    while i < end
        invariant
            start <= i <= end <= n,
            n == v@.len(),
            out@ == v@.subrange(start as int, i as int),
        decreases end - i,
    {
        out.push(v[i]);
        i = i + 1;
        assert(out@ =~= v@.subrange(start as int, i as int));
    }
    out
}

/// Whitespace collapsing as a left-to-right scan: `started` records whether a
/// non-space character has been emitted yet, `pending` whether a separating
/// space is owed before the next non-space character.  `collapse_ws` below
/// matches joining the whitespace-separated words of `s` with single spaces.
pub open spec fn collapse_sm(s: Seq<char>, started: bool, pending: bool) -> Seq<char>
    decreases s.len(),
{
    if s.len() == 0 {
        Seq::empty()
    } else if is_space(s[0]) {
        collapse_sm(s.drop_first(), started, pending || started)
    } else {
        (if pending {
            seq![' ']
        } else {
            Seq::empty()
        }) + seq![s[0]] + collapse_sm(s.drop_first(), true, false)
    }
}

/// Runs of whitespace collapsed to single spaces, with leading and trailing
/// whitespace removed.
pub open spec fn collapse_ws(s: Seq<char>) -> Seq<char> {
    collapse_sm(s, false, false)
}

pub(crate) fn collapse_chars(v: &Vec<char>) -> (r: Vec<char>)
    ensures
        r@ == collapse_ws(v@),
{
    let n = v.len();
    let mut out: Vec<char> = Vec::new();
    let mut started = false;
    let mut pending = false;
    let mut i: usize = 0;
    assert(v@.skip(0) =~= v@);
    assert(out@ + collapse_sm(v@, false, false) =~= collapse_sm(v@, false, false));
    while i < n
        invariant
            i <= n,
            n == v@.len(),
            collapse_ws(v@) == out@ + collapse_sm(v@.skip(i as int), started, pending),
        decreases n - i,
    {
        let ghost out0 = out@;
        let ghost started0 = started;
        let ghost pending0 = pending;
        assert(v@.skip(i as int).drop_first() =~= v@.skip(i as int + 1));
        let c = v[i];
        if is_space_char(c) {
            pending = pending || started;
        } else {
            if pending {
                out.push(' ');
                pending = false;
            }
            out.push(c);
            started = true;
            proof {
                let ghost emitted = (if pending0 {
                    seq![' ']
                } else {
                    Seq::<char>::empty()
                }) + seq![c];
                assert(out@ =~= out0 + emitted);
                let ghost rest = collapse_sm(v@.skip(i as int + 1), true, false);
                assert(collapse_sm(v@.skip(i as int), started0, pending0) == emitted + rest);
                assert(out0 + (emitted + rest) =~= (out0 + emitted) + rest);
            }
        }
        i = i + 1;
        assert(collapse_ws(v@) == out@ + collapse_sm(v@.skip(i as int), started, pending));
    }
    assert(v@.skip(n as int) =~= Seq::<char>::empty());
    assert(out@ + collapse_sm(v@.skip(n as int), started, pending) =~= out@);
    out
}

/// The characters of `v` from position `a` up to `b`.
pub(crate) fn subvec(v: &Vec<char>, a: usize, b: usize) -> (r: Vec<char>)
    requires
        a <= b <= v@.len(),
    ensures
        r@ == v@.subrange(a as int, b as int),
{
    let mut out: Vec<char> = Vec::new();
    let mut i: usize = a;
    while i < b
        invariant
            a <= i <= b <= v@.len(),
            out@ == v@.subrange(a as int, i as int),
        decreases b - i,
    {
        out.push(v[i]);
        i = i + 1;
        assert(out@ =~= v@.subrange(a as int, i as int));
    }
    out
}

/// Left-to-right, non-overlapping replacement of a nonempty `pat` by `rep`,
/// as `str::replace` performs it for a nonempty pattern; `s` stands
/// unchanged when `pat` is empty or longer than `s`.
pub open spec fn replace_spec(s: Seq<char>, pat: Seq<char>, rep: Seq<char>) -> Seq<char>
    decreases s.len(),
{
    if pat.len() == 0 || s.len() < pat.len() {
        s
    } else if s.subrange(0, pat.len() as int) == pat {
        rep + replace_spec(s.skip(pat.len() as int), pat, rep)
    } else {
        seq![s[0]] + replace_spec(s.drop_first(), pat, rep)
    }
}

/// Whether `s[i..i + pat.len()]` equals `pat`.
fn window_eq(s: &Vec<char>, i: usize, pat: &Vec<char>) -> (r: bool)
    requires
        i + pat@.len() <= s@.len(),
    ensures
        r == (s@.subrange(i as int, i as int + pat@.len() as int) == pat@),
{
    let m = pat.len();
    let slen = s.len();
    let mut j: usize = 0;
    while j < m
        invariant
            j <= m,
            m == pat@.len(),
            slen == s@.len(),
            i + m <= slen,
            forall|k: int| 0 <= k < j ==> s@[i + k] == pat@[k],
        decreases m - j,
    {
        if s[i + j] != pat[j] {
            assert(s@.subrange(i as int, i as int + m as int)[j as int] != pat@[j as int]);
            return false;
        }
        j = j + 1;
    }
    assert(s@.subrange(i as int, i as int + m as int) =~= pat@);
    true
}

pub(crate) fn replace_chars(s: &Vec<char>, pat: &Vec<char>, rep: &Vec<char>) -> (r: Vec<char>)
    requires
        pat@.len() > 0,
    ensures
        r@ == replace_spec(s@, pat@, rep@),
{
    let n = s.len();
    let m = pat.len();
    let mut out: Vec<char> = Vec::new();
    let mut i: usize = 0;
    assert(s@.skip(0) =~= s@);
    assert(out@ + replace_spec(s@, pat@, rep@) =~= replace_spec(s@, pat@, rep@));
    while i < n
        invariant
            i <= n,
            n == s@.len(),
            m == pat@.len(),
            m > 0,
            replace_spec(s@, pat@, rep@) == out@ + replace_spec(s@.skip(i as int), pat@, rep@),
        decreases n - i,
    {
        if m <= n - i && window_eq(s, i, pat) {
            assert(s@.skip(i as int).subrange(0, m as int) =~= s@.subrange(
                i as int,
                i as int + m as int,
            ));
            assert(s@.skip(i as int).skip(m as int) =~= s@.skip(i as int + m as int));
            let mut j: usize = 0;
            let ghost out0 = out@;
            while j < rep.len()
                invariant
                    j <= rep@.len(),
                    out@ == out0 + rep@.subrange(0, j as int),
                decreases rep@.len() - j,
            {
                out.push(rep[j]);
                j = j + 1;
                assert(out@ =~= out0 + rep@.subrange(0, j as int));
            }
            assert(rep@.subrange(0, rep@.len() as int) =~= rep@);
            i = i + m;
            assert((out0 + rep@) + replace_spec(s@.skip(i as int), pat@, rep@) =~= out0 + (rep@
                + replace_spec(s@.skip(i as int), pat@, rep@)));
        } else {
            if m <= n - i {
                assert(s@.skip(i as int).subrange(0, m as int) =~= s@.subrange(
                    i as int,
                    i as int + m as int,
                ));
            }
            assert(s@.skip(i as int).drop_first() =~= s@.skip(i as int + 1));
            let ghost out0 = out@;
            out.push(s[i]);
            i = i + 1;
            assert((out0 + seq![s@[i - 1]]) + replace_spec(s@.skip(i as int), pat@, rep@) =~= out0
                + (seq![s@[i - 1]] + replace_spec(s@.skip(i as int), pat@, rep@)));
        }
    }
    assert(s@.skip(n as int) =~= Seq::<char>::empty());
    assert(out@ + replace_spec(s@.skip(n as int), pat@, rep@) =~= out@);
    out
}

/// ASCII letters mapped to lower case; all other characters unchanged.
pub open spec fn lower_ascii(c: char) -> char {
    match c {
        'A' => 'a',
        'B' => 'b',
        'C' => 'c',
        'D' => 'd',
        'E' => 'e',
        'F' => 'f',
        'G' => 'g',
        'H' => 'h',
        'I' => 'i',
        'J' => 'j',
        'K' => 'k',
        'L' => 'l',
        'M' => 'm',
        'N' => 'n',
        'O' => 'o',
        'P' => 'p',
        'Q' => 'q',
        'R' => 'r',
        'S' => 's',
        'T' => 't',
        'U' => 'u',
        'V' => 'v',
        'W' => 'w',
        'X' => 'x',
        'Y' => 'y',
        'Z' => 'z',
        _ => c,
    }
}

pub(crate) fn lower_ascii_char(c: char) -> (r: char)
    ensures
        r == lower_ascii(c),
{
    match c {
        'A' => 'a',
        'B' => 'b',
        'C' => 'c',
        'D' => 'd',
        'E' => 'e',
        'F' => 'f',
        'G' => 'g',
        'H' => 'h',
        'I' => 'i',
        'J' => 'j',
        'K' => 'k',
        'L' => 'l',
        'M' => 'm',
        'N' => 'n',
        'O' => 'o',
        'P' => 'p',
        'Q' => 'q',
        'R' => 'r',
        'S' => 's',
        'T' => 't',
        'U' => 'u',
        'V' => 'v',
        'W' => 'w',
        'X' => 'x',
        'Y' => 'y',
        'Z' => 'z',
        _ => c,
    }
}

/// Whether `pat` occurs at position `i` of `s`, comparing ASCII letters
/// case-insensitively.
pub open spec fn matches_ci_at(s: Seq<char>, i: int, pat: Seq<char>) -> bool {
    0 <= i && i + pat.len() <= s.len() && forall|k: int|
        0 <= k < pat.len() ==> lower_ascii(s[i + k]) == lower_ascii(pat[k])
}

/// The position of the first ASCII-case-insensitive occurrence of `pat` in
/// `s`, if any.
pub open spec fn find_ci(s: Seq<char>, pat: Seq<char>) -> Option<int>
    decreases s.len(),
{
    if s.len() < pat.len() {
        None
    } else if matches_ci_at(s, 0, pat) {
        Some(0)
    } else if s.len() == 0 {
        None
    } else {
        match find_ci(s.drop_first(), pat) {
            Option::None => None,
            Option::Some(j) => Some(j + 1),
        }
    }
}

proof fn lemma_matches_ci_shift(s: Seq<char>, i: int, pat: Seq<char>)
    requires
        s.len() > 0,
        i >= 0,
    ensures
        matches_ci_at(s.drop_first(), i, pat) == matches_ci_at(s, i + 1, pat),
{
    if matches_ci_at(s.drop_first(), i, pat) {
        assert forall|k: int| 0 <= k < pat.len() implies lower_ascii(s[i + 1 + k]) == lower_ascii(
            pat[k],
        ) by {
            assert(s.drop_first()[i + k] == s[i + 1 + k]);
        }
    }
    if matches_ci_at(s, i + 1, pat) {
        assert forall|k: int| 0 <= k < pat.len() implies lower_ascii(
            s.drop_first()[i + k],
        ) == lower_ascii(pat[k]) by {
            assert(s.drop_first()[i + k] == s[i + 1 + k]);
        }
    }
}

/// `find_ci` returns the first match: a match at the returned position and
/// none earlier, or no match at any position when it returns `None`.
pub(crate) proof fn lemma_find_ci(s: Seq<char>, pat: Seq<char>)
    ensures
        match find_ci(s, pat) {
            Option::Some(j) => matches_ci_at(s, j, pat) && forall|k: int|
                0 <= k < j ==> !matches_ci_at(s, k, pat),
            Option::None => forall|k: int| !matches_ci_at(s, k, pat),
        },
    decreases s.len(),
{
    if s.len() < pat.len() {
        assert forall|k: int| !matches_ci_at(s, k, pat) by {}
    } else if matches_ci_at(s, 0, pat) {
    } else if s.len() == 0 {
        assert forall|k: int| !matches_ci_at(s, k, pat) by {}
    } else {
        lemma_find_ci(s.drop_first(), pat);
        match find_ci(s.drop_first(), pat) {
            Option::None => {
                assert forall|k: int| !matches_ci_at(s, k, pat) by {
                    if k >= 1 {
                        lemma_matches_ci_shift(s, k - 1, pat);
                    }
                }
            },
            Option::Some(j) => {
                lemma_matches_ci_shift(s, j, pat);
                assert forall|k: int| 0 <= k < j + 1 implies !matches_ci_at(s, k, pat) by {
                    if k >= 1 {
                        lemma_matches_ci_shift(s, k - 1, pat);
                    }
                }
            },
        }
    }
}

/// Whether `pat` occurs at position `i` of `s` up to ASCII case.
fn window_eq_ci(s: &Vec<char>, i: usize, pat: &Vec<char>) -> (r: bool)
    requires
        i + pat@.len() <= s@.len(),
    ensures
        r == matches_ci_at(s@, i as int, pat@),
{
    let m = pat.len();
    let slen = s.len();
    let mut j: usize = 0;
    while j < m
        invariant
            j <= m,
            m == pat@.len(),
            slen == s@.len(),
            i + m <= slen,
            forall|k: int| 0 <= k < j ==> lower_ascii(s@[i + k]) == lower_ascii(pat@[k]),
        decreases m - j,
    {
        if lower_ascii_char(s[i + j]) != lower_ascii_char(pat[j]) {
            return false;
        }
        j = j + 1;
    }
    true
}

/// Whether `a` and `b` hold the same characters.
pub(crate) fn eq_chars(a: &Vec<char>, b: &Vec<char>) -> (r: bool)
    ensures
        r == (a@ == b@),
{
    if a.len() != b.len() {
        return false;
    }
    let r = window_eq(a, 0, b);
    proof {
        if a@.subrange(0, b@.len() as int) == b@ {
            assert(a@ =~= b@);
        } else {
            assert(a@.subrange(0, b@.len() as int) =~= a@);
        }
    }
    r
}

/// Whether `v` begins with `pat`, comparing ASCII letters case-insensitively.
pub(crate) fn starts_with_ci(v: &Vec<char>, pat: &Vec<char>) -> (r: bool)
    ensures
        r == matches_ci_at(v@, 0, pat@),
{
    if pat.len() > v.len() {
        false
    } else {
        window_eq_ci(v, 0, pat)
    }
}

pub(crate) fn find_ci_chars(s: &Vec<char>, pat: &Vec<char>) -> (r: Option<usize>)
    requires
        pat@.len() > 0,
    ensures
        match r {
            Option::Some(i) => find_ci(s@, pat@) == Some(i as int),
            Option::None => find_ci(s@, pat@) is None,
        },
{
    let n = s.len();
    let m = pat.len();
    if m > n {
        proof {
            lemma_find_ci(s@, pat@);
        }
        return None;
    }
    let mut i: usize = 0;
    while i <= n - m
        invariant
            m <= n,
            i <= n - m + 1,
            n == s@.len(),
            m == pat@.len(),
            m > 0,
            forall|k: int| 0 <= k < i ==> !matches_ci_at(s@, k, pat@),
        decreases n - i,
    {
        if window_eq_ci(s, i, pat) {
            proof {
                lemma_find_ci(s@, pat@);
                match find_ci(s@, pat@) {
                    Option::None => {
                        assert(matches_ci_at(s@, i as int, pat@));
                        assert(false);
                    },
                    Option::Some(j) => {
                        if j < i {
                            assert(!matches_ci_at(s@, j, pat@));
                            assert(false);
                        }
                        if j > i {
                            assert(!matches_ci_at(s@, i as int, pat@));
                            assert(false);
                        }
                    },
                }
            }
            return Some(i);
        }
        i = i + 1;
    }
    proof {
        lemma_find_ci(s@, pat@);
        assert(forall|k: int| n - m < k ==> !matches_ci_at(s@, k, pat@));
        match find_ci(s@, pat@) {
            Option::None => {},
            Option::Some(j) => {
                assert(matches_ci_at(s@, j, pat@));
                assert(!matches_ci_at(s@, j, pat@));
                assert(false);
            },
        }
    }
    None
}

} // verus!
