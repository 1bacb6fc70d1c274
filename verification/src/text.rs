//! Character-level text primitives with exact specifications.
//!
//! Strings are modelled by their view, a `Seq<char>`.  The executable
//! functions below work on `Vec<char>` copies of the text and are proved
//! against recursive spec functions that mirror the behaviour of the
//! standard library operations they stand for (`trim`, `find`,
//! `split_whitespace`, `lines`, ...).
use vstd::prelude::*;
use vstd::string::*;
use vstd::utf8::is_ascii_chars;

verus! {

// ---------------------------------------------------------------------
// Whitespace
// ---------------------------------------------------------------------

/// The Unicode `White_Space` property, which is what `char::is_whitespace` tests.
pub open spec fn is_ws(c: char) -> bool {
    ||| c == '\t'
    ||| c == '\n'
    ||| c == '\x0B'
    ||| c == '\x0C'
    ||| c == '\r'
    ||| c == ' '
    ||| c == '\u{85}'
    ||| c == '\u{A0}'
    ||| c == '\u{1680}'
    ||| ('\u{2000}' <= c && c <= '\u{200A}')
    ||| c == '\u{2028}'
    ||| c == '\u{2029}'
    ||| c == '\u{202F}'
    ||| c == '\u{205F}'
    ||| c == '\u{3000}'
}

/// Executable whitespace test.
pub fn is_whitespace_char(c: char) -> (r: bool)
    ensures
        r == is_ws(c),
{
    c == '\t' || c == '\n' || c == '\x0B' || c == '\x0C' || c == '\r' || c == ' '
        || c == '\u{85}' || c == '\u{A0}' || c == '\u{1680}' || ('\u{2000}' <= c && c
        <= '\u{200A}') || c == '\u{2028}' || c == '\u{2029}' || c == '\u{202F}' || c
        == '\u{205F}' || c == '\u{3000}'
}

// ---------------------------------------------------------------------
// Conversions between &str, String and Vec<char>
// ---------------------------------------------------------------------

/// The characters of a string slice, one per element.
pub fn chars_of(s: &str) -> (v: Vec<char>)
    ensures
        v@ == s@,
{
    let mut v: Vec<char> = Vec::new();
    for c in it: s.chars()
        invariant
            v@ == it.seq().take(it.index() as int),
    {
        v.push(c);
    }
    v
}

/// Appends one character to a string (`String::push`).
#[verifier::external_body]
pub(crate) fn push_char(s: &mut String, c: char)
    ensures
        final(s)@ == old(s)@.push(c),
{
    s.push(c);
}

/// Removes the last character of a string, if any (`String::pop`).
#[verifier::external_body]
pub(crate) fn pop_char(s: &mut String)
    ensures
        old(s)@.len() > 0 ==> final(s)@ == old(s)@.drop_last(),
        old(s)@.len() == 0 ==> final(s)@ == old(s)@,
{
    s.pop();
}

/// Builds a string from a sequence of characters.
pub fn string_from(v: &Vec<char>) -> (s: String)
    ensures
        s@ == v@,
{
    let mut s = String::new();
    let mut i: usize = 0;
    while i < v.len()
        invariant
            i <= v.len(),
            s@ == v@.take(i as int),
        decreases v.len() - i,
    {
        push_char(&mut s, v[i]);
        i = i + 1;
        assert(s@ =~= v@.take(i as int));
    }
    assert(v@.take(v.len() as int) =~= v@);
    s
}

/// Copies the characters `v[lo..hi]`.
pub fn slice_chars(v: &Vec<char>, lo: usize, hi: usize) -> (r: Vec<char>)
    requires
        lo <= hi <= v.len(),
    ensures
        r@ == v@.subrange(lo as int, hi as int),
{
    let mut r: Vec<char> = Vec::new();
    let mut i: usize = lo;
    while i < hi
        invariant
            lo <= i <= hi <= v.len(),
            r@ == v@.subrange(lo as int, i as int),
        decreases hi - i,
    {
        r.push(v[i]);
        i = i + 1;
        assert(r@ =~= v@.subrange(lo as int, i as int));
    }
    r
}

/// Whether two character sequences are equal.
pub fn chars_eq(a: &Vec<char>, b: &Vec<char>) -> (r: bool)
    ensures
        r == (a@ == b@),
{
    if a.len() != b.len() {
        return false;
    }
    let mut i: usize = 0;
    while i < a.len()
        invariant
            i <= a.len() == b.len(),
            forall|j: int| 0 <= j < i ==> a@[j] == b@[j],
        decreases a.len() - i,
    {
        if a[i] != b[i] {
            return false;
        }
        i = i + 1;
    }
    assert(a@ =~= b@);
    true
}

/// Whether a string equals the given text.
pub fn str_eq(a: &str, b: &str) -> (r: bool)
    ensures
        r == (a@ == b@),
{
    let va = chars_of(a);
    let vb = chars_of(b);
    chars_eq(&va, &vb)
}

// ---------------------------------------------------------------------
// Case conversion (Unicode, from the standard library)
// ---------------------------------------------------------------------

/// What `str::to_lowercase` returns for the given characters.
pub uninterp spec fn lowercase(s: Seq<char>) -> Seq<char>;

/// What `str::to_uppercase` returns for the given characters.
pub uninterp spec fn uppercase(s: Seq<char>) -> Seq<char>;

/// ASCII lowercase of one character.
pub open spec fn ascii_lower(c: char) -> char {
    if 'A' <= c && c <= 'Z' {
        ((c as u32) + 32) as char
    } else {
        c
    }
}

/// ASCII uppercase of one character.
pub open spec fn ascii_upper(c: char) -> char {
    if 'a' <= c && c <= 'z' {
        ((c as u32) - 32) as char
    } else {
        c
    }
}

/// The lowercase text: the ASCII mapping on ASCII text, the Unicode
/// mapping of `str::to_lowercase` otherwise.
pub open spec fn lower_text(s: Seq<char>) -> Seq<char> {
    if is_ascii_chars(s) {
        s.map_values(|c: char| ascii_lower(c))
    } else {
        lowercase(s)
    }
}

/// The uppercase text: the ASCII mapping on ASCII text, the Unicode
/// mapping of `str::to_uppercase` otherwise.
pub open spec fn upper_text(s: Seq<char>) -> Seq<char> {
    if is_ascii_chars(s) {
        s.map_values(|c: char| ascii_upper(c))
    } else {
        uppercase(s)
    }
}

/// `str::to_lowercase`: the Unicode lowercase mapping of the text.  The
/// contract states the ASCII case exactly (`A`-`Z` to `a`-`z`, every
/// other character unchanged) and names the result of every other text
/// `lowercase`, of which nothing more is said.
#[verifier::external_body]
pub(crate) fn to_lowercase(s: &str) -> (r: String)
    ensures
        is_ascii_chars(s@) ==> r@ == s@.map_values(|c: char| ascii_lower(c)),
        !is_ascii_chars(s@) ==> r@ == lowercase(s@),
{
    s.to_lowercase()
}

/// `str::to_uppercase`: the Unicode uppercase mapping of the text.  The
/// ASCII case is stated exactly (`a`-`z` to `A`-`Z`); the result of every
/// other text is named `uppercase`, of which nothing more is said.
#[verifier::external_body]
pub(crate) fn to_uppercase(s: &str) -> (r: String)
    ensures
        is_ascii_chars(s@) ==> r@ == s@.map_values(|c: char| ascii_upper(c)),
        !is_ascii_chars(s@) ==> r@ == uppercase(s@),
{
    s.to_uppercase()
}

// ---------------------------------------------------------------------
// Trimming
// ---------------------------------------------------------------------

/// `str::trim_start`: drops leading whitespace.
pub open spec fn trim_start(s: Seq<char>) -> Seq<char>
    decreases s.len(),
{
    if s.len() > 0 && is_ws(s[0]) {
        trim_start(s.drop_first())
    } else {
        s
    }
}

/// `str::trim_end`: drops trailing whitespace.
pub open spec fn trim_end(s: Seq<char>) -> Seq<char>
    decreases s.len(),
{
    if s.len() > 0 && is_ws(s.last()) {
        trim_end(s.drop_last())
    } else {
        s
    }
}

/// `str::trim`: drops leading and trailing whitespace.
pub open spec fn trim(s: Seq<char>) -> Seq<char> {
    trim_end(trim_start(s))
}

/// `str::trim_matches(c)` for a single character: drops every leading and
/// trailing occurrence of `c`.
pub open spec fn strip_start_char(s: Seq<char>, c: char) -> Seq<char>
    decreases s.len(),
{
    if s.len() > 0 && s[0] == c {
        strip_start_char(s.drop_first(), c)
    } else {
        s
    }
}

pub open spec fn strip_end_char(s: Seq<char>, c: char) -> Seq<char>
    decreases s.len(),
{
    if s.len() > 0 && s.last() == c {
        strip_end_char(s.drop_last(), c)
    } else {
        s
    }
}

pub open spec fn trim_matches_char(s: Seq<char>, c: char) -> Seq<char> {
    strip_end_char(strip_start_char(s, c), c)
}

/// Whether `x` is dropped when stripping: whitespace, or `c` when `by_char`.
fn strippable(x: char, by_char: bool, c: char) -> (r: bool)
    ensures
        r == if by_char { x == c } else { is_ws(x) },
{
    if by_char {
        x == c
    } else {
        is_whitespace_char(x)
    }
}

/// Bounds `(a, b)` of the text left when leading characters satisfying
/// `is_ws` (or equal to `c`, when `by_char`) are dropped from the front
/// and from the back.
fn strip_bounds(v: &Vec<char>, by_char: bool, c: char) -> (r: (usize, usize))
    ensures
        r.0 <= r.1 <= v.len(),
        !by_char ==> v@.subrange(r.0 as int, r.1 as int) == trim(v@),
        by_char ==> v@.subrange(r.0 as int, r.1 as int) == trim_matches_char(v@, c),
{
    let mut a: usize = 0;
    assert(v@.skip(0) =~= v@);
    while a < v.len() && strippable(v[a], by_char, c)
        invariant
            a <= v.len(),
            !by_char ==> trim_start(v@) == trim_start(v@.skip(a as int)),
            by_char ==> strip_start_char(v@, c) == strip_start_char(v@.skip(a as int), c),
        decreases v.len() - a,
    {
        assert(v@.skip(a as int).drop_first() =~= v@.skip(a + 1));
        a = a + 1;
    }
    let mut b: usize = v.len();
    assert(v@.skip(a as int) =~= v@.subrange(a as int, b as int));
    while b > a && strippable(v[b - 1], by_char, c)
        invariant
            a <= b <= v.len(),
            !by_char ==> trim_end(v@.subrange(a as int, v.len() as int)) == trim_end(
                v@.subrange(a as int, b as int),
            ),
            by_char ==> strip_end_char(v@.subrange(a as int, v.len() as int), c)
                == strip_end_char(v@.subrange(a as int, b as int), c),
        decreases b - a,
    {
        assert(v@.subrange(a as int, b as int).drop_last() =~= v@.subrange(
            a as int,
            b - 1,
        ));
        b = b - 1;
    }
    (a, b)
}

/// `str::trim` on a character sequence.
pub fn trim_chars(v: &Vec<char>) -> (r: Vec<char>)
    ensures
        r@ == trim(v@),
{
    let (a, b) = strip_bounds(v, false, ' ');
    slice_chars(v, a, b)
}

/// `str::trim_matches(c)` on a character sequence.
pub fn trim_matches_chars(v: &Vec<char>, c: char) -> (r: Vec<char>)
    ensures
        r@ == trim_matches_char(v@, c),
{
    let (a, b) = strip_bounds(v, true, c);
    slice_chars(v, a, b)
}

// ---------------------------------------------------------------------
// Substring search
// ---------------------------------------------------------------------

/// `pat` occurs in `s` at character index `i`.
pub open spec fn matches_at(s: Seq<char>, pat: Seq<char>, i: int) -> bool {
    &&& 0 <= i
    &&& i + pat.len() <= s.len()
    &&& s.subrange(i, i + pat.len()) == pat
}

/// The first index at or after `i` where `pat` occurs (`str::find`).
pub open spec fn find_from(s: Seq<char>, pat: Seq<char>, i: int) -> Option<int>
    decreases s.len() - i,
{
    if i < 0 || i + pat.len() > s.len() {
        None
    } else if pat.len() == 0 || matches_at(s, pat, i) {
        Some(i)
    } else {
        find_from(s, pat, i + 1)
    }
}

/// `str::find` from the start.
pub open spec fn find(s: Seq<char>, pat: Seq<char>) -> Option<int> {
    find_from(s, pat, 0)
}

/// `str::contains`.
pub open spec fn contains(s: Seq<char>, pat: Seq<char>) -> bool {
    find(s, pat) is Some
}

/// `str::starts_with`.
pub open spec fn starts_with(s: Seq<char>, pat: Seq<char>) -> bool {
    pat.len() <= s.len() && s.take(pat.len() as int) == pat
}

/// What `find_from` returns is a match, and the first one.
pub proof fn lemma_find_from(s: Seq<char>, pat: Seq<char>, i: int)
    requires
        0 <= i,
    ensures
        find_from(s, pat, i) matches Some(k) ==> i <= k && matches_at(s, pat, k) && forall|
            j: int,
        |
            i <= j < k ==> !matches_at(s, pat, j),
        find_from(s, pat, i) is None ==> forall|j: int| i <= j ==> !matches_at(s, pat, j),
    decreases s.len() - i,
{
    if i + pat.len() > s.len() {
    } else if pat.len() == 0 || matches_at(s, pat, i) {
        if pat.len() == 0 {
            assert(s.subrange(i, i + pat.len()) =~= pat);
        }
    } else {
        lemma_find_from(s, pat, i + 1);
    }
}

/// Whether `pat` occurs in `v` at index `i`.
pub fn matches_at_exec(v: &Vec<char>, pat: &Vec<char>, i: usize) -> (r: bool)
    ensures
        r == matches_at(v@, pat@, i as int),
{
    if i > v.len() || pat.len() > v.len() - i {
        return false;
    }
    let mut k: usize = 0;
    while k < pat.len()
        invariant
            k <= pat.len(),
            i + pat.len() <= v.len(),
            forall|j: int| 0 <= j < k ==> v@[i + j] == pat@[j],
        decreases pat.len() - k,
    {
        if v[i + k] != pat[k] {
            assert(v@.subrange(i as int, i + pat.len())[k as int] != pat@[k as int]);
            return false;
        }
        k = k + 1;
    }
    assert(v@.subrange(i as int, i + pat.len()) =~= pat@);
    true
}

/// `str::find` starting at character index `start`.
pub fn find_exec(v: &Vec<char>, pat: &Vec<char>, start: usize) -> (r: Option<usize>)
    requires
        start <= v.len(),
    ensures
        match r {
            Some(k) => find_from(v@, pat@, start as int) == Some(k as int),
            None => find_from(v@, pat@, start as int) is None,
        },
{
    let mut i: usize = start;
    while pat.len() <= v.len() && i <= v.len() - pat.len()
        invariant
            start <= i,
            find_from(v@, pat@, start as int) == find_from(v@, pat@, i as int),
        decreases v.len() - i,
    {
        if pat.len() == 0 || matches_at_exec(v, pat, i) {
            return Some(i);
        }
        i = i + 1;
    }
    None
}

/// `str::contains`.
pub fn contains_exec(v: &Vec<char>, pat: &Vec<char>) -> (r: bool)
    ensures
        r == contains(v@, pat@),
{
    find_exec(v, pat, 0).is_some()
}

/// `str::starts_with`.
pub fn starts_with_exec(v: &Vec<char>, pat: &Vec<char>) -> (r: bool)
    ensures
        r == starts_with(v@, pat@),
{
    let r = matches_at_exec(v, pat, 0);
    assert(v@.subrange(0, pat@.len() as int) =~= v@.take(pat@.len() as int));
    r
}


/// Shifting the start of a search: searching `s` from `i + t` is searching
/// the suffix `s.skip(i)` from `t`.
pub proof fn lemma_find_shift(s: Seq<char>, pat: Seq<char>, i: int, t: int)
    requires
        0 <= i <= s.len(),
        0 <= t,
    ensures
        find_from(s, pat, i + t) == (match find_from(s.skip(i), pat, t) {
            Some(k) => Some(k + i),
            None => None::<int>,
        }),
    decreases s.len() - i - t,
{
    let u = s.skip(i);
    if i + t + pat.len() > s.len() {
    } else {
        assert(s.subrange(i + t, i + t + pat.len()) =~= u.subrange(t, t + pat.len()));
        if pat.len() == 0 || matches_at(s, pat, i + t) {
        } else {
            lemma_find_shift(s, pat, i, t + 1);
        }
    }
}

// ---------------------------------------------------------------------
// Whitespace-separated tokens
// ---------------------------------------------------------------------

/// Number of leading characters that are not whitespace.
pub open spec fn word_len(s: Seq<char>) -> nat
    decreases s.len(),
{
    if s.len() == 0 || is_ws(s[0]) {
        0
    } else {
        1 + word_len(s.drop_first())
    }
}

pub proof fn lemma_word_len(s: Seq<char>)
    ensures
        word_len(s) <= s.len(),
        forall|j: int| 0 <= j < word_len(s) ==> !is_ws(#[trigger] s[j]),
        word_len(s) < s.len() ==> is_ws(s[word_len(s) as int]),
    decreases s.len(),
{
    if s.len() == 0 || is_ws(s[0]) {
    } else {
        lemma_word_len(s.drop_first());
        assert forall|j: int| 0 <= j < word_len(s) implies !is_ws(#[trigger] s[j]) by {
            if j > 0 {
                assert(s[j] == s.drop_first()[j - 1]);
            }
        }
    }
}

/// `str::split_whitespace`: the maximal runs of non-whitespace characters.
pub open spec fn tokens(s: Seq<char>) -> Seq<Seq<char>>
    decreases s.len(),
{
    if s.len() == 0 {
        Seq::empty()
    } else if is_ws(s[0]) {
        tokens(s.drop_first())
    } else {
        let k = word_len(s);
        proof {
            lemma_word_len(s);
        }
        seq![s.take(k as int)] + tokens(s.skip(k as int))
    }
}

/// The views of a sequence of character vectors.
pub open spec fn views(v: Seq<Vec<char>>) -> Seq<Seq<char>> {
    v.map_values(|x: Vec<char>| x@)
}

/// `str::split_whitespace`, collected.
pub fn tokens_exec(v: &Vec<char>) -> (r: Vec<Vec<char>>)
    ensures
        views(r@) == tokens(v@),
{
    let mut r: Vec<Vec<char>> = Vec::new();
    let mut i: usize = 0;
    assert(v@.skip(0) =~= v@);
    while i < v.len()
        invariant
            i <= v.len(),
            tokens(v@) == views(r@) + tokens(v@.skip(i as int)),
        decreases v.len() - i,
    {
        let ghost u = v@.skip(i as int);
        if is_whitespace_char(v[i]) {
            assert(u.drop_first() =~= v@.skip(i + 1));
            i = i + 1;
        } else {
            let mut j: usize = i;
            while j < v.len() && !is_whitespace_char(v[j])
                invariant
                    i <= j <= v.len(),
                    word_len(u) == (j - i) + word_len(v@.skip(j as int)),
                decreases v.len() - j,
            {
                assert(v@.skip(j as int).drop_first() =~= v@.skip(j + 1));
                j = j + 1;
            }
            proof {
                lemma_word_len(u);
                assert(u.take((j - i) as int) =~= v@.subrange(i as int, j as int));
                assert(u.skip((j - i) as int) =~= v@.skip(j as int));
            }
            let w = slice_chars(v, i, j);
            let ghost old_r = r@;
            r.push(w);
            assert(views(r@) =~= views(old_r) + seq![w@]);
            i = j;
        }
    }
    assert(v@.skip(v.len() as int) =~= Seq::<char>::empty());
    assert(views(r@) + Seq::<Seq<char>>::empty() =~= views(r@));
    r
}

/// The first whitespace-separated token, if any
/// (`s.split_whitespace().next()`).
pub open spec fn first_token(s: Seq<char>) -> Option<Seq<char>> {
    if tokens(s).len() > 0 {
        Some(tokens(s)[0])
    } else {
        None
    }
}

/// `s.split_whitespace().next()`.
pub fn first_token_exec(v: &Vec<char>) -> (r: Option<Vec<char>>)
    ensures
        match r {
            Some(t) => first_token(v@) == Some(t@),
            None => first_token(v@) is None,
        },
{
    let mut toks = tokens_exec(v);
    if toks.len() > 0 {
        assert(views(toks@)[0] == toks@[0]@);
        Some(toks.swap_remove(0))
    } else {
        None
    }
}

/// The text between the first and the second occurrence of `pat`, or the
/// rest of the text when it occurs once (`s.split(pat).nth(1)` for a
/// non-empty `pat`).
pub open spec fn split_second(s: Seq<char>, pat: Seq<char>) -> Option<Seq<char>> {
    match find(s, pat) {
        None => None,
        Some(i) => {
            let rest = s.skip(i + pat.len());
            match find(rest, pat) {
                Some(j) => Some(rest.take(j)),
                None => Some(rest),
            }
        },
    }
}

/// `s.split(pat).nth(1)` for a non-empty `pat`.
pub fn split_second_exec(v: &Vec<char>, pat: &Vec<char>) -> (r: Option<Vec<char>>)
    ensures
        match r {
            Some(t) => split_second(v@, pat@) == Some(t@),
            None => split_second(v@, pat@) is None,
        },
{
    match find_exec(v, pat, 0) {
        None => None,
        Some(i) => {
            proof {
                lemma_find_from(v@, pat@, 0);
                assert(matches_at(v@, pat@, i as int));
            }
            let n = v.len();
            let plen = pat.len();
            assert(i + plen <= n);
            let start = i + plen;
            let ghost rest = v@.skip(start as int);
            match find_exec(v, pat, start) {
                Some(j) => {
                    proof {
                        lemma_find_shift(v@, pat@, start as int, 0);
                        lemma_find_from(v@, pat@, start as int);
                        assert(rest.take(j - start) =~= v@.subrange(start as int, j as int));
                    }
                    Some(slice_chars(v, start, j))
                },
                None => {
                    proof {
                        lemma_find_shift(v@, pat@, start as int, 0);
                        assert(rest =~= v@.subrange(start as int, v.len() as int));
                    }
                    Some(slice_chars(v, start, v.len()))
                },
            }
        },
    }
}

// ---------------------------------------------------------------------
// Lines
// ---------------------------------------------------------------------

/// Drops one trailing carriage return.
pub open spec fn strip_cr(s: Seq<char>) -> Seq<char> {
    if s.len() > 0 && s.last() == '\r' {
        s.drop_last()
    } else {
        s
    }
}

/// `str::lines`: the text split at `\n` or `\r\n`; a final line ending is
/// optional and produces no empty last line.
pub open spec fn lines(s: Seq<char>) -> Seq<Seq<char>>
    decreases s.len(),
{
    if s.len() == 0 {
        Seq::empty()
    } else {
        match find(s, seq!['\n']) {
            Some(k) => {
                proof {
                    lemma_find_from(s, seq!['\n'], 0);
                }
                seq![strip_cr(s.take(k))] + lines(s.skip(k + 1))
            },
            None => seq![s],
        }
    }
}

/// Drops one trailing carriage return from a character vector.
fn strip_cr_exec(v: Vec<char>) -> (r: Vec<char>)
    ensures
        r@ == strip_cr(v@),
{
    let mut v = v;
    if v.len() > 0 && v[v.len() - 1] == '\r' {
        v.pop();
    }
    v
}

/// `str::lines`, collected.
pub fn lines_exec(v: &Vec<char>) -> (r: Vec<Vec<char>>)
    ensures
        views(r@) == lines(v@),
{
    let mut r: Vec<Vec<char>> = Vec::new();
    let nl: Vec<char> = vec!['\n'];
    assert(nl@ =~= seq!['\n']);
    let mut pos: usize = 0;
    assert(v@.skip(0) =~= v@);
    while pos < v.len()
        invariant
            pos <= v.len(),
            nl@ == seq!['\n'],
            lines(v@) == views(r@) + lines(v@.skip(pos as int)),
        decreases v.len() - pos,
    {
        let ghost u = v@.skip(pos as int);
        proof {
            lemma_find_shift(v@, nl@, pos as int, 0);
        }
        match find_exec(v, &nl, pos) {
            Some(k) => {
                proof {
                    lemma_find_from(v@, nl@, pos as int);
                    assert(u.take(k - pos) =~= v@.subrange(pos as int, k as int));
                    assert(u.skip(k - pos + 1) =~= v@.skip(k + 1));
                }
                let piece = slice_chars(v, pos, k);
                let line = strip_cr_exec(piece);
                let ghost old_r = r@;
                r.push(line);
                assert(views(r@) =~= views(old_r) + seq![line@]);
                pos = k + 1;
            },
            None => {
                let piece = slice_chars(v, pos, v.len());
                assert(piece@ =~= u);
                let ghost old_r = r@;
                r.push(piece);
                assert(views(r@) =~= views(old_r) + seq![piece@]);
                pos = v.len();
                assert(v@.skip(pos as int) =~= Seq::<char>::empty());
                assert(views(r@) + Seq::<Seq<char>>::empty() =~= views(r@));
            },
        }
    }
    assert(v@.skip(v.len() as int) =~= Seq::<char>::empty());
    assert(views(r@) + Seq::<Seq<char>>::empty() =~= views(r@));
    r
}

// ---------------------------------------------------------------------
// Decimal numbers
// ---------------------------------------------------------------------

/// The digit character for `d < 10`.
pub open spec fn digit_char(d: nat) -> char {
    (d + 48) as char
}

/// The decimal text of a natural number, as `{}` formats an integer.
pub open spec fn decimal(n: nat) -> Seq<char>
    decreases n,
{
    if n < 10 {
        seq![digit_char(n)]
    } else {
        decimal(n / 10).push(digit_char(n % 10))
    }
}

fn digit_exec(d: u64) -> (c: char)
    requires
        d < 10,
    ensures
        c == digit_char(d as nat),
{
    let b: u8 = (d as u8) + 48u8;
    b as char
}

/// `n.to_string()` for an unsigned integer.
pub fn decimal_string(n: u64) -> (s: String)
    ensures
        s@ == decimal(n as nat),
{
    let mut m: u64 = n;
    let mut out: Vec<char> = Vec::new();
    while m >= 10
        invariant
            decimal(n as nat) == decimal(m as nat) + out@,
        decreases m,
    {
        let d = digit_exec(m % 10);
        let ghost old_out = out@;
        out.insert(0, d);
        assert(decimal(m as nat) == decimal((m / 10) as nat).push(digit_char((m % 10) as nat)));
        assert(decimal((m / 10) as nat).push(d) + old_out =~= decimal((m / 10) as nat) + out@);
        m = m / 10;
    }
    let d = digit_exec(m);
    let ghost old_out = out@;
    out.insert(0, d);
    assert(decimal(n as nat) =~= out@);
    string_from(&out)
}

/// `n.to_string()` for a `usize`.
pub fn decimal_usize(n: usize) -> (s: String)
    ensures
        s@ == decimal(n as nat),
{
    decimal_string(n as u64)
}


// ---------------------------------------------------------------------
// Small string builders
// ---------------------------------------------------------------------

/// An owned copy of a string slice.
pub fn owned(s: &str) -> (r: String)
    ensures
        r@ == s@,
{
    s.to_owned()
}

/// The concatenation of two texts.
pub fn concat2(a: &str, b: &str) -> (r: String)
    ensures
        r@ == a@ + b@,
{
    let mut r = a.to_owned();
    r.append(b);
    r
}

/// The concatenation of three texts.
pub fn concat3(a: &str, b: &str, c: &str) -> (r: String)
    ensures
        r@ == a@ + b@ + c@,
{
    let mut r = a.to_owned();
    r.append(b);
    r.append(c);
    r
}

/// Whether the characters spell the given text.
pub fn eq_lit(v: &Vec<char>, lit: &str) -> (r: bool)
    ensures
        r == (v@ == lit@),
{
    let w = chars_of(lit);
    chars_eq(v, &w)
}

/// Whether the characters begin with the given text.
pub fn starts_with_lit(v: &Vec<char>, lit: &str) -> (r: bool)
    ensures
        r == starts_with(v@, lit@),
{
    let w = chars_of(lit);
    starts_with_exec(v, &w)
}

/// Whether the characters contain the given text.
pub fn contains_lit(v: &Vec<char>, lit: &str) -> (r: bool)
    ensures
        r == contains(v@, lit@),
{
    let w = chars_of(lit);
    contains_exec(v, &w)
}

/// The views of a sequence of strings.
pub open spec fn str_views(v: Seq<String>) -> Seq<Seq<char>> {
    v.map_values(|x: String| x@)
}

/// The view of an optional string.
pub open spec fn opt_view(o: Option<String>) -> Option<Seq<char>> {
    match o {
        Some(s) => Some(s@),
        None => None,
    }
}

/// A copy of an optional string.
pub fn clone_opt(o: &Option<String>) -> (r: Option<String>)
    ensures
        opt_view(r) == opt_view(*o),
{
    match o {
        Some(s) => Some(s.clone()),
        None => None,
    }
}


// ---------------------------------------------------------------------
// UTF-8 byte positions
// ---------------------------------------------------------------------

/// The number of bytes of the UTF-8 encoding of a character.
pub open spec fn utf8_width(c: char) -> nat {
    let u = c as u32;
    if u < 0x80 {
        1
    } else if u < 0x800 {
        2
    } else if u < 0x10000 {
        3
    } else {
        4
    }
}

/// The number of bytes of the UTF-8 encoding of a text (`str::len`).
pub open spec fn byte_len(s: Seq<char>) -> nat
    decreases s.len(),
{
    if s.len() == 0 {
        0
    } else {
        byte_len(s.drop_last()) + utf8_width(s.last())
    }
}

/// The character index that starts at byte offset `b`, if `b` is a
/// character boundary of the text (the end of the text counts).
pub open spec fn char_at_byte(s: Seq<char>, b: int) -> Option<int>
    decreases s.len(),
{
    if b == 0 {
        Some(0)
    } else if b < 0 || s.len() == 0 {
        None
    } else {
        let w = utf8_width(s[0]) as int;
        if b < w {
            None
        } else {
            match char_at_byte(s.drop_first(), b - w) {
                Some(j) => Some(j + 1),
                None => None,
            }
        }
    }
}

fn utf8_width_exec(c: char) -> (w: u128)
    ensures
        w == utf8_width(c),
{
    let u = c as u32;
    if u < 0x80 {
        1
    } else if u < 0x800 {
        2
    } else if u < 0x10000 {
        3
    } else {
        4
    }
}

/// The byte length of the first `k` characters.
pub fn byte_len_prefix(v: &Vec<char>, k: usize) -> (r: u128)
    requires
        k <= v.len(),
    ensures
        r == byte_len(v@.take(k as int)),
        r <= 4 * k,
{
    let mut acc: u128 = 0;
    let mut i: usize = 0;
    assert(v@.take(0) =~= Seq::<char>::empty());
    while i < k
        invariant
            i <= k <= v.len(),
            acc == byte_len(v@.take(i as int)),
            acc <= 4 * i,
        decreases k - i,
    {
        let w = utf8_width_exec(v[i]);
        assert(v@.take(i + 1).drop_last() =~= v@.take(i as int));
        acc = acc + w;
        i = i + 1;
    }
    acc
}

/// The character index at byte offset `b`, when `b` is a boundary.
pub fn char_at_byte_exec(v: &Vec<char>, b: u128) -> (r: Option<usize>)
    ensures
        match r {
            Some(j) => char_at_byte(v@, b as int) == Some(j as int),
            None => char_at_byte(v@, b as int) is None,
        },
{
    let mut j: usize = 0;
    let mut rem: u128 = b;
    assert(v@.skip(0) =~= v@);
    loop
        invariant
            j <= v.len(),
            rem <= b,
            match char_at_byte(v@.skip(j as int), rem as int) {
                Some(x) => char_at_byte(v@, b as int) == Some(x + j),
                None => char_at_byte(v@, b as int) is None,
            },
        decreases v.len() - j,
    {
        if rem == 0 {
            return Some(j);
        }
        if j == v.len() {
            return None;
        }
        let w = utf8_width_exec(v[j]);
        if rem < w {
            return None;
        }
        assert(v@.skip(j as int).drop_first() =~= v@.skip(j + 1));
        rem = rem - w;
        j = j + 1;
    }
}


/// A character index found at a byte offset lies within the text.
pub proof fn lemma_char_at_byte_bound(s: Seq<char>, b: int)
    ensures
        char_at_byte(s, b) matches Some(j) ==> 0 <= j <= s.len(),
    decreases s.len(),
{
    if b == 0 || b < 0 || s.len() == 0 {
    } else {
        let w = utf8_width(s[0]) as int;
        if b >= w {
            lemma_char_at_byte_bound(s.drop_first(), b - w);
        }
    }
}

} // verus!
