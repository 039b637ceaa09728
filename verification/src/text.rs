//! Character-level text operations used throughout the schedule model.
//!
//! Text is handled as sequences of `char`s.  Every operation here has a
//! specification over `Seq<char>` that the rest of the crate builds on.
use vstd::prelude::*;

verus! {

// ---------------------------------------------------------------------------
// Specifications
// ---------------------------------------------------------------------------

/// The Unicode `White_Space` characters, which `char::is_whitespace` recognises.
pub open spec fn is_ws(c: char) -> bool {
    ||| ('\u{9}' <= c && c <= '\u{d}')
    ||| c == ' '
    ||| c == '\u{85}'
    ||| c == '\u{a0}'
    ||| c == '\u{1680}'
    ||| ('\u{2000}' <= c && c <= '\u{200a}')
    ||| c == '\u{2028}'
    ||| c == '\u{2029}'
    ||| c == '\u{202f}'
    ||| c == '\u{205f}'
    ||| c == '\u{3000}'
}

/// First index at or after `i` that does not hold whitespace.
pub open spec fn ws_end(s: Seq<char>, i: int) -> int
    decreases s.len() - i,
{
    if 0 <= i < s.len() && is_ws(s[i]) {
        ws_end(s, i + 1)
    } else {
        i
    }
}

/// Moving left from the end `j`, the end of the text once trailing whitespace
/// down to `lo` is removed.
pub open spec fn ws_back(s: Seq<char>, lo: int, j: int) -> int
    decreases j - lo,
{
    if lo < j && 0 < j <= s.len() && is_ws(s[j - 1]) {
        ws_back(s, lo, j - 1)
    } else {
        j
    }
}

/// `str::trim`: the text without leading and trailing whitespace.
pub open spec fn trim(s: Seq<char>) -> Seq<char> {
    let a = ws_end(s, 0);
    s.subrange(a, ws_back(s, a, s.len() as int))
}

/// `p` occurs in `s` at index `i`.
pub open spec fn match_at(s: Seq<char>, p: Seq<char>, i: int) -> bool {
    0 <= i && i + p.len() <= s.len() && s.subrange(i, i + p.len()) == p
}

/// The first index at or after `i` where `p` occurs in `s`.
pub open spec fn find_from(s: Seq<char>, p: Seq<char>, i: int) -> Option<int>
    decreases s.len() - i,
{
    if i < 0 || i + p.len() > s.len() {
        None
    } else if match_at(s, p, i) {
        Some(i)
    } else if i >= s.len() {
        None
    } else {
        find_from(s, p, i + 1)
    }
}

/// `str::find`.
pub open spec fn find(s: Seq<char>, p: Seq<char>) -> Option<int> {
    find_from(s, p, 0)
}

/// `str::contains` with a text pattern.
pub open spec fn contains(s: Seq<char>, p: Seq<char>) -> bool {
    find(s, p) is Some
}

/// `str::starts_with` with a text pattern.
pub open spec fn starts_with(s: Seq<char>, p: Seq<char>) -> bool {
    match_at(s, p, 0)
}

/// Left-to-right replacement of the non-overlapping occurrences of `f`,
/// scanning from index `i`.
pub open spec fn replace_from(s: Seq<char>, f: Seq<char>, t: Seq<char>, i: int) -> Seq<char>
    decreases s.len() - i,
{
    if i < 0 || i >= s.len() {
        Seq::empty()
    } else if f.len() > 0 && match_at(s, f, i) {
        t + replace_from(s, f, t, i + f.len())
    } else {
        seq![s[i]] + replace_from(s, f, t, i + 1)
    }
}

/// `str::replace` for a nonempty pattern `f`.
pub open spec fn replace_all(s: Seq<char>, f: Seq<char>, t: Seq<char>) -> Seq<char> {
    replace_from(s, f, t, 0)
}

/// The pieces of `s` between occurrences of `c`, where the current piece
/// started at `start` and the scan has reached `i`.
pub open spec fn split_from(s: Seq<char>, c: char, start: int, i: int) -> Seq<Seq<char>>
    decreases s.len() - i,
{
    if i < 0 || i >= s.len() {
        seq![s.subrange(start, s.len() as int)]
    } else if s[i] == c {
        seq![s.subrange(start, i)] + split_from(s, c, i + 1, i + 1)
    } else {
        split_from(s, c, start, i + 1)
    }
}

/// `str::split` on one character.
pub open spec fn split(s: Seq<char>, c: char) -> Seq<Seq<char>> {
    split_from(s, c, 0, 0)
}

/// The whitespace-separated words of `s` from index `i`; `w` is the start of
/// the word being scanned, or -1 between words.
pub open spec fn words_from(s: Seq<char>, i: int, w: int) -> Seq<Seq<char>>
    decreases s.len() - i,
{
    if i < 0 || i >= s.len() {
        if w >= 0 {
            seq![s.subrange(w, s.len() as int)]
        } else {
            Seq::empty()
        }
    } else if is_ws(s[i]) {
        if w >= 0 {
            seq![s.subrange(w, i)] + words_from(s, i + 1, -1)
        } else {
            words_from(s, i + 1, -1)
        }
    } else if w >= 0 {
        words_from(s, i + 1, w)
    } else {
        words_from(s, i + 1, i)
    }
}

/// `str::split_whitespace`.
pub open spec fn words(s: Seq<char>) -> Seq<Seq<char>> {
    words_from(s, 0, -1)
}

/// Moving left from `j`, the end of `s` once trailing characters of `set`
/// down to `lo` are removed.
pub open spec fn set_back(s: Seq<char>, set: Seq<char>, lo: int, j: int) -> int
    decreases j - lo,
{
    if lo < j && 0 < j <= s.len() && set.contains(s[j - 1]) {
        set_back(s, set, lo, j - 1)
    } else {
        j
    }
}

/// The first index at or after `i` that holds no character of `set`.
pub open spec fn set_end(s: Seq<char>, set: Seq<char>, i: int) -> int
    decreases s.len() - i,
{
    if 0 <= i < s.len() && set.contains(s[i]) {
        set_end(s, set, i + 1)
    } else {
        i
    }
}

/// `str::trim_end_matches` with a set of characters.
pub open spec fn trim_end_set(s: Seq<char>, set: Seq<char>) -> Seq<char> {
    s.subrange(0, set_back(s, set, 0, s.len() as int))
}

/// `str::trim_matches` with a set of characters.
pub open spec fn trim_set(s: Seq<char>, set: Seq<char>) -> Seq<char> {
    let a = set_end(s, set, 0);
    s.subrange(a, set_back(s, set, a, s.len() as int))
}

/// The pieces joined with `sep` between neighbours.
pub open spec fn join(parts: Seq<Seq<char>>, sep: Seq<char>) -> Seq<char>
    decreases parts.len(),
{
    if parts.len() == 0 {
        Seq::empty()
    } else if parts.len() == 1 {
        parts[0]
    } else {
        join(parts.drop_last(), sep) + sep + parts.last()
    }
}

/// An ASCII decimal digit.
pub open spec fn is_digit(c: char) -> bool {
    '0' <= c && c <= '9'
}

pub open spec fn digit_value(c: char) -> int {
    (c as int) - ('0' as int)
}

pub open spec fn all_digits(s: Seq<char>) -> bool {
    forall|i: int| 0 <= i < s.len() ==> #[trigger] is_digit(s[i])
}

/// The number that the decimal digits `s` denote.
pub open spec fn digits_value(s: Seq<char>) -> int
    decreases s.len(),
{
    if s.len() == 0 {
        0
    } else {
        10 * digits_value(s.drop_last()) + digit_value(s.last())
    }
}

/// `u32::from_str`: an optional `+` followed by at least one decimal digit,
/// of a value that fits in a `u32`.
pub open spec fn parse_u32_spec(s: Seq<char>) -> Option<u32> {
    let d = if s.len() > 0 && s[0] == '+' {
        s.drop_first()
    } else {
        s
    };
    if d.len() > 0 && all_digits(d) && digits_value(d) <= u32::MAX {
        Some(digits_value(d) as u32)
    } else {
        None
    }
}

pub open spec fn digit_char(d: int) -> char {
    (d + ('0' as int)) as char
}

/// The decimal notation of `n`, without leading zeros.
pub open spec fn decimal(n: nat) -> Seq<char>
    decreases n,
{
    if n < 10 {
        seq![digit_char(n as int)]
    } else {
        decimal(n / 10).push(digit_char((n % 10) as int))
    }
}

/// Every number has at least one digit.
pub proof fn lemma_decimal_nonempty(n: nat)
    ensures
        decimal(n).len() > 0,
    decreases n,
{
    if n >= 10 {
        lemma_decimal_nonempty(n / 10);
    }
}

/// `format!("{:0w$}", n)`: the decimal notation of `n`, left-padded with zeros
/// to at least `w` characters.
pub open spec fn zero_padded(n: nat, w: nat) -> Seq<char> {
    let d = decimal(n);
    if d.len() < w {
        Seq::new((w - d.len()) as nat, |i: int| '0') + d
    } else {
        d
    }
}

/// ASCII letters mapped to lower case, everything else kept.
pub open spec fn ascii_lower(s: Seq<char>) -> Seq<char> {
    s.map_values(|c: char| if 'A' <= c && c <= 'Z' { ((c as int) + 32) as char } else { c })
}

/// ASCII letters mapped to upper case, everything else kept.
pub open spec fn ascii_upper(s: Seq<char>) -> Seq<char> {
    s.map_values(|c: char| if 'a' <= c && c <= 'z' { ((c as int) - 32) as char } else { c })
}

/// The lower case of an ASCII character or of one of the Swedish letters Å,
/// Ä and Ö; every other character is kept.
pub open spec fn swedish_lower_char(c: char) -> char {
    if 'A' <= c && c <= 'Z' {
        ((c as int) + 32) as char
    } else if c == 'Å' {
        'å'
    } else if c == 'Ä' {
        'ä'
    } else if c == 'Ö' {
        'ö'
    } else {
        c
    }
}

/// Text in ASCII and the Swedish letters å, ä, ö, Å, Ä and Ö only.
pub open spec fn is_swedish_text(s: Seq<char>) -> bool {
    forall|i: int|
        0 <= i < s.len() ==> {
            let c = #[trigger] s[i];
            (c as int) < 128 || c == 'å' || c == 'ä' || c == 'ö' || c == 'Å' || c == 'Ä' || c
                == 'Ö'
        }
}

/// `swedish_lower_char` on each character.
pub open spec fn swedish_lower(s: Seq<char>) -> Seq<char> {
    s.map_values(|c: char| swedish_lower_char(c))
}

pub open spec fn is_ascii_text(s: Seq<char>) -> bool {
    forall|i: int| 0 <= i < s.len() ==> (#[trigger] s[i] as int) < 128
}

/// The result of `str::to_lowercase` on the given text.
pub uninterp spec fn unicode_lower(s: Seq<char>) -> Seq<char>;

/// The result of `str::to_uppercase` on the given text.
pub uninterp spec fn unicode_upper(s: Seq<char>) -> Seq<char>;

// ---------------------------------------------------------------------------
// Calls into std that vstd does not specify
// ---------------------------------------------------------------------------

/// Calls `str::to_lowercase`.  Its result is named `unicode_lower`.  std
/// documents the mapping as Unicode's lower case, character by character
/// (only a final capital sigma depends on its neighbours); on ASCII text and
/// the Swedish letters it lowers exactly `A`..`Z`, `Å`, `Ä` and `Ö`.
#[verifier::external_body]
pub(crate) fn to_lowercase(s: &str) -> (res: String)
    ensures
        res@ == unicode_lower(s@),
        is_ascii_text(s@) ==> res@ == ascii_lower(s@),
        is_swedish_text(s@) ==> res@ == swedish_lower(s@),
{
    s.to_lowercase()
}

/// Calls `str::to_uppercase`.  Its result is named `unicode_upper`; std
/// documents that on ASCII text it raises exactly the letters `a`..`z`.
#[verifier::external_body]
pub(crate) fn to_uppercase(s: &str) -> (res: String)
    ensures
        res@ == unicode_upper(s@),
        is_ascii_text(s@) ==> res@ == ascii_upper(s@),
{
    s.to_uppercase()
}

/// Calls `FromIterator<&char> for String`: the string of the given characters.
#[verifier::external_body]
pub(crate) fn string_of(v: &[char]) -> (res: String)
    ensures
        res@ == v@,
{
    v.iter().collect()
}

/// Calls `String::push`: appends one character.
#[verifier::external_body]
pub(crate) fn string_push(s: &mut String, c: char)
    ensures
        final(s)@ == old(s)@.push(c),
{
    s.push(c);
}

/// Calls `String::pop`: removes and returns the last character, if any.
#[verifier::external_body]
pub(crate) fn string_pop(s: &mut String) -> (r: Option<char>)
    ensures
        old(s)@.len() == 0 ==> r is None && final(s)@ == old(s)@,
        old(s)@.len() > 0 ==> r == Some(old(s)@.last()) && final(s)@ == old(s)@.drop_last(),
{
    s.pop()
}

/// Calls `str::chars` and collects: the characters of the text.
#[verifier::external_body]
pub(crate) fn chars_of(s: &str) -> (res: Vec<char>)
    ensures
        res@ == s@,
{
    s.chars().collect()
}

// ---------------------------------------------------------------------------
// Executable operations
// ---------------------------------------------------------------------------

/// `char::is_whitespace`.
pub fn is_whitespace(c: char) -> (b: bool)
    ensures
        b == is_ws(c),
{
    ('\u{9}' <= c && c <= '\u{d}') || c == ' ' || c == '\u{85}' || c == '\u{a0}' || c
        == '\u{1680}' || ('\u{2000}' <= c && c <= '\u{200a}') || c == '\u{2028}' || c
        == '\u{2029}' || c == '\u{202f}' || c == '\u{205f}' || c == '\u{3000}'
}

/// The characters `s[a..b]`.
pub fn slice_chars(s: &[char], a: usize, b: usize) -> (res: Vec<char>)
    requires
        a <= b <= s@.len(),
    ensures
        res@ == s@.subrange(a as int, b as int),
{
    let mut res: Vec<char> = Vec::new();
    let mut k = a;
    while k < b
        invariant
            a <= k <= b <= s@.len(),
            res@ == s@.subrange(a as int, k as int),
        decreases b - k,
    {
        res.push(s[k]);
        k = k + 1;
        assert(res@ =~= s@.subrange(a as int, k as int));
    }
    res
}

/// `a` followed by `b`.
pub fn concat(a: &[char], b: &[char]) -> (res: Vec<char>)
    ensures
        res@ == a@ + b@,
{
    let mut res = slice_chars(a, 0, a.len());
    let mut k: usize = 0;
    while k < b.len()
        invariant
            k <= b@.len(),
            res@ == a@ + b@.subrange(0, k as int),
        decreases b@.len() - k,
    {
        res.push(b[k]);
        k = k + 1;
        assert(res@ =~= a@ + b@.subrange(0, k as int));
    }
    assert(b@.subrange(0, b@.len() as int) =~= b@);
    res
}

/// Index of the first non-whitespace character at or after `i`.
fn skip_ws(s: &[char], i: usize) -> (r: usize)
    requires
        i <= s@.len(),
    ensures
        r as int == ws_end(s@, i as int),
        i <= r <= s@.len(),
{
    let mut k = i;
    while k < s.len() && is_whitespace(s[k])
        invariant
            i <= k <= s@.len(),
            ws_end(s@, k as int) == ws_end(s@, i as int),
        decreases s@.len() - k,
    {
        k = k + 1;
    }
    k
}

/// End of `s[lo..j]` once trailing whitespace is removed.
fn back_ws(s: &[char], lo: usize, j: usize) -> (r: usize)
    requires
        lo <= j <= s@.len(),
    ensures
        r as int == ws_back(s@, lo as int, j as int),
        lo <= r <= j,
{
    let mut k = j;
    while k > lo && is_whitespace(s[k - 1])
        invariant
            lo <= k <= j <= s@.len(),
            ws_back(s@, lo as int, k as int) == ws_back(s@, lo as int, j as int),
        decreases k - lo,
    {
        k = k - 1;
    }
    k
}

/// `str::trim`.
pub fn trim_chars(s: &[char]) -> (res: Vec<char>)
    ensures
        res@ == trim(s@),
{
    let a = skip_ws(s, 0);
    let b = back_ws(s, a, s.len());
    slice_chars(s, a, b)
}

/// Whether `p` occurs in `s` at index `i`.
pub fn matches_at(s: &[char], p: &[char], i: usize) -> (b: bool)
    ensures
        b == match_at(s@, p@, i as int),
{
    if i > s.len() || p.len() > s.len() - i {
        return false;
    }
    let mut k: usize = 0;
    while k < p.len()
        invariant
            i + p@.len() <= s.len(),
            k <= p@.len(),
            forall|m: int| 0 <= m < k ==> s@[i + m] == p@[m],
        decreases p@.len() - k,
    {
        if s[i + k] != p[k] {
            assert(s@.subrange(i as int, i + p@.len())[k as int] != p@[k as int]);
            return false;
        }
        k = k + 1;
    }
    assert(s@.subrange(i as int, i + p@.len()) =~= p@);
    true
}

/// `str::find` from index `i`.
pub fn find_chars_from(s: &[char], p: &[char], i: usize) -> (r: Option<usize>)
    ensures
        r matches Some(k) ==> find_from(s@, p@, i as int) == Some(k as int) && match_at(
            s@,
            p@,
            k as int,
        ),
        r is None ==> find_from(s@, p@, i as int) is None,
{
    let mut k = i;
    loop
        invariant
            i <= k,
            find_from(s@, p@, k as int) == find_from(s@, p@, i as int),
        decreases s@.len() + 1 - k,
    {
        if k > s.len() || p.len() > s.len() - k {
            return None;
        }
        if matches_at(s, p, k) {
            return Some(k);
        }
        if k >= s.len() {
            return None;
        }
        k = k + 1;
    }
}

/// `str::contains`.
pub fn contains_chars(s: &[char], p: &[char]) -> (b: bool)
    ensures
        b == contains(s@, p@),
{
    find_chars_from(s, p, 0).is_some()
}

/// `str::starts_with`.
pub fn starts_with_chars(s: &[char], p: &[char]) -> (b: bool)
    ensures
        b == starts_with(s@, p@),
{
    matches_at(s, p, 0)
}

/// `str::replace` for a nonempty pattern.
pub fn replace_chars(s: &[char], f: &[char], t: &[char]) -> (res: Vec<char>)
    requires
        f@.len() > 0,
    ensures
        res@ == replace_all(s@, f@, t@),
{
    let mut res: Vec<char> = Vec::new();
    let mut i: usize = 0;
    while i < s.len()
        invariant
            f@.len() > 0,
            i <= s@.len(),
            replace_all(s@, f@, t@) == res@ + replace_from(s@, f@, t@, i as int),
        decreases s@.len() - i,
    {
        let ghost before = res@;
        if matches_at(s, f, i) {
            let mut k: usize = 0;
            while k < t.len()
                invariant
                    k <= t@.len(),
                    res@ == before + t@.subrange(0, k as int),
                decreases t@.len() - k,
            {
                res.push(t[k]);
                k = k + 1;
                assert(res@ =~= before + t@.subrange(0, k as int));
            }
            assert(t@.subrange(0, t@.len() as int) =~= t@);
            assert(before + (t@ + replace_from(s@, f@, t@, i + f@.len())) =~= res@
                + replace_from(s@, f@, t@, i + f@.len()));
            i = i + f.len();
        } else {
            res.push(s[i]);
            assert(before + (seq![s@[i as int]] + replace_from(s@, f@, t@, i + 1)) =~= res@
                + replace_from(s@, f@, t@, i + 1));
            i = i + 1;
        }
    }
    assert(res@ + replace_from(s@, f@, t@, i as int) =~= res@);
    res
}

/// `str::split` on one character.
pub fn split_chars(s: &[char], c: char) -> (res: Vec<Vec<char>>)
    ensures
        res@.map_values(|v: Vec<char>| v@) == split(s@, c),
{
    let mut res: Vec<Vec<char>> = Vec::new();
    let mut start: usize = 0;
    let mut i: usize = 0;
    while i < s.len()
        invariant
            start <= i <= s@.len(),
            split(s@, c) == res@.map_values(|v: Vec<char>| v@) + split_from(
                s@,
                c,
                start as int,
                i as int,
            ),
        decreases s@.len() - i,
    {
        if s[i] == c {
            let ghost before = res@.map_values(|v: Vec<char>| v@);
            let piece = slice_chars(s, start, i);
            res.push(piece);
            assert(res@.map_values(|v: Vec<char>| v@) =~= before.push(
                s@.subrange(start as int, i as int),
            ));
            assert(before + (seq![s@.subrange(start as int, i as int)] + split_from(
                s@,
                c,
                i + 1,
                i + 1,
            )) =~= res@.map_values(|v: Vec<char>| v@) + split_from(s@, c, i + 1, i + 1));
            start = i + 1;
        }
        i = i + 1;
    }
    let ghost before = res@.map_values(|v: Vec<char>| v@);
    let piece = slice_chars(s, start, s.len());
    res.push(piece);
    assert(res@.map_values(|v: Vec<char>| v@) =~= before + split_from(
        s@,
        c,
        start as int,
        i as int,
    ));
    res
}

/// `str::split_whitespace`.
pub fn words_chars(s: &[char]) -> (res: Vec<Vec<char>>)
    ensures
        res@.map_values(|v: Vec<char>| v@) == words(s@),
{
    let mut res: Vec<Vec<char>> = Vec::new();
    let mut in_word = false;
    let mut w: usize = 0;
    let mut i: usize = 0;
    while i < s.len()
        invariant
            i <= s@.len(),
            in_word ==> w < i,
            words(s@) == res@.map_values(|v: Vec<char>| v@) + words_from(
                s@,
                i as int,
                if in_word {
                    w as int
                } else {
                    -1
                },
            ),
        decreases s@.len() - i,
    {
        let ghost before = res@.map_values(|v: Vec<char>| v@);
        if is_whitespace(s[i]) {
            if in_word {
                let piece = slice_chars(s, w, i);
                res.push(piece);
                assert(res@.map_values(|v: Vec<char>| v@) =~= before.push(
                    s@.subrange(w as int, i as int),
                ));
                assert(before + (seq![s@.subrange(w as int, i as int)] + words_from(
                    s@,
                    i + 1,
                    -1,
                )) =~= res@.map_values(|v: Vec<char>| v@) + words_from(s@, i + 1, -1));
                in_word = false;
            }
        } else if !in_word {
            in_word = true;
            w = i;
        }
        i = i + 1;
    }
    if in_word {
        let ghost before = res@.map_values(|v: Vec<char>| v@);
        let piece = slice_chars(s, w, s.len());
        res.push(piece);
        assert(res@.map_values(|v: Vec<char>| v@) =~= before.push(
            s@.subrange(w as int, s@.len() as int),
        ));
    } else {
        assert(res@.map_values(|v: Vec<char>| v@) + words_from(s@, i as int, -1) =~= res@.map_values(
            |v: Vec<char>| v@,
        ));
    }
    res
}

/// Whether `c` is one of `set`.
pub fn in_set(set: &[char], c: char) -> (b: bool)
    ensures
        b == set@.contains(c),
{
    let mut k: usize = 0;
    while k < set.len()
        invariant
            k <= set@.len(),
            forall|m: int| 0 <= m < k ==> set@[m] != c,
        decreases set@.len() - k,
    {
        if set[k] == c {
            assert(set@[k as int] == c);
            return true;
        }
        k = k + 1;
    }
    false
}

/// `str::trim_end_matches` with a set of characters.
pub fn trim_end_set_chars(s: &[char], set: &[char]) -> (res: Vec<char>)
    ensures
        res@ == trim_end_set(s@, set@),
{
    let mut k = s.len();
    while k > 0 && in_set(set, s[k - 1])
        invariant
            k <= s@.len(),
            set_back(s@, set@, 0, k as int) == set_back(s@, set@, 0, s@.len() as int),
        decreases k,
    {
        k = k - 1;
    }
    slice_chars(s, 0, k)
}

/// `str::trim_matches` with a set of characters.
pub fn trim_set_chars(s: &[char], set: &[char]) -> (res: Vec<char>)
    ensures
        res@ == trim_set(s@, set@),
{
    let mut a: usize = 0;
    while a < s.len() && in_set(set, s[a])
        invariant
            a <= s@.len(),
            set_end(s@, set@, a as int) == set_end(s@, set@, 0),
        decreases s@.len() - a,
    {
        a = a + 1;
    }
    let mut k = s.len();
    while k > a && in_set(set, s[k - 1])
        invariant
            a <= k <= s@.len(),
            set_back(s@, set@, a as int, k as int) == set_back(s@, set@, a as int, s@.len() as int),
        decreases k - a,
    {
        k = k - 1;
    }
    slice_chars(s, a, k)
}

/// The strings joined with one space between neighbours.
pub fn join_space(parts: &Vec<String>) -> (res: Vec<char>)
    ensures
        res@ == join(parts@.map_values(|p: String| p@), seq![' ']),
{
    let ghost views = parts@.map_values(|p: String| p@);
    let mut res: Vec<char> = Vec::new();
    let mut i: usize = 0;
    while i < parts.len()
        invariant
            i <= parts@.len(),
            views == parts@.map_values(|p: String| p@),
            res@ == join(views.take(i as int), seq![' ']),
        decreases parts@.len() - i,
    {
        let piece = chars_of(parts[i].as_str());
        if i == 0 {
            res = piece;
            assert(views.take(1).drop_last() =~= views.take(0));
            assert(res@ == join(views.take(1), seq![' ']));
        } else {
            let spaced = concat(res.as_slice(), &[' ']);
            res = concat(spaced.as_slice(), piece.as_slice());
            assert(views.take(i + 1).drop_last() =~= views.take(i as int));
        }
        i = i + 1;
    }
    assert(views.take(parts@.len() as int) =~= views);
    res
}

// ---------------------------------------------------------------------------
// Numbers
// ---------------------------------------------------------------------------

proof fn lemma_digits_value_bounds(s: Seq<char>)
    requires
        all_digits(s),
    ensures
        0 <= digits_value(s),
    decreases s.len(),
{
    if s.len() > 0 {
        assert(all_digits(s.drop_last())) by {
            assert forall|i: int| 0 <= i < s.drop_last().len() implies #[trigger] is_digit(
                s.drop_last()[i],
            ) by {
                assert(is_digit(s[i]));
            }
        }
        lemma_digits_value_bounds(s.drop_last());
        assert(is_digit(s[s.len() - 1]));
    }
}

proof fn lemma_digits_value_monotone(s: Seq<char>, k: int)
    requires
        all_digits(s),
        0 <= k <= s.len(),
    ensures
        digits_value(s.take(k)) <= digits_value(s),
    decreases s.len() - k,
{
    if k < s.len() {
        lemma_digits_value_monotone(s, k + 1);
        assert(s.take(k + 1).drop_last() =~= s.take(k));
        assert(is_digit(s[k]));
        assert(all_digits(s.take(k))) by {
            assert forall|i: int| 0 <= i < s.take(k).len() implies #[trigger] is_digit(
                s.take(k)[i],
            ) by {
                assert(is_digit(s[i]));
            }
        }
        lemma_digits_value_bounds(s.take(k));
    } else {
        assert(s.take(k) =~= s);
    }
}

/// `u32::from_str` on characters.
pub fn parse_u32_chars(s: &[char]) -> (r: Option<u32>)
    ensures
        r == parse_u32_spec(s@),
{
    let start: usize = if s.len() > 0 && s[0] == '+' {
        1
    } else {
        0
    };
    let ghost d = if s@.len() > 0 && s@[0] == '+' {
        s@.drop_first()
    } else {
        s@
    };
    assert(d =~= s@.subrange(start as int, s@.len() as int));
    if start >= s.len() {
        return None;
    }
    let mut value: u64 = 0;
    let mut k: usize = start;
    while k < s.len()
        invariant
            start < s@.len(),
            start <= k <= s@.len(),
            d == s@.subrange(start as int, s@.len() as int),
            d == (if s@.len() > 0 && s@[0] == '+' {
                s@.drop_first()
            } else {
                s@
            }),
            forall|m: int| start <= m < k ==> is_digit(#[trigger] s@[m]),
            value as int == digits_value(d.take(k - start)),
            value <= u32::MAX,
        decreases s@.len() - k,
    {
        let c = s[k];
        if !('0' <= c && c <= '9') {
            assert(d[k - start] == c);
            assert(!is_digit(d[k - start]));
            return None;
        }
        let dv = (c as u32 - '0' as u32) as u64;
        assert(d.take(k + 1 - start).drop_last() =~= d.take(k - start));
        assert(d.take(k + 1 - start).last() == c);
        value = value * 10 + dv;
        assert(value as int == digits_value(d.take(k + 1 - start)));
        k = k + 1;
        if value > u32::MAX as u64 {
            proof {
                if all_digits(d) {
                    lemma_digits_value_monotone(d, (k - start) as int);
                }
            }
            return None;
        }
    }
    assert(d.take(d.len() as int) =~= d);
    assert(all_digits(d)) by {
        assert forall|i: int| 0 <= i < d.len() implies #[trigger] is_digit(d[i]) by {
            assert(d[i] == s@[start + i]);
        }
    }
    Some(value as u32)
}

/// The decimal notation of `n`.
pub fn decimal_chars(n: u64) -> (res: Vec<char>)
    ensures
        res@ == decimal(n as nat),
    decreases n,
{
    let d = (n % 10) as u32;
    let c = char_of_digit(d);
    if n < 10 {
        let mut v: Vec<char> = Vec::new();
        v.push(c);
        assert(v@ =~= seq![digit_char(n as int)]);
        v
    } else {
        let mut v = decimal_chars(n / 10);
        v.push(c);
        v
    }
}

fn char_of_digit(d: u32) -> (c: char)
    requires
        d < 10,
    ensures
        c == digit_char(d as int),
{
    if d == 0 { '0' }
    else if d == 1 { '1' }
    else if d == 2 { '2' }
    else if d == 3 { '3' }
    else if d == 4 { '4' }
    else if d == 5 { '5' }
    else if d == 6 { '6' }
    else if d == 7 { '7' }
    else if d == 8 { '8' }
    else { '9' }
}

/// `format!("{:0w$}", n)`.
pub fn zero_padded_chars(n: u64, w: usize) -> (res: Vec<char>)
    ensures
        res@ == zero_padded(n as nat, w as nat),
{
    let d = decimal_chars(n);
    if d.len() < w {
        let mut res: Vec<char> = Vec::new();
        let fill = w - d.len();
        let mut k: usize = 0;
        while k < fill
            invariant
                k <= fill,
                res@ == Seq::new(k as nat, |i: int| '0'),
            decreases fill - k,
        {
            res.push('0');
            k = k + 1;
            assert(res@ =~= Seq::new(k as nat, |i: int| '0'));
        }
        concat(res.as_slice(), d.as_slice())
    } else {
        d
    }
}

} // verus!
