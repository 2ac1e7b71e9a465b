//! Character-sequence helpers shared by the parsers of the library.
//!
//! Strings are handled as `Vec<char>` / `&[char]` whose views are `Seq<char>`.
use vstd::prelude::*;
use vstd::slice::slice_subrange;

verus! {

/// Appends one character to a string.
///
/// Trusted: `String::push` appends the character at the end of the string.
#[verifier::external_body]
pub(crate) fn push_char(s: &mut String, c: char)
    ensures
        final(s)@ == old(s)@.push(c),
{
    s.push(c);
}

/// The characters of a string, in order.
pub fn chars_of(s: &str) -> (v: Vec<char>)
    ensures
        v@ == s@,
{
    let mut v: Vec<char> = Vec::new();
    for c in it: s.chars()
        invariant
            v@ == it.seq().take(it.index() as int),
    {
        v.push(c);
    }
    v
}

/// Builds a string from characters.
pub fn string_of(v: &[char]) -> (s: String)
    ensures
        s@ == v@,
{
    let mut s = String::new();
    for i in 0..v.len()
        invariant
            s@ == v@.take(i as int),
    {
        push_char(&mut s, v[i]);
        assert(v@.take(i as int).push(v@[i as int]) =~= v@.take(i + 1 as int));
    }
    assert(v@.take(v@.len() as int) =~= v@);
    s
}

/// A copy of `s[start..end]`.
pub fn copy_range(s: &[char], start: usize, end: usize) -> (r: Vec<char>)
    requires
        start <= end <= s@.len(),
    ensures
        r@ == s@.subrange(start as int, end as int),
{
    vstd::slice::slice_to_vec(slice_subrange(s, start, end))
}

/// A copy of a literal's characters.
pub fn lit(s: &str) -> (v: Vec<char>)
    ensures
        v@ == s@,
{
    chars_of(s)
}

/// Concatenation of two character sequences.
pub fn concat(a: &[char], b: &[char]) -> (r: Vec<char>)
    ensures
        r@ == a@ + b@,
{
    let mut r = vstd::slice::slice_to_vec(a);
    let mut i: usize = 0;
    while i < b.len()
        invariant
            i <= b@.len(),
            r@ == a@ + b@.take(i as int),
        decreases b@.len() - i,
    {
        r.push(b[i]);
        assert(b@.take(i as int).push(b@[i as int]) =~= b@.take(i + 1 as int));
        assert((a@ + b@.take(i as int)).push(b@[i as int]) =~= a@ + b@.take(i + 1 as int));
        i += 1;
    }
    assert(b@.take(b@.len() as int) =~= b@);
    r
}

/// Appends `b` to `a`.
pub fn append_chars(a: &mut Vec<char>, b: &[char])
    ensures
        final(a)@ == old(a)@ + b@,
{
    let mut i: usize = 0;
    while i < b.len()
        invariant
            i <= b@.len(),
            a@ == old(a)@ + b@.take(i as int),
        decreases b@.len() - i,
    {
        a.push(b[i]);
        assert(b@.take(i as int).push(b@[i as int]) =~= b@.take(i + 1 as int));
        assert((old(a)@ + b@.take(i as int)).push(b@[i as int]) =~= old(a)@ + b@.take(
            i + 1 as int,
        ));
        i += 1;
    }
    assert(b@.take(b@.len() as int) =~= b@);
}

/// Whether two character sequences are equal.
pub fn chars_eq(a: &[char], b: &[char]) -> (r: bool)
    ensures
        r == (a@ == b@),
{
    if a.len() != b.len() {
        return false;
    }
    let mut i: usize = 0;
    while i < a.len()
        invariant
            i <= a@.len(),
            a@.len() == b@.len(),
            forall|j: int| 0 <= j < i ==> a@[j] == b@[j],
        decreases a@.len() - i,
    {
        if a[i] != b[i] {
            return false;
        }
        i += 1;
    }
    assert(a@ =~= b@);
    true
}

/// `p` occurs in `s` at index `i`.
pub open spec fn occurs_at(s: Seq<char>, p: Seq<char>, i: int) -> bool {
    0 <= i && i + p.len() <= s.len() && s.subrange(i, i + p.len()) == p
}

/// The first index at or after `from` at which `p` occurs in `s`.
pub open spec fn find_from(s: Seq<char>, p: Seq<char>, from: int) -> Option<int>
    decreases s.len() + 1 - from,
{
    if from < 0 || from + p.len() > s.len() {
        None
    } else if occurs_at(s, p, from) {
        Some(from)
    } else {
        find_from(s, p, from + 1)
    }
}

/// The first index at which `p` occurs in `s` (what `str::find` returns, in characters).
pub open spec fn spec_find(s: Seq<char>, p: Seq<char>) -> Option<int> {
    find_from(s, p, 0)
}

/// `s` contains `p`.
pub open spec fn spec_contains(s: Seq<char>, p: Seq<char>) -> bool {
    spec_find(s, p) is Some
}

/// `s` starts with `p`.
pub open spec fn spec_starts_with(s: Seq<char>, p: Seq<char>) -> bool {
    p.len() <= s.len() && s.take(p.len() as int) == p
}

/// `s` ends with `p`.
pub open spec fn spec_ends_with(s: Seq<char>, p: Seq<char>) -> bool {
    p.len() <= s.len() && s.skip(s.len() - p.len()) == p
}

/// Splits `s` around the first occurrence of `sep` (what `str::split_once` returns).
pub open spec fn spec_split_once(s: Seq<char>, sep: Seq<char>) -> Option<(Seq<char>, Seq<char>)> {
    match spec_find(s, sep) {
        Some(i) => Some((s.take(i), s.skip(i + sep.len()))),
        None => None,
    }
}

proof fn lemma_find_from_bounds(s: Seq<char>, p: Seq<char>, from: int)
    requires
        0 <= from,
    ensures
        find_from(s, p, from) matches Some(i) ==> from <= i && occurs_at(s, p, i) && forall|
            j: int,
        |
            from <= j < i ==> !occurs_at(s, p, j),
        find_from(s, p, from) is None ==> forall|j: int| from <= j ==> !occurs_at(s, p, j),
    decreases s.len() + 1 - from,
{
    if from < 0 || from + p.len() > s.len() {
        if from >= 0 {
            assert forall|j: int| from <= j implies !occurs_at(s, p, j) by {}
        }
    } else if occurs_at(s, p, from) {
    } else {
        lemma_find_from_bounds(s, p, from + 1);
    }
}

/// What `spec_find` means, stated without recursion.
pub proof fn lemma_find(s: Seq<char>, p: Seq<char>)
    ensures
        spec_find(s, p) matches Some(i) ==> occurs_at(s, p, i) && forall|j: int|
            0 <= j < i ==> !occurs_at(s, p, j),
        spec_find(s, p) is None ==> forall|j: int| 0 <= j ==> !occurs_at(s, p, j),
{
    lemma_find_from_bounds(s, p, 0);
}

/// Whether `p` occurs in `s` at `i`.
pub fn matches_at(s: &[char], p: &[char], i: usize) -> (r: bool)
    ensures
        r == occurs_at(s@, p@, i as int),
{
    if i > s.len() || p.len() > s.len() - i {
        return false;
    }
    let mut k: usize = 0;
    while k < p.len()
        invariant
            i + p@.len() <= s@.len(),
            k <= p@.len(),
            forall|j: int| 0 <= j < k ==> s@[i + j] == p@[j],
        decreases p@.len() - k,
    {
        let n = s.len();
        assert(i + k < n);
        if s[i + k] != p[k] {
            assert(s@.subrange(i as int, i + p@.len())[k as int] != p@[k as int]);
            return false;
        }
        k += 1;
    }
    assert(s@.subrange(i as int, i + p@.len()) =~= p@);
    true
}

/// The first index at or after `from` at which `p` occurs in `s`.
pub fn find_chars_from(s: &[char], p: &[char], from: usize) -> (r: Option<usize>)
    ensures
        r matches Some(i) ==> find_from(s@, p@, from as int) == Some(i as int),
        r is None ==> find_from(s@, p@, from as int) is None,
{
    let mut i = from;
    if i > s.len() || p.len() > s.len() - i {
        return None;
    }
    let last = s.len() - p.len();
    while i <= last
        invariant
            from <= i,
            last == s@.len() - p@.len(),
            find_from(s@, p@, from as int) == find_from(s@, p@, i as int),
        decreases last + 1 - i,
    {
        if matches_at(s, p, i) {
            return Some(i);
        }
        if i == last {
            assert(find_from(s@, p@, i + 1) is None);
            return None;
        }
        i += 1;
    }
    None
}

/// The first index at which `p` occurs in `s` (`str::find`).
pub fn find_chars(s: &[char], p: &[char]) -> (r: Option<usize>)
    ensures
        r matches Some(i) ==> spec_find(s@, p@) == Some(i as int),
        r is None ==> spec_find(s@, p@) is None,
{
    find_chars_from(s, p, 0)
}

/// The first index of `c` in `s`.
pub fn find_char(s: &[char], c: char) -> (r: Option<usize>)
    ensures
        r matches Some(i) ==> i < s@.len() && s@[i as int] == c && forall|j: int|
            0 <= j < i ==> s@[j] != c,
        r is None ==> forall|j: int| 0 <= j < s@.len() ==> s@[j] != c,
{
    let mut i: usize = 0;
    while i < s.len()
        invariant
            i <= s@.len(),
            forall|j: int| 0 <= j < i ==> s@[j] != c,
        decreases s@.len() - i,
    {
        if s[i] == c {
            return Some(i);
        }
        i += 1;
    }
    None
}

/// Whether `p` occurs in `s` (`str::contains`).
pub fn contains_chars(s: &[char], p: &[char]) -> (r: bool)
    ensures
        r == spec_contains(s@, p@),
{
    find_chars(s, p).is_some()
}

/// Whether `s` starts with `p`.
pub fn starts_with(s: &[char], p: &[char]) -> (r: bool)
    ensures
        r == spec_starts_with(s@, p@),
{
    let r = matches_at(s, p, 0);
    proof {
        if p@.len() <= s@.len() {
            assert(s@.subrange(0, p@.len() as int) =~= s@.take(p@.len() as int));
        }
    }
    r
}

/// Whether `s` ends with `p`.
pub fn ends_with(s: &[char], p: &[char]) -> (r: bool)
    ensures
        r == spec_ends_with(s@, p@),
{
    if p.len() > s.len() {
        return false;
    }
    let r = matches_at(s, p, s.len() - p.len());
    assert(s@.subrange(s@.len() - p@.len(), s@.len() as int) =~= s@.skip(s@.len() - p@.len()));
    r
}

/// Splits `s` around the first occurrence of `sep` (`str::split_once`).
pub fn split_once(s: &[char], sep: &[char]) -> (r: Option<(Vec<char>, Vec<char>)>)
    ensures
        r matches Some((a, b)) ==> spec_split_once(s@, sep@) == Some((a@, b@)),
        r is None ==> spec_split_once(s@, sep@) is None,
{
    match find_chars(s, sep) {
        Some(i) => {
            proof {
                lemma_find(s@, sep@);
            }
            assert(occurs_at(s@, sep@, i as int));
            let n = s.len();
            assert(i + sep.len() <= n);
            let a = copy_range(s, 0, i);
            let b = copy_range(s, i + sep.len(), s.len());
            assert(a@ =~= s@.take(i as int));
            assert(b@ =~= s@.skip(i + sep@.len()));
            Some((a, b))
        },
        None => None,
    }
}

/// ASCII upper-case of one character.
pub open spec fn upper(c: char) -> char {
    if 'a' <= c && c <= 'z' {
        ((c as u32) - 32) as char
    } else {
        c
    }
}

/// ASCII lower-case of one character.
pub open spec fn lower(c: char) -> char {
    if 'A' <= c && c <= 'Z' {
        ((c as u32) + 32) as char
    } else {
        c
    }
}

/// `str::to_ascii_uppercase`.
pub open spec fn spec_upper(s: Seq<char>) -> Seq<char> {
    s.map_values(|c: char| upper(c))
}

/// `str::to_ascii_lowercase`.
pub open spec fn spec_lower(s: Seq<char>) -> Seq<char> {
    s.map_values(|c: char| lower(c))
}

/// ASCII upper-case of one character.
pub fn upper_char(c: char) -> (r: char)
    ensures
        r == upper(c),
{
    if 'a' <= c && c <= 'z' {
        let u = (c as u32) - 32;
        assert(0x41 <= u <= 0x5a);
        char_from(u)
    } else {
        c
    }
}

/// ASCII lower-case of one character.
pub fn lower_char(c: char) -> (r: char)
    ensures
        r == lower(c),
{
    if 'A' <= c && c <= 'Z' {
        let u = (c as u32) + 32;
        char_from(u)
    } else {
        c
    }
}

/// The character with an ASCII code point.
fn char_from(u: u32) -> (c: char)
    requires
        u < 128,
    ensures
        c == u as char,
{
    let b: u8 = u as u8;
    let c = b as char;
    c
}

/// `str::to_ascii_uppercase`.
pub fn to_upper(s: &[char]) -> (r: Vec<char>)
    ensures
        r@ == spec_upper(s@),
{
    let mut r: Vec<char> = Vec::new();
    for i in 0..s.len()
        invariant
            r@ == spec_upper(s@.take(i as int)),
    {
        r.push(upper_char(s[i]));
        assert(spec_upper(s@.take(i as int)).push(upper(s@[i as int])) =~= spec_upper(
            s@.take(i + 1 as int),
        ));
    }
    assert(s@.take(s@.len() as int) =~= s@);
    r
}

/// `str::to_ascii_lowercase`.
pub fn to_lower(s: &[char]) -> (r: Vec<char>)
    ensures
        r@ == spec_lower(s@),
{
    let mut r: Vec<char> = Vec::new();
    for i in 0..s.len()
        invariant
            r@ == spec_lower(s@.take(i as int)),
    {
        r.push(lower_char(s[i]));
        assert(spec_lower(s@.take(i as int)).push(lower(s@[i as int])) =~= spec_lower(
            s@.take(i + 1 as int),
        ));
    }
    assert(s@.take(s@.len() as int) =~= s@);
    r
}

/// `str::eq_ignore_ascii_case`.
pub fn eq_ignore_case(a: &[char], b: &[char]) -> (r: bool)
    ensures
        r == (spec_lower(a@) == spec_lower(b@)),
{
    let la = to_lower(a);
    let lb = to_lower(b);
    chars_eq(&la, &lb)
}

/// `char::is_ascii_digit`.
pub open spec fn is_digit(c: char) -> bool {
    '0' <= c && c <= '9'
}

/// `char::is_ascii_hexdigit`.
pub open spec fn is_hex(c: char) -> bool {
    is_digit(c) || ('a' <= c && c <= 'f') || ('A' <= c && c <= 'F')
}

/// `char::is_whitespace` (the Unicode `White_Space` property).
pub open spec fn is_space(c: char) -> bool {
    ||| ('\t' <= c && c <= '\r')
    ||| c == ' '
    ||| c == '\u{85}'
    ||| c == '\u{a0}'
    ||| c == '\u{1680}'
    ||| ('\u{2000}' <= c && c <= '\u{200a}')
    ||| c == '\u{2028}'
    ||| c == '\u{2029}'
    ||| c == '\u{202f}'
    ||| c == '\u{205f}'
    ||| c == '\u{3000}'
}

/// `char::is_whitespace`.
pub fn is_space_char(c: char) -> (r: bool)
    ensures
        r == is_space(c),
{
    ('\t' <= c && c <= '\r') || c == ' ' || c == '\u{85}' || c == '\u{a0}' || c == '\u{1680}' || (
    '\u{2000}' <= c && c <= '\u{200a}') || c == '\u{2028}' || c == '\u{2029}' || c == '\u{202f}'
        || c == '\u{205f}' || c == '\u{3000}'
}

/// Every character of `s` is white space, so `s.trim()` is empty.
pub open spec fn spec_blank(s: Seq<char>) -> bool {
    forall|i: int| 0 <= i < s.len() ==> is_space(#[trigger] s[i])
}

/// `s.trim().is_empty()`.
pub fn is_blank(s: &[char]) -> (r: bool)
    ensures
        r == spec_blank(s@),
{
    let mut i: usize = 0;
    while i < s.len()
        invariant
            i <= s@.len(),
            forall|j: int| 0 <= j < i ==> is_space(#[trigger] s@[j]),
        decreases s@.len() - i,
    {
        if !is_space_char(s[i]) {
            return false;
        }
        i += 1;
    }
    true
}

/// The number of leading white-space characters.
pub open spec fn lead_space(s: Seq<char>) -> int
    decreases s.len(),
{
    if s.len() > 0 && is_space(s[0]) {
        1 + lead_space(s.drop_first())
    } else {
        0
    }
}

/// The number of trailing white-space characters.
pub open spec fn trail_space(s: Seq<char>) -> int
    decreases s.len(),
{
    if s.len() > 0 && is_space(s.last()) {
        1 + trail_space(s.drop_last())
    } else {
        0
    }
}

/// `str::trim_end`.
pub open spec fn spec_trim_end(s: Seq<char>) -> Seq<char> {
    s.take(s.len() - trail_space(s))
}

/// `str::trim`.
pub open spec fn spec_trim(s: Seq<char>) -> Seq<char> {
    let e = spec_trim_end(s);
    e.skip(lead_space(e))
}

proof fn lemma_lead_space(s: Seq<char>, i: int)
    requires
        0 <= i <= s.len(),
        forall|j: int| 0 <= j < i ==> is_space(#[trigger] s[j]),
    ensures
        lead_space(s) == i + lead_space(s.skip(i)),
        0 <= lead_space(s) <= s.len(),
    decreases i,
{
    lemma_lead_bounds(s);
    if i > 0 {
        lemma_lead_space(s.drop_first(), i - 1);
        assert(s.drop_first().skip(i - 1) =~= s.skip(i));
    } else {
        assert(s.skip(0) =~= s);
    }
}

proof fn lemma_lead_bounds(s: Seq<char>)
    ensures
        0 <= lead_space(s) <= s.len(),
        lead_space(s) < s.len() ==> !is_space(s[lead_space(s)]),
        forall|j: int| 0 <= j < lead_space(s) ==> is_space(#[trigger] s[j]),
    decreases s.len(),
{
    if s.len() > 0 && is_space(s[0]) {
        lemma_lead_bounds(s.drop_first());
        assert forall|j: int| 0 <= j < lead_space(s) implies is_space(#[trigger] s[j]) by {
            if j > 0 {
                assert(s[j] == s.drop_first()[j - 1]);
            }
        }
    }
}

proof fn lemma_trail_bounds(s: Seq<char>)
    ensures
        0 <= trail_space(s) <= s.len(),
        trail_space(s) < s.len() ==> !is_space(s[s.len() - 1 - trail_space(s)]),
        forall|j: int| s.len() - trail_space(s) <= j < s.len() ==> is_space(#[trigger] s[j]),
    decreases s.len(),
{
    if s.len() > 0 && is_space(s.last()) {
        lemma_trail_bounds(s.drop_last());
        assert forall|j: int| s.len() - trail_space(s) <= j < s.len() implies is_space(
            #[trigger] s[j],
        ) by {
            if j < s.len() - 1 {
                assert(s[j] == s.drop_last()[j]);
            }
        }
    }
}

proof fn lemma_trail_space(s: Seq<char>, k: int)
    requires
        0 <= k <= s.len(),
        forall|j: int| s.len() - k <= j < s.len() ==> is_space(#[trigger] s[j]),
        k < s.len() ==> !is_space(s[s.len() - 1 - k]),
    ensures
        trail_space(s) == k,
    decreases k,
{
    if k > 0 {
        assert(is_space(s[s.len() - 1]));
        let d = s.drop_last();
        assert forall|j: int| d.len() - (k - 1) <= j < d.len() implies is_space(#[trigger] d[j]) by {
            assert(d[j] == s[j]);
        }
        if k - 1 < d.len() {
            assert(d[d.len() - 1 - (k - 1)] == s[s.len() - 1 - k]);
        }
        lemma_trail_space(d, k - 1);
    }
}

proof fn lemma_lead_exact(s: Seq<char>, k: int)
    requires
        0 <= k <= s.len(),
        forall|j: int| 0 <= j < k ==> is_space(#[trigger] s[j]),
        k < s.len() ==> !is_space(s[k]),
    ensures
        lead_space(s) == k,
    decreases k,
{
    if k > 0 {
        let d = s.drop_first();
        assert forall|j: int| 0 <= j < k - 1 implies is_space(#[trigger] d[j]) by {
            assert(d[j] == s[j + 1]);
        }
        if k - 1 < d.len() {
            assert(d[k - 1] == s[k]);
        }
        lemma_lead_exact(d, k - 1);
    }
}

/// `str::trim_end`.
pub fn trim_end(s: &[char]) -> (r: Vec<char>)
    ensures
        r@ == spec_trim_end(s@),
{
    let mut e = s.len();
    while e > 0 && is_space_char(s[e - 1])
        invariant
            e <= s@.len(),
            forall|j: int| e <= j < s@.len() ==> is_space(#[trigger] s@[j]),
        decreases e,
    {
        e -= 1;
    }
    proof {
        lemma_trail_space(s@, s@.len() - e);
    }
    copy_range(s, 0, e)
}

/// `str::trim`.
pub fn trim(s: &[char]) -> (r: Vec<char>)
    ensures
        r@ == spec_trim(s@),
{
    let e = trim_end(s);
    let mut b: usize = 0;
    while b < e.len() && is_space_char(e[b])
        invariant
            b <= e@.len(),
            forall|j: int| 0 <= j < b ==> is_space(#[trigger] e@[j]),
        decreases e@.len() - b,
    {
        b += 1;
    }
    proof {
        lemma_lead_exact(e@, b as int);
    }
    copy_range(&e, b, e.len())
}

/// The line that ends a `str::lines` item: drops one `'\r'` before the line feed.
pub open spec fn strip_cr(s: Seq<char>) -> Seq<char> {
    if s.len() > 0 && s.last() == '\r' {
        s.drop_last()
    } else {
        s
    }
}

/// The first index of a line feed in `s`.
pub open spec fn newline_at(s: Seq<char>) -> Option<int> {
    spec_find(s, seq!['\n'])
}

/// `str::lines`: split at `'\n'`, drop a `'\r'` that precedes a `'\n'`, and no empty
/// line after a final line feed.
pub open spec fn spec_lines(s: Seq<char>) -> Seq<Seq<char>>
    decreases s.len(),
{
    if s.len() == 0 {
        seq![]
    } else {
        match newline_at(s) {
            Some(i) => if 0 <= i < s.len() {
                seq![strip_cr(s.take(i))] + spec_lines(s.skip(i + 1))
            } else {
                seq![]
            },
            None => seq![s],
        }
    }
}

/// The views of a sequence of character vectors.
pub open spec fn views(v: Seq<Vec<char>>) -> Seq<Seq<char>> {
    v.map_values(|x: Vec<char>| x@)
}

/// `str::lines`.
pub fn lines(s: &[char]) -> (r: Vec<Vec<char>>)
    ensures
        views(r@) == spec_lines(s@),
{
    let mut out: Vec<Vec<char>> = Vec::new();
    let mut pos: usize = 0;
    let nl = ['\n'];
    assert(nl@ =~= seq!['\n']);
    assert(s@.skip(0) =~= s@);
    while pos < s.len()
        invariant
            pos <= s@.len(),
            nl@ == seq!['\n'],
            spec_lines(s@) == views(out@) + spec_lines(s@.skip(pos as int)),
        decreases s@.len() - pos,
    {
        let rest = slice_subrange(s, pos, s.len());
        assert(rest@ == s@.skip(pos as int));
        match find_char(rest, '\n') {
            Some(i) => {
                proof {
                    lemma_find(rest@, seq!['\n']);
                    assert(occurs_at(rest@, seq!['\n'], i as int)) by {
                        assert(rest@.subrange(i as int, i + 1) =~= seq!['\n']);
                    }
                    assert forall|j: int| 0 <= j < i implies !occurs_at(rest@, seq!['\n'], j) by {
                        if occurs_at(rest@, seq!['\n'], j) {
                            assert(rest@.subrange(j, j + 1)[0] == rest@[j]);
                        }
                    }
                    assert(newline_at(rest@) == Some(i as int)) by {
                        match spec_find(rest@, seq!['\n']) {
                            Some(k) => {
                                if k < i {
                                } else if k > i {
                                }
                            },
                            None => {
                            },
                        }
                    }
                }
                let mut line = copy_range(rest, 0, i);
                if i > 0 && rest[i - 1] == '\r' {
                    line.pop();
                }
                assert(line@ == strip_cr(rest@.take(i as int)));
                let ghost old_out = out@;
                out.push(line);
                assert(views(out@) =~= views(old_out).push(line@));
                assert(rest@.skip(i + 1) =~= s@.skip(pos + i + 1));
                assert(spec_lines(rest@) == seq![strip_cr(rest@.take(i as int))] + spec_lines(
                    rest@.skip(i + 1),
                ));
                assert(views(out@) + spec_lines(s@.skip(pos + i + 1)) =~= views(old_out) + (
                seq![line@] + spec_lines(s@.skip(pos + i + 1))));
                pos = pos + i + 1;
            },
            None => {
                proof {
                    lemma_find(rest@, seq!['\n']);
                    if newline_at(rest@) is Some {
                        let k = newline_at(rest@)->0;
                        assert(rest@.subrange(k, k + 1)[0] == rest@[k]);
                    }
                }
                let line = copy_range(rest, 0, rest.len());
                let ghost old_out = out@;
                out.push(line);
                assert(line@ =~= rest@);
                assert(views(out@) =~= views(old_out).push(line@));
                assert(s@.skip(s@.len() as int) =~= Seq::<char>::empty());
                assert(views(out@) + spec_lines(s@.skip(s@.len() as int)) =~= views(old_out) + seq![
                    line@,
                ]);
                pos = s.len();
            },
        }
    }
    assert(s@.skip(pos as int) =~= Seq::<char>::empty());
    assert(views(out@) + spec_lines(Seq::<char>::empty()) =~= views(out@));
    out
}

} // verus!

verus! {

/// `str::split` at a character: the pieces between occurrences of `sep`; always at least
/// one piece.
pub open spec fn spec_split(s: Seq<char>, sep: char) -> Seq<Seq<char>>
    decreases s.len(),
{
    match spec_find(s, seq![sep]) {
        Some(i) => if 0 <= i < s.len() {
            seq![s.take(i)] + spec_split(s.skip(i + 1), sep)
        } else {
            seq![s]
        },
        None => seq![s],
    }
}

/// The first index of `c` in `s`, as `spec_find` describes it.
proof fn lemma_find_char(s: Seq<char>, c: char, r: Option<usize>)
    requires
        r matches Some(i) ==> i < s.len() && s[i as int] == c && forall|j: int|
            0 <= j < i ==> s[j] != c,
        r is None ==> forall|j: int| 0 <= j < s.len() ==> s[j] != c,
    ensures
        r matches Some(i) ==> spec_find(s, seq![c]) == Some(i as int),
        r is None ==> spec_find(s, seq![c]) is None,
{
    lemma_find(s, seq![c]);
    match r {
        Some(i) => {
            assert(s.subrange(i as int, i + 1) =~= seq![c]);
            match spec_find(s, seq![c]) {
                Some(k) => {
                    assert(s.subrange(k, k + 1)[0] == s[k]);
                    if k > i {
                        assert(occurs_at(s, seq![c], i as int));
                    }
                },
                None => {
                    assert(occurs_at(s, seq![c], i as int));
                },
            }
        },
        None => {
            if spec_find(s, seq![c]) is Some {
                let k = spec_find(s, seq![c])->0;
                assert(s.subrange(k, k + 1)[0] == s[k]);
            }
        },
    }
}

/// The first index of `c` in `s` (`str::find` with a character).
pub fn find_char_spec(s: &[char], c: char) -> (r: Option<usize>)
    ensures
        r matches Some(i) ==> spec_find(s@, seq![c]) == Some(i as int) && i < s@.len(),
        r is None ==> spec_find(s@, seq![c]) is None,
{
    let r = find_char(s, c);
    proof {
        lemma_find_char(s@, c, r);
    }
    r
}

/// `str::split` at a character.
pub fn split_char(s: &[char], sep: char) -> (r: Vec<Vec<char>>)
    ensures
        views(r@) == spec_split(s@, sep),
        r@.len() >= 1,
{
    let mut out: Vec<Vec<char>> = Vec::new();
    let mut pos: usize = 0;
    assert(s@.skip(0) =~= s@);
    loop
        invariant
            pos <= s@.len(),
            spec_split(s@, sep) == views(out@) + spec_split(s@.skip(pos as int), sep),
        decreases s@.len() - pos,
    {
        let rest = slice_subrange(s, pos, s.len());
        assert(rest@ == s@.skip(pos as int));
        match find_char_spec(rest, sep) {
            Some(i) => {
                let piece = copy_range(rest, 0, i);
                let ghost old_out = out@;
                out.push(piece);
                assert(views(out@) =~= views(old_out).push(piece@));
                assert(rest@.skip(i + 1) =~= s@.skip(pos + i + 1));
                assert(views(out@) + spec_split(s@.skip(pos + i + 1), sep) =~= views(old_out) + (
                seq![piece@] + spec_split(s@.skip(pos + i + 1), sep)));
                pos = pos + i + 1;
            },
            None => {
                let piece = copy_range(rest, 0, rest.len());
                let ghost old_out = out@;
                out.push(piece);
                assert(piece@ =~= rest@);
                assert(views(out@) =~= views(old_out).push(piece@));
                assert(views(out@) =~= views(old_out) + seq![piece@]);
                return out;
            },
        }
    }
}

/// `str::split` at a non-empty string: the pieces between the occurrences of `sep` found
/// from left to right; always at least one piece.
pub open spec fn spec_split_str(s: Seq<char>, sep: Seq<char>) -> Seq<Seq<char>>
    decreases s.len(),
{
    if sep.len() == 0 {
        seq![s]
    } else {
        match spec_find(s, sep) {
            Some(i) => if 0 <= i && i + sep.len() <= s.len() {
                seq![s.take(i)] + spec_split_str(s.skip(i + sep.len()), sep)
            } else {
                seq![s]
            },
            None => seq![s],
        }
    }
}

/// `str::split` at a non-empty string.
pub fn split_str(s: &[char], sep: &[char]) -> (r: Vec<Vec<char>>)
    requires
        sep@.len() > 0,
    ensures
        views(r@) == spec_split_str(s@, sep@),
        r@.len() >= 1,
{
    let mut out: Vec<Vec<char>> = Vec::new();
    let mut pos: usize = 0;
    assert(s@.skip(0) =~= s@);
    loop
        invariant
            pos <= s@.len(),
            sep@.len() > 0,
            spec_split_str(s@, sep@) == views(out@) + spec_split_str(s@.skip(pos as int), sep@),
        decreases s@.len() - pos,
    {
        let rest = slice_subrange(s, pos, s.len());
        assert(rest@ == s@.skip(pos as int));
        match find_chars(rest, sep) {
            Some(i) => {
                proof {
                    lemma_find(rest@, sep@);
                }
                let piece = copy_range(rest, 0, i);
                let ghost old_out = out@;
                out.push(piece);
                assert(views(out@) =~= views(old_out).push(piece@));
                let next = pos + i + sep.len();
                assert(rest@.skip(i + sep@.len()) =~= s@.skip(next as int));
                assert(views(out@) + spec_split_str(s@.skip(next as int), sep@) =~= views(old_out)
                    + (seq![piece@] + spec_split_str(s@.skip(next as int), sep@)));
                pos = next;
            },
            None => {
                let piece = copy_range(rest, 0, rest.len());
                let ghost old_out = out@;
                out.push(piece);
                assert(piece@ =~= rest@);
                assert(views(out@) =~= views(old_out).push(piece@));
                assert(views(out@) =~= views(old_out) + seq![piece@]);
                return out;
            },
        }
    }
}

/// `str::strip_prefix`.
pub fn strip_prefix(s: &[char], p: &str) -> (r: Option<Vec<char>>)
    ensures
        r matches Some(v) ==> spec_starts_with(s@, p@) && v@ == s@.skip(p@.len() as int),
        r is None ==> !spec_starts_with(s@, p@),
{
    let pc = lit(p);
    if starts_with(s, &pc) {
        Some(copy_range(s, pc.len(), s.len()))
    } else {
        None
    }
}

} // verus!
