//! Character sequences: the text primitives that the SQL recogniser, the
//! statement rewriter and the message builders are made of.
//!
//! Every executable function here works on `&[char]` (or builds a `String`)
//! and is specified over `Seq<char>`. Two foldings of case stand side by
//! side. `upper` folds ASCII letters only, so it never changes the length of
//! a text, and an index found in the folded text is an index into the text
//! itself; whatever is cut out of a text goes by it. `uppercase` is the
//! upper-casing of the standard library, by which a statement is judged as
//! a whole.

use vstd::prelude::*;
use vstd::slice::slice_subrange;

verus! {

/// `String::push` of the standard library: appends one character to the end
/// of the string and changes nothing else.
pub assume_specification[ String::push ](s: &mut String, c: char)
    ensures
        final(s)@ == old(s)@.push(c),
;

// ---------------------------------------------------------------------------
// Characters
// ---------------------------------------------------------------------------
/// The Unicode `White_Space` code points.
pub open spec fn is_whitespace(c: char) -> bool {
    let n = c as u32;
    (0x09 <= n && n <= 0x0D) || n == 0x20 || n == 0x85 || n == 0xA0 || n == 0x1680 || (0x2000 <= n
        && n <= 0x200A) || n == 0x2028 || n == 0x2029 || n == 0x202F || n == 0x205F || n == 0x3000
}

pub fn char_is_whitespace(c: char) -> (b: bool)
    ensures
        b == is_whitespace(c),
{
    let n: u32 = c as u32;
    (0x09 <= n && n <= 0x0D) || n == 0x20 || n == 0x85 || n == 0xA0 || n == 0x1680 || (0x2000 <= n
        && n <= 0x200A) || n == 0x2028 || n == 0x2029 || n == 0x202F || n == 0x205F || n == 0x3000
}

/// `c` with an ASCII lower-case letter replaced by its upper-case form.
pub open spec fn ascii_upper(c: char) -> char {
    if 'a' <= c && c <= 'z' {
        ((c as u8 - 32) as u8) as char
    } else {
        c
    }
}

pub fn char_ascii_upper(c: char) -> (u: char)
    ensures
        u == ascii_upper(c),
{
    if 'a' <= c && c <= 'z' {
        let b: u8 = c as u8;
        (b - 32) as char
    } else {
        c
    }
}

/// Whether `c` has the Unicode `Alphabetic` property, as `char::is_alphabetic` reports it.
pub uninterp spec fn is_alphabetic(c: char) -> bool;

/// Whether `c` is alphabetic or numeric in Unicode's sense, as
/// `char::is_alphanumeric` reports it.
pub uninterp spec fn is_alphanumeric(c: char) -> bool;

/// `c` is one of the 128 ASCII characters.
pub open spec fn is_ascii(c: char) -> bool {
    (c as u32) < 128
}

/// `c` is an ASCII letter.
pub open spec fn is_ascii_letter(c: char) -> bool {
    ('a' <= c && c <= 'z') || ('A' <= c && c <= 'Z')
}

/// `c` is an ASCII letter or an ASCII digit.
pub open spec fn is_ascii_letter_or_digit(c: char) -> bool {
    is_ascii_letter(c) || ('0' <= c && c <= '9')
}

/// `char::is_alphabetic` of the standard library. Its answer depends on the
/// character alone; the Unicode tables behind it are not restated here,
/// except for the ASCII characters, of which exactly the letters are
/// alphabetic.
#[verifier::external_body]
pub(crate) fn char_is_alphabetic(c: char) -> (b: bool)
    ensures
        b == is_alphabetic(c),
        is_ascii(c) ==> b == is_ascii_letter(c),
{
    c.is_alphabetic()
}

/// `char::is_alphanumeric` of the standard library. Its answer depends on the
/// character alone; the Unicode tables behind it are not restated here,
/// except for the ASCII characters, of which exactly the letters and the
/// digits are alphanumeric.
#[verifier::external_body]
pub(crate) fn char_is_alphanumeric(c: char) -> (b: bool)
    ensures
        b == is_alphanumeric(c),
        is_ascii(c) ==> b == is_ascii_letter_or_digit(c),
{
    c.is_alphanumeric()
}

/// `c` is a letter: an ASCII letter, or a character beyond ASCII that is
/// alphabetic in Unicode's sense.
pub open spec fn is_letter(c: char) -> bool {
    if is_ascii(c) {
        is_ascii_letter(c)
    } else {
        is_alphabetic(c)
    }
}

/// `c` is a letter or a digit: an ASCII letter or digit, or a character
/// beyond ASCII that is alphabetic or numeric in Unicode's sense.
pub open spec fn is_letter_or_digit(c: char) -> bool {
    if is_ascii(c) {
        is_ascii_letter_or_digit(c)
    } else {
        is_alphanumeric(c)
    }
}

pub fn char_is_letter(c: char) -> (b: bool)
    ensures
        b == is_letter(c),
{
    char_is_alphabetic(c)
}

pub fn char_is_letter_or_digit(c: char) -> (b: bool)
    ensures
        b == is_letter_or_digit(c),
{
    char_is_alphanumeric(c)
}

/// The text with every ASCII letter in upper case.
pub open spec fn upper(s: Seq<char>) -> Seq<char> {
    Seq::new(s.len(), |i: int| ascii_upper(s[i]))
}

pub fn to_upper(s: &[char]) -> (r: Vec<char>)
    ensures
        r@ == upper(s@),
{
    let mut r: Vec<char> = Vec::new();
    let mut i: usize = 0;
    while i < s.len()
        invariant
            i <= s@.len(),
            r@ == upper(s@).take(i as int),
        decreases s@.len() - i,
    {
        r.push(char_ascii_upper(s[i]));
        assert(r@ =~= upper(s@).take(i + 1));
        i += 1;
    }
    assert(r@ =~= upper(s@));
    r
}

/// The text in upper case as `str::to_uppercase` gives it: by the case
/// mappings of Unicode, under which a character may become several.
pub uninterp spec fn to_uppercase(s: Seq<char>) -> Seq<char>;

/// Every character of the text is an ASCII character.
pub open spec fn is_ascii_text(s: Seq<char>) -> bool {
    forall|i: int| 0 <= i < s.len() ==> is_ascii(#[trigger] s[i])
}

/// `str::to_uppercase` of the standard library. Its result depends on the
/// text alone; the Unicode tables behind it are not restated here, except
/// that a text of ASCII characters has its letters put in upper case and
/// nothing else changed.
#[verifier::external_body]
pub(crate) fn str_to_uppercase(s: &str) -> (r: String)
    ensures
        r@ == to_uppercase(s@),
        is_ascii_text(s@) ==> r@ == upper(s@),
{
    s.to_uppercase()
}

/// The text in upper case: for a text of ASCII characters, its letters put
/// in upper case; for any other text, what the case mappings of Unicode give.
pub open spec fn uppercase(s: Seq<char>) -> Seq<char> {
    if is_ascii_text(s) {
        upper(s)
    } else {
        to_uppercase(s)
    }
}

pub fn uppercased(s: &[char]) -> (r: Vec<char>)
    ensures
        r@ == uppercase(s@),
{
    let text = string_of(s);
    let up = str_to_uppercase(text.as_str());
    chars_of(up.as_str())
}

/// Equality of two texts up to the case of ASCII letters.
pub open spec fn eq_ignore_case(a: Seq<char>, b: Seq<char>) -> bool {
    upper(a) == upper(b)
}

pub fn same_ignore_case(a: &[char], b: &[char]) -> (r: bool)
    ensures
        r == eq_ignore_case(a@, b@),
{
    if a.len() != b.len() {
        assert(upper(a@).len() != upper(b@).len());
        return false;
    }
    let mut i: usize = 0;
    while i < a.len()
        invariant
            a@.len() == b@.len(),
            i <= a@.len(),
            forall|k: int| 0 <= k < i ==> ascii_upper(a@[k]) == ascii_upper(b@[k]),
        decreases a@.len() - i,
    {
        if char_ascii_upper(a[i]) != char_ascii_upper(b[i]) {
            assert(upper(a@)[i as int] != upper(b@)[i as int]);
            return false;
        }
        i += 1;
    }
    assert(upper(a@) =~= upper(b@));
    true
}

pub fn same_text(a: &[char], b: &[char]) -> (r: bool)
    ensures
        r == (a@ == b@),
{
    if a.len() != b.len() {
        return false;
    }
    let mut i: usize = 0;
    while i < a.len()
        invariant
            a@.len() == b@.len(),
            i <= a@.len(),
            forall|k: int| 0 <= k < i ==> a@[k] == b@[k],
        decreases a@.len() - i,
    {
        if a[i] != b[i] {
            return false;
        }
        i += 1;
    }
    assert(a@ =~= b@);
    true
}

// ---------------------------------------------------------------------------
// Searching
// ---------------------------------------------------------------------------
/// `pat` stands in `s` at index `i`.
pub open spec fn occurs_at(s: Seq<char>, pat: Seq<char>, i: int) -> bool {
    0 <= i && i + pat.len() <= s.len() && s.subrange(i, i + pat.len()) == pat
}

/// `s` begins with `pat`.
pub open spec fn starts_with(s: Seq<char>, pat: Seq<char>) -> bool {
    occurs_at(s, pat, 0)
}

/// The first index at or after `i` at which `pat` stands in `s`.
pub open spec fn find_from(s: Seq<char>, pat: Seq<char>, i: int) -> Option<int>
    decreases s.len() - i,
{
    if i < 0 || i + pat.len() > s.len() {
        None
    } else if occurs_at(s, pat, i) {
        Some(i)
    } else if i >= s.len() {
        None
    } else {
        find_from(s, pat, i + 1)
    }
}

/// The first index at which `pat` stands in `s`.
pub open spec fn find(s: Seq<char>, pat: Seq<char>) -> Option<int> {
    find_from(s, pat, 0)
}

/// `pat` stands somewhere in `s`.
pub open spec fn contains(s: Seq<char>, pat: Seq<char>) -> bool {
    find(s, pat) is Some
}

/// What `find_from` returns is the least index, from `i` on, at which `pat` stands.
pub proof fn lemma_find_from(s: Seq<char>, pat: Seq<char>, i: int)
    requires
        0 <= i,
    ensures
        match find_from(s, pat, i) {
            Some(j) => i <= j && occurs_at(s, pat, j) && forall|k: int|
                i <= k < j ==> !occurs_at(s, pat, k),
            None => forall|k: int| i <= k ==> !occurs_at(s, pat, k),
        },
    decreases s.len() - i,
{
    if i + pat.len() > s.len() {
    } else if occurs_at(s, pat, i) {
    } else if i >= s.len() {
        assert(s.subrange(i, i + pat.len()) =~= pat);
    } else {
        lemma_find_from(s, pat, i + 1);
    }
}

/// A text contains a pattern exactly when the pattern stands at some index.
pub proof fn lemma_contains(s: Seq<char>, pat: Seq<char>)
    ensures
        contains(s, pat) <==> exists|k: int| occurs_at(s, pat, k),
{
    lemma_find_from(s, pat, 0);
    if contains(s, pat) {
        assert(occurs_at(s, pat, find(s, pat)->0));
    }
}

pub fn matches_at(s: &[char], pat: &[char], i: usize) -> (r: bool)
    ensures
        r == occurs_at(s@, pat@, i as int),
{
    if pat.len() > s.len() || i > s.len() - pat.len() {
        return false;
    }
    let mut k: usize = 0;
    while k < pat.len()
        invariant
            i + pat@.len() <= s@.len() <= usize::MAX,
            k <= pat@.len(),
            forall|j: int| 0 <= j < k ==> s@[i + j] == pat@[j],
        decreases pat@.len() - k,
    {
        if s[i + k] != pat[k] {
            assert(s@.subrange(i as int, i + pat@.len())[k as int] != pat@[k as int]);
            return false;
        }
        k += 1;
    }
    assert(s@.subrange(i as int, i + pat@.len()) =~= pat@);
    true
}

pub fn begins_with(s: &[char], pat: &[char]) -> (r: bool)
    ensures
        r == starts_with(s@, pat@),
{
    matches_at(s, pat, 0)
}

pub fn find_in(s: &[char], pat: &[char]) -> (r: Option<usize>)
    ensures
        match r {
            Some(i) => find(s@, pat@) == Some(i as int),
            None => find(s@, pat@) is None,
        },
{
    if pat.len() > s.len() {
        return None;
    }
    let last: usize = s.len() - pat.len();
    let mut i: usize = 0;
    loop
        invariant
            last + pat@.len() == s@.len(),
            i <= last,
            find_from(s@, pat@, i as int) == find(s@, pat@),
        decreases last - i,
    {
        if matches_at(s, pat, i) {
            return Some(i);
        }
        if i == last {
            assert(find_from(s@, pat@, i + 1) is None);
            return None;
        }
        i += 1;
    }
}

pub fn has(s: &[char], pat: &[char]) -> (r: bool)
    ensures
        r == contains(s@, pat@),
{
    find_in(s, pat).is_some()
}

/// How often `pat` stands in `s`, counted from the left without overlap.
pub open spec fn count_from(s: Seq<char>, pat: Seq<char>, i: int) -> nat
    decreases s.len() - i,
{
    if pat.len() == 0 || i < 0 || i + pat.len() > s.len() {
        0
    } else if occurs_at(s, pat, i) {
        1 + count_from(s, pat, i + pat.len())
    } else {
        count_from(s, pat, i + 1)
    }
}

pub open spec fn count(s: Seq<char>, pat: Seq<char>) -> nat {
    count_from(s, pat, 0)
}

pub fn count_in(s: &[char], pat: &[char]) -> (r: usize)
    ensures
        r == count(s@, pat@),
{
    if pat.len() == 0 || pat.len() > s.len() {
        return 0;
    }
    let last: usize = s.len() - pat.len();
    let mut i: usize = 0;
    let mut n: usize = 0;
    while i <= last
        invariant
            pat@.len() > 0,
            last + pat@.len() == s@.len() <= usize::MAX,
            i <= s@.len(),
            n + count_from(s@, pat@, i as int) == count(s@, pat@),
            n <= i,
        decreases s@.len() - i,
    {
        if matches_at(s, pat, i) {
            n += 1;
            i += pat.len();
        } else {
            i += 1;
        }
    }
    n
}

/// The first index at or after `i` whose character is one of `delims`.
pub open spec fn find_any_from(s: Seq<char>, delims: Seq<char>, i: int) -> Option<int>
    decreases s.len() - i,
{
    if i < 0 || i >= s.len() {
        None
    } else if delims.contains(s[i]) {
        Some(i)
    } else {
        find_any_from(s, delims, i + 1)
    }
}

/// The first index whose character is one of `delims`.
pub open spec fn find_any(s: Seq<char>, delims: Seq<char>) -> Option<int> {
    find_any_from(s, delims, 0)
}

pub fn is_one_of(c: char, delims: &[char]) -> (r: bool)
    ensures
        r == delims@.contains(c),
{
    let mut k: usize = 0;
    while k < delims.len()
        invariant
            k <= delims@.len(),
            forall|j: int| 0 <= j < k ==> delims@[j] != c,
        decreases delims@.len() - k,
    {
        if delims[k] == c {
            return true;
        }
        k += 1;
    }
    false
}

pub fn find_any_in(s: &[char], delims: &[char]) -> (r: Option<usize>)
    ensures
        match r {
            Some(i) => find_any(s@, delims@) == Some(i as int) && i < s@.len(),
            None => find_any(s@, delims@) is None,
        },
{
    let mut i: usize = 0;
    while i < s.len()
        invariant
            i <= s@.len(),
            find_any_from(s@, delims@, i as int) == find_any(s@, delims@),
        decreases s@.len() - i,
    {
        if is_one_of(s[i], delims) {
            return Some(i);
        }
        i += 1;
    }
    None
}

// ---------------------------------------------------------------------------
// Trimming
// ---------------------------------------------------------------------------
/// The first index at or after `i` that holds no character of `set`.
pub open spec fn skip_set(s: Seq<char>, set: spec_fn(char) -> bool, i: int) -> int
    decreases s.len() - i,
{
    if 0 <= i < s.len() && set(s[i]) {
        skip_set(s, set, i + 1)
    } else {
        i
    }
}

/// The end of the text before `j` once trailing characters of `set` are dropped.
pub open spec fn back_set(s: Seq<char>, set: spec_fn(char) -> bool, j: int) -> int
    decreases j,
{
    if 0 < j <= s.len() && set(s[j - 1]) {
        back_set(s, set, j - 1)
    } else {
        j
    }
}

/// The text without the characters of `set` at its start.
pub open spec fn strip_start(s: Seq<char>, set: spec_fn(char) -> bool) -> Seq<char> {
    s.skip(skip_set(s, set, 0))
}

/// The text without the characters of `set` at its end.
pub open spec fn strip_end(s: Seq<char>, set: spec_fn(char) -> bool) -> Seq<char> {
    s.take(back_set(s, set, s.len() as int))
}

/// The text without the characters of `set` at either end.
pub open spec fn strip(s: Seq<char>, set: spec_fn(char) -> bool) -> Seq<char> {
    strip_end(strip_start(s, set), set)
}

pub open spec fn whitespace() -> spec_fn(char) -> bool {
    |c: char| is_whitespace(c)
}

/// The quote characters that may surround a value: `'`, `"` and the backtick.
pub open spec fn is_quote(c: char) -> bool {
    c == '\'' || c == '"' || c == '`'
}

pub open spec fn quotes() -> spec_fn(char) -> bool {
    |c: char| is_quote(c)
}

pub open spec fn trim_start(s: Seq<char>) -> Seq<char> {
    strip_start(s, whitespace())
}

pub open spec fn trim_end(s: Seq<char>) -> Seq<char> {
    strip_end(s, whitespace())
}

/// The text without white space at either end.
pub open spec fn trim(s: Seq<char>) -> Seq<char> {
    strip(s, whitespace())
}

/// The text without quote characters at either end.
pub open spec fn unquote(s: Seq<char>) -> Seq<char> {
    strip(s, quotes())
}

pub fn char_is_quote(c: char) -> (b: bool)
    ensures
        b == is_quote(c),
{
    c == '\'' || c == '"' || c == '`'
}

pub fn trimmed_start<'a>(s: &'a [char]) -> (r: &'a [char])
    ensures
        r@ == trim_start(s@),
{
    let mut i: usize = 0;
    while i < s.len() && char_is_whitespace(s[i])
        invariant
            i <= s@.len(),
            skip_set(s@, whitespace(), i as int) == skip_set(s@, whitespace(), 0),
        decreases s@.len() - i,
    {
        i += 1;
    }
    slice_subrange(s, i, s.len())
}

pub fn trimmed_end<'a>(s: &'a [char]) -> (r: &'a [char])
    ensures
        r@ == trim_end(s@),
{
    let mut j: usize = s.len();
    while j > 0 && char_is_whitespace(s[j - 1])
        invariant
            j <= s@.len(),
            back_set(s@, whitespace(), j as int) == back_set(s@, whitespace(), s@.len() as int),
        decreases j,
    {
        j -= 1;
    }
    slice_subrange(s, 0, j)
}

pub fn trimmed<'a>(s: &'a [char]) -> (r: &'a [char])
    ensures
        r@ == trim(s@),
{
    trimmed_end(trimmed_start(s))
}

pub fn unquoted<'a>(s: &'a [char]) -> (r: &'a [char])
    ensures
        r@ == unquote(s@),
{
    let mut i: usize = 0;
    while i < s.len() && char_is_quote(s[i])
        invariant
            i <= s@.len(),
            skip_set(s@, quotes(), i as int) == skip_set(s@, quotes(), 0),
        decreases s@.len() - i,
    {
        i += 1;
    }
    let t = slice_subrange(s, i, s.len());
    let mut j: usize = t.len();
    while j > 0 && char_is_quote(t[j - 1])
        invariant
            j <= t@.len(),
            back_set(t@, quotes(), j as int) == back_set(t@, quotes(), t@.len() as int),
        decreases j,
    {
        j -= 1;
    }
    slice_subrange(t, 0, j)
}

// ---------------------------------------------------------------------------
// Comma-separated lists
// ---------------------------------------------------------------------------
/// The length of the part of `s` before its first comma (all of `s` if it has none).
pub open spec fn first_item_len(s: Seq<char>) -> int {
    match find_any(s, seq![',']) {
        Some(i) => i,
        None => s.len() as int,
    }
}

/// The items of a comma-separated list, each without surrounding white space;
/// empty items are left out.
pub open spec fn list_items(s: Seq<char>) -> Seq<Seq<char>>
    decreases s.len(),
{
    let n = first_item_len(s);
    if 0 <= n <= s.len() {
        let head = trim(s.take(n));
        let tail = if n < s.len() {
            list_items(s.skip(n + 1))
        } else {
            Seq::<Seq<char>>::empty()
        };
        if head.len() == 0 {
            tail
        } else {
            seq![head] + tail
        }
    } else {
        Seq::<Seq<char>>::empty()
    }
}

/// The texts that a vector of strings holds.
pub open spec fn views(v: Seq<String>) -> Seq<Seq<char>> {
    Seq::new(v.len(), |i: int| v[i]@)
}

pub fn split_list(s: &[char]) -> (out: Vec<String>)
    ensures
        views(out@) == list_items(s@),
{
    let mut out: Vec<String> = Vec::new();
    let mut rest: &[char] = s;
    let comma: Vec<char> = vec![','];
    loop
        invariant_except_break
            comma@ == seq![','],
            list_items(s@) == views(out@) + list_items(rest@),
        ensures
            views(out@) == list_items(s@),
        decreases rest@.len(),
    {
        let found = find_any_in(rest, comma.as_slice());
        let n: usize = match found {
            Some(i) => i,
            None => rest.len(),
        };
        let item = trimmed(slice_subrange(rest, 0, n));
        let ghost before = views(out@);
        if item.len() > 0 {
            out.push(string_of(item));
            assert(views(out@) =~= before + seq![item@]);
        }
        if n < rest.len() {
            let ghost old_rest = rest@;
            rest = slice_subrange(rest, n + 1, rest.len());
            assert(rest@ == old_rest.skip(n + 1));
            assert(list_items(s@) =~= views(out@) + list_items(rest@));
        } else {
            assert(list_items(s@) =~= views(out@));
            break ;
        }
    }
    out
}

// ---------------------------------------------------------------------------
// Strings
// ---------------------------------------------------------------------------
/// The characters of `s`, in order.
pub fn chars_of(s: &str) -> (v: Vec<char>)
    ensures
        v@ == s@,
{
    let mut v: Vec<char> = Vec::new();
    for c in it: s.chars()
        invariant
            v@ == it.seq().take(it.index() as int),
            it.seq() == s@,
    {
        v.push(c);
    }
    v
}

/// Whether two strings hold the same text.
pub fn same_str(a: &str, b: &str) -> (r: bool)
    ensures
        r == (a@ == b@),
{
    let x = chars_of(a);
    let y = chars_of(b);
    same_text(x.as_slice(), y.as_slice())
}

/// Appends the characters of `v` to `s`.
pub fn push_chars(s: &mut String, v: &[char])
    ensures
        final(s)@ == old(s)@ + v@,
{
    let mut i: usize = 0;
    while i < v.len()
        invariant
            i <= v@.len(),
            s@ == old(s)@ + v@.take(i as int),
        decreases v@.len() - i,
    {
        s.push(v[i]);
        assert(s@ =~= old(s)@ + v@.take(i + 1));
        i += 1;
    }
    assert(v@.take(v@.len() as int) =~= v@);
}

/// The string made of the characters of `v`.
pub fn string_of(v: &[char]) -> (s: String)
    ensures
        s@ == v@,
{
    let mut s = String::new();
    push_chars(&mut s, v);
    assert(s@ =~= v@);
    s
}

// ---------------------------------------------------------------------------
// Numbers
// ---------------------------------------------------------------------------
/// The character of the decimal digit `d`.
pub open spec fn digit_char(d: int) -> char {
    ((48 + d) as u8) as char
}

/// The decimal notation of `n`, without sign or leading zeros.
pub open spec fn decimal(n: nat) -> Seq<char>
    decreases n,
{
    if n < 10 {
        seq![digit_char(n as int)]
    } else {
        decimal(n / 10).push(digit_char((n % 10) as int))
    }
}

/// Appends the decimal notation of `n` to `s`.
pub fn push_decimal(s: &mut String, n: u64)
    ensures
        final(s)@ == old(s)@ + decimal(n as nat),
    decreases n,
{
    if n < 10 {
        let d: u8 = n as u8;
        s.push((48u8 + d) as char);
        assert(s@ =~= old(s)@ + decimal(n as nat));
    } else {
        push_decimal(s, n / 10);
        let d: u8 = (n % 10) as u8;
        s.push((48u8 + d) as char);
        assert(s@ =~= old(s)@ + decimal(n as nat));
    }
}

/// `c` is one of the ten ASCII digits.
pub open spec fn is_digit(c: char) -> bool {
    '0' <= c && c <= '9'
}

/// The number that a text of decimal digits denotes.
pub open spec fn digits_value(s: Seq<char>) -> nat
    decreases s.len(),
{
    if s.len() == 0 {
        0
    } else {
        digits_value(s.drop_last()) * 10 + (s.last() as u8 - 48) as nat
    }
}

/// The text is made of decimal digits only.
pub open spec fn all_digits(s: Seq<char>) -> bool {
    forall|i: int| 0 <= i < s.len() ==> is_digit(#[trigger] s[i])
}

/// The magnitude of the signed 64-bit integer that `s` denotes: an optional
/// `+` or `-`, then at least one decimal digit, within the range of `i64`.
pub open spec fn parse_i64_magnitude(s: Seq<char>) -> Option<nat> {
    let negative = s.len() > 0 && s[0] == '-';
    let signed = s.len() > 0 && (s[0] == '-' || s[0] == '+');
    let digits = if signed {
        s.skip(1)
    } else {
        s
    };
    let limit: nat = if negative {
        0x8000_0000_0000_0000
    } else {
        0x7fff_ffff_ffff_ffff
    };
    if digits.len() > 0 && all_digits(digits) && digits_value(digits) <= limit {
        Some(digits_value(digits))
    } else {
        None
    }
}

/// A longer text of digits never denotes a smaller number than its start.
pub proof fn lemma_digits_value_grows(s: Seq<char>, i: int)
    requires
        0 <= i <= s.len(),
    ensures
        digits_value(s.take(i)) <= digits_value(s),
    decreases s.len() - i,
{
    if i < s.len() {
        lemma_digits_value_grows(s, i + 1);
        assert(s.take(i + 1).drop_last() =~= s.take(i));
    } else {
        assert(s.take(i) =~= s);
    }
}

pub fn parse_magnitude(s: &[char]) -> (r: Option<u64>)
    ensures
        match r {
            Some(n) => parse_i64_magnitude(s@) == Some(n as nat),
            None => parse_i64_magnitude(s@) is None,
        },
{
    if s.len() == 0 {
        return None;
    }
    let negative = s[0] == '-';
    let signed = negative || s[0] == '+';
    let digits = if signed {
        slice_subrange(s, 1, s.len())
    } else {
        s
    };
    let limit: u64 = if negative {
        0x8000_0000_0000_0000
    } else {
        0x7fff_ffff_ffff_ffff
    };
    if digits.len() == 0 {
        return None;
    }
    let mut acc: u64 = 0;
    let mut i: usize = 0;
    while i < digits.len()
        invariant
            i <= digits@.len(),
            acc == digits_value(digits@.take(i as int)),
            acc <= limit,
            0x7fff_ffff_ffff_ffff <= limit <= 0x8000_0000_0000_0000,
            digits@.len() > 0,
            parse_i64_magnitude(s@) == if all_digits(digits@) && digits_value(digits@) <= limit {
                Some(digits_value(digits@))
            } else {
                None
            },
            forall|k: int| 0 <= k < i ==> is_digit(#[trigger] digits@[k]),
        decreases digits@.len() - i,
    {
        let c = digits[i];
        if !('0' <= c && c <= '9') {
            assert(!is_digit(digits@[i as int]));
            return None;
        }
        let d: u64 = (c as u8 - 48) as u64;
        proof {
            assert(digits@.take(i + 1).drop_last() =~= digits@.take(i as int));
            lemma_digits_value_grows(digits@, i + 1);
        }
        if acc > (limit - d) / 10 {
            return None;
        }
        acc = acc * 10 + d;
        i += 1;
    }
    assert(digits@.take(digits@.len() as int) =~= digits@);
    Some(acc)
}

/// The last index at or before `i` at which `pat` stands in `s`.
pub open spec fn rfind_from(s: Seq<char>, pat: Seq<char>, i: int) -> Option<int>
    decreases i + 1,
{
    if i < 0 {
        None
    } else if occurs_at(s, pat, i) {
        Some(i)
    } else {
        rfind_from(s, pat, i - 1)
    }
}

/// The last index at which `pat` stands in `s`.
pub open spec fn rfind(s: Seq<char>, pat: Seq<char>) -> Option<int> {
    rfind_from(s, pat, s.len() - pat.len())
}

pub fn rfind_in(s: &[char], pat: &[char]) -> (r: Option<usize>)
    ensures
        match r {
            Some(i) => rfind(s@, pat@) == Some(i as int) && i + pat@.len() <= s@.len(),
            None => rfind(s@, pat@) is None,
        },
{
    if pat.len() > s.len() {
        return None;
    }
    let mut i: usize = s.len() - pat.len();
    loop
        invariant
            i + pat@.len() <= s@.len(),
            rfind_from(s@, pat@, i as int) == rfind(s@, pat@),
        decreases i,
    {
        if matches_at(s, pat, i) {
            return Some(i);
        }
        if i == 0 {
            assert(rfind_from(s@, pat@, -1) is None);
            return None;
        }
        i -= 1;
    }
}

/// Every character of the text is a decimal digit.
pub fn only_digits(s: &[char]) -> (b: bool)
    ensures
        b == all_digits(s@),
{
    let mut i: usize = 0;
    while i < s.len()
        invariant
            i <= s@.len(),
            forall|k: int| 0 <= k < i ==> is_digit(#[trigger] s@[k]),
        decreases s@.len() - i,
    {
        if !('0' <= s[i] && s[i] <= '9') {
            assert(!is_digit(s@[i as int]));
            return false;
        }
        i += 1;
    }
    true
}

/// The text from index `i` on, with every occurrence of `pat` replaced by
/// `with`; occurrences are taken from the left and do not overlap. An empty
/// pattern occurs nowhere.
pub open spec fn replaced_from(s: Seq<char>, pat: Seq<char>, with: Seq<char>, i: int) -> Seq<char>
    decreases s.len() - i,
{
    if i < 0 || i >= s.len() {
        Seq::<char>::empty()
    } else if pat.len() > 0 && occurs_at(s, pat, i) {
        with + replaced_from(s, pat, with, i + pat.len())
    } else {
        seq![s[i]] + replaced_from(s, pat, with, i + 1)
    }
}

/// The text with every occurrence of `pat` replaced by `with`.
pub open spec fn replaced(s: Seq<char>, pat: Seq<char>, with: Seq<char>) -> Seq<char> {
    replaced_from(s, pat, with, 0)
}

/// Replaces every occurrence of `pat` in `s` by `with`.
pub fn replace_all(s: &[char], pat: &[char], with: &[char]) -> (r: Vec<char>)
    ensures
        r@ == replaced(s@, pat@, with@),
{
    let mut r: Vec<char> = Vec::new();
    let mut i: usize = 0;
    while i < s.len()
        invariant
            i <= s@.len(),
            r@ + replaced_from(s@, pat@, with@, i as int) == replaced(s@, pat@, with@),
        decreases s@.len() - i,
    {
        let ghost had = r@;
        if pat.len() > 0 && matches_at(s, pat, i) {
            r.extend_from_slice(with);
            assert(r@ =~= had + with@);
            assert(r@ + replaced_from(s@, pat@, with@, i + pat@.len()) =~= had + (with@
                + replaced_from(s@, pat@, with@, i + pat@.len())));
            i += pat.len();
        } else {
            r.push(s[i]);
            assert(r@ + replaced_from(s@, pat@, with@, i + 1) =~= had + (seq![s@[i as int]]
                + replaced_from(s@, pat@, with@, i + 1)));
            i += 1;
        }
    }
    assert(r@ + Seq::<char>::empty() =~= r@);
    r
}

/// The text made of the two characters `a` and `b`.
pub fn pair(a: char, b: char) -> (v: Vec<char>)
    ensures
        v@ == seq![a, b],
{
    let mut v: Vec<char> = Vec::new();
    v.push(a);
    v.push(b);
    assert(v@ =~= seq![a, b]);
    v
}

/// The text made of the one character `c`.
pub fn single(c: char) -> (v: Vec<char>)
    ensures
        v@ == seq![c],
{
    let mut v: Vec<char> = Vec::new();
    v.push(c);
    assert(v@ =~= seq![c]);
    v
}

/// The decimal notation of an integer, with a minus sign where it is negative.
pub open spec fn signed_decimal(n: i64) -> Seq<char> {
    if n < 0 {
        seq!['-'] + decimal((-n) as nat)
    } else {
        decimal(n as nat)
    }
}

/// Appends the decimal notation of a signed number to `s`.
pub fn push_signed(s: &mut String, n: i64)
    ensures
        final(s)@ == old(s)@ + signed_decimal(n),
{
    if n < 0 {
        s.push('-');
        let m: u64 = if n == i64::MIN {
            0x8000_0000_0000_0000
        } else {
            (-n) as u64
        };
        push_decimal(s, m);
        assert(s@ =~= old(s)@ + signed_decimal(n));
    } else {
        push_decimal(s, n as u64);
    }
}

/// A decimal notation has a digit, and two from ten on.
pub proof fn lemma_decimal_len(n: nat)
    ensures
        decimal(n).len() >= 1,
        n < 10 ==> decimal(n).len() == 1,
        n >= 10 ==> decimal(n).len() >= 2,
    decreases n,
{
    if n >= 10 {
        lemma_decimal_len(n / 10);
    }
}

/// Different numbers have different decimal notations.
pub proof fn lemma_decimal_differs(a: nat, b: nat)
    requires
        a != b,
    ensures
        decimal(a) != decimal(b),
    decreases a,
{
    lemma_decimal_len(a);
    lemma_decimal_len(b);
    if a >= 10 {
        if b >= 10 {
            if a / 10 != b / 10 {
                lemma_decimal_differs(a / 10, b / 10);
                if decimal(a) == decimal(b) {
                    assert(decimal(a).drop_last() =~= decimal(a / 10));
                    assert(decimal(b).drop_last() =~= decimal(b / 10));
                }
            } else {
                assert(a % 10 != b % 10);
                assert(decimal(a).last() == digit_char((a % 10) as int));
                assert(decimal(b).last() == digit_char((b % 10) as int));
                assert(digit_char((a % 10) as int) as u32 == 48 + a % 10);
                assert(digit_char((b % 10) as int) as u32 == 48 + b % 10);
            }
        } else {
            assert(decimal(a).len() >= 2);
            assert(decimal(b).len() == 1);
        }
    } else {
        if b >= 10 {
            assert(decimal(b).len() >= 2);
            assert(decimal(a).len() == 1);
        } else {
            assert(decimal(a)[0] == digit_char(a as int));
            assert(decimal(b)[0] == digit_char(b as int));
            assert(digit_char(a as int) as u32 == 48 + a);
            assert(digit_char(b as int) as u32 == 48 + b);
        }
    }
}

/// What `find_any_from` returns is the least index, from `i` on, that holds a delimiter.
pub proof fn lemma_find_any_from(s: Seq<char>, delims: Seq<char>, i: int)
    requires
        0 <= i,
    ensures
        match find_any_from(s, delims, i) {
            Some(j) => i <= j < s.len() && delims.contains(s[j]) && forall|k: int|
                i <= k < j ==> !delims.contains(#[trigger] s[k]),
            None => forall|k: int| i <= k < s.len() ==> !delims.contains(#[trigger] s[k]),
        },
    decreases s.len() - i,
{
    if i >= s.len() {
    } else if delims.contains(s[i]) {
    } else {
        lemma_find_any_from(s, delims, i + 1);
    }
}

/// Where `skip_set` stops: within the text, past characters of the set only,
/// and not on a character of the set.
pub proof fn lemma_skip_set(s: Seq<char>, set: spec_fn(char) -> bool, i: int)
    requires
        0 <= i <= s.len(),
    ensures
        i <= skip_set(s, set, i) <= s.len(),
        forall|k: int| i <= k < skip_set(s, set, i) ==> set(#[trigger] s[k]),
        skip_set(s, set, i) < s.len() ==> !set(s[skip_set(s, set, i)]),
    decreases s.len() - i,
{
    if i < s.len() && set(s[i]) {
        lemma_skip_set(s, set, i + 1);
    }
}

/// Where `back_set` stops: within the text, before characters of the set
/// only, and not after a character of the set.
pub proof fn lemma_back_set(s: Seq<char>, set: spec_fn(char) -> bool, j: int)
    requires
        0 <= j <= s.len(),
    ensures
        0 <= back_set(s, set, j) <= j,
        forall|k: int| back_set(s, set, j) <= k < j ==> set(#[trigger] s[k]),
        back_set(s, set, j) > 0 ==> !set(s[back_set(s, set, j) - 1]),
    decreases j,
{
    if 0 < j && set(s[j - 1]) {
        lemma_back_set(s, set, j - 1);
    }
}

/// A pattern that stands at `p` and nowhere before is found at `p`.
pub proof fn lemma_find_is(s: Seq<char>, pat: Seq<char>, p: int)
    requires
        occurs_at(s, pat, p),
        forall|k: int| 0 <= k < p ==> !occurs_at(s, pat, k),
    ensures
        find(s, pat) == Some(p),
{
    lemma_find_from(s, pat, 0);
}

/// The first word of a text ends at `m` if no character before `m` is a
/// delimiter and the text ends at `m` or has a delimiter there.
pub proof fn lemma_find_any_is(s: Seq<char>, delims: Seq<char>, m: int)
    requires
        0 <= m <= s.len(),
        forall|k: int| 0 <= k < m ==> !delims.contains(#[trigger] s[k]),
        m < s.len() ==> delims.contains(s[m]),
    ensures
        find_any(s, delims) == if m < s.len() {
            Some(m)
        } else {
            None
        },
{
    lemma_find_any_from(s, delims, 0);
}

/// What trimming leaves is a part of the text, and a character that is no
/// white space stays where it was, counted from the start of what is left.
pub proof fn lemma_trim_keeps(s: Seq<char>, i: int)
    requires
        0 <= i < s.len(),
        !is_whitespace(s[i]),
    ensures
        skip_set(s, whitespace(), 0) <= i,
        0 <= i - skip_set(s, whitespace(), 0) < trim(s).len(),
        trim(s)[i - skip_set(s, whitespace(), 0)] == s[i],
        forall|k: int|
            0 <= k < trim(s).len() ==> #[trigger] trim(s)[k] == s[k + skip_set(s, whitespace(), 0)],
        trim(s).len() + skip_set(s, whitespace(), 0) <= s.len(),
{
    let a = skip_set(s, whitespace(), 0);
    lemma_skip_set(s, whitespace(), 0);
    if a > i {
        assert(whitespace()(s[i]));
    }
    let t = trim_start(s);
    lemma_back_set(t, whitespace(), t.len() as int);
    let b = back_set(t, whitespace(), t.len() as int);
    if b <= i - a {
        assert(whitespace()(t[i - a]));
    }
}

/// What trimming leaves is a part of the text.
pub proof fn lemma_trim_part(s: Seq<char>)
    ensures
        trim(s).len() + skip_set(s, whitespace(), 0) <= s.len(),
        0 <= skip_set(s, whitespace(), 0),
        forall|k: int|
            0 <= k < trim(s).len() ==> #[trigger] trim(s)[k] == s[k + skip_set(s, whitespace(), 0)],
{
    lemma_skip_set(s, whitespace(), 0);
    let t = trim_start(s);
    lemma_back_set(t, whitespace(), t.len() as int);
}

/// A decimal notation is made of digits.
pub proof fn lemma_decimal_digits(n: nat)
    ensures
        all_digits(decimal(n)),
    decreases n,
{
    if n >= 10 {
        lemma_decimal_digits(n / 10);
        let d = decimal(n);
        assert forall|i: int| 0 <= i < d.len() implies is_digit(#[trigger] d[i]) by {
            if i < d.len() - 1 {
                assert(d[i] == decimal(n / 10)[i]);
            }
        }
    }
}

} // verus!
