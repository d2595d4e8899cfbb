//! Text primitives: searching, trimming, splitting and case folding of strings.
//!
//! A string is modelled by the sequence of its characters.
use vstd::prelude::*;
use vstd::string::*;
use vstd::utf8::*;

verus! {

// ---------------------------------------------------------------------------
// Characters
// ---------------------------------------------------------------------------

/// The characters with Unicode's `White_Space` property.
pub open spec fn white_space(c: char) -> bool {
    ||| '\u{9}' <= c <= '\u{d}'
    ||| c == ' '
    ||| c == '\u{85}'
    ||| c == '\u{a0}'
    ||| c == '\u{1680}'
    ||| '\u{2000}' <= c <= '\u{200a}'
    ||| c == '\u{2028}'
    ||| c == '\u{2029}'
    ||| c == '\u{202f}'
    ||| c == '\u{205f}'
    ||| c == '\u{3000}'
}

/// Whether a character is white space.
pub fn is_white_space(c: char) -> (res: bool)
    ensures
        res == white_space(c),
{
    ('\u{9}' <= c && c <= '\u{d}') || c == ' ' || c == '\u{85}' || c == '\u{a0}' || c == '\u{1680}'
        || ('\u{2000}' <= c && c <= '\u{200a}') || c == '\u{2028}' || c == '\u{2029}' || c
        == '\u{202f}' || c == '\u{205f}' || c == '\u{3000}'
}

/// The kinds of character that are cut from the ends of a text.
#[derive(Clone, Copy, PartialEq, Eq, Structural)]
pub enum CharClass {
    /// White space.
    Space,
    /// `<` and `>`.
    Angle,
    /// `.`, `,` and `;`.
    Stop,
    /// Everything but the ASCII digits.
    NonDigit,
    /// Line feed and carriage return.
    Break,
}

impl CharClass {
    /// The characters of the class.
    pub open spec fn has(self, c: char) -> bool {
        match self {
            CharClass::Space => white_space(c),
            CharClass::Angle => c == '<' || c == '>',
            CharClass::Stop => c == '.' || c == ',' || c == ';',
            CharClass::NonDigit => !('0' <= c <= '9'),
            CharClass::Break => c == '\n' || c == '\r',
        }
    }

    /// Whether a character belongs to the class.
    pub fn contains(self, c: char) -> (res: bool)
        ensures
            res == self.has(c),
    {
        match self {
            CharClass::Space => is_white_space(c),
            CharClass::Angle => c == '<' || c == '>',
            CharClass::Stop => c == '.' || c == ',' || c == ';',
            CharClass::NonDigit => !('0' <= c && c <= '9'),
            CharClass::Break => c == '\n' || c == '\r',
        }
    }
}

/// A character with `A` to `Z` replaced by `a` to `z`.
pub open spec fn ascii_lower_char(c: char) -> char {
    if 'A' <= c <= 'Z' {
        ((c as u32) + 32) as char
    } else {
        c
    }
}

/// A character with `a` to `z` replaced by `A` to `Z`.
pub open spec fn ascii_upper_char(c: char) -> char {
    if 'a' <= c <= 'z' {
        ((c as u32) - 32) as char
    } else {
        c
    }
}

/// A text with `A` to `Z` replaced by `a` to `z`.
pub open spec fn ascii_lower(s: Seq<char>) -> Seq<char> {
    s.map_values(|c: char| ascii_lower_char(c))
}

/// A text with `a` to `z` replaced by `A` to `Z`.
pub open spec fn ascii_upper(s: Seq<char>) -> Seq<char> {
    s.map_values(|c: char| ascii_upper_char(c))
}

fn lower_char(c: char) -> (res: char)
    ensures
        res == ascii_lower_char(c),
{
    if 'A' <= c && c <= 'Z' {
        ((c as u8) + 32) as char
    } else {
        c
    }
}

fn upper_char(c: char) -> (res: char)
    ensures
        res == ascii_upper_char(c),
{
    if 'a' <= c && c <= 'z' {
        ((c as u8) - 32) as char
    } else {
        c
    }
}

// ---------------------------------------------------------------------------
// Characters of a string
// ---------------------------------------------------------------------------

/// The characters of a string, in order.
pub fn chars_of(s: &str) -> (res: Vec<char>)
    ensures
        res@ == s@,
{
    let mut out: Vec<char> = Vec::new();
    for c in it: s.chars()
        invariant
            out@ == it.seq().take(it.index() as int),
            it.seq() == s@,
    {
        out.push(c);
    }
    out
}

/// The characters of a string, `A` to `Z` replaced by `a` to `z`.
pub fn ascii_lower_chars(s: &str) -> (res: Vec<char>)
    ensures
        res@ == ascii_lower(s@),
{
    let cs = chars_of(s);
    let mut out: Vec<char> = Vec::new();
    for i in 0..cs.len()
        invariant
            cs@ == s@,
            out@ == ascii_lower(s@.take(i as int)),
    {
        out.push(lower_char(cs[i]));
        assert(out@ == ascii_lower(s@.take(i + 1)));
    }
    assert(s@.take(cs@.len() as int) == s@);
    out
}

/// The characters of a string, `a` to `z` replaced by `A` to `Z`.
pub fn ascii_upper_chars(s: &str) -> (res: Vec<char>)
    ensures
        res@ == ascii_upper(s@),
{
    let cs = chars_of(s);
    let mut out: Vec<char> = Vec::new();
    for i in 0..cs.len()
        invariant
            cs@ == s@,
            out@ == ascii_upper(s@.take(i as int)),
    {
        out.push(upper_char(cs[i]));
        assert(out@ == ascii_upper(s@.take(i + 1)));
    }
    assert(s@.take(cs@.len() as int) == s@);
    out
}

/// Whether two sequences of characters are the same.
pub fn chars_eq(a: &Vec<char>, b: &Vec<char>) -> (res: bool)
    ensures
        res == (a@ == b@),
{
    if a.len() != b.len() {
        return false;
    }
    for i in 0..a.len()
        invariant
            a@.len() == b@.len(),
            forall|j: int| 0 <= j < i ==> a@[j] == b@[j],
    {
        if a[i] != b[i] {
            return false;
        }
    }
    assert(a@ =~= b@);
    true
}

/// Whether two strings are the same.
pub fn str_eq(a: &str, b: &str) -> (res: bool)
    ensures
        res == (a@ == b@),
{
    chars_eq(&chars_of(a), &chars_of(b))
}

/// Whether an optional string is present and the same as the given one.
pub fn opt_str_eq(a: Option<&str>, b: &str) -> (res: bool)
    ensures
        res == (a.deep_view() == Some(b@)),
{
    match a {
        Some(a) => str_eq(a, b),
        None => false,
    }
}

/// A string that holds a character sequence read off another string.
pub fn owned(s: &str) -> (res: String)
    ensures
        res@ == s@,
{
    s.to_owned()
}

/// The concatenation of two strings.
pub fn cat2(a: &str, b: &str) -> (res: String)
    ensures
        res@ == a@ + b@,
{
    let mut out = a.to_owned();
    out.append(b);
    out
}

/// The concatenation of three strings.
pub fn cat3(a: &str, b: &str, c: &str) -> (res: String)
    ensures
        res@ == a@ + b@ + c@,
{
    let mut out = cat2(a, b);
    out.append(c);
    out
}

/// The concatenation of four strings.
pub fn cat4(a: &str, b: &str, c: &str, d: &str) -> (res: String)
    ensures
        res@ == a@ + b@ + c@ + d@,
{
    let mut out = cat3(a, b, c);
    out.append(d);
    out
}

// ---------------------------------------------------------------------------
// Searching
// ---------------------------------------------------------------------------

/// Whether `p` stands in `s` at position `i`.
pub open spec fn occurs_at(s: Seq<char>, p: Seq<char>, i: int) -> bool {
    &&& 0 <= i
    &&& i + p.len() <= s.len()
    &&& forall|k: int| 0 <= k < p.len() ==> s[i + k] == #[trigger] p[k]
}

/// Whether `p` stands anywhere in `s`.
pub open spec fn contains(s: Seq<char>, p: Seq<char>) -> bool {
    exists|i: int| occurs_at(s, p, i)
}

/// The first position from `i` on at which `p` stands in `s`.
pub open spec fn find_from(s: Seq<char>, p: Seq<char>, i: int) -> Option<int>
    decreases s.len() - i,
{
    if i + p.len() > s.len() {
        None
    } else if occurs_at(s, p, i) {
        Some(i)
    } else {
        find_from(s, p, i + 1)
    }
}

/// The first position at which `p` stands in `s`.
pub open spec fn find(s: Seq<char>, p: Seq<char>) -> Option<int> {
    find_from(s, p, 0)
}

/// The last position up to `i` at which `p` stands in `s`.
pub open spec fn rfind_to(s: Seq<char>, p: Seq<char>, i: int) -> Option<int>
    decreases i + 1,
{
    if i < 0 {
        None
    } else if occurs_at(s, p, i) {
        Some(i)
    } else {
        rfind_to(s, p, i - 1)
    }
}

/// The last position at which `p` stands in `s`.
pub open spec fn rfind(s: Seq<char>, p: Seq<char>) -> Option<int> {
    rfind_to(s, p, s.len() - p.len())
}

/// `find_from` gives the least position at which the pattern stands.
pub proof fn lemma_find_from(s: Seq<char>, p: Seq<char>, i: int)
    ensures
        match find_from(s, p, i) {
            Some(k) => i <= k && occurs_at(s, p, k) && forall|j: int|
                i <= j < k ==> !occurs_at(s, p, j),
            None => forall|j: int| i <= j ==> !occurs_at(s, p, j),
        },
    decreases s.len() - i,
{
    if i + p.len() > s.len() {
    } else if occurs_at(s, p, i) {
    } else {
        lemma_find_from(s, p, i + 1);
        assert forall|j: int| i <= j && find_from(s, p, i) is None implies !occurs_at(s, p, j) by {
            if j > i {
                assert(i + 1 <= j);
            }
        }
    }
}

/// A text contains exactly the patterns that can be found in it.
pub proof fn lemma_contains_iff_found(s: Seq<char>, p: Seq<char>)
    ensures
        contains(s, p) <==> find(s, p) is Some,
{
    lemma_find_from(s, p, 0);
    if contains(s, p) {
        let i = choose|i: int| occurs_at(s, p, i);
        assert(0 <= i);
    }
}

/// `rfind_to` gives the greatest position at which the pattern stands.
pub proof fn lemma_rfind_to(s: Seq<char>, p: Seq<char>, i: int)
    ensures
        match rfind_to(s, p, i) {
            Some(k) => k <= i && occurs_at(s, p, k) && forall|j: int|
                k < j <= i ==> !occurs_at(s, p, j),
            None => forall|j: int| j <= i ==> !occurs_at(s, p, j),
        },
    decreases i + 1,
{
    if i < 0 {
    } else if occurs_at(s, p, i) {
    } else {
        lemma_rfind_to(s, p, i - 1);
        assert forall|j: int| j <= i && rfind_to(s, p, i) is None implies !occurs_at(s, p, j) by {
            if j < i {
                assert(j <= i - 1);
            }
        }
    }
}

fn occurs(cs: &Vec<char>, p: &Vec<char>, i: usize) -> (res: bool)
    requires
        i + p@.len() <= cs@.len(),
    ensures
        res == occurs_at(cs@, p@, i as int),
{
    let n: usize = cs.len();
    for k in 0..p.len()
        invariant
            n == cs@.len(),
            i + p@.len() <= n,
            forall|j: int| 0 <= j < k ==> cs@[i + j] == #[trigger] p@[j],
    {
        if cs[i + k] != p[k] {
            assert(cs@[i + k] != p@[k as int]);
            return false;
        }
    }
    true
}

/// The first position from `start` on at which `p` stands in `cs`.
pub fn find_chars_from(cs: &Vec<char>, p: &Vec<char>, start: usize) -> (res: Option<usize>)
    requires
        start <= cs@.len(),
    ensures
        match res {
            Some(i) => find_from(cs@, p@, start as int) == Some(i as int) && i + p@.len()
                <= cs@.len(),
            None => find_from(cs@, p@, start as int) is None,
        },
{
    let mut i: usize = start;
    while i <= cs.len() && p.len() <= cs.len() - i
        invariant
            start <= i,
            i <= cs@.len() + 1,
            find_from(cs@, p@, start as int) == find_from(cs@, p@, i as int),
        decreases cs@.len() + 1 - i,
    {
        if occurs(cs, p, i) {
            return Some(i);
        }
        if i == cs.len() {
            assert(occurs_at(cs@, p@, i as int));
        }
        i = i + 1;
    }
    None
}

/// The first position at which `p` stands in `cs`.
pub fn find_chars(cs: &Vec<char>, p: &Vec<char>) -> (res: Option<usize>)
    ensures
        match res {
            Some(i) => find(cs@, p@) == Some(i as int) && i + p@.len() <= cs@.len(),
            None => find(cs@, p@) is None,
        },
{
    find_chars_from(cs, p, 0)
}

/// The last position at which `p` stands in `cs`.
pub fn rfind_chars(cs: &Vec<char>, p: &Vec<char>) -> (res: Option<usize>)
    ensures
        match res {
            Some(i) => rfind(cs@, p@) == Some(i as int) && i + p@.len() <= cs@.len(),
            None => rfind(cs@, p@) is None,
        },
{
    if p.len() > cs.len() {
        return None;
    }
    let mut i: usize = cs.len() - p.len();
    loop
        invariant
            i + p@.len() <= cs@.len(),
            rfind(cs@, p@) == rfind_to(cs@, p@, i as int),
        decreases i,
    {
        if occurs(cs, p, i) {
            return Some(i);
        }
        if i == 0 {
            assert(rfind_to(cs@, p@, -1) is None);
            return None;
        }
        i = i - 1;
    }
}

/// Whether a character sequence contains a pattern.
pub fn chars_contain(cs: &Vec<char>, p: &str) -> (res: bool)
    ensures
        res == contains(cs@, p@),
{
    proof {
        lemma_contains_iff_found(cs@, p@);
    }
    find_chars(cs, &chars_of(p)).is_some()
}

/// Whether a string contains a pattern.
pub fn str_contains(s: &str, p: &str) -> (res: bool)
    ensures
        res == contains(s@, p@),
{
    chars_contain(&chars_of(s), p)
}

/// Whether a string begins with a prefix.
pub fn str_starts_with(s: &str, p: &str) -> (res: bool)
    ensures
        res == occurs_at(s@, p@, 0),
{
    let cs = chars_of(s);
    let ps = chars_of(p);
    if ps.len() > cs.len() {
        return false;
    }
    occurs(&cs, &ps, 0)
}

/// What follows a prefix, where the text begins with it.
pub open spec fn stripped_prefix(s: Seq<char>, p: Seq<char>) -> Option<Seq<char>> {
    if occurs_at(s, p, 0) {
        Some(s.skip(p.len() as int))
    } else {
        None
    }
}

/// What follows a prefix, where the string begins with it.
pub fn strip_prefix<'a>(s: &'a str, p: &str) -> (res: Option<&'a str>)
    ensures
        res.deep_view() == stripped_prefix(s@, p@),
{
    let cs = chars_of(s);
    let ps = chars_of(p);
    if ps.len() > cs.len() || !occurs(&cs, &ps, 0) {
        return None;
    }
    assert(s@.subrange(p@.len() as int, s@.len() as int) == s@.skip(p@.len() as int));
    Some(s.substring_char(ps.len(), cs.len()))
}

// ---------------------------------------------------------------------------
// Trimming
// ---------------------------------------------------------------------------

/// A text without the characters of a class at its start.
pub open spec fn trimmed_start_of(s: Seq<char>, k: CharClass) -> Seq<char>
    decreases s.len(),
{
    if s.len() > 0 && k.has(s[0]) {
        trimmed_start_of(s.skip(1), k)
    } else {
        s
    }
}

/// A text without the characters of a class at its end.
pub open spec fn trimmed_end_of(s: Seq<char>, k: CharClass) -> Seq<char>
    decreases s.len(),
{
    if s.len() > 0 && k.has(s.last()) {
        trimmed_end_of(s.drop_last(), k)
    } else {
        s
    }
}

/// A text without the characters of a class at either end.
pub open spec fn trimmed_of(s: Seq<char>, k: CharClass) -> Seq<char> {
    trimmed_end_of(trimmed_start_of(s, k), k)
}

/// A text without white space at its start.
pub open spec fn trimmed_start(s: Seq<char>) -> Seq<char> {
    trimmed_start_of(s, CharClass::Space)
}

/// A text without white space at its end.
pub open spec fn trimmed_end(s: Seq<char>) -> Seq<char> {
    trimmed_end_of(s, CharClass::Space)
}

/// A text without white space at either end.
pub open spec fn trimmed(s: Seq<char>) -> Seq<char> {
    trimmed_of(s, CharClass::Space)
}

/// Whether nothing is left of a text when it is trimmed.
pub open spec fn blank(s: Seq<char>) -> bool {
    trimmed(s).len() == 0
}

/// Cuts the characters of a class from the start of a string.
pub fn trim_start_of<'a>(s: &'a str, k: CharClass) -> (res: &'a str)
    ensures
        res@ == trimmed_start_of(s@, k),
{
    let cs = chars_of(s);
    let mut i: usize = 0;
    assert(s@.skip(0) == s@);
    while i < cs.len() && k.contains(cs[i])
        invariant
            i <= cs@.len(),
            cs@ == s@,
            trimmed_start_of(s@, k) == trimmed_start_of(s@.skip(i as int), k),
        decreases cs@.len() - i,
    {
        assert(s@.skip(i as int).skip(1) == s@.skip(i + 1));
        i = i + 1;
    }
    assert(s@.subrange(i as int, s@.len() as int) == s@.skip(i as int));
    s.substring_char(i, cs.len())
}

/// Cuts the characters of a class from the end of a string.
pub fn trim_end_of<'a>(s: &'a str, k: CharClass) -> (res: &'a str)
    ensures
        res@ == trimmed_end_of(s@, k),
{
    let cs = chars_of(s);
    let mut n: usize = cs.len();
    assert(s@.take(n as int) == s@);
    while n > 0 && k.contains(cs[n - 1])
        invariant
            n <= cs@.len(),
            cs@ == s@,
            trimmed_end_of(s@, k) == trimmed_end_of(s@.take(n as int), k),
        decreases n,
    {
        assert(s@.take(n as int).drop_last() == s@.take(n - 1));
        n = n - 1;
    }
    assert(s@.subrange(0, n as int) == s@.take(n as int));
    s.substring_char(0, n)
}

/// Cuts the characters of a class from both ends of a string.
pub fn trim_of<'a>(s: &'a str, k: CharClass) -> (res: &'a str)
    ensures
        res@ == trimmed_of(s@, k),
{
    trim_end_of(trim_start_of(s, k), k)
}

/// Cuts white space from the start of a string.
pub fn trim_start<'a>(s: &'a str) -> (res: &'a str)
    ensures
        res@ == trimmed_start(s@),
{
    trim_start_of(s, CharClass::Space)
}

/// Cuts white space from the end of a string.
pub fn trim_end<'a>(s: &'a str) -> (res: &'a str)
    ensures
        res@ == trimmed_end(s@),
{
    trim_end_of(s, CharClass::Space)
}

/// Cuts white space from both ends of a string.
pub fn trim<'a>(s: &'a str) -> (res: &'a str)
    ensures
        res@ == trimmed(s@),
{
    trim_of(s, CharClass::Space)
}

/// Whether nothing is left of a string when it is trimmed.
pub fn is_blank(s: &str) -> (res: bool)
    ensures
        res == blank(s@),
{
    trim(s).is_empty()
}

// ---------------------------------------------------------------------------
// Splitting
// ---------------------------------------------------------------------------

/// The first position from `i` on at which `c` stands in `s`, or the end of `s`.
pub open spec fn char_from(s: Seq<char>, c: char, i: int) -> int
    decreases s.len() - i,
{
    if i >= s.len() {
        s.len() as int
    } else if s[i] == c {
        i
    } else {
        char_from(s, c, i + 1)
    }
}

/// The first position from `i` on at which white space stands in `s`, or the end of `s`.
pub open spec fn space_from(s: Seq<char>, i: int) -> int
    decreases s.len() - i,
{
    if i >= s.len() {
        s.len() as int
    } else if white_space(s[i]) {
        i
    } else {
        space_from(s, i + 1)
    }
}

/// `char_from` stays within the text, and stops only at the character.
pub proof fn lemma_char_from(s: Seq<char>, c: char, i: int)
    requires
        0 <= i <= s.len(),
    ensures
        i <= char_from(s, c, i) <= s.len(),
        char_from(s, c, i) < s.len() ==> s[char_from(s, c, i)] == c,
        forall|j: int| i <= j < char_from(s, c, i) ==> s[j] != c,
    decreases s.len() - i,
{
    if i < s.len() && s[i] != c {
        lemma_char_from(s, c, i + 1);
    }
}

/// `space_from` stays within the text, and stops only at white space.
pub proof fn lemma_space_from(s: Seq<char>, i: int)
    requires
        0 <= i <= s.len(),
    ensures
        i <= space_from(s, i) <= s.len(),
        space_from(s, i) < s.len() ==> white_space(s[space_from(s, i)]),
        forall|j: int| i <= j < space_from(s, i) ==> !white_space(s[j]),
    decreases s.len() - i,
{
    if i < s.len() && !white_space(s[i]) {
        lemma_space_from(s, i + 1);
    }
}

/// The first position from `start` on at which a character stands, or the end.
pub fn char_position(cs: &Vec<char>, c: char, start: usize) -> (res: usize)
    requires
        start <= cs@.len(),
    ensures
        res == char_from(cs@, c, start as int),
        start <= res <= cs@.len(),
{
    let mut i: usize = start;
    while i < cs.len() && cs[i] != c
        invariant
            start <= i <= cs@.len(),
            char_from(cs@, c, start as int) == char_from(cs@, c, i as int),
        decreases cs@.len() - i,
    {
        i = i + 1;
    }
    i
}

/// The first position from `start` on at which white space stands, or the end.
pub fn space_position(cs: &Vec<char>, start: usize) -> (res: usize)
    requires
        start <= cs@.len(),
    ensures
        res == space_from(cs@, start as int),
        start <= res <= cs@.len(),
{
    let mut i: usize = start;
    while i < cs.len() && !is_white_space(cs[i])
        invariant
            start <= i <= cs@.len(),
            space_from(cs@, start as int) == space_from(cs@, i as int),
        decreases cs@.len() - i,
    {
        i = i + 1;
    }
    i
}

/// The pieces of the text from `i` on between the occurrences of a character.
pub open spec fn split_from(s: Seq<char>, c: char, i: int) -> Seq<Seq<char>>
    decreases s.len() - i,
{
    let j = char_from(s, c, i);
    if i <= j < s.len() {
        seq![s.subrange(i, j)] + split_from(s, c, j + 1)
    } else {
        seq![s.subrange(i, s.len() as int)]
    }
}

/// The pieces of a text between the occurrences of a character.
pub open spec fn split_on(s: Seq<char>, c: char) -> Seq<Seq<char>> {
    split_from(s, c, 0)
}

/// Splits a string at each occurrence of a character.
pub fn split<'a>(s: &'a str, c: char) -> (res: Vec<&'a str>)
    ensures
        res.deep_view() == split_on(s@, c),
        res@.len() > 0,
{
    let cs = chars_of(s);
    let mut out: Vec<&'a str> = Vec::new();
    let mut i: usize = 0;
    assert(out.deep_view() + split_from(s@, c, 0) == split_on(s@, c));
    loop
        invariant_except_break
            i <= cs@.len(),
            cs@ == s@,
            split_on(s@, c) == out.deep_view() + split_from(s@, c, i as int),
        ensures
            split_on(s@, c) == out.deep_view(),
            out@.len() > 0,
        decreases cs@.len() - i,
    {
        let j: usize = char_position(&cs, c, i);
        let ghost before = out.deep_view();
        out.push(s.substring_char(i, j));
        assert(out.deep_view() == before.push(s@.subrange(i as int, j as int)));
        if j < cs.len() {
            assert(split_on(s@, c) == out.deep_view() + split_from(s@, c, j + 1));
            i = j + 1;
        } else {
            assert(split_on(s@, c) == out.deep_view());
            break;
        }
    }
    out
}

/// A line without the carriage return at its end.
pub open spec fn without_cr(s: Seq<char>) -> Seq<char> {
    if s.len() > 0 && s.last() == '\r' {
        s.drop_last()
    } else {
        s
    }
}

/// The lines of the text from `i` on.
pub open spec fn lines_from(s: Seq<char>, i: int) -> Seq<Seq<char>>
    decreases s.len() - i,
{
    let j = char_from(s, '\n', i);
    if i >= s.len() {
        seq![]
    } else if i <= j < s.len() {
        seq![without_cr(s.subrange(i, j))] + lines_from(s, j + 1)
    } else {
        seq![s.subrange(i, s.len() as int)]
    }
}

/// The lines of a text: each ends in a line feed, which a carriage return may precede; the last
/// line may lack the line feed.
pub open spec fn lines_of(s: Seq<char>) -> Seq<Seq<char>> {
    lines_from(s, 0)
}

/// Splits a string into its lines.
pub fn lines<'a>(s: &'a str) -> (res: Vec<&'a str>)
    ensures
        res.deep_view() == lines_of(s@),
{
    let cs = chars_of(s);
    let mut out: Vec<&'a str> = Vec::new();
    let mut i: usize = 0;
    assert(out.deep_view() + lines_from(s@, 0) == lines_of(s@));
    while i < cs.len()
        invariant
            i <= cs@.len(),
            cs@ == s@,
            lines_of(s@) == out.deep_view() + lines_from(s@, i as int),
        decreases cs@.len() - i,
    {
        let j: usize = char_position(&cs, '\n', i);
        let ghost before = out.deep_view();
        if j < cs.len() {
            let end: usize = if j > i && cs[j - 1] == '\r' {
                j - 1
            } else {
                j
            };
            out.push(s.substring_char(i, end));
            assert(s@.subrange(i as int, end as int) == without_cr(s@.subrange(i as int, j as int)));
            assert(out.deep_view() == before.push(without_cr(s@.subrange(i as int, j as int))));
            assert(lines_of(s@) == out.deep_view() + lines_from(s@, j + 1));
            i = j + 1;
        } else {
            out.push(s.substring_char(i, j));
            assert(out.deep_view() == before.push(s@.subrange(i as int, j as int)));
            assert(lines_from(s@, j as int) == Seq::<Seq<char>>::empty());
            assert(lines_of(s@) == out.deep_view() + lines_from(s@, j as int));
            i = j;
        }
    }
    assert(lines_of(s@) == out.deep_view());
    out
}

/// The words of the text from `i` on.
pub open spec fn words_from(s: Seq<char>, i: int) -> Seq<Seq<char>>
    decreases s.len() - i,
{
    let j = space_from(s, i);
    if i < 0 || i >= s.len() {
        seq![]
    } else if i < j <= s.len() {
        seq![s.subrange(i, j)] + words_from(s, j)
    } else {
        words_from(s, i + 1)
    }
}

/// The words of a text: the longest pieces without white space.
pub open spec fn words_of(s: Seq<char>) -> Seq<Seq<char>> {
    words_from(s, 0)
}

/// A text without white space is a single word.
pub proof fn lemma_single_word(s: Seq<char>)
    requires
        s.len() > 0,
        forall|i: int| 0 <= i < s.len() ==> !white_space(#[trigger] s[i]),
    ensures
        words_of(s) == seq![s],
{
    let j = space_from(s, 0);
    lemma_space_from(s, 0);
    assert(j == s.len()) by {
        if j < s.len() {
            assert(white_space(s[j]));
        }
    }
    assert(s.subrange(0, j) =~= s);
    assert(words_from(s, j) =~= seq![]);
    assert(words_of(s) =~= seq![s]);
}

/// A text without line breaks that is followed by a line feed is a single line.
pub proof fn lemma_single_line(s: Seq<char>)
    requires
        s.len() > 0,
        forall|i: int| 0 <= i < s.len() ==> (#[trigger] s[i]) != '\n',
        s.last() != '\r',
    ensures
        lines_of(s.push('\n')) == seq![s],
{
    let whole = s.push('\n');
    let j = char_from(whole, '\n', 0);
    lemma_char_from(whole, '\n', 0);
    assert(whole[s.len() as int] == '\n');
    assert(j == s.len()) by {
        if j < s.len() {
            assert(whole[j] == s[j]);
        }
    }
    assert(whole.subrange(0, j) =~= s);
    assert(lines_from(whole, j + 1) =~= seq![]);
    assert(lines_of(whole) =~= seq![s]);
}

/// Splits a string into its words.
pub fn split_whitespace<'a>(s: &'a str) -> (res: Vec<&'a str>)
    ensures
        res.deep_view() == words_of(s@),
{
    let cs = chars_of(s);
    let mut out: Vec<&'a str> = Vec::new();
    let mut i: usize = 0;
    assert(out.deep_view() + words_from(s@, 0) == words_of(s@));
    while i < cs.len()
        invariant
            i <= cs@.len(),
            cs@ == s@,
            words_of(s@) == out.deep_view() + words_from(s@, i as int),
        decreases cs@.len() - i,
    {
        let j: usize = space_position(&cs, i);
        let ghost before = out.deep_view();
        if j <= i {
            i = i + 1;
        } else {
            out.push(s.substring_char(i, j));
            assert(out.deep_view() == before.push(s@.subrange(i as int, j as int)));
            assert(words_of(s@) == out.deep_view() + words_from(s@, j as int));
            i = j;
        }
    }
    assert(words_of(s@) == out.deep_view());
    out
}

// ---------------------------------------------------------------------------
// Joining
// ---------------------------------------------------------------------------

/// The parts with a separator between each two.
pub open spec fn joined(parts: Seq<Seq<char>>, sep: Seq<char>) -> Seq<char>
    decreases parts.len(),
{
    if parts.len() == 0 {
        seq![]
    } else if parts.len() == 1 {
        parts[0]
    } else {
        joined(parts.drop_last(), sep) + sep + parts.last()
    }
}

pub proof fn lemma_char_from_is(s: Seq<char>, c: char, i: int, k: int)
    requires
        0 <= i <= k <= s.len(),
        k < s.len() ==> s[k] == c,
        forall|j: int| i <= j < k ==> s[j] != c,
    ensures
        char_from(s, c, i) == k,
    decreases k - i,
{
    if i < k {
        assert(s[i] != c);
        lemma_char_from_is(s, c, i + 1, k);
    }
}

/// A piece that is added behind a separator is the last that comes out.
pub proof fn lemma_split_last(a: Seq<char>, b: Seq<char>, c: char, i: int)
    requires
        0 <= i <= a.len(),
        !b.contains(c),
    ensures
        split_from(a + seq![c] + b, c, i) == split_from(a, c, i).push(b),
    decreases a.len() - i,
{
    let whole = a + seq![c] + b;
    let j = char_from(a, c, i);
    lemma_char_from(a, c, i);
    assert(whole[j] == c);
    assert forall|k: int| i <= k < j implies whole[k] != c by {
        assert(whole[k] == a[k]);
    }
    lemma_char_from_is(whole, c, i, j);
    assert(whole.subrange(i, j) =~= a.subrange(i, j));
    if j < a.len() {
        lemma_split_last(a, b, c, j + 1);
        assert(split_from(whole, c, i) =~= split_from(a, c, i).push(b));
    } else {
        assert forall|k: int| j + 1 <= k < whole.len() implies whole[k] != c by {
            assert(whole[k] == b[k - j - 1]);
        }
        lemma_char_from_is(whole, c, j + 1, whole.len() as int);
        assert(whole.subrange(j + 1, whole.len() as int) =~= b);
        assert(split_from(whole, c, j + 1) =~= seq![b]);
        assert(split_from(whole, c, i) =~= split_from(a, c, i).push(b));
    }
}

/// Splitting a text at a separator gives back the pieces that it was joined from, where none of
/// them holds the separator.
pub proof fn lemma_split_joined(parts: Seq<Seq<char>>, c: char)
    requires
        parts.len() > 0,
        forall|i: int| 0 <= i < parts.len() ==> !(#[trigger] parts[i]).contains(c),
    ensures
        split_on(joined(parts, seq![c]), c) == parts,
    decreases parts.len(),
{
    if parts.len() == 1 {
        let s = parts[0];
        assert forall|j: int| 0 <= j < s.len() implies s[j] != c by {
            assert(s.contains(s[j]));
        }
        lemma_char_from_is(s, c, 0, s.len() as int);
        assert(s.subrange(0, s.len() as int) =~= s);
        assert(split_on(s, c) =~= parts);
    } else {
        let init = parts.drop_last();
        assert forall|i: int| 0 <= i < init.len() implies !(#[trigger] init[i]).contains(c) by {
            assert(init[i] == parts[i]);
        }
        lemma_split_joined(init, c);
        lemma_split_last(joined(init, seq![c]), parts.last(), c, 0);
        assert(init.push(parts.last()) =~= parts);
    }
}

/// Joins strings with a separator between each two.
pub fn join(parts: &Vec<&str>, sep: &str) -> (res: String)
    ensures
        res@ == joined(parts.deep_view(), sep@),
{
    let mut out = String::new();
    for i in 0..parts.len()
        invariant
            out@ == joined(parts.deep_view().take(i as int), sep@),
    {
        let ghost all = parts.deep_view();
        assert(all.take(i + 1).drop_last() == all.take(i as int));
        assert(all.take(i + 1).last() == parts@[i as int]@);
        if i > 0 {
            out.append(sep);
        } else {
            assert(out@ == Seq::<char>::empty());
            assert(Seq::<char>::empty() + parts@[0]@ == parts@[0]@);
        }
        out.append(parts[i]);
    }
    assert(parts.deep_view().take(parts@.len() as int) == parts.deep_view());
    out
}

/// A text with each line feed replaced by a backslash and an `n`.
pub open spec fn newlines_escaped(s: Seq<char>) -> Seq<char> {
    joined(split_on(s, '\n'), seq!['\\', 'n'])
}

/// Replaces each line feed by a backslash and an `n`.
pub fn escape_newlines(s: &str) -> (res: String)
    ensures
        res@ == newlines_escaped(s@),
{
    proof {
        reveal_strlit("\\n");
        assert("\\n"@ =~= seq!['\\', 'n']);
    }
    join(&split(s, '\n'), "\\n")
}

// ---------------------------------------------------------------------------
// What the standard library computes
// ---------------------------------------------------------------------------

/// What `str::to_lowercase` makes of a text.
pub uninterp spec fn lowercase(s: Seq<char>) -> Seq<char>;

/// What `String::from_utf8_lossy` makes of bytes.
pub uninterp spec fn lossy_text(bytes: Seq<u8>) -> Seq<char>;

/// Calls `str::to_lowercase`. The contract claims that the result is a function of the text, that of
/// ASCII text it is the text with `A` to `Z` replaced by `a` to `z`, and that an ASCII piece of any
/// text comes out as a piece, changed in the same way: what an ASCII character becomes does not
/// depend on what stands around it.
#[verifier::external_body]
fn std_lowercase(s: &str) -> (res: String)
    ensures
        res@ == lowercase(s@),
        is_ascii_chars(s@) ==> res@ == ascii_lower(s@),
        forall|p: Seq<char>|
            is_ascii_chars(p) && #[trigger] contains(s@, p) ==> contains(res@, ascii_lower(p)),
{
    s.to_lowercase()
}

/// Calls `String::from_utf8_lossy`. The contract claims that the result is a function of the
/// bytes, and that valid UTF-8 is decoded.
#[verifier::external_body]
fn std_lossy(bytes: &Vec<u8>) -> (res: String)
    ensures
        res@ == lossy_text(bytes@),
        valid_utf8(bytes@) ==> res@ == decode_utf8(bytes@),
{
    String::from_utf8_lossy(bytes).into_owned()
}

/// A string in lower case.
pub fn to_lowercase(s: &str) -> (res: String)
    ensures
        res@ == lowercase(s@),
        is_ascii_chars(s@) ==> res@ == ascii_lower(s@),
        forall|p: Seq<char>|
            is_ascii_chars(p) && #[trigger] contains(s@, p) ==> contains(res@, ascii_lower(p)),
{
    std_lowercase(s)
}

/// The text that bytes hold, a replacement character standing for what is not UTF-8.
pub fn from_utf8_lossy(bytes: &Vec<u8>) -> (res: String)
    ensures
        res@ == lossy_text(bytes@),
        valid_utf8(bytes@) ==> res@ == decode_utf8(bytes@),
{
    std_lossy(bytes)
}

// ---------------------------------------------------------------------------
// Keeping the end of a text
// ---------------------------------------------------------------------------

/// The number of bytes that a text takes in UTF-8.
pub open spec fn byte_len(s: Seq<char>) -> int {
    encode_utf8(s).len() as int
}

/// The number of characters that are cut from the front of `s`, from the `i`-th on, until at
/// least `excess` bytes are gone.
pub open spec fn cut_from(s: Seq<char>, excess: int, i: int) -> int
    decreases s.len() - i,
{
    if i >= s.len() {
        0
    } else if byte_len(s.take(i)) >= excess {
        i
    } else {
        cut_from(s, excess, i + 1)
    }
}

/// A text cut from the front, at a character, to at most `max` bytes; nothing is cut where only
/// the loss of every character would do.
pub open spec fn front_truncated(s: Seq<char>, max: int) -> Seq<char> {
    if byte_len(s) <= max {
        s
    } else {
        s.skip(cut_from(s, byte_len(s) - max, 0))
    }
}

/// The number of bytes that a character takes in UTF-8.
pub open spec fn char_width(c: char) -> int {
    encode_scalar(c as u32).len() as int
}

fn width(c: char) -> (res: u128)
    ensures
        res == char_width(c),
        1 <= res <= 4,
{
    let n: u32 = c as u32;
    if n <= 0x7F {
        1
    } else if n <= 0x7FF {
        2
    } else if n <= 0xFFFF {
        3
    } else {
        4
    }
}

/// The bytes of a text made of two parts are those of its parts.
pub proof fn lemma_byte_len_concat(a: Seq<char>, b: Seq<char>)
    ensures
        byte_len(a + b) == byte_len(a) + byte_len(b),
    decreases a.len(),
{
    if a.len() == 0 {
        assert(a + b =~= b);
    } else {
        assert((a + b).drop_first() =~= a.drop_first() + b);
        lemma_byte_len_concat(a.drop_first(), b);
    }
}

proof fn lemma_byte_len_take(s: Seq<char>, i: int)
    requires
        0 <= i < s.len(),
    ensures
        byte_len(s.take(i + 1)) == byte_len(s.take(i)) + char_width(s[i]),
{
    let last = seq![s[i]];
    assert(s.take(i + 1) =~= s.take(i) + last);
    lemma_byte_len_concat(s.take(i), last);
    assert(last.drop_first() =~= Seq::<char>::empty());
    reveal_with_fuel(encode_utf8, 2);
}

/// What is left of a text that is cut from the front to at most `max` bytes, where `max` has room
/// for any character: an end of the text, of at most `max` bytes, and of more than `max - 4` where
/// something was cut.
pub proof fn lemma_front_truncated(s: Seq<char>, max: int)
    requires
        max >= 4,
    ensures
        byte_len(front_truncated(s, max)) <= max,
        byte_len(s) > max ==> byte_len(front_truncated(s, max)) > max - 4,
        exists|k: int| 0 <= k <= s.len() && front_truncated(s, max) == #[trigger] s.skip(k),
{
    if byte_len(s) <= max {
        assert(s =~= s.skip(0));
    } else {
        let excess = byte_len(s) - max;
        lemma_last_boundary(s, excess);
        lemma_cut_from(s, excess, 0);
        let k = cut_from(s, excess, 0);
        assert(s =~= s.take(k) + s.skip(k));
        lemma_byte_len_concat(s.take(k), s.skip(k));
        assert(front_truncated(s, max) == s.skip(k));
    }
}

/// The start of the last character leaves at most four bytes behind it.
proof fn lemma_last_boundary(s: Seq<char>, excess: int)
    requires
        0 < excess <= byte_len(s) - 4,
    ensures
        s.len() > 0,
        byte_len(s.take(s.len() - 1)) >= excess,
        byte_len(s.take(0)) == 0,
{
    assert(s.take(0) =~= Seq::<char>::empty());
    lemma_byte_len_take(s, s.len() - 1);
    assert(s.take(s.len() as int) =~= s);
}

proof fn lemma_cut_from(s: Seq<char>, excess: int, i: int)
    requires
        0 <= i < s.len(),
        byte_len(s.take(s.len() - 1)) >= excess,
        i == 0 ==> byte_len(s.take(0)) < excess,
        i > 0 ==> byte_len(s.take(i - 1)) < excess,
    ensures
        0 < cut_from(s, excess, i) < s.len(),
        excess <= byte_len(s.take(cut_from(s, excess, i))) < excess + 4,
    decreases s.len() - i,
{
    if i > 0 {
        lemma_byte_len_take(s, i - 1);
    }
    if byte_len(s.take(i)) < excess {
        lemma_cut_from(s, excess, i + 1);
    }
}

/// Cuts a string from the front, at a character, to at most `max` bytes; nothing is cut where only
/// the loss of every character would do.
pub fn truncate_front_to_max(s: &str, max: usize) -> (res: String)
    ensures
        res@ == front_truncated(s@, max as int),
{
    let cs = chars_of(s);
    let n: usize = cs.len();
    let mut total: u128 = 0;
    assert(s@.take(0) =~= Seq::<char>::empty());
    for i in 0..n
        invariant
            cs@ == s@,
            n == cs@.len(),
            total == byte_len(s@.take(i as int)),
            total <= 4 * i,
    {
        proof {
            lemma_byte_len_take(s@, i as int);
        }
        total = total + width(cs[i]);
    }
    assert(s@.take(n as int) =~= s@);
    if total <= max as u128 {
        return owned(s);
    }
    let excess: u128 = total - max as u128;
    let mut seen: u128 = 0;
    for i in 0..n
        invariant
            cs@ == s@,
            n == cs@.len(),
            seen == byte_len(s@.take(i as int)),
            seen <= 4 * i,
            excess == byte_len(s@) - max,
            byte_len(s@) > max,
            cut_from(s@, excess as int, 0) == cut_from(s@, excess as int, i as int),
    {
        if seen >= excess {
            assert(s@.subrange(i as int, n as int) =~= s@.skip(i as int));
            return owned(s.substring_char(i, n));
        }
        proof {
            lemma_byte_len_take(s@, i as int);
        }
        seen = seen + width(cs[i]);
    }
    assert(s@.skip(0) =~= s@);
    owned(s)
}

/// The number of bytes of a string.
pub fn byte_length(s: &str) -> (res: usize)
    ensures
        res == byte_len(s@) as usize,
{
    s.len()
}

// ---------------------------------------------------------------------------
// Laws
// ---------------------------------------------------------------------------

/// Case folding moves a letter to the place in the other case that it has in its own, and back; all
/// other characters stay.
pub proof fn lemma_ascii_case(c: char)
    ensures
        'A' <= c <= 'Z' ==> ascii_lower_char(c) as int - 'a' as int == c as int - 'A' as int,
        'a' <= c <= 'z' ==> ascii_upper_char(c) as int - 'A' as int == c as int - 'a' as int,
        !('A' <= c <= 'Z') ==> ascii_lower_char(c) == c,
        !('a' <= c <= 'z') ==> ascii_upper_char(c) == c,
        'A' <= c <= 'Z' ==> ascii_upper_char(ascii_lower_char(c)) == c,
        'a' <= c <= 'z' ==> ascii_lower_char(ascii_upper_char(c)) == c,
{
}

/// Case folding changes each character in its place.
pub proof fn lemma_ascii_case_text(s: Seq<char>, i: int)
    requires
        0 <= i < s.len(),
    ensures
        ascii_lower(s).len() == s.len() && ascii_lower(s)[i] == ascii_lower_char(s[i]),
        ascii_upper(s).len() == s.len() && ascii_upper(s)[i] == ascii_upper_char(s[i]),
{
}

/// What is visible in ASCII is no white space; the space and the breaks are.
pub proof fn lemma_white_space(c: char)
    ensures
        '!' <= c <= '~' ==> !white_space(c),
        c == ' ' || c == '\t' || c == '\n' || c == '\r' ==> white_space(c),
{
}

proof fn lemma_trimmed_start(s: Seq<char>, k: CharClass) -> (a: int)
    ensures
        0 <= a <= s.len(),
        trimmed_start_of(s, k) == s.skip(a),
        forall|i: int| 0 <= i < a ==> k.has(#[trigger] s[i]),
        a < s.len() ==> !k.has(s[a]),
    decreases s.len(),
{
    if s.len() > 0 && k.has(s[0]) {
        let a = lemma_trimmed_start(s.skip(1), k);
        assert(s.skip(1).skip(a) =~= s.skip(a + 1));
        assert forall|i: int| 0 <= i < a + 1 implies k.has(#[trigger] s[i]) by {
            if i > 0 {
                assert(s.skip(1)[i - 1] == s[i]);
            }
        }
        a + 1
    } else {
        assert(s.skip(0) =~= s);
        0
    }
}

proof fn lemma_trimmed_end(s: Seq<char>, k: CharClass) -> (b: int)
    ensures
        0 <= b <= s.len(),
        trimmed_end_of(s, k) == s.take(b),
        forall|i: int| b <= i < s.len() ==> k.has(#[trigger] s[i]),
        b > 0 ==> !k.has(s[b - 1]),
    decreases s.len(),
{
    if s.len() > 0 && k.has(s.last()) {
        let b = lemma_trimmed_end(s.drop_last(), k);
        assert(s.drop_last().take(b) =~= s.take(b));
        assert forall|i: int| b <= i < s.len() implies k.has(#[trigger] s[i]) by {
            if i < s.len() - 1 {
                assert(s.drop_last()[i] == s[i]);
            }
        }
        b
    } else {
        assert(s.take(s.len() as int) =~= s);
        s.len() as int
    }
}

/// Trimming cuts characters of the class from both ends, all of them and no others: what is left
/// neither begins nor ends with one.
pub proof fn lemma_trimmed_of(s: Seq<char>, k: CharClass)
    ensures
        exists|a: int, b: int|
            0 <= a <= b <= s.len() && trimmed_of(s, k) == #[trigger] s.subrange(a, b) && (forall|
                i: int,
            |
                0 <= i < s.len() && !(a <= i < b) ==> k.has(#[trigger] s[i])),
        trimmed_of(s, k).len() > 0 ==> !k.has(trimmed_of(s, k)[0]) && !k.has(
            trimmed_of(s, k).last(),
        ),
{
    let a = lemma_trimmed_start(s, k);
    let mid = s.skip(a);
    let n = lemma_trimmed_end(mid, k);
    let b = a + n;
    assert(mid.take(n) =~= s.subrange(a, b));
    assert forall|i: int| 0 <= i < s.len() && !(a <= i < b) implies k.has(#[trigger] s[i]) by {
        if i >= b {
            assert(mid[i - a] == s[i]);
        }
    }
    if n > 0 {
        assert(mid.take(n).last() == mid[n - 1]);
        assert(mid.take(n)[0] == s[a]);
    }
}

/// The lines of a text are the pieces between its line feeds, each without the carriage return
/// before its line feed; what follows the last line feed is a line where there is anything.
pub proof fn lemma_lines(s: Seq<char>, i: int)
    requires
        0 <= i <= s.len(),
    ensures
        ({
            let pieces = split_from(s, '\n', i);
            let ended = pieces.drop_last().map_values(|p: Seq<char>| without_cr(p));
            &&& pieces.len() > 0
            &&& lines_from(s, i) == if pieces.last().len() == 0 {
                ended
            } else {
                ended.push(pieces.last())
            }
        }),
    decreases s.len() - i,
{
    let f = |p: Seq<char>| without_cr(p);
    let j = char_from(s, '\n', i);
    lemma_char_from(s, '\n', i);
    let pieces = split_from(s, '\n', i);
    let ended = pieces.drop_last().map_values(f);
    if j < s.len() {
        lemma_lines(s, j + 1);
        let rest = split_from(s, '\n', j + 1);
        let first = s.subrange(i, j);
        assert(pieces =~= seq![first] + rest);
        assert(pieces.last() == rest.last());
        assert(pieces.drop_last() =~= seq![first] + rest.drop_last());
        assert(ended =~= seq![without_cr(first)] + rest.drop_last().map_values(f));
        assert(ended.push(rest.last()) =~= seq![without_cr(first)] + rest.drop_last().map_values(
            f,
        ).push(rest.last()));
    } else {
        assert(pieces.drop_last() =~= seq![]);
        assert(ended =~= seq![]);
        assert(ended.push(pieces.last()) =~= seq![pieces.last()]);
    }
}

/// The words from `i` on are made of what is no white space, in order, and none of them is empty.
pub proof fn lemma_words(s: Seq<char>, i: int)
    requires
        0 <= i <= s.len(),
    ensures
        words_from(s, i).flatten() == s.skip(i).filter(|c: char| !white_space(c)),
        forall|k: int, j: int|
            0 <= k < words_from(s, i).len() && 0 <= j < words_from(s, i)[k].len() ==> !white_space(
                #[trigger] words_from(s, i)[k][j],
            ),
        forall|k: int| 0 <= k < words_from(s, i).len() ==> (#[trigger] words_from(s, i)[k]).len() > 0,
    decreases s.len() - i,
{
    let f = |c: char| !white_space(c);
    let j = space_from(s, i);
    lemma_space_from(s, i);
    if i >= s.len() {
        assert(s.skip(i) =~= seq![]);
        reveal(Seq::filter);
        assert(words_from(s, i).flatten() =~= seq![]);
    } else if i < j {
        let word = s.subrange(i, j);
        let rest = words_from(s, j);
        lemma_words(s, j);
        assert(words_from(s, i) =~= seq![word] + rest);
        assert(s.skip(i) =~= word + s.skip(j));
        Seq::filter_distributes_over_add(word, s.skip(j), f);
        lemma_all_pass(word);
        assert(words_from(s, i).drop_first() =~= rest);
        assert(words_from(s, i).first() == word);
        assert forall|k: int, m: int|
            0 <= k < words_from(s, i).len() && 0 <= m < words_from(s, i)[k].len() implies !white_space(
            #[trigger] words_from(s, i)[k][m],
        ) by {
            if k > 0 {
                assert(words_from(s, i)[k] == rest[k - 1]);
                assert(!white_space(rest[k - 1][m]));
            } else {
                assert(word[m] == s[i + m]);
            }
        }
        assert forall|k: int| 0 <= k < words_from(s, i).len() implies (#[trigger] words_from(
            s,
            i,
        )[k]).len() > 0 by {
            if k > 0 {
                assert(words_from(s, i)[k] == rest[k - 1]);
            }
        }
    } else {
        lemma_words(s, i + 1);
        let one = seq![s[i]];
        assert(s.skip(i) =~= one + s.skip(i + 1));
        Seq::filter_distributes_over_add(one, s.skip(i + 1), f);
        assert(one.drop_last() =~= seq![]);
        reveal_with_fuel(Seq::filter, 2);
        assert(one.filter(f) =~= seq![]);
        assert(seq![] + s.skip(i + 1).filter(f) =~= s.skip(i + 1).filter(f));
    }
}

proof fn lemma_all_pass(word: Seq<char>)
    requires
        forall|i: int| 0 <= i < word.len() ==> !white_space(#[trigger] word[i]),
    ensures
        word.filter(|c: char| !white_space(c)) == word,
    decreases word.len(),
{
    reveal(Seq::filter);
    if word.len() > 0 {
        lemma_all_pass(word.drop_last());
        assert(word.drop_last().push(word.last()) =~= word);
    }
}

/// Two words with white space between them are apart.
pub proof fn lemma_words_apart(a: Seq<char>, space: char, b: Seq<char>)
    requires
        a.len() > 0,
        b.len() > 0,
        white_space(space),
        forall|i: int| 0 <= i < a.len() ==> !white_space(#[trigger] a[i]),
        forall|i: int| 0 <= i < b.len() ==> !white_space(#[trigger] b[i]),
    ensures
        words_of(a + seq![space] + b) == seq![a, b],
{
    let s = a + seq![space] + b;
    let n = a.len() as int;
    lemma_space_from(s, 0);
    assert(s[n] == space);
    assert(space_from(s, 0) == n) by {
        if space_from(s, 0) < n {
            assert(s[space_from(s, 0)] == a[space_from(s, 0)]);
        }
    }
    assert(s.subrange(0, n) =~= a);
    lemma_space_from(s, n);
    assert(space_from(s, n) == n);
    lemma_space_from(s, n + 1);
    assert(space_from(s, n + 1) == s.len()) by {
        let j = space_from(s, n + 1);
        if j < s.len() {
            assert(s[j] == b[j - n - 1]);
        }
    }
    assert(s.subrange(n + 1, s.len() as int) =~= b);
    assert(words_from(s, s.len() as int) =~= seq![]);
    assert(words_from(s, n + 1) =~= seq![b]);
    assert(words_from(s, n) == words_from(s, n + 1));
    assert(words_of(s) =~= seq![a, b]);
}

/// Escaped text is on one line, and text without line feeds is its own escaped form.
pub proof fn lemma_newlines_escaped(s: Seq<char>)
    ensures
        !newlines_escaped(s).contains('\n'),
        !s.contains('\n') ==> newlines_escaped(s) == s,
{
    lemma_split_pieces(s, '\n', 0);
    lemma_joined_without(split_on(s, '\n'), seq!['\\', 'n'], '\n');
    if !s.contains('\n') {
        assert forall|j: int| 0 <= j < s.len() implies s[j] != '\n' by {
            assert(s.contains(s[j]));
        }
        lemma_char_from_is(s, '\n', 0, s.len() as int);
        assert(s.subrange(0, s.len() as int) =~= s);
        assert(split_on(s, '\n') =~= seq![s]);
    }
}

proof fn lemma_split_pieces(s: Seq<char>, c: char, i: int)
    requires
        0 <= i <= s.len(),
    ensures
        forall|k: int| 0 <= k < split_from(s, c, i).len() ==> !(#[trigger] split_from(
            s,
            c,
            i,
        )[k]).contains(c),
    decreases s.len() - i,
{
    let j = char_from(s, c, i);
    lemma_char_from(s, c, i);
    let first = s.subrange(i, j);
    assert(!first.contains(c)) by {
        if first.contains(c) {
            let m = choose|m: int| 0 <= m < first.len() && first[m] == c;
            assert(s[i + m] == c);
        }
    }
    if j < s.len() {
        lemma_split_pieces(s, c, j + 1);
        assert forall|k: int| 0 <= k < split_from(s, c, i).len() implies !(#[trigger] split_from(
            s,
            c,
            i,
        )[k]).contains(c) by {
            if k > 0 {
                assert(split_from(s, c, i)[k] == split_from(s, c, j + 1)[k - 1]);
            }
        }
    }
}

proof fn lemma_joined_without(parts: Seq<Seq<char>>, sep: Seq<char>, c: char)
    requires
        forall|k: int| 0 <= k < parts.len() ==> !(#[trigger] parts[k]).contains(c),
        !sep.contains(c),
    ensures
        !joined(parts, sep).contains(c),
    decreases parts.len(),
{
    if parts.len() > 1 {
        let init = parts.drop_last();
        assert forall|k: int| 0 <= k < init.len() implies !(#[trigger] init[k]).contains(c) by {
            assert(init[k] == parts[k]);
        }
        lemma_joined_without(init, sep, c);
        let head = joined(init, sep);
        let all = head + sep + parts.last();
        if all.contains(c) {
            let m = choose|m: int| 0 <= m < all.len() && all[m] == c;
            if m < head.len() {
                assert(head[m] == c);
            } else if m < head.len() + sep.len() {
                assert(sep[m - head.len()] == c);
            } else {
                assert(parts.last()[m - head.len() - sep.len()] == c);
            }
        }
    }
}

} // verus!
