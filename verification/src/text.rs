//! Character-level text helpers.
//!
//! Strings are handled as sequences of characters: `Vec<char>` in executable
//! code and `Seq<char>` in specifications.  Every helper states its result
//! exactly over the character sequences involved.

use vstd::prelude::*;

verus! {

/// `p` occurs in `s` starting at index `i`.
pub open spec fn occurs_at(s: Seq<char>, p: Seq<char>, i: int) -> bool {
    0 <= i && i + p.len() <= s.len() && s.subrange(i, i + p.len()) == p
}

/// `p` is a prefix of `s`.
pub open spec fn seq_starts_with(s: Seq<char>, p: Seq<char>) -> bool {
    occurs_at(s, p, 0)
}

/// `p` is a suffix of `s`.
pub open spec fn seq_ends_with(s: Seq<char>, p: Seq<char>) -> bool {
    p.len() <= s.len() && occurs_at(s, p, s.len() - p.len())
}

/// `p` occurs somewhere in `s`.
pub open spec fn seq_contains(s: Seq<char>, p: Seq<char>) -> bool {
    exists|i: int| occurs_at(s, p, i)
}

/// `c` occurs in `s`.
pub open spec fn has_char(s: Seq<char>, c: char) -> bool {
    exists|i: int| 0 <= i < s.len() && s[i] == c
}

/// ASCII decimal digit.
pub open spec fn is_digit(c: char) -> bool {
    '0' <= c && c <= '9'
}

/// Every character is an ASCII decimal digit.
pub open spec fn all_digits(s: Seq<char>) -> bool {
    forall|i: int| 0 <= i < s.len() ==> is_digit(#[trigger] s[i])
}

/// Whitespace as `char::is_whitespace` sees it for ASCII and the common
/// Unicode spaces.
pub open spec fn is_space(c: char) -> bool {
    c == ' ' || c == '\t' || c == '\n' || c == '\r' || c == '\u{0B}' || c == '\u{0C}'
        || c == '\u{85}' || c == '\u{A0}' || c == '\u{1680}' || ('\u{2000}' <= c && c <= '\u{200A}')
        || c == '\u{2028}' || c == '\u{2029}' || c == '\u{202F}' || c == '\u{205F}'
        || c == '\u{3000}'
}

/// The character of a decimal digit value.
pub open spec fn digit_char(d: nat) -> char {
    if d == 0 { '0' } else if d == 1 { '1' } else if d == 2 { '2' } else if d == 3 { '3' }
    else if d == 4 { '4' } else if d == 5 { '5' } else if d == 6 { '6' } else if d == 7 { '7' }
    else if d == 8 { '8' } else { '9' }
}

/// Decimal representation of `n`, without leading zeros.
pub open spec fn decimal(n: nat) -> Seq<char>
    decreases n,
{
    if n < 10 {
        seq![digit_char(n)]
    } else {
        decimal(n / 10).push(digit_char(n % 10))
    }
}

/// Decimal representation of `n` left-padded with zeros to at least `width`.
pub open spec fn decimal_padded(n: nat, width: nat) -> Seq<char> {
    let d = decimal(n);
    if d.len() >= width {
        d
    } else {
        Seq::new((width - d.len()) as nat, |i: int| '0') + d
    }
}

/// Copies the characters of a string slice into a vector.
pub fn chars_of(s: &str) -> (v: Vec<char>)
    ensures
        v@ == s@,
{
    let mut v: Vec<char> = Vec::new();
    for c in it: s.chars()
        invariant
            v@ == it.seq().take(it.index() as int),
    {
        v.push(c);
    }
    v
}

/// Builds a `String` from characters.
///
/// Trusted: calls `Iterator::collect::<String>` of std, which yields a string
/// made of exactly the given characters in order.
#[verifier::external_body]
pub(crate) fn string_from_chars(v: &[char]) -> (s: String)
    ensures
        s@ == v@,
{
    v.iter().collect::<String>()
}

/// Appends all characters of `src` to `dst`.
pub fn push_all(dst: &mut Vec<char>, src: &[char])
    ensures
        final(dst)@ == old(dst)@ + src@,
{
    let n = src.len();
    for i in 0..n
        invariant
            n == src@.len(),
            dst@ == old(dst)@ + src@.take(i as int),
    {
        dst.push(src[i]);
        assert(src@.take(i + 1) == src@.take(i as int).push(src@[i as int]));
    }
    assert(src@.take(n as int) == src@);
}

/// Appends the characters of a string slice to `dst`.
pub fn push_str(dst: &mut Vec<char>, s: &str)
    ensures
        final(dst)@ == old(dst)@ + s@,
{
    let cs = chars_of(s);
    push_all(dst, cs.as_slice());
}

/// Concatenation of two string slices as characters.
pub fn concat_str(a: &str, b: &str) -> (v: Vec<char>)
    ensures
        v@ == a@ + b@,
{
    let mut v = chars_of(a);
    push_str(&mut v, b);
    v
}

/// Whether `p` occurs in `s` at index `i`.
pub fn matches_at(s: &[char], p: &[char], i: usize) -> (b: bool)
    ensures
        b == occurs_at(s@, p@, i as int),
{
    if p.len() > s.len() || i > s.len() - p.len() {
        return false;
    }
    let n = p.len();
    for j in 0..n
        invariant
            n == p@.len(),
            i + n <= s@.len(),
            s@.len() == s.len(),
            forall|k: int| 0 <= k < j ==> s@[i + k] == p@[k],
    {
        assert(i + j < s.len());
        if s[i + j] != p[j] {
            assert(s@.subrange(i as int, i + n)[j as int] != p@[j as int]);
            return false;
        }
    }
    assert(s@.subrange(i as int, i + n) =~= p@);
    true
}

/// Whether two character sequences are equal.
pub fn chars_eq(a: &[char], b: &[char]) -> (r: bool)
    ensures
        r == (a@ == b@),
{
    if a.len() != b.len() {
        return false;
    }
    let r = matches_at(a, b, 0);
    assert(a@.subrange(0, a@.len() as int) =~= a@);
    r
}

/// Whether `s` starts with `p`.
pub fn starts_with(s: &[char], p: &[char]) -> (b: bool)
    ensures
        b == seq_starts_with(s@, p@),
{
    matches_at(s, p, 0)
}

/// Whether `s` ends with `p`.
pub fn ends_with(s: &[char], p: &[char]) -> (b: bool)
    ensures
        b == seq_ends_with(s@, p@),
{
    if p.len() > s.len() {
        return false;
    }
    matches_at(s, p, s.len() - p.len())
}

/// Whether `p` occurs in `s`.
pub fn contains(s: &[char], p: &[char]) -> (b: bool)
    ensures
        b == seq_contains(s@, p@),
{
    if p.len() > s.len() {
        assert forall|i: int| !occurs_at(s@, p@, i) by {}
        return false;
    }
    if p.len() == 0 {
        assert(s@.subrange(0, 0) =~= p@);
        assert(occurs_at(s@, p@, 0));
        return true;
    }
    let end = s.len() - p.len() + 1;
    for i in 0..end
        invariant
            end == s@.len() - p@.len() + 1,
            forall|k: int| 0 <= k < i ==> !occurs_at(s@, p@, k),
    {
        if matches_at(s, p, i) {
            return true;
        }
    }
    assert forall|k: int| !occurs_at(s@, p@, k) by {
        if occurs_at(s@, p@, k) {
            assert(k < end);
        }
    }
    false
}

/// Index of the last occurrence of `p` in `s`.
pub fn rfind(s: &[char], p: &[char]) -> (r: Option<usize>)
    ensures
        match r {
            Some(i) => occurs_at(s@, p@, i as int) && forall|k: int|
                i < k ==> !occurs_at(s@, p@, k),
            None => forall|k: int| !occurs_at(s@, p@, k),
        },
{
    if p.len() > s.len() {
        return None;
    }
    if p.len() == 0 {
        assert(s@.subrange(s@.len() as int, s@.len() as int) =~= p@);
        return Some(s.len());
    }
    let mut i: usize = s.len() - p.len() + 1;
    while i > 0
        invariant
            i <= s@.len() - p@.len() + 1,
            forall|k: int| i <= k ==> !occurs_at(s@, p@, k),
        decreases i,
    {
        i = i - 1;
        if matches_at(s, p, i) {
            return Some(i);
        }
    }
    None
}

/// Whether character `c` occurs in `s`.
pub fn contains_char(s: &[char], c: char) -> (b: bool)
    ensures
        b == has_char(s@, c),
{
    let n = s.len();
    for i in 0..n
        invariant
            n == s@.len(),
            forall|k: int| 0 <= k < i ==> s@[k] != c,
    {
        if s[i] == c {
            return true;
        }
    }
    false
}

/// Whether every character is an ASCII digit.
pub fn is_all_digits(s: &[char]) -> (b: bool)
    ensures
        b == all_digits(s@),
{
    let n = s.len();
    for i in 0..n
        invariant
            n == s@.len(),
            forall|k: int| 0 <= k < i ==> is_digit(#[trigger] s@[k]),
    {
        if !(s[i] >= '0' && s[i] <= '9') {
            return false;
        }
    }
    true
}

/// Whether `c` is whitespace.
pub fn char_is_space(c: char) -> (b: bool)
    ensures
        b == is_space(c),
{
    c == ' ' || c == '\t' || c == '\n' || c == '\r' || c == '\u{0B}' || c == '\u{0C}'
        || c == '\u{85}' || c == '\u{A0}' || c == '\u{1680}' || ('\u{2000}' <= c && c
        <= '\u{200A}') || c == '\u{2028}' || c == '\u{2029}' || c == '\u{202F}' || c
        == '\u{205F}' || c == '\u{3000}'
}

/// The sub-sequence `s[from..to]`.
pub fn slice_chars(s: &[char], from: usize, to: usize) -> (v: Vec<char>)
    requires
        from <= to <= s@.len(),
    ensures
        v@ == s@.subrange(from as int, to as int),
{
    let mut v: Vec<char> = Vec::new();
    let mut i = from;
    while i < to
        invariant
            from <= i <= to <= s@.len(),
            v@ == s@.subrange(from as int, i as int),
        decreases to - i,
    {
        v.push(s[i]);
        assert(s@.subrange(from as int, i + 1) == s@.subrange(from as int, i as int).push(
            s@[i as int],
        ));
        i = i + 1;
    }
    v
}

/// Index of the first non-space character at or after the start.
pub open spec fn trim_start_index(s: Seq<char>) -> int
    decreases s.len(),
{
    if s.len() == 0 {
        0
    } else if is_space(s[0]) {
        1 + trim_start_index(s.subrange(1, s.len() as int))
    } else {
        0
    }
}

/// Leading and trailing whitespace removed.
pub open spec fn trimmed(s: Seq<char>) -> Seq<char> {
    let lo = first_non_space(s);
    let hi = last_non_space_end(s);
    if lo < hi { s.subrange(lo, hi) } else { Seq::empty() }
}

/// Index of the first non-space character, or `s.len()` if none.
pub open spec fn first_non_space(s: Seq<char>) -> int {
    if exists|i: int| 0 <= i < s.len() && !is_space(s[i]) {
        choose|i: int|
            0 <= i < s.len() && !is_space(s[i]) && forall|k: int| 0 <= k < i ==> is_space(s[k])
    } else {
        s.len() as int
    }
}

/// One past the last non-space character, or 0 if none.
pub open spec fn last_non_space_end(s: Seq<char>) -> int {
    if exists|i: int| 0 <= i < s.len() && !is_space(s[i]) {
        1 + choose|i: int|
            0 <= i < s.len() && !is_space(s[i]) && forall|k: int| i < k < s.len() ==> is_space(
                s[k],
            )
    } else {
        0
    }
}

/// Removes leading and trailing whitespace.
pub fn trim(s: &[char]) -> (v: Vec<char>)
    ensures
        v@ == trimmed(s@),
{
    let n = s.len();
    let mut lo: usize = 0;
    while lo < n && char_is_space(s[lo])
        invariant
            lo <= n == s@.len(),
            forall|k: int| 0 <= k < lo ==> is_space(s@[k]),
        decreases n - lo,
    {
        lo = lo + 1;
    }
    if lo == n {
        assert(!exists|i: int| 0 <= i < s@.len() && !is_space(s@[i]));
        return Vec::new();
    }
    let mut hi: usize = n;
    while hi > lo && char_is_space(s[hi - 1])
        invariant
            lo < n,
            lo <= hi <= n == s@.len(),
            !is_space(s@[lo as int]),
            forall|k: int| hi <= k < n ==> is_space(s@[k]),
        decreases hi,
    {
        hi = hi - 1;
    }
    assert(hi > lo);
    proof {
        let w = lo as int;
        assert(0 <= w < s@.len() && !is_space(s@[w]));
        let a = choose|i: int|
            0 <= i < s@.len() && !is_space(s@[i]) && forall|k: int| 0 <= k < i ==> is_space(s@[k]);
        assert(0 <= w < s@.len() && !is_space(s@[w]) && forall|k: int| 0 <= k < w ==> is_space(s@[k]));
        assert(a == w) by {
            if a < w {
            } else if a > w {
            }
        }
        let z = (hi - 1) as int;
        assert(0 <= z < s@.len() && !is_space(s@[z]) && forall|k: int| z < k < s@.len() ==> is_space(s@[k]));
        let b = choose|i: int|
            0 <= i < s@.len() && !is_space(s@[i]) && forall|k: int| i < k < s@.len() ==> is_space(s@[k]);
        assert(b == z) by {
            if b < z {
            } else if b > z {
            }
        }
    }
    slice_chars(s, lo, hi)
}

proof fn lemma_decimal_len(n: nat)
    ensures
        decimal(n).len() >= 1,
    decreases n,
{
    if n >= 10 {
        lemma_decimal_len(n / 10);
    }
}

/// The character of a digit value below ten.
pub fn digit_to_char(d: u64) -> (c: char)
    requires
        d < 10,
    ensures
        c == digit_char(d as nat),
{
    if d == 0 { '0' } else if d == 1 { '1' } else if d == 2 { '2' } else if d == 3 { '3' }
    else if d == 4 { '4' } else if d == 5 { '5' } else if d == 6 { '6' } else if d == 7 { '7' }
    else if d == 8 { '8' } else { '9' }
}

/// Decimal digits of `n`.
pub fn decimal_chars(n: u64) -> (v: Vec<char>)
    ensures
        v@ == decimal(n as nat),
    decreases n,
{
    if n < 10 {
        let mut v = Vec::new();
        v.push(digit_to_char(n));
        v
    } else {
        let mut v = decimal_chars(n / 10);
        v.push(digit_to_char(n % 10));
        v
    }
}

/// Decimal digits of `n`, left-padded with zeros to at least `width`.
pub fn decimal_chars_padded(n: u64, width: usize) -> (v: Vec<char>)
    ensures
        v@ == decimal_padded(n as nat, width as nat),
{
    let d = decimal_chars(n);
    if d.len() >= width {
        return d;
    }
    let pad = width - d.len();
    let mut v: Vec<char> = Vec::new();
    for i in 0..pad
        invariant
            v@ == Seq::new(i as nat, |k: int| '0'),
    {
        v.push('0');
        assert(v@ =~= Seq::new((i + 1) as nat, |k: int| '0'));
    }
    push_all(&mut v, d.as_slice());
    v
}

/// Decimal text of `n` as a `String`.
pub fn decimal_string(n: u64) -> (s: String)
    ensures
        s@ == decimal(n as nat),
{
    let v = decimal_chars(n);
    string_from_chars(v.as_slice())
}

} // verus!

verus! {

/// Whether a string slice equals another one, character by character.
pub fn str_is(s: &str, other: &str) -> (b: bool)
    ensures
        b == (s@ == other@),
{
    let a = chars_of(s);
    let c = chars_of(other);
    chars_eq(a.as_slice(), c.as_slice())
}

/// Some string of the vector equals `item`.
pub open spec fn seq_has_str(v: Seq<String>, item: Seq<char>) -> bool {
    exists|i: int| 0 <= i < v.len() && (#[trigger] v[i])@ == item
}

/// Whether some string of the vector equals `item`.
pub fn vec_has_str(v: &Vec<String>, item: &str) -> (b: bool)
    ensures
        b == seq_has_str(v@, item@),
{
    let n = v.len();
    for i in 0..n
        invariant
            n == v@.len(),
            forall|k: int| 0 <= k < i ==> (#[trigger] v@[k])@ != item@,
    {
        if str_is(v[i].as_str(), item) {
            return true;
        }
    }
    false
}

/// A string made of the characters of a literal.
pub fn owned(s: &str) -> (r: String)
    ensures
        r@ == s@,
{
    let v = chars_of(s);
    string_from_chars(v.as_slice())
}

/// The characters of an owned string.
pub fn chars_of_string(s: &String) -> (v: Vec<char>)
    ensures
        v@ == s@,
{
    chars_of(s.as_str())
}


/// Decimal representation of a signed integer.
pub open spec fn signed_decimal(n: int) -> Seq<char> {
    if n < 0 {
        seq!['-'] + decimal((-n) as nat)
    } else {
        decimal(n as nat)
    }
}

/// Decimal digits of a signed integer, with a minus sign when negative.
pub fn signed_decimal_chars(n: i64) -> (v: Vec<char>)
    ensures
        v@ == signed_decimal(n as int),
{
    if n < 0 {
        let m: u64 = ((-(n + 1)) as u64) + 1;
        assert(m as int == -(n as int));
        let mut v = Vec::new();
        v.push('-');
        let d = decimal_chars(m);
        push_all(&mut v, d.as_slice());
        v
    } else {
        decimal_chars(n as u64)
    }
}


/// The texts of a sequence of strings.
pub open spec fn views(v: Seq<String>) -> Seq<Seq<char>> {
    v.map_values(|s: String| s@)
}

/// The parts joined with `sep` between each two of them.
pub open spec fn joined(parts: Seq<Seq<char>>, sep: Seq<char>) -> Seq<char>
    decreases parts.len(),
{
    if parts.len() == 0 {
        Seq::empty()
    } else if parts.len() == 1 {
        parts[0]
    } else {
        joined(parts.drop_last(), sep) + sep + parts.last()
    }
}

/// The strings of `v` joined with `sep` between each two of them.
pub fn join_strings(v: &Vec<String>, sep: &str) -> (r: String)
    ensures
        r@ == joined(views(v@), sep@),
{
    let n = v.len();
    let mut acc: Vec<char> = Vec::new();
    for i in 0..n
        invariant
            n == v@.len(),
            acc@ == joined(views(v@.take(i as int)), sep@),
    {
        let ghost before = views(v@.take(i as int));
        assert(views(v@.take(i + 1)).drop_last() =~= before);
        assert(views(v@.take(i + 1)).last() == v@[i as int]@);
        if i > 0 {
            push_str(&mut acc, sep);
        } else {
            assert(before.len() == 0);
            assert(views(v@.take(i + 1)) =~= seq![v@[0]@]);
        }
        let cs = chars_of_string(&v[i]);
        push_all(&mut acc, cs.as_slice());
    }
    assert(v@.take(n as int) =~= v@);
    string_from_chars(acc.as_slice())
}

/// Text of a boolean.
pub open spec fn bool_text(b: bool) -> Seq<char> {
    if b {
        "true"@
    } else {
        "false"@
    }
}

/// Text of a boolean: "true" or "false".
pub fn bool_string(b: bool) -> (s: String)
    ensures
        s@ == bool_text(b),
{
    if b {
        owned("true")
    } else {
        owned("false")
    }
}

/// The text of an optional string, empty when absent.
pub open spec fn text_or_empty(o: Option<String>) -> Seq<char> {
    match o {
        Some(s) => s@,
        None => Seq::empty(),
    }
}

/// The string, or an empty one when absent.
pub fn string_or_empty(o: Option<String>) -> (s: String)
    ensures
        s@ == text_or_empty(o),
{
    match o {
        Some(s) => s,
        None => {
            proof {
                reveal_strlit("");
            }
            owned("")
        },
    }
}


/// An ASCII letter or digit.
pub open spec fn is_ascii_alnum(c: char) -> bool {
    ('0' <= c && c <= '9') || ('a' <= c && c <= 'z') || ('A' <= c && c <= 'Z')
}

/// The character with ASCII capitals made small.
pub open spec fn ascii_lower_char(c: char) -> char {
    if 'A' <= c && c <= 'Z' {
        ((c as u32) + 32) as char
    } else {
        c
    }
}

/// The text with ASCII capitals made small.
pub open spec fn ascii_lower(s: Seq<char>) -> Seq<char> {
    s.map_values(|c: char| ascii_lower_char(c))
}

/// The characters with ASCII capitals made small.
pub fn to_ascii_lower(s: &[char]) -> (v: Vec<char>)
    ensures
        v@ == ascii_lower(s@),
{
    let n = s.len();
    let mut v: Vec<char> = Vec::new();
    for i in 0..n
        invariant
            n == s@.len(),
            v@ == ascii_lower(s@.take(i as int)),
    {
        let c = s[i];
        let l = if 'A' <= c && c <= 'Z' {
            let b: u8 = ((c as u32) + 32) as u8;
            b as char
        } else {
            c
        };
        v.push(l);
        assert(ascii_lower(s@.take(i + 1)) =~= ascii_lower(s@.take(i as int)).push(l));
    }
    assert(s@.take(n as int) =~= s@);
    v
}


/// The rest of `s` after the prefix `p`, when `s` starts with it.
pub fn strip_prefix(s: &str, p: &str) -> (r: Option<String>)
    ensures
        r is Some <==> seq_starts_with(s@, p@),
        r matches Some(x) ==> x@ == s@.skip(p@.len() as int),
{
    let sv = chars_of(s);
    let pv = chars_of(p);
    if starts_with(sv.as_slice(), pv.as_slice()) {
        let rest = slice_chars(sv.as_slice(), pv.len(), sv.len());
        assert(rest@ =~= s@.skip(p@.len() as int));
        Some(string_from_chars(rest.as_slice()))
    } else {
        None
    }
}

} // verus!
