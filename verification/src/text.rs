//! Text primitives: whitespace, case, search, lines, words and decimal numbers.
//!
//! Every function works on the characters of a string; its contract names a
//! spec function over `Seq<char>` that says what the result is.

use vstd::prelude::*;
use vstd::string::*;

verus! {

/// The characters of a slice of strings.
pub open spec fn texts(items: Seq<String>) -> Seq<Seq<char>> {
    Seq::new(items.len(), |i: int| items[i]@)
}

/// The characters of a slice of string slices.
pub open spec fn strs(items: Seq<&str>) -> Seq<Seq<char>> {
    Seq::new(items.len(), |i: int| items[i]@)
}

/// The characters of a string that may be missing.
pub open spec fn maybe(s: Option<String>) -> Option<Seq<char>> {
    match s {
        Some(s) => Some(s@),
        None => None,
    }
}

/// Whether `s` is one of `items`.
pub fn is_one_of(s: &str, items: &Vec<&str>) -> (r: bool)
    ensures
        r == strs(items@).contains(s@),
{
    let mut i: usize = 0;
    while i < items.len()
        invariant
            i <= items@.len(),
            forall|k: int| 0 <= k < i ==> strs(items@)[k] != s@,
        decreases items@.len() - i,
    {
        if same(items[i], s) {
            assert(strs(items@)[i as int] == s@);
            return true;
        }
        i = i + 1;
    }
    false
}

/// The characters of `s`, one by one.
pub fn chars_of(s: &str) -> (r: Vec<char>)
    ensures
        r@ == s@,
{
    let mut out: Vec<char> = Vec::new();
    for c in it: s.chars()
        invariant
            it.seq() == s@,
            out@ == s@.take(it.index()),
    {
        out.push(c);
    }
    out
}

/// Whether two strings hold the same characters.
pub fn same(a: &str, b: &str) -> (r: bool)
    ensures
        r == (a@ == b@),
{
    let x = a.as_bytes();
    let y = b.as_bytes();
    proof {
        vstd::utf8::encode_utf8_decode_utf8(a@);
        vstd::utf8::encode_utf8_decode_utf8(b@);
    }
    if x.len() != y.len() {
        return false;
    }
    let mut i: usize = 0;
    while i < x.len()
        invariant
            i <= x@.len(),
            x@.len() == y@.len(),
            forall|k: int| 0 <= k < i ==> x@[k] == y@[k],
            x@ == a.spec_bytes(),
            y@ == b.spec_bytes(),
        decreases x@.len() - i,
    {
        if x[i] != y[i] {
            return false;
        }
        i = i + 1;
    }
    assert(x@ =~= y@);
    true
}

/// The characters that Unicode gives the White_Space property.
pub open spec fn white(c: char) -> bool {
    ||| '\u{9}' <= c <= '\u{d}'
    ||| c == ' '
    ||| c == '\u{85}'
    ||| c == '\u{a0}'
    ||| c == '\u{1680}'
    ||| '\u{2000}' <= c <= '\u{200a}'
    ||| c == '\u{2028}'
    ||| c == '\u{2029}'
    ||| c == '\u{202f}'
    ||| c == '\u{205f}'
    ||| c == '\u{3000}'
}

/// Whether `c` has the White_Space property.
pub fn is_white(c: char) -> (r: bool)
    ensures
        r == white(c),
{
    ('\u{9}' <= c && c <= '\u{d}') || c == ' ' || c == '\u{85}' || c == '\u{a0}' || c == '\u{1680}'
        || ('\u{2000}' <= c && c <= '\u{200a}') || c == '\u{2028}' || c == '\u{2029}'
        || c == '\u{202f}' || c == '\u{205f}' || c == '\u{3000}'
}

/// `s` without its leading white space.
pub open spec fn trim_front(s: Seq<char>) -> Seq<char>
    decreases s.len(),
{
    if s.len() > 0 && white(s[0]) {
        trim_front(s.skip(1))
    } else {
        s
    }
}

/// `s` without its trailing white space.
pub open spec fn trim_back(s: Seq<char>) -> Seq<char>
    decreases s.len(),
{
    if s.len() > 0 && white(s.last()) {
        trim_back(s.drop_last())
    } else {
        s
    }
}

/// `s` without white space on either side.
pub open spec fn trimmed(s: Seq<char>) -> Seq<char> {
    trim_back(trim_front(s))
}

proof fn lemma_trim_front(s: Seq<char>, i: int)
    requires
        0 <= i <= s.len(),
        forall|k: int| 0 <= k < i ==> white(#[trigger] s[k]),
        i < s.len() ==> !white(s[i]),
    ensures
        trim_front(s) == s.skip(i),
    decreases s.len(),
{
    if i > 0 {
        lemma_trim_front(s.skip(1), i - 1);
        assert(s.skip(1).skip(i - 1) =~= s.skip(i));
    } else {
        assert(s.skip(0) =~= s);
    }
}

proof fn lemma_trim_back(s: Seq<char>, j: int)
    requires
        0 <= j <= s.len(),
        forall|k: int| j <= k < s.len() ==> white(#[trigger] s[k]),
        j > 0 ==> !white(s[j - 1]),
    ensures
        trim_back(s) == s.take(j),
    decreases s.len(),
{
    if j < s.len() {
        lemma_trim_back(s.drop_last(), j);
        assert(s.drop_last().take(j) =~= s.take(j));
    } else {
        assert(s.take(j) =~= s);
    }
}

/// `s` without white space on either side.
pub fn trim(s: &str) -> (r: &str)
    ensures
        r@ == trimmed(s@),
{
    let chars = chars_of(s);
    let mut i: usize = 0;
    while i < chars.len() && is_white(chars[i])
        invariant
            i <= chars@.len(),
            chars@ == s@,
            forall|k: int| 0 <= k < i ==> white(#[trigger] s@[k]),
        decreases chars@.len() - i,
    {
        i = i + 1;
    }
    let mut j: usize = chars.len();
    while j > i && is_white(chars[j - 1])
        invariant
            i <= j <= chars@.len(),
            chars@ == s@,
            forall|k: int| j <= k < s@.len() ==> white(#[trigger] s@[k]),
        decreases j,
    {
        j = j - 1;
    }
    proof {
        lemma_trim_front(s@, i as int);
        let rest = s@.skip(i as int);
        assert forall|k: int| j - i <= k < rest.len() implies white(#[trigger] rest[k]) by {
            assert(rest[k] == s@[k + i]);
        }
        lemma_trim_back(rest, j - i);
        assert(rest.take(j - i) =~= s@.subrange(i as int, j as int));
    }
    s.substring_char(i, j)
}

/// The ASCII letter of `c` in lower case; any other character is itself.
pub open spec fn lower_char(c: char) -> char {
    if 'A' <= c <= 'Z' {
        ((c as u8) + 32) as u8 as char
    } else {
        c
    }
}

/// `s` with its ASCII letters in lower case.
pub open spec fn ascii_lower(s: Seq<char>) -> Seq<char> {
    s.map_values(|c: char| lower_char(c))
}

/// What `str::to_lowercase` makes of a string with these characters.
pub uninterp spec fn lowercased(s: Seq<char>) -> Seq<char>;

/// `str::to_lowercase`: the string in lower case by Unicode's case mapping. The mapping as a
/// whole is named, not written out; of a string that is all ASCII it is known that
/// each letter from `A` to `Z` becomes the small one and nothing else changes.
#[verifier::external_body]
fn to_lowercase(s: &str) -> (r: String)
    ensures
        r@ == lowercased(s@),
        is_ascii(s) ==> r@ == ascii_lower(s@),
{
    s.to_lowercase()
}

/// `s` in lower case: letter by letter where it is all ASCII, by Unicode's mapping otherwise.
pub open spec fn lowered(s: Seq<char>) -> Seq<char> {
    if vstd::utf8::is_ascii_chars(s) {
        ascii_lower(s)
    } else {
        lowercased(s)
    }
}

/// `s` in lower case.
pub fn lowered_text(s: &str) -> (r: String)
    ensures
        r@ == lowered(s@),
{
    to_lowercase(s)
}

/// `String::push` appends one character.
pub assume_specification[ String::push ](s: &mut String, c: char)
    ensures
        final(s)@ == old(s)@.push(c),
;

/// The ASCII letter of `c` in lower case; any other character is itself.
pub fn lower(c: char) -> (r: char)
    ensures
        r == lower_char(c),
{
    if 'A' <= c && c <= 'Z' {
        ((c as u8) + 32) as char
    } else {
        c
    }
}

/// `s` with its ASCII letters in lower case.
pub fn to_ascii_lower(s: &str) -> (r: String)
    ensures
        r@ == ascii_lower(s@),
{
    let chars = chars_of(s);
    let mut out = String::new();
    let mut i: usize = 0;
    while i < chars.len()
        invariant
            i <= chars@.len(),
            chars@ == s@,
            out@ == ascii_lower(s@.take(i as int)),
        decreases chars@.len() - i,
    {
        out.push(lower(chars[i]));
        i = i + 1;
        assert(ascii_lower(s@.take(i as int)) =~= ascii_lower(s@.take(i - 1)).push(
            lower_char(s@[i - 1]),
        ));
    }
    assert(s@.take(s@.len() as int) =~= s@);
    out
}

/// Whether two strings are the same but for the case of ASCII letters.
pub fn same_ignoring_ascii_case(a: &str, b: &str) -> (r: bool)
    ensures
        r == (ascii_lower(a@) == ascii_lower(b@)),
{
    let x = to_ascii_lower(a);
    let y = to_ascii_lower(b);
    same(x.as_str(), y.as_str())
}

/// Whether `hay` begins with `needle`.
pub open spec fn begins(hay: Seq<char>, needle: Seq<char>) -> bool {
    needle.len() <= hay.len() && hay.take(needle.len() as int) == needle
}

/// Whether `needle` stands somewhere in `hay`.
pub open spec fn occurs(needle: Seq<char>, hay: Seq<char>) -> bool {
    exists|i: int|
        0 <= i <= hay.len() - needle.len() && #[trigger] hay.subrange(i, i + needle.len()) == needle
}

fn matches_at(hay: &Vec<char>, needle: &Vec<char>, at: usize) -> (r: bool)
    requires
        at + needle@.len() <= hay@.len(),
    ensures
        r == (hay@.subrange(at as int, at + needle@.len()) == needle@),
{
    let mut k: usize = 0;
    while k < needle.len()
        invariant
            k <= needle@.len(),
            at + needle@.len() <= hay.len(),
            forall|m: int| 0 <= m < k ==> hay@[at + m] == needle@[m],
        decreases needle@.len() - k,
    {
        if hay[at + k] != needle[k] {
            assert(hay@.subrange(at as int, at + needle@.len())[k as int] != needle@[k as int]);
            return false;
        }
        k = k + 1;
    }
    assert(hay@.subrange(at as int, at + needle@.len()) =~= needle@);
    true
}

/// Whether `hay` begins with `needle`.
pub fn starts_with(hay: &str, needle: &str) -> (r: bool)
    ensures
        r == begins(hay@, needle@),
{
    let h = chars_of(hay);
    let n = chars_of(needle);
    assert(needle@.len() <= hay@.len() ==> hay@.subrange(0, needle@.len() as int)
        =~= hay@.take(needle@.len() as int));
    n.len() <= h.len() && matches_at(&h, &n, 0)
}

/// Whether `needle` stands somewhere in `hay`.
pub fn contains(hay: &str, needle: &str) -> (r: bool)
    ensures
        r == occurs(needle@, hay@),
{
    let h = chars_of(hay);
    let n = chars_of(needle);
    if n.len() > h.len() {
        return false;
    }
    let last: usize = h.len() - n.len();
    let mut i: usize = 0;
    while i <= last
        invariant
            i <= last + 1,
            last == h@.len() - n@.len(),
            h@ == hay@,
            n@ == needle@,
            forall|k: int|
                0 <= k < i ==> #[trigger] hay@.subrange(k, k + needle@.len()) != needle@,
        decreases last + 1 - i,
    {
        if matches_at(&h, &n, i) {
            return true;
        }
        if i == last {
            return false;
        }
        i = i + 1;
    }
    false
}

/// Where `c` first stands in `s`; the length of `s` if nowhere.
pub open spec fn find(s: Seq<char>, c: char) -> int
    decreases s.len(),
{
    if s.len() == 0 || s[0] == c {
        0
    } else {
        1 + find(s.skip(1), c)
    }
}

/// `find` stops at the first occurrence and nowhere else.
pub proof fn lemma_find(s: Seq<char>, c: char)
    ensures
        0 <= find(s, c) <= s.len(),
        find(s, c) < s.len() ==> s[find(s, c)] == c,
        forall|k: int| 0 <= k < find(s, c) ==> #[trigger] s[k] != c,
    decreases s.len(),
{
    if s.len() > 0 && s[0] != c {
        let rest = s.skip(1);
        lemma_find(rest, c);
        assert forall|k: int| 0 <= k < find(s, c) implies #[trigger] s[k] != c by {
            if k > 0 {
                assert(rest[k - 1] == s[k]);
            }
        }
    }
}

/// A place before which `c` does not stand, and where it does or `s` ends, is what `find` finds.
pub proof fn lemma_find_is(s: Seq<char>, c: char, at: int)
    requires
        0 <= at <= s.len(),
        forall|k: int| 0 <= k < at ==> #[trigger] s[k] != c,
        at < s.len() ==> s[at] == c,
    ensures
        find(s, c) == at,
{
    lemma_find(s, c);
    let f = find(s, c);
    if f < at {
        assert(s[f] != c);
    } else if at < f {
        assert(s[at] != c);
    }
}

/// Where `c` first stands in `s` at or after `from`; the length of `s` if nowhere.
pub(crate) fn find_from(s: &Vec<char>, c: char, from: usize) -> (r: usize)
    requires
        from <= s@.len(),
    ensures
        from <= r <= s@.len(),
        r == from + find(s@.skip(from as int), c),
{
    let mut i: usize = from;
    while i < s.len() && s[i] != c
        invariant
            from <= i <= s@.len(),
            forall|k: int| from <= k < i ==> #[trigger] s@[k] != c,
        decreases s@.len() - i,
    {
        i = i + 1;
    }
    proof {
        let rest = s@.skip(from as int);
        assert forall|k: int| 0 <= k < i - from implies #[trigger] rest[k] != c by {
            assert(rest[k] == s@[k + from]);
        }
        lemma_find_is(rest, c, i - from);
    }
    i
}

/// The two sides of the first `c` in `s`, if there is one.
pub open spec fn halves(s: Seq<char>, c: char) -> Option<(Seq<char>, Seq<char>)> {
    let at = find(s, c);
    if at < s.len() {
        Some((s.take(at), s.skip(at + 1)))
    } else {
        None
    }
}

/// The two sides of the first `c` in `s`, if there is one.
pub fn split_once(s: &str, c: char) -> (r: Option<(&str, &str)>)
    ensures
        halves(s@, c) == (match r {
            Some((a, b)) => Some((a@, b@)),
            None => None,
        }),
{
    let chars = chars_of(s);
    let at = find_from(&chars, c, 0);
    assert(s@.skip(0) =~= s@);
    if at < chars.len() {
        let a = s.substring_char(0, at);
        let b = s.substring_char(at + 1, chars.len());
        assert(a@ =~= s@.take(at as int));
        assert(b@ =~= s@.skip(at + 1));
        Some((a, b))
    } else {
        None
    }
}

/// Whether the character `c` stands in `s`.
pub fn contains_char(s: &str, c: char) -> (r: bool)
    ensures
        r == s@.contains(c),
{
    let chars = chars_of(s);
    let mut i: usize = 0;
    while i < chars.len()
        invariant
            i <= chars@.len(),
            chars@ == s@,
            forall|k: int| 0 <= k < i ==> s@[k] != c,
        decreases chars@.len() - i,
    {
        if chars[i] == c {
            assert(s@[i as int] == c);
            return true;
        }
        i = i + 1;
    }
    false
}

/// A decimal digit.
pub open spec fn digit(c: char) -> bool {
    '0' <= c <= '9'
}

/// The number that a decimal digit stands for.
pub open spec fn digit_value(c: char) -> nat {
    (c as nat - '0' as nat) as nat
}

/// Whether `s` holds nothing but decimal digits.
pub open spec fn all_digits(s: Seq<char>) -> bool {
    forall|i: int| 0 <= i < s.len() ==> digit(#[trigger] s[i])
}

/// The number that the digits `s` write in base ten.
pub open spec fn digits_value(s: Seq<char>) -> nat
    decreases s.len(),
{
    if s.len() == 0 {
        0
    } else {
        digits_value(s.drop_last()) * 10 + digit_value(s.last())
    }
}

/// The digit for `n`, which is below ten.
pub open spec fn digit_char(n: nat) -> char {
    ('0' as nat + n) as u8 as char
}

/// `n` written in base ten, without leading zeros.
pub open spec fn decimal(n: nat) -> Seq<char>
    decreases n,
{
    if n < 10 {
        seq![digit_char(n)]
    } else {
        decimal(n / 10).push(digit_char(n % 10))
    }
}

/// `i` written in base ten, with a minus sign when it is negative.
pub open spec fn signed_decimal(i: int) -> Seq<char> {
    if i < 0 {
        seq!['-'] + decimal((-i) as nat)
    } else {
        decimal(i as nat)
    }
}

/// `decimal` writes at least one digit, digits alone, and they read back as the number.
pub proof fn lemma_decimal(n: nat)
    ensures
        decimal(n).len() > 0,
        all_digits(decimal(n)),
        digits_value(decimal(n)) == n,
    decreases n,
{
    reveal_with_fuel(digits_value, 2);
    if n >= 10 {
        lemma_decimal(n / 10);
        let s = decimal(n);
        assert(s.drop_last() =~= decimal(n / 10));
        assert(digit_value(digit_char(n % 10)) == n % 10);
        assert forall|i: int| 0 <= i < s.len() implies digit(#[trigger] s[i]) by {
            if i < s.len() - 1 {
                assert(s[i] == decimal(n / 10)[i]);
            }
        }
    } else {
        assert(decimal(n).drop_last() =~= Seq::<char>::empty());
        assert(digit_value(digit_char(n)) == n);
    }
}

/// Only zero is written with a leading zero.
pub proof fn lemma_decimal_leading(n: nat)
    requires
        n > 0,
    ensures
        decimal(n)[0] != '0',
    decreases n,
{
    if n >= 10 {
        lemma_decimal_leading(n / 10);
        lemma_decimal(n / 10);
        assert(decimal(n)[0] == decimal(n / 10)[0]);
    }
}

/// Digits without a leading zero are what `decimal` writes for their value.
pub proof fn lemma_decimal_canonical(s: Seq<char>)
    requires
        s.len() > 0,
        all_digits(s),
        s.len() == 1 || s[0] != '0',
    ensures
        decimal(digits_value(s)) == s,
        s.len() > 1 ==> digits_value(s) >= 10,
    decreases s.len(),
{
    let head = s.drop_last();
    let last = s.last();
    assert(digit(s[s.len() - 1]));
    assert(digit_char(digit_value(last)) == last);
    if s.len() == 1 {
        assert(head =~= Seq::<char>::empty());
        assert(digits_value(head) == 0);
        assert(s =~= seq![last]);
    } else {
        assert forall|i: int| 0 <= i < head.len() implies digit(#[trigger] head[i]) by {
            assert(head[i] == s[i]);
        }
        assert(head[0] == s[0]);
        lemma_decimal_canonical(head);
        if head.len() == 1 {
            assert(head.drop_last() =~= Seq::<char>::empty());
            reveal_with_fuel(digits_value, 2);
            assert(digits_value(head) == digit_value(s[0]));
        }
        let n = digits_value(s);
        assert(n / 10 == digits_value(head));
        assert(n % 10 == digit_value(last));
        assert(decimal(n) =~= head.push(last));
        assert(s =~= head.push(last));
    }
}

/// `n` written in base ten, without leading zeros.
pub fn decimal_text(n: u64) -> (r: String)
    ensures
        r@ == decimal(n as nat),
    decreases n,
{
    let last: char = (48u8 + (n % 10) as u8) as char;
    if n < 10 {
        let mut out = String::new();
        out.push(last);
        assert(out@ =~= decimal(n as nat));
        out
    } else {
        let mut out = decimal_text(n / 10);
        out.push(last);
        out
    }
}

/// `n` written in base ten, with a minus sign when it is negative.
pub fn signed_decimal_text(n: i64) -> (r: String)
    ensures
        r@ == signed_decimal(n as int),
{
    if n < 0 {
        let mut out = String::new();
        out.push('-');
        let magnitude: u64 = if n == i64::MIN {
            9_223_372_036_854_775_808
        } else {
            (-n) as u64
        };
        let digits = decimal_text(magnitude);
        out.append(digits.as_str());
        assert(out@ =~= signed_decimal(n as int));
        out
    } else {
        decimal_text(n as u64)
    }
}

/// The number that an integer literal stands for: an optional sign (a minus only where
/// `negative` allows it), then one decimal digit or more, and nothing else.
pub open spec fn integer_of(s: Seq<char>, negative: bool) -> Option<int> {
    let signed = s.len() > 0 && (s[0] == '+' || (negative && s[0] == '-'));
    let digits = if signed {
        s.skip(1)
    } else {
        s
    };
    if digits.len() == 0 || !all_digits(digits) {
        None
    } else if signed && s[0] == '-' {
        Some(-digits_value(digits))
    } else {
        Some(digits_value(digits) as int)
    }
}

/// The integer between `low` and `high` that `s` writes, if it writes one. A minus sign is
/// read only where `low` is negative.
pub open spec fn integer_between(s: Seq<char>, low: int, high: int) -> Option<int> {
    match integer_of(s, low < 0) {
        Some(i) => if low <= i <= high {
            Some(i)
        } else {
            None
        },
        None => None,
    }
}

/// A prefix of digits never writes a larger number than the whole.
proof fn lemma_digits_grow(s: Seq<char>, i: int)
    requires
        0 <= i <= s.len(),
    ensures
        digits_value(s.take(i)) <= digits_value(s),
    decreases s.len() - i,
{
    if i < s.len() {
        lemma_digits_grow(s, i + 1);
        assert(s.take(i + 1).drop_last() =~= s.take(i));
    } else {
        assert(s.take(i) =~= s);
    }
}

/// The digits of `chars` from `from` on as a number, if they are digits, at least one, and the
/// number does not exceed `limit`.
fn read_digits(chars: &Vec<char>, from: usize, limit: u64) -> (r: Option<u64>)
    requires
        from <= chars@.len(),
    ensures
        r == ({
            let digits = chars@.skip(from as int);
            if digits.len() > 0 && all_digits(digits) && digits_value(digits) <= limit {
                Some(digits_value(digits) as u64)
            } else {
                None
            }
        }),
{
    let ghost digits = chars@.skip(from as int);
    if from == chars.len() {
        return None;
    }
    let mut value: u64 = 0;
    let mut i: usize = from;
    assert(digits.take(0) =~= Seq::<char>::empty());
    while i < chars.len()
        invariant
            from <= i <= chars@.len(),
            digits == chars@.skip(from as int),
            value == digits_value(digits.take(i - from)),
            value <= limit,
            forall|k: int| 0 <= k < i - from ==> digit(#[trigger] digits[k]),
        decreases chars@.len() - i,
    {
        let c = chars[i];
        assert(digits[i - from] == c);
        if !('0' <= c && c <= '9') {
            return None;
        }
        let d: u64 = (c as u8 - 48u8) as u64;
        proof {
            assert(digits.take(i - from + 1).drop_last() =~= digits.take(i - from));
            assert(digits.take(i - from + 1).last() == c);
            lemma_digits_grow(digits, i - from + 1);
        }
        if d > limit || value > limit / 10 || value * 10 > limit - d {
            return None;
        }
        value = value * 10 + d;
        i = i + 1;
    }
    assert(digits.take(digits.len() as int) =~= digits);
    Some(value)
}

/// Whether `c` is a decimal digit.
pub fn is_digit(c: char) -> (r: bool)
    ensures
        r == digit(c),
{
    '0' <= c && c <= '9'
}

/// The digits of `chars` from `from` up to `to` as a 63-bit number, if there are any and it fits.
pub(crate) fn read_number(chars: &Vec<char>, from: usize, to: usize) -> (r: Option<i64>)
    requires
        from <= to <= chars@.len(),
        all_digits(chars@.subrange(from as int, to as int)),
    ensures
        r == ({
            let digits = chars@.subrange(from as int, to as int);
            if digits.len() > 0 && digits_value(digits) <= i64::MAX {
                Some(digits_value(digits) as i64)
            } else {
                None
            }
        }),
{
    let mut part: Vec<char> = Vec::new();
    let mut i: usize = from;
    while i < to
        invariant
            from <= i <= to <= chars@.len(),
            part@ == chars@.subrange(from as int, i as int),
        decreases to - i,
    {
        part.push(chars[i]);
        i = i + 1;
    }
    assert(part@.skip(0) =~= chars@.subrange(from as int, to as int));
    match read_digits(&part, 0, i64::MAX as u64) {
        Some(v) => Some(v as i64),
        None => None,
    }
}

/// The integer between `low` and `high` that `s` writes, if it writes one. A minus sign is
/// read only where `low` is negative.
pub fn parse_between(s: &str, low: i64, high: u64) -> (r: Option<i128>)
    requires
        low <= 0,
        high <= i64::MAX || low == 0,
    ensures
        integer_between(s@, low as int, high as int) == (match r {
            Some(v) => Some(v as int),
            None => None,
        }),
{
    let chars = chars_of(s);
    if chars.len() > 0 && chars[0] == '-' && low < 0 {
        let limit: u64 = if low == i64::MIN {
            9_223_372_036_854_775_808
        } else {
            (-low) as u64
        };
        match read_digits(&chars, 1, limit) {
            Some(v) => Some(-(v as i128)),
            None => None,
        }
    } else if chars.len() > 0 && chars[0] == '+' {
        match read_digits(&chars, 1, high) {
            Some(v) => Some(v as i128),
            None => None,
        }
    } else {
        assert(s@.skip(0) =~= s@);
        match read_digits(&chars, 0, high) {
            Some(v) => Some(v as i128),
            None => None,
        }
    }
}

/// The lower-case hexadecimal digit for `n`, which is below sixteen.
pub open spec fn hex_char(n: nat) -> char {
    if n < 10 {
        ('0' as nat + n) as u8 as char
    } else {
        ('a' as nat + n - 10) as u8 as char
    }
}

/// The last `width` hexadecimal digits of `n`, in lower case.
pub open spec fn hex(n: nat, width: nat) -> Seq<char>
    decreases width,
{
    if width == 0 {
        Seq::empty()
    } else {
        hex(n / 16, (width - 1) as nat).push(hex_char(n % 16))
    }
}

/// The number that a hexadecimal digit stands for, in either case.
pub open spec fn hex_digit(c: char) -> Option<nat> {
    if '0' <= c <= '9' {
        Some((c as nat - '0' as nat) as nat)
    } else if 'a' <= c <= 'f' {
        Some((c as nat - 'a' as nat + 10) as nat)
    } else if 'A' <= c <= 'F' {
        Some((c as nat - 'A' as nat + 10) as nat)
    } else {
        None
    }
}

/// The number that hexadecimal digits stand for; no digits stand for zero.
pub open spec fn hex_digits(s: Seq<char>) -> Option<nat>
    decreases s.len(),
{
    if s.len() == 0 {
        Some(0)
    } else {
        match (hex_digits(s.drop_last()), hex_digit(s.last())) {
            (Some(front), Some(last)) => Some(front * 16 + last),
            _ => None,
        }
    }
}

/// The number that a hexadecimal literal stands for: an optional plus sign, then one digit or more.
pub open spec fn hex_number(s: Seq<char>) -> Option<nat> {
    let digits = if s.len() > 0 && s[0] == '+' {
        s.skip(1)
    } else {
        s
    };
    if digits.len() == 0 {
        None
    } else {
        hex_digits(digits)
    }
}

/// How many numbers `width` hexadecimal digits can write.
pub open spec fn hex_range(width: nat) -> nat
    decreases width,
{
    if width == 0 {
        1
    } else {
        16 * hex_range((width - 1) as nat)
    }
}

/// Hexadecimal digits are read back as the number that they write.
pub proof fn lemma_hex(n: nat, width: nat)
    requires
        n < hex_range(width),
    ensures
        hex(n, width).len() == width,
        hex_digits(hex(n, width)) == Some(n),
        forall|i: int| 0 <= i < width ==> hex_digit(#[trigger] hex(n, width)[i]) is Some,
    decreases width,
{
    if width > 0 {
        lemma_hex(n / 16, (width - 1) as nat);
        let s = hex(n, width);
        assert(s.drop_last() =~= hex(n / 16, (width - 1) as nat));
        assert(s.last() == hex_char(n % 16));
        assert(hex_digit(hex_char(n % 16)) == Some(n % 16));
        assert forall|i: int| 0 <= i < width implies hex_digit(#[trigger] s[i]) is Some by {
            if i < width - 1 {
                assert(s[i] == hex(n / 16, (width - 1) as nat)[i]);
            }
        }
    }
}

/// Hexadecimal digits are read back as the number that they write.
pub proof fn lemma_hex_number(n: nat, width: nat)
    requires
        n < hex_range(width),
        width > 0,
    ensures
        hex(n, width).len() == width,
        hex_number(hex(n, width)) == Some(n),
{
    lemma_hex(n, width);
    assert(hex_digit(hex(n, width)[0]) is Some);
}

/// Hexadecimal digits are ASCII.
pub proof fn lemma_hex_is_ascii(n: nat, width: nat)
    requires
        n < hex_range(width),
    ensures
        vstd::utf8::is_ascii_chars(hex(n, width)),
{
    lemma_hex(n, width);
    assert forall|i: int| 0 <= i < hex(n, width).len() implies 0 <= #[trigger] (hex(
        n,
        width,
    )[i] as nat) < 128 by {
        assert(hex_digit(hex(n, width)[i]) is Some);
    }
}

proof fn lemma_hex_digits_bound(s: Seq<char>)
    ensures
        hex_digits(s) matches Some(n) ==> n < hex_range(s.len()),
    decreases s.len(),
{
    if s.len() > 0 {
        lemma_hex_digits_bound(s.drop_last());
    }
}

fn read_hex_digit(c: char) -> (r: Option<u32>)
    ensures
        hex_digit(c) == (match r {
            Some(n) => Some(n as nat),
            None => None,
        }),
        r matches Some(n) ==> n < 16,
{
    if '0' <= c && c <= '9' {
        Some(c as u32 - 48)
    } else if 'a' <= c && c <= 'f' {
        Some(c as u32 - 87)
    } else if 'A' <= c && c <= 'F' {
        Some(c as u32 - 55)
    } else {
        None
    }
}

/// The number that the hexadecimal literal between `from` and `to` stands for.
pub(crate) fn read_hex(chars: &Vec<char>, from: usize, to: usize) -> (r: Option<u32>)
    requires
        from <= to <= chars@.len(),
        to - from <= 8,
    ensures
        hex_number(chars@.subrange(from as int, to as int)) == (match r {
            Some(n) => Some(n as nat),
            None => None,
        }),
        r matches Some(n) ==> n < hex_range((to - from) as nat),
{
    let ghost whole = chars@.subrange(from as int, to as int);
    let start: usize = if from < to && chars[from] == '+' {
        from + 1
    } else {
        from
    };
    let ghost digits = chars@.subrange(start as int, to as int);
    assert(digits =~= if whole.len() > 0 && whole[0] == '+' {
        whole.skip(1)
    } else {
        whole
    });
    if start == to {
        return None;
    }
    let mut n: u64 = 0;
    let mut at: usize = start;
    proof {
        reveal_with_fuel(hex_range, 9);
    }
    assert(hex_digits(digits.take(0)) == Some(0nat));
    while at < to
        invariant
            start <= at <= to <= chars@.len(),
            to - start <= 8,
            digits == chars@.subrange(start as int, to as int),
            start < to,
            whole == chars@.subrange(from as int, to as int),
            digits == if whole.len() > 0 && whole[0] == '+' {
                whole.skip(1)
            } else {
                whole
            },
            hex_digits(digits.take(at - start)) == Some(n as nat),
        decreases to - at,
    {
        let ghost front = digits.take(at - start);
        let ghost longer = digits.take(at + 1 - start);
        assert(longer.drop_last() =~= front);
        assert(longer.last() == chars@[at as int]);
        proof {
            lemma_hex_digits_bound(front);
            reveal_with_fuel(hex_range, 9);
        }
        match read_hex_digit(chars[at]) {
            None => {
                proof {
                    lemma_hex_digits_prefix(digits, at + 1 - start);
                }
                return None;
            },
            Some(d) => {
                n = n * 16 + d as u64;
            },
        }
        at = at + 1;
    }
    assert(digits.take(to - start) =~= digits);
    proof {
        lemma_hex_digits_bound(digits);
        reveal_with_fuel(hex_range, 9);
        if start > from {
            assert(hex_range(digits.len()) <= hex_range((to - from) as nat));
        }
    }
    Some(n as u32)
}

/// Digits that start with something unreadable are unreadable.
proof fn lemma_hex_digits_prefix(s: Seq<char>, i: int)
    requires
        0 <= i <= s.len(),
        hex_digits(s.take(i)) is None,
    ensures
        hex_digits(s) is None,
    decreases s.len() - i,
{
    if i == s.len() {
        assert(s.take(i) =~= s);
    } else {
        assert(s.take(i + 1).drop_last() =~= s.take(i));
        lemma_hex_digits_prefix(s, i + 1);
    }
}

/// The last `width` hexadecimal digits of `n`, in lower case.
pub fn hex_text(n: u32, width: usize) -> (r: String)
    ensures
        r@ == hex(n as nat, width as nat),
    decreases width,
{
    if width == 0 {
        let r = String::new();
        assert(r@ =~= hex(n as nat, 0));
        r
    } else {
        let mut r = hex_text(n / 16, width - 1);
        let digit: u8 = (n % 16) as u8;
        let c: char = if digit < 10 {
            (48 + digit) as char
        } else {
            (87 + digit) as char
        };
        r.push(c);
        r
    }
}

/// A line without the carriage return that ends it, if one does.
pub open spec fn without_return(line: Seq<char>) -> Seq<char> {
    if line.len() > 0 && line.last() == '\r' {
        line.drop_last()
    } else {
        line
    }
}

/// The lines of `s`. A line ends at a line feed, with a carriage return right before it left out
/// as well; the last one need not be ended.
pub open spec fn lines(s: Seq<char>) -> Seq<Seq<char>>
    decreases s.len(),
    via lines_decreases
{
    let end = find(s, '\n');
    if s.len() == 0 {
        Seq::empty()
    } else if end == s.len() {
        seq![s]
    } else {
        seq![without_return(s.take(end))] + lines(s.skip(end + 1))
    }
}

#[via_fn]
proof fn lines_decreases(s: Seq<char>) {
    lemma_find(s, '\n');
}

/// The lines of `s`.
pub fn split_lines(s: &str) -> (r: Vec<&str>)
    ensures
        r@.len() == lines(s@).len(),
        forall|i: int| 0 <= i < r@.len() ==> (#[trigger] r@[i])@ == lines(s@)[i],
{
    let chars = chars_of(s);
    let mut out: Vec<&str> = Vec::new();
    let mut at: usize = 0;
    assert(s@.skip(0) =~= s@);
    while at < chars.len()
        invariant
            at <= chars@.len(),
            chars@ == s@,
            lines(s@).len() == out@.len() + lines(s@.skip(at as int)).len(),
            forall|i: int| 0 <= i < out@.len() ==> (#[trigger] out@[i])@ == lines(s@)[i],
            forall|i: int|
                0 <= i < lines(s@.skip(at as int)).len() ==> #[trigger] lines(s@.skip(at as int))[i]
                    == lines(s@)[out@.len() + i],
        decreases chars@.len() - at,
    {
        let ghost rest = s@.skip(at as int);
        let ghost before = out@;
        let end = find_from(&chars, '\n', at);
        if end == chars.len() {
            let line = s.substring_char(at, end);
            assert(line@ =~= rest);
            assert(lines(rest) =~= seq![rest]);
            assert(lines(rest)[0] == lines(s@)[before.len() as int]);
            out.push(line);
            at = end;
            assert(lines(s@.skip(at as int)) =~= Seq::<Seq<char>>::empty());
        } else {
            let stop: usize = if end > at && chars[end - 1] == '\r' {
                end - 1
            } else {
                end
            };
            let line = s.substring_char(at, stop);
            let ghost tail = rest.skip(end - at + 1);
            assert(line@ =~= without_return(rest.take(end - at)));
            assert(tail =~= s@.skip(end + 1));
            assert(lines(rest) == seq![line@] + lines(tail));
            assert(lines(rest)[0] == lines(s@)[before.len() as int]);
            out.push(line);
            at = end + 1;
            assert forall|i: int| 0 <= i < lines(tail).len() implies #[trigger] lines(tail)[i]
                == lines(s@)[out@.len() + i] by {
                assert(lines(tail)[i] == lines(rest)[i + 1]);
            }
        }
    }
    assert(lines(s@.skip(at as int)) =~= Seq::<Seq<char>>::empty());
    out
}

/// Whether `s` is empty or ends with a line feed.
pub open spec fn whole_lines(s: Seq<char>) -> bool {
    s.len() == 0 || s.last() == '\n'
}

/// A line that is put after whole lines is the last one.
pub proof fn lemma_lines_push(s: Seq<char>, line: Seq<char>)
    requires
        whole_lines(s),
        !line.contains('\n'),
        line.len() == 0 || line.last() != '\r',
    ensures
        lines(s + line + seq!['\n']) == lines(s).push(line),
        whole_lines(s + line + seq!['\n']),
    decreases s.len(),
{
    let all = s + line + seq!['\n'];
    lemma_find(s, '\n');
    if s.len() == 0 {
        assert(all =~= line.push('\n'));
        assert forall|k: int| 0 <= k < line.len() implies #[trigger] all[k] != '\n' by {
            assert(line.contains(line[k]));
        }
        lemma_find_is(all, '\n', line.len() as int);
        assert(all.take(line.len() as int) =~= line);
        assert(all.skip(line.len() as int + 1) =~= Seq::<char>::empty());
        assert(lines(Seq::<char>::empty()) =~= Seq::<Seq<char>>::empty());
        assert(s =~= Seq::<char>::empty());
        assert(lines(all) =~= lines(s).push(line));
    } else {
        let end = find(s, '\n');
        if end == s.len() {
            assert(s[s.len() - 1] != '\n');
        }
        assert forall|k: int| 0 <= k < end implies #[trigger] all[k] != '\n' by {
            assert(all[k] == s[k]);
        }
        lemma_find_is(all, '\n', end);
        let rest = s.skip(end + 1);
        assert(rest.len() > 0 ==> rest.last() == s.last());
        lemma_lines_push(rest, line);
        assert(all.skip(end + 1) =~= rest + line + seq!['\n']);
        assert(all.take(end) =~= s.take(end));
        assert(lines(all) =~= lines(s).push(line));
    }
}

/// The pieces of `s` between the occurrences of `c`, empty ones included.
pub open spec fn pieces(s: Seq<char>, c: char) -> Seq<Seq<char>>
    decreases s.len(),
    via pieces_decreases
{
    let end = find(s, c);
    if end == s.len() {
        seq![s]
    } else {
        seq![s.take(end)] + pieces(s.skip(end + 1), c)
    }
}

#[via_fn]
proof fn pieces_decreases(s: Seq<char>, c: char) {
    lemma_find(s, c);
}

/// There is always a piece.
pub proof fn lemma_pieces(s: Seq<char>, c: char)
    ensures
        pieces(s, c).len() >= 1,
{
}

/// The pieces of `s` between the occurrences of `c`, empty ones included.
pub fn split(s: &str, c: char) -> (r: Vec<&str>)
    ensures
        r@.len() == pieces(s@, c).len(),
        forall|i: int| 0 <= i < r@.len() ==> (#[trigger] r@[i])@ == pieces(s@, c)[i],
{
    let chars = chars_of(s);
    let mut out: Vec<&str> = Vec::new();
    let mut at: usize = 0;
    assert(s@.skip(0) =~= s@);
    loop
        invariant
            at <= chars@.len(),
            chars@ == s@,
            pieces(s@, c).len() == out@.len() + pieces(s@.skip(at as int), c).len(),
            forall|i: int| 0 <= i < out@.len() ==> (#[trigger] out@[i])@ == pieces(s@, c)[i],
            forall|i: int|
                0 <= i < pieces(s@.skip(at as int), c).len() ==> #[trigger] pieces(
                    s@.skip(at as int),
                    c,
                )[i] == pieces(s@, c)[out@.len() + i],
        decreases chars@.len() - at,
    {
        let ghost rest = s@.skip(at as int);
        let ghost before = out@;
        let end = find_from(&chars, c, at);
        let piece = s.substring_char(at, end);
        assert(piece@ =~= rest.take(end - at));
        out.push(piece);
        if end == chars.len() {
            assert(piece@ =~= rest);
            assert(pieces(rest, c) =~= seq![rest]);
            assert(pieces(rest, c)[0] == pieces(s@, c)[before.len() as int]);
            return out;
        }
        let ghost tail = rest.skip(end - at + 1);
        assert(tail =~= s@.skip(end + 1));
        assert(pieces(rest, c) == seq![piece@] + pieces(tail, c));
        assert(pieces(rest, c)[0] == pieces(s@, c)[before.len() as int]);
        at = end + 1;
        assert forall|i: int| 0 <= i < pieces(tail, c).len() implies #[trigger] pieces(tail, c)[i]
            == pieces(s@, c)[out@.len() + i] by {
            assert(pieces(tail, c)[i] == pieces(rest, c)[i + 1]);
        }
    }
}

/// Where white space first stands in `s`; the length of `s` if nowhere.
pub open spec fn find_white(s: Seq<char>) -> int
    decreases s.len(),
{
    if s.len() == 0 || white(s[0]) {
        0
    } else {
        1 + find_white(s.skip(1))
    }
}

proof fn lemma_find_white_is(s: Seq<char>, at: int)
    requires
        0 <= at <= s.len(),
        forall|k: int| 0 <= k < at ==> !white(#[trigger] s[k]),
        at < s.len() ==> white(s[at]),
    ensures
        find_white(s) == at,
    decreases s.len(),
{
    if at > 0 {
        let rest = s.skip(1);
        assert forall|k: int| 0 <= k < at - 1 implies !white(#[trigger] rest[k]) by {
            assert(rest[k] == s[k + 1]);
        }
        lemma_find_white_is(rest, at - 1);
    }
}

proof fn lemma_trim_front_len(s: Seq<char>)
    ensures
        trim_front(s).len() <= s.len(),
        trim_front(s).len() > 0 ==> !white(trim_front(s)[0]),
    decreases s.len(),
{
    if s.len() > 0 && white(s[0]) {
        lemma_trim_front_len(s.skip(1));
    }
}

/// The words of `s`: its longest stretches without white space.
pub open spec fn words(s: Seq<char>) -> Seq<Seq<char>>
    decreases s.len(),
    via words_decreases
{
    let rest = trim_front(s);
    if rest.len() == 0 {
        Seq::empty()
    } else {
        seq![rest.take(find_white(rest))] + words(rest.skip(find_white(rest)))
    }
}

proof fn lemma_find_white_range(s: Seq<char>)
    ensures
        0 <= find_white(s) <= s.len(),
        s.len() > 0 && !white(s[0]) ==> find_white(s) > 0,
    decreases s.len(),
{
    if s.len() > 0 && !white(s[0]) {
        lemma_find_white_range(s.skip(1));
    }
}

#[via_fn]
proof fn words_decreases(s: Seq<char>) {
    lemma_trim_front_len(s);
    lemma_find_white_range(trim_front(s));
}

/// The words of `s`: its longest stretches without white space.
pub fn split_words(s: &str) -> (r: Vec<&str>)
    ensures
        r@.len() == words(s@).len(),
        forall|i: int| 0 <= i < r@.len() ==> (#[trigger] r@[i])@ == words(s@)[i],
{
    let chars = chars_of(s);
    let mut out: Vec<&str> = Vec::new();
    let mut at: usize = 0;
    assert(s@.skip(0) =~= s@);
    loop
        invariant
            at <= chars@.len(),
            chars@ == s@,
            words(s@).len() == out@.len() + words(s@.skip(at as int)).len(),
            forall|i: int| 0 <= i < out@.len() ==> (#[trigger] out@[i])@ == words(s@)[i],
            forall|i: int|
                0 <= i < words(s@.skip(at as int)).len() ==> #[trigger] words(s@.skip(at as int))[i]
                    == words(s@)[out@.len() + i],
        decreases chars@.len() - at,
    {
        let ghost all = s@.skip(at as int);
        let ghost before = out@;
        let mut start: usize = at;
        while start < chars.len() && is_white(chars[start])
            invariant
                at <= start <= chars@.len(),
                chars@ == s@,
                all == s@.skip(at as int),
                forall|k: int| 0 <= k < start - at ==> white(#[trigger] all[k]),
            decreases chars@.len() - start,
        {
            assert(all[start - at] == s@[start as int]);
            start = start + 1;
        }
        let ghost rest = s@.skip(start as int);
        proof {
            if start < chars.len() {
                assert(all[start - at] == s@[start as int]);
            }
            lemma_trim_front(all, start - at);
            assert(all.skip(start - at) =~= rest);
        }
        if start == chars.len() {
            return out;
        }
        let mut end: usize = start;
        while end < chars.len() && !is_white(chars[end])
            invariant
                start <= end <= chars@.len(),
                chars@ == s@,
                rest == s@.skip(start as int),
                forall|k: int| 0 <= k < end - start ==> !white(#[trigger] rest[k]),
            decreases chars@.len() - end,
        {
            assert(rest[end - start] == s@[end as int]);
            end = end + 1;
        }
        proof {
            assert(rest[0] == s@[start as int]);
            if end < chars.len() {
                assert(rest[end - start] == s@[end as int]);
            }
            lemma_find_white_is(rest, end - start);
        }
        let word = s.substring_char(start, end);
        assert(word@ =~= rest.take(end - start));
        let ghost tail = rest.skip(end - start);
        assert(tail =~= s@.skip(end as int));
        assert(words(all) == seq![word@] + words(tail));
        assert(words(all)[0] == words(s@)[before.len() as int]);
        out.push(word);
        at = end;
        assert forall|i: int| 0 <= i < words(tail).len() implies #[trigger] words(tail)[i] == words(
            s@,
        )[out@.len() + i] by {
            assert(words(tail)[i] == words(all)[i + 1]);
        }
    }
}

/// `parts` one after the other, with `sep` between them.
pub open spec fn joined(parts: Seq<Seq<char>>, sep: Seq<char>) -> Seq<char>
    decreases parts.len(),
{
    if parts.len() == 0 {
        Seq::empty()
    } else if parts.len() == 1 {
        parts[0]
    } else {
        joined(parts.drop_last(), sep) + sep + parts.last()
    }
}

/// `parts` one after the other, with `sep` between them.
pub fn join(parts: &Vec<String>, sep: &str) -> (r: String)
    ensures
        r@ == joined(texts(parts@), sep@),
{
    let mut out = String::new();
    let mut i: usize = 0;
    while i < parts.len()
        invariant
            i <= parts@.len(),
            out@ == joined(texts(parts@).take(i as int), sep@),
        decreases parts@.len() - i,
    {
        if i > 0 {
            out.append(sep);
        }
        out.append(parts[i].as_str());
        i = i + 1;
        assert(texts(parts@).take(i as int).drop_last() =~= texts(parts@).take(i - 1));
        assert(texts(parts@).take(i as int).last() == parts@[i - 1]@);
        if i == 1 {
            assert(out@ =~= parts@[0]@);
        }
    }
    assert(texts(parts@).take(i as int) =~= texts(parts@));
    out
}

/// Trimming takes away the white space on both sides and nothing else.
pub proof fn law_trimming_takes_the_space_around(before: Seq<char>, s: Seq<char>, after: Seq<char>)
    requires
        forall|i: int| 0 <= i < before.len() ==> white(#[trigger] before[i]),
        forall|i: int| 0 <= i < after.len() ==> white(#[trigger] after[i]),
        s.len() > 0 ==> !white(s[0]) && !white(s.last()),
    ensures
        trimmed(before + s + after) == s,
{
    let all = before + s + after;
    if s.len() == 0 {
        assert forall|k: int| 0 <= k < all.len() implies white(#[trigger] all[k]) by {
            if k < before.len() {
                assert(all[k] == before[k]);
            } else {
                assert(all[k] == after[k - before.len()]);
            }
        }
        lemma_trim_front(all, all.len() as int);
        assert(all.skip(all.len() as int) =~= s);
    } else {
        let i = before.len() as int;
        assert forall|k: int| 0 <= k < i implies white(#[trigger] all[k]) by {
            assert(all[k] == before[k]);
        }
        assert(all[i] == s[0]);
        lemma_trim_front(all, i);
        let rest = all.skip(i);
        assert forall|k: int| s.len() <= k < rest.len() implies white(#[trigger] rest[k]) by {
            assert(rest[k] == after[k - s.len()]);
        }
        assert(rest[s.len() - 1] == s.last());
        lemma_trim_back(rest, s.len() as int);
        assert(rest.take(s.len() as int) =~= s);
    }
}

/// A number that is written is read back, wherever it lies between the bounds; one that does not is refused.
pub proof fn law_integers_are_read_back(i: int, low: int, high: int)
    requires
        i < 0 ==> low < 0,
    ensures
        integer_between(signed_decimal(i), low, high) == (if low <= i <= high {
            Some(i)
        } else {
            None
        }),
{
    let n = if i < 0 {
        (-i) as nat
    } else {
        i as nat
    };
    lemma_decimal(n);
    let s = signed_decimal(i);
    if i < 0 {
        assert(s.skip(1) =~= decimal(n));
    } else {
        assert(digit(s[0]));
    }
}

/// A zero in front of digits does not change the number.
pub proof fn law_leading_zeros_do_not_count(s: Seq<char>)
    requires
        all_digits(s),
    ensures
        all_digits(seq!['0'] + s),
        digits_value(seq!['0'] + s) == digits_value(s),
    decreases s.len(),
{
    let padded = seq!['0'] + s;
    assert forall|i: int| 0 <= i < padded.len() implies digit(#[trigger] padded[i]) by {
        if i > 0 {
            assert(padded[i] == s[i - 1]);
        }
    }
    if s.len() == 0 {
        reveal_with_fuel(digits_value, 2);
        assert(padded.drop_last() =~= s);
        assert(padded.last() == '0');
    } else {
        let head = s.drop_last();
        assert(all_digits(head)) by {
            assert forall|i: int| 0 <= i < head.len() implies digit(#[trigger] head[i]) by {
                assert(head[i] == s[i]);
            }
        }
        law_leading_zeros_do_not_count(head);
        assert(padded.drop_last() =~= seq!['0'] + head);
    }
}

/// Digits are no white space.
pub proof fn lemma_digits_are_trimmed(s: Seq<char>)
    requires
        all_digits(s),
    ensures
        trimmed(s) == s,
        forall|c: char| !digit(c) ==> !s.contains(c),
{
    let none = Seq::<char>::empty();
    if s.len() > 0 {
        assert(digit(s[0]) && digit(s[s.len() - 1]));
        assert(s.last() == s[s.len() - 1]);
    }
    law_trimming_takes_the_space_around(none, s, none);
    assert(none + s + none =~= s);
}

/// A text in two parts around the only `c` in it has just these two pieces and halves.
pub proof fn lemma_two_parts(a: Seq<char>, b: Seq<char>, c: char)
    requires
        !a.contains(c),
        !b.contains(c),
    ensures
        pieces(a + seq![c] + b, c) == seq![a, b],
        halves(a + seq![c] + b, c) == Some((a, b)),
{
    let s = a + seq![c] + b;
    let n = a.len() as int;
    assert forall|k: int| 0 <= k < n implies #[trigger] s[k] != c by {
        assert(s[k] == a[k]);
        assert(a.contains(a[k]));
    }
    assert(s[n] == c);
    lemma_find_is(s, c, n);
    assert forall|k: int| 0 <= k < b.len() implies #[trigger] b[k] != c by {
        assert(b.contains(b[k]));
    }
    lemma_find_is(b, c, b.len() as int);
    assert(s.take(n) =~= a);
    assert(s.skip(n + 1) =~= b);
    reveal_with_fuel(pieces, 2);
    assert(pieces(s, c) =~= seq![a, b]);
}

/// The digits of a number, with its sign, have no space around them.
pub proof fn lemma_numbers_are_trimmed(i: int)
    ensures
        trimmed(signed_decimal(i)) == signed_decimal(i),
{
    let n = if i < 0 {
        (-i) as nat
    } else {
        i as nat
    };
    lemma_decimal(n);
    let s = signed_decimal(i);
    let none = Seq::<char>::empty();
    assert(digit(decimal(n)[0]) && digit(decimal(n)[decimal(n).len() - 1]));
    assert(s.last() == decimal(n)[decimal(n).len() - 1]);
    law_trimming_takes_the_space_around(none, s, none);
    assert(none + s + none =~= s);
}

/// Lower case changes the letters from `A` to `Z` to the small ones and nothing else, and doing it again
/// changes nothing.
pub proof fn law_lower_case_changes_letters_alone(s: Seq<char>, i: int)
    requires
        0 <= i < s.len(),
    ensures
        ascii_lower(s).len() == s.len(),
        'A' <= s[i] <= 'Z' ==> ascii_lower(s)[i] as int == s[i] as int + 32,
        !('A' <= s[i] <= 'Z') ==> ascii_lower(s)[i] == s[i],
        ascii_lower(ascii_lower(s)) == ascii_lower(s),
{
    let low = ascii_lower(s);
    assert forall|k: int| 0 <= k < s.len() implies #[trigger] ascii_lower(low)[k] == low[k] by {}
    assert(ascii_lower(low) =~= low);
}

/// What stands between the occurrences of a character is put together again with it, and none of it has the
/// character.
pub proof fn law_pieces_are_put_together_again(s: Seq<char>, c: char)
    ensures
        rejoined(pieces(s, c), c) == s,
        forall|i: int| 0 <= i < pieces(s, c).len() ==> !(#[trigger] pieces(s, c)[i]).contains(c),
    decreases s.len(),
{
    let end = find(s, c);
    lemma_find(s, c);
    if end == s.len() {
        assert(pieces(s, c) =~= seq![s]);
        assert(!s.contains(c)) by {
            if s.contains(c) {
                let k = choose|k: int| 0 <= k < s.len() && s[k] == c;
                assert(s[k] != c);
            }
        }
    } else {
        let rest = s.skip(end + 1);
        law_pieces_are_put_together_again(rest, c);
        lemma_pieces(rest, c);
        let all = pieces(s, c);
        assert(all.skip(1) =~= pieces(rest, c));
        assert(all[0] == s.take(end));
        assert(s.take(end) + seq![c] + rest =~= s);
        assert forall|i: int| 0 <= i < all.len() implies !(#[trigger] all[i]).contains(c) by {
            if i == 0 {
                if all[0].contains(c) {
                    let k = choose|k: int| 0 <= k < all[0].len() && all[0][k] == c;
                    assert(s[k] == c);
                }
            } else {
                assert(all[i] == pieces(rest, c)[i - 1]);
            }
        }
    }
}

/// The pieces one after the other, with the character between them.
pub open spec fn rejoined(parts: Seq<Seq<char>>, c: char) -> Seq<char>
    decreases parts.len(),
{
    if parts.len() == 0 {
        Seq::empty()
    } else if parts.len() == 1 {
        parts[0]
    } else {
        parts[0] + seq![c] + rejoined(parts.skip(1), c)
    }
}

/// Joining one more part puts what separates them before it and the part behind, and nothing before a first
/// one.
pub proof fn law_joining_adds_up(parts: Seq<Seq<char>>, last: Seq<char>, sep: Seq<char>)
    ensures
        joined(parts.push(last), sep) == (if parts.len() == 0 {
            last
        } else {
            joined(parts, sep) + sep + last
        }),
{
    assert(parts.push(last).drop_last() =~= parts);
}

/// A word that stands before white space is the first of the words, whatever white space stands before it; and
/// white space alone has none.
pub proof fn law_words_stand_between_white_space(
    before: Seq<char>,
    word: Seq<char>,
    space: char,
    rest: Seq<char>,
)
    requires
        forall|i: int| 0 <= i < before.len() ==> white(#[trigger] before[i]),
        word.len() > 0,
        forall|i: int| 0 <= i < word.len() ==> !white(#[trigger] word[i]),
        white(space),
    ensures
        words(before + word + seq![space] + rest) == seq![word] + words(seq![space] + rest),
        words(before) == Seq::<Seq<char>>::empty(),
{
    let all = before + word + seq![space] + rest;
    let tail = word + seq![space] + rest;
    let i = before.len() as int;
    assert forall|k: int| 0 <= k < i implies white(#[trigger] all[k]) by {
        assert(all[k] == before[k]);
    }
    assert(all[i] == word[0]);
    lemma_trim_front(all, i);
    assert(all.skip(i) =~= tail);
    let n = word.len() as int;
    assert forall|k: int| 0 <= k < n implies !white(#[trigger] tail[k]) by {
        assert(tail[k] == word[k]);
    }
    assert(tail[n] == space);
    lemma_find_white_is(tail, n);
    assert(tail.take(n) =~= word);
    assert(tail.skip(n) =~= seq![space] + rest);
    lemma_trim_front(before, i);
    assert(before.skip(i).len() == 0);
}

/// A line that a line feed ends is the first of the lines, without a carriage return before the line feed; and a
/// text without a line feed is one line, if it is anything.
pub proof fn law_lines_end_at_line_feeds(line: Seq<char>, rest: Seq<char>)
    requires
        !line.contains('\n'),
    ensures
        line.len() == 0 || line.last() != '\r' ==> lines(line + seq!['\n'] + rest) == seq![line]
            + lines(rest),
        line.len() == 0 || line.last() != '\r' ==> lines(line + seq!['\r', '\n'] + rest) == seq![
            line,
        ] + lines(rest),
        line.len() > 0 ==> lines(line) == seq![line],
{
    let at = line.len() as int;
    assert forall|k: int| 0 <= k < at implies line[k] != '\n' by {
        assert(line.contains(line[k]));
    }
    let plain = line + seq!['\n'] + rest;
    assert(plain[at] == '\n');
    assert forall|k: int| 0 <= k < at implies plain[k] != '\n' by {
        assert(plain[k] == line[k]);
    }
    lemma_find_is(plain, '\n', at);
    assert(plain.take(at) =~= line);
    assert(plain.skip(at + 1) =~= rest);
    let both = line + seq!['\r', '\n'] + rest;
    assert(both[at] == '\r' && both[at + 1] == '\n');
    assert forall|k: int| 0 <= k < at + 1 implies both[k] != '\n' by {
        if k < at {
            assert(both[k] == line[k]);
        }
    }
    lemma_find_is(both, '\n', at + 1);
    assert(both.take(at + 1) =~= line.push('\r'));
    assert(line.push('\r').drop_last() =~= line);
    assert(both.skip(at + 2) =~= rest);
    if at > 0 {
        lemma_find_is(line, '\n', at);
    }
}

/// A text stands in another wherever there is something before and behind it, and begins one wherever there is
/// something behind it.
pub proof fn law_parts_occur(before: Seq<char>, part: Seq<char>, after: Seq<char>)
    ensures
        occurs(part, before + part + after),
        begins(part + after, part),
{
    let all = before + part + after;
    let at = before.len() as int;
    assert(all.subrange(at, at + part.len()) =~= part);
    assert((part + after).take(part.len() as int) =~= part);
}

} // verus!
