//! Text as sequences of characters: conversion between strings and
//! character vectors, searching, decimal numbers and whitespace.

use vstd::prelude::*;

verus! {

/// `String::push` appends one character.
pub assume_specification[ String::push ](s: &mut String, c: char)
    ensures
        final(s)@ == old(s)@.push(c),
;

/// `==` on string slices compares their characters.
pub assume_specification[ <str as PartialEq>::eq ](a: &str, b: &str) -> (r: bool)
    ensures
        r == (a@ == b@),
;

/// `String::push_str` appends a string slice.
pub assume_specification[ String::push_str ](s: &mut String, tail: &str)
    ensures
        final(s)@ == old(s)@ + tail@,
;

/// Tests whether two string slices hold the same characters.
pub fn same(a: &str, b: &str) -> (r: bool)
    ensures
        r == (a@ == b@),
{
    a.eq(b)
}

/// The lower-case form of a text, as `str::to_lowercase` computes it.
pub uninterp spec fn lowercase(s: Seq<char>) -> Seq<char>;

/// `str::to_lowercase`: the result is a function of the text alone, defined
/// by the Unicode case tables, and is named `lowercase` here.
#[verifier::external_body]
pub(crate) fn to_lowercase(s: &str) -> (r: String)
    ensures
        r@ == lowercase(s@),
{
    s.to_lowercase()
}

/// The characters of `s`, in order.
pub fn to_chars(s: &str) -> (v: Vec<char>)
    ensures
        v@ == s@,
{
    let mut v: Vec<char> = Vec::new();
    for c in it: s.chars()
        invariant
            v@ == it.seq().take(it.index()),
            it.seq() == s@,
    {
        v.push(c);
    }
    v
}

/// Appends the characters `v[from..to]` to `s`.
pub fn push_range(s: &mut String, v: &Vec<char>, from: usize, to: usize)
    requires
        from <= to <= v.len(),
    ensures
        final(s)@ == old(s)@ + v@.subrange(from as int, to as int),
{
    let mut i: usize = from;
    while i < to
        invariant
            from <= i <= to <= v.len(),
            s@ == old(s)@ + v@.subrange(from as int, i as int),
        decreases to - i,
    {
        s.push(v[i]);
        i += 1;
    }
}

/// The string made of the characters `v[from..to]`.
pub fn to_string_range(v: &Vec<char>, from: usize, to: usize) -> (s: String)
    requires
        from <= to <= v.len(),
    ensures
        s@ == v@.subrange(from as int, to as int),
{
    let mut s = String::new();
    push_range(&mut s, v, from, to);
    s
}

/// The string made of the characters of `v`.
pub fn to_string(v: &Vec<char>) -> (s: String)
    ensures
        s@ == v@,
{
    to_string_range(v, 0, v.len())
}

/// Whether `c` is white space: the characters with the Unicode property
/// `White_Space`.
pub open spec fn is_whitespace(c: char) -> bool {
    let u = c as u32;
    ||| 0x09 <= u <= 0x0D
    ||| u == 0x20
    ||| u == 0x85
    ||| u == 0xA0
    ||| u == 0x1680
    ||| 0x2000 <= u <= 0x200A
    ||| u == 0x2028
    ||| u == 0x2029
    ||| u == 0x202F
    ||| u == 0x205F
    ||| u == 0x3000
}

/// Tests whether `c` is white space.
pub fn char_is_whitespace(c: char) -> (r: bool)
    ensures
        r == is_whitespace(c),
{
    let u: u32 = c as u32;
    (0x09 <= u && u <= 0x0D) || u == 0x20 || u == 0x85 || u == 0xA0 || u == 0x1680 || (0x2000 <= u
        && u <= 0x200A) || u == 0x2028 || u == 0x2029 || u == 0x202F || u == 0x205F || u == 0x3000
}

/// Whether `needle` stands in `s` at position `i`.
pub open spec fn occurs_at(s: Seq<char>, needle: Seq<char>, i: int) -> bool {
    &&& 0 <= i
    &&& i + needle.len() <= s.len()
    &&& s.subrange(i, i + needle.len()) == needle
}

/// Whether `needle` stands somewhere in `s`.
pub open spec fn contains(s: Seq<char>, needle: Seq<char>) -> bool {
    exists|i: int| occurs_at(s, needle, i)
}

/// Tests whether `needle` stands in `v` at position `i`.
pub fn matches_at(v: &Vec<char>, i: usize, needle: &Vec<char>) -> (r: bool)
    ensures
        r == occurs_at(v@, needle@, i as int),
{
    if needle.len() > v.len() || i > v.len() - needle.len() {
        return false;
    }
    let mut k: usize = 0;
    while k < needle.len()
        invariant
            k <= needle.len(),
            i + needle.len() <= v.len(),
            forall|j: int| 0 <= j < k ==> v@[i + j] == needle@[j],
        decreases needle.len() - k,
    {
        if v[i + k] != needle[k] {
            assert(v@.subrange(i as int, i + needle.len())[k as int] != needle@[k as int]);
            return false;
        }
        k += 1;
    }
    assert(v@.subrange(i as int, i + needle.len()) =~= needle@);
    true
}

/// Tests whether `v` begins with `needle`.
pub fn starts_with(v: &Vec<char>, needle: &Vec<char>) -> (r: bool)
    ensures
        r == occurs_at(v@, needle@, 0),
{
    matches_at(v, 0, needle)
}

/// Tests whether `needle` stands somewhere in `v`.
pub fn contains_text(v: &Vec<char>, needle: &Vec<char>) -> (r: bool)
    ensures
        r == contains(v@, needle@),
{
    if needle.len() > v.len() {
        return false;
    }
    let last: usize = v.len() - needle.len();
    let mut i: usize = 0;
    loop
        invariant
            i <= last,
            last == v.len() - needle.len(),
            forall|j: int| 0 <= j < i ==> !occurs_at(v@, needle@, j),
        decreases last - i,
    {
        if matches_at(v, i, needle) {
            return true;
        }
        if i == last {
            return false;
        }
        i += 1;
    }
}

/// Position of the first `c` in `s`, or the length of `s` if there is none.
pub open spec fn index_of(s: Seq<char>, c: char) -> int
    decreases s.len(),
{
    if s.len() == 0 {
        0
    } else if s[0] == c {
        0
    } else {
        1 + index_of(s.drop_first(), c)
    }
}

/// `index_of` is the least position that holds `c`.
pub proof fn lemma_index_of(s: Seq<char>, c: char)
    ensures
        0 <= index_of(s, c) <= s.len(),
        index_of(s, c) < s.len() ==> s[index_of(s, c)] == c,
        forall|j: int| 0 <= j < index_of(s, c) ==> s[j] != c,
    decreases s.len(),
{
    if s.len() > 0 && s[0] != c {
        let t = s.drop_first();
        lemma_index_of(t, c);
        assert forall|j: int| 0 <= j < index_of(s, c) implies s[j] != c by {
            if j > 0 {
                assert(s[j] == t[j - 1]);
            }
        }
    }
}

/// A position before which no `c` stands, and which holds `c` or is the
/// end, is `index_of`.
pub proof fn lemma_index_of_unique(s: Seq<char>, c: char, i: int)
    requires
        0 <= i <= s.len(),
        i < s.len() ==> s[i] == c,
        forall|j: int| 0 <= j < i ==> s[j] != c,
    ensures
        index_of(s, c) == i,
{
    lemma_index_of(s, c);
}

/// Finds the first `c` in `v[from..to]`; the result is relative to `from`
/// and is `to - from` if there is none.
pub fn find_char(v: &Vec<char>, from: usize, to: usize, c: char) -> (r: usize)
    requires
        from <= to <= v.len(),
    ensures
        r == index_of(v@.subrange(from as int, to as int), c),
        r <= to - from,
{
    let mut i: usize = from;
    while i < to && v[i] != c
        invariant
            from <= i <= to <= v.len(),
            forall|j: int| from <= j < i ==> v@[j] != c,
        decreases to - i,
    {
        i += 1;
    }
    proof {
        lemma_index_of_unique(v@.subrange(from as int, to as int), c, i - from);
    }
    i - from
}

/// The character of the decimal digit `d`.
pub open spec fn digit_char(d: int) -> char {
    ((48 + d) as u8) as char
}

/// Whether `c` is one of `0` to `9`.
pub open spec fn is_digit(c: char) -> bool {
    48 <= c as u32 <= 57
}

/// The value of the decimal digit `c`.
pub open spec fn digit_value(c: char) -> int {
    c as u32 - 48
}

/// The decimal representation of `n`, without leading zeros.
pub open spec fn decimal(n: nat) -> Seq<char>
    decreases n,
{
    if n < 10 {
        seq![digit_char(n as int)]
    } else {
        decimal(n / 10).push(digit_char((n % 10) as int))
    }
}

/// The decimal representation of `i`, with `-` before a negative number.
pub open spec fn signed_decimal(i: int) -> Seq<char> {
    if i < 0 {
        seq!['-'] + decimal((-i) as nat)
    } else {
        decimal(i as nat)
    }
}

/// Appends the decimal representation of `n` to `s`.
pub fn push_decimal(s: &mut String, n: u64)
    ensures
        final(s)@ == old(s)@ + decimal(n as nat),
    decreases n,
{
    if n >= 10 {
        push_decimal(s, n / 10);
    }
    let d: u8 = (n % 10) as u8;
    let c: char = (48 + d) as char;
    s.push(c);
    proof {
        if n >= 10 {
            assert(old(s)@ + decimal(n as nat / 10).push(c) =~= (old(s)@ + decimal(
                n as nat / 10,
            )).push(c));
        } else {
            assert(old(s)@ + seq![c] =~= old(s)@.push(c));
        }
    }
}

/// Appends the decimal representation of `i` to `s`.
pub fn push_signed_decimal(s: &mut String, i: i64)
    ensures
        final(s)@ == old(s)@ + signed_decimal(i as int),
{
    if i < 0 {
        s.push('-');
        let magnitude: u64 = if i == i64::MIN {
            9223372036854775808u64
        } else {
            (-i) as u64
        };
        push_decimal(s, magnitude);
        assert(old(s)@.push('-') + decimal(magnitude as nat) =~= old(s)@ + (seq!['-'] + decimal(
            magnitude as nat,
        )));
    } else {
        push_decimal(s, i as u64);
    }
}

/// The number that a run of decimal digits denotes.
pub open spec fn digits_value(s: Seq<char>) -> nat
    decreases s.len(),
{
    if s.len() == 0 {
        0
    } else {
        (digits_value(s.drop_last()) * 10 + digit_value(s.last())) as nat
    }
}

/// Whether `s` is made of decimal digits only.
pub open spec fn all_digits(s: Seq<char>) -> bool {
    forall|i: int| 0 <= i < s.len() ==> is_digit(#[trigger] s[i])
}

/// The number that `s` denotes: one or more decimal digits, with an optional
/// `+` before them, and a value of at most `max`.
pub open spec fn parse_unsigned(s: Seq<char>, max: nat) -> Option<nat> {
    let body = if s.len() > 0 && s[0] == '+' {
        s.drop_first()
    } else {
        s
    };
    if body.len() > 0 && all_digits(body) && digits_value(body) <= max {
        Some(digits_value(body))
    } else {
        None
    }
}

/// The number that `s` denotes: one or more decimal digits, with an optional
/// `+` or `-` before them, and a value from `min` to `max`.
pub open spec fn parse_signed(s: Seq<char>, min: int, max: int) -> Option<int> {
    let negative = s.len() > 0 && s[0] == '-';
    let body = if s.len() > 0 && (s[0] == '+' || s[0] == '-') {
        s.drop_first()
    } else {
        s
    };
    let value = if negative {
        -(digits_value(body) as int)
    } else {
        digits_value(body) as int
    };
    if body.len() > 0 && all_digits(body) && min <= value <= max {
        Some(value)
    } else {
        None
    }
}

/// A run of digits denotes at least what any of its prefixes denotes.
pub proof fn lemma_digits_value_prefix(s: Seq<char>, k: int)
    requires
        0 <= k <= s.len(),
        all_digits(s),
    ensures
        digits_value(s.subrange(0, k)) <= digits_value(s),
    decreases s.len() - k,
{
    if k == s.len() {
        assert(s.subrange(0, k) =~= s);
    } else {
        lemma_digits_value_prefix(s, k + 1);
        let t = s.subrange(0, k + 1);
        assert(t.drop_last() =~= s.subrange(0, k));
        assert(is_digit(s[k]));
        assert(t.last() == s[k]);
    }
}

/// Reads the digits `v[from..to]` as a number of at most `max`.
pub fn read_digits(v: &Vec<char>, from: usize, to: usize, max: u64) -> (r: Option<u64>)
    requires
        from <= to <= v.len(),
    ensures
        r == (if from < to && all_digits(v@.subrange(from as int, to as int)) && digits_value(
            v@.subrange(from as int, to as int),
        ) <= max {
            Some(digits_value(v@.subrange(from as int, to as int)) as u64)
        } else {
            None
        }),
{
    if from == to {
        return None;
    }
    let ghost body = v@.subrange(from as int, to as int);
    let mut acc: u128 = 0;
    let mut i: usize = from;
    while i < to
        invariant
            from <= i <= to <= v.len(),
            body == v@.subrange(from as int, to as int),
            all_digits(body.subrange(0, i - from)),
            acc == digits_value(body.subrange(0, i - from)),
            acc <= max,
        decreases to - i,
    {
        let c: char = v[i];
        let u: u32 = c as u32;
        if u < 48 || u > 57 {
            assert(body[i - from] == c);
            assert(!all_digits(body));
            return None;
        }
        let ghost prefix = body.subrange(0, i - from + 1);
        proof {
            assert(prefix.drop_last() =~= body.subrange(0, i - from));
            assert(prefix.last() == c);
            assert forall|j: int| 0 <= j < prefix.len() implies is_digit(#[trigger] prefix[j]) by {
                if j < i - from {
                    assert(body.subrange(0, i - from)[j] == prefix[j]);
                }
            }
        }
        acc = acc * 10 + (u - 48) as u128;
        if acc > max as u128 {
            proof {
                if all_digits(body) {
                    lemma_digits_value_prefix(body, i - from + 1);
                }
            }
            return None;
        }
        i += 1;
    }
    assert(body.subrange(0, to - from) =~= body);
    Some(acc as u64)
}

/// Reads `v[from..to]` as an unsigned decimal number of at most `max`.
pub fn read_unsigned(v: &Vec<char>, from: usize, to: usize, max: u64) -> (r: Option<u64>)
    requires
        from <= to <= v.len(),
    ensures
        r.is_some() == parse_unsigned(v@.subrange(from as int, to as int), max as nat).is_some(),
        r matches Some(n) ==> parse_unsigned(v@.subrange(from as int, to as int), max as nat)
            == Some(n as nat),
{
    let ghost s = v@.subrange(from as int, to as int);
    if from < to && v[from] == '+' {
        assert(s[0] == '+');
        assert(s.drop_first() =~= v@.subrange(from + 1, to as int));
        read_digits(v, from + 1, to, max)
    } else {
        assert(from < to ==> s[0] == v@[from as int]);
        read_digits(v, from, to, max)
    }
}

/// Reads `v[from..to]` as a signed decimal number from `-bound - 1` to
/// `bound`.
pub fn read_signed(v: &Vec<char>, from: usize, to: usize, bound: u32) -> (r: Option<i64>)
    requires
        from <= to <= v.len(),
    ensures
        r.is_some() == parse_signed(
            v@.subrange(from as int, to as int),
            -(bound as int) - 1,
            bound as int,
        ).is_some(),
        r matches Some(n) ==> parse_signed(
            v@.subrange(from as int, to as int),
            -(bound as int) - 1,
            bound as int,
        ) == Some(n as int),
{
    let ghost s = v@.subrange(from as int, to as int);
    if from < to && v[from] == '-' {
        assert(s[0] == '-');
        assert(s.drop_first() =~= v@.subrange(from + 1, to as int));
        match read_digits(v, from + 1, to, bound as u64 + 1) {
            Some(n) => Some(-(n as i64)),
            None => None,
        }
    } else if from < to && v[from] == '+' {
        assert(s[0] == '+');
        assert(s.drop_first() =~= v@.subrange(from + 1, to as int));
        match read_digits(v, from + 1, to, bound as u64) {
            Some(n) => Some(n as i64),
            None => None,
        }
    } else {
        assert(from < to ==> s[0] == v@[from as int]);
        match read_digits(v, from, to, bound as u64) {
            Some(n) => Some(n as i64),
            None => None,
        }
    }
}

/// Number of white-space characters at the start of `s`.
pub open spec fn leading_whitespace(s: Seq<char>) -> int
    decreases s.len(),
{
    if s.len() == 0 || !is_whitespace(s[0]) {
        0
    } else {
        1 + leading_whitespace(s.drop_first())
    }
}

/// Length of `s` without the white space at its end.
pub open spec fn length_without_trailing_whitespace(s: Seq<char>) -> int
    decreases s.len(),
{
    if s.len() == 0 || !is_whitespace(s.last()) {
        s.len() as int
    } else {
        length_without_trailing_whitespace(s.drop_last())
    }
}

/// `s` without the white space at its start.
pub open spec fn trimmed_start(s: Seq<char>) -> Seq<char> {
    s.skip(leading_whitespace(s))
}

/// `s` without the white space at its start and at its end.
pub open spec fn trimmed(s: Seq<char>) -> Seq<char> {
    let a = leading_whitespace(s);
    let b = length_without_trailing_whitespace(s);
    if a < b {
        s.subrange(a, b)
    } else {
        Seq::empty()
    }
}

/// The white space at the start of a text is part of the text.
pub proof fn lemma_leading_whitespace_bounds(s: Seq<char>)
    ensures
        0 <= leading_whitespace(s) <= s.len(),
    decreases s.len(),
{
    if s.len() > 0 && is_whitespace(s[0]) {
        lemma_leading_whitespace_bounds(s.drop_first());
    }
}

/// A position before which all is white space, and which holds another
/// character or is the end, is the number of leading white-space characters.
pub proof fn lemma_leading_whitespace(s: Seq<char>, i: int)
    requires
        0 <= i <= s.len(),
        i < s.len() ==> !is_whitespace(s[i]),
        forall|j: int| 0 <= j < i ==> is_whitespace(#[trigger] s[j]),
    ensures
        leading_whitespace(s) == i,
    decreases s.len(),
{
    if i > 0 {
        let t = s.drop_first();
        assert(is_whitespace(s[0]));
        assert forall|j: int| 0 <= j < i - 1 implies is_whitespace(#[trigger] t[j]) by {
            assert(t[j] == s[j + 1]);
        }
        lemma_leading_whitespace(t, i - 1);
    }
}

/// A position from which on all is white space, and before which another
/// character stands or nothing, is the length without trailing white space.
pub proof fn lemma_trailing_whitespace(s: Seq<char>, i: int)
    requires
        0 <= i <= s.len(),
        i > 0 ==> !is_whitespace(s[i - 1]),
        forall|j: int| i <= j < s.len() ==> is_whitespace(#[trigger] s[j]),
    ensures
        length_without_trailing_whitespace(s) == i,
    decreases s.len(),
{
    if i < s.len() {
        let t = s.drop_last();
        assert(is_whitespace(s[s.len() - 1]));
        assert forall|j: int| i <= j < t.len() implies is_whitespace(#[trigger] t[j]) by {
            assert(t[j] == s[j]);
        }
        lemma_trailing_whitespace(t, i);
    }
}

/// Counts the white-space characters at the start of `v[from..to]`.
pub fn skip_whitespace(v: &Vec<char>, from: usize, to: usize) -> (r: usize)
    requires
        from <= to <= v.len(),
    ensures
        r == leading_whitespace(v@.subrange(from as int, to as int)),
        r <= to - from,
{
    let mut i: usize = from;
    while i < to && char_is_whitespace(v[i])
        invariant
            from <= i <= to <= v.len(),
            forall|j: int| from <= j < i ==> is_whitespace(#[trigger] v@[j]),
        decreases to - i,
    {
        i += 1;
    }
    proof {
        lemma_leading_whitespace(v@.subrange(from as int, to as int), i - from);
    }
    i - from
}

/// Measures `v[from..to]` without the white space at its end.
pub fn skip_whitespace_back(v: &Vec<char>, from: usize, to: usize) -> (r: usize)
    requires
        from <= to <= v.len(),
    ensures
        r == length_without_trailing_whitespace(v@.subrange(from as int, to as int)),
        r <= to - from,
{
    let mut i: usize = to;
    while i > from && char_is_whitespace(v[i - 1])
        invariant
            from <= i <= to <= v.len(),
            forall|j: int| i <= j < to ==> is_whitespace(#[trigger] v@[j]),
        decreases i - from,
    {
        i -= 1;
    }
    proof {
        lemma_trailing_whitespace(v@.subrange(from as int, to as int), i - from);
    }
    i - from
}

/// The characters `v[from..to]` without the white space at both ends.
pub fn trim_range(v: &Vec<char>, from: usize, to: usize) -> (r: String)
    requires
        from <= to <= v.len(),
    ensures
        r@ == trimmed(v@.subrange(from as int, to as int)),
{
    let a: usize = skip_whitespace(v, from, to);
    let b: usize = skip_whitespace_back(v, from, to);
    if a < b {
        assert(v@.subrange(from as int, to as int).subrange(a as int, b as int) =~= v@.subrange(
            from + a,
            from + b,
        ));
        to_string_range(v, from + a, from + b)
    } else {
        String::new()
    }
}

/// Number of characters at the start of `s` that are no white space.
pub open spec fn leading_word(s: Seq<char>) -> int
    decreases s.len(),
{
    if s.len() == 0 || is_whitespace(s[0]) {
        0
    } else {
        1 + leading_word(s.drop_first())
    }
}

/// The first word of a text: what stands between the white space at its
/// start and the next white space. It is empty where the text has no word.
pub open spec fn first_word(s: Seq<char>) -> Seq<char> {
    let rest = trimmed_start(s);
    rest.take(leading_word(rest))
}

/// What stands behind the first word of a text.
pub open spec fn after_first_word(s: Seq<char>) -> Seq<char> {
    let rest = trimmed_start(s);
    rest.skip(leading_word(rest))
}

/// A position before which no white space stands, and which holds white
/// space or is the end, is the length of the leading word.
pub proof fn lemma_leading_word(s: Seq<char>, i: int)
    requires
        0 <= i <= s.len(),
        i < s.len() ==> is_whitespace(s[i]),
        forall|j: int| 0 <= j < i ==> !is_whitespace(#[trigger] s[j]),
    ensures
        leading_word(s) == i,
    decreases s.len(),
{
    if i > 0 {
        let t = s.drop_first();
        assert(!is_whitespace(s[0]));
        assert forall|j: int| 0 <= j < i - 1 implies !is_whitespace(#[trigger] t[j]) by {
            assert(t[j] == s[j + 1]);
        }
        lemma_leading_word(t, i - 1);
    }
}

/// Counts the characters at the start of `v[from..to]` that are no white
/// space.
pub fn skip_word(v: &Vec<char>, from: usize, to: usize) -> (r: usize)
    requires
        from <= to <= v.len(),
    ensures
        r == leading_word(v@.subrange(from as int, to as int)),
        r <= to - from,
{
    let mut i: usize = from;
    while i < to && !char_is_whitespace(v[i])
        invariant
            from <= i <= to <= v.len(),
            forall|j: int| from <= j < i ==> !is_whitespace(#[trigger] v@[j]),
        decreases to - i,
    {
        i += 1;
    }
    proof {
        lemma_leading_word(v@.subrange(from as int, to as int), i - from);
    }
    i - from
}

/// Finds the first word of `v[from..to]`: where it begins and where it
/// ends, both as positions in `v`.
pub fn find_word(v: &Vec<char>, from: usize, to: usize) -> (r: (usize, usize))
    requires
        from <= to <= v.len(),
    ensures
        from <= r.0 <= r.1 <= to,
        v@.subrange(r.0 as int, r.1 as int) == first_word(v@.subrange(from as int, to as int)),
        v@.subrange(r.1 as int, to as int) == after_first_word(
            v@.subrange(from as int, to as int),
        ),
{
    let blank: usize = skip_whitespace(v, from, to);
    let start: usize = from + blank;
    let ghost s = v@.subrange(from as int, to as int);
    assert(trimmed_start(s) =~= v@.subrange(start as int, to as int));
    let length: usize = skip_word(v, start, to);
    assert(v@.subrange(start as int, to as int).take(length as int) =~= v@.subrange(
        start as int,
        start + length,
    ));
    assert(v@.subrange(start as int, to as int).skip(length as int) =~= v@.subrange(
        start + length,
        to as int,
    ));
    (start, start + length)
}

/// The texts of a sequence, one behind the other, with a separator between
/// each two.
pub open spec fn joined(items: Seq<Seq<char>>, separator: Seq<char>) -> Seq<char>
    decreases items.len(),
{
    if items.len() == 0 {
        Seq::empty()
    } else if items.len() == 1 {
        items[0]
    } else {
        joined(items.drop_last(), separator) + separator + items.last()
    }
}

/// Appends the strings of `items` to `out`, with a separator between each
/// two.
pub fn push_joined(out: &mut String, items: &Vec<String>, separator: &str)
    ensures
        final(out)@ == old(out)@ + joined(items@.map_values(|s: String| s@), separator@),
{
    let ghost all = items@.map_values(|s: String| s@);
    let mut i: usize = 0;
    assert(all.take(0) =~= Seq::<Seq<char>>::empty());
    assert(out@ + Seq::<char>::empty() =~= out@);
    while i < items.len()
        invariant
            i <= items.len(),
            all == items@.map_values(|s: String| s@),
            out@ == old(out)@ + joined(all.take(i as int), separator@),
        decreases items.len() - i,
    {
        if i > 0 {
            out.push_str(separator);
        }
        out.push_str(items[i].as_str());
        proof {
            let next = all.take(i + 1);
            assert(next.drop_last() =~= all.take(i as int));
            assert(next.last() == items@[i as int]@);
            if i == 0 {
                assert(out@ =~= old(out)@ + items@[0]@);
            } else {
                assert(out@ =~= old(out)@ + (joined(all.take(i as int), separator@) + separator@
                    + items@[i as int]@));
            }
        }
        i += 1;
    }
    assert(all.take(i as int) =~= all);
}

/// The letter of the ASCII alphabet in lower case; any other character as
/// it is.
pub open spec fn ascii_lower(c: char) -> char {
    if 65 <= c as u32 <= 90 {
        ((c as u32 + 32) as u8) as char
    } else {
        c
    }
}

/// Whether two texts are equal but for the case of their ASCII letters.
pub open spec fn equal_ignoring_ascii_case(a: Seq<char>, b: Seq<char>) -> bool {
    &&& a.len() == b.len()
    &&& forall|i: int| 0 <= i < a.len() ==> ascii_lower(#[trigger] a[i]) == ascii_lower(b[i])
}

/// Puts a character of the ASCII alphabet in lower case.
pub fn to_ascii_lower(c: char) -> (r: char)
    ensures
        r == ascii_lower(c),
{
    let u: u32 = c as u32;
    if 65 <= u && u <= 90 {
        ((u + 32) as u8) as char
    } else {
        c
    }
}

/// Tests whether two texts are equal but for the case of their ASCII
/// letters.
pub fn same_ignoring_ascii_case(a: &str, b: &str) -> (r: bool)
    ensures
        r == equal_ignoring_ascii_case(a@, b@),
{
    let x = to_chars(a);
    let y = to_chars(b);
    if x.len() != y.len() {
        return false;
    }
    let mut i: usize = 0;
    while i < x.len()
        invariant
            i <= x.len() == y.len(),
            x@ == a@,
            y@ == b@,
            forall|j: int| 0 <= j < i ==> ascii_lower(#[trigger] x@[j]) == ascii_lower(y@[j]),
        decreases x.len() - i,
    {
        if to_ascii_lower(x[i]) != to_ascii_lower(y[i]) {
            return false;
        }
        i += 1;
    }
    true
}

/// Number of bytes that a character takes in UTF-8.
pub open spec fn utf8_length(c: char) -> nat {
    let u = c as u32;
    if u < 0x80 {
        1
    } else if u < 0x800 {
        2
    } else if u < 0x10000 {
        3
    } else {
        4
    }
}

/// Counts the bytes that a character takes in UTF-8.
pub fn char_utf8_length(c: char) -> (r: usize)
    ensures
        r == utf8_length(c),
        1 <= r <= 4,
{
    let u: u32 = c as u32;
    if u < 0x80 {
        1
    } else if u < 0x800 {
        2
    } else if u < 0x10000 {
        3
    } else {
        4
    }
}

/// Number of characters at the start of `s` that fit into `limit` bytes of
/// UTF-8 together.
pub open spec fn fitting_prefix(s: Seq<char>, limit: nat) -> int
    decreases s.len(),
{
    if s.len() == 0 || utf8_length(s[0]) > limit {
        0
    } else {
        1 + fitting_prefix(s.drop_first(), (limit - utf8_length(s[0])) as nat)
    }
}

/// Counts the characters at the start of `v[from..to]` that fit into
/// `limit` bytes of UTF-8 together.
pub fn count_fitting(v: &Vec<char>, from: usize, to: usize, limit: usize) -> (r: usize)
    requires
        from <= to <= v.len(),
    ensures
        r == fitting_prefix(v@.subrange(from as int, to as int), limit as nat),
        r <= to - from,
{
    let mut i: usize = from;
    let mut budget: usize = limit;
    loop
        invariant
            from <= i <= to <= v.len(),
            fitting_prefix(v@.subrange(from as int, to as int), limit as nat) == (i - from)
                + fitting_prefix(v@.subrange(i as int, to as int), budget as nat),
        decreases to - i,
    {
        let ghost rest = v@.subrange(i as int, to as int);
        if i == to {
            return i - from;
        }
        assert(rest[0] == v@[i as int]);
        let width: usize = char_utf8_length(v[i]);
        if width > budget {
            return i - from;
        }
        assert(rest.drop_first() =~= v@.subrange(i + 1, to as int));
        budget = budget - width;
        i += 1;
    }
}

} // verus!
