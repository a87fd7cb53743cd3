//! Operations on text, specified over sequences of characters.

use vstd::prelude::*;

verus! {

/// `needle` stands in `hay` at position `at`.
pub open spec fn occurs_at(hay: Seq<char>, needle: Seq<char>, at: int) -> bool {
    &&& 0 <= at
    &&& at + needle.len() <= hay.len()
    &&& hay.subrange(at, at + needle.len()) == needle
}

/// `s` begins with `prefix`.
pub open spec fn has_prefix(s: Seq<char>, prefix: Seq<char>) -> bool {
    occurs_at(s, prefix, 0)
}

/// `needle` stands somewhere in `hay`.
pub open spec fn has_substring(hay: Seq<char>, needle: Seq<char>) -> bool {
    exists|at: int| occurs_at(hay, needle, at)
}

/// Appends one character to a string.
///
/// Wraps `String::push`: afterwards the string holds its former characters
/// followed by `c`.
#[verifier::external_body]
pub(crate) fn push_char(s: &mut String, c: char)
    ensures
        final(s)@ == old(s)@.push(c),
{
    s.push(c)
}

/// The characters of `s`, in order.
pub fn chars_of(s: &str) -> (v: Vec<char>)
    ensures
        v@ == s@,
{
    let mut v: Vec<char> = Vec::new();
    for c in it: s.chars()
        invariant
            it.seq() == s@,
            v@ == s@.take(it.index() as int),
    {
        v.push(c);
    }
    v
}

/// The string made of the characters `v[from..to]`, in order.
pub fn string_of_range(v: &Vec<char>, from: usize, to: usize) -> (s: String)
    requires
        from <= to <= v@.len(),
    ensures
        s@ == v@.subrange(from as int, to as int),
{
    let mut s = String::new();
    let mut i: usize = from;
    while i < to
        invariant
            from <= i <= to <= v@.len(),
            s@ == v@.subrange(from as int, i as int),
        decreases to - i,
    {
        push_char(&mut s, v[i]);
        i = i + 1;
    }
    s
}

/// The string made of the characters `v`, in order.
pub fn string_of(v: &Vec<char>) -> (s: String)
    ensures
        s@ == v@,
{
    let s = string_of_range(v, 0, v.len());
    assert(v@.subrange(0, v@.len() as int) == v@);
    s
}

/// Whether `needle` stands in `hay` at position `at`.
pub fn matches_at(hay: &Vec<char>, at: usize, needle: &Vec<char>) -> (r: bool)
    ensures
        r == occurs_at(hay@, needle@, at as int),
{
    let n: usize = needle.len();
    let len: usize = hay.len();
    if at > len || n > len - at {
        return false;
    }
    let mut i: usize = 0;
    while i < n
        invariant
            i <= n,
            n == needle@.len(),
            len == hay@.len(),
            at + n <= len,
            hay@.subrange(at as int, at + i) == needle@.take(i as int),
        decreases n - i,
    {
        if hay[at + i] != needle[i] {
            assert(hay@.subrange(at as int, at + n)[i as int] != needle@[i as int]);
            return false;
        }
        assert(hay@.subrange(at as int, at + i + 1) == hay@.subrange(at as int, at + i).push(
            hay@[at + i],
        ));
        assert(needle@.take(i + 1) == needle@.take(i as int).push(needle@[i as int]));
        i = i + 1;
    }
    assert(needle@.take(n as int) == needle@);
    true
}

/// Whether `needle` stands somewhere in `hay`.
pub fn contains_chars(hay: &Vec<char>, needle: &Vec<char>) -> (r: bool)
    ensures
        r == has_substring(hay@, needle@),
{
    let len: usize = hay.len();
    let mut at: usize = 0;
    while at < len
        invariant
            at <= len,
            len == hay@.len(),
            forall|k: int| 0 <= k < at ==> !occurs_at(hay@, needle@, k),
        decreases len - at,
    {
        if matches_at(hay, at, needle) {
            return true;
        }
        at = at + 1;
    }
    matches_at(hay, len, needle)
}

/// Whether the character `c` occurs in `hay`.
pub fn contains_char(hay: &Vec<char>, c: char) -> (r: bool)
    ensures
        r == hay@.contains(c),
{
    let mut i: usize = 0;
    while i < hay.len()
        invariant
            i <= hay@.len(),
            forall|k: int| 0 <= k < i ==> hay@[k] != c,
        decreases hay@.len() - i,
    {
        if hay[i] == c {
            return true;
        }
        i = i + 1;
    }
    false
}

/// What `str::to_lowercase` makes of the text `s`.
pub uninterp spec fn lowercased(s: Seq<char>) -> Seq<char>;

/// The lowercase form of `s`.
///
/// Wraps `str::to_lowercase`, which maps each character by the Unicode
/// lowercase tables; the contract only names that result.
#[verifier::external_body]
pub(crate) fn to_lowercase(s: &str) -> (r: String)
    ensures
        r@ == lowercased(s@),
{
    s.to_lowercase()
}

/// The decimal digit for `d`, which is below ten.
pub open spec fn digit_char(d: nat) -> char {
    (('0' as nat) + d) as char
}

/// The decimal numeral of `n`, without leading zeros.
pub open spec fn decimal(n: nat) -> Seq<char>
    decreases n,
{
    if n < 10 {
        seq![digit_char(n)]
    } else {
        decimal(n / 10).push(digit_char(n % 10))
    }
}

/// Appends the decimal numeral of `n` to `s`.
pub fn push_decimal(s: &mut String, n: u64)
    ensures
        final(s)@ == old(s)@ + decimal(n as nat),
    decreases n,
{
    if n >= 10 {
        push_decimal(s, n / 10);
    }
    let d: u8 = (n % 10) as u8;
    let c: char = (48u8 + d) as char;
    assert(c == digit_char((n % 10) as nat));
    push_char(s, c);
    assert(s@ == old(s)@ + decimal(n as nat));
}

/// Whether `c` is white space: a character with the Unicode property
/// `White_Space`.
pub open spec fn is_space(c: char) -> bool {
    let n = c as u32;
    ||| 0x09 <= n <= 0x0D
    ||| n == 0x20
    ||| n == 0x85
    ||| n == 0xA0
    ||| n == 0x1680
    ||| 0x2000 <= n <= 0x200A
    ||| n == 0x2028
    ||| n == 0x2029
    ||| n == 0x202F
    ||| n == 0x205F
    ||| n == 0x3000
}

/// `s` without the white space at its start.
pub open spec fn trimmed_start(s: Seq<char>) -> Seq<char>
    decreases s.len(),
{
    if s.len() > 0 && is_space(s[0]) {
        trimmed_start(s.drop_first())
    } else {
        s
    }
}

/// `s` without the white space at its end.
pub open spec fn trimmed_end(s: Seq<char>) -> Seq<char>
    decreases s.len(),
{
    if s.len() > 0 && is_space(s.last()) {
        trimmed_end(s.drop_last())
    } else {
        s
    }
}

/// `s` without the white space at its start and at its end.
pub open spec fn trimmed(s: Seq<char>) -> Seq<char> {
    trimmed_end(trimmed_start(s))
}

/// Tests a character for white space.
pub fn char_is_space(c: char) -> (r: bool)
    ensures
        r == is_space(c),
{
    let n: u32 = c as u32;
    (0x09 <= n && n <= 0x0D) || n == 0x20 || n == 0x85 || n == 0xA0 || n == 0x1680 || (0x2000 <= n
        && n <= 0x200A) || n == 0x2028 || n == 0x2029 || n == 0x202F || n == 0x205F || n == 0x3000
}

/// The bounds of `v` without the white space at its start and end.
pub fn trim_bounds(v: &Vec<char>) -> (r: (usize, usize))
    ensures
        r.0 <= r.1 <= v@.len(),
        v@.subrange(r.0 as int, r.1 as int) == trimmed(v@),
{
    let len: usize = v.len();
    let mut from: usize = 0;
    assert(v@.skip(0) == v@);
    while from < len && char_is_space(v[from])
        invariant
            from <= len,
            len == v@.len(),
            trimmed_start(v@) == trimmed_start(v@.skip(from as int)),
        decreases len - from,
    {
        assert(v@.skip(from as int).drop_first() == v@.skip(from + 1));
        from = from + 1;
    }
    assert(trimmed_start(v@) == v@.skip(from as int));
    let ghost rest = v@.skip(from as int);
    let mut to: usize = len;
    assert(rest.take(len - from) == rest);
    while to > from && char_is_space(v[to - 1])
        invariant
            from <= to <= len,
            len == v@.len(),
            rest == v@.skip(from as int),
            trimmed_end(rest) == trimmed_end(rest.take(to - from)),
        decreases to,
    {
        assert(rest.take(to - from).drop_last() == rest.take(to - from - 1));
        to = to - 1;
    }
    assert(rest.take(to - from) == v@.subrange(from as int, to as int));
    (from, to)
}

/// `s` without the white space at its start and at its end.
pub fn trim(s: &str) -> (r: String)
    ensures
        r@ == trimmed(s@),
{
    let v = chars_of(s);
    let (from, to) = trim_bounds(&v);
    string_of_range(&v, from, to)
}

/// The pieces of `s` between occurrences of `sep`, read from left to
/// right: a separator opens a new piece, any other character extends the
/// last one. There is always at least one piece.
pub open spec fn split(s: Seq<char>, sep: char) -> Seq<Seq<char>>
    decreases s.len(),
{
    if s.len() == 0 {
        seq![Seq::empty()]
    } else {
        let before = split(s.drop_last(), sep);
        if s.last() == sep {
            before.push(Seq::empty())
        } else {
            before.drop_last().push(before.last().push(s.last()))
        }
    }
}

/// The character sequences that the vectors `parts` hold, in order.
pub open spec fn texts(parts: Seq<Vec<char>>) -> Seq<Seq<char>> {
    parts.map_values(|p: Vec<char>| p@)
}

/// The character sequences that the strings `lines` hold, in order.
pub open spec fn string_texts(lines: Seq<String>) -> Seq<Seq<char>> {
    lines.map_values(|l: String| l@)
}

/// Splits `v` at every occurrence of `sep`.
pub fn split_chars(v: &Vec<char>, sep: char) -> (parts: Vec<Vec<char>>)
    ensures
        texts(parts@) == split(v@, sep),
{
    let mut done: Vec<Vec<char>> = Vec::new();
    let mut piece: Vec<char> = Vec::new();
    let len: usize = v.len();
    let mut i: usize = 0;
    assert(v@.take(0) == Seq::<char>::empty());
    assert(texts(done@).push(piece@) == seq![Seq::<char>::empty()]);
    while i < len
        invariant
            i <= len,
            len == v@.len(),
            texts(done@).push(piece@) == split(v@.take(i as int), sep),
        decreases len - i,
    {
        let ghost prefix = v@.take(i + 1);
        let ghost before = split(v@.take(i as int), sep);
        assert(prefix.drop_last() == v@.take(i as int));
        assert(before.last() == piece@);
        assert(before.drop_last() == texts(done@));
        let c = v[i];
        if c == sep {
            assert(texts(done@.push(piece)) == texts(done@).push(piece@));
            done.push(piece);
            piece = Vec::new();
        } else {
            piece.push(c);
        }
        i = i + 1;
    }
    assert(v@.take(len as int) == v@);
    assert(texts(done@.push(piece)) == texts(done@).push(piece@));
    done.push(piece);
    done
}

/// Whether `c` is one of the digits `0` to `9`.
pub open spec fn is_digit(c: char) -> bool {
    '0' <= c <= '9'
}

/// The number that the decimal digits `s` spell; zero for no digits.
pub open spec fn digits_value(s: Seq<char>) -> nat
    decreases s.len(),
{
    if s.len() == 0 {
        0
    } else {
        digits_value(s.drop_last()) * 10 + (s.last() as nat - '0' as nat) as nat
    }
}

/// The number that `s` spells: one or more decimal digits, with one `+` in
/// front of them if any. `None` where `s` is anything else.
pub open spec fn parsed_number(s: Seq<char>) -> Option<nat> {
    if s.len() > 0 && s[0] == '+' {
        unsigned_number(s.drop_first())
    } else {
        unsigned_number(s)
    }
}

/// Every character of `s` is a digit.
pub open spec fn all_digits(s: Seq<char>) -> bool {
    forall|i: int| 0 <= i < s.len() ==> is_digit(#[trigger] s[i])
}

/// The number that `digits` spells, where it is one or more digits.
pub open spec fn unsigned_number(digits: Seq<char>) -> Option<nat> {
    if digits.len() > 0 && all_digits(digits) {
        Some(digits_value(digits))
    } else {
        None
    }
}

/// The number that `s` spells, where it spells one that fits.
pub open spec fn parsed_usize(s: Seq<char>) -> Option<usize> {
    fitting(parsed_number(s))
}

/// The number `n` as a `usize`, where there is one and it fits.
pub open spec fn fitting(n: Option<nat>) -> Option<usize> {
    match n {
        Some(n) => if n <= usize::MAX {
            Some(n as usize)
        } else {
            None
        },
        None => None,
    }
}

/// More digits never spell a smaller number.
pub proof fn lemma_digits_value_grows(s: Seq<char>, n: int)
    requires
        0 <= n <= s.len(),
    ensures
        digits_value(s.take(n)) <= digits_value(s),
    decreases s.len() - n,
{
    if n < s.len() {
        lemma_digits_value_grows(s, n + 1);
        assert(s.take(n + 1).drop_last() == s.take(n));
    } else {
        assert(s.take(n) == s);
    }
}

/// Reads the characters of `v` from `from` on as a decimal number.
pub fn parse_digits(v: &Vec<char>, from: usize) -> (r: Option<usize>)
    requires
        from <= v@.len(),
    ensures
        r == parsed_usize(v@.skip(from as int)),
{
    let len: usize = v.len();
    let ghost s = v@.skip(from as int);
    let mut start: usize = from;
    if start < len && v[start] == '+' {
        start = start + 1;
    }
    let ghost digits = v@.skip(start as int);
    proof {
        if s.len() > 0 && s[0] == '+' {
            assert(digits == s.drop_first());
        } else {
            assert(digits == s);
        }
    }
    if start == len {
        return None;
    }
    let mut i: usize = start;
    while i < len
        invariant
            start <= i <= len,
            len == v@.len(),
            digits == v@.skip(start as int),
            digits.len() > 0,
            s == v@.skip(from as int),
            parsed_number(s) == unsigned_number(digits),
            forall|k: int| 0 <= k < i - start ==> is_digit(#[trigger] digits[k]),
        decreases len - i,
    {
        let c = v[i];
        if !('0' <= c && c <= '9') {
            assert(c == digits[i - start]);
            assert(!is_digit(digits[i - start]));
            return None;
        }
        i = i + 1;
    }
    let mut value: usize = 0;
    let mut j: usize = start;
    assert(digits.take(0) == Seq::<char>::empty());
    while j < len
        invariant
            start <= j <= len,
            len == v@.len(),
            digits == v@.skip(start as int),
            digits.len() > 0,
            s == v@.skip(from as int),
            parsed_number(s) == unsigned_number(digits),
            all_digits(digits),
            value == digits_value(digits.take(j - start)),
        decreases len - j,
    {
        let c = v[j];
        assert(c == digits[j - start]);
        let d: usize = (c as u32 - '0' as u32) as usize;
        proof {
            assert(digits.take(j - start + 1).drop_last() == digits.take(j - start));
            assert(digits_value(digits.take(j - start + 1)) == value * 10 + d);
            lemma_digits_value_grows(digits, j - start + 1);
        }
        let tens = match value.checked_mul(10) {
            Some(t) => t,
            None => {
                return None;
            },
        };
        value = match tens.checked_add(d) {
            Some(t) => t,
            None => {
                return None;
            },
        };
        j = j + 1;
    }
    assert(digits.take(len - start) == digits);
    Some(value)
}

/// `s` without every copy of `prefix` that stands at its start, one after
/// the other.
pub open spec fn strip_repeated(s: Seq<char>, prefix: Seq<char>) -> Seq<char>
    decreases s.len(),
{
    if prefix.len() > 0 && has_prefix(s, prefix) {
        strip_repeated(s.skip(prefix.len() as int), prefix)
    } else {
        s
    }
}

/// The position in `v` behind every copy of `prefix` that stands at its
/// start.
pub fn skip_repeated(v: &Vec<char>, prefix: &Vec<char>) -> (at: usize)
    ensures
        at <= v@.len(),
        v@.skip(at as int) == strip_repeated(v@, prefix@),
{
    let n: usize = prefix.len();
    let len: usize = v.len();
    let mut at: usize = 0;
    assert(v@.skip(0) == v@);
    if n == 0 {
        return 0;
    }
    while matches_at(v, at, prefix)
        invariant
            at <= len,
            len == v@.len(),
            n == prefix@.len(),
            n > 0,
            strip_repeated(v@, prefix@) == strip_repeated(v@.skip(at as int), prefix@),
        decreases v@.len() - at,
    {
        proof {
            let rest = v@.skip(at as int);
            assert(rest.subrange(0, n as int) == v@.subrange(at as int, at + n));
            assert(has_prefix(rest, prefix@));
            assert(rest.skip(n as int) == v@.skip(at + n));
        }
        at = at + n;
    }
    proof {
        let rest = v@.skip(at as int);
        if has_prefix(rest, prefix@) {
            assert(rest.subrange(0, n as int) == v@.subrange(at as int, at + n));
            assert(occurs_at(v@, prefix@, at as int));
        }
    }
    at
}

} // verus!
