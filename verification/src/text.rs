//! Characters, decimal numbers and string building.
//!
//! A string is seen through its view, the sequence of its characters.
use vstd::prelude::*;
use vstd::string::*;

verus! {

/// `String::push` appends the given character to the end of the string.
pub assume_specification[ String::push ](s: &mut String, c: char)
    ensures
        final(s)@ == old(s)@.push(c),
;

// ── character classes ──────────────────────────────────────────────

/// Control characters: the Unicode general category `Cc`.
pub open spec fn is_control_char(c: char) -> bool {
    c as u32 <= 0x1f || 0x7f <= c as u32 <= 0x9f
}

/// White space: the Unicode property `White_Space`.
pub open spec fn is_white_space(c: char) -> bool {
    ||| 0x09 <= c as u32 <= 0x0d
    ||| c as u32 == 0x20
    ||| c as u32 == 0x85
    ||| c as u32 == 0xa0
    ||| c as u32 == 0x1680
    ||| 0x2000 <= c as u32 <= 0x200a
    ||| c as u32 == 0x2028
    ||| c as u32 == 0x2029
    ||| c as u32 == 0x202f
    ||| c as u32 == 0x205f
    ||| c as u32 == 0x3000
}

/// No character of `s` is a control character.
pub open spec fn control_free(s: Seq<char>) -> bool {
    forall|i: int| 0 <= i < s.len() ==> !is_control_char(#[trigger] s[i])
}

/// Whether `c` is a control character.
pub fn is_control(c: char) -> (r: bool)
    ensures
        r == is_control_char(c),
{
    let n: u32 = c as u32;
    n <= 0x1f || (0x7f <= n && n <= 0x9f)
}

/// Whether `c` is white space.
pub fn is_whitespace(c: char) -> (r: bool)
    ensures
        r == is_white_space(c),
{
    let n: u32 = c as u32;
    (0x09 <= n && n <= 0x0d) || n == 0x20 || n == 0x85 || n == 0xa0 || n == 0x1680 || (0x2000 <= n
        && n <= 0x200a) || n == 0x2028 || n == 0x2029 || n == 0x202f || n == 0x205f || n == 0x3000
}

/// The lower-case form of an ASCII letter; any other character is itself.
pub open spec fn ascii_lower_char(c: char) -> char {
    if 'A' <= c <= 'Z' {
        (c as u32 + 32) as char
    } else {
        c
    }
}

/// Every ASCII letter of `s` in lower case.
pub open spec fn ascii_lower(s: Seq<char>) -> Seq<char> {
    s.map_values(|c: char| ascii_lower_char(c))
}

// ── whole strings ──────────────────────────────────────────────────

/// The characters of `s`.
pub fn chars_of(s: &str) -> (v: Vec<char>)
    ensures
        v@ == s@,
{
    let mut v: Vec<char> = Vec::new();
    for c in it: s.chars()
        invariant
            it.seq() == s@,
            v@ == s@.take(it.index() as int),
    {
        v.push(c);
        assert(s@.take(it.index() + 1) == s@.take(it.index() as int).push(c));
    }
    assert(s@.take(s@.len() as int) == s@);
    v
}

/// Whether two strings hold the same characters.
pub fn str_eq(a: &str, b: &str) -> (r: bool)
    ensures
        r == (a@ == b@),
{
    a.to_owned() == b.to_owned()
}

/// The string that holds the characters `v[from..to]`.
pub fn string_of(v: &Vec<char>, from: usize, to: usize) -> (s: String)
    requires
        from <= to <= v@.len(),
    ensures
        s@ == v@.subrange(from as int, to as int),
{
    let mut s = String::new();
    let mut i: usize = from;
    while i < to
        invariant
            from <= i <= to <= v@.len(),
            s@ == v@.subrange(from as int, i as int),
        decreases to - i,
    {
        s.push(v[i]);
        i = i + 1;
        assert(v@.subrange(from as int, i as int) == v@.subrange(from as int, i - 1).push(
            v@[i - 1],
        ));
    }
    s
}

/// `s` without its leading and trailing white space.
pub open spec fn trimmed(s: Seq<char>) -> Seq<char>
    decreases s.len(),
{
    if s.len() == 0 {
        s
    } else if is_white_space(s.first()) {
        trimmed(s.drop_first())
    } else if is_white_space(s.last()) {
        trimmed(s.drop_last())
    } else {
        s
    }
}

/// Remove leading and trailing white space.
pub fn trim(s: &str) -> (r: String)
    ensures
        r@ == trimmed(s@),
{
    let v = chars_of(s);
    let mut from: usize = 0;
    assert(v@.subrange(0, v@.len() as int) == v@);
    while from < v.len() && is_whitespace(v[from])
        invariant
            from <= v@.len(),
            trimmed(v@.subrange(from as int, v@.len() as int)) == trimmed(v@),
        decreases v@.len() - from,
    {
        assert(v@.subrange(from as int, v@.len() as int).drop_first() == v@.subrange(
            from + 1,
            v@.len() as int,
        ));
        from = from + 1;
    }
    let mut to: usize = v.len();
    while from < to && is_whitespace(v[to - 1])
        invariant
            from <= to <= v@.len(),
            from < to ==> !is_white_space(v@[from as int]),
            trimmed(v@.subrange(from as int, to as int)) == trimmed(v@),
        decreases to,
    {
        assert(v@.subrange(from as int, to as int).drop_last() == v@.subrange(from as int, to - 1));
        to = to - 1;
    }
    string_of(&v, from, to)
}

/// Put every ASCII letter in lower case.
pub fn to_ascii_lowercase(s: &str) -> (r: String)
    ensures
        r@ == ascii_lower(s@),
{
    let v = chars_of(s);
    let mut r = String::new();
    let mut i: usize = 0;
    while i < v.len()
        invariant
            i <= v@.len(),
            v@ == s@,
            r@ == ascii_lower(s@).take(i as int),
        decreases v@.len() - i,
    {
        let c = v[i];
        if 'A' <= c && c <= 'Z' {
            let low: u8 = c as u8 + 32;
            r.push(low as char);
        } else {
            r.push(c);
        }
        i = i + 1;
        assert(ascii_lower(s@).take(i as int) == ascii_lower(s@).take(i - 1).push(
            ascii_lower_char(c),
        ));
    }
    assert(ascii_lower(s@).take(s@.len() as int) == ascii_lower(s@));
    r
}

// ── decimal numbers ────────────────────────────────────────────────

/// The decimal digit for `d`, where `d` is below ten.
pub open spec fn digit_char(d: nat) -> char {
    ('0' as u32 + d) as char
}

/// `n` written in decimal, without leading zeros.
pub open spec fn decimal(n: nat) -> Seq<char>
    decreases n,
{
    if n < 10 {
        seq![digit_char(n)]
    } else {
        decimal(n / 10).push(digit_char(n % 10))
    }
}

/// Every character of `s` is a decimal digit.
pub open spec fn all_digits(s: Seq<char>) -> bool {
    forall|i: int| 0 <= i < s.len() ==> '0' <= #[trigger] s[i] <= '9'
}

/// The number that the digits `s` write in decimal.
pub open spec fn digits_value(s: Seq<char>) -> nat
    decreases s.len(),
{
    if s.len() == 0 {
        0
    } else {
        (digits_value(s.drop_last()) * 10 + (s.last() as u32 - '0' as u32)) as nat
    }
}

/// The digits of a number after its optional plus sign.
pub open spec fn unsigned_digits(s: Seq<char>) -> Seq<char> {
    if s.len() > 0 && s[0] == '+' {
        s.drop_first()
    } else {
        s
    }
}

/// The number that `s` writes: an optional plus sign, then at least one digit
/// and nothing but digits, for a number that fits in 64 bits.
pub open spec fn parsed_u64(s: Seq<char>) -> Option<nat> {
    let digits = unsigned_digits(s);
    if digits.len() > 0 && all_digits(digits) && digits_value(digits) <= u64::MAX {
        Some(digits_value(digits))
    } else {
        None
    }
}

/// A longer run of digits writes no smaller number.
proof fn lemma_digits_value_grows(s: Seq<char>, i: int)
    requires
        0 <= i <= s.len(),
        all_digits(s),
    ensures
        digits_value(s.take(i)) <= digits_value(s),
    decreases s.len() - i,
{
    if i == s.len() {
        assert(s.take(i) == s);
    } else {
        lemma_digits_value_grows(s, i + 1);
        assert(s.take(i + 1).drop_last() == s.take(i));
        assert('0' <= s[i]);
    }
}

/// Read an unsigned decimal number.
pub fn parse_u64(s: &str) -> (r: Option<u64>)
    ensures
        match r {
            Some(n) => parsed_u64(s@) == Some(n as nat),
            None => parsed_u64(s@) is None,
        },
{
    let v = chars_of(s);
    let start: usize = if v.len() > 0 && v[0] == '+' {
        1
    } else {
        0
    };
    let ghost digits = unsigned_digits(s@);
    assert(digits == v@.subrange(start as int, v@.len() as int));
    if start == v.len() {
        return None;
    }
    let mut n: u64 = 0;
    let mut i: usize = start;
    while i < v.len()
        invariant
            start <= i <= v@.len(),
            digits == v@.subrange(start as int, v@.len() as int),
            digits == unsigned_digits(s@),
            all_digits(digits.take(i - start)),
            n == digits_value(digits.take(i - start)),
        decreases v@.len() - i,
    {
        let c = v[i];
        assert(c == digits[i - start]);
        if !('0' <= c && c <= '9') {
            return None;
        }
        let d: u64 = (c as u32 - '0' as u32) as u64;
        proof {
            let k = i - start;
            assert(digits.take(k + 1).drop_last() == digits.take(k));
            assert(digits.take(k + 1).last() == c);
            assert(digits_value(digits.take(k + 1)) == n * 10 + d);
            assert forall|j: int| 0 <= j < k + 1 implies '0' <= #[trigger] digits.take(
                k + 1,
            )[j] <= '9' by {
                if j < k {
                    assert(digits.take(k)[j] == digits.take(k + 1)[j]);
                }
            }
            if n * 10 + d > u64::MAX && all_digits(digits) {
                lemma_digits_value_grows(digits, k + 1);
            }
        }
        if n > (u64::MAX - d) / 10 {
            return None;
        }
        n = n * 10 + d;
        i = i + 1;
    }
    assert(digits.take(digits.len() as int) == digits);
    Some(n)
}

/// Append `n` in decimal to `out`.
pub fn push_decimal(out: &mut String, n: u64)
    ensures
        final(out)@ == old(out)@ + decimal(n as nat),
    decreases n,
{
    if n >= 10 {
        push_decimal(out, n / 10);
    }
    let d: u8 = 48 + (n % 10) as u8;
    out.push(d as char);
    assert(out@ == old(out)@ + decimal(n as nat));
}

/// Reading what was written in decimal gives the number back.
pub proof fn law_decimal_reads_back(n: nat)
    ensures
        decimal(n).len() > 0,
        all_digits(decimal(n)),
        digits_value(decimal(n)) == n,
        trimmed(decimal(n)) == decimal(n),
        n > 0 ==> decimal(n)[0] != '0',
        n <= u64::MAX ==> parsed_u64(decimal(n)) == Some(n),
    decreases n,
{
    if n >= 10 {
        law_decimal_reads_back(n / 10);
        assert(decimal(n).drop_last() == decimal(n / 10));
    } else {
        assert(decimal(n).drop_last() == Seq::<char>::empty());
        assert(digits_value(Seq::<char>::empty()) == 0);
    }
    assert(decimal(n).last() == digit_char(n % 10));
    assert('0' <= decimal(n).first() <= '9');
}

/// The white space of Unicode, character by character.
pub proof fn law_white_space(c: char)
    ensures
        is_white_space(c) <==> '\t' <= c <= '\r' || c == ' ' || c == '\u{85}' || c == '\u{a0}' || c
            == '\u{1680}' || '\u{2000}' <= c <= '\u{200a}' || c == '\u{2028}' || c == '\u{2029}' || c
            == '\u{202f}' || c == '\u{205f}' || c == '\u{3000}',
        is_control_char(c) <==> c < ' ' || '\u{7f}' <= c < '\u{a0}',
{
}

/// Whether all of `s` outside of `s[i..j]` is white space.
pub open spec fn is_blank_around(s: Seq<char>, i: int, j: int) -> bool {
    &&& 0 <= i <= j <= s.len()
    &&& forall|k: int| 0 <= k < i || j <= k < s.len() ==> is_white_space(#[trigger] s[k])
}

/// Trimming takes white space from both ends, all of it, and nothing else.
pub proof fn law_trimmed(s: Seq<char>)
    ensures
        exists|i: int, j: int| #[trigger]
            is_blank_around(s, i, j) && trimmed(s) == s.subrange(i, j),
        trimmed(s).len() > 0 ==> !is_white_space(trimmed(s).first()) && !is_white_space(
            trimmed(s).last(),
        ),
    decreases s.len(),
{
    if s.len() == 0 {
        assert(is_blank_around(s, 0, 0));
        assert(s.subrange(0, 0) == s);
    } else if is_white_space(s.first()) {
        let t = s.drop_first();
        law_trimmed(t);
        let (i, j) = choose|i: int, j: int| #[trigger]
            is_blank_around(t, i, j) && trimmed(t) == t.subrange(i, j);
        assert forall|k: int| 0 <= k < i + 1 || j + 1 <= k < s.len() implies is_white_space(
            #[trigger] s[k],
        ) by {
            if k > 0 {
                assert(t[k - 1] == s[k]);
            }
        }
        assert(is_blank_around(s, i + 1, j + 1));
        assert(s.subrange(i + 1, j + 1) == t.subrange(i, j));
    } else if is_white_space(s.last()) {
        let t = s.drop_last();
        law_trimmed(t);
        let (i, j) = choose|i: int, j: int| #[trigger]
            is_blank_around(t, i, j) && trimmed(t) == t.subrange(i, j);
        assert forall|k: int| 0 <= k < i || j <= k < s.len() implies is_white_space(
            #[trigger] s[k],
        ) by {
            if k < t.len() {
                assert(t[k] == s[k]);
            }
        }
        assert(is_blank_around(s, i, j));
        assert(s.subrange(i, j) == t.subrange(i, j));
    } else {
        assert(is_blank_around(s, 0, s.len() as int));
        assert(s.subrange(0, s.len() as int) == s);
    }
}

/// Lower case moves the capital letters of ASCII to the small ones, each in its place, and
/// keeps every other character.
pub proof fn law_ascii_lower(s: Seq<char>)
    ensures
        ascii_lower(s).len() == s.len(),
        forall|i: int|
            0 <= i < s.len() ==> (#[trigger] ascii_lower(s)[i]) as u32 == if 'A' <= s[i] <= 'Z' {
                s[i] as u32 + ('a' as u32 - 'A' as u32)
            } else {
                s[i] as int
            },
{
}

/// One more digit makes a number ten times as great, and adds the digit. A plus sign in
/// front of the digits changes nothing.
pub proof fn law_parsed_digits(s: Seq<char>, n: nat, c: char)
    requires
        '0' <= c <= '9',
    ensures
        parsed_u64(seq![c]) == Some((c as u32 - '0' as u32) as nat),
        parsed_u64(s) == Some(n) ==> parsed_u64(s.push(c)) == {
            let more = n * 10 + (c as u32 - '0' as u32);
            if more <= u64::MAX {
                Some(more as nat)
            } else {
                None
            }
        },
        all_digits(s) ==> parsed_u64(seq!['+'] + s) == parsed_u64(s),
{
    let one = seq![c];
    assert(one.drop_last() == Seq::<char>::empty());
    assert(digits_value(Seq::<char>::empty()) == 0);
    assert(digits_value(one) == c as u32 - '0' as u32);
    if parsed_u64(s) == Some(n) {
        let digits = unsigned_digits(s);
        assert(unsigned_digits(s.push(c)) == digits.push(c));
        assert(digits.push(c).drop_last() == digits);
        assert forall|i: int| 0 <= i < digits.push(c).len() implies '0' <= #[trigger] digits.push(
            c,
        )[i] <= '9' by {
            if i < digits.len() {
                assert(digits.push(c)[i] == digits[i]);
            }
        }
    }
    if all_digits(s) {
        assert((seq!['+'] + s).drop_first() == s);
        if s.len() > 0 {
            assert('0' <= s[0] <= '9');
        }
    }
}

/// Text with anything but digits after its optional plus sign is no number, nor is text
/// without digits.
pub proof fn law_parsed_nothing_else(s: Seq<char>, i: int)
    requires
        s.len() == 0 || s == seq!['+'] || (0 <= i < s.len() && !('0' <= s[i] <= '9') && !(i == 0
            && s[i] == '+')),
    ensures
        parsed_u64(s) is None,
{
    let digits = unsigned_digits(s);
    if s.len() > 0 && s != seq!['+'] {
        if s[0] == '+' {
            assert(digits[i - 1] == s[i]);
        } else {
            assert(digits[i] == s[i]);
        }
    }
}

} // verus!
