//! Decimal and hexadecimal numbers as text.

use vstd::prelude::*;
use crate::text;

verus! {

/// Whether `c` is one of `0` to `9`.
pub open spec fn is_digit(c: char) -> bool {
    '0' <= c <= '9'
}

/// The value of a decimal digit.
pub open spec fn digit_value(c: char) -> nat {
    (c as int - '0' as int) as nat
}

/// The digit of value `d`.
pub open spec fn digit_char(d: nat) -> char {
    (('0' as int) + d) as char
}

/// Whether `s` holds digits only.
pub open spec fn all_digits(s: Seq<char>) -> bool {
    forall|i: int| 0 <= i < s.len() ==> is_digit(#[trigger] s[i])
}

/// The number that a sequence of digits stands for.
pub open spec fn value(s: Seq<char>) -> nat
    decreases s.len(),
{
    if s.len() == 0 {
        0
    } else {
        value(s.drop_last()) * 10 + digit_value(s.last())
    }
}

/// Whether `s` is the number `n`, in digits.
pub open spec fn says(s: Seq<char>, n: int) -> bool {
    s.len() > 0 && all_digits(s) && value(s) == n
}

/// `s` without one leading plus sign.
pub open spec fn unsigned_part(s: Seq<char>) -> Seq<char> {
    if s.len() > 0 && s[0] == '+' {
        s.skip(1)
    } else {
        s
    }
}

/// The number written in `s`: an optional plus sign and at least one digit,
/// with a value of at most `max`.
pub open spec fn parsed(s: Seq<char>, max: nat) -> Option<nat> {
    let d = unsigned_part(s);
    if d.len() > 0 && all_digits(d) && value(d) <= max {
        Some(value(d))
    } else {
        None
    }
}

/// The integer written in `s`: an optional sign and at least one digit, with a
/// value between `min` and `max`.
pub open spec fn parsed_signed(s: Seq<char>, min: int, max: int) -> Option<int> {
    if s.len() > 0 && s[0] == '-' {
        let d = s.skip(1);
        if d.len() > 0 && all_digits(d) && min <= -value(d) {
            Some(-value(d))
        } else {
            None
        }
    } else {
        match parsed(s, max as nat) {
            Some(v) => Some(v as int),
            None => None,
        }
    }
}

/// The decimal digits of `n`, without leading zeros.
pub open spec fn dec(n: nat) -> Seq<char>
    decreases n,
{
    if n < 10 {
        seq![digit_char(n)]
    } else {
        dec(n / 10).push(digit_char(n % 10))
    }
}

/// The decimal digits of `n`, behind a minus sign where it is negative.
pub open spec fn dec_signed(n: int) -> Seq<char> {
    if n < 0 {
        seq!['-'] + dec((-n) as nat)
    } else {
        dec(n as nat)
    }
}

/// Reads a `u8`.
pub open spec fn as_u8(s: Seq<char>) -> Option<u8> {
    match parsed(s, u8::MAX as nat) {
        Some(v) => Some(v as u8),
        None => None,
    }
}

/// Reads a `u16`.
pub open spec fn as_u16(s: Seq<char>) -> Option<u16> {
    match parsed(s, u16::MAX as nat) {
        Some(v) => Some(v as u16),
        None => None,
    }
}

/// Reads a `u32`.
pub open spec fn as_u32(s: Seq<char>) -> Option<u32> {
    match parsed(s, u32::MAX as nat) {
        Some(v) => Some(v as u32),
        None => None,
    }
}

/// Reads a `usize`.
pub open spec fn as_usize(s: Seq<char>) -> Option<usize> {
    match parsed(s, usize::MAX as nat) {
        Some(v) => Some(v as usize),
        None => None,
    }
}

/// Reads an `i64`.
pub open spec fn as_i64(s: Seq<char>) -> Option<i64> {
    match parsed_signed(s, i64::MIN as int, i64::MAX as int) {
        Some(v) => Some(v as i64),
        None => None,
    }
}

/// Reads an `i16`.
pub open spec fn as_i16(s: Seq<char>) -> Option<i16> {
    match parsed_signed(s, i16::MIN as int, i16::MAX as int) {
        Some(v) => Some(v as i16),
        None => None,
    }
}

/// The digits of a number are digits, and stand for that number.
pub proof fn lemma_dec(n: nat)
    ensures
        dec(n).len() > 0,
        all_digits(dec(n)),
        value(dec(n)) == n,
    decreases n,
{
    if n < 10 {
        assert(dec(n).drop_last() =~= Seq::<char>::empty());
        assert(value(dec(n).drop_last()) == 0);
    } else {
        lemma_dec(n / 10);
        assert(dec(n).drop_last() =~= dec(n / 10));
    }
}

/// A number that was written out is read back.
pub proof fn lemma_parse_dec(n: nat, max: nat)
    requires
        n <= max,
    ensures
        parsed(dec(n), max) == Some(n),
{
    lemma_dec(n);
    assert(is_digit(dec(n)[0]));
    assert(unsigned_part(dec(n)) == dec(n));
}

/// An integer that was written out is read back.
pub proof fn lemma_parse_dec_signed(n: int, min: int, max: int)
    requires
        min <= n <= max,
        0 <= max,
    ensures
        parsed_signed(dec_signed(n), min, max) == Some(n),
{
    if n < 0 {
        lemma_dec((-n) as nat);
        assert(dec_signed(n).skip(1) =~= dec((-n) as nat));
    } else {
        lemma_parse_dec(n as nat, max as nat);
        lemma_dec(n as nat);
        assert(is_digit(dec(n as nat)[0]));
    }
}

/// Digits hold no character that is not a digit.
pub proof fn lemma_dec_without(n: nat, c: char)
    requires
        !is_digit(c),
    ensures
        !dec(n).contains(c),
{
    lemma_dec(n);
    if dec(n).contains(c) {
        let i = choose|i: int| 0 <= i < dec(n).len() && dec(n)[i] == c;
        assert(is_digit(dec(n)[i]));
    }
}

/// Digits have no white space around them.
pub proof fn lemma_dec_trimmed(n: nat)
    ensures
        text::trimmed(dec(n)) == dec(n),
{
    lemma_dec(n);
    assert(is_digit(dec(n)[0]));
    assert(is_digit(dec(n)[dec(n).len() - 1]));
    text::lemma_trimmed_same(dec(n));
}

/// A written integer has no white space around it.
pub proof fn lemma_dec_signed_trimmed(n: int)
    ensures
        text::trimmed(dec_signed(n)) == dec_signed(n),
{
    if n < 0 {
        lemma_dec((-n) as nat);
        let s = dec_signed(n);
        assert(s.last() == dec((-n) as nat).last());
        assert(is_digit(dec((-n) as nat)[dec((-n) as nat).len() - 1]));
        text::lemma_trimmed_same(s);
    } else {
        lemma_dec_trimmed(n as nat);
    }
}

/// A longer sequence of digits does not stand for a smaller number.
proof fn lemma_value_grows(s: Seq<char>, k: int)
    requires
        0 <= k <= s.len(),
    ensures
        value(s.take(k)) <= value(s),
    decreases s.len(),
{
    if k == s.len() {
        assert(s.take(k) =~= s);
    } else {
        let t = s.drop_last();
        lemma_value_grows(t, k);
        assert(t.take(k) =~= s.take(k));
    }
}

/// Reads the digits `s[from..]`.
fn parse_digits(s: &[char], from: usize, max: u64) -> (r: Option<u64>)
    requires
        from <= s@.len(),
    ensures
        r matches Some(v) ==> {
            &&& s@.len() > from
            &&& all_digits(s@.skip(from as int))
            &&& value(s@.skip(from as int)) == v
            &&& v <= max
        },
        r is None ==> s@.len() == from || !all_digits(s@.skip(from as int)) || value(
            s@.skip(from as int),
        ) > max,
{
    let ghost d = s@.skip(from as int);
    if s.len() == from {
        return None;
    }
    let mut v: u64 = 0;
    let mut i: usize = from;
    while i < s.len()
        invariant
            from <= i <= s@.len(),
            d == s@.skip(from as int),
            v <= max,
            v == value(d.take(i - from)),
            forall|j: int| 0 <= j < i - from ==> is_digit(#[trigger] d[j]),
        decreases s@.len() - i,
    {
        let c: char = s[i];
        assert(c == d[i - from]);
        if !('0' <= c && c <= '9') {
            assert(!is_digit(d[i - from]));
            return None;
        }
        let digit: u64 = c as u64 - '0' as u64;
        let wide: u128 = v as u128 * 10 + digit as u128;
        proof {
            assert(d.take(i - from + 1).drop_last() =~= d.take(i - from));
            assert(d.take(i - from + 1).last() == c);
            lemma_value_grows(d, i - from + 1);
        }
        if wide > max as u128 {
            return None;
        }
        v = wide as u64;
        i += 1;
    }
    assert(d.take(i - from) =~= d);
    Some(v)
}

/// Reads an unsigned number of at most `max`.
pub fn parse_max(s: &[char], max: u64) -> (r: Option<u64>)
    ensures
        r matches Some(v) ==> parsed(s@, max as nat) == Some(v as nat),
        r is None ==> parsed(s@, max as nat) is None,
{
    assert(s@.skip(0) =~= s@);
    if s.len() > 0 && s[0] == '+' {
        parse_digits(s, 1, max)
    } else {
        parse_digits(s, 0, max)
    }
}

/// Reads a `u8`.
pub fn parse_u8(s: &[char]) -> (r: Option<u8>)
    ensures
        r matches Some(v) ==> parsed(s@, u8::MAX as nat) == Some(v as nat),
        r is None ==> parsed(s@, u8::MAX as nat) is None,
{
    match parse_max(s, u8::MAX as u64) {
        Some(v) => Some(v as u8),
        None => None,
    }
}

/// Reads a `u16`.
pub fn parse_u16(s: &[char]) -> (r: Option<u16>)
    ensures
        r matches Some(v) ==> parsed(s@, u16::MAX as nat) == Some(v as nat),
        r is None ==> parsed(s@, u16::MAX as nat) is None,
{
    match parse_max(s, u16::MAX as u64) {
        Some(v) => Some(v as u16),
        None => None,
    }
}

/// Reads a `u32`.
pub fn parse_u32(s: &[char]) -> (r: Option<u32>)
    ensures
        r matches Some(v) ==> parsed(s@, u32::MAX as nat) == Some(v as nat),
        r is None ==> parsed(s@, u32::MAX as nat) is None,
{
    match parse_max(s, u32::MAX as u64) {
        Some(v) => Some(v as u32),
        None => None,
    }
}

/// Reads a `usize`.
pub fn parse_usize(s: &[char]) -> (r: Option<usize>)
    ensures
        r matches Some(v) ==> parsed(s@, usize::MAX as nat) == Some(v as nat),
        r is None ==> parsed(s@, usize::MAX as nat) is None,
{
    match parse_max(s, usize::MAX as u64) {
        Some(v) => Some(v as usize),
        None => None,
    }
}

/// Reads an `i64`.
pub fn parse_i64(s: &[char]) -> (r: Option<i64>)
    ensures
        r matches Some(v) ==> parsed_signed(s@, i64::MIN as int, i64::MAX as int) == Some(v as int),
        r is None ==> parsed_signed(s@, i64::MIN as int, i64::MAX as int) is None,
{
    if s.len() > 0 && s[0] == '-' {
        match parse_digits(s, 1, 0x8000_0000_0000_0000) {
            Some(v) => Some((-(v as i128)) as i64),
            None => None,
        }
    } else {
        match parse_max(s, i64::MAX as u64) {
            Some(v) => Some(v as i64),
            None => None,
        }
    }
}

/// Reads an `i16`.
pub fn parse_i16(s: &[char]) -> (r: Option<i16>)
    ensures
        r matches Some(v) ==> parsed_signed(s@, i16::MIN as int, i16::MAX as int) == Some(v as int),
        r is None ==> parsed_signed(s@, i16::MIN as int, i16::MAX as int) is None,
{
    if s.len() > 0 && s[0] == '-' {
        match parse_digits(s, 1, 0x8000) {
            Some(v) => Some((-(v as i64)) as i16),
            None => None,
        }
    } else {
        match parse_max(s, i16::MAX as u64) {
            Some(v) => Some(v as i16),
            None => None,
        }
    }
}

/// Reads an `i8`.
pub fn parse_i8(s: &[char]) -> (r: Option<i8>)
    ensures
        r matches Some(v) ==> parsed_signed(s@, i8::MIN as int, i8::MAX as int) == Some(v as int),
        r is None ==> parsed_signed(s@, i8::MIN as int, i8::MAX as int) is None,
{
    if s.len() > 0 && s[0] == '-' {
        match parse_digits(s, 1, 0x80) {
            Some(v) => Some((-(v as i64)) as i8),
            None => None,
        }
    } else {
        match parse_max(s, i8::MAX as u64) {
            Some(v) => Some(v as i8),
            None => None,
        }
    }
}

/// The digit of value `d`.
fn digit(d: u64) -> (c: char)
    requires
        d < 10,
    ensures
        c == digit_char(d as nat),
{
    (48u8 + d as u8) as char
}

/// Appends the decimal digits of `n`.
pub fn push_dec(out: &mut String, n: u64)
    ensures
        final(out)@ == old(out)@ + dec(n as nat),
    decreases n,
{
    if n >= 10 {
        push_dec(out, n / 10);
    }
    out.push(digit(n % 10));
    assert(out@ =~= old(out)@ + dec(n as nat));
}

/// Appends the decimal digits of `n` and its sign.
pub fn push_dec_signed(out: &mut String, n: i64)
    ensures
        final(out)@ == old(out)@ + dec_signed(n as int),
{
    if n < 0 {
        out.push('-');
        push_dec(out, (-(n as i128)) as u64);
        assert(out@ =~= old(out)@ + dec_signed(n as int));
    } else {
        push_dec(out, n as u64);
    }
}

/// `s` filled up with `fill` in front to `width` characters.
pub open spec fn pad(s: Seq<char>, width: nat, fill: char) -> Seq<char> {
    if s.len() >= width {
        s
    } else {
        Seq::new((width - s.len()) as nat, |i: int| fill) + s
    }
}

/// Appends the decimal digits of `n`, filled up in front.
pub fn push_padded(out: &mut String, n: u64, width: usize, fill: char)
    ensures
        final(out)@ == old(out)@ + pad(dec(n as nat), width as nat, fill),
{
    let mut digits: String = String::new();
    push_dec(&mut digits, n);
    assert(digits@ =~= dec(n as nat));
    let mut len: usize = text::chars(digits.as_str()).len();
    let ghost have = len;
    let ghost start = out@;
    while len < width
        invariant
            have <= len,
            have < width ==> len <= width,
            have >= width ==> len == have,
            out@ == start + Seq::new((len - have) as nat, |i: int| fill),
        decreases width - len,
    {
        let ghost before = out@;
        out.push(fill);
        len += 1;
        assert(out@ =~= start + Seq::new((len - have) as nat, |i: int| fill));
    }
    out.push_str(digits.as_str());
    assert(out@ =~= start + pad(dec(n as nat), width as nat, fill));
}

/// A written number is the one sequence of digits, without a leading zero, that
/// stands for it: each digit counts ten times the one behind it.
pub proof fn law_written_number_is_its_digits(n: nat)
    ensures
        all_digits(dec(n)),
        value(dec(n)) == n,
        n > 0 ==> dec(n)[0] != '0',
        n == 0 ==> dec(n) == seq!['0'],
        dec(n).last() as int == 48 + n % 10,
        n >= 10 ==> dec(n).drop_last() == dec(n / 10),
    decreases n,
{
    lemma_dec(n);
    if n >= 10 {
        law_written_number_is_its_digits(n / 10);
        assert(dec(n).drop_last() =~= dec(n / 10));
        assert(dec(n)[0] == dec(n / 10)[0]);
    } else {
        assert(('0' as int) == 48);
        assert(dec(n)[0] as int == 48 + n);
    }
}

/// Filling up with zeros in front changes no value.
pub proof fn law_padding_keeps_the_value(n: nat, width: nat)
    ensures
        pad(dec(n), width, '0').len() >= width,
        all_digits(pad(dec(n), width, '0')),
        value(pad(dec(n), width, '0')) == n,
        dec(n).len() <= width ==> pad(dec(n), width, '0').len() == width,
    decreases width,
{
    lemma_dec(n);
    let d = dec(n);
    if d.len() < width {
        lemma_leading_zeros(d, (width - d.len()) as nat);
        assert(all_digits(pad(d, width, '0'))) by {
            assert forall|i: int| 0 <= i < pad(d, width, '0').len() implies is_digit(
                #[trigger] pad(d, width, '0')[i],
            ) by {
                if i >= width - d.len() {
                    assert(pad(d, width, '0')[i] == d[i - (width - d.len())]);
                }
            }
        }
    }
}

/// Zeros in front of digits do not count.
proof fn lemma_leading_zeros(d: Seq<char>, k: nat)
    ensures
        value(Seq::new(k, |i: int| '0') + d) == value(d),
    decreases k + d.len(),
{
    let z = Seq::new(k, |i: int| '0');
    if d.len() > 0 {
        lemma_leading_zeros(d.drop_last(), k);
        assert((z + d).drop_last() =~= z + d.drop_last());
    } else if k > 0 {
        lemma_leading_zeros(d, (k - 1) as nat);
        assert(z + d =~= z);
        assert(z.drop_last() =~= Seq::new((k - 1) as nat, |i: int| '0') + d);
    } else {
        assert(z + d =~= d);
    }
}

} // verus!
