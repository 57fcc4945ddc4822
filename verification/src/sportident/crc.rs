//! The checksum of SportIdent packets and the commands sent to a station.
//!
//! The checksum is the remainder of the message, taken as a polynomial over
//! two elements, by x^16 + x^15 + x^2 + 1. The first two bytes seed the
//! register and the rest is shifted in bit by bit, followed by zero bytes up to
//! a word boundary and at least one.

use vstd::prelude::*;

verus! {

/// Start of a packet.
pub const STX: u8 = 0x02;

/// End of a packet.
pub const ETX: u8 = 0x03;

/// Wakes a sleeping station ahead of a command.
pub const WAKEUP: u8 = 0xFF;

/// The register after one more bit: shifted left, with `x^16` reduced.
pub open spec fn shifted(r: u16, bit: u16) -> u16 {
    if r & 0x8000 != 0 {
        ((r << 1) | bit) ^ 0x8005
    } else {
        (r << 1) | bit
    }
}

/// Bit `i` of a byte, counted from the least significant.
pub open spec fn bit_of(b: u8, i: u8) -> u16 {
    ((b >> i) & 1) as u16
}

/// The register after one more byte, most significant bit first.
pub open spec fn absorbed(r: u16, b: u8) -> u16 {
    let r = shifted(r, bit_of(b, 7));
    let r = shifted(r, bit_of(b, 6));
    let r = shifted(r, bit_of(b, 5));
    let r = shifted(r, bit_of(b, 4));
    let r = shifted(r, bit_of(b, 3));
    let r = shifted(r, bit_of(b, 2));
    let r = shifted(r, bit_of(b, 1));
    shifted(r, bit_of(b, 0))
}

/// The register after all bytes of `s`.
pub open spec fn absorbed_all(r: u16, s: Seq<u8>) -> u16
    decreases s.len(),
{
    if s.len() == 0 {
        r
    } else {
        absorbed(absorbed_all(r, s.drop_last()), s.last())
    }
}

/// The zero bytes that follow a message of `n` bytes behind the seed.
pub open spec fn padding(n: nat) -> Seq<u8> {
    if n % 2 == 0 {
        seq![0u8, 0u8]
    } else {
        seq![0u8]
    }
}

/// The checksum of `data`.
pub open spec fn checksum(data: Seq<u8>) -> u16 {
    if data.len() == 0 {
        0
    } else if data.len() == 1 {
        (data[0] * 256) as u16
    } else if data.len() == 2 {
        (data[0] * 256 + data[1]) as u16
    } else {
        let rest = data.skip(2);
        absorbed_all((data[0] * 256 + data[1]) as u16, rest + padding(rest.len()))
    }
}

/// Shifts one bit into the register.
fn shift(r: u16, bit: u16) -> (out: u16)
    ensures
        out == shifted(r, bit),
{
    if r & 0x8000 != 0 {
        ((r << 1) | bit) ^ 0x8005
    } else {
        (r << 1) | bit
    }
}

/// Shifts one byte into the register.
fn absorb(r: u16, b: u8) -> (out: u16)
    ensures
        out == absorbed(r, b),
{
    let r: u16 = shift(r, ((b >> 7u8) & 1) as u16);
    let r: u16 = shift(r, ((b >> 6u8) & 1) as u16);
    let r: u16 = shift(r, ((b >> 5u8) & 1) as u16);
    let r: u16 = shift(r, ((b >> 4u8) & 1) as u16);
    let r: u16 = shift(r, ((b >> 3u8) & 1) as u16);
    let r: u16 = shift(r, ((b >> 2u8) & 1) as u16);
    let r: u16 = shift(r, ((b >> 1u8) & 1) as u16);
    shift(r, ((b >> 0u8) & 1) as u16)
}

/// The checksum of `data`.
pub fn crc16(data: &[u8]) -> (r: u16)
    ensures
        r == checksum(data@),
{
    if data.len() == 0 {
        return 0;
    }
    if data.len() == 1 {
        return data[0] as u16 * 256;
    }
    let mut crc: u16 = data[0] as u16 * 256 + data[1] as u16;
    if data.len() == 2 {
        return crc;
    }
    let ghost seed = crc;
    let ghost rest = data@.skip(2);
    let mut i: usize = 2;
    assert(rest.take(0) =~= Seq::<u8>::empty());
    while i < data.len()
        invariant
            2 <= i <= data@.len(),
            data@.len() > 2,
            seed == data@[0] * 256 + data@[1],
            rest == data@.skip(2),
            crc == absorbed_all(seed, rest.take(i - 2)),
        decreases data@.len() - i,
    {
        proof {
            assert(rest.take(i - 1).drop_last() =~= rest.take(i - 2));
            assert(rest.take(i - 1).last() == data@[i as int]);
        }
        crc = absorb(crc, data[i]);
        i += 1;
    }
    proof {
        assert(rest.take(i - 2) =~= rest);
        let one = rest.push(0u8);
        assert(one.drop_last() =~= rest);
        let two = one.push(0u8);
        assert(two.drop_last() =~= one);
        assert(rest + seq![0u8] =~= one);
        assert(rest + seq![0u8, 0u8] =~= two);
        assert(absorbed_all(seed, one) == absorbed(crc, 0));
        assert(absorbed_all(seed, two) == absorbed(absorbed(crc, 0), 0));
    }
    crc = absorb(crc, 0);
    if data.len() % 2 == 0 {
        crc = absorb(crc, 0);
    }
    crc
}

/// The packet that carries a command to a station.
pub open spec fn command(cmd: u8, data: Seq<u8>) -> Seq<u8> {
    let body = seq![cmd, (data.len() % 256) as u8] + data;
    seq![WAKEUP, STX] + body + seq![
        (checksum(body) / 256) as u8,
        (checksum(body) % 256) as u8,
        ETX,
    ]
}

/// Frames a command with its length, checksum and delimiters.
pub fn build_command(cmd: u8, data: &[u8]) -> (r: Vec<u8>)
    ensures
        r@ == command(cmd, data@),
{
    let mut body: Vec<u8> = Vec::new();
    body.push(cmd);
    body.push((data.len() % 256) as u8);
    body.extend_from_slice(data);
    assert(body@ =~= seq![cmd, (data@.len() % 256) as u8] + data@);
    let crc: u16 = crc16(body.as_slice());
    let mut pkt: Vec<u8> = Vec::new();
    pkt.push(WAKEUP);
    pkt.push(STX);
    pkt.extend_from_slice(body.as_slice());
    pkt.push((crc / 256) as u8);
    pkt.push((crc % 256) as u8);
    pkt.push(ETX);
    assert(pkt@ =~= command(cmd, data@));
    pkt
}

/// Registers that differ stay different under the same byte.
proof fn lemma_absorbed_register(r: u16, q: u16, b: u8)
    requires
        r != q,
    ensures
        absorbed(r, b) != absorbed(q, b),
{
    assert(r != q ==> absorbed(r, b) != absorbed(q, b)) by (bit_vector);
}

/// Different bytes drive the same register apart.
proof fn lemma_absorbed_byte(r: u16, b: u8, c: u8)
    requires
        b != c,
    ensures
        absorbed(r, b) != absorbed(r, c),
{
    assert(b != c ==> absorbed(r, b) != absorbed(r, c)) by (bit_vector);
}

/// Registers that differ stay different under the same bytes.
proof fn lemma_absorbed_all_register(r: u16, q: u16, s: Seq<u8>)
    requires
        r != q,
    ensures
        absorbed_all(r, s) != absorbed_all(q, s),
    decreases s.len(),
{
    if s.len() > 0 {
        lemma_absorbed_all_register(r, q, s.drop_last());
        lemma_absorbed_register(
            absorbed_all(r, s.drop_last()),
            absorbed_all(q, s.drop_last()),
            s.last(),
        );
    }
}

/// Messages that differ in one byte leave different registers.
proof fn lemma_absorbed_all_byte(r: u16, s: Seq<u8>, i: int, b: u8)
    requires
        0 <= i < s.len(),
        s[i] != b,
    ensures
        absorbed_all(r, s) != absorbed_all(r, s.update(i, b)),
    decreases s.len(),
{
    let t = s.update(i, b);
    if i == s.len() - 1 {
        assert(t.drop_last() =~= s.drop_last());
        lemma_absorbed_byte(absorbed_all(r, s.drop_last()), s[i], b);
    } else {
        assert(t.drop_last() =~= s.drop_last().update(i, b));
        lemma_absorbed_all_byte(r, s.drop_last(), i, b);
        lemma_absorbed_register(
            absorbed_all(r, s.drop_last()),
            absorbed_all(r, t.drop_last()),
            s.last(),
        );
    }
}

/// Changing any one byte of a message changes its checksum.
pub proof fn law_checksum_detects_a_changed_byte(data: Seq<u8>, i: int, b: u8)
    requires
        0 <= i < data.len(),
        data[i] != b,
    ensures
        checksum(data.update(i, b)) != checksum(data),
{
    if data.len() > 2 {
        let other = data.update(i, b);
        let rest = data.skip(2);
        let pad = padding(rest.len());
        let seed = (data[0] * 256 + data[1]) as u16;
        if i < 2 {
            assert(other.skip(2) =~= rest);
            lemma_absorbed_all_register(
                seed,
                (other[0] * 256 + other[1]) as u16,
                rest + pad,
            );
        } else {
            assert(other.skip(2) + pad =~= (rest + pad).update(i - 2, b));
            lemma_absorbed_all_byte(seed, rest + pad, i - 2, b);
        }
    }
}

/// A polynomial over two elements, by its coefficients: whether `x^k` occurs.
pub type Polynomial = spec_fn(int) -> bool;

/// The polynomial of a message: its bits are the coefficients, the last bit of
/// the last byte that of `x^0`.
pub open spec fn polynomial(s: Seq<u8>) -> Polynomial {
    |k: int| 0 <= k < 8 * s.len() && (s[s.len() - 1 - k / 8] >> ((k % 8) as u8)) & 1 == 1
}

/// Whether `x^k` occurs in a polynomial below `x^16`, given by its bits.
pub open spec fn bit(r: u16, k: int) -> bool {
    0 <= k < 16 && (r >> (k as u16)) & 1 == 1
}

/// Whether `x^k` occurs in a quotient, given by its coefficients from `x^0` up.
pub open spec fn term(q: Seq<bool>, k: int) -> bool {
    0 <= k < q.len() && q[k]
}

/// Whether `x^k` occurs in `q * (x^16 + x^15 + x^2 + 1)`.
pub open spec fn multiple(q: Seq<bool>, k: int) -> bool {
    term(q, k - 16) != (term(q, k - 15) != (term(q, k - 2) != term(q, k)))
}

/// Whether `p == q * (x^16 + x^15 + x^2 + 1) + r`.
pub open spec fn divides(p: Polynomial, q: Seq<bool>, r: u16) -> bool {
    forall|k: int| k >= 0 ==> #[trigger] p(k) == (multiple(q, k) != bit(r, k))
}

/// Whether `r` is the remainder of `p` by `x^16 + x^15 + x^2 + 1`.
pub open spec fn remains(p: Polynomial, r: u16) -> bool {
    exists|q: Seq<bool>| divides(p, q, r)
}

/// `x * p`, plus one where `low`.
pub open spec fn times_x(p: Polynomial, low: bool) -> Polynomial {
    |k: int| if k == 0 {
        low
    } else {
        p(k - 1)
    }
}

/// Shifting a bit in multiplies by `x` and adds the bit.
pub proof fn lemma_shifted(p: Polynomial, r: u16, b: u16)
    requires
        remains(p, r),
        b <= 1,
    ensures
        remains(times_x(p, b == 1), shifted(r, b)),
{
    let q = choose|q: Seq<bool>| divides(p, q, r);
    let top = bit(r, 15);
    let q2 = seq![top] + q;
    let r2 = shifted(r, b);
    let p2 = times_x(p, b == 1);
    assert forall|k: int| k >= 0 implies #[trigger] p2(k) == (multiple(q2, k) != bit(r2, k)) by {
        assert(term(q2, k) == if k == 0 {
            top
        } else {
            term(q, k - 1)
        });
        assert(term(q2, k - 2) == if k == 2 {
            top
        } else {
            term(q, k - 3)
        });
        assert(term(q2, k - 15) == if k == 15 {
            top
        } else {
            term(q, k - 16)
        });
        assert(term(q2, k - 16) == if k == 16 {
            top
        } else {
            term(q, k - 17)
        });
        if k > 0 {
            assert(p(k - 1) == (multiple(q, k - 1) != bit(r, k - 1)));
        }
        if k < 16 {
            let i = k as u16;
            let j = if k > 0 {
                (k - 1) as u16
            } else {
                0u16
            };
            assert(((shifted(r, b) >> i) & 1 == 1) == ((if i == 0 {
                b == 1
            } else {
                (r >> j) & 1 == 1
            }) != ((r >> 15) & 1 == 1 && (i == 0 || i == 2 || i == 15)))) by (bit_vector)
                requires
                    i < 16,
                    b <= 1,
                    i == 0 || i == j + 1,
            ;
        }
    }
    assert(divides(p2, q2, r2));
}

/// The remainder of a polynomial is unique.
pub proof fn lemma_remainder_is_unique(p: Polynomial, r: u16, s: u16)
    requires
        remains(p, r),
        remains(p, s),
    ensures
        r == s,
{
    let q = choose|q: Seq<bool>| divides(p, q, r);
    let t = choose|q: Seq<bool>| divides(p, q, s);
    lemma_same_terms(p, q, t, r, s, if q.len() >= t.len() {
        q.len() as int
    } else {
        t.len() as int
    });
    assert forall|k: int| 0 <= k < 16 implies bit(r, k) == bit(s, k) by {
        assert(p(k) == (multiple(q, k) != bit(r, k)));
        assert(p(k) == (multiple(t, k) != bit(s, k)));
        assert(term(q, k) == term(t, k));
        assert(term(q, k - 2) == term(t, k - 2));
        assert(term(q, k - 15) == term(t, k - 15));
        assert(term(q, k - 16) == term(t, k - 16));
    }
    lemma_bits_determine(r, s);
}

/// Quotients agree from their highest term down.
proof fn lemma_same_terms(p: Polynomial, q: Seq<bool>, t: Seq<bool>, r: u16, s: u16, n: int)
    requires
        divides(p, q, r),
        divides(p, t, s),
        0 <= n,
        forall|k: int| k >= n ==> #[trigger] term(q, k) == term(t, k),
    ensures
        forall|k: int| #[trigger] term(q, k) == term(t, k),
    decreases n,
{
    if n > 0 {
        let k = n + 15;
        assert(p(k) == (multiple(q, k) != bit(r, k)));
        assert(p(k) == (multiple(t, k) != bit(s, k)));
        assert(term(q, k) == term(t, k));
        assert(term(q, k - 2) == term(t, k - 2));
        assert(term(q, k - 15) == term(t, k - 15));
        assert(term(q, n - 1) == term(t, n - 1));
        lemma_same_terms(p, q, t, r, s, n - 1);
    }
}

/// The bits of a number determine it.
proof fn lemma_bits_determine(r: u16, s: u16)
    requires
        forall|k: int| 0 <= k < 16 ==> #[trigger] bit(r, k) == bit(s, k),
    ensures
        r == s,
{
    assert(bit(r, 0) == bit(s, 0) && bit(r, 1) == bit(s, 1) && bit(r, 2) == bit(s, 2) && bit(r, 3)
        == bit(s, 3) && bit(r, 4) == bit(s, 4) && bit(r, 5) == bit(s, 5) && bit(r, 6) == bit(s, 6)
        && bit(r, 7) == bit(s, 7) && bit(r, 8) == bit(s, 8) && bit(r, 9) == bit(s, 9) && bit(r, 10)
        == bit(s, 10) && bit(r, 11) == bit(s, 11) && bit(r, 12) == bit(s, 12) && bit(r, 13) == bit(
        s,
        13,
    ) && bit(r, 14) == bit(s, 14) && bit(r, 15) == bit(s, 15));
    assert(r == s) by (bit_vector)
        requires
            ((r >> 0u16) & 1 == 1) == ((s >> 0u16) & 1 == 1),
            ((r >> 1u16) & 1 == 1) == ((s >> 1u16) & 1 == 1),
            ((r >> 2u16) & 1 == 1) == ((s >> 2u16) & 1 == 1),
            ((r >> 3u16) & 1 == 1) == ((s >> 3u16) & 1 == 1),
            ((r >> 4u16) & 1 == 1) == ((s >> 4u16) & 1 == 1),
            ((r >> 5u16) & 1 == 1) == ((s >> 5u16) & 1 == 1),
            ((r >> 6u16) & 1 == 1) == ((s >> 6u16) & 1 == 1),
            ((r >> 7u16) & 1 == 1) == ((s >> 7u16) & 1 == 1),
            ((r >> 8u16) & 1 == 1) == ((s >> 8u16) & 1 == 1),
            ((r >> 9u16) & 1 == 1) == ((s >> 9u16) & 1 == 1),
            ((r >> 10u16) & 1 == 1) == ((s >> 10u16) & 1 == 1),
            ((r >> 11u16) & 1 == 1) == ((s >> 11u16) & 1 == 1),
            ((r >> 12u16) & 1 == 1) == ((s >> 12u16) & 1 == 1),
            ((r >> 13u16) & 1 == 1) == ((s >> 13u16) & 1 == 1),
            ((r >> 14u16) & 1 == 1) == ((s >> 14u16) & 1 == 1),
            ((r >> 15u16) & 1 == 1) == ((s >> 15u16) & 1 == 1),
    ;
}

/// Polynomials with the same coefficients have the same remainder.
pub proof fn lemma_same_polynomial(p: Polynomial, o: Polynomial, r: u16)
    requires
        remains(p, r),
        forall|k: int| k >= 0 ==> #[trigger] o(k) == p(k),
    ensures
        remains(o, r),
{
    let q = choose|q: Seq<bool>| divides(p, q, r);
    assert(divides(o, q, r)) by {
        assert forall|k: int| k >= 0 implies #[trigger] o(k) == (multiple(q, k) != bit(r, k)) by {
            assert(p(k) == (multiple(q, k) != bit(r, k)));
        }
    }
}

/// A polynomial with the highest `n` bits of a byte shifted in.
spec fn entered(p: Polynomial, b: u8, n: int) -> Polynomial {
    |k: int| if k < n {
        bit_of(b, (8 - n + k) as u8) == 1
    } else {
        p(k - n)
    }
}

/// Shifting in one more bit of a byte.
proof fn lemma_entered(p: Polynomial, r: u16, b: u8, n: int)
    requires
        0 <= n < 8,
        remains(entered(p, b, n), r),
    ensures
        remains(entered(p, b, n + 1), shifted(r, bit_of(b, (7 - n) as u8))),
{
    let i = (7 - n) as u8;
    assert(bit_of(b, i) <= 1) by (bit_vector);
    lemma_shifted(entered(p, b, n), r, bit_of(b, i));
    let one = times_x(entered(p, b, n), bit_of(b, i) == 1);
    let o = entered(p, b, n + 1);
    assert forall|k: int| k >= 0 implies #[trigger] o(k) == one(k) by {}
    lemma_same_polynomial(one, o, shifted(r, bit_of(b, i)));
}

/// Absorbing a byte appends it to the message.
proof fn lemma_absorbed(s: Seq<u8>, r: u16, b: u8)
    requires
        remains(polynomial(s), r),
    ensures
        remains(polynomial(s.push(b)), absorbed(r, b)),
{
    let p = polynomial(s);
    assert forall|k: int| k >= 0 implies #[trigger] entered(p, b, 0)(k) == p(k) by {}
    lemma_same_polynomial(p, entered(p, b, 0), r);
    lemma_entered(p, r, b, 0);
    let r = shifted(r, bit_of(b, 7));
    lemma_entered(p, r, b, 1);
    let r = shifted(r, bit_of(b, 6));
    lemma_entered(p, r, b, 2);
    let r = shifted(r, bit_of(b, 5));
    lemma_entered(p, r, b, 3);
    let r = shifted(r, bit_of(b, 4));
    lemma_entered(p, r, b, 4);
    let r = shifted(r, bit_of(b, 3));
    lemma_entered(p, r, b, 5);
    let r = shifted(r, bit_of(b, 2));
    lemma_entered(p, r, b, 6);
    let r = shifted(r, bit_of(b, 1));
    lemma_entered(p, r, b, 7);
    let r = shifted(r, bit_of(b, 0));
    let o = polynomial(s.push(b));
    assert forall|k: int| k >= 0 implies #[trigger] o(k) == entered(p, b, 8)(k) by {
        lemma_eight_steps(s, b, k);
    }
    lemma_same_polynomial(entered(p, b, 8), o, r);
}

/// The coefficients of a message with one more byte.
proof fn lemma_eight_steps(s: Seq<u8>, b: u8, k: int)
    requires
        k >= 0,
    ensures
        polynomial(s.push(b))(k) == if k < 8 {
            bit_of(b, k as u8) == 1
        } else {
            polynomial(s)(k - 8)
        },
{
    let t = s.push(b);
    if k < 8 {
        assert(t[t.len() - 1 - k / 8] == b);
    } else {
        assert((k - 8) % 8 == k % 8 && (k - 8) / 8 == k / 8 - 1);
        if k < 8 * t.len() {
            assert(t[t.len() - 1 - k / 8] == s[s.len() - 1 - (k - 8) / 8]);
        }
    }
}

/// Absorbing bytes appends them to the message.
proof fn lemma_absorbed_all(s: Seq<u8>, r: u16, t: Seq<u8>)
    requires
        remains(polynomial(s), r),
    ensures
        remains(polynomial(s + t), absorbed_all(r, t)),
    decreases t.len(),
{
    if t.len() == 0 {
        assert(s + t =~= s);
    } else {
        lemma_absorbed_all(s, r, t.drop_last());
        lemma_absorbed(s + t.drop_last(), absorbed_all(r, t.drop_last()), t.last());
        assert((s + t.drop_last()).push(t.last()) =~= s + t);
    }
}

/// A message of two bytes is its own remainder.
proof fn lemma_two_bytes(a: u8, b: u8)
    ensures
        remains(polynomial(seq![a, b]), (a * 256 + b) as u16),
{
    let s = seq![a, b];
    let r = (a * 256 + b) as u16;
    let p = polynomial(s);
    let none = Seq::<bool>::empty();
    assert forall|k: int| k >= 0 implies #[trigger] p(k) == (multiple(none, k) != bit(r, k)) by {
        if k < 8 {
            let i = k as u16;
            let j = k as u8;
            assert(s[s.len() - 1 - k / 8] == b);
            assert((r >> i) & 1 == ((b >> j) & 1) as u16) by (bit_vector)
                requires
                    r == (a as u16) * 256 + (b as u16),
                    i < 8,
                    j == i,
            ;
        } else if k < 16 {
            let i = k as u16;
            let j = (k % 8) as u8;
            assert(s[s.len() - 1 - k / 8] == a);
            assert((r >> i) & 1 == ((a >> j) & 1) as u16) by (bit_vector)
                requires
                    r == (a as u16) * 256 + (b as u16),
                    8 <= i < 16,
                    j == i - 8,
            ;
        }
    }
    assert(divides(p, none, r));
}

/// The zero bytes that are appended to a message before it is divided: none to
/// two bytes or nothing, one to a single byte, else one or two up to an even
/// length.
pub open spec fn zeros_behind(n: nat) -> nat {
    if n == 0 || n == 2 {
        0
    } else if n % 2 == 1 {
        1
    } else {
        2
    }
}

/// The checksum is the remainder of the message with its zero bytes by
/// `x^16 + x^15 + x^2 + 1`, and nothing else is.
pub proof fn law_checksum_is_the_remainder(data: Seq<u8>, r: u16)
    ensures
        remains(
            polynomial(data + Seq::new(zeros_behind(data.len()), |i: int| 0u8)),
            checksum(data),
        ),
        remains(polynomial(data + Seq::new(zeros_behind(data.len()), |i: int| 0u8)), r) ==> r
            == checksum(data),
{
    let zeros = Seq::new(zeros_behind(data.len()), |i: int| 0u8);
    let whole = data + zeros;
    if data.len() == 0 {
        let none = Seq::<bool>::empty();
        assert forall|k: int| k >= 0 implies #[trigger] polynomial(whole)(k) == (multiple(none, k)
            != bit(0, k)) by {
            if k < 16 {
                let i = k as u16;
                assert((0u16 >> i) & 1 == 0) by (bit_vector);
            }
        }
        assert(divides(polynomial(whole), none, 0));
    } else if data.len() == 1 {
        lemma_two_bytes(data[0], 0);
        assert(whole =~= seq![data[0], 0]);
    } else if data.len() == 2 {
        lemma_two_bytes(data[0], data[1]);
        assert(whole =~= seq![data[0], data[1]]);
    } else {
        let rest = data.skip(2);
        lemma_two_bytes(data[0], data[1]);
        lemma_absorbed_all(
            seq![data[0], data[1]],
            (data[0] * 256 + data[1]) as u16,
            rest + padding(rest.len()),
        );
        assert(whole =~= seq![data[0], data[1]] + (rest + padding(rest.len())));
    }
    if remains(polynomial(whole), r) {
        lemma_remainder_is_unique(polynomial(whole), r, checksum(data));
    }
}

/// A command is framed as a station expects it: woken up, begun, the command, the
/// number of data bytes, the data as they are, the checksum of command, number
/// and data with its high byte first, and ended.
pub proof fn law_command_is_framed(cmd: u8, data: Seq<u8>)
    ensures
        ({
            let p = command(cmd, data);
            let body = p.subrange(2, p.len() - 3);
            &&& p.len() == data.len() + 7
            &&& p[0] == 0xFF
            &&& p[1] == 0x02
            &&& p[2] == cmd
            &&& p[3] == data.len() % 256
            &&& p.subrange(4, p.len() - 3) == data
            &&& remains(
                polynomial(body + Seq::new(zeros_behind(body.len()), |i: int| 0u8)),
                (p[p.len() - 3] * 256 + p[p.len() - 2]) as u16,
            )
            &&& p[p.len() - 1] == 0x03
        }),
{
    let p = command(cmd, data);
    let body = seq![cmd, (data.len() % 256) as u8] + data;
    assert(p.subrange(2, p.len() - 3) =~= body);
    assert(p.subrange(4, p.len() - 3) =~= data);
    law_checksum_is_the_remainder(body, 0);
}

} // verus!
