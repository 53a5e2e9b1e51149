//! Unsigned integers as the content octets of a BER/DER INTEGER: big-endian,
//! two's complement, non-negative and as short as possible.

use vstd::prelude::*;

verus! {

/// The unsigned number that a sequence of big-endian octets spells.
pub open spec fn be_value(s: Seq<u8>) -> nat
    decreases s.len(),
{
    if s.len() == 0 {
        0
    } else {
        be_value(s.drop_last()) * 256 + s.last() as nat
    }
}

/// The base-256 digits of `v`, most significant first, without leading
/// zeros (zero itself is the single digit 0).
pub open spec fn be_digits(v: nat) -> Seq<u8>
    decreases v,
{
    if v < 256 {
        seq![v as u8]
    } else {
        be_digits(v / 256).push((v % 256) as u8)
    }
}

/// The content octets of the INTEGER that carries the unsigned value `v`:
/// its base-256 digits, behind a 0x00 octet when the first digit has its
/// high bit set (which would otherwise make the value read as negative).
pub open spec fn unsigned_content(v: nat) -> Seq<u8> {
    let d = be_digits(v);
    if d[0] >= 0x80 {
        seq![0u8] + d
    } else {
        d
    }
}

/// The DER rule for INTEGER contents, for a non-negative value: at least one
/// octet, the sign bit clear, and no leading octet that could be dropped.
pub open spec fn is_minimal_non_negative(s: Seq<u8>) -> bool {
    &&& s.len() >= 1
    &&& s[0] < 0x80
    &&& s.len() > 1 ==> !(s[0] == 0 && s[1] < 0x80)
}

proof fn lemma_be_value_push(s: Seq<u8>, b: u8)
    ensures
        be_value(s.push(b)) == be_value(s) * 256 + b as nat,
{
    assert(s.push(b).drop_last() =~= s);
}

proof fn lemma_be_value_single(b: u8)
    ensures
        be_value(seq![b]) == b as nat,
{
    assert(seq![b].drop_last() =~= Seq::<u8>::empty());
    assert(be_value(Seq::<u8>::empty()) == 0);
}

proof fn lemma_div256(v: nat)
    ensures
        v == (v / 256) * 256 + v % 256,
        v % 256 < 256,
        ((v % 256) as u8) as nat == v % 256,
        v < 256 ==> (v as u8) as nat == v,
        v >= 256 ==> v / 256 >= 1 && v / 256 < v,
{
}

proof fn lemma_digits(v: nat)
    ensures
        be_digits(v).len() >= 1,
        be_value(be_digits(v)) == v,
        be_digits(v).len() > 1 ==> be_digits(v)[0] != 0,
        v >= 256 <==> be_digits(v).len() > 1,
    decreases v,
{
    lemma_div256(v);
    if v >= 256 {
        lemma_digits(v / 256);
        lemma_div256(v / 256);
        lemma_be_value_push(be_digits(v / 256), (v % 256) as u8);
        assert(be_digits(v) == be_digits(v / 256).push((v % 256) as u8));
        assert(be_value(be_digits(v / 256)) == v / 256);
        assert(be_value(be_digits(v)) == (v / 256) * 256 + ((v % 256) as u8) as nat);
        assert(be_digits(v)[0] == be_digits(v / 256)[0]);
        if v / 256 < 256 {
            assert(be_digits(v / 256)[0] == (v / 256) as u8);
        }
    } else {
        lemma_be_value_single(v as u8);
    }
}

/// A leading zero octet does not change the value.
proof fn lemma_leading_zero(s: Seq<u8>)
    requires
        s.len() > 0,
        s[0] == 0,
    ensures
        be_value(s) == be_value(s.drop_first()),
    decreases s.len(),
{
    if s.len() == 1 {
        assert(s.drop_last() =~= Seq::<u8>::empty());
        assert(s.drop_first() =~= Seq::<u8>::empty());
    } else {
        lemma_leading_zero(s.drop_last());
        assert(s.drop_first().drop_last() =~= s.drop_last().drop_first());
    }
}

proof fn lemma_value_at_least_first(s: Seq<u8>)
    requires
        s.len() > 0,
    ensures
        be_value(s) >= s[0],
    decreases s.len(),
{
    if s.len() > 1 {
        lemma_value_at_least_first(s.drop_last());
    }
}

/// A sequence without a redundant leading zero is the digit sequence of its
/// value.
proof fn lemma_digits_of_value(s: Seq<u8>)
    requires
        s.len() > 0,
        s.len() == 1 || s[0] != 0,
    ensures
        be_digits(be_value(s)) == s,
    decreases s.len(),
{
    if s.len() == 1 {
        assert(s =~= seq![s[0]]);
        lemma_be_value_single(s[0]);
        lemma_div256(s[0] as nat);
        assert(be_digits(be_value(s)) =~= s);
    } else {
        let p = s.drop_last();
        lemma_value_at_least_first(p);
        lemma_digits_of_value(p);
        let v = be_value(s);
        lemma_div256(v);
        assert(v / 256 == be_value(p));
        assert(v % 256 == s.last());
        assert(be_digits(v) =~= s);
    }
}

/// No sequence spells a value in fewer octets than its digit sequence.
proof fn lemma_digits_shortest(t: Seq<u8>)
    requires
        t.len() > 0,
    ensures
        be_digits(be_value(t)).len() <= t.len(),
    decreases t.len(),
{
    if t.len() == 1 {
        assert(t =~= seq![t[0]]);
        lemma_be_value_single(t[0]);
    } else {
        let p = t.drop_last();
        lemma_digits_shortest(p);
        let v = be_value(t);
        lemma_div256(v);
        if v >= 256 {
            assert(v / 256 == be_value(p));
        }
    }
}

/// The content that encodes `v` spells `v`, reads as non-negative, and obeys
/// the DER minimality rule.
pub proof fn law_unsigned_content_value(v: nat)
    ensures
        be_value(unsigned_content(v)) == v,
        is_minimal_non_negative(unsigned_content(v)),
{
    lemma_digits(v);
    let d = be_digits(v);
    if d[0] >= 0x80 {
        let c = seq![0u8] + d;
        lemma_leading_zero(c);
        assert(c.drop_first() =~= d);
    }
}

/// No non-negative encoding of `v` is shorter than the one this library
/// writes.
pub proof fn law_unsigned_content_shortest(v: nat, t: Seq<u8>)
    requires
        t.len() >= 1,
        t[0] < 0x80,
        be_value(t) == v,
    ensures
        unsigned_content(v).len() <= t.len(),
    decreases t.len(),
{
    lemma_digits(v);
    lemma_digits_shortest(t);
    let d = be_digits(v);
    if d[0] >= 0x80 {
        // The content is one octet longer than the digits; `t` cannot be as
        // short as the digits.
        if t.len() == d.len() {
            if t[0] == 0 {
                lemma_leading_zero(t);
                if t.len() > 1 {
                    lemma_digits_shortest(t.drop_first());
                } else {
                    assert(t.drop_first() =~= Seq::<u8>::empty());
                }
            } else {
                lemma_digits_of_value(t);
            }
        }
    }
}

/// Any octet sequence that obeys the DER rule is exactly the content this
/// library writes for the value it spells.
pub proof fn law_unsigned_content_unique(t: Seq<u8>)
    requires
        is_minimal_non_negative(t),
    ensures
        unsigned_content(be_value(t)) == t,
{
    let v = be_value(t);
    if t[0] != 0 || t.len() == 1 {
        lemma_digits_of_value(t);
    } else {
        lemma_leading_zero(t);
        let u = t.drop_first();
        lemma_digits_of_value(u);
        assert(seq![0u8] + u =~= t);
    }
}

proof fn lemma_shift_step(v: u64, s: u64)
    requires
        s <= 56,
    ensures
        (v >> s) as nat == ((v >> (s + 8) as u64) as nat) * 256 + ((v >> s) as u8) as nat,
{
    assert((v >> s) == (v >> (s + 8) as u64) * 256 + ((v >> s) & 0xff)) by (bit_vector)
        requires
            s <= 56,
    ;
    assert(((v >> s) as u8) as u64 == (v >> s) & 0xff) by (bit_vector);
}

/// The `width` lowest octets of `v`, most significant first.
pub(crate) fn be_bytes(v: u64, width: u64) -> (r: Vec<u8>)
    requires
        1 <= width <= 8,
        (v >> (8 * (width - 1)) as u64) < 256,
    ensures
        r@.len() == width,
        be_value(r@) == v,
{
    let mut shift: u64 = 8 * (width - 1);
    let mut out: Vec<u8> = Vec::new();
    let first = (v >> shift) as u8;
    proof {
        assert((v >> shift) < 256 ==> ((v >> shift) as u8) as u64 == v >> shift) by (bit_vector);
        lemma_be_value_single(first);
        assert(Seq::<u8>::empty().push(first) =~= seq![first]);
    }
    out.push(first);
    while shift > 0
        invariant
            shift % 8 == 0,
            shift <= 56,
            8 * (width - 1) >= shift,
            out@.len() == width - shift / 8,
            be_value(out@) == (v >> shift) as nat,
        decreases shift,
    {
        shift = shift - 8;
        let b = (v >> shift) as u8;
        proof {
            lemma_shift_step(v, shift);
            lemma_be_value_push(out@, b);
        }
        out.push(b);
    }
    proof {
        assert(v >> 0u64 == v) by (bit_vector);
    }
    out
}

/// Strips the leading zero octets of a big-endian number (keeping at least
/// one octet), then puts a zero octet in front if the first remaining octet
/// has its high bit set.
pub(crate) fn minimal_unsigned(bytes: Vec<u8>) -> (r: Vec<u8>)
    requires
        bytes@.len() >= 1,
    ensures
        r@ == unsigned_content(be_value(bytes@)),
{
    let ghost original = bytes@;
    let len = bytes.len();
    let mut start: usize = 0;
    assert(original.subrange(0, len as int) =~= original);
    while start < len - 1 && bytes[start] == 0
        invariant
            start <= len - 1,
            len == bytes@.len(),
            bytes@ == original,
            be_value(original.subrange(start as int, len as int)) == be_value(original),
        decreases len - start,
    {
        proof {
            let rest = original.subrange(start as int, len as int);
            lemma_leading_zero(rest);
            assert(rest.drop_first() =~= original.subrange(start + 1, len as int));
        }
        start = start + 1;
    }
    let mut bytes = bytes;
    let mut trimmed = bytes.split_off(start);
    proof {
        lemma_digits_of_value(trimmed@);
    }
    let first = trimmed[0];
    if first & 0x80 != 0 {
        assert(first & 0x80 != 0 ==> first >= 0x80) by (bit_vector);
        let mut out: Vec<u8> = vec![0x00];
        out.append(&mut trimmed);
        out
    } else {
        assert(first & 0x80 == 0 ==> first < 0x80) by (bit_vector);
        trimmed
    }
}

/// The content of zero is the single octet 0.
pub(crate) proof fn lemma_content_of_zero()
    ensures
        unsigned_content(0) == seq![0u8],
{
}

/// Putting a zero octet in front of a sequence of `n` octets gives a
/// non-negative encoding, so the content of what it spells is at most
/// `n + 1` octets long.
pub(crate) proof fn lemma_content_len_bound(s: Seq<u8>)
    requires
        s.len() >= 1,
    ensures
        unsigned_content(be_value(s)).len() <= s.len() + 1,
{
    let t = seq![0u8] + s;
    lemma_leading_zero(t);
    assert(t.drop_first() =~= s);
    law_unsigned_content_shortest(be_value(s), t);
}

} // verus!
