//! The Variable Byte Integer of MQTT (section 1.5.5): seven bits of value per
//! byte, least significant group first, the top bit set on every byte but the
//! last; at most four bytes, so at most 268,435,455.
use bytes::{Bytes, BytesMut};
use vstd::prelude::*;

use crate::buffer::{bytes_get_u8, bytes_len, bytes_mut_put_u8, bytes_mut_view, bytes_view};
use crate::codec::Parsed;
use crate::error::MQTTError;

verus! {

/// The largest value a Variable Byte Integer can hold.
pub const VARINT_MAX: usize = 268435455;

/// The encoding of `n`.
pub open spec fn varint(n: nat) -> Seq<u8>
    decreases n,
{
    if n < 128 {
        seq![n as u8]
    } else {
        seq![(n % 128 + 128) as u8] + varint(n / 128)
    }
}

/// 128 to the power `k`.
pub open spec fn pow128(k: nat) -> nat
    decreases k,
{
    if k == 0 {
        1
    } else {
        128 * pow128((k - 1) as nat)
    }
}

/// The value that the low seven bits of the first `k` bytes of `s` add up to.
pub open spec fn varint_value(s: Seq<u8>, k: nat) -> nat
    decreases k,
{
    if k == 0 {
        0
    } else {
        varint_value(s, (k - 1) as nat) + (s[k - 1] % 128) as nat * pow128((k - 1) as nat)
    }
}

/// The parse from byte `i` on, bytes before `i` all carrying the continuation bit.
pub open spec fn parse_varint_from(s: Seq<u8>, i: nat) -> Parsed<(usize, usize)>
    decreases 4 - i,
{
    if i >= 4 {
        (Err(MQTTError::MalformedPacket), 4)
    } else if s.len() <= i {
        (Err(MQTTError::MalformedPacket), s.len())
    } else if s[i as int] < 128 {
        (Ok((varint_value(s, i + 1) as usize, (i + 1) as usize)), i + 1)
    } else {
        parse_varint_from(s, i + 1)
    }
}

/// Parsing a Variable Byte Integer: the value and the number of bytes it took.
/// Running out of bytes, or a fourth byte with the continuation bit, is malformed.
pub open spec fn parse_varint(s: Seq<u8>) -> Parsed<(usize, usize)> {
    parse_varint_from(s, 0)
}

proof fn lemma_parse_varint_from_len(s: Seq<u8>, i: nat)
    requires
        i <= s.len(),
    ensures
        parse_varint_from(s, i).1 <= s.len(),
        parse_varint_from(s, i).1 <= 4,
        parse_varint_from(s, i).0 matches Ok((v, k)) ==> k == parse_varint_from(s, i).1 && v
            <= VARINT_MAX,
    decreases 4 - i,
{
    if i < 4 && s.len() > i && s[i as int] >= 128 {
        lemma_parse_varint_from_len(s, i + 1);
    }
    if i < 4 && s.len() > i && s[i as int] < 128 {
        lemma_varint_value_bound(s, i + 1);
        lemma_pow128_values();
        assert(pow128(4) == 268435456) by {
            reveal_with_fuel(pow128, 5);
        }
        lemma_pow128_mono((i + 1) as nat, 4);
    }
}

proof fn lemma_pow128_mono(a: nat, b: nat)
    requires
        a <= b,
    ensures
        pow128(a) <= pow128(b),
    decreases b - a,
{
    if a < b {
        lemma_pow128_mono(a, (b - 1) as nat);
    }
}

proof fn lemma_varint_value_bound(s: Seq<u8>, k: nat)
    requires
        k <= s.len(),
    ensures
        varint_value(s, k) < pow128(k),
    decreases k,
{
    if k > 0 {
        lemma_varint_value_bound(s, (k - 1) as nat);
        let low = (s[k - 1] % 128) as nat;
        let p = pow128((k - 1) as nat);
        assert(low * p <= 127 * p) by (nonlinear_arith)
            requires
                low <= 127,
        ;
    }
}

/// A parse takes at most four bytes and never more than there are; a value
/// it gives fits a Variable Byte Integer.
pub proof fn lemma_parse_varint_len(s: Seq<u8>)
    ensures
        parse_varint(s).1 <= s.len(),
        parse_varint(s).1 <= 4,
        parse_varint(s).0 matches Ok((v, k)) ==> k == parse_varint(s).1 && v <= VARINT_MAX,
{
    lemma_parse_varint_from_len(s, 0);
}

/// The number of bytes that the encoding of `len` takes.
pub open spec fn spec_variable_length(len: nat) -> nat {
    if len >= 2097152 {
        4
    } else if len >= 16384 {
        3
    } else if len >= 128 {
        2
    } else {
        1
    }
}

/// The number of bytes that `len` takes as a Variable Byte Integer (4 for any
/// value from 2,097,152 up).
pub fn variable_length(len: usize) -> (r: usize)
    ensures
        r == spec_variable_length(len as nat),
{
    if len >= 2_097_152 {
        4
    } else if len >= 16_384 {
        3
    } else if len >= 128 {
        2
    } else {
        1
    }
}

/// The encoding of a value that fits has exactly `variable_length` bytes.
pub proof fn lemma_varint_len(n: nat)
    requires
        n <= VARINT_MAX,
    ensures
        varint(n).len() == spec_variable_length(n),
        1 <= varint(n).len() <= 4,
{
    reveal_with_fuel(varint, 5);
    if n >= 128 {
        assert(n / 128 < 2097152);
        if n / 128 >= 128 {
            assert(n / 128 / 128 == n / 16384);
            if n / 16384 >= 128 {
                assert(n / 16384 / 128 == n / 2097152);
            }
        }
    }
}

proof fn lemma_varint_value_step(s: Seq<u8>, k: nat)
    ensures
        varint_value(s, k + 1) == varint_value(s, k) + (s[k as int] % 128) as nat * pow128(k),
{
}

proof fn lemma_pow128_values()
    ensures
        pow128(0) == 1,
        pow128(1) == 128,
        pow128(2) == 16384,
        pow128(3) == 2097152,
{
    reveal_with_fuel(pow128, 4);
}

/// Reading a Variable Byte Integer gives back the value that was written, and
/// takes exactly its bytes.
pub proof fn lemma_varint_roundtrip(n: nat, rest: Seq<u8>)
    requires
        n <= VARINT_MAX,
    ensures
        parse_varint(varint(n) + rest) == (Ok::<(usize, usize), MQTTError>(
            (n as usize, varint(n).len() as usize),
        ), varint(n).len()),
{
    lemma_varint_len(n);
    lemma_pow128_values();
    reveal_with_fuel(varint, 5);
    reveal_with_fuel(varint_value, 5);
    reveal_with_fuel(parse_varint_from, 5);
    let s = varint(n) + rest;
    let a = n % 128;
    let b = n / 128 % 128;
    let c = n / 16384 % 128;
    let d = n / 2097152;
    lemma_varint_value_step(s, 0);
    lemma_varint_value_step(s, 1);
    lemma_varint_value_step(s, 2);
    lemma_varint_value_step(s, 3);
    assert(n / 128 / 128 == n / 16384);
    assert(n / 16384 / 128 == n / 2097152);
    if n < 128 {
        assert(s[0] == n as u8);
        assert(varint_value(s, 0) == 0);
        assert(s[0] % 128 == n);
        assert(varint_value(s, 1) == n);
        assert(parse_varint_from(s, 0) == (Ok::<(usize, usize), MQTTError>((n as usize, 1usize)), 1nat));
    } else if n < 16384 {
        assert(varint(n) == seq![(a + 128) as u8, (n / 128) as u8]);
        assert(s[0] == (a + 128) as u8 && s[1] == (n / 128) as u8);
        assert(n == a + 128 * (n / 128));
        assert(varint_value(s, 1) == a);
        assert(varint_value(s, 2) == n);
        assert(parse_varint_from(s, 1) == (Ok::<(usize, usize), MQTTError>((n as usize, 2usize)), 2nat));
    } else if n < 2097152 {
        assert(varint(n) == seq![(a + 128) as u8, (b + 128) as u8, (n / 16384) as u8]);
        assert(s[0] == (a + 128) as u8 && s[1] == (b + 128) as u8 && s[2] == (n / 16384) as u8);
        assert(n == a + 128 * b + 16384 * (n / 16384));
        assert(varint_value(s, 1) == a);
        assert(varint_value(s, 2) == a + 128 * b);
        assert(varint_value(s, 3) == n);
        assert(parse_varint_from(s, 2) == (Ok::<(usize, usize), MQTTError>((n as usize, 3usize)), 3nat));
        assert(parse_varint_from(s, 1) == parse_varint_from(s, 2));
    } else {
        assert(varint(n) == seq![(a + 128) as u8, (b + 128) as u8, (c + 128) as u8, d as u8]);
        assert(s[0] == (a + 128) as u8 && s[1] == (b + 128) as u8 && s[2] == (c + 128) as u8
            && s[3] == d as u8);
        assert(n == a + 128 * b + 16384 * c + 2097152 * d);
        assert(varint_value(s, 1) == a);
        assert(varint_value(s, 2) == a + 128 * b);
        assert(varint_value(s, 3) == a + 128 * b + 16384 * c);
        assert(d < 128);
        assert(s[3] % 128 == d);
        assert(varint_value(s, 4) == varint_value(s, 3) + d * 2097152);
        assert(varint_value(s, 4) == n);
        assert(parse_varint_from(s, 3) == (Ok::<(usize, usize), MQTTError>((n as usize, 4usize)), 4nat));
        assert(parse_varint_from(s, 2) == parse_varint_from(s, 3));
        assert(parse_varint_from(s, 1) == parse_varint_from(s, 2));
    }
}

/// Writes `len` as a Variable Byte Integer. A value above 268,435,455 is
/// refused with `PayloadTooLong` and nothing is written.
pub fn encode_variable_integer(buf: &mut BytesMut, len: usize) -> (r: Result<(), MQTTError>)
    requires
        bytes_mut_view(*old(buf)).len() + spec_variable_length(len as nat) <= isize::MAX,
    ensures
        len > VARINT_MAX ==> r == Err::<(), MQTTError>(MQTTError::PayloadTooLong) && bytes_mut_view(
            *final(buf),
        ) == bytes_mut_view(*old(buf)),
        len <= VARINT_MAX ==> r == Ok::<(), MQTTError>(()) && bytes_mut_view(*final(buf))
            == bytes_mut_view(*old(buf)) + varint(len as nat),
{
    if len > 0xFFFFFFF {
        return Err(MQTTError::PayloadTooLong);
    }
    let ghost start = bytes_mut_view(*buf);
    let mut x = len;
    let mut i: usize = 0;
    proof {
        lemma_pow128_values();
        lemma_varint_len(len as nat);
    }
    loop
        invariant_except_break
            x <= len,
            x as nat * pow128(i as nat) <= VARINT_MAX,
            bytes_mut_view(*buf).len() == start.len() + i,
            start + varint(len as nat) == bytes_mut_view(*buf) + varint(x as nat),
        invariant
            i < 4,
            len <= VARINT_MAX,
            start.len() + varint(len as nat).len() <= isize::MAX,
            pow128(0) == 1 && pow128(1) == 128 && pow128(2) == 16384 && pow128(3) == 2097152,
        ensures
            bytes_mut_view(*buf) == start + varint(len as nat),
        decreases 4 - i,
    {
        proof {
            lemma_varint_len(x as nat);
            assert((bytes_mut_view(*buf) + varint(x as nat)).len() == bytes_mut_view(*buf).len()
                + varint(x as nat).len());
        }
        let byte = x % 128;
        let ghost old_x = x;
        x = x / 128;
        let ghost before = bytes_mut_view(*buf);
        if x > 0 {
            bytes_mut_put_u8(buf, (byte + 128) as u8);
            assert(varint((x * 128 + byte) as nat) == seq![(byte + 128) as u8] + varint(x as nat));
        } else {
            bytes_mut_put_u8(buf, byte as u8);
            assert(varint(byte as nat) == seq![byte as u8]);
        }
        assert(before + varint((x * 128 + byte) as nat) =~= bytes_mut_view(*buf) + (if x > 0 {
            varint(x as nat)
        } else {
            Seq::<u8>::empty()
        }));
        if x == 0 {
            assert(bytes_mut_view(*buf) =~= start + varint(len as nat));
            break ;
        }
        assert(x * 128 >= 128);
        i = i + 1;
        assert(x as nat * pow128(i as nat) <= VARINT_MAX) by {
            assert(pow128(i as nat) == 128 * pow128((i - 1) as nat));
            assert((x * 128) as nat * pow128((i - 1) as nat) <= old_x as nat * pow128((i - 1) as nat))
                by (nonlinear_arith)
                requires
                    x * 128 <= old_x,
            ;
            assert(x as nat * pow128(i as nat) == (x * 128) as nat * pow128((i - 1) as nat))
                by (nonlinear_arith)
                requires
                    pow128(i as nat) == 128 * pow128((i - 1) as nat),
            ;
        }
        assert(i < 4) by {
            if i >= 4 {
                assert(pow128(4) == 268435456) by {
                    reveal_with_fuel(pow128, 5);
                }
                assert(x as nat * pow128(4) >= 268435456) by (nonlinear_arith)
                    requires
                        x >= 1,
                        pow128(4) == 268435456,
                ;
            }
        }
    }
    Ok(())
}

/// Reads a Variable Byte Integer off the front of `buf`: the value and the
/// number of bytes it took.
pub fn decode_variable_integer(buf: &mut Bytes) -> (r: Result<(usize, usize), MQTTError>)
    ensures
        r == parse_varint(bytes_view(*old(buf))).0,
        bytes_view(*final(buf)) == bytes_view(*old(buf)).skip(parse_varint(bytes_view(*old(buf))).1 as int),
{
    let ghost s = bytes_view(*buf);
    assert(s == bytes_view(*old(buf)));
    let mut result: usize = 0;
    let mut mult: usize = 1;
    let mut i: usize = 0;
    proof {
        lemma_pow128_values();
    }
    while i < 4
        invariant
            i <= 4,
            bytes_view(*buf) == s.skip(i as int),
            s.len() >= i,
            result == varint_value(s, i as nat),
            i < 4 ==> mult == pow128(i as nat),
            result < pow128(i as nat),
            forall|j: int| 0 <= j < i ==> s[j] >= 128,
            s == bytes_view(*old(buf)),
            parse_varint_from(s, 0) == parse_varint_from(s, i as nat),
            pow128(0) == 1 && pow128(1) == 128 && pow128(2) == 16384 && pow128(3) == 2097152,
        decreases 4 - i,
    {
        if bytes_len(buf) == 0 {
            assert(s.skip(i as int).len() == 0);
            assert(s.skip(s.len() as int) =~= s.skip(i as int));
            assert(parse_varint_from(s, i as nat) == (Err::<(usize, usize), MQTTError>(MQTTError::MalformedPacket), s.len()));
            return Err(MQTTError::MalformedPacket);
        }
        let byte = bytes_get_u8(buf);
        assert(byte == s[i as int]);
        assert(s.skip(i as int).skip(1) =~= s.skip(i + 1));
        let low = (byte % 128) as usize;
        assert(low * mult <= 127 * 2097152) by (nonlinear_arith)
            requires
                low <= 127,
                mult <= 2097152,
        ;
        result = result + low * mult;
        if byte < 128 {
            return Ok((result, i + 1));
        }
        assert(result < pow128((i + 1) as nat)) by {
            assert(pow128((i + 1) as nat) == 128 * mult);
            assert(low * mult <= 127 * mult) by (nonlinear_arith) requires low <= 127, ;
        }
        if i < 3 {
            mult = mult * 128;
        }
        i = i + 1;
    }
    Err(MQTTError::MalformedPacket)
}

/// The Variable Byte Integer of MQTT 5 (section 1.5.5): seven bits per
/// byte, least significant group first, bit 7 set on every byte but the
/// last. A value below 128 is one byte; a larger value is its low seven bits
/// with bit 7 set, then the encoding of the rest.
pub proof fn lemma_varint_layout(n: nat)
    ensures
        n < 128 ==> varint(n) == seq![n as u8],
        n >= 128 ==> varint(n).len() >= 2 && varint(n)[0] == (n % 128 + 128) as u8 && varint(n).skip(1)
            == varint(n / 128),
{
    if n >= 128 {
        assert(varint(n).skip(1) =~= varint(n / 128));
    }
}

/// Reading a Variable Byte Integer: a first byte below 128 is the value
/// itself; a first byte with bit 7 set and a second below 128 make the value
/// (first - 128) + 128 * second; four bytes with bit 7 set, or input that
/// ends while bit 7 is set, are `MalformedPacket`.
pub proof fn lemma_varint_parse_layout(s: Seq<u8>)
    ensures
        s.len() >= 1 && s[0] < 128 ==> parse_varint(s) == (Ok::<(usize, usize), MQTTError>((s[0] as usize, 1usize)), 1nat),
        s.len() >= 2 && s[0] >= 128 && s[1] < 128 ==> parse_varint(s) == (Ok::<(usize, usize), MQTTError>((
            (s[0] - 128 + 128 * s[1]) as usize,
            2usize,
        )), 2nat),
        s.len() >= 4 && s[0] >= 128 && s[1] >= 128 && s[2] >= 128 && s[3] >= 128 ==> parse_varint(s).0
            == Err::<(usize, usize), MQTTError>(MQTTError::MalformedPacket),
        s.len() == 0 ==> parse_varint(s).0 == Err::<(usize, usize), MQTTError>(MQTTError::MalformedPacket),
        s.len() == 1 && s[0] >= 128 ==> parse_varint(s).0 == Err::<(usize, usize), MQTTError>(MQTTError::MalformedPacket),
{
    reveal_with_fuel(parse_varint_from, 5);
    assert(pow128(0) == 1);
    assert(pow128(1) == 128);
    assert(varint_value(s, 0) == 0);
    if s.len() >= 1 {
        let x0 = (s[0] % 128) as nat;
        assert(x0 * pow128(0) == x0) by (nonlinear_arith)
            requires
                pow128(0) == 1,
        ;
        assert(varint_value(s, 1) == x0);
        if s[0] < 128 {
            assert(parse_varint_from(s, 0) == (Ok::<(usize, usize), MQTTError>((varint_value(s, 1) as usize, 1usize)), 1nat));
        }
    }
    if s.len() >= 2 && s[0] >= 128 && s[1] < 128 {
        let x1 = (s[1] % 128) as nat;
        assert(x1 * pow128(1) == x1 * 128) by (nonlinear_arith)
            requires
                pow128(1) == 128,
        ;
        assert(varint_value(s, 2) == varint_value(s, 1) + x1 * 128);
        assert(s[0] % 128 == s[0] - 128);
        assert(parse_varint_from(s, 0) == parse_varint_from(s, 1));
        assert(parse_varint_from(s, 1) == (Ok::<(usize, usize), MQTTError>((varint_value(s, 2) as usize, 2usize)), 2nat));
    }
}

} // verus!
