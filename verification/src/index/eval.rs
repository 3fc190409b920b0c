//! Evaluation of transforms, encodings and advert predicates.

use crate::digest::{hex, hex_of};
use crate::index::types::{
    AdvertByteSource, AdvertCapture, AdvertPredicate, BleAdvertSignature, Encoding,
    LocalNamePredicate, MfgDataPredicate, PayloadPredicate, Transform,
};
use crate::model::paired_bytes;
use crate::text::{
    all_digits, chars_of, decimal, digit, has_prefix, is_digit, parse_unsigned, same, starts_with,
    strip_prefix, trim, trimmed, u64_text, unsigned_value,
};
use crate::yaml::{
    as_unsigned, item_models, sequence_view, unsigned_of, Yaml, YamlModel, YamlNumber,
};
use vstd::prelude::*;
use vstd::utf8::{decode_utf8, encode_utf8, valid_utf8};

verus! {

/// The greatest length that `padRight` extends to: that of a GATT attribute value.
pub const MAX_PAD_RIGHT_LENGTH: usize = 512;

/// Transport-neutral facts about one observed BLE advertisement. A platform that cannot supply a
/// field leaves it absent, and predicates over it are false.
#[derive(Debug, Clone, Default)]
pub struct BleAdvertFacts {
    pub service_uuids: Vec<String>,
    /// The company id, and the payload behind it.
    pub manufacturer_data: Option<(u16, Vec<u8>)>,
    /// Service UUIDs and their payloads.
    pub service_data: Vec<(String, Vec<u8>)>,
    pub local_name: Option<String>,
    pub tx_power: Option<i8>,
    /// AD types and their payloads as on air; for AD type 0xFF the payload includes the company id.
    pub ad_records: Vec<(u8, Vec<u8>)>,
}

/// The number that little-endian bytes write.
pub open spec fn le_value(b: Seq<u8>) -> int
    decreases b.len(),
{
    if b.len() == 0 {
        0
    } else {
        b[0] as int + 256 * le_value(b.drop_first())
    }
}

/// The low `n` bytes of a number, little-endian.
pub open spec fn le_bytes(v: int, n: nat) -> Seq<u8>
    decreases n,
{
    if n == 0 {
        Seq::empty()
    } else {
        seq![(v % 256) as u8] + le_bytes(v / 256, (n - 1) as nat)
    }
}

/// The number of values of `n` bytes.
pub open spec fn byte_range(n: nat) -> int
    decreases n,
{
    if n == 0 {
        1
    } else {
        256 * byte_range((n - 1) as nat)
    }
}

/// Little-endian bytes write a number that fits in them.
pub proof fn le_value_bounds(b: Seq<u8>)
    ensures
        0 <= le_value(b) < byte_range(b.len()),
    decreases b.len(),
{
    if b.len() > 0 {
        le_value_bounds(b.drop_first());
    }
}

/// Up to eight bytes are no more than 64 bits.
proof fn eight_bytes_fit(n: nat)
    requires
        n <= 8,
    ensures
        byte_range(n) <= 0x1_0000_0000_0000_0000,
{
    reveal_with_fuel(byte_range, 9);
}

/// The bytes of a number that fits in them write the number.
pub proof fn le_bytes_value(v: int, n: nat)
    requires
        0 <= v < byte_range(n),
    ensures
        le_bytes(v, n).len() == n,
        le_value(le_bytes(v, n)) == v,
    decreases n,
{
    if n > 0 {
        le_bytes_value(v / 256, (n - 1) as nat);
        let b = le_bytes(v, n);
        assert(b.drop_first() == le_bytes(v / 256, (n - 1) as nat));
        assert(b[0] == (v % 256) as u8);
    }
}

/// The bytes of a number are as many as were asked for.
pub proof fn le_bytes_len(v: int, n: nat)
    ensures
        le_bytes(v, n).len() == n,
    decreases n,
{
    if n > 0 {
        le_bytes_len(v / 256, (n - 1) as nat);
    }
}

/// The number that up to eight little-endian bytes write.
fn read_le(b: &[u8]) -> (r: u64)
    requires
        b@.len() <= 8,
    ensures
        r == le_value(b@),
{
    let mut v: u64 = 0;
    let mut i: usize = b.len();
    proof {
        assert(b@.skip(b@.len() as int) == Seq::<u8>::empty());
    }
    while i > 0
        invariant
            b@.len() <= 8,
            i <= b@.len(),
            v == le_value(b@.skip(i as int)),
        decreases i,
    {
        i = i - 1;
        proof {
            assert(b@.skip(i as int).drop_first() == b@.skip(i + 1));
            le_value_bounds(b@.skip(i as int));
            eight_bytes_fit(b@.skip(i as int).len());
        }
        v = v * 256 + b[i] as u64;
    }
    proof {
        assert(b@.skip(0) == b@);
    }
    v
}

/// The low `n` bytes of a number, little-endian.
fn write_le(v: u64, n: usize) -> (r: Vec<u8>)
    ensures
        r@ == le_bytes(v as int, n as nat),
{
    let mut out: Vec<u8> = Vec::new();
    let mut left: u64 = v;
    let mut i: usize = 0;
    proof {
        assert(Seq::<u8>::empty() + le_bytes(v as int, n as nat) == le_bytes(v as int, n as nat));
    }
    while i < n
        invariant
            i <= n,
            out@ + le_bytes(left as int, (n - i) as nat) == le_bytes(v as int, n as nat),
        decreases n - i,
    {
        let ghost before = out@;
        out.push((left % 256) as u8);
        proof {
            assert(before + (seq![(left as int % 256) as u8] + le_bytes(
                left as int / 256,
                (n - i - 1) as nat,
            )) == out@ + le_bytes(left as int / 256, (n - i - 1) as nat));
        }
        left = left / 256;
        i = i + 1;
    }
    proof {
        assert(out@ + Seq::<u8>::empty() == out@);
    }
    out
}

/// The window of `length` bytes at `at`; without a length, to the end.
pub open spec fn window_of(b: Seq<u8>, at: int, length: Option<usize>) -> Option<Seq<u8>> {
    let end = match length {
        Some(l) => at + l,
        None => b.len() as int,
    };
    if 0 <= at <= end <= b.len() {
        Some(b.subrange(at, end))
    } else {
        None
    }
}

/// The two upper-case hexadecimal digits of each byte, as ASCII.
pub open spec fn upper_hex(b: Seq<u8>) -> Seq<u8>
    decreases b.len(),
{
    if b.len() == 0 {
        Seq::empty()
    } else {
        upper_hex(b.drop_last()).push(upper_digit(b.last() / 16)).push(upper_digit(b.last() % 16))
    }
}

/// The ASCII of an upper-case hexadecimal digit.
pub open spec fn upper_digit(d: u8) -> u8 {
    if d < 10 {
        (48 + d) as u8
    } else {
        (55 + d) as u8
    }
}

/// The ASCII of the canonical text of a UUID.
pub open spec fn uuid_ascii(b: Seq<u8>) -> Seq<u8> {
    let dash = seq![45u8];
    upper_hex(b.subrange(0, 4)) + dash + upper_hex(b.subrange(4, 6)) + dash + upper_hex(
        b.subrange(6, 8),
    ) + dash + upper_hex(b.subrange(8, 10)) + dash + upper_hex(b.subrange(10, 16))
}

/// What a transform makes of bytes; `None` where it cannot apply: an integer transform on no bytes
/// or on more than eight, a shift past the last bit, a window or a width that the bytes do not fit.
pub open spec fn transformed(b: Seq<u8>, t: Transform) -> Option<Seq<u8>> {
    let v = le_value(b) as u64;
    let integer = 0 < b.len() <= 8;
    match t {
        Transform::BitOr(operand) => if integer {
            Some(le_bytes((v | operand) as int, b.len()))
        } else {
            None
        },
        Transform::BitAnd(operand) => if integer {
            Some(le_bytes((v & operand) as int, b.len()))
        } else {
            None
        },
        Transform::Slice { at, length } => window_of(b, at as int, length),
        Transform::DropPrefix(n) => window_of(b, n as int, None),
        Transform::ReverseBytes => Some(b.reverse()),
        Transform::UuidFromBytes => if b.len() == 16 {
            Some(uuid_ascii(b))
        } else {
            None
        },
        Transform::Bits { mask, shift } => if integer && shift < 64 {
            Some(le_bytes(((v & mask) >> shift) as int, b.len()))
        } else {
            None
        },
        Transform::AppendNul => Some(b.push(0)),
        Transform::PadRight { length, byte } => if b.len() <= length && length
            <= MAX_PAD_RIGHT_LENGTH {
            Some(Seq::new(length as nat, |i: int| if i < b.len() {
                b[i]
            } else {
                byte
            }))
        } else {
            None
        },
    }
}

/// What the transforms from `i` on make of bytes, one after the other; `None` where one fails.
pub open spec fn chained(b: Seq<u8>, chain: Seq<Transform>, i: int) -> Option<Seq<u8>>
    decreases chain.len() - i,
{
    if i < 0 || i >= chain.len() {
        Some(b)
    } else {
        match transformed(b, chain[i]) {
            Some(c) => chained(c, chain, i + 1),
            None => None,
        }
    }
}

/// A chain behind another does to bytes what the one does to what the other makes of them.
pub proof fn chains_compose(b: Seq<u8>, first: Seq<Transform>, second: Seq<Transform>, i: int)
    requires
        0 <= i <= first.len(),
    ensures
        chained(b, first + second, i) == (match chained(b, first, i) {
            Some(c) => chained(c, second, 0),
            None => None,
        }),
    decreases first.len() - i,
{
    let all = first + second;
    if i < first.len() {
        assert(all[i] == first[i]);
        match transformed(b, first[i]) {
            Some(c) => chains_compose(c, first, second, i + 1),
            None => {},
        }
    } else {
        chain_tail(b, first, second, 0);
    }
}

/// The end of a joined chain is the second chain.
proof fn chain_tail(b: Seq<u8>, first: Seq<Transform>, second: Seq<Transform>, i: int)
    requires
        0 <= i <= second.len(),
    ensures
        chained(b, first + second, first.len() + i) == chained(b, second, i),
    decreases second.len() - i,
{
    if i < second.len() {
        assert((first + second)[first.len() + i] == second[i]);
        match transformed(b, second[i]) {
            Some(c) => chain_tail(c, first, second, i + 1),
            None => {},
        }
    }
}

/// Reversing bytes twice gives them back.
pub proof fn reversing_twice_is_identity(b: Seq<u8>)
    ensures
        chained(b, seq![Transform::ReverseBytes, Transform::ReverseBytes], 0) == Some(b),
{
    let chain = seq![Transform::ReverseBytes, Transform::ReverseBytes];
    assert(b.reverse().reverse() == b);
    assert(chained(b, chain, 2) == Some(b));
    assert(chained(b.reverse(), chain, 1) == Some(b));
}

/// The window of `length` bytes at `at`; without a length, to the end.
fn window(input: &[u8], at: usize, length: Option<usize>) -> (r: Option<Vec<u8>>)
    ensures
        window_of(input@, at as int, length) == match r {
            Some(v) => Some(v@),
            None => None,
        },
{
    if at > input.len() {
        return None;
    }
    let end: usize = match length {
        Some(l) => match at.checked_add(l) {
            Some(e) => e,
            None => {
                return None;
            },
        },
        None => input.len(),
    };
    if end > input.len() {
        return None;
    }
    Some(copy_bytes(vstd::slice::slice_subrange(input, at, end)))
}

/// A copy of bytes.
fn copy_bytes(b: &[u8]) -> (r: Vec<u8>)
    ensures
        r@ == b@,
{
    let mut out: Vec<u8> = Vec::new();
    let mut i: usize = 0;
    while i < b.len()
        invariant
            i <= b@.len(),
            out@ == b@.take(i as int),
        decreases b@.len() - i,
    {
        out.push(b[i]);
        i = i + 1;
    }
    proof {
        assert(b@.take(b@.len() as int) == b@);
    }
    out
}

/// Adds the two upper-case hexadecimal digits of the bytes from `from` up to `to`.
fn push_upper(out: &mut Vec<u8>, b: &[u8], from: usize, to: usize)
    requires
        from <= to <= b@.len(),
    ensures
        final(out)@ == old(out)@ + upper_hex(b@.subrange(from as int, to as int)),
{
    let ghost start = out@;
    let mut i: usize = from;
    proof {
        assert(b@.subrange(from as int, from as int) == Seq::<u8>::empty());
        assert(start + upper_hex(Seq::<u8>::empty()) == start);
    }
    while i < to
        invariant
            start == old(out)@,
            from <= i <= to <= b@.len(),
            out@ == start + upper_hex(b@.subrange(from as int, i as int)),
        decreases to - i,
    {
        let v: u8 = b[i];
        let high: u8 = v / 16;
        let low: u8 = v % 16;
        let ghost part = b@.subrange(from as int, i + 1);
        proof {
            assert(part.drop_last() == b@.subrange(from as int, i as int));
            assert(part.last() == v);
        }
        out.push(if high < 10 {
            48 + high
        } else {
            55 + high
        });
        out.push(if low < 10 {
            48 + low
        } else {
            55 + low
        });
        proof {
            assert(out@ == start + upper_hex(part));
        }
        i = i + 1;
    }
}

/// What an integer transform makes of bytes.
fn apply_integer(input: &[u8], t: &Transform) -> (r: Option<Vec<u8>>)
    requires
        *t is BitOr || *t is BitAnd || *t is Bits,
    ensures
        transformed(input@, *t) == match r {
            Some(v) => Some(v@),
            None => None,
        },
{
    if input.len() == 0 || input.len() > 8 {
        return None;
    }
    let v: u64 = read_le(input);
    let w: u64 = match t {
        Transform::BitOr(operand) => v | *operand,
        Transform::BitAnd(operand) => v & *operand,
        Transform::Bits { mask, shift } => {
            if *shift >= 64 {
                return None;
            }
            (v & *mask) >> *shift
        },
        _ => v,
    };
    Some(write_le(w, input.len()))
}

/// What a transform makes of bytes; `None` where it fails.
fn apply_one(input: &[u8], t: &Transform) -> (r: Option<Vec<u8>>)
    ensures
        transformed(input@, *t) == match r {
            Some(v) => Some(v@),
            None => None,
        },
{
    match t {
        Transform::BitOr(_) => apply_integer(input, t),
        Transform::BitAnd(_) => apply_integer(input, t),
        Transform::Bits { .. } => apply_integer(input, t),
        Transform::Slice { at, length } => window(input, *at, *length),
        Transform::DropPrefix(n) => window(input, *n, None),
        Transform::ReverseBytes => {
            let mut out: Vec<u8> = Vec::new();
            let mut i: usize = input.len();
            while i > 0
                invariant
                    i <= input@.len(),
                    out@ == input@.reverse().take(input@.len() - i),
                decreases i,
            {
                i = i - 1;
                out.push(input[i]);
                proof {
                    let k = input@.len() - i - 1;
                    assert(input@.reverse()[k] == input@[i as int]);
                    assert(input@.reverse().take(k + 1) == input@.reverse().take(k).push(
                        input@[i as int],
                    ));
                }
            }
            proof {
                assert(input@.reverse().take(input@.len() as int) == input@.reverse());
            }
            Some(out)
        },
        Transform::UuidFromBytes => {
            if input.len() != 16 {
                return None;
            }
            let mut out: Vec<u8> = Vec::new();
            push_upper(&mut out, input, 0, 4);
            out.push(45);
            push_upper(&mut out, input, 4, 6);
            out.push(45);
            push_upper(&mut out, input, 6, 8);
            out.push(45);
            push_upper(&mut out, input, 8, 10);
            out.push(45);
            push_upper(&mut out, input, 10, 16);
            proof {
                assert(out@ == uuid_ascii(input@));
            }
            Some(out)
        },
        Transform::AppendNul => {
            let mut out = copy_bytes(input);
            out.push(0);
            Some(out)
        },
        Transform::PadRight { length, byte } => {
            if input.len() > *length || *length > MAX_PAD_RIGHT_LENGTH {
                return None;
            }
            let mut out = copy_bytes(input);
            while out.len() < *length
                invariant
                    input@.len() <= out@.len() <= *length,
                    forall|i: int|
                        0 <= i < out@.len() ==> #[trigger] out@[i] == (if i < input@.len() {
                            input@[i]
                        } else {
                            *byte
                        }),
                decreases *length - out@.len(),
            {
                out.push(*byte);
            }
            proof {
                assert(out@ == transformed(input@, *t)->0);
            }
            Some(out)
        },
    }
}

/// Applies a transform chain in order; `None` where a link fails.
pub fn apply_transforms(input: &[u8], chain: &[Transform]) -> (r: Option<Vec<u8>>)
    ensures
        chained(input@, chain@, 0) == match r {
            Some(v) => Some(v@),
            None => None,
        },
{
    let mut current = copy_bytes(input);
    let mut i: usize = 0;
    while i < chain.len()
        invariant
            i <= chain@.len(),
            chained(input@, chain@, 0) == chained(current@, chain@, i as int),
        decreases chain@.len() - i,
    {
        match apply_one(current.as_slice(), &chain[i]) {
            Some(v) => {
                current = v;
            },
            None => {
                return None;
            },
        }
        i = i + 1;
    }
    Some(current)
}

/// `std::str::from_utf8`: the text that the bytes encode, or nothing where they are no UTF-8.
#[verifier::external_body]
fn utf8_text(b: &[u8]) -> (r: Option<String>)
    ensures
        match r {
            Some(s) => valid_utf8(b@) && s@ == decode_utf8(b@),
            None => !valid_utf8(b@),
        },
{
    std::str::from_utf8(b).ok().map(String::from)
}

/// The text of UTF-8 bytes.
pub open spec fn utf8_of(b: Seq<u8>) -> Option<Seq<char>> {
    if valid_utf8(b) {
        Some(decode_utf8(b))
    } else {
        None
    }
}

/// The first NUL at `i` or after it; the length where there is none.
pub open spec fn nul_index(b: Seq<u8>, i: int) -> int
    decreases b.len() - i,
{
    if i < 0 || i >= b.len() || b[i] == 0 {
        i
    } else {
        nul_index(b, i + 1)
    }
}

/// Whether every byte is ASCII.
pub open spec fn all_ascii(b: Seq<u8>) -> bool {
    forall|i: int| 0 <= i < b.len() ==> #[trigger] b[i] < 128
}

/// The width in bytes of an integer encoding, and whether it is big-endian.
pub open spec fn integer_width(e: Encoding) -> Option<(nat, bool)> {
    match e {
        Encoding::U8 => Some((1, false)),
        Encoding::U16Le => Some((2, false)),
        Encoding::U16Be => Some((2, true)),
        Encoding::U32 => Some((4, false)),
        Encoding::U32Le => Some((4, false)),
        Encoding::U32Be => Some((4, true)),
        _ => None,
    }
}

/// The width in bytes of an integer encoding, and whether it is big-endian.
fn width_of(e: Encoding) -> (r: Option<(usize, bool)>)
    ensures
        integer_width(e) == match r {
            Some((n, big)) => Some((n as nat, big)),
            None => None,
        },
        r matches Some((n, _)) ==> 1 <= n <= 4,
{
    match e {
        Encoding::U8 => Some((1, false)),
        Encoding::U16Le => Some((2, false)),
        Encoding::U16Be => Some((2, true)),
        Encoding::U32 => Some((4, false)),
        Encoding::U32Le => Some((4, false)),
        Encoding::U32Be => Some((4, true)),
        _ => None,
    }
}

/// The bytes of a number in an integer encoding: its low bytes, in the order of the encoding.
pub open spec fn integer_bytes(v: int, n: nat, big: bool) -> Seq<u8> {
    if big {
        le_bytes(v, n).reverse()
    } else {
        le_bytes(v, n)
    }
}

/// The number that bytes write in the order of an encoding.
pub open spec fn integer_value(b: Seq<u8>, big: bool) -> int {
    if big {
        le_value(b.reverse())
    } else {
        le_value(b)
    }
}

/// The text form of bytes; `None` where they do not fit the encoding.
pub open spec fn decoded(b: Seq<u8>, e: Encoding) -> Option<Seq<char>> {
    match e {
        Encoding::Utf8 => utf8_of(b),
        Encoding::Utf8Cstring => utf8_of(b.take(nul_index(b, 0))),
        Encoding::Ascii => if all_ascii(b) {
            utf8_of(b)
        } else {
            None
        },
        Encoding::Bytes | Encoding::BytesRaw | Encoding::BytesLe | Encoding::BytesBe => Some(
            hex_of(b),
        ),
        _ => match integer_width(e) {
            Some((n, big)) => if b.len() == n {
                Some(decimal(integer_value(b, big)))
            } else {
                None
            },
            None => None,
        },
    }
}

/// The first NUL; the length where there is none.
fn find_nul(b: &[u8]) -> (r: usize)
    ensures
        r == nul_index(b@, 0),
        r <= b@.len(),
{
    let mut i: usize = 0;
    while i < b.len() && b[i] != 0
        invariant
            i <= b@.len(),
            nul_index(b@, 0) == nul_index(b@, i as int),
        decreases b@.len() - i,
    {
        i = i + 1;
    }
    i
}

/// The number that up to four bytes write in the order of an encoding.
fn read_integer(b: &[u8], big: bool) -> (r: u64)
    requires
        b@.len() <= 8,
    ensures
        r == integer_value(b@, big),
{
    if big {
        let mut reversed: Vec<u8> = Vec::new();
        let mut i: usize = b.len();
        while i > 0
            invariant
                i <= b@.len(),
                reversed@ == b@.reverse().take(b@.len() - i),
            decreases i,
        {
            i = i - 1;
            reversed.push(b[i]);
            proof {
                let k = b@.len() - i - 1;
                assert(b@.reverse()[k] == b@[i as int]);
                assert(b@.reverse().take(k + 1) == b@.reverse().take(k).push(b@[i as int]));
            }
        }
        proof {
            assert(b@.reverse().take(b@.len() as int) == b@.reverse());
        }
        read_le(reversed.as_slice())
    } else {
        read_le(b)
    }
}

/// Decodes bytes to the text form that scope carries; `None` where they do not fit the encoding.
pub fn decode_bytes(bytes: &[u8], encoding: Encoding) -> (r: Option<String>)
    ensures
        decoded(bytes@, encoding) == match r {
            Some(s) => Some(s@),
            None => None,
        },
{
    match encoding {
        Encoding::Utf8 => utf8_text(bytes),
        Encoding::Utf8Cstring => {
            let end: usize = find_nul(bytes);
            proof {
                assert(bytes@.subrange(0, end as int) == bytes@.take(end as int));
            }
            utf8_text(vstd::slice::slice_subrange(bytes, 0, end))
        },
        Encoding::Ascii => {
            let mut i: usize = 0;
            while i < bytes.len()
                invariant
                    encoding is Ascii,
                    i <= bytes@.len(),
                    forall|k: int| 0 <= k < i ==> #[trigger] bytes@[k] < 128,
                decreases bytes@.len() - i,
            {
                if bytes[i] >= 128 {
                    proof {
                        assert(!(bytes@[i as int] < 128));
                    }
                    return None;
                }
                i = i + 1;
            }
            utf8_text(bytes)
        },
        Encoding::Bytes | Encoding::BytesRaw | Encoding::BytesLe | Encoding::BytesBe => Some(
            hex(bytes),
        ),
        _ => match width_of(encoding) {
            Some((n, big)) => if bytes.len() == n {
                Some(u64_text(read_integer(bytes, big)))
            } else {
                None
            },
            None => None,
        },
    }
}

/// The lower-case hexadecimal text of bytes.
pub fn hex_lower(b: &[u8]) -> (r: String)
    ensures
        r@ == hex_of(b@),
{
    hex(b)
}

/// The bytes of an unsigned integer in an integer encoding: its low bytes, in the order of the
/// encoding. `None` for an encoding that is not one of integers.
pub open spec fn encoded(v: u64, e: Encoding) -> Option<Seq<u8>> {
    match integer_width(e) {
        Some((n, big)) => Some(integer_bytes(v as int, n, big)),
        None => None,
    }
}

/// The low `n` bytes of a number in the order of an encoding.
fn write_integer(v: u64, n: usize, big: bool) -> (r: Vec<u8>)
    ensures
        r@ == integer_bytes(v as int, n as nat, big),
{
    let little = write_le(v, n);
    if !big {
        return little;
    }
    let mut out: Vec<u8> = Vec::new();
    let mut i: usize = little.len();
    while i > 0
        invariant
            i <= little@.len(),
            out@ == little@.reverse().take(little@.len() - i),
        decreases i,
    {
        i = i - 1;
        out.push(little[i]);
        proof {
            let k = little@.len() - i - 1;
            assert(little@.reverse()[k] == little@[i as int]);
            assert(little@.reverse().take(k + 1) == little@.reverse().take(k).push(
                little@[i as int],
            ));
        }
    }
    proof {
        assert(little@.reverse().take(little@.len() as int) == little@.reverse());
    }
    out
}

/// Encodes an unsigned integer at the width and order of an integer encoding.
pub fn encode_uint(value: u64, encoding: Encoding) -> (r: Option<Vec<u8>>)
    ensures
        encoded(value, encoding) == match r {
            Some(v) => Some(v@),
            None => None,
        },
{
    match width_of(encoding) {
        Some((n, big)) => Some(write_integer(value, n, big)),
        None => None,
    }
}

/// An integer that fits its encoding reads back from its bytes.
pub proof fn encoding_round_trips(v: u64, e: Encoding)
    requires
        integer_width(e) matches Some((n, _)) && v < byte_range(n),
    ensures
        decoded(encoded(v, e)->0, e) == Some(decimal(v as int)),
{
    let (n, big) = integer_width(e)->0;
    le_bytes_value(v as int, n);
    let b = le_bytes(v as int, n);
    assert(b.reverse().reverse() == b);
}

/// The text without one leading `0x`.
pub open spec fn without_0x(s: Seq<char>) -> Seq<char> {
    if has_prefix(s, "0x"@) {
        s.skip(2)
    } else {
        s
    }
}

/// The bytes of an even number of hexadecimal digits, of either case.
pub open spec fn digit_pairs(s: Seq<char>) -> Option<Seq<u8>> {
    if all_digits(s, 16) && s.len() % 2 == 0 {
        Some(paired_bytes(s))
    } else {
        None
    }
}

/// The bytes of an even number of hexadecimal digits, of either case.
fn read_pairs(s: &str) -> (r: Option<Vec<u8>>)
    ensures
        digit_pairs(s@) == match r {
            Some(v) => Some(v@),
            None => None,
        },
{
    let chars = chars_of(s);
    if chars.len() % 2 != 0 {
        return None;
    }
    let mut out: Vec<u8> = Vec::new();
    let mut i: usize = 0;
    while i < chars.len()
        invariant
            chars@ == s@,
            chars@.len() % 2 == 0,
            i % 2 == 0,
            i <= chars@.len(),
            out@.len() == i / 2,
            forall|k: int| 0 <= k < i ==> is_digit(#[trigger] chars@[k], 16),
            forall|k: int| 0 <= k < out@.len() ==> #[trigger] out@[k] == paired_bytes(s@)[k],
        decreases chars@.len() - i,
    {
        match digit(chars[i], 16) {
            None => {
                return None;
            },
            Some(high) => match digit(chars[i + 1], 16) {
                None => {
                    return None;
                },
                Some(low) => {
                    out.push((high * 16 + low) as u8);
                },
            },
        }
        i = i + 2;
    }
    proof {
        assert(out@ == paired_bytes(s@));
    }
    Some(out)
}

/// The text without one leading `0x`.
fn strip_0x(s: &str) -> (r: &str)
    ensures
        r@ == without_0x(s@),
{
    proof {
        reveal_strlit("0x");
    }
    match strip_prefix(s, "0x") {
        Some(t) => t,
        None => s,
    }
}

/// The bytes of a row of values that are numbers up to 255, from `i` on.
pub open spec fn byte_items(v: Seq<YamlModel>, i: int) -> Option<Seq<u8>>
    decreases v.len() - i,
{
    if i < 0 || i >= v.len() {
        Some(Seq::empty())
    } else {
        match unsigned_of(v[i]) {
            Some(n) => if n > 255 {
                None
            } else {
                match byte_items(v, i + 1) {
                    Some(rest) => Some(seq![n as u8] + rest),
                    None => None,
                }
            },
            None => None,
        }
    }
}

/// The bytes that a literal stands for: an even number of hexadecimal digits, a text that is to be
/// UTF-8, a number of an integer encoding, or a row of bytes.
pub open spec fn literal_bytes(v: YamlModel, e: Option<Encoding>) -> Option<Seq<u8>> {
    match v {
        YamlModel::Text(s) => match digit_pairs(without_0x(trimmed(s))) {
            Some(b) => Some(b),
            None => if e == Some(Encoding::Utf8) || e == Some(Encoding::Utf8Cstring) {
                Some(encode_utf8(s))
            } else {
                None
            },
        },
        YamlModel::Unsigned(n) => match e {
            Some(e) => encoded(n, e),
            None => None,
        },
        YamlModel::Sequence(items) => byte_items(items, 0),
        _ => None,
    }
}

/// Best-effort decode of a YAML literal value into bytes; `None` for shapes outside that coverage.
pub fn yaml_literal_to_bytes(v: &Yaml, encoding: Option<Encoding>) -> (r: Option<Vec<u8>>)
    ensures
        literal_bytes(v@, encoding) == match r {
            Some(b) => Some(b@),
            None => None,
        },
{
    match v {
        Yaml::String(s) => {
            match read_pairs(strip_0x(trim(s.as_str()))) {
                Some(b) => {
                    return Some(b);
                },
                None => {},
            }
            match encoding {
                Some(Encoding::Utf8) => Some(copy_bytes(s.as_str().as_bytes())),
                Some(Encoding::Utf8Cstring) => Some(copy_bytes(s.as_str().as_bytes())),
                _ => None,
            }
        },
        Yaml::Number(YamlNumber::Unsigned(n)) => match encoding {
            Some(e) => encode_uint(*n, e),
            None => None,
        },
        Yaml::Sequence(items) => {
            proof {
                sequence_view(*items);
            }
            let ghost all = item_models(items@);
            let mut out: Vec<u8> = Vec::new();
            let mut i: usize = 0;
            while i < items.len()
                invariant
                    v@ == YamlModel::Sequence(all),
                    all == item_models(items@),
                    i <= items@.len(),
                    byte_items(all, 0) == (match byte_items(all, i as int) {
                        Some(rest) => Some(out@ + rest),
                        None => None,
                    }),
                decreases items@.len() - i,
            {
                proof {
                    assert(all[i as int] == items@[i as int]@);
                }
                match as_unsigned(&items[i]) {
                    Some(n) => {
                        if n > 255 {
                            return None;
                        }
                        let ghost before = out@;
                        out.push(n as u8);
                        proof {
                            if byte_items(all, i + 1) is Some {
                                let rest = byte_items(all, i + 1)->0;
                                assert(before + (seq![n as u8] + rest) == out@ + rest);
                            }
                        }
                    },
                    None => {
                        return None;
                    },
                }
                i = i + 1;
            }
            proof {
                assert(out@ + Seq::<u8>::empty() == out@);
            }
            Some(out)
        },
        _ => None,
    }
}

/// The bytes that a scope text stands for. Without an encoding, or with one of bytes, an even
/// number of hexadecimal digits is decoded and anything else is UTF-8.
pub open spec fn scope_bytes(s: Seq<char>, e: Option<Encoding>) -> Option<Seq<u8>> {
    let hexadecimal = match digit_pairs(without_0x(s)) {
        Some(b) => if without_0x(s).len() > 0 {
            b
        } else {
            encode_utf8(s)
        },
        None => encode_utf8(s),
    };
    match e {
        None => Some(hexadecimal),
        Some(Encoding::Utf8) | Some(Encoding::Utf8Cstring) | Some(Encoding::Ascii) => Some(
            encode_utf8(s),
        ),
        Some(Encoding::Bytes) | Some(Encoding::BytesRaw) | Some(Encoding::BytesLe) | Some(
            Encoding::BytesBe,
        ) => Some(hexadecimal),
        Some(e) => match integer_width(e) {
            Some((n, big)) => match unsigned_value(s, 10, byte_range(n) - 1) {
                Some(v) => Some(integer_bytes(v, n, big)),
                None => None,
            },
            None => None,
        },
    }
}

/// The bytes that a text without an integer or text encoding stands for.
fn read_hexadecimal(value: &str) -> (r: Vec<u8>)
    ensures
        scope_bytes(value@, None) == Some(r@),
{
    let payload = strip_0x(value);
    match read_pairs(payload) {
        Some(b) => if payload.unicode_len() > 0 {
            b
        } else {
            copy_bytes(value.as_bytes())
        },
        None => copy_bytes(value.as_bytes()),
    }
}

/// Converts a scope text back into wire bytes.
pub fn scope_string_to_bytes(value: &str, encoding: Option<Encoding>) -> (r: Option<Vec<u8>>)
    ensures
        scope_bytes(value@, encoding) == match r {
            Some(b) => Some(b@),
            None => None,
        },
{
    match encoding {
        None => Some(read_hexadecimal(value)),
        Some(e) => match e {
            Encoding::Utf8 | Encoding::Utf8Cstring | Encoding::Ascii => Some(
                copy_bytes(value.as_bytes()),
            ),
            Encoding::Bytes | Encoding::BytesRaw | Encoding::BytesLe | Encoding::BytesBe => Some(
                read_hexadecimal(value),
            ),
            _ => match width_of(e) {
                Some((n, big)) => {
                    let max: u128 = if n == 1 {
                        0xff
                    } else if n == 2 {
                        0xffff
                    } else {
                        0xffff_ffff
                    };
                    proof {
                        reveal_with_fuel(byte_range, 5);
                        assert(max == byte_range(n as nat) - 1);
                    }
                    match parse_unsigned(value, 10, max) {
                        Some(v) => Some(write_integer(v as u64, n, big)),
                        None => None,
                    }
                },
                None => None,
            },
        },
    }
}

/// The character in lower case, where it is an ASCII letter.
pub open spec fn ascii_lower(c: char) -> char {
    if 'A' <= c && c <= 'Z' {
        (c as int + 32) as char
    } else {
        c
    }
}

/// Whether two texts are the same but for the case of ASCII letters.
pub open spec fn same_but_case(a: Seq<char>, b: Seq<char>) -> bool {
    a.len() == b.len() && forall|i: int|
        0 <= i < a.len() ==> ascii_lower(#[trigger] a[i]) == ascii_lower(b[i])
}

/// The character in lower case, where it is an ASCII letter.
fn lower(c: char) -> (r: char)
    ensures
        r == ascii_lower(c),
{
    if 'A' <= c && c <= 'Z' {
        (c as u8 + 32) as char
    } else {
        c
    }
}

/// Whether two texts are the same but for the case of ASCII letters.
fn equal_but_case(a: &str, b: &str) -> (r: bool)
    ensures
        r == same_but_case(a@, b@),
{
    let x = chars_of(a);
    let y = chars_of(b);
    if x.len() != y.len() {
        return false;
    }
    let mut i: usize = 0;
    while i < x.len()
        invariant
            x@ == a@,
            y@ == b@,
            x@.len() == y@.len(),
            i <= x@.len(),
            forall|k: int| 0 <= k < i ==> ascii_lower(#[trigger] a@[k]) == ascii_lower(b@[k]),
        decreases x@.len() - i,
    {
        if lower(x[i]) != lower(y[i]) {
            proof {
                assert(ascii_lower(a@[i as int]) != ascii_lower(b@[i as int]));
            }
            return false;
        }
        i = i + 1;
    }
    true
}

/// Whether a text stands in another at an index.
pub open spec fn stands_at(s: Seq<char>, part: Seq<char>, i: int) -> bool {
    0 <= i && i + part.len() <= s.len() && s.subrange(i, i + part.len()) == part
}

/// Whether a text stands in another.
pub open spec fn holds_part(s: Seq<char>, part: Seq<char>) -> bool {
    exists|i: int| #[trigger] stands_at(s, part, i)
}

/// Whether a text stands in another.
fn contains_part(s: &str, part: &str) -> (r: bool)
    ensures
        r == holds_part(s@, part@),
{
    let n: usize = s.unicode_len();
    let m: usize = part.unicode_len();
    if m > n {
        proof {
            assert forall|i: int| !#[trigger] stands_at(s@, part@, i) by {}
        }
        return false;
    }
    if m == 0 {
        proof {
            assert(s@.subrange(0, 0) == part@);
            assert(stands_at(s@, part@, 0));
        }
        return true;
    }
    let mut i: usize = 0;
    while i <= n - m
        invariant
            n == s@.len(),
            m == part@.len(),
            0 < m <= n,
            i <= n - m + 1,
            forall|k: int| 0 <= k < i ==> !#[trigger] stands_at(s@, part@, k),
        decreases n - m + 1 - i,
    {
        if same(s.substring_char(i, i + m), part) {
            proof {
                assert(stands_at(s@, part@, i as int));
            }
            return true;
        }
        i = i + 1;
    }
    false
}

/// The fewest bytes that hold a mask.
pub open spec fn mask_width(mask: u64) -> nat
    decreases mask,
{
    if mask < 256 {
        1
    } else {
        1 + mask_width(mask / 256)
    }
}

/// The fewest bytes that hold a mask.
fn width_of_mask(mask: u64) -> (r: usize)
    ensures
        r == mask_width(mask),
        1 <= r <= 8,
{
    proof {
        reveal_with_fuel(mask_width, 9);
    }
    if mask < 0x100 {
        1
    } else if mask < 0x1_0000 {
        2
    } else if mask < 0x100_0000 {
        3
    } else if mask < 0x1_0000_0000 {
        4
    } else if mask < 0x100_0000_0000 {
        5
    } else if mask < 0x1_0000_0000_0000 {
        6
    } else if mask < 0x100_0000_0000_0000 {
        7
    } else {
        8
    }
}

/// Whether the bits of a payload under a mask are what is asserted. A payload that is too short is
/// not.
pub open spec fn bits_hold(b: Seq<u8>, offset: usize, mask: u64, equals: u64) -> bool {
    let n = mask_width(mask) as int;
    offset + n <= b.len() && (le_value(b.subrange(offset as int, offset + n)) as u64) & mask
        == equals
}

/// Whether a payload meets constraints on its bytes.
pub open spec fn payload_met(p: PayloadPredicate, b: Seq<u8>) -> bool {
    &&& p.length matches Some(n) ==> b.len() == n
    &&& p.min_length matches Some(n) ==> b.len() >= n
    &&& forall|i: int|
        0 <= i < p.assert_byte@.len() ==> {
            let a = #[trigger] p.assert_byte@[i];
            a.index < b.len() && b[a.index as int] == a.equals
        }
    &&& forall|i: int|
        0 <= i < p.assert_bits@.len() ==> {
            let a = #[trigger] p.assert_bits@[i];
            bits_hold(b, a.offset, a.mask, a.equals)
        }
}

/// Whether a payload meets constraints on its bytes.
pub fn payload_holds(p: &PayloadPredicate, bytes: &[u8]) -> (r: bool)
    ensures
        r == payload_met(*p, bytes@),
{
    match p.length {
        Some(n) => {
            if bytes.len() != n {
                return false;
            }
        },
        None => {},
    }
    match p.min_length {
        Some(n) => {
            if bytes.len() < n {
                return false;
            }
        },
        None => {},
    }
    let mut i: usize = 0;
    while i < p.assert_byte.len()
        invariant
            i <= p.assert_byte@.len(),
            forall|k: int|
                0 <= k < i ==> {
                    let a = #[trigger] p.assert_byte@[k];
                    a.index < bytes@.len() && bytes@[a.index as int] == a.equals
                },
        decreases p.assert_byte@.len() - i,
    {
        let a = &p.assert_byte[i];
        if a.index >= bytes.len() || bytes[a.index] != a.equals {
            proof {
                let x = p.assert_byte@[i as int];
                assert(!(x.index < bytes@.len() && bytes@[x.index as int] == x.equals));
            }
            return false;
        }
        i = i + 1;
    }
    let mut k: usize = 0;
    while k < p.assert_bits.len()
        invariant
            k <= p.assert_bits@.len(),
            forall|j: int|
                0 <= j < k ==> {
                    let a = #[trigger] p.assert_bits@[j];
                    bits_hold(bytes@, a.offset, a.mask, a.equals)
                },
        decreases p.assert_bits@.len() - k,
    {
        let a = &p.assert_bits[k];
        let n: usize = width_of_mask(a.mask);
        let mut there = false;
        if bytes.len() >= n && a.offset <= bytes.len() - n {
            let part = vstd::slice::slice_subrange(bytes, a.offset, a.offset + n);
            there = read_le(part) & a.mask == a.equals;
        }
        if !there {
            proof {
                let x = p.assert_bits@[k as int];
                assert(!bits_hold(bytes@, x.offset, x.mask, x.equals));
            }
            return false;
        }
        k = k + 1;
    }
    true
}

/// Whether a local name is what the predicate asks for.
pub open spec fn name_met(p: LocalNamePredicate, name: Option<String>) -> bool {
    match name {
        None => false,
        Some(n) => match (p.equals, p.prefix, p.contains) {
            (Some(want), _, _) => n@ == want@,
            (None, Some(want), _) => has_prefix(n@, want@),
            (None, None, Some(want)) => holds_part(n@, want@),
            (None, None, None) => false,
        },
    }
}

/// Whether a local name is what the predicate asks for.
fn name_holds(p: &LocalNamePredicate, name: &Option<String>) -> (r: bool)
    ensures
        r == name_met(*p, *name),
{
    match name {
        None => false,
        Some(n) => {
            match &p.equals {
                Some(want) => {
                    return same(n.as_str(), want.as_str());
                },
                None => {},
            }
            match &p.prefix {
                Some(want) => {
                    return starts_with(n.as_str(), want.as_str());
                },
                None => {},
            }
            match &p.contains {
                Some(want) => contains_part(n.as_str(), want.as_str()),
                None => false,
            }
        },
    }
}

/// Whether one of the service UUIDs is the one that is asked for.
pub open spec fn uuid_listed(v: Seq<String>, uuid: Seq<char>) -> bool {
    exists|i: int| 0 <= i < v.len() && same_but_case((#[trigger] v[i])@, uuid)
}

/// Whether one of the payloads of a service meets the constraints.
pub open spec fn service_met(
    v: Seq<(String, Vec<u8>)>,
    uuid: Seq<char>,
    p: PayloadPredicate,
) -> bool {
    exists|i: int|
        0 <= i < v.len() && same_but_case((#[trigger] v[i]).0@, uuid) && payload_met(p, v[i].1@)
}

/// Whether one of the payloads of an AD type meets the constraints.
pub open spec fn record_met(v: Seq<(u8, Vec<u8>)>, ad_type: u8, p: PayloadPredicate) -> bool {
    exists|i: int| 0 <= i < v.len() && (#[trigger] v[i]).0 == ad_type && payload_met(p, v[i].1@)
}

/// Whether an advertisement meets a predicate. A predicate on a fact that is absent is not met.
pub open spec fn advert_met(p: AdvertPredicate, f: BleAdvertFacts) -> bool
    decreases p,
{
    match p {
        AdvertPredicate::All(v) => forall|i: int|
            0 <= i < v@.len() ==> advert_met(#[trigger] v@[i], f),
        AdvertPredicate::Any(v) => exists|i: int|
            0 <= i < v@.len() && advert_met(#[trigger] v@[i], f),
        AdvertPredicate::Not(inner) => !advert_met(*inner, f),
        AdvertPredicate::ManufacturerData(m) => match f.manufacturer_data {
            None => false,
            Some((company, payload)) => (m.company_id matches Some(want) ==> want == company)
                && payload_met(m.payload, payload@),
        },
        AdvertPredicate::ServiceUuids { contains } => uuid_listed(f.service_uuids@, contains@),
        AdvertPredicate::ServiceData { uuid, payload } => service_met(
            f.service_data@,
            uuid@,
            payload,
        ),
        AdvertPredicate::LocalName(n) => name_met(n, f.local_name),
        AdvertPredicate::TxPower { min, max } => match f.tx_power {
            None => false,
            Some(p) => (min matches Some(lo) ==> p >= lo) && (max matches Some(hi) ==> p <= hi),
        },
        AdvertPredicate::RawAdRecord { ad_type, payload } => record_met(
            f.ad_records@,
            ad_type,
            payload,
        ),
    }
}

/// A negated predicate is met exactly where the predicate is not.
pub proof fn negation_inverts(p: AdvertPredicate, f: BleAdvertFacts)
    ensures
        advert_met(AdvertPredicate::Not(Box::new(p)), f) == !advert_met(p, f),
{
    reveal_with_fuel(advert_met, 2);
}

/// `all` is met exactly where every child is, and `any` exactly where one is.
pub proof fn combinators_range_over_children(v: Vec<AdvertPredicate>, f: BleAdvertFacts)
    ensures
        advert_met(AdvertPredicate::All(v), f) == forall|i: int|
            0 <= i < v@.len() ==> advert_met(#[trigger] v@[i], f),
        advert_met(AdvertPredicate::Any(v), f) == exists|i: int|
            0 <= i < v@.len() && advert_met(#[trigger] v@[i], f),
{
    let all = AdvertPredicate::All(v);
    let any = AdvertPredicate::Any(v);
    assert(all->All_0 == v && any->Any_0 == v);
    reveal_with_fuel(advert_met, 2);
}

/// A predicate on a fact that the advertisement lacks is not met, whatever it asks for.
pub proof fn absent_facts_meet_nothing(
    f: BleAdvertFacts,
    m: MfgDataPredicate,
    n: LocalNamePredicate,
    min: Option<i8>,
    max: Option<i8>,
    text: String,
    ad_type: u8,
    payload: PayloadPredicate,
)
    ensures
        f.manufacturer_data is None ==> !advert_met(AdvertPredicate::ManufacturerData(m), f),
        f.local_name is None ==> !advert_met(AdvertPredicate::LocalName(n), f),
        f.tx_power is None ==> !advert_met(AdvertPredicate::TxPower { min, max }, f),
        f.service_uuids@.len() == 0 ==> !advert_met(
            AdvertPredicate::ServiceUuids { contains: text },
            f,
        ),
        f.service_data@.len() == 0 ==> !advert_met(
            AdvertPredicate::ServiceData { uuid: text, payload },
            f,
        ),
        f.ad_records@.len() == 0 ==> !advert_met(
            AdvertPredicate::RawAdRecord { ad_type, payload },
            f,
        ),
{
}

/// Any entry can meet a predicate on a service or on an AD type, not only the first. The case of the
/// ASCII letters of a UUID does not count.
pub proof fn any_entry_can_meet(
    f: BleAdvertFacts,
    text: String,
    ad_type: u8,
    payload: PayloadPredicate,
)
    ensures
        advert_met(AdvertPredicate::ServiceUuids { contains: text }, f) == exists|i: int|
            0 <= i < f.service_uuids@.len() && same_but_case(
                (#[trigger] f.service_uuids@[i])@,
                text@,
            ),
        advert_met(AdvertPredicate::ServiceData { uuid: text, payload }, f) == exists|i: int|
            0 <= i < f.service_data@.len() && same_but_case(
                (#[trigger] f.service_data@[i]).0@,
                text@,
            ) && payload_met(payload, f.service_data@[i].1@),
        advert_met(AdvertPredicate::RawAdRecord { ad_type, payload }, f) == exists|i: int|
            0 <= i < f.ad_records@.len() && (#[trigger] f.ad_records@[i]).0 == ad_type
                && payload_met(payload, f.ad_records@[i].1@),
{
}

/// Both bounds on the transmit power are inclusive, and a bound that is not given does not count.
pub proof fn power_bounds_are_inclusive(
    f: BleAdvertFacts,
    power: i8,
    min: Option<i8>,
    max: Option<i8>,
)
    requires
        f.tx_power == Some(power),
    ensures
        advert_met(AdvertPredicate::TxPower { min, max }, f) == ((min matches Some(lo) ==> lo
            <= power) && (max matches Some(hi) ==> power <= hi)),
{
}

/// Whether an advertisement meets a predicate.
pub fn eval_predicate(p: &AdvertPredicate, facts: &BleAdvertFacts) -> (r: bool)
    ensures
        r == advert_met(*p, *facts),
    decreases p,
{
    match p {
        AdvertPredicate::All(v) => {
            let mut i: usize = 0;
            while i < v.len()
                invariant
                    *p == AdvertPredicate::All(*v),
                    i <= v@.len(),
                    forall|k: int| 0 <= k < i ==> advert_met(#[trigger] v@[k], *facts),
                decreases v@.len() - i,
            {
                proof {
                    assert(decreases_to!(*p => p->All_0));
                    assert(decreases_to!(v@ => v@[i as int]));
                }
                if !eval_predicate(&v[i], facts) {
                    proof {
                        assert(!advert_met(v@[i as int], *facts));
                    }
                    return false;
                }
                i = i + 1;
            }
            true
        },
        AdvertPredicate::Any(v) => {
            let mut i: usize = 0;
            while i < v.len()
                invariant
                    *p == AdvertPredicate::Any(*v),
                    i <= v@.len(),
                    forall|k: int| 0 <= k < i ==> !advert_met(#[trigger] v@[k], *facts),
                decreases v@.len() - i,
            {
                proof {
                    assert(decreases_to!(*p => p->Any_0));
                    assert(decreases_to!(v@ => v@[i as int]));
                }
                if eval_predicate(&v[i], facts) {
                    proof {
                        assert(advert_met(v@[i as int], *facts));
                    }
                    return true;
                }
                i = i + 1;
            }
            false
        },
        AdvertPredicate::Not(inner) => !eval_predicate(inner, facts),
        AdvertPredicate::ManufacturerData(m) => match &facts.manufacturer_data {
            None => false,
            Some((company, payload)) => {
                match m.company_id {
                    Some(want) => {
                        if want != *company {
                            return false;
                        }
                    },
                    None => {},
                }
                payload_holds(&m.payload, payload.as_slice())
            },
        },
        AdvertPredicate::ServiceUuids { contains } => {
            let mut i: usize = 0;
            while i < facts.service_uuids.len()
                invariant
                    *p == (AdvertPredicate::ServiceUuids { contains: *contains }),
                    i <= facts.service_uuids@.len(),
                    forall|k: int|
                        0 <= k < i ==> !same_but_case(
                            (#[trigger] facts.service_uuids@[k])@,
                            contains@,
                        ),
                decreases facts.service_uuids@.len() - i,
            {
                if equal_but_case(facts.service_uuids[i].as_str(), contains.as_str()) {
                    proof {
                        assert(same_but_case(facts.service_uuids@[i as int]@, contains@));
                    }
                    return true;
                }
                i = i + 1;
            }
            false
        },
        AdvertPredicate::ServiceData { uuid, payload } => {
            let mut i: usize = 0;
            while i < facts.service_data.len()
                invariant
                    *p == (AdvertPredicate::ServiceData { uuid: *uuid, payload: *payload }),
                    i <= facts.service_data@.len(),
                    forall|k: int|
                        0 <= k < i ==> !(same_but_case(
                            (#[trigger] facts.service_data@[k]).0@,
                            uuid@,
                        ) && payload_met(*payload, facts.service_data@[k].1@)),
                decreases facts.service_data@.len() - i,
            {
                if equal_but_case(facts.service_data[i].0.as_str(), uuid.as_str())
                    && payload_holds(payload, facts.service_data[i].1.as_slice()) {
                    proof {
                        assert(same_but_case(facts.service_data@[i as int].0@, uuid@));
                    }
                    return true;
                }
                i = i + 1;
            }
            false
        },
        AdvertPredicate::LocalName(n) => name_holds(n, &facts.local_name),
        AdvertPredicate::TxPower { min, max } => match facts.tx_power {
            None => false,
            Some(power) => {
                let above = match min {
                    Some(lo) => power >= *lo,
                    None => true,
                };
                let below = match max {
                    Some(hi) => power <= *hi,
                    None => true,
                };
                above && below
            },
        },
        AdvertPredicate::RawAdRecord { ad_type, payload } => {
            let mut i: usize = 0;
            while i < facts.ad_records.len()
                invariant
                    *p == (AdvertPredicate::RawAdRecord { ad_type: *ad_type, payload: *payload }),
                    i <= facts.ad_records@.len(),
                    forall|k: int|
                        0 <= k < i ==> !((#[trigger] facts.ad_records@[k]).0 == *ad_type
                            && payload_met(*payload, facts.ad_records@[k].1@)),
                decreases facts.ad_records@.len() - i,
            {
                if facts.ad_records[i].0 == *ad_type && payload_holds(
                    payload,
                    facts.ad_records[i].1.as_slice(),
                ) {
                    proof {
                        assert(facts.ad_records@[i as int].0 == *ad_type);
                    }
                    return true;
                }
                i = i + 1;
            }
            false
        },
    }
}

/// Whether an advertisement matches a signature.
pub fn advert_matches(sig: &BleAdvertSignature, facts: &BleAdvertFacts) -> (r: bool)
    ensures
        r == advert_met(sig.require, *facts),
{
    eval_predicate(&sig.require, facts)
}

/// The first payload of a service, at `i` or after it.
pub open spec fn service_payload(v: Seq<(String, Vec<u8>)>, uuid: Seq<char>, i: int) -> Option<
    Seq<u8>,
>
    decreases v.len() - i,
{
    if i < 0 || i >= v.len() {
        None
    } else if same_but_case(v[i].0@, uuid) {
        Some(v[i].1@)
    } else {
        service_payload(v, uuid, i + 1)
    }
}

/// The first payload of an AD type, at `i` or after it.
pub open spec fn record_payload(v: Seq<(u8, Vec<u8>)>, ad_type: u8, i: int) -> Option<Seq<u8>>
    decreases v.len() - i,
{
    if i < 0 || i >= v.len() {
        None
    } else if v[i].0 == ad_type {
        Some(v[i].1@)
    } else {
        record_payload(v, ad_type, i + 1)
    }
}

/// The bytes that a capture reads.
pub open spec fn source_bytes(s: AdvertByteSource, f: BleAdvertFacts) -> Option<Seq<u8>> {
    match s {
        AdvertByteSource::ManufacturerData => match f.manufacturer_data {
            Some((_, payload)) => Some(payload@),
            None => None,
        },
        AdvertByteSource::RawAdRecord { ad_type } => record_payload(f.ad_records@, ad_type, 0),
        AdvertByteSource::ServiceData { uuid } => service_payload(f.service_data@, uuid@, 0),
        AdvertByteSource::LocalName => match f.local_name {
            Some(name) => Some(encode_utf8(name@)),
            None => None,
        },
    }
}

/// The value that a capture binds: source bytes, window, transforms, encoding. `None` where one of
/// them fails.
pub open spec fn captured(c: AdvertCapture, f: BleAdvertFacts) -> Option<Seq<char>> {
    match source_bytes(c.source, f) {
        None => None,
        Some(source) => match window_of(source, c.at as int, c.length) {
            None => None,
            Some(part) => match chained(part, c.transform@, 0) {
                None => None,
                Some(b) => decoded(b, c.encoding),
            },
        },
    }
}

/// A scope entry: its name and its value.
pub type ScopeEntry = (Seq<char>, Seq<char>);

/// The entries of a row.
pub open spec fn scope_entries(v: Seq<(String, String)>) -> Seq<ScopeEntry> {
    Seq::new(v.len(), |i: int| (v[i].0@, v[i].1@))
}

/// The entries `s` with those of the captures from `i` on behind them. A capture that fails is
/// skipped.
pub open spec fn with_captures(
    s: Seq<ScopeEntry>,
    c: Seq<AdvertCapture>,
    f: BleAdvertFacts,
    i: int,
) -> Seq<ScopeEntry>
    decreases c.len() - i,
{
    if i < 0 || i >= c.len() {
        s
    } else {
        match captured(c[i], f) {
            Some(v) => with_captures(s.push((c[i].name@, v)), c, f, i + 1),
            None => with_captures(s, c, f, i + 1),
        }
    }
}

/// The bytes that a capture reads.
fn capture_source_bytes<'a>(source: &AdvertByteSource, facts: &'a BleAdvertFacts) -> (r: Option<
    &'a [u8],
>)
    ensures
        source_bytes(*source, *facts) == match r {
            Some(b) => Some(b@),
            None => None,
        },
{
    match source {
        AdvertByteSource::ManufacturerData => match &facts.manufacturer_data {
            Some((_, payload)) => Some(payload.as_slice()),
            None => None,
        },
        AdvertByteSource::RawAdRecord { ad_type } => {
            let mut i: usize = 0;
            while i < facts.ad_records.len()
                invariant
                    *source == (AdvertByteSource::RawAdRecord { ad_type: *ad_type }),
                    i <= facts.ad_records@.len(),
                    record_payload(facts.ad_records@, *ad_type, 0) == record_payload(
                        facts.ad_records@,
                        *ad_type,
                        i as int,
                    ),
                decreases facts.ad_records@.len() - i,
            {
                if facts.ad_records[i].0 == *ad_type {
                    return Some(facts.ad_records[i].1.as_slice());
                }
                i = i + 1;
            }
            None
        },
        AdvertByteSource::ServiceData { uuid } => {
            let mut i: usize = 0;
            while i < facts.service_data.len()
                invariant
                    *source == (AdvertByteSource::ServiceData { uuid: *uuid }),
                    i <= facts.service_data@.len(),
                    service_payload(facts.service_data@, uuid@, 0) == service_payload(
                        facts.service_data@,
                        uuid@,
                        i as int,
                    ),
                decreases facts.service_data@.len() - i,
            {
                if equal_but_case(facts.service_data[i].0.as_str(), uuid.as_str()) {
                    return Some(facts.service_data[i].1.as_slice());
                }
                i = i + 1;
            }
            None
        },
        AdvertByteSource::LocalName => match &facts.local_name {
            Some(name) => Some(name.as_str().as_bytes()),
            None => None,
        },
    }
}

/// The value that a capture binds; `None` where it fails.
fn run_capture(c: &AdvertCapture, facts: &BleAdvertFacts) -> (r: Option<String>)
    ensures
        captured(*c, *facts) == match r {
            Some(s) => Some(s@),
            None => None,
        },
{
    match capture_source_bytes(&c.source, facts) {
        None => None,
        Some(source) => match window(source, c.at, c.length) {
            None => None,
            Some(part) => match apply_transforms(part.as_slice(), c.transform.as_slice()) {
                None => None,
                Some(b) => decode_bytes(b.as_slice(), c.encoding),
            },
        },
    }
}

/// Derives a matched signature's runtime-scope facts: the literal entries first, then the captures.
/// A capture that fails anywhere is skipped.
pub fn advert_scope(sig: &BleAdvertSignature, facts: &BleAdvertFacts) -> (r: Vec<(String, String)>)
    ensures
        scope_entries(r@) == with_captures(
            scope_entries(sig.scope.entries()),
            sig.capture@,
            *facts,
            0,
        ),
{
    let mut out: Vec<(String, String)> = Vec::new();
    let ghost literal = scope_entries(sig.scope.entries());
    let mut i: usize = 0;
    proof {
        assert(scope_entries(out@) == literal.take(0));
    }
    while i < sig.scope.len()
        invariant
            literal == scope_entries(sig.scope.entries()),
            i <= sig.scope.entries().len(),
            scope_entries(out@) == literal.take(i as int),
        decreases sig.scope.entries().len() - i,
    {
        let ghost before = out@;
        out.push((sig.scope.key_at(i).clone(), sig.scope.value_at(i).clone()));
        proof {
            assert(scope_entries(out@) == scope_entries(before).push(literal[i as int]));
            assert(literal.take(i + 1) == literal.take(i as int).push(literal[i as int]));
        }
        i = i + 1;
    }
    proof {
        assert(literal.take(sig.scope.entries().len() as int) == literal);
    }
    let mut k: usize = 0;
    while k < sig.capture.len()
        invariant
            k <= sig.capture@.len(),
            with_captures(literal, sig.capture@, *facts, 0) == with_captures(
                scope_entries(out@),
                sig.capture@,
                *facts,
                k as int,
            ),
        decreases sig.capture@.len() - k,
    {
        let c = &sig.capture[k];
        match run_capture(c, facts) {
            Some(value) => {
                let ghost before = out@;
                out.push((c.name.clone(), value));
                proof {
                    assert(scope_entries(out@) == scope_entries(before).push(
                        (c.name@, value@),
                    ));
                }
            },
            None => {},
        }
        k = k + 1;
    }
    out
}

/// The encoding that each advert capture decodes with, by capture name.
pub fn advert_capture_encodings(sig: &BleAdvertSignature) -> (r: Vec<(String, Encoding)>)
    ensures
        r@.len() == sig.capture@.len(),
        forall|i: int|
            0 <= i < r@.len() ==> (#[trigger] r@[i]).0@ == sig.capture@[i].name@ && r@[i].1
                == sig.capture@[i].encoding,
{
    let mut out: Vec<(String, Encoding)> = Vec::new();
    let mut i: usize = 0;
    while i < sig.capture.len()
        invariant
            i <= sig.capture@.len(),
            out@.len() == i,
            forall|k: int|
                0 <= k < i ==> (#[trigger] out@[k]).0@ == sig.capture@[k].name@ && out@[k].1
                    == sig.capture@[k].encoding,
        decreases sig.capture@.len() - i,
    {
        out.push((sig.capture[i].name.clone(), sig.capture[i].encoding));
        i = i + 1;
    }
    out
}

} // verus!
