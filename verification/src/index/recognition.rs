//! What it takes to recognise a camera by its advertisement, and what is read from it.

use crate::index::eval::{
    advert_met, bits_hold, byte_range, captured, chained, decoded, encoded, le_bytes,
    le_value, mask_width, payload_met, record_payload,
    same_but_case, service_payload, source_bytes, transformed, window_of,
    with_captures, BleAdvertFacts, ScopeEntry,
};
use crate::index::types::{
    AdvertByteSource, AdvertCapture, AdvertPredicate, Encoding, LocalNamePredicate,
    MfgDataPredicate, PayloadPredicate, Transform,
};
use crate::digest::hex_of;
use crate::text::decimal;
use vstd::prelude::*;
use vstd::utf8::{decode_utf8, encode_utf8, valid_utf8};

verus! {

/// A predicate on manufacturer data is met only by data of the company that it names, where it names
/// one, and only where the payload behind the company id meets the constraints.
pub proof fn manufacturer_data_is_of_the_company(
    m: MfgDataPredicate,
    f: BleAdvertFacts,
    company: u16,
    payload: Vec<u8>,
)
    requires
        f.manufacturer_data == Some((company, payload)),
    ensures
        advert_met(AdvertPredicate::ManufacturerData(m), f) <==> ((m.company_id is None
            || m.company_id == Some(company)) && payload_met(m.payload, payload@)),
        m.company_id is Some && m.company_id->0 != company ==> !advert_met(
            AdvertPredicate::ManufacturerData(m),
            f,
        ),
{
}

/// Every constraint on a payload counts: the exact length, the least length, each asserted byte and
/// each asserted group of bits.
pub proof fn every_payload_constraint_counts(p: PayloadPredicate, b: Seq<u8>)
    ensures
        payload_met(p, b) <==> {
            &&& p.length is None || b.len() == p.length->0
            &&& p.min_length is None || p.min_length->0 <= b.len()
            &&& forall|i: int|
                #![trigger p.assert_byte@[i]]
                0 <= i < p.assert_byte@.len() ==> p.assert_byte@[i].index < b.len()
                    && b[p.assert_byte@[i].index as int] == p.assert_byte@[i].equals
            &&& forall|i: int|
                #![trigger p.assert_bits@[i]]
                0 <= i < p.assert_bits@.len() ==> bits_hold(
                    b,
                    p.assert_bits@[i].offset,
                    p.assert_bits@[i].mask,
                    p.assert_bits@[i].equals,
                )
        },
{
}

/// A payload of more bytes than are constrained is met where the constraints are: bytes behind the
/// last asserted one do not count, unless the exact length is asked for.
pub proof fn further_bytes_do_not_count(p: PayloadPredicate, b: Seq<u8>, x: u8)
    requires
        p.length is None,
        payload_met(p, b),
    ensures
        payload_met(p, b.push(x)),
{
    let c = b.push(x);
    assert forall|i: int| 0 <= i < p.assert_bits@.len() implies {
        let a = #[trigger] p.assert_bits@[i];
        bits_hold(c, a.offset, a.mask, a.equals)
    } by {
        let a = p.assert_bits@[i];
        let n = mask_width(a.mask) as int;
        assert(bits_hold(b, a.offset, a.mask, a.equals));
        assert(c.subrange(a.offset as int, a.offset + n) == b.subrange(
            a.offset as int,
            a.offset + n,
        ));
    }
}

/// Bits under a mask of one byte are those of the byte at the offset, and bits under a mask of two
/// bytes those of the two bytes there, the lower one first. A payload that ends before is not met.
pub proof fn asserted_bits_are_little_endian(b: Seq<u8>, offset: usize, mask: u64, equals: u64)
    ensures
        mask < 0x100 ==> (bits_hold(b, offset, mask, equals) <==> offset < b.len() && (
        b[offset as int] as u64) & mask == equals),
        0x100 <= mask < 0x1_0000 ==> (bits_hold(b, offset, mask, equals) <==> offset + 1 < b.len()
            && ((b[offset as int] + 256 * b[offset + 1]) as u64) & mask == equals),
        bits_hold(b, offset, mask, equals) ==> offset < b.len(),
{
    reveal_with_fuel(mask_width, 3);
    reveal_with_fuel(le_value, 3);
    if mask < 0x100 && offset < b.len() {
        let w = b.subrange(offset as int, offset + 1);
        assert(w.drop_first() == Seq::<u8>::empty());
        assert(le_value(w) == b[offset as int]);
    }
    if 0x100 <= mask < 0x1_0000 {
        assert(mask_width(mask) == 2);
        if offset + 1 < b.len() {
            let w = b.subrange(offset as int, offset + 2);
            assert(w.drop_first().drop_first() == Seq::<u8>::empty());
            assert(w.drop_first()[0] == b[offset + 1]);
            assert(le_value(w) == b[offset as int] + 256 * b[offset + 1]);
        }
    }
}

/// A local name is compared with one text: the whole name where `equals` is given, else its
/// beginning where `prefix` is, else any part of it where `contains` is. A predicate that gives none
/// is not met.
pub proof fn local_name_is_compared(p: LocalNamePredicate, f: BleAdvertFacts, name: String)
    requires
        f.local_name == Some(name),
    ensures
        p.equals is Some ==> (advert_met(AdvertPredicate::LocalName(p), f) <==> name@
            == p.equals->0@),
        p.equals is None && p.prefix is Some ==> (advert_met(AdvertPredicate::LocalName(p), f)
            <==> exists|rest: Seq<char>| name@ == #[trigger] (p.prefix->0@ + rest)),
        p.equals is None && p.prefix is None && p.contains is Some ==> (advert_met(
            AdvertPredicate::LocalName(p),
            f,
        ) <==> exists|front: Seq<char>, rest: Seq<char>|
            name@ == #[trigger] (front + p.contains->0@ + rest)),
        p.equals is None && p.prefix is None && p.contains is None ==> !advert_met(
            AdvertPredicate::LocalName(p),
            f,
        ),
{
    let n = name@;
    if p.equals is None && p.prefix is Some {
        let w = p.prefix->0@;
        if w.len() <= n.len() && n.take(w.len() as int) == w {
            assert(n == w + n.skip(w.len() as int));
        }
        if exists|rest: Seq<char>| n == #[trigger] (w + rest) {
            let rest = choose|rest: Seq<char>| n == #[trigger] (w + rest);
            assert((w + rest).take(w.len() as int) == w);
        }
    }
    if p.equals is None && p.prefix is None && p.contains is Some {
        let w = p.contains->0@;
        if crate::index::eval::holds_part(n, w) {
            let i = choose|i: int| #[trigger] crate::index::eval::stands_at(n, w, i);
            assert(n == n.take(i) + w + n.skip(i + w.len()));
        }
        if exists|front: Seq<char>, rest: Seq<char>| n == #[trigger] (front + w + rest) {
            let (front, rest) = choose|front: Seq<char>, rest: Seq<char>|
                n == #[trigger] (front + w + rest);
            let i = front.len() as int;
            assert((front + w + rest).subrange(i, i + w.len()) == w);
            assert(crate::index::eval::stands_at(n, w, i));
        }
    }
}

/// Two UUIDs are the same where they have the same characters, but for the case of ASCII letters.
pub proof fn case_of_a_uuid_does_not_count(a: Seq<char>, b: Seq<char>)
    ensures
        same_but_case(a, b) <==> a.len() == b.len() && forall|i: int|
            0 <= i < a.len() ==> {
                ||| #[trigger] a[i] == b[i]
                ||| 'A' <= a[i] <= 'Z' && b[i] as int == a[i] as int + 32
                ||| 'A' <= b[i] <= 'Z' && a[i] as int == b[i] as int + 32
            },
{
    if same_but_case(a, b) {
        assert forall|i: int| 0 <= i < a.len() implies {
            ||| #[trigger] a[i] == b[i]
            ||| 'A' <= a[i] <= 'Z' && b[i] as int == a[i] as int + 32
            ||| 'A' <= b[i] <= 'Z' && a[i] as int == b[i] as int + 32
        } by {
            assert(crate::index::eval::ascii_lower(a[i]) == crate::index::eval::ascii_lower(b[i]));
        }
    }
}

/// A window is the bytes from `at` on, as many as are asked for, or all that are left. One that
/// reaches past the end is none.
pub proof fn window_is_where_it_says(b: Seq<u8>, at: int, length: Option<usize>)
    requires
        0 <= at,
    ensures
        window_of(b, at, length) is Some <==> at + (if length is Some {
            length->0 as int
        } else {
            0
        }) <= b.len(),
        window_of(b, at, length) matches Some(w) ==> {
            &&& w.len() == (if length is Some {
                length->0 as int
            } else {
                b.len() - at
            })
            &&& forall|i: int| 0 <= i < w.len() ==> #[trigger] w[i] == b[at + i]
        },
{
}

/// An integer transform needs one to eight bytes, and keeps their number; what it makes of them
/// writes the number that the operation gives, as far as it fits.
pub proof fn integer_transforms_compute(b: Seq<u8>, operand: u64, mask: u64, shift: u32)
    ensures
        transformed(b, Transform::BitOr(operand)) is Some <==> 0 < b.len() <= 8,
        transformed(b, Transform::BitAnd(operand)) is Some <==> 0 < b.len() <= 8,
        transformed(b, Transform::Bits { mask, shift }) is Some <==> 0 < b.len() <= 8 && shift < 64,
        0 < b.len() <= 8 ==> {
            &&& writes(
                transformed(b, Transform::BitOr(operand))->0,
                b.len(),
                ((le_value(b) as u64) | operand) as int,
            )
            &&& writes(
                transformed(b, Transform::BitAnd(operand))->0,
                b.len(),
                ((le_value(b) as u64) & operand) as int,
            )
            &&& shift < 64 ==> writes(
                transformed(b, Transform::Bits { mask, shift })->0,
                b.len(),
                (((le_value(b) as u64) & mask) >> shift) as int,
            )
        },
{
    if 0 < b.len() <= 8 {
        let v = le_value(b) as u64;
        low_bytes_written((v | operand) as int, b.len());
        low_bytes_written((v & operand) as int, b.len());
        low_bytes_written(((v & mask) >> shift) as int, b.len());
    }
}

/// Whether bytes are `n`, and write the low part of a number, the lowest byte first.
pub open spec fn writes(b: Seq<u8>, n: nat, v: int) -> bool {
    b.len() == n && le_value(b) == v % byte_range(n)
}

/// The low bytes of a number write its low part.
proof fn low_bytes_written(v: int, n: nat)
    requires
        v >= 0,
    ensures
        writes(le_bytes(v, n), n, v),
        byte_range(n) > 0,
    decreases n,
{
    if n > 0 {
        let m = (n - 1) as nat;
        low_bytes_written(v / 256, m);
        let b = le_bytes(v, n);
        let rest = le_bytes(v / 256, m);
        assert(b.drop_first() == rest);
        assert(b[0] == (v % 256) as u8);
        let r = byte_range(m);
        let q = v / 256;
        vstd::arithmetic::div_mod::lemma_mod_breakdown(v, 256, r);
        assert(v % (256 * r) == 256 * (q % r) + v % 256);
    } else {
        assert(v % 1 == 0);
    }
}

/// The number that little-endian bytes write counts each byte by its place.
pub proof fn bytes_count_by_their_place(b: Seq<u8>)
    ensures
        b.len() == 0 ==> le_value(b) == 0,
        b.len() == 1 ==> le_value(b) == b[0],
        b.len() == 2 ==> le_value(b) == b[0] + 0x100 * b[1],
        b.len() == 4 ==> le_value(b) == b[0] + 0x100 * b[1] + 0x1_0000 * b[2] + 0x100_0000 * b[3],
{
    reveal_with_fuel(le_value, 5);
    let c = b.drop_first();
    let d = c.drop_first();
    let e = d.drop_first();
    if b.len() >= 2 {
        assert(c[0] == b[1]);
    }
    if b.len() == 4 {
        assert(d[0] == b[2] && e[0] == b[3]);
    }
}

/// The transforms on bytes: what is dropped, reversed, ended and padded.
pub proof fn byte_transforms_place_bytes(
    b: Seq<u8>,
    n: usize,
    at: usize,
    length: Option<usize>,
    byte: u8,
)
    ensures
        transformed(b, Transform::DropPrefix(n)) == (if n <= b.len() {
            Some(b.skip(n as int))
        } else {
            None
        }),
        transformed(b, Transform::Slice { at, length }) == window_of(b, at as int, length),
        transformed(b, Transform::ReverseBytes) matches Some(r) && r.len() == b.len() && forall|
            i: int,
        |
            0 <= i < b.len() ==> #[trigger] r[i] == b[b.len() - 1 - i],
        transformed(b, Transform::AppendNul) == Some(b + seq![0u8]),
        transformed(b, Transform::PadRight { length: n, byte }) is Some <==> b.len() <= n <= 512,
        transformed(b, Transform::PadRight { length: n, byte }) matches Some(r) ==> r.len() == n
            && r.take(b.len() as int) == b && forall|i: int|
            b.len() <= i < n ==> #[trigger] r[i] == byte,
        transformed(b, Transform::UuidFromBytes) is Some <==> b.len() == 16,
{
    assert(b.subrange(n as int, b.len() as int) == b.skip(n as int) || n > b.len());
    assert(b.push(0) == b + seq![0u8]);
    if b.len() <= n <= 512 {
        let r = transformed(b, Transform::PadRight { length: n, byte })->0;
        assert(r.take(b.len() as int) == b);
    }
}

/// The ASCII of an upper-case hexadecimal digit.
pub open spec fn is_upper_hex(c: u8, nibble: int) -> bool {
    0 <= nibble < 16 && c as int == (if nibble < 10 {
        nibble + 48
    } else {
        nibble + 55
    })
}

/// The digits of bytes stand in pairs, the higher one first.
proof fn digits_stand_in_pairs(b: Seq<u8>)
    ensures
        crate::index::eval::upper_hex(b).len() == 2 * b.len(),
        forall|i: int|
            #![trigger b[i]]
            0 <= i < b.len() ==> is_upper_hex(
                crate::index::eval::upper_hex(b)[2 * i],
                b[i] as int / 16,
            ) && is_upper_hex(crate::index::eval::upper_hex(b)[2 * i + 1], b[i] as int % 16),
    decreases b.len(),
{
    if b.len() > 0 {
        let front = b.drop_last();
        digits_stand_in_pairs(front);
        assert forall|i: int| #![trigger b[i]] 0 <= i < b.len() implies is_upper_hex(
            crate::index::eval::upper_hex(b)[2 * i],
            b[i] as int / 16,
        ) && is_upper_hex(crate::index::eval::upper_hex(b)[2 * i + 1], b[i] as int % 16) by {
            if i < front.len() {
                assert(front[i] == b[i]);
            }
        }
    }
}

/// How many dashes stand before the digits of byte `i` in the text of a UUID.
pub open spec fn dashes_before(i: int) -> int {
    if i < 4 {
        0
    } else if i < 6 {
        1
    } else if i < 8 {
        2
    } else if i < 10 {
        3
    } else {
        4
    }
}

/// The text of a UUID has 36 characters: dashes at 8, 13, 18 and 23, and between them the two
/// upper-case digits of each byte, in the order of the bytes.
pub proof fn uuid_text_is_canonical(b: Seq<u8>)
    requires
        b.len() == 16,
    ensures
        transformed(b, Transform::UuidFromBytes) matches Some(r) && {
            &&& r.len() == 36
            &&& r[8] == 45 && r[13] == 45 && r[18] == 45 && r[23] == 45
            &&& forall|i: int|
                #![trigger b[i]]
                0 <= i < 16 ==> is_upper_hex(r[2 * i + dashes_before(i)], b[i] as int / 16)
                    && is_upper_hex(r[2 * i + dashes_before(i) + 1], b[i] as int % 16)
        },
{
    let r = transformed(b, Transform::UuidFromBytes)->0;
    digits_stand_in_pairs(b.subrange(0, 4));
    digits_stand_in_pairs(b.subrange(4, 6));
    digits_stand_in_pairs(b.subrange(6, 8));
    digits_stand_in_pairs(b.subrange(8, 10));
    digits_stand_in_pairs(b.subrange(10, 16));
    assert forall|i: int| #![trigger b[i]] 0 <= i < 16 implies is_upper_hex(
        r[2 * i + dashes_before(i)],
        b[i] as int / 16,
    ) && is_upper_hex(r[2 * i + dashes_before(i) + 1], b[i] as int % 16) by {
        if i < 4 {
            assert(b.subrange(0, 4)[i] == b[i]);
        } else if i < 6 {
            assert(b.subrange(4, 6)[i - 4] == b[i]);
        } else if i < 8 {
            assert(b.subrange(6, 8)[i - 6] == b[i]);
        } else if i < 10 {
            assert(b.subrange(8, 10)[i - 8] == b[i]);
        } else {
            assert(b.subrange(10, 16)[i - 10] == b[i]);
        }
    }
}

/// An integer encoding writes the low bytes of a number, as many as it has, the lowest first unless
/// it is big-endian. The others write no integer.
pub proof fn integers_are_written_in_their_order(v: u64)
    ensures
        encoded(v, Encoding::U8) == Some(seq![(v % 256) as u8]),
        encoded(v, Encoding::U16Le) == Some(seq![(v % 256) as u8, (v / 0x100 % 256) as u8]),
        encoded(v, Encoding::U16Be) == Some(seq![(v / 0x100 % 256) as u8, (v % 256) as u8]),
        encoded(v, Encoding::U32) == encoded(v, Encoding::U32Le),
        encoded(v, Encoding::U32Le) == Some(
            seq![
                (v % 256) as u8,
                (v / 0x100 % 256) as u8,
                (v / 0x1_0000 % 256) as u8,
                (v / 0x100_0000 % 256) as u8,
            ],
        ),
        encoded(v, Encoding::U32Be) == Some(
            seq![
                (v / 0x100_0000 % 256) as u8,
                (v / 0x1_0000 % 256) as u8,
                (v / 0x100 % 256) as u8,
                (v % 256) as u8,
            ],
        ),
        encoded(v, Encoding::Utf8) is None,
        encoded(v, Encoding::Utf8Cstring) is None,
        encoded(v, Encoding::Ascii) is None,
        encoded(v, Encoding::Bytes) is None,
        encoded(v, Encoding::BytesRaw) is None,
        encoded(v, Encoding::BytesLe) is None,
        encoded(v, Encoding::BytesBe) is None,
{
    reveal_with_fuel(le_bytes, 5);
    let n = v as int;
    assert(n / 256 / 256 == n / 0x1_0000);
    assert(n / 256 / 256 / 256 == n / 0x100_0000);
    assert(encoded(v, Encoding::U8)->0 =~= seq![(v % 256) as u8]);
    assert(encoded(v, Encoding::U16Le)->0 =~= seq![(v % 256) as u8, (v / 0x100 % 256) as u8]);
    assert(encoded(v, Encoding::U16Be)->0 =~= seq![(v / 0x100 % 256) as u8, (v % 256) as u8]);
    assert(encoded(v, Encoding::U32Le)->0 =~= seq![
        (v % 256) as u8,
        (v / 0x100 % 256) as u8,
        (v / 0x1_0000 % 256) as u8,
        (v / 0x100_0000 % 256) as u8,
    ]);
    assert(encoded(v, Encoding::U32Be)->0 =~= seq![
        (v / 0x100_0000 % 256) as u8,
        (v / 0x1_0000 % 256) as u8,
        (v / 0x100 % 256) as u8,
        (v % 256) as u8,
    ]);
}

/// What bytes are read as: text encodings read UTF-8, one of them up to the first NUL, and one of
/// them ASCII alone; byte encodings read hexadecimal digits; an integer encoding reads the decimal
/// text of its number, from bytes of its width and from no others.
pub proof fn bytes_are_read_by_their_encoding(b: Seq<u8>, n: int)
    ensures
        decoded(b, Encoding::Utf8) == (if valid_utf8(b) {
            Some(decode_utf8(b))
        } else {
            None
        }),
        decoded(b, Encoding::Ascii) == (if valid_utf8(b) && forall|i: int|
            0 <= i < b.len() ==> #[trigger] b[i] < 128 {
            Some(decode_utf8(b))
        } else {
            None
        }),
        0 <= n < b.len() && b[n] == 0 && (forall|i: int| 0 <= i < n ==> #[trigger] b[i] != 0)
            ==> decoded(b, Encoding::Utf8Cstring) == decoded(b.take(n), Encoding::Utf8),
        (forall|i: int| 0 <= i < b.len() ==> #[trigger] b[i] != 0) ==> decoded(
            b,
            Encoding::Utf8Cstring,
        ) == decoded(b, Encoding::Utf8),
        decoded(b, Encoding::Bytes) == Some(hex_of(b)),
        decoded(b, Encoding::BytesRaw) == Some(hex_of(b)),
        decoded(b, Encoding::BytesLe) == Some(hex_of(b)),
        decoded(b, Encoding::BytesBe) == Some(hex_of(b)),
        decoded(b, Encoding::U8) == (if b.len() == 1 {
            Some(decimal(b[0] as int))
        } else {
            None
        }),
        decoded(b, Encoding::U16Le) == (if b.len() == 2 {
            Some(decimal(b[0] + 0x100 * b[1]))
        } else {
            None
        }),
        decoded(b, Encoding::U16Be) == (if b.len() == 2 {
            Some(decimal(0x100 * b[0] + b[1]))
        } else {
            None
        }),
        decoded(b, Encoding::U32) == decoded(b, Encoding::U32Le),
        decoded(b, Encoding::U32Le) == (if b.len() == 4 {
            Some(decimal(b[0] + 0x100 * b[1] + 0x1_0000 * b[2] + 0x100_0000 * b[3]))
        } else {
            None
        }),
        decoded(b, Encoding::U32Be) == (if b.len() == 4 {
            Some(decimal(0x100_0000 * b[0] + 0x1_0000 * b[1] + 0x100 * b[2] + b[3]))
        } else {
            None
        }),
{
    bytes_count_by_their_place(b);
    bytes_count_by_their_place(b.reverse());
    if 0 <= n < b.len() && b[n] == 0 && (forall|i: int| 0 <= i < n ==> #[trigger] b[i] != 0) {
        first_nul(b, 0, n);
    }
    if forall|i: int| 0 <= i < b.len() ==> #[trigger] b[i] != 0 {
        first_nul(b, 0, b.len() as int);
        assert(b.take(b.len() as int) == b);
    }
}

/// The first NUL is the one that no other comes before.
proof fn first_nul(b: Seq<u8>, i: int, n: int)
    requires
        0 <= i <= n <= b.len(),
        n == b.len() || b[n] == 0,
        forall|k: int| i <= k < n ==> #[trigger] b[k] != 0,
    ensures
        crate::index::eval::nul_index(b, i) == n,
    decreases n - i,
{
    if i < n {
        assert(b[i] != 0);
        first_nul(b, i + 1, n);
    }
}

/// Where a capture reads its bytes: the payload behind the company id, the local name, or the first
/// payload of the service or the AD type. Without such a fact it reads nothing.
pub proof fn captures_read_the_first_payload(f: BleAdvertFacts, ad_type: u8, uuid: String, k: int)
    ensures
        source_bytes(AdvertByteSource::ManufacturerData, f) == (match f.manufacturer_data {
            Some(data) => Some(data.1@),
            None => None,
        }),
        source_bytes(AdvertByteSource::LocalName, f) == (match f.local_name {
            Some(name) => Some(encode_utf8(name@)),
            None => None,
        }),
        0 <= k < f.ad_records@.len() && f.ad_records@[k].0 == ad_type && (forall|i: int|
            0 <= i < k ==> (#[trigger] f.ad_records@[i]).0 != ad_type) ==> source_bytes(
            AdvertByteSource::RawAdRecord { ad_type },
            f,
        ) == Some(f.ad_records@[k].1@),
        (forall|i: int| 0 <= i < f.ad_records@.len() ==> (#[trigger] f.ad_records@[i]).0 != ad_type)
            ==> source_bytes(AdvertByteSource::RawAdRecord { ad_type }, f) is None,
        0 <= k < f.service_data@.len() && same_but_case(f.service_data@[k].0@, uuid@) && (forall|
            i: int,
        |
            0 <= i < k ==> !same_but_case((#[trigger] f.service_data@[i]).0@, uuid@))
            ==> source_bytes(AdvertByteSource::ServiceData { uuid }, f) == Some(
            f.service_data@[k].1@,
        ),
        (forall|i: int|
            0 <= i < f.service_data@.len() ==> !same_but_case(
                (#[trigger] f.service_data@[i]).0@,
                uuid@,
            )) ==> source_bytes(AdvertByteSource::ServiceData { uuid }, f) is None,
{
    let records = f.ad_records@;
    let services = f.service_data@;
    if 0 <= k < records.len() && records[k].0 == ad_type && (forall|i: int|
        0 <= i < k ==> (#[trigger] records[i]).0 != ad_type) {
        first_record(records, ad_type, 0, k);
    }
    if forall|i: int| 0 <= i < records.len() ==> (#[trigger] records[i]).0 != ad_type {
        first_record(records, ad_type, 0, records.len() as int);
    }
    if 0 <= k < services.len() && same_but_case(services[k].0@, uuid@) && (forall|i: int|
        0 <= i < k ==> !same_but_case((#[trigger] services[i]).0@, uuid@)) {
        first_service(services, uuid@, 0, k);
    }
    if forall|i: int|
        0 <= i < services.len() ==> !same_but_case((#[trigger] services[i]).0@, uuid@) {
        first_service(services, uuid@, 0, services.len() as int);
    }
}

/// The first payload of an AD type is the one that no other comes before.
proof fn first_record(v: Seq<(u8, Vec<u8>)>, ad_type: u8, i: int, n: int)
    requires
        0 <= i <= n <= v.len(),
        n == v.len() || v[n].0 == ad_type,
        forall|k: int| i <= k < n ==> (#[trigger] v[k]).0 != ad_type,
    ensures
        record_payload(v, ad_type, i) == (if n == v.len() {
            None
        } else {
            Some(v[n].1@)
        }),
    decreases n - i,
{
    if i < n {
        assert(v[i].0 != ad_type);
        first_record(v, ad_type, i + 1, n);
    }
}

/// The first payload of a service is the one that no other comes before.
proof fn first_service(v: Seq<(String, Vec<u8>)>, uuid: Seq<char>, i: int, n: int)
    requires
        0 <= i <= n <= v.len(),
        n == v.len() || same_but_case(v[n].0@, uuid),
        forall|k: int| i <= k < n ==> !same_but_case((#[trigger] v[k]).0@, uuid),
    ensures
        service_payload(v, uuid, i) == (if n == v.len() {
            None
        } else {
            Some(v[n].1@)
        }),
    decreases n - i,
{
    if i < n {
        assert(!same_but_case(v[i].0@, uuid));
        first_service(v, uuid, i + 1, n);
    }
}

/// The value of a capture is read from the window of its source, through its transforms, by its
/// encoding; it is none where one of them gives none.
pub proof fn captures_go_through_their_steps(
    c: AdvertCapture,
    f: BleAdvertFacts,
    source: Seq<u8>,
    part: Seq<u8>,
    b: Seq<u8>,
)
    ensures
        source_bytes(c.source, f) == Some(source) && window_of(source, c.at as int, c.length)
            == Some(part) && chained(part, c.transform@, 0) == Some(b) ==> captured(c, f)
            == decoded(b, c.encoding),
        captured(c, f) is Some ==> source_bytes(c.source, f) is Some && window_of(
            source_bytes(c.source, f)->0,
            c.at as int,
            c.length,
        ) is Some,
{
}

/// The scope of a match begins with the literal entries; behind them stands an entry for each capture
/// that has a value, under its name, in the order of the captures, and nothing else.
pub proof fn scope_lists_literals_and_captures(
    s: Seq<ScopeEntry>,
    c: Seq<AdvertCapture>,
    f: BleAdvertFacts,
    i: int,
)
    requires
        0 <= i <= c.len(),
    ensures
        s.is_prefix_of(with_captures(s, c, f, i)),
        forall|k: int|
            i <= k < c.len() && captured(#[trigger] c[k], f) is Some ==> with_captures(
                s,
                c,
                f,
                i,
            ).contains((c[k].name@, captured(c[k], f)->0)),
        forall|j: int|
            s.len() <= j < with_captures(s, c, f, i).len() ==> exists|k: int|
                i <= k < c.len() && captured(#[trigger] c[k], f) is Some && (
                #[trigger] with_captures(s, c, f, i)[j]) == (c[k].name@, captured(c[k], f)->0),
        forall|k: int|
            i <= k < c.len() && captured(#[trigger] c[k], f) is None ==> with_captures(s, c, f, i)
                == with_captures(s, c.remove(k), f, i),
    decreases c.len() - i,
{
    if i < c.len() {
        let t = match captured(c[i], f) {
            Some(v) => s.push((c[i].name@, v)),
            None => s,
        };
        scope_lists_literals_and_captures(t, c, f, i + 1);
        let all = with_captures(s, c, f, i);
        assert(all == with_captures(t, c, f, i + 1));
        assert forall|k: int| i <= k < c.len() && captured(#[trigger] c[k], f) is Some implies
            all.contains((c[k].name@, captured(c[k], f)->0)) by {
            if k == i {
                assert(t[s.len() as int] == (c[i].name@, captured(c[i], f)->0));
                assert(all[s.len() as int] == t[s.len() as int]);
            }
        }
        assert forall|j: int| s.len() <= j < all.len() implies exists|k: int|
            i <= k < c.len() && captured(#[trigger] c[k], f) is Some && (#[trigger] all[j]) == (
                c[k].name@,
                captured(c[k], f)->0,
            ) by {
            if j < t.len() {
                assert(all[j] == t[j]);
                assert(captured(c[i], f) is Some);
            } else {
                let k = choose|k: int|
                    i + 1 <= k < c.len() && captured(#[trigger] c[k], f) is Some && all[j] == (
                        c[k].name@,
                        captured(c[k], f)->0,
                    );
                assert(captured(c[k], f) is Some);
            }
        }
        assert forall|k: int| i <= k < c.len() && captured(#[trigger] c[k], f) is None implies all
            == with_captures(s, c.remove(k), f, i) by {
            if k == i {
                captures_behind(s, c, f, i, i);
            } else {
                assert(c.remove(k)[i] == c[i]);
            }
        }
    }
}

/// What the captures behind one that is removed bind does not change.
proof fn captures_behind(s: Seq<ScopeEntry>, c: Seq<AdvertCapture>, f: BleAdvertFacts, k: int, i: int)
    requires
        0 <= k <= i < c.len(),
    ensures
        with_captures(s, c, f, i + 1) == with_captures(s, c.remove(k), f, i),
    decreases c.len() - i,
{
    if i + 1 < c.len() {
        assert(c.remove(k)[i] == c[i + 1]);
        let t = match captured(c[i + 1], f) {
            Some(v) => s.push((c[i + 1].name@, v)),
            None => s,
        };
        captures_behind(t, c, f, k, i + 1);
    }
}

} // verus!
