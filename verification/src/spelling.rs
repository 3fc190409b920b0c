//! How numbers are written and read, and how texts are cut.

use crate::model::{hex_code, hex_u32, without_hex_prefix};
use crate::text::{
    all_digits, decimal, digit_char, digit_value, digits_of, digits_value, has_prefix, is_digit,
    is_white, joined, next_index, next_index_bounds, signed_value, split_from, split_text, text_lt,
    trimmed, unsigned_value, without_plus,
};
use vstd::prelude::*;

verus! {

/// A digit of a base up to sixteen has its value.
proof fn digit_reads_back(d: int)
    requires
        0 <= d < 16,
    ensures
        digit_value(digit_char(d)) == Some(d),
        digit_char(d) != '+',
        digit_char(d) != '-',
        !is_white(digit_char(d)),
{
    if d < 10 {
        assert(('0' as int + d) as char as int == '0' as int + d);
    } else {
        assert(('a' as int + d - 10) as char as int == 'a' as int + d - 10);
    }
}

/// The digits of a number write it.
proof fn digits_read_back(n: nat, radix: nat)
    requires
        2 <= radix <= 16,
    ensures
        digits_of(n, radix).len() > 0,
        all_digits(digits_of(n, radix), radix as int),
        digits_value(digits_of(n, radix), radix as int) == n,
        digits_of(n, radix)[0] != '+',
        digits_of(n, radix)[0] != '-',
    decreases n,
{
    let s = digits_of(n, radix);
    if n < radix {
        digit_reads_back(n as int);
        assert(s.drop_last() =~= Seq::<char>::empty());
        assert(digits_value(s.drop_last(), radix as int) == 0);
    } else {
        assert(n / radix < n) by (nonlinear_arith)
            requires
                n >= radix,
                radix >= 2,
        ;
        digits_read_back(n / radix, radix);
        let front = digits_of(n / radix, radix);
        let d = (n % radix) as int;
        digit_reads_back(d);
        assert(s == front.push(digit_char(d)));
        assert(s.drop_last() =~= front);
        assert(s.last() == digit_char(d));
        assert(n == (n / radix) * radix + n % radix) by (nonlinear_arith)
            requires
                radix >= 2,
        ;
        assert(digits_value(s, radix as int) == digits_value(front, radix as int) * (radix as int)
            + d);
        assert forall|i: int| 0 <= i < s.len() implies is_digit(#[trigger] s[i], radix as int) by {
            if i < front.len() {
                assert(s[i] == front[i]);
            }
        }
        assert(s[0] == front[0]);
    }
}

/// A number that is written is read as itself, in any base up to sixteen, where it is small enough.
pub proof fn written_numbers_read_back(n: nat, radix: nat, max: int)
    requires
        2 <= radix <= 16,
    ensures
        n <= max ==> unsigned_value(digits_of(n, radix), radix as int, max) == Some(n as int),
        n > max ==> unsigned_value(digits_of(n, radix), radix as int, max) is None,
{
    digits_read_back(n, radix);
}

/// A decimal text is read as the number that it writes, with its sign.
pub proof fn decimals_read_back(n: int, min: int, max: int)
    ensures
        min <= n <= max ==> signed_value(decimal(n), min, max) == Some(n),
        !(min <= n <= max) ==> signed_value(decimal(n), min, max) is None,
{
    if n < 0 {
        digits_read_back((-n) as nat, 10);
        let d = digits_of((-n) as nat, 10);
        assert(decimal(n).drop_first() =~= d);
    } else {
        digits_read_back(n as nat, 10);
    }
}

/// Numbers are written differently where they are different.
pub proof fn decimals_are_apart(a: int, b: int)
    ensures
        decimal(a) == decimal(b) ==> a == b,
{
    let low = if a < b {
        a
    } else {
        b
    };
    let high = if a < b {
        b
    } else {
        a
    };
    decimals_read_back(a, low, high);
    decimals_read_back(b, low, high);
}

/// The digits count by their place, and a letter as well as a capital.
pub proof fn digits_count_by_their_place(s: Seq<char>, c: char, radix: int)
    ensures
        digits_value(s.push(c), radix) == digits_value(s, radix) * radix + digit_value(c)->0,
        digits_value(Seq::<char>::empty(), radix) == 0,
        '0' <= c <= '9' ==> digit_value(c) == Some(c as int - '0' as int),
        'a' <= c <= 'z' ==> digit_value(c) == Some(c as int - 'a' as int + 10),
        'A' <= c <= 'Z' ==> digit_value(c) == Some(c as int - 'A' as int + 10),
        !('0' <= c <= '9') && !('a' <= c <= 'z') && !('A' <= c <= 'Z') ==> digit_value(c) is None,
{
    assert(s.push(c).drop_last() =~= s);
}

/// A text that holds anything but digits is no number, and neither is one without any.
pub proof fn only_digits_are_numbers(s: Seq<char>, radix: int, max: int, i: int)
    ensures
        s.len() == 0 ==> unsigned_value(s, radix, max) is None,
        0 < i < s.len() && !is_digit(s[i], radix) ==> unsigned_value(s, radix, max) is None,
        s.len() > 0 && s[0] != '+' && !is_digit(s[0], radix) ==> unsigned_value(s, radix, max)
            is None,
{
    if 0 < i < s.len() && !is_digit(s[i], radix) {
        let d = without_plus(s);
        if s[0] == '+' {
            assert(d[i - 1] == s[i]);
        }
    }
}

/// A code is its hexadecimal digits, with or without a `0x` or white space around, up to sixteen
/// bits; a value up to thirty-two.
pub proof fn codes_are_hexadecimal(s: Seq<char>, n: nat)
    requires
        without_hex_prefix(trimmed(s)) == digits_of(n, 16),
    ensures
        n <= 0xffff ==> hex_code(s) == Some(n as u16),
        n > 0xffff ==> hex_code(s) is None,
        n <= 0xffff_ffff ==> hex_u32(s) == Some(n as u32),
        n > 0xffff_ffff ==> hex_u32(s) is None,
{
    written_numbers_read_back(n, 16, 0xffff);
    written_numbers_read_back(n, 16, 0xffff_ffff);
}

/// White space at the ends of a text does not count; a text without any stays as it is.
pub proof fn white_space_around_does_not_count(s: Seq<char>, c: char)
    ensures
        is_white(c) ==> trimmed(seq![c] + s) == trimmed(s),
        s.len() > 0 && !is_white(s[0]) && !is_white(s.last()) ==> trimmed(s) == s,
        trimmed(s).len() > 0 ==> !is_white(trimmed(s)[0]) && !is_white(trimmed(s).last()),
        is_white(' '),
        'a' <= c <= 'z' || 'A' <= c <= 'Z' || '0' <= c <= '9' ==> !is_white(c),
    decreases s.len(),
{
    if is_white(c) {
        assert((seq![c] + s).drop_first() =~= s);
    }
    if s.len() > 0 && is_white(s[0]) {
        white_space_around_does_not_count(s.drop_first(), c);
    } else if s.len() > 0 && is_white(s.last()) {
        white_space_around_does_not_count(s.drop_last(), c);
    }
}

/// A text that holds something else than white space keeps it.
pub proof fn what_is_not_white_stays(s: Seq<char>, i: int)
    requires
        0 <= i < s.len(),
        !is_white(s[i]),
    ensures
        trimmed(s).contains(s[i]),
    decreases s.len(),
{
    if is_white(s[0]) {
        assert(s.drop_first()[i - 1] == s[i]);
        what_is_not_white_stays(s.drop_first(), i - 1);
    } else if is_white(s.last()) {
        assert(s.drop_last()[i] == s[i]);
        what_is_not_white_stays(s.drop_last(), i);
    }
}

/// A text begins with another where it goes on behind it.
pub proof fn prefixes_are_gone_on_behind(s: Seq<char>, p: Seq<char>, rest: Seq<char>)
    ensures
        has_prefix(p + rest, p),
        has_prefix(s, p) ==> s == p + s.skip(p.len() as int),
{
    assert((p + rest).take(p.len() as int) =~= p);
    if has_prefix(s, p) {
        assert(s =~= s.take(p.len() as int) + s.skip(p.len() as int));
    }
}

/// The parts of a text from a place on make it up again.
proof fn parts_from(s: Seq<char>, c: char, i: int)
    requires
        0 <= i <= s.len(),
    ensures
        split_from(s, c, i).len() > 0,
        pieces(split_from(s, c, i), c) == s.skip(i),
        forall|k: int, j: int|
            0 <= k < split_from(s, c, i).len() && 0 <= j < split_from(s, c, i)[k].len()
                ==> #[trigger] split_from(s, c, i)[k][j] != c,
    decreases s.len() - i,
{
    next_index_bounds(s, c, i);
    let j = next_index(s, c, i);
    let all = split_from(s, c, i);
    if j >= s.len() {
        assert(all =~= seq![s.subrange(i, s.len() as int)]);
        assert(s.subrange(i, s.len() as int) =~= s.skip(i));
        assert(pieces(all, c) =~= s.skip(i));
    } else {
        parts_from(s, c, j + 1);
        let rest = split_from(s, c, j + 1);
        assert(all == seq![s.subrange(i, j)] + rest);
        assert(all.drop_first() =~= rest);
        assert(all[0] == s.subrange(i, j));
        assert(s.skip(i) =~= s.subrange(i, j) + seq![c] + s.skip(j + 1));
        assert forall|k: int, x: int| 0 <= k < all.len() && 0 <= x < all[k].len() implies #[trigger] all[k][x]
            != c by {
            if k > 0 {
                assert(all[k] == rest[k - 1]);
                assert(rest[k - 1][x] != c);
            }
        }
    }
}

/// Parts with a separator between them.
pub open spec fn pieces(v: Seq<Seq<char>>, c: char) -> Seq<char>
    decreases v.len(),
{
    if v.len() == 0 {
        Seq::empty()
    } else if v.len() == 1 {
        v[0]
    } else {
        v[0] + seq![c] + pieces(v.drop_first(), c)
    }
}

/// The parts of a text hold no separator, and with separators between them they are the text.
pub proof fn parts_make_up_the_text(s: Seq<char>, c: char)
    ensures
        split_text(s, c).len() > 0,
        pieces(split_text(s, c), c) == s,
        forall|k: int, j: int|
            0 <= k < split_text(s, c).len() && 0 <= j < split_text(s, c)[k].len()
                ==> #[trigger] split_text(s, c)[k][j] != c,
{
    parts_from(s, c, 0);
    assert(s.skip(0) =~= s);
}

/// Joined texts stand one behind the other, with the separator between.
pub proof fn joined_texts_are_separated(parts: Seq<Seq<char>>, last: Seq<char>, sep: Seq<char>)
    ensures
        joined(Seq::empty(), sep).len() == 0,
        joined(seq![last], sep) == last,
        parts.len() > 0 ==> joined(parts.push(last), sep) == joined(parts, sep) + sep + last,
{
    assert(parts.push(last).drop_last() =~= parts);
}

/// Texts are ordered by the first character in which they differ, and a text stands before those
/// that go on behind it.
pub proof fn texts_are_ordered_by_characters(p: Seq<char>, a: char, b: char, s: Seq<char>, t: Seq<char>)
    ensures
        a != b ==> (text_lt(p + seq![a] + s, p + seq![b] + t) <==> (a as int) < (b as int)),
        text_lt(p, p + seq![a] + s),
        !text_lt(p + seq![a] + s, p),
    decreases p.len(),
{
    let x = p + seq![a] + s;
    let y = p + seq![b] + t;
    if p.len() == 0 {
        assert(x[0] == a);
        assert(y[0] == b);
    } else {
        let q = p.drop_first();
        texts_are_ordered_by_characters(q, a, b, s, t);
        assert(x[0] == p[0] && y[0] == p[0]);
        assert(x.drop_first() =~= q + seq![a] + s);
        assert(y.drop_first() =~= q + seq![b] + t);
    }
}

} // verus!
