//! Text helpers: comparison, concatenation, and number rendering over `Seq<char>`.

use vstd::prelude::*;

verus! {

/// Strict lexicographic order by Unicode scalar value, the order of `str`.
pub open spec fn text_lt(a: Seq<char>, b: Seq<char>) -> bool
    decreases a.len(),
{
    if b.len() == 0 {
        false
    } else if a.len() == 0 {
        true
    } else if a[0] != b[0] {
        (a[0] as int) < (b[0] as int)
    } else {
        text_lt(a.drop_first(), b.drop_first())
    }
}

/// No text precedes itself.
pub proof fn text_lt_irreflexive(a: Seq<char>)
    ensures
        !text_lt(a, a),
    decreases a.len(),
{
    if a.len() > 0 {
        text_lt_irreflexive(a.drop_first());
    }
}

/// The text order is transitive.
pub proof fn text_lt_transitive(a: Seq<char>, b: Seq<char>, c: Seq<char>)
    requires
        text_lt(a, b),
        text_lt(b, c),
    ensures
        text_lt(a, c),
    decreases a.len(),
{
    if a.len() > 0 && a[0] == b[0] && b[0] == c[0] {
        text_lt_transitive(a.drop_first(), b.drop_first(), c.drop_first());
    }
}

/// Of two different texts, one precedes the other.
pub proof fn text_lt_total(a: Seq<char>, b: Seq<char>)
    ensures
        a == b || text_lt(a, b) || text_lt(b, a),
    decreases a.len(),
{
    if a.len() > 0 && b.len() > 0 && a[0] == b[0] {
        text_lt_total(a.drop_first(), b.drop_first());
        if a.drop_first() == b.drop_first() {
            assert(a == seq![a[0]] + a.drop_first());
            assert(b == seq![b[0]] + b.drop_first());
        }
    } else if a.len() == 0 && b.len() == 0 {
        assert(a == b);
    }
}

/// Whether two texts are the same.
pub(crate) fn same(a: &str, b: &str) -> (r: bool)
    ensures
        r == (a@ == b@),
{
    let n: usize = a.unicode_len();
    if n != b.unicode_len() {
        return false;
    }
    let x = chars_of(a);
    let y = chars_of(b);
    let mut i: usize = 0;
    while i < n
        invariant
            x@ == a@,
            y@ == b@,
            n == x@.len() == y@.len(),
            i <= n,
            x@.take(i as int) == y@.take(i as int),
        decreases n - i,
    {
        if x[i] != y[i] {
            return false;
        }
        proof {
            assert(x@.take(i + 1) == x@.take(i as int).push(x@[i as int]));
            assert(y@.take(i + 1) == y@.take(i as int).push(y@[i as int]));
        }
        i = i + 1;
    }
    proof {
        assert(x@.take(n as int) == x@ && y@.take(n as int) == y@);
    }
    true
}

/// The characters of a text, in order.
pub fn chars_of(s: &str) -> (r: Vec<char>)
    ensures
        r@ == s@,
{
    let mut out: Vec<char> = Vec::new();
    for c in it: s.chars()
        invariant
            it.seq() == s@,
            out@ == s@.take(it.index() as int),
    {
        proof {
            assert(s@.take(it.index() as int + 1) == s@.take(it.index() as int).push(c));
        }
        out.push(c);
    }
    proof {
        assert(s@.take(s@.len() as int) == s@);
    }
    out
}

/// Whether `a` precedes `b` in the text order.
pub(crate) fn precedes(a: &str, b: &str) -> (r: bool)
    ensures
        r == text_lt(a@, b@),
{
    let left = chars_of(a);
    let right = chars_of(b);
    let mut i: usize = 0;
    proof {
        assert(a@.skip(0) == a@);
        assert(b@.skip(0) == b@);
    }
    while i < left.len() && i < right.len() && left[i] == right[i]
        invariant
            left@ == a@,
            right@ == b@,
            i <= left.len(),
            i <= right.len(),
            text_lt(a@, b@) == text_lt(a@.skip(i as int), b@.skip(i as int)),
        decreases left.len() - i,
    {
        proof {
            assert(a@.skip(i as int).drop_first() == a@.skip(i as int + 1));
            assert(b@.skip(i as int).drop_first() == b@.skip(i as int + 1));
        }
        i = i + 1;
    }
    if i >= right.len() {
        false
    } else if i >= left.len() {
        true
    } else {
        let c: char = left[i];
        let d: char = right[i];
        c < d
    }
}

/// The concatenation of two texts.
pub(crate) fn join2(a: &str, b: &str) -> (r: String)
    ensures
        r@ == a@ + b@,
{
    String::from_str(a).concat(b)
}

/// `String::push`: appends one character.
pub assume_specification[ std::string::String::push ](s: &mut std::string::String, c: char)
    ensures
        final(s)@ == old(s)@.push(c),
;

/// The concatenation of three texts.
pub(crate) fn join3(a: &str, b: &str, c: &str) -> (r: String)
    ensures
        r@ == a@ + b@ + c@,
{
    String::from_str(a).concat(b).concat(c)
}

/// The concatenation of four texts.
pub(crate) fn join4(a: &str, b: &str, c: &str, d: &str) -> (r: String)
    ensures
        r@ == a@ + b@ + c@ + d@,
{
    String::from_str(a).concat(b).concat(c).concat(d)
}

/// The concatenation of five texts.
pub(crate) fn join5(a: &str, b: &str, c: &str, d: &str, e: &str) -> (r: String)
    ensures
        r@ == a@ + b@ + c@ + d@ + e@,
{
    String::from_str(a).concat(b).concat(c).concat(d).concat(e)
}

/// The concatenation of six texts.
pub(crate) fn join6(a: &str, b: &str, c: &str, d: &str, e: &str, f: &str) -> (r: String)
    ensures
        r@ == a@ + b@ + c@ + d@ + e@ + f@,
{
    String::from_str(a).concat(b).concat(c).concat(d).concat(e).concat(f)
}

/// The concatenation of seven texts.
pub(crate) fn join7(a: &str, b: &str, c: &str, d: &str, e: &str, f: &str, g: &str) -> (r: String)
    ensures
        r@ == a@ + b@ + c@ + d@ + e@ + f@ + g@,
{
    String::from_str(a).concat(b).concat(c).concat(d).concat(e).concat(f).concat(g)
}

/// Whether a character has the Unicode property White_Space.
pub open spec fn is_white(c: char) -> bool {
    let n = c as int;
    ||| 0x9 <= n <= 0xd
    ||| n == 0x20
    ||| n == 0x85
    ||| n == 0xa0
    ||| n == 0x1680
    ||| 0x2000 <= n <= 0x200a
    ||| n == 0x2028
    ||| n == 0x2029
    ||| n == 0x202f
    ||| n == 0x205f
    ||| n == 0x3000
}

/// Whether a character has the Unicode property White_Space.
pub(crate) fn white(c: char) -> (r: bool)
    ensures
        r == is_white(c),
{
    let n: u32 = c as u32;
    (0x9 <= n && n <= 0xd) || n == 0x20 || n == 0x85 || n == 0xa0 || n == 0x1680 || (0x2000 <= n
        && n <= 0x200a) || n == 0x2028 || n == 0x2029 || n == 0x202f || n == 0x205f || n == 0x3000
}

/// The text without the white space at its ends.
pub open spec fn trimmed(s: Seq<char>) -> Seq<char>
    decreases s.len(),
{
    if s.len() > 0 && is_white(s[0]) {
        trimmed(s.drop_first())
    } else if s.len() > 0 && is_white(s.last()) {
        trimmed(s.drop_last())
    } else {
        s
    }
}

/// The text without the white space at its ends.
pub(crate) fn trim(s: &str) -> (r: &str)
    ensures
        r@ == trimmed(s@),
{
    let v = chars_of(s);
    let mut from: usize = 0;
    let mut to: usize = v.len();
    proof {
        assert(s@.subrange(0, s@.len() as int) == s@);
    }
    while from < to && white(v[from])
        invariant
            v@ == s@,
            from <= to <= v.len(),
            trimmed(s@) == trimmed(s@.subrange(from as int, to as int)),
        decreases to - from,
    {
        proof {
            let cut = s@.subrange(from as int, to as int);
            assert(cut.drop_first() == s@.subrange(from + 1, to as int));
        }
        from = from + 1;
    }
    while from < to && white(v[to - 1])
        invariant
            v@ == s@,
            from <= to <= v.len(),
            from < to ==> !is_white(s@[from as int]),
            trimmed(s@) == trimmed(s@.subrange(from as int, to as int)),
        decreases to - from,
    {
        proof {
            let cut = s@.subrange(from as int, to as int);
            assert(cut.drop_last() == s@.subrange(from as int, to - 1));
            assert(cut[0] == s@[from as int]);
        }
        to = to - 1;
    }
    s.substring_char(from, to)
}

/// Whether `p` is a prefix of `s`.
pub open spec fn has_prefix(s: Seq<char>, p: Seq<char>) -> bool {
    p.len() <= s.len() && s.take(p.len() as int) == p
}

/// Whether `prefix` is a prefix of `s`.
pub(crate) fn starts_with(s: &str, prefix: &str) -> (r: bool)
    ensures
        r == has_prefix(s@, prefix@),
{
    let v = chars_of(s);
    let p = chars_of(prefix);
    if p.len() > v.len() {
        return false;
    }
    let mut i: usize = 0;
    while i < p.len()
        invariant
            v@ == s@,
            p@ == prefix@,
            i <= p.len() <= v.len(),
            forall|j: int| 0 <= j < i ==> v@[j] == p@[j],
        decreases p.len() - i,
    {
        if v[i] != p[i] {
            proof {
                assert(s@.take(p@.len() as int)[i as int] != prefix@[i as int]);
            }
            return false;
        }
        i = i + 1;
    }
    proof {
        assert(s@.take(p@.len() as int) == prefix@);
    }
    true
}

/// What follows `prefix` in `s`, where `s` begins with it.
pub(crate) fn strip_prefix<'a>(s: &'a str, prefix: &str) -> (r: Option<&'a str>)
    ensures
        match r {
            Some(rest) => has_prefix(s@, prefix@) && rest@ == s@.skip(prefix@.len() as int),
            None => !has_prefix(s@, prefix@),
        },
{
    if starts_with(s, prefix) {
        let from = prefix.unicode_len();
        let to = s.unicode_len();
        let rest = s.substring_char(from, to);
        proof {
            assert(rest@ == s@.skip(prefix@.len() as int));
        }
        Some(rest)
    } else {
        None
    }
}

/// The value of a digit in a base up to 36, if the character is one.
pub open spec fn digit_value(c: char) -> Option<int> {
    if '0' <= c <= '9' {
        Some(c as int - '0' as int)
    } else if 'a' <= c <= 'z' {
        Some(c as int - 'a' as int + 10)
    } else if 'A' <= c <= 'Z' {
        Some(c as int - 'A' as int + 10)
    } else {
        None
    }
}

/// Whether a character is a digit in the base `radix`.
pub open spec fn is_digit(c: char, radix: int) -> bool {
    digit_value(c) is Some && digit_value(c)->0 < radix
}

/// The value of a digit in the base `radix`.
pub(crate) fn digit(c: char, radix: u32) -> (r: Option<u32>)
    requires
        radix <= 36,
    ensures
        match r {
            Some(d) => is_digit(c, radix as int) && digit_value(c) == Some(d as int) && d < radix,
            None => !is_digit(c, radix as int),
        },
{
    let n: u32 = c as u32;
    let d: u32 = if '0' <= c && c <= '9' {
        n - 48
    } else if 'a' <= c && c <= 'z' {
        n - 97 + 10
    } else if 'A' <= c && c <= 'Z' {
        n - 65 + 10
    } else {
        return None;
    };
    if d < radix {
        Some(d)
    } else {
        None
    }
}

/// The number that a row of digits writes in the base `radix`.
pub open spec fn digits_value(s: Seq<char>, radix: int) -> int
    decreases s.len(),
{
    if s.len() == 0 {
        0
    } else {
        digits_value(s.drop_last(), radix) * radix + digit_value(s.last())->0
    }
}

/// Whether every character is a digit in the base `radix`.
pub open spec fn all_digits(s: Seq<char>, radix: int) -> bool {
    forall|i: int| 0 <= i < s.len() ==> is_digit(#[trigger] s[i], radix)
}

/// The text without one leading plus sign.
pub open spec fn without_plus(s: Seq<char>) -> Seq<char> {
    if s.len() > 0 && s[0] == '+' {
        s.drop_first()
    } else {
        s
    }
}

/// The number up to `max` that a text writes in the base `radix`: an optional plus sign, then one
/// or more digits.
pub open spec fn unsigned_value(s: Seq<char>, radix: int, max: int) -> Option<int> {
    let d = without_plus(s);
    if d.len() > 0 && all_digits(d, radix) && digits_value(d, radix) <= max {
        Some(digits_value(d, radix))
    } else {
        None
    }
}

/// More digits do not make a number smaller.
proof fn digits_value_grows(s: Seq<char>, radix: int, i: int)
    requires
        0 <= i <= s.len(),
        2 <= radix,
        all_digits(s, radix),
    ensures
        0 <= digits_value(s.take(i), radix) <= digits_value(s, radix),
    decreases s.len() - i, i,
{
    if i < s.len() {
        digits_value_grows(s, radix, i + 1);
        assert(s.take(i + 1).drop_last() == s.take(i));
        digits_value_nonneg(s.take(i), radix);
        let v = digits_value(s.take(i), radix);
        let d = digit_value(s[i])->0;
        assert(is_digit(s[i], radix));
        assert(v <= v * radix + d) by (nonlinear_arith)
            requires
                v >= 0,
                radix >= 2,
                d >= 0,
        ;
    } else {
        assert(s.take(i) == s);
        digits_value_nonneg(s, radix);
    }
}

/// A row of digits writes no negative number.
pub proof fn digits_value_nonneg(s: Seq<char>, radix: int)
    requires
        2 <= radix,
        all_digits(s, radix),
    ensures
        0 <= digits_value(s, radix),
    decreases s.len(),
{
    if s.len() > 0 {
        digits_value_nonneg(s.drop_last(), radix);
        let v = digits_value(s.drop_last(), radix);
        assert(is_digit(s[s.len() - 1], radix));
        assert(v * radix >= 0) by (nonlinear_arith)
            requires
                v >= 0,
                radix >= 2,
        ;
    }
}

/// The number up to `max` that the characters from `start` on write in the base `radix`.
fn digits_number(v: &Vec<char>, start: usize, radix: u32, max: u128) -> (r: Option<u128>)
    requires
        2 <= radix <= 36,
        start <= v.len(),
    ensures
        ({
            let d = v@.skip(start as int);
            match r {
                Some(n) => d.len() > 0 && all_digits(d, radix as int) && n == digits_value(
                    d,
                    radix as int,
                ) && n <= max,
                None => !(d.len() > 0 && all_digits(d, radix as int) && digits_value(
                    d,
                    radix as int,
                ) <= max),
            }
        }),
{
    let ghost d = v@.skip(start as int);
    if start >= v.len() {
        return None;
    }
    let mut i: usize = start;
    let mut n: u128 = 0;
    proof {
        assert(d.take(0) == Seq::<char>::empty());
    }
    while i < v.len()
        invariant
            2 <= radix <= 36,
            start <= i <= v.len(),
            start < v.len(),
            d == v@.skip(start as int),
            forall|j: int| 0 <= j < i - start ==> is_digit(#[trigger] d[j], radix as int),
            n == digits_value(d.take(i - start), radix as int),
            n <= max,
        decreases v.len() - i,
    {
        let c = v[i];
        proof {
            assert(d[i - start] == c);
            assert(d.take(i - start + 1).drop_last() == d.take(i - start));
            assert(d.take(i - start + 1).last() == c);
        }
        match digit(c, radix) {
            None => {
                return None;
            },
            Some(x) => {
                proof {
                    if all_digits(d, radix as int) {
                        digits_value_grows(d, radix as int, i - start + 1);
                    }
                }
                match n.checked_mul(radix as u128) {
                    None => {
                        return None;
                    },
                    Some(m) => match m.checked_add(x as u128) {
                        None => {
                            return None;
                        },
                        Some(k) => {
                            if k > max {
                                return None;
                            }
                            n = k;
                        },
                    },
                }
            },
        }
        i = i + 1;
    }
    proof {
        assert(d.take(d.len() as int) == d);
    }
    Some(n)
}

/// The number up to `max` that `s` writes in the base `radix`.
pub(crate) fn parse_unsigned(s: &str, radix: u32, max: u128) -> (r: Option<u128>)
    requires
        2 <= radix <= 36,
    ensures
        match r {
            Some(n) => n <= max && unsigned_value(s@, radix as int, max as int) == Some(n as int),
            None => unsigned_value(s@, radix as int, max as int) is None,
        },
{
    let v = chars_of(s);
    let start: usize = if v.len() > 0 && v[0] == '+' {
        1
    } else {
        0
    };
    proof {
        assert(without_plus(s@) == s@.skip(start as int));
    }
    digits_number(&v, start, radix, max)
}

/// The number from `min` to `max` that a text writes in decimal: an optional sign, then one or more
/// digits.
pub open spec fn signed_value(s: Seq<char>, min: int, max: int) -> Option<int> {
    let negative = s.len() > 0 && s[0] == '-';
    let d = if negative {
        s.drop_first()
    } else {
        without_plus(s)
    };
    if d.len() > 0 && all_digits(d, 10) {
        let v = if negative {
            -digits_value(d, 10)
        } else {
            digits_value(d, 10)
        };
        if min <= v <= max {
            Some(v)
        } else {
            None
        }
    } else {
        None
    }
}

/// The signed number that `s` writes in decimal.
pub(crate) fn parse_signed(s: &str) -> (r: Option<i128>)
    ensures
        match r {
            Some(n) => signed_value(s@, i128::MIN as int, i128::MAX as int) == Some(n as int),
            None => signed_value(s@, i128::MIN as int, i128::MAX as int) is None,
        },
{
    let v = chars_of(s);
    if v.len() > 0 && v[0] == '-' {
        proof {
            assert(s@.drop_first() == v@.skip(1));
        }
        match digits_number(&v, 1, 10, 0x8000_0000_0000_0000_0000_0000_0000_0000) {
            None => {
                proof {
                    let d = v@.skip(1);
                    if all_digits(d, 10) {
                        digits_value_nonneg(d, 10);
                    }
                }
                None
            },
            Some(n) => if n == 0x8000_0000_0000_0000_0000_0000_0000_0000 {
                Some(i128::MIN)
            } else {
                Some(-(n as i128))
            },
        }
    } else {
        match parse_unsigned(s, 10, 0x7fff_ffff_ffff_ffff_ffff_ffff_ffff_ffff) {
            None => {
                proof {
                    let d = without_plus(s@);
                    if all_digits(d, 10) {
                        digits_value_nonneg(d, 10);
                    }
                }
                None
            },
            Some(n) => Some(n as i128),
        }
    }
}

/// The digit of value `d`, lower case.
pub open spec fn digit_char(d: int) -> char {
    if d < 10 {
        ('0' as int + d) as char
    } else {
        ('a' as int + d - 10) as char
    }
}

/// The digits of `n` in the base `radix`, without leading zeros.
pub open spec fn digits_of(n: nat, radix: nat) -> Seq<char>
    decreases n,
{
    if radix < 2 || n < radix {
        seq![digit_char(n as int)]
    } else {
        proof {
            assert(n / radix < n) by (nonlinear_arith)
                requires
                    n >= radix,
                    radix >= 2,
            ;
        }
        digits_of(n / radix, radix).push(digit_char((n % radix) as int))
    }
}

/// The decimal text of a number.
pub open spec fn decimal(n: int) -> Seq<char> {
    if n < 0 {
        seq!['-'] + digits_of((-n) as nat, 10)
    } else {
        digits_of(n as nat, 10)
    }
}

/// The digit of value `d`, lower case.
pub(crate) fn digit_text(d: u8) -> (r: char)
    requires
        d < 36,
    ensures
        r == digit_char(d as int),
{
    if d < 10 {
        (48 + d) as char
    } else {
        (97 + (d - 10)) as char
    }
}

/// The digits of `n` in the base `radix`.
pub(crate) fn number_text(n: u128, radix: u128) -> (r: String)
    requires
        2 <= radix <= 36,
    ensures
        r@ == digits_of(n as nat, radix as nat),
    decreases n,
{
    if n < radix {
        let mut out = String::new();
        out.push(digit_text(n as u8));
        proof {
            assert(out@ == seq![digit_char(n as int)]);
        }
        out
    } else {
        proof {
            assert(n / radix < n) by (nonlinear_arith)
                requires
                    n >= radix,
                    radix >= 2,
            ;
        }
        let mut out = number_text(n / radix, radix);
        out.push(digit_text((n % radix) as u8));
        out
    }
}

/// The decimal text of an unsigned number.
pub(crate) fn u64_text(n: u64) -> (r: String)
    ensures
        r@ == decimal(n as int),
{
    number_text(n as u128, 10)
}

/// The decimal text of a signed number.
pub(crate) fn i128_text(n: i128) -> (r: String)
    ensures
        r@ == decimal(n as int),
{
    if n < 0 {
        let m: u128 = (-(n + 1)) as u128 + 1;
        let digits = number_text(m, 10);
        let mut out = String::new();
        out.push('-');
        proof {
            assert(out@ == seq!['-']);
        }
        out.concat(digits.as_str())
    } else {
        number_text(n as u128, 10)
    }
}

/// The decimal text of a signed number.
pub(crate) fn i64_text(n: i64) -> (r: String)
    ensures
        r@ == decimal(n as int),
{
    i128_text(n as i128)
}

/// `s` with zeros before it up to the length `width`.
pub open spec fn zero_padded(s: Seq<char>, width: nat) -> Seq<char>
    decreases width - s.len(),
{
    if s.len() >= width {
        s
    } else {
        zero_padded(seq!['0'] + s, width)
    }
}

/// `s` with zeros before it up to the length `width`.
pub(crate) fn pad_zero(s: String, width: usize) -> (r: String)
    ensures
        r@ == zero_padded(s@, width as nat),
{
    let mut out = s;
    let mut n: usize = out.as_str().unicode_len();
    while n < width
        invariant
            n == out@.len(),
            zero_padded(s@, width as nat) == zero_padded(out@, width as nat),
        decreases width - n,
    {
        let mut next = String::new();
        next.push('0');
        proof {
            assert(next@ == seq!['0']);
        }
        let next = next.concat(out.as_str());
        proof {
            assert(next@ == seq!['0'] + out@);
        }
        out = next;
        n = n + 1;
    }
    out
}

/// The index of the first `c` in `s` at `i` or after it, or the length of `s`.
pub open spec fn next_index(s: Seq<char>, c: char, i: int) -> int
    decreases s.len() - i,
{
    if i < 0 || i >= s.len() {
        s.len() as int
    } else if s[i] == c {
        i
    } else {
        next_index(s, c, i + 1)
    }
}

/// `next_index` lies between `i` and the end, and nothing before it is the character.
pub proof fn next_index_bounds(s: Seq<char>, c: char, i: int)
    requires
        0 <= i <= s.len(),
    ensures
        i <= next_index(s, c, i) <= s.len(),
        next_index(s, c, i) < s.len() ==> s[next_index(s, c, i)] == c,
        forall|j: int| i <= j < next_index(s, c, i) ==> s[j] != c,
    decreases s.len() - i,
{
    if i < s.len() && s[i] != c {
        next_index_bounds(s, c, i + 1);
    }
}

/// The parts of `s` from `i` on, between the separators `c`.
pub open spec fn split_from(s: Seq<char>, c: char, i: int) -> Seq<Seq<char>>
    decreases s.len() - i + 1,
    via split_from_decreases
{
    if i < 0 || i > s.len() {
        Seq::empty()
    } else {
        let j = next_index(s, c, i);
        if j >= s.len() {
            seq![s.subrange(i, s.len() as int)]
        } else {
            seq![s.subrange(i, j)] + split_from(s, c, j + 1)
        }
    }
}

#[via_fn]
proof fn split_from_decreases(s: Seq<char>, c: char, i: int) {
    if 0 <= i <= s.len() {
        next_index_bounds(s, c, i);
    }
}

/// The parts of `s` between the separators `c`; one part where there is no separator.
pub open spec fn split_text(s: Seq<char>, c: char) -> Seq<Seq<char>> {
    split_from(s, c, 0)
}

/// The texts of a vector of strings.
pub open spec fn views(v: Seq<String>) -> Seq<Seq<char>> {
    Seq::new(v.len(), |i: int| v[i]@)
}

/// The parts of `s` between the separators `c`.
pub(crate) fn split(s: &str, c: char) -> (r: Vec<String>)
    ensures
        views(r@) == split_text(s@, c),
{
    let v = chars_of(s);
    let mut out: Vec<String> = Vec::new();
    let mut from: usize = 0;
    let mut i: usize = 0;
    proof {
        assert(views(out@) + split_from(s@, c, 0) == split_from(s@, c, 0));
    }
    while i < v.len()
        invariant
            v@ == s@,
            from <= i <= v.len(),
            next_index(s@, c, from as int) == next_index(s@, c, i as int),
            views(out@) + split_from(s@, c, from as int) == split_text(s@, c),
        decreases v.len() - i,
    {
        if v[i] == c {
            let part = s.substring_char(from, i).to_owned();
            let ghost before = out@;
            out.push(part);
            proof {
                assert(next_index(s@, c, from as int) == i);
                assert(views(out@) == views(before) + seq![part@]);
                assert(views(out@) + split_from(s@, c, i + 1) == views(before) + split_from(
                    s@,
                    c,
                    from as int,
                ));
            }
            from = i + 1;
        }
        i = i + 1;
    }
    let part = s.substring_char(from, v.len()).to_owned();
    let ghost before = out@;
    out.push(part);
    proof {
        assert(views(out@) == views(before) + split_from(s@, c, from as int));
    }
    out
}

/// The texts of `parts` with `sep` between them.
pub open spec fn joined(parts: Seq<Seq<char>>, sep: Seq<char>) -> Seq<char>
    decreases parts.len(),
{
    if parts.len() == 0 {
        Seq::empty()
    } else if parts.len() == 1 {
        parts[0]
    } else {
        joined(parts.drop_last(), sep) + sep + parts.last()
    }
}

/// The texts of `parts` with `sep` between them.
pub(crate) fn join(parts: &Vec<String>, sep: &str) -> (r: String)
    ensures
        r@ == joined(views(parts@), sep@),
{
    let mut out = String::new();
    let mut i: usize = 0;
    proof {
        assert(views(parts@).take(0) == Seq::<Seq<char>>::empty());
    }
    while i < parts.len()
        invariant
            i <= parts.len(),
            out@ == joined(views(parts@).take(i as int), sep@),
        decreases parts.len() - i,
    {
        proof {
            assert(views(parts@).take(i + 1).drop_last() == views(parts@).take(i as int));
        }
        if i == 0 {
            out = parts[i].clone();
        } else {
            out = out.concat(sep).concat(parts[i].as_str());
        }
        i = i + 1;
    }
    proof {
        assert(views(parts@).take(parts@.len() as int) == views(parts@));
    }
    out
}

/// Whether some element of `v` is the text `s`.
pub open spec fn holds_text(v: Seq<String>, s: Seq<char>) -> bool {
    exists|i: int| 0 <= i < v.len() && #[trigger] v[i]@ == s
}

/// Whether some element of `v` is the text `s`.
pub(crate) fn contains_text(v: &Vec<String>, s: &str) -> (r: bool)
    ensures
        r == holds_text(v@, s@),
{
    let mut i: usize = 0;
    while i < v.len()
        invariant
            i <= v.len(),
            forall|j: int| 0 <= j < i ==> (#[trigger] v@[j])@ != s@,
        decreases v.len() - i,
    {
        if same(v[i].as_str(), s) {
            return true;
        }
        i = i + 1;
    }
    false
}

/// How `Debug` writes a text: in double quotes, with escapes.
pub uninterp spec fn text_debug(s: Seq<char>) -> Seq<char>;

/// `format!` of `{:?}` on a `str`: the quoted text, which depends on the text alone.
#[verifier::external_body]
pub(crate) fn debug_text(s: &str) -> (r: String)
    ensures
        r@ == text_debug(s@),
{
    format!("{:?}", s)
}

/// How `Debug` writes each of a row of texts.
pub open spec fn each_debug(v: Seq<Seq<char>>) -> Seq<Seq<char>> {
    Seq::new(v.len(), |i: int| text_debug(v[i]))
}

/// How `Debug` writes a vector of texts.
pub open spec fn texts_debug(v: Seq<Seq<char>>) -> Seq<char> {
    "["@ + joined(each_debug(v), ", "@) + "]"@
}

/// How `Debug` writes a vector of texts.
pub(crate) fn debug_texts(v: &Vec<String>) -> (r: String)
    ensures
        r@ == texts_debug(views(v@)),
{
    let mut parts: Vec<String> = Vec::new();
    let mut i: usize = 0;
    while i < v.len()
        invariant
            i <= v.len(),
            parts.len() == i,
            forall|j: int| 0 <= j < i ==> (#[trigger] parts@[j])@ == text_debug(v@[j]@),
        decreases v.len() - i,
    {
        parts.push(debug_text(v[i].as_str()));
        i = i + 1;
    }
    proof {
        assert(views(parts@) == each_debug(views(v@)));
    }
    join3("[", join(&parts, ", ").as_str(), "]")
}

/// How `Debug` writes an optional text.
pub open spec fn option_debug(o: Option<String>) -> Seq<char> {
    match o {
        Some(s) => "Some("@ + text_debug(s@) + ")"@,
        None => "None"@,
    }
}

/// How `Debug` writes an optional text.
pub(crate) fn debug_option(o: &Option<String>) -> (r: String)
    ensures
        r@ == option_debug(*o),
{
    match o {
        Some(s) => join3("Some(", debug_text(s.as_str()).as_str(), ")"),
        None => "None".to_owned(),
    }
}


/// What an optional text says.
pub open spec fn optional_text(o: Option<String>) -> Option<Seq<char>> {
    match o {
        Some(s) => Some(s@),
        None => None,
    }
}

/// Whether two optional texts are the same.
pub(crate) fn same_option(a: &Option<String>, b: &Option<String>) -> (r: bool)
    ensures
        r == (optional_text(*a) == optional_text(*b)),
{
    match (a, b) {
        (Some(x), Some(y)) => same(x.as_str(), y.as_str()),
        (None, None) => true,
        _ => false,
    }
}

/// A copy of an optional text.
pub(crate) fn copy_option(o: &Option<String>) -> (r: Option<String>)
    ensures
        r == *o,
{
    match o {
        Some(s) => Some(s.clone()),
        None => None,
    }
}

/// A copy of a row of texts.
pub(crate) fn copy_texts(v: &Vec<String>) -> (r: Vec<String>)
    ensures
        r@ == v@,
{
    let mut out: Vec<String> = Vec::new();
    let mut i: usize = 0;
    while i < v.len()
        invariant
            i <= v.len(),
            out@ == v@.take(i as int),
        decreases v.len() - i,
    {
        out.push(v[i].clone());
        i = i + 1;
    }
    proof {
        assert(v@.take(v@.len() as int) == v@);
    }
    out
}

/// Whether two rows of texts are the same.
pub(crate) fn same_texts(a: &Vec<String>, b: &Vec<String>) -> (r: bool)
    ensures
        r == (views(a@) == views(b@)),
{
    if a.len() != b.len() {
        proof {
            assert(views(a@).len() != views(b@).len());
        }
        return false;
    }
    let mut i: usize = 0;
    while i < a.len()
        invariant
            a.len() == b.len(),
            i <= a.len(),
            forall|k: int| 0 <= k < i ==> #[trigger] views(a@)[k] == views(b@)[k],
        decreases a.len() - i,
    {
        if !same(a[i].as_str(), b[i].as_str()) {
            proof {
                assert(views(a@)[i as int] != views(b@)[i as int]);
            }
            return false;
        }
        i = i + 1;
    }
    proof {
        assert(views(a@) == views(b@));
    }
    true
}

} // verus!
