//! Small text operations shared by the exporter.

use vstd::prelude::*;

verus! {

/// `String::push`: appends one character to the end of the string.
#[verifier::external_body]
pub(crate) fn push_char(s: &mut String, c: char)
    ensures
        final(s)@ == old(s)@.push(c),
{
    s.push(c);
}

/// Whether two strings hold the same characters.
pub fn str_eq(a: &str, b: &str) -> (r: bool)
    ensures
        r == (a@ == b@),
{
    let x: String = a.to_owned();
    let y: String = b.to_owned();
    x == y
}

/// The characters of a string, in order.
pub fn to_chars(s: &str) -> (r: Vec<char>)
    ensures
        r@ == s@,
{
    let mut out: Vec<char> = Vec::new();
    for c in it: s.chars()
        invariant
            it.seq() == s@,
            out@ == s@.take(it.index() as int),
    {
        out.push(c);
        assert(s@.take(it.index() + 1) =~= s@.take(it.index() as int).push(c));
    }
    assert(s@.take(s@.len() as int) =~= s@);
    out
}

/// The string made of the given characters.
pub fn from_chars(cs: &Vec<char>) -> (r: String)
    ensures
        r@ == cs@,
{
    let mut out: String = String::new();
    let mut i: usize = 0;
    while i < cs.len()
        invariant
            i <= cs.len(),
            out@ == cs@.take(i as int),
        decreases cs.len() - i,
    {
        push_char(&mut out, cs[i]);
        i = i + 1;
        assert(cs@.take(i as int) =~= cs@.take(i - 1).push(cs@[i - 1]));
    }
    assert(cs@.take(cs@.len() as int) =~= cs@);
    out
}

/// The decimal digit character of a value below ten.
pub open spec fn digit(d: int) -> char {
    (('0' as int) + d) as char
}

/// The decimal representation of a natural number, without leading zeros.
pub open spec fn dec_nat(n: nat) -> Seq<char>
    decreases n,
{
    if n < 10 {
        seq![digit(n as int)]
    } else {
        dec_nat(n / 10).push(digit((n % 10) as int))
    }
}

/// The decimal representation of an integer, with a leading minus sign when it
/// is negative.
pub open spec fn dec(n: int) -> Seq<char> {
    if n < 0 {
        seq!['-'] + dec_nat((-n) as nat)
    } else {
        dec_nat(n as nat)
    }
}

fn digit_char(d: u8) -> (c: char)
    requires
        d < 10,
    ensures
        c == digit(d as int),
{
    match d {
        0 => '0',
        1 => '1',
        2 => '2',
        3 => '3',
        4 => '4',
        5 => '5',
        6 => '6',
        7 => '7',
        8 => '8',
        _ => '9',
    }
}

/// Appends the decimal representation of a natural number.
pub fn push_u64(s: &mut String, n: u64)
    ensures
        final(s)@ == old(s)@ + dec_nat(n as nat),
    decreases n,
{
    if n < 10 {
        let d: u8 = n as u8;
        push_char(s, digit_char(d));
        assert(s@ =~= old(s)@ + dec_nat(n as nat));
    } else {
        push_u64(s, n / 10);
        let ghost mid = s@;
        let d: u8 = (n % 10) as u8;
        push_char(s, digit_char(d));
        assert(s@ =~= old(s)@ + dec_nat(n as nat));
    }
}

/// Appends the decimal representation of an integer.
pub fn push_i64(s: &mut String, n: i64)
    ensures
        final(s)@ == old(s)@ + dec(n as int),
{
    if n >= 0 {
        push_u64(s, n as u64);
    } else {
        push_char(s, '-');
        let m: u64 = if n == i64::MIN {
            9223372036854775808
        } else {
            (-n) as u64
        };
        push_u64(s, m);
        assert(s@ =~= old(s)@ + dec(n as int));
    }
}

/// The decimal representation of an integer.
pub fn dec_i64(n: i64) -> (r: String)
    ensures
        r@ == dec(n as int),
{
    let mut s: String = String::new();
    push_i64(&mut s, n);
    assert(s@ =~= dec(n as int));
    s
}

/// The decimal representation of a natural number.
pub fn dec_u64(n: u64) -> (r: String)
    ensures
        r@ == dec(n as int),
{
    let mut s: String = String::new();
    push_u64(&mut s, n);
    assert(s@ =~= dec(n as int));
    s
}

/// The upper-case hexadecimal digit of a value below sixteen.
pub open spec fn hex_digit(d: int) -> char {
    if d < 10 {
        digit(d)
    } else {
        (('A' as int) + (d - 10)) as char
    }
}

/// Two upper-case hexadecimal digits of one byte.
pub open spec fn hex2(b: u8) -> Seq<char> {
    seq![hex_digit(b as int / 16), hex_digit(b as int % 16)]
}

/// `RRGGBB` of a color.
pub open spec fn hex_rgb(c: [u8; 3]) -> Seq<char> {
    hex2(c@[0]) + hex2(c@[1]) + hex2(c@[2])
}

fn hex_char(d: u8) -> (c: char)
    requires
        d < 16,
    ensures
        c == hex_digit(d as int),
{
    if d < 10 {
        digit_char(d)
    } else {
        match d {
            10 => 'A',
            11 => 'B',
            12 => 'C',
            13 => 'D',
            14 => 'E',
            _ => 'F',
        }
    }
}

/// Appends two upper-case hexadecimal digits of one byte.
pub fn push_hex2(s: &mut String, b: u8)
    ensures
        final(s)@ == old(s)@ + hex2(b),
{
    push_char(s, hex_char(b / 16));
    push_char(s, hex_char(b % 16));
    assert(s@ =~= old(s)@ + hex2(b));
}

/// The `RRGGBB` representation of a color.
pub fn hex(c: [u8; 3]) -> (r: String)
    ensures
        r@ == hex_rgb(c),
{
    let mut s: String = String::new();
    push_hex2(&mut s, c[0]);
    push_hex2(&mut s, c[1]);
    push_hex2(&mut s, c[2]);
    assert(s@ =~= hex_rgb(c));
    s
}

proof fn lemma_dec_nat_injective(a: nat, b: nat)
    requires
        dec_nat(a) == dec_nat(b),
    ensures
        a == b,
    decreases a,
{
    let x = dec_nat(a);
    let y = dec_nat(b);
    assert(x.last() == digit((a % 10) as int));
    assert(y.last() == digit((b % 10) as int));
    lemma_dec_nat_len(a);
    lemma_dec_nat_len(b);
    if a >= 10 && b >= 10 {
        assert(x.drop_last() =~= dec_nat(a / 10));
        assert(y.drop_last() =~= dec_nat(b / 10));
        lemma_dec_nat_injective(a / 10, b / 10);
    }
}

proof fn lemma_dec_nat_len(n: nat)
    ensures
        dec_nat(n).len() >= 1,
        n >= 10 ==> dec_nat(n).len() >= 2,
        n < 10 ==> dec_nat(n).len() == 1,
        '0' <= dec_nat(n)[0] <= '9',
    decreases n,
{
    if n >= 10 {
        lemma_dec_nat_len(n / 10);
    }
}

/// The number that decimal digits stand for: each digit weighs ten times the one
/// behind it.
pub open spec fn decimal_value(s: Seq<char>) -> Option<nat>
    decreases s.len(),
{
    if s.len() == 0 {
        Some(0)
    } else {
        match (decimal_value(s.drop_last()), digit_value(s.last())) {
            (Some(before), Some(d)) => Some(before * 10 + d),
            _ => None,
        }
    }
}

/// The decimal representation of a number reads back as the number, and does not
/// start with a zero unless it is one.
pub proof fn decimal_reads_back(n: nat)
    ensures
        decimal_value(dec_nat(n)) == Some(n),
        dec_nat(n).len() >= 1,
        n > 0 ==> dec_nat(n)[0] != '0',
    decreases n,
{
    if n >= 10 {
        decimal_reads_back(n / 10);
        assert(dec_nat(n).drop_last() =~= dec_nat(n / 10));
    } else {
        assert(dec_nat(n).drop_last() =~= Seq::empty());
        assert(decimal_value(Seq::<char>::empty()) == Some(0nat));
    }
}

/// The decimal representation of a negative number is a minus sign in front of
/// that of its opposite.
pub proof fn negative_numbers_have_a_sign(n: int)
    ensures
        n < 0 ==> dec(n)[0] == '-' && decimal_value(dec(n).skip(1)) == Some((-n) as nat),
        n >= 0 ==> decimal_value(dec(n)) == Some(n as nat),
{
    if n < 0 {
        decimal_reads_back((-n) as nat);
        assert(dec(n).skip(1) =~= dec_nat((-n) as nat));
    } else {
        decimal_reads_back(n as nat);
    }
}

/// The number that an upper-case hexadecimal digit stands for.
pub open spec fn hex_value(c: char) -> int {
    if '0' <= c <= '9' {
        c as int - '0' as int
    } else {
        c as int - 'A' as int + 10
    }
}

/// The six digits of a color are those of its red, green and blue parts, in that
/// order.
pub proof fn colors_read_back(c: [u8; 3])
    ensures
        hex_rgb(c).len() == 6,
        forall|i: int|
            0 <= i < 6 ==> {
                ||| '0' <= #[trigger] hex_rgb(c)[i] <= '9'
                ||| 'A' <= hex_rgb(c)[i] <= 'F'
            },
        hex_value(hex_rgb(c)[0]) * 16 + hex_value(hex_rgb(c)[1]) == c@[0],
        hex_value(hex_rgb(c)[2]) * 16 + hex_value(hex_rgb(c)[3]) == c@[1],
        hex_value(hex_rgb(c)[4]) * 16 + hex_value(hex_rgb(c)[5]) == c@[2],
{
}

/// Different numbers are written differently.
pub proof fn lemma_dec_injective(a: int, b: int)
    requires
        dec(a) == dec(b),
    ensures
        a == b,
{
    let x = dec(a);
    let y = dec(b);
    if a >= 0 && b >= 0 {
        lemma_dec_nat_injective(a as nat, b as nat);
    } else if a < 0 && b < 0 {
        assert(x.skip(1) =~= dec_nat((-a) as nat));
        assert(y.skip(1) =~= dec_nat((-b) as nat));
        lemma_dec_nat_injective((-a) as nat, (-b) as nat);
    } else if a < 0 {
        lemma_dec_nat_len(b as nat);
        assert(x[0] == '-');
    } else {
        lemma_dec_nat_len(a as nat);
        assert(y[0] == '-');
    }
}

/// A value in lower-case hexadecimal, padded or cut to the given width.
pub open spec fn hex_lower(n: nat, width: nat) -> Seq<char>
    decreases width,
{
    if width == 0 {
        seq![]
    } else {
        hex_lower(n / 16, (width - 1) as nat).push(
            if n % 16 < 10 {
                digit((n % 16) as int)
            } else {
                (('a' as int) + (n % 16 - 10)) as char
            },
        )
    }
}

/// Appends a value in lower-case hexadecimal.
pub fn push_hex_lower(s: &mut String, n: u128, width: u32)
    ensures
        final(s)@ == old(s)@ + hex_lower(n as nat, width as nat),
    decreases width,
{
    if width > 0 {
        push_hex_lower(s, n / 16, width - 1);
        let d: u8 = (n % 16) as u8;
        let c: char = if d < 10 {
            digit_char(d)
        } else {
            match d {
                10 => 'a',
                11 => 'b',
                12 => 'c',
                13 => 'd',
                14 => 'e',
                _ => 'f',
            }
        };
        push_char(s, c);
        assert(s@ =~= old(s)@ + hex_lower(n as nat, width as nat));
    } else {
        assert(s@ =~= old(s)@ + hex_lower(n as nat, width as nat));
    }
}

/// Eight upper-case hexadecimal digits of a 32-bit value.
pub open spec fn hex8(n: u32) -> Seq<char> {
    hex2((n as int / 0x100_0000) as u8) + hex2((n as int / 0x1_0000 % 0x100) as u8) + hex2(
        (n as int / 0x100 % 0x100) as u8,
    ) + hex2((n as int % 0x100) as u8)
}

/// The eight-digit hexadecimal representation of a 32-bit value.
pub fn hex_u32(n: u32) -> (r: String)
    ensures
        r@ == hex8(n),
{
    let mut s: String = String::new();
    push_hex2(&mut s, (n / 0x100_0000) as u8);
    push_hex2(&mut s, (n / 0x1_0000 % 0x100) as u8);
    push_hex2(&mut s, (n / 0x100 % 0x100) as u8);
    push_hex2(&mut s, (n % 0x100) as u8);
    assert(s@ =~= hex8(n));
    s
}

/// Whether two optional strings are both absent or hold the same characters.
pub open spec fn opt_str(s: Option<String>) -> Option<Seq<char>> {
    match s {
        Some(t) => Some(t@),
        None => None,
    }
}

/// Compares two optional strings by their characters.
pub fn opt_str_eq(a: &Option<String>, b: &Option<String>) -> (r: bool)
    ensures
        r == (opt_str(*a) == opt_str(*b)),
{
    match (a, b) {
        (Some(x), Some(y)) => *x == *y,
        (None, None) => true,
        _ => false,
    }
}

/// `char::from_u32`: the character with the given code point, if there is one.
pub assume_specification[ char::from_u32 ](i: u32) -> (r: Option<char>)
    ensures
        r == (if i < 0xD800 || 0xE000 <= i <= 0x10FFFF {
            Some(i as char)
        } else {
            None
        }),
;

/// Whether `n` stands in `h` at index `at`.
pub open spec fn stands_at(h: Seq<char>, at: int, n: Seq<char>) -> bool {
    0 <= at && at + n.len() <= h.len() && h.subrange(at, at + n.len()) == n
}

/// Whether `n` stands in `h` at index `at`.
pub fn matches_at(h: &Vec<char>, at: usize, n: &Vec<char>) -> (r: bool)
    ensures
        r == stands_at(h@, at as int, n@),
{
    if at > h.len() || n.len() > h.len() - at {
        return false;
    }
    let mut i: usize = 0;
    while i < n.len()
        invariant
            i <= n.len(),
            at + n.len() <= h.len(),
            forall|k: int| 0 <= k < i ==> h@[at + k] == n@[k],
        decreases n.len() - i,
    {
        if h[at + i] != n[i] {
            assert(h@.subrange(at as int, at + n@.len())[i as int] == h@[at + i]);
            return false;
        }
        i = i + 1;
    }
    assert(h@.subrange(at as int, at + n@.len()) =~= n@);
    true
}

/// Whether `n` stands somewhere in `h`.
pub open spec fn holds(h: Seq<char>, n: Seq<char>) -> bool {
    exists|at: int| #[trigger] stands_at(h, at, n)
}

/// Whether a string holds another one.
pub fn contains_str(h: &str, n: &str) -> (r: bool)
    ensures
        r == holds(h@, n@),
{
    let hs: Vec<char> = to_chars(h);
    let ns: Vec<char> = to_chars(n);
    let mut at: usize = 0;
    while at < hs.len()
        invariant
            at <= hs.len(),
            hs@ == h@,
            ns@ == n@,
            forall|k: int| 0 <= k < at ==> !stands_at(h@, k, n@),
        decreases hs.len() - at,
    {
        if matches_at(&hs, at, &ns) {
            return true;
        }
        at = at + 1;
    }
    let r: bool = matches_at(&hs, at, &ns);
    r
}

/// The characters after a prefix, if the string starts with it.
pub open spec fn cut_prefix(s: Seq<char>, p: Seq<char>) -> Option<Seq<char>> {
    if stands_at(s, 0, p) {
        Some(s.subrange(p.len() as int, s.len() as int))
    } else {
        None
    }
}

/// The characters before a suffix, if the string ends with it.
pub open spec fn cut_suffix(s: Seq<char>, p: Seq<char>) -> Option<Seq<char>> {
    if stands_at(s, s.len() - p.len(), p) {
        Some(s.subrange(0, s.len() - p.len()))
    } else {
        None
    }
}

/// The characters `from..to` of a string.
pub fn slice_chars(s: &Vec<char>, from: usize, to: usize) -> (r: Vec<char>)
    requires
        from <= to <= s@.len(),
    ensures
        r@ == s@.subrange(from as int, to as int),
{
    let mut out: Vec<char> = Vec::new();
    let mut i: usize = from;
    while i < to
        invariant
            from <= i <= to <= s@.len(),
            out@ == s@.subrange(from as int, i as int),
        decreases to - i,
    {
        out.push(s[i]);
        i = i + 1;
        assert(s@.subrange(from as int, i as int) =~= s@.subrange(from as int, i - 1).push(s@[i - 1]));
    }
    out
}

/// The text after a prefix, if the string starts with it.
pub fn strip_prefix(s: &str, p: &str) -> (r: Option<String>)
    ensures
        opt_str(r) == cut_prefix(s@, p@),
{
    let ss: Vec<char> = to_chars(s);
    let ps: Vec<char> = to_chars(p);
    if matches_at(&ss, 0, &ps) {
        Some(from_chars(&slice_chars(&ss, ps.len(), ss.len())))
    } else {
        None
    }
}

/// The text before a suffix, if the string ends with it.
pub fn strip_suffix(s: &str, p: &str) -> (r: Option<String>)
    ensures
        opt_str(r) == cut_suffix(s@, p@),
{
    let ss: Vec<char> = to_chars(s);
    let ps: Vec<char> = to_chars(p);
    if ps.len() <= ss.len() && matches_at(&ss, ss.len() - ps.len(), &ps) {
        Some(from_chars(&slice_chars(&ss, 0, ss.len() - ps.len())))
    } else {
        None
    }
}

/// The value of a decimal digit character.
pub open spec fn digit_value(c: char) -> Option<nat> {
    if '0' <= c <= '9' {
        Some((c as int - '0' as int) as nat)
    } else {
        None
    }
}

/// The value of a decimal digit character.
pub fn digit_of(c: char) -> (r: Option<u8>)
    ensures
        match r {
            Some(d) => digit_value(c) == Some(d as nat) && d < 10,
            None => digit_value(c) is None,
        },
{
    if '0' <= c && c <= '9' {
        Some((c as u32 - '0' as u32) as u8)
    } else {
        None
    }
}

/// The value of a string of decimal digits.
pub open spec fn digits_value(s: Seq<char>) -> Option<nat>
    decreases s.len(),
{
    if s.len() == 0 {
        Some(0)
    } else {
        match (digits_value(s.drop_last()), digit_value(s.last())) {
            (Some(v), Some(d)) => Some(10 * v + d),
            _ => None,
        }
    }
}

/// A byte written in decimal: an optional plus sign and at least one digit, with
/// a value below 256.
pub open spec fn parsed_u8(s: Seq<char>) -> Option<u8> {
    let body = if s.len() > 0 && s[0] == '+' {
        s.subrange(1, s.len() as int)
    } else {
        s
    };
    match digits_value(body) {
        Some(v) => if body.len() > 0 && v < 256 {
            Some(v as u8)
        } else {
            None
        },
        None => None,
    }
}

/// Parses a byte written in decimal.
pub fn parse_u8(s: &str) -> (r: Option<u8>)
    ensures
        r == parsed_u8(s@),
{
    let cs: Vec<char> = to_chars(s);
    let from: usize = if cs.len() > 0 && cs[0] == '+' {
        1
    } else {
        0
    };
    let ghost body = cs@.subrange(from as int, cs@.len() as int);
    assert(from == 0 ==> body =~= cs@);
    if from >= cs.len() {
        return None;
    }
    let mut i: usize = from;
    let mut value: u32 = 0;
    assert(body.take(0) =~= Seq::<char>::empty());
    while i < cs.len()
        invariant
            from <= i <= cs.len(),
            cs@ == s@,
            from == (if cs@.len() > 0 && cs@[0] == '+' {
                1int
            } else {
                0int
            }),
            body == cs@.subrange(from as int, cs@.len() as int),
            digits_value(body.take(i - from)) is Some,
            value == (if digits_value(body.take(i - from)).unwrap() < 256 {
                digits_value(body.take(i - from)).unwrap()
            } else {
                256
            }),
        decreases cs.len() - i,
    {
        let ghost at = i - from;
        assert(body.take(at + 1).drop_last() =~= body.take(at));
        assert(body.take(at + 1).last() == cs@[i as int]);
        match digit_of(cs[i]) {
            Some(d) => {
                let next: u32 = 10 * value + d as u32;
                value = if next < 256 {
                    next
                } else {
                    256
                };
            }
            None => {
                proof {
                    lemma_digits_prefix(body, at + 1);
                    assert(from == 0 ==> body =~= cs@);
                }
                return None;
            }
        }
        i = i + 1;
    }
    assert(body.take(body.len() as int) =~= body);
    assert(from == 0 ==> body =~= cs@);
    if value < 256 {
        Some(value as u8)
    } else {
        None
    }
}

proof fn lemma_digits_prefix(s: Seq<char>, n: int)
    requires
        0 <= n <= s.len(),
        digits_value(s.take(n)) is None,
    ensures
        digits_value(s) is None,
    decreases s.len() - n,
{
    if n == s.len() {
        assert(s.take(n) =~= s);
    } else {
        assert(s.take(n + 1).drop_last() =~= s.take(n));
        lemma_digits_prefix(s, n + 1);
    }
}

/// Three texts joined.
pub fn concat3(a: &str, b: &str, c: &str) -> (r: String)
    ensures
        r@ == a@ + b@ + c@,
{
    let mut s: String = a.to_owned();
    s.append(b);
    s.append(c);
    s
}

/// The concatenation of two strings.
pub fn concat2(a: &str, b: &str) -> (r: String)
    ensures
        r@ == a@ + b@,
{
    let mut s: String = a.to_owned();
    s.append(b);
    s
}

/// Whether a character is white space, by the Unicode property of that name.
pub open spec fn is_white(c: char) -> bool {
    let n = c as u32;
    (9 <= n <= 13) || n == 0x20 || n == 0x85 || n == 0xa0 || n == 0x1680 || (0x2000 <= n
        <= 0x200a) || n == 0x2028 || n == 0x2029 || n == 0x202f || n == 0x205f || n == 0x3000
}

/// Whether a character is white space.
pub fn white(c: char) -> (r: bool)
    ensures
        r == is_white(c),
{
    let n: u32 = c as u32;
    (9 <= n && n <= 13) || n == 0x20 || n == 0x85 || n == 0xa0 || n == 0x1680 || (0x2000 <= n
        && n <= 0x200a) || n == 0x2028 || n == 0x2029 || n == 0x202f || n == 0x205f || n
        == 0x3000
}

/// Whether a text is white space throughout.
pub open spec fn is_blank(s: Seq<char>) -> bool {
    forall|i: int| 0 <= i < s.len() ==> is_white(#[trigger] s[i])
}

/// Whether a text is white space throughout.
pub fn blank(s: &str) -> (r: bool)
    ensures
        r == is_blank(s@),
{
    let chars: Vec<char> = to_chars(s);
    let mut i: usize = 0;
    while i < chars.len()
        invariant
            i <= chars@.len(),
            chars@ == s@,
            forall|k: int| 0 <= k < i ==> is_white(#[trigger] s@[k]),
        decreases chars@.len() - i,
    {
        if !white(chars[i]) {
            assert(!is_white(s@[i as int]));
            return false;
        }
        i = i + 1;
    }
    true
}

} // verus!
