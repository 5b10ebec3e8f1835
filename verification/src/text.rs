//! Small text utilities shared by the protocol, prompt and command-line
//! builders: decimal and hexadecimal rendering, character escaping, UTF-8
//! widths and substring tests.
use vstd::prelude::*;

verus! {

// ---------------------------------------------------------------------------
// Conversions between `&str`, characters and ASCII bytes
// ---------------------------------------------------------------------------

/// The characters of `s`, in order.
pub fn str_chars(s: &str) -> (r: Vec<char>)
    ensures
        r@ == s@,
{
    let mut r: Vec<char> = Vec::new();
    for c in it: s.chars()
        invariant
            r@ == it.seq().take(it.index() as int),
            it.seq() == s@,
    {
        r.push(c);
    }
    r
}

/// Each character taken as one byte (the identity on ASCII text).
pub open spec fn ascii_bytes(s: Seq<char>) -> Seq<u8> {
    s.map_values(|c: char| c as u8)
}

/// Appends the characters of `s` to `out`, one byte per character.
pub fn push_ascii(out: &mut Vec<u8>, s: &str)
    ensures
        final(out)@ == old(out)@ + ascii_bytes(s@),
{
    let ghost start = out@;
    for c in it: s.chars()
        invariant
            it.seq() == s@,
            out@ == start + ascii_bytes(it.seq().take(it.index() as int)),
    {
        proof {
            assert(ascii_bytes(it.seq().take(it.index() + 1)) =~= ascii_bytes(
                it.seq().take(it.index() as int),
            ).push(c as u8));
        }
        out.push(c as u8);
    }
}

/// Appends the characters of `s` to `out`.
pub fn push_str_chars(out: &mut Vec<char>, s: &str)
    ensures
        final(out)@ == old(out)@ + s@,
{
    let ghost start = out@;
    for c in it: s.chars()
        invariant
            it.seq() == s@,
            out@ == start + it.seq().take(it.index() as int),
    {
        proof {
            assert(it.seq().take(it.index() + 1) =~= it.seq().take(it.index() as int).push(c));
        }
        out.push(c);
    }
}

/// Appends the characters of `s` to `out`.
pub fn push_chars(out: &mut Vec<char>, s: &Vec<char>)
    ensures
        final(out)@ == old(out)@ + s@,
{
    let ghost start = out@;
    let mut i: usize = 0;
    while i < s.len()
        invariant
            i <= s.len(),
            out@ == start + s@.take(i as int),
        decreases s.len() - i,
    {
        proof {
            assert(s@.take(i + 1) =~= s@.take(i as int).push(s@[i as int]));
        }
        out.push(s[i]);
        i = i + 1;
    }
    proof {
        assert(s@.take(s.len() as int) =~= s@);
    }
}

/// Appends the bytes of `s` to `out`.
pub fn push_bytes(out: &mut Vec<u8>, s: &[u8])
    ensures
        final(out)@ == old(out)@ + s@,
{
    let ghost start = out@;
    let mut i: usize = 0;
    while i < s.len()
        invariant
            i <= s.len(),
            out@ == start + s@.take(i as int),
        decreases s.len() - i,
    {
        proof {
            assert(s@.take(i + 1) =~= s@.take(i as int).push(s@[i as int]));
        }
        out.push(s[i]);
        i = i + 1;
    }
    proof {
        assert(s@.take(s.len() as int) =~= s@);
    }
}

// ---------------------------------------------------------------------------
// Decimal rendering (what `format!("{}", n)` prints for an unsigned integer)
// ---------------------------------------------------------------------------

/// The ASCII digit character for `d` (0 <= d < 10).
pub open spec fn decimal_digit(d: nat) -> char {
    ('0' as u32 + d) as char
}

/// The decimal representation of `n`: no sign, no leading zeros, "0" for zero.
pub open spec fn decimal(n: nat) -> Seq<char>
    decreases n,
{
    if n < 10 {
        seq![decimal_digit(n)]
    } else {
        decimal(n / 10).push(decimal_digit(n % 10))
    }
}

/// The numeric value of a string of decimal digit characters.
pub open spec fn digits_value(s: Seq<char>) -> int
    decreases s.len(),
{
    if s.len() == 0 {
        0
    } else {
        digits_value(s.drop_last()) * 10 + (s.last() as u32 - '0' as u32)
    }
}

/// `c` is one of '0'..='9'.
pub open spec fn is_decimal_digit(c: char) -> bool {
    '0' <= c && c <= '9'
}

fn digit_char(d: u64) -> (c: char)
    requires
        d < 10,
    ensures
        c == decimal_digit(d as nat),
{
    if d == 0 {
        '0'
    } else if d == 1 {
        '1'
    } else if d == 2 {
        '2'
    } else if d == 3 {
        '3'
    } else if d == 4 {
        '4'
    } else if d == 5 {
        '5'
    } else if d == 6 {
        '6'
    } else if d == 7 {
        '7'
    } else if d == 8 {
        '8'
    } else {
        '9'
    }
}

/// The decimal representation of `n`, as characters.
pub fn decimal_chars(n: u64) -> (r: Vec<char>)
    ensures
        r@ == decimal(n as nat),
    decreases n,
{
    if n < 10 {
        let mut r: Vec<char> = Vec::new();
        r.push(digit_char(n));
        r
    } else {
        let mut r = decimal_chars(n / 10);
        r.push(digit_char(n % 10));
        r
    }
}

/// The decimal representation of `n`, as ASCII bytes.
pub fn decimal_bytes(n: u64) -> (r: Vec<u8>)
    ensures
        r@ == ascii_bytes(decimal(n as nat)),
    decreases n,
{
    if n < 10 {
        let mut r: Vec<u8> = Vec::new();
        r.push(digit_char(n) as u8);
        proof {
            assert(r@ =~= ascii_bytes(decimal(n as nat)));
        }
        r
    } else {
        let mut r = decimal_bytes(n / 10);
        let d = digit_char(n % 10);
        r.push(d as u8);
        proof {
            assert(ascii_bytes(decimal(n as nat)) =~= ascii_bytes(decimal((n / 10) as nat)).push(
                d as u8,
            ));
        }
        r
    }
}

/// Law: a decimal rendering is made of digits only, has no leading zero
/// (except the single digit of zero itself), and reads back as the number.
pub proof fn decimal_reads_back(n: nat)
    ensures
        decimal(n).len() >= 1,
        forall|i: int| 0 <= i < decimal(n).len() ==> is_decimal_digit(#[trigger] decimal(n)[i]),
        decimal(n).len() > 1 ==> decimal(n)[0] != '0',
        digits_value(decimal(n)) == n,
    decreases n,
{
    assert(decimal_digit(n % 10) as u32 == 48 + n % 10);
    if n < 10 {
        assert(decimal(n) == seq![decimal_digit(n)]);
        assert(decimal(n).drop_last() =~= Seq::<char>::empty());
        assert(digits_value(decimal(n)) == digits_value(decimal(n).drop_last()) * 10 + (
        decimal(n).last() as u32 - '0' as u32));
    } else {
        decimal_reads_back(n / 10);
        let d = decimal(n);
        assert(d.drop_last() =~= decimal(n / 10));
        assert(d.last() == decimal_digit(n % 10));
        assert(digits_value(d) == digits_value(decimal(n / 10)) * 10 + (n % 10));
        assert forall|i: int| 0 <= i < d.len() implies is_decimal_digit(#[trigger] d[i]) by {
            if i < d.len() - 1 {
                assert(d[i] == decimal(n / 10)[i]);
            }
        }
        if n / 10 >= 10 {
            decimal_reads_back(n / 100);
            assert(decimal(n / 10).len() > 1);
            assert(d[0] == decimal(n / 10)[0]);
        } else {
            assert(decimal(n / 10) == seq![decimal_digit(n / 10)]);
            assert(d[0] == decimal_digit(n / 10));
        }
    }
}

// ---------------------------------------------------------------------------
// `char::escape_default`
// ---------------------------------------------------------------------------

/// The lowercase hexadecimal digit character for `d` (0 <= d < 16).
pub open spec fn hex_digit(d: nat) -> char {
    seq!['0', '1', '2', '3', '4', '5', '6', '7', '8', '9', 'a', 'b', 'c', 'd', 'e', 'f'][d as int]
}

/// Lowercase hexadecimal representation without leading zeros ("0" for zero).
pub open spec fn hex_lower(n: nat) -> Seq<char>
    decreases n,
{
    if n < 16 {
        seq![hex_digit(n)]
    } else {
        hex_lower(n / 16).push(hex_digit(n % 16))
    }
}

/// What `char::escape_default` yields for `c`: `\t`, `\r`, `\n`, `\'`, `\"`
/// and `\\` for the six special characters, the character itself for the
/// rest of printable ASCII (0x20..=0x7e), and `\u{NNNN}` (lowercase hex, no
/// leading zeros) for everything else.
pub open spec fn escape_char(c: char) -> Seq<char> {
    if c == '\t' {
        seq!['\\', 't']
    } else if c == '\r' {
        seq!['\\', 'r']
    } else if c == '\n' {
        seq!['\\', 'n']
    } else if c == '\'' || c == '"' || c == '\\' {
        seq!['\\', c]
    } else if 0x20 <= c as u32 && c as u32 <= 0x7e {
        seq![c]
    } else {
        seq!['\\', 'u', '{'] + hex_lower(c as u32 as nat) + seq!['}']
    }
}

/// Every character of `s` escaped with `escape_char`, concatenated.
pub open spec fn escape_text(s: Seq<char>) -> Seq<char>
    decreases s.len(),
{
    if s.len() == 0 {
        Seq::empty()
    } else {
        escape_text(s.drop_last()) + escape_char(s.last())
    }
}

/// `c` is a printable ASCII character (0x20..=0x7e).
pub open spec fn is_printable_ascii(c: char) -> bool {
    0x20 <= c as u32 && c as u32 <= 0x7e
}

fn hex_digit_char(d: u32) -> (c: char)
    requires
        d < 16,
    ensures
        c == hex_digit(d as nat),
{
    if d < 10 {
        digit_char(d as u64)
    } else if d == 10 {
        'a'
    } else if d == 11 {
        'b'
    } else if d == 12 {
        'c'
    } else if d == 13 {
        'd'
    } else if d == 14 {
        'e'
    } else {
        'f'
    }
}

fn push_hex_lower(out: &mut Vec<char>, n: u32)
    ensures
        final(out)@ == old(out)@ + hex_lower(n as nat),
    decreases n,
{
    if n < 16 {
        out.push(hex_digit_char(n));
    } else {
        push_hex_lower(out, n / 16);
        out.push(hex_digit_char(n % 16));
    }
}

/// Appends the `escape_default` rendering of `c` to `out`.
pub fn push_escaped_char(out: &mut Vec<char>, c: char)
    ensures
        final(out)@ == old(out)@ + escape_char(c),
{
    let ghost start = out@;
    if c == '\t' {
        out.push('\\');
        out.push('t');
    } else if c == '\r' {
        out.push('\\');
        out.push('r');
    } else if c == '\n' {
        out.push('\\');
        out.push('n');
    } else if c == '\'' || c == '"' || c == '\\' {
        out.push('\\');
        out.push(c);
    } else if 0x20 <= c as u32 && c as u32 <= 0x7e {
        out.push(c);
    } else {
        out.push('\\');
        out.push('u');
        out.push('{');
        push_hex_lower(out, c as u32);
        out.push('}');
        assert(out@ =~= start + escape_char(c));
    }
    assert(out@ =~= start + escape_char(c));
}

/// `s` with every character escaped as `char::escape_default` does.
pub fn escape_default_chars(s: &Vec<char>) -> (r: Vec<char>)
    ensures
        r@ == escape_text(s@),
{
    let mut r: Vec<char> = Vec::new();
    let mut i: usize = 0;
    while i < s.len()
        invariant
            i <= s.len(),
            r@ == escape_text(s@.take(i as int)),
        decreases s.len() - i,
    {
        proof {
            assert(s@.take(i + 1).drop_last() =~= s@.take(i as int));
        }
        push_escaped_char(&mut r, s[i]);
        i = i + 1;
    }
    proof {
        assert(s@.take(s.len() as int) =~= s@);
    }
    r
}

/// The value of a lowercase hexadecimal digit character.
pub open spec fn hex_digit_value(c: char) -> int {
    if '0' <= c && c <= '9' {
        c as u32 - '0' as u32
    } else {
        c as u32 - 'a' as u32 + 10
    }
}

/// The numeric value of a string of lowercase hexadecimal digits.
pub open spec fn hex_value(s: Seq<char>) -> int
    decreases s.len(),
{
    if s.len() == 0 {
        0
    } else {
        hex_value(s.drop_last()) * 16 + hex_digit_value(s.last())
    }
}

proof fn hex_digit_reads_back(d: nat)
    requires
        d < 16,
    ensures
        hex_digit_value(hex_digit(d)) == d,
{
    let t = seq!['0', '1', '2', '3', '4', '5', '6', '7', '8', '9', 'a', 'b', 'c', 'd', 'e', 'f'];
    assert(hex_digit(d) == t[d as int]);
    if d == 0 { assert(t[0] == '0'); } else if d == 1 { assert(t[1] == '1'); }
    else if d == 2 { assert(t[2] == '2'); } else if d == 3 { assert(t[3] == '3'); }
    else if d == 4 { assert(t[4] == '4'); } else if d == 5 { assert(t[5] == '5'); }
    else if d == 6 { assert(t[6] == '6'); } else if d == 7 { assert(t[7] == '7'); }
    else if d == 8 { assert(t[8] == '8'); } else if d == 9 { assert(t[9] == '9'); }
    else if d == 10 { assert(t[10] == 'a'); } else if d == 11 { assert(t[11] == 'b'); }
    else if d == 12 { assert(t[12] == 'c'); } else if d == 13 { assert(t[13] == 'd'); }
    else if d == 14 { assert(t[14] == 'e'); } else { assert(t[15] == 'f'); }
}

/// Law: the hexadecimal rendering reads back as the number.
pub proof fn hex_reads_back(n: nat)
    ensures
        hex_value(hex_lower(n)) == n,
    decreases n,
{
    hex_digit_reads_back(n % 16);
    let h = hex_lower(n);
    if n < 16 {
        assert(h == seq![hex_digit(n)]);
        assert(h.drop_last() =~= Seq::<char>::empty());
        assert(hex_value(h) == hex_value(h.drop_last()) * 16 + hex_digit_value(h.last()));
    } else {
        hex_reads_back(n / 16);
        assert(h.drop_last() =~= hex_lower(n / 16));
        assert(h.last() == hex_digit(n % 16));
        assert(hex_value(h) == hex_value(hex_lower(n / 16)) * 16 + (n % 16));
    }
}

/// Law (escaping): printable ASCII other than the quote characters and the
/// backslash stays as it is; tab, carriage return and line feed become
/// `\t`, `\r`, `\n`; the quotes and backslash get a backslash in front;
/// every other character becomes `\u{...}` around lowercase hex digits
/// whose value is the character's code point.
pub proof fn escape_char_laws(c: char)
    ensures
        is_printable_ascii(c) && c != '\'' && c != '"' && c != '\\' ==> escape_char(c) == seq![c],
        c == '\t' ==> escape_char(c) == seq!['\\', 't'],
        c == '\r' ==> escape_char(c) == seq!['\\', 'r'],
        c == '\n' ==> escape_char(c) == seq!['\\', 'n'],
        (c == '\'' || c == '"' || c == '\\') ==> escape_char(c) == seq!['\\', c],
        (!is_printable_ascii(c) && c != '\t' && c != '\r' && c != '\n') ==> ({
            let e = escape_char(c);
            &&& e.len() >= 4
            &&& e.take(3) == seq!['\\', 'u', '{']
            &&& e.last() == '}'
            &&& hex_value(e.subrange(3, e.len() - 1)) == c as u32
        }),
{
    if !is_printable_ascii(c) && c != '\t' && c != '\r' && c != '\n' {
        let e = escape_char(c);
        let h = hex_lower(c as u32 as nat);
        hex_reads_back(c as u32 as nat);
        assert(h.len() >= 1) by {
            if (c as u32) >= 16 {
                assert(h == hex_lower((c as u32 / 16) as nat).push(hex_digit((c as u32 % 16) as nat)));
            }
        }
        assert(e.take(3) =~= seq!['\\', 'u', '{']);
        assert(e.subrange(3, e.len() - 1) =~= h);
    }
}

proof fn hex_lower_printable(n: nat)
    ensures
        forall|i: int| 0 <= i < hex_lower(n).len() ==> is_printable_ascii(#[trigger] hex_lower(n)[i]),
    decreases n,
{
    if n >= 16 {
        hex_lower_printable(n / 16);
        let h = hex_lower(n);
        assert forall|i: int| 0 <= i < h.len() implies is_printable_ascii(#[trigger] h[i]) by {
            if i < h.len() - 1 {
                assert(h[i] == hex_lower(n / 16)[i]);
            }
        }
    }
}

/// Law: escaping leaves only printable ASCII, so an escaped text cannot carry
/// control characters (such as terminal escape sequences).
pub proof fn escaped_text_is_printable(s: Seq<char>)
    ensures
        forall|i: int|
            0 <= i < escape_text(s).len() ==> is_printable_ascii(#[trigger] escape_text(s)[i]),
    decreases s.len(),
{
    if s.len() > 0 {
        escaped_text_is_printable(s.drop_last());
        let c = s.last();
        hex_lower_printable(c as u32 as nat);
        let e = escape_char(c);
        assert forall|i: int| 0 <= i < e.len() implies is_printable_ascii(#[trigger] e[i]) by {
            if !(c == '\t' || c == '\r' || c == '\n' || c == '\'' || c == '"' || c == '\\'
                || (0x20 <= c as u32 && c as u32 <= 0x7e)) {
                if 3 <= i < e.len() - 1 {
                    assert(e[i] == hex_lower(c as u32 as nat)[i - 3]);
                }
            }
        }
        let t = escape_text(s);
        assert forall|i: int| 0 <= i < t.len() implies is_printable_ascii(#[trigger] t[i]) by {
            let p = escape_text(s.drop_last());
            if i < p.len() {
                assert(t[i] == p[i]);
            } else {
                assert(t[i] == e[i - p.len()]);
            }
        }
    }
}

// ---------------------------------------------------------------------------
// Substring tests
// ---------------------------------------------------------------------------

/// `p` is a prefix of `s`.
pub open spec fn has_prefix(s: Seq<char>, p: Seq<char>) -> bool {
    p.len() <= s.len() && s.take(p.len() as int) == p
}

/// `p` occurs in `s` as a contiguous substring.
pub open spec fn contains_sub(s: Seq<char>, p: Seq<char>) -> bool {
    exists|i: int| 0 <= i && i + p.len() <= s.len() && #[trigger] s.subrange(i, i + p.len()) == p
}

fn matches_at(s: &Vec<char>, p: &Vec<char>, i: usize) -> (r: bool)
    requires
        i + p.len() <= s.len(),
    ensures
        r == (s@.subrange(i as int, i + p.len()) == p@),
{
    let mut j: usize = 0;
    while j < p.len()
        invariant
            j <= p.len(),
            i + p.len() <= s.len(),
            forall|k: int| 0 <= k < j ==> s@[i + k] == p@[k],
        decreases p.len() - j,
    {
        if s[i + j] != p[j] {
            assert(s@.subrange(i as int, i + p.len())[j as int] != p@[j as int]);
            return false;
        }
        j = j + 1;
    }
    assert(s@.subrange(i as int, i + p.len()) =~= p@);
    true
}

/// Whether `p` is a prefix of `s`.
pub fn starts_with_chars(s: &Vec<char>, p: &Vec<char>) -> (r: bool)
    ensures
        r == has_prefix(s@, p@),
{
    if p.len() > s.len() {
        false
    } else {
        let r = matches_at(s, p, 0);
        assert(s@.subrange(0, p.len() as int) == s@.take(p.len() as int));
        r
    }
}

/// Whether `p` occurs in `s`.
pub fn contains_chars(s: &Vec<char>, p: &Vec<char>) -> (r: bool)
    ensures
        r == contains_sub(s@, p@),
{
    if p.len() == 0 {
        assert(s@.subrange(0int, 0int + p@.len()) =~= p@);
        return true;
    }
    if p.len() > s.len() {
        return false;
    }
    let last = s.len() - p.len();
    let mut i: usize = 0;
    while i <= last
        invariant
            last + p.len() == s.len(),
            last < usize::MAX,
            i <= last + 1,
            forall|k: int| 0 <= k < i ==> #[trigger] s@.subrange(k, k + p.len()) != p@,
        decreases last + 1 - i,
    {
        if matches_at(s, p, i) {
            return true;
        }
        i = i + 1;
    }
    false
}

/// Whether `a` and `b` are the same text.
pub fn chars_equal(a: &Vec<char>, b: &Vec<char>) -> (r: bool)
    ensures
        r == (a@ == b@),
{
    if a.len() != b.len() {
        return false;
    }
    let mut i: usize = 0;
    while i < a.len()
        invariant
            i <= a.len(),
            a.len() == b.len(),
            forall|k: int| 0 <= k < i ==> a@[k] == b@[k],
        decreases a.len() - i,
    {
        if a[i] != b[i] {
            return false;
        }
        i = i + 1;
    }
    assert(a@ =~= b@);
    true
}

/// Whether `a` and `b` hold the same bytes.
pub fn bytes_equal(a: &Vec<u8>, b: &Vec<u8>) -> (r: bool)
    ensures
        r == (a@ == b@),
{
    if a.len() != b.len() {
        return false;
    }
    let mut i: usize = 0;
    while i < a.len()
        invariant
            i <= a.len(),
            a.len() == b.len(),
            forall|k: int| 0 <= k < i ==> a@[k] == b@[k],
        decreases a.len() - i,
    {
        if a[i] != b[i] {
            return false;
        }
        i = i + 1;
    }
    assert(a@ =~= b@);
    true
}

// ---------------------------------------------------------------------------
// UTF-8 widths
// ---------------------------------------------------------------------------

/// Number of bytes UTF-8 uses to encode `c`.
pub open spec fn utf8_width(c: char) -> nat {
    if (c as u32) < 0x80 {
        1
    } else if (c as u32) < 0x800 {
        2
    } else if (c as u32) < 0x10000 {
        3
    } else {
        4
    }
}

/// Number of bytes UTF-8 uses to encode `s`.
pub open spec fn utf8_len(s: Seq<char>) -> nat
    decreases s.len(),
{
    if s.len() == 0 {
        0
    } else {
        utf8_len(s.drop_last()) + utf8_width(s.last())
    }
}

/// Number of bytes UTF-8 uses to encode `c`.
pub fn char_utf8_width(c: char) -> (w: usize)
    ensures
        w == utf8_width(c),
{
    let v = c as u32;
    if v < 0x80 {
        1
    } else if v < 0x800 {
        2
    } else if v < 0x10000 {
        3
    } else {
        4
    }
}

// ---------------------------------------------------------------------------
// Lines and white space
// ---------------------------------------------------------------------------

/// `c` has the Unicode `White_Space` property (what `char::is_whitespace`
/// tests): U+0009..=U+000D, U+0020, U+0085, U+00A0, U+1680,
/// U+2000..=U+200A, U+2028, U+2029, U+202F, U+205F and U+3000.
pub open spec fn is_white_space(c: char) -> bool {
    let v = c as u32;
    (0x9 <= v && v <= 0xd) || v == 0x20 || v == 0x85 || v == 0xa0 || v == 0x1680 || (0x2000
        <= v && v <= 0x200a) || v == 0x2028 || v == 0x2029 || v == 0x202f || v == 0x205f || v
        == 0x3000
}

/// Whether `c` has the Unicode `White_Space` property.
pub fn char_is_white_space(c: char) -> (r: bool)
    ensures
        r == is_white_space(c),
{
    let v = c as u32;
    (0x9 <= v && v <= 0xd) || v == 0x20 || v == 0x85 || v == 0xa0 || v == 0x1680 || (0x2000
        <= v && v <= 0x200a) || v == 0x2028 || v == 0x2029 || v == 0x202f || v == 0x205f || v
        == 0x3000
}

/// The text before the first line feed (all of `s` when there is none).
pub open spec fn first_line(s: Seq<char>) -> Seq<char>
    decreases s.len(),
{
    if s.len() == 0 || s[0] == '\n' {
        Seq::empty()
    } else {
        seq![s[0]] + first_line(s.drop_first())
    }
}

/// `s` without its leading white space.
pub open spec fn trim_start(s: Seq<char>) -> Seq<char>
    decreases s.len(),
{
    if s.len() > 0 && is_white_space(s[0]) {
        trim_start(s.drop_first())
    } else {
        s
    }
}

/// `s` without its trailing white space.
pub open spec fn trim_end(s: Seq<char>) -> Seq<char>
    decreases s.len(),
{
    if s.len() > 0 && is_white_space(s.last()) {
        trim_end(s.drop_last())
    } else {
        s
    }
}

/// `s` without leading and trailing white space (what `str::trim` keeps).
pub open spec fn trim(s: Seq<char>) -> Seq<char> {
    trim_end(trim_start(s))
}

proof fn first_line_is_prefix(s: Seq<char>)
    ensures
        first_line(s).len() <= s.len(),
        first_line(s) == s.take(first_line(s).len() as int),
        forall|i: int| 0 <= i < first_line(s).len() ==> first_line(s)[i] != '\n',
    decreases s.len(),
{
    if s.len() > 0 && s[0] != '\n' {
        first_line_is_prefix(s.drop_first());
        let f = first_line(s);
        let g = first_line(s.drop_first());
        assert(f == seq![s[0]] + g);
        assert(f =~= s.take(f.len() as int)) by {
            assert forall|i: int| 0 <= i < f.len() implies f[i] == s[i] by {
                if i > 0 {
                    assert(f[i] == g[i - 1]);
                    assert(g[i - 1] == s.drop_first().take(g.len() as int)[i - 1]);
                }
            }
        }
        assert forall|i: int| 0 <= i < f.len() implies f[i] != '\n' by {
            if i > 0 {
                assert(f[i] == g[i - 1]);
            }
        }
    } else {
        assert(first_line(s) =~= s.take(0));
    }
}

proof fn trim_start_is_suffix(s: Seq<char>)
    ensures
        trim_start(s).len() <= s.len(),
        trim_start(s) == s.skip(s.len() - trim_start(s).len()),
        trim_start(s).len() > 0 ==> !is_white_space(trim_start(s)[0]),
    decreases s.len(),
{
    if s.len() > 0 && is_white_space(s[0]) {
        trim_start_is_suffix(s.drop_first());
        let t = trim_start(s);
        assert(s.drop_first().skip(s.drop_first().len() - t.len()) =~= s.skip(s.len() - t.len()));
    } else {
        assert(s.skip(0) =~= s);
    }
}

proof fn trim_end_is_prefix(s: Seq<char>)
    ensures
        trim_end(s).len() <= s.len(),
        trim_end(s) == s.take(trim_end(s).len() as int),
        trim_end(s).len() > 0 ==> !is_white_space(trim_end(s).last()),
    decreases s.len(),
{
    if s.len() > 0 && is_white_space(s.last()) {
        trim_end_is_prefix(s.drop_last());
        let t = trim_end(s);
        assert(s.drop_last().take(t.len() as int) =~= s.take(t.len() as int));
    } else {
        assert(s.take(s.len() as int) =~= s);
    }
}

/// Law: the trimmed first line of a text is a piece of the text that holds
/// no line feed and neither starts nor ends with white space.
pub proof fn trimmed_first_line_laws(s: Seq<char>)
    ensures
        ({
            let p = trim(first_line(s));
            &&& exists|lo: int| 0 <= lo && lo + p.len() <= s.len() && #[trigger] s.subrange(lo, lo + p.len()) == p
            &&& forall|i: int| 0 <= i < p.len() ==> p[i] != '\n'
            &&& p.len() > 0 ==> !is_white_space(p[0]) && !is_white_space(p.last())
        }),
{
    let f = first_line(s);
    first_line_is_prefix(s);
    let a = trim_start(f);
    trim_start_is_suffix(f);
    let p = trim_end(a);
    trim_end_is_prefix(a);
    let lo = f.len() - a.len();
    assert(p =~= s.subrange(lo, lo + p.len())) by {
        assert forall|i: int| 0 <= i < p.len() implies p[i] == s[lo + i] by {
            assert(p[i] == a[i]);
            assert(a[i] == f[lo + i]);
            assert(f[lo + i] == s[lo + i]);
        }
    }
    assert forall|i: int| 0 <= i < p.len() implies p[i] != '\n' by {
        assert(p[i] == a[i]);
        assert(a[i] == f[lo + i]);
    }
    if p.len() > 0 {
        assert(p[0] == a[0]);
    }
}

/// The text of `s` before its first line feed.
pub fn first_line_chars(s: &Vec<char>) -> (r: Vec<char>)
    ensures
        r@ == first_line(s@),
{
    let mut r: Vec<char> = Vec::new();
    let mut i: usize = 0;
    proof {
        assert(s@.skip(0) =~= s@);
    }
    while i < s.len() && s[i] != '\n'
        invariant
            i <= s.len(),
            r@ == s@.take(i as int),
            first_line(s@) == r@ + first_line(s@.skip(i as int)),
        decreases s.len() - i,
    {
        proof {
            let rest = s@.skip(i as int);
            assert(rest[0] == s@[i as int]);
            assert(rest.drop_first() =~= s@.skip(i + 1));
            assert(s@.take(i + 1) =~= s@.take(i as int).push(s@[i as int]));
            assert(first_line(rest) == seq![s@[i as int]] + first_line(s@.skip(i + 1)));
            assert(r@ + first_line(rest) =~= s@.take(i + 1) + first_line(s@.skip(i + 1)));
        }
        r.push(s[i]);
        i = i + 1;
    }
    proof {
        let rest = s@.skip(i as int);
        if i < s.len() {
            assert(rest[0] == s@[i as int]);
        }
        assert(first_line(rest) =~= Seq::<char>::empty());
        assert(r@ + first_line(rest) =~= r@);
    }
    r
}

/// `s` without leading and trailing white space.
pub fn trim_chars(s: &Vec<char>) -> (r: Vec<char>)
    ensures
        r@ == trim(s@),
{
    let mut lo: usize = 0;
    proof {
        assert(s@.skip(0) =~= s@);
    }
    while lo < s.len() && char_is_white_space(s[lo])
        invariant
            lo <= s.len(),
            trim_start(s@) == trim_start(s@.skip(lo as int)),
        decreases s.len() - lo,
    {
        proof {
            let rest = s@.skip(lo as int);
            assert(rest[0] == s@[lo as int]);
            assert(rest.drop_first() =~= s@.skip(lo + 1));
        }
        lo = lo + 1;
    }
    let ghost started = s@.skip(lo as int);
    proof {
        if lo < s.len() {
            assert(started[0] == s@[lo as int]);
        }
        assert(trim_start(s@) == started);
    }
    let mut hi: usize = s.len();
    proof {
        assert(started.take(started.len() as int) =~= started);
    }
    while hi > lo && char_is_white_space(s[hi - 1])
        invariant
            lo <= hi <= s.len(),
            started == s@.skip(lo as int),
            trim_end(started) == trim_end(started.take(hi - lo)),
        decreases hi - lo,
    {
        proof {
            let part = started.take(hi - lo);
            assert(part.last() == s@[hi - 1]);
            assert(part.drop_last() =~= started.take(hi - 1 - lo));
        }
        hi = hi - 1;
    }
    let mut r: Vec<char> = Vec::new();
    let mut i: usize = lo;
    while i < hi
        invariant
            lo <= i <= hi <= s.len(),
            r@ == s@.subrange(lo as int, i as int),
        decreases hi - i,
    {
        proof {
            assert(s@.subrange(lo as int, i + 1) =~= s@.subrange(lo as int, i as int).push(
                s@[i as int],
            ));
        }
        r.push(s[i]);
        i = i + 1;
    }
    proof {
        let part = started.take(hi - lo);
        if hi > lo {
            assert(part.last() == s@[hi - 1]);
        }
        assert(trim_end(part) == part);
        assert(part =~= s@.subrange(lo as int, hi as int));
    }
    r
}

} // verus!
