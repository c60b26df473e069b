//! Compact JSON framing of the messages that are signed, byte for byte as `serde_json`
//! writes them: object fields in declaration order, no whitespace, strings escaped with
//! `\"`, `\\`, `\b`, `\t`, `\n`, `\f`, `\r` and `\u00xx` (lowercase) for other control
//! characters, integers in plain decimal and absent options as `null`.
use vstd::prelude::*;
use crate::crypto::{hex_digit, hex_encode, hex_lower};
use crate::text::{chars_of, string_push};

verus! {

/// The JSON escape of one character inside a string.
pub open spec fn json_escape_char(c: char) -> Seq<char> {
    if c == '"' {
        seq!['\\', '"']
    } else if c == '\\' {
        seq!['\\', '\\']
    } else if c == '\u{8}' {
        seq!['\\', 'b']
    } else if c == '\t' {
        seq!['\\', 't']
    } else if c == '\n' {
        seq!['\\', 'n']
    } else if c == '\u{c}' {
        seq!['\\', 'f']
    } else if c == '\r' {
        seq!['\\', 'r']
    } else if (c as nat) < 0x20 {
        seq!['\\', 'u', '0', '0', hex_digit((c as nat) / 16), hex_digit((c as nat) % 16)]
    } else {
        seq![c]
    }
}

/// The escaped contents of a JSON string.
pub open spec fn json_escape(s: Seq<char>) -> Seq<char>
    decreases s.len(),
{
    if s.len() == 0 {
        seq![]
    } else {
        json_escape(s.drop_last()) + json_escape_char(s.last())
    }
}

/// A JSON string literal.
pub open spec fn json_string(s: Seq<char>) -> Seq<char> {
    seq!['"'] + json_escape(s) + seq!['"']
}

/// The decimal digit for `n < 10`.
pub open spec fn decimal_digit(n: nat) -> char {
    (('0' as nat) + n) as char
}

/// The decimal representation of `n`.
pub open spec fn decimal(n: nat) -> Seq<char>
    decreases n,
{
    if n < 10 {
        seq![decimal_digit(n)]
    } else {
        decimal(n / 10) + seq![decimal_digit(n % 10)]
    }
}

/// A JSON number, or `null` when absent.
pub open spec fn json_opt_number(n: Option<nat>) -> Seq<char> {
    match n {
        Some(v) => decimal(v),
        None => "null"@,
    }
}

/// `"name":` in an object.
pub open spec fn json_key(name: Seq<char>) -> Seq<char> {
    json_string(name) + seq![':']
}

/// Appends the characters of `s`.
pub fn push_str(out: &mut String, s: &str)
    ensures
        final(out)@ == old(out)@ + s@,
{
    let cs = chars_of(s);
    let mut i: usize = 0;
    while i < cs.len()
        invariant
            i <= cs@.len(),
            cs@ == s@,
            out@ == old(out)@ + cs@.take(i as int),
        decreases cs@.len() - i,
    {
        string_push(out, cs[i]);
        i = i + 1;
        assert(old(out)@ + cs@.take(i as int) =~= (old(out)@ + cs@.take((i - 1) as int)).push(
            cs@[i - 1],
        ));
    }
    assert(cs@.take(cs@.len() as int) =~= cs@);
}

fn hex_digit_char(n: u32) -> (c: char)
    requires
        n < 16,
    ensures
        c == hex_digit(n as nat),
{
    if n < 10 {
        char_from_u32_ascii(('0' as u32) + n)
    } else {
        char_from_u32_ascii(('a' as u32) + n - 10)
    }
}

fn char_from_u32_ascii(v: u32) -> (c: char)
    requires
        v < 128,
    ensures
        c as nat == v as nat,
{
    (v as u8) as char
}

/// Appends the JSON escape of one character.
fn push_escaped_char(out: &mut String, c: char)
    ensures
        final(out)@ == old(out)@ + json_escape_char(c),
{
    let ghost start = old(out)@;
    if c == '"' {
        string_push(out, '\\');
        string_push(out, '"');
    } else if c == '\\' {
        string_push(out, '\\');
        string_push(out, '\\');
    } else if c == '\u{8}' {
        string_push(out, '\\');
        string_push(out, 'b');
    } else if c == '\t' {
        string_push(out, '\\');
        string_push(out, 't');
    } else if c == '\n' {
        string_push(out, '\\');
        string_push(out, 'n');
    } else if c == '\u{c}' {
        string_push(out, '\\');
        string_push(out, 'f');
    } else if c == '\r' {
        string_push(out, '\\');
        string_push(out, 'r');
    } else if (c as u32) < 0x20 {
        let v = c as u32;
        string_push(out, '\\');
        string_push(out, 'u');
        string_push(out, '0');
        string_push(out, '0');
        string_push(out, hex_digit_char(v / 16));
        string_push(out, hex_digit_char(v % 16));
    } else {
        string_push(out, c);
    }
    assert(out@ =~= start + json_escape_char(c));
}

/// Appends a JSON string literal holding `s`.
pub fn push_json_string(out: &mut String, s: &str)
    ensures
        final(out)@ == old(out)@ + json_string(s@),
{
    let cs = chars_of(s);
    string_push(out, '"');
    let ghost base = out@;
    let mut i: usize = 0;
    while i < cs.len()
        invariant
            i <= cs@.len(),
            cs@ == s@,
            out@ == base + json_escape(cs@.take(i as int)),
        decreases cs@.len() - i,
    {
        push_escaped_char(out, cs[i]);
        i = i + 1;
        assert(cs@.take(i as int).drop_last() =~= cs@.take((i - 1) as int));
        assert(base + json_escape(cs@.take(i as int)) =~= base + json_escape(cs@.take((i - 1) as int))
            + json_escape_char(cs@[i - 1]));
    }
    assert(cs@.take(cs@.len() as int) =~= cs@);
    string_push(out, '"');
    assert(out@ =~= old(out)@ + json_string(s@));
}

/// Appends `"name":`.
pub fn push_json_key(out: &mut String, name: &str)
    ensures
        final(out)@ == old(out)@ + json_key(name@),
{
    push_json_string(out, name);
    string_push(out, ':');
    assert(out@ =~= old(out)@ + json_key(name@));
}

proof fn lemma_decimal_nonempty(n: nat)
    ensures
        decimal(n).len() >= 1,
    decreases n,
{
    if n >= 10 {
        lemma_decimal_nonempty(n / 10);
    }
}

/// Appends the decimal representation of `n`.
pub fn push_decimal(out: &mut String, n: u64)
    ensures
        final(out)@ == old(out)@ + decimal(n as nat),
    decreases n,
{
    if n >= 10 {
        push_decimal(out, n / 10);
    }
    string_push(out, char_from_u32_ascii(('0' as u32) + ((n % 10) as u32)));
    assert(out@ =~= old(out)@ + decimal(n as nat));
}

/// Appends a number, or `null` when absent.
pub fn push_opt_decimal(out: &mut String, n: Option<u64>)
    ensures
        final(out)@ == old(out)@ + json_opt_number(
            match n {
                Some(v) => Some(v as nat),
                None => None,
            },
        ),
{
    match n {
        Some(v) => push_decimal(out, v),
        None => push_str(out, "null"),
    }
}

/// The 16 big-endian bytes of a UUID value.
pub open spec fn uuid_bytes(u: u128) -> Seq<u8> {
    Seq::new(16, |i: int| ((u >> ((15 - i) * 8) as u128) & 0xff) as u8)
}

/// The hyphenated lowercase text of a UUID (8-4-4-4-12 hexadecimal digits).
pub open spec fn uuid_text(u: u128) -> Seq<char> {
    let b = uuid_bytes(u);
    hex_lower(b.subrange(0, 4)) + seq!['-'] + hex_lower(b.subrange(4, 6)) + seq!['-'] + hex_lower(
        b.subrange(6, 8),
    ) + seq!['-'] + hex_lower(b.subrange(8, 10)) + seq!['-'] + hex_lower(b.subrange(10, 16))
}

fn push_chars(out: &mut String, cs: &Vec<char>, from: usize, to: usize)
    requires
        from <= to <= cs@.len(),
    ensures
        final(out)@ == old(out)@ + cs@.subrange(from as int, to as int),
{
    let mut i = from;
    while i < to
        invariant
            from <= i <= to <= cs@.len(),
            out@ == old(out)@ + cs@.subrange(from as int, i as int),
        decreases to - i,
    {
        string_push(out, cs[i]);
        i = i + 1;
        assert(old(out)@ + cs@.subrange(from as int, i as int) =~= (old(out)@ + cs@.subrange(
            from as int,
            (i - 1) as int,
        )).push(cs@[i - 1]));
    }
}

proof fn lemma_hex_lower_concat(a: Seq<u8>, b: Seq<u8>)
    ensures
        hex_lower(a + b) == hex_lower(a) + hex_lower(b),
    decreases b.len(),
{
    if b.len() == 0 {
        assert(a + b =~= a);
    } else {
        lemma_hex_lower_concat(a, b.drop_last());
        assert((a + b).drop_last() =~= a + b.drop_last());
    }
}

proof fn lemma_hex_lower_len2(bytes: Seq<u8>)
    ensures
        hex_lower(bytes).len() == 2 * bytes.len(),
    decreases bytes.len(),
{
    if bytes.len() > 0 {
        lemma_hex_lower_len2(bytes.drop_last());
    }
}

proof fn lemma_hex_lower_subrange(bytes: Seq<u8>, i: int, j: int)
    requires
        0 <= i <= j <= bytes.len(),
    ensures
        hex_lower(bytes.subrange(i, j)) == hex_lower(bytes).subrange(2 * i, 2 * j),
{
    let a = bytes.subrange(0, i);
    let m = bytes.subrange(i, j);
    let c = bytes.subrange(j, bytes.len() as int);
    assert(bytes =~= a + m + c);
    lemma_hex_lower_concat(a + m, c);
    lemma_hex_lower_concat(a, m);
    lemma_hex_lower_len2(a);
    lemma_hex_lower_len2(m);
    assert(hex_lower(bytes).subrange(2 * i, 2 * j) =~= hex_lower(m));
}

/// Appends the hyphenated text of a UUID.
pub fn push_uuid(out: &mut String, u: u128)
    ensures
        final(out)@ == old(out)@ + uuid_text(u),
{
    let mut b: Vec<u8> = Vec::new();
    let mut i: usize = 0;
    while i < 16
        invariant
            i <= 16,
            b@ =~= uuid_bytes(u).take(i as int),
        decreases 16 - i,
    {
        let shift: u128 = ((15 - i) * 8) as u128;
        b.push(((u >> shift) & 0xff) as u8);
        i = i + 1;
    }
    assert(b@ =~= uuid_bytes(u));
    let h = hex_encode(b.as_slice());
    proof {
        lemma_hex_lower_subrange(b@, 0, 4);
        lemma_hex_lower_subrange(b@, 4, 6);
        lemma_hex_lower_subrange(b@, 6, 8);
        lemma_hex_lower_subrange(b@, 8, 10);
        lemma_hex_lower_subrange(b@, 10, 16);
        lemma_hex_lower_len2(b@);
    }
    let ghost start = out@;
    push_chars(out, &h, 0, 8);
    string_push(out, '-');
    push_chars(out, &h, 8, 12);
    string_push(out, '-');
    push_chars(out, &h, 12, 16);
    string_push(out, '-');
    push_chars(out, &h, 16, 20);
    string_push(out, '-');
    push_chars(out, &h, 20, 32);
    assert(out@ =~= start + uuid_text(u));
}

/// A signed JSON integer.
pub open spec fn json_int(i: int) -> Seq<char> {
    if i < 0 {
        seq!['-'] + decimal((-i) as nat)
    } else {
        decimal(i as nat)
    }
}

/// A JSON string, or `null` when absent.
pub open spec fn json_opt_string(s: Option<Seq<char>>) -> Seq<char> {
    match s {
        Some(v) => json_string(v),
        None => "null"@,
    }
}

/// A JSON integer, or `null` when absent.
pub open spec fn json_opt_int(i: Option<int>) -> Seq<char> {
    match i {
        Some(v) => json_int(v),
        None => "null"@,
    }
}

/// Appends a signed integer.
pub fn push_i64(out: &mut String, n: i64)
    ensures
        final(out)@ == old(out)@ + json_int(n as int),
{
    if n < 0 {
        string_push(out, '-');
        let ghost mid = out@;
        let m: i128 = -(n as i128);
        push_decimal(out, m as u64);
        assert(out@ =~= old(out)@ + json_int(n as int));
    } else {
        push_decimal(out, n as u64);
    }
}

/// Appends a JSON string, or `null` when absent.
pub fn push_opt_json_string(out: &mut String, s: &Option<String>)
    ensures
        final(out)@ == old(out)@ + json_opt_string(
            match s {
                Some(v) => Some(v@),
                None => None,
            },
        ),
{
    match s {
        Some(v) => push_json_string(out, v.as_str()),
        None => push_str(out, "null"),
    }
}

/// Appends a JSON integer, or `null` when absent.
pub fn push_opt_i64(out: &mut String, n: Option<i64>)
    ensures
        final(out)@ == old(out)@ + json_opt_int(
            match n {
                Some(v) => Some(v as int),
                None => None,
            },
        ),
{
    match n {
        Some(v) => push_i64(out, v),
        None => push_str(out, "null"),
    }
}

} // verus!
