//! Text encodings for mail provider APIs: JSON string literals and Base64.
use vstd::prelude::*;
use crate::text::{chars_of, push_char};

verus! {

/// A hex digit, lower case.
pub open spec fn hex_char(v: nat) -> char {
    if v < 10 {
        ((v + 48) as u8) as char
    } else {
        ((v + 87) as u8) as char
    }
}

/// How one character is written inside a JSON string.
pub open spec fn json_escape_char(c: char) -> Seq<char> {
    if c == '"' {
        seq!['\\', '"']
    } else if c == '\\' {
        seq!['\\', '\\']
    } else if c == '\n' {
        seq!['\\', 'n']
    } else if c == '\r' {
        seq!['\\', 'r']
    } else if c == '\t' {
        seq!['\\', 't']
    } else if (c as u32) < 0x20 {
        seq!['\\', 'u', '0', '0', hex_char((c as u32 / 16) as nat), hex_char((c as u32 % 16) as nat)]
    } else {
        seq![c]
    }
}

/// The characters of `s` escaped for a JSON string.
pub open spec fn json_escape(s: Seq<char>) -> Seq<char>
    decreases s.len(),
{
    if s.len() == 0 {
        s
    } else {
        json_escape(s.drop_last()) + json_escape_char(s.last())
    }
}

/// `s` as a JSON string literal.
pub open spec fn json_string(s: Seq<char>) -> Seq<char> {
    seq!['"'] + json_escape(s) + seq!['"']
}

fn exec_hex_char(v: u32) -> (c: char)
    requires
        v < 16,
    ensures
        c == hex_char(v as nat),
{
    if v < 10 {
        ((v + 48) as u8) as char
    } else {
        ((v + 87) as u8) as char
    }
}

/// Appends `s` to `out` as a JSON string literal.
pub fn push_json_string(out: &mut String, s: &str)
    ensures
        final(out)@ == old(out)@ + json_string(s@),
{
    let c = chars_of(s);
    push_char(out, '"');
    let ghost start = out@;
    let mut i: usize = 0;
    assert(c@.take(0) =~= Seq::<char>::empty());
    while i < c.len()
        invariant
            0 <= i <= c.len(),
            c@ == s@,
            out@ == start + json_escape(c@.take(i as int)),
        decreases c.len() - i,
    {
        let ch = c[i];
        let ghost before = out@;
        let code: u32 = ch as u32;
        if ch == '"' {
            push_char(out, '\\');
            push_char(out, '"');
        } else if ch == '\\' {
            push_char(out, '\\');
            push_char(out, '\\');
        } else if ch == '\n' {
            push_char(out, '\\');
            push_char(out, 'n');
        } else if ch == '\r' {
            push_char(out, '\\');
            push_char(out, 'r');
        } else if ch == '\t' {
            push_char(out, '\\');
            push_char(out, 't');
        } else if code < 0x20 {
            push_char(out, '\\');
            push_char(out, 'u');
            push_char(out, '0');
            push_char(out, '0');
            push_char(out, exec_hex_char(code / 16));
            push_char(out, exec_hex_char(code % 16));
        } else {
            push_char(out, ch);
        }
        assert(out@ =~= before + json_escape_char(ch));
        assert(c@.take(i + 1).drop_last() =~= c@.take(i as int));
        i = i + 1;
    }
    assert(c@.take(c@.len() as int) =~= c@);
    push_char(out, '"');
    assert(out@ =~= old(out)@ + json_string(s@));
}

/// The Base64 alphabet (standard, with `+` and `/`).
pub open spec fn b64_char(v: nat) -> char {
    if v < 26 {
        ((v + 65) as u8) as char
    } else if v < 52 {
        ((v + 71) as u8) as char
    } else if v < 62 {
        ((v - 4) as u8) as char
    } else if v == 62 {
        '+'
    } else {
        '/'
    }
}

/// Standard Base64 with `=` padding.
pub open spec fn base64(d: Seq<u8>) -> Seq<char>
    decreases d.len(),
{
    if d.len() == 0 {
        Seq::empty()
    } else if d.len() == 1 {
        seq![b64_char((d[0] / 4) as nat), b64_char(((d[0] % 4) * 16) as nat), '=', '=']
    } else if d.len() == 2 {
        seq![
            b64_char((d[0] / 4) as nat),
            b64_char(((d[0] % 4) * 16 + d[1] / 16) as nat),
            b64_char(((d[1] % 16) * 4) as nat),
            '=',
        ]
    } else {
        seq![
            b64_char((d[0] / 4) as nat),
            b64_char(((d[0] % 4) * 16 + d[1] / 16) as nat),
            b64_char(((d[1] % 16) * 4 + d[2] / 64) as nat),
            b64_char((d[2] % 64) as nat),
        ] + base64(d.skip(3))
    }
}

fn exec_b64_char(v: u32) -> (c: char)
    requires
        v < 64,
    ensures
        c == b64_char(v as nat),
{
    if v < 26 {
        ((v + 65) as u8) as char
    } else if v < 52 {
        ((v + 71) as u8) as char
    } else if v < 62 {
        ((v - 4) as u8) as char
    } else if v == 62 {
        '+'
    } else {
        '/'
    }
}

/// Appends the Base64 encoding of `d` to `out`.
pub fn push_base64(out: &mut String, d: &Vec<u8>)
    ensures
        final(out)@ == old(out)@ + base64(d@),
{
    let n = d.len();
    let mut i: usize = 0;
    assert(d@.skip(0) =~= d@);
    while n - i >= 3
        invariant
            i <= n,
            n == d@.len(),
            old(out)@ + base64(d@) == out@ + base64(d@.skip(i as int)),
        decreases n - i,
    {
        let a: u32 = d[i] as u32;
        let b: u32 = d[i + 1] as u32;
        let c: u32 = d[i + 2] as u32;
        let ghost rest = d@.skip(i as int);
        assert(rest.skip(3) =~= d@.skip(i + 3));
        assert(rest[0] == a && rest[1] == b && rest[2] == c);
        let ghost before = out@;
        push_char(out, exec_b64_char(a / 4));
        push_char(out, exec_b64_char((a % 4) * 16 + b / 16));
        push_char(out, exec_b64_char((b % 16) * 4 + c / 64));
        push_char(out, exec_b64_char(c % 64));
        assert(out@ =~= before + seq![
            b64_char((rest[0] / 4) as nat),
            b64_char(((rest[0] % 4) * 16 + rest[1] / 16) as nat),
            b64_char(((rest[1] % 16) * 4 + rest[2] / 64) as nat),
            b64_char((rest[2] % 64) as nat),
        ]);
        i = i + 3;
    }
    let ghost rest = d@.skip(i as int);
    if n - i == 1 {
        let a: u32 = d[i] as u32;
        assert(rest[0] == a);
        let ghost before = out@;
        push_char(out, exec_b64_char(a / 4));
        push_char(out, exec_b64_char((a % 4) * 16));
        push_char(out, '=');
        push_char(out, '=');
        assert(out@ =~= before + base64(rest));
    } else if n - i == 2 {
        let a: u32 = d[i] as u32;
        let b: u32 = d[i + 1] as u32;
        assert(rest[0] == a && rest[1] == b);
        let ghost before = out@;
        push_char(out, exec_b64_char(a / 4));
        push_char(out, exec_b64_char((a % 4) * 16 + b / 16));
        push_char(out, exec_b64_char((b % 16) * 4));
        push_char(out, '=');
        assert(out@ =~= before + base64(rest));
    } else {
        assert(rest.len() == 0);
        assert(base64(rest) =~= Seq::<char>::empty());
        assert(out@ =~= out@ + base64(rest));
    }
}

} // verus!
