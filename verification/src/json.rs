//! Serialization of a classified record into the self-describing JSON
//! text that the network sink posts: fields in declaration order, each
//! value a JSON string literal with exact escaping.

use vstd::prelude::*;

use crate::serializer::{key_label, Operation};
use crate::serializer::OperationView;
use crate::text::push_char;

verus! {

/// The lowercase hexadecimal digit for one value below sixteen.
pub open spec fn hex_digit(n: int) -> char {
    if n == 0 {
        '0'
    } else if n == 1 {
        '1'
    } else if n == 2 {
        '2'
    } else if n == 3 {
        '3'
    } else if n == 4 {
        '4'
    } else if n == 5 {
        '5'
    } else if n == 6 {
        '6'
    } else if n == 7 {
        '7'
    } else if n == 8 {
        '8'
    } else if n == 9 {
        '9'
    } else if n == 10 {
        'a'
    } else if n == 11 {
        'b'
    } else if n == 12 {
        'c'
    } else if n == 13 {
        'd'
    } else if n == 14 {
        'e'
    } else {
        'f'
    }
}

/// How one character reads inside a JSON string literal: quote and
/// backslash take a backslash, the named control characters use their
/// short escapes, the remaining control characters use `\u00..`, and
/// every other character stands for itself.
pub open spec fn json_escape_char(c: char) -> Seq<char> {
    if c == '"' {
        seq!['\\', '"']
    } else if c == '\\' {
        seq!['\\', '\\']
    } else if c == '\u{08}' {
        seq!['\\', 'b']
    } else if c == '\u{09}' {
        seq!['\\', 't']
    } else if c == '\u{0A}' {
        seq!['\\', 'n']
    } else if c == '\u{0C}' {
        seq!['\\', 'f']
    } else if c == '\u{0D}' {
        seq!['\\', 'r']
    } else if (c as u32) < 0x20 {
        seq!['\\', 'u', '0', '0', hex_digit(c as u32 as int / 16), hex_digit(c as u32 as int % 16)]
    } else {
        seq![c]
    }
}

/// The escaped body of a JSON string literal.
pub open spec fn json_escape(s: Seq<char>) -> Seq<char>
    decreases s.len(),
{
    if s.len() == 0 {
        Seq::empty()
    } else {
        json_escape(s.drop_last()) + json_escape_char(s.last())
    }
}

/// A JSON string literal.
pub open spec fn json_string(s: Seq<char>) -> Seq<char> {
    seq!['"'] + json_escape(s) + seq!['"']
}

/// The JSON text describing one classified record.
pub open spec fn operation_json(v: OperationView) -> Seq<char> {
    "{\"user\":"@ + json_string(v.user) + ",\"group\":"@ + json_string(v.group)
        + ",\"executable\":"@ + json_string(v.executable) + ",\"syscall\":"@ + json_string(
        v.syscall,
    ) + ",\"timestamp\":"@ + json_string(v.timestamp) + ",\"key\":"@ + json_string(
        key_label(v.key),
    ) + seq!['}']
}

/// The lowercase hexadecimal digit for one value below sixteen.
fn hex_digit_char(n: u32) -> (c: char)
    requires
        n < 16,
    ensures
        c == hex_digit(n as int),
{
    if n == 0 {
        '0'
    } else if n == 1 {
        '1'
    } else if n == 2 {
        '2'
    } else if n == 3 {
        '3'
    } else if n == 4 {
        '4'
    } else if n == 5 {
        '5'
    } else if n == 6 {
        '6'
    } else if n == 7 {
        '7'
    } else if n == 8 {
        '8'
    } else if n == 9 {
        '9'
    } else if n == 10 {
        'a'
    } else if n == 11 {
        'b'
    } else if n == 12 {
        'c'
    } else if n == 13 {
        'd'
    } else if n == 14 {
        'e'
    } else {
        'f'
    }
}

/// Appends `s` to `out` as one escaped JSON string literal.
fn append_json_string(out: &mut String, s: &str)
    ensures
        final(out)@ == old(out)@ + json_string(s@),
{
    let ghost base = old(out)@;
    push_char(out, '"');
    let n = s.unicode_len();
    let mut i: usize = 0;
    while i < n
        invariant
            0 <= i <= n,
            n == s@.len(),
            out@ == base + seq!['"'] + json_escape(s@.take(i as int)),
        decreases n - i,
    {
        let c = s.get_char(i);
        proof {
            assert(s@.take(i + 1).drop_last() =~= s@.take(i as int));
            assert(s@.take(i + 1).last() == s@[i as int]);
        }
        if c == '"' {
            push_char(out, '\\');
            push_char(out, '"');
        } else if c == '\\' {
            push_char(out, '\\');
            push_char(out, '\\');
        } else if c == '\u{08}' {
            push_char(out, '\\');
            push_char(out, 'b');
        } else if c == '\u{09}' {
            push_char(out, '\\');
            push_char(out, 't');
        } else if c == '\u{0A}' {
            push_char(out, '\\');
            push_char(out, 'n');
        } else if c == '\u{0C}' {
            push_char(out, '\\');
            push_char(out, 'f');
        } else if c == '\u{0D}' {
            push_char(out, '\\');
            push_char(out, 'r');
        } else {
            let code = c as u32;
            if code < 0x20 {
                push_char(out, '\\');
                push_char(out, 'u');
                push_char(out, '0');
                push_char(out, '0');
                push_char(out, hex_digit_char(code / 16));
                push_char(out, hex_digit_char(code % 16));
            } else {
                push_char(out, c);
            }
        }
        proof {
            assert(out@ =~= base + seq!['"'] + json_escape(s@.take(i + 1)));
        }
        i += 1;
    }
    push_char(out, '"');
    proof {
        assert(s@.take(n as int) =~= s@);
        assert(out@ =~= base + json_string(s@));
    }
}

impl Operation {
    /// The JSON text that the network sink posts for this record.
    pub fn to_json(&self) -> (r: String)
        ensures
            r@ == operation_json(self@),
    {
        let mut out = String::from_str("{\"user\":");
        append_json_string(&mut out, self.user.as_str());
        out.append(",\"group\":");
        append_json_string(&mut out, self.group.as_str());
        out.append(",\"executable\":");
        append_json_string(&mut out, self.executable.as_str());
        out.append(",\"syscall\":");
        append_json_string(&mut out, self.syscall.as_str());
        out.append(",\"timestamp\":");
        append_json_string(&mut out, self.timestamp.as_str());
        out.append(",\"key\":");
        let label = self.key.label();
        append_json_string(&mut out, label.as_str());
        push_char(&mut out, '}');
        proof {
            assert(out@ =~= operation_json(self@));
        }
        out
    }
}

} // verus!
