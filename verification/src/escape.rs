//! JSON string escaping, specified character by character and proved
//! reversible: a decoder reading the escaped text recovers the original
//! characters exactly.

use vstd::prelude::*;

verus! {

/// The lower-case hexadecimal digit for a value below sixteen.
pub open spec fn hex_digit(d: nat) -> char {
    if d == 0 {
        '0'
    } else if d == 1 {
        '1'
    } else if d == 2 {
        '2'
    } else if d == 3 {
        '3'
    } else if d == 4 {
        '4'
    } else if d == 5 {
        '5'
    } else if d == 6 {
        '6'
    } else if d == 7 {
        '7'
    } else if d == 8 {
        '8'
    } else if d == 9 {
        '9'
    } else if d == 10 {
        'a'
    } else if d == 11 {
        'b'
    } else if d == 12 {
        'c'
    } else if d == 13 {
        'd'
    } else if d == 14 {
        'e'
    } else {
        'f'
    }
}

fn hex_char(d: u8) -> (c: char)
    requires
        d < 16,
    ensures
        c == hex_digit(d as nat),
{
    if d == 0 {
        '0'
    } else if d == 1 {
        '1'
    } else if d == 2 {
        '2'
    } else if d == 3 {
        '3'
    } else if d == 4 {
        '4'
    } else if d == 5 {
        '5'
    } else if d == 6 {
        '6'
    } else if d == 7 {
        '7'
    } else if d == 8 {
        '8'
    } else if d == 9 {
        '9'
    } else if d == 10 {
        'a'
    } else if d == 11 {
        'b'
    } else if d == 12 {
        'c'
    } else if d == 13 {
        'd'
    } else if d == 14 {
        'e'
    } else {
        'f'
    }
}

/// How one character appears inside a JSON string literal: quote and
/// backslash get a backslash escape, the common control characters get their
/// short escapes, the remaining control characters get a `\u00XX` escape, and
/// every other character stands unchanged.
pub open spec fn escaped_char(c: char) -> Seq<char> {
    if c == '"' {
        seq!['\\', '"']
    } else if c == '\\' {
        seq!['\\', '\\']
    } else if c == '\n' {
        seq!['\\', 'n']
    } else if c == '\r' {
        seq!['\\', 'r']
    } else if c == '\t' {
        seq!['\\', 't']
    } else if (c as u32) < 0x20 {
        seq!['\\', 'u', '0', '0', hex_digit(((c as u32) / 16) as nat), hex_digit(
            ((c as u32) % 16) as nat,
        )]
    } else {
        seq![c]
    }
}

/// The whole text of a JSON string literal for `s`: each character escaped in
/// order.
pub open spec fn json_escaped(s: Seq<char>) -> Seq<char>
    decreases s.len(),
{
    if s.len() == 0 {
        Seq::<char>::empty()
    } else {
        escaped_char(s.first()) + json_escaped(s.drop_first())
    }
}

/// Escaping a text one character longer appends that character's escape.
proof fn lemma_escaped_push(s: Seq<char>, c: char)
    ensures
        json_escaped(s.push(c)) == json_escaped(s) + escaped_char(c),
    decreases s.len(),
{
    if s.len() == 0 {
        assert(s.push(c).first() == c);
        assert(s.push(c).drop_first() =~= Seq::<char>::empty());
        assert(json_escaped(Seq::<char>::empty()) == Seq::<char>::empty());
        assert(json_escaped(s.push(c)) == escaped_char(c) + Seq::<char>::empty());
        assert(escaped_char(c) + Seq::<char>::empty() =~= escaped_char(c));
        assert(json_escaped(s) + escaped_char(c) =~= escaped_char(c));
    } else {
        lemma_escaped_push(s.drop_first(), c);
        assert(s.push(c).drop_first() =~= s.drop_first().push(c));
        assert(json_escaped(s) + escaped_char(c) =~= escaped_char(s.first()) + (json_escaped(
            s.drop_first(),
        ) + escaped_char(c)));
    }
}

/// The numeric value of a hexadecimal digit, either case.
pub open spec fn hex_value(c: char) -> Option<nat> {
    if c == '0' {
        Some(0 as nat)
    } else if c == '1' {
        Some(1 as nat)
    } else if c == '2' {
        Some(2 as nat)
    } else if c == '3' {
        Some(3 as nat)
    } else if c == '4' {
        Some(4 as nat)
    } else if c == '5' {
        Some(5 as nat)
    } else if c == '6' {
        Some(6 as nat)
    } else if c == '7' {
        Some(7 as nat)
    } else if c == '8' {
        Some(8 as nat)
    } else if c == '9' {
        Some(9 as nat)
    } else if c == 'a' || c == 'A' {
        Some(10 as nat)
    } else if c == 'b' || c == 'B' {
        Some(11 as nat)
    } else if c == 'c' || c == 'C' {
        Some(12 as nat)
    } else if c == 'd' || c == 'D' {
        Some(13 as nat)
    } else if c == 'e' || c == 'E' {
        Some(14 as nat)
    } else if c == 'f' || c == 'F' {
        Some(15 as nat)
    } else {
        None
    }
}

/// The character named by a two-character escape such as `\n` or `\"`.
pub open spec fn short_escape(c: char) -> Option<char> {
    if c == '"' {
        Some('"')
    } else if c == '\\' {
        Some('\\')
    } else if c == '/' {
        Some('/')
    } else if c == 'n' {
        Some('\n')
    } else if c == 'r' {
        Some('\r')
    } else if c == 't' {
        Some('\t')
    } else if c == 'b' {
        Some(8 as char)
    } else if c == 'f' {
        Some(12 as char)
    } else {
        None
    }
}

/// What a JSON parser makes of the text between the quotes of a string
/// literal: `None` when the text is no legal string body (a raw quote, a raw
/// control character, or a malformed escape), otherwise the decoded
/// characters. `\u` escapes of code points in or above the surrogate range
/// are not decoded.
pub open spec fn unescape(s: Seq<char>) -> Option<Seq<char>>
    decreases s.len(),
{
    if s.len() == 0 {
        Some(Seq::<char>::empty())
    } else if s.first() == '\\' {
        if s.len() >= 2 && short_escape(s[1]) is Some {
            match unescape(s.skip(2)) {
                Some(rest) => Some(seq![short_escape(s[1]).unwrap()] + rest),
                None => None,
            }
        } else if s.len() >= 6 && s[1] == 'u' && hex_value(s[2]) is Some && hex_value(s[3]) is Some
            && hex_value(s[4]) is Some && hex_value(s[5]) is Some && hex_value(s[2]).unwrap()
            * 0x1000 + hex_value(s[3]).unwrap() * 0x100 + hex_value(s[4]).unwrap() * 0x10
            + hex_value(s[5]).unwrap() < 0xD800 {
            match unescape(s.skip(6)) {
                Some(rest) => Some(
                    seq![
                        (hex_value(s[2]).unwrap() * 0x1000 + hex_value(s[3]).unwrap() * 0x100
                            + hex_value(s[4]).unwrap() * 0x10 + hex_value(s[5]).unwrap()) as char
                    ] + rest,
                ),
                None => None,
            }
        } else {
            None
        }
    } else if s.first() == '"' || (s.first() as u32) < 0x20 {
        None
    } else {
        match unescape(s.drop_first()) {
            Some(rest) => Some(seq![s.first()] + rest),
            None => None,
        }
    }
}

proof fn lemma_hex_value_digit(d: nat)
    requires
        d < 16,
    ensures
        hex_value(hex_digit(d)) == Some(d),
{
}

/// Escaping loses nothing: decoding the escaped text gives back exactly the
/// original characters, whatever they hold — quotes, backslashes, control
/// characters, or any other Unicode. In particular the escaped text is a
/// legal JSON string body.
pub proof fn lemma_unescape_round_trip(t: Seq<char>)
    ensures
        unescape(json_escaped(t)) == Some(t),
    decreases t.len(),
{
    if t.len() == 0 {
        assert(t =~= Seq::<char>::empty());
    } else {
        let c = t.first();
        let rest = t.drop_first();
        lemma_unescape_round_trip(rest);
        let e = escaped_char(c);
        let s = json_escaped(t);
        assert(s == e + json_escaped(rest));
        assert(t =~= seq![c] + rest);
        if c == '"' || c == '\\' || c == '\n' || c == '\r' || c == '\t' {
            assert(s[0] == '\\' && s[1] == e[1]);
            assert(short_escape(s[1]) == Some(c));
            assert(s.skip(2) =~= json_escaped(rest));
            assert(unescape(s) == Some(seq![c] + rest));
        } else if (c as u32) < 0x20 {
            let d = c as u32;
            lemma_hex_value_digit((d / 16) as nat);
            lemma_hex_value_digit((d % 16) as nat);
            assert(s[0] == '\\' && s[1] == 'u' && s[2] == '0' && s[3] == '0' && s[4] == hex_digit(
                (d / 16) as nat,
            ) && s[5] == hex_digit((d % 16) as nat));
            assert(short_escape('u') is None);
            let code = hex_value(s[2]).unwrap() * 0x1000 + hex_value(s[3]).unwrap() * 0x100
                + hex_value(s[4]).unwrap() * 0x10 + hex_value(s[5]).unwrap();
            assert(d == 16 * (d / 16) + d % 16);
            assert(code == d as nat);
            vstd::utf8::char_u32_cast(c, d);
            assert((code as char) == c);
            assert(s.skip(6) =~= json_escaped(rest));
            assert(unescape(s) == Some(seq![c] + rest));
        } else {
            assert(s[0] == c);
            assert(s.drop_first() =~= json_escaped(rest));
            assert(unescape(s) == Some(seq![c] + rest));
        }
    }
}

/// Escaping touches nothing it need not touch: a text without quotes,
/// backslashes or control characters is serialized verbatim.
pub proof fn lemma_plain_text_unchanged(s: Seq<char>)
    requires
        forall|i: int| 0 <= i < s.len() ==> s[i] != '"' && s[i] != '\\' && (s[i] as u32) >= 0x20,
    ensures
        json_escaped(s) == s,
    decreases s.len(),
{
    if s.len() == 0 {
        assert(json_escaped(s) =~= s);
    } else {
        lemma_plain_text_unchanged(s.drop_first());
        assert(escaped_char(s.first()) == seq![s.first()]);
        assert(json_escaped(s) =~= s);
    }
}

/// Relies on `String::push`: appends exactly the one character at the end.
#[verifier::external_body]
fn push_char(out: &mut String, c: char)
    ensures
        final(out)@ == old(out)@.push(c),
{
    out.push(c);
}

fn push_escaped(out: &mut String, c: char)
    ensures
        final(out)@ == old(out)@ + escaped_char(c),
{
    if c == '"' {
        out.append("\\\"");
        proof {
            reveal_strlit("\\\"");
            assert("\\\""@ =~= escaped_char('"'));
        }
    } else if c == '\\' {
        out.append("\\\\");
        proof {
            reveal_strlit("\\\\");
            assert("\\\\"@ =~= escaped_char('\\'));
        }
    } else if c == '\n' {
        out.append("\\n");
        proof {
            reveal_strlit("\\n");
            assert("\\n"@ =~= escaped_char('\n'));
        }
    } else if c == '\r' {
        out.append("\\r");
        proof {
            reveal_strlit("\\r");
            assert("\\r"@ =~= escaped_char('\r'));
        }
    } else if c == '\t' {
        out.append("\\t");
        proof {
            reveal_strlit("\\t");
            assert("\\t"@ =~= escaped_char('\t'));
        }
    } else if (c as u32) < 0x20 {
        let d: u32 = c as u32;
        out.append("\\u00");
        let hi = hex_char((d / 16) as u8);
        let lo = hex_char((d % 16) as u8);
        push_char(out, hi);
        push_char(out, lo);
        proof {
            reveal_strlit("\\u00");
            assert(old(out)@ + "\\u00"@ + seq![hi] + seq![lo] =~= old(out)@ + escaped_char(c));
        }
    } else {
        push_char(out, c);
        proof {
            assert(old(out)@.push(c) =~= old(out)@ + escaped_char(c));
        }
    }
}

/// The JSON string-literal text for `s`, every JSON-unsafe character escaped.
pub fn json_escape(s: &str) -> (r: String)
    ensures
        r@ == json_escaped(s@),
{
    let n: usize = s.unicode_len();
    let mut out = String::new();
    let mut i: usize = 0;
    while i < n
        invariant
            n == s@.len(),
            i <= n,
            out@ == json_escaped(s@.take(i as int)),
        decreases n - i,
    {
        let c = s.get_char(i);
        push_escaped(&mut out, c);
        proof {
            lemma_escaped_push(s@.take(i as int), s@[i as int]);
            assert(s@.take(i as int).push(s@[i as int]) =~= s@.take(i as int + 1));
        }
        i += 1;
    }
    proof {
        assert(s@.take(n as int) =~= s@);
    }
    out
}

} // verus!
