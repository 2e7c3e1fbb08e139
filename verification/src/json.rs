//! Verified construction of the few JSON shapes the service emits: quoted
//! strings with escaping, and the `{success, data}` response envelope.

use vstd::prelude::*;
use crate::text::push_char;
use crate::ids::hex_char;
use vstd::string::StrSliceExecFns;

verus! {

/// The escape of one character inside a JSON string literal.
pub open spec fn json_escaped_char(c: char) -> Seq<char> {
    if c == '"' { seq!['\\', '"'] }
    else if c == '\\' { seq!['\\', '\\'] }
    else if c == '\n' { seq!['\\', 'n'] }
    else if c == '\r' { seq!['\\', 'r'] }
    else if c == '\t' { seq!['\\', 't'] }
    else if (c as int) < 32 {
        seq!['\\', 'u', '0', '0', hex_char(c as int / 16), hex_char(c as int % 16)]
    } else {
        seq![c]
    }
}

/// The body of a JSON string literal holding the characters of `s`.
pub open spec fn json_escaped(s: Seq<char>) -> Seq<char>
    decreases s.len(),
{
    if s.len() == 0 {
        Seq::empty()
    } else {
        json_escaped(s.drop_last()) + json_escaped_char(s.last())
    }
}

/// The JSON string literal holding the characters of `s`, quotes included.
pub open spec fn json_string(s: Seq<char>) -> Seq<char> {
    seq!['"'] + json_escaped(s) + seq!['"']
}

/// The response envelope around an already-serialized `data` value.
pub open spec fn envelope_chars(success: bool, data: Seq<char>) -> Seq<char> {
    seq!['{', '"', 's', 'u', 'c', 'c', 'e', 's', 's', '"', ':']
    + (if success { seq!['t', 'r', 'u', 'e'] } else { seq!['f', 'a', 'l', 's', 'e'] })
    + seq![',', '"', 'd', 'a', 't', 'a', '"', ':']
    + data
    + seq!['}']
}

/// Appends the escape of one character to `out`.
pub fn push_json_escaped_char(out: &mut String, c: char)
    ensures
        final(out)@ == old(out)@ + json_escaped_char(c),
{
    let v = c as u32;
    if c == '"' {
        push_char(out, '\\');
        push_char(out, '"');
    } else if c == '\\' {
        push_char(out, '\\');
        push_char(out, '\\');
    } else if c == '\n' {
        push_char(out, '\\');
        push_char(out, 'n');
    } else if c == '\r' {
        push_char(out, '\\');
        push_char(out, 'r');
    } else if c == '\t' {
        push_char(out, '\\');
        push_char(out, 't');
    } else if v < 32 {
        push_char(out, '\\');
        push_char(out, 'u');
        push_char(out, '0');
        push_char(out, '0');
        push_char(out, crate::ids::hex_digit_char((v / 16) as u8));
        push_char(out, crate::ids::hex_digit_char((v % 16) as u8));
    } else {
        push_char(out, c);
    }
    assert(out@ =~= old(out)@ + json_escaped_char(c));
}

/// Appends the JSON string literal holding the characters of `s` to `out`.
pub fn push_json_string(out: &mut String, s: &str)
    ensures
        final(out)@ == old(out)@ + json_string(s@),
{
    push_char(out, '"');
    let n = s.unicode_len();
    let mut i: usize = 0;
    while i < n
        invariant
            n == s@.len(),
            i <= n,
            out@ == old(out)@ + seq!['"'] + json_escaped(s@.subrange(0, i as int)),
        decreases n - i,
    {
        let c = s.get_char(i);
        push_json_escaped_char(out, c);
        proof {
            let pre = s@.subrange(0, (i + 1) as int);
            assert(pre.drop_last() =~= s@.subrange(0, i as int));
            assert(pre.last() == s@[i as int]);
        }
        i += 1;
    }
    push_char(out, '"');
    proof {
        assert(s@.subrange(0, s@.len() as int) =~= s@);
        assert(out@ =~= old(out)@ + json_string(s@));
    }
}

/// The JSON string literal holding the characters of `s`, as a fresh string.
pub fn json_quote(s: &str) -> (r: String)
    ensures
        r@ == json_string(s@),
{
    let mut out = String::new();
    push_json_string(&mut out, s);
    proof {
        assert(out@ =~= json_string(s@));
    }
    out
}

/// The response envelope around an already-serialized `data` value, as text.
pub fn envelope_text(success: bool, data: &str) -> (r: String)
    ensures
        r@ == envelope_chars(success, data@),
{
    let mut out = String::new();
    push_char(&mut out, '{');
    push_char(&mut out, '"');
    push_char(&mut out, 's');
    push_char(&mut out, 'u');
    push_char(&mut out, 'c');
    push_char(&mut out, 'c');
    push_char(&mut out, 'e');
    push_char(&mut out, 's');
    push_char(&mut out, 's');
    push_char(&mut out, '"');
    push_char(&mut out, ':');
    if success {
        push_char(&mut out, 't');
        push_char(&mut out, 'r');
        push_char(&mut out, 'u');
        push_char(&mut out, 'e');
    } else {
        push_char(&mut out, 'f');
        push_char(&mut out, 'a');
        push_char(&mut out, 'l');
        push_char(&mut out, 's');
        push_char(&mut out, 'e');
    }
    push_char(&mut out, ',');
    push_char(&mut out, '"');
    push_char(&mut out, 'd');
    push_char(&mut out, 'a');
    push_char(&mut out, 't');
    push_char(&mut out, 'a');
    push_char(&mut out, '"');
    push_char(&mut out, ':');
    proof {
        assert(out@ =~= envelope_chars(success, data@.subrange(0, 0)).drop_last());
    }
    let mut i: usize = 0;
    let n = data.unicode_len();
    while i < n
        invariant
            n == data@.len(),
            i <= n,
            out@ == envelope_chars(success, data@.subrange(0, i as int)).drop_last(),
        decreases n - i,
    {
        let c = data.get_char(i);
        push_char(&mut out, c);
        proof {
            assert(out@ =~= envelope_chars(success, data@.subrange(0, (i + 1) as int)).drop_last());
        }
        i += 1;
    }
    push_char(&mut out, '}');
    proof {
        assert(data@.subrange(0, data@.len() as int) =~= data@);
        assert(out@ =~= envelope_chars(success, data@));
    }
    out
}

} // verus!
