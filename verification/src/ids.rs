//! Room identifiers and anonymous handles.
//!
//! A room is named by an opaque 128-bit identifier whose textual canonical
//! form is the familiar lowercase hyphenated hex layout (8-4-4-4-12).  The
//! grammar is parsed and printed by verified code; only drawing the random
//! bits is delegated outside.

use vstd::prelude::*;
use crate::text::push_char;
use vstd::string::StrSliceExecFns;
use vstd::string::StringExecFns;

verus! {

/// Sixteen to the power `n`.
pub open spec fn pow16(n: nat) -> nat
    decreases n,
{
    if n == 0 {
        1
    } else {
        16 * pow16((n - 1) as nat)
    }
}

/// Whether a character is a hexadecimal digit (either case).
pub open spec fn is_hex_digit(c: char) -> bool {
    ('0' <= c && c <= '9') || ('a' <= c && c <= 'f') || ('A' <= c && c <= 'F')
}

/// The numeric value of a hexadecimal digit character.
pub open spec fn hex_val(c: char) -> int {
    if '0' <= c && c <= '9' {
        c as int - '0' as int
    } else if 'a' <= c && c <= 'f' {
        c as int - 'a' as int + 10
    } else {
        c as int - 'A' as int + 10
    }
}

/// The lowercase character for one hexadecimal digit value.
pub open spec fn hex_char(d: int) -> char {
    if d == 0 { '0' }
    else if d == 1 { '1' }
    else if d == 2 { '2' }
    else if d == 3 { '3' }
    else if d == 4 { '4' }
    else if d == 5 { '5' }
    else if d == 6 { '6' }
    else if d == 7 { '7' }
    else if d == 8 { '8' }
    else if d == 9 { '9' }
    else if d == 10 { 'a' }
    else if d == 11 { 'b' }
    else if d == 12 { 'c' }
    else if d == 13 { 'd' }
    else if d == 14 { 'e' }
    else { 'f' }
}

/// The `n`-digit lowercase hexadecimal form of `v`, most significant first.
pub open spec fn hex_rep(v: nat, n: nat) -> Seq<char>
    decreases n,
{
    if n == 0 {
        Seq::empty()
    } else {
        hex_rep(v / 16, (n - 1) as nat).push(hex_char((v % 16) as int))
    }
}

/// The hexadecimal digit of `v` at position `p` of its 32-digit form,
/// counting from the most significant digit.
pub open spec fn nibble_of(v: u128, p: int) -> int {
    ((v as nat / pow16((31 - p) as nat)) % 16) as int
}

/// Positions of the four hyphens in the canonical 36-character form.
pub open spec fn is_hyphen_pos(i: int) -> bool {
    i == 8 || i == 13 || i == 18 || i == 23
}

/// For a non-hyphen position of the canonical form, the index of its digit
/// among the 32 hexadecimal digits.
pub open spec fn hex_pos(i: int) -> int {
    if i < 8 { i }
    else if i < 13 { i - 1 }
    else if i < 18 { i - 2 }
    else if i < 23 { i - 3 }
    else { i - 4 }
}

/// The canonical-form position of the `j`th hexadecimal digit.
pub open spec fn hyphenated_hex_pos(j: int) -> int {
    if j < 8 { j }
    else if j < 12 { j + 1 }
    else if j < 16 { j + 2 }
    else if j < 20 { j + 3 }
    else { j + 4 }
}

/// Number of hexadecimal digits strictly before canonical-form position `i`.
pub open spec fn digit_count(i: int) -> int {
    i - (if i > 8 { 1int } else { 0int })
      - (if i > 13 { 1int } else { 0int })
      - (if i > 18 { 1int } else { 0int })
      - (if i > 23 { 1int } else { 0int })
}

/// The canonical textual form of an identifier value: 32 lowercase
/// hexadecimal digits with hyphens after the 8th, 12th, 16th and 20th.
pub open spec fn canonical_chars(v: u128) -> Seq<char> {
    Seq::new(36, |i: int|
        if is_hyphen_pos(i) { '-' } else { hex_rep(v as nat, 32)[hex_pos(i)] })
}

/// The value of a sequence of hexadecimal digits, most significant first.
pub open spec fn hex_seq_val(s: Seq<char>) -> int
    decreases s.len(),
{
    if s.len() == 0 {
        0
    } else {
        hex_seq_val(s.drop_last()) * 16 + hex_val(s.last())
    }
}

/// Whether every character of the sequence is a hexadecimal digit.
pub open spec fn all_hex(s: Seq<char>) -> bool {
    forall|i: int| 0 <= i < s.len() ==> is_hex_digit(#[trigger] s[i])
}

/// The 32 hexadecimal digits of a well-formed identifier text, with the
/// hyphens of the 36-character form stripped.
pub open spec fn hex_digits_of(s: Seq<char>) -> Seq<char> {
    if s.len() == 36 {
        Seq::new(32, |j: int| s[hyphenated_hex_pos(j)])
    } else {
        s
    }
}

/// An accepted identifier text: the canonical hyphenated form or the bare
/// 32-digit form, hexadecimal digits of either case.
pub open spec fn well_formed_id_text(s: Seq<char>) -> bool {
    ||| (s.len() == 36
        && (forall|i: int| 0 <= i < 36 ==> (is_hyphen_pos(i) <==> #[trigger] s[i] == '-'))
        && all_hex(hex_digits_of(s)))
    ||| (s.len() == 32 && all_hex(s))
}

/// The identifier value named by a well-formed identifier text.
pub open spec fn id_value_of(s: Seq<char>) -> int {
    hex_seq_val(hex_digits_of(s))
}

proof fn lemma_pow16_32()
    ensures
        pow16(32) == 0x100000000000000000000000000000000,
{
    assert(pow16(0) == 1);
    assert(pow16(1) == 0x10);
    assert(pow16(2) == 0x100);
    assert(pow16(3) == 0x1000);
    assert(pow16(4) == 0x10000);
    assert(pow16(5) == 0x100000);
    assert(pow16(6) == 0x1000000);
    assert(pow16(7) == 0x10000000);
    assert(pow16(8) == 0x100000000);
    assert(pow16(9) == 0x1000000000);
    assert(pow16(10) == 0x10000000000);
    assert(pow16(11) == 0x100000000000);
    assert(pow16(12) == 0x1000000000000);
    assert(pow16(13) == 0x10000000000000);
    assert(pow16(14) == 0x100000000000000);
    assert(pow16(15) == 0x1000000000000000);
    assert(pow16(16) == 0x10000000000000000);
    assert(pow16(17) == 0x100000000000000000);
    assert(pow16(18) == 0x1000000000000000000);
    assert(pow16(19) == 0x10000000000000000000);
    assert(pow16(20) == 0x100000000000000000000);
    assert(pow16(21) == 0x1000000000000000000000);
    assert(pow16(22) == 0x10000000000000000000000);
    assert(pow16(23) == 0x100000000000000000000000);
    assert(pow16(24) == 0x1000000000000000000000000);
    assert(pow16(25) == 0x10000000000000000000000000);
    assert(pow16(26) == 0x100000000000000000000000000);
    assert(pow16(27) == 0x1000000000000000000000000000);
    assert(pow16(28) == 0x10000000000000000000000000000);
    assert(pow16(29) == 0x100000000000000000000000000000);
    assert(pow16(30) == 0x1000000000000000000000000000000);
    assert(pow16(31) == 0x10000000000000000000000000000000);
    assert(pow16(32) == 0x100000000000000000000000000000000);
}

proof fn lemma_pow16_mono(a: nat, b: nat)
    requires
        a <= b,
    ensures
        pow16(a) <= pow16(b),
    decreases b,
{
    if a < b {
        lemma_pow16_mono(a, (b - 1) as nat);
        assert(pow16(b) == 16 * pow16((b - 1) as nat));
    }
}

proof fn lemma_hex_char_val(d: int)
    requires
        0 <= d < 16,
    ensures
        is_hex_digit(hex_char(d)),
        hex_val(hex_char(d)) == d,
        hex_char(d) != '-',
{
}

proof fn lemma_hex_rep_digits(v: nat, n: nat)
    ensures
        hex_rep(v, n).len() == n,
        forall|i: int| 0 <= i < n ==> is_hex_digit(#[trigger] hex_rep(v, n)[i])
            && hex_rep(v, n)[i] != '-',
    decreases n,
{
    if n > 0 {
        lemma_hex_rep_digits(v / 16, (n - 1) as nat);
        lemma_hex_char_val(((v % 16) as int));
        assert forall|i: int| 0 <= i < n implies is_hex_digit(#[trigger] hex_rep(v, n)[i])
            && hex_rep(v, n)[i] != '-' by {
            if i < n - 1 {
                assert(hex_rep(v, n)[i] == hex_rep(v / 16, (n - 1) as nat)[i]);
            }
        }
    }
}

proof fn lemma_hex_rep_val(v: nat, n: nat)
    requires
        v < pow16(n),
    ensures
        hex_seq_val(hex_rep(v, n)) == v,
    decreases n,
{
    if n == 0 {
        assert(v == 0);
    } else {
        assert(pow16(n) == 16 * pow16((n - 1) as nat));
        assert(v / 16 < pow16((n - 1) as nat)) by (nonlinear_arith)
            requires
                v < 16 * pow16((n - 1) as nat),
        ;
        lemma_hex_rep_val(v / 16, (n - 1) as nat);
        lemma_hex_char_val(((v % 16) as int));
        let s = hex_rep(v, n);
        assert(s.drop_last() =~= hex_rep(v / 16, (n - 1) as nat));
        assert(hex_seq_val(s) == hex_seq_val(s.drop_last()) * 16 + hex_val(s.last()));
        assert((v / 16) * 16 + v % 16 == v);
    }
}

/// Round trip of writing and reading an identifier: the canonical text of
/// any identifier value is well formed and names that value back, so the
/// text a reservation hands out is admitted for the same room, and the keys
/// composed on both paths agree.
pub proof fn lemma_canonical_round_trip(v: u128)
    ensures
        canonical_chars(v).len() == 36,
        well_formed_id_text(canonical_chars(v)),
        id_value_of(canonical_chars(v)) == v as int,
{
    let s = canonical_chars(v);
    lemma_hex_rep_digits(v as nat, 32);
    assert forall|i: int| 0 <= i < 36 implies (is_hyphen_pos(i) <==> #[trigger] s[i] == '-') by {
        if !is_hyphen_pos(i) {
            assert(s[i] == hex_rep(v as nat, 32)[hex_pos(i)]);
        }
    }
    assert(hex_digits_of(s) =~= hex_rep(v as nat, 32));
    lemma_pow16_32();
    lemma_hex_rep_val(v as nat, 32);
    assert(all_hex(hex_digits_of(s)));
}

/// An opaque 128-bit room identifier.
#[derive(Clone, Copy, PartialEq, Eq, Structural, Debug)]
pub struct RoomId {
    pub value: u128,
}

/// The lowercase character for one hexadecimal digit, as executable code.
pub fn hex_digit_char(d: u8) -> (c: char)
    requires
        d < 16,
    ensures
        c == hex_char(d as int),
{
    match d {
        0 => '0',
        1 => '1',
        2 => '2',
        3 => '3',
        4 => '4',
        5 => '5',
        6 => '6',
        7 => '7',
        8 => '8',
        9 => '9',
        10 => 'a',
        11 => 'b',
        12 => 'c',
        13 => 'd',
        14 => 'e',
        _ => 'f',
    }
}

/// The value of one hexadecimal digit character, or nothing if the character
/// is not a hexadecimal digit.
pub fn hex_digit_value(c: char) -> (r: Option<u8>)
    ensures
        r is Some <==> is_hex_digit(c),
        r is Some ==> r->0 as int == hex_val(c),
{
    let v = c as u32;
    if 48 <= v && v <= 57 {
        Some((v - 48) as u8)
    } else if 97 <= v && v <= 102 {
        Some((v - 97 + 10) as u8)
    } else if 65 <= v && v <= 70 {
        Some((v - 65 + 10) as u8)
    } else {
        None
    }
}

/// Appends the `n`-digit lowercase hexadecimal form of `v` to `out`.
pub fn push_hex(out: &mut String, v: u128, n: u32)
    ensures
        final(out)@ == old(out)@ + hex_rep(v as nat, n as nat),
    decreases n,
{
    if n == 0 {
        assert(out@ =~= old(out)@ + hex_rep(v as nat, 0));
    } else {
        push_hex(out, v / 16, n - 1);
        let d = (v % 16) as u8;
        push_char(out, hex_digit_char(d));
        assert(out@ =~= old(out)@ + hex_rep(v as nat, n as nat));
    }
}

/// The index of the digit at a non-hyphen canonical-form position.
fn hex_index(i: usize) -> (r: usize)
    requires
        i < 36,
        !is_hyphen_pos(i as int),
    ensures
        r == hex_pos(i as int),
        r < 32,
{
    if i < 8 { i }
    else if i < 13 { i - 1 }
    else if i < 18 { i - 2 }
    else if i < 23 { i - 3 }
    else { i - 4 }
}

proof fn lemma_hex_rep_len(v: nat, n: nat)
    ensures
        hex_rep(v, n).len() == n,
    decreases n,
{
    if n > 0 {
        lemma_hex_rep_len(v / 16, (n - 1) as nat);
    }
}

impl RoomId {
    /// The canonical lowercase hyphenated text of this identifier.
    pub fn canonical_text(&self) -> (r: String)
        ensures
            r@ == canonical_chars(self.value),
    {
        let mut hex = String::new();
        push_hex(&mut hex, self.value, 32);
        proof {
            lemma_hex_rep_len(self.value as nat, 32);
        }
        let mut out = String::new();
        let mut i: usize = 0;
        while i < 36
            invariant
                i <= 36,
                hex@ == hex_rep(self.value as nat, 32),
                hex@.len() == 32,
                out@ == canonical_chars(self.value).subrange(0, i as int),
            decreases 36 - i,
        {
            if i == 8 || i == 13 || i == 18 || i == 23 {
                push_char(&mut out, '-');
            } else {
                let hp = hex_index(i);
                let c = hex.as_str().get_char(hp);
                push_char(&mut out, c);
            }
            proof {
                assert(out@ =~= canonical_chars(self.value).subrange(0, i + 1 as int));
            }
            i += 1;
        }
        proof {
            assert(out@ =~= canonical_chars(self.value));
        }
        out
    }

    /// Parses an identifier text: the canonical hyphenated form or the bare
    /// 32-digit form, in either case of hexadecimal digits.
    pub fn parse_text(s: &str) -> (r: Option<RoomId>)
        ensures
            r is Some <==> well_formed_id_text(s@),
            r is Some ==> r->0.value as int == id_value_of(s@),
    {
        let n = s.unicode_len();
        if n == 36 {
            Self::parse_hyphenated(s)
        } else if n == 32 {
            Self::parse_simple(s)
        } else {
            None
        }
    }

    fn parse_hyphenated(s: &str) -> (r: Option<RoomId>)
        requires
            s@.len() == 36,
        ensures
            r is Some <==> well_formed_id_text(s@),
            r is Some ==> r->0.value as int == id_value_of(s@),
    {
        let mut acc: u128 = 0;
        let mut i: usize = 0;
        let mut jj: usize = 0;
        let ghost mut dg: Seq<char> = Seq::empty();
        while i < 36
            invariant
                s@.len() == 36,
                i <= 36,
                jj == digit_count(i as int),
                0 <= jj <= 32,
                dg == Seq::new(jj as nat, |k: int| s@[hyphenated_hex_pos(k)]),
                acc as int == hex_seq_val(dg),
                acc < pow16(jj as nat),
                forall|k: int| 0 <= k < jj ==> is_hex_digit(#[trigger] dg[k]),
                forall|k: int| 0 <= k < i ==> (is_hyphen_pos(k) <==> #[trigger] s@[k] == '-'),
            decreases 36 - i,
        {
            let c = s.get_char(i);
            if i == 8 || i == 13 || i == 18 || i == 23 {
                if c != '-' {
                    assert(!well_formed_id_text(s@));
                    return None;
                }
            } else {
                match hex_digit_value(c) {
                    Option::Some(d) => {
                        proof {
                            lemma_pow16_mono((jj + 1) as nat, 32);
                            lemma_pow16_32();
                            assert(pow16((jj + 1) as nat) == 16 * pow16(jj as nat));
                        }
                        acc = acc * 16 + (d as u128);
                        proof {
                            let dg2 = dg.push(c);
                            assert(dg2.drop_last() =~= dg);
                            assert(hyphenated_hex_pos(jj as int) == i);
                            assert(dg2 =~= Seq::new((jj + 1) as nat,
                                |k: int| s@[hyphenated_hex_pos(k)]));
                            dg = dg2;
                        }
                        jj += 1;
                    },
                    Option::None => {
                        proof {
                            if c == '-' {
                                assert(s@[i as int] == '-' && !is_hyphen_pos(i as int));
                            } else {
                                let k = digit_count(i as int);
                                assert(hyphenated_hex_pos(k) == i);
                                assert(!is_hex_digit(hex_digits_of(s@)[k]));
                            }
                            assert(!well_formed_id_text(s@));
                        }
                        return None;
                    },
                }
            }
            i += 1;
        }
        proof {
            assert(dg =~= hex_digits_of(s@));
            assert(well_formed_id_text(s@));
        }
        Some(RoomId { value: acc })
    }

    fn parse_simple(s: &str) -> (r: Option<RoomId>)
        requires
            s@.len() == 32,
        ensures
            r is Some <==> well_formed_id_text(s@),
            r is Some ==> r->0.value as int == id_value_of(s@),
    {
        let mut acc: u128 = 0;
        let mut i: usize = 0;
        while i < 32
            invariant
                s@.len() == 32,
                i <= 32,
                acc as int == hex_seq_val(s@.subrange(0, i as int)),
                acc < pow16(i as nat),
                forall|k: int| 0 <= k < i ==> is_hex_digit(#[trigger] s@[k]),
            decreases 32 - i,
        {
            let c = s.get_char(i);
            match hex_digit_value(c) {
                Option::Some(d) => {
                    proof {
                        lemma_pow16_mono((i + 1) as nat, 32);
                        lemma_pow16_32();
                        assert(pow16((i + 1) as nat) == 16 * pow16(i as nat));
                    }
                    acc = acc * 16 + (d as u128);
                    proof {
                        let pre = s@.subrange(0, (i + 1) as int);
                        assert(pre.drop_last() =~= s@.subrange(0, i as int));
                    }
                },
                Option::None => {
                    assert(!well_formed_id_text(s@));
                    return None;
                },
            }
            i += 1;
        }
        proof {
            assert(s@.subrange(0, 32) =~= s@);
            assert(hex_digits_of(s@) == s@);
            assert(well_formed_id_text(s@));
        }
        Some(RoomId { value: acc })
    }
}

/// Relies on `uuid::Uuid::new_v4`: a fresh random identifier value whose
/// version digit is 4 and whose variant digit is one of 8, 9, a, b; the rest
/// is drawn from the operating system's random source.
#[verifier::external_body]
pub fn fresh_identifier_value() -> (r: u128)
    ensures
        nibble_of(r, 12) == 4,
        8 <= nibble_of(r, 16) < 12,
{
    uuid::Uuid::new_v4().as_u128()
}

/// Whether a character is an ASCII letter or digit.
pub open spec fn is_alnum_char(c: char) -> bool {
    ('a' <= c && c <= 'z') || ('A' <= c && c <= 'Z') || ('0' <= c && c <= '9')
}

/// Relies on rand's `Alphanumeric` distribution: `len` characters drawn
/// uniformly from ASCII letters and digits.
#[verifier::external_body]
pub fn random_alphanumeric(len: usize) -> (r: String)
    ensures
        r@.len() == len as nat,
        forall|i: int| 0 <= i < r@.len() ==> is_alnum_char(#[trigger] r@[i]),
{
    rand::distr::SampleString::sample_string(&rand::distr::Alphanumeric, &mut rand::rng(), len)
}

/// An anonymous display name: the fixed prefix and ten ASCII letters or
/// digits.
pub open spec fn is_handle(s: Seq<char>) -> bool {
    s.len() == 20
    && s.subrange(0, 10) == "anonymous_"@
    && (forall|i: int| 10 <= i < 20 ==> is_alnum_char(#[trigger] s[i]))
}

/// Mints a fresh anonymous handle for one session.
pub fn make_handle() -> (h: String)
    ensures
        is_handle(h@),
{
    let suffix = random_alphanumeric(10);
    let h = String::from_str("anonymous_").concat(suffix.as_str());
    proof {
        reveal_strlit("anonymous_");
        assert(h@.subrange(0, 10) =~= "anonymous_"@);
    }
    h
}

} // verus!
