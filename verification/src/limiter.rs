//! Fixed-window rate limiting, keyed by client IP.
//!
//! The counter itself lives in the remote cache; this module holds the whole
//! decision logic: extracting the client IP from the forwarding header,
//! composing the counter key, reading the counter text, and choosing between
//! admitting, denying, and opening a fresh window.  Callers fail open on any
//! cache fault.

use vstd::prelude::*;
use crate::text::{all_digits, dec_rep, dec_val, digit_char, digit_val, is_digit, push_char, u64_to_string};
use vstd::string::StrSliceExecFns;
use vstd::string::StringExecFns;

verus! {

/// The digits of a counter text, with one optional leading plus sign
/// stripped.
pub open spec fn counter_digits(s: Seq<char>) -> Seq<char> {
    if s.len() > 0 && s[0] == '+' {
        s.subrange(1, s.len() as int)
    } else {
        s
    }
}

/// A well-formed counter text: an optional plus sign, then at least one
/// decimal digit, naming a value that fits the counter's width.
pub open spec fn is_counter_text(s: Seq<char>) -> bool {
    counter_digits(s).len() > 0
    && all_digits(counter_digits(s))
    && dec_val(counter_digits(s)) <= u16::MAX
}

proof fn lemma_dec_val_nonneg(s: Seq<char>)
    requires
        all_digits(s),
    ensures
        dec_val(s) >= 0,
    decreases s.len(),
{
    if s.len() > 0 {
        lemma_dec_val_nonneg(s.drop_last());
    }
}

proof fn lemma_dec_val_prefix(s: Seq<char>, i: int)
    requires
        all_digits(s),
        0 <= i <= s.len(),
    ensures
        dec_val(s.subrange(0, i)) <= dec_val(s),
    decreases s.len(),
{
    if i == s.len() {
        assert(s.subrange(0, i) =~= s);
    } else {
        let shorter = s.drop_last();
        assert(s.subrange(0, i) =~= shorter.subrange(0, i));
        lemma_dec_val_prefix(shorter, i);
        lemma_dec_val_nonneg(shorter);
    }
}

/// Round trip of the decimal writer and reader: the text of `n` is all
/// digits and names `n`.
pub proof fn lemma_dec_rep_val(n: nat)
    ensures
        dec_rep(n).len() >= 1,
        all_digits(dec_rep(n)),
        dec_val(dec_rep(n)) == n,
    decreases n,
{
    if n < 10 {
        let s1 = dec_rep(n);
        assert(s1 == seq![digit_char(n as int)]);
        assert(s1.drop_last() =~= Seq::<char>::empty());
        assert(dec_val(s1) == dec_val(s1.drop_last()) * 10 + digit_val(s1.last()));
        assert(digit_val(digit_char(n as int)) == n);
    } else {
        lemma_dec_rep_val(n / 10);
        assert(dec_rep(n).drop_last() =~= dec_rep(n / 10));
    }
}

/// Reads a counter value from its cache text, or nothing if the text is not
/// a number of the counter's width.
pub fn parse_u16(s: &str) -> (r: Option<u16>)
    ensures
        r is Some <==> is_counter_text(s@),
        r is Some ==> r->0 as int == dec_val(counter_digits(s@)),
{
    let n = s.unicode_len();
    let mut i: usize = 0;
    if n > 0 && s.get_char(0) == '+' {
        i = 1;
    }
    let start = i;
    if i >= n {
        assert(counter_digits(s@).len() == 0);
        return None;
    }
    let ghost digits: Seq<char> = counter_digits(s@);
    assert(digits =~= s@.subrange(start as int, n as int));
    let mut acc: u32 = 0;
    while i < n
        invariant
            n == s@.len(),
            start <= i <= n,
            start <= 1,
            digits == s@.subrange(start as int, n as int),
            digits == counter_digits(s@),
            acc as int == dec_val(digits.subrange(0, (i - start) as int)),
            acc <= u16::MAX,
            forall|k: int| 0 <= k < i - start ==> is_digit(#[trigger] digits[k]),
        decreases n - i,
    {
        let c = s.get_char(i);
        let v = c as u32;
        if v < 48 || v > 57 {
            assert(!is_digit(digits[i - start]));
            return None;
        }
        acc = acc * 10 + (v - 48);
        proof {
            let pre = digits.subrange(0, (i + 1 - start) as int);
            assert(pre.drop_last() =~= digits.subrange(0, (i - start) as int));
            assert(pre.last() == digits[(i - start) as int]);
        }
        if acc > 65535 {
            proof {
                if all_digits(digits) {
                    lemma_dec_val_prefix(digits, (i + 1 - start) as int);
                }
                assert(!is_counter_text(s@));
            }
            return None;
        }
        i += 1;
    }
    proof {
        assert(digits.subrange(0, (n - start) as int) =~= digits);
    }
    Some(acc as u16)
}

/// A fixed-window counter for one client, holding the key, the budget, and
/// the window length.  The counter's storage is the remote cache.
pub struct RateLimiter {
    pub key: String,
    pub limit: u16,
    pub seconds: u64,
}

/// What the limiter asks the cache to do after reading the counter once.
#[derive(Debug)]
pub enum LimiterStep {
    /// No counter in this window: write the full budget under the key with
    /// the window's expiry, and admit the request.
    StartWindow { value: String, ttl_seconds: u64 },
    /// The budget is exhausted: deny the request.
    Deny,
    /// Budget remains: decrement the counter by one and admit the request.
    Spend,
    /// The counter text was not a number: the caller fails open.
    Malformed,
}

impl RateLimiter {
    /// A limiter over the given key, budget, and window length.
    pub fn new(key: String, limit: u16, seconds: u64) -> (r: Self)
        ensures
            r.key == key,
            r.limit == limit,
            r.seconds == seconds,
    {
        Self { key, limit, seconds }
    }

    /// The decision for one hit, given the counter text the cache returned:
    /// absent counters open a fresh window at the full budget, a zero counter
    /// denies, a positive one is spent, and unreadable text is surfaced so
    /// the caller can fail open.
    pub fn check_decision(&self, cached: Option<&str>) -> (r: LimiterStep)
        ensures
            cached is None ==> (r matches LimiterStep::StartWindow { value, ttl_seconds }
                && value@ == dec_rep(self.limit as nat)
                && ttl_seconds == self.seconds),
            (match cached {
                Option::Some(s) => {
                    &&& !is_counter_text(s@) ==> r is Malformed
                    &&& is_counter_text(s@) && dec_val(counter_digits(s@)) == 0 ==> r is Deny
                    &&& is_counter_text(s@) && dec_val(counter_digits(s@)) > 0 ==> r is Spend
                },
                Option::None => true,
            }),
    {
        match cached {
            Option::None => LimiterStep::StartWindow {
                value: u64_to_string(self.limit as u64),
                ttl_seconds: self.seconds,
            },
            Option::Some(text) => {
                match parse_u16(text) {
                    Option::None => LimiterStep::Malformed,
                    Option::Some(v) => {
                        if v == 0 {
                            LimiterStep::Deny
                        } else {
                            LimiterStep::Spend
                        }
                    },
                }
            },
        }
    }
}

/// Whether one step admits the request.  Only an exhausted budget denies;
/// unreadable counter text fails open.
pub fn step_admits(step: &LimiterStep) -> (r: bool)
    ensures
        r == !(step is Deny),
{
    match step {
        LimiterStep::Deny => false,
        _ => true,
    }
}

/// The verdict for one hit when the cache round trip itself failed: the
/// limiter is protective, not authoritative, so every fault admits.
pub fn fail_open(outcome: Option<bool>) -> (r: bool)
    ensures
        outcome is None ==> r,
        outcome matches Option::Some(v) ==> r == v,
{
    match outcome {
        Option::Some(v) => v,
        Option::None => true,
    }
}

/// Remaining budget after one hit against a window counter.
pub open spec fn window_after(rem: nat) -> nat {
    if rem == 0 { 0 } else { (rem - 1) as nat }
}

/// Whether a hit against a window counter is admitted.
pub open spec fn window_admits(rem: nat) -> bool {
    rem > 0
}

/// Number of admitted hits among `hits` consecutive hits against a window
/// counter that starts at `rem`.
pub open spec fn admitted_count(rem: nat, hits: nat) -> nat
    decreases hits,
{
    if hits == 0 {
        0
    } else {
        (if window_admits(rem) { 1nat } else { 0nat })
        + admitted_count(window_after(rem), (hits - 1) as nat)
    }
}

/// In a window whose counter was freshly written with the full budget, at
/// most `limit` further hits are admitted before the window expires, however
/// many arrive.
pub proof fn lemma_window_bound(limit: nat, hits: nat)
    ensures
        admitted_count(limit, hits) <= limit,
    decreases hits,
{
    if hits > 0 {
        if limit > 0 {
            lemma_window_bound((limit - 1) as nat, (hits - 1) as nat);
        } else {
            lemma_window_bound(0, (hits - 1) as nat);
        }
    }
}

/// Bridge between counter values and their cache texts: the text of a
/// counter value is well formed and names that value, so by the contract of
/// `check_decision` a stored value of zero denies and a positive one is
/// spent.
pub proof fn lemma_counter_text_names_value(rem: nat)
    requires
        rem <= u16::MAX,
    ensures
        is_counter_text(dec_rep(rem)),
        dec_val(counter_digits(dec_rep(rem))) == rem,
{
    lemma_dec_rep_val(rem);
    assert(dec_rep(rem)[0] != '+');
    assert(counter_digits(dec_rep(rem)) == dec_rep(rem));
}

/// The default client address when no forwarding header is present.
pub open spec fn local_client() -> Seq<char> {
    "127.0.0.1"@
}

/// Whether a character counts as surrounding blank space when the
/// forwarding header is trimmed.
pub open spec fn is_blank(c: char) -> bool {
    c == ' ' || c == '\t' || c == '\n' || c == '\r'
}

/// The suffix of `s` after its last comma; `s` itself when it has none.
pub open spec fn after_last_comma(s: Seq<char>) -> Seq<char>
    decreases s.len(),
{
    if s.len() == 0 {
        Seq::empty()
    } else if s.last() == ',' {
        Seq::empty()
    } else {
        after_last_comma(s.drop_last()).push(s.last())
    }
}

/// `s` with trailing blanks removed.
pub open spec fn trim_back(s: Seq<char>) -> Seq<char>
    decreases s.len(),
{
    if s.len() > 0 && is_blank(s.last()) {
        trim_back(s.drop_last())
    } else {
        s
    }
}

/// `s` with leading blanks removed.
pub open spec fn trim_front(s: Seq<char>) -> Seq<char>
    decreases s.len(),
{
    if s.len() > 0 && is_blank(s[0]) {
        trim_front(s.subrange(1, s.len() as int))
    } else {
        s
    }
}

/// The client IP named by a forwarding header: the last comma-separated
/// element, trimmed of surrounding blanks.
pub open spec fn ip_of_header(s: Seq<char>) -> Seq<char> {
    trim_front(trim_back(after_last_comma(s)))
}

proof fn lemma_after_last_comma(s: Seq<char>, start: int)
    requires
        0 <= start <= s.len(),
        start > 0 ==> s[start - 1] == ',',
        forall|j: int| start <= j < s.len() ==> s[j] != ',',
    ensures
        after_last_comma(s) == s.subrange(start, s.len() as int),
    decreases s.len(),
{
    if s.len() == start {
        if start == 0 {
            assert(after_last_comma(s) =~= s.subrange(0, 0));
        } else {
            assert(s.last() == ',');
            assert(after_last_comma(s) =~= s.subrange(start, s.len() as int));
        }
    } else {
        assert(s.last() != ',');
        let shorter = s.drop_last();
        lemma_after_last_comma(shorter, start);
        assert(after_last_comma(s) =~= s.subrange(start, s.len() as int));
    }
}

proof fn lemma_trim_back(s: Seq<char>, b: int)
    requires
        0 <= b <= s.len(),
        forall|j: int| b <= j < s.len() ==> is_blank(#[trigger] s[j]),
        b > 0 ==> !is_blank(s[b - 1]),
    ensures
        trim_back(s) == s.subrange(0, b),
    decreases s.len(),
{
    if s.len() > b {
        let shorter = s.drop_last();
        lemma_trim_back(shorter, b);
        assert(trim_back(s) =~= s.subrange(0, b));
    } else {
        assert(trim_back(s) =~= s.subrange(0, b));
    }
}

proof fn lemma_trim_front(s: Seq<char>, a: int)
    requires
        0 <= a <= s.len(),
        forall|j: int| 0 <= j < a ==> is_blank(#[trigger] s[j]),
        a < s.len() ==> !is_blank(s[a]),
    ensures
        trim_front(s) == s.subrange(a, s.len() as int),
    decreases s.len(),
{
    if a > 0 {
        let rest = s.subrange(1, s.len() as int);
        lemma_trim_front(rest, a - 1);
        assert(rest.subrange(a - 1, rest.len() as int) =~= s.subrange(a, s.len() as int));
    } else {
        if s.len() > 0 {
            assert(trim_front(s) =~= s.subrange(0, s.len() as int));
        } else {
            assert(trim_front(s) =~= s.subrange(0, 0));
        }
    }
}

/// The client IP for one request: the last element of the forwarding
/// header's comma-separated list, trimmed, or the local address when the
/// header is absent.
pub fn extract_request_ip(header: Option<&str>) -> (r: String)
    ensures
        header is None ==> r@ == local_client(),
        header matches Option::Some(s) ==> r@ == ip_of_header(s@),
{
    let s = match header {
        Option::Some(s) => s,
        Option::None => {
            return String::from_str("127.0.0.1");
        },
    };
    let n = s.unicode_len();
    // the piece after the last comma is [start, n)
    let mut start: usize = n;
    let mut found = false;
    while start > 0 && !found
        invariant
            n == s@.len(),
            start <= n,
            found ==> start > 0 && s@[start as int - 1] == ',',
            forall|j: int| start <= j < n ==> s@[j] != ',',
        decreases start, (if found { 0int } else { 1int }),
    {
        if s.get_char(start - 1) == ',' {
            found = true;
        } else {
            start -= 1;
        }
    }
    proof {
        lemma_after_last_comma(s@, start as int);
    }
    // trim blanks from the back, then from the front, of [start, n)
    let mut b = n;
    let mut word_end = false;
    while b > start && !word_end
        invariant
            n == s@.len(),
            start <= b <= n,
            word_end ==> b > start && !is_blank(s@[b as int - 1]),
            forall|j: int| b <= j < n ==> is_blank(#[trigger] s@[j]),
        decreases b, (if word_end { 0int } else { 1int }),
    {
        if is_blank_exec(s.get_char(b - 1)) {
            b -= 1;
        } else {
            word_end = true;
        }
    }
    let mut a = start;
    let mut at_word = false;
    while a < b && !at_word
        invariant
            n == s@.len(),
            start <= a <= b <= n,
            at_word ==> a < b && !is_blank(s@[a as int]),
            forall|j: int| start <= j < a ==> is_blank(#[trigger] s@[j]),
        decreases b - a, (if at_word { 0int } else { 1int }),
    {
        if is_blank_exec(s.get_char(a)) {
            a += 1;
        } else {
            at_word = true;
        }
    }
    let ghost piece = s@.subrange(start as int, n as int);
    proof {
        lemma_trim_back(piece, b - start);
        assert(trim_back(piece) =~= s@.subrange(start as int, b as int));
        lemma_trim_front(s@.subrange(start as int, b as int), a - start);
        assert(ip_of_header(s@) =~= s@.subrange(a as int, b as int));
    }
    let mut out = String::new();
    let mut i = a;
    while i < b
        invariant
            n == s@.len(),
            a <= i <= b <= n,
            out@ == s@.subrange(a as int, i as int),
        decreases b - i,
    {
        push_char(&mut out, s.get_char(i));
        proof {
            assert(out@ =~= s@.subrange(a as int, (i + 1) as int));
        }
        i += 1;
    }
    out
}

/// Whether a character counts as surrounding blank space, as executable
/// code.
pub fn is_blank_exec(c: char) -> (r: bool)
    ensures
        r == is_blank(c),
{
    c == ' ' || c == '\t' || c == '\n' || c == '\r'
}

/// The cache key of the window counter for one client IP.
pub fn rate_limit_key(ip: &str) -> (r: String)
    ensures
        r@ == "rate_limiter:"@ + ip@,
{
    String::from_str("rate_limiter:").concat(ip)
}

} // verus!
