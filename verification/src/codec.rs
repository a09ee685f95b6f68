//! The record line format. A record's on-disk representation is exactly one
//! line of structured text; this module renders a record to such a line and
//! parses a line back, and proves that parsing undoes rendering. Everything
//! is stated over `Seq<char>` views, so the store's round-trip property is a
//! theorem, not a convention.

use vstd::prelude::*;

use crate::priority::Priority;
use crate::todo::{Date, Todo};

verus! {

// ------------------------------------------------------------------
// Decimal digits
// ------------------------------------------------------------------

/// Whether `c` is a decimal digit.
pub open spec fn is_digit(c: char) -> bool {
    48 <= c as u32 && c as u32 <= 57
}

/// The value of a digit character.
pub open spec fn char_digit(c: char) -> nat
    recommends
        is_digit(c),
{
    (c as u32 - 48) as nat
}

/// The digit character for a value below ten.
pub open spec fn digit_char(d: nat) -> char
    recommends
        d < 10,
{
    if d == 0 {
        '0'
    } else if d == 1 {
        '1'
    } else if d == 2 {
        '2'
    } else if d == 3 {
        '3'
    } else if d == 4 {
        '4'
    } else if d == 5 {
        '5'
    } else if d == 6 {
        '6'
    } else if d == 7 {
        '7'
    } else if d == 8 {
        '8'
    } else {
        '9'
    }
}

proof fn lemma_digit_char(d: nat)
    requires
        d < 10,
    ensures
        is_digit(digit_char(d)),
        char_digit(digit_char(d)) == d,
{
}

/// The decimal rendering of `n`, most significant digit first, without
/// leading zeros.
pub open spec fn spec_digits(n: nat) -> Seq<char>
    decreases n,
{
    if n < 10 {
        seq![digit_char(n)]
    } else {
        spec_digits(n / 10) + seq![digit_char(n % 10)]
    }
}

/// The numeric value of a sequence of digit characters.
pub open spec fn digits_value(s: Seq<char>) -> nat
    decreases s.len(),
{
    if s.len() == 0 {
        0
    } else {
        digits_value(s.drop_last()) * 10 + char_digit(s.last())
    }
}

/// Rendering a number gives digit characters only, at least one of them.
pub proof fn lemma_digits_are_digits(n: nat)
    ensures
        spec_digits(n).len() >= 1,
        forall|i: int| 0 <= i < spec_digits(n).len() ==> is_digit(#[trigger] spec_digits(n)[i]),
    decreases n,
{
    if n < 10 {
        lemma_digit_char(n);
    } else {
        lemma_digits_are_digits(n / 10);
        lemma_digit_char(n % 10);
    }
}

/// The value of a rendered number is the number itself.
pub proof fn lemma_digits_value(n: nat)
    ensures
        digits_value(spec_digits(n)) == n,
    decreases n,
{
    if n < 10 {
        lemma_digit_char(n);
        assert(digits_value(Seq::<char>::empty()) == 0);
        assert(spec_digits(n).drop_last() =~= Seq::<char>::empty());
        assert(spec_digits(n).last() == digit_char(n));
        assert(digits_value(spec_digits(n)) == digits_value(Seq::<char>::empty()) * 10
            + char_digit(digit_char(n)));
    } else {
        lemma_digits_value(n / 10);
        lemma_digit_char(n % 10);
        let s = spec_digits(n);
        assert(s.drop_last() =~= spec_digits(n / 10));
        assert(s.last() == digit_char(n % 10));
        assert(n / 10 * 10 + n % 10 == n) by (nonlinear_arith);
    }
}

/// A digit run's value never shrinks when the run is extended.
proof fn lemma_digits_value_mono(s: Seq<char>, k: int)
    requires
        0 <= k <= s.len(),
    ensures
        digits_value(s.subrange(0, k)) <= digits_value(s),
    decreases s.len() - k,
{
    if k == s.len() {
        assert(s.subrange(0, k) =~= s);
    } else {
        lemma_digits_value_mono(s, k + 1);
        let a = s.subrange(0, k);
        let b = s.subrange(0, k + 1);
        assert(b.drop_last() =~= a);
        assert(digits_value(b) == digits_value(a) * 10 + char_digit(b.last()));
        assert(digits_value(a) <= digits_value(a) * 10) by (nonlinear_arith);
    }
}

/// Converts a digit value to its character.
fn digit_to_char(d: u64) -> (c: char)
    requires
        d < 10,
    ensures
        c == digit_char(d as nat),
{
    if d == 0 {
        '0'
    } else if d == 1 {
        '1'
    } else if d == 2 {
        '2'
    } else if d == 3 {
        '3'
    } else if d == 4 {
        '4'
    } else if d == 5 {
        '5'
    } else if d == 6 {
        '6'
    } else if d == 7 {
        '7'
    } else if d == 8 {
        '8'
    } else {
        '9'
    }
}

/// Converts a digit character to its value; `None` on any other character.
fn char_to_digit(c: char) -> (r: Option<u64>)
    ensures
        is_digit(c) ==> r == Some(char_digit(c) as u64),
        !is_digit(c) ==> r is None,
{
    let u = c as u32;
    if 48 <= u && u <= 57 {
        Some((u - 48) as u64)
    } else {
        None
    }
}

/// Appends the decimal rendering of `n` to `out`.
pub fn render_u64(n: u64, out: &mut Vec<char>)
    ensures
        final(out)@ == old(out)@ + spec_digits(n as nat),
    decreases n,
{
    if n < 10 {
        out.push(digit_to_char(n));
        proof {
            assert(out@ =~= old(out)@ + spec_digits(n as nat));
        }
    } else {
        render_u64(n / 10, out);
        out.push(digit_to_char(n % 10));
        proof {
            assert(out@ =~= old(out)@ + (spec_digits(n as nat / 10) + seq![
                digit_char(n as nat % 10),
            ]));
        }
    }
}

// ------------------------------------------------------------------
// Parsing numbers
// ------------------------------------------------------------------

/// The length of the longest digit prefix of `s`.
pub open spec fn digit_run_len(s: Seq<char>) -> int
    decreases s.len(),
{
    if s.len() == 0 || !is_digit(s[0]) {
        0
    } else {
        1 + digit_run_len(s.drop_first())
    }
}

/// Any digit prefix ending at a non-digit or at the end is the digit run.
pub proof fn lemma_digit_run_unique(s: Seq<char>, k: int)
    requires
        0 <= k <= s.len(),
        forall|j: int| 0 <= j < k ==> is_digit(s[j]),
        k < s.len() ==> !is_digit(s[k]),
    ensures
        digit_run_len(s) == k,
    decreases s.len(),
{
    if k == 0 {
        if s.len() > 0 && is_digit(s[0]) {
            assert(!is_digit(s[0]));
        }
    } else {
        assert(is_digit(s[0]));
        let t = s.drop_first();
        assert(forall|j: int| 0 <= j < k - 1 ==> is_digit(#[trigger] t[j]) && t[j] == s[j + 1]);
        if k - 1 < t.len() {
            assert(t[k - 1] == s[k]);
        }
        lemma_digit_run_unique(t, k - 1);
    }
}

/// Parses a decimal number from the head of `s`: the longest digit prefix,
/// which must be non-empty and have a value that fits in a `u64`. Returns
/// the value and the rest of the input.
pub open spec fn spec_parse_u64(s: Seq<char>) -> Option<(u64, Seq<char>)> {
    let e = digit_run_len(s);
    if e == 0 {
        None
    } else if digits_value(s.subrange(0, e)) > u64::MAX {
        None
    } else {
        Some(((digits_value(s.subrange(0, e)) as u64), s.skip(e)))
    }
}

/// Parsing undoes rendering: a rendered number followed by anything that
/// does not begin with a digit parses back to the number.
pub proof fn lemma_parse_render_u64(n: u64, rest: Seq<char>)
    requires
        rest.len() > 0 ==> !is_digit(rest[0]),
    ensures
        spec_parse_u64(spec_digits(n as nat) + rest) == Some((n, rest)),
{
    let d = spec_digits(n as nat);
    let s = d + rest;
    lemma_digits_are_digits(n as nat);
    lemma_digits_value(n as nat);
    assert(forall|j: int| 0 <= j < d.len() ==> is_digit(#[trigger] s[j]) && s[j] == d[j]);
    if d.len() < s.len() {
        assert(s[d.len() as int] == rest[0]);
    }
    lemma_digit_run_unique(s, d.len() as int);
    assert(s.subrange(0, d.len() as int) =~= d);
    assert(s.skip(d.len() as int) =~= rest);
}

/// Parses a decimal number at position `pos` of `chars`.
pub fn parse_u64_at(chars: &Vec<char>, pos: usize) -> (r: Option<(u64, usize)>)
    requires
        pos <= chars@.len(),
    ensures
        match r {
            Some((v, p)) => {
                &&& pos < p <= chars@.len()
                &&& spec_parse_u64(chars@.skip(pos as int)) == Some((v, chars@.skip(p as int)))
            },
            None => spec_parse_u64(chars@.skip(pos as int)) is None,
        },
{
    let ghost s = chars@.skip(pos as int);
    let n = chars.len();
    // find the end of the digit run
    let mut e: usize = pos;
    while e < n && char_to_digit(chars[e]).is_some()
        invariant
            pos <= e <= n,
            n == chars@.len(),
            s == chars@.skip(pos as int),
            forall|j: int| pos <= j < e ==> is_digit(chars@[j]),
        decreases n - e,
    {
        e = e + 1;
    }
    proof {
        assert(forall|j: int| 0 <= j < e - pos ==> is_digit(#[trigger] s[j]));
        if e < n {
            assert(s[e - pos] == chars@[e as int]);
            assert(!is_digit(s[e - pos]));
        }
        lemma_digit_run_unique(s, e - pos);
    }
    if e == pos {
        return None;
    }
    // accumulate the value, watching for overflow
    let mut v: u64 = 0;
    let mut j: usize = pos;
    while j < e
        invariant
            pos < e,
            pos <= j <= e <= n,
            n == chars@.len(),
            s == chars@.skip(pos as int),
            digit_run_len(s) == e - pos,
            forall|k: int| pos <= k < e ==> is_digit(chars@[k]),
            v == digits_value(s.subrange(0, j - pos)),
        decreases e - j,
    {
        proof {
            assert(is_digit(chars@[j as int]));
        }
        let d = char_to_digit(chars[j]).unwrap();
        proof {
            assert(s[j - pos] == chars@[j as int]);
            assert(s.subrange(0, j - pos + 1).drop_last() =~= s.subrange(0, j - pos));
            assert(s.subrange(0, j - pos + 1).last() == s[j - pos]);
        }
        if v > (u64::MAX - d) / 10 {
            proof {
                let full = s.subrange(0, e - pos);
                assert(digits_value(s.subrange(0, j - pos + 1)) == v * 10 + char_digit(
                    s[j - pos],
                ));
                assert(v * 10 + d > u64::MAX) by (nonlinear_arith)
                    requires
                        v > (u64::MAX - d) / 10,
                        d < 10,
                ;
                assert(full.subrange(0, j - pos + 1) =~= s.subrange(0, j - pos + 1));
                lemma_digits_value_mono(full, j - pos + 1);
                assert(digits_value(full) > u64::MAX);
            }
            return None;
        }
        proof {
            assert(v * 10 + d <= u64::MAX) by (nonlinear_arith)
                requires
                    v <= (u64::MAX - d) / 10,
                    d < 10,
            ;
        }
        v = v * 10 + d;
        j = j + 1;
    }
    proof {
        assert(s.subrange(0, e - pos) =~= s.subrange(0, j - pos));
        assert(s.skip(e - pos) =~= chars@.skip(e as int));
    }
    Some((v, e))
}

// ------------------------------------------------------------------
// Signed numbers
// ------------------------------------------------------------------

/// The rendering of a signed number: a minus sign for negative values,
/// then the decimal digits of the magnitude.
pub open spec fn spec_render_i64(n: i64) -> Seq<char> {
    if n < 0 {
        seq!['-'] + spec_digits((-(n as int)) as nat)
    } else {
        spec_digits(n as nat)
    }
}

/// Parses an optionally minus-signed decimal number whose value fits in
/// an `i64`.
pub open spec fn spec_parse_i64(s: Seq<char>) -> Option<(i64, Seq<char>)> {
    if s.len() > 0 && s[0] == '-' {
        match spec_parse_u64(s.drop_first()) {
            Some((m, r)) => if m <= 0x8000_0000_0000_0000u64 {
                Some(((-(m as int)) as i64, r))
            } else {
                None
            },
            None => None,
        }
    } else {
        match spec_parse_u64(s) {
            Some((m, r)) => if m <= 0x7fff_ffff_ffff_ffffu64 {
                Some((m as i64, r))
            } else {
                None
            },
            None => None,
        }
    }
}

/// Appends the rendering of a signed number to `out`.
pub fn render_i64(n: i64, out: &mut Vec<char>)
    ensures
        final(out)@ == old(out)@ + spec_render_i64(n),
{
    if n < 0 {
        out.push('-');
        let mag: u64 = if n == i64::MIN {
            0x8000_0000_0000_0000u64
        } else {
            (-n) as u64
        };
        proof {
            assert(mag as int == -(n as int));
        }
        let ghost mid = out@;
        render_u64(mag, out);
        proof {
            assert(out@ =~= old(out)@ + (seq!['-'] + spec_digits(mag as nat)));
        }
    } else {
        render_u64(n as u64, out);
    }
}

/// Parsing undoes rendering for signed numbers.
pub proof fn lemma_parse_render_i64(n: i64, rest: Seq<char>)
    requires
        rest.len() > 0 ==> !is_digit(rest[0]),
    ensures
        spec_parse_i64(spec_render_i64(n) + rest) == Some((n, rest)),
{
    if n < 0 {
        let mag = (-(n as int)) as nat;
        let s = spec_render_i64(n) + rest;
        lemma_digits_are_digits(mag);
        assert(s[0] == '-');
        assert(!is_digit('-'));
        assert(s.drop_first() =~= spec_digits(mag) + rest);
        lemma_parse_render_u64(mag as u64, rest);
        assert(mag <= 0x8000_0000_0000_0000u64);
        assert((-(mag as int)) as i64 == n);
    } else {
        let s = spec_render_i64(n) + rest;
        lemma_digits_are_digits(n as nat);
        assert(s[0] == spec_digits(n as nat)[0]);
        assert(is_digit(s[0]));
        assert(s[0] != '-') by {
            if s[0] == '-' {
                assert(('-' as u32) < 48);
            }
        }
        lemma_parse_render_u64(n as u64, rest);
    }
}

/// Parses a signed number at position `pos` of `chars`.
pub fn parse_i64_at(chars: &Vec<char>, pos: usize) -> (r: Option<(i64, usize)>)
    requires
        pos <= chars@.len(),
    ensures
        match r {
            Some((v, p)) => {
                &&& pos < p <= chars@.len()
                &&& spec_parse_i64(chars@.skip(pos as int)) == Some((v, chars@.skip(p as int)))
            },
            None => spec_parse_i64(chars@.skip(pos as int)) is None,
        },
{
    let ghost s = chars@.skip(pos as int);
    if pos < chars.len() && chars[pos] == '-' {
        proof {
            assert(s[0] == chars@[pos as int]);
            assert(s.drop_first() =~= chars@.skip(pos + 1));
        }
        match parse_u64_at(chars, pos + 1) {
            Some((m, p)) => {
                if m <= 0x8000_0000_0000_0000u64 {
                    let v: i64 = if m == 0x8000_0000_0000_0000u64 {
                        i64::MIN
                    } else {
                        -(m as i64)
                    };
                    proof {
                        assert(v as int == -(m as int));
                    }
                    Some((v, p))
                } else {
                    None
                }
            },
            None => None,
        }
    } else {
        proof {
            if s.len() > 0 {
                assert(s[0] == chars@[pos as int]);
            }
        }
        match parse_u64_at(chars, pos) {
            Some((m, p)) => {
                if m <= 0x7fff_ffff_ffff_ffffu64 {
                    Some((m as i64, p))
                } else {
                    None
                }
            },
            None => None,
        }
    }
}

// ------------------------------------------------------------------
// String escaping
// ------------------------------------------------------------------

/// The characters that are written as a two-character escape.
pub open spec fn needs_escape(c: char) -> bool {
    c == '"' || c == '\\' || c == '\n' || c == '\r' || c == '\t'
}

/// The code letter written after the backslash for an escaped character.
pub open spec fn escape_code_of(c: char) -> char
    recommends
        needs_escape(c),
{
    if c == '"' {
        '"'
    } else if c == '\\' {
        '\\'
    } else if c == '\n' {
        'n'
    } else if c == '\r' {
        'r'
    } else {
        't'
    }
}

/// The code letters that may follow a backslash.
pub open spec fn is_escape_code(c: char) -> bool {
    c == '"' || c == '\\' || c == 'n' || c == 'r' || c == 't'
}

/// The character an escape code stands for.
pub open spec fn unescape_code(c: char) -> char
    recommends
        is_escape_code(c),
{
    if c == '"' {
        '"'
    } else if c == '\\' {
        '\\'
    } else if c == 'n' {
        '\n'
    } else if c == 'r' {
        '\r'
    } else {
        '\t'
    }
}

/// The escaped form of one character.
pub open spec fn escape_char(c: char) -> Seq<char> {
    if needs_escape(c) {
        seq!['\\', escape_code_of(c)]
    } else {
        seq![c]
    }
}

/// The escaped form of a sequence of characters.
pub open spec fn escape_seq(s: Seq<char>) -> Seq<char>
    decreases s.len(),
{
    if s.len() == 0 {
        Seq::empty()
    } else {
        escape_char(s[0]) + escape_seq(s.drop_first())
    }
}

/// Escaping distributes over concatenation.
proof fn lemma_escape_append(a: Seq<char>, b: Seq<char>)
    ensures
        escape_seq(a + b) == escape_seq(a) + escape_seq(b),
    decreases a.len(),
{
    if a.len() == 0 {
        assert(a + b =~= b);
        assert(escape_seq(a) + escape_seq(b) =~= escape_seq(b));
    } else {
        lemma_escape_append(a.drop_first(), b);
        assert((a + b).drop_first() =~= a.drop_first() + b);
        assert((a + b)[0] == a[0]);
        assert(escape_char(a[0]) + (escape_seq(a.drop_first()) + escape_seq(b)) =~= (escape_char(
            a[0],
        ) + escape_seq(a.drop_first())) + escape_seq(b));
    }
}

/// An escaped text never contains a newline, so a record stays on one line.
pub proof fn lemma_escape_no_newline(s: Seq<char>)
    ensures
        !escape_seq(s).contains('\n'),
    decreases s.len(),
{
    if s.len() == 0 {
    } else {
        lemma_escape_no_newline(s.drop_first());
        let e = escape_seq(s);
        let h = escape_char(s[0]);
        let t = escape_seq(s.drop_first());
        assert(!e.contains('\n')) by {
            if e.contains('\n') {
                let k = choose|k: int| 0 <= k < e.len() && e[k] == '\n';
                if k < h.len() {
                    assert(h[k] == '\n');
                    assert(false);
                } else {
                    assert(t[k - h.len()] == '\n');
                    assert(t.contains('\n'));
                    assert(false);
                }
            }
        }
    }
}

/// Appends the escaped form of the characters of `s` to `out`.
pub fn escape_into(s: &str, out: &mut Vec<char>)
    ensures
        final(out)@ == old(out)@ + escape_seq(s@),
{
    let n = s.unicode_len();
    let mut i: usize = 0;
    proof {
        assert(s@.subrange(0, 0) =~= Seq::<char>::empty());
        assert(out@ =~= out@ + escape_seq(s@.subrange(0, 0)));
    }
    while i < n
        invariant
            n == s@.len(),
            i <= n,
            out@ == old(out)@ + escape_seq(s@.subrange(0, i as int)),
        decreases n - i,
    {
        let c = s.get_char(i);
        let ghost pre = s@.subrange(0, i as int);
        proof {
            assert(s@.subrange(0, i + 1) =~= pre + seq![c]);
            lemma_escape_append(pre, seq![c]);
            assert(escape_seq(seq![c]) =~= escape_char(c)) by {
                assert(escape_seq(Seq::<char>::empty()) == Seq::<char>::empty());
                assert(seq![c].drop_first() =~= Seq::<char>::empty());
                assert(seq![c][0] == c);
                assert(escape_seq(seq![c]) == escape_char(c) + escape_seq(seq![c].drop_first()));
                assert(escape_char(c) + Seq::<char>::empty() =~= escape_char(c));
            }
        }
        if c == '"' {
            out.push('\\');
            out.push('"');
        } else if c == '\\' {
            out.push('\\');
            out.push('\\');
        } else if c == '\n' {
            out.push('\\');
            out.push('n');
        } else if c == '\r' {
            out.push('\\');
            out.push('r');
        } else if c == '\t' {
            out.push('\\');
            out.push('t');
        } else {
            out.push(c);
        }
        proof {
            assert(out@ =~= old(out)@ + escape_seq(s@.subrange(0, i + 1)));
        }
        i = i + 1;
    }
    proof {
        assert(s@.subrange(0, n as int) =~= s@);
    }
}

/// Parses the body of a quoted string: everything up to an unescaped
/// closing quote, with escapes decoded. Returns the decoded content and
/// the rest of the input after the closing quote.
pub open spec fn spec_parse_str_body(s: Seq<char>) -> Option<(Seq<char>, Seq<char>)>
    decreases s.len(),
{
    if s.len() == 0 {
        None
    } else if s[0] == '"' {
        Some((Seq::empty(), s.drop_first()))
    } else if s[0] == '\\' {
        if s.len() >= 2 && is_escape_code(s[1]) {
            match spec_parse_str_body(s.skip(2)) {
                Some((t, r)) => Some((seq![unescape_code(s[1])] + t, r)),
                None => None,
            }
        } else {
            None
        }
    } else {
        match spec_parse_str_body(s.drop_first()) {
            Some((t, r)) => Some((seq![s[0]] + t, r)),
            None => None,
        }
    }
}

/// Parsing a string body undoes escaping: the escaped text, a closing
/// quote, and anything after parse back to the original text.
pub proof fn lemma_parse_escape(sv: Seq<char>, rest: Seq<char>)
    ensures
        spec_parse_str_body(escape_seq(sv) + seq!['"'] + rest) == Some((sv, rest)),
    decreases sv.len(),
{
    let s = escape_seq(sv) + seq!['"'] + rest;
    if sv.len() == 0 {
        assert(s =~= seq!['"'] + rest);
        assert(s[0] == '"');
        assert(s.drop_first() =~= rest);
        assert(Seq::<char>::empty() =~= sv);
    } else {
        let c = sv[0];
        let tail = sv.drop_first();
        lemma_parse_escape(tail, rest);
        assert(escape_seq(sv) =~= escape_char(c) + escape_seq(tail));
        if needs_escape(c) {
            assert(s[0] == '\\');
            assert(s[1] == escape_code_of(c));
            assert(is_escape_code(escape_code_of(c)));
            assert(s.skip(2) =~= escape_seq(tail) + seq!['"'] + rest);
            assert(unescape_code(escape_code_of(c)) == c);
            assert(seq![c] + tail =~= sv);
        } else {
            assert(s[0] == c);
            assert(c != '"' && c != '\\');
            assert(s.drop_first() =~= escape_seq(tail) + seq!['"'] + rest);
            assert(seq![c] + tail =~= sv);
        }
    }
}

/// Parses a quoted string body at position `pos` of `chars` (the opening
/// quote has already been consumed).
pub fn parse_str_body_at(chars: &Vec<char>, pos: usize) -> (r: Option<(String, usize)>)
    requires
        pos <= chars@.len(),
    ensures
        match r {
            Some((v, p)) => {
                &&& pos < p <= chars@.len()
                &&& spec_parse_str_body(chars@.skip(pos as int)) == Some((
                    v@,
                    chars@.skip(p as int),
                ))
            },
            None => spec_parse_str_body(chars@.skip(pos as int)) is None,
        },
{
    let ghost s = chars@.skip(pos as int);
    let n = chars.len();
    let mut acc: Vec<char> = Vec::new();
    let mut j: usize = pos;
    loop
        invariant
            pos <= j <= n,
            n == chars@.len(),
            s == chars@.skip(pos as int),
            spec_parse_str_body(s) == match spec_parse_str_body(chars@.skip(j as int)) {
                Some((t, r)) => Some::<(Seq<char>, Seq<char>)>((acc@ + t, r)),
                None => None::<(Seq<char>, Seq<char>)>,
            },
        decreases n - j,
    {
        let ghost sj = chars@.skip(j as int);
        if j == n {
            proof {
                assert(sj.len() == 0);
            }
            return None;
        }
        let c = chars[j];
        proof {
            assert(sj[0] == chars@[j as int]);
            assert(sj.drop_first() =~= chars@.skip(j + 1));
        }
        if c == '"' {
            let out = crate::text::chars_to_string(&acc);
            proof {
                assert(acc@ + Seq::<char>::empty() =~= acc@);
            }
            return Some((out, j + 1));
        } else if c == '\\' {
            if j + 1 < n {
                let code = chars[j + 1];
                proof {
                    assert(sj[1] == chars@[j + 1]);
                    assert(sj.skip(2) =~= chars@.skip(j + 2));
                }
                let decoded: char = if code == '"' {
                    '"'
                } else if code == '\\' {
                    '\\'
                } else if code == 'n' {
                    '\n'
                } else if code == 'r' {
                    '\r'
                } else if code == 't' {
                    '\t'
                } else {
                    proof {
                        assert(!is_escape_code(sj[1]));
                    }
                    return None;
                };
                let ghost prev_acc = acc@;
                acc.push(decoded);
                proof {
                    assert(decoded == unescape_code(sj[1]));
                    assert forall|t: Seq<char>| acc@ + t =~= prev_acc + (seq![
                        unescape_code(sj[1]),
                    ] + t) by {
                        assert(acc@ + t =~= prev_acc + (seq![unescape_code(sj[1])] + t));
                    }
                }
                j = j + 2;
            } else {
                proof {
                    assert(sj.len() < 2);
                }
                return None;
            }
        } else {
            let ghost prev_acc = acc@;
            acc.push(c);
            proof {
                assert forall|t: Seq<char>| acc@ + t =~= prev_acc + (seq![sj[0]] + t) by {
                    assert(acc@ + t =~= prev_acc + (seq![sj[0]] + t));
                }
            }
            j = j + 1;
        }
    }
}


// ------------------------------------------------------------------
// The record line
// ------------------------------------------------------------------

/// The parsed content of one record line.
pub ghost struct RecordView {
    pub id: u32,
    pub title: Seq<char>,
    pub description: Option<Seq<char>>,
    pub finished: bool,
    pub priority: Priority,
    pub created_at: i64,
    pub due_date: Option<Date>,
}

impl RecordView {
    /// The due date, if any, must be a valid calendar date.
    pub open spec fn wf(&self) -> bool {
        match self.due_date {
            Some(d) => d.is_valid(),
            None => true,
        }
    }
}

/// The same record content under another positional identity.
pub open spec fn with_id(v: RecordView, id: int) -> RecordView {
    RecordView {
        id: id as u32,
        title: v.title,
        description: v.description,
        finished: v.finished,
        priority: v.priority,
        created_at: v.created_at,
        due_date: v.due_date,
    }
}

/// The content of a record, including its positional identity.
pub open spec fn record_view(t: Todo) -> RecordView {
    RecordView {
        id: t.id,
        title: t.title@,
        description: t.description.deep_view(),
        finished: t.finished,
        priority: t.priority,
        created_at: t.created_at,
        due_date: t.due_date,
    }
}

/// Consumes an expected literal from the head of the input.
pub open spec fn spec_expect(s: Seq<char>, lit: Seq<char>) -> Option<Seq<char>> {
    if crate::text::spec_starts_with(s, lit) {
        Some(s.skip(lit.len() as int))
    } else {
        None
    }
}

/// A literal at the head of the input is consumed exactly.
pub proof fn lemma_expect(lit: Seq<char>, rest: Seq<char>)
    ensures
        spec_expect(lit + rest, lit) == Some(rest),
{
    let s = lit + rest;
    assert(s.subrange(0, lit.len() as int) =~= lit);
    assert(s.skip(lit.len() as int) =~= rest);
}

/// The rendering of a boolean field.
pub open spec fn spec_render_bool(b: bool) -> Seq<char> {
    if b {
        "true"@
    } else {
        "false"@
    }
}

/// Parses a boolean field.
pub open spec fn spec_parse_bool(s: Seq<char>) -> Option<(bool, Seq<char>)> {
    if crate::text::spec_starts_with(s, "true"@) {
        Some((true, s.skip("true"@.len() as int)))
    } else if crate::text::spec_starts_with(s, "false"@) {
        Some((false, s.skip("false"@.len() as int)))
    } else {
        None
    }
}

/// The rendering of the optional description: `null`, or the escaped text
/// in quotes.
pub open spec fn spec_render_opt_str(o: Option<Seq<char>>) -> Seq<char> {
    match o {
        None => "null"@,
        Some(v) => seq!['"'] + escape_seq(v) + seq!['"'],
    }
}

/// Parses the optional description.
pub open spec fn spec_parse_opt_str(s: Seq<char>) -> Option<(Option<Seq<char>>, Seq<char>)> {
    if s.len() > 0 && s[0] == '"' {
        match spec_parse_str_body(s.drop_first()) {
            Some((t, r)) => Some((Some(t), r)),
            None => None,
        }
    } else if crate::text::spec_starts_with(s, "null"@) {
        Some((None, s.skip("null"@.len() as int)))
    } else {
        None
    }
}

/// The rendering of the priority, with its closing quote.
pub open spec fn spec_render_priority(p: Priority) -> Seq<char> {
    match p {
        Priority::Low => "Low\""@,
        Priority::Medium => "Medium\""@,
        Priority::High => "High\""@,
    }
}

/// Parses the priority name up to and including its closing quote.
pub open spec fn spec_parse_priority(s: Seq<char>) -> Option<(Priority, Seq<char>)> {
    if crate::text::spec_starts_with(s, "Low\""@) {
        Some((Priority::Low, s.skip("Low\""@.len() as int)))
    } else if crate::text::spec_starts_with(s, "Medium\""@) {
        Some((Priority::Medium, s.skip("Medium\""@.len() as int)))
    } else if crate::text::spec_starts_with(s, "High\""@) {
        Some((Priority::High, s.skip("High\""@.len() as int)))
    } else {
        None
    }
}

/// The rendering of a date: year, month and day in brackets.
pub open spec fn spec_render_date(d: Date) -> Seq<char> {
    seq!['['] + spec_render_i64(d.year as i64) + seq![','] + spec_digits(d.month as nat) + seq![
        ',',
    ] + spec_digits(d.day as nat) + seq![']']
}

/// Parses a date; the month and day must lie in their calendar ranges.
pub open spec fn spec_parse_date(s: Seq<char>) -> Option<(Date, Seq<char>)> {
    if s.len() > 0 && s[0] == '[' {
        match spec_parse_i64(s.drop_first()) {
            Some((y, s1)) => if i32::MIN <= y <= i32::MAX && s1.len() > 0 && s1[0] == ',' {
                match spec_parse_u64(s1.drop_first()) {
                    Some((m, s2)) => if 1 <= m <= 12 && s2.len() > 0 && s2[0] == ',' {
                        match spec_parse_u64(s2.drop_first()) {
                            Some((dd, s3)) => if 1 <= dd <= 31 && s3.len() > 0 && s3[0] == ']' {
                                Some(
                                    (
                                        Date { year: y as i32, month: m as u8, day: dd as u8 },
                                        s3.drop_first(),
                                    ),
                                )
                            } else {
                                None
                            },
                            None => None,
                        }
                    } else {
                        None
                    },
                    None => None,
                }
            } else {
                None
            },
            None => None,
        }
    } else {
        None
    }
}

/// The rendering of the optional due date.
pub open spec fn spec_render_opt_date(o: Option<Date>) -> Seq<char> {
    match o {
        None => "null"@,
        Some(d) => spec_render_date(d),
    }
}

/// Parses the optional due date.
pub open spec fn spec_parse_opt_date(s: Seq<char>) -> Option<(Option<Date>, Seq<char>)> {
    if s.len() > 0 && s[0] == '[' {
        match spec_parse_date(s) {
            Some((d, r)) => Some((Some(d), r)),
            None => None,
        }
    } else if crate::text::spec_starts_with(s, "null"@) {
        Some((None, s.skip("null"@.len() as int)))
    } else {
        None
    }
}

/// The whole record line.
pub open spec fn spec_render_line(v: RecordView) -> Seq<char> {
    "{\"id\":"@ + spec_digits(v.id as nat) + ",\"title\":\""@ + escape_seq(v.title) + seq!['"']
        + ",\"description\":"@ + spec_render_opt_str(v.description) + ",\"finished\":"@
        + spec_render_bool(v.finished) + ",\"priority\":\""@ + spec_render_priority(v.priority)
        + ",\"created_at\":"@ + spec_render_i64(v.created_at) + ",\"due_date\":"@
        + spec_render_opt_date(v.due_date) + "}"@
}

/// Parses a whole record line; every field must parse and nothing may
/// follow the closing brace.
pub open spec fn spec_parse_line(s: Seq<char>) -> Option<RecordView> {
    match spec_expect(s, "{\"id\":"@) {
        None => None,
        Some(s1) => match spec_parse_u64(s1) {
            None => None,
            Some((id, s2)) => if id > u32::MAX {
                None
            } else {
                match spec_expect(s2, ",\"title\":\""@) {
                    None => None,
                    Some(s3) => match spec_parse_str_body(s3) {
                        None => None,
                        Some((title, s4)) => match spec_expect(s4, ",\"description\":"@) {
                            None => None,
                            Some(s5) => match spec_parse_opt_str(s5) {
                                None => None,
                                Some((description, s6)) => match spec_expect(
                                    s6,
                                    ",\"finished\":"@,
                                ) {
                                    None => None,
                                    Some(s7) => match spec_parse_bool(s7) {
                                        None => None,
                                        Some((finished, s8)) => match spec_expect(
                                            s8,
                                            ",\"priority\":\""@,
                                        ) {
                                            None => None,
                                            Some(s9) => match spec_parse_priority(s9) {
                                                None => None,
                                                Some((priority, s10)) => match spec_expect(
                                                    s10,
                                                    ",\"created_at\":"@,
                                                ) {
                                                    None => None,
                                                    Some(s11) => match spec_parse_i64(s11) {
                                                        None => None,
                                                        Some((created_at, s12)) => match spec_expect(
                                                            s12,
                                                            ",\"due_date\":"@,
                                                        ) {
                                                            None => None,
                                                            Some(s13) => match spec_parse_opt_date(
                                                                s13,
                                                            ) {
                                                                None => None,
                                                                Some((due_date, s14)) => match spec_expect(
                                                                    s14,
                                                                    "}"@,
                                                                ) {
                                                                    None => None,
                                                                    Some(s15) => if s15.len()
                                                                        == 0 {
                                                                        Some(
                                                                            RecordView {
                                                                                id: id as u32,
                                                                                title,
                                                                                description,
                                                                                finished,
                                                                                priority,
                                                                                created_at,
                                                                                due_date,
                                                                            },
                                                                        )
                                                                    } else {
                                                                        None
                                                                    },
                                                                },
                                                            },
                                                        },
                                                    },
                                                },
                                            },
                                        },
                                    },
                                },
                            },
                        },
                    },
                }
            },
        },
    }
}

/// First characters and lengths of the literals of the line grammar.
proof fn lemma_lit_facts()
    ensures
        "{\"id\":"@.len() == 6 && "{\"id\":"@[0] == '{',
        ",\"title\":\""@.len() == 10 && ",\"title\":\""@[0] == ',',
        ",\"description\":"@.len() == 15 && ",\"description\":"@[0] == ',',
        ",\"finished\":"@.len() == 12 && ",\"finished\":"@[0] == ',',
        ",\"priority\":\""@.len() == 13 && ",\"priority\":\""@[0] == ',',
        ",\"created_at\":"@.len() == 14 && ",\"created_at\":"@[0] == ',',
        ",\"due_date\":"@.len() == 12 && ",\"due_date\":"@[0] == ',',
        "}"@.len() == 1 && "}"@[0] == '}',
        "true"@.len() == 4 && "true"@[0] == 't',
        "false"@.len() == 5 && "false"@[0] == 'f',
        "null"@.len() == 4 && "null"@[0] == 'n',
        "Low\""@.len() == 4 && "Low\""@[0] == 'L',
        "Medium\""@.len() == 7 && "Medium\""@[0] == 'M',
        "High\""@.len() == 5 && "High\""@[0] == 'H',
{
    reveal_strlit("{\"id\":");
    reveal_strlit(",\"title\":\"");
    reveal_strlit(",\"description\":");
    reveal_strlit(",\"finished\":");
    reveal_strlit(",\"priority\":\"");
    reveal_strlit(",\"created_at\":");
    reveal_strlit(",\"due_date\":");
    reveal_strlit("}");
    reveal_strlit("true");
    reveal_strlit("false");
    reveal_strlit("null");
    reveal_strlit("Low\"");
    reveal_strlit("Medium\"");
    reveal_strlit("High\"");
}

/// Parsing a rendered boolean yields the boolean.
proof fn lemma_parse_render_bool(b: bool, rest: Seq<char>)
    ensures
        spec_parse_bool(spec_render_bool(b) + rest) == Some((b, rest)),
{
    lemma_lit_facts();
    let s = spec_render_bool(b) + rest;
    if b {
        assert(s.subrange(0, 4) =~= "true"@);
        assert(s.skip(4) =~= rest);
    } else {
        assert(!crate::text::spec_starts_with(s, "true"@)) by {
            if crate::text::spec_starts_with(s, "true"@) {
                assert(s.subrange(0, 4)[0] == s[0]);
                assert(s[0] == 'f');
            }
        }
        assert(s.subrange(0, 5) =~= "false"@);
        assert(s.skip(5) =~= rest);
    }
}

/// Parsing a rendered description yields the description.
proof fn lemma_parse_render_opt_str(o: Option<Seq<char>>, rest: Seq<char>)
    ensures
        spec_parse_opt_str(spec_render_opt_str(o) + rest) == Some((o, rest)),
{
    lemma_lit_facts();
    let s = spec_render_opt_str(o) + rest;
    match o {
        None => {
            assert(s[0] == 'n');
            assert(s.subrange(0, 4) =~= "null"@);
            assert(s.skip(4) =~= rest);
        },
        Some(v) => {
            assert(s[0] == '"');
            assert(s.drop_first() =~= escape_seq(v) + seq!['"'] + rest);
            lemma_parse_escape(v, rest);
        },
    }
}

/// Parsing a rendered priority yields the priority.
proof fn lemma_parse_render_priority(p: Priority, rest: Seq<char>)
    ensures
        spec_parse_priority(spec_render_priority(p) + rest) == Some((p, rest)),
{
    lemma_lit_facts();
    let s = spec_render_priority(p) + rest;
    match p {
        Priority::Low => {
            assert(s.subrange(0, 4) =~= "Low\""@);
            assert(s.skip(4) =~= rest);
        },
        Priority::Medium => {
            assert(!crate::text::spec_starts_with(s, "Low\""@)) by {
                if crate::text::spec_starts_with(s, "Low\""@) {
                    assert(s.subrange(0, 4)[0] == s[0]);
                    assert(s[0] == 'M');
                }
            }
            assert(s.subrange(0, 7) =~= "Medium\""@);
            assert(s.skip(7) =~= rest);
        },
        Priority::High => {
            assert(!crate::text::spec_starts_with(s, "Low\""@)) by {
                if crate::text::spec_starts_with(s, "Low\""@) {
                    assert(s.subrange(0, 4)[0] == s[0]);
                    assert(s[0] == 'H');
                }
            }
            assert(!crate::text::spec_starts_with(s, "Medium\""@)) by {
                if crate::text::spec_starts_with(s, "Medium\""@) {
                    assert(s.subrange(0, 7)[0] == s[0]);
                    assert(s[0] == 'H');
                }
            }
            assert(s.subrange(0, 5) =~= "High\""@);
            assert(s.skip(5) =~= rest);
        },
    }
}

/// Parsing a rendered date yields the date.
proof fn lemma_parse_render_date(d: Date, rest: Seq<char>)
    requires
        d.is_valid(),
    ensures
        spec_parse_date(spec_render_date(d) + rest) == Some((d, rest)),
{
    let s = spec_render_date(d) + rest;
    let y = spec_render_i64(d.year as i64);
    let m = spec_digits(d.month as nat);
    let dd = spec_digits(d.day as nat);
    assert(s[0] == '[');
    let r1 = seq![','] + m + seq![','] + dd + seq![']'] + rest;
    assert(s.drop_first() =~= y + r1);
    assert(!is_digit(','));
    assert(r1[0] == ',');
    lemma_parse_render_i64(d.year as i64, r1);
    let r2 = seq![','] + dd + seq![']'] + rest;
    assert(r1.drop_first() =~= m + r2);
    assert(r2[0] == ',');
    lemma_parse_render_u64(d.month as u64, r2);
    let r3 = seq![']'] + rest;
    assert(r2.drop_first() =~= dd + r3);
    assert(r3[0] == ']');
    assert(!is_digit(']'));
    lemma_parse_render_u64(d.day as u64, r3);
    assert(r3.drop_first() =~= rest);
}

/// Parsing a rendered due date yields the due date.
proof fn lemma_parse_render_opt_date(o: Option<Date>, rest: Seq<char>)
    requires
        match o {
            Some(d) => d.is_valid(),
            None => true,
        },
    ensures
        spec_parse_opt_date(spec_render_opt_date(o) + rest) == Some((o, rest)),
{
    lemma_lit_facts();
    let s = spec_render_opt_date(o) + rest;
    match o {
        None => {
            assert(s[0] == 'n');
            assert(s.subrange(0, 4) =~= "null"@);
            assert(s.skip(4) =~= rest);
        },
        Some(d) => {
            assert(s[0] == '[');
            assert(spec_render_date(d) + rest =~= s);
            lemma_parse_render_date(d, rest);
        },
    }
}

/// THE ROUND TRIP: parsing a rendered record line yields the record.
#[verifier::rlimit(100)]
#[verifier::spinoff_prover]
pub proof fn lemma_parse_render_line(v: RecordView)
    requires
        v.wf(),
    ensures
        spec_parse_line(spec_render_line(v)) == Some(v),
{
    lemma_lit_facts();
    lemma_digits_are_digits(v.id as nat);
    let s = spec_render_line(v);
    let t8: Seq<char> = "}"@;
    let t7 = ",\"due_date\":"@ + spec_render_opt_date(v.due_date) + t8;
    let t6 = ",\"created_at\":"@ + spec_render_i64(v.created_at) + t7;
    let t5 = ",\"priority\":\""@ + spec_render_priority(v.priority) + t6;
    let t4 = ",\"finished\":"@ + spec_render_bool(v.finished) + t5;
    let t3 = ",\"description\":"@ + spec_render_opt_str(v.description) + t4;
    let t2 = ",\"title\":\""@ + escape_seq(v.title) + seq!['"'] + t3;
    let t1 = spec_digits(v.id as nat) + t2;
    assert(s =~= "{\"id\":"@ + t1);
    lemma_expect("{\"id\":"@, t1);
    assert(t2[0] == ',');
    assert(!is_digit(','));
    assert(t1 =~= spec_digits(v.id as nat) + t2);
    lemma_parse_render_u64(v.id as u64, t2);
    assert(t2 =~= ",\"title\":\""@ + (escape_seq(v.title) + seq!['"'] + t3));
    lemma_expect(",\"title\":\""@, escape_seq(v.title) + seq!['"'] + t3);
    lemma_parse_escape(v.title, t3);
    assert(t3 =~= ",\"description\":"@ + (spec_render_opt_str(v.description) + t4));
    lemma_expect(",\"description\":"@, spec_render_opt_str(v.description) + t4);
    lemma_parse_render_opt_str(v.description, t4);
    assert(t4 =~= ",\"finished\":"@ + (spec_render_bool(v.finished) + t5));
    lemma_expect(",\"finished\":"@, spec_render_bool(v.finished) + t5);
    lemma_parse_render_bool(v.finished, t5);
    assert(t5 =~= ",\"priority\":\""@ + (spec_render_priority(v.priority) + t6));
    lemma_expect(",\"priority\":\""@, spec_render_priority(v.priority) + t6);
    lemma_parse_render_priority(v.priority, t6);
    assert(t6 =~= ",\"created_at\":"@ + (spec_render_i64(v.created_at) + t7));
    lemma_expect(",\"created_at\":"@, spec_render_i64(v.created_at) + t7);
    assert(t7[0] == ',');
    lemma_parse_render_i64(v.created_at, t7);
    assert(t7 =~= ",\"due_date\":"@ + (spec_render_opt_date(v.due_date) + t8));
    lemma_expect(",\"due_date\":"@, spec_render_opt_date(v.due_date) + t8);
    lemma_parse_render_opt_date(v.due_date, t8);
    assert(t8 =~= "}"@ + Seq::<char>::empty());
    lemma_expect("}"@, Seq::<char>::empty());
}


/// A sequence whose two parts lack a character lacks it too.
proof fn lemma_concat_not_contains(a: Seq<char>, b: Seq<char>, c: char)
    requires
        !a.contains(c),
        !b.contains(c),
    ensures
        !(a + b).contains(c),
{
    if (a + b).contains(c) {
        let k = choose|k: int| 0 <= k < (a + b).len() && (a + b)[k] == c;
        if k < a.len() {
            assert(a[k] == c);
        } else {
            assert(b[k - a.len()] == c);
        }
    }
}

/// Digit characters are never a newline.
proof fn lemma_digits_not_newline(n: nat)
    ensures
        !spec_digits(n).contains('\n'),
{
    lemma_digits_are_digits(n);
    if spec_digits(n).contains('\n') {
        let k = choose|k: int| 0 <= k < spec_digits(n).len() && spec_digits(n)[k] == '\n';
        assert(is_digit(spec_digits(n)[k]));
    }
}

/// None of the grammar's literals contains a newline.
proof fn lemma_lits_no_newline()
    ensures
        !"{\"id\":"@.contains('\n'),
        !",\"title\":\""@.contains('\n'),
        !",\"description\":"@.contains('\n'),
        !",\"finished\":"@.contains('\n'),
        !",\"priority\":\""@.contains('\n'),
        !",\"created_at\":"@.contains('\n'),
        !",\"due_date\":"@.contains('\n'),
        !"}"@.contains('\n'),
        !"true"@.contains('\n'),
        !"false"@.contains('\n'),
        !"null"@.contains('\n'),
        !"Low\""@.contains('\n'),
        !"Medium\""@.contains('\n'),
        !"High\""@.contains('\n'),
{
    reveal_strlit("{\"id\":");
    reveal_strlit(",\"title\":\"");
    reveal_strlit(",\"description\":");
    reveal_strlit(",\"finished\":");
    reveal_strlit(",\"priority\":\"");
    reveal_strlit(",\"created_at\":");
    reveal_strlit(",\"due_date\":");
    reveal_strlit("}");
    reveal_strlit("true");
    reveal_strlit("false");
    reveal_strlit("null");
    reveal_strlit("Low\"");
    reveal_strlit("Medium\"");
    reveal_strlit("High\"");
    assert(!"{\"id\":"@.contains('\n')) by {
        if "{\"id\":"@.contains('\n') {
            let k = choose|k: int| 0 <= k < "{\"id\":"@.len() && "{\"id\":"@[k] == '\n';
        }
    }
    assert(!",\"title\":\""@.contains('\n')) by {
        if ",\"title\":\""@.contains('\n') {
            let k = choose|k: int| 0 <= k < ",\"title\":\""@.len() && ",\"title\":\""@[k] == '\n';
        }
    }
    assert(!",\"description\":"@.contains('\n')) by {
        if ",\"description\":"@.contains('\n') {
            let k = choose|k: int|
                0 <= k < ",\"description\":"@.len() && ",\"description\":"@[k] == '\n';
        }
    }
    assert(!",\"finished\":"@.contains('\n')) by {
        if ",\"finished\":"@.contains('\n') {
            let k = choose|k: int| 0 <= k < ",\"finished\":"@.len() && ",\"finished\":"@[k] == '\n';
        }
    }
    assert(!",\"priority\":\""@.contains('\n')) by {
        if ",\"priority\":\""@.contains('\n') {
            let k = choose|k: int|
                0 <= k < ",\"priority\":\""@.len() && ",\"priority\":\""@[k] == '\n';
        }
    }
    assert(!",\"created_at\":"@.contains('\n')) by {
        if ",\"created_at\":"@.contains('\n') {
            let k = choose|k: int|
                0 <= k < ",\"created_at\":"@.len() && ",\"created_at\":"@[k] == '\n';
        }
    }
    assert(!",\"due_date\":"@.contains('\n')) by {
        if ",\"due_date\":"@.contains('\n') {
            let k = choose|k: int| 0 <= k < ",\"due_date\":"@.len() && ",\"due_date\":"@[k] == '\n';
        }
    }
    assert(!"}"@.contains('\n')) by {
        if "}"@.contains('\n') {
            let k = choose|k: int| 0 <= k < "}"@.len() && "}"@[k] == '\n';
        }
    }
    assert(!"true"@.contains('\n')) by {
        if "true"@.contains('\n') {
            let k = choose|k: int| 0 <= k < "true"@.len() && "true"@[k] == '\n';
        }
    }
    assert(!"false"@.contains('\n')) by {
        if "false"@.contains('\n') {
            let k = choose|k: int| 0 <= k < "false"@.len() && "false"@[k] == '\n';
        }
    }
    assert(!"null"@.contains('\n')) by {
        if "null"@.contains('\n') {
            let k = choose|k: int| 0 <= k < "null"@.len() && "null"@[k] == '\n';
        }
    }
    assert(!"Low\""@.contains('\n')) by {
        if "Low\""@.contains('\n') {
            let k = choose|k: int| 0 <= k < "Low\""@.len() && "Low\""@[k] == '\n';
        }
    }
    assert(!"Medium\""@.contains('\n')) by {
        if "Medium\""@.contains('\n') {
            let k = choose|k: int| 0 <= k < "Medium\""@.len() && "Medium\""@[k] == '\n';
        }
    }
    assert(!"High\""@.contains('\n')) by {
        if "High\""@.contains('\n') {
            let k = choose|k: int| 0 <= k < "High\""@.len() && "High\""@[k] == '\n';
        }
    }
}

/// A rendered record line contains no newline: a record stays on one line.
#[verifier::rlimit(100)]
#[verifier::spinoff_prover]
pub proof fn lemma_render_line_no_newline(v: RecordView)
    ensures
        !spec_render_line(v).contains('\n'),
{
    lemma_lits_no_newline();
    lemma_digits_not_newline(v.id as nat);
    lemma_escape_no_newline(v.title);
    let nl = '\n';
    let sq: Seq<char> = seq!['"'];
    assert(!sq.contains(nl)) by {
        if sq.contains(nl) {
            let k = choose|k: int| 0 <= k < sq.len() && sq[k] == nl;
        }
    }
    assert(!spec_render_opt_str(v.description).contains(nl)) by {
        match v.description {
            None => {},
            Some(t) => {
                lemma_escape_no_newline(t);
                lemma_concat_not_contains(sq, escape_seq(t), nl);
                lemma_concat_not_contains(sq + escape_seq(t), sq, nl);
            },
        }
    }
    assert(!spec_render_bool(v.finished).contains(nl));
    assert(!spec_render_priority(v.priority).contains(nl));
    assert(!spec_render_i64(v.created_at).contains(nl)) by {
        if v.created_at < 0 {
            let dash: Seq<char> = seq!['-'];
            assert(!dash.contains(nl)) by {
                if dash.contains(nl) {
                    let k = choose|k: int| 0 <= k < dash.len() && dash[k] == nl;
                }
            }
            lemma_digits_not_newline((-(v.created_at as int)) as nat);
            lemma_concat_not_contains(dash, spec_digits((-(v.created_at as int)) as nat), nl);
        } else {
            lemma_digits_not_newline(v.created_at as nat);
        }
    }
    assert(!spec_render_opt_date(v.due_date).contains(nl)) by {
        match v.due_date {
            None => {},
            Some(d) => {
                lemma_date_no_newline(d);
            },
        }
    }
    let p1 = "{\"id\":"@ + spec_digits(v.id as nat);
    lemma_concat_not_contains("{\"id\":"@, spec_digits(v.id as nat), nl);
    let p2 = p1 + ",\"title\":\""@;
    lemma_concat_not_contains(p1, ",\"title\":\""@, nl);
    let p3 = p2 + escape_seq(v.title);
    lemma_concat_not_contains(p2, escape_seq(v.title), nl);
    let p4 = p3 + sq;
    lemma_concat_not_contains(p3, sq, nl);
    let p5 = p4 + ",\"description\":"@;
    lemma_concat_not_contains(p4, ",\"description\":"@, nl);
    let p6 = p5 + spec_render_opt_str(v.description);
    lemma_concat_not_contains(p5, spec_render_opt_str(v.description), nl);
    let p7 = p6 + ",\"finished\":"@;
    lemma_concat_not_contains(p6, ",\"finished\":"@, nl);
    let p8 = p7 + spec_render_bool(v.finished);
    lemma_concat_not_contains(p7, spec_render_bool(v.finished), nl);
    let p9 = p8 + ",\"priority\":\""@;
    lemma_concat_not_contains(p8, ",\"priority\":\""@, nl);
    let p10 = p9 + spec_render_priority(v.priority);
    lemma_concat_not_contains(p9, spec_render_priority(v.priority), nl);
    let p11 = p10 + ",\"created_at\":"@;
    lemma_concat_not_contains(p10, ",\"created_at\":"@, nl);
    let p12 = p11 + spec_render_i64(v.created_at);
    lemma_concat_not_contains(p11, spec_render_i64(v.created_at), nl);
    let p13 = p12 + ",\"due_date\":"@;
    lemma_concat_not_contains(p12, ",\"due_date\":"@, nl);
    let p14 = p13 + spec_render_opt_date(v.due_date);
    lemma_concat_not_contains(p13, spec_render_opt_date(v.due_date), nl);
    lemma_concat_not_contains(p14, "}"@, nl);
    assert(spec_render_line(v) == p14 + "}"@);
}

/// A rendered date contains no newline.
proof fn lemma_date_no_newline(d: Date)
    ensures
        !spec_render_date(d).contains('\n'),
{
    let nl = '\n';
    let ob: Seq<char> = seq!['['];
    let cm: Seq<char> = seq![','];
    let cb: Seq<char> = seq![']'];
    assert(!ob.contains(nl)) by {
        if ob.contains(nl) {
            let k = choose|k: int| 0 <= k < ob.len() && ob[k] == nl;
        }
    }
    assert(!cm.contains(nl)) by {
        if cm.contains(nl) {
            let k = choose|k: int| 0 <= k < cm.len() && cm[k] == nl;
        }
    }
    assert(!cb.contains(nl)) by {
        if cb.contains(nl) {
            let k = choose|k: int| 0 <= k < cb.len() && cb[k] == nl;
        }
    }
    let y = spec_render_i64(d.year as i64);
    assert(!y.contains(nl)) by {
        if d.year < 0 {
            let dash: Seq<char> = seq!['-'];
            assert(!dash.contains(nl)) by {
                if dash.contains(nl) {
                    let k = choose|k: int| 0 <= k < dash.len() && dash[k] == nl;
                }
            }
            lemma_digits_not_newline((-(d.year as int)) as nat);
            lemma_concat_not_contains(dash, spec_digits((-(d.year as int)) as nat), nl);
        } else {
            lemma_digits_not_newline(d.year as nat);
        }
    }
    lemma_digits_not_newline(d.month as nat);
    lemma_digits_not_newline(d.day as nat);
    let q1 = ob + y;
    lemma_concat_not_contains(ob, y, nl);
    let q2 = q1 + cm;
    lemma_concat_not_contains(q1, cm, nl);
    let q3 = q2 + spec_digits(d.month as nat);
    lemma_concat_not_contains(q2, spec_digits(d.month as nat), nl);
    let q4 = q3 + cm;
    lemma_concat_not_contains(q3, cm, nl);
    let q5 = q4 + spec_digits(d.day as nat);
    lemma_concat_not_contains(q4, spec_digits(d.day as nat), nl);
    lemma_concat_not_contains(q5, cb, nl);
    assert(spec_render_date(d) == q5 + cb);
}

/// A rendered record line starts with a brace, so it is never blank.
pub proof fn lemma_render_line_starts_brace(v: RecordView)
    ensures
        spec_render_line(v).len() >= 1,
        spec_render_line(v)[0] == '{',
{
    lemma_lit_facts();
    let s = spec_render_line(v);
    let p1 = "{\"id\":"@ + spec_digits(v.id as nat);
    assert(s[0] == p1[0]);
    assert(p1[0] == "{\"id\":"@[0]);
}

// ------------------------------------------------------------------
// Executable rendering and parsing of a line
// ------------------------------------------------------------------

/// Appends the characters of a literal to `out`.
fn push_lit(out: &mut Vec<char>, lit: &str)
    ensures
        final(out)@ == old(out)@ + lit@,
{
    let mut cs = crate::text::str_to_chars(lit);
    out.append(&mut cs);
}

/// Renders one record as its store line.
#[verifier::rlimit(100)]
#[verifier::spinoff_prover]
pub fn render_line(t: &Todo) -> (r: String)
    requires
        t.wf(),
    ensures
        r@ == spec_render_line(record_view(*t)),
{
    let ghost v = record_view(*t);
    let mut out: Vec<char> = Vec::new();
    push_lit(&mut out, "{\"id\":");
    render_u64(t.id as u64, &mut out);
    push_lit(&mut out, ",\"title\":\"");
    escape_into(t.title.as_str(), &mut out);
    out.push('"');
    push_lit(&mut out, ",\"description\":");
    match &t.description {
        None => push_lit(&mut out, "null"),
        Some(d) => {
            out.push('"');
            escape_into(d.as_str(), &mut out);
            out.push('"');
        },
    }
    proof {
        assert(out@ =~= "{\"id\":"@ + spec_digits(v.id as nat) + ",\"title\":\""@ + escape_seq(
            v.title,
        ) + seq!['"'] + ",\"description\":"@ + spec_render_opt_str(v.description));
    }
    let ghost mid1 = out@;
    push_lit(&mut out, ",\"finished\":");
    if t.finished {
        push_lit(&mut out, "true");
    } else {
        push_lit(&mut out, "false");
    }
    push_lit(&mut out, ",\"priority\":\"");
    match t.priority {
        Priority::Low => push_lit(&mut out, "Low\""),
        Priority::Medium => push_lit(&mut out, "Medium\""),
        Priority::High => push_lit(&mut out, "High\""),
    }
    proof {
        assert(out@ =~= mid1 + ",\"finished\":"@ + spec_render_bool(v.finished)
            + ",\"priority\":\""@ + spec_render_priority(v.priority));
    }
    let ghost mid2 = out@;
    push_lit(&mut out, ",\"created_at\":");
    render_i64(t.created_at, &mut out);
    push_lit(&mut out, ",\"due_date\":");
    match &t.due_date {
        None => push_lit(&mut out, "null"),
        Some(d) => {
            out.push('[');
            render_i64(d.year as i64, &mut out);
            out.push(',');
            render_u64(d.month as u64, &mut out);
            out.push(',');
            render_u64(d.day as u64, &mut out);
            out.push(']');
            proof {
                assert(spec_render_opt_date(v.due_date) =~= seq!['['] + spec_render_i64(
                    d.year as i64,
                ) + seq![','] + spec_digits(d.month as nat) + seq![','] + spec_digits(d.day as nat)
                    + seq![']']);
            }
        },
    }
    push_lit(&mut out, "}");
    proof {
        assert(out@ =~= mid2 + ",\"created_at\":"@ + spec_render_i64(v.created_at)
            + ",\"due_date\":"@ + spec_render_opt_date(v.due_date) + "}"@);
        assert(out@ =~= spec_render_line(v));
    }
    crate::text::chars_to_string(&out)
}

/// Consumes the literal `lit` at position `pos` of `chars`.
fn expect_at(chars: &Vec<char>, pos: usize, lit: &str) -> (r: Option<usize>)
    requires
        pos <= chars@.len(),
    ensures
        match r {
            Some(p) => {
                &&& pos <= p <= chars@.len()
                &&& spec_expect(chars@.skip(pos as int), lit@) == Some(chars@.skip(p as int))
            },
            None => spec_expect(chars@.skip(pos as int), lit@) is None,
        },
{
    let ghost s = chars@.skip(pos as int);
    let m = lit.unicode_len();
    let n = chars.len();
    if m > n - pos {
        proof {
            assert(s.len() < lit@.len());
        }
        return None;
    }
    let mut i: usize = 0;
    while i < m
        invariant
            m == lit@.len(),
            n == chars@.len(),
            pos + m <= n,
            i <= m,
            s == chars@.skip(pos as int),
            forall|j: int| 0 <= j < i ==> s[j] == lit@[j],
        decreases m - i,
    {
        let c = chars[pos + i];
        proof {
            assert(s[i as int] == chars@[pos + i]);
        }
        if c != lit.get_char(i) {
            proof {
                assert(!crate::text::spec_starts_with(s, lit@)) by {
                    if crate::text::spec_starts_with(s, lit@) {
                        assert(s.subrange(0, m as int)[i as int] == lit@[i as int]);
                    }
                }
            }
            return None;
        }
        i = i + 1;
    }
    proof {
        assert(s.subrange(0, m as int) =~= lit@);
        assert(s.skip(m as int) =~= chars@.skip(pos + m));
    }
    Some(pos + m)
}

/// Parses a boolean field at position `pos`.
fn parse_bool_at(chars: &Vec<char>, pos: usize) -> (r: Option<(bool, usize)>)
    requires
        pos <= chars@.len(),
    ensures
        match r {
            Some((v, p)) => {
                &&& pos <= p <= chars@.len()
                &&& spec_parse_bool(chars@.skip(pos as int)) == Some((v, chars@.skip(p as int)))
            },
            None => spec_parse_bool(chars@.skip(pos as int)) is None,
        },
{
    match expect_at(chars, pos, "true") {
        Some(p) => Some((true, p)),
        None => match expect_at(chars, pos, "false") {
            Some(p) => Some((false, p)),
            None => None,
        },
    }
}

/// Parses the optional description at position `pos`.
fn parse_opt_str_at(chars: &Vec<char>, pos: usize) -> (r: Option<(Option<String>, usize)>)
    requires
        pos <= chars@.len(),
    ensures
        match r {
            Some((v, p)) => {
                &&& pos <= p <= chars@.len()
                &&& spec_parse_opt_str(chars@.skip(pos as int)) == Some(
                    (v.deep_view(), chars@.skip(p as int)),
                )
            },
            None => spec_parse_opt_str(chars@.skip(pos as int)) is None,
        },
{
    let ghost s = chars@.skip(pos as int);
    if pos < chars.len() && chars[pos] == '"' {
        proof {
            assert(s[0] == chars@[pos as int]);
            assert(s.drop_first() =~= chars@.skip(pos + 1));
        }
        match parse_str_body_at(chars, pos + 1) {
            Some((v, p)) => Some((Some(v), p)),
            None => None,
        }
    } else {
        proof {
            if s.len() > 0 {
                assert(s[0] == chars@[pos as int]);
            }
        }
        match expect_at(chars, pos, "null") {
            Some(p) => {
                proof {
                    lemma_lit_facts();
                    if s.len() > 0 && s[0] == '"' {
                        assert(s.subrange(0, 4)[0] == s[0]);
                    }
                }
                Some((None, p))
            },
            None => None,
        }
    }
}

/// Parses the priority name at position `pos`.
fn parse_priority_at(chars: &Vec<char>, pos: usize) -> (r: Option<(Priority, usize)>)
    requires
        pos <= chars@.len(),
    ensures
        match r {
            Some((v, p)) => {
                &&& pos <= p <= chars@.len()
                &&& spec_parse_priority(chars@.skip(pos as int)) == Some(
                    (v, chars@.skip(p as int)),
                )
            },
            None => spec_parse_priority(chars@.skip(pos as int)) is None,
        },
{
    match expect_at(chars, pos, "Low\"") {
        Some(p) => Some((Priority::Low, p)),
        None => match expect_at(chars, pos, "Medium\"") {
            Some(p) => Some((Priority::Medium, p)),
            None => match expect_at(chars, pos, "High\"") {
                Some(p) => Some((Priority::High, p)),
                None => None,
            },
        },
    }
}

/// Parses a date at position `pos`.
fn parse_date_at(chars: &Vec<char>, pos: usize) -> (r: Option<(Date, usize)>)
    requires
        pos <= chars@.len(),
    ensures
        match r {
            Some((v, p)) => {
                &&& pos <= p <= chars@.len()
                &&& spec_parse_date(chars@.skip(pos as int)) == Some((v, chars@.skip(p as int)))
                &&& v.is_valid()
            },
            None => spec_parse_date(chars@.skip(pos as int)) is None,
        },
{
    let ghost s = chars@.skip(pos as int);
    if !(pos < chars.len() && chars[pos] == '[') {
        proof {
            if s.len() > 0 {
                assert(s[0] == chars@[pos as int]);
            }
        }
        return None;
    }
    proof {
        assert(s[0] == chars@[pos as int]);
        assert(s.drop_first() =~= chars@.skip(pos + 1));
    }
    let (y, p1) = match parse_i64_at(chars, pos + 1) {
        Some(x) => x,
        None => {
            return None;
        },
    };
    if !(i32::MIN as i64 <= y && y <= i32::MAX as i64) {
        return None;
    }
    let ghost s1 = chars@.skip(p1 as int);
    if !(p1 < chars.len() && chars[p1] == ',') {
        proof {
            if s1.len() > 0 {
                assert(s1[0] == chars@[p1 as int]);
            }
        }
        return None;
    }
    proof {
        assert(s1[0] == chars@[p1 as int]);
        assert(s1.drop_first() =~= chars@.skip(p1 + 1));
    }
    let (m, p2) = match parse_u64_at(chars, p1 + 1) {
        Some(x) => x,
        None => {
            return None;
        },
    };
    if !(1 <= m && m <= 12) {
        return None;
    }
    let ghost s2 = chars@.skip(p2 as int);
    if !(p2 < chars.len() && chars[p2] == ',') {
        proof {
            if s2.len() > 0 {
                assert(s2[0] == chars@[p2 as int]);
            }
        }
        return None;
    }
    proof {
        assert(s2[0] == chars@[p2 as int]);
        assert(s2.drop_first() =~= chars@.skip(p2 + 1));
    }
    let (dd, p3) = match parse_u64_at(chars, p2 + 1) {
        Some(x) => x,
        None => {
            return None;
        },
    };
    if !(1 <= dd && dd <= 31) {
        return None;
    }
    let ghost s3 = chars@.skip(p3 as int);
    if !(p3 < chars.len() && chars[p3] == ']') {
        proof {
            if s3.len() > 0 {
                assert(s3[0] == chars@[p3 as int]);
            }
        }
        return None;
    }
    proof {
        assert(s3[0] == chars@[p3 as int]);
        assert(s3.drop_first() =~= chars@.skip(p3 + 1));
    }
    Some((Date { year: y as i32, month: m as u8, day: dd as u8 }, p3 + 1))
}

/// Parses the optional due date at position `pos`.
fn parse_opt_date_at(chars: &Vec<char>, pos: usize) -> (r: Option<(Option<Date>, usize)>)
    requires
        pos <= chars@.len(),
    ensures
        match r {
            Some((v, p)) => {
                &&& pos <= p <= chars@.len()
                &&& spec_parse_opt_date(chars@.skip(pos as int)) == Some(
                    (v, chars@.skip(p as int)),
                )
                &&& match v {
                    Some(d) => d.is_valid(),
                    None => true,
                }
            },
            None => spec_parse_opt_date(chars@.skip(pos as int)) is None,
        },
{
    let ghost s = chars@.skip(pos as int);
    if pos < chars.len() && chars[pos] == '[' {
        proof {
            assert(s[0] == chars@[pos as int]);
        }
        match parse_date_at(chars, pos) {
            Some((d, p)) => Some((Some(d), p)),
            None => None,
        }
    } else {
        proof {
            if s.len() > 0 {
                assert(s[0] == chars@[pos as int]);
            }
        }
        match expect_at(chars, pos, "null") {
            Some(p) => Some((None, p)),
            None => None,
        }
    }
}

/// Parses one store line into a record. `None` means the line is corrupt:
/// it is not the rendering of any record.
#[verifier::rlimit(100)]
#[verifier::spinoff_prover]
pub fn parse_line(line: &str) -> (r: Option<Todo>)
    ensures
        match r {
            Some(t) => spec_parse_line(line@) == Some(record_view(t)) && t.wf(),
            None => spec_parse_line(line@) is None,
        },
{
    let chars = crate::text::str_to_chars(line);
    proof {
        assert(chars@.skip(0) =~= line@);
    }
    let p1 = match expect_at(&chars, 0, "{\"id\":") {
        Some(p) => p,
        None => {
            return None;
        },
    };
    let (id64, p2) = match parse_u64_at(&chars, p1) {
        Some(x) => x,
        None => {
            return None;
        },
    };
    if id64 > u32::MAX as u64 {
        return None;
    }
    let p3 = match expect_at(&chars, p2, ",\"title\":\"") {
        Some(p) => p,
        None => {
            return None;
        },
    };
    let (title, p4) = match parse_str_body_at(&chars, p3) {
        Some(x) => x,
        None => {
            return None;
        },
    };
    let p5 = match expect_at(&chars, p4, ",\"description\":") {
        Some(p) => p,
        None => {
            return None;
        },
    };
    let (description, p6) = match parse_opt_str_at(&chars, p5) {
        Some(x) => x,
        None => {
            return None;
        },
    };
    let p7 = match expect_at(&chars, p6, ",\"finished\":") {
        Some(p) => p,
        None => {
            return None;
        },
    };
    let (finished, p8) = match parse_bool_at(&chars, p7) {
        Some(x) => x,
        None => {
            return None;
        },
    };
    let p9 = match expect_at(&chars, p8, ",\"priority\":\"") {
        Some(p) => p,
        None => {
            return None;
        },
    };
    let (priority, p10) = match parse_priority_at(&chars, p9) {
        Some(x) => x,
        None => {
            return None;
        },
    };
    let p11 = match expect_at(&chars, p10, ",\"created_at\":") {
        Some(p) => p,
        None => {
            return None;
        },
    };
    let (created_at, p12) = match parse_i64_at(&chars, p11) {
        Some(x) => x,
        None => {
            return None;
        },
    };
    let p13 = match expect_at(&chars, p12, ",\"due_date\":") {
        Some(p) => p,
        None => {
            return None;
        },
    };
    let (due_date, p14) = match parse_opt_date_at(&chars, p13) {
        Some(x) => x,
        None => {
            return None;
        },
    };
    let p15 = match expect_at(&chars, p14, "}") {
        Some(p) => p,
        None => {
            return None;
        },
    };
    if p15 != chars.len() {
        proof {
            assert(chars@.skip(p15 as int).len() != 0);
        }
        return None;
    }
    proof {
        assert(chars@.skip(p15 as int).len() == 0);
    }
    let t = Todo { id: id64 as u32, title, description, finished, priority, created_at, due_date };
    Some(t)
}


impl Todo {
    /// Parses one store line into a record and gives it the positional
    /// identity `id`; `None` when the line is corrupt.
    pub fn from_json_line(line: &str, id: u32) -> (r: Option<Todo>)
        ensures
            match r {
                Some(t) => {
                    &&& spec_parse_line(line@) is Some
                    &&& record_view(t) == with_id(spec_parse_line(line@)->Some_0, id as int)
                    &&& t.wf()
                },
                None => spec_parse_line(line@) is None,
            },
    {
        match parse_line(line) {
            Some(mut t) => {
                t.set_id(id);
                Some(t)
            },
            None => None,
        }
    }
}

} // verus!
