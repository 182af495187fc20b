//! JSON text parser.
//!
//! A recursive-descent parser over characters.  The spec functions
//! `sp_*` define exactly which texts parse and to which document; each
//! executable function returns precisely what its spec function says.
//! The accepted grammar is JSON restricted to the number subset the
//! record model uses: unsigned integers only (no sign, fraction or
//! exponent).  String escapes cover the standard short escapes and
//! `\u` with four hexadecimal digits for non-surrogate code points.

use vstd::prelude::*;

use crate::errors::ClientError;
use crate::json::{dec_str, esc_char, esc_from, esc_str, hex_digit_char};
use crate::json::{nl_pad, sep_elems, sep_membs, spec_render};
use crate::json::{Json, JsonVal, jview, jviews, kviews};
use crate::text::{char_from_u32, chars_of_str, string_of_chars};

verus! {

/// JSON whitespace.
pub open spec fn is_ws(c: char) -> bool {
    c == ' ' || c == '\t' || c == '\n' || c == '\r'
}

/// A decimal digit.
pub open spec fn is_digit(c: char) -> bool {
    48 <= c as u32 && c as u32 <= 57
}

/// The value of a decimal digit.
pub open spec fn digit_val(c: char) -> int {
    c as u32 - 48
}

/// The value of a hexadecimal digit, upper or lower case.
pub open spec fn hex_val(c: char) -> Option<int> {
    if 48 <= c as u32 && c as u32 <= 57 {
        Some(c as u32 - 48)
    } else if 97 <= c as u32 && c as u32 <= 102 {
        Some(c as u32 - 97 + 10)
    } else if 65 <= c as u32 && c as u32 <= 70 {
        Some(c as u32 - 65 + 10)
    } else {
        None
    }
}

/// The first position at or after `i` that holds no whitespace.
pub open spec fn sp_ws(s: Seq<char>, i: int) -> int
    decreases s.len() - i,
    when 0 <= i <= s.len()
{
    if i < s.len() && is_ws(s[i]) {
        sp_ws(s, i + 1)
    } else {
        i
    }
}

/// One escape sequence, starting just after the backslash: the escaped
/// character and the position after the sequence.
pub open spec fn sp_escape(s: Seq<char>, i: int) -> Option<(char, int)> {
    if i < 0 || i >= s.len() {
        None
    } else if s[i] == '"' {
        Some(('"', i + 1))
    } else if s[i] == '\\' {
        Some(('\\', i + 1))
    } else if s[i] == '/' {
        Some(('/', i + 1))
    } else if s[i] == 'b' {
        Some(('\u{8}', i + 1))
    } else if s[i] == 'f' {
        Some(('\u{c}', i + 1))
    } else if s[i] == 'n' {
        Some(('\n', i + 1))
    } else if s[i] == 'r' {
        Some(('\r', i + 1))
    } else if s[i] == 't' {
        Some(('\t', i + 1))
    } else if s[i] == 'u' && i + 5 <= s.len() {
        match (hex_val(s[i + 1]), hex_val(s[i + 2]), hex_val(s[i + 3]), hex_val(s[i + 4])) {
            (Some(a), Some(b), Some(c), Some(d)) => {
                let u = a * 4096 + b * 256 + c * 16 + d;
                if u < 0xD800 || u >= 0xE000 {
                    Some(((u as u32) as char, i + 5))
                } else {
                    None
                }
            },
            _ => None,
        }
    } else {
        None
    }
}

/// The body of a string literal, starting just after the opening
/// quote: the unescaped content and the position after the closing
/// quote.  Unescaped control characters are rejected.
pub open spec fn sp_string_body(s: Seq<char>, i: int) -> Option<(Seq<char>, int)>
    decreases s.len() - i,
    when 0 <= i <= s.len()
{
    if i >= s.len() {
        None
    } else if s[i] == '"' {
        Some((Seq::empty(), i + 1))
    } else if s[i] == '\\' {
        match sp_escape(s, i + 1) {
            Some((c, j)) => if j <= i || j > s.len() {
                None
            } else {
                match sp_string_body(s, j) {
                    Some((rest, k)) => Some((seq![c] + rest, k)),
                    None => None,
                }
            },
            None => None,
        }
    } else if (s[i] as u32) < 0x20 {
        None
    } else {
        match sp_string_body(s, i + 1) {
            Some((rest, k)) => Some((seq![s[i]] + rest, k)),
            None => None,
        }
    }
}

/// A run of decimal digits folded onto `acc`; more than `u64::MAX`
/// does not parse.
pub open spec fn sp_digits(s: Seq<char>, i: int, acc: u64) -> Option<(u64, int)>
    decreases s.len() - i,
    when 0 <= i <= s.len()
{
    if i < s.len() && is_digit(s[i]) {
        if (acc as int) * 10 + digit_val(s[i]) > u64::MAX {
            None
        } else {
            sp_digits(s, i + 1, ((acc as int) * 10 + digit_val(s[i])) as u64)
        }
    } else {
        Some((acc, i))
    }
}

/// An unsigned integer literal: at least one digit, value at most
/// `u64::MAX`.
pub open spec fn sp_number(s: Seq<char>, i: int) -> Option<(u64, int)> {
    if 0 <= i && i < s.len() && is_digit(s[i]) {
        sp_digits(s, i, 0)
    } else {
        None
    }
}

/// One JSON value starting at `i` (no leading whitespace): the parsed
/// document and the position after it.
pub open spec fn sp_value(s: Seq<char>, i: int) -> Option<(JsonVal, int)>
    decreases s.len() - i, 0int,
    when 0 <= i <= s.len()
{
    if i >= s.len() {
        None
    } else if s[i] == 'n' {
        if i + 4 <= s.len() && s[i + 1] == 'u' && s[i + 2] == 'l' && s[i + 3] == 'l' {
            Some((JsonVal::Null, i + 4))
        } else {
            None
        }
    } else if s[i] == 't' {
        if i + 4 <= s.len() && s[i + 1] == 'r' && s[i + 2] == 'u' && s[i + 3] == 'e' {
            Some((JsonVal::Bool(true), i + 4))
        } else {
            None
        }
    } else if s[i] == 'f' {
        if i + 5 <= s.len() && s[i + 1] == 'a' && s[i + 2] == 'l' && s[i + 3] == 's' && s[i + 4]
            == 'e' {
            Some((JsonVal::Bool(false), i + 5))
        } else {
            None
        }
    } else if s[i] == '"' {
        match sp_string_body(s, i + 1) {
            Some((cs, j)) => Some((JsonVal::Str(cs), j)),
            None => None,
        }
    } else if s[i] == '[' {
        let j = sp_ws(s, i + 1);
        if j <= i || j > s.len() {
            None
        } else if j < s.len() && s[j] == ']' {
            Some((JsonVal::Arr(Seq::empty()), j + 1))
        } else {
            match sp_elems(s, j) {
                Some((vs, k)) => Some((JsonVal::Arr(vs), k)),
                None => None,
            }
        }
    } else if s[i] == '{' {
        let j = sp_ws(s, i + 1);
        if j <= i || j > s.len() {
            None
        } else if j < s.len() && s[j] == '}' {
            Some((JsonVal::Obj(Seq::empty()), j + 1))
        } else {
            match sp_members(s, j) {
                Some((ms, k)) => Some((JsonVal::Obj(ms), k)),
                None => None,
            }
        }
    } else if is_digit(s[i]) {
        match sp_number(s, i) {
            Some((n, j)) => Some((JsonVal::UInt(n), j)),
            None => None,
        }
    } else {
        None
    }
}

/// The elements of a non-empty array, starting at the first element
/// (no leading whitespace); consumes the closing bracket.
pub open spec fn sp_elems(s: Seq<char>, i: int) -> Option<(Seq<JsonVal>, int)>
    decreases s.len() - i, 1int,
    when 0 <= i <= s.len()
{
    match sp_value(s, i) {
        None => None,
        Some((v, j)) => if j <= i || j > s.len() {
            None
        } else {
            let k = sp_ws(s, j);
            if k < j || k > s.len() {
                None
            } else if k < s.len() && s[k] == ',' {
                let m = sp_ws(s, k + 1);
                if m <= k || m > s.len() {
                    None
                } else {
                    match sp_elems(s, m) {
                        Some((rest, e)) => Some((seq![v] + rest, e)),
                        None => None,
                    }
                }
            } else if k < s.len() && s[k] == ']' {
                Some((seq![v], k + 1))
            } else {
                None
            }
        },
    }
}

/// The members of a non-empty object, starting at the first key's
/// quote (no leading whitespace); consumes the closing brace.
pub open spec fn sp_members(s: Seq<char>, i: int) -> Option<(Seq<(Seq<char>, JsonVal)>, int)>
    decreases s.len() - i, 1int,
    when 0 <= i <= s.len()
{
    if i >= s.len() || s[i] != '"' {
        None
    } else {
        match sp_string_body(s, i + 1) {
            None => None,
            Some((key, j)) => if j <= i || j > s.len() {
                None
            } else {
                let k = sp_ws(s, j);
                if k < j || k > s.len() || k >= s.len() || s[k] != ':' {
                    None
                } else {
                    let m = sp_ws(s, k + 1);
                    if m <= k || m > s.len() {
                        None
                    } else {
                        match sp_value(s, m) {
                            None => None,
                            Some((v, e)) => if e <= m || e > s.len() {
                                None
                            } else {
                                let p = sp_ws(s, e);
                                if p < e || p > s.len() {
                                    None
                                } else if p < s.len() && s[p] == ',' {
                                    let q = sp_ws(s, p + 1);
                                    if q <= p || q > s.len() {
                                        None
                                    } else {
                                        match sp_members(s, q) {
                                            Some((rest, z)) => Some(
                                                (seq![(key, v)] + rest, z),
                                            ),
                                            None => None,
                                        }
                                    }
                                } else if p < s.len() && s[p] == '}' {
                                    Some((seq![(key, v)], p + 1))
                                } else {
                                    None
                                }
                            },
                        }
                    }
                }
            },
        }
    }
}

/// A whole JSON text: one value, surrounded only by whitespace.
pub open spec fn sp_parse(s: Seq<char>) -> Option<JsonVal> {
    let i = sp_ws(s, 0);
    if i < 0 || i > s.len() {
        None
    } else {
        match sp_value(s, i) {
            None => None,
            Some((v, j)) => if j < i || j > s.len() {
                None
            } else if sp_ws(s, j) == s.len() {
                Some(v)
            } else {
                None
            },
        }
    }
}

// ------------------------------------------------------------------
// The string-literal leg of the textual round trip

pub proof fn lemma_esc_from_skip(cs: Seq<char>, k: int)
    requires
        0 <= k <= cs.len(),
    ensures
        esc_from(cs, k) == esc_str(cs.skip(k)),
    decreases cs.len() - k,
{
    if k == cs.len() {
        assert(cs.skip(k) =~= Seq::<char>::empty());
        assert(esc_from(cs.skip(k), 0) =~= Seq::<char>::empty());
    } else {
        lemma_esc_from_skip(cs, k + 1);
        lemma_esc_from_skip(cs.skip(k), 1);
        assert(cs.skip(k)[0] == cs[k]);
        assert(cs.skip(k).skip(1) =~= cs.skip(k + 1));
    }
}

pub proof fn lemma_hex_digit_value(d: int)
    requires
        0 <= d < 16,
    ensures
        hex_val(hex_digit_char(d)) == Some(d),
{
}

/// Parsing the escaped spelling of a string, up to and including its
/// closing quote, yields the characters back unchanged: the
/// string-literal leg of the textual round trip between the renderer's
/// escaping and the parser's unescaping.
#[verifier::rlimit(100)]
#[verifier::spinoff_prover]
pub proof fn lemma_parse_escaped(cs: Seq<char>, s: Seq<char>, i: int)
    requires
        0 <= i,
        i + esc_str(cs).len() + 1 <= s.len(),
        s.subrange(i, i + esc_str(cs).len() + 1) == esc_str(cs) + seq!['"'],
    ensures
        sp_string_body(s, i) == Some((cs, i + esc_str(cs).len() + 1)),
    decreases cs.len(),
{
    let l = esc_str(cs).len() as int;
    if cs.len() == 0 {
        assert(esc_from(cs, 0) =~= Seq::<char>::empty());
        assert(s.subrange(i, i + l + 1)[0] == s[i]);
        assert(s[i] == '"');
    } else {
        let c = cs[0];
        lemma_esc_from_skip(cs, 1);
        assert(cs.skip(1) =~= cs.drop_first());
        let e = esc_char(c);
        let tail = esc_str(cs.drop_first());
        assert(esc_str(cs) == e + tail);
        assert(esc_str(cs) + seq!['"'] =~= e + (tail + seq!['"']));
        let i2 = i + e.len() as int;
        assert forall|t: int|
            0 <= t < tail.len() + 1 implies s.subrange(i2, i2 + tail.len() as int + 1)[t] == (tail
            + seq!['"'])[t] by {
            assert(s.subrange(i2, i2 + tail.len() as int + 1)[t] == s[i2 + t]);
            assert(s.subrange(i, i + l + 1)[e.len() + t] == s[i + (e.len() + t)]);
        }
        assert(s.subrange(i2, i2 + tail.len() as int + 1) =~= tail + seq!['"']);
        lemma_parse_escaped(cs.drop_first(), s, i2);
        assert(seq![c] + cs.drop_first() =~= cs);
        assert(s.subrange(i, i + l + 1)[0] == s[i]);
        if c == '"' || c == '\\' || c == '\u{8}' || c == '\u{c}' || c == '\n' || c == '\r' || c
            == '\t' {
            assert(s[i] == '\\');
            assert(s.subrange(i, i + l + 1)[1] == s[i + 1]);
            assert(sp_escape(s, i + 1) == Some((c, i + 2)));
        } else if (c as u32) < 0x20 {
            let u = (c as u32) as int;
            assert(s[i] == '\\');
            assert(s.subrange(i, i + l + 1)[1] == s[i + 1]);
            assert(s.subrange(i, i + l + 1)[2] == s[i + 2]);
            assert(s.subrange(i, i + l + 1)[3] == s[i + 3]);
            assert(s.subrange(i, i + l + 1)[4] == s[i + 4]);
            assert(s.subrange(i, i + l + 1)[5] == s[i + 5]);
            assert(s[i + 1] == 'u');
            assert(s[i + 2] == '0');
            assert(s[i + 3] == '0');
            vstd::arithmetic::div_mod::lemma_fundamental_div_mod(u, 16);
            assert(0 <= u % 16 < 16 && 0 <= u / 16 < 16) by (nonlinear_arith)
                requires
                    0 <= u < 0x20,
            ;
            assert(s[i + 4] == hex_digit_char(u / 16));
            assert(s[i + 5] == hex_digit_char(u % 16));
            lemma_hex_digit_value(0);
            lemma_hex_digit_value(u / 16);
            lemma_hex_digit_value(u % 16);
            assert(0 * 4096 + 0 * 256 + (u / 16) * 16 + u % 16 == u);
            vstd::utf8::char_u32_cast(c, c as u32);
            assert(sp_escape(s, i + 1) == Some((c, i + 6)));
        } else {
            assert(s[i] == c);
        }
    }
}

pub proof fn lemma_dec_digit(d: int)
    requires
        0 <= d < 10,
    ensures
        is_digit(hex_digit_char(d)),
        digit_val(hex_digit_char(d)) == d,
{
}

pub proof fn lemma_dec_str_first(q: int)
    requires
        0 <= q,
    ensures
        dec_str(q).len() >= 1,
        is_digit(dec_str(q)[0]),
    decreases q,
{
    if q < 10 {
        lemma_dec_digit(q);
    } else {
        vstd::arithmetic::div_mod::lemma_fundamental_div_mod(q, 10);
        assert(0 <= q / 10 < q) by (nonlinear_arith)
            requires
                q >= 10,
        ;
        lemma_dec_str_first(q / 10);
    }
}

/// The digit run of a decimal spelling folds back to the spelled value:
/// starting with `0` accumulated, scanning the digits of `dec_str(q)`
/// leaves exactly `q` accumulated.
pub proof fn lemma_digits_prefix(q: int, s: Seq<char>, i: int)
    requires
        0 <= q <= u64::MAX,
        0 <= i,
        i + dec_str(q).len() <= s.len(),
        s.subrange(i, i + dec_str(q).len()) == dec_str(q),
    ensures
        sp_digits(s, i, 0) == sp_digits(s, i + dec_str(q).len(), q as u64),
    decreases q,
{
    let l = dec_str(q).len() as int;
    if q < 10 {
        lemma_dec_digit(q);
        assert(s.subrange(i, i + l)[0] == s[i]);
        assert(s[i] == hex_digit_char(q));
    } else {
        vstd::arithmetic::div_mod::lemma_fundamental_div_mod(q, 10);
        assert(0 <= q % 10 < 10 && 0 <= q / 10 < q) by (nonlinear_arith)
            requires
                q >= 10,
        ;
        let lp = dec_str(q / 10).len() as int;
        assert(l == lp + 1);
        assert forall|t: int|
            0 <= t < lp implies #[trigger] s.subrange(i, i + lp)[t] == dec_str(q / 10)[t] by {
            assert(s.subrange(i, i + lp)[t] == s[i + t]);
            assert(s.subrange(i, i + l)[t] == s[i + t]);
        }
        assert(s.subrange(i, i + lp) =~= dec_str(q / 10));
        lemma_digits_prefix(q / 10, s, i);
        assert(s.subrange(i, i + l)[lp] == s[i + lp]);
        assert(s[i + lp] == hex_digit_char(q % 10));
        lemma_dec_digit(q % 10);
        assert((q / 10) * 10 + q % 10 == q);
        assert(sp_digits(s, i + lp, (q / 10) as u64) == sp_digits(s, i + l, q as u64));
    }
}

/// Parsing the decimal spelling of an unsigned integer, bounded on the
/// right by a non-digit or the end of the text, yields the integer
/// back: the number leg of the textual round trip.
pub proof fn lemma_parse_dec(n: u64, s: Seq<char>, i: int)
    requires
        0 <= i,
        i + dec_str(n as int).len() <= s.len(),
        s.subrange(i, i + dec_str(n as int).len()) == dec_str(n as int),
        i + dec_str(n as int).len() == s.len() || !is_digit(s[i + dec_str(n as int).len()]),
    ensures
        sp_number(s, i) == Some((n, i + dec_str(n as int).len())),
{
    let l = dec_str(n as int).len() as int;
    lemma_dec_str_first(n as int);
    assert(s.subrange(i, i + l)[0] == s[i]);
    assert(is_digit(s[i]));
    lemma_digits_prefix(n as int, s, i);
    assert(sp_digits(s, i + l, n) == Some((n, i + l)));
}

/// Every character of an indentation.
pub open spec fn all_spaces(p: Seq<char>) -> bool {
    forall|t: int| 0 <= t < p.len() ==> p[t] == ' '
}

pub proof fn lemma_inner_pad(pad: Seq<char>)
    requires
        all_spaces(pad),
    ensures
        all_spaces(pad + "  "@),
        (pad + "  "@).len() == pad.len() + 2,
{
    reveal_strlit("  ");
    assert("  "@.len() == 2);
    assert("  "@[0] == ' ');
    assert("  "@[1] == ' ');
    assert forall|t: int| 0 <= t < (pad + "  "@).len() implies (pad + "  "@)[t] == ' ' by {
        if t >= pad.len() {
            assert((pad + "  "@)[t] == "  "@[t - pad.len()]);
        }
    }
}

pub proof fn lemma_ws_to(s: Seq<char>, a: int, b: int)
    requires
        0 <= a <= b <= s.len(),
        forall|t: int| a <= t < b ==> is_ws(s[t]),
        b == s.len() || !is_ws(s[b]),
    ensures
        sp_ws(s, a) == b,
    decreases b - a,
{
    if a < b {
        lemma_ws_to(s, a + 1, b);
    }
}
/// The first character a rendering starts with is never whitespace and
/// never one of the punctuation characters that end or separate
/// container entries.
pub proof fn lemma_render_head(v: JsonVal, pad: Seq<char>)
    ensures
        spec_render(v, pad).len() >= 1,
        !is_ws(spec_render(v, pad)[0]),
        spec_render(v, pad)[0] != ',',
        spec_render(v, pad)[0] != ']',
        spec_render(v, pad)[0] != '}',
{
    reveal_strlit("null");
    reveal_strlit("true");
    reveal_strlit("false");
    reveal_strlit("[]");
    reveal_strlit("{}");
    broadcast use vstd::string::group_string_axioms;

    match v {
        JsonVal::Null => {
            assert("null"@[0] == 'n');
        },
        JsonVal::Bool(b) => {
            if b {
                assert("true"@[0] == 't');
            } else {
                assert("false"@[0] == 'f');
            }
        },
        JsonVal::UInt(n) => {
            lemma_dec_str_first(n as int);
            let c = dec_str(n as int)[0];
            assert(48 <= c as u32 <= 57);
            assert(c != ' ' && c != '\t' && c != '\n' && c != '\r') by {
                if c == ' ' {
                    assert(c as u32 == 32);
                }
                if c == '\t' {
                    assert(c as u32 == 9);
                }
                if c == '\n' {
                    assert(c as u32 == 10);
                }
                if c == '\r' {
                    assert(c as u32 == 13);
                }
            }
            assert(c != ',' && c != ']' && c != '}') by {
                if c == ',' {
                    assert(c as u32 == 44);
                }
                if c == ']' {
                    assert(c as u32 == 93);
                }
                if c == '}' {
                    assert(c as u32 == 125);
                }
            }
        },
        JsonVal::Str(cs) => {
            assert(spec_render(v, pad)[0] == '"');
        },
        JsonVal::Arr(elems) => {
            if elems.len() == 0 {
                assert("[]"@[0] == '[');
            } else {
                assert(spec_render(v, pad)[0] == '[');
            }
        },
        JsonVal::Obj(ms) => {
            if ms.len() == 0 {
                assert("{}"@[0] == '{');
            } else {
                assert(spec_render(v, pad)[0] == '{');
            }
        },
    }
}

/// The text of an array's elements from position `k` on, followed by
/// the array's closing line: what stands after one element's rendering
/// inside a rendered array.
pub open spec fn elems_text(elems: Seq<JsonVal>, k: int, inner: Seq<char>, pad: Seq<char>) -> Seq<
    char,
>
    recommends
        0 <= k < elems.len(),
{
    spec_render(elems[k], inner) + sep_elems(elems, k + 1, inner) + nl_pad(pad) + seq![']']
}

/// The text of an object's members from position `k` on, followed by
/// the object's closing line.
pub open spec fn membs_text(
    ms: Seq<(Seq<char>, JsonVal)>,
    k: int,
    inner: Seq<char>,
    pad: Seq<char>,
) -> Seq<char>
    recommends
        0 <= k < ms.len(),
{
    seq!['"'] + esc_str(ms[k].0) + seq!['"', ':', ' '] + spec_render(ms[k].1, inner) + sep_membs(
        ms,
        k + 1,
        inner,
    ) + nl_pad(pad) + seq!['}']
}

#[verifier::rlimit(100)]
#[verifier::spinoff_prover]
proof fn lemma_parse_render_arr(elems: Seq<JsonVal>, pad: Seq<char>, s: Seq<char>, i: int)
    requires
        all_spaces(pad),
        elems.len() > 0,
        0 <= i,
        i + spec_render(JsonVal::Arr(elems), pad).len() <= s.len(),
        s.subrange(i, i + spec_render(JsonVal::Arr(elems), pad).len()) == spec_render(
            JsonVal::Arr(elems),
            pad,
        ),
    ensures
        sp_value(s, i) == Some(
            (JsonVal::Arr(elems), i + spec_render(JsonVal::Arr(elems), pad).len() as int),
        ),
    decreases elems, elems.len() + 1,
{
    broadcast use vstd::string::group_string_axioms;

    let r = spec_render(JsonVal::Arr(elems), pad);
    let l = r.len() as int;
    assert forall|t: int| 0 <= t < l implies #[trigger] s[i + t] == r[t] by {
        assert(s.subrange(i, i + l)[t] == s[i + t]);
    }
    lemma_inner_pad(pad);
    let inner = pad + "  "@;
    assert(r == seq!['['] + sep_elems(elems, 0, inner) + nl_pad(pad) + seq![']']);
    assert(sep_elems(elems, 0, inner) == nl_pad(inner) + spec_render(elems[0], inner)
        + sep_elems(elems, 1, inner));
    assert(s[i + 0] == '[');
    let p0 = i + 2 + inner.len() as int;
    let tt = elems_text(elems, 0, inner, pad);
    assert(r =~= seq!['['] + (nl_pad(inner) + tt));
    assert forall|t: int| i + 1 <= t < p0 implies is_ws(s[t]) by {
        assert(s[i + (t - i)] == r[t - i]);
        assert(r[t - i] == (nl_pad(inner))[t - i - 1]);
        if t == i + 1 {
            assert(s[t] == '\n');
        } else {
            assert(s[t] == inner[t - i - 2]);
            assert(s[t] == ' ');
        }
    }
    lemma_render_head(elems[0], inner);
    assert(s[i + (p0 - i)] == r[p0 - i]);
    assert(r[p0 - i] == tt[0]);
    assert(tt[0] == spec_render(elems[0], inner)[0]);
    lemma_ws_to(s, i + 1, p0);
    assert forall|t: int|
        0 <= t < tt.len() implies #[trigger] s.subrange(p0, p0 + tt.len() as int)[t] == tt[t] by {
        assert(s.subrange(p0, p0 + tt.len() as int)[t] == s[p0 + t]);
        assert(s[i + (p0 - i + t)] == r[p0 - i + t]);
        assert(r[p0 - i + t] == tt[t]);
    }
    assert(s.subrange(p0, p0 + tt.len() as int) =~= tt);
    lemma_parse_elems(elems, 0, inner, pad, s, p0);
    assert(elems.skip(0) =~= elems);
    assert(s[p0] != ']');
}

#[verifier::rlimit(100)]
#[verifier::spinoff_prover]
proof fn lemma_parse_render_obj(ms: Seq<(Seq<char>, JsonVal)>, pad: Seq<char>, s: Seq<char>, i: int)
    requires
        all_spaces(pad),
        ms.len() > 0,
        0 <= i,
        i + spec_render(JsonVal::Obj(ms), pad).len() <= s.len(),
        s.subrange(i, i + spec_render(JsonVal::Obj(ms), pad).len()) == spec_render(
            JsonVal::Obj(ms),
            pad,
        ),
    ensures
        sp_value(s, i) == Some(
            (JsonVal::Obj(ms), i + spec_render(JsonVal::Obj(ms), pad).len() as int),
        ),
    decreases ms, ms.len() + 1,
{
    broadcast use vstd::string::group_string_axioms;

    let r = spec_render(JsonVal::Obj(ms), pad);
    let l = r.len() as int;
    assert forall|t: int| 0 <= t < l implies #[trigger] s[i + t] == r[t] by {
        assert(s.subrange(i, i + l)[t] == s[i + t]);
    }
    lemma_inner_pad(pad);
    let inner = pad + "  "@;
    assert(r == seq!['{'] + sep_membs(ms, 0, inner) + nl_pad(pad) + seq!['}']);
    assert(sep_membs(ms, 0, inner) == nl_pad(inner) + seq!['"'] + esc_str(ms[0].0) + seq![
        '"',
        ':',
        ' ',
    ] + spec_render(ms[0].1, inner) + sep_membs(ms, 1, inner));
    assert(s[i + 0] == '{');
    let p0 = i + 2 + inner.len() as int;
    let tt = membs_text(ms, 0, inner, pad);
    assert(r =~= seq!['{'] + (nl_pad(inner) + tt));
    assert forall|t: int| i + 1 <= t < p0 implies is_ws(s[t]) by {
        assert(s[i + (t - i)] == r[t - i]);
        assert(r[t - i] == (nl_pad(inner))[t - i - 1]);
        if t == i + 1 {
            assert(s[t] == '\n');
        } else {
            assert(s[t] == inner[t - i - 2]);
            assert(s[t] == ' ');
        }
    }
    assert(s[i + (p0 - i)] == r[p0 - i]);
    assert(r[p0 - i] == tt[0]);
    assert(tt[0] == '"');
    lemma_ws_to(s, i + 1, p0);
    assert forall|t: int|
        0 <= t < tt.len() implies #[trigger] s.subrange(p0, p0 + tt.len() as int)[t] == tt[t] by {
        assert(s.subrange(p0, p0 + tt.len() as int)[t] == s[p0 + t]);
        assert(s[i + (p0 - i + t)] == r[p0 - i + t]);
        assert(r[p0 - i + t] == tt[t]);
    }
    assert(s.subrange(p0, p0 + tt.len() as int) =~= tt);
    lemma_parse_membs(ms, 0, inner, pad, s, p0);
    assert(ms.skip(0) =~= ms);
    assert(s[p0] != '}');
}

/// Parsing a rendered value at its position in a larger text yields the
/// value back and stops exactly at its end.
#[verifier::rlimit(100)]
#[verifier::spinoff_prover]
pub proof fn lemma_parse_render(v: JsonVal, pad: Seq<char>, s: Seq<char>, i: int)
    requires
        all_spaces(pad),
        0 <= i,
        i + spec_render(v, pad).len() <= s.len(),
        s.subrange(i, i + spec_render(v, pad).len()) == spec_render(v, pad),
        i + spec_render(v, pad).len() == s.len() || !is_digit(s[i + spec_render(v, pad).len()]),
    ensures
        sp_value(s, i) == Some((v, i + spec_render(v, pad).len() as int)),
    decreases v, 0int,
{
    broadcast use vstd::string::group_string_axioms;

    let r = spec_render(v, pad);
    let l = r.len() as int;
    assert forall|t: int| 0 <= t < l implies #[trigger] s[i + t] == r[t] by {
        assert(s.subrange(i, i + l)[t] == s[i + t]);
    }
    match v {
        JsonVal::Null => {
            reveal_strlit("null");
            assert(l == 4);
            assert(s[i + 0] == 'n' && s[i + 1] == 'u' && s[i + 2] == 'l' && s[i + 3] == 'l');
            assert(sp_value(s, i) == Some((JsonVal::Null, i + 4)));
        },
        JsonVal::Bool(b) => {
            if b {
                reveal_strlit("true");
                assert(l == 4);
                assert(s[i + 0] == 't' && s[i + 1] == 'r' && s[i + 2] == 'u' && s[i + 3] == 'e');
                assert(sp_value(s, i) == Some((JsonVal::Bool(true), i + 4)));
            } else {
                reveal_strlit("false");
                assert(l == 5);
                assert(s[i + 0] == 'f' && s[i + 1] == 'a' && s[i + 2] == 'l' && s[i + 3] == 's'
                    && s[i + 4] == 'e');
                assert(sp_value(s, i) == Some((JsonVal::Bool(false), i + 5)));
            }
        },
        JsonVal::UInt(n) => {
            lemma_dec_str_first(n as int);
            assert(s[i + 0] == dec_str(n as int)[0]);
            let c = s[i];
            assert(48 <= c as u32 <= 57);
            assert(c != 'n' && c != 't' && c != 'f' && c != '"' && c != '[' && c != '{') by {
                if c == 'n' {
                    assert(c as u32 == 110);
                }
                if c == 't' {
                    assert(c as u32 == 116);
                }
                if c == 'f' {
                    assert(c as u32 == 102);
                }
                if c == '"' {
                    assert(c as u32 == 34);
                }
                if c == '[' {
                    assert(c as u32 == 91);
                }
                if c == '{' {
                    assert(c as u32 == 123);
                }
            }
            assert(s.subrange(i, i + l) =~= dec_str(n as int));
            lemma_parse_dec(n, s, i);
            assert(sp_value(s, i) == Some((JsonVal::UInt(n), i + l)));
        },
        JsonVal::Str(cs) => {
            assert(r == seq!['"'] + esc_str(cs) + seq!['"']);
            assert(s[i + 0] == '"');
            let le = esc_str(cs).len() as int;
            assert forall|t: int|
                0 <= t < le + 1 implies #[trigger] s.subrange(i + 1, i + 1 + le + 1)[t] == (
                esc_str(cs) + seq!['"'])[t] by {
                assert(s.subrange(i + 1, i + 1 + le + 1)[t] == s[i + 1 + t]);
                assert(s[i + (1 + t)] == r[1 + t]);
            }
            assert(s.subrange(i + 1, i + 1 + le + 1) =~= esc_str(cs) + seq!['"']);
            lemma_parse_escaped(cs, s, i + 1);
            assert(sp_value(s, i) == Some((JsonVal::Str(cs), i + l)));
        },
        JsonVal::Arr(elems) => {
            if elems.len() == 0 {
                reveal_strlit("[]");
                assert(l == 2);
                assert(s[i + 0] == '[' && s[i + 1] == ']');
                lemma_ws_to(s, i + 1, i + 1);
                assert(elems =~= Seq::<JsonVal>::empty());
            } else {
                assert(decreases_to!(v => elems));
                lemma_parse_render_arr(elems, pad, s, i);
            }
        },
        JsonVal::Obj(ms) => {
            if ms.len() == 0 {
                reveal_strlit("{}");
                assert(l == 2);
                assert(s[i + 0] == '{' && s[i + 1] == '}');
                lemma_ws_to(s, i + 1, i + 1);
                assert(ms =~= Seq::<(Seq<char>, JsonVal)>::empty());
            } else {
                assert(decreases_to!(v => ms));
                lemma_parse_render_obj(ms, pad, s, i);
            }
        },
    }
}

/// Parsing the rendered elements of an array from element `k` on,
/// through the closing bracket, yields the remaining elements.
#[verifier::rlimit(100)]
#[verifier::spinoff_prover]
pub proof fn lemma_parse_elems(
    elems: Seq<JsonVal>,
    k: int,
    inner: Seq<char>,
    pad: Seq<char>,
    s: Seq<char>,
    i: int,
)
    requires
        all_spaces(inner),
        all_spaces(pad),
        0 <= k < elems.len(),
        0 <= i,
        i + elems_text(elems, k, inner, pad).len() <= s.len(),
        s.subrange(i, i + elems_text(elems, k, inner, pad).len()) == elems_text(
            elems,
            k,
            inner,
            pad,
        ),
    ensures
        sp_elems(s, i) == Some(
            (elems.skip(k), i + elems_text(elems, k, inner, pad).len() as int),
        ),
    decreases elems, elems.len() - k,
{
    let tt = elems_text(elems, k, inner, pad);
    let l = tt.len() as int;
    assert forall|t: int| 0 <= t < l implies #[trigger] s[i + t] == tt[t] by {
        assert(s.subrange(i, i + l)[t] == s[i + t]);
    }
    let rk = spec_render(elems[k], inner);
    let lr = rk.len() as int;
    lemma_render_head(elems[k], inner);
    assert forall|t: int|
        0 <= t < lr implies #[trigger] s.subrange(i, i + lr)[t] == rk[t] by {
        assert(s.subrange(i, i + lr)[t] == s[i + t]);
        assert(tt[t] == rk[t]);
    }
    assert(s.subrange(i, i + lr) =~= rk);
    let j = i + lr;
    if k + 1 < elems.len() {
        assert(sep_elems(elems, k + 1, inner) == seq![','] + nl_pad(inner) + spec_render(
            elems[k + 1],
            inner,
        ) + sep_elems(elems, k + 2, inner));
        assert(tt[lr + 0] == ',');
        assert(s[i + (lr + 0)] == ',');
        assert(!is_digit(s[j]) && !is_ws(s[j])) by {
            if is_digit(s[j]) {
                assert(s[j] as u32 == 44);
            }
        }
        assert(decreases_to!(elems => elems[k]));
        lemma_parse_render(elems[k], inner, s, i);
        lemma_ws_to(s, j, j);
        let m0 = j + 2 + inner.len() as int;
        assert forall|t: int| j + 1 <= t < m0 implies is_ws(s[t]) by {
            assert(s[i + (t - i)] == tt[t - i]);
            assert(tt[t - i] == (nl_pad(inner))[t - i - lr - 1]);
            if t == j + 1 {
                assert(s[t] == '\n');
            } else {
                assert(s[t] == inner[t - j - 2]);
                assert(s[t] == ' ');
            }
        }
        let tn = elems_text(elems, k + 1, inner, pad);
        lemma_render_head(elems[k + 1], inner);
        assert(tt =~= rk + (seq![','] + nl_pad(inner) + tn));
        assert(s[i + (m0 - i)] == tt[m0 - i]);
        assert(tt[m0 - i] == tn[0]);
        assert(tn[0] == spec_render(elems[k + 1], inner)[0]);
        lemma_ws_to(s, j + 1, m0);
        assert forall|t: int|
            0 <= t < tn.len() implies #[trigger] s.subrange(m0, m0 + tn.len() as int)[t]
            == tn[t] by {
            assert(s.subrange(m0, m0 + tn.len() as int)[t] == s[m0 + t]);
            assert(s[i + (m0 - i + t)] == tt[m0 - i + t]);
            assert(tt[m0 - i + t] == tn[t]);
        }
        assert(s.subrange(m0, m0 + tn.len() as int) =~= tn);
        lemma_parse_elems(elems, k + 1, inner, pad, s, m0);
        assert(seq![elems[k]] + elems.skip(k + 1) =~= elems.skip(k));
    } else {
        assert(sep_elems(elems, k + 1, inner) == Seq::<char>::empty());
        assert(tt =~= rk + (nl_pad(pad) + seq![']']));
        assert(tt[lr + 0] == '\n');
        assert(s[i + (lr + 0)] == '\n');
        assert(decreases_to!(elems => elems[k]));
        lemma_parse_render(elems[k], inner, s, i);
        let b = j + 1 + pad.len() as int;
        assert forall|t: int| j <= t < b implies is_ws(s[t]) by {
            assert(s[i + (t - i)] == tt[t - i]);
            assert(tt[t - i] == (nl_pad(pad))[t - i - lr]);
            if t == j {
                assert(s[t] == '\n');
            } else {
                assert(s[t] == pad[t - j - 1]);
                assert(s[t] == ' ');
            }
        }
        assert(s[i + (b - i)] == tt[b - i]);
        assert(tt[b - i] == ']');
        lemma_ws_to(s, j, b);
        assert(seq![elems[k]] =~= elems.skip(k));
    }
}

/// Parsing the rendered members of an object from member `k` on,
/// through the closing brace, yields the remaining members.
#[verifier::rlimit(100)]
#[verifier::spinoff_prover]
pub proof fn lemma_parse_membs(
    ms: Seq<(Seq<char>, JsonVal)>,
    k: int,
    inner: Seq<char>,
    pad: Seq<char>,
    s: Seq<char>,
    i: int,
)
    requires
        all_spaces(inner),
        all_spaces(pad),
        0 <= k < ms.len(),
        0 <= i,
        i + membs_text(ms, k, inner, pad).len() <= s.len(),
        s.subrange(i, i + membs_text(ms, k, inner, pad).len()) == membs_text(ms, k, inner, pad),
    ensures
        sp_members(s, i) == Some((ms.skip(k), i + membs_text(ms, k, inner, pad).len() as int)),
    decreases ms, ms.len() - k,
{
    let tt = membs_text(ms, k, inner, pad);
    let l = tt.len() as int;
    assert forall|t: int| 0 <= t < l implies #[trigger] s[i + t] == tt[t] by {
        assert(s.subrange(i, i + l)[t] == s[i + t]);
    }
    let key = ms[k].0;
    let le = esc_str(key).len() as int;
    assert(tt =~= seq!['"'] + ((esc_str(key) + seq!['"']) + seq![':', ' '] + spec_render(
        ms[k].1,
        inner,
    ) + sep_membs(ms, k + 1, inner) + nl_pad(pad) + seq!['}']));
    assert(s[i + 0] == '"');
    assert forall|t: int|
        0 <= t < le + 1 implies #[trigger] s.subrange(i + 1, i + 1 + le + 1)[t] == (esc_str(key)
        + seq!['"'])[t] by {
        assert(s.subrange(i + 1, i + 1 + le + 1)[t] == s[i + 1 + t]);
        assert(s[i + (1 + t)] == tt[1 + t]);
        assert(tt[1 + t] == (esc_str(key) + seq!['"'])[t]);
    }
    assert(s.subrange(i + 1, i + 1 + le + 1) =~= esc_str(key) + seq!['"']);
    lemma_parse_escaped(key, s, i + 1);
    let j0 = i + 1 + le + 1;
    assert(s[i + (j0 - i)] == tt[j0 - i]);
    assert(tt[j0 - i] == ':');
    lemma_ws_to(s, j0, j0);
    assert(s[i + (j0 + 1 - i)] == tt[j0 + 1 - i]);
    assert(tt[j0 + 1 - i] == ' ');
    let m0 = j0 + 2;
    let rv = spec_render(ms[k].1, inner);
    let lv = rv.len() as int;
    lemma_render_head(ms[k].1, inner);
    assert(s[i + (m0 - i)] == tt[m0 - i]);
    assert(tt[m0 - i] == rv[0]);
    lemma_ws_to(s, j0 + 1, m0);
    assert forall|t: int|
        0 <= t < lv implies #[trigger] s.subrange(m0, m0 + lv)[t] == rv[t] by {
        assert(s.subrange(m0, m0 + lv)[t] == s[m0 + t]);
        assert(s[i + (m0 - i + t)] == tt[m0 - i + t]);
        assert(tt[m0 - i + t] == rv[t]);
    }
    assert(s.subrange(m0, m0 + lv) =~= rv);
    let e = m0 + lv;
    if k + 1 < ms.len() {
        assert(sep_membs(ms, k + 1, inner) == seq![','] + nl_pad(inner) + seq!['"'] + esc_str(
            ms[k + 1].0,
        ) + seq!['"', ':', ' '] + spec_render(ms[k + 1].1, inner) + sep_membs(ms, k + 2, inner));
        assert(tt[e - i] == ',');
        assert(s[i + (e - i)] == ',');
        assert(!is_digit(s[e]) && !is_ws(s[e])) by {
            if is_digit(s[e]) {
                assert(s[e] as u32 == 44);
            }
        }
        assert(decreases_to!(ms => ms[k]));
        assert(decreases_to!(ms[k] => ms[k].1));
        lemma_parse_render(ms[k].1, inner, s, m0);
        lemma_ws_to(s, e, e);
        let q0 = e + 2 + inner.len() as int;
        assert forall|t: int| e + 1 <= t < q0 implies is_ws(s[t]) by {
            assert(s[i + (t - i)] == tt[t - i]);
            assert(tt[t - i] == (nl_pad(inner))[t - i - (e - i) - 1]);
            if t == e + 1 {
                assert(s[t] == '\n');
            } else {
                assert(s[t] == inner[t - e - 2]);
                assert(s[t] == ' ');
            }
        }
        let tn = membs_text(ms, k + 1, inner, pad);
        assert(tt =~= (seq!['"'] + esc_str(key) + seq!['"', ':', ' '] + rv) + (seq![',']
            + nl_pad(inner) + tn));
        assert(s[i + (q0 - i)] == tt[q0 - i]);
        assert(tt[q0 - i] == tn[0]);
        assert(tn[0] == '"');
        lemma_ws_to(s, e + 1, q0);
        assert forall|t: int|
            0 <= t < tn.len() implies #[trigger] s.subrange(q0, q0 + tn.len() as int)[t]
            == tn[t] by {
            assert(s.subrange(q0, q0 + tn.len() as int)[t] == s[q0 + t]);
            assert(s[i + (q0 - i + t)] == tt[q0 - i + t]);
            assert(tt[q0 - i + t] == tn[t]);
        }
        assert(s.subrange(q0, q0 + tn.len() as int) =~= tn);
        lemma_parse_membs(ms, k + 1, inner, pad, s, q0);
        assert((ms[k].0, ms[k].1) == ms[k]);
        assert(seq![(key, ms[k].1)] + ms.skip(k + 1) =~= ms.skip(k));
    } else {
        assert(sep_membs(ms, k + 1, inner) == Seq::<char>::empty());
        assert(tt =~= (seq!['"'] + esc_str(key) + seq!['"', ':', ' '] + rv) + (nl_pad(pad)
            + seq!['}']));
        assert(tt[e - i] == '\n');
        assert(s[i + (e - i)] == '\n');
        assert(decreases_to!(ms => ms[k]));
        assert(decreases_to!(ms[k] => ms[k].1));
        lemma_parse_render(ms[k].1, inner, s, m0);
        let b = e + 1 + pad.len() as int;
        assert forall|t: int| e <= t < b implies is_ws(s[t]) by {
            assert(s[i + (t - i)] == tt[t - i]);
            assert(tt[t - i] == (nl_pad(pad))[t - i - (e - i)]);
            if t == e {
                assert(s[t] == '\n');
            } else {
                assert(s[t] == pad[t - e - 1]);
                assert(s[t] == ' ');
            }
        }
        assert(s[i + (b - i)] == tt[b - i]);
        assert(tt[b - i] == '}');
        lemma_ws_to(s, e, b);
        assert((ms[k].0, ms[k].1) == ms[k]);
        assert(seq![(key, ms[k].1)] =~= ms.skip(k));
    }
}

/// Rendering a document as pretty text and parsing the text back yields
/// the document unchanged: the textual round-trip law.
pub proof fn lemma_render_parse_round_trip(v: JsonVal)
    ensures
        sp_parse(spec_render(v, Seq::empty())) == Some(v),
{
    let s = spec_render(v, Seq::empty());
    lemma_render_head(v, Seq::empty());
    lemma_ws_to(s, 0, 0);
    assert(s.subrange(0, s.len() as int) =~= s);
    lemma_parse_render(v, Seq::empty(), s, 0);
    lemma_ws_to(s, s.len() as int, s.len() as int);
}

// ------------------------------------------------------------------
// Executable parser, each function exactly its spec function

fn skip_ws(s: &Vec<char>, i: usize) -> (r: usize)
    requires
        i <= s@.len(),
    ensures
        r == sp_ws(s@, i as int),
        i <= r <= s@.len(),
{
    let mut k: usize = i;
    while k < s.len() && (s[k] == ' ' || s[k] == '\t' || s[k] == '\n' || s[k] == '\r')
        invariant
            i <= k <= s@.len(),
            sp_ws(s@, i as int) == sp_ws(s@, k as int),
        decreases s@.len() - k,
    {
        k = k + 1;
    }
    k
}

fn parse_escape(s: &Vec<char>, i: usize) -> (r: Option<(char, usize)>)
    requires
        i <= s@.len(),
    ensures
        match sp_escape(s@, i as int) {
            Some((c, j)) => r matches Some(p) && p.0 == c && p.1 == j,
            None => r is None,
        },
{
    if i >= s.len() {
        return None;
    }
    let c = s[i];
    if c == '"' {
        Some(('"', i + 1))
    } else if c == '\\' {
        Some(('\\', i + 1))
    } else if c == '/' {
        Some(('/', i + 1))
    } else if c == 'b' {
        Some(('\u{8}', i + 1))
    } else if c == 'f' {
        Some(('\u{c}', i + 1))
    } else if c == 'n' {
        Some(('\n', i + 1))
    } else if c == 'r' {
        Some(('\r', i + 1))
    } else if c == 't' {
        Some(('\t', i + 1))
    } else if c == 'u' && s.len() - i >= 5 {
        let a = hex_digit_value(s[i + 1]);
        let b = hex_digit_value(s[i + 2]);
        let cc = hex_digit_value(s[i + 3]);
        let d = hex_digit_value(s[i + 4]);
        match (a, b, cc, d) {
            (Some(a), Some(b), Some(cc), Some(d)) => {
                let u: u32 = a * 4096 + b * 256 + cc * 16 + d;
                match char_from_u32(u) {
                    Some(ch) => Some((ch, i + 5)),
                    None => None,
                }
            },
            _ => None,
        }
    } else {
        None
    }
}

fn hex_digit_value(c: char) -> (r: Option<u32>)
    ensures
        match hex_val(c) {
            Some(v) => r matches Some(u) && u == v && u < 16,
            None => r is None,
        },
{
    let u = c as u32;
    if 48 <= u && u <= 57 {
        Some(u - 48)
    } else if 97 <= u && u <= 102 {
        Some(u - 97 + 10)
    } else if 65 <= u && u <= 70 {
        Some(u - 65 + 10)
    } else {
        None
    }
}

fn parse_string_body(s: &Vec<char>, i: usize) -> (r: Option<(Vec<char>, usize)>)
    requires
        i <= s@.len(),
    ensures
        match sp_string_body(s@, i as int) {
            Some((cs, j)) => r matches Some(p) && p.0@ == cs && p.1 == j,
            None => r is None,
        },
{
    let mut acc: Vec<char> = Vec::new();
    let mut k: usize = i;
    loop
        invariant
            i <= k <= s@.len(),
            sp_string_body(s@, i as int) == (match sp_string_body(s@, k as int) {
                Some((rest, j)) => Some((acc@ + rest, j)),
                None => None,
            }),
        decreases s@.len() - k,
    {
        if k >= s.len() {
            return None;
        }
        let c = s[k];
        if c == '"' {
            proof {
                assert(acc@ + Seq::<char>::empty() =~= acc@);
            }
            return Some((acc, k + 1));
        }
        if c == '\\' {
            match parse_escape(s, k + 1) {
                None => {
                    return None;
                },
                Some((ec, j)) => {
                    if j <= k || j > s.len() {
                        return None;
                    }
                    let ghost old_acc = acc@;
                    let ghost old_k = k;
                    acc.push(ec);
                    k = j;
                    proof {
                        match sp_string_body(s@, k as int) {
                            Some((rest, end)) => {
                                assert(old_acc + (seq![ec] + rest) =~= acc@ + rest);
                            },
                            None => {},
                        }
                    }
                },
            }
        } else if (c as u32) < 0x20 {
            return None;
        } else {
            let ghost old_acc = acc@;
            acc.push(c);
            k = k + 1;
            proof {
                match sp_string_body(s@, k as int) {
                    Some((rest, end)) => {
                        assert(old_acc + (seq![c] + rest) =~= acc@ + rest);
                    },
                    None => {},
                }
            }
        }
    }
}

fn parse_number(s: &Vec<char>, i: usize) -> (r: Option<(u64, usize)>)
    requires
        i <= s@.len(),
    ensures
        match sp_number(s@, i as int) {
            Some((n, j)) => r matches Some(p) && p.0 == n && p.1 == j,
            None => r is None,
        },
{
    if !(i < s.len() && {
        let u = s[i] as u32;
        48 <= u && u <= 57
    }) {
        return None;
    }
    let mut acc: u64 = 0;
    let mut k: usize = i;
    loop
        invariant
            i <= k <= s@.len(),
            sp_digits(s@, i as int, 0) == sp_digits(s@, k as int, acc),
            i < s@.len() && is_digit(s@[i as int]),
        decreases s@.len() - k,
    {
        if k < s.len() {
            let u = s[k] as u32;
            if 48 <= u && u <= 57 {
                let d: u64 = (u - 48) as u64;
                let step = match acc.checked_mul(10) {
                    Some(m) => m.checked_add(d),
                    None => None,
                };
                match step {
                    Some(a2) => {
                        acc = a2;
                        k = k + 1;
                    },
                    None => {
                        return None;
                    },
                }
            } else {
                return Some((acc, k));
            }
        } else {
            return Some((acc, k));
        }
    }
}

fn parse_value(s: &Vec<char>, i: usize) -> (r: Option<(Json, usize)>)
    requires
        i <= s@.len(),
    ensures
        match sp_value(s@, i as int) {
            Some((v, j)) => r matches Some(p) && jview(p.0) == v && p.1 == j,
            None => r is None,
        },
    decreases s@.len() - i, 0int,
{
    if i >= s.len() {
        return None;
    }
    let c = s[i];
    if c == 'n' {
        if s.len() - i >= 4 && s[i + 1] == 'u' && s[i + 2] == 'l' && s[i + 3] == 'l' {
            Some((Json::Null, i + 4))
        } else {
            None
        }
    } else if c == 't' {
        if s.len() - i >= 4 && s[i + 1] == 'r' && s[i + 2] == 'u' && s[i + 3] == 'e' {
            Some((Json::Bool(true), i + 4))
        } else {
            None
        }
    } else if c == 'f' {
        if s.len() - i >= 5 && s[i + 1] == 'a' && s[i + 2] == 'l' && s[i + 3] == 's' && s[i + 4]
            == 'e' {
            Some((Json::Bool(false), i + 5))
        } else {
            None
        }
    } else if c == '"' {
        match parse_string_body(s, i + 1) {
            Some((cs, j)) => Some((Json::Str(string_of_chars(&cs)), j)),
            None => None,
        }
    } else if c == '[' {
        let j = skip_ws(s, i + 1);
        if j <= i || j > s.len() {
            return None;
        }
        if j < s.len() && s[j] == ']' {
            let empty: Vec<Json> = Vec::new();
            proof {
                assert(jviews(empty@) =~= Seq::<JsonVal>::empty());
            }
            return Some((Json::Arr(empty), j + 1));
        }
        match parse_elems(s, j) {
            Some((ev, k)) => Some((Json::Arr(ev), k)),
            None => None,
        }
    } else if c == '{' {
        let j = skip_ws(s, i + 1);
        if j <= i || j > s.len() {
            return None;
        }
        if j < s.len() && s[j] == '}' {
            let empty: Vec<(String, Json)> = Vec::new();
            proof {
                assert(kviews(empty@) =~= Seq::<(Seq<char>, JsonVal)>::empty());
            }
            return Some((Json::Obj(empty), j + 1));
        }
        match parse_members(s, j) {
            Some((mv, k)) => Some((Json::Obj(mv), k)),
            None => None,
        }
    } else {
        let u = c as u32;
        if 48 <= u && u <= 57 {
            match parse_number(s, i) {
                Some((n, j)) => Some((Json::UInt(n), j)),
                None => None,
            }
        } else {
            None
        }
    }
}

fn parse_elems(s: &Vec<char>, i: usize) -> (r: Option<(Vec<Json>, usize)>)
    requires
        i <= s@.len(),
    ensures
        match sp_elems(s@, i as int) {
            Some((vs, j)) => r matches Some(p) && jviews(p.0@) == vs && p.1 == j,
            None => r is None,
        },
    decreases s@.len() - i, 1int,
{
    match parse_value(s, i) {
        None => None,
        Some((v, j)) => {
            if j <= i || j > s.len() {
                return None;
            }
            let k = skip_ws(s, j);
            if k < j || k > s.len() {
                return None;
            }
            if k < s.len() && s[k] == ',' {
                let m = skip_ws(s, k + 1);
                if m <= k || m > s.len() {
                    return None;
                }
                match parse_elems(s, m) {
                    Some((rest, e)) => {
                        let ghost old_rest = rest@;
                        let mut rest = rest;
                        rest.insert(0, v);
                        proof {
                            assert(rest@ =~= seq![v] + old_rest);
                            crate::json::lemma_jviews_cons(v, old_rest);
                        }
                        Some((rest, e))
                    },
                    None => None,
                }
            } else if k < s.len() && s[k] == ']' {
                let mut one: Vec<Json> = Vec::new();
                one.push(v);
                proof {
                    assert(one@.drop_first() =~= Seq::<Json>::empty());
                    assert(jviews(one@.drop_first()) =~= Seq::<JsonVal>::empty());
                    assert(jviews(one@) =~= seq![jview(v)]);
                }
                Some((one, k + 1))
            } else {
                None
            }
        },
    }
}

fn parse_members(s: &Vec<char>, i: usize) -> (r: Option<(Vec<(String, Json)>, usize)>)
    requires
        i <= s@.len(),
    ensures
        match sp_members(s@, i as int) {
            Some((ms, j)) => r matches Some(p) && kviews(p.0@) == ms && p.1 == j,
            None => r is None,
        },
    decreases s@.len() - i, 1int,
{
    if i >= s.len() || s[i] != '"' {
        return None;
    }
    match parse_string_body(s, i + 1) {
        None => None,
        Some((key_chars, j)) => {
            if j <= i || j > s.len() {
                return None;
            }
            let key = string_of_chars(&key_chars);
            let k = skip_ws(s, j);
            if k < j || k > s.len() || k >= s.len() || s[k] != ':' {
                return None;
            }
            let m = skip_ws(s, k + 1);
            if m <= k || m > s.len() {
                return None;
            }
            match parse_value(s, m) {
                None => None,
                Some((v, e)) => {
                    if e <= m || e > s.len() {
                        return None;
                    }
                    let p = skip_ws(s, e);
                    if p < e || p > s.len() {
                        return None;
                    }
                    if p < s.len() && s[p] == ',' {
                        let q = skip_ws(s, p + 1);
                        if q <= p || q > s.len() {
                            return None;
                        }
                        match parse_members(s, q) {
                            Some((rest, z)) => {
                                let ghost old_rest = rest@;
                                let mut rest = rest;
                                rest.insert(0, (key, v));
                                proof {
                                    assert(rest@ =~= seq![(key, v)] + old_rest);
                                    crate::json::lemma_kviews_cons((key, v), old_rest);
                                }
                                Some((rest, z))
                            },
                            None => None,
                        }
                    } else if p < s.len() && s[p] == '}' {
                        let mut one: Vec<(String, Json)> = Vec::new();
                        one.push((key, v));
                        proof {
                            assert(one@.drop_first() =~= Seq::<(String, Json)>::empty());
                            assert(kviews(one@.drop_first()) =~= Seq::<(Seq<char>, JsonVal)>::empty());
                            assert(kviews(one@) =~= seq![(key@, jview(v))]);
                        }
                        Some((one, p + 1))
                    } else {
                        None
                    }
                },
            }
        },
    }
}

/// Parse a whole JSON text, exactly [`sp_parse`]: a text that
/// represents a document parses to it, any other text is a decode
/// error.
pub fn parse_json(text: &str) -> (r: Result<Json, ClientError>)
    ensures
        match sp_parse(text@) {
            Some(v) => r matches Ok(j) && jview(j) == v,
            None => r matches Err(e) && e@ == (crate::errors::ClientErrorV::DecodeError {
                field: "json"@,
            }),
        },
{
    let cs = chars_of_str(text);
    let i = skip_ws(&cs, 0);
    match parse_value(&cs, i) {
        None => Err(ClientError::DecodeError { field: String::from_str("json") }),
        Some((j, e)) => {
            if e < i || e > cs.len() {
                return Err(ClientError::DecodeError { field: String::from_str("json") });
            }
            if skip_ws(&cs, e) == cs.len() {
                Ok(j)
            } else {
                Err(ClientError::DecodeError { field: String::from_str("json") })
            }
        },
    }
}

} // verus!
