//! JSON document model and pretty renderer.
//!
//! The upstream API speaks JSON; this module models a document as a
//! value of [`Json`] and renders it as pretty-printed text (two-space
//! indentation, one element or member per line).  Numbers cover the
//! unsigned integers the record model needs; fractional or negative
//! numbers are outside the model and fail parsing.

use vstd::prelude::*;

use crate::text::string_of_chars;

verus! {

/// Ghost view of a [`Json`] document: the same shape over `Seq`.
pub enum JsonVal {
    Null,
    Bool(bool),
    UInt(u64),
    Str(Seq<char>),
    Arr(Seq<JsonVal>),
    Obj(Seq<(Seq<char>, JsonVal)>),
}

/// A JSON document over the subset the upstream API uses: null,
/// booleans, unsigned integers, strings, arrays, and objects kept as
/// ordered member lists.
#[derive(Debug, PartialEq, Eq)]
pub enum Json {
    Null,
    Bool(bool),
    UInt(u64),
    Str(String),
    Arr(Vec<Json>),
    Obj(Vec<(String, Json)>),
}

/// The view of a document: strings and containers become sequences.
pub open spec fn jview(j: Json) -> JsonVal
    decreases j,
{
    match j {
        Json::Null => JsonVal::Null,
        Json::Bool(b) => JsonVal::Bool(b),
        Json::UInt(n) => JsonVal::UInt(n),
        Json::Str(s) => JsonVal::Str(s@),
        Json::Arr(v) => JsonVal::Arr(jviews(v@)),
        Json::Obj(v) => JsonVal::Obj(kviews(v@)),
    }
}

/// Element-wise [`jview`] of an array's elements.
pub open spec fn jviews(s: Seq<Json>) -> Seq<JsonVal>
    decreases s,
{
    if s.len() == 0 {
        Seq::empty()
    } else {
        seq![jview(s[0])] + jviews(s.drop_first())
    }
}

/// Element-wise view of an object's members.
pub open spec fn kviews(s: Seq<(String, Json)>) -> Seq<(Seq<char>, JsonVal)>
    decreases s,
{
    if s.len() == 0 {
        Seq::empty()
    } else {
        seq![(s[0].0@, jview(s[0].1))] + kviews(s.drop_first())
    }
}

pub proof fn lemma_jviews_index(s: Seq<Json>)
    ensures
        jviews(s).len() == s.len(),
        forall|i: int| 0 <= i < s.len() ==> jviews(s)[i] == jview(s[i]),
    decreases s.len(),
{
    if s.len() > 0 {
        lemma_jviews_index(s.drop_first());
        assert forall|i: int| 0 <= i < s.len() implies jviews(s)[i] == jview(s[i]) by {
            if i >= 1 {
                assert(jviews(s)[i] == jviews(s.drop_first())[i - 1]);
                assert(s.drop_first()[i - 1] == s[i]);
            }
        }
    }
}

pub proof fn lemma_kviews_index(s: Seq<(String, Json)>)
    ensures
        kviews(s).len() == s.len(),
        forall|i: int| 0 <= i < s.len() ==> kviews(s)[i] == (s[i].0@, jview(s[i].1)),
    decreases s.len(),
{
    if s.len() > 0 {
        lemma_kviews_index(s.drop_first());
        assert forall|i: int| 0 <= i < s.len() implies kviews(s)[i] == (s[i].0@, jview(s[i].1)) by {
            if i >= 1 {
                assert(kviews(s)[i] == kviews(s.drop_first())[i - 1]);
                assert(s.drop_first()[i - 1] == s[i]);
            }
        }
    }
}

pub proof fn lemma_jviews_push(s: Seq<Json>, j: Json)
    ensures
        jviews(s.push(j)) == jviews(s).push(jview(j)),
    decreases s.len(),
{
    if s.len() == 0 {
        assert(s.push(j)[0] == j);
        assert(s.push(j).drop_first() =~= Seq::<Json>::empty());
        assert(jviews(s.push(j).drop_first()) =~= Seq::<JsonVal>::empty());
        assert(jviews(s.push(j)) =~= jviews(s).push(jview(j)));
    } else {
        assert(s.push(j).drop_first() =~= s.drop_first().push(j));
        lemma_jviews_push(s.drop_first(), j);
        assert(s.push(j)[0] == s[0]);
        assert(jviews(s.push(j)) == seq![jview(s[0])] + jviews(s.drop_first()).push(jview(j)));
        assert(seq![jview(s[0])] + jviews(s.drop_first()).push(jview(j)) =~= (seq![jview(s[0])]
            + jviews(s.drop_first())).push(jview(j)));
    }
}

pub proof fn lemma_kviews_push(s: Seq<(String, Json)>, m: (String, Json))
    ensures
        kviews(s.push(m)) == kviews(s).push((m.0@, jview(m.1))),
    decreases s.len(),
{
    if s.len() == 0 {
        assert(s.push(m)[0] == m);
        assert(s.push(m).drop_first() =~= Seq::<(String, Json)>::empty());
        assert(kviews(s.push(m).drop_first()) =~= Seq::<(Seq<char>, JsonVal)>::empty());
        assert(kviews(s.push(m)) =~= kviews(s).push((m.0@, jview(m.1))));
    } else {
        assert(s.push(m).drop_first() =~= s.drop_first().push(m));
        lemma_kviews_push(s.drop_first(), m);
        assert(s.push(m)[0] == s[0]);
        assert(kviews(s.push(m)) == seq![(s[0].0@, jview(s[0].1))] + kviews(s.drop_first()).push(
            (m.0@, jview(m.1)),
        ));
        assert(seq![(s[0].0@, jview(s[0].1))] + kviews(s.drop_first()).push((m.0@, jview(m.1)))
            =~= (seq![(s[0].0@, jview(s[0].1))] + kviews(s.drop_first())).push((m.0@, jview(m.1))));
    }
}

pub proof fn lemma_jviews_cons(x: Json, t: Seq<Json>)
    ensures
        jviews(seq![x] + t) == seq![jview(x)] + jviews(t),
{
    assert((seq![x] + t)[0] == x);
    assert((seq![x] + t).drop_first() =~= t);
}

pub proof fn lemma_kviews_cons(x: (String, Json), t: Seq<(String, Json)>)
    ensures
        kviews(seq![x] + t) == seq![(x.0@, jview(x.1))] + kviews(t),
{
    assert((seq![x] + t)[0] == x);
    assert((seq![x] + t).drop_first() =~= t);
}

// ------------------------------------------------------------------
// Rendering: characters, digits, escapes

/// The sixteen hexadecimal digit characters, lower case.
pub open spec fn hex_digit_char(d: int) -> char {
    if d == 0 {
        '0'
    } else if d == 1 {
        '1'
    } else if d == 2 {
        '2'
    } else if d == 3 {
        '3'
    } else if d == 4 {
        '4'
    } else if d == 5 {
        '5'
    } else if d == 6 {
        '6'
    } else if d == 7 {
        '7'
    } else if d == 8 {
        '8'
    } else if d == 9 {
        '9'
    } else if d == 10 {
        'a'
    } else if d == 11 {
        'b'
    } else if d == 12 {
        'c'
    } else if d == 13 {
        'd'
    } else if d == 14 {
        'e'
    } else {
        'f'
    }
}

fn hex_digit(d: u32) -> (r: char)
    requires
        d < 16,
    ensures
        r == hex_digit_char(d as int),
{
    if d == 0 {
        '0'
    } else if d == 1 {
        '1'
    } else if d == 2 {
        '2'
    } else if d == 3 {
        '3'
    } else if d == 4 {
        '4'
    } else if d == 5 {
        '5'
    } else if d == 6 {
        '6'
    } else if d == 7 {
        '7'
    } else if d == 8 {
        '8'
    } else if d == 9 {
        '9'
    } else if d == 10 {
        'a'
    } else if d == 11 {
        'b'
    } else if d == 12 {
        'c'
    } else if d == 13 {
        'd'
    } else if d == 14 {
        'e'
    } else {
        'f'
    }
}

/// Decimal spelling of a non-negative integer, no leading zeros.
pub open spec fn dec_str(n: int) -> Seq<char>
    decreases n,
{
    if n < 10 {
        seq![hex_digit_char(n)]
    } else {
        dec_str(n / 10).push(hex_digit_char(n % 10))
    }
}

fn push_dec(buf: &mut Vec<char>, n: u64)
    ensures
        final(buf)@ == old(buf)@ + dec_str(n as int),
    decreases n,
{
    if n < 10 {
        buf.push(hex_digit((n % 16) as u32));
        proof {
            assert(final(buf)@ =~= old(buf)@ + dec_str(n as int));
        }
    } else {
        push_dec(buf, n / 10);
        buf.push(hex_digit((n % 10) as u32));
        proof {
            assert(final(buf)@ =~= old(buf)@ + dec_str(n as int));
        }
    }
}

/// How one character is spelled inside a JSON string literal: quote,
/// backslash and the named control characters get a two-character
/// escape, other control characters a `\u00..` escape, everything else
/// stands as itself.
pub open spec fn esc_char(c: char) -> Seq<char> {
    if c == '"' {
        seq!['\\', '"']
    } else if c == '\\' {
        seq!['\\', '\\']
    } else if c == '\u{8}' {
        seq!['\\', 'b']
    } else if c == '\u{c}' {
        seq!['\\', 'f']
    } else if c == '\n' {
        seq!['\\', 'n']
    } else if c == '\r' {
        seq!['\\', 'r']
    } else if c == '\t' {
        seq!['\\', 't']
    } else if (c as u32) < 0x20 {
        seq!['\\', 'u', '0', '0', hex_digit_char((c as u32) as int / 16), hex_digit_char((c as u32) as int % 16)]
    } else {
        seq![c]
    }
}

/// The escaped spelling of a string's characters from position `k` on.
pub open spec fn esc_from(s: Seq<char>, k: int) -> Seq<char>
    decreases s.len() - k,
    when 0 <= k <= s.len()
{
    if k == s.len() {
        Seq::empty()
    } else {
        esc_char(s[k]) + esc_from(s, k + 1)
    }
}

/// The escaped spelling of a whole string (quotes not included).
pub open spec fn esc_str(s: Seq<char>) -> Seq<char> {
    esc_from(s, 0)
}

fn push_escaped(buf: &mut Vec<char>, s: &str)
    ensures
        final(buf)@ == old(buf)@ + esc_str(s@),
{
    let n = s.unicode_len();
    let mut k: usize = 0;
    while k < n
        invariant
            n == s@.len(),
            k <= n,
            esc_from(s@, 0) == buf@.skip(old(buf)@.len() as int) + esc_from(s@, k as int),
            buf@.len() >= old(buf)@.len(),
            buf@.subrange(0, old(buf)@.len() as int) == old(buf)@,
        decreases n - k,
    {
        let ghost pre = buf@;
        let c = s.get_char(k);
        if c == '"' {
            buf.push('\\');
            buf.push('"');
        } else if c == '\\' {
            buf.push('\\');
            buf.push('\\');
        } else if c == '\u{8}' {
            buf.push('\\');
            buf.push('b');
        } else if c == '\u{c}' {
            buf.push('\\');
            buf.push('f');
        } else if c == '\n' {
            buf.push('\\');
            buf.push('n');
        } else if c == '\r' {
            buf.push('\\');
            buf.push('r');
        } else if c == '\t' {
            buf.push('\\');
            buf.push('t');
        } else if (c as u32) < 0x20 {
            let u = c as u32;
            buf.push('\\');
            buf.push('u');
            buf.push('0');
            buf.push('0');
            buf.push(hex_digit(u / 16));
            buf.push(hex_digit(u % 16));
        } else {
            buf.push(c);
        }
        proof {
            assert(buf@ =~= pre + esc_char(s@[k as int]));
            assert(buf@.skip(old(buf)@.len() as int) =~= pre.skip(old(buf)@.len() as int)
                + esc_char(s@[k as int]));
            assert(buf@.subrange(0, old(buf)@.len() as int) =~= old(buf)@);
        }
        k = k + 1;
        proof {
            assert(esc_from(s@, 0) =~= buf@.skip(old(buf)@.len() as int) + esc_from(
                s@,
                k as int,
            ));
        }
    }
    proof {
        assert(final(buf)@ =~= old(buf)@ + esc_str(s@));
    }
}

// ------------------------------------------------------------------
// Pretty rendering

/// A line break followed by the current indentation.
pub open spec fn nl_pad(pad: Seq<char>) -> Seq<char> {
    seq!['\n'] + pad
}

/// Pretty text of a document at indentation `pad`: two-space
/// indentation, one array element or object member per line, a space
/// after each member's colon, empty containers on one line.
pub open spec fn spec_render(v: JsonVal, pad: Seq<char>) -> Seq<char>
    decreases v, 0int,
{
    match v {
        JsonVal::Null => "null"@,
        JsonVal::Bool(b) => if b {
            "true"@
        } else {
            "false"@
        },
        JsonVal::UInt(n) => dec_str(n as int),
        JsonVal::Str(s) => seq!['"'] + esc_str(s) + seq!['"'],
        JsonVal::Arr(elems) => if elems.len() == 0 {
            "[]"@
        } else {
            seq!['['] + sep_elems(elems, 0, pad + "  "@) + nl_pad(pad) + seq![']']
        },
        JsonVal::Obj(ms) => if ms.len() == 0 {
            "{}"@
        } else {
            seq!['{'] + sep_membs(ms, 0, pad + "  "@) + nl_pad(pad) + seq!['}']
        },
    }
}

/// The rendered elements from position `k` on, each on its own line,
/// with a comma before every element but the first.
pub open spec fn sep_elems(elems: Seq<JsonVal>, k: int, pad: Seq<char>) -> Seq<char>
    decreases elems, elems.len() - k,
    when 0 <= k <= elems.len()
{
    if k == elems.len() {
        Seq::empty()
    } else {
        (if k == 0 {
            Seq::<char>::empty()
        } else {
            seq![',']
        }) + nl_pad(pad) + spec_render(elems[k], pad) + sep_elems(elems, k + 1, pad)
    }
}

/// The rendered members from position `k` on: quoted escaped key, a
/// colon and a space, the member's value.
pub open spec fn sep_membs(ms: Seq<(Seq<char>, JsonVal)>, k: int, pad: Seq<char>) -> Seq<char>
    decreases ms, ms.len() - k,
    when 0 <= k <= ms.len()
{
    if k == ms.len() {
        Seq::empty()
    } else {
        (if k == 0 {
            Seq::<char>::empty()
        } else {
            seq![',']
        }) + nl_pad(pad) + seq!['"'] + esc_str(ms[k].0) + seq!['"', ':', ' ']
            + spec_render(ms[k].1, pad) + sep_membs(ms, k + 1, pad)
    }
}

fn push_slice(buf: &mut Vec<char>, src: &Vec<char>)
    ensures
        final(buf)@ == old(buf)@ + src@,
{
    let mut k: usize = 0;
    while k < src.len()
        invariant
            k <= src@.len(),
            buf@ == old(buf)@ + src@.subrange(0, k as int),
        decreases src@.len() - k,
    {
        buf.push(src[k]);
        k = k + 1;
        proof {
            assert(buf@ =~= old(buf)@ + src@.subrange(0, k as int));
        }
    }
    proof {
        assert(old(buf)@ + src@.subrange(0, src@.len() as int) =~= old(buf)@ + src@);
    }
}

#[verifier::loop_isolation(false)]
fn render_str(s: &str, buf: &mut Vec<char>)
    ensures
        final(buf)@ == old(buf)@ + (seq!['"'] + esc_str(s@) + seq!['"']),
{
    buf.push('"');
    push_escaped(buf, s);
    buf.push('"');
    proof {
        assert(final(buf)@ =~= old(buf)@ + (seq!['"'] + esc_str(s@) + seq!['"']));
    }
}

fn render_arr(v: &Vec<Json>, pad: &mut Vec<char>, buf: &mut Vec<char>)
    ensures
        final(buf)@ == old(buf)@ + spec_render(JsonVal::Arr(jviews(v@)), old(pad)@),
        final(pad)@ == old(pad)@,
    decreases *v, 0int,
{
    proof {
        lemma_jviews_index(v@);
    }
    let ghost elems = jviews(v@);
    if v.len() == 0 {
        proof {
            reveal_strlit("[]");
        }
        buf.push('[');
        buf.push(']');
        proof {
            assert(buf@ =~= old(buf)@ + "[]"@);
        }
    } else {
        buf.push('[');
        pad.push(' ');
        pad.push(' ');
        proof {
            reveal_strlit("  ");
            assert(pad@ =~= old(pad)@ + "  "@);
        }
        let ghost inner = old(pad)@ + "  "@;
        let ghost start = buf@;
        let mut k: usize = 0;
        while k < v.len()
            invariant
                k <= v@.len(),
                v@.len() == elems.len(),
                elems == jviews(v@),
                forall|i: int| 0 <= i < v@.len() ==> elems[i] == jview(v@[i]),
                v@.len() > 0,
                pad@ == inner,
                inner == old(pad)@ + "  "@,
                start.len() <= buf@.len(),
                buf@.subrange(0, start.len() as int) == start,
                sep_elems(elems, 0, inner) == buf@.skip(start.len() as int) + sep_elems(
                    elems,
                    k as int,
                    inner,
                ),
            decreases v@.len() - k,
        {
            let ghost pre = buf@;
            if k > 0 {
                buf.push(',');
            }
            buf.push('\n');
            push_slice(buf, pad);
            proof {
                assert(decreases_to!(*v => v@));
                assert(decreases_to!(v@ => v@[k as int]));
            }
            render_into(&v[k], pad, buf);
            proof {
                assert(buf@ =~= pre + ((if k == 0 {
                    Seq::<char>::empty()
                } else {
                    seq![',']
                }) + nl_pad(inner) + spec_render(elems[k as int], inner)));
                assert(buf@.subrange(0, start.len() as int) =~= start);
                assert(buf@.skip(start.len() as int) =~= pre.skip(start.len() as int) + ((if k
                    == 0 {
                    Seq::<char>::empty()
                } else {
                    seq![',']
                }) + nl_pad(inner) + spec_render(elems[k as int], inner)));
            }
            k = k + 1;
            proof {
                assert(sep_elems(elems, 0, inner) =~= buf@.skip(start.len() as int) + sep_elems(
                    elems,
                    k as int,
                    inner,
                ));
            }
        }
        proof {
            assert(sep_elems(elems, v@.len() as int, inner) =~= Seq::<char>::empty());
            assert(buf@.skip(start.len() as int) =~= sep_elems(elems, 0, inner));
            assert(buf@ =~= start + sep_elems(elems, 0, inner));
        }
        pad.pop();
        pad.pop();
        proof {
            assert(pad@ =~= old(pad)@);
        }
        buf.push('\n');
        push_slice(buf, pad);
        buf.push(']');
        proof {
            assert(buf@ =~= old(buf)@ + (seq!['['] + sep_elems(elems, 0, inner) + nl_pad(
                old(pad)@,
            ) + seq![']']));
        }
    }
}

fn render_obj(v: &Vec<(String, Json)>, pad: &mut Vec<char>, buf: &mut Vec<char>)
    ensures
        final(buf)@ == old(buf)@ + spec_render(JsonVal::Obj(kviews(v@)), old(pad)@),
        final(pad)@ == old(pad)@,
    decreases *v, 0int,
{
    proof {
        lemma_kviews_index(v@);
    }
    let ghost ms = kviews(v@);
    if v.len() == 0 {
        proof {
            reveal_strlit("{}");
        }
        buf.push('{');
        buf.push('}');
        proof {
            assert(buf@ =~= old(buf)@ + "{}"@);
        }
    } else {
        buf.push('{');
        pad.push(' ');
        pad.push(' ');
        proof {
            reveal_strlit("  ");
            assert(pad@ =~= old(pad)@ + "  "@);
        }
        let ghost inner = old(pad)@ + "  "@;
        let ghost start = buf@;
        let mut k: usize = 0;
        while k < v.len()
            invariant
                k <= v@.len(),
                v@.len() == ms.len(),
                ms == kviews(v@),
                forall|i: int| 0 <= i < v@.len() ==> ms[i] == (v@[i].0@, jview(v@[i].1)),
                v@.len() > 0,
                pad@ == inner,
                inner == old(pad)@ + "  "@,
                start.len() <= buf@.len(),
                buf@.subrange(0, start.len() as int) == start,
                sep_membs(ms, 0, inner) == buf@.skip(start.len() as int) + sep_membs(
                    ms,
                    k as int,
                    inner,
                ),
            decreases v@.len() - k,
        {
            let ghost pre = buf@;
            if k > 0 {
                buf.push(',');
            }
            buf.push('\n');
            push_slice(buf, pad);
            render_str(v[k].0.as_str(), buf);
            buf.push(':');
            buf.push(' ');
            proof {
                assert(decreases_to!(*v => v@));
                assert(decreases_to!(v@ => v@[k as int]));
                assert(decreases_to!(v@[k as int] => v@[k as int].1));
            }
            render_into(&v[k].1, pad, buf);
            proof {
                assert(buf@ =~= pre + ((if k == 0 {
                    Seq::<char>::empty()
                } else {
                    seq![',']
                }) + nl_pad(inner) + seq!['"'] + esc_str(ms[k as int].0) + seq!['"', ':', ' ']
                    + spec_render(ms[k as int].1, inner)));
                assert(buf@.subrange(0, start.len() as int) =~= start);
                assert(buf@.skip(start.len() as int) =~= pre.skip(start.len() as int) + ((if k
                    == 0 {
                    Seq::<char>::empty()
                } else {
                    seq![',']
                }) + nl_pad(inner) + seq!['"'] + esc_str(ms[k as int].0) + seq!['"', ':', ' ']
                    + spec_render(ms[k as int].1, inner)));
            }
            k = k + 1;
            proof {
                assert(sep_membs(ms, 0, inner) =~= buf@.skip(start.len() as int) + sep_membs(
                    ms,
                    k as int,
                    inner,
                ));
            }
        }
        proof {
            assert(sep_membs(ms, v@.len() as int, inner) =~= Seq::<char>::empty());
            assert(buf@.skip(start.len() as int) =~= sep_membs(ms, 0, inner));
            assert(buf@ =~= start + sep_membs(ms, 0, inner));
        }
        pad.pop();
        pad.pop();
        proof {
            assert(pad@ =~= old(pad)@);
        }
        buf.push('\n');
        push_slice(buf, pad);
        buf.push('}');
        proof {
            assert(buf@ =~= old(buf)@ + (seq!['{'] + sep_membs(ms, 0, inner) + nl_pad(
                old(pad)@,
            ) + seq!['}']));
        }
    }
}

fn render_into(j: &Json, pad: &mut Vec<char>, buf: &mut Vec<char>)
    ensures
        final(buf)@ == old(buf)@ + spec_render(jview(*j), old(pad)@),
        final(pad)@ == old(pad)@,
    decreases *j, 1int,
{
    match j {
        Json::Null => {
            proof {
                reveal_strlit("null");
            }
            buf.push('n');
            buf.push('u');
            buf.push('l');
            buf.push('l');
            proof {
                assert(buf@ =~= old(buf)@ + "null"@);
            }
        },
        Json::Bool(b) => {
            if *b {
                proof {
                    reveal_strlit("true");
                }
                buf.push('t');
                buf.push('r');
                buf.push('u');
                buf.push('e');
                proof {
                    assert(buf@ =~= old(buf)@ + "true"@);
                }
            } else {
                proof {
                    reveal_strlit("false");
                }
                buf.push('f');
                buf.push('a');
                buf.push('l');
                buf.push('s');
                buf.push('e');
                proof {
                    assert(buf@ =~= old(buf)@ + "false"@);
                }
            }
        },
        Json::UInt(n) => {
            push_dec(buf, *n);
        },
        Json::Str(s) => {
            render_str(s.as_str(), buf);
        },
        Json::Arr(v) => {
            proof {
                let jj = *j;
                assert(decreases_to!(jj => jj->Arr_0));
                assert(jj->Arr_0 == *v);
            }
            render_arr(v, pad, buf);
        },
        Json::Obj(v) => {
            proof {
                let jj = *j;
                assert(decreases_to!(jj => jj->Obj_0));
                assert(jj->Obj_0 == *v);
            }
            render_obj(v, pad, buf);
        },
    }
}

/// Render a document as pretty-printed text, exactly
/// [`spec_render`] at the empty indentation.
pub fn render_pretty(j: &Json) -> (r: String)
    ensures
        r@ == spec_render(jview(*j), Seq::empty()),
{
    let mut pad: Vec<char> = Vec::new();
    let mut buf: Vec<char> = Vec::new();
    render_into(j, &mut pad, &mut buf);
    string_of_chars(&buf)
}

} // verus!
