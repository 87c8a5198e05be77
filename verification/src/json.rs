//! JSON values and their grammar.
//!
//! The weather service answers with a JSON document. This module gives
//! the library its own JSON values ([`Json`]), a ghost mirror of them
//! over sequences ([`JsonG`]), and a specification-level parser that
//! defines exactly which byte strings the library accepts and what value
//! they denote. The executable parser in [`crate::parse`] is proved
//! equal to it.
//!
//! The grammar is the JSON the service actually sends: objects, arrays,
//! strings with the single-character escapes, numbers without exponents,
//! `true`, `false` and `null`, separated by ASCII whitespace. Unicode
//! (`\u`) escapes and exponent notation are not part of it; a document
//! using them is rejected as malformed. Numbers must fit a well-formed
//! [`Decimal`]. Nesting deeper than [`MAX_DEPTH`] is rejected.

use vstd::prelude::*;

use crate::bytes::{is_ws, skip_ws};
use crate::decimal::{Decimal, MANTISSA_MAX, MAX_SCALE, pow10};

verus! {

broadcast use vstd::std_specs::vec::axiom_vec_index_decreases;

/// How deep values may nest before the parser gives up.
pub const MAX_DEPTH: u32 = 128;

/// A JSON value. Object members are kept in document order.
pub enum Json {
    Null,
    Bool(bool),
    Num(Decimal),
    Str(Vec<u8>),
    Arr(Vec<Json>),
    Obj(Vec<(Vec<u8>, Json)>),
}

/// The ghost mirror of [`Json`], with sequences for vectors.
pub enum JsonG {
    Null,
    Bool(bool),
    Num(Decimal),
    Str(Seq<u8>),
    Arr(Seq<JsonG>),
    Obj(Seq<(Seq<u8>, JsonG)>),
}

/// The ghost value a [`Json`] stands for.
pub open spec fn view_json(j: Json) -> JsonG
    decreases j,
{
    match j {
        Json::Null => JsonG::Null,
        Json::Bool(b) => JsonG::Bool(b),
        Json::Num(d) => JsonG::Num(d),
        Json::Str(s) => JsonG::Str(s@),
        Json::Arr(v) => JsonG::Arr(views_of(v)),
        Json::Obj(v) => JsonG::Obj(pairs_of(v)),
    }
}

/// The ghost values of a vector of JSON values.
pub open spec fn views_of(v: Vec<Json>) -> Seq<JsonG>
    decreases v,
{
    Seq::new(
        v.len() as nat,
        |i: int|
            if 0 <= i && i < v.len() {
                view_json(v[i])
            } else {
                JsonG::Null
            },
    )
}

/// The ghost values of a vector of object members.
pub open spec fn pairs_of(v: Vec<(Vec<u8>, Json)>) -> Seq<(Seq<u8>, JsonG)>
    decreases v,
{
    Seq::new(
        v.len() as nat,
        |i: int|
            if 0 <= i && i < v.len() {
                (v[i].0@, view_json(v[i].1))
            } else {
                (Seq::empty(), JsonG::Null)
            },
    )
}

impl View for Json {
    type V = JsonG;

    open spec fn view(&self) -> JsonG {
        view_json(*self)
    }
}

/// Every well-formed decimal inside the value: the parser only ever
/// builds such values.
pub open spec fn wf_json(g: JsonG) -> bool
    decreases g, 0int, 0int,
{
    match g {
        JsonG::Num(d) => d.wf(),
        JsonG::Arr(es) => wf_elems(es, 0),
        JsonG::Obj(ms) => wf_members(ms, 0),
        _ => true,
    }
}

/// All elements from position `i` on are well-formed.
pub open spec fn wf_elems(es: Seq<JsonG>, i: int) -> bool
    decreases es, es.len() - i, 1int,
    when 0 <= i <= es.len()
{
    if i < es.len() {
        wf_json(es[i]) && wf_elems(es, i + 1)
    } else {
        true
    }
}

/// All member values from position `i` on are well-formed.
pub open spec fn wf_members(ms: Seq<(Seq<u8>, JsonG)>, i: int) -> bool
    decreases ms, ms.len() - i, 1int,
    when 0 <= i <= ms.len()
{
    if i < ms.len() {
        wf_json(ms[i].1) && wf_members(ms, i + 1)
    } else {
        true
    }
}

/// `wf_elems` is elementwise well-formedness.
pub proof fn lemma_wf_elems(es: Seq<JsonG>, i: int)
    requires
        0 <= i <= es.len(),
    ensures
        wf_elems(es, i) <==> (forall|k: int| i <= k < es.len() ==> wf_json(#[trigger] es[k])),
    decreases es.len() - i,
{
    if i < es.len() {
        lemma_wf_elems(es, i + 1);
    }
}

/// `wf_members` is elementwise well-formedness of the values.
pub proof fn lemma_wf_members(ms: Seq<(Seq<u8>, JsonG)>, i: int)
    requires
        0 <= i <= ms.len(),
    ensures
        wf_members(ms, i) <==> (forall|k: int| i <= k < ms.len() ==> wf_json(#[trigger] ms[k].1)),
    decreases ms.len() - i,
{
    if i < ms.len() {
        lemma_wf_members(ms, i + 1);
    }
}

/// Consing a well-formed value onto well-formed array elements.
pub proof fn lemma_wf_cons(g: JsonG, rest: Seq<JsonG>)
    requires
        wf_json(g),
        wf_json(JsonG::Arr(rest)),
    ensures
        wf_json(JsonG::Arr(seq![g] + rest)),
{
    let es = seq![g] + rest;
    lemma_wf_elems(rest, 0);
    lemma_wf_elems(es, 0);
    assert forall|i: int| 0 <= i < es.len() implies wf_json(#[trigger] es[i]) by {
        if i == 0 {
            assert(es[i] == g);
        } else {
            assert(es[i] == rest[i - 1]);
        }
    }
}

/// Consing a member with a well-formed value onto well-formed members.
pub proof fn lemma_wf_cons_member(k: Seq<u8>, g: JsonG, rest: Seq<(Seq<u8>, JsonG)>)
    requires
        wf_json(g),
        wf_json(JsonG::Obj(rest)),
    ensures
        wf_json(JsonG::Obj(seq![(k, g)] + rest)),
{
    let ms = seq![(k, g)] + rest;
    lemma_wf_members(rest, 0);
    lemma_wf_members(ms, 0);
    assert forall|i: int| 0 <= i < ms.len() implies wf_json(#[trigger] ms[i].1) by {
        if i == 0 {
            assert(ms[i].1 == g);
        } else {
            assert(ms[i] == rest[i - 1]);
        }
    }
}

/// ASCII digit.
pub open spec fn is_digit(b: u8) -> bool {
    48 <= b && b <= 57
}

/// The first position at or after `i` holding no digit.
pub open spec fn digits_end(s: Seq<u8>, i: int) -> int
    decreases s.len() - i,
    when 0 <= i <= s.len()
{
    if i < s.len() && is_digit(s[i]) {
        digits_end(s, i + 1)
    } else {
        i
    }
}

pub proof fn lemma_digits_end(s: Seq<u8>, i: int)
    requires
        0 <= i <= s.len(),
    ensures
        i <= digits_end(s, i) <= s.len(),
        forall|k: int| i <= k < digits_end(s, i) ==> is_digit(#[trigger] s[k]),
        digits_end(s, i) == s.len() || !is_digit(s[digits_end(s, i)]),
    decreases s.len() - i,
{
    if i < s.len() && is_digit(s[i]) {
        lemma_digits_end(s, i + 1);
    }
}

/// The number written by the digits `s[i..j)`.
pub open spec fn digits_value(s: Seq<u8>, i: int, j: int) -> nat
    decreases j - i,
    when i <= j
{
    if i < j {
        digits_value(s, i, j - 1) * 10 + (if is_digit(s[j - 1]) {
            (s[j - 1] - 48) as nat
        } else {
            0
        })
    } else {
        0
    }
}

/// Splitting a digit run: the digits of `s[a..c)` are the digits of
/// `s[a..b)` shifted past those of `s[b..c)`.
pub proof fn lemma_dv_extend(s: Seq<u8>, a: int, b: int, c: int)
    requires
        a <= b <= c,
    ensures
        digits_value(s, a, c) == digits_value(s, a, b) * pow10((c - b) as nat) + digits_value(
            s,
            b,
            c,
        ),
    decreases c - b,
{
    if c == b {
        assert(pow10(0) == 1);
        assert(digits_value(s, a, b) * 1 == digits_value(s, a, b)) by (nonlinear_arith);
    } else {
        lemma_dv_extend(s, a, b, c - 1);
        let x = digits_value(s, a, b);
        let p = pow10((c - 1 - b) as nat);
        let q = digits_value(s, b, c - 1);
        let dg: nat = if is_digit(s[c - 1]) {
            (s[c - 1] - 48) as nat
        } else {
            0
        };
        assert(pow10((c - b) as nat) == 10 * p);
        assert((x * p + q) * 10 + dg == x * (10 * p) + (q * 10 + dg)) by (nonlinear_arith);
    }
}

/// Accumulating further digits never shrinks the running value.
pub proof fn lemma_acc_ge(s: Seq<u8>, i: int, k1: int, j: int, start: nat)
    requires
        i <= k1 <= j,
    ensures
        start * pow10((j - i) as nat) + digits_value(s, i, j) >= start * pow10((k1 - i) as nat)
            + digits_value(s, i, k1),
{
    let a = start;
    let p = pow10((k1 - i) as nat);
    let v = digits_value(s, i, k1);
    let part = a * p + v;
    let rest = pow10((j - k1) as nat);
    crate::decimal::lemma_pow10_add((k1 - i) as nat, (j - k1) as nat);
    lemma_dv_extend(s, i, k1, j);
    crate::decimal::lemma_pow10_pos((j - k1) as nat);
    assert(a * (p * rest) == (a * p) * rest) by (nonlinear_arith);
    assert((a * p) * rest + v * rest == part * rest) by (nonlinear_arith)
        requires
            part == a * p + v,
    ;
    assert(part * rest >= part) by (nonlinear_arith)
        requires
            rest >= 1,
            part >= 0,
    ;
}

/// What a single-character escape stands for, if it is one.
pub open spec fn esc_byte(b: u8) -> Option<u8> {
    if b == 34 {
        Some(34u8)
    } else if b == 92 {
        Some(92u8)
    } else if b == 47 {
        Some(47u8)
    } else if b == 98 {
        Some(8u8)
    } else if b == 102 {
        Some(12u8)
    } else if b == 110 {
        Some(10u8)
    } else if b == 114 {
        Some(13u8)
    } else if b == 116 {
        Some(9u8)
    } else {
        None
    }
}

/// Parse the body of a string literal: `i` is the position right after
/// the opening quote; on success, the unescaped content and the position
/// right after the closing quote.
pub open spec fn parse_string_g(s: Seq<u8>, i: int) -> Option<(Seq<u8>, int)>
    decreases s.len() - i,
    when 0 <= i <= s.len()
{
    if i >= s.len() {
        None
    } else if s[i] == 34 {
        Some((Seq::empty(), i + 1))
    } else if s[i] == 92 {
        if i + 1 < s.len() {
            match esc_byte(s[i + 1]) {
                Some(b) => match parse_string_g(s, i + 2) {
                    Some((rest, j)) => Some((seq![b] + rest, j)),
                    None => None,
                },
                None => None,
            }
        } else {
            None
        }
    } else if s[i] < 32 {
        None
    } else {
        match parse_string_g(s, i + 1) {
            Some((rest, j)) => Some((seq![s[i]] + rest, j)),
            None => None,
        }
    }
}

/// Parse a number starting at `i` (pointing at `-` or the first digit):
/// an optional sign, an integer part without leading zeros, an optional
/// fraction. A number whose mantissa or scale leaves [`Decimal::wf`] is
/// not accepted.
pub open spec fn parse_number_g(s: Seq<u8>, i: int) -> Option<(Decimal, int)>
    recommends
        0 <= i <= s.len(),
{
    let neg = i < s.len() && s[i] == 45;
    let i0 = if neg {
        i + 1
    } else {
        i
    };
    let ie = digits_end(s, i0);
    if !(i0 <= ie <= s.len()) || ie == i0 {
        None
    } else if s[i0] == 48 && ie > i0 + 1 {
        None
    } else if ie < s.len() && s[ie] == 46 {
        let fe = digits_end(s, ie + 1);
        if !(ie + 1 <= fe <= s.len()) || fe == ie + 1 {
            None
        } else {
            let scale = (fe - (ie + 1)) as nat;
            let m = digits_value(s, i0, ie) * pow10(scale) + digits_value(s, ie + 1, fe);
            if scale <= MAX_SCALE && m <= MANTISSA_MAX {
                Some((Decimal { neg, mantissa: m as u64, scale: scale as u8 }, fe))
            } else {
                None
            }
        }
    } else {
        let m = digits_value(s, i0, ie);
        if m <= MANTISSA_MAX {
            Some((Decimal { neg, mantissa: m as u64, scale: 0u8 }, ie))
        } else {
            None
        }
    }
}

/// Parse one value beginning at `i`, leading whitespace allowed, with
/// `d` levels of nesting left. On success, the value and the position
/// right after it.
pub open spec fn parse_value_g(s: Seq<u8>, i: int, d: nat) -> Option<(JsonG, int)>
    decreases d, s.len() - i, 0int,
    when 0 <= i <= s.len()
{
    if d == 0 {
        None
    } else {
        let j = skip_ws(s, i);
        if !(i <= j) || j >= s.len() {
            None
        } else {
            let c = s[j];
            if c == 110 {  // 'n'
                if j + 4 <= s.len() && s[j + 1] == 117 && s[j + 2] == 108 && s[j + 3] == 108 {
                    Some((JsonG::Null, j + 4))
                } else {
                    None
                }
            } else if c == 116 {  // 't'
                if j + 4 <= s.len() && s[j + 1] == 114 && s[j + 2] == 117 && s[j + 3] == 101 {
                    Some((JsonG::Bool(true), j + 4))
                } else {
                    None
                }
            } else if c == 102 {  // 'f'
                if j + 5 <= s.len() && s[j + 1] == 97 && s[j + 2] == 108 && s[j + 3] == 115 && s[j
                    + 4] == 101 {
                    Some((JsonG::Bool(false), j + 5))
                } else {
                    None
                }
            } else if c == 34 {  // '"'
                match parse_string_g(s, j + 1) {
                    Some((t, k)) => Some((JsonG::Str(t), k)),
                    None => None,
                }
            } else if c == 45 || is_digit(c) {
                match parse_number_g(s, j) {
                    Some((n, k)) => Some((JsonG::Num(n), k)),
                    None => None,
                }
            } else if c == 91 {  // '['
                let k = skip_ws(s, j + 1);
                if j + 1 <= k && k < s.len() && s[k] == 93 {  // ']'
                    Some((JsonG::Arr(Seq::empty()), k + 1))
                } else {
                    match parse_elems_g(s, j + 1, (d - 1) as nat) {
                        Some((es, m)) => Some((JsonG::Arr(es), m)),
                        None => None,
                    }
                }
            } else if c == 123 {  // '{'
                let k = skip_ws(s, j + 1);
                if j + 1 <= k && k < s.len() && s[k] == 125 {  // '}'
                    Some((JsonG::Obj(Seq::empty()), k + 1))
                } else {
                    match parse_members_g(s, j + 1, (d - 1) as nat) {
                        Some((ms, m)) => Some((JsonG::Obj(ms), m)),
                        None => None,
                    }
                }
            } else {
                None
            }
        }
    }
}

/// Parse the elements of an array, `i` pointing right after `[` or a
/// comma. On success, the elements and the position after the `]`.
pub open spec fn parse_elems_g(s: Seq<u8>, i: int, d: nat) -> Option<(Seq<JsonG>, int)>
    decreases d, s.len() - i, 1int,
    when 0 <= i <= s.len()
{
    match parse_value_g(s, i, d) {
        None => None,
        Some((g, j)) => {
            if !(i < j <= s.len()) {
                None
            } else {
                let k = skip_ws(s, j);
                if !(j <= k) || k >= s.len() {
                    None
                } else if s[k] == 44 {  // ','
                    match parse_elems_g(s, k + 1, d) {
                        Some((rest, m)) => Some((seq![g] + rest, m)),
                        None => None,
                    }
                } else if s[k] == 93 {  // ']'
                    Some((seq![g], k + 1))
                } else {
                    None
                }
            }
        },
    }
}

/// Parse the members of an object, `i` pointing right after `{` or a
/// comma. On success, the members in order and the position after `}`.
pub open spec fn parse_members_g(s: Seq<u8>, i: int, d: nat) -> Option<
    (Seq<(Seq<u8>, JsonG)>, int),
>
    decreases d, s.len() - i, 1int,
    when 0 <= i <= s.len()
{
    let j = skip_ws(s, i);
    if !(i <= j) || j >= s.len() || s[j] != 34 {
        None
    } else {
        match parse_string_g(s, j + 1) {
            None => None,
            Some((key, k)) => {
                if !(j + 1 < k <= s.len()) {
                    None
                } else {
                    let m = skip_ws(s, k);
                    if !(k <= m) || m >= s.len() || s[m] != 58 {  // ':'
                        None
                    } else {
                        match parse_value_g(s, m + 1, d) {
                            None => None,
                            Some((g, p)) => {
                                if !(m + 1 <= p <= s.len()) {
                                    None
                                } else {
                                    let q = skip_ws(s, p);
                                    if !(p <= q) || q >= s.len() {
                                        None
                                    } else if s[q] == 44 {  // ','
                                        match parse_members_g(s, q + 1, d) {
                                            Some((rest, e)) => Some((seq![(key, g)] + rest, e)),
                                            None => None,
                                        }
                                    } else if s[q] == 125 {  // '}'
                                        Some((seq![(key, g)], q + 1))
                                    } else {
                                        None
                                    }
                                }
                            },
                        }
                    }
                }
            },
        }
    }
}

/// The document `s` parses as exactly one value with nothing but
/// whitespace around it.
pub open spec fn spec_parse_json(s: Seq<u8>) -> Option<JsonG> {
    if s.len() == 0 {
        None
    } else {
        match parse_value_g(s, 0, MAX_DEPTH as nat) {
            Some((g, j)) => {
                if 0 <= j <= s.len() && skip_ws(s, j) == s.len() {
                    Some(g)
                } else {
                    None
                }
            },
            None => None,
        }
    }
}

} // verus!
