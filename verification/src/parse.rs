//! The executable JSON parser.
//!
//! Each function here mirrors one specification-level parsing function
//! from [`crate::json`] and is proved to return exactly what that
//! function says: [`parse_json`] accepts a byte string if and only if
//! [`crate::json::spec_parse_json`] does, and then returns the same
//! value.

use vstd::prelude::*;

use crate::decimal::{Decimal, MANTISSA_MAX, MAX_SCALE, pow10};
use crate::bytes::skip_ws;
use crate::json::{
    Json, JsonG, MAX_DEPTH, digits_end, digits_value, esc_byte, is_digit, lemma_acc_ge,
    lemma_digits_end, pairs_of, parse_elems_g, parse_members_g, parse_number_g, parse_string_g,
    parse_value_g, spec_parse_json, view_json, views_of, wf_json,
};

verus! {

/// ASCII whitespace test, as [`crate::bytes::is_ws`].
fn is_ws_x(b: u8) -> (r: bool)
    ensures
        r == crate::bytes::is_ws(b),
{
    b == 32 || b == 9 || b == 10 || b == 13
}

/// Move past ASCII whitespace, as [`skip_ws`].
fn skip_ws_x(s: &[u8], i: usize) -> (r: usize)
    requires
        i <= s@.len(),
    ensures
        r as int == skip_ws(s@, i as int),
        i <= r <= s@.len(),
{
    let mut j = i;
    while j < s.len() && is_ws_x(s[j])
        invariant
            i <= j <= s@.len(),
            skip_ws(s@, i as int) == skip_ws(s@, j as int),
        decreases s@.len() - j,
    {
        j = j + 1;
    }
    j
}

/// Move past ASCII digits, as [`digits_end`].
fn digits_end_x(s: &[u8], i: usize) -> (r: usize)
    requires
        i <= s@.len(),
    ensures
        r as int == digits_end(s@, i as int),
        i <= r <= s@.len(),
{
    let mut j = i;
    while j < s.len() && 48 <= s[j] && s[j] <= 57
        invariant
            i <= j <= s@.len(),
            digits_end(s@, i as int) == digits_end(s@, j as int),
        decreases s@.len() - j,
    {
        j = j + 1;
    }
    j
}

/// Accumulate the digits `s[i..j)` onto `start`, refusing a mantissa
/// beyond [`MANTISSA_MAX`].
fn digits_val_from(s: &[u8], i: usize, j: usize, start: u64) -> (r: Option<u64>)
    requires
        i <= j <= s@.len(),
        start <= MANTISSA_MAX,
        forall|k: int| i <= k < j ==> is_digit(#[trigger] s@[k]),
    ensures
        match r {
            Some(m) => m as nat == start * pow10((j - i) as nat) + digits_value(
                s@,
                i as int,
                j as int,
            ) && m <= MANTISSA_MAX,
            None => start * pow10((j - i) as nat) + digits_value(s@, i as int, j as int)
                > MANTISSA_MAX,
        },
{
    let mut m = start;
    let mut k = i;
    proof {
        assert(pow10(0) == 1);
        assert(start * 1 == start) by (nonlinear_arith);
    }
    while k < j
        invariant
            i <= k <= j <= s@.len(),
            m <= MANTISSA_MAX,
            m as nat == start * pow10((k - i) as nat) + digits_value(s@, i as int, k as int),
            forall|k2: int| i <= k2 < j ==> is_digit(#[trigger] s@[k2]),
        decreases j - k,
    {
        let d = s[k] - 48;
        let m2 = m * 10 + d as u64;
        proof {
            let a = start as nat;
            let p = pow10((k - i) as nat);
            let v = digits_value(s@, i as int, k as int);
            assert(pow10((k + 1 - i) as nat) == 10 * p);
            assert(digits_value(s@, i as int, k + 1) == v * 10 + (s@[k as int] - 48));
            assert((a * p + v) * 10 == a * (10 * p) + v * 10) by (nonlinear_arith);
        }
        if m2 > MANTISSA_MAX {
            proof {
                lemma_acc_ge(s@, i as int, k + 1, j as int, start as nat);
            }
            return None;
        }
        m = m2;
        k = k + 1;
    }
    Some(m)
}

/// Parse a number, as [`parse_number_g`].
fn parse_number_x(s: &[u8], i: usize) -> (r: Option<(Decimal, usize)>)
    requires
        i <= s@.len(),
    ensures
        match r {
            Some((n, j)) => parse_number_g(s@, i as int) == Some((n, j as int)) && i < j <= s@.len()
                && n.wf(),
            None => parse_number_g(s@, i as int) is None,
        },
{
    let neg = i < s.len() && s[i] == 45;
    let i0 = if neg {
        i + 1
    } else {
        i
    };
    let ie = digits_end_x(s, i0);
    proof {
        lemma_digits_end(s@, i0 as int);
    }
    if ie == i0 {
        return None;
    }
    if s[i0] == 48 && ie > i0 + 1 {
        return None;
    }
    if ie < s.len() && s[ie] == 46 {
        let fe = digits_end_x(s, ie + 1);
        proof {
            lemma_digits_end(s@, ie + 1);
        }
        if fe == ie + 1 {
            return None;
        }
        let scale = fe - (ie + 1);
        let m1 = match digits_val_from(s, i0, ie, 0) {
            Some(m1) => m1,
            None => {
                proof {
                    let dv = digits_value(s@, i0 as int, ie as int);
                    let p = pow10(scale as nat);
                    crate::decimal::lemma_pow10_pos(scale as nat);
                    assert(dv * p >= dv) by (nonlinear_arith)
                        requires
                            p >= 1,
                            dv >= 0,
                    ;
                }
                return None;
            },
        };
        if scale > MAX_SCALE as usize {
            return None;
        }
        match digits_val_from(s, ie + 1, fe, m1) {
            Some(m) => Some((Decimal { neg, mantissa: m, scale: scale as u8 }, fe)),
            None => None,
        }
    } else {
        match digits_val_from(s, i0, ie, 0) {
            Some(m) => Some((Decimal { neg, mantissa: m, scale: 0u8 }, ie)),
            None => None,
        }
    }
}

/// What a single-character escape stands for, as [`esc_byte`].
fn esc_byte_x(b: u8) -> (r: Option<u8>)
    ensures
        r == esc_byte(b),
{
    if b == 34 {
        Some(34)
    } else if b == 92 {
        Some(92)
    } else if b == 47 {
        Some(47)
    } else if b == 98 {
        Some(8)
    } else if b == 102 {
        Some(12)
    } else if b == 110 {
        Some(10)
    } else if b == 114 {
        Some(13)
    } else if b == 116 {
        Some(9)
    } else {
        None
    }
}

/// Parse a string body, as [`parse_string_g`].
fn parse_string_x(s: &[u8], i: usize) -> (r: Option<(Vec<u8>, usize)>)
    requires
        i <= s@.len(),
    ensures
        match r {
            Some((t, j)) => parse_string_g(s@, i as int) == Some((t@, j as int)) && i < j
                <= s@.len(),
            None => parse_string_g(s@, i as int) is None,
        },
    decreases s@.len() - i,
{
    if i >= s.len() {
        return None;
    }
    let c = s[i];
    if c == 34 {
        let t: Vec<u8> = Vec::new();
        proof {
            assert(t@ =~= Seq::<u8>::empty());
        }
        Some((t, i + 1))
    } else if c == 92 {
        if i + 1 < s.len() {
            match esc_byte_x(s[i + 1]) {
                Some(b) => match parse_string_x(s, i + 2) {
                    Some((rest, j)) => {
                        let mut t: Vec<u8> = Vec::new();
                        t.push(b);
                        let mut rest = rest;
                        t.append(&mut rest);
                        proof {
                            assert(t@ =~= seq![b] + parse_string_g(s@, i + 2)->Some_0.0);
                        }
                        Some((t, j))
                    },
                    None => None,
                },
                None => None,
            }
        } else {
            None
        }
    } else if c < 32 {
        None
    } else {
        match parse_string_x(s, i + 1) {
            Some((rest, j)) => {
                let mut t: Vec<u8> = Vec::new();
                t.push(c);
                let mut rest = rest;
                t.append(&mut rest);
                proof {
                    assert(t@ =~= seq![c] + parse_string_g(s@, i + 1)->Some_0.0);
                }
                Some((t, j))
            },
            None => None,
        }
    }
}

/// Parse one value, as [`parse_value_g`].
fn parse_value_x(s: &[u8], i: usize, d: u32) -> (r: Option<(Json, usize)>)
    requires
        i <= s@.len(),
    ensures
        match r {
            Some((g, j)) => parse_value_g(s@, i as int, d as nat) == Some((g@, j as int)) && i < j
                <= s@.len() && wf_json(g@),
            None => parse_value_g(s@, i as int, d as nat) is None,
        },
    decreases d, s@.len() - i, 0int,
{
    if d == 0 {
        return None;
    }
    let j = skip_ws_x(s, i);
    if j >= s.len() {
        return None;
    }
    let c = s[j];
    if c == 110 {  // 'n'
        if s.len() - j >= 4 && s[j + 1] == 117 && s[j + 2] == 108 && s[j + 3] == 108 {
            Some((Json::Null, j + 4))
        } else {
            None
        }
    } else if c == 116 {  // 't'
        if s.len() - j >= 4 && s[j + 1] == 114 && s[j + 2] == 117 && s[j + 3] == 101 {
            Some((Json::Bool(true), j + 4))
        } else {
            None
        }
    } else if c == 102 {  // 'f'
        if s.len() - j >= 5 && s[j + 1] == 97 && s[j + 2] == 108 && s[j + 3] == 115 && s[j + 4]
            == 101 {
            Some((Json::Bool(false), j + 5))
        } else {
            None
        }
    } else if c == 34 {  // '"'
        match parse_string_x(s, j + 1) {
            Some((t, k)) => Some((Json::Str(t), k)),
            None => None,
        }
    } else if c == 45 || (48 <= c && c <= 57) {
        match parse_number_x(s, j) {
            Some((n, k)) => Some((Json::Num(n), k)),
            None => None,
        }
    } else if c == 91 {  // '['
        let k = skip_ws_x(s, j + 1);
        if k < s.len() && s[k] == 93 {  // ']'
            let v: Vec<Json> = Vec::new();
            proof {
                assert(views_of(v) =~= Seq::<JsonG>::empty());
            }
            Some((Json::Arr(v), k + 1))
        } else {
            match parse_elems_x(s, j + 1, d - 1) {
                Some((vs, m)) => Some((Json::Arr(vs), m)),
                None => None,
            }
        }
    } else if c == 123 {  // '{'
        let k = skip_ws_x(s, j + 1);
        if k < s.len() && s[k] == 125 {  // '}'
            let v: Vec<(Vec<u8>, Json)> = Vec::new();
            proof {
                assert(pairs_of(v) =~= Seq::<(Seq<u8>, JsonG)>::empty());
            }
            Some((Json::Obj(v), k + 1))
        } else {
            match parse_members_x(s, j + 1, d - 1) {
                Some((ms, m)) => Some((Json::Obj(ms), m)),
                None => None,
            }
        }
    } else {
        None
    }
}

/// Parse array elements, as [`parse_elems_g`].
fn parse_elems_x(s: &[u8], i: usize, d: u32) -> (r: Option<(Vec<Json>, usize)>)
    requires
        i <= s@.len(),
    ensures
        match r {
            Some((vs, m)) => parse_elems_g(s@, i as int, d as nat) == Some(
                (views_of(vs), m as int),
            ) && i < m <= s@.len() && wf_json(JsonG::Arr(views_of(vs))),
            None => parse_elems_g(s@, i as int, d as nat) is None,
        },
    decreases d, s@.len() - i, 1int,
{
    match parse_value_x(s, i, d) {
        None => None,
        Some((g, j)) => {
            let k = skip_ws_x(s, j);
            if k >= s.len() {
                None
            } else if s[k] == 44 {  // ','
                match parse_elems_x(s, k + 1, d) {
                    Some((rest, m)) => {
                        let mut vs: Vec<Json> = Vec::new();
                        vs.push(g);
                        let mut rest = rest;
                        let ghost rest_views = views_of(rest);
                        vs.append(&mut rest);
                        proof {
                            assert(views_of(vs) =~= seq![g@] + rest_views);
                            crate::json::lemma_wf_cons(g@, rest_views);
                        }
                        Some((vs, m))
                    },
                    None => None,
                }
            } else if s[k] == 93 {  // ']'
                let mut vs: Vec<Json> = Vec::new();
                vs.push(g);
                proof {
                    assert(views_of(vs) =~= seq![g@] + Seq::<JsonG>::empty());
                    crate::json::lemma_wf_cons(g@, Seq::empty());
                }
                Some((vs, k + 1))
            } else {
                None
            }
        },
    }
}

/// Parse object members, as [`parse_members_g`].
fn parse_members_x(s: &[u8], i: usize, d: u32) -> (r: Option<(Vec<(Vec<u8>, Json)>, usize)>)
    requires
        i <= s@.len(),
    ensures
        match r {
            Some((ms, m)) => parse_members_g(s@, i as int, d as nat) == Some(
                (pairs_of(ms), m as int),
            ) && i < m <= s@.len() && wf_json(JsonG::Obj(pairs_of(ms))),
            None => parse_members_g(s@, i as int, d as nat) is None,
        },
    decreases d, s@.len() - i, 1int,
{
    let j = skip_ws_x(s, i);
    if j >= s.len() {
        return None;
    }
    if s[j] != 34 {
        return None;
    }
    match parse_string_x(s, j + 1) {
        None => None,
        Some((key, k)) => {
            let m = skip_ws_x(s, k);
            if m >= s.len() {
                return None;
            }
            if s[m] != 58 {  // ':'
                return None;
            }
            match parse_value_x(s, m + 1, d) {
                None => None,
                Some((g, p)) => {
                    let q = skip_ws_x(s, p);
                    if q >= s.len() {
                        None
                    } else if s[q] == 44 {  // ','
                        match parse_members_x(s, q + 1, d) {
                            Some((rest, e)) => {
                                let mut ms: Vec<(Vec<u8>, Json)> = Vec::new();
                                let ghost keyv = key@;
                                ms.push((key, g));
                                let mut rest = rest;
                                let ghost rest_pairs = pairs_of(rest);
                                ms.append(&mut rest);
                                proof {
                                    assert(pairs_of(ms) =~= seq![(keyv, g@)] + rest_pairs);
                                    crate::json::lemma_wf_cons_member(keyv, g@, rest_pairs);
                                }
                                Some((ms, e))
                            },
                            None => None,
                        }
                    } else if s[q] == 125 {  // '}'
                        let mut ms: Vec<(Vec<u8>, Json)> = Vec::new();
                        let ghost keyv = key@;
                        ms.push((key, g));
                        proof {
                            assert(pairs_of(ms) =~= seq![(keyv, g@)] + Seq::<(Seq<u8>, JsonG)>::empty());
                            crate::json::lemma_wf_cons_member(keyv, g@, Seq::empty());
                        }
                        Some((ms, q + 1))
                    } else {
                        None
                    }
                },
            }
        },
    }
}

/// Parse a whole document: one value, surrounded only by whitespace.
///
/// Returns the parsed value exactly when [`spec_parse_json`] accepts the
/// bytes, and `None` exactly when it does not.
pub fn parse_json(s: &[u8]) -> (r: Option<Json>)
    ensures
        match r {
            Some(j) => spec_parse_json(s@) == Some(j@) && wf_json(j@),
            None => spec_parse_json(s@) is None,
        },
{
    if s.len() == 0 {
        return None;
    }
    match parse_value_x(s, 0, MAX_DEPTH) {
        Some((g, j)) => {
            let e = skip_ws_x(s, j);
            if e == s.len() {
                Some(g)
            } else {
                None
            }
        },
        None => None,
    }
}

} // verus!
