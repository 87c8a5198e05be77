//! The interactive loop's decisions.
//!
//! The loop itself lives outside the library — it reads lines and
//! performs one HTTP round trip per iteration. Everything it decides is
//! here: how a fetch outcome is turned into output for the console, and
//! whether an answer to the continuation prompt keeps the loop alive.
//! The loop has two states: it keeps prompting exactly while the
//! normalized answer is `yes`, and is done on any other answer.

use vstd::prelude::*;

use crate::bytes::{
    bs, bytes_eq, is_ws, lemma_skip_ws, lemma_ws_suffix, lit_bytes, lower_byte, lower_bytes,
    skip_ws, trim_bytes, ws_suffix_start,
};
use crate::present::{Color, format_report, spec_condition_color, spec_format};
use crate::report::{WeatherReport, copy_bytes};

verus! {

/// Remove surrounding ASCII whitespace.
pub fn trim_ascii(s: &[u8]) -> (r: Vec<u8>)
    ensures
        r@ == trim_bytes(s@),
{
    proof {
        lemma_skip_ws(s@, 0);
        lemma_ws_suffix(s@, s@.len() as int);
    }
    let mut a: usize = 0;
    while a < s.len() && (s[a] == 32 || s[a] == 9 || s[a] == 10 || s[a] == 13)
        invariant
            0 <= a <= s@.len(),
            skip_ws(s@, 0) == skip_ws(s@, a as int),
        decreases s@.len() - a,
    {
        a = a + 1;
    }
    if a == s.len() {
        let r: Vec<u8> = Vec::new();
        proof {
            assert(r@ =~= trim_bytes(s@));
        }
        return r;
    }
    let mut b: usize = s.len();
    while b > 0 && (s[b - 1] == 32 || s[b - 1] == 9 || s[b - 1] == 10 || s[b - 1] == 13)
        invariant
            0 <= b <= s@.len(),
            ws_suffix_start(s@, s@.len() as int) == ws_suffix_start(s@, b as int),
        decreases b,
    {
        b = b - 1;
    }
    proof {
        // the non-whitespace byte at `a` cannot lie in the trailing
        // whitespace run, so the bounds are ordered
        if b <= a {
            assert(is_ws(s@[a as int]));
        }
    }
    let mut out: Vec<u8> = Vec::new();
    let mut k = a;
    while k < b
        invariant
            a <= k <= b <= s@.len(),
            out@ == s@.subrange(a as int, k as int),
        decreases b - k,
    {
        out.push(s[k]);
        proof {
            assert(out@ =~= s@.subrange(a as int, k + 1));
        }
        k = k + 1;
    }
    proof {
        assert(out@ =~= trim_bytes(s@));
    }
    out
}

/// Lowercase the ASCII letters of a byte string.
pub fn to_lower_ascii(s: &[u8]) -> (r: Vec<u8>)
    ensures
        r@ == lower_bytes(s@),
{
    let mut out: Vec<u8> = Vec::new();
    let mut i: usize = 0;
    while i < s.len()
        invariant
            0 <= i <= s@.len(),
            out@.len() == i,
            forall|j: int| 0 <= j < i ==> out@[j] == lower_byte(#[trigger] s@[j]),
        decreases s@.len() - i,
    {
        let b = s[i];
        if 65 <= b && b <= 90 {
            out.push(b + 32);
        } else {
            out.push(b);
        }
        i = i + 1;
    }
    proof {
        assert(out@ =~= lower_bytes(s@));
    }
    out
}

/// The normalized form of an answer: trimmed, then ASCII-lowercased.
pub open spec fn normalize_answer(s: Seq<u8>) -> Seq<u8> {
    lower_bytes(trim_bytes(s))
}

/// True exactly when the normalized answer is the word `yes`.
pub fn wants_another(answer: &[u8]) -> (r: bool)
    ensures
        r == (normalize_answer(answer@) == bs("yes"@)),
{
    proof {
        reveal_strlit("yes");
    }
    let t = trim_ascii(answer);
    let l = to_lower_ascii(t.as_slice());
    bytes_eq(l.as_slice(), lit_bytes("yes"))
}

/// The loop's two states: asking for another city, or finished.
#[derive(Clone, Copy, Debug, PartialEq, Eq, Structural)]
pub enum DriverState {
    Prompting,
    Done,
}

/// The state after one continuation answer: prompting again exactly on
/// a normalized `yes`, done on anything else.
pub fn next_state(answer: &[u8]) -> (r: DriverState)
    ensures
        r == DriverState::Prompting <==> normalize_answer(answer@) == bs("yes"@),
        r == DriverState::Prompting || r == DriverState::Done,
{
    if wants_another(answer) {
        DriverState::Prompting
    } else {
        DriverState::Done
    }
}

/// What one query produced: a decoded report, or the text of the error
/// to surface.
pub enum FetchOutcome {
    Success(WeatherReport),
    Failure(Vec<u8>),
}

/// What the loop prints for one outcome: a colored report on standard
/// output, or a line on the error stream.
pub enum StepOutput {
    Display(Vec<u8>, Color),
    ReportError(Vec<u8>),
}

/// Turn one fetch outcome into console output: a successful report is
/// rendered and colored by its condition; a failure's text is passed
/// through for the error stream, and the loop goes on either way.
pub fn present_outcome(o: &FetchOutcome) -> (r: StepOutput)
    requires
        *o matches FetchOutcome::Success(rep) ==> rep@.wf(),
    ensures
        (*o matches FetchOutcome::Success(rep) ==> (r matches StepOutput::Display(t, c)
            && t@ == spec_format(rep@) && c == spec_condition_color(rep.description@))),
        (*o matches FetchOutcome::Failure(msg) ==> (r matches StepOutput::ReportError(m)
            && m@ == msg@)),
{
    match o {
        FetchOutcome::Success(rep) => {
            let text = format_report(rep);
            let color = crate::present::condition_color(rep.description.as_slice());
            StepOutput::Display(text, color)
        },
        FetchOutcome::Failure(msg) => StepOutput::ReportError(copy_bytes(msg)),
    }
}

} // verus!
