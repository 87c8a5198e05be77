//! Weather reports and decoding them from the service's JSON.
//!
//! A successful query answers with a JSON object holding a `weather`
//! array (whose first entry carries the condition description), a `main`
//! object (temperature, humidity, pressure), a `wind` object (speed) and
//! the location `name`. [`decode_weather`] turns such a document into a
//! [`WeatherReport`], and fails — never returning a partial report — as
//! soon as the document is malformed or one required field is missing or
//! of the wrong kind. Fields the library does not use are ignored.

use vstd::prelude::*;

use crate::bytes::{append_bytes, bs, lit_bytes};
use crate::decimal::Decimal;
use crate::json::{
    Json, JsonG, lemma_wf_elems, lemma_wf_members, pairs_of, spec_parse_json, views_of, wf_json,
};
use crate::parse::parse_json;

verus! {

/// One successful weather query, ready for display. Numbers are exact
/// decimals in metric units: degrees Celsius, percent, hPa, m/s.
#[derive(Clone, Debug, PartialEq, Eq)]
pub struct WeatherReport {
    pub name: Vec<u8>,
    pub description: Vec<u8>,
    pub temp: Decimal,
    pub humidity: Decimal,
    pub pressure: Decimal,
    pub wind_speed: Decimal,
}

/// The ghost mirror of [`WeatherReport`].
pub struct ReportG {
    pub name: Seq<u8>,
    pub description: Seq<u8>,
    pub temp: Decimal,
    pub humidity: Decimal,
    pub pressure: Decimal,
    pub wind_speed: Decimal,
}

impl View for WeatherReport {
    type V = ReportG;

    open spec fn view(&self) -> ReportG {
        ReportG {
            name: self.name@,
            description: self.description@,
            temp: self.temp,
            humidity: self.humidity,
            pressure: self.pressure,
            wind_speed: self.wind_speed,
        }
    }
}

impl ReportG {
    /// All four numbers are well-formed decimals.
    pub open spec fn wf(self) -> bool {
        self.temp.wf() && self.humidity.wf() && self.pressure.wf() && self.wind_speed.wf()
    }
}

impl WeatherReport {
    /// Whether the report's numbers are within the bounds every
    /// well-formed decimal obeys; true of every decoded report.
    pub fn is_wf(&self) -> (r: bool)
        ensures
            r == self@.wf(),
    {
        self.temp.mantissa <= crate::decimal::MANTISSA_MAX && self.temp.scale
            <= crate::decimal::MAX_SCALE && self.humidity.mantissa <= crate::decimal::MANTISSA_MAX
            && self.humidity.scale <= crate::decimal::MAX_SCALE && self.pressure.mantissa
            <= crate::decimal::MANTISSA_MAX && self.pressure.scale <= crate::decimal::MAX_SCALE
            && self.wind_speed.mantissa <= crate::decimal::MANTISSA_MAX && self.wind_speed.scale
            <= crate::decimal::MAX_SCALE
    }
}

/// The value under the first member named `k`, if any.
pub open spec fn obj_get(ms: Seq<(Seq<u8>, JsonG)>, k: Seq<u8>) -> Option<JsonG>
    decreases ms.len(),
{
    if ms.len() == 0 {
        None
    } else if ms[0].0 == k {
        Some(ms[0].1)
    } else {
        obj_get(ms.skip(1), k)
    }
}

/// What `obj_get` finds is one of the member values.
pub proof fn lemma_obj_get_some(ms: Seq<(Seq<u8>, JsonG)>, k: Seq<u8>)
    ensures
        obj_get(ms, k) matches Some(v) ==> exists|i: int|
            0 <= i < ms.len() && #[trigger] ms[i].1 == v,
    decreases ms.len(),
{
    if ms.len() > 0 && !(ms[0].0 == k) {
        lemma_obj_get_some(ms.skip(1), k);
        if obj_get(ms, k) is Some {
            let v = obj_get(ms, k)->Some_0;
            let i = choose|i: int| 0 <= i < ms.skip(1).len() && #[trigger] ms.skip(1)[i].1 == v;
            assert(ms[i + 1].1 == v);
        }
    }
}

/// A value found in a well-formed object is well-formed.
pub proof fn lemma_obj_get_wf(ms: Seq<(Seq<u8>, JsonG)>, k: Seq<u8>)
    requires
        wf_json(JsonG::Obj(ms)),
    ensures
        obj_get(ms, k) matches Some(v) ==> wf_json(v),
{
    lemma_obj_get_some(ms, k);
    lemma_wf_members(ms, 0);
}

/// The number under `ms.outer.key`, if the path leads to one.
pub open spec fn num_field(ms: Seq<(Seq<u8>, JsonG)>, outer: Seq<u8>, key: Seq<u8>) -> Option<
    Decimal,
> {
    match obj_get(ms, outer) {
        Some(JsonG::Obj(inner)) => match obj_get(inner, key) {
            Some(JsonG::Num(d)) => Some(d),
            _ => None,
        },
        _ => None,
    }
}

/// The description of the first entry of the `weather` array, if any.
pub open spec fn spec_description_of(ms: Seq<(Seq<u8>, JsonG)>) -> Option<Seq<u8>> {
    match obj_get(ms, bs("weather"@)) {
        Some(JsonG::Arr(es)) => if es.len() > 0 {
            match es[0] {
                JsonG::Obj(w0) => match obj_get(w0, bs("description"@)) {
                    Some(JsonG::Str(d)) => Some(d),
                    _ => None,
                },
                _ => None,
            }
        } else {
            None
        },
        _ => None,
    }
}

/// The report a decoded JSON value denotes: every required field present
/// and of the right kind, or nothing.
pub open spec fn spec_report_of(g: JsonG) -> Option<ReportG> {
    match g {
        JsonG::Obj(ms) => {
            let desc = spec_description_of(ms);
            let nm = obj_get(ms, bs("name"@));
            let t = num_field(ms, bs("main"@), bs("temp"@));
            let h = num_field(ms, bs("main"@), bs("humidity"@));
            let p = num_field(ms, bs("main"@), bs("pressure"@));
            let w = num_field(ms, bs("wind"@), bs("speed"@));
            if desc is Some && (nm matches Some(JsonG::Str(_))) && t is Some && h is Some && p
                is Some && w is Some {
                Some(
                    ReportG {
                        name: nm->Some_0->Str_0,
                        description: desc->Some_0,
                        temp: t->Some_0,
                        humidity: h->Some_0,
                        pressure: p->Some_0,
                        wind_speed: w->Some_0,
                    },
                )
            } else {
                None
            }
        },
        _ => None,
    }
}

/// Why a response failed to decode.
#[derive(Clone, Copy, Debug, PartialEq, Eq, Structural)]
pub enum DecodeError {
    /// The bytes are not a JSON document of the accepted grammar.
    Syntax,
    /// The document parses, but does not have the response's shape.
    Shape,
}

/// What decoding a byte string yields.
pub open spec fn spec_decode(s: Seq<u8>) -> Result<ReportG, DecodeError> {
    match spec_parse_json(s) {
        None => Err(DecodeError::Syntax),
        Some(g) => match spec_report_of(g) {
            Some(r) => Ok(r),
            None => Err(DecodeError::Shape),
        },
    }
}

/// Look a key up among an object's members.
fn obj_get_x<'a>(ms: &'a Vec<(Vec<u8>, Json)>, k: &[u8]) -> (r: Option<&'a Json>)
    ensures
        match r {
            Some(v) => obj_get(pairs_of(*ms), k@) == Some(v@),
            None => obj_get(pairs_of(*ms), k@) is None,
        },
{
    let ghost pairs = pairs_of(*ms);
    let mut i: usize = 0;
    proof {
        assert(pairs.skip(0) =~= pairs);
    }
    while i < ms.len()
        invariant
            0 <= i <= ms@.len(),
            pairs == pairs_of(*ms),
            obj_get(pairs, k@) == obj_get(pairs.skip(i as int), k@),
        decreases ms@.len() - i,
    {
        proof {
            assert(pairs.skip(i as int)[0] == pairs[i as int]);
        }
        if crate::bytes::bytes_eq(ms[i].0.as_slice(), k) {
            return Some(&ms[i].1);
        }
        proof {
            assert(pairs.skip(i as int).skip(1) =~= pairs.skip(i as int + 1));
        }
        i = i + 1;
    }
    None
}

/// Copy a byte string.
pub(crate) fn copy_bytes(src: &Vec<u8>) -> (r: Vec<u8>)
    ensures
        r@ == src@,
{
    let mut out: Vec<u8> = Vec::new();
    append_bytes(&mut out, src.as_slice());
    out
}

/// Fetch the number under `ms.outer.key`, as [`num_field`].
fn num_field_x(ms: &Vec<(Vec<u8>, Json)>, outer: &[u8], key: &[u8]) -> (r: Option<Decimal>)
    requires
        wf_json(JsonG::Obj(pairs_of(*ms))),
    ensures
        r == num_field(pairs_of(*ms), outer@, key@),
        r matches Some(d) ==> d.wf(),
{
    match obj_get_x(ms, outer) {
        Some(v) => match v {
            Json::Obj(inner) => {
                proof {
                    lemma_obj_get_wf(pairs_of(*ms), outer@);
                }
                match obj_get_x(inner, key) {
                    Some(n) => match n {
                        Json::Num(d) => {
                            proof {
                                lemma_obj_get_wf(pairs_of(*inner), key@);
                            }
                            Some(*d)
                        },
                        _ => None,
                    },
                    None => None,
                }
            },
            _ => None,
        },
        None => None,
    }
}

/// Extract the report from a parsed document, as [`spec_report_of`].
fn report_of_x(j: &Json) -> (r: Option<WeatherReport>)
    requires
        wf_json(j@),
    ensures
        match r {
            Some(rep) => spec_report_of(j@) == Some(rep@) && rep@.wf(),
            None => spec_report_of(j@) is None,
        },
{
    let ms = match j {
        Json::Obj(ms) => ms,
        _ => {
            return None;
        },
    };
    proof {
        reveal_strlit("weather");
        reveal_strlit("description");
        reveal_strlit("name");
        reveal_strlit("main");
        reveal_strlit("temp");
        reveal_strlit("humidity");
        reveal_strlit("pressure");
        reveal_strlit("wind");
        reveal_strlit("speed");
    }
    let description: Vec<u8> = match obj_get_x(ms, lit_bytes("weather")) {
        Some(w) => match w {
            Json::Arr(es) => {
                if es.len() > 0 {
                    proof {
                        lemma_obj_get_wf(pairs_of(*ms), bs("weather"@));
                        lemma_wf_elems(views_of(*es), 0);
                    }
                    match &es[0] {
                        Json::Obj(w0) => match obj_get_x(w0, lit_bytes("description")) {
                            Some(d) => match d {
                                Json::Str(dv) => copy_bytes(dv),
                                _ => {
                                    return None;
                                },
                            },
                            None => {
                                return None;
                            },
                        },
                        _ => {
                            return None;
                        },
                    }
                } else {
                    return None;
                }
            },
            _ => {
                return None;
            },
        },
        None => {
            return None;
        },
    };
    let name: Vec<u8> = match obj_get_x(ms, lit_bytes("name")) {
        Some(n) => match n {
            Json::Str(nv) => copy_bytes(nv),
            _ => {
                return None;
            },
        },
        None => {
            return None;
        },
    };
    let temp = match num_field_x(ms, lit_bytes("main"), lit_bytes("temp")) {
        Some(d) => d,
        None => {
            return None;
        },
    };
    let humidity = match num_field_x(ms, lit_bytes("main"), lit_bytes("humidity")) {
        Some(d) => d,
        None => {
            return None;
        },
    };
    let pressure = match num_field_x(ms, lit_bytes("main"), lit_bytes("pressure")) {
        Some(d) => d,
        None => {
            return None;
        },
    };
    let wind_speed = match num_field_x(ms, lit_bytes("wind"), lit_bytes("speed")) {
        Some(d) => d,
        None => {
            return None;
        },
    };
    Some(WeatherReport { name, description, temp, humidity, pressure, wind_speed })
}

/// Decode one API response.
///
/// Succeeds exactly on the byte strings [`spec_decode`] maps to a
/// report, and then returns that report, well-formed; reports a syntax
/// error exactly on bytes outside the JSON grammar, and a shape error
/// exactly on documents that parse but lack a required field or hold it
/// with the wrong kind.
pub fn decode_weather(s: &[u8]) -> (r: Result<WeatherReport, DecodeError>)
    ensures
        match r {
            Ok(rep) => spec_decode(s@) == Ok::<ReportG, DecodeError>(rep@) && rep@.wf(),
            Err(e) => spec_decode(s@) == Err::<ReportG, DecodeError>(e),
        },
{
    match parse_json(s) {
        None => Err(DecodeError::Syntax),
        Some(j) => match report_of_x(&j) {
            Some(rep) => Ok(rep),
            None => Err(DecodeError::Shape),
        },
    }
}

/// A short description of a decode error, for the error stream.
pub fn decode_error_text(e: &DecodeError) -> (r: Vec<u8>)
    ensures
        *e == DecodeError::Syntax ==> r@ == bs("malformed weather response"@),
        *e == DecodeError::Shape ==> r@ == bs("unexpected shape of weather response"@),
{
    proof {
        reveal_strlit("malformed weather response");
        reveal_strlit("unexpected shape of weather response");
    }
    let mut out: Vec<u8> = Vec::new();
    match e {
        DecodeError::Syntax => append_bytes(&mut out, lit_bytes("malformed weather response")),
        DecodeError::Shape => append_bytes(
            &mut out,
            lit_bytes("unexpected shape of weather response"),
        ),
    }
    out
}

} // verus!
