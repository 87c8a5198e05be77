//! Building the query URL.
//!
//! One weather query is a single HTTP GET against the fixed endpoint,
//! with the city, the country code, metric units and the credential as
//! query parameters. The round trip itself is I/O and happens outside
//! the library; what is verified is the exact URL it uses. City and
//! country are inserted verbatim — trimmed, but not percent-encoded;
//! reserved URL characters in them remain an open question of the
//! design.

use vstd::prelude::*;

use crate::bytes::{append_bytes, bs, lit_bytes, trim_bytes};
use crate::driver::trim_ascii;

verus! {

/// One query as the user entered it, whitespace already trimmed.
#[derive(Clone, Debug, PartialEq, Eq)]
pub struct WeatherQuery {
    pub city: Vec<u8>,
    pub country_code: Vec<u8>,
}

impl WeatherQuery {
    /// Build a query from the two lines the user typed: each is
    /// trimmed of surrounding whitespace and otherwise kept verbatim.
    pub fn from_input(city_line: &[u8], country_line: &[u8]) -> (q: WeatherQuery)
        ensures
            q.city@ == trim_bytes(city_line@),
            q.country_code@ == trim_bytes(country_line@),
    {
        WeatherQuery { city: trim_ascii(city_line), country_code: trim_ascii(country_line) }
    }
}

/// The exact bytes of the query URL.
pub open spec fn spec_url(city: Seq<u8>, country: Seq<u8>, key: Seq<u8>) -> Seq<u8> {
    bs("http://api.openweathermap.org/data/2.5/weather?q="@) + city + bs(","@) + country + bs(
        "&units=metric&appid="@,
    ) + key
}

/// Build the URL for one query.
pub fn build_url(city: &[u8], country: &[u8], api_key: &[u8]) -> (r: Vec<u8>)
    ensures
        r@ == spec_url(city@, country@, api_key@),
{
    proof {
        reveal_strlit("http://api.openweathermap.org/data/2.5/weather?q=");
        reveal_strlit(",");
        reveal_strlit("&units=metric&appid=");
    }
    let mut out: Vec<u8> = Vec::new();
    append_bytes(&mut out, lit_bytes("http://api.openweathermap.org/data/2.5/weather?q="));
    append_bytes(&mut out, city);
    append_bytes(&mut out, lit_bytes(","));
    append_bytes(&mut out, country);
    append_bytes(&mut out, lit_bytes("&units=metric&appid="));
    append_bytes(&mut out, api_key);
    proof {
        assert(out@ =~= spec_url(city@, country@, api_key@));
    }
    out
}

/// The URL one query is sent to.
pub fn query_url(q: &WeatherQuery, api_key: &[u8]) -> (r: Vec<u8>)
    ensures
        r@ == spec_url(q.city@, q.country_code@, api_key@),
{
    build_url(q.city.as_slice(), q.country_code.as_slice(), api_key)
}

} // verus!
