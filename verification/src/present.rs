//! Presentation: icon, color and the report template.
//!
//! Pure classification and rendering. The icon is a five-way
//! classification of the temperature in which the below-zero band and
//! the band up to ten degrees deliberately share the cold icon; the
//! color is an exact, case-sensitive match of the condition phrase
//! against fixed groups, everything else falling to the neutral color.
//! [`format_report`] renders the fixed multi-line template with every
//! number to one decimal place.

use vstd::prelude::*;

use crate::bytes::{append_bytes, bs, bytes_eq, lit_bytes};
use crate::decimal::{Decimal, fmt_decimal, fmt_decimal_x, lt_whole};
use crate::report::{ReportG, WeatherReport};

verus! {

/// The temperature icon.
#[derive(Clone, Copy, Debug, PartialEq, Eq, Structural)]
pub enum Icon {
    Cold,
    Mild,
    Warm,
    Hot,
}

/// The display color of a report.
#[derive(Clone, Copy, Debug, PartialEq, Eq, Structural)]
pub enum Color {
    BrightYellow,
    BrightBlue,
    Dimmed,
    BrightCyan,
    Normal,
}

/// Which icon a temperature belongs to: cold below ten degrees, mild
/// below twenty, warm below thirty, hot from thirty on.
pub open spec fn spec_icon(d: Decimal) -> Icon {
    if d.lt(10) {
        Icon::Cold
    } else if d.lt(20) {
        Icon::Mild
    } else if d.lt(30) {
        Icon::Warm
    } else {
        Icon::Hot
    }
}

/// The UTF-8 bytes of each icon.
pub open spec fn icon_seq(i: Icon) -> Seq<u8> {
    match i {
        Icon::Cold => seq![0xe2u8, 0x9du8, 0x84u8, 0xefu8, 0xb8u8, 0x8fu8],
        Icon::Mild => seq![0xe2u8, 0x9bu8, 0x85u8],
        Icon::Warm => seq![0xf0u8, 0x9fu8, 0x8cu8, 0xa4u8, 0xefu8, 0xb8u8, 0x8fu8],
        Icon::Hot => seq![0xf0u8, 0x9fu8, 0x94u8, 0xa5u8],
    }
}

/// Classify a temperature. The below-zero band and the band from zero
/// up to ten degrees are deliberately distinct cases that share the
/// cold icon; both tests are kept.
pub fn temperature_icon(t: &Decimal) -> (r: Icon)
    requires
        t.wf(),
    ensures
        r == spec_icon(*t),
{
    if t.neg && t.mantissa > 0 {
        Icon::Cold
    } else if lt_whole(t, 10) {
        Icon::Cold
    } else if lt_whole(t, 20) {
        Icon::Mild
    } else if lt_whole(t, 30) {
        Icon::Warm
    } else {
        Icon::Hot
    }
}

/// The temperature bands, stated once for every well-formed decimal:
/// every temperature below ten — of either sign — gets the cold icon,
/// the other bands follow at twenty and thirty, and each boundary
/// belongs to the band it opens.
pub proof fn lemma_temperature_bands(d: Decimal)
    requires
        d.wf(),
    ensures
        d.lt(10) ==> spec_icon(d) == Icon::Cold,
        d.neg ==> spec_icon(d) == Icon::Cold,
        !d.lt(10) && d.lt(20) ==> spec_icon(d) == Icon::Mild,
        !d.lt(20) && d.lt(30) ==> spec_icon(d) == Icon::Warm,
        !d.lt(30) ==> spec_icon(d) == Icon::Hot,
        !d.neg && d.mantissa == 0 ==> spec_icon(d) == Icon::Cold,
        !d.neg && d.mantissa == 10 * crate::decimal::pow10(d.scale as nat) ==> spec_icon(d)
            == Icon::Mild,
        !d.neg && d.mantissa == 20 * crate::decimal::pow10(d.scale as nat) ==> spec_icon(d)
            == Icon::Warm,
        !d.neg && d.mantissa == 30 * crate::decimal::pow10(d.scale as nat) ==> spec_icon(d)
            == Icon::Hot,
{
    crate::decimal::lemma_pow10_pos(d.scale as nat);
}

/// The UTF-8 bytes of an icon.
pub fn icon_bytes(i: Icon) -> (r: Vec<u8>)
    ensures
        r@ == icon_seq(i),
{
    let mut out: Vec<u8> = Vec::new();
    match i {
        Icon::Cold => {
            out.push(0xe2);
            out.push(0x9d);
            out.push(0x84);
            out.push(0xef);
            out.push(0xb8);
            out.push(0x8f);
        },
        Icon::Mild => {
            out.push(0xe2);
            out.push(0x9b);
            out.push(0x85);
        },
        Icon::Warm => {
            out.push(0xf0);
            out.push(0x9f);
            out.push(0x8c);
            out.push(0xa4);
            out.push(0xef);
            out.push(0xb8);
            out.push(0x8f);
        },
        Icon::Hot => {
            out.push(0xf0);
            out.push(0x9f);
            out.push(0x94);
            out.push(0xa5);
        },
    }
    proof {
        assert(out@ =~= icon_seq(i));
    }
    out
}

/// Which color a condition phrase gets: an exact, case-sensitive match
/// against the fixed groups, everything else the neutral color.
pub open spec fn spec_condition_color(d: Seq<u8>) -> Color {
    if d == bs("clear sky"@) {
        Color::BrightYellow
    } else if d == bs("few clouds"@) || d == bs("scattered clouds"@) || d == bs(
        "broken clouds"@,
    ) {
        Color::BrightBlue
    } else if d == bs("overcast clouds"@) || d == bs("mist"@) || d == bs("haze"@) || d == bs(
        "smoke"@,
    ) || d == bs("sand"@) || d == bs("dust"@) || d == bs("fog"@) || d == bs("squalls"@) {
        Color::Dimmed
    } else if d == bs("shower rain"@) || d == bs("rain"@) || d == bs("thunderstorm"@) || d == bs(
        "snow"@,
    ) {
        Color::BrightCyan
    } else {
        Color::Normal
    }
}

/// Outside the fixed groups everything gets the neutral color: a
/// phrase equal to none of the sixteen known condition strings — be it
/// unknown, differently cased, or padded — is displayed `Normal`.
pub proof fn lemma_default_color(d: Seq<u8>)
    requires
        d != bs("clear sky"@),
        d != bs("few clouds"@),
        d != bs("scattered clouds"@),
        d != bs("broken clouds"@),
        d != bs("overcast clouds"@),
        d != bs("mist"@),
        d != bs("haze"@),
        d != bs("smoke"@),
        d != bs("sand"@),
        d != bs("dust"@),
        d != bs("fog"@),
        d != bs("squalls"@),
        d != bs("shower rain"@),
        d != bs("rain"@),
        d != bs("thunderstorm"@),
        d != bs("snow"@),
    ensures
        spec_condition_color(d) == Color::Normal,
{
}

/// Pick the display color for a condition phrase.
pub fn condition_color(d: &[u8]) -> (r: Color)
    ensures
        r == spec_condition_color(d@),
{
    proof {
        reveal_strlit("clear sky");
        reveal_strlit("few clouds");
        reveal_strlit("scattered clouds");
        reveal_strlit("broken clouds");
        reveal_strlit("overcast clouds");
        reveal_strlit("mist");
        reveal_strlit("haze");
        reveal_strlit("smoke");
        reveal_strlit("sand");
        reveal_strlit("dust");
        reveal_strlit("fog");
        reveal_strlit("squalls");
        reveal_strlit("shower rain");
        reveal_strlit("rain");
        reveal_strlit("thunderstorm");
        reveal_strlit("snow");
    }
    if bytes_eq(d, lit_bytes("clear sky")) {
        Color::BrightYellow
    } else if bytes_eq(d, lit_bytes("few clouds")) || bytes_eq(d, lit_bytes("scattered clouds"))
        || bytes_eq(d, lit_bytes("broken clouds")) {
        Color::BrightBlue
    } else if bytes_eq(d, lit_bytes("overcast clouds")) || bytes_eq(d, lit_bytes("mist"))
        || bytes_eq(d, lit_bytes("haze")) || bytes_eq(d, lit_bytes("smoke")) || bytes_eq(
        d,
        lit_bytes("sand"),
    ) || bytes_eq(d, lit_bytes("dust")) || bytes_eq(d, lit_bytes("fog")) || bytes_eq(
        d,
        lit_bytes("squalls"),
    ) {
        Color::Dimmed
    } else if bytes_eq(d, lit_bytes("shower rain")) || bytes_eq(d, lit_bytes("rain")) || bytes_eq(
        d,
        lit_bytes("thunderstorm"),
    ) || bytes_eq(d, lit_bytes("snow")) {
        Color::BrightCyan
    } else {
        Color::Normal
    }
}

/// The full report template: location, condition, icon, then the four
/// metrics, each number to one decimal place.
pub open spec fn spec_format(g: ReportG) -> Seq<u8> {
    bs("Weather in "@) + g.name + bs(": "@) + g.description + bs(" "@) + icon_seq(
        spec_icon(g.temp),
    ) + bs("\n        > Temperature: "@) + fmt_decimal(g.temp) + bs(" "@) + seq![0xc2u8, 0xb0u8]
        + bs("C,\n        > Humidity: "@) + fmt_decimal(g.humidity) + bs(
        "%,\n        > Pressure: "@,
    ) + fmt_decimal(g.pressure) + bs(" hPa,\n        > Wind Speed: "@) + fmt_decimal(g.wind_speed)
        + bs(" m/s"@)
}

/// Render a report as the fixed template.
pub fn format_report(rep: &WeatherReport) -> (r: Vec<u8>)
    requires
        rep@.wf(),
    ensures
        r@ == spec_format(rep@),
{
    proof {
        reveal_strlit("Weather in ");
        reveal_strlit(": ");
        reveal_strlit(" ");
        reveal_strlit("\n        > Temperature: ");
        reveal_strlit("C,\n        > Humidity: ");
        reveal_strlit("%,\n        > Pressure: ");
        reveal_strlit(" hPa,\n        > Wind Speed: ");
        reveal_strlit(" m/s");
    }
    let mut out: Vec<u8> = Vec::new();
    append_bytes(&mut out, lit_bytes("Weather in "));
    append_bytes(&mut out, rep.name.as_slice());
    append_bytes(&mut out, lit_bytes(": "));
    append_bytes(&mut out, rep.description.as_slice());
    append_bytes(&mut out, lit_bytes(" "));
    let icon = icon_bytes(temperature_icon(&rep.temp));
    append_bytes(&mut out, icon.as_slice());
    append_bytes(&mut out, lit_bytes("\n        > Temperature: "));
    let t = fmt_decimal_x(&rep.temp);
    append_bytes(&mut out, t.as_slice());
    append_bytes(&mut out, lit_bytes(" "));
    out.push(0xc2);
    out.push(0xb0);
    append_bytes(&mut out, lit_bytes("C,\n        > Humidity: "));
    let h = fmt_decimal_x(&rep.humidity);
    append_bytes(&mut out, h.as_slice());
    append_bytes(&mut out, lit_bytes("%,\n        > Pressure: "));
    let p = fmt_decimal_x(&rep.pressure);
    append_bytes(&mut out, p.as_slice());
    append_bytes(&mut out, lit_bytes(" hPa,\n        > Wind Speed: "));
    let w = fmt_decimal_x(&rep.wind_speed);
    append_bytes(&mut out, w.as_slice());
    append_bytes(&mut out, lit_bytes(" m/s"));
    proof {
        assert(out@ =~= spec_format(rep@));
    }
    out
}

} // verus!
