//! A verified core for a small command-line weather client.
//!
//! The library decodes the weather service's JSON response into a
//! [`report::WeatherReport`], classifies the temperature into an icon,
//! picks a display color for the condition text, and renders the report
//! as a fixed multi-line template. All text is handled as UTF-8 bytes.

pub mod bytes;
pub mod decimal;
pub mod driver;
pub mod fetch;
pub mod json;
pub mod parse;
pub mod present;
pub mod report;
