//! The built-in tools: each one's decision logic, verified, with the calls
//! into outside crates behind trusted wrappers.

pub mod datetime;
pub mod web;
pub mod html;
pub mod fetch_url;
pub mod read_pdf;
pub mod browser;
pub mod js_eval;
pub mod python_eval;
pub mod web_search;
pub mod currency;
pub mod schema;
pub mod defs;
