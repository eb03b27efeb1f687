//! Text transforms between plain text, Base64 and form-urlencoding, and the
//! rules that decide which transform a request selects.

pub mod b64;
pub mod engine;
pub mod form;
pub mod request;
