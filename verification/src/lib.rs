//! A web search tool for agents: it queries DuckDuckGo or Brave and turns what
//! comes back into a plain-text report.
//!
//! The crate decides and computes; it does not fetch. [`session`] says what to ask for
//! and what to do with each answer, [`duckduckgo`], [`news`] and [`brave`] write the
//! requests and the reports. What holds of searches as a whole is stated in [`laws`], what
//! a report holds in [`report_laws`], what is asked for and answered in [`search_laws`].
//! Regular expressions are run by the crate `regex`, percent-encoding is done by the
//! crate `urlencoding`; [`patterns`] and [`encoding`] say what is relied on of them, and
//! [`text`] what is relied on of the standard library.

pub mod brave;
pub mod duckduckgo;
pub mod encoding;
pub mod error;
pub mod json;
pub mod laws;
pub mod news;
pub mod patterns;
pub mod report;
pub mod report_laws;
pub mod request;
pub mod search_laws;
pub mod session;
pub mod text;
pub mod tool;
