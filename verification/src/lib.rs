//! Relays oracle records from a source account into a caller-owned answer
//! account.
//!
//! A relay reads one record from the source bytes, maps its fields onto the
//! answer of the same schema and writes that answer over the destination in
//! place. The byte layouts ([`layout`]), the field mapping ([`mapper`]) and
//! the all-or-nothing update ([`relay`]) are verified.

pub mod answer;
pub mod error;
pub mod layout;
pub mod mapper;
pub mod relay;
pub mod source;
pub mod wire;

pub use answer::{Answer, AnswerRecord, CrossChainAnswer, SingleFeedAnswer};
pub use error::RelayError;
pub use layout::Variant;
pub use mapper::map_fields;
pub use relay::{process_instruction, relay, write_destination, Account};
pub use source::{read_source, AggregateFeed, Feed, Report, SourceRecord};
