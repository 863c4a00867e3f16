//! Configuration resolution for a clustered message-delivery node.
//!
//! Operators write settings into a properties file and may add to them
//! through one environment variable. This library turns that text into a
//! typed, validated settings tree:
//!
//! - `utils::time` holds durations, duration sequences and the grammar that
//!   denotes them (`30m`, `[5m, 5m, 1h]`);
//! - `ctx::properties` decodes properties text into a map of raw values;
//! - `ctx::rules` names the settings and the rules by which their values are
//!   decoded;
//! - `ctx::config` holds the settings tree, builds it from decoded
//!   properties and merges two trees so that the first keeps every field it
//!   has set.
//!
//! Every function is specified against a mathematical model of its data and
//! proved to meet that specification. One fact about the standard library
//! is taken on trust and marked as such: what `String::push` does.

pub mod ctx;
pub mod utils;
