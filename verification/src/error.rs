//! Error type returned by the `CFR-Atlas` core.
//!
//! Configuration, dimension, page, backend, capacity and numeric failures are
//! kept explicit so that integrations can react to each one.

use vstd::prelude::*;
use vstd::string::StringExecFns;
use crate::page::PageKey;
use crate::text::{decimal_spec, push_decimal};

verus! {

/// Error type returned by `CFR-Atlas` operations.
#[derive(Debug, Clone, PartialEq, Eq)]
pub enum CfrError {
    /// Static invalid configuration.
    InvalidConfig(&'static str),
    /// Runtime dimension mismatch.
    Dimension {
        /// Name of the checked value.
        name: &'static str,
        /// Expected length.
        expected: usize,
        /// Actual length.
        got: usize,
    },
    /// A size computation overflowed before allocation or indexing.
    CapacityOverflow {
        /// Name of the computation that overflowed.
        name: &'static str,
    },
    /// Invalid page identity or page shape.
    InvalidPage {
        /// Page that failed validation.
        key: PageKey,
        /// Human-readable reason.
        message: &'static str,
    },
    /// Invalid token ledger operation.
    InvalidLedger(&'static str),
    /// Invalid attention topology or head mapping.
    InvalidTopology(&'static str),
    /// Backend regeneration failed.
    Regenerator(String),
    /// Numeric failure in attention reduction.
    Numeric(&'static str),
}

/// How a page key is shown in messages: its fields by name.
pub open spec fn page_key_text(key: PageKey) -> Seq<char> {
    "PageKey { layer: "@ + decimal_spec(key.layer as nat) + ", head: "@ + decimal_spec(
        key.head as nat,
    ) + ", start_token: "@ + decimal_spec(key.start_token as nat) + " }"@
}

/// The human-readable description of an error.
pub open spec fn error_text(e: CfrError) -> Seq<char> {
    match e {
        CfrError::InvalidConfig(msg) => "invalid CFR-Atlas config: "@ + msg@,
        CfrError::Dimension { name, expected, got } => "dimension mismatch for "@ + name@
            + ": expected "@ + decimal_spec(expected as nat) + ", got "@ + decimal_spec(got as nat),
        CfrError::CapacityOverflow { name } => "capacity overflow while computing "@ + name@,
        CfrError::InvalidPage { key, message } => "invalid page "@ + page_key_text(key) + ": "@
            + message@,
        CfrError::InvalidLedger(msg) => "invalid token ledger: "@ + msg@,
        CfrError::InvalidTopology(msg) => "invalid attention topology: "@ + msg@,
        CfrError::Regenerator(msg) => "KV regeneration failed: "@ + msg@,
        CfrError::Numeric(msg) => "numeric failure: "@ + msg@,
    }
}

fn push_page_key(out: &mut String, key: PageKey)
    ensures
        final(out)@ == old(out)@ + page_key_text(key),
{
    out.append("PageKey { layer: ");
    push_decimal(out, key.layer as u64);
    out.append(", head: ");
    push_decimal(out, key.head as u64);
    out.append(", start_token: ");
    push_decimal(out, key.start_token as u64);
    out.append(" }");
    assert(final(out)@ =~= old(out)@ + page_key_text(key));
}

impl CfrError {
    /// Human-readable description of the error.
    pub fn describe(&self) -> (text: String)
        ensures
            text@ == error_text(*self),
    {
        match self {
            CfrError::InvalidConfig(msg) => {
                let mut s = String::from_str("invalid CFR-Atlas config: ");
                s.append(msg);
                s
            },
            CfrError::Dimension { name, expected, got } => {
                let mut s = String::from_str("dimension mismatch for ");
                s.append(name);
                s.append(": expected ");
                push_decimal(&mut s, *expected as u64);
                s.append(", got ");
                push_decimal(&mut s, *got as u64);
                s
            },
            CfrError::CapacityOverflow { name } => {
                let mut s = String::from_str("capacity overflow while computing ");
                s.append(name);
                s
            },
            CfrError::InvalidPage { key, message } => {
                let mut s = String::from_str("invalid page ");
                push_page_key(&mut s, *key);
                s.append(": ");
                s.append(message);
                s
            },
            CfrError::InvalidLedger(msg) => {
                let mut s = String::from_str("invalid token ledger: ");
                s.append(msg);
                s
            },
            CfrError::InvalidTopology(msg) => {
                let mut s = String::from_str("invalid attention topology: ");
                s.append(msg);
                s
            },
            CfrError::Regenerator(msg) => {
                let mut s = String::from_str("KV regeneration failed: ");
                s.append(msg.as_str());
                s
            },
            CfrError::Numeric(msg) => {
                let mut s = String::from_str("numeric failure: ");
                s.append(msg);
                s
            },
        }
    }
}

/// `CFR-Atlas` result alias.
pub type Result<T> = core::result::Result<T, CfrError>;

} // verus!
