//! Stable virtual page identity and token-range validation.
//!
//! A page is the unit in which causal context tokens are stored hot or
//! regenerated cold: one layer, one K/V head and a half-open token range.

use vstd::prelude::*;
use std::ops::Range;
use crate::error::{CfrError, Result};

verus! {

/// Stable identity of a virtual `KV` page in a causal transformer.
#[derive(Debug, Clone, Copy, PartialEq, Eq, Hash, PartialOrd, Ord, Structural)]
pub struct PageKey {
    /// Transformer layer index.
    pub layer: u32,
    /// Attention head index.
    pub head: u32,
    /// First token represented by the page.
    pub start_token: usize,
}

impl PageKey {
    /// Creates a page key.
    pub fn new(layer: u32, head: u32, start_token: usize) -> (key: Self)
        ensures
            key == (PageKey { layer, head, start_token }),
    {
        Self { layer, head, start_token }
    }

    /// Field-wise equality of two keys.
    pub fn same_as(&self, other: &PageKey) -> (same: bool)
        ensures
            same == (*self == *other),
    {
        self.layer == other.layer && self.head == other.head && self.start_token
            == other.start_token
    }
}

/// Concrete token range associated with a [`PageKey`].
#[derive(Debug, PartialEq, Eq)]
pub struct PageRange {
    /// Page key.
    pub key: PageKey,
    /// Half-open token range `[start, end)`.
    pub tokens: Range<usize>,
}

impl Clone for PageRange {
    fn clone(&self) -> (copy: Self)
        ensures
            copy == *self,
    {
        PageRange { key: self.key, tokens: Range { start: self.tokens.start, end: self.tokens.end } }
    }
}

impl PageRange {
    /// Creates and validates a page range: it must start at the key's first
    /// token and hold at least one token.
    pub fn new(key: PageKey, tokens: Range<usize>) -> (res: Result<Self>)
        ensures
            tokens.start != key.start_token ==> res == Err::<Self, CfrError>(
                CfrError::InvalidPage { key, message: "range start must equal key.start_token" },
            ),
            tokens.start == key.start_token && tokens.end <= tokens.start ==> res == Err::<
                Self,
                CfrError,
            >(CfrError::InvalidPage { key, message: "page token range must be non-empty" }),
            res is Ok <==> (tokens.start == key.start_token && tokens.start < tokens.end),
            res matches Ok(r) ==> r.key == key && r.tokens == tokens,
    {
        if tokens.start != key.start_token {
            return Err(
                CfrError::InvalidPage { key, message: "range start must equal key.start_token" },
            );
        }
        if tokens.end <= tokens.start {
            return Err(
                CfrError::InvalidPage { key, message: "page token range must be non-empty" },
            );
        }
        Ok(Self { key, tokens })
    }

    /// Number of tokens in the page range (zero for an inverted range).
    pub fn len(&self) -> (n: usize)
        ensures
            n == (if self.tokens.end >= self.tokens.start {
                self.tokens.end - self.tokens.start
            } else {
                0
            }),
    {
        if self.tokens.end >= self.tokens.start {
            self.tokens.end - self.tokens.start
        } else {
            0
        }
    }

    /// Whether the page range is empty.
    pub fn is_empty(&self) -> (empty: bool)
        ensures
            empty == !(self.tokens.start < self.tokens.end),
    {
        !(self.tokens.start < self.tokens.end)
    }
}

} // verus!
