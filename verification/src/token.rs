//! Token ledger for deterministic backend replay.
//!
//! The ledger is the append-only replay log that backend adapters read to
//! regenerate exact K/V pages: token ids with strictly increasing absolute
//! model positions.

use vstd::prelude::*;
use std::ops::Range;
use crate::error::{CfrError, Result};

verus! {

/// Stable token identifier used by backend adapters.
pub type TokenId = u32;

/// One replayable token record.
#[derive(Debug, Clone, Copy, PartialEq, Eq)]
pub struct TokenRecord {
    /// Token id produced by the embedding runtime's tokenizer.
    pub token_id: TokenId,
    /// Absolute model position used for `RoPE`, `ALiBi` or plain positional replay.
    pub position: u64,
}

impl TokenRecord {
    /// Creates a token record.
    pub fn new(token_id: TokenId, position: u64) -> (r: Self)
        ensures
            r == (TokenRecord { token_id, position }),
    {
        Self { token_id, position }
    }
}

/// Positions of a record sequence are strictly increasing.
pub open spec fn strictly_increasing(records: Seq<TokenRecord>) -> bool {
    forall|i: int, j: int|
        0 <= i < j < records.len() ==> #[trigger] records[i].position < #[trigger] records[j].position
}

/// Ledger built from token ids at sequential positions `0, 1, 2, ...`.
pub open spec fn sequential_records(token_ids: Seq<TokenId>) -> Seq<TokenRecord> {
    Seq::new(token_ids.len(), |i: int| TokenRecord { token_id: token_ids[i], position: i as u64 })
}

/// Append-only token ledger used by backend adapters.
#[derive(Debug, PartialEq, Eq)]
pub struct TokenLedger {
    records: Vec<TokenRecord>,
}

impl View for TokenLedger {
    type V = Seq<TokenRecord>;

    closed spec fn view(&self) -> Seq<TokenRecord> {
        self.records@
    }
}

impl Clone for TokenLedger {
    fn clone(&self) -> (copy: Self)
        ensures
            copy@ == self@,
    {
        proof {
            use_type_invariant(self);
        }
        let mut records: Vec<TokenRecord> = Vec::new();
        let mut i: usize = 0;
        while i < self.records.len()
            invariant
                0 <= i <= self.records@.len(),
                records@ == self.records@.subrange(0, i as int),
            decreases self.records.len() - i,
        {
            records.push(self.records[i]);
            i += 1;
            assert(records@ =~= self.records@.subrange(0, i as int));
        }
        assert(records@ =~= self.records@);
        TokenLedger { records }
    }
}

impl Default for TokenLedger {
    fn default() -> (ledger: Self)
        ensures
            ledger@ == Seq::<TokenRecord>::empty(),
    {
        Self::new()
    }
}

impl TokenLedger {
    /// The ledger's positions are strictly increasing.
    #[verifier::type_invariant]
    closed spec fn positions_increase(self) -> bool {
        strictly_increasing(self.records@)
    }

    /// Creates an empty token ledger.
    pub fn new() -> (ledger: Self)
        ensures
            ledger@ == Seq::<TokenRecord>::empty(),
    {
        Self { records: Vec::new() }
    }

    /// Creates a ledger with positions equal to token indices.
    pub fn from_token_ids(token_ids: &[TokenId]) -> (res: Result<Self>)
        ensures
            res matches Ok(ledger) && ledger@ == sequential_records(token_ids@),
    {
        let mut ledger = Self::new();
        let mut i: usize = 0;
        while i < token_ids.len()
            invariant
                0 <= i <= token_ids@.len(),
                ledger@ == sequential_records(token_ids@.subrange(0, i as int)),
            decreases token_ids.len() - i,
        {
            proof {
                use_type_invariant(&ledger);
            }
            let pushed = ledger.push(token_ids[i]);
            assert(pushed is Ok);
            i += 1;
            assert(ledger@ =~= sequential_records(token_ids@.subrange(0, i as int)));
        }
        assert(token_ids@.subrange(0, token_ids@.len() as int) =~= token_ids@);
        Ok(ledger)
    }

    /// Position the next sequential push would use, if it fits `u64`.
    pub open spec fn next_position(records: Seq<TokenRecord>) -> Option<u64> {
        if records.len() == 0 {
            Some(0)
        } else if records.last().position < u64::MAX {
            Some((records.last().position + 1) as u64)
        } else {
            None
        }
    }

    /// Appends a token at the next sequential position.
    pub fn push(&mut self, token_id: TokenId) -> (res: Result<usize>)
        ensures
            Self::next_position(old(self)@) is None ==> res == Err::<usize, CfrError>(
                CfrError::InvalidLedger("token position overflow"),
            ) && final(self)@ == old(self)@,
            Self::next_position(old(self)@) matches Some(p) ==> res == Ok::<usize, CfrError>(
                old(self)@.len() as usize,
            ) && final(self)@ == old(self)@.push(TokenRecord { token_id, position: p }),
    {
        proof {
            use_type_invariant(&*self);
        }
        let len = self.records.len();
        let position = if len > 0 {
            let last = self.records[len - 1].position;
            if last == u64::MAX {
                return Err(CfrError::InvalidLedger("token position overflow"));
            }
            last + 1
        } else {
            0
        };
        let mut records: Vec<TokenRecord> = Vec::new();
        std::mem::swap(&mut records, &mut self.records);
        records.push(TokenRecord::new(token_id, position));
        self.records = records;
        Ok(len)
    }

    /// Appends a token with an explicit absolute position, which must exceed
    /// the last recorded position.
    pub fn push_with_position(&mut self, token_id: TokenId, position: u64) -> (res: Result<usize>)
        ensures
            old(self)@.len() > 0 && position <= old(self)@.last().position ==> res == Err::<
                usize,
                CfrError,
            >(CfrError::InvalidLedger("token positions must be strictly increasing"))
                && final(self)@ == old(self)@,
            !(old(self)@.len() > 0 && position <= old(self)@.last().position) ==> res == Ok::<
                usize,
                CfrError,
            >(old(self)@.len() as usize) && final(self)@ == old(self)@.push(
                TokenRecord { token_id, position },
            ),
    {
        proof {
            use_type_invariant(&*self);
        }
        let len = self.records.len();
        if len > 0 {
            if position <= self.records[len - 1].position {
                return Err(CfrError::InvalidLedger("token positions must be strictly increasing"));
            }
        }
        let mut records: Vec<TokenRecord> = Vec::new();
        std::mem::swap(&mut records, &mut self.records);
        records.push(TokenRecord::new(token_id, position));
        self.records = records;
        Ok(len)
    }

    /// Number of token records.
    pub fn len(&self) -> (n: usize)
        ensures
            n == self@.len(),
    {
        self.records.len()
    }

    /// Whether the ledger contains no tokens.
    pub fn is_empty(&self) -> (empty: bool)
        ensures
            empty == (self@.len() == 0),
    {
        self.records.len() == 0
    }

    /// Returns all token records.
    pub fn records(&self) -> (r: &[TokenRecord])
        ensures
            r@ == self@,
            strictly_increasing(r@),
    {
        proof {
            use_type_invariant(self);
        }
        self.records.as_slice()
    }

    /// Returns a single token record.
    pub fn get(&self, index: usize) -> (r: Option<TokenRecord>)
        ensures
            index < self@.len() ==> r == Some(self@[index as int]),
            index >= self@.len() ==> r is None,
    {
        if index < self.records.len() {
            Some(self.records[index])
        } else {
            None
        }
    }

    /// Returns a validated, non-empty token-record range.
    pub fn range(&self, range: Range<usize>) -> (res: Result<&[TokenRecord]>)
        ensures
            range.start >= range.end ==> res == Err::<&[TokenRecord], CfrError>(
                CfrError::InvalidLedger("token range must be non-empty"),
            ),
            range.start < range.end && range.end > self@.len() ==> res == Err::<
                &[TokenRecord],
                CfrError,
            >(CfrError::InvalidLedger("token range exceeds ledger length")),
            range.start < range.end && range.end <= self@.len() ==> (res matches Ok(r) && r@
                == self@.subrange(range.start as int, range.end as int)),
    {
        if range.start >= range.end {
            return Err(CfrError::InvalidLedger("token range must be non-empty"));
        }
        if range.end > self.records.len() {
            return Err(CfrError::InvalidLedger("token range exceeds ledger length"));
        }
        let all = self.records.as_slice();
        Ok(&all[range])
    }

    /// Returns token ids as a compact vector.
    pub fn token_ids(&self) -> (ids: Vec<TokenId>)
        ensures
            ids@ == self@.map_values(|r: TokenRecord| r.token_id),
    {
        let mut ids: Vec<TokenId> = Vec::new();
        let mut i: usize = 0;
        while i < self.records.len()
            invariant
                0 <= i <= self.records@.len(),
                ids@ == self.records@.subrange(0, i as int).map_values(|r: TokenRecord| r.token_id),
            decreases self.records.len() - i,
        {
            ids.push(self.records[i].token_id);
            i += 1;
            assert(ids@ =~= self.records@.subrange(0, i as int).map_values(
                |r: TokenRecord| r.token_id,
            ));
        }
        assert(self.records@.subrange(0, self.records@.len() as int) =~= self.records@);
        ids
    }

    /// Returns absolute token positions as a compact vector.
    pub fn positions(&self) -> (positions: Vec<u64>)
        ensures
            positions@ == self@.map_values(|r: TokenRecord| r.position),
    {
        let mut positions: Vec<u64> = Vec::new();
        let mut i: usize = 0;
        while i < self.records.len()
            invariant
                0 <= i <= self.records@.len(),
                positions@ == self.records@.subrange(0, i as int).map_values(
                    |r: TokenRecord| r.position,
                ),
            decreases self.records.len() - i,
        {
            positions.push(self.records[i].position);
            i += 1;
            assert(positions@ =~= self.records@.subrange(0, i as int).map_values(
                |r: TokenRecord| r.position,
            ));
        }
        assert(self.records@.subrange(0, self.records@.len() as int) =~= self.records@);
        positions
    }
}

} // verus!
