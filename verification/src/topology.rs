//! Attention topology and query-to-`KV` head mapping.
//!
//! `MHA`, `MQA` and `GQA` map query heads onto K/V heads without changing the
//! virtual page identity used by the core.

use vstd::prelude::*;
use crate::error::{CfrError, Result};

verus! {

/// High-level topology kind.
#[derive(Debug, Clone, Copy, PartialEq, Eq, Structural)]
pub enum AttentionTopologyKind {
    /// Multi-head attention: each query head owns a matching K/V head.
    Mha,
    /// Multi-query attention: all query heads share one K/V head.
    Mqa,
    /// Grouped-query attention: query heads are partitioned over fewer K/V heads.
    Gqa,
}

/// Whether a head count pair is acceptable for a topology kind.
pub open spec fn valid_topology(kind: AttentionTopologyKind, query_heads: u32, kv_heads: u32) -> bool {
    &&& query_heads != 0
    &&& kv_heads != 0
    &&& kv_heads <= query_heads
    &&& match kind {
        AttentionTopologyKind::Mha => query_heads == kv_heads,
        AttentionTopologyKind::Mqa => kv_heads == 1,
        AttentionTopologyKind::Gqa => query_heads % kv_heads == 0,
    }
}

/// The error the constructor reports for an invalid head count pair.
pub open spec fn topology_error(kind: AttentionTopologyKind, query_heads: u32, kv_heads: u32) -> CfrError {
    if query_heads == 0 {
        CfrError::InvalidTopology("query_heads must be non-zero")
    } else if kv_heads == 0 {
        CfrError::InvalidTopology("kv_heads must be non-zero")
    } else if kv_heads > query_heads {
        CfrError::InvalidTopology("kv_heads must be <= query_heads")
    } else {
        match kind {
            AttentionTopologyKind::Mha => CfrError::InvalidTopology("MHA requires query_heads == kv_heads"),
            AttentionTopologyKind::Mqa => CfrError::InvalidTopology("MQA requires kv_heads == 1"),
            AttentionTopologyKind::Gqa => CfrError::InvalidTopology(
                "GQA requires query_heads to be divisible by kv_heads",
            ),
        }
    }
}

/// Attention-head topology for `MHA`, `MQA` and `GQA`.
#[derive(Debug, Clone, Copy, PartialEq, Eq)]
pub struct AttentionTopology {
    kind: AttentionTopologyKind,
    query_heads: u32,
    kv_heads: u32,
}

/// The K/V head serving a query head.
pub open spec fn kv_head_of(kind: AttentionTopologyKind, query_heads: u32, kv_heads: u32, query_head: u32) -> int {
    match kind {
        AttentionTopologyKind::Mha => query_head as int,
        AttentionTopologyKind::Mqa => 0,
        AttentionTopologyKind::Gqa => query_head as int / (query_heads as int / kv_heads as int),
    }
}

impl AttentionTopology {
    /// Head counts are consistent with the kind.
    #[verifier::type_invariant]
    closed spec fn well_formed(self) -> bool {
        valid_topology(self.kind, self.query_heads, self.kv_heads)
    }

    /// Topology kind.
    pub closed spec fn spec_kind(self) -> AttentionTopologyKind {
        self.kind
    }

    /// Number of query heads.
    pub closed spec fn spec_query_heads(self) -> u32 {
        self.query_heads
    }

    /// Number of K/V heads.
    pub closed spec fn spec_kv_heads(self) -> u32 {
        self.kv_heads
    }

    /// Creates a multi-head attention topology.
    pub fn mha(heads: u32) -> (res: Result<Self>)
        ensures
            Self::new_ensures(AttentionTopologyKind::Mha, heads, heads, res),
    {
        Self::new(AttentionTopologyKind::Mha, heads, heads)
    }

    /// Creates a multi-query attention topology.
    pub fn mqa(query_heads: u32) -> (res: Result<Self>)
        ensures
            Self::new_ensures(AttentionTopologyKind::Mqa, query_heads, 1, res),
    {
        Self::new(AttentionTopologyKind::Mqa, query_heads, 1)
    }

    /// Creates a grouped-query attention topology.
    pub fn gqa(query_heads: u32, kv_heads: u32) -> (res: Result<Self>)
        ensures
            Self::new_ensures(AttentionTopologyKind::Gqa, query_heads, kv_heads, res),
    {
        Self::new(AttentionTopologyKind::Gqa, query_heads, kv_heads)
    }

    /// What a constructor returns for a kind and head counts.
    pub open spec fn new_ensures(
        kind: AttentionTopologyKind,
        query_heads: u32,
        kv_heads: u32,
        res: Result<Self>,
    ) -> bool {
        &&& valid_topology(kind, query_heads, kv_heads) ==> (res matches Ok(t) && t.spec_kind()
            == kind && t.spec_query_heads() == query_heads && t.spec_kv_heads() == kv_heads)
        &&& !valid_topology(kind, query_heads, kv_heads) ==> res == Err::<Self, CfrError>(
            topology_error(kind, query_heads, kv_heads),
        )
    }

    fn new(kind: AttentionTopologyKind, query_heads: u32, kv_heads: u32) -> (res: Result<Self>)
        ensures
            Self::new_ensures(kind, query_heads, kv_heads, res),
    {
        if query_heads == 0 {
            return Err(CfrError::InvalidTopology("query_heads must be non-zero"));
        }
        if kv_heads == 0 {
            return Err(CfrError::InvalidTopology("kv_heads must be non-zero"));
        }
        if kv_heads > query_heads {
            return Err(CfrError::InvalidTopology("kv_heads must be <= query_heads"));
        }
        match kind {
            AttentionTopologyKind::Mha => {
                if query_heads != kv_heads {
                    return Err(CfrError::InvalidTopology("MHA requires query_heads == kv_heads"));
                }
            },
            AttentionTopologyKind::Mqa => {
                if kv_heads != 1 {
                    return Err(CfrError::InvalidTopology("MQA requires kv_heads == 1"));
                }
            },
            AttentionTopologyKind::Gqa => {
                if query_heads % kv_heads != 0 {
                    return Err(
                        CfrError::InvalidTopology(
                            "GQA requires query_heads to be divisible by kv_heads",
                        ),
                    );
                }
            },
        }
        Ok(Self { kind, query_heads, kv_heads })
    }

    /// Returns the topology kind.
    pub fn kind(&self) -> (k: AttentionTopologyKind)
        ensures
            k == self.spec_kind(),
    {
        self.kind
    }

    /// Number of query heads.
    pub fn query_heads(&self) -> (n: u32)
        ensures
            n == self.spec_query_heads(),
            valid_topology(self.spec_kind(), self.spec_query_heads(), self.spec_kv_heads()),
    {
        proof {
            use_type_invariant(self);
        }
        self.query_heads
    }

    /// Number of K/V heads.
    pub fn kv_heads(&self) -> (n: u32)
        ensures
            n == self.spec_kv_heads(),
            valid_topology(self.spec_kind(), self.spec_query_heads(), self.spec_kv_heads()),
    {
        proof {
            use_type_invariant(self);
        }
        self.kv_heads
    }

    /// Number of query heads served by one K/V head.
    pub fn group_size(&self) -> (n: u32)
        ensures
            n == self.spec_query_heads() / self.spec_kv_heads(),
            n >= 1,
    {
        proof {
            use_type_invariant(self);
            lemma_group_size_positive(self.query_heads, self.kv_heads);
        }
        self.query_heads / self.kv_heads
    }

    /// Maps a query head to its K/V head and group bounds. The query head lies
    /// inside its group and the K/V head is a valid K/V head index.
    pub fn map_query_head(&self, query_head: u32) -> (res: Result<HeadMapping>)
        ensures
            query_head >= self.spec_query_heads() ==> res == Err::<HeadMapping, CfrError>(
                CfrError::InvalidTopology("query head is out of range"),
            ),
            query_head < self.spec_query_heads() ==> (res matches Ok(m) && {
                let g = self.spec_query_heads() / self.spec_kv_heads();
                &&& m.topology == self.spec_kind()
                &&& m.query_head == query_head
                &&& m.kv_head == kv_head_of(
                    self.spec_kind(),
                    self.spec_query_heads(),
                    self.spec_kv_heads(),
                    query_head,
                )
                &&& m.group_start == m.kv_head * g
                &&& m.group_end == m.group_start + g
                &&& m.kv_head < self.spec_kv_heads()
                &&& m.group_start <= query_head < m.group_end
                &&& m.group_end <= self.spec_query_heads()
            }),
    {
        proof {
            use_type_invariant(self);
        }
        if query_head >= self.query_heads {
            return Err(CfrError::InvalidTopology("query head is out of range"));
        }
        proof {
            lemma_group_size_positive(self.query_heads, self.kv_heads);
        }
        let group_size = self.query_heads / self.kv_heads;
        let q = self.query_heads;
        let kvh = self.kv_heads;
        let kv_head = match self.kind {
            AttentionTopologyKind::Mha => query_head,
            AttentionTopologyKind::Mqa => 0,
            AttentionTopologyKind::Gqa => query_head / group_size,
        };
        proof {
            lemma_group_bounds(self.kind, q, kvh, query_head, group_size, kv_head);
        }
        let group_start = kv_head * group_size;
        let group_end = group_start + group_size;
        Ok(
            HeadMapping {
                topology: self.kind,
                query_head,
                kv_head,
                group_start,
                group_end,
            },
        )
    }
}

proof fn lemma_group_size_positive(q: u32, kvh: u32)
    requires
        0 < kvh <= q,
    ensures
        q / kvh >= 1,
{
    assert(q / kvh >= 1) by (nonlinear_arith)
        requires
            0 < kvh <= q,
    ;
}

proof fn lemma_group_bounds(
    kind: AttentionTopologyKind,
    q: u32,
    kvh: u32,
    query_head: u32,
    g: u32,
    kv_head: u32,
)
    requires
        valid_topology(kind, q, kvh),
        query_head < q,
        g == q / kvh,
        kv_head == kv_head_of(kind, q, kvh, query_head),
    ensures
        g >= 1,
        kv_head < kvh,
        kv_head * g <= query_head < kv_head * g + g,
        kv_head * g + g <= q,
{
    assert(q == kvh * g) by (nonlinear_arith)
        requires
            g == q / kvh,
            kvh > 0,
            match kind {
                AttentionTopologyKind::Mha => q == kvh,
                AttentionTopologyKind::Mqa => kvh == 1,
                AttentionTopologyKind::Gqa => q % kvh == 0,
            },
    ;
    assert(g >= 1) by (nonlinear_arith)
        requires
            q == kvh * g,
            q > 0,
            kvh > 0,
            g >= 0,
    ;
    match kind {
        AttentionTopologyKind::Mha => {
            assert(g == 1) by (nonlinear_arith)
                requires
                    q == kvh * g,
                    q == kvh,
                    kvh > 0,
            ;
        },
        AttentionTopologyKind::Mqa => {},
        AttentionTopologyKind::Gqa => {
            assert(kv_head * g <= query_head < kv_head * g + g) by (nonlinear_arith)
                requires
                    kv_head == query_head / g,
                    g >= 1,
            ;
            assert(kv_head < kvh) by (nonlinear_arith)
                requires
                    kv_head == query_head / g,
                    g >= 1,
                    query_head < q,
                    q == kvh * g,
                    kv_head * g <= query_head,
            ;
            assert(kv_head * g + g <= q) by (nonlinear_arith)
                requires
                    kv_head < kvh,
                    q == kvh * g,
                    g >= 1,
            ;
        },
    }
}

/// Result of mapping a query head to the physical K/V head.
#[derive(Debug, Clone, Copy, PartialEq, Eq)]
pub struct HeadMapping {
    /// Topology kind used to produce this mapping.
    pub topology: AttentionTopologyKind,
    /// Query head requested by the model runtime.
    pub query_head: u32,
    /// K/V head that stores or regenerates the page.
    pub kv_head: u32,
    /// Inclusive start of the query-head group served by this K/V head.
    pub group_start: u32,
    /// Exclusive end of the query-head group served by this K/V head.
    pub group_end: u32,
}

} // verus!
