//! Shape checks of page-regeneration requests.
//!
//! A regenerated page covers a non-empty token range that starts at its
//! key's first token; its K and V outputs hold one row of `head_dim`
//! values per token. These checks run before any value is produced.

use vstd::prelude::*;
use crate::error::{CfrError, Result};
use crate::layout::{checked_matrix_len, checked_range_len, expect_len};
use crate::page::PageKey;
use core::ops::Range;

verus! {

/// The first problem of a reference backend's shape: no tokens, no layers
/// or a zero head dimension.
pub open spec fn backend_shape_spec(ledger_len: usize, layers: u32, head_dim: usize) -> Result<()> {
    if ledger_len == 0 {
        Err(CfrError::InvalidLedger("reference backend requires tokens"))
    } else if layers == 0 {
        Err(CfrError::InvalidConfig("layers must be non-zero"))
    } else if head_dim == 0 {
        Err(CfrError::InvalidConfig("head_dim must be non-zero"))
    } else {
        Ok(())
    }
}

/// Checks the shape a reference backend is created with.
pub fn check_backend_shape(ledger_len: usize, layers: u32, head_dim: usize) -> (res: Result<()>)
    ensures
        res == backend_shape_spec(ledger_len, layers, head_dim),
{
    if ledger_len == 0 {
        return Err(CfrError::InvalidLedger("reference backend requires tokens"));
    }
    if layers == 0 {
        return Err(CfrError::InvalidConfig("layers must be non-zero"));
    }
    if head_dim == 0 {
        return Err(CfrError::InvalidConfig("head_dim must be non-zero"));
    }
    Ok(())
}

/// The first problem of a reference backend's page range: a range that
/// does not start at the key or is empty, or a range past the ledger.
pub open spec fn backend_range_spec(ledger_len: usize, key: PageKey, token_range: Range<usize>) -> Result<
    (),
> {
    if token_range.start != key.start_token {
        Err(CfrError::InvalidPage { key, message: "range start must equal key.start_token" })
    } else if token_range.start >= token_range.end {
        Err(CfrError::InvalidPage { key, message: "token range must be non-empty" })
    } else if token_range.end > ledger_len {
        Err(CfrError::InvalidLedger("token range exceeds ledger length"))
    } else {
        Ok(())
    }
}

/// Checks that a page range starts at its key, is non-empty and lies
/// within the ledger.
pub fn check_backend_range(ledger_len: usize, key: PageKey, token_range: &Range<usize>) -> (res:
    Result<()>)
    ensures
        res == backend_range_spec(ledger_len, key, *token_range),
{
    if token_range.start != key.start_token {
        return Err(
            CfrError::InvalidPage { key, message: "range start must equal key.start_token" },
        );
    }
    if token_range.start >= token_range.end {
        return Err(CfrError::InvalidPage { key, message: "token range must be non-empty" });
    }
    if token_range.end > ledger_len {
        return Err(CfrError::InvalidLedger("token range exceeds ledger length"));
    }
    Ok(())
}

/// The first problem of a reference backend's page request: a problem of
/// its range (see [`backend_range_spec`]), a layer
/// or K/V head out of range, another head dimension, an output length that
/// overflows, and K or V outputs of the wrong length.
pub open spec fn backend_request_spec(
    ledger_len: usize,
    layers: u32,
    kv_heads: u32,
    backend_head_dim: usize,
    key: PageKey,
    token_range: Range<usize>,
    head_dim: usize,
    k_len: usize,
    v_len: usize,
) -> Result<()> {
    let expected = (token_range.end - token_range.start) * backend_head_dim;
    if backend_range_spec(ledger_len, key, token_range) is Err {
        backend_range_spec(ledger_len, key, token_range)
    } else if key.layer >= layers {
        Err(CfrError::InvalidPage { key, message: "layer is out of range" })
    } else if key.head >= kv_heads {
        Err(CfrError::InvalidPage { key, message: "KV head is out of range" })
    } else if head_dim != backend_head_dim {
        Err(CfrError::Dimension { name: "head_dim", expected: backend_head_dim, got: head_dim })
    } else if expected > usize::MAX {
        Err(CfrError::CapacityOverflow { name: "reference backend output length" })
    } else if expected != k_len {
        Err(CfrError::Dimension { name: "backend K output", expected: expected as usize, got: k_len })
    } else if expected != v_len {
        Err(CfrError::Dimension { name: "backend V output", expected: expected as usize, got: v_len })
    } else {
        Ok(())
    }
}

/// Checks a reference backend's page request against its ledger length,
/// layer count, K/V head count and head dimension.
pub fn check_backend_request(
    ledger_len: usize,
    layers: u32,
    kv_heads: u32,
    backend_head_dim: usize,
    key: PageKey,
    token_range: &Range<usize>,
    head_dim: usize,
    k_len: usize,
    v_len: usize,
) -> (res: Result<()>)
    ensures
        res == backend_request_spec(
            ledger_len,
            layers,
            kv_heads,
            backend_head_dim,
            key,
            *token_range,
            head_dim,
            k_len,
            v_len,
        ),
{
    check_backend_range(ledger_len, key, token_range)?;
    if key.layer >= layers {
        return Err(CfrError::InvalidPage { key, message: "layer is out of range" });
    }
    if key.head >= kv_heads {
        return Err(CfrError::InvalidPage { key, message: "KV head is out of range" });
    }
    if head_dim != backend_head_dim {
        return Err(
            CfrError::Dimension { name: "head_dim", expected: backend_head_dim, got: head_dim },
        );
    }
    let tokens = checked_range_len("reference backend range length", token_range)?;
    let expected = checked_matrix_len("reference backend output length", tokens, backend_head_dim)?;
    expect_len("backend K output", expected, k_len)?;
    expect_len("backend V output", expected, v_len)?;
    Ok(())
}

/// What a conformance check measures: the number of tokens and the length
/// of each K and V page.
pub open spec fn conformance_request_spec(
    tolerance_valid: bool,
    key: PageKey,
    token_range: Range<usize>,
    head_dim: usize,
    reference_k_len: usize,
    reference_v_len: usize,
) -> Result<(usize, usize)> {
    let tokens = token_range.end - token_range.start;
    if !tolerance_valid {
        Err(CfrError::InvalidConfig("conformance tolerance must be finite and non-negative"))
    } else if token_range.start != key.start_token {
        Err(
            CfrError::InvalidPage {
                key,
                message: "conformance range start must equal key.start_token",
            },
        )
    } else if token_range.start >= token_range.end {
        Err(CfrError::InvalidPage { key, message: "conformance range must be non-empty" })
    } else if head_dim == 0 {
        Err(CfrError::InvalidConfig("head_dim must be non-zero"))
    } else if tokens * head_dim > usize::MAX {
        Err(CfrError::CapacityOverflow { name: "conformance page length" })
    } else if tokens * head_dim != reference_k_len {
        Err(
            CfrError::Dimension {
                name: "reference K",
                expected: (tokens * head_dim) as usize,
                got: reference_k_len,
            },
        )
    } else if tokens * head_dim != reference_v_len {
        Err(
            CfrError::Dimension {
                name: "reference V",
                expected: (tokens * head_dim) as usize,
                got: reference_v_len,
            },
        )
    } else {
        Ok((tokens as usize, (tokens * head_dim) as usize))
    }
}

/// Checks a conformance request (whether its tolerance is finite and
/// non-negative, its range and head dimension, and the reference pages'
/// lengths) and returns the page's token count and K/V length.
pub fn check_conformance_request(
    tolerance_valid: bool,
    key: PageKey,
    token_range: &Range<usize>,
    head_dim: usize,
    reference_k_len: usize,
    reference_v_len: usize,
) -> (res: Result<(usize, usize)>)
    ensures
        res == conformance_request_spec(
            tolerance_valid,
            key,
            *token_range,
            head_dim,
            reference_k_len,
            reference_v_len,
        ),
{
    if !tolerance_valid {
        return Err(
            CfrError::InvalidConfig("conformance tolerance must be finite and non-negative"),
        );
    }
    if token_range.start != key.start_token {
        return Err(
            CfrError::InvalidPage {
                key,
                message: "conformance range start must equal key.start_token",
            },
        );
    }
    if token_range.start >= token_range.end {
        return Err(CfrError::InvalidPage { key, message: "conformance range must be non-empty" });
    }
    if head_dim == 0 {
        return Err(CfrError::InvalidConfig("head_dim must be non-zero"));
    }
    let tokens = checked_range_len("conformance range length", token_range)?;
    let expected = checked_matrix_len("conformance page length", tokens, head_dim)?;
    expect_len("reference K", expected, reference_k_len)?;
    expect_len("reference V", expected, reference_v_len)?;
    Ok((tokens, expected))
}

} // verus!
