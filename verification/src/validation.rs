//! Long-context validation corpus.
//!
//! Tokenized regression prompts of several shapes that validation loops run
//! through both the `CFR` path and a full-`KV` baseline.

use vstd::prelude::*;
use crate::error::{CfrError, Result};
use crate::token::{sequential_records, TokenId, TokenLedger};
use crate::config::Config;
use crate::layout::{checked_add, checked_kv_bytes, checked_mul, expect_len, kv_bytes_spec};
use crate::topology::AttentionTopology;

verus! {

/// Regression prompt shape used by the validation corpus.
#[derive(Debug, Clone, Copy, PartialEq, Eq, Structural)]
pub enum PromptShape {
    /// Short instruction-like prompt.
    Short,
    /// Long patterned context used to stress paging and memory telemetry.
    Long,
    /// Repeated-token prompt that stresses cache reuse and repeated positions.
    Repeated,
    /// Code-like prompt with structured tokens.
    Code,
    /// Dialogue-like prompt with alternating speaker/token regions.
    Dialogue,
}

impl PromptShape {
    /// Stable lowercase label for logs and reports.
    pub fn as_str(self) -> (label: &'static str)
        ensures
            self == PromptShape::Short ==> label@ == "short"@,
            self == PromptShape::Long ==> label@ == "long"@,
            self == PromptShape::Repeated ==> label@ == "repeated"@,
            self == PromptShape::Code ==> label@ == "code"@,
            self == PromptShape::Dialogue ==> label@ == "dialogue"@,
    {
        match self {
            PromptShape::Short => "short",
            PromptShape::Long => "long",
            PromptShape::Repeated => "repeated",
            PromptShape::Code => "code",
            PromptShape::Dialogue => "dialogue",
        }
    }
}

/// Tokenized prompt case used by validation loops.
#[derive(Debug, Clone, PartialEq, Eq)]
pub struct PromptCase {
    shape: PromptShape,
    token_ids: Vec<TokenId>,
}

impl PromptCase {
    /// Shape of a prompt case.
    pub closed spec fn spec_shape(self) -> PromptShape {
        self.shape
    }

    /// Tokens of a prompt case.
    pub closed spec fn spec_tokens(self) -> Seq<TokenId> {
        self.token_ids@
    }

    /// Creates a prompt case from already-tokenized ids; the prompt must not
    /// be empty.
    pub fn new(shape: PromptShape, token_ids: Vec<TokenId>) -> (res: Result<Self>)
        ensures
            token_ids@.len() == 0 ==> res == Err::<Self, CfrError>(
                CfrError::InvalidLedger("validation prompt must not be empty"),
            ),
            token_ids@.len() > 0 ==> (res matches Ok(c) && c.spec_shape() == shape
                && c.spec_tokens() == token_ids@),
    {
        if token_ids.len() == 0 {
            return Err(CfrError::InvalidLedger("validation prompt must not be empty"));
        }
        Ok(Self { shape, token_ids })
    }

    /// Returns the prompt shape label.
    pub fn shape(&self) -> (s: PromptShape)
        ensures
            s == self.spec_shape(),
    {
        self.shape
    }

    /// Returns the token ids backing this prompt.
    pub fn token_ids(&self) -> (ids: &[TokenId])
        ensures
            ids@ == self.spec_tokens(),
    {
        self.token_ids.as_slice()
    }

    /// Returns the number of tokens in the prompt.
    pub fn len(&self) -> (n: usize)
        ensures
            n == self.spec_tokens().len(),
    {
        self.token_ids.len()
    }

    /// Returns whether the prompt contains no tokens.
    pub fn is_empty(&self) -> (empty: bool)
        ensures
            empty == (self.spec_tokens().len() == 0),
    {
        self.token_ids.len() == 0
    }

    /// Converts the prompt into a ledger with sequential positions.
    pub fn to_ledger(&self) -> (res: Result<TokenLedger>)
        ensures
            res matches Ok(l) && l@ == sequential_records(self.spec_tokens()),
    {
        TokenLedger::from_token_ids(self.token_ids.as_slice())
    }
}

/// Token `i` of a patterned prompt.
pub open spec fn patterned_token(i: int, stride: int, offset: int) -> TokenId {
    ((i * stride + offset) % 32000 + 1) as TokenId
}

/// A patterned prompt of `len` tokens.
pub open spec fn patterned_spec(len: int, stride: int, offset: int) -> Seq<TokenId> {
    Seq::new(len as nat, |i: int| patterned_token(i, stride, offset))
}

/// The fixed short prompt.
pub open spec fn short_prompt_spec() -> Seq<TokenId> {
    seq![101u32, 734u32, 2048u32, 19u32, 87u32, 4096u32, 102u32]
}

/// The dialogue prompt: 56 turns of a speaker token (11 and 13 alternating)
/// followed by seven patterned body tokens.
pub open spec fn dialogue_spec() -> Seq<TokenId> {
    Seq::new(
        448,
        |i: int|
            if i % 8 == 0 {
                if (i / 8) % 2 == 0 { 11u32 } else { 13u32 }
            } else {
                patterned_token(i % 8 - 1, i / 8 + 3, 29)
            },
    )
}

/// Shapes and tokens of the built-in regression corpus.
pub open spec fn corpus_spec() -> Seq<(PromptShape, Seq<TokenId>)> {
    seq![
        (PromptShape::Short, short_prompt_spec()),
        (PromptShape::Long, patterned_spec(2048, 17, 23)),
        (PromptShape::Repeated, Seq::new(512, |i: int| 42u32)),
        (PromptShape::Code, patterned_spec(384, 31, 7)),
        (PromptShape::Dialogue, dialogue_spec()),
    ]
}

/// Returns the built-in long-context regression prompt corpus.
pub fn regression_corpus() -> (res: Result<Vec<PromptCase>>)
    ensures
        res matches Ok(corpus) && corpus@.len() == 5 && forall|i: int|
            0 <= i < 5 ==> #[trigger] corpus@[i].spec_shape() == corpus_spec()[i].0
                && corpus@[i].spec_tokens() == corpus_spec()[i].1,
{
    let mut corpus: Vec<PromptCase> = Vec::new();
    corpus.push(PromptCase::new(PromptShape::Short, short_prompt_tokens())?);
    corpus.push(PromptCase::new(PromptShape::Long, patterned_tokens(2048, 17, 23)?)?);
    corpus.push(PromptCase::new(PromptShape::Repeated, repeated_prompt_tokens(512, 42)?)?);
    corpus.push(PromptCase::new(PromptShape::Code, code_prompt_tokens()?)?);
    corpus.push(PromptCase::new(PromptShape::Dialogue, dialogue_prompt_tokens()?)?);
    assert(Seq::new(512, |i: int| 42u32) =~= Seq::new(512nat, |i: int| 42u32));
    Ok(corpus)
}

/// Compatibility alias of [`regression_corpus`].
pub fn phase4_regression_corpus() -> (res: Result<Vec<PromptCase>>)
    ensures
        res matches Ok(corpus) && corpus@.len() == 5 && forall|i: int|
            0 <= i < 5 ==> #[trigger] corpus@[i].spec_shape() == corpus_spec()[i].0
                && corpus@[i].spec_tokens() == corpus_spec()[i].1,
{
    regression_corpus()
}

/// Number of layers needed to cover every sampled layer: `max(layers) + 1`.
pub fn max_layer_count(layers: &[u32]) -> (res: Result<u32>)
    ensures
        layers@.len() == 0 ==> res == Err::<u32, CfrError>(
            CfrError::InvalidConfig("validation layers must not be empty"),
        ),
        layers@.len() > 0 ==> exists|m: int|
            0 <= m < layers@.len() && (forall|j: int|
                0 <= j < layers@.len() ==> #[trigger] layers@[j] <= layers@[m]) && (
            if layers@[m] == u32::MAX {
                res == Err::<u32, CfrError>(
                    CfrError::CapacityOverflow { name: "validation layer count" },
                )
            } else {
                res == Ok::<u32, CfrError>((layers@[m] + 1) as u32)
            }),
{
    if layers.len() == 0 {
        return Err(CfrError::InvalidConfig("validation layers must not be empty"));
    }
    let mut best: usize = 0;
    let mut i: usize = 1;
    while i < layers.len()
        invariant
            0 < layers@.len(),
            1 <= i <= layers@.len(),
            best < i,
            forall|j: int| 0 <= j < i ==> #[trigger] layers@[j] <= layers@[best as int],
        decreases layers.len() - i,
    {
        if layers[i] > layers[best] {
            best = i;
        }
        i += 1;
    }
    let max_layer = layers[best];
    if max_layer == u32::MAX {
        return Err(CfrError::CapacityOverflow { name: "validation layer count" });
    }
    Ok(max_layer + 1)
}

fn short_prompt_tokens() -> (tokens: Vec<TokenId>)
    ensures
        tokens@ == short_prompt_spec(),
{
    let tokens = vec![101, 734, 2_048, 19, 87, 4_096, 102];
    assert(tokens@ =~= short_prompt_spec());
    tokens
}

fn repeated_prompt_tokens(len: usize, token_id: TokenId) -> (res: Result<Vec<TokenId>>)
    ensures
        len == 0 ==> res == Err::<Vec<TokenId>, CfrError>(
            CfrError::InvalidLedger("repeated prompt length must be non-zero"),
        ),
        len > 0 ==> (res matches Ok(tokens) && tokens@ == Seq::new(len as nat, |i: int| token_id)),
{
    if len == 0 {
        return Err(CfrError::InvalidLedger("repeated prompt length must be non-zero"));
    }
    let mut tokens: Vec<TokenId> = Vec::new();
    let mut i: usize = 0;
    while i < len
        invariant
            0 <= i <= len,
            tokens@ == Seq::new(i as nat, |j: int| token_id),
        decreases len - i,
    {
        tokens.push(token_id);
        i += 1;
        assert(tokens@ =~= Seq::new(i as nat, |j: int| token_id));
    }
    Ok(tokens)
}

fn code_prompt_tokens() -> (res: Result<Vec<TokenId>>)
    ensures
        res matches Ok(tokens) && tokens@ == patterned_spec(384, 31, 7),
{
    patterned_tokens(384, 31, 7)
}

fn dialogue_prompt_tokens() -> (res: Result<Vec<TokenId>>)
    ensures
        res matches Ok(tokens) && tokens@ == dialogue_spec(),
{
    let mut tokens: Vec<TokenId> = Vec::new();
    let mut turn: usize = 0;
    while turn < 56
        invariant
            0 <= turn <= 56,
            tokens@.len() == 8 * turn,
            forall|i: int| 0 <= i < tokens@.len() ==> #[trigger] tokens@[i] == dialogue_spec()[i],
        decreases 56 - turn,
    {
        let speaker: TokenId = if turn % 2 == 0 { 11 } else { 13 };
        let base = tokens.len();
        tokens.push(speaker);
        let body = patterned_tokens(7, turn + 3, 29)?;
        let mut j: usize = 0;
        while j < 7
            invariant
                0 <= turn < 56,
                base == 8 * turn,
                0 <= j <= 7,
                body@ == patterned_spec(7, turn + 3, 29),
                tokens@.len() == base + 1 + j,
                forall|i: int| 0 <= i < tokens@.len() ==> #[trigger] tokens@[i] == dialogue_spec()[i],
            decreases 7 - j,
        {
            proof {
                let k = (base + 1 + j) as int;
                assert(k % 8 == j + 1 && k / 8 == turn);
            }
            tokens.push(body[j]);
            j += 1;
        }
        turn += 1;
        proof {
            assert(base as int % 8 == 0 && base as int / 8 == turn - 1);
        }
    }
    Ok(tokens)
}

fn patterned_tokens(len: usize, stride: usize, offset: usize) -> (res: Result<Vec<TokenId>>)
    ensures
        len == 0 ==> res == Err::<Vec<TokenId>, CfrError>(
            CfrError::InvalidLedger("patterned prompt length must be non-zero"),
        ),
        len > 0 && (len - 1) * stride + offset <= usize::MAX ==> (res matches Ok(tokens)
            && tokens@ == patterned_spec(len as int, stride as int, offset as int)),
        len > 0 && (len - 1) * stride + offset > usize::MAX ==> (res matches Err(e)
            && e is CapacityOverflow),
{
    if len == 0 {
        return Err(CfrError::InvalidLedger("patterned prompt length must be non-zero"));
    }
    let mut tokens: Vec<TokenId> = Vec::new();
    let mut index: usize = 0;
    while index < len
        invariant
            0 < len,
            0 <= index <= len,
            tokens@ == patterned_spec(index as int, stride as int, offset as int),
            index > 0 ==> (index - 1) * stride + offset <= usize::MAX,
        decreases len - index,
    {
        let stepped = match index.checked_mul(stride) {
            Some(v) => v,
            None => {
                proof {
                    lemma_pattern_overflow(index as int, (len - 1) as int, stride as int, offset as int);
                }
                return Err(CfrError::CapacityOverflow { name: "patterned token stride" });
            },
        };
        let mixed = match stepped.checked_add(offset) {
            Some(v) => v,
            None => {
                proof {
                    lemma_pattern_overflow(index as int, (len - 1) as int, stride as int, offset as int);
                }
                return Err(CfrError::CapacityOverflow { name: "patterned token offset" });
            },
        };
        let folded = mixed % 32_000;
        let token = folded as u32 + 1;
        tokens.push(token);
        index += 1;
        assert(tokens@ =~= patterned_spec(index as int, stride as int, offset as int));
    }
    proof {
        if len > 0 {
            assert((len - 1) * stride + offset <= usize::MAX);
        }
    }
    Ok(tokens)
}

proof fn lemma_pattern_overflow(index: int, last: int, stride: int, offset: int)
    requires
        0 <= index <= last,
        stride >= 0,
        offset >= 0,
        index * stride + offset > usize::MAX,
    ensures
        last * stride + offset > usize::MAX,
{
    assert(index * stride <= last * stride) by (nonlinear_arith)
        requires
            0 <= index <= last,
            stride >= 0,
    ;
}

/// Converts a `u32` count to `usize`.
pub fn u32_to_usize(name: &'static str, value: u32) -> (res: Result<usize>)
    ensures
        res == Ok::<usize, CfrError>(value as usize),
{
    Ok(value as usize)
}

/// Resident-memory accounting of one validation step, in bytes.
#[derive(Debug, Clone, Copy, PartialEq, Eq, Structural)]
pub struct MemoryFootprint {
    /// Resident bytes required by a full-`KV` baseline for the configured span.
    pub baseline_kv_bytes: usize,
    /// Scratch bytes required by one `CFR` page.
    pub cfr_scratch_bytes: usize,
    /// Hot-cache bytes resident after the step.
    pub cfr_hot_cache_bytes: usize,
    /// Total `CFR` resident bytes counted by the validation harness.
    pub cfr_resident_bytes: usize,
}

/// The footprint of a validation step, or the first computation that
/// overflows: the baseline holds K and V of every context token for every
/// layer and K/V head, `CFR` holds one scratch page and the hot cache.
pub open spec fn footprint_spec(
    config: Config,
    kv_heads: u32,
    layers: u32,
    context_tokens: usize,
    hot_cache_bytes: usize,
) -> Result<MemoryFootprint> {
    let one = kv_bytes_spec(context_tokens as int, config.head_dim as int);
    let scratch = kv_bytes_spec(config.page_tokens as int, config.head_dim as int);
    if one > usize::MAX {
        Err(CfrError::CapacityOverflow { name: "validation baseline one head" })
    } else if one * layers > usize::MAX {
        Err(CfrError::CapacityOverflow { name: "validation baseline layers" })
    } else if one * layers * kv_heads > usize::MAX {
        Err(CfrError::CapacityOverflow { name: "validation baseline kv heads" })
    } else if scratch > usize::MAX {
        Err(CfrError::CapacityOverflow { name: "validation CFR scratch bytes" })
    } else if scratch + hot_cache_bytes > usize::MAX {
        Err(CfrError::CapacityOverflow { name: "validation CFR resident bytes" })
    } else {
        Ok(
            MemoryFootprint {
                baseline_kv_bytes: (one * layers * kv_heads) as usize,
                cfr_scratch_bytes: scratch as usize,
                cfr_hot_cache_bytes: hot_cache_bytes,
                cfr_resident_bytes: (scratch + hot_cache_bytes) as usize,
            },
        )
    }
}

/// Computes the resident-memory footprint of a validation step.
pub fn memory_footprint(
    config: &Config,
    topology: AttentionTopology,
    layers: u32,
    context_tokens: usize,
    hot_cache_bytes: usize,
) -> (res: Result<MemoryFootprint>)
    ensures
        res == footprint_spec(
            *config,
            topology.spec_kv_heads(),
            layers,
            context_tokens,
            hot_cache_bytes,
        ),
{
    let layer_count = u32_to_usize("validation layers", layers)?;
    let kv_heads = u32_to_usize("validation kv_heads", topology.kv_heads())?;
    let one_head_bytes = checked_kv_bytes(
        "validation baseline one head",
        context_tokens,
        config.head_dim,
    )?;
    let all_layer_bytes = checked_mul("validation baseline layers", one_head_bytes, layer_count)?;
    let baseline_kv_bytes = checked_mul(
        "validation baseline kv heads",
        all_layer_bytes,
        kv_heads,
    )?;
    let cfr_scratch_bytes = checked_kv_bytes(
        "validation CFR scratch bytes",
        config.page_tokens,
        config.head_dim,
    )?;
    let cfr_resident_bytes = checked_add(
        "validation CFR resident bytes",
        cfr_scratch_bytes,
        hot_cache_bytes,
    )?;
    Ok(
        MemoryFootprint {
            baseline_kv_bytes,
            cfr_scratch_bytes,
            cfr_hot_cache_bytes: hot_cache_bytes,
            cfr_resident_bytes,
        },
    )
}

/// The first problem of a decode-loop validation plan, in the order the
/// plan is checked: an empty prompt, no sampled layers, query heads or
/// decode steps, an invalid tolerance (one that is not finite or is
/// negative), and a decode step outside the prompt.
pub open spec fn plan_check_spec(
    prompt_len: usize,
    layers: usize,
    query_heads: usize,
    decode_steps: Seq<usize>,
    output_tolerance_valid: bool,
    logit_tolerance_valid: bool,
) -> Result<()> {
    if prompt_len == 0 {
        Err(CfrError::InvalidLedger("validation prompt must not be empty"))
    } else if layers == 0 {
        Err(CfrError::InvalidConfig("validation layers must not be empty"))
    } else if query_heads == 0 {
        Err(CfrError::InvalidConfig("validation query_heads must not be empty"))
    } else if decode_steps.len() == 0 {
        Err(CfrError::InvalidConfig("validation decode_steps must not be empty"))
    } else if !output_tolerance_valid {
        Err(CfrError::InvalidConfig("output_tolerance must be finite and non-negative"))
    } else if !logit_tolerance_valid {
        Err(CfrError::InvalidConfig("logit_tolerance must be finite and non-negative"))
    } else if exists|i: int| 0 <= i < decode_steps.len() && decode_steps[i] >= prompt_len {
        Err(CfrError::InvalidLedger("decode step exceeds prompt length"))
    } else {
        Ok(())
    }
}

/// Checks the shape of a decode-loop validation plan: the prompt length,
/// the numbers of sampled layers and query heads, the sampled decode steps
/// and whether each tolerance is finite and non-negative.
pub fn check_validation_plan(
    prompt_len: usize,
    layers: usize,
    query_heads: usize,
    decode_steps: &[usize],
    output_tolerance_valid: bool,
    logit_tolerance_valid: bool,
) -> (res: Result<()>)
    ensures
        res == plan_check_spec(
            prompt_len,
            layers,
            query_heads,
            decode_steps@,
            output_tolerance_valid,
            logit_tolerance_valid,
        ),
{
    if prompt_len == 0 {
        return Err(CfrError::InvalidLedger("validation prompt must not be empty"));
    }
    if layers == 0 {
        return Err(CfrError::InvalidConfig("validation layers must not be empty"));
    }
    if query_heads == 0 {
        return Err(CfrError::InvalidConfig("validation query_heads must not be empty"));
    }
    if decode_steps.len() == 0 {
        return Err(CfrError::InvalidConfig("validation decode_steps must not be empty"));
    }
    if !output_tolerance_valid {
        return Err(CfrError::InvalidConfig("output_tolerance must be finite and non-negative"));
    }
    if !logit_tolerance_valid {
        return Err(CfrError::InvalidConfig("logit_tolerance must be finite and non-negative"));
    }
    let mut i: usize = 0;
    while i < decode_steps.len()
        invariant
            0 <= i <= decode_steps@.len(),
            prompt_len != 0 && layers != 0 && query_heads != 0 && decode_steps@.len() != 0,
            output_tolerance_valid && logit_tolerance_valid,
            forall|j: int| 0 <= j < i ==> decode_steps@[j] < prompt_len,
        decreases decode_steps.len() - i,
    {
        if decode_steps[i] >= prompt_len {
            assert(decode_steps@[i as int] >= prompt_len);
            return Err(CfrError::InvalidLedger("decode step exceeds prompt length"));
        }
        i += 1;
    }
    Ok(())
}

/// The first problem of a single validation step, in the order the step is
/// checked: no layers, a layer out of range, an empty context, an empty
/// vocabulary, an invalid tolerance, and a query that is not one head wide.
pub open spec fn step_check_spec(
    layers: u32,
    layer: u32,
    context_tokens: usize,
    vocab_size: usize,
    output_tolerance_valid: bool,
    logit_tolerance_valid: bool,
    head_dim: usize,
    query_len: usize,
) -> Result<()> {
    if layers == 0 {
        Err(CfrError::InvalidConfig("validation layers must be non-zero"))
    } else if layer >= layers {
        Err(CfrError::InvalidConfig("validation layer is out of range"))
    } else if context_tokens == 0 {
        Err(CfrError::InvalidConfig("validation context_tokens must be non-zero"))
    } else if vocab_size == 0 {
        Err(CfrError::InvalidConfig("validation projector vocab_size must be non-zero"))
    } else if !output_tolerance_valid {
        Err(CfrError::InvalidConfig("output_tolerance must be finite and non-negative"))
    } else if !logit_tolerance_valid {
        Err(CfrError::InvalidConfig("logit_tolerance must be finite and non-negative"))
    } else if head_dim != query_len {
        Err(CfrError::Dimension { name: "validation query", expected: head_dim, got: query_len })
    } else {
        Ok(())
    }
}

/// Checks the shape of a single validation step: the layer count and the
/// validated layer, the context length, the projector's vocabulary size,
/// whether each tolerance is finite and non-negative, and the query width.
pub fn check_validation_step(
    layers: u32,
    layer: u32,
    context_tokens: usize,
    vocab_size: usize,
    output_tolerance_valid: bool,
    logit_tolerance_valid: bool,
    head_dim: usize,
    query_len: usize,
) -> (res: Result<()>)
    ensures
        res == step_check_spec(
            layers,
            layer,
            context_tokens,
            vocab_size,
            output_tolerance_valid,
            logit_tolerance_valid,
            head_dim,
            query_len,
        ),
{
    if layers == 0 {
        return Err(CfrError::InvalidConfig("validation layers must be non-zero"));
    }
    if layer >= layers {
        return Err(CfrError::InvalidConfig("validation layer is out of range"));
    }
    if context_tokens == 0 {
        return Err(CfrError::InvalidConfig("validation context_tokens must be non-zero"));
    }
    if vocab_size == 0 {
        return Err(CfrError::InvalidConfig("validation projector vocab_size must be non-zero"));
    }
    if !output_tolerance_valid {
        return Err(CfrError::InvalidConfig("output_tolerance must be finite and non-negative"));
    }
    if !logit_tolerance_valid {
        return Err(CfrError::InvalidConfig("logit_tolerance must be finite and non-negative"));
    }
    expect_len("validation query", head_dim, query_len)?;
    Ok(())
}

} // verus!
