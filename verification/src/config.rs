//! Runtime configuration and builder validation.
//!
//! Page size, head dimension, hot-cache budget, attention scale and scratch
//! behaviour used by the exact attention core. The attention scale is held as
//! its single-precision bit pattern.

use vstd::prelude::*;
use crate::error::{CfrError, Result};
use crate::layout::{checked_kv_bytes, checked_matrix_len, kv_bytes_spec};

verus! {

/// Runtime configuration for the `CFR-Atlas` attention core.
#[derive(Debug, Clone, PartialEq, Eq, Structural)]
pub struct Config {
    /// Number of tokens per virtual `KV` page.
    pub page_tokens: usize,
    /// Attention head dimension.
    pub head_dim: usize,
    /// Maximum resident hot-cache bytes for K/V pages.
    pub hot_cache_bytes: usize,
    /// Bit pattern of the `f32` attention logit scale, usually `1 / sqrt(head_dim)`.
    pub scale_bits: u32,
    /// Whether regenerated cold pages may be admitted into hot cache.
    pub admit_regenerated_pages: bool,
    /// Upper bound for scratch page tokens. Normally equals `page_tokens`.
    pub max_scratch_tokens: usize,
    /// Whether cold scratch buffers are zeroed after every page.
    pub wipe_scratch_after_use: bool,
}

/// The bit pattern encodes a finite `f32` greater than zero.
pub open spec fn positive_finite_bits(bits: u32) -> bool {
    0 < bits < 0x7f80_0000
}

/// The first validation failure of a configuration, if any.
pub open spec fn config_error(c: Config) -> Option<CfrError> {
    if c.page_tokens == 0 {
        Some(CfrError::InvalidConfig("page_tokens must be non-zero"))
    } else if c.head_dim == 0 {
        Some(CfrError::InvalidConfig("head_dim must be non-zero"))
    } else if c.max_scratch_tokens == 0 {
        Some(CfrError::InvalidConfig("max_scratch_tokens must be non-zero"))
    } else if c.page_tokens > c.max_scratch_tokens {
        Some(CfrError::InvalidConfig("page_tokens must be <= max_scratch_tokens"))
    } else if !positive_finite_bits(c.scale_bits) {
        Some(CfrError::InvalidConfig("scale must be positive and finite"))
    } else if c.page_tokens * c.head_dim > usize::MAX || c.max_scratch_tokens * c.head_dim
        > usize::MAX {
        Some(CfrError::CapacityOverflow { name: "page f32 length" })
    } else if kv_bytes_spec(c.page_tokens as int, c.head_dim as int) > usize::MAX {
        Some(CfrError::CapacityOverflow { name: "KV page bytes" })
    } else {
        None
    }
}

/// The configuration described by builder settings, given the scale used.
pub open spec fn builder_config(b: ConfigBuilderView, scale_bits: u32) -> Config {
    Config {
        page_tokens: b.page_tokens,
        head_dim: b.head_dim,
        hot_cache_bytes: b.hot_cache_bytes,
        scale_bits,
        admit_regenerated_pages: b.admit_regenerated_pages,
        max_scratch_tokens: match b.max_scratch_tokens {
            Some(t) => t,
            None => b.page_tokens,
        },
        wipe_scratch_after_use: b.wipe_scratch_after_use,
    }
}

/// Result of building from settings: the explicit scale or else the default
/// (whose error is reported), then validation.
pub open spec fn build_spec(b: ConfigBuilderView, default_scale_bits: Result<u32>) -> Result<Config> {
    let scale = match b.scale_bits {
        Some(s) => Ok(s),
        None => default_scale_bits,
    };
    match scale {
        Err(e) => Err(e),
        Ok(s) => match config_error(builder_config(b, s)) {
            Some(e) => Err(e),
            None => Ok(builder_config(b, s)),
        },
    }
}

/// A configuration that passes validation.
pub open spec fn config_valid(c: Config) -> bool {
    config_error(c) is None
}

impl Config {
    /// Creates a validated configuration with the given default scale and no
    /// explicit scale override.
    pub fn new(
        page_tokens: usize,
        head_dim: usize,
        hot_cache_bytes: usize,
        default_scale_bits: Result<u32>,
    ) -> (res: Result<Self>)
        ensures
            res == build_spec(
                ConfigBuilderView {
                    page_tokens,
                    head_dim,
                    hot_cache_bytes,
                    scale_bits: None,
                    admit_regenerated_pages: false,
                    max_scratch_tokens: None,
                    wipe_scratch_after_use: true,
                },
                default_scale_bits,
            ),
    {
        Self::builder(page_tokens, head_dim).hot_cache_bytes(hot_cache_bytes).build(
            default_scale_bits,
        )
    }

    /// Starts a builder with required page and head dimensions.
    pub fn builder(page_tokens: usize, head_dim: usize) -> (b: ConfigBuilder)
        ensures
            b@ == (ConfigBuilderView {
                page_tokens,
                head_dim,
                hot_cache_bytes: 0,
                scale_bits: None,
                admit_regenerated_pages: false,
                max_scratch_tokens: None,
                wipe_scratch_after_use: true,
            }),
    {
        ConfigBuilder {
            page_tokens,
            head_dim,
            hot_cache_bytes: 0,
            scale_bits: None,
            admit_regenerated_pages: false,
            max_scratch_tokens: None,
            wipe_scratch_after_use: true,
        }
    }

    /// Number of values required for one K or V matrix page.
    pub fn page_f32_len(&self, tokens: usize) -> (res: Result<usize>)
        ensures
            tokens * self.head_dim <= usize::MAX ==> res == Ok::<usize, CfrError>(
                (tokens * self.head_dim) as usize,
            ),
            tokens * self.head_dim > usize::MAX ==> res == Err::<usize, CfrError>(
                CfrError::CapacityOverflow { name: "page f32 length" },
            ),
    {
        checked_matrix_len("page f32 length", tokens, self.head_dim)
    }

    /// Number of bytes required for K and V together for `tokens` rows.
    pub fn kv_page_bytes(&self, tokens: usize) -> (res: Result<usize>)
        ensures
            kv_bytes_spec(tokens as int, self.head_dim as int) <= usize::MAX ==> res == Ok::<
                usize,
                CfrError,
            >(kv_bytes_spec(tokens as int, self.head_dim as int) as usize),
            kv_bytes_spec(tokens as int, self.head_dim as int) > usize::MAX ==> res == Err::<
                usize,
                CfrError,
            >(CfrError::CapacityOverflow { name: "KV page bytes" }),
    {
        checked_kv_bytes("KV page bytes", tokens, self.head_dim)
    }

    /// Validates the configuration.
    pub fn validate(&self) -> (res: Result<()>)
        ensures
            config_error(*self) matches Some(e) ==> res == Err::<(), CfrError>(e),
            config_error(*self) is None ==> res is Ok,
    {
        if self.page_tokens == 0 {
            return Err(CfrError::InvalidConfig("page_tokens must be non-zero"));
        }
        if self.head_dim == 0 {
            return Err(CfrError::InvalidConfig("head_dim must be non-zero"));
        }
        if self.max_scratch_tokens == 0 {
            return Err(CfrError::InvalidConfig("max_scratch_tokens must be non-zero"));
        }
        if self.page_tokens > self.max_scratch_tokens {
            return Err(CfrError::InvalidConfig("page_tokens must be <= max_scratch_tokens"));
        }
        if !(0 < self.scale_bits && self.scale_bits < 0x7f80_0000) {
            return Err(CfrError::InvalidConfig("scale must be positive and finite"));
        }
        self.page_f32_len(self.page_tokens)?;
        self.page_f32_len(self.max_scratch_tokens)?;
        self.kv_page_bytes(self.page_tokens)?;
        Ok(())
    }
}

/// Builder for [`Config`].
#[derive(Debug, Clone, PartialEq, Eq, Structural)]
pub struct ConfigBuilder {
    page_tokens: usize,
    head_dim: usize,
    hot_cache_bytes: usize,
    scale_bits: Option<u32>,
    admit_regenerated_pages: bool,
    max_scratch_tokens: Option<usize>,
    wipe_scratch_after_use: bool,
}

/// Settings collected by a [`ConfigBuilder`].
pub struct ConfigBuilderView {
    /// Page size.
    pub page_tokens: usize,
    /// Head dimension.
    pub head_dim: usize,
    /// Hot-cache budget.
    pub hot_cache_bytes: usize,
    /// Explicit scale, if set.
    pub scale_bits: Option<u32>,
    /// Admission of regenerated pages.
    pub admit_regenerated_pages: bool,
    /// Explicit scratch capacity, if set.
    pub max_scratch_tokens: Option<usize>,
    /// Scratch wiping.
    pub wipe_scratch_after_use: bool,
}

impl View for ConfigBuilder {
    type V = ConfigBuilderView;

    closed spec fn view(&self) -> ConfigBuilderView {
        ConfigBuilderView {
            page_tokens: self.page_tokens,
            head_dim: self.head_dim,
            hot_cache_bytes: self.hot_cache_bytes,
            scale_bits: self.scale_bits,
            admit_regenerated_pages: self.admit_regenerated_pages,
            max_scratch_tokens: self.max_scratch_tokens,
            wipe_scratch_after_use: self.wipe_scratch_after_use,
        }
    }
}

impl ConfigBuilder {
    /// Sets the resident hot-cache budget in bytes.
    pub fn hot_cache_bytes(self, bytes: usize) -> (b: Self)
        ensures
            b@ == (ConfigBuilderView { hot_cache_bytes: bytes, ..self@ }),
    {
        ConfigBuilder { hot_cache_bytes: bytes, ..self }
    }

    /// The head dimension the configuration is built for.
    pub fn head_dim(&self) -> (n: usize)
        ensures
            n == self@.head_dim,
    {
        self.head_dim
    }

    /// Sets a custom attention scale (its `f32` bit pattern).
    pub fn scale(self, scale_bits: u32) -> (b: Self)
        ensures
            b@ == (ConfigBuilderView { scale_bits: Some(scale_bits), ..self@ }),
    {
        ConfigBuilder { scale_bits: Some(scale_bits), ..self }
    }

    /// Allows or disables insertion of regenerated pages into the hot cache.
    pub fn admit_regenerated_pages(self, enabled: bool) -> (b: Self)
        ensures
            b@ == (ConfigBuilderView { admit_regenerated_pages: enabled, ..self@ }),
    {
        ConfigBuilder { admit_regenerated_pages: enabled, ..self }
    }

    /// Sets the maximum scratch token capacity.
    pub fn max_scratch_tokens(self, tokens: usize) -> (b: Self)
        ensures
            b@ == (ConfigBuilderView { max_scratch_tokens: Some(tokens), ..self@ }),
    {
        ConfigBuilder { max_scratch_tokens: Some(tokens), ..self }
    }

    /// Enables or disables wiping scratch buffers after each cold page.
    pub fn wipe_scratch_after_use(self, enabled: bool) -> (b: Self)
        ensures
            b@ == (ConfigBuilderView { wipe_scratch_after_use: enabled, ..self@ }),
    {
        ConfigBuilder { wipe_scratch_after_use: enabled, ..self }
    }

    /// What [`ConfigBuilder::build`] returns.
    pub open spec fn spec_build(self, default_scale_bits: Result<u32>) -> Result<Config> {
        build_spec(self@, default_scale_bits)
    }

    /// Builds and validates the configuration. `default_scale_bits` is the
    /// scale used when none was set: normally the `f32` bit pattern of
    /// `1 / sqrt(head_dim)`, or the error computing it reports.
    pub fn build(self, default_scale_bits: Result<u32>) -> (res: Result<Config>)
        ensures
            res == self.spec_build(default_scale_bits),
            res matches Ok(c) ==> config_valid(c),
    {
        let scale_bits = match self.scale_bits {
            Some(scale) => scale,
            None => default_scale_bits?,
        };
        let config = Config {
            page_tokens: self.page_tokens,
            head_dim: self.head_dim,
            hot_cache_bytes: self.hot_cache_bytes,
            scale_bits,
            admit_regenerated_pages: self.admit_regenerated_pages,
            max_scratch_tokens: match self.max_scratch_tokens {
                Some(tokens) => tokens,
                None => self.page_tokens,
            },
            wipe_scratch_after_use: self.wipe_scratch_after_use,
        };
        config.validate()?;
        Ok(config)
    }
}

} // verus!
