//! Versioned configuration schema for stable embedding and release upgrades.
//!
//! A [`Config`] is written as deterministic newline-separated `key=value`
//! lines, headed by the schema marker and its version. Reading goes line by
//! line through [`ConfigFields::accept_line`]. The text of the `scale` field is
//! handed back to the caller, who reads it as an `f32` and passes its bit
//! pattern (or `None` when the text is no number) to
//! [`ConfigFields::accept_scale`]; [`ConfigFields::finish`] then requires every
//! field and validates the result. [`VersionedConfig::decode`] runs these
//! steps over a whole text, with the scale texts read beforehand.

use vstd::prelude::*;
use vstd::string::StrSliceExecFns;
use vstd::string::StringExecFns;
use crate::config::{config_error, config_valid, positive_finite_bits, Config};
use crate::error::{CfrError, Result};
use crate::text::{
    chars_of, decimal_spec, find_char, is_digit, is_space, lemma_decimal_digits,
    lemma_parse_decimal, lemma_prefix_before_at, lemma_trim_noop, lines_spec, parse_unsigned,
    parse_unsigned_spec, prefix_before, push_decimal, split_lines, str_eq, trim_bounds, trim_spec,
};

verus! {

/// Current version of the `CFR-Atlas` configuration schema.
pub const CONFIG_SCHEMA_VERSION: u32 = 1;

/// Key of the line that carries the schema version.
pub open spec fn magic() -> Seq<char> {
    "cfr_atlas_config_schema"@
}

/// Text of a boolean field value.
pub open spec fn bool_text(b: bool) -> Seq<char> {
    if b {
        "true"@
    } else {
        "false"@
    }
}

/// One encoded line: key, `=`, value and the line end.
pub open spec fn field_line(key: Seq<char>, value: Seq<char>) -> Seq<char> {
    key + seq!['='] + value + seq!['\n']
}

/// The encoded text of a configuration whose scale is written as `scale`.
pub open spec fn encode_spec(c: Config, scale: Seq<char>) -> Seq<char> {
    field_line(magic(), decimal_spec(CONFIG_SCHEMA_VERSION as nat)) + field_line(
        "page_tokens"@,
        decimal_spec(c.page_tokens as nat),
    ) + field_line("head_dim"@, decimal_spec(c.head_dim as nat)) + field_line(
        "hot_cache_bytes"@,
        decimal_spec(c.hot_cache_bytes as nat),
    ) + field_line("scale"@, scale) + field_line(
        "admit_regenerated_pages"@,
        bool_text(c.admit_regenerated_pages),
    ) + field_line("max_scratch_tokens"@, decimal_spec(c.max_scratch_tokens as nat))
        + field_line("wipe_scratch_after_use"@, bool_text(c.wipe_scratch_after_use))
}

/// Runtime configuration bundled with an explicit schema version.
#[derive(Debug)]
pub struct VersionedConfig {
    schema_version: u32,
    config: Config,
}

impl View for VersionedConfig {
    type V = Config;

    closed spec fn view(&self) -> Config {
        self.config
    }
}

impl Clone for VersionedConfig {
    fn clone(&self) -> (r: Self)
        ensures
            r@ == self@,
    {
        proof {
            use_type_invariant(self);
        }
        VersionedConfig {
            schema_version: self.schema_version,
            config: Config {
                page_tokens: self.config.page_tokens,
                head_dim: self.config.head_dim,
                hot_cache_bytes: self.config.hot_cache_bytes,
                scale_bits: self.config.scale_bits,
                admit_regenerated_pages: self.config.admit_regenerated_pages,
                max_scratch_tokens: self.config.max_scratch_tokens,
                wipe_scratch_after_use: self.config.wipe_scratch_after_use,
            },
        }
    }
}

impl VersionedConfig {
    #[verifier::type_invariant]
    spec fn well_formed(self) -> bool {
        self.schema_version == CONFIG_SCHEMA_VERSION && config_valid(self.config)
    }

    /// Wraps a validated [`Config`] with the current schema version.
    pub fn new(config: Config) -> (res: Result<Self>)
        ensures
            config_error(config) matches Some(e) ==> res == Err::<VersionedConfig, CfrError>(e),
            config_error(config) is None ==> res is Ok && res->Ok_0@ == config,
    {
        config.validate()?;
        Ok(VersionedConfig { schema_version: CONFIG_SCHEMA_VERSION, config })
    }

    /// Returns the schema version carried by this value.
    pub fn schema_version(&self) -> (v: u32)
        ensures
            v == CONFIG_SCHEMA_VERSION,
    {
        proof {
            use_type_invariant(self);
        }
        self.schema_version
    }

    /// Returns the wrapped runtime config.
    pub fn config(&self) -> (c: &Config)
        ensures
            *c == self@,
            config_valid(*c),
    {
        proof {
            use_type_invariant(self);
        }
        &self.config
    }

    /// Consumes the wrapper and returns the runtime config.
    pub fn into_config(self) -> (c: Config)
        ensures
            c == self@,
            config_valid(c),
    {
        proof {
            use_type_invariant(&self);
        }
        self.config
    }

    /// Encodes the configuration as deterministic newline-separated key/value
    /// pairs; `scale_text` is the text written for the attention scale.
    pub fn encode_with_scale(&self, scale_text: &str) -> (text: String)
        ensures
            text@ == encode_spec(self@, scale_text@),
    {
        proof {
            use_type_invariant(self);
        }
        let c = &self.config;
        let mut out = String::new();
        push_decimal_line(&mut out, "cfr_atlas_config_schema", self.schema_version as u64);
        push_decimal_line(&mut out, "page_tokens", c.page_tokens as u64);
        push_decimal_line(&mut out, "head_dim", c.head_dim as u64);
        push_decimal_line(&mut out, "hot_cache_bytes", c.hot_cache_bytes as u64);
        push_text_line(&mut out, "scale", scale_text);
        push_text_line(&mut out, "admit_regenerated_pages", bool_str(c.admit_regenerated_pages));
        push_decimal_line(&mut out, "max_scratch_tokens", c.max_scratch_tokens as u64);
        push_text_line(&mut out, "wipe_scratch_after_use", bool_str(c.wipe_scratch_after_use));
        assert(out@ =~= encode_spec(self@, scale_text@));
        out
    }
}

fn bool_str(b: bool) -> (s: &'static str)
    ensures
        s@ == bool_text(b),
{
    if b {
        "true"
    } else {
        "false"
    }
}

fn push_text_line(out: &mut String, key: &str, value: &str)
    ensures
        final(out)@ == old(out)@ + field_line(key@, value@),
{
    out.append(key);
    out.append("=");
    out.append(value);
    out.append("\n");
    proof {
        reveal_strlit("=");
        reveal_strlit("\n");
        assert(final(out)@ =~= old(out)@ + field_line(key@, value@));
    }
}

fn push_decimal_line(out: &mut String, key: &str, value: u64)
    ensures
        final(out)@ == old(out)@ + field_line(key@, decimal_spec(value as nat)),
{
    out.append(key);
    out.append("=");
    push_decimal(out, value);
    out.append("\n");
    proof {
        reveal_strlit("=");
        reveal_strlit("\n");
        assert(final(out)@ =~= old(out)@ + field_line(key@, decimal_spec(value as nat)));
    }
}

/// Fields read so far from a configuration text.
#[derive(Debug, Clone, Copy, PartialEq, Eq, Structural)]
pub struct ConfigFields {
    /// Schema version.
    pub schema_version: Option<u32>,
    /// Page size.
    pub page_tokens: Option<usize>,
    /// Head dimension.
    pub head_dim: Option<usize>,
    /// Hot-cache budget.
    pub hot_cache_bytes: Option<usize>,
    /// Bit pattern of the attention scale.
    pub scale_bits: Option<u32>,
    /// Admission of regenerated pages.
    pub admit_regenerated_pages: Option<bool>,
    /// Scratch capacity.
    pub max_scratch_tokens: Option<usize>,
    /// Scratch wiping.
    pub wipe_scratch_after_use: Option<bool>,
}

/// No field read yet.
pub open spec fn no_fields() -> ConfigFields {
    ConfigFields {
        schema_version: None,
        page_tokens: None,
        head_dim: None,
        hot_cache_bytes: None,
        scale_bits: None,
        admit_regenerated_pages: None,
        max_scratch_tokens: None,
        wipe_scratch_after_use: None,
    }
}

/// Outcome of one accepted line: the fields after it, and the text of the
/// scale value when the line was the `scale` field.
pub struct LineStep {
    /// Fields after the line.
    pub fields: ConfigFields,
    /// Scale text still to be read as a number.
    pub scale_text: Option<Seq<char>>,
}

/// A line that only changes the fields.
pub open spec fn fields_step(f: ConfigFields) -> Result<LineStep> {
    Ok(LineStep { fields: f, scale_text: None })
}

/// Reading an unsigned field of at most `max` into a slot.
pub open spec fn unsigned_slot(
    slot: Option<usize>,
    value: Seq<char>,
    invalid: &'static str,
    duplicate: &'static str,
) -> Result<usize> {
    match parse_unsigned_spec(value, usize::MAX as int) {
        None => Err(CfrError::InvalidConfig(invalid)),
        Some(v) => if slot is Some {
            Err(CfrError::InvalidConfig(duplicate))
        } else {
            Ok(v as usize)
        },
    }
}

/// Reading a boolean field into a slot.
pub open spec fn bool_slot(slot: Option<bool>, value: Seq<char>, duplicate: &'static str) -> Result<
    bool,
> {
    if value != "true"@ && value != "false"@ {
        Err(CfrError::InvalidConfig("invalid boolean config value"))
    } else if slot is Some {
        Err(CfrError::InvalidConfig(duplicate))
    } else {
        Ok(value == "true"@)
    }
}

/// What a `key=value` field does to the fields read so far.
pub open spec fn accept_field_spec(f: ConfigFields, key: Seq<char>, value: Seq<char>) -> Result<
    LineStep,
> {
    if key == magic() {
        match parse_unsigned_spec(value, u32::MAX as int) {
            None => Err(CfrError::InvalidConfig("invalid config schema version")),
            Some(v) => if f.schema_version is Some {
                Err(CfrError::InvalidConfig("duplicate config schema version"))
            } else {
                fields_step(ConfigFields { schema_version: Some(v as u32), ..f })
            },
        }
    } else if key == "page_tokens"@ {
        match unsigned_slot(f.page_tokens, value, "invalid page_tokens", "duplicate page_tokens") {
            Err(e) => Err(e),
            Ok(v) => fields_step(ConfigFields { page_tokens: Some(v), ..f }),
        }
    } else if key == "head_dim"@ {
        match unsigned_slot(f.head_dim, value, "invalid head_dim", "duplicate head_dim") {
            Err(e) => Err(e),
            Ok(v) => fields_step(ConfigFields { head_dim: Some(v), ..f }),
        }
    } else if key == "hot_cache_bytes"@ {
        match unsigned_slot(
            f.hot_cache_bytes,
            value,
            "invalid hot_cache_bytes",
            "duplicate hot_cache_bytes",
        ) {
            Err(e) => Err(e),
            Ok(v) => fields_step(ConfigFields { hot_cache_bytes: Some(v), ..f }),
        }
    } else if key == "scale"@ {
        Ok(LineStep { fields: f, scale_text: Some(value) })
    } else if key == "admit_regenerated_pages"@ {
        match bool_slot(f.admit_regenerated_pages, value, "duplicate admit_regenerated_pages") {
            Err(e) => Err(e),
            Ok(b) => fields_step(ConfigFields { admit_regenerated_pages: Some(b), ..f }),
        }
    } else if key == "max_scratch_tokens"@ {
        match unsigned_slot(
            f.max_scratch_tokens,
            value,
            "invalid max_scratch_tokens",
            "duplicate max_scratch_tokens",
        ) {
            Err(e) => Err(e),
            Ok(v) => fields_step(ConfigFields { max_scratch_tokens: Some(v), ..f }),
        }
    } else if key == "wipe_scratch_after_use"@ {
        match bool_slot(f.wipe_scratch_after_use, value, "duplicate wipe_scratch_after_use") {
            Err(e) => Err(e),
            Ok(b) => fields_step(ConfigFields { wipe_scratch_after_use: Some(b), ..f }),
        }
    } else {
        Err(CfrError::InvalidConfig("unknown config schema field"))
    }
}

/// What one line of text does to the fields read so far: blank lines are
/// skipped, other lines must hold `=` between a key and a value, each
/// trimmed of whitespace.
pub open spec fn accept_line_spec(f: ConfigFields, line: Seq<char>) -> Result<LineStep> {
    let t = trim_spec(line);
    if t.len() == 0 {
        fields_step(f)
    } else {
        let i = prefix_before(t, '=');
        if i >= t.len() {
            Err(CfrError::InvalidConfig("invalid config schema line"))
        } else {
            accept_field_spec(f, trim_spec(t.take(i)), trim_spec(t.skip(i + 1)))
        }
    }
}

/// What the scale read from its text (`None` when it is no number) does to
/// the fields read so far.
pub open spec fn accept_scale_spec(f: ConfigFields, parsed: Option<u32>) -> Result<ConfigFields> {
    match parsed {
        None => Err(CfrError::InvalidConfig("invalid scale")),
        Some(bits) => if !positive_finite_bits(bits) {
            Err(CfrError::InvalidConfig("scale must be positive and finite"))
        } else if f.scale_bits is Some {
            Err(CfrError::InvalidConfig("duplicate scale"))
        } else {
            Ok(ConfigFields { scale_bits: Some(bits), ..f })
        },
    }
}

/// The configuration described by complete fields, or the first missing
/// field, an unsupported version, or the validation failure.
pub open spec fn finish_spec(f: ConfigFields) -> Result<Config> {
    if f.schema_version is None {
        Err(CfrError::InvalidConfig("missing config schema version"))
    } else if f.schema_version->0 != CONFIG_SCHEMA_VERSION {
        Err(CfrError::InvalidConfig("unsupported config schema version"))
    } else if f.page_tokens is None {
        Err(CfrError::InvalidConfig("missing page_tokens"))
    } else if f.head_dim is None {
        Err(CfrError::InvalidConfig("missing head_dim"))
    } else if f.hot_cache_bytes is None {
        Err(CfrError::InvalidConfig("missing hot_cache_bytes"))
    } else if f.scale_bits is None {
        Err(CfrError::InvalidConfig("missing scale"))
    } else if f.admit_regenerated_pages is None {
        Err(CfrError::InvalidConfig("missing admit_regenerated_pages"))
    } else if f.max_scratch_tokens is None {
        Err(CfrError::InvalidConfig("missing max_scratch_tokens"))
    } else if f.wipe_scratch_after_use is None {
        Err(CfrError::InvalidConfig("missing wipe_scratch_after_use"))
    } else {
        let c = Config {
            page_tokens: f.page_tokens->0,
            head_dim: f.head_dim->0,
            hot_cache_bytes: f.hot_cache_bytes->0,
            scale_bits: f.scale_bits->0,
            admit_regenerated_pages: f.admit_regenerated_pages->0,
            max_scratch_tokens: f.max_scratch_tokens->0,
            wipe_scratch_after_use: f.wipe_scratch_after_use->0,
        };
        match config_error(c) {
            Some(e) => Err(e),
            None => Ok(c),
        }
    }
}

/// Reading lines `i..` of a text, where `parse` reads a scale text as the bit
/// pattern of an `f32` (or `None`).
pub open spec fn decode_lines_spec(
    f: ConfigFields,
    lines: Seq<Seq<char>>,
    i: int,
    parse: spec_fn(Seq<char>) -> Option<u32>,
) -> Result<ConfigFields>
    decreases lines.len() - i,
{
    if i < 0 || i >= lines.len() {
        Ok(f)
    } else {
        match accept_line_spec(f, lines[i]) {
            Err(e) => Err(e),
            Ok(step) => match step.scale_text {
                None => decode_lines_spec(step.fields, lines, i + 1, parse),
                Some(t) => match accept_scale_spec(step.fields, parse(t)) {
                    Err(e) => Err(e),
                    Ok(g) => decode_lines_spec(g, lines, i + 1, parse),
                },
            },
        }
    }
}

/// Decoding a whole text, where `parse` reads a scale text as the bit pattern
/// of an `f32` (or `None`).
pub open spec fn decode_spec(input: Seq<char>, parse: spec_fn(Seq<char>) -> Option<u32>) -> Result<
    Config,
> {
    match decode_lines_spec(no_fields(), lines_spec(input), 0, parse) {
        Err(e) => Err(e),
        Ok(f) => finish_spec(f),
    }
}

/// The view of an optional string.
pub open spec fn opt_text(o: Option<String>) -> Option<Seq<char>> {
    match o {
        Some(s) => Some(s@),
        None => None,
    }
}

/// Stores `value` in an empty slot; a filled slot is a duplicate field.
pub fn set_once<T>(slot: &mut Option<T>, value: T, error: &'static str) -> (res: Result<()>)
    ensures
        (*old(slot)) is Some ==> res == Err::<(), CfrError>(CfrError::InvalidConfig(error))
            && *final(slot) == *old(slot),
        (*old(slot)) is None ==> res is Ok && *final(slot) == Some(value),
{
    if slot.is_some() {
        return Err(CfrError::InvalidConfig(error));
    }
    *slot = Some(value);
    Ok(())
}

/// Parses a `u32` field value as `u32::from_str` does.
pub fn parse_u32(value: &str, error: &'static str) -> (res: Result<u32>)
    ensures
        match parse_unsigned_spec(value@, u32::MAX as int) {
            Some(v) => res == Ok::<u32, CfrError>(v as u32),
            None => res == Err::<u32, CfrError>(CfrError::InvalidConfig(error)),
        },
{
    let chars = chars_of(value);
    assert(chars@.subrange(0, chars@.len() as int) =~= value@);
    match parse_unsigned(chars.as_slice(), 0, chars.len(), u32::MAX as u64) {
        Some(v) => Ok(v as u32),
        None => Err(CfrError::InvalidConfig(error)),
    }
}

/// Parses a `usize` field value as `usize::from_str` does.
pub fn parse_usize(value: &str, error: &'static str) -> (res: Result<usize>)
    ensures
        match parse_unsigned_spec(value@, usize::MAX as int) {
            Some(v) => res == Ok::<usize, CfrError>(v as usize),
            None => res == Err::<usize, CfrError>(CfrError::InvalidConfig(error)),
        },
{
    let chars = chars_of(value);
    assert(chars@.subrange(0, chars@.len() as int) =~= value@);
    match parse_unsigned(chars.as_slice(), 0, chars.len(), usize::MAX as u64) {
        Some(v) => Ok(v as usize),
        None => Err(CfrError::InvalidConfig(error)),
    }
}

/// Parses `true` or `false`.
pub fn parse_bool(value: &str) -> (res: Result<bool>)
    ensures
        value@ == "true"@ ==> res == Ok::<bool, CfrError>(true),
        value@ == "false"@ ==> res == Ok::<bool, CfrError>(false),
        value@ != "true"@ && value@ != "false"@ ==> res == Err::<bool, CfrError>(
            CfrError::InvalidConfig("invalid boolean config value"),
        ),
{
    proof {
        reveal_strlit("true");
        reveal_strlit("false");
        assert("true"@.len() != "false"@.len());
    }
    if str_eq(value, "true") {
        Ok(true)
    } else if str_eq(value, "false") {
        Ok(false)
    } else {
        Err(CfrError::InvalidConfig("invalid boolean config value"))
    }
}

/// The value of a required `u32` field.
pub fn require_u32(value: Option<u32>, error: &'static str) -> (res: Result<u32>)
    ensures
        match value {
            Some(v) => res == Ok::<u32, CfrError>(v),
            None => res == Err::<u32, CfrError>(CfrError::InvalidConfig(error)),
        },
{
    match value {
        Some(v) => Ok(v),
        None => Err(CfrError::InvalidConfig(error)),
    }
}

/// The value of a required `usize` field.
pub fn require_usize(value: Option<usize>, error: &'static str) -> (res: Result<usize>)
    ensures
        match value {
            Some(v) => res == Ok::<usize, CfrError>(v),
            None => res == Err::<usize, CfrError>(CfrError::InvalidConfig(error)),
        },
{
    match value {
        Some(v) => Ok(v),
        None => Err(CfrError::InvalidConfig(error)),
    }
}

/// The value of a required boolean field.
pub fn require_bool(value: Option<bool>, error: &'static str) -> (res: Result<bool>)
    ensures
        match value {
            Some(v) => res == Ok::<bool, CfrError>(v),
            None => res == Err::<bool, CfrError>(CfrError::InvalidConfig(error)),
        },
{
    match value {
        Some(v) => Ok(v),
        None => Err(CfrError::InvalidConfig(error)),
    }
}

impl ConfigFields {
    /// No field read yet.
    pub fn new() -> (f: Self)
        ensures
            f == no_fields(),
    {
        ConfigFields {
            schema_version: None,
            page_tokens: None,
            head_dim: None,
            hot_cache_bytes: None,
            scale_bits: None,
            admit_regenerated_pages: None,
            max_scratch_tokens: None,
            wipe_scratch_after_use: None,
        }
    }

    /// Reads one line of configuration text. Returns the text of the scale
    /// value when the line is the `scale` field; the caller reads it and
    /// passes the result to [`ConfigFields::accept_scale`].
    pub fn accept_line(&mut self, line: &str) -> (res: Result<Option<String>>)
        ensures
            match accept_line_spec(*old(self), line@) {
                Ok(step) => res is Ok && *final(self) == step.fields && opt_text(res->Ok_0)
                    == step.scale_text,
                Err(e) => res == Err::<Option<String>, CfrError>(e) && *final(self) == *old(self),
            },
    {
        let chars = chars_of(line);
        let n = chars.len();
        let (a, b) = trim_bounds(chars.as_slice(), 0, n);
        proof {
            assert(chars@.subrange(0, n as int) =~= line@);
        }
        if a == b {
            return Ok(None);
        }
        let eq = find_char(chars.as_slice(), a, b, '=');
        if eq == b {
            return Err(CfrError::InvalidConfig("invalid config schema line"));
        }
        let (ka, kb) = trim_bounds(chars.as_slice(), a, eq);
        let (va, vb) = trim_bounds(chars.as_slice(), eq + 1, b);
        proof {
            let t = chars@.subrange(a as int, b as int);
            assert(t.take(eq - a) =~= chars@.subrange(a as int, eq as int));
            assert(t.skip(eq - a + 1) =~= chars@.subrange(eq + 1, b as int));
        }
        let key = line.substring_char(ka, kb);
        let value = line.substring_char(va, vb);
        self.accept_field(key, value)
    }

    /// Reads one trimmed `key=value` field.
    pub fn accept_field(&mut self, key: &str, value: &str) -> (res: Result<Option<String>>)
        ensures
            match accept_field_spec(*old(self), key@, value@) {
                Ok(step) => res is Ok && *final(self) == step.fields && opt_text(res->Ok_0)
                    == step.scale_text,
                Err(e) => res == Err::<Option<String>, CfrError>(e) && *final(self) == *old(self),
            },
    {
        if str_eq(key, "cfr_atlas_config_schema") {
            let v = parse_u32(value, "invalid config schema version")?;
            set_once(&mut self.schema_version, v, "duplicate config schema version")?;
            Ok(None)
        } else if str_eq(key, "page_tokens") {
            let v = parse_usize(value, "invalid page_tokens")?;
            set_once(&mut self.page_tokens, v, "duplicate page_tokens")?;
            Ok(None)
        } else if str_eq(key, "head_dim") {
            let v = parse_usize(value, "invalid head_dim")?;
            set_once(&mut self.head_dim, v, "duplicate head_dim")?;
            Ok(None)
        } else if str_eq(key, "hot_cache_bytes") {
            let v = parse_usize(value, "invalid hot_cache_bytes")?;
            set_once(&mut self.hot_cache_bytes, v, "duplicate hot_cache_bytes")?;
            Ok(None)
        } else if str_eq(key, "scale") {
            Ok(Some(String::from_str(value)))
        } else if str_eq(key, "admit_regenerated_pages") {
            let v = parse_bool(value)?;
            set_once(&mut self.admit_regenerated_pages, v, "duplicate admit_regenerated_pages")?;
            Ok(None)
        } else if str_eq(key, "max_scratch_tokens") {
            let v = parse_usize(value, "invalid max_scratch_tokens")?;
            set_once(&mut self.max_scratch_tokens, v, "duplicate max_scratch_tokens")?;
            Ok(None)
        } else if str_eq(key, "wipe_scratch_after_use") {
            let v = parse_bool(value)?;
            set_once(&mut self.wipe_scratch_after_use, v, "duplicate wipe_scratch_after_use")?;
            Ok(None)
        } else {
            Err(CfrError::InvalidConfig("unknown config schema field"))
        }
    }

    /// Records the scale read from the text of the `scale` field: its `f32`
    /// bit pattern, or `None` when the text is no number.
    pub fn accept_scale(&mut self, parsed: Option<u32>) -> (res: Result<()>)
        ensures
            match accept_scale_spec(*old(self), parsed) {
                Ok(g) => res is Ok && *final(self) == g,
                Err(e) => res == Err::<(), CfrError>(e) && *final(self) == *old(self),
            },
    {
        let bits = match parsed {
            Some(bits) => bits,
            None => return Err(CfrError::InvalidConfig("invalid scale")),
        };
        if !(0 < bits && bits < 0x7f80_0000) {
            return Err(CfrError::InvalidConfig("scale must be positive and finite"));
        }
        set_once(&mut self.scale_bits, bits, "duplicate scale")
    }

    /// Requires every field, the current schema version and a valid
    /// configuration.
    pub fn finish(self) -> (res: Result<VersionedConfig>)
        ensures
            match finish_spec(self) {
                Ok(c) => res is Ok && res->Ok_0@ == c,
                Err(e) => res == Err::<VersionedConfig, CfrError>(e),
            },
    {
        let schema_version = require_u32(self.schema_version, "missing config schema version")?;
        if schema_version != CONFIG_SCHEMA_VERSION {
            return Err(CfrError::InvalidConfig("unsupported config schema version"));
        }
        let config = Config {
            page_tokens: require_usize(self.page_tokens, "missing page_tokens")?,
            head_dim: require_usize(self.head_dim, "missing head_dim")?,
            hot_cache_bytes: require_usize(self.hot_cache_bytes, "missing hot_cache_bytes")?,
            scale_bits: require_u32(self.scale_bits, "missing scale")?,
            admit_regenerated_pages: require_bool(
                self.admit_regenerated_pages,
                "missing admit_regenerated_pages",
            )?,
            max_scratch_tokens: require_usize(self.max_scratch_tokens, "missing max_scratch_tokens")?,
            wipe_scratch_after_use: require_bool(
                self.wipe_scratch_after_use,
                "missing wipe_scratch_after_use",
            )?,
        };
        VersionedConfig::new(config)
    }
}

/// No `=`, no line end and no whitespace.
pub open spec fn plain_text(s: Seq<char>) -> bool {
    forall|i: int| 0 <= i < s.len() ==> #[trigger] s[i] != '=' && s[i] != '\n' && !is_space(s[i])
}

/// A field value that can stand on an encoded line: no line end, and no
/// whitespace at either end.
pub open spec fn line_value(s: Seq<char>) -> bool {
    &&& forall|i: int| 0 <= i < s.len() ==> #[trigger] s[i] != '\n'
    &&& s.len() > 0 ==> !is_space(s[0]) && !is_space(s.last())
}

proof fn lemma_lines_cons(a: Seq<char>, rest: Seq<char>)
    requires
        forall|i: int| 0 <= i < a.len() ==> #[trigger] a[i] != '\n',
    ensures
        lines_spec(a + seq!['\n'] + rest) == seq![a] + lines_spec(rest),
{
    let s = a + seq!['\n'] + rest;
    assert forall|k: int| 0 <= k < a.len() implies #[trigger] s[k] != '\n' by {
        assert(s[k] == a[k]);
    }
    lemma_prefix_before_at(s, '\n', 0, a.len() as int, s.len() as int);
    assert(s.subrange(0, s.len() as int) =~= s);
    assert(s.take(a.len() as int) =~= a);
    assert(s.skip(a.len() as int + 1) =~= rest);
}

proof fn lemma_line_fields(f: ConfigFields, k: Seq<char>, v: Seq<char>)
    requires
        k.len() > 0,
        plain_text(k),
        line_value(v),
    ensures
        accept_line_spec(f, k + seq!['='] + v) == accept_field_spec(f, k, v),
{
    let a = k + seq!['='] + v;
    assert(a[0] == k[0]);
    if v.len() > 0 {
        assert(a.last() == v.last());
    } else {
        assert(a.last() == '=');
    }
    lemma_trim_noop(a);
    assert forall|i: int| 0 <= i < k.len() implies #[trigger] a[i] != '=' by {
        assert(a[i] == k[i]);
    }
    lemma_prefix_before_at(a, '=', 0, k.len() as int, a.len() as int);
    assert(a.subrange(0, a.len() as int) =~= a);
    assert(a.take(k.len() as int) =~= k);
    assert(a.skip(k.len() as int + 1) =~= v);
    lemma_trim_noop(k);
    lemma_trim_noop(v);
}

proof fn lemma_decimal_plain(n: nat)
    ensures
        decimal_spec(n).len() > 0,
        plain_text(decimal_spec(n)),
        line_value(decimal_spec(n)),
        parse_unsigned_spec(decimal_spec(n), usize::MAX as int) == Some(n as int) <== n
            <= usize::MAX,
        parse_unsigned_spec(decimal_spec(n), u32::MAX as int) == Some(n as int) <== n <= u32::MAX,
{
    lemma_decimal_digits(n);
    let s = decimal_spec(n);
    assert forall|i: int| 0 <= i < s.len() implies #[trigger] s[i] != '=' && s[i] != '\n'
        && !is_space(s[i]) by {
        assert(is_digit(s[i]));
    }
    assert(is_digit(s[0]));
    assert(is_digit(s.last()));
    if n <= usize::MAX {
        lemma_parse_decimal(n, usize::MAX as int);
    }
    if n <= u32::MAX {
        lemma_parse_decimal(n, u32::MAX as int);
    }
}

proof fn lemma_literals()
    ensures
        plain_text(magic()),
        magic().len() > 0,
        plain_text("page_tokens"@),
        "page_tokens"@.len() > 0,
        plain_text("head_dim"@),
        "head_dim"@.len() > 0,
        plain_text("hot_cache_bytes"@),
        "hot_cache_bytes"@.len() > 0,
        plain_text("scale"@),
        "scale"@.len() > 0,
        plain_text("admit_regenerated_pages"@),
        "admit_regenerated_pages"@.len() > 0,
        plain_text("max_scratch_tokens"@),
        "max_scratch_tokens"@.len() > 0,
        plain_text("wipe_scratch_after_use"@),
        "wipe_scratch_after_use"@.len() > 0,
        plain_text("true"@),
        line_value("true"@),
        plain_text("false"@),
        line_value("false"@),
        "true"@ != "false"@,
        magic() != "page_tokens"@,
        magic() != "head_dim"@,
        magic() != "hot_cache_bytes"@,
        magic() != "scale"@,
        magic() != "admit_regenerated_pages"@,
        magic() != "max_scratch_tokens"@,
        magic() != "wipe_scratch_after_use"@,
        "page_tokens"@ != "head_dim"@,
        "page_tokens"@ != "hot_cache_bytes"@,
        "page_tokens"@ != "scale"@,
        "page_tokens"@ != "admit_regenerated_pages"@,
        "page_tokens"@ != "max_scratch_tokens"@,
        "page_tokens"@ != "wipe_scratch_after_use"@,
        "head_dim"@ != "hot_cache_bytes"@,
        "head_dim"@ != "scale"@,
        "head_dim"@ != "admit_regenerated_pages"@,
        "head_dim"@ != "max_scratch_tokens"@,
        "head_dim"@ != "wipe_scratch_after_use"@,
        "hot_cache_bytes"@ != "scale"@,
        "hot_cache_bytes"@ != "admit_regenerated_pages"@,
        "hot_cache_bytes"@ != "max_scratch_tokens"@,
        "hot_cache_bytes"@ != "wipe_scratch_after_use"@,
        "scale"@ != "admit_regenerated_pages"@,
        "scale"@ != "max_scratch_tokens"@,
        "scale"@ != "wipe_scratch_after_use"@,
        "admit_regenerated_pages"@ != "max_scratch_tokens"@,
        "admit_regenerated_pages"@ != "wipe_scratch_after_use"@,
        "max_scratch_tokens"@ != "wipe_scratch_after_use"@,
{
    reveal_strlit("cfr_atlas_config_schema");
    reveal_strlit("page_tokens");
    reveal_strlit("head_dim");
    reveal_strlit("hot_cache_bytes");
    reveal_strlit("scale");
    reveal_strlit("admit_regenerated_pages");
    reveal_strlit("max_scratch_tokens");
    reveal_strlit("wipe_scratch_after_use");
    reveal_strlit("true");
    reveal_strlit("false");
    assert(magic()[0] != "admit_regenerated_pages"@[0]);
}

proof fn lemma_line_no_newline(k: Seq<char>, v: Seq<char>)
    requires
        plain_text(k),
        line_value(v),
    ensures
        forall|i: int| 0 <= i < (k + seq!['='] + v).len() ==> #[trigger] (k + seq!['='] + v)[i]
            != '\n',
{
    let a = k + seq!['='] + v;
    assert forall|i: int| 0 <= i < a.len() implies #[trigger] a[i] != '\n' by {
        if i < k.len() {
            assert(a[i] == k[i]);
        } else if i > k.len() {
            assert(a[i] == v[i - k.len() - 1]);
        }
    }
}

/// The lines of an encoded configuration.
pub open spec fn encoded_lines(c: Config, scale: Seq<char>) -> Seq<Seq<char>> {
    seq![
        magic() + seq!['='] + decimal_spec(CONFIG_SCHEMA_VERSION as nat),
        "page_tokens"@ + seq!['='] + decimal_spec(c.page_tokens as nat),
        "head_dim"@ + seq!['='] + decimal_spec(c.head_dim as nat),
        "hot_cache_bytes"@ + seq!['='] + decimal_spec(c.hot_cache_bytes as nat),
        "scale"@ + seq!['='] + scale,
        "admit_regenerated_pages"@ + seq!['='] + bool_text(c.admit_regenerated_pages),
        "max_scratch_tokens"@ + seq!['='] + decimal_spec(c.max_scratch_tokens as nat),
        "wipe_scratch_after_use"@ + seq!['='] + bool_text(c.wipe_scratch_after_use),
    ]
}

#[verifier::spinoff_prover]
#[verifier::rlimit(60)]
proof fn lemma_encoded_lines(c: Config, scale: Seq<char>)
    requires
        line_value(scale),
    ensures
        lines_spec(encode_spec(c, scale)) == encoded_lines(c, scale),
{
    lemma_literals();
    lemma_decimal_plain(CONFIG_SCHEMA_VERSION as nat);
    lemma_decimal_plain(c.page_tokens as nat);
    lemma_decimal_plain(c.head_dim as nat);
    lemma_decimal_plain(c.hot_cache_bytes as nat);
    lemma_decimal_plain(c.max_scratch_tokens as nat);
    let e = encoded_lines(c, scale);
    lemma_line_no_newline(magic(), decimal_spec(CONFIG_SCHEMA_VERSION as nat));
    lemma_line_no_newline("page_tokens"@, decimal_spec(c.page_tokens as nat));
    lemma_line_no_newline("head_dim"@, decimal_spec(c.head_dim as nat));
    lemma_line_no_newline("hot_cache_bytes"@, decimal_spec(c.hot_cache_bytes as nat));
    lemma_line_no_newline("scale"@, scale);
    lemma_line_no_newline("admit_regenerated_pages"@, bool_text(c.admit_regenerated_pages));
    lemma_line_no_newline("max_scratch_tokens"@, decimal_spec(c.max_scratch_tokens as nat));
    lemma_line_no_newline("wipe_scratch_after_use"@, bool_text(c.wipe_scratch_after_use));
    let nl = seq!['\n'];
    let r8 = Seq::<char>::empty();
    let r7 = e[7] + nl + r8;
    let r6 = e[6] + nl + r7;
    let r5 = e[5] + nl + r6;
    let r4 = e[4] + nl + r5;
    let r3 = e[3] + nl + r4;
    let r2 = e[2] + nl + r3;
    let r1 = e[1] + nl + r2;
    let r0 = e[0] + nl + r1;
    assert(encode_spec(c, scale) =~= r0);
    lemma_lines_cons(e[7], r8);
    lemma_lines_cons(e[6], r7);
    lemma_lines_cons(e[5], r6);
    lemma_lines_cons(e[4], r5);
    lemma_lines_cons(e[3], r4);
    lemma_lines_cons(e[2], r3);
    lemma_lines_cons(e[1], r2);
    lemma_lines_cons(e[0], r1);
    assert(lines_spec(r8) == Seq::<Seq<char>>::empty());
    assert(lines_spec(r0) =~= e);
}

#[verifier::spinoff_prover]
#[verifier::rlimit(60)]
proof fn lemma_decode_encoded_lines(c: Config, scale: Seq<char>, parse: spec_fn(Seq<char>) -> Option<u32>)
    requires
        config_valid(c),
        line_value(scale),
        parse(scale) == Some(c.scale_bits),
    ensures
        decode_lines_spec(no_fields(), encoded_lines(c, scale), 0, parse) == Ok::<ConfigFields, CfrError>(
            ConfigFields {
                schema_version: Some(CONFIG_SCHEMA_VERSION),
                page_tokens: Some(c.page_tokens),
                head_dim: Some(c.head_dim),
                hot_cache_bytes: Some(c.hot_cache_bytes),
                scale_bits: Some(c.scale_bits),
                admit_regenerated_pages: Some(c.admit_regenerated_pages),
                max_scratch_tokens: Some(c.max_scratch_tokens),
                wipe_scratch_after_use: Some(c.wipe_scratch_after_use),
            },
        ),
{
    lemma_literals();
    lemma_decimal_plain(CONFIG_SCHEMA_VERSION as nat);
    lemma_decimal_plain(c.page_tokens as nat);
    lemma_decimal_plain(c.head_dim as nat);
    lemma_decimal_plain(c.hot_cache_bytes as nat);
    lemma_decimal_plain(c.max_scratch_tokens as nat);
    let lines = encoded_lines(c, scale);
    let f0 = no_fields();
    let f1 = ConfigFields { schema_version: Some(CONFIG_SCHEMA_VERSION), ..f0 };
    let f2 = ConfigFields { page_tokens: Some(c.page_tokens), ..f1 };
    let f3 = ConfigFields { head_dim: Some(c.head_dim), ..f2 };
    let f4 = ConfigFields { hot_cache_bytes: Some(c.hot_cache_bytes), ..f3 };
    let f5 = ConfigFields { scale_bits: Some(c.scale_bits), ..f4 };
    let f6 = ConfigFields { admit_regenerated_pages: Some(c.admit_regenerated_pages), ..f5 };
    let f7 = ConfigFields { max_scratch_tokens: Some(c.max_scratch_tokens), ..f6 };
    let f8 = ConfigFields { wipe_scratch_after_use: Some(c.wipe_scratch_after_use), ..f7 };
    assert(accept_line_spec(f0, lines[0]) == fields_step(f1)) by {
        lemma_line_fields(f0, magic(), decimal_spec(CONFIG_SCHEMA_VERSION as nat));
    }
    assert(accept_line_spec(f1, lines[1]) == fields_step(f2)) by {
        lemma_line_fields(f1, "page_tokens"@, decimal_spec(c.page_tokens as nat));
    }
    assert(accept_line_spec(f2, lines[2]) == fields_step(f3)) by {
        lemma_line_fields(f2, "head_dim"@, decimal_spec(c.head_dim as nat));
    }
    assert(accept_line_spec(f3, lines[3]) == fields_step(f4)) by {
        lemma_line_fields(f3, "hot_cache_bytes"@, decimal_spec(c.hot_cache_bytes as nat));
    }
    assert(accept_line_spec(f4, lines[4]) == Ok::<LineStep, CfrError>(
        LineStep { fields: f4, scale_text: Some(scale) },
    )) by {
        lemma_line_fields(f4, "scale"@, scale);
    }
    assert(accept_scale_spec(f4, parse(scale)) == Ok::<ConfigFields, CfrError>(f5));
    assert(accept_line_spec(f5, lines[5]) == fields_step(f6)) by {
        lemma_line_fields(f5, "admit_regenerated_pages"@, bool_text(c.admit_regenerated_pages));
    }
    assert(accept_line_spec(f6, lines[6]) == fields_step(f7)) by {
        lemma_line_fields(f6, "max_scratch_tokens"@, decimal_spec(c.max_scratch_tokens as nat));
    }
    assert(accept_line_spec(f7, lines[7]) == fields_step(f8)) by {
        lemma_line_fields(f7, "wipe_scratch_after_use"@, bool_text(c.wipe_scratch_after_use));
    }
    assert(decode_lines_spec(f8, lines, 8, parse) == Ok::<ConfigFields, CfrError>(f8));
    assert(decode_lines_spec(f7, lines, 7, parse) == Ok::<ConfigFields, CfrError>(f8));
    assert(decode_lines_spec(f6, lines, 6, parse) == Ok::<ConfigFields, CfrError>(f8));
    assert(decode_lines_spec(f5, lines, 5, parse) == Ok::<ConfigFields, CfrError>(f8));
    assert(decode_lines_spec(f4, lines, 4, parse) == Ok::<ConfigFields, CfrError>(f8));
    assert(decode_lines_spec(f3, lines, 3, parse) == Ok::<ConfigFields, CfrError>(f8));
    assert(decode_lines_spec(f2, lines, 2, parse) == Ok::<ConfigFields, CfrError>(f8));
    assert(decode_lines_spec(f1, lines, 1, parse) == Ok::<ConfigFields, CfrError>(f8));
    assert(decode_lines_spec(f0, lines, 0, parse) == Ok::<ConfigFields, CfrError>(f8));
}

/// Decoding the text written by [`VersionedConfig::encode_with_scale`] gives
/// back the configuration, whenever the scale text is read back as the
/// scale's bit pattern and holds no line end and no surrounding whitespace.
pub proof fn lemma_encode_decode_round_trip(
    c: Config,
    scale: Seq<char>,
    parse: spec_fn(Seq<char>) -> Option<u32>,
)
    requires
        config_valid(c),
        line_value(scale),
        parse(scale) == Some(c.scale_bits),
    ensures
        decode_spec(encode_spec(c, scale), parse) == Ok::<Config, CfrError>(c),
{
    lemma_encoded_lines(c, scale);
    lemma_decode_encoded_lines(c, scale, parse);
}

/// Every field is read at most once: a line that filled a field is refused
/// when it comes again, and so is a second scale.
pub proof fn lemma_duplicate_field_rejected(f: ConfigFields, line: Seq<char>, parsed: Option<u32>)
    ensures
        accept_line_spec(f, line) matches Ok(step) ==> (step.fields != f ==> accept_line_spec(
            step.fields,
            line,
        ) is Err),
        accept_scale_spec(f, parsed) matches Ok(g) ==> accept_scale_spec(g, parsed) is Err,
{
}


/// The scale read from a text by a list of `(text, bits)` pairs: the bits of
/// the first pair whose text it is, or `None` when no pair has it.
pub open spec fn scale_lookup(scales: Seq<(String, Option<u32>)>, text: Seq<char>) -> Option<u32>
    decreases scales.len(),
{
    if scales.len() == 0 {
        None
    } else if scales[0].0@ == text {
        scales[0].1
    } else {
        scale_lookup(scales.drop_first(), text)
    }
}

/// Reading scale texts through a list of `(text, bits)` pairs.
pub open spec fn scale_reader(scales: Seq<(String, Option<u32>)>) -> spec_fn(Seq<char>) -> Option<
    u32,
> {
    |text: Seq<char>| scale_lookup(scales, text)
}

fn lookup_scale(scales: &[(String, Option<u32>)], text: &str) -> (r: Option<u32>)
    ensures
        r == scale_lookup(scales@, text@),
{
    let mut i: usize = 0;
    assert(scales@.skip(0) =~= scales@);
    while i < scales.len()
        invariant
            0 <= i <= scales@.len(),
            scale_lookup(scales@, text@) == scale_lookup(scales@.skip(i as int), text@),
        decreases scales.len() - i,
    {
        proof {
            assert(scales@.skip(i as int).drop_first() =~= scales@.skip(i + 1));
            assert(scales@.skip(i as int)[0] == scales@[i as int]);
        }
        if str_eq(scales[i].0.as_str(), text) {
            return scales[i].1;
        }
        i += 1;
    }
    proof {
        assert(scales@.skip(i as int).len() == 0);
    }
    None
}

/// The scale text of a line, when the line is a `scale` field.
pub open spec fn line_scale_text(line: Seq<char>) -> Option<Seq<char>> {
    match accept_line_spec(no_fields(), line) {
        Ok(step) => step.scale_text,
        Err(_) => None,
    }
}

/// The scale texts of lines `i..`, in order.
pub open spec fn scale_texts_spec(lines: Seq<Seq<char>>, i: int) -> Seq<Seq<char>>
    decreases lines.len() - i,
{
    if i < 0 || i >= lines.len() {
        Seq::empty()
    } else {
        match line_scale_text(lines[i]) {
            Some(t) => seq![t] + scale_texts_spec(lines, i + 1),
            None => scale_texts_spec(lines, i + 1),
        }
    }
}

impl VersionedConfig {
    /// The texts of the `scale` fields of a configuration text, in order:
    /// the texts a caller reads as `f32` values for
    /// [`VersionedConfig::decode`].
    pub fn scale_texts(input: &str) -> (texts: Vec<String>)
        ensures
            crate::text::views_of(texts@) == scale_texts_spec(lines_spec(input@), 0),
    {
        let lines = split_lines(input);
        let ghost ls = lines_spec(input@);
        let mut texts: Vec<String> = Vec::new();
        let mut i = lines.len();
        while i > 0
            invariant
                0 <= i <= lines@.len(),
                crate::text::views_of(lines@) == ls,
                crate::text::views_of(texts@) == scale_texts_spec(ls, i as int),
            decreases i,
        {
            i -= 1;
            assert(lines@[i as int]@ == ls[i as int]);
            let mut fields = ConfigFields::new();
            let ghost before = crate::text::views_of(texts@);
            match fields.accept_line(lines[i].as_str()) {
                Ok(Some(t)) => {
                    texts.insert(0, t);
                    proof {
                        assert(crate::text::views_of(texts@) =~= seq![t@] + before);
                    }
                },
                _ => {},
            }
        }
        texts
    }

    /// Decodes and validates a versioned configuration text. The text of each
    /// `scale` field is read through `scales`: the bits paired with the first
    /// pair holding that text, or `None` (an invalid scale) when none does.
    pub fn decode(input: &str, scales: &[(String, Option<u32>)]) -> (res: Result<VersionedConfig>)
        ensures
            match decode_spec(input@, scale_reader(scales@)) {
                Ok(c) => res matches Ok(v) && v@ == c,
                Err(e) => res == Err::<VersionedConfig, CfrError>(e),
            },
    {
        let lines = split_lines(input);
        let ghost ls = lines_spec(input@);
        let ghost parse = scale_reader(scales@);
        let mut fields = ConfigFields::new();
        let mut i: usize = 0;
        while i < lines.len()
            invariant
                0 <= i <= lines@.len(),
                crate::text::views_of(lines@) == ls,
                ls == lines_spec(input@),
                parse == scale_reader(scales@),
                decode_lines_spec(no_fields(), ls, 0, parse) == decode_lines_spec(
                    fields,
                    ls,
                    i as int,
                    parse,
                ),
            decreases lines.len() - i,
        {
            assert(lines@[i as int]@ == ls[i as int]);
            let ghost before = fields;
            match fields.accept_line(lines[i].as_str()) {
                Ok(Some(text)) => {
                    let parsed = lookup_scale(scales, text.as_str());
                    assert(parsed == parse(text@));
                    match fields.accept_scale(parsed) {
                        Ok(()) => {},
                        Err(e) => {
                            assert(decode_lines_spec(before, ls, i as int, parse) == Err::<
                                ConfigFields,
                                CfrError,
                            >(e));
                            return Err(e);
                        },
                    }
                },
                Ok(None) => {},
                Err(e) => {
                    assert(decode_lines_spec(before, ls, i as int, parse) == Err::<
                        ConfigFields,
                        CfrError,
                    >(e));
                    return Err(e);
                },
            }
            i += 1;
        }
        fields.finish()
    }
}

/// The round trip of [`VersionedConfig::encode_with_scale`] and
/// [`VersionedConfig::decode`]: encoding a valid configuration with a scale
/// text that stands on a line, and decoding the text with scale pairs that
/// read that text back as the configuration's scale, gives the configuration
/// back.
pub proof fn lemma_versioned_round_trip(
    c: Config,
    scale: Seq<char>,
    scales: Seq<(String, Option<u32>)>,
)
    requires
        config_valid(c),
        line_value(scale),
        scale_lookup(scales, scale) == Some(c.scale_bits),
    ensures
        decode_spec(encode_spec(c, scale), scale_reader(scales)) == Ok::<Config, CfrError>(c),
{
    lemma_encode_decode_round_trip(c, scale, scale_reader(scales));
}

} // verus!
