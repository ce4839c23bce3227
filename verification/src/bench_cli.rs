//! Command-line options of the reference-workload benchmark.
//!
//! Options come in `--flag value` pairs; each numeric value is a `usize`
//! as `usize::from_str` reads it, and the context, head dimension, page
//! size and run count must be non-zero.

use vstd::prelude::*;
use vstd::string::StringExecFns;
use crate::text::{chars_of, lemma_parse_radix_bounds, parse_radix, parse_radix_spec, str_eq, views_of};

verus! {

/// Benchmark options.
#[derive(Debug, Clone, PartialEq, Eq)]
pub struct BenchOptions {
    /// Path of the text corpus whose bytes drive the workload.
    pub corpus_path: String,
    /// Context length in tokens.
    pub context_tokens: usize,
    /// Head dimension.
    pub head_dim: usize,
    /// Tokens per page.
    pub page_tokens: usize,
    /// Hot-cache budget in bytes.
    pub hot_cache_bytes: usize,
    /// Recent-token window of the residency policy.
    pub recent_tokens: usize,
    /// Measured runs per method.
    pub runs: usize,
}

/// Benchmark options with the corpus path as characters.
pub struct BenchOptionsModel {
    /// Path of the text corpus.
    pub corpus_path: Seq<char>,
    /// Context length in tokens.
    pub context_tokens: usize,
    /// Head dimension.
    pub head_dim: usize,
    /// Tokens per page.
    pub page_tokens: usize,
    /// Hot-cache budget in bytes.
    pub hot_cache_bytes: usize,
    /// Recent-token window of the residency policy.
    pub recent_tokens: usize,
    /// Measured runs per method.
    pub runs: usize,
}

impl View for BenchOptions {
    type V = BenchOptionsModel;

    open spec fn view(&self) -> BenchOptionsModel {
        BenchOptionsModel {
            corpus_path: self.corpus_path@,
            context_tokens: self.context_tokens,
            head_dim: self.head_dim,
            page_tokens: self.page_tokens,
            hot_cache_bytes: self.hot_cache_bytes,
            recent_tokens: self.recent_tokens,
            runs: self.runs,
        }
    }
}

/// The options in force before any argument is read.
pub open spec fn default_options() -> BenchOptionsModel {
    BenchOptionsModel {
        corpus_path: "bench/data/tinyshakespeare.txt"@,
        context_tokens: 65536,
        head_dim: 64,
        page_tokens: 512,
        hot_cache_bytes: 8388608,
        recent_tokens: 4096,
        runs: 5,
    }
}

/// The usage text.
pub open spec fn usage_spec() -> Seq<char> {
    "Usage: cargo run --release --bin bench-cfr -- [options]\n\
     --corpus PATH --context-tokens N --head-dim N --page-tokens N\n\
     --hot-cache-bytes N --recent-tokens N --runs N"@
}

/// The usage text.
pub fn usage() -> (text: String)
    ensures
        text@ == usage_spec(),
{
    String::from_str(
        "Usage: cargo run --release --bin bench-cfr -- [options]\n\
         --corpus PATH --context-tokens N --head-dim N --page-tokens N\n\
         --hot-cache-bytes N --recent-tokens N --runs N",
    )
}

/// A numeric option value, or the message that refuses it.
pub open spec fn usize_arg(flag: Seq<char>, value: Seq<char>) -> Result<usize, Seq<char>> {
    match parse_radix_spec(value, 10, usize::MAX as int) {
        Ok(v) => Ok(v as usize),
        Err(_) => Err("invalid integer for "@ + flag + ": "@ + value),
    }
}

/// Reads a numeric option value as `usize::from_str` does.
pub fn parse_usize(flag: &str, value: &str) -> (res: Result<usize, String>)
    ensures
        match usize_arg(flag@, value@) {
            Ok(v) => res == Ok::<usize, String>(v),
            Err(m) => res matches Err(e) && e@ == m,
        },
{
    let chars = chars_of(value);
    proof {
        assert(chars@.subrange(0, chars@.len() as int) =~= value@);
        lemma_parse_radix_bounds(value@, 10, usize::MAX as int);
    }
    match parse_radix(chars.as_slice(), 0, chars.len(), 10, usize::MAX as u64) {
        Ok(v) => Ok(v as usize),
        Err(_) => {
            let mut message = String::from_str("invalid integer for ");
            message.append(flag);
            message.append(": ");
            message.append(value);
            Err(message)
        },
    }
}

/// `o` with one numeric option replaced.
pub open spec fn with_number(o: BenchOptionsModel, flag: Seq<char>, v: usize) -> BenchOptionsModel {
    BenchOptionsModel {
        corpus_path: o.corpus_path,
        context_tokens: if flag == "--context-tokens"@ { v } else { o.context_tokens },
        head_dim: if flag == "--head-dim"@ { v } else { o.head_dim },
        page_tokens: if flag == "--page-tokens"@ { v } else { o.page_tokens },
        hot_cache_bytes: if flag == "--hot-cache-bytes"@ { v } else { o.hot_cache_bytes },
        recent_tokens: if flag == "--recent-tokens"@ { v } else { o.recent_tokens },
        runs: if flag == "--runs"@ { v } else { o.runs },
    }
}

/// Whether a flag names a numeric option.
pub open spec fn is_number_flag(flag: Seq<char>) -> bool {
    flag == "--context-tokens"@ || flag == "--head-dim"@ || flag == "--page-tokens"@ || flag
        == "--hot-cache-bytes"@ || flag == "--recent-tokens"@ || flag == "--runs"@
}

/// Reading the arguments from position `i` on into `o`: `--help` stops
/// with the usage text, a flag without a value or an unknown flag stops
/// with its message, and each pair sets its option.
pub open spec fn apply_args(args: Seq<Seq<char>>, i: int, o: BenchOptionsModel) -> Result<
    BenchOptionsModel,
    Seq<char>,
>
    decreases args.len() - i,
{
    if i < 0 || i >= args.len() {
        Ok(o)
    } else {
        let flag = args[i];
        if flag == "--help"@ {
            Err(usage_spec())
        } else if i + 1 >= args.len() {
            Err("missing value for "@ + flag)
        } else if flag == "--corpus"@ {
            apply_args(
                args,
                i + 2,
                BenchOptionsModel {
                    corpus_path: args[i + 1],
                    context_tokens: o.context_tokens,
                    head_dim: o.head_dim,
                    page_tokens: o.page_tokens,
                    hot_cache_bytes: o.hot_cache_bytes,
                    recent_tokens: o.recent_tokens,
                    runs: o.runs,
                },
            )
        } else if is_number_flag(flag) {
            match usize_arg(flag, args[i + 1]) {
                Ok(v) => apply_args(args, i + 2, with_number(o, flag, v)),
                Err(m) => Err(m),
            }
        } else {
            Err("unknown argument: "@ + flag + "\n"@ + usage_spec())
        }
    }
}

/// The message for a zero context, head dimension, page size or run count.
pub open spec fn zero_option_message() -> Seq<char> {
    "context tokens, head dimension, page tokens and runs must be non-zero"@
}

/// The options that the arguments describe, or the message that refuses them.
pub open spec fn parse_options_spec(args: Seq<Seq<char>>) -> Result<BenchOptionsModel, Seq<char>> {
    match apply_args(args, 0, default_options()) {
        Ok(o) => if o.context_tokens == 0 || o.head_dim == 0 || o.page_tokens == 0 || o.runs == 0 {
            Err(zero_option_message())
        } else {
            Ok(o)
        },
        Err(m) => Err(m),
    }
}

/// Reads the benchmark options from the command-line arguments that follow
/// the program name.
pub fn parse_options(arguments: &[String]) -> (res: Result<BenchOptions, String>)
    ensures
        match parse_options_spec(views_of(arguments@)) {
            Ok(o) => res matches Ok(r) && r@ == o,
            Err(m) => res matches Err(e) && e@ == m,
        },
{
    let ghost args = views_of(arguments@);
    let mut options = BenchOptions {
        corpus_path: String::from_str("bench/data/tinyshakespeare.txt"),
        context_tokens: 65_536,
        head_dim: 64,
        page_tokens: 512,
        hot_cache_bytes: 8 << 20,
        recent_tokens: 4096,
        runs: 5,
    };
    assert((8usize << 20usize) == 8388608usize) by (bit_vector);
    let mut index: usize = 0;
    while index < arguments.len()
        invariant
            0 <= index <= arguments@.len(),
            args == views_of(arguments@),
            apply_args(args, 0, default_options()) == apply_args(args, index as int, options@),
        decreases arguments.len() - index,
    {
        let flag = arguments[index].as_str();
        assert(flag@ == args[index as int]);
        proof {
            reveal_strlit("--help");
            reveal_strlit("--corpus");
            reveal_strlit("--context-tokens");
            reveal_strlit("--head-dim");
            reveal_strlit("--page-tokens");
            reveal_strlit("--hot-cache-bytes");
            reveal_strlit("--recent-tokens");
            reveal_strlit("--runs");
        }
        if str_eq(flag, "--help") {
            return Err(usage());
        }
        if index + 1 >= arguments.len() {
            let mut message = String::from_str("missing value for ");
            message.append(flag);
            return Err(message);
        }
        let value = arguments[index + 1].as_str();
        assert(value@ == args[index + 1]);
        if str_eq(flag, "--corpus") {
            options.corpus_path = String::from_str(value);
        } else if str_eq(flag, "--context-tokens") {
            options.context_tokens = parse_usize(flag, value)?;
        } else if str_eq(flag, "--head-dim") {
            options.head_dim = parse_usize(flag, value)?;
        } else if str_eq(flag, "--page-tokens") {
            options.page_tokens = parse_usize(flag, value)?;
        } else if str_eq(flag, "--hot-cache-bytes") {
            options.hot_cache_bytes = parse_usize(flag, value)?;
        } else if str_eq(flag, "--recent-tokens") {
            options.recent_tokens = parse_usize(flag, value)?;
        } else if str_eq(flag, "--runs") {
            options.runs = parse_usize(flag, value)?;
        } else {
            let mut message = String::from_str("unknown argument: ");
            message.append(flag);
            message.append("\n");
            let text = usage();
            message.append(text.as_str());
            return Err(message);
        }
        index = index + 2;
    }
    if options.context_tokens == 0 || options.head_dim == 0 || options.page_tokens == 0
        || options.runs == 0 {
        return Err(
            String::from_str("context tokens, head dimension, page tokens and runs must be non-zero"),
        );
    }
    Ok(options)
}

} // verus!
