use cfr_atlas::bench_cli::{parse_options, parse_usize, usage, BenchOptions};

fn args(items: &[&str]) -> Vec<String> {
    items.iter().map(|item| (*item).to_owned()).collect()
}

#[test]
fn benchmark_options_default_without_arguments() {
    assert_eq!(
        parse_options(&[]),
        Ok(BenchOptions {
            corpus_path: "bench/data/tinyshakespeare.txt".to_owned(),
            context_tokens: 65_536,
            head_dim: 64,
            page_tokens: 512,
            hot_cache_bytes: 8 << 20,
            recent_tokens: 4096,
            runs: 5,
        })
    );
}

#[test]
fn benchmark_options_read_flag_value_pairs() {
    let options = parse_options(&args(&[
        "--corpus",
        "corpus.txt",
        "--context-tokens",
        "4096",
        "--head-dim",
        "+32",
        "--page-tokens",
        "256",
        "--hot-cache-bytes",
        "0",
        "--recent-tokens",
        "128",
        "--runs",
        "3",
        "--runs",
        "2",
    ]))
    .unwrap();
    assert_eq!(options.corpus_path, "corpus.txt");
    assert_eq!(options.context_tokens, 4096);
    assert_eq!(options.head_dim, 32);
    assert_eq!(options.page_tokens, 256);
    assert_eq!(options.hot_cache_bytes, 0);
    assert_eq!(options.recent_tokens, 128);
    assert_eq!(options.runs, 2);
}

#[test]
fn benchmark_options_report_each_refusal() {
    assert_eq!(parse_options(&args(&["--help"])), Err(usage()));
    assert_eq!(
        parse_options(&args(&["--runs"])),
        Err("missing value for --runs".to_owned())
    );
    assert_eq!(
        parse_options(&args(&["--threads", "4"])),
        Err(format!("unknown argument: --threads\n{}", usage()))
    );
    assert_eq!(
        parse_options(&args(&["--runs", "many"])),
        Err("invalid integer for --runs: many".to_owned())
    );
    assert_eq!(
        parse_options(&args(&["--page-tokens", "0"])),
        Err("context tokens, head dimension, page tokens and runs must be non-zero".to_owned())
    );
    assert_eq!(
        parse_options(&args(&["--runs", "1", "--help"])),
        Err(usage())
    );
}

#[test]
fn benchmark_usage_lists_every_flag() {
    assert_eq!(
        usage(),
        "Usage: cargo run --release --bin bench-cfr -- [options]\n--corpus PATH --context-tokens N --head-dim N --page-tokens N\n--hot-cache-bytes N --recent-tokens N --runs N"
    );
    assert_eq!(parse_usize("--runs", "17"), Ok(17));
    assert_eq!(parse_usize("--runs", ""), Err("invalid integer for --runs: ".to_owned()));
}
