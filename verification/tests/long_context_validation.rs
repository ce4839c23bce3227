use cfr_atlas::{regression_corpus, PromptShape};

#[test]
fn regression_corpus_contains_all_prompt_shapes() -> cfr_atlas::Result<()> {
    let corpus = regression_corpus()?;
    for shape in [
        PromptShape::Short,
        PromptShape::Long,
        PromptShape::Repeated,
        PromptShape::Code,
        PromptShape::Dialogue,
    ] {
        assert!(corpus.iter().any(|case| case.shape() == shape));
    }
    assert!(corpus.iter().all(|case| !case.is_empty()));
    Ok(())
}
