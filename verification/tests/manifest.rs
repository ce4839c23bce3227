use cfr_atlas::{json_usize, json_value};

#[test]
fn manifest_parser_reads_numeric_values() {
    let manifest = r#"{
            "context_tokens": 512,
            "page_tokens": 64,
            "layer": 0,
            "kv_head": 1,
            "head_dim": 128,
            "attention_scale": 0.08838835
        }"#;
    let context_tokens = json_usize(manifest, "context_tokens").expect("context token value");
    let page_tokens = json_usize(manifest, "page_tokens").expect("page token value");
    let layer = u32::try_from(json_usize(manifest, "layer").expect("layer value")).expect("u32 layer");
    let kv_head =
        u32::try_from(json_usize(manifest, "kv_head").expect("head value")).expect("u32 head");
    let head_dim = json_usize(manifest, "head_dim").expect("head dimension value");
    let scale: f32 = json_value(manifest, "attention_scale")
        .expect("attention scale value")
        .parse()
        .expect("attention scale value");
    assert_eq!(context_tokens, 512);
    assert_eq!(page_tokens, 64);
    assert_eq!(layer, 0);
    assert_eq!(kv_head, 1);
    assert_eq!(head_dim, 128);
    assert!((scale - 0.088_388_35).abs() < f32::EPSILON);
}

#[test]
fn manifest_value_is_trimmed_text_up_to_the_next_separator() {
    let manifest = "{\"name\":  qwen , \"last\": 7}";
    assert_eq!(json_value(manifest, "name"), Ok("qwen"));
    assert_eq!(json_value(manifest, "last"), Ok("7"));
    assert_eq!(json_usize(manifest, "last"), Ok(7));
}

#[test]
fn manifest_reports_missing_keys_and_integer_errors() {
    let manifest = "{\"head_dim\": 12x, \"empty\": , \"huge\": 99999999999999999999999}";
    assert_eq!(
        json_value(manifest, "layer"),
        Err("manifest key is missing: layer".to_owned())
    );
    assert_eq!(
        json_usize(manifest, "head_dim"),
        Err("invalid digit found in string".to_owned())
    );
    assert_eq!(
        json_usize(manifest, "empty"),
        Err("cannot parse integer from empty string".to_owned())
    );
    assert_eq!(
        json_usize(manifest, "huge"),
        Err("number too large to fit in target type".to_owned())
    );
}
