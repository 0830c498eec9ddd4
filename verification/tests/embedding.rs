use std::collections::HashMap;

use yorishiro_core::embedding::{
    assemble_token_batch, check_embedding_batch, check_max_sequence_length, check_output_shape,
    compose_embedding_text, dimensions_param, embeddings_endpoint, first_output_name,
    needs_token_type_ids, normalized_base_url, provider_http_error, single_embedding,
    load_tokenizer, token_batch_from, tokenize_batch, TokenEncoding, MIN_SEQUENCE_LENGTH,
};
use yorishiro_core::error::YorishiroError;
use yorishiro_core::json::JsonValue;
use yorishiro_core::metaschema::{EntityTypeDef, FieldDef, FieldTypeName, MetaSchemaDefinition};

fn embedded(t: FieldTypeName) -> FieldDef {
    let mut f = FieldDef::new(t);
    f.x_embed = true;
    f
}

fn article(fields: Vec<(&str, FieldDef)>) -> MetaSchemaDefinition {
    let mut post = EntityTypeDef::new();
    for (name, f) in fields {
        post.fields.insert(name.to_string(), f);
    }
    let mut d = MetaSchemaDefinition::new("article");
    d.entity_types.insert("post".to_string(), post);
    d
}

fn object(members: Vec<(&str, JsonValue)>) -> JsonValue {
    JsonValue::Object(members.into_iter().map(|(k, v)| (k.to_string(), v)).collect())
}

fn text(s: &str) -> JsonValue {
    JsonValue::String(s.to_string())
}

fn check_composes_text_in_field_name_order() {
    let def = article(vec![
        ("title", embedded(FieldTypeName::String)),
        ("body", embedded(FieldTypeName::String)),
        ("views", FieldDef::new(FieldTypeName::Integer)),
    ]);
    let text_out = compose_embedding_text(
        def.entity_types.get("post").unwrap(),
        &object(vec![
            ("title", text("hello")),
            ("body", text("world")),
            ("views", JsonValue::Number("42".into())),
        ]),
    )
    .unwrap();
    assert_eq!(text_out, "body: world\ntitle: hello");
}

fn check_skips_null_values() {
    let def = article(vec![
        ("title", embedded(FieldTypeName::String)),
        ("subtitle", embedded(FieldTypeName::String)),
    ]);
    let text_out = compose_embedding_text(
        def.entity_types.get("post").unwrap(),
        &object(vec![("title", text("hello")), ("subtitle", JsonValue::Null)]),
    )
    .unwrap();
    assert_eq!(text_out, "title: hello");
}

#[test]
fn embedding_sync_composes_text_from_multiple_x_embed_fields_in_field_name_order() {
    check_composes_text_in_field_name_order();
}

#[test]
fn tests_composes_text_from_multiple_x_embed_fields_in_field_name_order() {
    check_composes_text_in_field_name_order();
}

#[test]
fn embedding_sync_skips_x_embed_field_when_value_is_null() {
    check_skips_null_values();
}

#[test]
fn tests_skips_x_embed_field_when_value_is_null() {
    check_skips_null_values();
}

#[test]
fn non_string_values_are_embedded_as_json() {
    let def = article(vec![
        ("count", embedded(FieldTypeName::Integer)),
        ("tags", embedded(FieldTypeName::Array)),
    ]);
    let data = object(vec![
        ("count", JsonValue::Number("3".into())),
        ("tags", JsonValue::Array(vec![text("a"), JsonValue::Bool(true)])),
    ]);
    assert_eq!(
        compose_embedding_text(def.entity_types.get("post").unwrap(), &data).unwrap(),
        "count: 3\ntags: [\"a\",true]"
    );
}

#[test]
fn nothing_to_embed_gives_no_text() {
    let def = article(vec![("title", FieldDef::new(FieldTypeName::String))]);
    let post = def.entity_types.get("post").unwrap();
    assert_eq!(compose_embedding_text(post, &object(vec![("title", text("x"))])), None);
    let def = article(vec![("title", embedded(FieldTypeName::String))]);
    let post = def.entity_types.get("post").unwrap();
    assert_eq!(compose_embedding_text(post, &object(vec![])), None);
    assert_eq!(compose_embedding_text(post, &JsonValue::Null), None);
}

#[test]
fn a_single_text_takes_the_first_vector() {
    assert_eq!(single_embedding(vec![vec![1u8], vec![2u8]]), Ok(vec![1u8]));
    assert_eq!(
        single_embedding(Vec::<Vec<u8>>::new()),
        Err(YorishiroError::Internal(
            "embedding provider returned no vectors for a single input".to_string()
        ))
    );
}

#[test]
fn openai_request_settings() {
    assert_eq!(normalized_base_url("https://api.openai.com/v1//"), "https://api.openai.com/v1");
    assert_eq!(normalized_base_url("http://x"), "http://x");
    assert_eq!(normalized_base_url("///"), "");
    assert_eq!(embeddings_endpoint("http://x/v1"), "http://x/v1/embeddings");
    assert_eq!(dimensions_param(true, 768), Some(768));
    assert_eq!(dimensions_param(false, 768), None);
    assert_eq!(
        provider_http_error("401 Unauthorized", "unauthorized"),
        YorishiroError::Internal(
            "embedding provider returned HTTP 401 Unauthorized: unauthorized".to_string()
        )
    );
}

#[test]
fn provider_answers_are_checked() {
    assert_eq!(check_embedding_batch(&[3, 3], 2, 3), Ok(()));
    assert_eq!(check_embedding_batch(&[], 0, 3), Ok(()));
    assert_eq!(
        check_embedding_batch(&[3], 2, 3),
        Err(YorishiroError::Internal(
            "embedding provider returned 1 vectors for 2 inputs".to_string()
        ))
    );
    assert_eq!(
        check_embedding_batch(&[3, 2, 4], 3, 3),
        Err(YorishiroError::Internal(
            "embedding provider returned a vector of length 2 but expected 3".to_string()
        ))
    );
}

#[test]
fn load_rejects_too_small_max_sequence_length() {
    let result = check_max_sequence_length(1);
    let Err(err) = result else {
        panic!("load should fail for too small max_sequence_length");
    };
    assert!(err.display_text().contains("max_sequence_length"));
    assert_eq!(
        err.display_text(),
        "internal error: max_sequence_length must be >= 16, got 1"
    );
    assert_eq!(check_max_sequence_length(MIN_SEQUENCE_LENGTH), Ok(()));
    assert_eq!(check_max_sequence_length(512), Ok(()));
}

#[test]
fn model_declarations_are_read() {
    let names = |v: &[&str]| v.iter().map(|s| s.to_string()).collect::<Vec<_>>();
    assert!(needs_token_type_ids(&names(&["input_ids", "token_type_ids"])));
    assert!(!needs_token_type_ids(&names(&["input_ids", "attention_mask"])));
    assert_eq!(first_output_name(&names(&["last_hidden_state", "pooler"])), Ok("last_hidden_state".to_string()));
    assert_eq!(
        first_output_name(&[]),
        Err(YorishiroError::Internal("onnx model declares no outputs".to_string()))
    );
}

fn encoding(ids: &[u32], mask: &[u32]) -> TokenEncoding {
    TokenEncoding { ids: ids.to_vec(), attention_mask: mask.to_vec(), type_ids: vec![0; ids.len()] }
}

#[test]
fn token_batches_are_flattened_row_by_row() {
    let b = assemble_token_batch(vec![encoding(&[101, 7, 102], &[1, 1, 1]), encoding(&[101, 102, 0], &[1, 1, 0])])
        .unwrap();
    assert_eq!(b.batch, 2);
    assert_eq!(b.seq, 3);
    assert_eq!(b.input_ids, vec![101, 7, 102, 101, 102, 0]);
    assert_eq!(b.attention_mask, vec![1, 1, 1, 1, 1, 0]);
    assert_eq!(b.token_type_ids, vec![0; 6]);
    assert_eq!(
        assemble_token_batch(vec![]),
        Err(YorishiroError::Internal("tokenizer returned no encodings".to_string()))
    );
    assert_eq!(
        assemble_token_batch(vec![encoding(&[], &[])]),
        Err(YorishiroError::Internal("tokenizer produced an empty sequence".to_string()))
    );
}

#[test]
fn output_shape_must_be_batch_by_seq_by_hidden() {
    assert_eq!(check_output_shape(&[2, 3, 4], 2, 3, 4), Ok(4));
    assert_eq!(
        check_output_shape(&[2, 3], 2, 3, 4),
        Err(YorishiroError::Internal(
            "unexpected onnx output shape [2, 3] (expected [batch=2, seq=3, hidden])".to_string()
        ))
    );
    assert_eq!(
        check_output_shape(&[1, 3, 4], 2, 3, 4),
        Err(YorishiroError::Internal(
            "unexpected onnx output shape [1, 3, 4] (expected [batch=2, seq=3, hidden])".to_string()
        ))
    );
    assert_eq!(
        check_output_shape(&[2, 3, 384], 2, 3, 768),
        Err(YorishiroError::Internal(
            "onnx model produces 384-dimensional embeddings, expected 768".to_string()
        ))
    );
}

fn word_level_tokenizer() -> tokenizers::Tokenizer {
    let vocab: HashMap<String, u32> = [("[UNK]", 0u32), ("hello", 1), ("world", 2), ("[CLS]", 3)]
        .into_iter()
        .map(|(k, v)| (k.to_string(), v))
        .collect();
    let model = tokenizers::models::wordlevel::WordLevel::builder()
        .vocab(vocab.into_iter().collect())
        .unk_token("[UNK]".to_string())
        .build()
        .unwrap();
    let mut tokenizer = tokenizers::Tokenizer::new(model);
    tokenizer.with_pre_tokenizer(Some(tokenizers::pre_tokenizers::whitespace::Whitespace {}));
    tokenizer
}

fn word_level_json() -> String {
    word_level_tokenizer().to_string(false).unwrap()
}

#[test]
fn tokenized_texts_become_padded_batches() {
    let tokenizer = load_tokenizer(&word_level_json(), "words.json", 16).unwrap();
    let texts = vec!["hello world".to_string(), "hello".to_string()];
    let batch = tokenize_batch(&tokenizer, &texts).unwrap();
    assert_eq!(batch.batch, 2);
    assert_eq!(batch.seq, 2);
    assert_eq!(batch.input_ids, vec![1, 2, 1, 0]);
    assert_eq!(batch.attention_mask, vec![1, 1, 1, 0]);
    assert_eq!(batch.token_type_ids, vec![0, 0, 0, 0]);
}

#[test]
fn long_texts_are_truncated_to_max_sequence_length() {
    let tokenizer = load_tokenizer(&word_level_json(), "words.json", 16).unwrap();
    let long = vec!["hello"; 40].join(" ");
    let texts = vec![long, "world".to_string()];
    let batch = tokenize_batch(&tokenizer, &texts).unwrap();
    assert_eq!(batch.batch, 2);
    assert_eq!(batch.seq, 16);
    assert_eq!(batch.input_ids.len(), 32);
    assert_eq!(&batch.input_ids[..16], &[1i64; 16][..]);
    assert_eq!(batch.input_ids[16], 2);
    assert_eq!(&batch.attention_mask[17..], &[0i64; 15][..]);
}

#[test]
fn special_tokens_count_against_max_sequence_length() {
    let mut tokenizer = word_level_tokenizer();
    let template = tokenizers::processors::template::TemplateProcessing::builder()
        .try_single("[CLS] $A")
        .unwrap()
        .try_pair("[CLS] $A $B:1")
        .unwrap()
        .special_tokens(vec![("[CLS]", 3)])
        .build()
        .unwrap();
    tokenizer.with_post_processor(Some(template));
    let json = tokenizer.to_string(false).unwrap();
    let loaded = load_tokenizer(&json, "cls.json", 16).unwrap();
    let long = vec!["hello"; 40].join(" ");
    let batch = tokenize_batch(&loaded, &[long]).unwrap();
    assert_eq!(batch.seq, 16);
    assert_eq!(batch.input_ids[0], 3);
    assert_eq!(&batch.input_ids[1..], &[1i64; 15][..]);

    let many = format!("{} $A", vec!["[CLS]"; 17].join(" "));
    let template = tokenizers::processors::template::TemplateProcessing::builder()
        .try_single(many.as_str())
        .unwrap()
        .try_pair("[CLS] $A $B:1")
        .unwrap()
        .special_tokens(vec![("[CLS]", 3)])
        .build()
        .unwrap();
    let mut crowded = word_level_tokenizer();
    crowded.with_post_processor(Some(template));
    let json = crowded.to_string(false).unwrap();
    assert_eq!(
        load_tokenizer(&json, "crowded.json", 16).err(),
        Some(YorishiroError::Internal(
            "failed to configure truncation: the tokenizer adds 17 special tokens, more than max_sequence_length 16"
                .to_string()
        ))
    );
}

#[test]
fn tokenizer_load_errors() {
    assert_eq!(
        load_tokenizer(&word_level_json(), "words.json", 8).err(),
        Some(YorishiroError::Internal("max_sequence_length must be >= 16, got 8".to_string()))
    );
    match load_tokenizer("{ not json", "broken.json", 16) {
        Err(YorishiroError::Internal(m)) => assert!(m.starts_with("failed to load tokenizer 'broken.json': ")),
        _ => panic!("a broken description must not load"),
    }
}

#[test]
fn tokenizer_answers_become_padded_batches() {
    let encodings = vec![encoding(&[1, 2], &[1, 1]), encoding(&[1, 0], &[1, 0])];
    let batch = token_batch_from(Ok(encodings)).unwrap();
    assert_eq!(batch.batch, 2);
    assert_eq!(batch.seq, 2);
    assert_eq!(batch.input_ids, vec![1, 2, 1, 0]);
    assert_eq!(batch.attention_mask, vec![1, 1, 1, 0]);
    assert_eq!(
        token_batch_from(Err("bad input".to_string())),
        Err(YorishiroError::Internal("tokenization failed: bad input".to_string()))
    );
    assert_eq!(
        token_batch_from(Ok(vec![])),
        Err(YorishiroError::Internal("tokenizer returned no encodings".to_string()))
    );
}
