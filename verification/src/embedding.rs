//! Embedding rules: the text an entity is embedded from, the checks applied to what an
//! embedding provider returns, the request settings of an OpenAI-compatible provider, and
//! the integer side of local ONNX inference (reading and configuring the tokenizer,
//! tokenizing a batch into model inputs, checking output shapes). The vector
//! arithmetic itself (mean pooling, normalisation) is floating point and lives outside
//! this crate.
use vstd::prelude::*;

use crate::error::YorishiroError;
use crate::json::{json_member, json_text, write_json, Json, JsonValue};
use crate::metaschema::{EntityTypeDef, FieldDef};
use crate::text::{int_decimal, nat_decimal, push_char, push_i64_decimal, push_u64_decimal, string_of};

verus! {

/// The line an `x-embed` field contributes: its name, `": "`, and its value (a string as
/// it is, anything else as compact JSON).
pub open spec fn embedding_line(name: Seq<char>, value: Json) -> Seq<char> {
    name + ": "@ + match value {
        Json::String(s) => s,
        _ => json_text(value),
    }
}

/// The lines of the `x-embed` fields, in field order; a field whose value is absent or
/// `null` contributes none.
pub open spec fn embedding_lines(fields: Seq<(String, FieldDef)>, data: Json) -> Seq<Seq<char>>
    decreases fields.len(),
{
    if fields.len() == 0 {
        Seq::empty()
    } else {
        let rest = embedding_lines(fields.drop_last(), data);
        let name = fields.last().0@;
        if fields.last().1.x_embed {
            match json_member(data, name) {
                Some(v) => if v == Json::Null {
                    rest
                } else {
                    rest.push(embedding_line(name, v))
                },
                None => rest,
            }
        } else {
            rest
        }
    }
}

/// Lines joined with a newline between each two.
pub open spec fn join_lines(lines: Seq<Seq<char>>) -> Seq<char>
    decreases lines.len(),
{
    if lines.len() == 0 {
        Seq::empty()
    } else if lines.len() == 1 {
        lines[0]
    } else {
        join_lines(lines.drop_last()) + seq!['\n'] + lines.last()
    }
}

/// Where the `k`-th line starts in the joined text: after every earlier line and its newline.
pub open spec fn line_start(lines: Seq<Seq<char>>, k: int) -> int
    decreases k,
{
    if k <= 0 {
        0
    } else {
        line_start(lines, k - 1) + lines[k - 1].len() + 1
    }
}

proof fn lemma_line_start_prefix(lines: Seq<Seq<char>>, k: int)
    requires
        0 <= k < lines.len(),
    ensures
        line_start(lines.drop_last(), k) == line_start(lines, k),
    decreases k,
{
    if k > 0 {
        lemma_line_start_prefix(lines, k - 1);
    }
}

proof fn lemma_line_start_grows(lines: Seq<Seq<char>>, k: int, m: int)
    requires
        0 <= k < m,
    ensures
        line_start(lines, k) + lines[k].len() < line_start(lines, m),
    decreases m - k,
{
    if m > k + 1 {
        lemma_line_start_grows(lines, k, m - 1);
    }
}

proof fn lemma_line_start_nonneg(lines: Seq<Seq<char>>, k: int)
    ensures
        0 <= line_start(lines, k),
    decreases k,
{
    if k > 0 {
        lemma_line_start_nonneg(lines, k - 1);
    }
}

/// The layout facts for `lines`, given them for all lines but the last.
proof fn lemma_join_lines_step(lines: Seq<Seq<char>>)
    requires
        lines.len() > 1,
        join_lines(lines.drop_last()).len() == line_start(lines.drop_last(), lines.len() - 2)
            + lines.drop_last().last().len(),
        forall|k: int|
            0 <= k < lines.len() - 1 ==> join_lines(lines.drop_last()).subrange(
                line_start(lines.drop_last(), k),
                line_start(lines.drop_last(), k) + lines.drop_last()[k].len(),
            ) == #[trigger] lines.drop_last()[k],
        forall|k: int|
            0 <= k < lines.len() - 2 ==> join_lines(lines.drop_last())[line_start(lines.drop_last(), k)
                + lines.drop_last()[k].len()] == '\n',
    ensures
        join_lines(lines).len() == line_start(lines, lines.len() - 1) + lines.last().len(),
        forall|k: int|
            0 <= k < lines.len() ==> join_lines(lines).subrange(
                line_start(lines, k),
                line_start(lines, k) + lines[k].len(),
            ) == #[trigger] lines[k],
        forall|k: int|
            0 <= k < lines.len() - 1 ==> join_lines(lines)[line_start(lines, k) + lines[k].len()]
                == '\n',
{
    let dl = lines.drop_last();
    let j0 = join_lines(dl);
    let j = join_lines(lines);
    assert(j == j0 + seq!['\n'] + lines.last());
    lemma_line_start_prefix(lines, lines.len() - 2);
    assert(line_start(lines, lines.len() - 1) == j0.len() + 1);
    assert forall|k: int| 0 <= k < lines.len() implies j.subrange(
        line_start(lines, k),
        line_start(lines, k) + lines[k].len(),
    ) == #[trigger] lines[k] by {
        lemma_line_start_nonneg(lines, k);
        if k < lines.len() - 1 {
            lemma_line_start_prefix(lines, k);
            lemma_line_start_grows(lines, k, lines.len() - 1);
            assert(dl[k] == lines[k]);
            let a = line_start(lines, k);
            let b = a + lines[k].len();
            assert(j0.subrange(a, b) == dl[k]);
            assert(j.subrange(a, b) =~= j0.subrange(a, b));
        } else {
            assert(j.subrange(line_start(lines, k), line_start(lines, k) + lines[k].len())
                =~= lines.last());
        }
    }
    assert forall|k: int| 0 <= k < lines.len() - 1 implies j[line_start(lines, k) + lines[k].len()]
        == '\n' by {
        lemma_line_start_nonneg(lines, k);
        lemma_line_start_prefix(lines, k);
        assert(dl[k] == lines[k]);
        if k < lines.len() - 2 {
            lemma_line_start_grows(lines, k + 1, lines.len() - 1);
            lemma_line_start_prefix(lines, k + 1);
            assert(j[line_start(lines, k) + lines[k].len()] == j0[line_start(dl, k) + dl[k].len()]);
        }
    }
}

/// The joined text holds each line in turn, a single newline between each line and the
/// next, and nothing else: line `k` stands at [`line_start`], followed by `\n` unless it is
/// the last.
pub proof fn lemma_join_lines_layout(lines: Seq<Seq<char>>)
    requires
        lines.len() > 0,
    ensures
        join_lines(lines).len() == line_start(lines, lines.len() - 1) + lines.last().len(),
        forall|k: int|
            0 <= k < lines.len() ==> join_lines(lines).subrange(
                line_start(lines, k),
                line_start(lines, k) + lines[k].len(),
            ) == #[trigger] lines[k],
        forall|k: int|
            0 <= k < lines.len() - 1 ==> join_lines(lines)[line_start(lines, k) + lines[k].len()]
                == '\n',
    decreases lines.len(),
{
    if lines.len() == 1 {
        assert(join_lines(lines).subrange(0, lines[0].len() as int) =~= lines[0]);
    } else {
        lemma_join_lines_layout(lines.drop_last());
        lemma_join_lines_step(lines);
    }
}

/// The text an entity is embedded from, or `None` when it has nothing to embed.
pub open spec fn embedding_text(entity_type_def: EntityTypeDef, data: Json) -> Option<Seq<char>> {
    let lines = embedding_lines(entity_type_def.fields@, data);
    if lines.len() == 0 {
        None
    } else {
        Some(join_lines(lines))
    }
}

/// The lines an entity is embedded from are, in field order, exactly one per `x-embed`
/// field whose value is present and not `null`, reading `name: value`, a string value as it
/// is and any other value (number, boolean, array, object) as its compact JSON text.
pub proof fn lemma_embedding_lines_one_per_present_field(fields: Seq<(String, FieldDef)>, data: Json)
    ensures
        embedding_lines(fields, data) == fields.filter_map(
            |f: (String, FieldDef)|
                if f.1.x_embed && json_member(data, f.0@) is Some && json_member(data, f.0@)->0
                    != Json::Null {
                    Some(
                        f.0@ + ": "@ + match json_member(data, f.0@)->0 {
                            Json::String(s) => s,
                            v => json_text(v),
                        },
                    )
                } else {
                    None
                },
        ),
    decreases fields.len(),
{
    if fields.len() > 0 {
        lemma_embedding_lines_one_per_present_field(fields.drop_last(), data);
        let rest = embedding_lines(fields.drop_last(), data);
        let name = fields.last().0@;
        if fields.last().1.x_embed && json_member(data, name) is Some && json_member(data, name)->0
            != Json::Null {
            assert(rest.push(embedding_line(name, json_member(data, name)->0)) =~= rest + seq![
                embedding_line(name, json_member(data, name)->0),
            ]);
        }
    }
}

/// Builds the text to embed from the values of the `x-embed` fields, one `"field: value"`
/// line each, in the order of the entity type's fields (name order in a well-formed map).
/// Returns `None` when no such field has a value, so the caller can skip the embedding
/// call entirely.
pub fn compose_embedding_text(entity_type_def: &EntityTypeDef, data: &JsonValue) -> (r: Option<String>)
    ensures
        r is None <==> embedding_text(*entity_type_def, data@) is None,
        r matches Some(t) ==> embedding_text(*entity_type_def, data@) == Some(t@),
{
    let fields = entity_type_def.fields.as_slice();
    let mut text = String::new();
    let mut any = false;
    let mut i: usize = 0;
    while i < fields.len()
        invariant
            fields@ == entity_type_def.fields@,
            i <= fields@.len(),
            any == (embedding_lines(fields@.subrange(0, i as int), data@).len() > 0),
            text@ == join_lines(embedding_lines(fields@.subrange(0, i as int), data@)),
        decreases fields@.len() - i,
    {
        let ghost before = embedding_lines(fields@.subrange(0, i as int), data@);
        proof {
            let p = fields@.subrange(0, i + 1);
            assert(p.drop_last() =~= fields@.subrange(0, i as int));
            assert(p.last() == fields@[i as int]);
        }
        if fields[i].1.x_embed {
            match data.get(fields[i].0.as_str()) {
                Some(v) => {
                    if !v.is_null() {
                        let ghost line = embedding_line(fields@[i as int].0@, v@);
                        if any {
                            push_char(&mut text, '\n');
                        }
                        text.append(fields[i].0.as_str());
                        text.append(": ");
                        match v {
                            JsonValue::String(s) => text.append(s.as_str()),
                            _ => write_json(v, &mut text),
                        }
                        proof {
                            assert(before.push(line).drop_last() =~= before);
                            if before.len() == 0 {
                                assert(text@ =~= line);
                            } else {
                                assert(text@ =~= join_lines(before) + seq!['\n'] + line);
                            }
                        }
                        any = true;
                    }
                },
                None => {},
            }
        }
        i = i + 1;
    }
    proof {
        assert(fields@.subrange(0, fields@.len() as int) =~= fields@);
    }
    if any {
        Some(text)
    } else {
        None
    }
}

pub open spec fn empty_batch_message() -> Seq<char> {
    "embedding provider returned no vectors for a single input"@
}

/// The vector for a single text out of a batch answer: its first element, or an internal
/// error when the provider returned none.
pub fn single_embedding<T>(batch: Vec<T>) -> (r: Result<T, YorishiroError>)
    ensures
        batch@.len() > 0 ==> r == Ok::<T, YorishiroError>(batch@[0]),
        batch@.len() == 0 ==> (r matches Err(YorishiroError::Internal(m)) && m@
            == empty_batch_message()),
{
    let mut batch = batch;
    if batch.len() == 0 {
        Err(YorishiroError::Internal(string_of("embedding provider returned no vectors for a single input")))
    } else {
        Ok(batch.remove(0))
    }
}

/// Settings of an embedding provider that speaks the OpenAI embeddings API.
#[derive(Debug, Clone, PartialEq, Eq)]
pub struct OpenAiCompatibleConfig {
    /// Example: `https://api.openai.com/v1` (a trailing `/` is optional).
    pub base_url: String,
    pub api_key: String,
    pub model: String,
    pub dimensions: usize,
    /// Some OpenAI-compatible servers (vLLM, Ollama, ...) do not recognise the
    /// `dimensions` parameter, so callers choose whether to send it.
    pub send_dimensions_param: bool,
}

/// `s` without its trailing slashes.
pub open spec fn trim_trailing_slashes(s: Seq<char>) -> Seq<char>
    decreases s.len(),
{
    if s.len() > 0 && s.last() == '/' {
        trim_trailing_slashes(s.drop_last())
    } else {
        s
    }
}

/// The base URL with every trailing `/` removed.
pub fn normalized_base_url(base_url: &str) -> (r: String)
    ensures
        r@ == trim_trailing_slashes(base_url@),
{
    let mut end = base_url.unicode_len();
    proof {
        assert(base_url@.subrange(0, end as int) =~= base_url@);
    }
    while end > 0 && base_url.get_char(end - 1) == '/'
        invariant
            end <= base_url@.len(),
            trim_trailing_slashes(base_url@) == trim_trailing_slashes(
                base_url@.subrange(0, end as int),
            ),
        decreases end,
    {
        proof {
            let p = base_url@.subrange(0, end as int);
            assert(p.drop_last() =~= base_url@.subrange(0, end - 1));
        }
        end = end - 1;
    }
    let mut r = String::new();
    let mut i: usize = 0;
    while i < end
        invariant
            end <= base_url@.len(),
            i <= end,
            r@ == base_url@.subrange(0, i as int),
        decreases end - i,
    {
        push_char(&mut r, base_url.get_char(i));
        proof {
            assert(r@ =~= base_url@.subrange(0, i + 1));
        }
        i = i + 1;
    }
    r
}

/// The endpoint embeddings are requested from: the (normalized) base URL followed by
/// `/embeddings`.
pub fn embeddings_endpoint(base_url: &str) -> (r: String)
    ensures
        r@ == base_url@ + "/embeddings"@,
{
    let mut r = string_of(base_url);
    r.append("/embeddings");
    r
}

/// The `dimensions` request parameter: sent only when the provider is configured to.
pub fn dimensions_param(send_dimensions_param: bool, dimensions: usize) -> (r: Option<usize>)
    ensures
        r == if send_dimensions_param {
            Some(dimensions)
        } else {
            None::<usize>
        },
{
    if send_dimensions_param {
        Some(dimensions)
    } else {
        None
    }
}

pub open spec fn http_failure_message(status: Seq<char>, body: Seq<char>) -> Seq<char> {
    "embedding provider returned HTTP "@ + status + ": "@ + body
}

/// The error for a non-success HTTP answer: its status line and body are kept.
pub fn provider_http_error(status: &str, body: &str) -> (r: YorishiroError)
    ensures
        r matches YorishiroError::Internal(m) && m@ == http_failure_message(status@, body@),
{
    let mut m = string_of("embedding provider returned HTTP ");
    m.append(status);
    m.append(": ");
    m.append(body);
    YorishiroError::Internal(m)
}

pub open spec fn vector_count_message(returned: nat, inputs: nat) -> Seq<char> {
    "embedding provider returned "@ + nat_decimal(returned) + " vectors for "@
        + nat_decimal(inputs) + " inputs"@
}

pub open spec fn vector_length_message(len: nat, expected: nat) -> Seq<char> {
    "embedding provider returned a vector of length "@ + nat_decimal(len)
        + " but expected "@ + nat_decimal(expected)
}

/// Index of the first length in `lens` that differs from `expected`, if any.
pub open spec fn first_mismatch(lens: Seq<usize>, expected: usize) -> Option<int> {
    if exists|i: int| 0 <= i < lens.len() && lens[i] != expected {
        Some(choose|i: int| 0 <= i < lens.len() && lens[i] != expected && forall|j: int| 0 <= j < i ==> lens[j] == expected)
    } else {
        None
    }
}

/// Checks a provider's answer for `inputs` texts, given the length of each vector it
/// returned: there must be one vector per input, each of the configured dimensionality.
/// The first violation found is reported.
pub fn check_embedding_batch(vector_lens: &[usize], inputs: usize, dimensions: usize) -> (r: Result<(), YorishiroError>)
    ensures
        vector_lens@.len() != inputs ==> (r matches Err(YorishiroError::Internal(m)) && m@
            == vector_count_message(vector_lens@.len(), inputs as nat)),
        vector_lens@.len() == inputs ==> match first_mismatch(vector_lens@, dimensions) {
            None => r is Ok,
            Some(i) => r matches Err(YorishiroError::Internal(m)) && m@ == vector_length_message(
                vector_lens@[i] as nat,
                dimensions as nat,
            ),
        },
        r is Ok <==> (vector_lens@.len() == inputs && forall|i: int|
            0 <= i < vector_lens@.len() ==> vector_lens@[i] == dimensions),
{
    if vector_lens.len() != inputs {
        assert(vector_lens.len() as u64 as nat == vector_lens@.len());
        assert(inputs as u64 as nat == inputs as nat);
        let mut m = string_of("embedding provider returned ");
        push_u64_decimal(&mut m, vector_lens.len() as u64);
        m.append(" vectors for ");
        push_u64_decimal(&mut m, inputs as u64);
        m.append(" inputs");
        return Err(YorishiroError::Internal(m));
    }
    let mut i: usize = 0;
    while i < vector_lens.len()
        invariant
            vector_lens@.len() == inputs,
            i <= vector_lens@.len(),
            forall|j: int| 0 <= j < i ==> vector_lens@[j] == dimensions,
        decreases vector_lens@.len() - i,
    {
        if vector_lens[i] != dimensions {
            proof {
                let w = i as int;
                assert(0 <= w < vector_lens@.len() && vector_lens@[w] != dimensions);
                let c = choose|k: int|
                    0 <= k < vector_lens@.len() && vector_lens@[k] != dimensions && forall|j: int|
                        0 <= j < k ==> vector_lens@[j] == dimensions;
                assert(c == w) by {
                    if c < w {
                        assert(vector_lens@[c] == dimensions);
                    } else if c > w {
                        assert(vector_lens@[w] == dimensions);
                    }
                }
            }
            let mut m = string_of("embedding provider returned a vector of length ");
            push_u64_decimal(&mut m, vector_lens[i] as u64);
            m.append(" but expected ");
            push_u64_decimal(&mut m, dimensions as u64);
            return Err(YorishiroError::Internal(m));
        }
        i = i + 1;
    }
    Ok(())
}

/// A filesystem path.
#[verifier::external_type_specification]
#[verifier::external_body]
pub struct ExPathBuf(std::path::PathBuf);

/// Settings of a local ONNX embedding model.
pub struct LocalOnnxConfig {
    pub model_path: std::path::PathBuf,
    pub tokenizer_path: std::path::PathBuf,
    /// Expected output dimensionality, checked by a probe inference when the model loads.
    pub dimensions: usize,
    /// Tokens kept per text; longer texts are truncated. At least [`MIN_SEQUENCE_LENGTH`].
    pub max_sequence_length: usize,
}

/// Smallest `max_sequence_length` a local model accepts: tokenizers subtract the number of
/// special tokens from it when truncating, and a smaller value would underflow.
pub const MIN_SEQUENCE_LENGTH: usize = 16;

pub open spec fn sequence_length_message(got: nat) -> Seq<char> {
    "max_sequence_length must be >= 16, got "@ + nat_decimal(got)
}

/// Rejects a configured `max_sequence_length` below [`MIN_SEQUENCE_LENGTH`].
pub fn check_max_sequence_length(max_sequence_length: usize) -> (r: Result<(), YorishiroError>)
    ensures
        r is Ok <==> max_sequence_length >= MIN_SEQUENCE_LENGTH,
        r matches Err(e) ==> e matches YorishiroError::Internal(m) && m@ == sequence_length_message(
            max_sequence_length as nat,
        ),
{
    if max_sequence_length < MIN_SEQUENCE_LENGTH {
        let mut m = string_of("max_sequence_length must be >= 16, got ");
        push_u64_decimal(&mut m, max_sequence_length as u64);
        Err(YorishiroError::Internal(m))
    } else {
        Ok(())
    }
}

/// Whether a model declares the `token_type_ids` input, which is then passed to it.
pub fn needs_token_type_ids(input_names: &[String]) -> (r: bool)
    ensures
        r == exists|i: int| 0 <= i < input_names@.len() && input_names@[i]@ == "token_type_ids"@,
{
    let mut i: usize = 0;
    while i < input_names.len()
        invariant
            i <= input_names@.len(),
            forall|j: int| 0 <= j < i ==> input_names@[j]@ != "token_type_ids"@,
        decreases input_names@.len() - i,
    {
        if crate::name_map::str_eq(input_names[i].as_str(), "token_type_ids") {
            return true;
        }
        i = i + 1;
    }
    false
}

/// The output read from a model: the first one it declares, or an internal error when it
/// declares none.
pub fn first_output_name(output_names: &[String]) -> (r: Result<String, YorishiroError>)
    ensures
        output_names@.len() > 0 ==> (r matches Ok(n) && n@ == output_names@[0]@),
        output_names@.len() == 0 ==> (r matches Err(YorishiroError::Internal(m)) && m@
            == "onnx model declares no outputs"@),
{
    if output_names.len() == 0 {
        Err(YorishiroError::Internal(string_of("onnx model declares no outputs")))
    } else {
        Ok(output_names[0].clone())
    }
}

/// The token ids, attention mask and token type ids of one tokenized text.
#[derive(Debug, Clone, PartialEq, Eq)]
pub struct TokenEncoding {
    pub ids: Vec<u32>,
    pub attention_mask: Vec<u32>,
    pub type_ids: Vec<u32>,
}

/// The model inputs for a batch of texts: `batch` rows of `seq` tokens each, flattened row
/// after row and widened to `i64`.
#[derive(Debug, Clone, PartialEq, Eq)]
pub struct TokenBatch {
    pub batch: usize,
    pub seq: usize,
    pub input_ids: Vec<i64>,
    pub attention_mask: Vec<i64>,
    pub token_type_ids: Vec<i64>,
}

/// Rows concatenated in order, each value widened to `i64`.
pub open spec fn widened_concat(rows: Seq<Seq<u32>>) -> Seq<i64>
    decreases rows.len(),
{
    if rows.len() == 0 {
        Seq::empty()
    } else {
        widened_concat(rows.drop_last()) + rows.last().map_values(|v: u32| v as i64)
    }
}

pub open spec fn id_rows(encodings: Seq<TokenEncoding>) -> Seq<Seq<u32>> {
    encodings.map_values(|e: TokenEncoding| e.ids@)
}

pub open spec fn mask_rows(encodings: Seq<TokenEncoding>) -> Seq<Seq<u32>> {
    encodings.map_values(|e: TokenEncoding| e.attention_mask@)
}

pub open spec fn type_id_rows(encodings: Seq<TokenEncoding>) -> Seq<Seq<u32>> {
    encodings.map_values(|e: TokenEncoding| e.type_ids@)
}

fn append_widened(out: &mut Vec<i64>, row: &[u32])
    ensures
        final(out)@ == old(out)@ + row@.map_values(|v: u32| v as i64),
{
    let ghost start = out@;
    let mut i: usize = 0;
    while i < row.len()
        invariant
            i <= row@.len(),
            out@ == start + row@.subrange(0, i as int).map_values(|v: u32| v as i64),
        decreases row@.len() - i,
    {
        out.push(row[i] as i64);
        proof {
            assert(row@.subrange(0, i + 1).map_values(|v: u32| v as i64) =~= row@.subrange(
                0,
                i as int,
            ).map_values(|v: u32| v as i64).push(row@[i as int] as i64));
            assert(out@ =~= start + row@.subrange(0, i + 1).map_values(|v: u32| v as i64));
        }
        i = i + 1;
    }
    proof {
        assert(row@.subrange(0, row@.len() as int) =~= row@);
    }
}

proof fn lemma_rows_step(encodings: Seq<TokenEncoding>, i: int)
    requires
        0 <= i < encodings.len(),
    ensures
        id_rows(encodings.subrange(0, i + 1)) =~= id_rows(encodings.subrange(0, i)).push(
            encodings[i].ids@,
        ),
        mask_rows(encodings.subrange(0, i + 1)) =~= mask_rows(encodings.subrange(0, i)).push(
            encodings[i].attention_mask@,
        ),
        type_id_rows(encodings.subrange(0, i + 1)) =~= type_id_rows(encodings.subrange(0, i)).push(
            encodings[i].type_ids@,
        ),
{
}

pub open spec fn no_encodings_message() -> Seq<char> {
    "tokenizer returned no encodings"@
}

pub open spec fn empty_sequence_message() -> Seq<char> {
    "tokenizer produced an empty sequence"@
}

/// Assembles the model inputs from a tokenizer's encodings of a batch: the sequence length
/// is that of the first encoding (padding makes them all equal); no encodings, or an empty
/// first sequence, are internal errors.
pub fn assemble_token_batch(encodings: Vec<TokenEncoding>) -> (r: Result<TokenBatch, YorishiroError>)
    ensures
        encodings@.len() == 0 ==> (r matches Err(YorishiroError::Internal(m)) && m@
            == no_encodings_message()),
        encodings@.len() > 0 && encodings@[0].ids@.len() == 0 ==> (r matches Err(
            YorishiroError::Internal(m),
        ) && m@ == empty_sequence_message()),
        encodings@.len() > 0 && encodings@[0].ids@.len() > 0 ==> (r matches Ok(b) && b.batch
            == encodings@.len() && b.seq == encodings@[0].ids@.len() && b.input_ids@
            == widened_concat(id_rows(encodings@)) && b.attention_mask@ == widened_concat(
            mask_rows(encodings@),
        ) && b.token_type_ids@ == widened_concat(type_id_rows(encodings@))),
{
    if encodings.len() == 0 {
        return Err(YorishiroError::Internal(string_of("tokenizer returned no encodings")));
    }
    let seq = encodings[0].ids.len();
    if seq == 0 {
        return Err(YorishiroError::Internal(string_of("tokenizer produced an empty sequence")));
    }
    let mut input_ids: Vec<i64> = Vec::new();
    let mut attention_mask: Vec<i64> = Vec::new();
    let mut token_type_ids: Vec<i64> = Vec::new();
    let mut i: usize = 0;
    while i < encodings.len()
        invariant
            i <= encodings@.len(),
            input_ids@ == widened_concat(id_rows(encodings@.subrange(0, i as int))),
            attention_mask@ == widened_concat(mask_rows(encodings@.subrange(0, i as int))),
            token_type_ids@ == widened_concat(type_id_rows(encodings@.subrange(0, i as int))),
        decreases encodings@.len() - i,
    {
        proof {
            lemma_rows_step(encodings@, i as int);
            let ids = id_rows(encodings@.subrange(0, i as int)).push(encodings@[i as int].ids@);
            let masks = mask_rows(encodings@.subrange(0, i as int)).push(
                encodings@[i as int].attention_mask@,
            );
            let types = type_id_rows(encodings@.subrange(0, i as int)).push(
                encodings@[i as int].type_ids@,
            );
            assert(ids.drop_last() =~= id_rows(encodings@.subrange(0, i as int)));
            assert(masks.drop_last() =~= mask_rows(encodings@.subrange(0, i as int)));
            assert(types.drop_last() =~= type_id_rows(encodings@.subrange(0, i as int)));
        }
        append_widened(&mut input_ids, encodings[i].ids.as_slice());
        append_widened(&mut attention_mask, encodings[i].attention_mask.as_slice());
        append_widened(&mut token_type_ids, encodings[i].type_ids.as_slice());
        i = i + 1;
    }
    proof {
        assert(encodings@.subrange(0, encodings@.len() as int) =~= encodings@);
    }
    Ok(TokenBatch { batch: encodings.len(), seq, input_ids, attention_mask, token_type_ids })
}

pub open spec fn tokenization_failure_message(e: Seq<char>) -> Seq<char> {
    "tokenization failed: "@ + e
}

/// The model inputs for a batch, given what the tokenizer answered for it: its error
/// becomes an internal error carrying the tokenizer's text; its encodings become the batch
/// [`assemble_token_batch`] builds, or the error it reports.
pub fn token_batch_from(answer: Result<Vec<TokenEncoding>, String>) -> (r: Result<TokenBatch, YorishiroError>)
    ensures
        answer matches Err(d) ==> (r matches Err(YorishiroError::Internal(m)) && m@
            == tokenization_failure_message(d@)),
        answer matches Ok(e) ==> (e@.len() == 0 ==> (r matches Err(YorishiroError::Internal(m))
            && m@ == no_encodings_message())),
        answer matches Ok(e) ==> (e@.len() > 0 && e@[0].ids@.len() == 0 ==> (r matches Err(
            YorishiroError::Internal(m),
        ) && m@ == empty_sequence_message())),
        answer matches Ok(e) ==> (e@.len() > 0 && e@[0].ids@.len() > 0 ==> (r matches Ok(b)
            && b.batch == e@.len() && b.seq == e@[0].ids@.len() && b.input_ids@ == widened_concat(
            id_rows(e@),
        ) && b.attention_mask@ == widened_concat(mask_rows(e@)) && b.token_type_ids@
            == widened_concat(type_id_rows(e@)))),
{
    match answer {
        Err(d) => {
            let mut m = string_of("tokenization failed: ");
            m.append(d.as_str());
            Err(YorishiroError::Internal(m))
        },
        Ok(encodings) => assemble_token_batch(encodings),
    }
}

/// A tokenizer of the `tokenizers` crate.
#[verifier::external_type_specification]
#[verifier::external_body]
pub struct ExTokenizer(tokenizers::Tokenizer);

/// Whether the `tokenizers` crate reads `json` as a tokenizer (`Tokenizer::from_str`, a
/// serde_json parse of the whole text).
pub uninterp spec fn tokenizer_parses(json: Seq<char>) -> bool;

/// The number of special tokens the post-processor of the tokenizer read from `json` adds
/// around a single sequence (`PostProcessor::added_tokens(false)`), or `None` when it has
/// no post-processor.
pub uninterp spec fn tokenizer_special_tokens(json: Seq<char>) -> Option<nat>;

/// What `encode_batch(texts, true)` returns, when it succeeds, on the tokenizer read from
/// `json`, truncating to `max_length` tokens and padding to the longest text: per text, its
/// token ids, attention mask and token type ids.
pub uninterp spec fn tokenizer_encodings(json: Seq<char>, max_length: nat, texts: Seq<Seq<char>>) -> Seq<(Seq<u32>, Seq<u32>, Seq<u32>)>;

/// Whether truncating to `max_length` leaves room for the special tokens the tokenizer read
/// from `json` adds (truncation subtracts their number from `max_length`).
pub open spec fn special_tokens_fit(json: Seq<char>, max_length: nat) -> bool {
    match tokenizer_special_tokens(json) {
        Some(k) => k <= max_length,
        None => true,
    }
}

pub open spec fn optional_nat(c: Option<usize>) -> Option<nat> {
    match c {
        Some(k) => Some(k as nat),
        None => None,
    }
}

/// A tokenizer as read from its JSON description, before it is configured, with the
/// number of special tokens its post-processor adds around a single sequence.
struct ParsedTokenizer {
    tokenizer: tokenizers::Tokenizer,
    source: String,
    special_tokens: Option<usize>,
}

/// Reads `json` as a tokenizer (`str::parse::<tokenizers::Tokenizer>`, a serde_json parse)
/// and asks its post-processor, if it has one, how many special tokens it adds around a
/// single sequence (`PostProcessor::added_tokens(false)`). Claimed: the parse succeeds
/// exactly when [`tokenizer_parses`] holds, the source kept is `json`, and the count is
/// [`tokenizer_special_tokens`]. The text of a parse error is not described.
#[verifier::external_body]
fn parse_tokenizer(json: &str) -> (r: Result<ParsedTokenizer, String>)
    ensures
        r is Ok <==> tokenizer_parses(json@),
        r matches Ok(p) ==> p.source@ == json@ && optional_nat(p.special_tokens)
            == tokenizer_special_tokens(json@),
{
    let tokenizer: tokenizers::Tokenizer = json.parse().map_err(|err: tokenizers::Error| err.to_string())?;
    let special_tokens = match tokenizer.get_post_processor() {
        Some(processor) => Some(tokenizers::PostProcessor::added_tokens(processor, false)),
        None => None,
    };
    Ok(ParsedTokenizer { tokenizer, source: json.to_string(), special_tokens })
}

/// Sets truncation to `max_length` tokens (`Tokenizer::with_truncation`, stride 0, other
/// parameters default) and padding to the longest text of a batch
/// (`Tokenizer::with_padding(PaddingParams::default())`). `with_truncation` subtracts the
/// special-token count from `max_length` and refuses only a stride not below the
/// difference; with the precondition there is no underflow and stride 0 is never refused,
/// so the result is `Ok`, keeping the parsed source. The count the precondition speaks of
/// is that of `parsed.tokenizer`: a `ParsedTokenizer` is only made by [`parse_tokenizer`],
/// from its source.
#[verifier::external_body]
fn configure_tokenizer(parsed: ParsedTokenizer, max_length: usize) -> (r: Result<TokenizerHandle, String>)
    requires
        special_tokens_fit(parsed.source@, max_length as nat),
    ensures
        r is Ok,
        r matches Ok(t) ==> t.source@ == parsed.source@ && t.max_length == max_length,
{
    let mut tokenizer = parsed.tokenizer;
    tokenizer
        .with_truncation(Some(tokenizers::TruncationParams { max_length, ..Default::default() }))
        .map_err(|err| err.to_string())?;
    tokenizer.with_padding(Some(tokenizers::PaddingParams::default()));
    Ok(TokenizerHandle { tokenizer, source: parsed.source, max_length })
}

/// A tokenizer read from its JSON description and configured for a maximum sequence
/// length: texts are truncated to that many tokens (special tokens included) and the texts
/// of a batch are padded to the longest.
pub struct TokenizerHandle {
    tokenizer: tokenizers::Tokenizer,
    source: String,
    max_length: usize,
}

impl TokenizerHandle {
    /// The JSON description the tokenizer was read from.
    pub closed spec fn source_text(self) -> Seq<char> {
        self.source@
    }

    /// The number of tokens a text is truncated to.
    pub closed spec fn max_length(self) -> nat {
        self.max_length as nat
    }

    #[verifier::type_invariant]
    spec fn fits(self) -> bool {
        special_tokens_fit(self.source@, self.max_length as nat)
    }
}

pub open spec fn tokenizer_load_message(source_name: Seq<char>, e: Seq<char>) -> Seq<char> {
    "failed to load tokenizer '"@ + source_name + "': "@ + e
}

pub open spec fn special_tokens_message(count: nat, max_length: nat) -> Seq<char> {
    "failed to configure truncation: the tokenizer adds "@ + nat_decimal(count)
        + " special tokens, more than max_sequence_length "@ + nat_decimal(max_length)
}

/// Reads a tokenizer from its JSON description (`source_name` names where it came from, for
/// error messages) and configures it to truncate texts to `max_sequence_length` tokens and
/// pad each batch to its longest text. Errors: a `max_sequence_length` below
/// [`MIN_SEQUENCE_LENGTH`]; a description that does not parse; a tokenizer whose special
/// tokens alone exceed `max_sequence_length`.
pub fn load_tokenizer(json: &str, source_name: &str, max_sequence_length: usize) -> (r: Result<TokenizerHandle, YorishiroError>)
    ensures
        max_sequence_length < MIN_SEQUENCE_LENGTH ==> (r matches Err(YorishiroError::Internal(m))
            && m@ == sequence_length_message(max_sequence_length as nat)),
        max_sequence_length >= MIN_SEQUENCE_LENGTH && !tokenizer_parses(json@) ==> (r matches Err(
            YorishiroError::Internal(m),
        ) && exists|e: Seq<char>| m@ == tokenizer_load_message(source_name@, e)),
        max_sequence_length >= MIN_SEQUENCE_LENGTH && tokenizer_parses(json@) && !special_tokens_fit(
            json@,
            max_sequence_length as nat,
        ) ==> (r matches Err(YorishiroError::Internal(m)) && m@ == special_tokens_message(
            tokenizer_special_tokens(json@)->0,
            max_sequence_length as nat,
        )),
        max_sequence_length >= MIN_SEQUENCE_LENGTH && tokenizer_parses(json@) && special_tokens_fit(
            json@,
            max_sequence_length as nat,
        ) ==> (r matches Ok(t) && t.source_text() == json@ && t.max_length()
            == max_sequence_length),
{
    check_max_sequence_length(max_sequence_length)?;
    let parsed = match parse_tokenizer(json) {
        Ok(p) => p,
        Err(e) => {
            let mut m = string_of("failed to load tokenizer '");
            m.append(source_name);
            m.append("': ");
            m.append(e.as_str());
            assert(m@ == tokenizer_load_message(source_name@, e@));
            return Err(YorishiroError::Internal(m));
        },
    };
    if let Some(k) = parsed.special_tokens {
        if k > max_sequence_length {
            let mut m = string_of("failed to configure truncation: the tokenizer adds ");
            push_u64_decimal(&mut m, k as u64);
            m.append(" special tokens, more than max_sequence_length ");
            push_u64_decimal(&mut m, max_sequence_length as u64);
            return Err(YorishiroError::Internal(m));
        }
    }
    match configure_tokenizer(parsed, max_sequence_length) {
        Ok(t) => Ok(t),
        Err(e) => Err(YorishiroError::Internal(e)),
    }
}

/// Per encoding, its ids, attention mask and type ids.
pub open spec fn encodings_view(encodings: Seq<TokenEncoding>) -> Seq<(Seq<u32>, Seq<u32>, Seq<u32>)> {
    encodings.map_values(|e: TokenEncoding| (e.ids@, e.attention_mask@, e.type_ids@))
}

pub open spec fn texts_view(texts: Seq<String>) -> Seq<Seq<char>> {
    texts.map_values(|t: String| t@)
}

/// Encodes `texts` with special tokens (`Tokenizer::encode_batch(texts, true)`) and copies
/// each encoding's ids, attention mask and type ids out. The handle's tokenizer is the one
/// [`load_tokenizer`] read from its source and configured for its maximum length (its fields
/// are private and it has no other constructor), and its special tokens fit that length, so
/// truncation does not underflow. Claimed: on success one encoding per text, in order
/// (`encode_batch` maps each input and padding keeps their number), equal to
/// [`tokenizer_encodings`]. Which error comes back when several texts fail is left open
/// (the batch may be encoded in parallel), and its text is not described.
#[verifier::external_body]
fn encode_texts(handle: &TokenizerHandle, texts: Vec<String>) -> (r: Result<Vec<TokenEncoding>, String>)
    requires
        special_tokens_fit(handle.source@, handle.max_length as nat),
    ensures
        r matches Ok(e) ==> e@.len() == texts@.len() && encodings_view(e@) == tokenizer_encodings(
            handle.source@,
            handle.max_length as nat,
            texts_view(texts@),
        ),
{
    handle
        .tokenizer
        .encode_batch(texts, true)
        .map(|encodings| {
            encodings
                .iter()
                .map(|e| TokenEncoding {
                    ids: e.get_ids().to_vec(),
                    attention_mask: e.get_attention_mask().to_vec(),
                    type_ids: e.get_type_ids().to_vec(),
                })
                .collect()
        })
        .map_err(|err| err.to_string())
}

pub open spec fn id_column(rows: Seq<(Seq<u32>, Seq<u32>, Seq<u32>)>) -> Seq<Seq<u32>> {
    rows.map_values(|r: (Seq<u32>, Seq<u32>, Seq<u32>)| r.0)
}

pub open spec fn mask_column(rows: Seq<(Seq<u32>, Seq<u32>, Seq<u32>)>) -> Seq<Seq<u32>> {
    rows.map_values(|r: (Seq<u32>, Seq<u32>, Seq<u32>)| r.1)
}

pub open spec fn type_id_column(rows: Seq<(Seq<u32>, Seq<u32>, Seq<u32>)>) -> Seq<Seq<u32>> {
    rows.map_values(|r: (Seq<u32>, Seq<u32>, Seq<u32>)| r.2)
}

pub open spec fn first_row_empty(rows: Seq<(Seq<u32>, Seq<u32>, Seq<u32>)>) -> bool {
    rows.len() > 0 && rows[0].0.len() == 0
}

/// A batch holds the given encodings: one row each, as long as the first, flattened row
/// after row.
pub open spec fn batch_of(b: TokenBatch, rows: Seq<(Seq<u32>, Seq<u32>, Seq<u32>)>) -> bool {
    &&& rows.len() > 0
    &&& b.batch == rows.len()
    &&& b.seq == rows[0].0.len()
    &&& b.input_ids@ == widened_concat(id_column(rows))
    &&& b.attention_mask@ == widened_concat(mask_column(rows))
    &&& b.token_type_ids@ == widened_concat(type_id_column(rows))
}

/// The model inputs for `texts`: encoded by the handle's tokenizer, with special tokens,
/// truncated and padded, then flattened by [`assemble_token_batch`]. A tokenizer error
/// becomes an internal error carrying its text; no texts, or an empty first encoding, give
/// the errors [`assemble_token_batch`] reports.
pub fn tokenize_batch(t: &TokenizerHandle, texts: &[String]) -> (r: Result<TokenBatch, YorishiroError>)
    ensures
        r matches Ok(b) ==> b.batch == texts@.len() && batch_of(
            b,
            tokenizer_encodings(t.source_text(), t.max_length(), texts_view(texts@)),
        ),
        r matches Err(e) ==> e matches YorishiroError::Internal(m) && ((exists|d: Seq<char>|
            m@ == tokenization_failure_message(d)) || (texts@.len() == 0 && m@
            == no_encodings_message()) || (texts@.len() > 0 && first_row_empty(
            tokenizer_encodings(t.source_text(), t.max_length(), texts_view(texts@)),
        ) && m@ == empty_sequence_message())),
{
    proof {
        use_type_invariant(t);
    }
    let mut owned: Vec<String> = Vec::new();
    let mut i: usize = 0;
    while i < texts.len()
        invariant
            i <= texts@.len(),
            owned@.len() == i,
            texts_view(owned@) == texts_view(texts@.subrange(0, i as int)),
        decreases texts@.len() - i,
    {
        let copy = string_of(texts[i].as_str());
        let ghost before = owned@;
        owned.push(copy);
        proof {
            assert forall|j: int| 0 <= j < i + 1 implies texts_view(owned@)[j] == texts_view(
                texts@.subrange(0, i + 1),
            )[j] by {
                if j < i {
                    assert(texts_view(before)[j] == texts_view(texts@.subrange(0, i as int))[j]);
                }
            }
            assert(texts_view(owned@) =~= texts_view(texts@.subrange(0, i + 1)));
        }
        i = i + 1;
    }
    proof {
        assert(texts@.subrange(0, texts@.len() as int) =~= texts@);
    }
    let answer = encode_texts(t, owned);
    let ghost rows = tokenizer_encodings(t.source@, t.max_length as nat, texts_view(texts@));
    proof {
        if answer is Ok {
            let e = answer->Ok_0@;
            assert(id_rows(e) =~= id_column(encodings_view(e)));
            assert(mask_rows(e) =~= mask_column(encodings_view(e)));
            assert(type_id_rows(e) =~= type_id_column(encodings_view(e)));
        }
    }
    token_batch_from(answer)
}

/// How `{:?}` prints a list of integers: `[a, b, c]`.
pub open spec fn debug_list(dims: Seq<i64>) -> Seq<char>
    decreases dims.len(),
{
    if dims.len() == 0 {
        "[]"@
    } else {
        debug_items(dims) + "]"@
    }
}

/// `[` followed by the items separated by `, ` (without the closing bracket).
pub open spec fn debug_items(dims: Seq<i64>) -> Seq<char>
    decreases dims.len(),
{
    if dims.len() == 0 {
        "["@
    } else if dims.len() == 1 {
        "["@ + int_decimal(dims[0] as int)
    } else {
        debug_items(dims.drop_last()) + ", "@ + int_decimal(dims.last() as int)
    }
}

pub open spec fn output_shape_message(dims: Seq<i64>, batch: nat, seq: nat) -> Seq<char> {
    "unexpected onnx output shape "@ + debug_list(dims) + " (expected [batch="@ + nat_decimal(batch) + ", seq="@ + nat_decimal(seq) + ", hidden])"@
}

pub open spec fn hidden_size_message(hidden: nat, expected: nat) -> Seq<char> {
    "onnx model produces "@ + nat_decimal(hidden) + "-dimensional embeddings, expected "@
        + nat_decimal(expected)
}

/// Whether `dims` is the shape `[batch, seq, hidden]` for the given batch and sequence
/// length.
pub open spec fn shape_matches(dims: Seq<i64>, batch: nat, seq: nat) -> bool {
    dims.len() == 3 && dims[0] == batch && dims[1] == seq
}

fn push_debug_list(out: &mut String, dims: &[i64])
    ensures
        final(out)@ == old(out)@ + debug_list(dims@),
{
    if dims.len() == 0 {
        out.append("[]");
        return;
    }
    let ghost start = out@;
    out.append("[");
    push_i64_decimal(out, dims[0]);
    proof {
        assert(dims@.subrange(0, 1).drop_last() =~= Seq::<i64>::empty());
        assert(out@ =~= start + debug_items(dims@.subrange(0, 1)));
    }
    let mut i: usize = 1;
    while i < dims.len()
        invariant
            1 <= i <= dims@.len(),
            out@ == start + debug_items(dims@.subrange(0, i as int)),
        decreases dims@.len() - i,
    {
        out.append(", ");
        push_i64_decimal(out, dims[i]);
        proof {
            let p = dims@.subrange(0, i + 1);
            assert(p.drop_last() =~= dims@.subrange(0, i as int));
            assert(p.last() == dims@[i as int]);
            assert(out@ =~= start + debug_items(p));
        }
        i = i + 1;
    }
    out.append("]");
    proof {
        assert(dims@.subrange(0, dims@.len() as int) =~= dims@);
    }
}

/// Checks the shape of a model's output for a batch of `batch` texts of `seq` tokens: it
/// must be `[batch, seq, hidden]` with `hidden` the configured dimensionality. Returns
/// `hidden`.
pub fn check_output_shape(dims: &[i64], batch: usize, seq: usize, dimensions: usize) -> (r: Result<usize, YorishiroError>)
    ensures
        !shape_matches(dims@, batch as nat, seq as nat) ==> (r matches Err(
            YorishiroError::Internal(m),
        ) && m@ == output_shape_message(dims@, batch as nat, seq as nat)),
        shape_matches(dims@, batch as nat, seq as nat) ==> if dims@[2] as usize == dimensions {
            r == Ok::<usize, YorishiroError>(dimensions)
        } else {
            r matches Err(YorishiroError::Internal(m)) && m@ == hidden_size_message(
                dims@[2] as usize as nat,
                dimensions as nat,
            )
        },
{
    if dims.len() != 3 || dims[0] as i128 != batch as i128 || dims[1] as i128 != seq as i128 {
        let mut m = string_of("unexpected onnx output shape ");
        push_debug_list(&mut m, dims);
        m.append(" (expected [batch=");
        push_u64_decimal(&mut m, batch as u64);
        m.append(", seq=");
        push_u64_decimal(&mut m, seq as u64);
        m.append(", hidden])");
        return Err(YorishiroError::Internal(m));
    }
    let hidden = dims[2] as usize;
    if hidden != dimensions {
        let mut m = string_of("onnx model produces ");
        push_u64_decimal(&mut m, hidden as u64);
        m.append("-dimensional embeddings, expected ");
        push_u64_decimal(&mut m, dimensions as u64);
        return Err(YorishiroError::Internal(m));
    }
    Ok(hidden)
}

} // verus!
