//! JSON text of the Ollama request bodies.
//!
//! Bodies are compact JSON objects whose keys come in sorted order, as
//! `serde_json` writes a `serde_json::Map`; each string is written by
//! `serde_json` itself.

use vstd::prelude::*;
use vstd::string::StringExecFns;
use crate::ollama::{EmbedRequest, GenerateRequest, OllamaError};
use crate::text::{decimal_spec, push_decimal};

verus! {

/// The lowercase hexadecimal digit of `d` (`0 <= d < 16`).
pub open spec fn hex_digit(d: int) -> char {
    if d < 10 {
        ('0' as int + d) as char
    } else {
        ('a' as int + d - 10) as char
    }
}

/// How `serde_json` writes one character inside a string literal: a quote,
/// a backslash and the control characters are escaped, with the short forms
/// `\b`, `\t`, `\n`, `\f` and `\r` where JSON has them and `\u00XX`
/// otherwise; every other character is written as it is.
pub open spec fn json_escape(c: char) -> Seq<char> {
    if c == '"' {
        seq!['\\', '"']
    } else if c == '\\' {
        seq!['\\', '\\']
    } else if c == '\u{8}' {
        seq!['\\', 'b']
    } else if c == '\t' {
        seq!['\\', 't']
    } else if c == '\n' {
        seq!['\\', 'n']
    } else if c == '\u{c}' {
        seq!['\\', 'f']
    } else if c == '\r' {
        seq!['\\', 'r']
    } else if (c as int) < 0x20 {
        seq!['\\', 'u', '0', '0', hex_digit(c as int / 16), hex_digit(c as int % 16)]
    } else {
        seq![c]
    }
}

/// The escaped characters of a string.
pub open spec fn json_escaped(s: Seq<char>) -> Seq<char>
    decreases s.len(),
{
    if s.len() == 0 {
        Seq::empty()
    } else {
        json_escaped(s.drop_last()) + json_escape(s.last())
    }
}

/// The JSON string literal of a string.
pub open spec fn json_quoted(s: Seq<char>) -> Seq<char> {
    seq!['"'] + json_escaped(s) + seq!['"']
}

/// `serde_json::to_string` of a `str`: the JSON string literal of the text.
/// Its source writes the opening quote, each run of characters that needs
/// no escape as it is, each escaped byte as `serde_json`'s `ESCAPE` table
/// gives it, and the closing quote into a `Vec<u8>`; writing into a `Vec`
/// does not fail, so neither does the call. The message of the error it
/// could return is not stated.
#[verifier::external_body]
fn json_string(text: &str) -> (r: core::result::Result<String, String>)
    ensures
        r is Ok,
        r matches Ok(s) ==> s@ == json_quoted(text@),
{
    match serde_json::to_string(text) {
        Ok(literal) => Ok(literal),
        Err(error) => Err(error.to_string()),
    }
}

/// Appends the JSON string literal of `text`; a serialization error
/// becomes a decode error.
pub fn push_json_string(out: &mut String, text: &str) -> (res: Result<(), OllamaError>)
    ensures
        res is Ok,
        final(out)@ == old(out)@ + json_quoted(text@),
{
    match json_string(text) {
        Ok(literal) => {
            out.append(literal.as_str());
            Ok(())
        },
        Err(message) => Err(OllamaError::Decode(message)),
    }
}

/// The `"key":` prefix of an object member.
pub open spec fn member(key: Seq<char>) -> Seq<char> {
    seq!['"'] + key + seq!['"', ':']
}

/// The JSON text of an optional string member followed by a comma, or
/// nothing when the value is absent.
pub open spec fn optional_text_member(key: Seq<char>, value: Option<String>) -> Seq<char> {
    match value {
        Some(v) => member(key) + json_quoted(v@) + seq![','],
        None => Seq::empty(),
    }
}

/// The body of a non-streaming `POST /api/generate` request.
pub open spec fn generate_body_spec(request: GenerateRequest) -> Seq<char> {
    seq!['{'] + optional_text_member("keep_alive"@, request.keep_alive) + member("model"@)
        + json_quoted(request.model@) + seq![','] + match request.num_ctx {
        Some(n) => member("options"@) + seq!['{'] + member("num_ctx"@) + decimal_spec(n as nat)
            + seq!['}', ','],
        None => Seq::empty(),
    } + member("prompt"@) + json_quoted(request.prompt@) + seq![','] + member("stream"@)
        + "false}"@
}

/// The comma-separated JSON string literals of a list of texts.
pub open spec fn json_string_list(items: Seq<String>) -> Seq<char>
    decreases items.len(),
{
    if items.len() == 0 {
        Seq::empty()
    } else if items.len() == 1 {
        json_quoted(items[0]@)
    } else {
        json_string_list(items.drop_last()) + seq![','] + json_quoted(items.last()@)
    }
}

/// The body of a `POST /api/embed` request.
pub open spec fn embed_body_spec(request: EmbedRequest) -> Seq<char> {
    seq!['{'] + match request.dimensions {
        Some(d) => member("dimensions"@) + decimal_spec(d as nat) + seq![','],
        None => Seq::empty(),
    } + member("input"@) + seq!['['] + json_string_list(request.input@) + seq![']', ',']
        + optional_text_member("keep_alive"@, request.keep_alive) + member("model"@) + json_quoted(
        request.model@,
    ) + seq![','] + member("truncate"@) + (if request.truncate {
        "true"@
    } else {
        "false"@
    }) + seq!['}']
}

/// The body of a `POST /api/show` request.
pub open spec fn show_body_spec(model: Seq<char>) -> Seq<char> {
    seq!['{'] + member("model"@) + json_quoted(model) + seq!['}']
}

fn push_member(out: &mut String, key: &str)
    ensures
        final(out)@ == old(out)@ + member(key@),
{
    out.append("\"");
    out.append(key);
    out.append("\":");
    proof {
        reveal_strlit("\"");
        reveal_strlit("\":");
    }
    assert(final(out)@ =~= old(out)@ + member(key@));
}

fn push_optional_text_member(out: &mut String, key: &str, value: &Option<String>) -> (res: Result<
    (),
    OllamaError,
>)
    ensures
        res is Ok,
        final(out)@ == old(out)@ + optional_text_member(key@, *value),
{
    match value {
        Some(v) => {
            push_member(out, key);
            push_json_string(out, v.as_str())?;
            out.append(",");
            proof {
                reveal_strlit(",");
            }
            assert(final(out)@ =~= old(out)@ + optional_text_member(key@, *value));
            Ok(())
        },
        None => {
            assert(final(out)@ =~= old(out)@ + optional_text_member(key@, *value));
            Ok(())
        },
    }
}

/// The JSON body of a non-streaming generate request: `keep_alive` when
/// set, `model`, `options.num_ctx` when set, `prompt` and `stream: false`.
pub fn generate_body(request: &GenerateRequest) -> (res: Result<String, OllamaError>)
    ensures
        res matches Ok(body) && body@ == generate_body_spec(*request),
{
    let mut body = String::from_str("{");
    push_optional_text_member(&mut body, "keep_alive", &request.keep_alive)?;
    push_member(&mut body, "model");
    push_json_string(&mut body, request.model.as_str())?;
    body.append(",");
    let ghost before_options = body@;
    match request.num_ctx {
        Some(n) => {
            push_member(&mut body, "options");
            body.append("{");
            push_member(&mut body, "num_ctx");
            push_decimal(&mut body, n);
            body.append("},");
        },
        None => {},
    }
    proof {
        reveal_strlit("{");
        reveal_strlit(",");
        reveal_strlit("},");
        let options = match request.num_ctx {
            Some(n) => member("options"@) + seq!['{'] + member("num_ctx"@) + decimal_spec(n as nat)
                + seq!['}', ','],
            None => Seq::<char>::empty(),
        };
        assert(body@ =~= before_options + options);
    }
    push_member(&mut body, "prompt");
    push_json_string(&mut body, request.prompt.as_str())?;
    body.append(",");
    push_member(&mut body, "stream");
    body.append("false}");
    proof {
        assert(body@ =~= generate_body_spec(*request));
    }
    Ok(body)
}

/// The JSON body of an embed request: `dimensions` when set, `input`,
/// `keep_alive` when set, `model` and `truncate`.
pub fn embed_body(request: &EmbedRequest) -> (res: Result<String, OllamaError>)
    ensures
        res matches Ok(body) && body@ == embed_body_spec(*request),
{
    let mut body = String::from_str("{");
    let ghost start = body@;
    match request.dimensions {
        Some(d) => {
            push_member(&mut body, "dimensions");
            push_decimal(&mut body, d);
            body.append(",");
        },
        None => {},
    }
    proof {
        reveal_strlit("{");
        reveal_strlit(",");
        let dims = match request.dimensions {
            Some(d) => member("dimensions"@) + decimal_spec(d as nat) + seq![','],
            None => Seq::<char>::empty(),
        };
        assert(body@ =~= start + dims);
    }
    push_member(&mut body, "input");
    body.append("[");
    let ghost list_start = body@;
    let mut i: usize = 0;
    while i < request.input.len()
        invariant
            0 <= i <= request.input@.len(),
            body@ == list_start + json_string_list(request.input@.take(i as int)),
        decreases request.input.len() - i,
    {
        if i > 0 {
            body.append(",");
        }
        push_json_string(&mut body, request.input[i].as_str())?;
        proof {
            reveal_strlit(",");
            let items = request.input@.take(i + 1);
            assert(items.drop_last() =~= request.input@.take(i as int));
            assert(items.last() == request.input@[i as int]);
            if i == 0 {
                assert(json_string_list(request.input@.take(0)) =~= Seq::<char>::empty());
            }
        }
        i += 1;
    }
    proof {
        assert(request.input@.take(request.input@.len() as int) =~= request.input@);
    }
    body.append("],");
    push_optional_text_member(&mut body, "keep_alive", &request.keep_alive)?;
    push_member(&mut body, "model");
    push_json_string(&mut body, request.model.as_str())?;
    body.append(",");
    push_member(&mut body, "truncate");
    if request.truncate {
        body.append("true");
    } else {
        body.append("false");
    }
    body.append("}");
    proof {
        reveal_strlit("[");
        reveal_strlit("],");
        reveal_strlit("}");
        assert(body@ =~= embed_body_spec(*request));
    }
    Ok(body)
}

/// The JSON body of a show request for a model name.
pub fn show_body(model: &str) -> (res: Result<String, OllamaError>)
    ensures
        res matches Ok(body) && body@ == show_body_spec(model@),
{
    let mut body = String::from_str("{");
    push_member(&mut body, "model");
    push_json_string(&mut body, model)?;
    body.append("}");
    proof {
        reveal_strlit("{");
        reveal_strlit("}");
        assert(body@ =~= show_body_spec(model@));
    }
    Ok(body)
}

} // verus!
