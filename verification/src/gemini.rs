//! The summarization client and model listing for the generative-AI
//! endpoint: building the prompt, the JSON request body and the endpoint
//! URLs, classifying the endpoint's response, and filtering the model
//! catalog to the models that support content generation.  The HTTP calls
//! live with the caller; extraction of fields from the provider's JSON goes
//! through `serde_json` behind named results.

use vstd::prelude::*;
use vstd::string::StringExecFns;
use crate::chars::{chars_vec, eq_chars, replace_chars, replace_spec, string_of};
use crate::html::{strip_html, strip_html_spec};
use crate::sync::out_view;
use crate::time::{dec_chars, dec_str};

verus! {

/// The text at `candidates[0].content.parts[0].text` of the string parsed
/// as JSON, if the string parses and the path is present with a string.
pub uninterp spec fn summary_text_of(s: Seq<char>) -> Option<Seq<char>>;

/// The text at `error.message` of the string parsed as JSON, if the string
/// parses and the path is present with a string.
pub uninterp spec fn error_message_of(s: Seq<char>) -> Option<Seq<char>>;

/// The entries of the `models` array of the string parsed as JSON: for each
/// entry its `name` string (when present) and its
/// `supportedGenerationMethods` array (when present), each method a string
/// or nothing.  Nothing when the string does not parse or `models` is not an
/// array.
pub uninterp spec fn models_of(s: Seq<char>) -> Option<
    Seq<(Option<Seq<char>>, Option<Seq<Option<Seq<char>>>>)>,
>;

/// Relies on `serde_json::from_str`, `Value::get` and `Value::as_str`: the
/// extracted text is a function of the document alone.
#[verifier::external_body]
fn json_summary_text(body: &String) -> (r: Option<String>)
    ensures
        r.deep_view() == summary_text_of(body@),
{
    let v = serde_json::from_str::<serde_json::Value>(body.as_str()).ok()?;
    let t = v.get("candidates").and_then(|c| c.get(0)).and_then(|c| c.get("content"));
    let t = t.and_then(|c| c.get("parts")).and_then(|p| p.get(0)).and_then(|p| p.get("text"));
    t.and_then(|t| t.as_str()).map(|s| s.to_string())
}

/// Relies on `serde_json::from_str`, `Value::get` and `Value::as_str`: the
/// extracted text is a function of the document alone.
#[verifier::external_body]
fn json_error_message(body: &String) -> (r: Option<String>)
    ensures
        r.deep_view() == error_message_of(body@),
{
    let v = serde_json::from_str::<serde_json::Value>(body.as_str()).ok()?;
    v.get("error").and_then(|e| e.get("message")).and_then(|m| m.as_str()).map(|s| s.to_string())
}

/// Relies on `serde_json::from_str`, `Value::get`, `Value::as_str` and
/// `Value::as_array`: the extracted entries are a function of the document
/// alone, one per element of `models`, in the provider's order.
#[verifier::external_body]
fn json_models(body: &String) -> (r: Option<Vec<(Option<String>, Option<Vec<Option<String>>>)>>)
    ensures
        r.deep_view() == models_of(body@),
{
    let v = serde_json::from_str::<serde_json::Value>(body.as_str()).ok()?;
    let arr = v.get("models").and_then(|m| m.as_array())?;
    Some(arr.iter().map(|m| {
        let name = m.get("name").and_then(|n| n.as_str()).map(|s| s.to_string());
        let methods = m.get("supportedGenerationMethods").and_then(|a| a.as_array());
        let methods = methods.map(|a| a.iter().map(|x| x.as_str().map(|s| s.to_string())).collect());
        (name, methods)
    }).collect())
}

pub open spec fn hex_digit(d: int) -> char {
    if d == 0 {
        '0'
    } else if d == 1 {
        '1'
    } else if d == 2 {
        '2'
    } else if d == 3 {
        '3'
    } else if d == 4 {
        '4'
    } else if d == 5 {
        '5'
    } else if d == 6 {
        '6'
    } else if d == 7 {
        '7'
    } else if d == 8 {
        '8'
    } else if d == 9 {
        '9'
    } else if d == 10 {
        'a'
    } else if d == 11 {
        'b'
    } else if d == 12 {
        'c'
    } else if d == 13 {
        'd'
    } else if d == 14 {
        'e'
    } else {
        'f'
    }
}

/// How one character reads inside a JSON string literal: quote, backslash
/// and the named control characters escaped with a backslash, the remaining
/// control characters as `\u00` and two hex digits, everything else as
/// itself.
pub open spec fn escape_char(c: char) -> Seq<char> {
    if c == '"' {
        seq!['\\', '"']
    } else if c == '\\' {
        seq!['\\', '\\']
    } else if c == '\u{8}' {
        seq!['\\', 'b']
    } else if c == '\t' {
        seq!['\\', 't']
    } else if c == '\n' {
        seq!['\\', 'n']
    } else if c == '\u{c}' {
        seq!['\\', 'f']
    } else if c == '\r' {
        seq!['\\', 'r']
    } else if (c as u32) < 32 {
        seq!['\\', 'u', '0', '0', hex_digit(c as u32 as int / 16), hex_digit(c as u32 as int % 16)]
    } else {
        seq![c]
    }
}

/// `s` escaped for placement inside a JSON string literal.
pub open spec fn json_escape_spec(s: Seq<char>) -> Seq<char>
    decreases s.len(),
{
    if s.len() == 0 {
        Seq::empty()
    } else {
        escape_char(s[0]) + json_escape_spec(s.drop_first())
    }
}

fn hex_digit_exec(d: u32) -> (c: char)
    requires
        d < 16,
    ensures
        c == hex_digit(d as int),
{
    if d == 0 {
        '0'
    } else if d == 1 {
        '1'
    } else if d == 2 {
        '2'
    } else if d == 3 {
        '3'
    } else if d == 4 {
        '4'
    } else if d == 5 {
        '5'
    } else if d == 6 {
        '6'
    } else if d == 7 {
        '7'
    } else if d == 8 {
        '8'
    } else if d == 9 {
        '9'
    } else if d == 10 {
        'a'
    } else if d == 11 {
        'b'
    } else if d == 12 {
        'c'
    } else if d == 13 {
        'd'
    } else if d == 14 {
        'e'
    } else {
        'f'
    }
}

fn json_escape_chars(v: &Vec<char>) -> (r: Vec<char>)
    ensures
        r@ == json_escape_spec(v@),
{
    let n = v.len();
    let mut out: Vec<char> = Vec::new();
    let mut i: usize = 0;
    assert(v@.skip(0) =~= v@);
    assert(out@ + json_escape_spec(v@) =~= json_escape_spec(v@));
    while i < n
        invariant
            i <= n,
            n == v@.len(),
            json_escape_spec(v@) == out@ + json_escape_spec(v@.skip(i as int)),
        decreases n - i,
    {
        assert(v@.skip(i as int).drop_first() =~= v@.skip(i as int + 1));
        let ghost out0 = out@;
        let c = v[i];
        if c == '"' {
            out.push('\\');
            out.push('"');
        } else if c == '\\' {
            out.push('\\');
            out.push('\\');
        } else if c == '\u{8}' {
            out.push('\\');
            out.push('b');
        } else if c == '\t' {
            out.push('\\');
            out.push('t');
        } else if c == '\n' {
            out.push('\\');
            out.push('n');
        } else if c == '\u{c}' {
            out.push('\\');
            out.push('f');
        } else if c == '\r' {
            out.push('\\');
            out.push('r');
        } else if (c as u32) < 32 {
            let code = c as u32;
            out.push('\\');
            out.push('u');
            out.push('0');
            out.push('0');
            out.push(hex_digit_exec(code / 16));
            out.push(hex_digit_exec(code % 16));
        } else {
            out.push(c);
        }
        proof {
            let rest = json_escape_spec(v@.skip(i as int + 1));
            assert(out@ =~= out0 + escape_char(c));
            assert(out0 + (escape_char(c) + rest) =~= (out0 + escape_char(c)) + rest);
        }
        i = i + 1;
    }
    assert(v@.skip(n as int) =~= Seq::<char>::empty());
    assert(out@ + json_escape_spec(v@.skip(n as int)) =~= out@);
    out
}

/// The prompt sent for summarization: every occurrence of the placeholder
/// `{content}` in the template replaced by the plain text extracted from the
/// page markup.
pub open spec fn summary_prompt_spec(template: Seq<char>, page_html: Seq<char>) -> Seq<char> {
    replace_spec(template, "{content}"@, strip_html_spec(page_html))
}

pub fn summary_prompt(prompt_template: &String, page_html: &String) -> (r: String)
    ensures
        r@ == summary_prompt_spec(prompt_template@, page_html@),
{
    proof {
        reveal_strlit("{content}");
    }
    let text = strip_html(page_html);
    let t = chars_vec(prompt_template.as_str());
    let pat = chars_vec("{content}");
    let rep = chars_vec(text.as_str());
    let out = replace_chars(&t, &pat, &rep);
    string_of(&out)
}

/// The JSON request body for content generation, carrying the prompt as the
/// single part of the single content entry.
pub open spec fn request_body_spec(prompt: Seq<char>) -> Seq<char> {
    "{\"contents\":[{\"parts\":[{\"text\":\""@ + json_escape_spec(prompt)
        + "\"}]}]}"@
}

pub fn summary_request_body(prompt: &String) -> (r: String)
    ensures
        r@ == request_body_spec(prompt@),
{
    let mut s = String::from_str("{\"contents\":[{\"parts\":[{\"text\":\"");
    let v = chars_vec(prompt.as_str());
    let esc = json_escape_chars(&v);
    let escs = string_of(&esc);
    s.append(escs.as_str());
    s.append("\"}]}]}");
    s
}

/// The content-generation endpoint URL: the model identifier in the path,
/// the API key as a query parameter.
pub open spec fn generate_url_spec(model: Seq<char>, api_key: Seq<char>) -> Seq<char> {
    "https://generativelanguage.googleapis.com/v1beta/"@ + model + ":generateContent?key="@
        + api_key
}

pub fn generate_content_url(model: &String, api_key: &String) -> (r: String)
    ensures
        r@ == generate_url_spec(model@, api_key@),
{
    let mut s = String::from_str("https://generativelanguage.googleapis.com/v1beta/");
    s.append(model.as_str());
    s.append(":generateContent?key=");
    s.append(api_key.as_str());
    s
}

/// The model-catalog endpoint URL, the API key as a query parameter.
pub open spec fn models_url_spec(api_key: Seq<char>) -> Seq<char> {
    "https://generativelanguage.googleapis.com/v1beta/models?key="@ + api_key
}

pub fn gemini_models_url(api_key: &String) -> (r: String)
    ensures
        r@ == models_url_spec(api_key@),
{
    let mut s = String::from_str("https://generativelanguage.googleapis.com/v1beta/models?key=");
    s.append(api_key.as_str());
    s
}

/// The outcome determined by the endpoint's HTTP status and response body.
/// On a success status, the text at the fixed response path, or a diagnostic
/// carrying the raw body when that path is absent.  On any other status, an
/// error carrying the status code and the provider's error message, or a
/// generic fallback when no message can be read.
pub open spec fn summary_response_spec(status: u16, body: Seq<char>) -> Result<
    Seq<char>,
    Seq<char>,
> {
    if 200 <= status < 300 {
        match summary_text_of(body) {
            Option::Some(t) => Ok(t),
            Option::None => Err("Unexpected Gemini response: "@ + body),
        }
    } else {
        let msg = match error_message_of(body) {
            Option::Some(m) => m,
            Option::None => "Unknown Gemini API error"@,
        };
        Err("Gemini API error "@ + dec_str(status as int) + ": "@ + msg)
    }
}

pub fn summary_response(status: u16, body: &String) -> (r: Result<String, String>)
    ensures
        out_view(r) == summary_response_spec(status, body@),
{
    if 200 <= status && status < 300 {
        match json_summary_text(body) {
            Option::Some(t) => Ok(t),
            Option::None => {
                let mut e = String::from_str("Unexpected Gemini response: ");
                e.append(body.as_str());
                Err(e)
            },
        }
    } else {
        let mut e = String::from_str("Gemini API error ");
        let digits = dec_chars(status as u64);
        let ds = string_of(&digits);
        e.append(ds.as_str());
        e.append(": ");
        match json_error_message(body) {
            Option::Some(m) => {
                e.append(m.as_str());
            },
            Option::None => {
                e.append("Unknown Gemini API error");
            },
        }
        Err(e)
    }
}

/// Whether a model's method list includes content generation.
pub open spec fn supports_generation(ms: Seq<Option<Seq<char>>>) -> bool {
    exists|i: int| 0 <= i < ms.len() && ms[i] == Some("generateContent"@)
}

/// The names of the catalog entries that support content generation, in
/// catalog order: entries without a name or without a method list are
/// dropped.
pub open spec fn generation_models(
    entries: Seq<(Option<Seq<char>>, Option<Seq<Option<Seq<char>>>>)>,
) -> Seq<Seq<char>>
    decreases entries.len(),
{
    if entries.len() == 0 {
        Seq::empty()
    } else {
        let rest = generation_models(entries.drop_first());
        match entries[0].0 {
            Option::Some(name) => match entries[0].1 {
                Option::Some(ms) => if supports_generation(ms) {
                    seq![name] + rest
                } else {
                    rest
                },
                Option::None => rest,
            },
            Option::None => rest,
        }
    }
}

fn supports_generation_exec(ms: &Vec<Option<String>>) -> (r: bool)
    ensures
        r == supports_generation(ms.deep_view()),
{
    let target = chars_vec("generateContent");
    let n = ms.len();
    let mut j: usize = 0;
    while j < n
        invariant
            j <= n,
            n == ms@.len(),
            target@ == "generateContent"@,
            forall|k: int| 0 <= k < j ==> ms.deep_view()[k] != Some("generateContent"@),
        decreases n - j,
    {
        let hit = match &ms[j] {
            Option::Some(s) => {
                let sv = chars_vec(s.as_str());
                eq_chars(&sv, &target)
            },
            Option::None => false,
        };
        if hit {
            assert(ms.deep_view()[j as int] == Some("generateContent"@));
            return true;
        }
        j = j + 1;
    }
    false
}

/// The caller-facing model list derived from the catalog response body: the
/// identifiers of the generation-capable models in the provider's order, or
/// the fixed error when the body does not hold a model array.
pub open spec fn models_list_spec(body: Seq<char>) -> Result<Seq<Seq<char>>, Seq<char>> {
    match models_of(body) {
        Option::None => Err("Unexpected response from models endpoint"@),
        Option::Some(entries) => Ok(generation_models(entries)),
    }
}

/// The model identifiers offered for selection, read from the fetched
/// catalog response body.
pub fn list_gemini_models(body: &String) -> (r: Result<Vec<String>, String>)
    ensures
        match r {
            Ok(names) => models_list_spec(body@) == Result::<Seq<Seq<char>>, Seq<char>>::Ok(
                names.deep_view(),
            ),
            Err(e) => models_list_spec(body@) == Result::<Seq<Seq<char>>, Seq<char>>::Err(e@),
        },
{
    let entries = match json_models(body) {
        Option::None => {
            return Err(String::from_str("Unexpected response from models endpoint"));
        },
        Option::Some(entries) => entries,
    };
    let ghost dv = entries.deep_view();
    let n = entries.len();
    let mut out: Vec<String> = Vec::new();
    let mut i: usize = 0;
    assert(dv.skip(0) =~= dv);
    assert(out.deep_view() + generation_models(dv) =~= generation_models(dv));
    while i < n
        invariant
            i <= n,
            n == entries@.len(),
            dv == entries.deep_view(),
            generation_models(dv) == out.deep_view() + generation_models(dv.skip(i as int)),
        decreases n - i,
    {
        assert(dv.skip(i as int).drop_first() =~= dv.skip(i as int + 1));
        assert(dv.skip(i as int)[0] == dv[i as int]);
        let ghost out0 = out.deep_view();
        match &entries[i] {
            (Option::Some(name), Option::Some(ms)) => {
                if supports_generation_exec(ms) {
                    out.push(name.clone());
                    proof {
                        let rest = generation_models(dv.skip(i as int + 1));
                        assert(out.deep_view() =~= out0 + seq![name@]);
                        assert(out0 + (seq![name@] + rest) =~= (out0 + seq![name@]) + rest);
                    }
                }
            },
            _ => {},
        }
        i = i + 1;
    }
    assert(dv.skip(n as int) =~= Seq::<(Option<Seq<char>>, Option<Seq<Option<Seq<char>>>>)>::empty());
    assert(out.deep_view() + generation_models(dv.skip(n as int)) =~= out.deep_view());
    Ok(out)
}

} // verus!
