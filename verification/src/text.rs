//! The textual codec: the boundary to the external wire syntaxes.
//!
//! The token model is the only thing the framework shares with the wire
//! text; the syntaxes themselves (JSON and TOML) are external collaborators
//! reached through the trusted wrappers in this module.  A token's JSON
//! text is named `json_text_of`, its TOML text `toml_text_of`: both are
//! functions of the token alone, and decoding is promised to invert
//! encoding on the tokens the guards below admit.

use vstd::prelude::*;

use crate::error::SyntaxError;
use crate::token::{Token, TokenView};

verus! {

#[verifier::external_type_specification]
#[verifier::external_body]
pub struct ExJsonValue(serde_json::Value);

#[verifier::external_type_specification]
#[verifier::external_body]
pub struct ExTomlValue(toml::Value);

/// The JSON text of a token: object members in the mapping's own order,
/// numbers as integers.
pub uninterp spec fn json_text_of(t: TokenView) -> Seq<char>;

/// The TOML text of a flat mapping token.
pub uninterp spec fn toml_text_of(t: TokenView) -> Seq<char>;

/// A token the JSON codec is proved to round-trip: well-formed (mapping
/// keys distinct) and of modest nesting depth, far below the parser's
/// recursion limit.  The same depth bound guards the encoder, whose
/// mirroring recurses on the token.
pub open spec fn json_safe(t: TokenView) -> bool {
    t.wf() && t.depth() <= 64
}

/// A scalar token: what a flat TOML value may hold.
pub open spec fn toml_scalar(t: TokenView) -> bool {
    t is Bool || t is Number || t is Text
}

/// The first `n` elements are scalars.
pub open spec fn toml_scalars_upto(ts: Seq<TokenView>, n: nat) -> bool
    decreases n,
    when n <= ts.len()
{
    if n == 0 {
        true
    } else {
        toml_scalars_upto(ts, (n - 1) as nat) && toml_scalar(ts[n - 1])
    }
}

/// A token the TOML codec handles faithfully: a mapping with pairwise
/// distinct keys whose values are scalars or sequences of scalars.  TOML
/// has no null, and nested tables may be reordered by the writer, so the
/// flat form is what this codec promises to round-trip.
pub open spec fn toml_flat(t: TokenView) -> bool {
    match t {
        TokenView::Mapping(es) => {
            &&& forall|i: int, j: int|
                0 <= i < j < es.len() ==> (#[trigger] es[i]).0 != (#[trigger] es[j]).0
            &&& forall|i: int|
                0 <= i < es.len() ==> toml_scalar((#[trigger] es[i]).1) || ((es[i].1)
                    matches TokenView::Sequence(ts) && toml_scalars_upto(ts, ts.len()))
        },
        _ => false,
    }
}

/// Mirror a token as a JSON value, case for case: null, boolean, integer
/// number, string, array, object in entry order.  Called only from the
/// trusted textual wrappers.
#[verifier::external_body]
fn token_to_json(t: &Token) -> serde_json::Value {
    match t {
        Token::Null => serde_json::Value::Null,
        Token::Bool(b) => serde_json::Value::Bool(*b),
        Token::Number(n) => serde_json::Value::Number(serde_json::Number::from(*n)),
        Token::Text(s) => serde_json::Value::String(s.clone()),
        Token::Sequence(ts) => serde_json::Value::Array(ts.iter().map(token_to_json).collect()),
        Token::Mapping(es) => serde_json::Value::Object(
            es.iter().map(|e| (e.0.clone(), token_to_json(&e.1))).collect(),
        ),
    }
}

/// A syntax error with no position.
fn unplaced_error(msg: &str) -> (e: SyntaxError)
    ensures
        e.message@ == msg@,
{
    SyntaxError { line: 0, column: 0, message: msg.to_owned() }
}

/// Mirror a JSON value back as a token, case for case.  A number that is
/// not a signed 64-bit integer has no token form and is refused.  Called
/// only from the trusted textual wrappers.
#[verifier::external_body]
fn json_to_token(v: &serde_json::Value) -> Result<Token, SyntaxError> {
    match v {
        serde_json::Value::Null => Ok(Token::Null),
        serde_json::Value::Bool(b) => Ok(Token::Bool(*b)),
        serde_json::Value::Number(n) => n.as_i64().map(Token::Number).ok_or_else(|| unplaced_error("number out of range")),
        serde_json::Value::String(s) => Ok(Token::Text(s.clone())),
        serde_json::Value::Array(vs) => Ok(Token::Sequence(vs.iter().map(json_to_token).collect::<Result<_, _>>()?)),
        serde_json::Value::Object(m) => Ok(Token::Mapping(m.iter().map(|(k, x)| Ok((k.clone(), json_to_token(x)?))).collect::<Result<_, _>>()?)),
    }
}

/// Relies on serde_json::to_string, applied to the value mirror of the
/// token: it never fails there (all object keys are strings), and its
/// output depends on the token alone.  The depth bound keeps the
/// recursive mirroring and serialization well within the stack.
#[verifier::external_body]
fn json_encode_raw(t: &Token) -> (r: String)
    requires
        t@.depth() <= 64,
    ensures
        r@ == json_text_of(t@),
{
    match serde_json::to_string(&token_to_json(t)) {
        Ok(s) => s,
        Err(_) => String::new(),
    }
}

/// Relies on serde_json::from_str, parsing a value tree: the printed form
/// of a well-formed, modestly nested token gives an equal value back, with
/// object member order kept (the `preserve_order` feature), so the token
/// mirror is restored exactly.
#[verifier::external_body]
fn json_decode_raw(s: &str) -> (r: Result<Token, SyntaxError>)
    ensures
        forall|m: TokenView|
            json_safe(m) && s@ == json_text_of(m) ==> (r is Ok && r->Ok_0@ == m),
{
    match serde_json::from_str::<serde_json::Value>(s) {
        Ok(v) => json_to_token(&v),
        Err(e) => Err(
            SyntaxError {
                line: e.line() as u64,
                column: e.column() as u64,
                message: e.to_string(),
            },
        ),
    }
}

/// Mirror a flat mapping token as a TOML value.  Null has no TOML form
/// and is refused.  Called only from the trusted textual wrappers.
#[verifier::external_body]
fn token_to_toml(t: &Token) -> Result<toml::Value, SyntaxError> {
    match t {
        Token::Null => Err(unplaced_error("no null in this syntax")),
        Token::Bool(b) => Ok(toml::Value::Boolean(*b)),
        Token::Number(n) => Ok(toml::Value::Integer(*n)),
        Token::Text(s) => Ok(toml::Value::String(s.clone())),
        Token::Sequence(ts) => Ok(toml::Value::Array(ts.iter().map(token_to_toml).collect::<Result<_, _>>()?)),
        Token::Mapping(es) => Ok(toml::Value::Table(es.iter().map(|e| Ok((e.0.clone(), token_to_toml(&e.1)?))).collect::<Result<_, _>>()?)),
    }
}

/// Mirror a TOML value back as a token.  Floats and datetimes have no
/// token form and are refused.  Called only from the trusted textual
/// wrappers.
#[verifier::external_body]
fn toml_to_token(v: &toml::Value) -> Result<Token, SyntaxError> {
    match v {
        toml::Value::Boolean(b) => Ok(Token::Bool(*b)),
        toml::Value::Integer(n) => Ok(Token::Number(*n)),
        toml::Value::String(s) => Ok(Token::Text(s.clone())),
        toml::Value::Array(vs) => Ok(Token::Sequence(vs.iter().map(toml_to_token).collect::<Result<_, _>>()?)),
        toml::Value::Table(m) => Ok(Token::Mapping(m.iter().map(|(k, x)| Ok((k.clone(), toml_to_token(x)?))).collect::<Result<_, _>>()?)),
        _ => Err(unplaced_error("unsupported value")),
    }
}

/// Relies on toml::to_string, applied to the table mirror of a flat
/// mapping token: on such a table it succeeds, and its output depends on
/// the token alone.
#[verifier::external_body]
fn toml_encode_raw(t: &Token) -> (r: String)
    requires
        toml_flat(t@),
    ensures
        r@ == toml_text_of(t@),
{
    match token_to_toml(t) {
        Ok(v) => match toml::to_string(&v) {
            Ok(s) => s,
            Err(_) => String::new(),
        },
        Err(_) => String::new(),
    }
}

/// Relies on toml::from_str::<Datum>: parsing the printed form of a flat
/// mapping token gives an equal value back, with key order kept (the
/// `preserve_order` feature), so the token mirror is restored exactly.
#[verifier::external_body]
fn toml_decode_raw(s: &str) -> (r: Result<Token, SyntaxError>)
    ensures
        forall|m: TokenView|
            toml_flat(m) && s@ == toml_text_of(m) ==> (r is Ok && r->Ok_0@ == m),
{
    match toml::from_str::<toml::Value>(s) {
        Ok(v) => toml_to_token(&v),
        Err(e) => Err(
            SyntaxError { line: 0, column: 0, message: String::from(e.message()) },
        ),
    }
}

/// Produce the JSON wire text of a token of modest nesting depth.
pub fn to_json_text(t: &Token) -> (r: String)
    requires
        t@.depth() <= 64,
    ensures
        r@ == json_text_of(t@),
{
    json_encode_raw(t)
}

/// Parse JSON wire text into a token.  The text of any well-formed,
/// modestly nested token parses back to that token exactly.
pub fn from_json_text(s: &str) -> (r: Result<Token, SyntaxError>)
    ensures
        forall|m: TokenView|
            json_safe(m) && s@ == json_text_of(m) ==> (r matches Ok(t) && t@ == m),
{
    json_decode_raw(s)
}

/// Produce the TOML wire text of a flat mapping token.
pub fn to_toml_text(t: &Token) -> (r: String)
    requires
        toml_flat(t@),
    ensures
        r@ == toml_text_of(t@),
{
    toml_encode_raw(t)
}

/// Parse TOML wire text into a token.  The text of any flat mapping token
/// parses back to that token exactly.
pub fn from_toml_text(s: &str) -> (r: Result<Token, SyntaxError>)
    ensures
        forall|m: TokenView|
            toml_flat(m) && s@ == toml_text_of(m) ==> (r matches Ok(t) && t@ == m),
{
    toml_decode_raw(s)
}

} // verus!
