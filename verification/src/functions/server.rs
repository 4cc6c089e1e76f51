//! How the server answers a request whose handling failed: the error's code
//! gives the status, and the body is a JSON object with the code and the
//! message.
use vstd::prelude::*;

use crate::plugin::filter::redirect::status_code_accepted;
use crate::text::{parse_u16, u16_text_value};

verus! {

/// The lower-case hexadecimal digit of `d` (below 16).
pub open spec fn hex_digit(d: u32) -> char {
    if d < 10 {
        (48 + d) as char
    } else {
        (87 + d) as char
    }
}

/// How `serde_json` writes one character inside a string: a quote and a
/// backslash are escaped with a backslash, backspace, form feed, line
/// feed, carriage return and tab as `\b`, `\f`, `\n`, `\r`, `\t`, any
/// other character below 32 as `\u00` and two lower-case hex digits, and
/// every other character as it is.
pub open spec fn json_escape_char(c: char) -> Seq<char> {
    let v = c as u32;
    if c == '"' {
        seq!['\\', '"']
    } else if c == '\\' {
        seq!['\\', '\\']
    } else if v == 8 {
        seq!['\\', 'b']
    } else if v == 12 {
        seq!['\\', 'f']
    } else if v == 10 {
        seq!['\\', 'n']
    } else if v == 13 {
        seq!['\\', 'r']
    } else if v == 9 {
        seq!['\\', 't']
    } else if v < 32 {
        seq!['\\', 'u', '0', '0', hex_digit(v / 16), hex_digit(v % 16)]
    } else {
        seq![c]
    }
}

/// The characters of a string, each written as [`json_escape_char`] does.
pub open spec fn json_escaped(s: Seq<char>) -> Seq<char>
    decreases s.len(),
{
    if s.len() == 0 {
        Seq::empty()
    } else {
        json_escaped(s.drop_last()) + json_escape_char(s.last())
    }
}

/// The JSON text of a string as `serde_json` writes it: the escaped
/// characters between double quotes.
pub open spec fn json_string_text(s: Seq<char>) -> Seq<char> {
    seq!['"'] + json_escaped(s) + seq!['"']
}

/// `serde_json::to_string` on a string slice: the contract claims that the
/// result is the string's JSON text (see [`json_string_text`]), as the
/// crate's string formatter writes it. Writing a `str` into memory does not
/// fail: the crate's docs give only a failing `Serialize` impl or a map
/// with non-string keys as causes of an error.
#[verifier::external_body]
fn json_string(s: &str) -> (r: String)
    ensures
        r@ == json_string_text(s@),
{
    match serde_json::to_string(s) {
        Ok(t) => t,
        Err(_) => String::new(),
    }
}

/// The status an error code maps to: a code that reads as a number from
/// 100 to 999 is that status, any other number is 500; a code that is no
/// number is 200 when it starts with `2` or `3`, 400 when it starts with
/// `4`, and 500 otherwise.
pub open spec fn error_status(code: Seq<char>) -> u16 {
    match u16_text_value(code) {
        Some(n) => if 100 <= n <= 999 {
            n
        } else {
            500
        },
        None => if code.len() > 0 && (code[0] == '2' || code[0] == '3') {
            200
        } else if code.len() > 0 && code[0] == '4' {
            400
        } else {
            500
        },
    }
}

/// The body of an error response, from the JSON texts of the code and of
/// the message: `{"code":<code>,"msg":<message>}`.
pub open spec fn error_body(code_json: Seq<char>, msg_json: Seq<char>) -> Seq<char> {
    seq!['{', '"', 'c', 'o', 'd', 'e', '"', ':'] + code_json + seq![',', '"', 'm', 's', 'g', '"', ':'] + msg_json + seq!['}']
}

/// The headers of an error response: its content type is JSON.
pub open spec fn error_headers_ok(hs: Seq<(String, String)>) -> bool {
    &&& hs.len() == 1
    &&& hs[0].0@ == seq!['c', 'o', 'n', 't', 'e', 'n', 't', '-', 't', 'y', 'p', 'e']
    &&& hs[0].1@ == seq!['a', 'p', 'p', 'l', 'i', 'c', 'a', 't', 'i', 'o', 'n', '/', 'j', 's', 'o', 'n']
}

/// The status of an error response for `code`.
pub fn error_status_of(code: &str) -> (r: u16)
    ensures
        r == error_status(code@),
{
    match parse_u16(code) {
        Some(n) => {
            if status_code_accepted(n) {
                n
            } else if 200 <= n && n < 400 {
                200
            } else if 400 <= n && n < 500 {
                400
            } else {
                500
            }
        },
        None => {
            let first = code.chars().next();
            match first {
                Some(c) => {
                    proof {
                        assert(code@.len() > 0);
                    }
                    if c == '2' || c == '3' {
                        200
                    } else if c == '4' {
                        400
                    } else {
                        500
                    }
                },
                None => 500,
            }
        },
    }
}

/// The error response for `code` once the code and the message have been
/// written as JSON: the status for `code`, a JSON content type, and the
/// body framing the two texts.
pub fn error_response(code: &str, code_json: &str, msg_json: &str) -> (r: (u16, Vec<(String, String)>, String))
    ensures
        r.0 == error_status(code@),
        error_headers_ok(r.1@),
        r.2@ == error_body(code_json@, msg_json@),
{
    let status = error_status_of(code);
    let mut body = String::new();
    body.append("{\"code\":");
    body.append(code_json);
    body.append(",\"msg\":");
    body.append(msg_json);
    body.append("}");
    proof {
        reveal_strlit("{\"code\":");
        reveal_strlit(",\"msg\":");
        reveal_strlit("}");
        assert(body@ =~= error_body(code_json@, msg_json@));
    }
    let name = String::from_str("content-type");
    let value = String::from_str("application/json");
    proof {
        reveal_strlit("content-type");
        reveal_strlit("application/json");
        assert(name@ =~= seq!['c', 'o', 'n', 't', 'e', 'n', 't', '-', 't', 'y', 'p', 'e']);
        assert(value@ =~= seq!['a', 'p', 'p', 'l', 'i', 'c', 'a', 't', 'i', 'o', 'n', '/', 'j', 's', 'o', 'n']);
    }
    let mut headers: Vec<(String, String)> = Vec::new();
    headers.push((name, value));
    (status, headers, body)
}

/// The response the server gives for an error with `code` and `message`:
/// the status for `code`, a JSON content type, and a body with the JSON
/// texts of the code and of the message.
pub fn into_http_error(code: &str, message: &str) -> (r: (u16, Vec<(String, String)>, String))
    ensures
        r.0 == error_status(code@),
        error_headers_ok(r.1@),
        r.2@ == error_body(json_string_text(code@), json_string_text(message@)),
{
    let code_json = json_string(code);
    let msg_json = json_string(message);
    error_response(code, code_json.as_str(), msg_json.as_str())
}

} // verus!
