//! What the chat client makes of a failed HTTP reply: the error's detail and its kind.
use vstd::prelude::*;

use crate::api_types::Message;
use crate::error::CrabClawError;
use crate::json::{field, json_text_parse, parse_json, Json};
use crate::text::{
    append_chars, append_str, signed_decimal, signed_decimal_chars, slice_chars, starts_with,
    starts_with_str, str_eq, string_from, string_of, to_chars,
};

verus! {

/// An optional string member: missing or null is no value; a string is its text; any
/// other value does not decode.
pub open spec fn opt_string(v: Option<Json>) -> Option<Option<Seq<char>>> {
    match v {
        None => Some(None),
        Some(Json::Null) => Some(None),
        Some(Json::Str(s)) => Some(Some(s@)),
        _ => None,
    }
}

/// The message of an error detail `{message, type, code}`, when it decodes: by name from
/// an object, or by position from an array of exactly three items; the message must be a
/// string and the type and code strings or null.
pub open spec fn detail_message(d: Json) -> Option<Seq<char>> {
    match d {
        Json::Object(_) => match (field(d, "message"@), opt_string(field(d, "type"@)), opt_string(field(d, "code"@))) {
            (Some(Json::Str(m)), Some(_), Some(_)) => Some(m@),
            _ => None,
        },
        Json::Array(v) => if v@.len() == 3 {
            match (v@[0], opt_string(Some(v@[1])), opt_string(Some(v@[2]))) {
                (Json::Str(m), Some(_), Some(_)) => Some(m@),
                _ => None,
            }
        } else {
            None
        },
        _ => None,
    }
}

/// The error of an error body `{error}`, when it decodes: `Some(None)` for a missing or
/// null error, `Some(Some(m))` for a detail with message `m`, `None` when it does not
/// decode.
pub open spec fn body_error(b: Json) -> Option<Option<Seq<char>>> {
    let e = match b {
        Json::Object(_) => Some(field(b, "error"@)),
        Json::Array(v) => if v@.len() == 1 {
            Some(Some(v@[0]))
        } else {
            None
        },
        _ => None,
    };
    match e {
        Some(None) => Some(None),
        Some(Some(Json::Null)) => Some(None),
        Some(Some(d)) => match detail_message(d) {
            Some(m) => Some(Some(m)),
            None => None,
        },
        None => None,
    }
}

/// The detail of a failed reply: the message of the error body it parses as, or else the
/// body text itself.
pub open spec fn error_detail_of(body: Seq<char>, parsed: Option<Json>) -> Seq<char> {
    match parsed {
        Some(b) => match body_error(b) {
            Some(Some(m)) => m,
            _ => body,
        },
        None => body,
    }
}

/// The message of an optional string member, checked.
fn opt_string_exec(v: Option<&Json>) -> (r: Option<Option<String>>)
    ensures
        match r {
            Some(x) => opt_string(crate::json::deref_json(v)) == Some(crate::config::opt_text(x)),
            None => opt_string(crate::json::deref_json(v)) is None,
        },
{
    match v {
        None => Some(None),
        Some(j) => match j {
            Json::Null => Some(None),
            Json::Str(s) => Some(Some(string_from(s.as_str()))),
            _ => None,
        },
    }
}

/// The message of an error detail, when it decodes.
fn detail_message_exec(d: &Json) -> (r: Option<String>)
    ensures
        crate::config::opt_text(r) == detail_message(*d),
{
    let (m, t, c): (Option<&Json>, Option<&Json>, Option<&Json>) = match d {
        Json::Object(_) => (d.get("message"), d.get("type"), d.get("code")),
        Json::Array(v) => {
            if v.len() != 3 {
                return None;
            }
            (Some(&v[0]), Some(&v[1]), Some(&v[2]))
        },
        _ => {
            return None;
        },
    };
    let ot = opt_string_exec(t);
    let oc = opt_string_exec(c);
    if ot.is_none() || oc.is_none() {
        return None;
    }
    match m {
        Some(Json::Str(s)) => Some(string_from(s.as_str())),
        _ => None,
    }
}

/// The detail of a failed reply, given its body and what the body parsed as.
pub fn error_detail_with(body: &str, parsed: Option<&Json>) -> (r: String)
    ensures
        r@ == error_detail_of(body@, crate::json::deref_json(parsed)),
{
    match parsed {
        Some(b) => {
            let e: Option<Option<&Json>> = match b {
                Json::Object(_) => Some(b.get("error")),
                Json::Array(v) => if v.len() == 1 {
                    Some(Some(&v[0]))
                } else {
                    None
                },
                _ => None,
            };
            match e {
                Some(Some(d)) => match d {
                    Json::Null => string_from(body),
                    _ => match detail_message_exec(d) {
                        Some(m) => m,
                        None => string_from(body),
                    },
                },
                _ => string_from(body),
            }
        },
        None => string_from(body),
    }
}

/// The detail of a failed reply: its body is parsed as JSON first.
pub fn error_detail(body: &str) -> (r: String)
    ensures
        r@ == error_detail_of(body@, json_text_parse(body@)),
{
    let parsed = parse_json(body);
    match &parsed {
        Some(b) => error_detail_with(body, Some(b)),
        None => error_detail_with(body, None),
    }
}

/// The error for a failed reply with status `code` (shown as `status`), as whether it is
/// an auth error and its text: an auth error for 401 and 403; for 429 a rate-limit note;
/// for 5xx a server error; otherwise a plain API error; each with the status and the
/// detail.
pub open spec fn http_error_text(code: u16, status: Seq<char>, detail: Seq<char>) -> (bool, Seq<char>) {
    if code == 401 || code == 403 {
        (true, "HTTP "@ + status + ": "@ + detail)
    } else if code == 429 {
        (false, "rate limited (HTTP "@ + status + "): "@ + detail)
    } else if 500 <= code < 600 {
        (false, "server error (HTTP "@ + status + "): "@ + detail)
    } else {
        (false, "HTTP "@ + status + ": "@ + detail)
    }
}

/// The error for a failed reply (see `http_error_text`): the first part tells an auth
/// error from an API error.
pub fn http_error(code: u16, status: &str, detail: &str) -> (r: CrabClawError)
    ensures
        match r {
            CrabClawError::Auth(m) => http_error_text(code, status@, detail@) == (true, m@),
            CrabClawError::Api(m) => http_error_text(code, status@, detail@) == (false, m@),
            _ => false,
        },
{
    let mut v: Vec<char> = Vec::new();
    if code == 401 || code == 403 {
        append_str(&mut v, "HTTP ");
        append_str(&mut v, status);
        append_str(&mut v, ": ");
        append_str(&mut v, detail);
        CrabClawError::Auth(string_of(&v))
    } else if code == 429 {
        append_str(&mut v, "rate limited (HTTP ");
        append_str(&mut v, status);
        append_str(&mut v, "): ");
        append_str(&mut v, detail);
        CrabClawError::Api(string_of(&v))
    } else if 500 <= code && code < 600 {
        append_str(&mut v, "server error (HTTP ");
        append_str(&mut v, status);
        append_str(&mut v, "): ");
        append_str(&mut v, detail);
        CrabClawError::Api(string_of(&v))
    } else {
        append_str(&mut v, "HTTP ");
        append_str(&mut v, status);
        append_str(&mut v, ": ");
        append_str(&mut v, detail);
        CrabClawError::Api(string_of(&v))
    }
}

/// The API that serves a model, named by the model's prefix.
#[derive(Debug, Clone, Copy, PartialEq, Eq, Structural)]
pub enum Provider {
    OpenAi,
    Anthropic,
    Codex,
}

/// The provider of a model and the model's name without its prefix: `anthropic:` and
/// `codex:` name their APIs, `openai:` and a model without a known prefix are served by an
/// OpenAI-compatible endpoint.
pub open spec fn provider_of(model: Seq<char>) -> (Provider, Seq<char>) {
    if starts_with(model, "anthropic:"@) {
        (Provider::Anthropic, model.skip(10))
    } else if starts_with(model, "codex:"@) {
        (Provider::Codex, model.skip(6))
    } else if starts_with(model, "openai:"@) {
        (Provider::OpenAi, model.skip(7))
    } else {
        (Provider::OpenAi, model)
    }
}

/// Splits a model into its provider and its name at that provider.
pub fn split_model(model: &str) -> (r: (Provider, String))
    ensures
        (r.0, r.1@) == provider_of(model@),
{
    proof {
        reveal_strlit("anthropic:");
        reveal_strlit("codex:");
        reveal_strlit("openai:");
    }
    let m = to_chars(model);
    let (p, k): (Provider, usize) = if starts_with_str(&m, "anthropic:") {
        (Provider::Anthropic, 10)
    } else if starts_with_str(&m, "codex:") {
        (Provider::Codex, 6)
    } else if starts_with_str(&m, "openai:") {
        (Provider::OpenAi, 7)
    } else {
        (Provider::OpenAi, 0)
    };
    let rest = slice_chars(&m, k, m.len());
    assert(rest@ =~= m@.skip(k as int));
    (p, string_of(&rest))
}

/// `s` without its trailing slashes.
pub open spec fn without_trailing_slashes(s: Seq<char>) -> Seq<char>
    decreases s.len(),
{
    if s.len() > 0 && s.last() == '/' {
        without_trailing_slashes(s.drop_last())
    } else {
        s
    }
}

/// The URL of an endpoint `path` under `api_base`, whose trailing slashes are dropped.
pub fn endpoint_url(api_base: &str, path: &str) -> (r: String)
    ensures
        r@ == without_trailing_slashes(api_base@) + path@,
{
    let b = to_chars(api_base);
    let mut n: usize = b.len();
    assert(b@.subrange(0, n as int) =~= b@);
    while n > 0 && b[n - 1] == '/'
        invariant
            n <= b.len(),
            without_trailing_slashes(b@) == without_trailing_slashes(b@.subrange(0, n as int)),
        decreases n,
    {
        assert(b@.subrange(0, n as int).drop_last() =~= b@.subrange(0, n - 1));
        n -= 1;
    }
    let mut v = slice_chars(&b, 0, n);
    append_str(&mut v, path);
    string_of(&v)
}

/// The system text of a conversation: the contents of its system messages in order, a
/// newline before each one that follows some text.
pub open spec fn system_fold(msgs: Seq<Message>) -> Seq<char>
    decreases msgs.len(),
{
    if msgs.len() == 0 {
        Seq::empty()
    } else {
        let t = system_fold(msgs.drop_last());
        let m = msgs.last();
        if m.role@ == "system"@ {
            if t.len() > 0 {
                t + "\n"@ + m.content@
            } else {
                t + m.content@
            }
        } else {
            t
        }
    }
}

/// The system prompt sent beside the messages to an Anthropic endpoint; none when the
/// system text is empty.
pub fn system_text(messages: &Vec<Message>) -> (r: Option<String>)
    ensures
        system_fold(messages@).len() == 0 ==> r is None,
        system_fold(messages@).len() > 0 ==> (r matches Some(s) && s@ == system_fold(messages@)),
{
    let mut v: Vec<char> = Vec::new();
    let mut i: usize = 0;
    while i < messages.len()
        invariant
            i <= messages.len(),
            v@ == system_fold(messages@.take(i as int)),
        decreases messages.len() - i,
    {
        assert(messages@.take(i + 1).drop_last() =~= messages@.take(i as int));
        if str_eq(messages[i].role.as_str(), "system") {
            if v.len() > 0 {
                append_str(&mut v, "\n");
            }
            append_str(&mut v, messages[i].content.as_str());
        }
        i += 1;
    }
    assert(messages@.take(messages@.len() as int) =~= messages@);
    if v.len() == 0 {
        None
    } else {
        Some(string_of(&v))
    }
}

/// Whether a successful reply's body reports an error in the non-standard shape
/// `{code, msg, success}`: `success` is false or `code` is at least 400.
pub open spec fn reports_error(success: Option<bool>, code: Option<i32>) -> bool {
    success == Some(false) || (code matches Some(c) && c >= 400)
}

/// The error that a successful reply's body reports in the non-standard shape, given the
/// body's `success`, `code` and `msg`; none when it reports none.
pub fn nonstandard_error(success: Option<bool>, code: Option<i32>, msg: Option<String>) -> (r:
    Option<CrabClawError>)
    ensures
        !reports_error(success, code) ==> r is None,
        reports_error(success, code) ==> (r matches Some(CrabClawError::Api(m)) && m@
            == "API error (code "@ + signed_decimal(
            match code {
                Some(c) => c as int,
                None => 0,
            },
        ) + "): "@ + match msg {
            Some(s) => s@,
            None => "unknown API error"@,
        }),
{
    let failed = match success {
        Some(false) => true,
        _ => match code {
            Some(c) => c >= 400,
            None => false,
        },
    };
    if !failed {
        return None;
    }
    let c: i32 = match code {
        Some(c) => c,
        None => 0,
    };
    let mut v: Vec<char> = Vec::new();
    append_str(&mut v, "API error (code ");
    let d = signed_decimal_chars(c);
    append_chars(&mut v, &d);
    append_str(&mut v, "): ");
    match &msg {
        Some(s) => append_str(&mut v, s.as_str()),
        None => append_str(&mut v, "unknown API error"),
    }
    Some(CrabClawError::Api(string_of(&v)))
}

} // verus!
