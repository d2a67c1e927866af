use vstd::prelude::*;
use vstd::string::StringExecFns;
use crate::config::OutputType;

verus! {

#[verifier::external_type_specification]
#[verifier::external_body]
pub struct ExJsonValue(serde_json::Value);

#[verifier::external_type_specification]
#[verifier::external_body]
pub struct ExJsonError(serde_json::Error);

/// Whether `s` is one JSON value and nothing more, as `serde_json` reads it.
pub uninterp spec fn json_valid(s: Seq<char>) -> bool;

/// Relies on `serde_json::from_str` into a `serde_json::Value`: it succeeds
/// exactly on text that holds one JSON value.
#[verifier::external_body]
fn parse_json(s: &str) -> (r: Result<serde_json::Value, serde_json::Error>)
    ensures
        r.is_ok() == json_valid(s@),
{
    serde_json::from_str::<serde_json::Value>(s)
}

/// How the transport is asked to format the text of a reply.
#[derive(Debug, Clone, Copy, PartialEq, Eq, Structural)]
pub enum ParseMode {
    Text,
    Markdown,
    Html,
}

/// What is sent back for a chat message.
pub enum Reply {
    /// A text message to a chat.
    Message { chat_id: i64, text: String, parse_mode: ParseMode },
    /// A JSON value sent as the whole request body.
    Request(serde_json::Value),
}

/// Why no reply could be built.
#[derive(Debug, Clone, Copy, PartialEq, Eq, Structural)]
pub enum ReplyError {
    /// The output of a JSON command is not JSON.
    MalformedJson,
}

/// The fence around monospace output.
pub open spec fn fence() -> Seq<char> {
    seq!['`', '`', '`']
}

/// The text of a reply of kind `kind` to output `out`: fenced once for
/// monospace, else the output itself.
pub open spec fn reply_text(kind: OutputType, out: Seq<char>) -> Seq<char> {
    if kind == OutputType::TextMono {
        fence() + out + fence()
    } else {
        out
    }
}

/// The formatting a text reply of kind `kind` is sent with.
pub open spec fn parse_mode_of(kind: OutputType) -> ParseMode {
    match kind {
        OutputType::Html => ParseMode::Html,
        OutputType::Markdown => ParseMode::Markdown,
        OutputType::TextMono => ParseMode::Markdown,
        _ => ParseMode::Text,
    }
}

/// The reply to a chat message from the output of its command. A JSON command's
/// output is sent as the request itself, and is refused where it is not JSON;
/// every other kind gives a text message to `chat_id`.
pub fn build_reply(kind: OutputType, chat_id: i64, out: String) -> (r: Result<Reply, ReplyError>)
    ensures
        kind == OutputType::Json ==> {
            &&& r.is_ok() == json_valid(out@)
            &&& r.is_ok() ==> r.unwrap() is Request
            &&& r.is_err() ==> r == Err::<Reply, ReplyError>(ReplyError::MalformedJson)
        },
        kind != OutputType::Json ==> r.is_ok() && match r.unwrap() {
            Reply::Message { chat_id: c, text: t, parse_mode: m } => {
                &&& c == chat_id
                &&& t@ == reply_text(kind, out@)
                &&& m == parse_mode_of(kind)
            },
            Reply::Request(_) => false,
        },
{
    match kind {
        OutputType::Json => match parse_json(out.as_str()) {
            Ok(v) => Ok(Reply::Request(v)),
            Err(_) => Err(ReplyError::MalformedJson),
        },
        OutputType::TextMono => {
            proof {
                reveal_strlit("```");
            }
            let mut text = "```".to_owned();
            text.append(out.as_str());
            text.append("```");
            Ok(Reply::Message { chat_id, text, parse_mode: ParseMode::Markdown })
        },
        OutputType::Markdown => Ok(Reply::Message { chat_id, text: out, parse_mode: ParseMode::Markdown }),
        OutputType::Html => Ok(Reply::Message { chat_id, text: out, parse_mode: ParseMode::Html }),
        OutputType::Text => Ok(Reply::Message { chat_id, text: out, parse_mode: ParseMode::Text }),
    }
}

} // verus!
