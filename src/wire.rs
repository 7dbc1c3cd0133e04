//! The JSON text that the library writes: the body of a completion request
//! and the persisted form of a conversation log.

use vstd::prelude::*;
use vstd::string::*;
use crate::json::{json_quoted, quote};
use crate::message::{Message, MessageView, role_name, log_view};

verus! {

/// One message as a JSON object: on one line, or laid out as serde_json's
/// pretty printer lays out an element of an array (two spaces of indent per
/// level, `": "` after each key, one member per line).
pub open spec fn message_json(m: MessageView, pretty: bool) -> Seq<char> {
    if pretty {
        "  {\n    \"role\": "@ + json_quoted(role_name(m.role)) + ",\n    \"content\": "@
            + json_quoted(m.content) + "\n  }"@
    } else {
        "{\"role\":"@ + json_quoted(role_name(m.role)) + ",\"content\":"@ + json_quoted(m.content)
            + "}"@
    }
}

/// The separator between two elements of an array.
pub open spec fn separator(pretty: bool) -> Seq<char> {
    if pretty {
        ",\n"@
    } else {
        ","@
    }
}

/// The messages as JSON objects, separated.
pub open spec fn joined_json(ms: Seq<MessageView>, pretty: bool) -> Seq<char>
    decreases ms.len(),
{
    if ms.len() == 0 {
        Seq::empty()
    } else if ms.len() == 1 {
        message_json(ms[0], pretty)
    } else {
        joined_json(ms.drop_last(), pretty) + separator(pretty) + message_json(ms.last(), pretty)
    }
}

/// The messages as a JSON array on one line.
pub open spec fn array_json(ms: Seq<MessageView>) -> Seq<char> {
    "["@ + joined_json(ms, false) + "]"@
}

/// A log as it is persisted: the JSON array of its messages as serde_json's
/// pretty printer writes it, `[]` when it is empty.
pub open spec fn log_json(ms: Seq<MessageView>) -> Seq<char> {
    if ms.len() == 0 {
        "[]"@
    } else {
        "[\n"@ + joined_json(ms, true) + "\n]"@
    }
}

/// The body of a streaming completion request for `model` over `ms`.
pub open spec fn request_json(model: Seq<char>, ms: Seq<MessageView>) -> Seq<char> {
    "{\"model\":"@ + json_quoted(model) + ",\"messages\":"@ + array_json(ms) + ",\"stream\":true}"@
}

/// The model name that every request carries.
pub open spec fn model_name() -> Seq<char> {
    "local"@
}

fn append_message(out: &mut String, m: &Message, pretty: bool)
    ensures
        final(out)@ == old(out)@ + message_json(m@, pretty),
{
    let role = quote(m.role.name());
    let content = quote(m.content.as_str());
    if pretty {
        out.append("  {\n    \"role\": ");
        out.append(role.as_str());
        out.append(",\n    \"content\": ");
        out.append(content.as_str());
        out.append("\n  }");
    } else {
        out.append("{\"role\":");
        out.append(role.as_str());
        out.append(",\"content\":");
        out.append(content.as_str());
        out.append("}");
    }
    assert(final(out)@ =~= old(out)@ + message_json(m@, pretty));
}

/// Appends the messages of `log` to `out`, separated.
fn append_items(out: &mut String, log: &Vec<Message>, pretty: bool)
    ensures
        final(out)@ == old(out)@ + joined_json(log_view(log@), pretty),
{
    let ghost start = out@;
    let mut i: usize = 0;
    assert(start + Seq::<char>::empty() =~= start);
    while i < log.len()
        invariant
            i <= log@.len(),
            out@ == start + joined_json(log_view(log@.subrange(0, i as int)), pretty),
        decreases log@.len() - i,
    {
        let ghost prev = log_view(log@.subrange(0, i as int));
        let ghost next = log_view(log@.subrange(0, i + 1));
        assert(next.drop_last() =~= prev);
        assert(next.last() == log@[i as int]@);
        if i > 0 {
            if pretty {
                out.append(",\n");
            } else {
                out.append(",");
            }
        }
        append_message(out, &log[i], pretty);
        proof {
            if i == 0 {
                assert(prev =~= Seq::<MessageView>::empty());
                assert(next.len() == 1);
            } else {
                assert(next.len() > 1);
            }
            assert(out@ =~= start + joined_json(next, pretty));
        }
        i = i + 1;
    }
    assert(log@.subrange(0, log@.len() as int) =~= log@);
}

/// The persisted form of a log: a JSON array of `{"role", "content"}`
/// objects, in order, laid out by serde_json's pretty printer.
pub fn encode_log(log: &Vec<Message>) -> (r: String)
    ensures
        r@ == log_json(log_view(log@)),
{
    if log.len() == 0 {
        return String::from_str("[]");
    }
    let mut r = String::from_str("[\n");
    append_items(&mut r, log, true);
    r.append("\n]");
    assert(r@ =~= log_json(log_view(log@)));
    r
}

/// The body of a streaming completion request that carries the whole
/// context, in order.
pub fn request_body(context: &Vec<Message>) -> (r: String)
    ensures
        r@ == request_json(model_name(), log_view(context@)),
{
    let model = quote("local");
    let mut r = String::new();
    r.append("{\"model\":");
    r.append(model.as_str());
    r.append(",\"messages\":");
    r.append("[");
    append_items(&mut r, context, false);
    r.append("]");
    r.append(",\"stream\":true}");
    assert(r@ =~= request_json(model_name(), log_view(context@)));
    r
}

} // verus!
