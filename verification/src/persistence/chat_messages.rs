use vstd::prelude::*;

use crate::model::Role;
use crate::persistence::codes::{role_from_db, role_name, role_to_db, law_role_round_trip};
use crate::text::{concat, opt_view, str_eq};

verus! {

#[verifier::external_type_specification]
#[verifier::external_body]
pub struct ExJsonValue(serde_json::Value);

/// A tool call made in a message: its id, the tool's name and the arguments.
pub struct ToolCall {
    pub id: String,
    pub name: String,
    pub arguments: serde_json::Value,
}

/// The answer to a tool call: the call's id, the output and whether it is an error.
pub struct ToolResultMessage {
    pub tool_call_id: String,
    pub output: serde_json::Value,
    pub is_error: bool,
}

/// What a chat message holds.
pub enum MessageContent {
    Text(String),
    Multimodal { text: String },
    ToolCall { text: Option<String>, tool_calls: Vec<ToolCall> },
    ToolResults(Vec<ToolResultMessage>),
}

/// A chat message.
pub struct Message {
    pub role: Role,
    pub content: MessageContent,
}

/// The abstract value of a message's content.
pub enum ContentView {
    Text(Seq<char>),
    Multimodal(Seq<char>),
    ToolCall(Option<Seq<char>>, Seq<(Seq<char>, Seq<char>, serde_json::Value)>),
    ToolResults(Seq<(Seq<char>, serde_json::Value, bool)>),
}

pub open spec fn call_view(c: ToolCall) -> (Seq<char>, Seq<char>, serde_json::Value) {
    (c.id@, c.name@, c.arguments)
}

pub open spec fn result_view(r: ToolResultMessage) -> (Seq<char>, serde_json::Value, bool) {
    (r.tool_call_id@, r.output, r.is_error)
}

pub open spec fn content_view(c: MessageContent) -> ContentView {
    match c {
        MessageContent::Text(t) => ContentView::Text(t@),
        MessageContent::Multimodal { text } => ContentView::Multimodal(text@),
        MessageContent::ToolCall { text, tool_calls } => ContentView::ToolCall(
            opt_view(text),
            tool_calls@.map_values(|c: ToolCall| call_view(c)),
        ),
        MessageContent::ToolResults(rs) => ContentView::ToolResults(
            rs@.map_values(|r: ToolResultMessage| result_view(r)),
        ),
    }
}

/// A stored tool call, as its JSON payload item reads: id and name when they are strings, and
/// the arguments (`null` when absent).
pub struct StoredToolCall {
    pub id: Option<String>,
    pub name: Option<String>,
    pub arguments: serde_json::Value,
}

/// A stored tool result, as its JSON payload item reads: the call's id when it is a string,
/// the output (`null` when absent) and the error flag when it is a boolean.
pub struct StoredToolResult {
    pub tool_call_id: Option<String>,
    pub output: serde_json::Value,
    pub is_error: Option<bool>,
}

/// The JSON payload of a stored message: its `tool_calls` and `tool_results` arrays, where
/// present.
pub struct StoredPayload {
    pub tool_calls: Option<Vec<StoredToolCall>>,
    pub tool_results: Option<Vec<StoredToolResult>>,
}

pub open spec fn stored_call_view(c: StoredToolCall) -> (Option<Seq<char>>, Option<Seq<char>>, serde_json::Value) {
    (opt_view(c.id), opt_view(c.name), c.arguments)
}

pub open spec fn stored_result_view(r: StoredToolResult) -> (Option<Seq<char>>, serde_json::Value, Option<bool>) {
    (opt_view(r.tool_call_id), r.output, r.is_error)
}

pub open spec fn or_empty(o: Option<Seq<char>>) -> Seq<char> {
    match o {
        Some(s) => s,
        None => Seq::<char>::empty(),
    }
}

pub open spec fn stored_of_call(c: ToolCall) -> (Option<Seq<char>>, Option<Seq<char>>, serde_json::Value) {
    (Some(c.id@), Some(c.name@), c.arguments)
}

pub open spec fn stored_of_result(r: ToolResultMessage) -> (Option<Seq<char>>, serde_json::Value, Option<bool>) {
    (Some(r.tool_call_id@), r.output, Some(r.is_error))
}

pub open spec fn call_of_stored(c: StoredToolCall) -> (Seq<char>, Seq<char>, serde_json::Value) {
    (or_empty(opt_view(c.id)), or_empty(opt_view(c.name)), c.arguments)
}

pub open spec fn result_of_stored(r: StoredToolResult) -> (Seq<char>, serde_json::Value, bool) {
    (
        or_empty(opt_view(r.tool_call_id)),
        r.output,
        match r.is_error {
            Some(b) => b,
            None => false,
        },
    )
}

/// The abstract value of a payload.
pub struct PayloadView {
    pub tool_calls: Option<Seq<(Option<Seq<char>>, Option<Seq<char>>, serde_json::Value)>>,
    pub tool_results: Option<Seq<(Option<Seq<char>>, serde_json::Value, Option<bool>)>>,
}

pub open spec fn payload_view(p: StoredPayload) -> PayloadView {
    PayloadView {
        tool_calls: match p.tool_calls {
            Some(v) => Some(v@.map_values(|c: StoredToolCall| stored_call_view(c))),
            None => None,
        },
        tool_results: match p.tool_results {
            Some(v) => Some(v@.map_values(|r: StoredToolResult| stored_result_view(r))),
            None => None,
        },
    }
}

pub open spec fn opt_payload_view(p: Option<StoredPayload>) -> Option<PayloadView> {
    match p {
        Some(v) => Some(payload_view(v)),
        None => None,
    }
}

/// The columns a message content is stored in: its kind, its text and its payload.
pub open spec fn split_spec(c: ContentView) -> (Seq<char>, Option<Seq<char>>, Option<PayloadView>) {
    match c {
        ContentView::Text(t) => ("text"@, Some(t), None),
        ContentView::Multimodal(t) => ("text"@, Some(t), None),
        ContentView::ToolCall(text, calls) => (
            "tool_call"@,
            text,
            Some(
                PayloadView {
                    tool_calls: Some(
                        calls.map_values(
                            |c: (Seq<char>, Seq<char>, serde_json::Value)| (Some(c.0), Some(c.1), c.2),
                        ),
                    ),
                    tool_results: None,
                },
            ),
        ),
        ContentView::ToolResults(rs) => (
            "tool_results"@,
            None,
            Some(
                PayloadView {
                    tool_calls: None,
                    tool_results: Some(
                        rs.map_values(
                            |r: (Seq<char>, serde_json::Value, bool)| (Some(r.0), r.1, Some(r.2)),
                        ),
                    ),
                },
            ),
        ),
    }
}

fn owned_or_empty(s: Option<String>) -> (r: String)
    ensures
        r@ == match s {
            Some(v) => v@,
            None => Seq::<char>::empty(),
        },
{
    match s {
        Some(v) => v,
        None => String::new(),
    }
}

/// The columns a message is stored in, besides its role.
pub fn split_message(content: MessageContent) -> (r: (String, Option<String>, Option<StoredPayload>))
    ensures
        (r.0@, opt_view(r.1), opt_payload_view(r.2)) == split_spec(content_view(content)),
{
    match content {
        MessageContent::Text(text) => ("text".to_owned(), Some(text), None),
        MessageContent::Multimodal { text } => ("text".to_owned(), Some(text), None),
        MessageContent::ToolCall { text, tool_calls } => {
            let ghost calls = tool_calls@;
            let mut rest = tool_calls;
            let mut items: Vec<StoredToolCall> = Vec::new();
            let mut k: usize = 0;
            let n0 = rest.len();
            assert(calls.len() == n0);
            assert(calls.skip(0) =~= calls);
            assert(items@.map_values(|c: StoredToolCall| stored_call_view(c)) =~= calls.take(0).map_values(
                |c: ToolCall| stored_of_call(c),
            ));
            while rest.len() > 0
                invariant
                    rest@ == calls.skip(k as int),
                    k <= calls.len(),
                    calls.len() <= usize::MAX,
                    items@.map_values(|c: StoredToolCall| stored_call_view(c)) == calls.take(k as int).map_values(
                        |c: ToolCall| stored_of_call(c),
                    ),
                decreases rest.len(),
            {
                let ghost before = items@.map_values(|c: StoredToolCall| stored_call_view(c));
                let c = rest.remove(0);
                proof {
                    assert(calls.skip(k as int)[0] == c);
                    assert(rest@ =~= calls.skip(k + 1));
                }
                let ghost cv = stored_of_call(c);
                let item = StoredToolCall { id: Some(c.id), name: Some(c.name), arguments: c.arguments };
                assert(stored_call_view(item) == cv);
                items.push(item);
                assert(items@.map_values(|c: StoredToolCall| stored_call_view(c)) =~= before.push(cv));
                proof {
                    assert(calls.take(k + 1) =~= calls.take(k as int).push(calls[k as int]));
                    assert(items@.map_values(|c: StoredToolCall| stored_call_view(c)) =~= calls.take(k + 1).map_values(
                        |c: ToolCall| stored_of_call(c),
                    ));
                }
                k += 1;
            }
            proof {
                assert(calls.skip(k as int).len() == 0);
                assert(calls.take(k as int) =~= calls);
                assert(calls.map_values(|c: ToolCall| stored_of_call(c)) =~= calls.map_values(|c: ToolCall| call_view(c)).map_values(
                    |c: (Seq<char>, Seq<char>, serde_json::Value)| (Some(c.0), Some(c.1), c.2),
                ));
            }
            ("tool_call".to_owned(), text, Some(StoredPayload { tool_calls: Some(items), tool_results: None }))
        },
        MessageContent::ToolResults(results) => {
            let ghost all = results@;
            let mut rest = results;
            let mut items: Vec<StoredToolResult> = Vec::new();
            let mut k: usize = 0;
            let n0 = rest.len();
            assert(all.len() == n0);
            assert(all.skip(0) =~= all);
            assert(items@.map_values(|r: StoredToolResult| stored_result_view(r)) =~= all.take(0).map_values(
                |r: ToolResultMessage| stored_of_result(r),
            ));
            while rest.len() > 0
                invariant
                    rest@ == all.skip(k as int),
                    k <= all.len(),
                    all.len() <= usize::MAX,
                    items@.map_values(|r: StoredToolResult| stored_result_view(r)) == all.take(k as int).map_values(
                        |r: ToolResultMessage| stored_of_result(r),
                    ),
                decreases rest.len(),
            {
                let ghost before = items@.map_values(|r: StoredToolResult| stored_result_view(r));
                let r = rest.remove(0);
                proof {
                    assert(all.skip(k as int)[0] == r);
                    assert(rest@ =~= all.skip(k + 1));
                }
                let ghost rv = stored_of_result(r);
                let item = StoredToolResult { tool_call_id: Some(r.tool_call_id), output: r.output, is_error: Some(r.is_error) };
                assert(stored_result_view(item) == rv);
                items.push(item);
                assert(items@.map_values(|r: StoredToolResult| stored_result_view(r)) =~= before.push(rv));
                proof {
                    assert(all.take(k + 1) =~= all.take(k as int).push(all[k as int]));
                    assert(items@.map_values(|r: StoredToolResult| stored_result_view(r)) =~= all.take(k + 1).map_values(
                        |r: ToolResultMessage| stored_of_result(r),
                    ));
                }
                k += 1;
            }
            proof {
                assert(all.skip(k as int).len() == 0);
                assert(all.take(k as int) =~= all);
                assert(all.map_values(|r: ToolResultMessage| stored_of_result(r)) =~= all.map_values(
                    |r: ToolResultMessage| result_view(r),
                ).map_values(|r: (Seq<char>, serde_json::Value, bool)| (Some(r.0), r.1, Some(r.2))));
            }
            ("tool_results".to_owned(), None, Some(StoredPayload { tool_calls: None, tool_results: Some(items) }))
        },
    }
}

/// A message's content read back from its columns, missing strings read as empty and a
/// missing error flag as `false`; `Err` gives the message of an unexpected store error.
pub open spec fn restore_spec(kind: Seq<char>, text: Option<Seq<char>>, payload: Option<PayloadView>) -> Result<
    ContentView,
    Seq<char>,
> {
    if kind == "text"@ {
        Ok(ContentView::Text(
            match text {
                Some(t) => t,
                None => Seq::<char>::empty(),
            },
        ))
    } else if kind == "tool_call"@ {
        match payload {
            Some(PayloadView { tool_calls: Some(items), .. }) => Ok(
                ContentView::ToolCall(
                    text,
                    items.map_values(
                        |c: (Option<Seq<char>>, Option<Seq<char>>, serde_json::Value)| (
                            match c.0 {
                                Some(s) => s,
                                None => Seq::<char>::empty(),
                            },
                            match c.1 {
                                Some(s) => s,
                                None => Seq::<char>::empty(),
                            },
                            c.2,
                        ),
                    ),
                ),
            ),
            _ => Err("missing tool_calls payload"@),
        }
    } else if kind == "tool_results"@ {
        match payload {
            Some(PayloadView { tool_results: Some(items), .. }) => Ok(
                ContentView::ToolResults(
                    items.map_values(
                        |r: (Option<Seq<char>>, serde_json::Value, Option<bool>)| (
                            match r.0 {
                                Some(s) => s,
                                None => Seq::<char>::empty(),
                            },
                            r.1,
                            match r.2 {
                                Some(b) => b,
                                None => false,
                            },
                        ),
                    ),
                ),
            ),
            _ => Err("missing tool_results payload"@),
        }
    } else {
        Err("unknown kind: "@ + kind)
    }
}

/// Reads a message back from its columns.
pub fn restore_message(role: &str, kind: &str, text: Option<String>, payload: Option<StoredPayload>) -> (r: Result<
    Message,
    String,
>)
    ensures
        match r {
            Ok(m) => role_name(m.role) == role@ && restore_spec(kind@, opt_view(text), opt_payload_view(payload))
                == Ok::<ContentView, Seq<char>>(content_view(m.content)),
            Err(e) => (forall|x: Role| role_name(x) != role@) && e@ == "unknown role: "@ + role@ || (exists|x: Role|
                role_name(x) == role@) && restore_spec(kind@, opt_view(text), opt_payload_view(payload))
                == Err::<ContentView, Seq<char>>(e@),
        },
{
    let role = match role_from_db(role) {
        Ok(r) => r,
        Err(e) => return Err(e),
    };
    let ghost pv = opt_payload_view(payload);
    let ghost tv = opt_view(text);
    if str_eq(kind, "text") {
        return Ok(Message { role, content: MessageContent::Text(owned_or_empty(text)) });
    }
    if str_eq(kind, "tool_call") {
        let items = match payload {
            Some(StoredPayload { tool_calls: Some(items), .. }) => items,
            _ => return Err("missing tool_calls payload".to_owned()),
        };
        let ghost stored = items@;
        let mut rest = items;
        let mut calls: Vec<ToolCall> = Vec::new();
        let mut k: usize = 0;
        let n0 = rest.len();
        assert(stored.len() == n0);
        assert(stored.skip(0) =~= stored);
        assert(calls@.map_values(|c: ToolCall| call_view(c)) =~= stored.take(0).map_values(
            |c: StoredToolCall| call_of_stored(c),
        ));
        while rest.len() > 0
            invariant
                rest@ == stored.skip(k as int),
                k <= stored.len(),
                stored.len() <= usize::MAX,
                calls@.map_values(|c: ToolCall| call_view(c)) == stored.take(k as int).map_values(
                    |c: StoredToolCall| call_of_stored(c),
                ),
            decreases rest.len(),
        {
            let ghost before = calls@.map_values(|c: ToolCall| call_view(c));
            let c = rest.remove(0);
            proof {
                assert(stored.skip(k as int)[0] == c);
                assert(rest@ =~= stored.skip(k + 1));
            }
            let ghost cv = call_of_stored(c);
            let call = ToolCall { id: owned_or_empty(c.id), name: owned_or_empty(c.name), arguments: c.arguments };
            assert(call_view(call) == cv);
            calls.push(call);
            assert(calls@.map_values(|c: ToolCall| call_view(c)) =~= before.push(cv));
            proof {
                assert(stored.take(k + 1) =~= stored.take(k as int).push(stored[k as int]));
                assert(calls@.map_values(|c: ToolCall| call_view(c)) =~= stored.take(k + 1).map_values(
                    |c: StoredToolCall| call_of_stored(c),
                ));
            }
            k += 1;
        }
        proof {
            assert(stored.skip(k as int).len() == 0);
            assert(stored.take(k as int) =~= stored);
            assert(stored.map_values(|c: StoredToolCall| call_of_stored(c)) =~= stored.map_values(
                |c: StoredToolCall| stored_call_view(c),
            ).map_values(
                |c: (Option<Seq<char>>, Option<Seq<char>>, serde_json::Value)| (
                    match c.0 {
                        Some(s) => s,
                        None => Seq::<char>::empty(),
                    },
                    match c.1 {
                        Some(s) => s,
                        None => Seq::<char>::empty(),
                    },
                    c.2,
                ),
            ));
        }
        return Ok(Message { role, content: MessageContent::ToolCall { text, tool_calls: calls } });
    }
    if str_eq(kind, "tool_results") {
        let items = match payload {
            Some(StoredPayload { tool_results: Some(items), .. }) => items,
            _ => return Err("missing tool_results payload".to_owned()),
        };
        let ghost stored = items@;
        let mut rest = items;
        let mut results: Vec<ToolResultMessage> = Vec::new();
        let mut k: usize = 0;
        let n0 = rest.len();
        assert(stored.len() == n0);
        assert(stored.skip(0) =~= stored);
        assert(results@.map_values(|r: ToolResultMessage| result_view(r)) =~= stored.take(0).map_values(
            |r: StoredToolResult| result_of_stored(r),
        ));
        while rest.len() > 0
            invariant
                rest@ == stored.skip(k as int),
                k <= stored.len(),
                stored.len() <= usize::MAX,
                results@.map_values(|r: ToolResultMessage| result_view(r)) == stored.take(k as int).map_values(
                    |r: StoredToolResult| result_of_stored(r),
                ),
            decreases rest.len(),
        {
            let ghost before = results@.map_values(|r: ToolResultMessage| result_view(r));
            let r = rest.remove(0);
            proof {
                assert(stored.skip(k as int)[0] == r);
                assert(rest@ =~= stored.skip(k + 1));
            }
            let is_error = match r.is_error {
                Some(b) => b,
                None => false,
            };
            let ghost rv = result_of_stored(r);
            let result = ToolResultMessage { tool_call_id: owned_or_empty(r.tool_call_id), output: r.output, is_error };
            assert(result_view(result) == rv);
            results.push(result);
            assert(results@.map_values(|r: ToolResultMessage| result_view(r)) =~= before.push(rv));
            proof {
                assert(stored.take(k + 1) =~= stored.take(k as int).push(stored[k as int]));
                assert(results@.map_values(|r: ToolResultMessage| result_view(r)) =~= stored.take(k + 1).map_values(
                    |r: StoredToolResult| result_of_stored(r),
                ));
            }
            k += 1;
        }
        proof {
            assert(stored.skip(k as int).len() == 0);
            assert(stored.take(k as int) =~= stored);
            assert(stored.map_values(|r: StoredToolResult| result_of_stored(r)) =~= stored.map_values(
                |r: StoredToolResult| stored_result_view(r),
            ).map_values(
                |r: (Option<Seq<char>>, serde_json::Value, Option<bool>)| (
                    match r.0 {
                        Some(s) => s,
                        None => Seq::<char>::empty(),
                    },
                    r.1,
                    match r.2 {
                        Some(b) => b,
                        None => false,
                    },
                ),
            ));
        }
        return Ok(Message { role, content: MessageContent::ToolResults(results) });
    }
    Err(concat("unknown kind: ", kind))
}

/// A stored message reads back as it was written, except that a multimodal message reads back
/// as its text.
pub proof fn law_split_then_restore(c: ContentView)
    requires
        !(c is Multimodal),
    ensures
        restore_spec(split_spec(c).0, split_spec(c).1, split_spec(c).2) == Ok::<ContentView, Seq<char>>(c),
{
    reveal_strlit("text");
    reveal_strlit("tool_call");
    reveal_strlit("tool_results");
    match c {
        ContentView::Text(t) => {},
        ContentView::Multimodal(t) => {},
        ContentView::ToolCall(text, calls) => {
            let (k, tx, p) = split_spec(c);
            assert("tool_call"@.len() == 9 && "text"@.len() == 4);
            assert(k != "text"@);
            let items = calls.map_values(
                |c: (Seq<char>, Seq<char>, serde_json::Value)| (Some(c.0), Some(c.1), c.2),
            );
            let back = items.map_values(
                |c: (Option<Seq<char>>, Option<Seq<char>>, serde_json::Value)| (
                    match c.0 {
                        Some(s) => s,
                        None => Seq::<char>::empty(),
                    },
                    match c.1 {
                        Some(s) => s,
                        None => Seq::<char>::empty(),
                    },
                    c.2,
                ),
            );
            assert(back =~= calls);
        },
        ContentView::ToolResults(rs) => {
            let (k, tx, p) = split_spec(c);
            assert("tool_results"@.len() == 12 && "text"@.len() == 4 && "tool_call"@.len() == 9);
            assert(k != "text"@);
            assert(k != "tool_call"@);
            let items = rs.map_values(
                |r: (Seq<char>, serde_json::Value, bool)| (Some(r.0), r.1, Some(r.2)),
            );
            let back = items.map_values(
                |r: (Option<Seq<char>>, serde_json::Value, Option<bool>)| (
                    match r.0 {
                        Some(s) => s,
                        None => Seq::<char>::empty(),
                    },
                    r.1,
                    match r.2 {
                        Some(b) => b,
                        None => false,
                    },
                ),
            );
            assert(back =~= rs);
        },
    }
}

} // verus!
