use vstd::prelude::*;

use crate::llm::bedrock::{answer_full_view, AnswerContent, ContentKind, LlmRole};
use crate::text::concat;

verus! {

/// What `serde_json::from_str::<serde_json::Value>` gives for `text`: `Ok` when it parses,
/// else the message of its error.
pub uninterp spec fn json_parse(text: Seq<char>) -> Result<(), Seq<char>>;

/// The JSON value that `serde_json::from_str::<serde_json::Value>` reads from `text` when it
/// parses.
pub uninterp spec fn json_value(text: Seq<char>) -> serde_json::Value;

/// Calls `serde_json::from_str` for a JSON value.
#[verifier::external_body]
fn parse_json(text: &str) -> (r: Result<serde_json::Value, String>)
    ensures
        match r {
            Ok(v) => json_parse(text@) == Ok::<(), Seq<char>>(()) && v == json_value(text@),
            Err(e) => json_parse(text@) == Err::<(), Seq<char>>(e@),
        },
{
    serde_json::from_str::<serde_json::Value>(text).map_err(|err| err.to_string())
}

/// The content type under which text of a message of `role` is sent.
pub fn text_content_type(role: LlmRole) -> (s: &'static str)
    ensures
        s@ == if role == LlmRole::Assistant {
            "output_text"@
        } else {
            "input_text"@
        },
{
    if role == LlmRole::Assistant {
        "output_text"
    } else {
        "input_text"
    }
}

/// Whether a part is sent inside its message (text, image, file) rather than as an item of
/// its own (tool call, tool call output).
pub open spec fn is_message_part(kind: ContentKind) -> bool {
    !(kind == ContentKind::ToolCall || kind == ContentKind::ToolCallOutput)
}

/// The kinds of a message's parts.
pub open spec fn kinds_of(parts: Seq<(ContentKind, bool)>) -> Seq<ContentKind> {
    parts.map_values(|p: (ContentKind, bool)| p.0)
}

/// The items of a request's input, from each message's parts as `(kind, fits)`, where `fits`
/// is whether the message's role admits the part: the tool calls and tool call outputs of all
/// messages, in order, as `(message, part)` positions. Messages are checked in order; one with
/// a part that does not fit its role is refused, and so is one without a part sent inside it.
pub open spec fn input_items_spec(messages: Seq<Seq<(ContentKind, bool)>>) -> Result<Seq<(int, int)>, Seq<char>>
    decreases messages.len(),
{
    if messages.len() == 0 {
        Ok(Seq::empty())
    } else {
        match input_items_spec(messages.drop_last()) {
            Err(e) => Err(e),
            Ok(before) => {
                let i = messages.len() - 1;
                let kinds = kinds_of(messages.last());
                if exists|j: int| 0 <= j < messages.last().len() && !(#[trigger] messages.last()[j]).1 {
                    Err("message content does not fit role"@)
                } else if forall|j: int| 0 <= j < kinds.len() ==> !is_message_part(#[trigger] kinds[j]) {
                    Err("message must have at least one content item"@)
                } else {
                    Ok(before + tool_items(i, kinds, kinds.len() as int))
                }
            },
        }
    }
}

/// The positions of the tool items among the first `n` parts of message `i`.
pub open spec fn tool_items(i: int, kinds: Seq<ContentKind>, n: int) -> Seq<(int, int)>
    decreases n,
{
    if n <= 0 || n > kinds.len() {
        Seq::empty()
    } else if is_message_part(kinds[n - 1]) {
        tool_items(i, kinds, n - 1)
    } else {
        tool_items(i, kinds, n - 1).push((i, n - 1))
    }
}

proof fn lemma_input_error_sticks(messages: Seq<Seq<(ContentKind, bool)>>, i: int)
    requires
        0 < i <= messages.len(),
        input_items_spec(messages.take(i)) is Err,
    ensures
        input_items_spec(messages) == input_items_spec(messages.take(i)),
    decreases messages.len() - i,
{
    if i < messages.len() {
        assert(messages.drop_last().take(i) =~= messages.take(i));
        lemma_input_error_sticks(messages.drop_last(), i);
    } else {
        assert(messages.take(i) =~= messages);
    }
}

/// Lays out a request's input from each message's parts, as their kinds and whether each
/// fits its message's role.
pub fn input_items(messages: &Vec<Vec<(ContentKind, bool)>>) -> (r: Result<Vec<(usize, usize)>, String>)
    ensures
        match r {
            Ok(v) => input_items_spec(messages@.map_values(|m: Vec<(ContentKind, bool)>| m@)) == Ok::<
                Seq<(int, int)>,
                Seq<char>,
            >(v@.map_values(|p: (usize, usize)| (p.0 as int, p.1 as int))),
            Err(e) => input_items_spec(messages@.map_values(|m: Vec<(ContentKind, bool)>| m@)) == Err::<
                Seq<(int, int)>,
                Seq<char>,
            >(e@),
        },
{
    let ghost ms = messages@.map_values(|m: Vec<(ContentKind, bool)>| m@);
    let mut out: Vec<(usize, usize)> = Vec::new();
    let mut i: usize = 0;
    assert(ms.take(0) =~= Seq::<Seq<(ContentKind, bool)>>::empty());
    assert(out@.map_values(|p: (usize, usize)| (p.0 as int, p.1 as int)) =~= Seq::<(int, int)>::empty());
    while i < messages.len()
        invariant
            i <= messages.len(),
            ms == messages@.map_values(|m: Vec<(ContentKind, bool)>| m@),
            input_items_spec(ms.take(i as int)) == Ok::<Seq<(int, int)>, Seq<char>>(
                out@.map_values(|p: (usize, usize)| (p.0 as int, p.1 as int)),
            ),
        decreases messages.len() - i,
    {
        let parts = &messages[i];
        let ghost kinds = kinds_of(parts@);
        proof {
            assert(ms.take(i + 1).drop_last() =~= ms.take(i as int));
            assert(ms.take(i + 1).last() == parts@);
        }
        let ghost before = out@.map_values(|p: (usize, usize)| (p.0 as int, p.1 as int));
        let mut has_part = false;
        let mut j: usize = 0;
        assert(tool_items(i as int, kinds, 0) =~= Seq::<(int, int)>::empty());
        while j < parts.len()
            invariant
                j <= parts.len(),
                kinds == kinds_of(parts@),
                ms == messages@.map_values(|m: Vec<(ContentKind, bool)>| m@),
                i < messages.len(),
                parts@ == ms[i as int],
                ms.take(i + 1).drop_last() == ms.take(i as int),
                ms.take(i + 1).last() == parts@,
                input_items_spec(ms.take(i as int)) == Ok::<Seq<(int, int)>, Seq<char>>(before),
                forall|k: int| 0 <= k < j ==> (#[trigger] parts@[k]).1,
                has_part <==> exists|k: int| 0 <= k < j && is_message_part(#[trigger] kinds[k]),
                out@.map_values(|p: (usize, usize)| (p.0 as int, p.1 as int)) == before + tool_items(
                    i as int,
                    kinds,
                    j as int,
                ),
            decreases parts.len() - j,
        {
            let (k, fits) = parts[j];
            if !fits {
                proof {
                    assert(!ms.take(i + 1).last()[j as int].1);
                    lemma_input_error_sticks(ms, i + 1);
                    assert(ms.take(messages.len() as int) =~= ms);
                }
                return Err("message content does not fit role".to_owned());
            }
            assert(kinds[j as int] == k);
            if k == ContentKind::ToolCall || k == ContentKind::ToolCallOutput {
                let ghost pre = out@.map_values(|p: (usize, usize)| (p.0 as int, p.1 as int));
                out.push((i, j));
                assert(out@.map_values(|p: (usize, usize)| (p.0 as int, p.1 as int)) =~= pre.push(
                    (i as int, j as int),
                ));
            } else {
                has_part = true;
                assert(is_message_part(kinds[j as int]));
            }
            j += 1;
        }
        if !has_part {
            assert(forall|k: int| 0 <= k < kinds.len() ==> !is_message_part(#[trigger] kinds[k]));
            proof {
                lemma_input_error_sticks(ms, i + 1);
                assert(ms.take(messages.len() as int) =~= ms);
            }
            return Err("message must have at least one content item".to_owned());
        }
        i += 1;
    }
    proof {
        assert(ms.take(messages.len() as int) =~= ms);
    }
    Ok(out)
}

/// A part of a message item of the answer: output text, a refusal (each with its text when it
/// is a string), or something else.
pub enum AnswerPart {
    OutputText(Option<String>),
    Refusal(Option<String>),
    Other,
}

/// An item of the answer's output array: a message with its content array (when it is one),
/// a function call with its `call_id`, `name` and `arguments` (each when it is a string), or
/// something else.
pub enum AnswerItem {
    Message(Option<Vec<AnswerPart>>),
    FunctionCall { call_id: Option<String>, name: Option<String>, arguments: Option<String> },
    Other,
}

/// The text a part contributes, if any.
pub open spec fn part_view(p: AnswerPart) -> Option<Seq<char>> {
    match p {
        AnswerPart::OutputText(Some(t)) => Some(t@),
        AnswerPart::Refusal(Some(t)) => Some(t@),
        _ => None,
    }
}

/// The abstract value of an output item.
pub enum ItemView {
    Message(Option<Seq<Option<Seq<char>>>>),
    FunctionCall(Option<Seq<char>>, Option<Seq<char>>, Option<Seq<char>>),
    Other,
}

pub open spec fn item_view(i: AnswerItem) -> ItemView {
    match i {
        AnswerItem::Message(Some(ps)) => ItemView::Message(Some(ps@.map_values(|p: AnswerPart| part_view(p)))),
        AnswerItem::Message(None) => ItemView::Message(None),
        AnswerItem::FunctionCall { call_id, name, arguments } => ItemView::FunctionCall(
            crate::text::opt_view(call_id),
            crate::text::opt_view(name),
            crate::text::opt_view(arguments),
        ),
        AnswerItem::Other => ItemView::Other,
    }
}

/// A part of an assistant message as [`answer_full_view`] reads it.
pub type AnswerFull = (bool, Seq<char>, Seq<char>, Option<serde_json::Value>);

/// The texts of a message item's parts, in order, as output text.
pub open spec fn part_texts(parts: Seq<Option<Seq<char>>>) -> Seq<AnswerFull>
    decreases parts.len(),
{
    if parts.len() == 0 {
        Seq::empty()
    } else {
        match parts.last() {
            Some(t) => part_texts(parts.drop_last()).push((true, t, Seq::<char>::empty(), None)),
            None => part_texts(parts.drop_last()),
        }
    }
}

/// The parts read from the output items, in order: texts and refusals of messages, and
/// function calls, which need a call id and a name and whose arguments (`{}` when absent)
/// must parse as JSON, and which carry the value parsed from them.
pub open spec fn items_spec(items: Seq<ItemView>) -> Result<Seq<AnswerFull>, Seq<char>>
    decreases items.len(),
{
    if items.len() == 0 {
        Ok(Seq::empty())
    } else {
        match items_spec(items.drop_last()) {
            Err(e) => Err(e),
            Ok(before) => match items.last() {
                ItemView::Message(Some(ps)) => Ok(before + part_texts(ps)),
                ItemView::Message(None) => Ok(before),
                ItemView::Other => Ok(before),
                ItemView::FunctionCall(c, n, a) => match c {
                    None => Err("OpenAI function_call missing call_id"@),
                    Some(call_id) => match n {
                        None => Err("OpenAI function_call missing name"@),
                        Some(name) => {
                            let text = match a {
                                Some(t) => t,
                                None => "{}"@,
                            };
                            match json_parse(text) {
                                Err(e) => Err("invalid OpenAI function_call arguments: "@ + e),
                                Ok(()) => Ok(before.push((false, call_id, name, Some(json_value(text))))),
                            }
                        },
                    },
                },
            },
        }
    }
}

/// The assistant message of an answer whose output array held `items` (`None` when it had
/// none); an answer with nothing readable is refused.
pub open spec fn parse_output_spec(items: Option<Seq<ItemView>>) -> Result<Seq<AnswerFull>, Seq<char>> {
    match items {
        None => Err("OpenAI response missing output array"@),
        Some(s) => match items_spec(s) {
            Err(e) => Err(e),
            Ok(c) => if c.len() == 0 {
                Err("LLM response has no valid message content"@)
            } else {
                Ok(c)
            },
        },
    }
}

proof fn lemma_items_error_sticks(items: Seq<ItemView>, i: int)
    requires
        0 < i <= items.len(),
        items_spec(items.take(i)) is Err,
    ensures
        items_spec(items) == items_spec(items.take(i)),
    decreases items.len() - i,
{
    if i < items.len() {
        assert(items.drop_last().take(i) =~= items.take(i));
        lemma_items_error_sticks(items.drop_last(), i);
    } else {
        assert(items.take(i) =~= items);
    }
}

/// The parts of an assistant message, each with its tool call arguments.
/// Reading output items is reading them piece by piece: what the items `a` followed by `b`
/// give is what `a` gives followed by what `b` gives, so nothing read from an earlier item is
/// ever dropped; and the first failure, in item order, is the failure of the whole.
pub proof fn law_output_reading_concatenates(a: Seq<ItemView>, b: Seq<ItemView>)
    ensures
        match (items_spec(a), items_spec(b)) {
            (Ok(x), Ok(y)) => items_spec(a + b) == Ok::<Seq<AnswerFull>, Seq<char>>(x + y),
            (Err(e), _) => items_spec(a + b) == Err::<Seq<AnswerFull>, Seq<char>>(e),
            (Ok(_), Err(e)) => items_spec(a + b) == Err::<Seq<AnswerFull>, Seq<char>>(e),
        },
    decreases b.len(),
{
    if b.len() == 0 {
        assert(a + b =~= a);
        if let Ok(x) = items_spec(a) {
            assert(x + Seq::<AnswerFull>::empty() =~= x);
        }
    } else {
        law_output_reading_concatenates(a, b.drop_last());
        assert((a + b).drop_last() =~= a + b.drop_last());
        assert((a + b).last() == b.last());
        match (items_spec(a), items_spec(b.drop_last())) {
            (Ok(x), Ok(y)) => {
                match b.last() {
                    ItemView::Message(Some(ps)) => {
                        assert(x + y + part_texts(ps) =~= x + (y + part_texts(ps)));
                    },
                    ItemView::FunctionCall(c, n, t) => {
                        if let Ok(z) = items_spec(b) {
                            assert(x + z =~= (x + y).push(z.last()));
                        }
                    },
                    _ => {},
                }
            },
            _ => {},
        }
    }
}

pub open spec fn answer_views(v: Seq<AnswerContent>) -> Seq<AnswerFull> {
    v.map_values(|c: AnswerContent| answer_full_view(c))
}

/// Appends the texts of a message item's parts.
fn push_part_texts(parts: Vec<AnswerPart>, contents: &mut Vec<AnswerContent>)
    ensures
        answer_views(final(contents)@) == answer_views(old(contents)@) + part_texts(
            parts@.map_values(|p: AnswerPart| part_view(p)),
        ),
{
    let ghost all = parts@.map_values(|p: AnswerPart| part_view(p));
    let ghost start = answer_views(contents@);
    let mut rest = parts;
    let mut k: usize = 0;
    let n0 = rest.len();
    assert(all.len() == n0);
    assert(all.skip(0) =~= all);
    assert(start + part_texts(all.take(0)) =~= start);
    while rest.len() > 0
        invariant
            rest@.map_values(|p: AnswerPart| part_view(p)) == all.skip(k as int),
            k <= all.len(),
            all.len() <= usize::MAX,
            answer_views(contents@) == start + part_texts(all.take(k as int)),
        decreases rest.len(),
    {
        let ghost rv = rest@;
        let ghost before = answer_views(contents@);
        let part = rest.remove(0);
        proof {
            assert(rv.map_values(|p: AnswerPart| part_view(p)).len() == rv.len());
            assert(k < all.len());
            assert(rv[0] == part);
            assert(all.skip(k as int)[0] == rv.map_values(|p: AnswerPart| part_view(p))[0]);
            assert(rest@ =~= rv.subrange(1, rv.len() as int));
            assert forall|i: int| 0 <= i < rest@.len() implies rest@.map_values(|p: AnswerPart| part_view(p))[i]
                == #[trigger] all.skip(k + 1)[i] by {
                assert(rest@[i] == rv[i + 1]);
                assert(rv.map_values(|p: AnswerPart| part_view(p))[i + 1] == all.skip(k as int)[i + 1]);
            }
            assert(rest@.map_values(|p: AnswerPart| part_view(p)) =~= all.skip(k + 1));
            assert(all.take(k + 1).drop_last() =~= all.take(k as int));
            assert(all.take(k + 1).last() == part_view(part));
        }
        match part {
            AnswerPart::OutputText(Some(t)) => {
                let c = AnswerContent::OutputText(t);
                let ghost v = answer_full_view(c);
                contents.push(c);
                assert(answer_views(contents@) =~= before.push(v));
            },
            AnswerPart::Refusal(Some(t)) => {
                let c = AnswerContent::OutputText(t);
                let ghost v = answer_full_view(c);
                contents.push(c);
                assert(answer_views(contents@) =~= before.push(v));
            },
            _ => {},
        }
        k += 1;
    }
    proof {
        assert(all.take(k as int) =~= all);
    }
}

/// Reads the assistant message of an answer whose output array held `items` (`None` when the
/// answer had no output array).
pub fn parse_output(items: Option<Vec<AnswerItem>>) -> (r: Result<Vec<AnswerContent>, String>)
    ensures
        match r {
            Ok(v) => parse_output_spec(
                match items {
                    Some(s) => Some(s@.map_values(|i: AnswerItem| item_view(i))),
                    None => None,
                },
            ) == Ok::<Seq<AnswerFull>, Seq<char>>(answer_views(v@)),
            Err(e) => parse_output_spec(
                match items {
                    Some(s) => Some(s@.map_values(|i: AnswerItem| item_view(i))),
                    None => None,
                },
            ) == Err::<Seq<AnswerFull>, Seq<char>>(e@),
        },
{
    let list = match items {
        Some(v) => v,
        None => return Err("OpenAI response missing output array".to_owned()),
    };
    let ghost all = list@.map_values(|i: AnswerItem| item_view(i));
    let mut rest = list;
    let mut contents: Vec<AnswerContent> = Vec::new();
    let mut k: usize = 0;
    let n0 = rest.len();
    assert(all.len() == n0);
    assert(all.skip(0) =~= all);
    assert(answer_views(contents@) =~= Seq::<AnswerFull>::empty());
    while rest.len() > 0
        invariant
            rest@.map_values(|i: AnswerItem| item_view(i)) == all.skip(k as int),
            k <= all.len(),
            all.len() <= usize::MAX,
            items matches Some(s) && s@.map_values(|i: AnswerItem| item_view(i)) == all,
            items_spec(all.take(k as int)) == Ok::<Seq<AnswerFull>, Seq<char>>(
                answer_views(contents@),
            ),
        decreases rest.len(),
    {
        let ghost rv = rest@;
        let ghost before = answer_views(contents@);
        let item = rest.remove(0);
        proof {
            assert(rv.map_values(|i: AnswerItem| item_view(i)).len() == rv.len());
            assert(k < all.len());
            assert(rv[0] == item);
            assert(all.skip(k as int)[0] == rv.map_values(|i: AnswerItem| item_view(i))[0]);
            assert(rest@ =~= rv.subrange(1, rv.len() as int));
            assert forall|i: int| 0 <= i < rest@.len() implies rest@.map_values(|i: AnswerItem| item_view(i))[i]
                == #[trigger] all.skip(k + 1)[i] by {
                assert(rest@[i] == rv[i + 1]);
                assert(rv.map_values(|i: AnswerItem| item_view(i))[i + 1] == all.skip(k as int)[i + 1]);
            }
            assert(rest@.map_values(|i: AnswerItem| item_view(i)) =~= all.skip(k + 1));
            assert(all.take(k + 1).drop_last() =~= all.take(k as int));
            assert(all.take(k + 1).last() == item_view(item));
        }
        match item {
            AnswerItem::Message(parts) => {
                match parts {
                    Some(ps) => push_part_texts(ps, &mut contents),
                    None => {},
                }
            },
            AnswerItem::FunctionCall { call_id, name, arguments } => {
                let call_id = match call_id {
                    Some(c) => c,
                    None => {
                        proof {
                            lemma_items_error_sticks(all, k + 1);
                        }
                        return Err("OpenAI function_call missing call_id".to_owned());
                    },
                };
                let name = match name {
                    Some(n) => n,
                    None => {
                        proof {
                            lemma_items_error_sticks(all, k + 1);
                        }
                        return Err("OpenAI function_call missing name".to_owned());
                    },
                };
                let text = match arguments {
                    Some(a) => a,
                    None => "{}".to_owned(),
                };
                let arguments = match parse_json(text.as_str()) {
                    Ok(v) => v,
                    Err(e) => {
                        proof {
                            lemma_items_error_sticks(all, k + 1);
                        }
                        return Err(concat("invalid OpenAI function_call arguments: ", e.as_str()));
                    },
                };
                let c = AnswerContent::ToolCall { call_id, tool_name: name, arguments };
                let ghost v = answer_full_view(c);
                contents.push(c);
                assert(answer_views(contents@) =~= before.push(v));
            },
            AnswerItem::Other => {},
        }
        k += 1;
    }
    proof {
        assert(all.take(k as int) =~= all);
    }
    if contents.len() == 0 {
        return Err("LLM response has no valid message content".to_owned());
    }
    Ok(contents)
}

/// Token use as the answer reports it; a missing count reads as zero and cache writes are
/// not reported.
pub struct MessageUsage {
    pub input_tokens: i64,
    pub output_tokens: i64,
    pub cache_read_tokens: i64,
    pub cache_write_tokens: i64,
}

/// The token use of an answer from its `usage.input_tokens`, `usage.output_tokens` and
/// `usage.input_tokens_details.cached_tokens`, where they are integers.
pub fn parse_usage(input_tokens: Option<i64>, output_tokens: Option<i64>, cached_tokens: Option<i64>) -> (u:
    MessageUsage)
    ensures
        u.input_tokens == match input_tokens {
            Some(v) => v,
            None => 0,
        },
        u.output_tokens == match output_tokens {
            Some(v) => v,
            None => 0,
        },
        u.cache_read_tokens == match cached_tokens {
            Some(v) => v,
            None => 0,
        },
        u.cache_write_tokens == 0,
{
    MessageUsage {
        input_tokens: match input_tokens {
            Some(v) => v,
            None => 0,
        },
        output_tokens: match output_tokens {
            Some(v) => v,
            None => 0,
        },
        cache_read_tokens: match cached_tokens {
            Some(v) => v,
            None => 0,
        },
        cache_write_tokens: 0,
    }
}

} // verus!
