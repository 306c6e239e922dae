use vstd::prelude::*;

use crate::llm::bedrock::{LlmRole, OutputBlock};

verus! {

/// A message of a plain text exchange with a model: who it is from and its text.
pub struct ClientMessage {
    pub role: LlmRole,
    pub content: String,
}

/// The texts of the system messages, in order.
pub open spec fn system_texts(messages: Seq<ClientMessage>) -> Seq<Seq<char>>
    decreases messages.len(),
{
    if messages.len() == 0 {
        Seq::empty()
    } else if messages.last().role == LlmRole::System {
        system_texts(messages.drop_last()).push(messages.last().content@)
    } else {
        system_texts(messages.drop_last())
    }
}

/// The conversation sent: every other message in order, from the assistant when it is the
/// assistant's and from the user otherwise, with its text.
pub open spec fn conversation(messages: Seq<ClientMessage>) -> Seq<(LlmRole, Seq<char>)>
    decreases messages.len(),
{
    if messages.len() == 0 {
        Seq::empty()
    } else if messages.last().role == LlmRole::System {
        conversation(messages.drop_last())
    } else {
        conversation(messages.drop_last()).push(
            (
                if messages.last().role == LlmRole::Assistant {
                    LlmRole::Assistant
                } else {
                    LlmRole::User
                },
                messages.last().content@,
            ),
        )
    }
}

/// Lays out a plain text exchange: the system texts, and the conversation as `(role, text)`.
pub fn client_layout(messages: &Vec<ClientMessage>) -> (r: (Vec<String>, Vec<(LlmRole, String)>))
    ensures
        r.0@.map_values(|s: String| s@) == system_texts(messages@),
        r.1@.map_values(|m: (LlmRole, String)| (m.0, m.1@)) == conversation(messages@),
{
    let mut system: Vec<String> = Vec::new();
    let mut turns: Vec<(LlmRole, String)> = Vec::new();
    let mut i: usize = 0;
    assert(messages@.take(0) =~= Seq::<ClientMessage>::empty());
    assert(system@.map_values(|s: String| s@) =~= Seq::<Seq<char>>::empty());
    assert(turns@.map_values(|m: (LlmRole, String)| (m.0, m.1@)) =~= Seq::<(LlmRole, Seq<char>)>::empty());
    while i < messages.len()
        invariant
            i <= messages.len(),
            system@.map_values(|s: String| s@) == system_texts(messages@.take(i as int)),
            turns@.map_values(|m: (LlmRole, String)| (m.0, m.1@)) == conversation(messages@.take(i as int)),
        decreases messages.len() - i,
    {
        let ghost sv = system@.map_values(|s: String| s@);
        let ghost tv = turns@.map_values(|m: (LlmRole, String)| (m.0, m.1@));
        assert(messages@.take(i + 1).drop_last() =~= messages@.take(i as int));
        assert(messages@.take(i + 1).last() == messages@[i as int]);
        let m = &messages[i];
        if m.role == LlmRole::System {
            system.push(m.content.clone());
            assert(system@.map_values(|s: String| s@) =~= sv.push(m.content@));
        } else {
            let role = if m.role == LlmRole::Assistant {
                LlmRole::Assistant
            } else {
                LlmRole::User
            };
            turns.push((role, m.content.clone()));
            assert(turns@.map_values(|m: (LlmRole, String)| (m.0, m.1@)) =~= tv.push((role, m.content@)));
        }
        i += 1;
    }
    assert(messages@.take(messages.len() as int) =~= messages@);
    (system, turns)
}

/// What a model answered: nothing, an output that is not a message, or a message's blocks.
pub enum ClientOutput {
    Missing,
    NotMessage,
    Message(Vec<OutputBlock>),
}

/// The text of an answer: its first block, which must be text; the message of the failure
/// otherwise.
pub open spec fn answer_text_spec(output: ClientOutput) -> Result<Seq<char>, Seq<char>> {
    match output {
        ClientOutput::Missing => Err("No output in Bedrock response"@),
        ClientOutput::NotMessage => Err("Unsupported output type in Bedrock response"@),
        ClientOutput::Message(blocks) => if blocks@.len() == 0 {
            Err("No content blocks in Bedrock response"@)
        } else {
            match blocks@[0] {
                OutputBlock::Text(t) => Ok(t@),
                _ => Err("Unsupported content block type in Bedrock response"@),
            }
        },
    }
}

/// Reads the text of a model's answer.
pub fn answer_text(output: ClientOutput) -> (r: Result<String, String>)
    ensures
        match r {
            Ok(t) => answer_text_spec(output) == Ok::<Seq<char>, Seq<char>>(t@),
            Err(e) => answer_text_spec(output) == Err::<Seq<char>, Seq<char>>(e@),
        },
{
    match output {
        ClientOutput::Missing => Err("No output in Bedrock response".to_owned()),
        ClientOutput::NotMessage => Err("Unsupported output type in Bedrock response".to_owned()),
        ClientOutput::Message(mut blocks) => {
            if blocks.len() == 0 {
                return Err("No content blocks in Bedrock response".to_owned());
            }
            let ghost first = blocks@[0];
            let b = blocks.swap_remove(0);
            assert(b == first);
            match b {
                OutputBlock::Text(t) => Ok(t),
                _ => Err("Unsupported content block type in Bedrock response".to_owned()),
            }
        },
    }
}

} // verus!
