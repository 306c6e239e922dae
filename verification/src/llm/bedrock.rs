use vstd::prelude::*;

use crate::text::{concat, str_eq};

verus! {

/// Who an LLM message is from.
#[derive(Clone, Copy, PartialEq, Eq, Structural)]
pub enum LlmRole {
    System,
    User,
    Assistant,
}

/// Whether a tool call succeeded.
#[derive(Clone, Copy, PartialEq, Eq, Structural)]
pub enum ToolCallOutputStatus {
    Success,
    Error,
}

/// What one part of an LLM message is.
#[derive(Clone, Copy, PartialEq, Eq, Structural)]
pub enum ContentKind {
    InputText,
    OutputText,
    InputImage,
    InputFile,
    ToolCall,
    ToolCallOutput,
}

/// Why a content part may not stand in a message of `role` for the Converse API, if it may not.
pub open spec fn placement_error(role: LlmRole, kind: ContentKind) -> Option<Seq<char>> {
    match kind {
        ContentKind::InputText | ContentKind::OutputText => None,
        ContentKind::InputImage => if role != LlmRole::User {
            Some("images must be in user messages for Bedrock Converse"@)
        } else {
            None
        },
        ContentKind::InputFile => if role != LlmRole::User {
            Some("documents must be in user messages for Bedrock Converse"@)
        } else {
            None
        },
        ContentKind::ToolCall => if role != LlmRole::Assistant {
            Some("tool calls must be in assistant messages"@)
        } else {
            None
        },
        ContentKind::ToolCallOutput => if role != LlmRole::User {
            Some("tool call outputs must be in user messages"@)
        } else {
            None
        },
    }
}

/// Checks that a content part may stand in a message of `role`.
pub fn check_placement(role: LlmRole, kind: ContentKind) -> (r: Result<(), String>)
    ensures
        match placement_error(role, kind) {
            Some(m) => r matches Err(e) && e@ == m,
            None => r is Ok,
        },
{
    match kind {
        ContentKind::InputText | ContentKind::OutputText => Ok(()),
        ContentKind::InputImage => if role != LlmRole::User {
            Err("images must be in user messages for Bedrock Converse".to_owned())
        } else {
            Ok(())
        },
        ContentKind::InputFile => if role != LlmRole::User {
            Err("documents must be in user messages for Bedrock Converse".to_owned())
        } else {
            Ok(())
        },
        ContentKind::ToolCall => if role != LlmRole::Assistant {
            Err("tool calls must be in assistant messages".to_owned())
        } else {
            Ok(())
        },
        ContentKind::ToolCallOutput => if role != LlmRole::User {
            Err("tool call outputs must be in user messages".to_owned())
        } else {
            Ok(())
        },
    }
}

/// Refuses a request that both offers tools and asks for structured output.
pub fn check_request(has_tools: bool, has_structured_output: bool) -> (r: Result<(), String>)
    ensures
        r is Ok <==> !(has_tools && has_structured_output),
        r matches Err(e) ==> e@ == "combining tools and structured output is not supported yet"@,
{
    if has_tools && has_structured_output {
        Err("combining tools and structured output is not supported yet".to_owned())
    } else {
        Ok(())
    }
}

/// The system prompt blocks: every part of every system message, which must be input text.
pub open spec fn system_blocks_spec(messages: Seq<(LlmRole, Seq<ContentKind>)>) -> Result<Seq<(int, int)>, Seq<char>>
    decreases messages.len(),
{
    if messages.len() == 0 {
        Ok(Seq::empty())
    } else {
        match system_blocks_spec(messages.drop_last()) {
            Err(e) => Err(e),
            Ok(before) => {
                let (role, kinds) = messages.last();
                if role != LlmRole::System {
                    Ok(before)
                } else if exists|j: int| 0 <= j < kinds.len() && kinds[j] != ContentKind::InputText {
                    Err("system messages can only contain input_text"@)
                } else {
                    Ok(before + Seq::new(kinds.len(), |j: int| (messages.len() - 1, j)))
                }
            },
        }
    }
}

proof fn lemma_system_error_sticks(messages: Seq<(LlmRole, Seq<ContentKind>)>, i: int)
    requires
        0 < i <= messages.len(),
        system_blocks_spec(messages.take(i)) is Err,
    ensures
        system_blocks_spec(messages) == system_blocks_spec(messages.take(i)),
    decreases messages.len() - i,
{
    if i < messages.len() {
        assert(messages.drop_last().take(i) =~= messages.take(i));
        lemma_system_error_sticks(messages.drop_last(), i);
    } else {
        assert(messages.take(i) =~= messages);
    }
}

/// The system prompt blocks of a conversation, given each message's role and the kinds of its
/// parts, as `(message, part)` positions.
pub fn system_blocks(messages: &Vec<(LlmRole, Vec<ContentKind>)>) -> (r: Result<Vec<(usize, usize)>, String>)
    ensures
        match r {
            Ok(v) => system_blocks_spec(messages@.map_values(|m: (LlmRole, Vec<ContentKind>)| (m.0, m.1@)))
                == Ok::<Seq<(int, int)>, Seq<char>>(v@.map_values(|p: (usize, usize)| (p.0 as int, p.1 as int))),
            Err(e) => system_blocks_spec(messages@.map_values(|m: (LlmRole, Vec<ContentKind>)| (m.0, m.1@)))
                == Err::<Seq<(int, int)>, Seq<char>>(e@),
        },
{
    let ghost ms = messages@.map_values(|m: (LlmRole, Vec<ContentKind>)| (m.0, m.1@));
    let mut out: Vec<(usize, usize)> = Vec::new();
    let mut i: usize = 0;
    assert(ms.take(0) =~= Seq::<(LlmRole, Seq<ContentKind>)>::empty());
    assert(out@.map_values(|p: (usize, usize)| (p.0 as int, p.1 as int)) =~= Seq::<(int, int)>::empty());
    while i < messages.len()
        invariant
            i <= messages.len(),
            ms == messages@.map_values(|m: (LlmRole, Vec<ContentKind>)| (m.0, m.1@)),
            system_blocks_spec(ms.take(i as int)) == Ok::<Seq<(int, int)>, Seq<char>>(
                out@.map_values(|p: (usize, usize)| (p.0 as int, p.1 as int)),
            ),
        decreases messages.len() - i,
    {
        let role = messages[i].0;
        let kinds = &messages[i].1;
        proof {
            assert(ms.take(i + 1).drop_last() =~= ms.take(i as int));
            assert(ms.take(i + 1).last() == (role, kinds@));
            assert(ms.take(i + 1).len() - 1 == i);
        }
        if role == LlmRole::System {
            let ghost before = out@.map_values(|p: (usize, usize)| (p.0 as int, p.1 as int));
            let mut j: usize = 0;
            assert(before + Seq::new(0, |k: int| (i as int, k)) =~= before);
            while j < kinds.len()
                invariant
                    j <= kinds.len(),
                    role == LlmRole::System,
                    i < messages.len(),
                    ms.take(i + 1).last() == (role, kinds@),
                    ms.take(i + 1).drop_last() == ms.take(i as int),
                    ms.take(i + 1).len() == i + 1,
                    ms == messages@.map_values(|m: (LlmRole, Vec<ContentKind>)| (m.0, m.1@)),
                    system_blocks_spec(ms.take(i as int)) == Ok::<Seq<(int, int)>, Seq<char>>(before),
                    forall|k: int| 0 <= k < j ==> #[trigger] kinds@[k] == ContentKind::InputText,
                    out@.map_values(|p: (usize, usize)| (p.0 as int, p.1 as int)) == before + Seq::new(
                        j as nat,
                        |k: int| (i as int, k),
                    ),
                decreases kinds.len() - j,
            {
                if kinds[j] != ContentKind::InputText {
                    proof {
                        assert(kinds@[j as int] != ContentKind::InputText);
                        assert(ms.take(i + 1).last().1[j as int] != ContentKind::InputText);
                        assert(system_blocks_spec(ms.take(i + 1)) == Err::<Seq<(int, int)>, Seq<char>>(
                            "system messages can only contain input_text"@,
                        ));
                        lemma_system_error_sticks(ms, i + 1);
                        assert(ms.take(messages.len() as int) =~= ms);
                    }
                    return Err("system messages can only contain input_text".to_owned());
                }
                let ghost pre = out@.map_values(|p: (usize, usize)| (p.0 as int, p.1 as int));
                out.push((i, j));
                assert(out@.map_values(|p: (usize, usize)| (p.0 as int, p.1 as int)) =~= pre.push(
                    (i as int, j as int),
                ));
                assert(out@.map_values(|p: (usize, usize)| (p.0 as int, p.1 as int)) =~= before + Seq::new(
                    (j + 1) as nat,
                    |k: int| (i as int, k),
                ));
                j += 1;
            }
            proof {
                assert(!(exists|k: int| 0 <= k < kinds@.len() && kinds@[k] != ContentKind::InputText));
            }
        }
        i += 1;
    }
    proof {
        assert(ms.take(messages.len() as int) =~= ms);
    }
    Ok(out)
}

/// A run of consecutive non-system messages of one role, merged into one message: the role
/// and the positions `(message, part)` of its parts, in order.
pub struct MessageGroup {
    pub role: LlmRole,
    pub parts: Vec<(usize, usize)>,
}

pub open spec fn group_view(g: MessageGroup) -> (LlmRole, Seq<(usize, usize)>) {
    (g.role, g.parts@)
}

/// Grouping the messages for the Converse API: system messages are left out, consecutive
/// messages of one role are merged, and a merged message without parts is dropped. The state
/// is the groups closed so far and the open one.
pub open spec fn grouping(messages: Seq<(LlmRole, nat)>) -> (Seq<(LlmRole, Seq<(usize, usize)>)>, Option<(LlmRole, Seq<(usize, usize)>)>)
    decreases messages.len(),
{
    if messages.len() == 0 {
        (Seq::empty(), None)
    } else {
        let (closed, open) = grouping(messages.drop_last());
        let i = messages.len() - 1;
        let (role, count) = messages.last();
        let parts = Seq::new(count, |j: int| (i as usize, j as usize));
        if role == LlmRole::System {
            (closed, open)
        } else {
            match open {
                Some((r, ps)) => if r == role {
                    (closed, Some((r, ps + parts)))
                } else {
                    (close_group(closed, open), Some((role, parts)))
                },
                None => (closed, Some((role, parts))),
            }
        }
    }
}

/// The closed groups with `open` added when it has parts.
pub open spec fn close_group(
    closed: Seq<(LlmRole, Seq<(usize, usize)>)>,
    open: Option<(LlmRole, Seq<(usize, usize)>)>,
) -> Seq<(LlmRole, Seq<(usize, usize)>)> {
    match open {
        Some((r, ps)) => if ps.len() > 0 {
            closed.push((r, ps))
        } else {
            closed
        },
        None => closed,
    }
}

/// The merged messages of a conversation whose messages have the given roles and part counts.
pub open spec fn groups_spec(messages: Seq<(LlmRole, nat)>) -> Seq<(LlmRole, Seq<(usize, usize)>)> {
    close_group(grouping(messages).0, grouping(messages).1)
}

/// A part's position after a message is inserted at position `at`: messages from `at` on
/// move one place later.
pub open spec fn shift_part(q: (usize, usize), at: int) -> (usize, usize) {
    if q.0 >= at {
        ((q.0 + 1) as usize, q.1)
    } else {
        q
    }
}

pub open spec fn shift_parts(ps: Seq<(usize, usize)>, at: int) -> Seq<(usize, usize)> {
    ps.map_values(|q: (usize, usize)| shift_part(q, at))
}

/// Groups with their parts' positions moved as by an insertion at `at`.
pub open spec fn shift_groups(gs: Seq<(LlmRole, Seq<(usize, usize)>)>, at: int) -> Seq<(LlmRole, Seq<(usize, usize)>)> {
    gs.map_values(|g: (LlmRole, Seq<(usize, usize)>)| (g.0, shift_parts(g.1, at)))
}

spec fn shift_open(o: Option<(LlmRole, Seq<(usize, usize)>)>, at: int) -> Option<(LlmRole, Seq<(usize, usize)>)> {
    match o {
        Some((r, ps)) => Some((r, shift_parts(ps, at))),
        None => None,
    }
}

/// Every part of the grouping state comes from a message before position `n`.
spec fn state_below(st: (Seq<(LlmRole, Seq<(usize, usize)>)>, Option<(LlmRole, Seq<(usize, usize)>)>), n: int) -> bool {
    &&& forall|g: int, k: int| 0 <= g < st.0.len() && 0 <= k < st.0[g].1.len() ==> (#[trigger] st.0[g].1[k]).0 < n
    &&& st.1 matches Some((r, ps)) ==> forall|k: int| 0 <= k < ps.len() ==> (#[trigger] ps[k]).0 < n
    &&& forall|g: int| 0 <= g < st.0.len() ==> (#[trigger] st.0[g]).0 != LlmRole::System
    &&& st.1 matches Some((r, ps)) ==> r != LlmRole::System
}

proof fn lemma_grouping_below(ms: Seq<(LlmRole, nat)>)
    requires
        ms.len() <= usize::MAX,
    ensures
        state_below(grouping(ms), ms.len() as int),
    decreases ms.len(),
{
    if ms.len() > 0 {
        lemma_grouping_below(ms.drop_last());
        let (closed, open) = grouping(ms.drop_last());
        let i = ms.len() - 1;
        let (role, count) = ms.last();
        let parts = Seq::new(count, |j: int| (i as usize, j as usize));
        assert forall|k: int| 0 <= k < parts.len() implies (#[trigger] parts[k]).0 < ms.len() by {}
        if role != LlmRole::System {
            match open {
                Some((r, ps)) => if r == role {
                    let m = ps + parts;
                    assert forall|k: int| 0 <= k < m.len() implies (#[trigger] m[k]).0 < ms.len() by {
                        if k < ps.len() {
                            assert(m[k] == ps[k]);
                        } else {
                            assert(m[k] == parts[k - ps.len()]);
                        }
                    }
                } else {
                    let c = close_group(closed, open);
                    assert forall|g: int, k: int| 0 <= g < c.len() && 0 <= k < c[g].1.len() implies (#[trigger] c[g].1[k]).0
                        < ms.len() by {
                        if g < closed.len() {
                            assert(c[g] == closed[g]);
                        }
                    }
                    assert forall|g: int| 0 <= g < c.len() implies (#[trigger] c[g]).0 != LlmRole::System by {
                        if g < closed.len() {
                            assert(c[g] == closed[g]);
                        }
                    }
                },
                None => {},
            }
        }
    }
}

proof fn lemma_shift_identity(st: (Seq<(LlmRole, Seq<(usize, usize)>)>, Option<(LlmRole, Seq<(usize, usize)>)>), n: int)
    requires
        state_below(st, n),
    ensures
        shift_groups(st.0, n) == st.0,
        shift_open(st.1, n) == st.1,
{
    assert forall|g: int| 0 <= g < st.0.len() implies #[trigger] shift_groups(st.0, n)[g] == st.0[g] by {
        assert(shift_parts(st.0[g].1, n) =~= st.0[g].1);
    }
    assert(shift_groups(st.0, n) =~= st.0);
    if let Some((r, ps)) = st.1 {
        assert(shift_parts(ps, n) =~= ps);
    }
}

proof fn lemma_close_group_shift(
    closed: Seq<(LlmRole, Seq<(usize, usize)>)>,
    open: Option<(LlmRole, Seq<(usize, usize)>)>,
    at: int,
)
    ensures
        close_group(shift_groups(closed, at), shift_open(open, at)) == shift_groups(close_group(closed, open), at),
{
    if let Some((r, ps)) = open {
        if ps.len() > 0 {
            assert(shift_groups(closed.push((r, ps)), at) =~= shift_groups(closed, at).push((r, shift_parts(ps, at))));
        }
    }
}

proof fn lemma_grouping_insert_system(ms: Seq<(LlmRole, nat)>, p: int, count: nat)
    requires
        0 <= p <= ms.len(),
        ms.len() < usize::MAX,
    ensures
        grouping(ms.insert(p, (LlmRole::System, count))) == (
            shift_groups(grouping(ms).0, p),
            shift_open(grouping(ms).1, p),
        ),
    decreases ms.len(),
{
    let sys = (LlmRole::System, count);
    if p == ms.len() {
        assert(ms.insert(p, sys) =~= ms.push(sys));
        assert(ms.push(sys).drop_last() =~= ms);
        lemma_grouping_below(ms);
        lemma_shift_identity(grouping(ms), p);
    } else {
        let init = ms.drop_last();
        let last = ms.last();
        lemma_grouping_insert_system(init, p, count);
        let ms2 = ms.insert(p, sys);
        assert(ms2.drop_last() =~= init.insert(p, sys));
        assert(ms2.last() == last);
        let (closed, open) = grouping(init);
        let i = ms.len() - 1;
        let (role, cnt) = last;
        let parts = Seq::new(cnt, |j: int| (i as usize, j as usize));
        let parts2 = Seq::new(cnt, |j: int| ((ms2.len() - 1) as usize, j as usize));
        assert(parts2 =~= shift_parts(parts, p));
        if role != LlmRole::System {
            match open {
                Some((r, ps)) => if r == role {
                    assert(shift_parts(ps + parts, p) =~= shift_parts(ps, p) + parts2);
                } else {
                    lemma_close_group_shift(closed, open, p);
                },
                None => {},
            }
        }
    }
}

/// System messages take no part in merging: inserting a system message anywhere in a
/// conversation leaves its merged messages as they were (only the positions of the messages
/// after it move one place), so it never splits a run of one role; and no merged message is a
/// system message.
pub proof fn law_system_messages_do_not_split_groups(ms: Seq<(LlmRole, nat)>, p: int, count: nat)
    requires
        0 <= p <= ms.len(),
        ms.len() < usize::MAX,
    ensures
        groups_spec(ms.insert(p, (LlmRole::System, count))) == shift_groups(groups_spec(ms), p),
        forall|g: int| 0 <= g < groups_spec(ms).len() ==> (#[trigger] groups_spec(ms)[g]).0 != LlmRole::System,
{
    lemma_grouping_insert_system(ms, p, count);
    lemma_close_group_shift(grouping(ms).0, grouping(ms).1, p);
    lemma_grouping_below(ms);
    let (closed, open) = grouping(ms);
    let c = close_group(closed, open);
    assert forall|g: int| 0 <= g < c.len() implies (#[trigger] c[g]).0 != LlmRole::System by {
        if g < closed.len() {
            assert(c[g] == closed[g]);
        }
    }
}

/// Merges the messages of a conversation, given each message's role and number of parts.
pub fn group_messages(messages: &Vec<(LlmRole, usize)>) -> (r: Vec<MessageGroup>)
    ensures
        r@.map_values(|g: MessageGroup| group_view(g)) == groups_spec(
            messages@.map_values(|m: (LlmRole, usize)| (m.0, m.1 as nat)),
        ),
{
    let ghost ms = messages@.map_values(|m: (LlmRole, usize)| (m.0, m.1 as nat));
    let mut closed: Vec<MessageGroup> = Vec::new();
    let mut open: Option<MessageGroup> = None;
    let mut i: usize = 0;
    assert(ms.take(0) =~= Seq::<(LlmRole, nat)>::empty());
    while i < messages.len()
        invariant
            i <= messages.len(),
            ms == messages@.map_values(|m: (LlmRole, usize)| (m.0, m.1 as nat)),
            closed@.map_values(|g: MessageGroup| group_view(g)) == grouping(ms.take(i as int)).0,
            match open {
                Some(g) => grouping(ms.take(i as int)).1 == Some(group_view(g)),
                None => grouping(ms.take(i as int)).1 is None,
            },
        decreases messages.len() - i,
    {
        let (role, count) = messages[i];
        proof {
            assert(ms.take(i + 1).drop_last() =~= ms.take(i as int));
            assert(ms.take(i + 1).last() == (role, count as nat));
        }
        let mut parts: Vec<(usize, usize)> = Vec::new();
        let mut j: usize = 0;
        while j < count
            invariant
                j <= count,
                parts@ == Seq::new(j as nat, |k: int| (i, k as usize)),
            decreases count - j,
        {
            parts.push((i, j));
            assert(parts@ =~= Seq::new((j + 1) as nat, |k: int| (i, k as usize)));
            j += 1;
        }
        let ghost pv = parts@;
        assert(pv =~= Seq::new(count as nat, |k: int| ((ms.take(i + 1).len() - 1) as usize, k as usize)));
        if role != LlmRole::System {
            match open {
                Some(mut g) => {
                    if g.role == role {
                        let ghost before = g.parts@;
                        let mut k: usize = 0;
                        while k < parts.len()
                            invariant
                                k <= parts.len(),
                                g.parts@ == before + parts@.take(k as int),
                                g.role == role,
                            decreases parts.len() - k,
                        {
                            g.parts.push(parts[k]);
                            assert(parts@.take(k + 1) =~= parts@.take(k as int).push(parts@[k as int]));
                            k += 1;
                        }
                        assert(parts@.take(parts.len() as int) =~= parts@);
                        open = Some(g);
                    } else {
                        let ghost cv = closed@.map_values(|g: MessageGroup| group_view(g));
                        if g.parts.len() > 0 {
                            let ghost gv = group_view(g);
                            closed.push(g);
                            assert(closed@.map_values(|g: MessageGroup| group_view(g)) =~= cv.push(gv));
                        }
                        open = Some(MessageGroup { role, parts });
                    }
                },
                None => {
                    open = Some(MessageGroup { role, parts });
                },
            }
        }
        i += 1;
    }
    proof {
        assert(ms.take(messages.len() as int) =~= ms);
    }
    match open {
        Some(g) => {
            if g.parts.len() > 0 {
                let ghost cv = closed@.map_values(|g: MessageGroup| group_view(g));
                let ghost gv = group_view(g);
                closed.push(g);
                assert(closed@.map_values(|g: MessageGroup| group_view(g)) =~= cv.push(gv));
            }
        },
        None => {},
    }
    closed
}

/// Image formats the Converse API takes.
#[derive(Clone, Copy, PartialEq, Eq, Structural)]
pub enum ImageFormat {
    Png,
    Jpeg,
    Gif,
    Webp,
}

/// The image format of a media type.
pub fn image_format(mime_type: &str) -> (r: Result<ImageFormat, String>)
    ensures
        mime_type@ == "image/png"@ ==> r == Ok::<ImageFormat, String>(ImageFormat::Png),
        (mime_type@ == "image/jpeg"@ || mime_type@ == "image/jpg"@) && mime_type@ != "image/png"@ ==> r
            == Ok::<ImageFormat, String>(ImageFormat::Jpeg),
        mime_type@ == "image/gif"@ && mime_type@ != "image/png"@ && mime_type@ != "image/jpeg"@
            && mime_type@ != "image/jpg"@ ==> r == Ok::<ImageFormat, String>(ImageFormat::Gif),
        mime_type@ == "image/webp"@ && mime_type@ != "image/png"@ && mime_type@ != "image/jpeg"@
            && mime_type@ != "image/jpg"@ && mime_type@ != "image/gif"@ ==> r == Ok::<ImageFormat, String>(
            ImageFormat::Webp,
        ),
        r matches Err(e) ==> e@ == "unsupported image format: "@ + mime_type@ && mime_type@ != "image/png"@
            && mime_type@ != "image/jpeg"@ && mime_type@ != "image/jpg"@ && mime_type@ != "image/gif"@
            && mime_type@ != "image/webp"@,
{
    if str_eq(mime_type, "image/png") {
        Ok(ImageFormat::Png)
    } else if str_eq(mime_type, "image/jpeg") || str_eq(mime_type, "image/jpg") {
        Ok(ImageFormat::Jpeg)
    } else if str_eq(mime_type, "image/gif") {
        Ok(ImageFormat::Gif)
    } else if str_eq(mime_type, "image/webp") {
        Ok(ImageFormat::Webp)
    } else {
        Err(concat("unsupported image format: ", mime_type))
    }
}

/// Document formats the Converse API takes.
#[derive(Clone, Copy, PartialEq, Eq, Structural)]
pub enum DocumentFormat {
    Pdf,
    Docx,
    Xlsx,
    Html,
    Md,
    Txt,
    Csv,
}

/// The document format of a media type, if the Converse API takes it.
pub open spec fn document_format_spec(mime: Seq<char>) -> Option<DocumentFormat> {
    if mime == "application/pdf"@ {
        Some(DocumentFormat::Pdf)
    } else if mime == "application/vnd.openxmlformats-officedocument.wordprocessingml.document"@ || mime
        == "application/msword"@ {
        Some(DocumentFormat::Docx)
    } else if mime == "application/vnd.openxmlformats-officedocument.spreadsheetml.sheet"@ || mime
        == "application/vnd.ms-excel"@ {
        Some(DocumentFormat::Xlsx)
    } else if mime == "text/html"@ {
        Some(DocumentFormat::Html)
    } else if mime == "text/markdown"@ || mime == "text/x-markdown"@ {
        Some(DocumentFormat::Md)
    } else if mime == "text/plain"@ {
        Some(DocumentFormat::Txt)
    } else if mime == "text/csv"@ {
        Some(DocumentFormat::Csv)
    } else {
        None
    }
}

/// The document format of a media type.
pub fn document_format(mime_type: &str) -> (r: Result<DocumentFormat, String>)
    ensures
        match document_format_spec(mime_type@) {
            Some(f) => r == Ok::<DocumentFormat, String>(f),
            None => r matches Err(e) && e@ == "unsupported document format: "@ + mime_type@,
        },
{
    if str_eq(mime_type, "application/pdf") {
        Ok(DocumentFormat::Pdf)
    } else if str_eq(mime_type, "application/vnd.openxmlformats-officedocument.wordprocessingml.document")
        || str_eq(mime_type, "application/msword") {
        Ok(DocumentFormat::Docx)
    } else if str_eq(mime_type, "application/vnd.openxmlformats-officedocument.spreadsheetml.sheet")
        || str_eq(mime_type, "application/vnd.ms-excel") {
        Ok(DocumentFormat::Xlsx)
    } else if str_eq(mime_type, "text/html") {
        Ok(DocumentFormat::Html)
    } else if str_eq(mime_type, "text/markdown") || str_eq(mime_type, "text/x-markdown") {
        Ok(DocumentFormat::Md)
    } else if str_eq(mime_type, "text/plain") {
        Ok(DocumentFormat::Txt)
    } else if str_eq(mime_type, "text/csv") {
        Ok(DocumentFormat::Csv)
    } else {
        Err(concat("unsupported document format: ", mime_type))
    }
}

/// Token counts of one model response.
#[derive(Clone, Copy, PartialEq, Eq, Structural)]
pub struct TokenUsageCounts {
    pub input_tokens: i64,
    pub output_tokens: i64,
    pub cache_read_tokens: i64,
    pub cache_write_tokens: i64,
}

/// What the Converse API reports of token use: input and output tokens, and the cache counts
/// when it reports them.
pub struct ReportedUsage {
    pub input_tokens: i32,
    pub output_tokens: i32,
    pub cache_read_input_tokens: Option<i32>,
    pub cache_write_input_tokens: Option<i32>,
}

pub open spec fn non_negative(v: i32) -> i64 {
    if v < 0 {
        0
    } else {
        v as i64
    }
}

/// The token counts of a response: negative counts read as zero, missing ones as zero, and a
/// response without usage as all zero.
pub fn convert_token_usage(usage: Option<&ReportedUsage>) -> (r: TokenUsageCounts)
    ensures
        match usage {
            None => r == TokenUsageCounts {
                input_tokens: 0,
                output_tokens: 0,
                cache_read_tokens: 0,
                cache_write_tokens: 0,
            },
            Some(u) => r == TokenUsageCounts {
                input_tokens: non_negative(u.input_tokens),
                output_tokens: non_negative(u.output_tokens),
                cache_read_tokens: non_negative(
                    match u.cache_read_input_tokens {
                        Some(v) => v,
                        None => 0,
                    },
                ),
                cache_write_tokens: non_negative(
                    match u.cache_write_input_tokens {
                        Some(v) => v,
                        None => 0,
                    },
                ),
            },
        },
{
    match usage {
        None => TokenUsageCounts { input_tokens: 0, output_tokens: 0, cache_read_tokens: 0, cache_write_tokens: 0 },
        Some(u) => {
            let read = match u.cache_read_input_tokens {
                Some(v) => v,
                None => 0,
            };
            let write = match u.cache_write_input_tokens {
                Some(v) => v,
                None => 0,
            };
            TokenUsageCounts {
                input_tokens: if u.input_tokens < 0 {
                    0
                } else {
                    u.input_tokens as i64
                },
                output_tokens: if u.output_tokens < 0 {
                    0
                } else {
                    u.output_tokens as i64
                },
                cache_read_tokens: if read < 0 {
                    0
                } else {
                    read as i64
                },
                cache_write_tokens: if write < 0 {
                    0
                } else {
                    write as i64
                },
            }
        },
    }
}

/// A part of the model's answer: text, a tool call, or something the client does not read.
pub enum OutputBlock {
    Text(String),
    ToolUse { tool_use_id: String, name: String, input: serde_json::Value },
    Other,
}

/// A part of an assistant message read from the answer.
pub enum AnswerContent {
    OutputText(String),
    ToolCall { call_id: String, tool_name: String, arguments: serde_json::Value },
}

/// What a block of the answer gives: its kind (text or tool call), its text or call id, the
/// tool's name, and the tool call's input; nothing for a block the client does not read.
pub open spec fn output_view(b: OutputBlock) -> Option<(bool, Seq<char>, Seq<char>, Option<serde_json::Value>)> {
    match b {
        OutputBlock::Text(t) => Some((true, t@, Seq::<char>::empty(), None)),
        OutputBlock::ToolUse { tool_use_id, name, input } => Some((false, tool_use_id@, name@, Some(input))),
        OutputBlock::Other => None,
    }
}

/// The kind, text or call id, and tool name of a part of an assistant message.
pub open spec fn answer_view(c: AnswerContent) -> (bool, Seq<char>, Seq<char>) {
    match c {
        AnswerContent::OutputText(t) => (true, t@, Seq::<char>::empty()),
        AnswerContent::ToolCall { call_id, tool_name, .. } => (false, call_id@, tool_name@),
    }
}

/// [`answer_view`] with the tool call's arguments.
pub open spec fn answer_full_view(c: AnswerContent) -> (bool, Seq<char>, Seq<char>, Option<serde_json::Value>) {
    match c {
        AnswerContent::OutputText(t) => (true, t@, Seq::<char>::empty(), None),
        AnswerContent::ToolCall { call_id, tool_name, arguments } => (false, call_id@, tool_name@, Some(arguments)),
    }
}

/// The readable parts of an answer, in order.
pub open spec fn readable<T>(blocks: Seq<Option<T>>) -> Seq<T>
    decreases blocks.len(),
{
    if blocks.len() == 0 {
        Seq::empty()
    } else {
        match blocks.last() {
            Some(b) => readable(blocks.drop_last()).push(b),
            None => readable(blocks.drop_last()),
        }
    }
}

/// The assistant message of an answer: its text and tool call parts in order, each tool call
/// with its input as its arguments; an answer without either reads as one empty text.
pub fn answer_contents(blocks: Vec<OutputBlock>) -> (r: Vec<AnswerContent>)
    ensures
        readable(blocks@.map_values(|b: OutputBlock| output_view(b))).len() > 0 ==> r@.map_values(
            |c: AnswerContent| answer_full_view(c),
        ) == readable(blocks@.map_values(|b: OutputBlock| output_view(b))),
        readable(blocks@.map_values(|b: OutputBlock| output_view(b))).len() == 0 ==> r@.map_values(
            |c: AnswerContent| answer_full_view(c),
        ) == seq![(true, Seq::<char>::empty(), Seq::<char>::empty(), None::<serde_json::Value>)],
{
    let ghost all = blocks@.map_values(|b: OutputBlock| output_view(b));
    let mut rest = blocks;
    let mut out: Vec<AnswerContent> = Vec::new();
    let mut k: usize = 0;
    let n0 = rest.len();
    assert(all.len() == n0);
    assert(all.skip(0) =~= all);
    assert(out@.map_values(|c: AnswerContent| answer_full_view(c)) =~= readable(all.take(0)));
    while rest.len() > 0
        invariant
            rest@.map_values(|b: OutputBlock| output_view(b)) == all.skip(k as int),
            k <= all.len(),
            all.len() <= usize::MAX,
            out@.map_values(|c: AnswerContent| answer_full_view(c)) == readable(all.take(k as int)),
        decreases rest.len(),
    {
        let ghost before = out@.map_values(|c: AnswerContent| answer_full_view(c));
        let ghost rv = rest@;
        let b = rest.remove(0);
        proof {
            assert(rv.map_values(|b: OutputBlock| output_view(b)).len() == rv.len());
            assert(k < all.len());
            assert(rv[0] == b);
            assert(all.skip(k as int)[0] == rv.map_values(|b: OutputBlock| output_view(b))[0]);
            assert(all.skip(k as int)[0] == output_view(b));
            assert(rest@ =~= rv.subrange(1, rv.len() as int));
            assert forall|i: int| 0 <= i < rest@.len() implies rest@.map_values(
                |b: OutputBlock| output_view(b),
            )[i] == #[trigger] all.skip(k + 1)[i] by {
                assert(rest@[i] == rv[i + 1]);
                assert(rv.map_values(|b: OutputBlock| output_view(b))[i + 1] == all.skip(k as int)[i + 1]);
            }
            assert(rest@.map_values(|b: OutputBlock| output_view(b)) =~= all.skip(k + 1));
            assert(all.take(k + 1).drop_last() =~= all.take(k as int));
            assert(all.take(k + 1).last() == output_view(b));
        }
        match b {
            OutputBlock::Text(t) => {
                let c = AnswerContent::OutputText(t);
                let ghost v = answer_full_view(c);
                out.push(c);
                assert(out@.map_values(|c: AnswerContent| answer_full_view(c)) =~= before.push(v));
            },
            OutputBlock::ToolUse { tool_use_id, name, input } => {
                let c = AnswerContent::ToolCall { call_id: tool_use_id, tool_name: name, arguments: input };
                let ghost v = answer_full_view(c);
                out.push(c);
                assert(out@.map_values(|c: AnswerContent| answer_full_view(c)) =~= before.push(v));
            },
            OutputBlock::Other => {},
        }
        k += 1;
    }
    proof {
        assert(all.take(k as int) =~= all);
    }
    if out.len() == 0 {
        out.push(AnswerContent::OutputText(String::new()));
        assert(out@.map_values(|c: AnswerContent| answer_full_view(c)) =~= seq![
            (true, Seq::<char>::empty(), Seq::<char>::empty(), None::<serde_json::Value>),
        ]);
    }
    out
}

} // verus!
