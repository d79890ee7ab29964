//! What holds of every prompt: how each kind of content is rendered, and that nothing of it is
//! lost, added or moved.

use vstd::prelude::*;
use vstd::string::*;

use crate::facts::{
    holds, holds_text, lacks, lacks_text, law_held_text_is_read, law_nothing_held_nothing_read,
    law_what_is_held_is_read,
};
use crate::json::{json_text, JsonView};
use crate::prompt::{
    block_text, blocks_text, content_text, lines, member_texts, messages_text, prompt_text,
    system_text, MessageView,
};

verus! {

// Contents
/// A content that is a string is its own text.
pub proof fn law_string_is_its_text(s: Seq<char>)
    ensures
        content_text(JsonView::Text(s)) == s,
{
}

/// The text of a list of blocks is the texts of its parts, in order.
pub proof fn law_blocks_follow_each_other(a: Seq<JsonView>, b: Seq<JsonView>)
    ensures
        content_text(JsonView::Array(a + b)) == content_text(JsonView::Array(a)) + content_text(
            JsonView::Array(b),
        ),
    decreases b.len(),
{
    if b.len() == 0 {
        assert(a + b =~= a);
        assert(blocks_text(a) + blocks_text(b) =~= blocks_text(a));
    } else {
        law_blocks_follow_each_other(a, b.drop_last());
        assert((a + b).drop_last() =~= a + b.drop_last());
        assert(blocks_text(a + b) =~= blocks_text(a) + blocks_text(b));
    }
}

/// A content that is neither a string nor a list, and a list without blocks, have no text.
pub proof fn law_other_contents_have_no_text(content: JsonView)
    requires
        !(content is Text),
        content matches JsonView::Array(blocks) ==> blocks.len() == 0,
    ensures
        content_text(content).len() == 0,
{
}

proof fn lemma_one_block(block: JsonView)
    ensures
        content_text(JsonView::Array(seq![block])) == block_text(block),
{
    assert(seq![block].drop_last() =~= seq![]);
    assert(blocks_text(seq![block].drop_last()) =~= seq![]);
    assert(blocks_text(seq![block]) =~= block_text(block));
}

proof fn lemma_kinds()
    ensures
        "text"@ != "tool_use"@,
        "text"@ != "tool_result"@,
        "text"@ != "thinking"@,
        "tool_use"@ != "tool_result"@,
        "tool_use"@ != "thinking"@,
        "tool_result"@ != "thinking"@,
{
    reveal_strlit("text");
    reveal_strlit("tool_use");
    reveal_strlit("tool_result");
    reveal_strlit("thinking");
    assert("text"@.len() == 4 && "tool_use"@.len() == 8 && "tool_result"@.len() == 11);
    assert("tool_use"@[1] != "thinking"@[1]);
}

/// A text block is rendered as its whole text and a line break.
pub proof fn law_text_block(block: JsonView, text: Seq<char>)
    requires
        holds_text(block, "type"@, "text"@),
        holds_text(block, "text"@, text),
    ensures
        content_text(JsonView::Array(seq![block])) == text.push('\n'),
{
    lemma_one_block(block);
    law_held_text_is_read(block, "type"@, "text"@);
    law_held_text_is_read(block, "text"@, text);
    reveal_strlit("\n");
    assert(block_text(block) =~= text.push('\n'));
}

/// A tool call is rendered under the name of its tool, with its whole input as JSON between the
/// two marks.
pub proof fn law_tool_call_block(block: JsonView, name: Seq<char>, input: JsonView)
    requires
        holds_text(block, "type"@, "tool_use"@),
        holds_text(block, "name"@, name) || (lacks_text(block, "name"@) && name == "unknown"@),
        holds(block, "input"@, input) || (lacks(block, "input"@) && input == JsonView::Null),
    ensures
        content_text(JsonView::Array(seq![block])) == "[TOOL_USE: "@ + name + "]\n"@ + json_text(
            input,
        ) + "\n[/TOOL_USE]\n"@,
{
    lemma_one_block(block);
    lemma_kinds();
    law_held_text_is_read(block, "type"@, "tool_use"@);
    law_held_text_is_read(block, "name"@, name);
    law_nothing_held_nothing_read(block, "name"@);
    law_what_is_held_is_read(block, "input"@, input);
    law_nothing_held_nothing_read(block, "input"@);
    reveal_strlit("[TOOL_USE: ");
    reveal_strlit("\n[/TOOL_USE]\n");
    reveal_strlit("[");
    reveal_strlit("TOOL_USE");
    reveal_strlit(": ");
    reveal_strlit("]\n");
    reveal_strlit("\n[/");
    assert(block_text(block) =~= "[TOOL_USE: "@ + name + "]\n"@ + json_text(input)
        + "\n[/TOOL_USE]\n"@);
}

/// The result of a tool call is rendered under the id of the call, with the whole text of its
/// content between the two marks: as an error exactly where the block holds true under
/// `is_error`, and otherwise as a result.
pub proof fn law_tool_result_block(block: JsonView, id: Seq<char>, content: JsonView)
    requires
        holds_text(block, "type"@, "tool_result"@),
        holds_text(block, "tool_use_id"@, id) || (lacks_text(block, "tool_use_id"@) && id.len()
            == 0),
        holds(block, "content"@, content) || (lacks(block, "content"@) && content
            == JsonView::Null),
    ensures
        holds(block, "is_error"@, JsonView::Bool(true)) ==> content_text(
            JsonView::Array(seq![block]),
        ) == "[TOOL_ERROR: "@ + id + "]\n"@ + content_text(content) + "\n[/TOOL_ERROR]\n"@,
        !holds(block, "is_error"@, JsonView::Bool(true)) ==> content_text(
            JsonView::Array(seq![block]),
        ) == "[TOOL_RESULT: "@ + id + "]\n"@ + content_text(content) + "\n[/TOOL_RESULT]\n"@,
{
    lemma_one_block(block);
    lemma_kinds();
    law_held_text_is_read(block, "type"@, "tool_result"@);
    law_held_text_is_read(block, "tool_use_id"@, id);
    law_nothing_held_nothing_read(block, "tool_use_id"@);
    law_what_is_held_is_read(block, "content"@, content);
    law_nothing_held_nothing_read(block, "content"@);
    law_what_is_held_is_read(block, "is_error"@, JsonView::Bool(true));
    reveal_strlit("");
    reveal_strlit("[TOOL_ERROR: ");
    reveal_strlit("\n[/TOOL_ERROR]\n");
    reveal_strlit("[TOOL_RESULT: ");
    reveal_strlit("\n[/TOOL_RESULT]\n");
    reveal_strlit("[");
    reveal_strlit("TOOL_ERROR");
    reveal_strlit("TOOL_RESULT");
    reveal_strlit(": ");
    reveal_strlit("]\n");
    reveal_strlit("\n[/");
    assert(content_text(JsonView::Null) =~= seq![]);
    if holds(block, "is_error"@, JsonView::Bool(true)) {
        assert(block_text(block) =~= "[TOOL_ERROR: "@ + id + "]\n"@ + content_text(content)
            + "\n[/TOOL_ERROR]\n"@);
    } else {
        assert(block_text(block) =~= "[TOOL_RESULT: "@ + id + "]\n"@ + content_text(content)
            + "\n[/TOOL_RESULT]\n"@);
    }
}

/// Reasoning is rendered whole between its two marks.
pub proof fn law_thinking_block(block: JsonView, thinking: Seq<char>)
    requires
        holds_text(block, "type"@, "thinking"@),
        holds_text(block, "thinking"@, thinking),
    ensures
        content_text(JsonView::Array(seq![block])) == "[thinking]\n"@ + thinking
            + "\n[/thinking]\n"@,
{
    lemma_one_block(block);
    lemma_kinds();
    law_held_text_is_read(block, "type"@, "thinking"@);
    law_held_text_is_read(block, "thinking"@, thinking);
}

/// A block of any other type, or without the text that its type calls for, is not rendered.
pub proof fn law_other_blocks_are_left_out(block: JsonView)
    requires
        !holds_text(block, "type"@, "tool_use"@),
        !holds_text(block, "type"@, "tool_result"@),
        holds_text(block, "type"@, "text"@) ==> lacks_text(block, "text"@),
        holds_text(block, "type"@, "thinking"@) ==> lacks_text(block, "thinking"@),
    ensures
        content_text(JsonView::Array(seq![block])).len() == 0,
{
    lemma_one_block(block);
    law_held_text_is_read(block, "type"@, "text"@);
    law_held_text_is_read(block, "type"@, "tool_use"@);
    law_held_text_is_read(block, "type"@, "tool_result"@);
    law_held_text_is_read(block, "type"@, "thinking"@);
    law_nothing_held_nothing_read(block, "text"@);
    law_nothing_held_nothing_read(block, "thinking"@);
}

// The system prompt
/// A system prompt that is a string is its own text, and one of another kind than a string or a
/// list has none.
pub proof fn law_system_string(s: Seq<char>, other: JsonView)
    requires
        !(other is Text),
        !(other is Array),
    ensures
        system_text(Some(JsonView::Text(s))) == s,
        system_text(Some(other)).len() == 0,
        system_text(None).len() == 0,
        system_text(Some(JsonView::Array(seq![]))).len() == 0,
{
    assert(member_texts(seq![]) =~= seq![]);
}

/// In a list every element with a text adds it on a line of its own, after the texts before it;
/// an element without one adds nothing.
pub proof fn law_system_list(items: Seq<JsonView>, item: JsonView, text: Seq<char>)
    ensures
        lacks_text(item, "text"@) ==> system_text(Some(JsonView::Array(items.push(item))))
            == system_text(Some(JsonView::Array(items))),
        holds_text(item, "text"@, text) && (forall|i: int|
            0 <= i < items.len() ==> lacks_text(#[trigger] items[i], "text"@)) ==> system_text(
            Some(JsonView::Array(items.push(item))),
        ) == text,
        holds_text(item, "text"@, text) && (exists|i: int|
            0 <= i < items.len() && !lacks_text(#[trigger] items[i], "text"@)) ==> system_text(
            Some(JsonView::Array(items.push(item))),
        ) == system_text(Some(JsonView::Array(items))).push('\n') + text,
{
    law_nothing_held_nothing_read(item, "text"@);
    law_held_text_is_read(item, "text"@, text);
    assert(items.push(item).drop_last() =~= items);
    lemma_members(items);
    reveal_strlit("\n");
    if holds_text(item, "text"@, text) {
        let texts = member_texts(items);
        assert(texts.push(text).drop_last() =~= texts);
        if texts.len() > 0 {
            assert(lines(texts.push(text)) =~= lines(texts).push('\n') + text);
        }
    }
}

proof fn lemma_members(items: Seq<JsonView>)
    ensures
        member_texts(items).len() == 0 <==> forall|i: int|
            0 <= i < items.len() ==> lacks_text(#[trigger] items[i], "text"@),
    decreases items.len(),
{
    if items.len() > 0 {
        let earlier = items.drop_last();
        lemma_members(earlier);
        let last = items[items.len() - 1];
        law_nothing_held_nothing_read(last, "text"@);
        if member_texts(items).len() == 0 {
            assert forall|i: int| 0 <= i < items.len() implies lacks_text(
                #[trigger] items[i],
                "text"@,
            ) by {
                if i < earlier.len() {
                    assert(earlier[i] == items[i]);
                }
            }
        } else if forall|i: int| 0 <= i < items.len() ==> lacks_text(#[trigger] items[i], "text"@) {
            assert(lacks_text(last, "text"@));
            assert forall|i: int| 0 <= i < earlier.len() implies lacks_text(
                #[trigger] earlier[i],
                "text"@,
            ) by {
                assert(earlier[i] == items[i]);
            }
        }
    }
}

// The prompt
/// A prompt without messages is the system prompt between its marks, where it has a text, and
/// then the place at which the assistant goes on.
pub proof fn law_prompt_without_messages(system: Option<JsonView>)
    ensures
        system_text(system).len() == 0 ==> prompt_text(seq![], system) == "[Assistant]\n"@,
        system_text(system).len() > 0 ==> prompt_text(seq![], system) == "[SYSTEM]\n"@
            + system_text(system) + "\n[/SYSTEM]\n\n"@ + "[Assistant]\n"@,
{
    assert(messages_text(seq![]) =~= seq![]);
    if system_text(system).len() == 0 {
        assert(prompt_text(seq![], system) =~= "[Assistant]\n"@);
    } else {
        assert(prompt_text(seq![], system) =~= "[SYSTEM]\n"@ + system_text(system)
            + "\n[/SYSTEM]\n\n"@ + "[Assistant]\n"@);
    }
}

/// One more message adds its whole text, between the marks of its role, before the place at which
/// the assistant goes on; all that stood before stays. Only the assistant's messages stand under
/// the assistant's name.
pub proof fn law_prompt_grows_by_a_message(
    messages: Seq<MessageView>,
    system: Option<JsonView>,
    message: MessageView,
    head: Seq<char>,
)
    requires
        prompt_text(messages, system) == head + "[Assistant]\n"@,
    ensures
        message.role == "assistant"@ ==> prompt_text(messages.push(message), system) == head
            + "[Assistant]\n"@ + content_text(message.content) + "\n[/Assistant]\n\n"@
            + "[Assistant]\n"@,
        message.role != "assistant"@ ==> prompt_text(messages.push(message), system) == head
            + "[User]\n"@ + content_text(message.content) + "\n[/User]\n\n"@ + "[Assistant]\n"@,
{
    let end = "[Assistant]\n"@;
    let before = prompt_text(messages, system);
    let kept = crate::prompt::system_head(system) + messages_text(messages);
    assert(before =~= kept + end);
    assert(head =~= before.take(before.len() - end.len()));
    assert(kept =~= before.take(before.len() - end.len()));
    assert(messages.push(message).drop_last() =~= messages);
    reveal_strlit("[");
    reveal_strlit("]\n");
    reveal_strlit("]\n\n");
    reveal_strlit("\n[/");
    reveal_strlit("User");
    reveal_strlit("Assistant");
    reveal_strlit("[User]\n");
    reveal_strlit("[Assistant]\n");
    reveal_strlit("\n[/User]\n\n");
    reveal_strlit("\n[/Assistant]\n\n");
    let text = content_text(message.content);
    if message.role == "assistant"@ {
        assert(prompt_text(messages.push(message), system) =~= head + "[Assistant]\n"@ + text
            + "\n[/Assistant]\n\n"@ + end);
    } else {
        assert(prompt_text(messages.push(message), system) =~= head + "[User]\n"@ + text
            + "\n[/User]\n\n"@ + end);
    }
}

/// Whatever a prompt renders, the assistant goes on at its end.
pub proof fn law_prompt_ends_with_the_assistant(
    messages: Seq<MessageView>,
    system: Option<JsonView>,
)
    ensures
        exists|head: Seq<char>| prompt_text(messages, system) == head + "[Assistant]\n"@,
{
    let head = crate::prompt::system_head(system) + messages_text(messages);
    assert(prompt_text(messages, system) =~= head + "[Assistant]\n"@);
}

} // verus!
