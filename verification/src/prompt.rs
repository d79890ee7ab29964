//! Messages, and the prompt that a list of them becomes.

use vstd::prelude::*;
use vstd::string::*;

use crate::json::{json_text, Json, JsonView};
use crate::text::same;

verus! {

/// One message of a request.
#[derive(Debug)]
pub struct Message {
    pub role: String,
    pub content: Json,
}

/// A message as the contracts speak of it.
pub struct MessageView {
    pub role: Seq<char>,
    pub content: JsonView,
}

impl View for Message {
    type V = MessageView;

    open spec fn view(&self) -> MessageView {
        MessageView { role: self.role@, content: self.content@ }
    }
}

/// The messages of a list, as the contracts speak of them.
pub open spec fn views(messages: Seq<Message>) -> Seq<MessageView> {
    messages.map_values(|m: Message| m@)
}

// Message contents
/// A labelled section: the body between an opening line with tag and label and a closing line.
pub open spec fn section(tag: Seq<char>, label: Seq<char>, body: Seq<char>) -> Seq<char> {
    "["@ + tag + ": "@ + label + "]\n"@ + body + "\n[/"@ + tag + "]\n"@
}

/// `value`, or `default` where there is none.
pub open spec fn text_or(value: Option<Seq<char>>, default: Seq<char>) -> Seq<char> {
    match value {
        Some(s) => s,
        None => default,
    }
}

/// The text of a message's content: a string is its own text, and of a list each block adds
/// its text in turn.
pub open spec fn content_text(content: JsonView) -> Seq<char>
    decreases content,
{
    match content {
        JsonView::Text(s) => s,
        JsonView::Array(blocks) => blocks_text(blocks),
        _ => seq![],
    }
}

/// The texts of content blocks, one after the other.
pub open spec fn blocks_text(blocks: Seq<JsonView>) -> Seq<char>
    decreases blocks,
{
    if blocks.len() == 0 {
        seq![]
    } else {
        blocks_text(blocks.drop_last()) + block_text(blocks.last())
    }
}

/// The text of one content block, by its type; a block of another type has none.
pub open spec fn block_text(block: JsonView) -> Seq<char>
    decreases block,
{
    let kind = block.text_at("type"@);
    if kind == Some("text"@) {
        match block.text_at("text"@) {
            Some(t) => t + "\n"@,
            None => seq![],
        }
    } else if kind == Some("tool_use"@) {
        section(
            "TOOL_USE"@,
            text_or(block.text_at("name"@), "unknown"@),
            json_text(block.at("input"@)),
        )
    } else if kind == Some("tool_result"@) {
        let body = match block {
            JsonView::Object(members) => if members.contains_key("content"@) {
                content_text(members["content"@])
            } else {
                seq![]
            },
            _ => seq![],
        };
        let tag = if block.at("is_error"@) == JsonView::Bool(true) {
            "TOOL_ERROR"@
        } else {
            "TOOL_RESULT"@
        };
        section(tag, text_or(block.text_at("tool_use_id"@), ""@), body)
    } else if kind == Some("thinking"@) {
        match block.text_at("thinking"@) {
            Some(t) => "[thinking]\n"@ + t + "\n[/thinking]\n"@,
            None => seq![],
        }
    } else {
        seq![]
    }
}

/// Appends a labelled section.
fn push_section(out: &mut String, tag: &str, label: &str, body: &str)
    ensures
        final(out)@ == old(out)@ + section(tag@, label@, body@),
{
    out.append("[");
    out.append(tag);
    out.append(": ");
    out.append(label);
    out.append("]\n");
    out.append(body);
    out.append("\n[/");
    out.append(tag);
    out.append("]\n");
    assert(out@ =~= old(out)@ + section(tag@, label@, body@));
}

/// The text of a tool call block, once its input has been written as JSON.
pub fn tool_use_text(name: Option<&str>, input: &str) -> (text: String)
    ensures
        text@ == section(
            "TOOL_USE"@,
            text_or(
                match name {
                    Some(s) => Some(s@),
                    None => None,
                },
                "unknown"@,
            ),
            input@,
        ),
{
    let label = match name {
        Some(name) => name,
        None => "unknown",
    };
    let mut text = String::new();
    push_section(&mut text, "TOOL_USE", label, input);
    assert(text@ =~= section("TOOL_USE"@, label@, input@));
    text
}

/// The text of a message's content.
pub fn extract_text(value: &Json) -> (text: String)
    ensures
        text@ == content_text(value@),
    decreases value,
{
    match value {
        Json::Text(s) => s.clone(),
        Json::Array(blocks) => {
            let mut out = String::new();
            let mut i: usize = 0;
            assert(value@->Array_0.take(0) =~= seq![]);
            while i < blocks.len()
                invariant
                    i <= blocks@.len(),
                    *value == Json::Array(*blocks),
                    out@ == blocks_text(value@->Array_0.take(i as int)),
                decreases blocks@.len() - i,
            {
                assert(decreases_to!(value => value->Array_0));
                assert(decreases_to!(blocks@ => blocks@[i as int]));
                push_block(&mut out, &blocks[i]);
                assert(value@->Array_0.take(i + 1).drop_last() =~= value@->Array_0.take(i as int));
                i = i + 1;
            }
            assert(value@->Array_0.take(i as int) =~= value@->Array_0);
            out
        },
        _ => String::new(),
    }
}

/// Appends the text of one content block.
fn push_block(out: &mut String, block: &Json)
    ensures
        final(out)@ == old(out)@ + block_text(block@),
    decreases block,
{
    proof {
        reveal_strlit("");
    }
    if block.says("type", "text") {
        match block.str_at("text") {
            Some(t) => {
                out.append(t);
                out.append("\n");
                assert(out@ =~= old(out)@ + block_text(block@));
            },
            None => {},
        }
    } else if block.says("type", "tool_use") {
        let input = match block.get("input") {
            Some(input) => input.to_text(),
            None => Json::Null.to_text(),
        };
        out.append(tool_use_text(block.str_at("name"), input.as_str()).as_str());
    } else if block.says("type", "tool_result") {
        let id = match block.str_at("tool_use_id") {
            Some(id) => id,
            None => "",
        };
        let content = match block.get("content") {
            Some(content) => extract_text(content),
            None => String::new(),
        };
        let tag = if block.is_true_at("is_error") {
            "TOOL_ERROR"
        } else {
            "TOOL_RESULT"
        };
        push_section(out, tag, id, content.as_str());
    } else if block.says("type", "thinking") {
        match block.str_at("thinking") {
            Some(t) => {
                out.append("[thinking]\n");
                out.append(t);
                out.append("\n[/thinking]\n");
                assert(out@ =~= old(out)@ + block_text(block@));
            },
            None => {},
        }
    }
}

// The system prompt
/// The texts that the objects of a list hold under `text`, in order.
pub open spec fn member_texts(items: Seq<JsonView>) -> Seq<Seq<char>>
    decreases items.len(),
{
    if items.len() == 0 {
        seq![]
    } else {
        match items.last().text_at("text"@) {
            Some(t) => member_texts(items.drop_last()).push(t),
            None => member_texts(items.drop_last()),
        }
    }
}

/// The texts with a line break between each two.
pub open spec fn lines(texts: Seq<Seq<char>>) -> Seq<char>
    decreases texts.len(),
{
    if texts.len() == 0 {
        seq![]
    } else if texts.len() == 1 {
        texts[0]
    } else {
        lines(texts.drop_last()) + "\n"@ + texts.last()
    }
}

/// The text of a system prompt: a string is its own text, a list gives the texts in it line
/// by line.
pub open spec fn system_text(system: Option<JsonView>) -> Seq<char> {
    match system {
        Some(JsonView::Text(s)) => s,
        Some(JsonView::Array(items)) => lines(member_texts(items)),
        _ => seq![],
    }
}

/// A system prompt as the contracts speak of it.
pub open spec fn system_view(system: Option<Json>) -> Option<JsonView> {
    match system {
        Some(json) => Some(json@),
        None => None,
    }
}

/// The text of a system prompt.
pub fn extract_system_text(system: &Option<Json>) -> (text: String)
    ensures
        text@ == system_text(system_view(*system)),
{
    match system {
        Some(Json::Text(s)) => s.clone(),
        Some(Json::Array(items)) => {
            let ghost all = system_view(*system)->0->Array_0;
            let mut out = String::new();
            let mut first = true;
            let mut i: usize = 0;
            assert(all.take(0) =~= seq![]);
            while i < items.len()
                invariant
                    i <= items@.len(),
                    *system == Some(Json::Array(*items)),
                    all == system_view(*system)->0->Array_0,
                    first == (member_texts(all.take(i as int)).len() == 0),
                    out@ == lines(member_texts(all.take(i as int))),
                decreases items@.len() - i,
            {
                assert(all.take(i + 1).drop_last() =~= all.take(i as int));
                let ghost texts = member_texts(all.take(i as int));
                match items[i].str_at("text") {
                    Some(t) => {
                        assert(texts.push(t@).drop_last() =~= texts);
                        if !first {
                            out.append("\n");
                        }
                        out.append(t);
                        assert(out@ =~= lines(texts.push(t@)));
                        first = false;
                    },
                    None => {},
                }
                i = i + 1;
            }
            assert(all.take(i as int) =~= all);
            out
        },
        _ => String::new(),
    }
}

// The prompt
/// The name under which a role stands in a prompt.
pub open spec fn role_name(role: Seq<char>) -> Seq<char> {
    if role == "assistant"@ {
        "Assistant"@
    } else {
        "User"@
    }
}

/// One message in a prompt.
pub open spec fn message_text(message: MessageView) -> Seq<char> {
    let name = role_name(message.role);
    "["@ + name + "]\n"@ + content_text(message.content) + "\n[/"@ + name + "]\n\n"@
}

/// Messages in a prompt, one after the other.
pub open spec fn messages_text(messages: Seq<MessageView>) -> Seq<char>
    decreases messages.len(),
{
    if messages.len() == 0 {
        seq![]
    } else {
        messages_text(messages.drop_last()) + message_text(messages.last())
    }
}

/// The head of a prompt: the system prompt, where it has a text.
pub open spec fn system_head(system: Option<JsonView>) -> Seq<char> {
    if system_text(system).len() == 0 {
        seq![]
    } else {
        "[SYSTEM]\n"@ + system_text(system) + "\n[/SYSTEM]\n\n"@
    }
}

/// The prompt for messages under a system prompt: it ends where the assistant is to go on.
pub open spec fn prompt_text(messages: Seq<MessageView>, system: Option<JsonView>) -> Seq<char> {
    system_head(system) + messages_text(messages) + "[Assistant]\n"@
}

/// The prompt for messages under a system prompt.
pub fn build_prompt(messages: &[Message], system: &Option<Json>) -> (prompt: String)
    ensures
        prompt@ == prompt_text(views(messages@), system_view(*system)),
{
    let mut prompt = String::new();
    let sys = extract_system_text(system);
    if !sys.as_str().is_empty() {
        prompt.append("[SYSTEM]\n");
        prompt.append(sys.as_str());
        prompt.append("\n[/SYSTEM]\n\n");
    }
    let ghost head = system_head(system_view(*system));
    assert(prompt@ =~= head);
    let ghost all = views(messages@);
    assert(all.take(0) =~= seq![]);
    let mut i: usize = 0;
    while i < messages.len()
        invariant
            i <= messages@.len(),
            all == views(messages@),
            prompt@ == head + messages_text(all.take(i as int)),
        decreases messages@.len() - i,
    {
        let message = &messages[i];
        let name = if same(message.role.as_str(), "assistant") {
            "Assistant"
        } else {
            "User"
        };
        let content = extract_text(&message.content);
        let ghost sofar = prompt@;
        prompt.append("[");
        prompt.append(name);
        prompt.append("]\n");
        prompt.append(content.as_str());
        prompt.append("\n[/");
        prompt.append(name);
        prompt.append("]\n\n");
        assert(prompt@ =~= sofar + message_text(all[i as int]));
        assert(all.take(i + 1).drop_last() =~= all.take(i as int));
        assert(prompt@ =~= head + messages_text(all.take(i + 1)));
        i = i + 1;
    }
    assert(all.take(i as int) =~= all);
    prompt.append("[Assistant]\n");
    prompt
}

} // verus!
