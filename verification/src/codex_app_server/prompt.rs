//! What of a conversation is sent to the app-server, and how it is worded.

use vstd::prelude::*;
use vstd::utf8::encode_utf8;

use crate::decimal::decimal_text;
use crate::decimal::u64_text;
use crate::json::str_option;
use crate::json_text::json_to_string;
use crate::llm::CompletionRequest;
use crate::llm::ContentBlock;
use crate::llm::Message;
use crate::llm::MessageContent;
use crate::llm::Role;
use crate::text::concat2;
use crate::text::concat3;
use crate::text::join;
use crate::text::join_text;
use crate::text::no_text;
use crate::text::option_text;
use crate::text::str_equal;
use crate::text::string_texts;
use crate::text::strip_prefix;
use crate::text::trim;
use crate::text::trim_text;
use crate::trusted::json_text;
use super::threads::ThreadState;
use super::CodexAppServerDriver;

verus! {

/// A model name without the provider's prefix, in either spelling.
pub open spec fn unprefixed(model: Seq<char>) -> Seq<char> {
    if "codex_app_server/"@.is_prefix_of(model) {
        model.skip("codex_app_server/"@.len() as int)
    } else if "codex-app-server/"@.is_prefix_of(model) {
        model.skip("codex-app-server/"@.len() as int)
    } else {
        model
    }
}

/// The model that the app-server is asked for; none where its default is meant.
pub open spec fn flag_of(model: Seq<char>) -> Option<Seq<char>> {
    if unprefixed(model) == ""@ || unprefixed(model) == "default"@ {
        None
    } else {
        Some(unprefixed(model))
    }
}

/// The conversation that messages belong to: the id of the first one that is
/// not the system's.
pub open spec fn conversation_of(messages: Seq<Message>) -> Seq<char>
    decreases messages.len(),
{
    if messages.len() == 0 {
        "default"@
    } else if messages[0].role != Role::System {
        messages[0].msg_id@
    } else {
        conversation_of(messages.skip(1))
    }
}

/// Position of the last message of the user, or -1 where there is none.
pub open spec fn last_user(messages: Seq<Message>) -> int
    decreases messages.len(),
{
    if messages.len() == 0 {
        -1
    } else if messages.last().role == Role::User {
        messages.len() - 1
    } else {
        last_user(messages.drop_last())
    }
}

/// The messages that a turn sends: on a thread that has seen `sent` messages
/// those behind them, or the user's last one where none are left.
pub open spec fn to_send(messages: Seq<Message>, sent: Option<usize>) -> Seq<Message> {
    match sent {
        Some(n) => if messages.len() > n {
            messages.skip(n as int)
        } else if last_user(messages) >= 0 {
            seq![messages[last_user(messages)]]
        } else {
            messages
        },
        None => messages,
    }
}

/// The messages behind references.
pub open spec fn referenced(messages: Seq<&Message>) -> Seq<Message> {
    messages.map_values(|m: &Message| *m)
}

/// The count that an optional thread has seen.
pub open spec fn sent_on(thread: Option<&ThreadState>) -> Option<usize> {
    match thread {
        Some(t) => Some(t.sent_message_count),
        None => None,
    }
}

/// The size of base64 data in KB, rounded down.
pub open spec fn approx_kb(data: Seq<char>) -> int {
    let n = encode_utf8(data).len() as int;
    let tripled = if n * 3 > usize::MAX {
        usize::MAX as int
    } else {
        n * 3
    };
    tripled / 4 / 1024
}

/// How the use of a tool is worded, by the JSON text of its input.
pub open spec fn tool_use_text(name: Seq<char>, input: Seq<char>) -> Seq<char> {
    "[tool use: "@ + name + "]\n"@ + input
}

/// How a block is worded; blocks without words are left out.
pub open spec fn block_words(b: ContentBlock) -> Option<Seq<char>> {
    match b {
        ContentBlock::Text { text, .. } => if text@.len() == 0 {
            None
        } else {
            Some(text@)
        },
        ContentBlock::Image { media_type, data } => Some(
            "[attachment: "@ + media_type@ + " image, ~"@ + decimal_text(approx_kb(data@))
                + " KB - not viewable on this provider]"@,
        ),
        ContentBlock::ToolResult { tool_name, content, is_error, .. } => Some(
            "[tool result: "@ + tool_name@ + (if is_error {
                " error"@
            } else {
                ""@
            }) + "]\n"@ + content@,
        ),
        ContentBlock::ToolUse { name, input, .. } => Some(
            tool_use_text(name@, json_text(input@)),
        ),
        _ => None,
    }
}

/// The wordings of blocks, in order.
pub open spec fn words_of(blocks: Seq<ContentBlock>) -> Seq<Seq<char>>
    decreases blocks.len(),
{
    if blocks.len() == 0 {
        seq![]
    } else {
        match block_words(blocks.last()) {
            Some(words) => words_of(blocks.drop_last()).push(words),
            None => words_of(blocks.drop_last()),
        }
    }
}

/// How the content of a message is worded.
pub open spec fn rendered(content: MessageContent) -> Seq<char> {
    match content {
        MessageContent::Text(s) => s@,
        MessageContent::Blocks(blocks) => join_text(words_of(blocks@), "\n"@),
    }
}

/// The heading of a message.
pub open spec fn role_label(role: Role) -> Seq<char> {
    match role {
        Role::User => "User"@,
        Role::Assistant => "Assistant"@,
        Role::System => "System"@,
    }
}

/// The paragraphs of a prompt: one for each message that says something.
pub open spec fn paragraphs(messages: Seq<Message>) -> Seq<Seq<char>>
    decreases messages.len(),
{
    if messages.len() == 0 {
        seq![]
    } else {
        let m = messages.last();
        let before = paragraphs(messages.drop_last());
        if rendered(m.content).len() == 0 {
            before
        } else {
            before.push("["@ + role_label(m.role) + "]\n"@ + rendered(m.content))
        }
    }
}

/// The paragraph of the system prompt, unless it is blank.
pub open spec fn system_paragraph(system: Option<Seq<char>>) -> Seq<Seq<char>> {
    match system {
        Some(s) => if trim_text(s).len() == 0 {
            seq![]
        } else {
            seq!["[System]\n"@ + s]
        },
        None => seq![],
    }
}

/// The prompt of a turn.
pub open spec fn prompt_text(messages: Seq<Message>, system: Option<Seq<char>>) -> Seq<char> {
    join_text(system_paragraph(system) + paragraphs(messages), "\n\n"@)
}

impl CodexAppServerDriver {
    /// The model that the app-server is asked for; none where its default is
    /// meant.
    pub fn model_flag(model: &str) -> (r: Option<String>)
        ensures
            option_text(r) == flag_of(model@),
    {
        let stripped: &str = match strip_prefix(model, "codex_app_server/") {
            Some(rest) => rest,
            None => match strip_prefix(model, "codex-app-server/") {
                Some(rest) => rest,
                None => model,
            },
        };
        if str_equal(stripped, "") || str_equal(stripped, "default") {
            None
        } else {
            Some(stripped.to_owned())
        }
    }

    /// The conversation that a request belongs to.
    pub fn conversation_key(request: &CompletionRequest) -> (r: String)
        ensures
            r@ == conversation_of(request.messages@),
    {
        let n: usize = request.messages.len();
        let mut i: usize = 0;
        assert(request.messages@.skip(0) =~= request.messages@);
        while i < n
            invariant
                n == request.messages@.len(),
                i <= n,
                conversation_of(request.messages@) == conversation_of(
                    request.messages@.skip(i as int),
                ),
            decreases n - i,
        {
            assert(request.messages@.skip(i as int).skip(1) =~= request.messages@.skip(i + 1));
            if request.messages[i].role != Role::System {
                return request.messages[i].msg_id.as_str().to_owned();
            }
            i = i + 1;
        }
        "default".to_owned()
    }

    /// The messages that a turn sends.
    pub fn messages_for_turn<'a>(
        request: &'a CompletionRequest,
        thread_state: Option<&ThreadState>,
    ) -> (r: Vec<&'a Message>)
        ensures
            referenced(r@) == to_send(request.messages@, sent_on(thread_state)),
    {
        let n: usize = request.messages.len();
        let ghost all = request.messages@;
        let mut first: usize = 0;
        if let Some(thread) = thread_state {
            if n > thread.sent_message_count {
                first = thread.sent_message_count;
            } else {
                let mut end: usize = n;
                assert(all.take(n as int) =~= all);
                while end > 0 && request.messages[end - 1].role != Role::User
                    invariant
                        n == request.messages@.len(),
                        all == request.messages@,
                        end <= n,
                        last_user(all) == last_user(all.take(end as int)),
                    decreases end,
                {
                    assert(all.take(end as int).drop_last() =~= all.take(end - 1));
                    end = end - 1;
                }
                if end > 0 {
                    let mut one: Vec<&'a Message> = Vec::new();
                    one.push(&request.messages[end - 1]);
                    assert(all.take(end as int).last() == all[end - 1]);
                    assert(referenced(one@) =~= seq![all[end - 1]]);
                    return one;
                }
            }
        }
        let mut out: Vec<&'a Message> = Vec::new();
        let mut i: usize = first;
        while i < n
            invariant
                n == request.messages@.len(),
                all == request.messages@,
                first <= i <= n,
                out@.len() == i - first,
                forall|k: int| 0 <= k < i - first ==> *(#[trigger] out@[k]) == all[first + k],
            decreases n - i,
        {
            out.push(&request.messages[i]);
            i = i + 1;
        }
        assert(referenced(out@) =~= all.skip(first as int));
        assert(all.skip(0) =~= all);
        out
    }

    /// The prompt of a turn.
    pub fn build_prompt(messages: &[&Message], system: Option<&str>) -> (r: String)
        ensures
            r@ == prompt_text(referenced(messages@), str_option(system)),
    {
        let mut parts: Vec<String> = Vec::new();
        if let Some(sys) = system {
            if !no_text(trim(sys)) {
                parts.push(concat2("[System]\n", sys));
            }
        }
        let ghost head = system_paragraph(str_option(system));
        assert(string_texts(parts@) =~= head);
        let ghost all = referenced(messages@);
        let n: usize = messages.len();
        let mut i: usize = 0;
        assert(all.take(0) =~= Seq::<Message>::empty());
        assert(string_texts(parts@) =~= head + paragraphs(all.take(0)));
        while i < n
            invariant
                n == messages@.len(),
                i <= n,
                all == referenced(messages@),
                string_texts(parts@) == head + paragraphs(all.take(i as int)),
            decreases n - i,
        {
            let msg: &Message = messages[i];
            assert(all.take(i + 1).drop_last() =~= all.take(i as int));
            assert(all.take(i + 1).last() == *msg);
            let label: &str = match msg.role {
                Role::User => "User",
                Role::Assistant => "Assistant",
                Role::System => "System",
            };
            let rendered: String = Self::render_content(&msg.content);
            if !no_text(rendered.as_str()) {
                let ghost before = parts@;
                let heading: String = concat3("[", label, "]\n");
                let part: String = concat2(heading.as_str(), rendered.as_str());
                parts.push(part);
                assert(string_texts(parts@) =~= string_texts(before).push(part@));
                assert(string_texts(parts@) =~= head + paragraphs(all.take(i + 1)));
            }
            i = i + 1;
        }
        assert(all.take(n as int) =~= all);
        join(&parts, "\n\n")
    }

    /// How the content of a message is worded.
    pub fn render_content(content: &MessageContent) -> (r: String)
        ensures
            r@ == rendered(*content),
    {
        let blocks: &Vec<ContentBlock> = match content {
            MessageContent::Text(s) => return s.as_str().to_owned(),
            MessageContent::Blocks(blocks) => blocks,
        };
        let mut parts: Vec<String> = Vec::new();
        let n: usize = blocks.len();
        let mut i: usize = 0;
        assert(string_texts(parts@) =~= words_of(blocks@.take(0)));
        while i < n
            invariant
                n == blocks@.len(),
                i <= n,
                string_texts(parts@) == words_of(blocks@.take(i as int)),
            decreases n - i,
        {
            assert(blocks@.take(i + 1).drop_last() =~= blocks@.take(i as int));
            if let Some(words) = render_block(&blocks[i]) {
                let ghost before = parts@;
                parts.push(words);
                assert(string_texts(parts@) =~= string_texts(before).push(words@));
            }
            i = i + 1;
        }
        assert(blocks@.take(n as int) =~= blocks@);
        join(&parts, "\n")
    }
}

/// How the use of a tool is worded, by the JSON text of its input.
pub fn tool_use_words(name: &str, input: &str) -> (r: String)
    ensures
        r@ == tool_use_text(name@, input@),
{
    let mut s: String = concat3("[tool use: ", name, "]\n");
    s.append(input);
    s
}

/// How a block is worded.
fn render_block(b: &ContentBlock) -> (r: Option<String>)
    ensures
        option_text(r) == block_words(*b),
{
    match b {
        ContentBlock::Text { text, .. } => if no_text(text.as_str()) {
            None
        } else {
            Some(text.as_str().to_owned())
        },
        ContentBlock::Image { media_type, data } => {
            let size: String = u64_text(kilobytes(data.as_str()) as u64);
            let mut s: String = concat3("[attachment: ", media_type.as_str(), " image, ~");
            s.append(size.as_str());
            s.append(" KB - not viewable on this provider]");
            Some(s)
        },
        ContentBlock::ToolResult { tool_name, content, is_error, .. } => {
            let mut s: String = concat2("[tool result: ", tool_name.as_str());
            s.append(
                if *is_error {
                    " error"
                } else {
                    ""
                },
            );
            s.append("]\n");
            s.append(content.as_str());
            Some(s)
        },
        ContentBlock::ToolUse { name, input, .. } => {
            let text: String = json_to_string(input);
            Some(tool_use_words(name.as_str(), text.as_str()))
        },
        _ => None,
    }
}

/// The size of base64 data in KB.
fn kilobytes(data: &str) -> (r: usize)
    ensures
        r == approx_kb(data@),
{
    let n: usize = data.as_bytes().len();
    let tripled: usize = if n > usize::MAX / 3 {
        assert(n * 3 > usize::MAX);
        usize::MAX
    } else {
        n * 3
    };
    tripled / 4 / 1024
}

} // verus!
