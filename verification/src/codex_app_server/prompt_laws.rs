//! What holds of the texts that are sent to the app-server, stated on messages
//! and names themselves.

use vstd::prelude::*;
use vstd::utf8::encode_utf8;

use crate::decimal::decimal_text;
use crate::llm::ContentBlock;
use crate::llm::Message;
use crate::llm::MessageContent;
use crate::llm::Role;
use crate::text::join_text;
use crate::text_laws::blank;
use crate::text_laws::law_join_concatenates;
use crate::text_laws::law_trim_takes_outer_white_space;
use crate::text_laws::law_trimmed_text_is_firm;
use crate::trusted::json_text;
use super::prompt::block_words;
use super::prompt::conversation_of;
use super::prompt::flag_of;
use super::prompt::last_user;
use super::prompt::paragraphs;
use super::prompt::prompt_text;
use super::prompt::rendered;
use super::prompt::system_paragraph;
use super::prompt::to_send;
use super::prompt::unprefixed;
use super::prompt::words_of;

verus! {

/// A provider prefix is taken off once, and a model without one stays as it is;
/// no name and `default` ask for no model.
pub proof fn law_models_are_named_without_prefix(model: Seq<char>)
    ensures
        unprefixed("codex_app_server/"@ + model) == model,
        unprefixed("codex-app-server/"@ + model) == model,
        !"codex_app_server/"@.is_prefix_of(model) && !"codex-app-server/"@.is_prefix_of(model) ==> {
            &&& unprefixed(model) == model
            &&& flag_of(model) == if model.len() == 0 || model == "default"@ {
                None
            } else {
                Some(model)
            }
        },
{
    reveal_strlit("codex_app_server/");
    reveal_strlit("codex-app-server/");
    reveal_strlit("");
    assert(""@ =~= Seq::<char>::empty());
    if model.len() == 0 {
        assert(model =~= ""@);
    }
    let a = "codex_app_server/"@;
    let b = "codex-app-server/"@;
    assert((a + model).skip(a.len() as int) =~= model);
    assert((b + model).skip(b.len() as int) =~= model);
    assert(a.is_prefix_of(a + model)) by {
        assert((a + model).subrange(0, a.len() as int) =~= a);
    }
    assert(b.is_prefix_of(b + model)) by {
        assert((b + model).subrange(0, b.len() as int) =~= b);
    }
    assert(!a.is_prefix_of(b + model)) by {
        assert(a[5] == '_' && b[5] == '-');
        if a.is_prefix_of(b + model) {
            assert((b + model).subrange(0, a.len() as int)[5] == (b + model)[5]);
        }
    }
}

/// A conversation is named by its first message that is no system message, and
/// `default` where there is none.
pub proof fn law_conversation_is_named_by_its_first_speaker(
    system: Seq<Message>,
    first: Message,
    rest: Seq<Message>,
)
    requires
        forall|i: int| 0 <= i < system.len() ==> (#[trigger] system[i]).role == Role::System,
        first.role != Role::System,
    ensures
        conversation_of(system + seq![first] + rest) == first.msg_id@,
        conversation_of(system) == "default"@,
    decreases system.len(),
{
    let all = system + seq![first] + rest;
    if system.len() == 0 {
        assert(all[0] == first);
    } else {
        assert(all[0] == system[0]);
        assert(all.skip(1) =~= system.skip(1) + seq![first] + rest);
        assert forall|i: int| 0 <= i < system.skip(1).len() implies (
        #[trigger] system.skip(1)[i]).role == Role::System by {
            assert(system[i + 1].role == Role::System);
        }
        law_conversation_is_named_by_its_first_speaker(system.skip(1), first, rest);
    }
}

proof fn lemma_last_user(before: Seq<Message>, user: Message, later: Seq<Message>)
    requires
        user.role == Role::User,
        forall|i: int| 0 <= i < later.len() ==> (#[trigger] later[i]).role != Role::User,
    ensures
        last_user(before + seq![user] + later) == before.len(),
    decreases later.len(),
{
    let all = before + seq![user] + later;
    if later.len() > 0 {
        assert(later[later.len() - 1].role != Role::User);
        assert(all.last() == later[later.len() - 1]);
        assert(all.drop_last() =~= before + seq![user] + later.drop_last());
        assert forall|i: int| 0 <= i < later.drop_last().len() implies (
        #[trigger] later.drop_last()[i]).role != Role::User by {
            assert(later[i].role != Role::User);
        }
        lemma_last_user(before, user, later.drop_last());
    } else {
        assert(all.last() == user);
    }
}

proof fn lemma_no_user(all: Seq<Message>)
    requires
        forall|i: int| 0 <= i < all.len() ==> (#[trigger] all[i]).role != Role::User,
    ensures
        last_user(all) == -1,
    decreases all.len(),
{
    if all.len() > 0 {
        assert(all[all.len() - 1].role != Role::User);
        assert forall|i: int| 0 <= i < all.drop_last().len() implies (
        #[trigger] all.drop_last()[i]).role != Role::User by {
            assert(all[i].role != Role::User);
        }
        lemma_no_user(all.drop_last());
    }
}

/// A thread that is new gets every message; one that has got some gets those
/// behind them.
pub proof fn law_new_messages_are_sent(seen: Seq<Message>, new: Seq<Message>, count: usize)
    ensures
        to_send(seen + new, None) == seen + new,
        count == seen.len() && new.len() > 0 ==> to_send(seen + new, Some(count)) == new,
{
    assert((seen + new).skip(seen.len() as int) =~= new);
}

/// Where a thread has got as many messages as there are, or more, the last message
/// of the user is sent again; without one, all are.
pub proof fn law_last_user_message_is_sent_again(
    before: Seq<Message>,
    user: Message,
    later: Seq<Message>,
    count: usize,
)
    requires
        user.role == Role::User,
        forall|i: int| 0 <= i < later.len() ==> (#[trigger] later[i]).role != Role::User,
    ensures
        count >= before.len() + 1 + later.len() ==> to_send(
            before + seq![user] + later,
            Some(count),
        ) == seq![user],
        count >= later.len() ==> to_send(later, Some(count)) == later,
{
    lemma_last_user(before, user, later);
    lemma_no_user(later);
}

proof fn lemma_words_concatenate(a: Seq<ContentBlock>, b: Seq<ContentBlock>)
    ensures
        words_of(a + b) == words_of(a) + words_of(b),
    decreases b.len(),
{
    if b.len() == 0 {
        assert(a + b =~= a);
        assert(words_of(a) + words_of(b) =~= words_of(a));
    } else {
        assert((a + b).drop_last() =~= a + b.drop_last());
        assert((a + b).last() == b.last());
        lemma_words_concatenate(a, b.drop_last());
        assert(words_of(a + b) =~= words_of(a) + words_of(b));
    }
}

proof fn lemma_words_are_not_empty(blocks: Seq<ContentBlock>)
    ensures
        forall|i: int| 0 <= i < words_of(blocks).len() ==> (#[trigger] words_of(blocks)[i]).len() > 0,
    decreases blocks.len(),
{
    if blocks.len() > 0 {
        reveal_strlit("[attachment: ");
        reveal_strlit("[tool result: ");
        reveal_strlit("[tool use: ");
        lemma_words_are_not_empty(blocks.drop_last());
        assert forall|i: int| 0 <= i < words_of(blocks).len() implies (
        #[trigger] words_of(blocks)[i]).len() > 0 by {
            if i < words_of(blocks.drop_last()).len() {
                assert(words_of(blocks)[i] == words_of(blocks.drop_last())[i]);
            }
        }
    }
}

proof fn lemma_joined_words(words: Seq<Seq<char>>)
    requires
        forall|i: int| 0 <= i < words.len() ==> (#[trigger] words[i]).len() > 0,
    ensures
        join_text(words, "\n"@).len() == 0 <==> words.len() == 0,
{
    if words.len() > 0 {
        assert(words[words.len() - 1].len() > 0);
        if words.len() > 1 {
            law_join_concatenates(words.drop_last(), seq![words.last()], "\n"@);
            law_join_concatenates(seq![words.last()], seq![], "\n"@);
            assert(words =~= words.drop_last() + seq![words.last()]);
        }
    }
}

/// Plain content is its text, and the blocks of two parts read as the first part,
/// a line break and the second, unless one of the two says nothing.
pub proof fn law_content_reads_part_by_part(
    text: String,
    whole: Vec<ContentBlock>,
    front: Vec<ContentBlock>,
    back: Vec<ContentBlock>,
)
    ensures
        rendered(MessageContent::Text(text)) == text@,
        whole@.len() == 0 ==> rendered(MessageContent::Blocks(whole)) == Seq::<char>::empty(),
        whole@ == front@ + back@ ==> rendered(MessageContent::Blocks(whole)) == {
            let a = rendered(MessageContent::Blocks(front));
            let b = rendered(MessageContent::Blocks(back));
            if a.len() == 0 {
                b
            } else if b.len() == 0 {
                a
            } else {
                a + seq!['\n'] + b
            }
        },
{
    reveal_strlit("\n");
    assert("\n"@ =~= seq!['\n']);
    if whole@ == front@ + back@ {
        let a = words_of(front@);
        let b = words_of(back@);
        lemma_words_concatenate(front@, back@);
        lemma_words_are_not_empty(front@);
        lemma_words_are_not_empty(back@);
        lemma_joined_words(a);
        lemma_joined_words(b);
        law_join_concatenates(a, b, "\n"@);
        if a.len() == 0 {
            assert(a + b =~= b);
        }
        if b.len() == 0 {
            assert(a + b =~= a);
        }
    }
}

/// How each kind of block reads on its own. Thinking says nothing.
pub proof fn law_block_reads_as_its_kind(one: Vec<ContentBlock>, b: ContentBlock)
    requires
        one@ == seq![b],
    ensures
        b matches ContentBlock::Text { text, .. } ==> rendered(MessageContent::Blocks(one))
            == text@,
        b matches ContentBlock::Image { media_type, data } ==> ({
            let bytes = encode_utf8(data@).len();
            let tripled = if bytes * 3 <= usize::MAX {
                bytes * 3
            } else {
                usize::MAX as nat
            };
            rendered(MessageContent::Blocks(one)) == "[attachment: "@ + media_type@ + " image, ~"@
                + decimal_text((tripled / 4096) as int) + " KB - not viewable on this provider]"@
        }),
        b matches ContentBlock::ToolResult { tool_name, content, is_error: true, .. } ==> rendered(
            MessageContent::Blocks(one),
        ) == "[tool result: "@ + tool_name@ + " error]\n"@ + content@,
        b matches ContentBlock::ToolResult { tool_name, content, is_error: false, .. } ==> rendered(
            MessageContent::Blocks(one),
        ) == "[tool result: "@ + tool_name@ + "]\n"@ + content@,
        b matches ContentBlock::ToolUse { name, input, .. } ==> rendered(
            MessageContent::Blocks(one),
        ) == "[tool use: "@ + name@ + "]\n"@ + json_text(input@),
        b is Thinking || b is RedactedThinking || b is Unknown ==> rendered(
            MessageContent::Blocks(one),
        ) == Seq::<char>::empty(),
{
    reveal_strlit(" error");
    reveal_strlit("");
    reveal_strlit("]\n");
    reveal_strlit(" error]\n");
    assert(forall|n: int| n >= 0 ==> #[trigger] (n / 4) / 1024 == n / 4096);
    assert(one@.drop_last() =~= Seq::<ContentBlock>::empty());
    assert(one@.last() == b);
    reveal_with_fuel(words_of, 2);
    if let Some(words) = block_words(b) {
        assert(words_of(one@) =~= seq![words]);
        law_join_concatenates(seq![words], seq![], "\n"@);
    } else {
        assert(words_of(one@) =~= seq![]);
    }
    if let ContentBlock::ToolResult { tool_name, content, is_error, .. } = b {
        assert(tool_name@ + ""@ =~= tool_name@);
        assert(" error"@ + "]\n"@ =~= " error]\n"@);
        assert("[tool result: "@ + tool_name@ + " error"@ + "]\n"@ + content@ =~= "[tool result: "@
            + tool_name@ + " error]\n"@ + content@);
        assert("[tool result: "@ + tool_name@ + ""@ + "]\n"@ + content@ =~= "[tool result: "@
            + tool_name@ + "]\n"@ + content@);
    }
    if let ContentBlock::Text { text, .. } = b {
        if text@.len() == 0 {
            assert(text@ =~= Seq::<char>::empty());
        }
    }
}

/// The heading of a message of each role.
pub open spec fn heading(role: Role) -> Seq<char> {
    match role {
        Role::System => "[System]\n"@,
        Role::User => "[User]\n"@,
        Role::Assistant => "[Assistant]\n"@,
    }
}

proof fn lemma_headed(m: Message)
    ensures
        "["@ + super::prompt::role_label(m.role) + "]\n"@ + rendered(m.content) == heading(m.role)
            + rendered(m.content),
{
    reveal_strlit("[");
    reveal_strlit("]\n");
    reveal_strlit("User");
    reveal_strlit("Assistant");
    reveal_strlit("System");
    reveal_strlit("[User]\n");
    reveal_strlit("[Assistant]\n");
    reveal_strlit("[System]\n");
    assert("["@ + super::prompt::role_label(m.role) + "]\n"@ =~= heading(m.role));
}

proof fn lemma_paragraph_per_message(messages: Seq<Message>, shown: Seq<Seq<char>>)
    requires
        shown.len() == messages.len(),
        forall|i: int|
            0 <= i < messages.len() ==> rendered((#[trigger] messages[i]).content).len() > 0,
        forall|i: int|
            0 <= i < messages.len() ==> #[trigger] shown[i] == heading(messages[i].role) + rendered(
                messages[i].content,
            ),
    ensures
        paragraphs(messages) == shown,
    decreases messages.len(),
{
    if messages.len() > 0 {
        let front = messages.drop_last();
        assert forall|i: int| 0 <= i < front.len() implies rendered(
            (#[trigger] front[i]).content,
        ).len() > 0 by {
            assert(rendered(messages[i].content).len() > 0);
        }
        lemma_paragraph_per_message(front, shown.drop_last());
        let m = messages[messages.len() - 1];
        assert(rendered(m.content).len() > 0);
        lemma_headed(m);
        assert(shown[messages.len() - 1] == heading(m.role) + rendered(m.content));
        assert(paragraphs(messages) =~= shown);
    } else {
        assert(paragraphs(messages) =~= shown);
    }
}

/// Messages that all say something are shown one after another, each under the
/// name of its role, with an empty line between them, whatever form their content
/// has.
pub proof fn law_every_message_is_shown(messages: Seq<Message>, shown: Seq<Seq<char>>)
    requires
        shown.len() == messages.len(),
        forall|i: int|
            0 <= i < messages.len() ==> rendered((#[trigger] messages[i]).content).len() > 0,
        forall|i: int|
            0 <= i < messages.len() ==> #[trigger] shown[i] == heading(messages[i].role) + rendered(
                messages[i].content,
            ),
    ensures
        prompt_text(messages, None) == join_text(shown, seq!['\n', '\n']),
{
    reveal_strlit("\n\n");
    assert("\n\n"@ =~= seq!['\n', '\n']);
    lemma_paragraph_per_message(messages, shown);
    assert(Seq::<Seq<char>>::empty() + paragraphs(messages) =~= shown);
}

proof fn lemma_paragraphs_concatenate(a: Seq<Message>, b: Seq<Message>)
    ensures
        paragraphs(a + b) == paragraphs(a) + paragraphs(b),
    decreases b.len(),
{
    if b.len() == 0 {
        assert(a + b =~= a);
        assert(paragraphs(a) + paragraphs(b) =~= paragraphs(a));
    } else {
        assert((a + b).drop_last() =~= a + b.drop_last());
        assert((a + b).last() == b.last());
        lemma_paragraphs_concatenate(a, b.drop_last());
        assert(paragraphs(a + b) =~= paragraphs(a) + paragraphs(b));
    }
}

/// A message that says nothing leaves no trace in the prompt.
pub proof fn law_silent_messages_are_left_out(
    before: Seq<Message>,
    silent: Message,
    later: Seq<Message>,
    system: Option<Seq<char>>,
)
    requires
        rendered(silent.content).len() == 0,
    ensures
        prompt_text(before + seq![silent] + later, system) == prompt_text(before + later, system),
{
    lemma_paragraphs_concatenate(before + seq![silent], later);
    lemma_paragraphs_concatenate(before, seq![silent]);
    lemma_paragraphs_concatenate(before, later);
    assert(seq![silent].drop_last() =~= Seq::<Message>::empty());
    assert(seq![silent].last() == silent);
    reveal_with_fuel(paragraphs, 2);
    assert(paragraphs(seq![silent]) =~= seq![]);
    assert(paragraphs(before) + paragraphs(seq![silent]) =~= paragraphs(before));
}

proof fn lemma_paragraphs_are_not_empty(messages: Seq<Message>)
    ensures
        forall|i: int|
            0 <= i < paragraphs(messages).len() ==> (#[trigger] paragraphs(messages)[i]).len() > 0,
    decreases messages.len(),
{
    if messages.len() > 0 {
        reveal_strlit("[");
        lemma_paragraphs_are_not_empty(messages.drop_last());
        assert forall|i: int| 0 <= i < paragraphs(messages).len() implies (
        #[trigger] paragraphs(messages)[i]).len() > 0 by {
            if i < paragraphs(messages.drop_last()).len() {
                assert(paragraphs(messages)[i] == paragraphs(messages.drop_last())[i]);
            }
        }
    }
}

/// A system prompt that is more than white space stands before everything else, as
/// it is, under the heading `[System]`; a blank one, or none, adds nothing.
pub proof fn law_system_prompt_comes_first(messages: Seq<Message>, system: Seq<char>)
    ensures
        blank(system) ==> prompt_text(messages, Some(system)) == prompt_text(messages, None),
        !blank(system) ==> prompt_text(messages, Some(system)) == {
            let rest = prompt_text(messages, None);
            if rest.len() == 0 {
                "[System]\n"@ + system
            } else {
                "[System]\n"@ + system + seq!['\n', '\n'] + rest
            }
        },
{
    reveal_strlit("\n\n");
    assert("\n\n"@ =~= seq!['\n', '\n']);
    let parts = paragraphs(messages);
    assert(Seq::<Seq<char>>::empty() + parts =~= parts);
    if blank(system) {
        law_trim_takes_outer_white_space(system, seq![], seq![]);
        assert(system + Seq::<char>::empty() + Seq::<char>::empty() =~= system);
    } else {
        law_trimmed_text_is_firm(system);
        let t = crate::text::trim_text(system);
        if t.len() == 0 {
            let (x, y) = choose|before: Seq<char>, behind: Seq<char>|
                #![trigger before + t + behind]
                blank(before) && blank(behind) && system == before + t + behind;
            assert forall|i: int| 0 <= i < system.len() implies crate::text::white_space(
                #[trigger] system[i],
            ) by {
                if i < x.len() {
                    assert(system[i] == x[i]);
                } else {
                    assert(system[i] == y[i - x.len()]);
                }
            }
        }
        let first = seq!["[System]\n"@ + system];
        assert(system_paragraph(Some(system)) == first);
        law_join_concatenates(first, parts, "\n\n"@);
        law_join_concatenates(first, seq![], "\n\n"@);
        lemma_paragraphs_are_not_empty(messages);
        if parts.len() == 0 {
            assert(first + parts =~= first);
        } else {
            law_join_concatenates(parts.drop_last(), seq![parts.last()], "\n\n"@);
            law_join_concatenates(seq![parts.last()], seq![], "\n\n"@);
            assert(parts =~= parts.drop_last() + seq![parts.last()]);
            assert(parts[parts.len() - 1].len() > 0);
        }
    }
}

} // verus!
