//! What the items of the history say, and what stands for them.

use vstd::prelude::*;

verus! {

use crate::fragments::{anchor_text, ContentItemKind};
use crate::history::{
    anchored, canonical_item, content_text_of, content_texts, first_input, item_char, item_role,
    item_source, item_text, role_text, same_identity, text_item, CharModel, ContentModel,
    HistoryBodyModel, HistoryModel, MessageRole,
};

use crate::text::decimal_text;
use crate::text_laws::lines_stand_below_each_other;

/// A message is from whom its role names; one under the role of the user is
/// context where the host takes it as such. Under any other role, and where it
/// is no message, an item is from the assistant.
pub proof fn a_message_is_from_its_role(item: HistoryModel, contextual: bool)
    ensures
        match item.body {
            HistoryBodyModel::Message { role, .. } => {
                &&& role == "user"@ && !contextual ==> item_role(item, contextual)
                    == MessageRole::User
                &&& role == "user"@ && contextual ==> item_role(item, contextual)
                    == MessageRole::ContextualUser
                &&& role == "developer"@ ==> item_role(item, contextual) == MessageRole::Developer
                &&& role == "system"@ ==> item_role(item, contextual) == MessageRole::System
                &&& role != "user"@ && role != "developer"@ && role != "system"@ ==> item_role(
                    item,
                    contextual,
                ) == MessageRole::Assistant
            },
            _ => item_role(item, contextual) == MessageRole::Assistant,
        },
{
    reveal_strlit("user");
    reveal_strlit("developer");
    reveal_strlit("system");
    assert("user"@.len() == 4 && "developer"@.len() == 9 && "system"@.len() == 6);
}

/// A message says the texts of its pieces, line below line, with a mark for each
/// image and audio; reasoning says nothing.
pub proof fn a_message_says_its_texts(
    item: HistoryModel,
    role: Seq<char>,
    above: Seq<ContentModel>,
    piece: ContentModel,
)
    ensures
        item.body == (HistoryBodyModel::Message { role, content: seq![piece] }) ==> item_text(item)
            == match piece {
            ContentModel::InputText { text, .. } => text,
            ContentModel::OutputText { text } => text,
            ContentModel::InputImage { .. } => seq!['<', 'i', 'm', 'a', 'g', 'e', '>'],
            ContentModel::InputAudio { .. } => seq!['<', 'a', 'u', 'd', 'i', 'o', '>'],
        },
        item.body == (HistoryBodyModel::Message { role, content: above.push(piece) })
            && above.len() > 0 ==> item_text(item) == item_text(
            HistoryModel { body: HistoryBodyModel::Message { role, content: above }, ..item },
        ) + seq!['\n'] + item_text(
            HistoryModel { body: HistoryBodyModel::Message { role, content: seq![piece] }, ..item },
        ),
        item.body == (HistoryBodyModel::Message { role, content: Seq::empty() }) ==> item_text(
            item,
        ).len() == 0,
        item.body is Reasoning ==> item_text(item).len() == 0,
        item.body matches HistoryBodyModel::FunctionCallOutput { encoded, .. } ==> item_text(item)
            == encoded,
        item.body matches HistoryBodyModel::CustomToolCallOutput { encoded, .. } ==> item_text(item)
            == encoded,
        item.body matches HistoryBodyModel::Other { encoded } ==> item_text(item) == encoded,
{
    reveal_strlit("<image>");
    reveal_strlit("<audio>");
    assert("<image>"@ =~= seq!['<', 'i', 'm', 'a', 'g', 'e', '>']);
    assert("<audio>"@ =~= seq!['<', 'a', 'u', 'd', 'i', 'o', '>']);
    let one = content_texts(seq![piece]);
    assert(one.len() == 1 && one[0] == content_text_of(piece));
    lines_stand_below_each_other(one, Seq::empty());
    lines_stand_below_each_other(content_texts(above), one);
    assert(content_texts(above.push(piece)) =~= content_texts(above) + one);
    assert(content_texts(Seq::empty()) =~= Seq::empty());
    lines_stand_below_each_other(Seq::empty(), Seq::empty());
}

/// What a runtime reads of an item is the item's own place, who it is from and
/// what it says; of anything but messages and reasoning it sees only the place.
pub proof fn a_character_is_its_item(item: HistoryModel, contextual: bool, boundary: u64)
    ensures
        item.body is Message || item.body is Reasoning ==> (item_char(item, contextual, boundary)
            matches CharModel::Message { boundary: at, role, content } && at == boundary && role
            == item_role(item, contextual) && content == item_text(item)),
        !(item.body is Message || item.body is Reasoning) ==> (item_char(
            item,
            contextual,
            boundary,
        ) matches CharModel::Opaque { boundary: at } && at == boundary),
{
}

/// An item is sent as it is; only reasoning without content gets an empty one.
pub proof fn an_item_is_sent_as_it_is(item: HistoryModel)
    ensures
        item_source(item).id == item.id,
        item_source(item).payload == item.payload,
        !(item.body is Reasoning) ==> item_source(item) == item,
        item.body matches HistoryBodyModel::Reasoning { content } ==> (item_source(
            item,
        ).body matches HistoryBodyModel::Reasoning { content: Some(sent) } && sent == match content {
            Some(texts) => texts,
            None => Seq::empty(),
        }),
{
}

/// Identity is mutual, and an item with an identity is the same as itself. Two
/// items with identities are the same exactly where these are equal; else only
/// two outputs of one call are.
pub proof fn identity_is_mutual(left: HistoryModel, right: HistoryModel)
    ensures
        same_identity(left, right) == same_identity(right, left),
        left.id is Some ==> same_identity(left, left),
        left.id is Some && right.id is Some ==> (same_identity(left, right) <==> left.id
            == right.id),
        (left.id is None || right.id is None) && same_identity(left, right) ==> {
            ||| (left.body matches HistoryBodyModel::FunctionCallOutput { call_id: Some(a), .. }
                && (right.body matches HistoryBodyModel::FunctionCallOutput { call_id: Some(b), .. }
                && a == b))
            ||| (left.body matches HistoryBodyModel::CustomToolCallOutput { call_id: a, .. } && (
            right.body matches HistoryBodyModel::CustomToolCallOutput { call_id: b, .. } && a == b))
        },
        (left.id is None || right.id is None) && (left.body matches
            HistoryBodyModel::FunctionCallOutput { call_id: Some(a), .. } && (right.body matches
            HistoryBodyModel::FunctionCallOutput { call_id: Some(b), .. } && a == b))
            ==> same_identity(left, right),
        (left.id is None || right.id is None) && (left.body matches
            HistoryBodyModel::CustomToolCallOutput { call_id: a, .. } && (right.body matches
            HistoryBodyModel::CustomToolCallOutput { call_id: b, .. } && a == b)) ==> same_identity(
            left,
            right,
        ),
{
}

/// Where the history holds a source item, the first such item stands for it;
/// else the source item stands for itself.
pub proof fn the_history_stands_for_its_items(history: Seq<HistoryModel>, source: HistoryModel)
    ensures
        (forall|i: int| 0 <= i < history.len() ==> !same_identity(#[trigger] history[i], source))
            ==> canonical_item(history, source) == source,
        forall|i: int|
            #![trigger history[i]]
            0 <= i < history.len() && same_identity(history[i], source) && (forall|j: int|
                0 <= j < i ==> !same_identity(#[trigger] history[j], source)) ==> canonical_item(
                history,
                source,
            ) == history[i],
    decreases history.len(),
{
    if history.len() > 0 && !same_identity(history[0], source) {
        let rest = history.skip(1);
        the_history_stands_for_its_items(rest, source);
        if forall|i: int| 0 <= i < history.len() ==> !same_identity(#[trigger] history[i], source) {
            assert forall|i: int| 0 <= i < rest.len() implies !same_identity(
                #[trigger] rest[i],
                source,
            ) by {
                assert(rest[i] == history[i + 1]);
            }
        }
        assert forall|i: int|
            #![trigger history[i]]
            0 <= i < history.len() && same_identity(history[i], source) && (forall|j: int|
                0 <= j < i ==> !same_identity(
                    #[trigger] history[j],
                    source,
                )) implies canonical_item(history, source) == history[i] by {
            assert(rest[i - 1] == history[i]);
            assert forall|j: int| 0 <= j < i - 1 implies !same_identity(
                #[trigger] rest[j],
                source,
            ) by {
                assert(rest[j] == history[j + 1]);
            }
        }
    }
}

proof fn lemma_first_input(content: Seq<ContentModel>)
    ensures
        first_input(content) matches Some(at) ==> 0 <= at < content.len() && content[at] is InputText
            && forall|i: int| 0 <= i < at ==> !(#[trigger] content[i] is InputText),
        first_input(content) is None ==> forall|i: int|
            0 <= i < content.len() ==> !(#[trigger] content[i] is InputText),
    decreases content.len(),
{
    if content.len() > 0 {
        let rest = content.drop_last();
        lemma_first_input(rest);
        assert forall|i: int| 0 <= i < rest.len() implies rest[i] == #[trigger] content[i] by {}
        if let Some(at) = first_input(rest) {
            assert(content[at] == rest[at]);
        }
    }
}

/// The text of an anchor: its number between `[U` and `]`, and a line break.
pub proof fn an_anchor_is_its_number(anchor: u64)
    ensures
        anchor_text(anchor) == seq!['[', 'U'] + decimal_text(anchor as nat) + seq![']', '\n'],
{
    reveal_strlit("[U");
    reveal_strlit("]\n");
    assert("[U"@ =~= seq!['[', 'U']);
    assert("]\n"@ =~= seq![']', '\n']);
}

/// An anchor goes before the first text of a message of the user, at piece `at`,
/// and changes nothing else of the item.
pub proof fn an_anchor_marks_the_first_text(
    item: HistoryModel,
    content: Seq<ContentModel>,
    at: int,
    text: Seq<char>,
    kind: Option<ContentItemKind>,
    anchor: u64,
)
    requires
        item.body == (HistoryBodyModel::Message { role: "user"@, content }),
        0 <= at < content.len(),
        content[at] == (ContentModel::InputText { text, kind }),
        forall|i: int| 0 <= i < at ==> !(#[trigger] content[i] is InputText),
    ensures
        anchored(item, anchor).id == item.id,
        anchored(item, anchor).payload == item.payload,
        anchored(item, anchor).body matches HistoryBodyModel::Message { role, content: marked }
            && role == "user"@ && marked.len() == content.len() && marked[at] == (
        ContentModel::InputText {
            text: seq!['[', 'U'] + decimal_text(anchor as nat) + seq![']', '\n'] + text,
            kind,
        }) && forall|i: int|
            0 <= i < content.len() && i != at ==> #[trigger] marked[i] == content[i],
{
    lemma_first_input(content);
    an_anchor_is_its_number(anchor);
    if let Some(found) = first_input(content) {
        if found < at {
            assert(content[found] is InputText);
        }
        if at < found {
            assert(content[at] is InputText);
        }
    }
}

/// A message of the user without a text gets the anchor as a piece of its own,
/// before all others; what is no message of the user gets none.
pub proof fn an_anchor_without_a_text_stands_first(item: HistoryModel, anchor: u64)
    ensures
        !(item.body matches HistoryBodyModel::Message { role, .. } && role == "user"@) ==> anchored(
            item,
            anchor,
        ) == item,
        item.body matches HistoryBodyModel::Message { role, content } ==> (role == "user"@ && (
        forall|i: int| 0 <= i < content.len() ==> !(#[trigger] content[i] is InputText))
            ==> anchored(item, anchor).id == item.id && anchored(item, anchor).payload
            == item.payload && (anchored(item, anchor).body matches HistoryBodyModel::Message {
            role: same,
            content: marked,
        } && same == role && marked.len() == content.len() + 1 && marked[0] == (
        ContentModel::InputText {
            text: seq!['[', 'U'] + decimal_text(anchor as nat) + seq![']', '\n'],
            kind: Some(ContentItemKind::UserAnchor),
        }) && marked.skip(1) == content)),
{
    an_anchor_is_its_number(anchor);
    if let HistoryBodyModel::Message { role, content } = item.body {
        lemma_first_input(content);
        if role == "user"@ && (forall|i: int|
            0 <= i < content.len() ==> !(#[trigger] content[i] is InputText)) {
            let marked = anchored(item, anchor).body->Message_content;
            assert(marked.skip(1) =~= content);
        }
    }
}

/// A message that is made here is under the role that it is made for, says the
/// text that it is made of, and has no identity.
pub proof fn a_made_message_says_its_text(
    role: MessageRole,
    text: Seq<char>,
    kind: Option<ContentItemKind>,
)
    ensures
        ({
            let made = text_item(role_text(role), text, kind);
            &&& made.id is None
            &&& made.payload is None
            &&& item_text(made) == text
            &&& made.body matches HistoryBodyModel::Message { role: under, content } && content
                == seq![ContentModel::InputText { text, kind }] && under == match role {
                MessageRole::User => "user"@,
                MessageRole::ContextualUser => "user"@,
                MessageRole::Developer => "developer"@,
                MessageRole::System => "system"@,
                MessageRole::Assistant => "assistant"@,
            }
            &&& item_role(made, role is ContextualUser) == role
        }),
{
    let made = text_item(role_text(role), text, kind);
    let piece = ContentModel::InputText { text, kind };
    reveal_strlit("user");
    reveal_strlit("developer");
    reveal_strlit("system");
    reveal_strlit("assistant");
    assert("assistant"@[0] == 'a');
    assert("developer"@[0] == 'd');
    a_message_says_its_texts(made, role_text(role), Seq::empty(), piece);
    a_message_is_from_its_role(made, role is ContextualUser);
}

} // verus!
