//! The items of a thread's history, and the part of a recorded rollout that is
//! in effect.

use crate::fragments::{ContentItemKind, SpineUserAnchor};
use crate::spawn::copy_text;
use crate::text::same_text;
use vstd::prelude::*;

verus! {

use crate::fragments::anchor_text;
use crate::shapes::text_view;
use crate::spawn_tasks::lines;

/// A piece of a message. A text that was made here says what kind of content it
/// is; of any other piece the host keeps that.
#[derive(Debug, PartialEq, Eq)]
pub enum ContentItem {
    InputText { text: String, kind: Option<ContentItemKind> },
    OutputText { text: String },
    InputImage { image_url: String },
    InputAudio { audio_url: String },
}

/// The model of a [`ContentItem`].
pub ghost enum ContentModel {
    InputText { text: Seq<char>, kind: Option<ContentItemKind> },
    OutputText { text: Seq<char> },
    InputImage { image_url: Seq<char> },
    InputAudio { audio_url: Seq<char> },
}

impl View for ContentItem {
    type V = ContentModel;

    open spec fn view(&self) -> ContentModel {
        match *self {
            ContentItem::InputText { text, kind } => ContentModel::InputText { text: text@, kind },
            ContentItem::OutputText { text } => ContentModel::OutputText { text: text@ },
            ContentItem::InputImage { image_url } => ContentModel::InputImage {
                image_url: image_url@,
            },
            ContentItem::InputAudio { audio_url } => ContentModel::InputAudio {
                audio_url: audio_url@,
            },
        }
    }
}

impl ContentItem {
    /// A copy of the piece.
    pub fn copy(&self) -> (r: ContentItem)
        ensures
            r@ == self@,
    {
        match self {
            ContentItem::InputText { text, kind } => ContentItem::InputText {
                text: text.clone(),
                kind: *kind,
            },
            ContentItem::OutputText { text } => ContentItem::OutputText { text: text.clone() },
            ContentItem::InputImage { image_url } => ContentItem::InputImage {
                image_url: image_url.clone(),
            },
            ContentItem::InputAudio { audio_url } => ContentItem::InputAudio {
                audio_url: audio_url.clone(),
            },
        }
    }
}

pub open spec fn content_models(content: Seq<ContentItem>) -> Seq<ContentModel> {
    content.map_values(|c: ContentItem| c@)
}

/// What an item of the history is.
#[allow(inconsistent_fields)]
#[derive(Debug, PartialEq, Eq)]
pub enum HistoryBody {
    Message { role: String, content: Vec<ContentItem> },
    Reasoning { content: Option<Vec<String>> },
    /// The output of a function call, with the whole item encoded.
    FunctionCallOutput { call_id: Option<String>, encoded: String },
    /// The output of a custom tool call, with the whole item encoded.
    CustomToolCallOutput { call_id: String, encoded: String },
    /// Any other item, encoded.
    Other { encoded: String },
}

/// The model of a [`HistoryBody`].
#[verifier::ext_equal]
#[allow(inconsistent_fields)]
pub ghost enum HistoryBodyModel {
    Message { role: Seq<char>, content: Seq<ContentModel> },
    Reasoning { content: Option<Seq<Seq<char>>> },
    FunctionCallOutput { call_id: Option<Seq<char>>, encoded: Seq<char> },
    CustomToolCallOutput { call_id: Seq<char>, encoded: Seq<char> },
    Other { encoded: Seq<char> },
}

/// The texts of a list.
pub open spec fn texts(list: Seq<String>) -> Seq<Seq<char>> {
    list.map_values(|s: String| s@)
}

pub open spec fn texts_view(list: Option<Vec<String>>) -> Option<Seq<Seq<char>>> {
    match list {
        Some(list) => Some(texts(list@)),
        None => None,
    }
}

impl View for HistoryBody {
    type V = HistoryBodyModel;

    open spec fn view(&self) -> HistoryBodyModel {
        match *self {
            HistoryBody::Message { role, content } => HistoryBodyModel::Message {
                role: role@,
                content: content_models(content@),
            },
            HistoryBody::Reasoning { content } => HistoryBodyModel::Reasoning {
                content: texts_view(content),
            },
            HistoryBody::FunctionCallOutput { call_id, encoded } => {
                HistoryBodyModel::FunctionCallOutput {
                    call_id: text_view(call_id),
                    encoded: encoded@,
                }
            },
            HistoryBody::CustomToolCallOutput { call_id, encoded } => {
                HistoryBodyModel::CustomToolCallOutput { call_id: call_id@, encoded: encoded@ }
            },
            HistoryBody::Other { encoded } => HistoryBodyModel::Other { encoded: encoded@ },
        }
    }
}

/// An item of the history. `payload` names the parts of it that the host keeps;
/// an item made here has none.
#[derive(Debug, PartialEq, Eq)]
pub struct HistoryItem {
    pub id: Option<String>,
    pub payload: Option<u64>,
    pub body: HistoryBody,
}

/// The model of a [`HistoryItem`].
#[verifier::ext_equal]
pub ghost struct HistoryModel {
    pub id: Option<Seq<char>>,
    pub payload: Option<u64>,
    pub body: HistoryBodyModel,
}

impl View for HistoryItem {
    type V = HistoryModel;

    open spec fn view(&self) -> HistoryModel {
        HistoryModel { id: text_view(self.id), payload: self.payload, body: self.body@ }
    }
}

/// A copy of a list of texts.
pub fn copy_texts(list: &Vec<String>) -> (r: Vec<String>)
    ensures
        r@ == list@,
{
    let mut copies: Vec<String> = Vec::new();
    let mut i: usize = 0;
    while i < list.len()
        invariant
            i <= list@.len(),
            copies@ =~= list@.take(i as int),
        decreases list@.len() - i,
    {
        copies.push(list[i].clone());
        i = i + 1;
    }
    assert(copies@ =~= list@);
    copies
}

fn copy_content(content: &Vec<ContentItem>) -> (r: Vec<ContentItem>)
    ensures
        content_models(r@) == content_models(content@),
{
    let mut copies: Vec<ContentItem> = Vec::new();
    let mut i: usize = 0;
    while i < content.len()
        invariant
            i <= content@.len(),
            copies@.len() == i,
            forall|k: int| 0 <= k < i ==> (#[trigger] copies@[k])@ == content@[k]@,
        decreases content@.len() - i,
    {
        copies.push(content[i].copy());
        i = i + 1;
    }
    assert(content_models(copies@) =~= content_models(content@));
    copies
}

impl HistoryItem {
    /// A copy of the item.
    pub fn copy(&self) -> (r: HistoryItem)
        ensures
            r@ == self@,
    {
        let body = match &self.body {
            HistoryBody::Message { role, content } => HistoryBody::Message {
                role: role.clone(),
                content: copy_content(content),
            },
            HistoryBody::Reasoning { content: Some(content) } => HistoryBody::Reasoning {
                content: Some(copy_texts(content)),
            },
            HistoryBody::Reasoning { content: None } => HistoryBody::Reasoning { content: None },
            HistoryBody::FunctionCallOutput { call_id, encoded } => {
                HistoryBody::FunctionCallOutput {
                    call_id: copy_text(call_id),
                    encoded: encoded.clone(),
                }
            },
            HistoryBody::CustomToolCallOutput { call_id, encoded } => {
                HistoryBody::CustomToolCallOutput {
                    call_id: call_id.clone(),
                    encoded: encoded.clone(),
                }
            },
            HistoryBody::Other { encoded } => HistoryBody::Other { encoded: encoded.clone() },
        };
        HistoryItem { id: copy_text(&self.id), payload: self.payload, body }
    }
}

pub open spec fn item_models(items: Seq<HistoryItem>) -> Seq<HistoryModel> {
    items.map_values(|i: HistoryItem| i@)
}

/// A copy of a list of items.
pub fn copy_items(items: &Vec<HistoryItem>) -> (r: Vec<HistoryItem>)
    ensures
        item_models(r@) == item_models(items@),
{
    let mut copies: Vec<HistoryItem> = Vec::new();
    let mut i: usize = 0;
    while i < items.len()
        invariant
            i <= items@.len(),
            copies@.len() == i,
            forall|k: int| 0 <= k < i ==> (#[trigger] copies@[k])@ == items@[k]@,
        decreases items@.len() - i,
    {
        copies.push(items[i].copy());
        i = i + 1;
    }
    assert(item_models(copies@) =~= item_models(items@));
    copies
}

/// A message of one text, of some kind, that no host item stands behind.
pub open spec fn text_item(
    role: Seq<char>,
    text: Seq<char>,
    kind: Option<ContentItemKind>,
) -> HistoryModel {
    HistoryModel {
        id: None,
        payload: None,
        body: HistoryBodyModel::Message {
            role,
            content: seq![ContentModel::InputText { text, kind }],
        },
    }
}

/// A message of one text, of some kind.
pub fn text_message_item(role: &str, text: String, kind: Option<ContentItemKind>) -> (r:
    HistoryItem)
    ensures
        r@ == text_item(role@, text@, kind),
{
    let mut content: Vec<ContentItem> = Vec::new();
    content.push(ContentItem::InputText { text, kind });
    assert(content_models(content@) =~= seq![ContentModel::InputText { text: text@, kind }]);
    HistoryItem {
        id: None,
        payload: None,
        body: HistoryBody::Message { role: role.to_owned(), content },
    }
}

/// Who a message is from.
#[derive(Clone, Copy, Debug, PartialEq, Eq, Structural)]
pub enum MessageRole {
    User,
    ContextualUser,
    Developer,
    System,
    Assistant,
}

/// The name of a role in a message.
pub open spec fn role_text(role: MessageRole) -> Seq<char> {
    match role {
        MessageRole::User => "user"@,
        MessageRole::ContextualUser => "user"@,
        MessageRole::Assistant => "assistant"@,
        MessageRole::Developer => "developer"@,
        MessageRole::System => "system"@,
    }
}

/// A message of one text, from the given role and of no kind.
pub fn text_message(role: MessageRole, text: String) -> (r: HistoryItem)
    ensures
        r@ == text_item(role_text(role), text@, None),
{
    let name = match role {
        MessageRole::User => "user",
        MessageRole::ContextualUser => "user",
        MessageRole::Assistant => "assistant",
        MessageRole::Developer => "developer",
        MessageRole::System => "system",
    };
    text_message_item(name, text, None)
}

/// A message at a place in the source.
#[derive(Debug, PartialEq, Eq)]
pub struct Message {
    pub boundary: u64,
    pub role: MessageRole,
    pub content: String,
}

/// The text that stands for a piece of a message.
pub open spec fn content_text_of(content: ContentModel) -> Seq<char> {
    match content {
        ContentModel::InputText { text, .. } => text,
        ContentModel::OutputText { text } => text,
        ContentModel::InputImage { .. } => "<image>"@,
        ContentModel::InputAudio { .. } => "<audio>"@,
    }
}

fn content_text(content: &ContentItem) -> (r: String)
    ensures
        r@ == content_text_of(content@),
{
    match content {
        ContentItem::InputText { text, .. } => text.clone(),
        ContentItem::OutputText { text } => text.clone(),
        ContentItem::InputImage { .. } => "<image>".to_owned(),
        ContentItem::InputAudio { .. } => "<audio>".to_owned(),
    }
}

/// The texts that stand for the pieces of a message.
pub open spec fn content_texts(content: Seq<ContentModel>) -> Seq<Seq<char>> {
    content.map_values(|c: ContentModel| content_text_of(c))
}

/// Who an item is from. `contextual` says whether the host takes the content of
/// a message as context rather than as something that was said.
pub open spec fn item_role(item: HistoryModel, contextual: bool) -> MessageRole {
    match item.body {
        HistoryBodyModel::Message { role, .. } => if role == "user"@ {
            if contextual {
                MessageRole::ContextualUser
            } else {
                MessageRole::User
            }
        } else if role == "developer"@ {
            MessageRole::Developer
        } else if role == "system"@ {
            MessageRole::System
        } else {
            MessageRole::Assistant
        },
        _ => MessageRole::Assistant,
    }
}

/// What an item says: the texts of a message, line below line; nothing for
/// reasoning; the encoded item for anything else.
pub open spec fn item_text(item: HistoryModel) -> Seq<char> {
    match item.body {
        HistoryBodyModel::Message { content, .. } => lines(content_texts(content)),
        HistoryBodyModel::Reasoning { .. } => Seq::empty(),
        HistoryBodyModel::FunctionCallOutput { encoded, .. } => encoded,
        HistoryBodyModel::CustomToolCallOutput { encoded, .. } => encoded,
        HistoryBodyModel::Other { encoded } => encoded,
    }
}

fn joined(content: &Vec<ContentItem>) -> (r: String)
    ensures
        r@ == lines(content_texts(content_models(content@))),
{
    let ghost parts = content_texts(content_models(content@));
    let mut text = String::new();
    let mut i: usize = 0;
    assert(parts.take(0) =~= Seq::empty());
    assert(text@ =~= lines(parts.take(0)));
    while i < content.len()
        invariant
            i <= content@.len(),
            parts == content_texts(content_models(content@)),
            text@ == lines(parts.take(i as int)),
        decreases content@.len() - i,
    {
        proof {
            let upto = parts.take(i + 1);
            assert(upto.drop_last() =~= parts.take(i as int));
            assert(upto.last() == content_text_of(content@[i as int]@));
        }
        if i > 0 {
            text.append("\n");
        }
        text.append(content_text(&content[i]).as_str());
        proof {
            if i == 0 {
                assert(text@ =~= parts.take(1)[0]);
            }
        }
        i = i + 1;
    }
    assert(parts.take(i as int) =~= parts);
    text
}

/// The message that an item is.
pub fn message_from_response_item(raw_index: u64, item: &HistoryItem, contextual: bool) -> (r:
    Message)
    ensures
        r.boundary == raw_index,
        r.role == item_role(item@, contextual),
        r.content@ == item_text(item@),
{
    let (role, content) = match &item.body {
        HistoryBody::Message { role, content } => {
            let who = if same_text(role.as_str(), "user") {
                if contextual {
                    MessageRole::ContextualUser
                } else {
                    MessageRole::User
                }
            } else if same_text(role.as_str(), "developer") {
                MessageRole::Developer
            } else if same_text(role.as_str(), "system") {
                MessageRole::System
            } else {
                MessageRole::Assistant
            };
            (who, joined(content))
        },
        HistoryBody::Reasoning { .. } => (MessageRole::Assistant, String::new()),
        HistoryBody::FunctionCallOutput { encoded, .. } => {
            (MessageRole::Assistant, encoded.clone())
        },
        HistoryBody::CustomToolCallOutput { encoded, .. } => {
            (MessageRole::Assistant, encoded.clone())
        },
        HistoryBody::Other { encoded } => (MessageRole::Assistant, encoded.clone()),
    };
    Message { boundary: raw_index, role, content }
}

/// A character of the source: a message, or something opaque.
#[derive(Debug, PartialEq, Eq)]
pub enum SpineChar {
    Message(Message),
    Opaque { boundary: u64 },
}

/// The model of a [`SpineChar`].
pub ghost enum CharModel {
    Message { boundary: u64, role: MessageRole, content: Seq<char> },
    Opaque { boundary: u64 },
}

impl View for SpineChar {
    type V = CharModel;

    open spec fn view(&self) -> CharModel {
        match *self {
            SpineChar::Message(message) => CharModel::Message {
                boundary: message.boundary,
                role: message.role,
                content: message.content@,
            },
            SpineChar::Opaque { boundary } => CharModel::Opaque { boundary },
        }
    }
}

/// The source character of an item: messages and reasoning are read, anything
/// else is opaque.
pub open spec fn item_char(item: HistoryModel, contextual: bool, boundary: u64) -> CharModel {
    match item.body {
        HistoryBodyModel::Message { .. } | HistoryBodyModel::Reasoning { .. } => {
            CharModel::Message {
                boundary,
                role: item_role(item, contextual),
                content: item_text(item),
            }
        },
        _ => CharModel::Opaque { boundary },
    }
}

/// The item as it is sent: reasoning without content has an empty content.
pub open spec fn item_source(item: HistoryModel) -> HistoryModel {
    match item.body {
        HistoryBodyModel::Reasoning { content: None } => HistoryModel {
            body: HistoryBodyModel::Reasoning { content: Some(Seq::empty()) },
            ..item
        },
        _ => item,
    }
}

pub fn response_item_to_char_and_source(item: &HistoryItem, contextual: bool, boundary: u64) -> (r:
    (SpineChar, HistoryItem))
    ensures
        r.0@ == item_char(item@, contextual, boundary),
        r.1@ == item_source(item@),
{
    let mut source = item.copy();
    if let HistoryBody::Reasoning { content: None } = &item.body {
        let empty: Vec<String> = Vec::new();
        assert(texts(empty@) =~= Seq::empty());
        source.body = HistoryBody::Reasoning { content: Some(empty) };
    }
    let character = match &item.body {
        HistoryBody::Message { .. } => SpineChar::Message(
            message_from_response_item(boundary, item, contextual),
        ),
        HistoryBody::Reasoning { .. } => SpineChar::Message(
            message_from_response_item(boundary, item, contextual),
        ),
        _ => SpineChar::Opaque { boundary },
    };
    (character, source)
}

/// Whether two items are one and the same to the host: by identity where both
/// have one, else by the call that they answer.
pub open spec fn same_identity(left: HistoryModel, right: HistoryModel) -> bool {
    if left.id is Some && right.id is Some {
        left.id == right.id
    } else {
        match (left.body, right.body) {
            (
                HistoryBodyModel::FunctionCallOutput { call_id: Some(a), .. },
                HistoryBodyModel::FunctionCallOutput { call_id: Some(b), .. },
            ) => a == b,
            (
                HistoryBodyModel::CustomToolCallOutput { call_id: a, .. },
                HistoryBodyModel::CustomToolCallOutput { call_id: b, .. },
            ) => a == b,
            _ => false,
        }
    }
}

pub fn same_projected_identity(left: &HistoryItem, right: &HistoryItem) -> (r: bool)
    ensures
        r == same_identity(left@, right@),
{
    if let Some(left_id) = &left.id {
        if let Some(right_id) = &right.id {
            return same_text(left_id.as_str(), right_id.as_str());
        }
    }
    match (&left.body, &right.body) {
        (
            HistoryBody::FunctionCallOutput { call_id: Some(a), .. },
            HistoryBody::FunctionCallOutput { call_id: Some(b), .. },
        ) => same_text(a.as_str(), b.as_str()),
        (
            HistoryBody::CustomToolCallOutput { call_id: a, .. },
            HistoryBody::CustomToolCallOutput { call_id: b, .. },
        ) => same_text(a.as_str(), b.as_str()),
        _ => false,
    }
}

/// The first item of the history that is the source item; the source item
/// itself where there is none.
pub open spec fn canonical_item(history: Seq<HistoryModel>, source: HistoryModel) -> HistoryModel
    decreases history.len(),
{
    if history.len() == 0 {
        source
    } else if same_identity(history[0], source) {
        history[0]
    } else {
        canonical_item(history.skip(1), source)
    }
}

pub fn canonical_projected_item(history: &Vec<HistoryItem>, source: &HistoryItem) -> (r:
    HistoryItem)
    ensures
        r@ == canonical_item(item_models(history@), source@),
{
    let ghost models = item_models(history@);
    let mut i: usize = 0;
    assert(models.skip(0) =~= models);
    while i < history.len()
        invariant
            i <= history@.len(),
            models == item_models(history@),
            canonical_item(models, source@) == canonical_item(models.skip(i as int), source@),
        decreases history@.len() - i,
    {
        assert(models.skip(i as int)[0] == history@[i as int]@);
        assert(models.skip(i as int).skip(1) =~= models.skip(i + 1));
        if same_projected_identity(&history[i], source) {
            return history[i].copy();
        }
        i = i + 1;
    }
    source.copy()
}

/// Where a message has its first text that was sent in.
pub open spec fn first_input(content: Seq<ContentModel>) -> Option<int>
    decreases content.len(),
{
    if content.len() == 0 {
        None
    } else {
        match first_input(content.drop_last()) {
            Some(at) => Some(at),
            None => if content.last() is InputText {
                Some(content.len() - 1)
            } else {
                None
            },
        }
    }
}

/// A user message with an anchor before its first text, or as a first piece of
/// its own kind where it has no text; any other item as it is.
pub open spec fn anchored(item: HistoryModel, anchor: u64) -> HistoryModel {
    match item.body {
        HistoryBodyModel::Message { role, content } => if role == "user"@ {
            let marked = match first_input(content) {
                Some(at) => content.update(
                    at,
                    ContentModel::InputText {
                        text: anchor_text(anchor) + content[at]->InputText_text,
                        kind: content[at]->kind,
                    },
                ),
                None => seq![
                    ContentModel::InputText {
                        text: anchor_text(anchor),
                        kind: Some(ContentItemKind::UserAnchor),
                    },
                ] + content,
            };
            HistoryModel { body: HistoryBodyModel::Message { role, content: marked }, ..item }
        } else {
            item
        },
        _ => item,
    }
}

/// The item with the anchor before it.
fn prepend_anchor(anchor: u64, item: HistoryItem) -> (r: HistoryItem)
    ensures
        r@ == anchored(item@, anchor),
{
    let HistoryItem { id, payload, body } = item;
    match body {
        HistoryBody::Message { role, content } => {
            if !same_text(role.as_str(), "user") {
                return HistoryItem {
                    id,
                    payload,
                    body: HistoryBody::Message { role, content },
                };
            }
            let ghost models = content_models(content@);
            let mut content = content;
            let mut marked = SpineUserAnchor::new(anchor).render();
            let mut kind = Some(SpineUserAnchor::new(anchor).content_kind());
            let mut found: Option<usize> = None;
            let mut i: usize = 0;
            assert(models.take(0) =~= Seq::empty());
            while i < content.len() && found.is_none()
                invariant
                    i <= content@.len(),
                    models == content_models(content@),
                    match found {
                        None => first_input(models.take(i as int)) is None,
                        Some(at) => {
                            &&& at < models.len()
                            &&& models[at as int] is InputText
                            &&& i == at + 1
                            &&& first_input(models.take(i as int)) == Some(at as int)
                        },
                    },
                decreases content@.len() - i,
            {
                proof {
                    let upto = models.take(i + 1);
                    assert(upto.drop_last() =~= models.take(i as int));
                    assert(upto.last() == content@[i as int]@);
                }
                if let ContentItem::InputText { .. } = &content[i] {
                    found = Some(i);
                }
                i = i + 1;
            }
            match found {
                Some(at) => {
                    proof {
                        lemma_first_input_prefix(models, i as int);
                    }
                    if let ContentItem::InputText { text, kind: own } = &content[at] {
                        marked.append(text.as_str());
                        kind = *own;
                    }
                    content.set(at, ContentItem::InputText { text: marked, kind });
                    assert(content_models(content@) =~= models.update(
                        at as int,
                        ContentModel::InputText {
                            text: anchor_text(anchor) + models[at as int]->InputText_text,
                            kind: models[at as int]->kind,
                        },
                    ));
                },
                None => {
                    assert(models.take(i as int) =~= models);
                    content.insert(0, ContentItem::InputText { text: marked, kind });
                    assert(content_models(content@) =~= seq![
                        ContentModel::InputText {
                            text: anchor_text(anchor),
                            kind: Some(ContentItemKind::UserAnchor),
                        },
                    ] + models);
                },
            }
            HistoryItem { id, payload, body: HistoryBody::Message { role, content } }
        },
        other => HistoryItem { id, payload, body: other },
    }
}

impl SpineUserAnchor {
    /// Puts the anchor before an item.
    pub fn prepend_to(self, item: &mut HistoryItem)
        ensures
            final(item)@ == anchored(old(item)@, self.anchor),
    {
        let mut taken = HistoryItem {
            id: None,
            payload: None,
            body: HistoryBody::Other { encoded: String::new() },
        };
        std::mem::swap(item, &mut taken);
        *item = prepend_anchor(self.anchor, taken);
    }
}

/// Where the first text is does not depend on what follows it.
proof fn lemma_first_input_prefix(content: Seq<ContentModel>, n: int)
    requires
        0 <= n <= content.len(),
        first_input(content.take(n)) is Some,
    ensures
        first_input(content) == first_input(content.take(n)),
    decreases content.len() - n,
{
    if n == content.len() {
        assert(content.take(n) =~= content);
    } else {
        assert(content.take(n + 1).drop_last() =~= content.take(n));
        lemma_first_input_prefix(content, n + 1);
    }
}

} // verus!
