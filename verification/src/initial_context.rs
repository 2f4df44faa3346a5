//! The context that a window begins with: which rendered sections go into which
//! message, and in what order.

use crate::text::same_text;
use vstd::prelude::*;

verus! {

use crate::shapes::text_view;
use crate::spawn_tasks::lines;
use crate::text_laws::{every_line_is_there, lines_stand_below_each_other};

/// Where an extension's fragment goes.
#[derive(Clone, Copy, Debug, PartialEq, Eq, Structural)]
pub enum PromptSlot {
    ContextWindow,
    DeveloperPolicy,
    DeveloperCapabilities,
}

/// What an extension contributes to a thread: a rendered section, by the host's
/// handle, and its text.
#[derive(Debug, PartialEq, Eq)]
pub struct ThreadFragment {
    pub slot: PromptSlot,
    pub text: String,
    pub section: u64,
}

/// A fragment of the world state.
#[derive(Debug, PartialEq, Eq)]
pub struct WorldFragment {
    pub role: String,
    /// The text that the fragment opens with.
    pub marker: String,
    pub requires_separate_message: bool,
    pub section: u64,
}

/// The texts that the special fragments open with.
#[derive(Debug, PartialEq, Eq)]
pub struct FragmentMarkers {
    pub model_switch: String,
    pub multi_agent_mode: String,
    pub managed_instructions: String,
    pub multi_agent_role: String,
}

/// What a window's context is made of.
#[derive(Debug, PartialEq, Eq)]
pub struct ContextParts {
    /// Whether the developer's instructions stand alone, as a guardian's do.
    pub guardian: bool,
    /// The section of the developer's instructions; none where they are empty.
    pub instructions: Option<u64>,
    pub recommended_plugins: Option<u64>,
    pub thread_fragments: Vec<ThreadFragment>,
    pub turn_sections: Vec<u64>,
    pub token_budget: Option<u64>,
    pub world: Vec<WorldFragment>,
}

/// The sections sorted out.
#[verifier::ext_equal]
pub ghost struct Sorted {
    pub developer: Seq<u64>,
    pub separate: Seq<u64>,
    pub user: Seq<u64>,
    pub mode: Option<u64>,
    pub managed: Option<u64>,
}

/// The sections of thread fragments that are the developer's.
pub open spec fn developer_fragments(fragments: Seq<ThreadFragment>) -> Seq<u64>
    decreases fragments.len(),
{
    if fragments.len() == 0 {
        Seq::empty()
    } else if fragments.last().slot == PromptSlot::ContextWindow {
        developer_fragments(fragments.drop_last())
    } else {
        developer_fragments(fragments.drop_last()).push(fragments.last().section)
    }
}

/// The texts of thread fragments that hint at the context window.
pub open spec fn window_hints(fragments: Seq<ThreadFragment>) -> Seq<Seq<char>>
    decreases fragments.len(),
{
    if fragments.len() == 0 {
        Seq::empty()
    } else if fragments.last().slot == PromptSlot::ContextWindow {
        window_hints(fragments.drop_last()).push(fragments.last().text@)
    } else {
        window_hints(fragments.drop_last())
    }
}

/// A list of one section, or of none.
pub open spec fn listed(section: Option<u64>) -> Seq<u64> {
    match section {
        Some(section) => seq![section],
        None => Seq::empty(),
    }
}

/// The sections before the world state is looked at.
pub open spec fn begun(parts: ContextParts) -> Sorted {
    Sorted {
        developer: (if parts.guardian {
            Seq::empty()
        } else {
            listed(parts.instructions)
        }) + developer_fragments(parts.thread_fragments@) + parts.turn_sections@,
        separate: listed(parts.token_budget),
        user: listed(parts.recommended_plugins),
        mode: None,
        managed: None,
    }
}

/// The sections with one more fragment of the world state.
pub open spec fn with_fragment(s: Sorted, f: WorldFragment, markers: FragmentMarkers) -> Sorted {
    if f.role@ == "developer"@ {
        if f.marker@ == markers.model_switch@ {
            Sorted { developer: seq![f.section] + s.developer, ..s }
        } else if f.marker@ == markers.multi_agent_mode@ {
            Sorted { mode: Some(f.section), ..s }
        } else if f.marker@ == markers.managed_instructions@ {
            Sorted { managed: Some(f.section), ..s }
        } else if f.marker@ == markers.multi_agent_role@ || (f.requires_separate_message
            && f.marker@.len() == 0) {
            Sorted { separate: s.separate.push(f.section), ..s }
        } else {
            Sorted { developer: s.developer.push(f.section), ..s }
        }
    } else if f.role@ == "user"@ {
        Sorted { user: s.user.push(f.section), ..s }
    } else {
        s
    }
}

/// The sections with the world state.
pub open spec fn with_world(s: Sorted, world: Seq<WorldFragment>, markers: FragmentMarkers) -> Sorted
    decreases world.len(),
{
    if world.len() == 0 {
        s
    } else {
        with_fragment(with_world(s, world.drop_last(), markers), world.last(), markers)
    }
}

/// A message of some sections, where there are any.
pub open spec fn message_of(sections: Seq<u64>) -> Seq<Seq<u64>> {
    if sections.len() == 0 {
        Seq::empty()
    } else {
        seq![sections]
    }
}

/// Messages of one section each.
pub open spec fn single_messages(sections: Seq<u64>) -> Seq<Seq<u64>> {
    sections.map_values(|s: u64| seq![s])
}

/// The messages of sorted sections: the developer's together, then those that
/// stand alone, the multi-agent mode, the user's together, a guardian's
/// instructions, and managed instructions last.
pub open spec fn messages_of(s: Sorted, guardian: Option<u64>) -> Seq<Seq<u64>> {
    message_of(s.developer) + single_messages(s.separate) + message_of(listed(s.mode)) + message_of(
        s.user,
    ) + message_of(listed(guardian)) + message_of(listed(s.managed))
}

/// The instructions that stand alone.
pub open spec fn guardian_section(parts: ContextParts) -> Option<u64> {
    if parts.guardian {
        parts.instructions
    } else {
        None
    }
}

/// A message of a window's context: the rendered sections that it holds, and
/// the turn that it belongs to.
#[derive(Debug, PartialEq, Eq)]
pub struct ContextMessage {
    pub sections: Vec<u64>,
    pub turn_id: Option<String>,
}

/// The turn of a message, once it has one.
pub open spec fn turn_or(turn_id: Option<Seq<char>>, missing: Seq<char>) -> Seq<char> {
    match turn_id {
        Some(turn_id) => turn_id,
        None => missing,
    }
}

impl ContextMessage {
    /// Gives the message a turn, where it has none.
    pub fn set_turn_id_if_missing(&mut self, turn_id: &str)
        ensures
            final(self).sections == old(self).sections,
            text_view(final(self).turn_id) == Some(turn_or(text_view(old(self).turn_id), turn_id@)),
    {
        if self.turn_id.is_none() {
            self.turn_id = Some(turn_id.to_owned());
        }
    }
}

pub open spec fn message_views(messages: Seq<ContextMessage>) -> Seq<Seq<u64>> {
    messages.map_values(|m: ContextMessage| m.sections@)
}

/// Whether no message has a turn yet.
spec fn turnless(messages: Seq<ContextMessage>) -> bool {
    forall|i: int| 0 <= i < messages.len() ==> (#[trigger] messages[i]).turn_id is None
}

struct Sections {
    developer: Vec<u64>,
    separate: Vec<u64>,
    user: Vec<u64>,
    mode: Option<u64>,
    managed: Option<u64>,
}

impl Sections {
    spec fn model(self) -> Sorted {
        Sorted {
            developer: self.developer@,
            separate: self.separate@,
            user: self.user@,
            mode: self.mode,
            managed: self.managed,
        }
    }

    fn place(&mut self, fragment: &WorldFragment, markers: &FragmentMarkers)
        ensures
            final(self).model() == with_fragment(old(self).model(), *fragment, *markers),
    {
        let role = fragment.role.as_str();
        let marker = fragment.marker.as_str();
        if same_text(role, "developer") {
            if same_text(marker, markers.model_switch.as_str()) {
                self.developer.insert(0, fragment.section);
                assert(self.developer@ =~= seq![fragment.section] + old(self).developer@);
            } else if same_text(marker, markers.multi_agent_mode.as_str()) {
                self.mode = Some(fragment.section);
            } else if same_text(marker, markers.managed_instructions.as_str()) {
                self.managed = Some(fragment.section);
            } else if same_text(marker, markers.multi_agent_role.as_str()) || (
            fragment.requires_separate_message && marker.is_empty()) {
                self.separate.push(fragment.section);
            } else {
                self.developer.push(fragment.section);
            }
        } else if same_text(role, "user") {
            self.user.push(fragment.section);
        }
    }
}

fn push_message(messages: &mut Vec<ContextMessage>, sections: Vec<u64>)
    ensures
        message_views(final(messages)@) == message_views(old(messages)@) + message_of(sections@),
        turnless(old(messages)@) ==> turnless(final(messages)@),
{
    let ghost before = message_views(messages@);
    if sections.len() > 0 {
        messages.push(ContextMessage { sections, turn_id: None });
        assert(message_views(messages@) =~= before + seq![sections@]);
    } else {
        assert(before + message_of(sections@) =~= before);
    }
}

fn push_single(messages: &mut Vec<ContextMessage>, section: Option<u64>)
    ensures
        message_views(final(messages)@) == message_views(old(messages)@) + message_of(
            listed(section),
        ),
        turnless(old(messages)@) ==> turnless(final(messages)@),
{
    let mut sections: Vec<u64> = Vec::new();
    if let Some(section) = section {
        sections.push(section);
    }
    assert(sections@ =~= listed(section));
    push_message(messages, sections);
}

/// The messages that a window begins with, each with the sections that it
/// holds. All of them belong to the turn that they are made for.
pub fn assemble_initial_context(
    parts: ContextParts,
    markers: &FragmentMarkers,
    turn_id: &str,
) -> (r: Vec<ContextMessage>)
    ensures
        message_views(r@) == messages_of(
            with_world(begun(parts), parts.world@, *markers),
            guardian_section(parts),
        ),
        forall|i: int| 0 <= i < r@.len() ==> text_view((#[trigger] r@[i]).turn_id) == Some(turn_id@),
{
    let ghost start = begun(parts);
    let mut developer: Vec<u64> = Vec::new();
    if !parts.guardian {
        if let Some(section) = parts.instructions {
            developer.push(section);
        }
    }
    let ghost first = developer@;
    assert(first =~= if parts.guardian {
        Seq::empty()
    } else {
        listed(parts.instructions)
    });
    let mut i: usize = 0;
    assert(parts.thread_fragments@.take(0) =~= Seq::empty());
    assert(first + developer_fragments(parts.thread_fragments@.take(0)) =~= first);
    while i < parts.thread_fragments.len()
        invariant
            i <= parts.thread_fragments@.len(),
            developer@ == first + developer_fragments(parts.thread_fragments@.take(i as int)),
        decreases parts.thread_fragments@.len() - i,
    {
        proof {
            let upto = parts.thread_fragments@.take(i + 1);
            assert(upto.drop_last() =~= parts.thread_fragments@.take(i as int));
            assert(upto.last() == parts.thread_fragments@[i as int]);
        }
        let ghost before = developer@;
        if parts.thread_fragments[i].slot != PromptSlot::ContextWindow {
            developer.push(parts.thread_fragments[i].section);
            assert(developer@ =~= first + developer_fragments(
                parts.thread_fragments@.take(i + 1),
            ));
        }
        i = i + 1;
    }
    assert(parts.thread_fragments@.take(i as int) =~= parts.thread_fragments@);
    let ghost second = developer@;
    let mut i: usize = 0;
    assert(second + parts.turn_sections@.take(0) =~= second);
    while i < parts.turn_sections.len()
        invariant
            i <= parts.turn_sections@.len(),
            developer@ =~= second + parts.turn_sections@.take(i as int),
        decreases parts.turn_sections@.len() - i,
    {
        developer.push(parts.turn_sections[i]);
        i = i + 1;
    }
    assert(developer@ =~= second + parts.turn_sections@);
    let mut separate: Vec<u64> = Vec::new();
    if let Some(section) = parts.token_budget {
        separate.push(section);
    }
    let mut user: Vec<u64> = Vec::new();
    if let Some(section) = parts.recommended_plugins {
        user.push(section);
    }
    assert(separate@ =~= listed(parts.token_budget));
    assert(user@ =~= listed(parts.recommended_plugins));
    let mut sections = Sections { developer, separate, user, mode: None, managed: None };
    assert(sections.model() == start);
    let mut i: usize = 0;
    assert(parts.world@.take(0) =~= Seq::empty());
    while i < parts.world.len()
        invariant
            i <= parts.world@.len(),
            sections.model() == with_world(start, parts.world@.take(i as int), *markers),
        decreases parts.world@.len() - i,
    {
        proof {
            let upto = parts.world@.take(i + 1);
            assert(upto.drop_last() =~= parts.world@.take(i as int));
            assert(upto.last() == parts.world@[i as int]);
        }
        sections.place(&parts.world[i], markers);
        i = i + 1;
    }
    assert(parts.world@.take(i as int) =~= parts.world@);
    let ghost end = sections.model();
    let mut messages: Vec<ContextMessage> = Vec::new();
    assert(message_views(messages@) + message_of(end.developer) =~= message_of(end.developer));
    let Sections { developer, separate, user, mode, managed } = sections;
    push_message(&mut messages, developer);
    let ghost singles = single_messages(separate@);
    let mut i: usize = 0;
    assert(message_of(end.developer) + singles.take(0) =~= message_of(end.developer));
    while i < separate.len()
        invariant
            i <= separate@.len(),
            singles == single_messages(separate@),
            message_views(messages@) == message_of(end.developer) + singles.take(i as int),
            turnless(messages@),
        decreases separate@.len() - i,
    {
        let ghost before = message_views(messages@);
        push_single(&mut messages, Some(separate[i]));
        proof {
            assert(message_of(listed(Some(separate@[i as int]))) =~= seq![singles[i as int]]);
            assert(before + seq![singles[i as int]] =~= message_of(end.developer) + singles.take(
                i + 1,
            ));
        }
        i = i + 1;
    }
    assert(singles.take(i as int) =~= singles);
    push_single(&mut messages, mode);
    push_message(&mut messages, user);
    let guardian = if parts.guardian {
        parts.instructions
    } else {
        None
    };
    push_single(&mut messages, guardian);
    push_single(&mut messages, managed);
    let ghost views = message_views(messages@);
    let mut i: usize = 0;
    while i < messages.len()
        invariant
            i <= messages@.len(),
            message_views(messages@) == views,
            forall|k: int|
                i <= k < messages@.len() ==> (#[trigger] messages@[k]).turn_id is None,
            forall|k: int|
                0 <= k < i ==> text_view((#[trigger] messages@[k]).turn_id) == Some(turn_id@),
        decreases messages@.len() - i,
    {
        messages[i].set_turn_id_if_missing(turn_id);
        assert(message_views(messages@) =~= views);
        i = i + 1;
    }
    messages
}

/// Whether the notes bridge is asked for a hint: only where the token budget is
/// shown and notes are not kept natively.
pub fn asks_notes_bridge(token_budget_shown: bool, native_notes: bool) -> (r: bool)
    ensures
        r == (token_budget_shown && !native_notes),
{
    token_budget_shown && !native_notes
}

/// Whether the token budget is shown.
pub fn shows_token_budget(feature_enabled: bool, has_context_window: bool) -> (r: bool)
    ensures
        r == (feature_enabled && has_context_window),
{
    feature_enabled && has_context_window
}

/// The texts that are not empty.
pub open spec fn spoken(list: Seq<String>) -> Seq<Seq<char>>
    decreases list.len(),
{
    if list.len() == 0 {
        Seq::empty()
    } else if list.last()@.len() == 0 {
        spoken(list.drop_last())
    } else {
        spoken(list.drop_last()).push(list.last()@)
    }
}

/// What the notes bridge answered, in one text; nothing where that is empty.
pub open spec fn bridge_hint(answer: Seq<String>) -> Option<Seq<char>> {
    let text = lines(spoken(answer));
    if text.len() == 0 {
        None
    } else {
        Some(text)
    }
}

/// The hint about the context window: those of the extensions, then that of the
/// notes bridge, line below line; nothing where there is none.
pub open spec fn window_hint(fragments: Seq<ThreadFragment>, bridge: Option<Seq<char>>) -> Option<
    Seq<char>,
> {
    let hints = match bridge {
        Some(hint) => window_hints(fragments).push(hint),
        None => window_hints(fragments),
    };
    if hints.len() == 0 {
        None
    } else {
        Some(lines(hints))
    }
}

proof fn lemma_lines_push(parts: Seq<Seq<char>>, part: Seq<char>)
    ensures
        lines(parts.push(part)) == if parts.len() == 0 {
            part
        } else {
            lines(parts) + "\n"@ + part
        },
{
    assert(parts.push(part).drop_last() =~= parts);
}

fn join_bridge(answer: &Vec<String>) -> (r: Option<String>)
    ensures
        text_view(r) == bridge_hint(answer@),
{
    let mut text = String::new();
    let mut any = false;
    let mut i: usize = 0;
    assert(answer@.take(0) =~= Seq::empty());
    assert(text@ =~= lines(spoken(answer@.take(0))));
    while i < answer.len()
        invariant
            i <= answer@.len(),
            any == (spoken(answer@.take(i as int)).len() > 0),
            text@ == lines(spoken(answer@.take(i as int))),
        decreases answer@.len() - i,
    {
        proof {
            let upto = answer@.take(i + 1);
            assert(upto.drop_last() =~= answer@.take(i as int));
            assert(upto.last() == answer@[i as int]);
        }
        if !answer[i].as_str().is_empty() {
            let ghost before = spoken(answer@.take(i as int));
            proof {
                lemma_lines_push(before, answer@[i as int]@);
            }
            let ghost earlier = text@;
            if any {
                text.append("\n");
            }
            text.append(answer[i].as_str());
            proof {
                if !any {
                    assert(before =~= Seq::empty());
                    assert(earlier =~= Seq::empty());
                    assert(text@ =~= answer@[i as int]@);
                }
            }
            any = true;
        }
        i = i + 1;
    }
    assert(answer@.take(i as int) =~= answer@);
    if text.as_str().is_empty() {
        None
    } else {
        Some(text)
    }
}

/// The hint about the context window. `answer` holds the texts that the notes
/// bridge gave, where it was asked and answered.
pub fn context_window_hint(fragments: &Vec<ThreadFragment>, answer: Option<&Vec<String>>) -> (r:
    Option<String>)
    ensures
        text_view(r) == window_hint(
            fragments@,
            match answer {
                Some(answer) => bridge_hint(answer@),
                None => None,
            },
        ),
{
    let mut text = String::new();
    let mut any = false;
    let mut i: usize = 0;
    assert(fragments@.take(0) =~= Seq::empty());
    assert(text@ =~= lines(window_hints(fragments@.take(0))));
    while i < fragments.len()
        invariant
            i <= fragments@.len(),
            any == (window_hints(fragments@.take(i as int)).len() > 0),
            text@ == lines(window_hints(fragments@.take(i as int))),
        decreases fragments@.len() - i,
    {
        proof {
            let upto = fragments@.take(i + 1);
            assert(upto.drop_last() =~= fragments@.take(i as int));
            assert(upto.last() == fragments@[i as int]);
        }
        if fragments[i].slot == PromptSlot::ContextWindow {
            let ghost before = window_hints(fragments@.take(i as int));
            let ghost earlier = text@;
            proof {
                lemma_lines_push(before, fragments@[i as int].text@);
            }
            if any {
                text.append("\n");
            }
            text.append(fragments[i].text.as_str());
            proof {
                if !any {
                    assert(before =~= Seq::empty());
                    assert(earlier =~= Seq::empty());
                    assert(text@ =~= fragments@[i as int].text@);
                }
            }
            any = true;
        }
        i = i + 1;
    }
    assert(fragments@.take(i as int) =~= fragments@);
    let bridge = match answer {
        Some(answer) => join_bridge(answer),
        None => None,
    };
    if let Some(hint) = bridge {
        let ghost before = window_hints(fragments@);
        let ghost earlier = text@;
        proof {
            lemma_lines_push(before, hint@);
        }
        if any {
            text.append("\n");
        }
        text.append(hint.as_str());
        proof {
            if !any {
                assert(before =~= Seq::empty());
                assert(earlier =~= Seq::empty());
                assert(text@ =~= hint@);
            }
        }
        any = true;
    }
    if any {
        Some(text)
    } else {
        None
    }
}

/// Managed instructions, where there are any, are the last message.
pub proof fn managed_instructions_come_last(s: Sorted, guardian: Option<u64>, section: u64)
    requires
        s.managed == Some(section),
    ensures
        messages_of(s, guardian).len() > 0,
        messages_of(s, guardian).last() == seq![section],
{
    let before = message_of(s.developer) + single_messages(s.separate) + message_of(listed(s.mode))
        + message_of(s.user) + message_of(listed(guardian));
    assert(messages_of(s, guardian) =~= before.push(seq![section]));
}

/// The instructions for a new model come before everything else.
pub proof fn model_switch_comes_first(s: Sorted, f: WorldFragment, markers: FragmentMarkers, guardian: Option<u64>)
    requires
        f.role@ == "developer"@,
        f.marker@ == markers.model_switch@,
    ensures
        messages_of(with_fragment(s, f, markers), guardian)[0][0] == f.section,
{
}

/// The fragments of extensions are parted by their slot, in order: those for the
/// context window are hints, and all others are the developer's.
pub proof fn fragments_go_to_their_slot(fragments: Seq<ThreadFragment>)
    ensures
        ({
            let own = fragments.filter(|f: ThreadFragment| f.slot != PromptSlot::ContextWindow);
            let hints = fragments.filter(|f: ThreadFragment| f.slot == PromptSlot::ContextWindow);
            &&& developer_fragments(fragments).len() == own.len()
            &&& window_hints(fragments).len() == hints.len()
            &&& forall|i: int|
                0 <= i < own.len() ==> #[trigger] developer_fragments(fragments)[i]
                    == own[i].section
            &&& forall|i: int|
                0 <= i < hints.len() ==> #[trigger] window_hints(fragments)[i] == hints[i].text@
        }),
    decreases fragments.len(),
{
    reveal(Seq::filter);
    if fragments.len() > 0 {
        let rest = fragments.drop_last();
        fragments_go_to_their_slot(rest);
        let own = fragments.filter(|f: ThreadFragment| f.slot != PromptSlot::ContextWindow);
        let hints = fragments.filter(|f: ThreadFragment| f.slot == PromptSlot::ContextWindow);
        let own_before = rest.filter(|f: ThreadFragment| f.slot != PromptSlot::ContextWindow);
        let hints_before = rest.filter(|f: ThreadFragment| f.slot == PromptSlot::ContextWindow);
        let last = fragments.last();
        assert(own == if last.slot != PromptSlot::ContextWindow {
            own_before.push(last)
        } else {
            own_before
        });
        assert(hints == if last.slot == PromptSlot::ContextWindow {
            hints_before.push(last)
        } else {
            hints_before
        });
        assert forall|i: int| 0 <= i < own.len() implies #[trigger] developer_fragments(
            fragments,
        )[i] == own[i].section by {
            if i < own_before.len() {
                assert(developer_fragments(fragments)[i] == developer_fragments(rest)[i]);
            }
        }
        assert forall|i: int| 0 <= i < hints.len() implies #[trigger] window_hints(fragments)[i]
            == hints[i].text@ by {
            if i < hints_before.len() {
                assert(window_hints(fragments)[i] == window_hints(rest)[i]);
            }
        }
    }
}

/// The developer's message begins with the instructions, unless they are a
/// guardian's, then the extensions' fragments and the turn's own sections; the
/// token budget stands alone, and recommended plugins are the user's.
pub proof fn sections_begin_in_order(parts: ContextParts)
    ensures
        ({
            let s = begun(parts);
            let own = developer_fragments(parts.thread_fragments@);
            &&& !parts.guardian ==> (parts.instructions matches Some(section) ==> s.developer
                == seq![section] + own + parts.turn_sections@)
            &&& parts.guardian || parts.instructions is None ==> s.developer == own
                + parts.turn_sections@
            &&& parts.token_budget matches Some(section) ==> s.separate == seq![section]
            &&& parts.token_budget is None ==> s.separate.len() == 0
            &&& parts.recommended_plugins matches Some(section) ==> s.user == seq![section]
            &&& parts.recommended_plugins is None ==> s.user.len() == 0
            &&& s.mode is None && s.managed is None
        }),
{
    let own = developer_fragments(parts.thread_fragments@);
    if parts.guardian || parts.instructions is None {
        assert(begun(parts).developer =~= own + parts.turn_sections@);
    }
}

/// Where a fragment of the world state goes: by its role, and for the developer's
/// by the text that it opens with. No other section moves.
pub proof fn fragments_go_to_their_message(s: Sorted, f: WorldFragment, markers: FragmentMarkers)
    requires
        markers.model_switch@ != markers.multi_agent_mode@,
        markers.model_switch@ != markers.managed_instructions@,
        markers.multi_agent_mode@ != markers.managed_instructions@,
        markers.multi_agent_role@ != markers.model_switch@,
        markers.multi_agent_role@ != markers.multi_agent_mode@,
        markers.multi_agent_role@ != markers.managed_instructions@,
        markers.model_switch@.len() > 0,
        markers.multi_agent_mode@.len() > 0,
        markers.managed_instructions@.len() > 0,
        markers.multi_agent_role@.len() > 0,
    ensures
        ({
            let t = with_fragment(s, f, markers);
            let by_developer = f.role@ == "developer"@;
            &&& f.role@ == "user"@ ==> t == (Sorted { user: s.user.push(f.section), ..s })
            &&& !by_developer && f.role@ != "user"@ ==> t == s
            &&& by_developer && f.marker@ == markers.model_switch@ ==> t == (Sorted {
                developer: seq![f.section] + s.developer,
                ..s
            })
            &&& by_developer && f.marker@ == markers.multi_agent_mode@ ==> t == (Sorted {
                mode: Some(f.section),
                ..s
            })
            &&& by_developer && f.marker@ == markers.managed_instructions@ ==> t == (Sorted {
                managed: Some(f.section),
                ..s
            })
            &&& by_developer && f.marker@ == markers.multi_agent_role@ ==> t == (Sorted {
                separate: s.separate.push(f.section),
                ..s
            })
            &&& by_developer && f.marker@.len() == 0 && f.requires_separate_message ==> t == (
            Sorted { separate: s.separate.push(f.section), ..s })
            &&& by_developer && f.marker@.len() == 0 && !f.requires_separate_message ==> t == (
            Sorted { developer: s.developer.push(f.section), ..s })
            &&& by_developer && f.marker@.len() > 0 && f.marker@ != markers.model_switch@
                && f.marker@ != markers.multi_agent_mode@ && f.marker@
                != markers.managed_instructions@ && f.marker@ != markers.multi_agent_role@ ==> t
                == (Sorted { developer: s.developer.push(f.section), ..s })
        }),
{
    reveal_strlit("developer");
    reveal_strlit("user");
    assert("developer"@.len() == 9 && "user"@.len() == 4);
}

/// The fragments of the world state are placed in order.
pub proof fn the_world_is_placed_in_order(
    s: Sorted,
    world: Seq<WorldFragment>,
    f: WorldFragment,
    markers: FragmentMarkers,
)
    ensures
        with_world(s, world.push(f), markers) == with_fragment(
            with_world(s, world, markers),
            f,
            markers,
        ),
        with_world(s, Seq::empty(), markers) == s,
{
    assert(world.push(f).drop_last() =~= world);
}

/// How many messages sections with something in them make.
pub open spec fn one_if(condition: bool) -> nat {
    if condition {
        1
    } else {
        0
    }
}

/// The order of the messages: the developer's sections in one, then each that
/// stands alone, the multi-agent mode, the user's sections in one, a guardian's
/// instructions, and managed instructions.
pub proof fn messages_are_in_order(s: Sorted, guardian: Option<u64>, i: int)
    ensures
        ({
            let all = messages_of(s, guardian);
            let d = one_if(s.developer.len() > 0);
            let m = d + s.separate.len();
            let u = m + one_if(s.mode is Some);
            let g = u + one_if(s.user.len() > 0);
            let l = g + one_if(guardian is Some);
            &&& all.len() == l + one_if(s.managed is Some)
            &&& s.developer.len() > 0 ==> all[0] == s.developer
            &&& 0 <= i < s.separate.len() ==> all[d + i] == seq![s.separate[i]]
            &&& s.mode matches Some(section) ==> all[m as int] == seq![section]
            &&& s.user.len() > 0 ==> all[u as int] == s.user
            &&& guardian matches Some(section) ==> all[g as int] == seq![section]
            &&& s.managed matches Some(section) ==> all[l as int] == seq![section]
        }),
{
    let all = messages_of(s, guardian);
    let a = message_of(s.developer);
    let b = single_messages(s.separate);
    let c = message_of(listed(s.mode));
    let d = message_of(s.user);
    let e = message_of(listed(guardian));
    let f = message_of(listed(s.managed));
    assert(a.len() == one_if(s.developer.len() > 0));
    assert(c.len() == one_if(s.mode is Some));
    assert(d.len() == one_if(s.user.len() > 0));
    assert(e.len() == one_if(guardian is Some));
    assert(f.len() == one_if(s.managed is Some));
}

/// Only a guardian's instructions stand alone.
pub proof fn only_a_guardians_instructions_stand_alone(parts: ContextParts)
    ensures
        parts.guardian ==> guardian_section(parts) == parts.instructions,
        !parts.guardian ==> guardian_section(parts) is None,
{
}

/// What the notes bridge says is in its hint, line below line and in order, and
/// an empty answer is none.
pub proof fn the_bridge_is_heard(answer: Seq<String>)
    ensures
        ({
            let said = answer.filter(|a: String| a@.len() > 0);
            &&& spoken(answer).len() == said.len()
            &&& forall|i: int| 0 <= i < said.len() ==> #[trigger] spoken(answer)[i] == said[i]@
            &&& bridge_hint(answer) is None <==> said.len() == 0
            &&& bridge_hint(answer) matches Some(text) ==> text == lines(spoken(answer))
        }),
{
    lemma_spoken(answer);
    let said = answer.filter(|a: String| a@.len() > 0);
    if said.len() > 0 {
        every_line_is_there(spoken(answer), 0);
        lemma_said(answer);
        assert(spoken(answer)[0].len() > 0);
    }
}

proof fn lemma_said(answer: Seq<String>)
    ensures
        forall|i: int| 0 <= i < spoken(answer).len() ==> (#[trigger] spoken(answer)[i]).len() > 0,
    decreases answer.len(),
{
    if answer.len() > 0 {
        lemma_said(answer.drop_last());
        let before = spoken(answer.drop_last());
        assert forall|i: int| 0 <= i < spoken(answer).len() implies (#[trigger] spoken(
            answer,
        )[i]).len() > 0 by {
            if i < before.len() {
                assert(spoken(answer)[i] == before[i]);
            }
        }
    }
}

proof fn lemma_spoken(answer: Seq<String>)
    ensures
        ({
            let said = answer.filter(|a: String| a@.len() > 0);
            &&& spoken(answer).len() == said.len()
            &&& forall|i: int| 0 <= i < said.len() ==> #[trigger] spoken(answer)[i] == said[i]@
        }),
    decreases answer.len(),
{
    reveal(Seq::filter);
    if answer.len() > 0 {
        let rest = answer.drop_last();
        lemma_spoken(rest);
        let said = answer.filter(|a: String| a@.len() > 0);
        let before = rest.filter(|a: String| a@.len() > 0);
        assert(said == if answer.last()@.len() > 0 {
            before.push(answer.last())
        } else {
            before
        });
        assert forall|i: int| 0 <= i < said.len() implies #[trigger] spoken(answer)[i]
            == said[i]@ by {
            if i < before.len() {
                assert(spoken(answer)[i] == spoken(rest)[i]);
            }
        }
    }
}

/// The hint about the context window has every extension's hint, in order, and
/// the bridge's last; without any there is none.
pub proof fn the_hint_holds_every_hint(
    fragments: Seq<ThreadFragment>,
    bridge: Option<Seq<char>>,
    i: int,
)
    ensures
        ({
            let hints = window_hints(fragments);
            &&& window_hint(fragments, bridge) is None <==> hints.len() == 0 && bridge is None
            &&& bridge is None && hints.len() > 0 ==> window_hint(fragments, bridge) == Some(
                lines(hints),
            )
            &&& bridge matches Some(hint) ==> window_hint(fragments, bridge) == Some(
                if hints.len() == 0 {
                    hint
                } else {
                    lines(hints) + seq!['\n'] + hint
                },
            )
        }),
{
    let hints = window_hints(fragments);
    if let Some(hint) = bridge {
        lines_stand_below_each_other(hints, seq![hint]);
        lines_stand_below_each_other(seq![hint], Seq::empty());
        assert(hints.push(hint) =~= hints + seq![hint]);
    }
}

/// An item that names its turn keeps it; one that names none gets the one given.
pub proof fn a_named_turn_is_kept(turn_id: Option<Seq<char>>, missing: Seq<char>)
    ensures
        turn_id matches Some(id) ==> turn_or(turn_id, missing) == id,
        turn_id is None ==> turn_or(turn_id, missing) == missing,
{
}

} // verus!
