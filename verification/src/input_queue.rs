//! Input that waits for a turn: what was sent to the turn itself, and the mail
//! of other agents.

use crate::history::HistoryItem;
use crate::spawn::copy_text;
use crate::spawn_tasks::author_is_in_transaction_subtree;
use crate::text::{is_blank, same_text};
use vstd::prelude::*;

verus! {

use crate::shapes::text_view;
use crate::spawn_tasks::in_subtrees;
use crate::text::blank;

/// A piece of what the user sent.
#[derive(Debug, PartialEq, Eq)]
pub enum UserInput {
    Text { text: String },
    /// Anything else, by the host's handle.
    Other { payload: u64 },
}

/// A message from one agent to another. `rest` names what the host keeps of it:
/// its other recipients, its encrypted content, and what is noted about it.
#[derive(Debug, PartialEq, Eq)]
pub struct InterAgentCommunication {
    pub id: Option<String>,
    pub author: String,
    pub recipient: String,
    pub content: String,
    pub trigger_turn: bool,
    pub rest: Option<u64>,
}

impl InterAgentCommunication {
    /// A copy of the message.
    pub fn copy(&self) -> (r: InterAgentCommunication)
        ensures
            r == *self,
    {
        InterAgentCommunication {
            id: copy_text(&self.id),
            author: self.author.clone(),
            recipient: self.recipient.clone(),
            content: self.content.clone(),
            trigger_turn: self.trigger_turn,
            rest: self.rest,
        }
    }
}

/// An item of the history with what the harness notes about it.
#[derive(Debug, PartialEq, Eq)]
pub struct ResponseItemEnvelope {
    pub item: HistoryItem,
    pub annotated: bool,
}

/// Input consumed by a regular turn.
#[derive(Debug, PartialEq, Eq)]
#[allow(inconsistent_fields)]
pub enum TurnInput {
    UserInput { content: Vec<UserInput>, client_id: Option<String> },
    FunctionCallOutput(HistoryItem),
    ResponseItem(ResponseItemEnvelope),
    InterAgentCommunication(InterAgentCommunication),
}

impl TurnInput {
    /// Whether the input may leave the process: an annotated item may not.
    pub fn check_serializable(&self) -> (r: Result<(), String>)
        ensures
            match r {
                Ok(()) => !(*self matches TurnInput::ResponseItem(envelope) && envelope.annotated),
                Err(message) => *self matches TurnInput::ResponseItem(envelope)
                    && envelope.annotated && message@
                    == "annotated response items cannot cross the turn-input serialization boundary"@,
            },
    {
        if let TurnInput::ResponseItem(envelope) = self {
            if envelope.annotated {
                return Err(
                    "annotated response items cannot cross the turn-input serialization boundary".to_owned(),
                );
            }
        }
        Ok(())
    }
}

/// The access program of a turn.
#[derive(Clone, Copy, Debug, PartialEq, Eq, Structural)]
pub enum CyberAccessProgram {
    Standard,
    DaybreakBlue,
    DaybreakRed,
}

/// How a turn is to be started. `rest` names the choices that the host keeps.
#[derive(Debug, PartialEq, Eq)]
pub struct TurnStartOptions {
    pub parent_turn_id: Option<String>,
    pub root_turn_id: Option<String>,
    pub cyber_access_program: Option<CyberAccessProgram>,
    pub rest: Option<u64>,
}

/// The model of [`TurnStartOptions`].
pub ghost struct OptionsModel {
    pub parent: Option<Seq<char>>,
    pub root: Option<Seq<char>>,
    pub program: Option<CyberAccessProgram>,
    pub rest: Option<u64>,
}

impl View for TurnStartOptions {
    type V = OptionsModel;

    open spec fn view(&self) -> OptionsModel {
        OptionsModel {
            parent: text_view(self.parent_turn_id),
            root: text_view(self.root_turn_id),
            program: self.cyber_access_program,
            rest: self.rest,
        }
    }
}

/// The options of a turn that nothing was chosen for.
pub open spec fn no_options() -> OptionsModel {
    OptionsModel { parent: None, root: None, program: None, rest: None }
}

impl Default for TurnStartOptions {
    fn default() -> (r: Self)
        ensures
            r@ == no_options(),
    {
        TurnStartOptions {
            parent_turn_id: None,
            root_turn_id: None,
            cyber_access_program: None,
            rest: None,
        }
    }
}

/// Mail that has not been delivered.
#[derive(Debug, PartialEq, Eq)]
pub struct PendingMail {
    pub communication: InterAgentCommunication,
    pub start_options: TurnStartOptions,
}

/// A text that says something; nothing where it is missing or blank.
pub open spec fn meaningful(text: Option<Seq<char>>) -> Option<Seq<char>> {
    match text {
        Some(text) => if blank(text) {
            None
        } else {
            Some(text)
        },
        None => None,
    }
}

/// The options of the last mail that triggers a turn.
pub open spec fn last_choice(mails: Seq<PendingMail>) -> OptionsModel
    decreases mails.len(),
{
    if mails.len() == 0 {
        no_options()
    } else if mails.last().communication.trigger_turn {
        mails.last().start_options@
    } else {
        last_choice(mails.drop_last())
    }
}

/// The parent that all mails agree on which trigger a turn: nothing where none
/// does, a missing parent where they differ.
pub open spec fn agreed_parent(mails: Seq<PendingMail>) -> Option<Option<Seq<char>>>
    decreases mails.len(),
{
    if mails.len() == 0 {
        None
    } else {
        let before = agreed_parent(mails.drop_last());
        let parent = mails.last().start_options@.parent;
        if !mails.last().communication.trigger_turn {
            before
        } else {
            match before {
                None => Some(parent),
                Some(expected) => if expected is Some && expected == parent {
                    Some(expected)
                } else {
                    Some(None)
                },
            }
        }
    }
}

/// The root of the first mail that triggers a turn, where that has a parent.
pub open spec fn first_root(mails: Seq<PendingMail>) -> Option<Option<Seq<char>>>
    decreases mails.len(),
{
    if mails.len() == 0 {
        None
    } else {
        match first_root(mails.drop_last()) {
            Some(root) => Some(root),
            None => if mails.last().communication.trigger_turn {
                let options = mails.last().start_options@;
                if meaningful(options.parent) is Some {
                    Some(meaningful(options.root))
                } else {
                    Some(None)
                }
            } else {
                None
            },
        }
    }
}

/// How a turn that takes in some mails is started.
pub open spec fn combined(mails: Seq<PendingMail>) -> OptionsModel {
    OptionsModel {
        parent: match agreed_parent(mails) {
            Some(parent) => meaningful(parent),
            None => None,
        },
        root: match first_root(mails) {
            Some(root) => root,
            None => None,
        },
        ..last_choice(mails)
    }
}

/// The mails as input.
pub open spec fn mail_inputs(mails: Seq<PendingMail>) -> Seq<TurnInput> {
    mails.map_values(|m: PendingMail| TurnInput::InterAgentCommunication(m.communication))
}

/// What the queue was last told of.
#[derive(Clone, Copy, Debug, PartialEq, Eq, Structural)]
pub enum InputQueueActivity {
    Mailbox,
    Steer,
}

/// The mail of a session.
#[derive(Debug, PartialEq, Eq)]
pub struct InputQueue {
    pub mails: Vec<PendingMail>,
    pub activity: InputQueueActivity,
}

/// When mail is delivered.
#[derive(Clone, Copy, Debug, PartialEq, Eq, Structural)]
pub enum MailboxDeliveryPhase {
    CurrentTurn,
    NextTurn,
}

/// What waits for the turn that is running.
#[derive(Debug, PartialEq, Eq)]
pub struct TurnState {
    pub pending_input: Vec<TurnInput>,
    pub mailbox_delivery_phase: MailboxDeliveryPhase,
}

/// Whether an input is something that steers the turn.
pub open spec fn steers(input: TurnInput) -> bool {
    input is UserInput || input is FunctionCallOutput
}

/// Whether an input is mail that does not trigger a turn.
pub open spec fn is_queued_mail(input: TurnInput) -> bool {
    input matches TurnInput::InterAgentCommunication(mail) && !mail.trigger_turn
}

/// Whether a turn has something that steers it.
pub open spec fn has_steer(items: Seq<TurnInput>) -> bool {
    exists|i: int| 0 <= i < items.len() && steers(#[trigger] items[i])
}

impl TurnState {
    /// A turn that nothing waits for.
    pub fn new() -> (r: Self)
        ensures
            r.pending_input@.len() == 0,
            r.mailbox_delivery_phase == MailboxDeliveryPhase::CurrentTurn,
    {
        TurnState {
            pending_input: Vec::new(),
            mailbox_delivery_phase: MailboxDeliveryPhase::CurrentTurn,
        }
    }

    pub fn has_pending_input(&self) -> (r: bool)
        ensures
            r == has_steer(self.pending_input@),
    {
        let mut i: usize = 0;
        while i < self.pending_input.len()
            invariant
                i <= self.pending_input@.len(),
                forall|k: int| 0 <= k < i ==> !steers(#[trigger] self.pending_input@[k]),
            decreases self.pending_input@.len() - i,
        {
            match &self.pending_input[i] {
                TurnInput::UserInput { .. } => {
                    assert(steers(self.pending_input@[i as int]));
                    return true;
                },
                TurnInput::FunctionCallOutput(_) => {
                    assert(steers(self.pending_input@[i as int]));
                    return true;
                },
                _ => {},
            }
            i = i + 1;
        }
        false
    }

    /// Leaves mail to the next turn, unless something else than mail of no
    /// urgency waits for this one.
    pub fn defer_mailbox_delivery_to_next_turn(&mut self)
        ensures
            final(self).pending_input == old(self).pending_input,
            final(self).mailbox_delivery_phase == if forall|i: int|
                0 <= i < old(self).pending_input@.len() ==> is_queued_mail(
                    #[trigger] old(self).pending_input@[i],
                ) {
                MailboxDeliveryPhase::NextTurn
            } else {
                old(self).mailbox_delivery_phase
            },
    {
        let mut i: usize = 0;
        while i < self.pending_input.len()
            invariant
                i <= self.pending_input@.len(),
                *self == *old(self),
                forall|k: int| 0 <= k < i ==> is_queued_mail(#[trigger] self.pending_input@[k]),
            decreases self.pending_input@.len() - i,
        {
            let queued = match &self.pending_input[i] {
                TurnInput::InterAgentCommunication(mail) => !mail.trigger_turn,
                _ => false,
            };
            if !queued {
                assert(!is_queued_mail(self.pending_input@[i as int]));
                return;
            }
            i = i + 1;
        }
        self.mailbox_delivery_phase = MailboxDeliveryPhase::NextTurn;
    }

    /// Delivers mail to this turn again.
    pub fn accept_mailbox_delivery_for_current_turn(&mut self)
        ensures
            final(self).pending_input == old(self).pending_input,
            final(self).mailbox_delivery_phase == MailboxDeliveryPhase::CurrentTurn,
    {
        self.mailbox_delivery_phase = MailboxDeliveryPhase::CurrentTurn;
    }

    /// Adds input behind what waits.
    pub fn extend_pending_input(&mut self, input: Vec<TurnInput>)
        ensures
            final(self).pending_input@ == old(self).pending_input@ + input@,
            final(self).mailbox_delivery_phase == old(self).mailbox_delivery_phase,
    {
        let mut input = input;
        self.pending_input.append(&mut input);
    }

    /// Takes all that waits.
    pub fn take_pending_input(&mut self) -> (r: Vec<TurnInput>)
        ensures
            r@ == old(self).pending_input@,
            final(self).pending_input@.len() == 0,
            final(self).mailbox_delivery_phase == old(self).mailbox_delivery_phase,
    {
        let mut taken: Vec<TurnInput> = Vec::new();
        std::mem::swap(&mut taken, &mut self.pending_input);
        taken
    }
}

/// Whether a mail is by an agent at or below one of some paths.
pub open spec fn is_from(mail: PendingMail, roots: Seq<String>) -> bool {
    in_subtrees(mail.communication.author@, roots)
}

/// The messages by agents at or below some paths.
pub open spec fn extracted_mails(mails: Seq<PendingMail>, roots: Seq<String>) -> Seq<
    InterAgentCommunication,
>
    decreases mails.len(),
{
    if mails.len() == 0 {
        Seq::empty()
    } else {
        let before = extracted_mails(mails.drop_last(), roots);
        if is_from(mails.last(), roots) {
            before.push(mails.last().communication)
        } else {
            before
        }
    }
}

/// The mails by other agents.
pub open spec fn retained_mails(mails: Seq<PendingMail>, roots: Seq<String>) -> Seq<PendingMail>
    decreases mails.len(),
{
    if mails.len() == 0 {
        Seq::empty()
    } else {
        let before = retained_mails(mails.drop_last(), roots);
        if is_from(mails.last(), roots) {
            before
        } else {
            before.push(mails.last())
        }
    }
}

/// No mail is lost or doubled when messages are taken out.
pub proof fn extraction_parts_the_mail(mails: Seq<PendingMail>, roots: Seq<String>)
    ensures
        extracted_mails(mails, roots).len() + retained_mails(mails, roots).len() == mails.len(),
        forall|i: int|
            0 <= i < retained_mails(mails, roots).len() ==> !is_from(
                #[trigger] retained_mails(mails, roots)[i],
                roots,
            ) && mails.contains(retained_mails(mails, roots)[i]),
        forall|i: int|
            0 <= i < extracted_mails(mails, roots).len() ==> in_subtrees(
                (#[trigger] extracted_mails(mails, roots)[i]).author@,
                roots,
            ),
        extracted_mails(retained_mails(mails, roots), roots).len() == 0,
    decreases mails.len(),
{
    if mails.len() > 0 {
        let rest = mails.drop_last();
        let last = mails.last();
        extraction_parts_the_mail(rest, roots);
        let kept = retained_mails(mails, roots);
        let kept_before = retained_mails(rest, roots);
        assert(mails[mails.len() - 1] == last);
        assert forall|i: int| 0 <= i < kept.len() implies !is_from(#[trigger] kept[i], roots)
            && mails.contains(kept[i]) by {
            if i < kept_before.len() {
                assert(kept[i] == kept_before[i]);
                let k = choose|k: int| 0 <= k < rest.len() && rest[k] == kept_before[i];
                assert(mails[k] == kept[i]);
            }
        }
        let out = extracted_mails(mails, roots);
        let out_before = extracted_mails(rest, roots);
        assert forall|i: int| 0 <= i < out.len() implies in_subtrees(
            (#[trigger] out[i]).author@,
            roots,
        ) by {
            if i < out_before.len() {
                assert(out[i] == out_before[i]);
            }
        }
        if !is_from(last, roots) {
            assert(kept.drop_last() =~= kept_before);
        }
    }
}

fn filter_blank(text: &Option<String>) -> (r: Option<String>)
    ensures
        text_view(r) == meaningful(text_view(*text)),
{
    match text {
        Some(text) => {
            if is_blank(text.as_str()) {
                None
            } else {
                Some(text.clone())
            }
        },
        None => None,
    }
}

fn same_option(a: &Option<String>, b: &Option<String>) -> (r: bool)
    ensures
        r == (text_view(*a) == text_view(*b)),
{
    match (a, b) {
        (Some(a), Some(b)) => same_text(a.as_str(), b.as_str()),
        (None, None) => true,
        _ => false,
    }
}

fn combine_options(mails: &Vec<PendingMail>) -> (r: TurnStartOptions)
    ensures
        r@ == combined(mails@),
{
    let mut choice = TurnStartOptions::default();
    let mut agreed: Option<Option<String>> = None;
    let mut root: Option<Option<String>> = None;
    let mut i: usize = 0;
    assert(mails@.take(0) =~= Seq::empty());
    while i < mails.len()
        invariant
            i <= mails@.len(),
            choice@ == last_choice(mails@.take(i as int)),
            match agreed {
                Some(parent) => agreed_parent(mails@.take(i as int)) == Some(text_view(parent)),
                None => agreed_parent(mails@.take(i as int)) is None,
            },
            match root {
                Some(found) => first_root(mails@.take(i as int)) == Some(text_view(found)),
                None => first_root(mails@.take(i as int)) is None,
            },
        decreases mails@.len() - i,
    {
        proof {
            let upto = mails@.take(i + 1);
            assert(upto.drop_last() =~= mails@.take(i as int));
            assert(upto.last() == mails@[i as int]);
        }
        let mail = &mails[i];
        if mail.communication.trigger_turn {
            choice = TurnStartOptions {
                parent_turn_id: copy_text(&mail.start_options.parent_turn_id),
                root_turn_id: copy_text(&mail.start_options.root_turn_id),
                cyber_access_program: mail.start_options.cyber_access_program,
                rest: mail.start_options.rest,
            };
            let next_agreed = match &agreed {
                None => copy_text(&mail.start_options.parent_turn_id),
                Some(expected) => {
                    if expected.is_some() && same_option(
                        expected,
                        &mail.start_options.parent_turn_id,
                    ) {
                        copy_text(expected)
                    } else {
                        None
                    }
                },
            };
            agreed = Some(next_agreed);
            if root.is_none() {
                let parent = filter_blank(&mail.start_options.parent_turn_id);
                root = Some(
                    if parent.is_some() {
                        filter_blank(&mail.start_options.root_turn_id)
                    } else {
                        None
                    },
                );
            }
        }
        i = i + 1;
    }
    assert(mails@.take(i as int) =~= mails@);
    TurnStartOptions {
        parent_turn_id: match &agreed {
            Some(parent) => filter_blank(parent),
            None => None,
        },
        root_turn_id: match root {
            Some(found) => found,
            None => None,
        },
        cyber_access_program: choice.cyber_access_program,
        rest: choice.rest,
    }
}

impl InputQueue {
    /// A queue without mail.
    pub fn new() -> (r: Self)
        ensures
            r.mails@.len() == 0,
            r.activity == InputQueueActivity::Mailbox,
    {
        InputQueue { mails: Vec::new(), activity: InputQueueActivity::Mailbox }
    }

    /// Puts mail behind what is there.
    pub fn enqueue_mailbox_communication(
        &mut self,
        communication: InterAgentCommunication,
        start_options: TurnStartOptions,
    )
        ensures
            final(self).mails@ == old(self).mails@.push(
                (PendingMail { communication, start_options }),
            ),
            final(self).activity == InputQueueActivity::Mailbox,
    {
        self.mails.push(PendingMail { communication, start_options });
        self.activity = InputQueueActivity::Mailbox;
    }

    pub fn has_pending_mailbox_items(&self) -> (r: bool)
        ensures
            r == (self.mails@.len() > 0),
    {
        self.mails.len() > 0
    }

    /// Whether some mail triggers a turn.
    pub fn has_trigger_turn_mailbox_items(&self) -> (r: bool)
        ensures
            r == exists|i: int|
                0 <= i < self.mails@.len() && (#[trigger] self.mails@[i]).communication.trigger_turn,
    {
        let mut i: usize = 0;
        while i < self.mails.len()
            invariant
                i <= self.mails@.len(),
                forall|k: int|
                    0 <= k < i ==> !(#[trigger] self.mails@[k]).communication.trigger_turn,
            decreases self.mails@.len() - i,
        {
            if self.mails[i].communication.trigger_turn {
                return true;
            }
            i = i + 1;
        }
        false
    }

    /// Takes all mail, in the order in which it came, and says how a turn that
    /// takes it in is started.
    pub fn drain_mailbox_input_items(&mut self) -> (r: (Vec<TurnInput>, TurnStartOptions))
        ensures
            r.0@ == mail_inputs(old(self).mails@),
            r.1@ == combined(old(self).mails@),
            final(self).mails@.len() == 0,
            final(self).activity == old(self).activity,
    {
        let mut mails: Vec<PendingMail> = Vec::new();
        std::mem::swap(&mut mails, &mut self.mails);
        let options = combine_options(&mails);
        let mut inputs: Vec<TurnInput> = Vec::new();
        let mut i: usize = 0;
        while i < mails.len()
            invariant
                i <= mails@.len(),
                inputs@ =~= mail_inputs(mails@).take(i as int),
            decreases mails@.len() - i,
        {
            inputs.push(TurnInput::InterAgentCommunication(mails[i].communication.copy()));
            i = i + 1;
        }
        assert(inputs@ =~= mail_inputs(mails@));
        (inputs, options)
    }

    /// Takes out the messages of agents at or below some paths.
    pub fn extract_mailbox_communications(&mut self, roots: &Vec<String>) -> (r: Vec<
        InterAgentCommunication,
    >)
        ensures
            r@ == extracted_mails(old(self).mails@, roots@),
            final(self).mails@ == retained_mails(old(self).mails@, roots@),
            final(self).activity == old(self).activity,
    {
        let mut pending: Vec<PendingMail> = Vec::new();
        std::mem::swap(&mut pending, &mut self.mails);
        let ghost all = pending@;
        let mut retained: Vec<PendingMail> = Vec::new();
        let mut extracted: Vec<InterAgentCommunication> = Vec::new();
        let ghost mut taken: int = 0;
        proof {
            assert(all.take(0) =~= Seq::empty());
            assert(all.skip(0) =~= all);
        }
        while pending.len() > 0
            invariant
                0 <= taken <= all.len(),
                pending@ == all.skip(taken),
                retained@ == retained_mails(all.take(taken), roots@),
                extracted@ == extracted_mails(all.take(taken), roots@),
            decreases pending@.len(),
        {
            proof {
                let upto = all.take(taken + 1);
                assert(upto.drop_last() =~= all.take(taken));
                assert(upto.last() == all[taken]);
                assert(pending@[0] == all[taken]);
                assert(pending@.remove(0) =~= all.skip(taken + 1));
            }
            let mail = pending.remove(0);
            if author_is_in_transaction_subtree(mail.communication.author.as_str(), roots) {
                extracted.push(mail.communication);
            } else {
                retained.push(mail);
            }
            proof {
                taken = taken + 1;
            }
        }
        assert(all.take(taken) =~= all);
        self.mails = retained;
        extracted
    }

    /// What already waits for one that begins to listen.
    pub fn pending_activity(&self, turn: Option<&TurnState>) -> (r: Option<InputQueueActivity>)
        ensures
            r == if turn matches Some(turn) && has_steer(turn.pending_input@) {
                Some(InputQueueActivity::Steer)
            } else if self.mails@.len() > 0 {
                Some(InputQueueActivity::Mailbox)
            } else {
                None
            },
    {
        let steer = match turn {
            Some(turn) => turn.has_pending_input(),
            None => false,
        };
        if steer {
            Some(InputQueueActivity::Steer)
        } else if self.has_pending_mailbox_items() {
            Some(InputQueueActivity::Mailbox)
        } else {
            None
        }
    }

    /// Steers a turn: adds input to it and has it take mail again.
    pub fn steer(&mut self, turn: &mut TurnState, input: Vec<TurnInput>)
        ensures
            final(turn).pending_input@ == old(turn).pending_input@ + input@,
            final(turn).mailbox_delivery_phase == MailboxDeliveryPhase::CurrentTurn,
            final(self).mails == old(self).mails,
            final(self).activity == InputQueueActivity::Steer,
    {
        turn.extend_pending_input(input);
        turn.accept_mailbox_delivery_for_current_turn();
        self.activity = InputQueueActivity::Steer;
    }

    /// Takes what waits: first what waits for the turn, then the mail. A turn
    /// that leaves mail to the next one takes nothing.
    pub fn get_pending_input(&mut self, turn: Option<&mut TurnState>) -> (r: (
        Vec<TurnInput>,
        TurnStartOptions,
    ))
        ensures
            match turn {
                Some(t) => if t.mailbox_delivery_phase == MailboxDeliveryPhase::CurrentTurn {
                    &&& r.0@ == t.pending_input@ + mail_inputs(old(self).mails@)
                    &&& r.1@ == combined(old(self).mails@)
                    &&& final(self).mails@.len() == 0
                    &&& final(t).pending_input@.len() == 0
                    &&& final(t).mailbox_delivery_phase == t.mailbox_delivery_phase
                } else {
                    &&& r.0@.len() == 0
                    &&& r.1@ == no_options()
                    &&& final(self).mails == old(self).mails
                    &&& *final(t) == *t
                },
                None => {
                    &&& r.0@ == mail_inputs(old(self).mails@)
                    &&& r.1@ == combined(old(self).mails@)
                    &&& final(self).mails@.len() == 0
                },
            },
            final(self).activity == old(self).activity,
    {
        match turn {
            Some(turn) => {
                if turn.mailbox_delivery_phase == MailboxDeliveryPhase::NextTurn {
                    return (Vec::new(), TurnStartOptions::default());
                }
                let mut pending = turn.take_pending_input();
                let (mail, options) = self.drain_mailbox_input_items();
                let mut mail = mail;
                pending.append(&mut mail);
                (pending, options)
            },
            None => self.drain_mailbox_input_items(),
        }
    }

    /// Whether something waits that would be taken.
    pub fn has_pending_input(&self, turn: Option<&TurnState>) -> (r: bool)
        ensures
            r == match turn {
                Some(turn) => turn.mailbox_delivery_phase == MailboxDeliveryPhase::CurrentTurn && (
                turn.pending_input@.len() > 0 || self.mails@.len() > 0),
                None => self.mails@.len() > 0,
            },
    {
        match turn {
            Some(turn) => {
                if turn.mailbox_delivery_phase == MailboxDeliveryPhase::NextTurn {
                    return false;
                }
                turn.pending_input.len() > 0 || self.has_pending_mailbox_items()
            },
            None => self.has_pending_mailbox_items(),
        }
    }
}

/// The root that a turn without one takes over from the mail that it took in.
pub fn adopted_root(turn_root: &Option<String>, start_options: &TurnStartOptions) -> (r: Option<
    String,
>)
    ensures
        text_view(r) == if text_view(*turn_root) is None {
            start_options@.root
        } else {
            None
        },
{
    if turn_root.is_none() {
        copy_text(&start_options.root_turn_id)
    } else {
        None
    }
}

/// Where every mail that triggers a turn names the same parent, that is the
/// turn's parent; where two differ, it has none.
pub proof fn a_parent_is_unambiguous(mails: Seq<PendingMail>, i: int)
    requires
        0 <= i < mails.len(),
        mails[i].communication.trigger_turn,
    ensures
        agreed_parent(mails) is Some,
        agreed_parent(mails) matches Some(Some(parent)) ==> mails[i].start_options@.parent == Some(
            parent,
        ),
    decreases mails.len(),
{
    if i < mails.len() - 1 {
        a_parent_is_unambiguous(mails.drop_last(), i);
        assert(mails.drop_last()[i] == mails[i]);
    }
}

/// Mail becomes input one for one, in the order in which it came.
pub proof fn mail_is_delivered_in_order(mails: Seq<PendingMail>, i: int)
    ensures
        mail_inputs(mails).len() == mails.len(),
        0 <= i < mails.len() ==> mail_inputs(mails)[i] == TurnInput::InterAgentCommunication(
            mails[i].communication,
        ),
{
}

/// The messages that are taken out are those by agents at or below the paths, in
/// order, and those that stay are the others, in order.
pub proof fn messages_are_taken_out_by_author(mails: Seq<PendingMail>, roots: Seq<String>)
    ensures
        ({
            let theirs = mails.filter(
                |m: PendingMail| in_subtrees(m.communication.author@, roots),
            );
            &&& extracted_mails(mails, roots).len() == theirs.len()
            &&& forall|i: int|
                0 <= i < theirs.len() ==> #[trigger] extracted_mails(mails, roots)[i]
                    == theirs[i].communication
        }),
        retained_mails(mails, roots) == mails.filter(
            |m: PendingMail| !in_subtrees(m.communication.author@, roots),
        ),
    decreases mails.len(),
{
    reveal(Seq::filter);
    if mails.len() > 0 {
        let rest = mails.drop_last();
        messages_are_taken_out_by_author(rest, roots);
        let before = rest.filter(|m: PendingMail| in_subtrees(m.communication.author@, roots));
        let theirs = mails.filter(|m: PendingMail| in_subtrees(m.communication.author@, roots));
        assert(theirs == if in_subtrees(mails.last().communication.author@, roots) {
            before.push(mails.last())
        } else {
            before
        });
        assert forall|i: int| 0 <= i < theirs.len() implies #[trigger] extracted_mails(
            mails,
            roots,
        )[i] == theirs[i].communication by {
            if i < before.len() {
                assert(extracted_mails(mails, roots)[i] == extracted_mails(rest, roots)[i]);
            }
        }
    }
}

/// A turn is started with the choices of the last mail that triggers one.
pub proof fn the_last_trigger_chooses(mails: Seq<PendingMail>, i: int)
    requires
        0 <= i < mails.len(),
        mails[i].communication.trigger_turn,
        forall|j: int| i < j < mails.len() ==> !(#[trigger] mails[j]).communication.trigger_turn,
    ensures
        combined(mails).program == mails[i].start_options.cyber_access_program,
        combined(mails).rest == mails[i].start_options.rest,
    decreases mails.len(),
{
    if i < mails.len() - 1 {
        let rest = mails.drop_last();
        assert(rest[i] == mails[i]);
        assert forall|j: int| i < j < rest.len() implies !(
        #[trigger] rest[j]).communication.trigger_turn by {
            assert(rest[j] == mails[j]);
        }
        the_last_trigger_chooses(rest, i);
        assert(!mails[mails.len() - 1].communication.trigger_turn);
    }
}

/// Without a mail that triggers one, a turn is started without choices.
pub proof fn without_a_trigger_nothing_is_chosen(mails: Seq<PendingMail>)
    requires
        forall|j: int| 0 <= j < mails.len() ==> !(#[trigger] mails[j]).communication.trigger_turn,
    ensures
        combined(mails).parent is None,
        combined(mails).root is None,
        combined(mails).program is None,
        combined(mails).rest is None,
    decreases mails.len(),
{
    if mails.len() > 0 {
        let rest = mails.drop_last();
        assert forall|j: int| 0 <= j < rest.len() implies !(
        #[trigger] rest[j]).communication.trigger_turn by {
            assert(rest[j] == mails[j]);
        }
        without_a_trigger_nothing_is_chosen(rest);
        assert(!mails[mails.len() - 1].communication.trigger_turn);
        assert(last_choice(rest) == last_choice(mails));
    }
}

/// Where all the mails that trigger a turn name one parent, it is the turn's,
/// unless it is blank; where two of them differ, the turn has none.
pub proof fn the_parent_is_what_all_name(mails: Seq<PendingMail>, parent: Seq<char>, i: int, j: int)
    requires
        0 <= i < mails.len(),
        mails[i].communication.trigger_turn,
    ensures
        (forall|k: int|
            0 <= k < mails.len() && (#[trigger] mails[k]).communication.trigger_turn ==> text_view(
                mails[k].start_options.parent_turn_id,
            ) == Some(parent)) ==> combined(mails).parent == if blank(parent) {
            None
        } else {
            Some(parent)
        },
        0 <= j < mails.len() && mails[j].communication.trigger_turn && text_view(
            mails[i].start_options.parent_turn_id,
        ) != text_view(mails[j].start_options.parent_turn_id) ==> combined(mails).parent is None,
        text_view(mails[i].start_options.parent_turn_id) is None ==> combined(mails).parent is None,
{
    a_parent_is_unambiguous(mails, i);
    if 0 <= j < mails.len() && mails[j].communication.trigger_turn {
        a_parent_is_unambiguous(mails, j);
    }
    if forall|k: int|
        0 <= k < mails.len() && (#[trigger] mails[k]).communication.trigger_turn ==> text_view(
            mails[k].start_options.parent_turn_id,
        ) == Some(parent) {
        lemma_all_agree(mails, parent);
    }
}

proof fn lemma_all_agree(mails: Seq<PendingMail>, parent: Seq<char>)
    requires
        forall|k: int|
            0 <= k < mails.len() && (#[trigger] mails[k]).communication.trigger_turn ==> text_view(
                mails[k].start_options.parent_turn_id,
            ) == Some(parent),
    ensures
        agreed_parent(mails) is None || agreed_parent(mails) == Some(Some(parent)),
    decreases mails.len(),
{
    if mails.len() > 0 {
        let rest = mails.drop_last();
        assert forall|k: int|
            0 <= k < rest.len() && (#[trigger] rest[k]).communication.trigger_turn implies text_view(
            rest[k].start_options.parent_turn_id,
        ) == Some(parent) by {
            assert(rest[k] == mails[k]);
        }
        lemma_all_agree(rest, parent);
        assert(mails[mails.len() - 1] == mails.last());
    }
}

/// A turn's root is that of the first mail that triggers one, where that mail
/// names a parent and a root that say something.
pub proof fn the_root_is_of_the_first_trigger(mails: Seq<PendingMail>, i: int)
    requires
        0 <= i < mails.len(),
        mails[i].communication.trigger_turn,
        forall|j: int| 0 <= j < i ==> !(#[trigger] mails[j]).communication.trigger_turn,
    ensures
        combined(mails).root == match (
            text_view(mails[i].start_options.parent_turn_id),
            text_view(mails[i].start_options.root_turn_id),
        ) {
            (Some(parent), Some(root)) => if blank(parent) || blank(root) {
                None
            } else {
                Some(root)
            },
            _ => None,
        },
{
    lemma_first_root(mails, i);
}

proof fn lemma_first_root(mails: Seq<PendingMail>, i: int)
    requires
        0 <= i < mails.len(),
        mails[i].communication.trigger_turn,
        forall|j: int| 0 <= j < i ==> !(#[trigger] mails[j]).communication.trigger_turn,
    ensures
        first_root(mails) == Some(
            if meaningful(mails[i].start_options@.parent) is Some {
                meaningful(mails[i].start_options@.root)
            } else {
                None
            },
        ),
    decreases mails.len(),
{
    let rest = mails.drop_last();
    if i < mails.len() - 1 {
        assert(rest[i] == mails[i]);
        assert forall|j: int| 0 <= j < i implies !(
        #[trigger] rest[j]).communication.trigger_turn by {
            assert(rest[j] == mails[j]);
        }
        lemma_first_root(rest, i);
    } else {
        assert forall|j: int| 0 <= j < rest.len() implies !(
        #[trigger] rest[j]).communication.trigger_turn by {
            assert(rest[j] == mails[j]);
        }
        lemma_no_root(rest);
    }
}

proof fn lemma_no_root(mails: Seq<PendingMail>)
    requires
        forall|j: int| 0 <= j < mails.len() ==> !(#[trigger] mails[j]).communication.trigger_turn,
    ensures
        first_root(mails) is None,
    decreases mails.len(),
{
    if mails.len() > 0 {
        let rest = mails.drop_last();
        assert forall|j: int| 0 <= j < rest.len() implies !(
        #[trigger] rest[j]).communication.trigger_turn by {
            assert(rest[j] == mails[j]);
        }
        lemma_no_root(rest);
        assert(!mails[mails.len() - 1].communication.trigger_turn);
    }
}

/// What the user sends and the outputs of calls steer a turn; mail and other
/// items do not. Mail that triggers no turn can wait.
pub proof fn what_steers_a_turn(input: TurnInput)
    ensures
        has_steer(seq![input]) <==> input is UserInput || input is FunctionCallOutput,
        is_queued_mail(input) <==> (input matches TurnInput::InterAgentCommunication(mail)
            && !mail.trigger_turn),
{
    let items = seq![input];
    assert(items[0] == input);
}

} // verus!
