//! Recorded sampling attempts: how they are written into a rollout, how they
//! are read back, and whether a rollout is replayed from them.

use crate::rollout_source::{
    effective_rollout, ArchiveRecord, ArchivedRecord, PayloadError, RolloutEntry,
};
use crate::text::decimal;
use vstd::prelude::*;

verus! {

use crate::rollout_source::{effective, entries, numbered, Numbered, ReplaySeedItem};
use crate::text::decimal_text;

/// The version in which records are written.
pub const SPINE_ROLLOUT_VERSION: u32 = 2;

/// What can go wrong while the task tree is kept.
#[derive(Debug, PartialEq, Eq)]
#[allow(inconsistent_fields)]
pub enum CoordinatorError {
    Identity(String),
    Planner(String),
    Sampling(String),
    Archive(String),
    Codec(String),
    ContextPlan(String),
    Replay(String),
    UnsupportedVersion(u32),
    DurabilityFaulted(String),
}

/// The model of a [`CoordinatorError`].
#[allow(inconsistent_fields)]
pub ghost enum ErrorModel {
    Identity(Seq<char>),
    Planner(Seq<char>),
    Sampling(Seq<char>),
    Archive(Seq<char>),
    Codec(Seq<char>),
    ContextPlan(Seq<char>),
    Replay(Seq<char>),
    UnsupportedVersion(u32),
    DurabilityFaulted(Seq<char>),
}

impl View for CoordinatorError {
    type V = ErrorModel;

    open spec fn view(&self) -> ErrorModel {
        match *self {
            CoordinatorError::Identity(text) => ErrorModel::Identity(text@),
            CoordinatorError::Planner(text) => ErrorModel::Planner(text@),
            CoordinatorError::Sampling(text) => ErrorModel::Sampling(text@),
            CoordinatorError::Archive(text) => ErrorModel::Archive(text@),
            CoordinatorError::Codec(text) => ErrorModel::Codec(text@),
            CoordinatorError::ContextPlan(text) => ErrorModel::ContextPlan(text@),
            CoordinatorError::Replay(text) => ErrorModel::Replay(text@),
            CoordinatorError::UnsupportedVersion(version) => ErrorModel::UnsupportedVersion(
                version,
            ),
            CoordinatorError::DurabilityFaulted(text) => ErrorModel::DurabilityFaulted(text@),
        }
    }
}

/// The text of an error.
pub open spec fn error_text(error: ErrorModel) -> Seq<char> {
    match error {
        ErrorModel::Identity(text) => "invalid Spine identity: "@ + text,
        ErrorModel::Planner(text) => "Spine planner failed: "@ + text,
        ErrorModel::Sampling(text) => "Spine sampling failed: "@ + text,
        ErrorModel::Archive(text) => "Spine archive failed: "@ + text,
        ErrorModel::Codec(text) => "Spine rollout codec failed: "@ + text,
        ErrorModel::ContextPlan(text) => "Spine context plan failed: "@ + text,
        ErrorModel::Replay(text) => "Spine replay failed: "@ + text,
        ErrorModel::UnsupportedVersion(version) => "unsupported Spine rollout version "@
            + decimal_text(version as nat),
        ErrorModel::DurabilityFaulted(text) => "Spine durability is faulted: "@ + text,
    }
}

fn prefixed(prefix: &str, text: &str) -> (r: String)
    ensures
        r@ == prefix@ + text@,
{
    let mut message = String::from_str(prefix);
    message.append(text);
    message
}

impl CoordinatorError {
    /// The error in words.
    pub fn message(&self) -> (r: String)
        ensures
            r@ == error_text(self@),
    {
        match self {
            CoordinatorError::Identity(text) => prefixed("invalid Spine identity: ", text.as_str()),
            CoordinatorError::Planner(text) => prefixed("Spine planner failed: ", text.as_str()),
            CoordinatorError::Sampling(text) => prefixed("Spine sampling failed: ", text.as_str()),
            CoordinatorError::Archive(text) => prefixed("Spine archive failed: ", text.as_str()),
            CoordinatorError::Codec(text) => prefixed(
                "Spine rollout codec failed: ",
                text.as_str(),
            ),
            CoordinatorError::ContextPlan(text) => prefixed(
                "Spine context plan failed: ",
                text.as_str(),
            ),
            CoordinatorError::Replay(text) => prefixed("Spine replay failed: ", text.as_str()),
            CoordinatorError::UnsupportedVersion(version) => prefixed(
                "unsupported Spine rollout version ",
                decimal(*version as u64).as_str(),
            ),
            CoordinatorError::DurabilityFaulted(text) => prefixed(
                "Spine durability is faulted: ",
                text.as_str(),
            ),
        }
    }
}

impl ArchiveRecord {
    /// A copy of the record.
    pub fn copy(&self) -> (r: ArchiveRecord)
        ensures
            r == *self,
    {
        match self {
            ArchiveRecord::SamplingStarted { thread, record } => ArchiveRecord::SamplingStarted {
                thread: thread.clone(),
                record: *record,
            },
            ArchiveRecord::SamplingCommit { thread, record } => ArchiveRecord::SamplingCommit {
                thread: thread.clone(),
                record: *record,
            },
        }
    }
}

/// What is written for the start of a sampling attempt.
pub fn encode_spine_sampling_started(record: ArchiveRecord) -> (r: Result<
    ArchivedRecord,
    CoordinatorError,
>)
    ensures
        match r {
            Ok(archived) => record is SamplingStarted && archived == (ArchivedRecord {
                version: SPINE_ROLLOUT_VERSION,
                payload: Ok(record),
            }),
            Err(error) => !(record is SamplingStarted) && error@ == ErrorModel::Archive(
                "Spine sampling-start item requires a sampling-started record"@,
            ),
        },
{
    match record {
        ArchiveRecord::SamplingStarted { .. } => Ok(
            ArchivedRecord { version: SPINE_ROLLOUT_VERSION, payload: Ok(record) },
        ),
        _ => Err(
            CoordinatorError::Archive(
                "Spine sampling-start item requires a sampling-started record".to_owned(),
            ),
        ),
    }
}

/// What is written for a sampling commit.
pub fn encode_spine_transition(record: ArchiveRecord) -> (r: Result<
    ArchivedRecord,
    CoordinatorError,
>)
    ensures
        match r {
            Ok(archived) => record is SamplingCommit && archived == (ArchivedRecord {
                version: SPINE_ROLLOUT_VERSION,
                payload: Ok(record),
            }),
            Err(error) => !(record is SamplingCommit) && error@ == ErrorModel::Archive(
                "Spine transition item requires a sampling commit"@,
            ),
        },
{
    match record {
        ArchiveRecord::SamplingCommit { .. } => Ok(
            ArchivedRecord { version: SPINE_ROLLOUT_VERSION, payload: Ok(record) },
        ),
        _ => Err(
            CoordinatorError::Archive(
                "Spine transition item requires a sampling commit".to_owned(),
            ),
        ),
    }
}

/// What an archived record holds, or why it cannot be read.
pub open spec fn unarchived(archived: ArchivedRecord) -> Result<ArchiveRecord, ErrorModel> {
    if archived.version != 1 && archived.version != SPINE_ROLLOUT_VERSION {
        Err(ErrorModel::UnsupportedVersion(archived.version))
    } else {
        match archived.payload {
            Ok(record) => Ok(record),
            Err(PayloadError::Codec(text)) => Err(ErrorModel::Codec(text@)),
            Err(PayloadError::Archive(text)) => Err(ErrorModel::Archive(text@)),
        }
    }
}

/// The record that an entry of a rollout carries, if it carries one.
pub open spec fn decoded(entry: RolloutEntry) -> Result<Option<ArchiveRecord>, ErrorModel> {
    match entry {
        RolloutEntry::SamplingStarted { record, .. } => match unarchived(record) {
            Err(error) => Err(error),
            Ok(record) => if record is SamplingStarted {
                Ok(Some(record))
            } else {
                Err(mismatch())
            },
        },
        RolloutEntry::Transition { record } => match unarchived(record) {
            Err(error) => Err(error),
            Ok(record) => if record is SamplingCommit {
                Ok(Some(record))
            } else {
                Err(mismatch())
            },
        },
        _ => Ok(None),
    }
}

/// The error of an entry whose record is of another kind.
pub open spec fn mismatch() -> ErrorModel {
    ErrorModel::Archive("Spine rollout item kind does not match its archive record"@)
}

fn decode_record<'a>(archived: &'a ArchivedRecord) -> (r: Result<
    &'a ArchiveRecord,
    CoordinatorError,
>)
    ensures
        match r {
            Ok(record) => unarchived(*archived) == Ok::<ArchiveRecord, ErrorModel>(*record),
            Err(error) => unarchived(*archived) == Err::<ArchiveRecord, ErrorModel>(error@),
        },
{
    if archived.version != 1 && archived.version != SPINE_ROLLOUT_VERSION {
        return Err(CoordinatorError::UnsupportedVersion(archived.version));
    }
    match &archived.payload {
        Ok(record) => Ok(record),
        Err(PayloadError::Codec(text)) => Err(CoordinatorError::Codec(text.clone())),
        Err(PayloadError::Archive(text)) => Err(CoordinatorError::Archive(text.clone())),
    }
}

fn mismatch_error() -> (r: CoordinatorError)
    ensures
        r@ == mismatch(),
{
    CoordinatorError::Archive(
        "Spine rollout item kind does not match its archive record".to_owned(),
    )
}

/// The record that an entry of a rollout carries.
pub fn decode_spine_rollout_item<'a>(entry: &'a RolloutEntry) -> (r: Result<
    Option<&'a ArchiveRecord>,
    CoordinatorError,
>)
    ensures
        match r {
            Ok(Some(record)) => decoded(*entry) == Ok::<Option<ArchiveRecord>, ErrorModel>(
                Some(*record),
            ),
            Ok(None) => decoded(*entry) == Ok::<Option<ArchiveRecord>, ErrorModel>(None),
            Err(error) => decoded(*entry) == Err::<Option<ArchiveRecord>, ErrorModel>(error@),
        },
{
    match entry {
        RolloutEntry::SamplingStarted { record, .. } => match decode_record(record) {
            Err(error) => Err(error),
            Ok(record) => match record {
                ArchiveRecord::SamplingStarted { .. } => Ok(Some(record)),
                _ => Err(mismatch_error()),
            },
        },
        RolloutEntry::Transition { record } => match decode_record(record) {
            Err(error) => Err(error),
            Ok(record) => match record {
                ArchiveRecord::SamplingCommit { .. } => Ok(Some(record)),
                _ => Err(mismatch_error()),
            },
        },
        _ => Ok(None),
    }
}

/// A record comes back from the entry that it was written into.
pub proof fn records_come_back(
    record: ArchiveRecord,
    sdk_config: Option<String>,
    replay_seed: Option<Result<Vec<ReplaySeedItem>, String>>,
)
    ensures
        record is SamplingStarted ==> decoded(
            RolloutEntry::SamplingStarted {
                record: ArchivedRecord { version: SPINE_ROLLOUT_VERSION, payload: Ok(record) },
                sdk_config,
                replay_seed,
            },
        ) == Ok::<Option<ArchiveRecord>, ErrorModel>(Some(record)),
        record is SamplingCommit ==> decoded(
            RolloutEntry::Transition {
                record: ArchivedRecord { version: SPINE_ROLLOUT_VERSION, payload: Ok(record) },
            },
        ) == Ok::<Option<ArchiveRecord>, ErrorModel>(Some(record)),
{
}

/// How a rollout is replayed.
#[derive(Debug, PartialEq, Eq)]
#[allow(inconsistent_fields)]
pub enum ReplayMode {
    Native,
    Canonical { thread: String, records: Vec<ArchiveRecord> },
}

/// The records of a rollout in effect, or why one of them cannot be read.
pub open spec fn archived_records(list: Seq<Numbered>) -> Result<Seq<ArchiveRecord>, ErrorModel>
    decreases list.len(),
{
    if list.len() == 0 {
        Ok(Seq::empty())
    } else {
        match archived_records(list.drop_last()) {
            Err(error) => Err(error),
            Ok(before) => match decoded(list.last().1) {
                Err(error) => Err(error),
                Ok(None) => Ok(before),
                Ok(Some(record)) => Ok(before.push(record)),
            },
        }
    }
}

/// The thread that the first sampling attempt was made in.
pub open spec fn sampling_thread(records: Seq<ArchiveRecord>) -> Option<Seq<char>>
    decreases records.len(),
{
    if records.len() == 0 {
        None
    } else {
        match sampling_thread(records.drop_last()) {
            Some(thread) => Some(thread),
            None => match records.last() {
                ArchiveRecord::SamplingStarted { thread, .. } => Some(thread@),
                _ => None,
            },
        }
    }
}

/// Whether anything was committed.
pub open spec fn has_commit(records: Seq<ArchiveRecord>) -> bool {
    exists|i: int| 0 <= i < records.len() && #[trigger] records[i] is SamplingCommit
}

/// The error of commits that no sampling attempt precedes.
pub open spec fn orphan_commit() -> ErrorModel {
    ErrorModel::Replay("canonical sampling commit has no matching sampling-started record"@)
}

/// What reading one part of a list says of the whole where it fails.
proof fn lemma_archived_error(list: Seq<Numbered>, n: int)
    requires
        0 <= n <= list.len(),
        archived_records(list.take(n)) is Err,
    ensures
        archived_records(list) == archived_records(list.take(n)),
    decreases list.len() - n,
{
    if n == list.len() {
        assert(list.take(n) =~= list);
    } else {
        assert(list.take(n + 1).drop_last() =~= list.take(n));
        lemma_archived_error(list, n + 1);
    }
}

/// How a rollout in effect is replayed: from its records where a sampling
/// attempt was made.
pub fn replay_mode(list: &Vec<(usize, &RolloutEntry)>) -> (r: Result<ReplayMode, CoordinatorError>)
    ensures
        match archived_records(entries(list@)) {
            Err(error) => r matches Err(e) && e@ == error,
            Ok(records) => match sampling_thread(records) {
                Some(thread) => r matches Ok(ReplayMode::Canonical { thread: t, records: rs })
                    && t@ == thread && rs@ == records,
                None => if has_commit(records) {
                    r matches Err(e) && e@ == orphan_commit()
                } else {
                    r matches Ok(ReplayMode::Native)
                },
            },
        },
{
    let ghost all = entries(list@);
    let mut thread: Option<String> = None;
    let mut commit = false;
    let mut records: Vec<ArchiveRecord> = Vec::new();
    let mut i: usize = 0;
    assert(all.take(0) =~= Seq::empty());
    assert(records@ =~= Seq::empty());
    while i < list.len()
        invariant
            i <= list@.len(),
            all == entries(list@),
            archived_records(all.take(i as int)) == Ok::<Seq<ArchiveRecord>, ErrorModel>(records@),
            match thread {
                Some(t) => sampling_thread(records@) == Some(t@),
                None => sampling_thread(records@) is None,
            },
            commit == has_commit(records@),
        decreases list@.len() - i,
    {
        proof {
            let upto = all.take(i + 1);
            assert(upto.drop_last() =~= all.take(i as int));
            assert(upto.last() == all[i as int]);
        }
        match decode_spine_rollout_item(list[i].1) {
            Err(error) => {
                proof {
                    lemma_archived_error(all, i + 1);
                }
                return Err(error);
            },
            Ok(None) => {},
            Ok(Some(record)) => {
                let ghost before = records@;
                match record {
                    ArchiveRecord::SamplingStarted { thread: started, .. } => {
                        if thread.is_none() {
                            thread = Some(started.clone());
                        }
                    },
                    ArchiveRecord::SamplingCommit { .. } => {
                        commit = true;
                    },
                }
                records.push(record.copy());
                proof {
                    assert(records@.drop_last() =~= before);
                    assert(has_commit(records@) == (has_commit(before)
                        || *record is SamplingCommit)) by {
                        if has_commit(before) {
                            let w = choose|w: int|
                                0 <= w < before.len() && #[trigger] before[w] is SamplingCommit;
                            assert(records@[w] is SamplingCommit);
                        }
                        if *record is SamplingCommit {
                            assert(records@[before.len() as int] is SamplingCommit);
                        }
                        if has_commit(records@) && !(*record is SamplingCommit) {
                            let w = choose|w: int|
                                0 <= w < records@.len() && #[trigger] records@[w] is SamplingCommit;
                            assert(before[w] is SamplingCommit);
                        }
                    }
                }
            },
        }
        i = i + 1;
    }
    assert(all.take(i as int) =~= all);
    match thread {
        Some(thread) => Ok(ReplayMode::Canonical { thread, records }),
        None => {
            if commit {
                return Err(
                    CoordinatorError::Replay(
                        "canonical sampling commit has no matching sampling-started record".to_owned(),
                    ),
                );
            }
            Ok(ReplayMode::Native)
        },
    }
}

/// Whether a rollout is replayed from its records.
pub fn is_canonical_rollout(rollout: &Vec<RolloutEntry>) -> (r: Result<bool, CoordinatorError>)
    ensures
        match archived_records(effective(numbered(rollout@))) {
            Err(error) => r matches Err(e) && e@ == error,
            Ok(records) => if sampling_thread(records) is Some {
                r == Ok::<bool, CoordinatorError>(true)
            } else if has_commit(records) {
                r matches Err(e) && e@ == orphan_commit()
            } else {
                r == Ok::<bool, CoordinatorError>(false)
            },
        },
{
    match replay_mode(&effective_rollout(rollout)) {
        Ok(ReplayMode::Canonical { .. }) => Ok(true),
        Ok(ReplayMode::Native) => Ok(false),
        Err(error) => Err(error),
    }
}

/// What is said where records do not fit together.
pub proof fn ill_fitting_records_are_named()
    ensures
        error_text(mismatch()) == error_text(
            ErrorModel::Archive("Spine rollout item kind does not match its archive record"@),
        ),
        mismatch() is Archive && orphan_commit() is Replay,
        orphan_commit() == ErrorModel::Replay(
            "canonical sampling commit has no matching sampling-started record"@,
        ),
        mismatch() == ErrorModel::Archive(
            "Spine rollout item kind does not match its archive record"@,
        ),
{
}

/// A record is read where it is of the first version or of the current one, and
/// then as it stands; any other version is named, and what cannot be read is
/// reported in its own words.
pub proof fn which_records_are_read(archived: ArchivedRecord)
    ensures
        archived.version == 1 || archived.version == 2 ==> match archived.payload {
            Ok(record) => unarchived(archived) == Ok::<ArchiveRecord, ErrorModel>(record),
            Err(PayloadError::Codec(text)) => unarchived(archived) == Err::<
                ArchiveRecord,
                ErrorModel,
            >(ErrorModel::Codec(text@)),
            Err(PayloadError::Archive(text)) => unarchived(archived) == Err::<
                ArchiveRecord,
                ErrorModel,
            >(ErrorModel::Archive(text@)),
        },
        archived.version != 1 && archived.version != 2 ==> unarchived(archived) == Err::<
            ArchiveRecord,
            ErrorModel,
        >(ErrorModel::UnsupportedVersion(archived.version)),
{
}

} // verus!
