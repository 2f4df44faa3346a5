//! What is decided about a feedback report before it is sent.

use crate::debug_bundle::{BundleBuildError, ROLLOUT_DEBUG_CONTENT_TYPE};
use crate::screenshots::FeedbackAttachment;
use crate::text::{byte_size, decimal, same_text};
use crate::text_map::TextMap;
use crate::text_order::insert_in_order;
use vstd::prelude::*;

verus! {

use crate::debug_bundle::build_error_text;
use crate::text::{byte_len, decimal_text};
use crate::text_order::{has_text, in_text_order, text_set};

/// Whose fault a refusal is.
#[derive(Clone, Copy, Debug, PartialEq, Eq, Structural)]
pub enum FeedbackErrorKind {
    InvalidRequest,
    Internal,
}

/// Why a report was not sent.
#[derive(Debug, PartialEq, Eq)]
pub struct FeedbackError {
    pub kind: FeedbackErrorKind,
    pub message: String,
}

impl FeedbackError {
    /// Whether the error is of a kind and says a text.
    pub open spec fn says(&self, kind: FeedbackErrorKind, message: Seq<char>) -> bool {
        self.kind == kind && self.message@ == message
    }
}

fn invalid_request(message: &str) -> (r: FeedbackError)
    ensures
        r.says(FeedbackErrorKind::InvalidRequest, message@),
{
    FeedbackError { kind: FeedbackErrorKind::InvalidRequest, message: message.to_owned() }
}

/// Feedback is offered where a Spine feature is on.
pub fn spine_feedback_enabled_by(spine_jit: bool, spine_spawn: bool) -> (r: bool)
    ensures
        r == (spine_jit || spine_spawn),
{
    spine_jit || spine_spawn
}

/// What is wrong with a request before its thread is looked up, if anything.
pub open spec fn request_complaint(
    feedback_enabled: bool,
    note: Option<Seq<char>>,
    max_note_bytes: usize,
) -> Option<Seq<char>> {
    if !feedback_enabled {
        Some("sending feedback is disabled by configuration"@)
    } else if note matches Some(text) && byte_len(text) > max_note_bytes {
        Some(
            "Spine feedback note exceeds "@ + decimal_text(max_note_bytes as nat) + " bytes"@,
        )
    } else {
        None
    }
}

/// A text that may be absent.
pub open spec fn optional_text(value: Option<&str>) -> Option<Seq<char>> {
    match value {
        Some(text) => Some(text@),
        None => None,
    }
}

/// Refuses a request when feedback is off or its note too long.
pub fn check_request(feedback_enabled: bool, note: Option<&str>, max_note_bytes: usize) -> (r:
    Result<(), FeedbackError>)
    ensures
        match request_complaint(feedback_enabled, optional_text(note), max_note_bytes) {
            Some(message) => r matches Err(error) && error.says(
                FeedbackErrorKind::InvalidRequest,
                message,
            ),
            None => r is Ok,
        },
{
    if !feedback_enabled {
        return Err(invalid_request("sending feedback is disabled by configuration"));
    }
    if let Some(text) = note {
        if byte_size(text) > max_note_bytes {
            let mut message = String::from_str("Spine feedback note exceeds ");
            message.append(decimal(max_note_bytes as u64).as_str());
            message.append(" bytes");
            return Err(invalid_request(message.as_str()));
        }
    }
    Ok(())
}

/// How the root thread of a request answered.
#[derive(Debug)]
pub enum RootThread {
    /// The identifier is none, for the given reason.
    InvalidId(String),
    Inactive,
    Active { spine_jit: bool, spine_spawn: bool },
}

/// What is wrong with the root thread of a request, if anything.
pub open spec fn root_complaint(root: RootThread) -> Option<Seq<char>> {
    match root {
        RootThread::InvalidId(reason) => Some("invalid thread id: "@ + reason@),
        RootThread::Inactive => Some("Spine feedback requires an active thread"@),
        RootThread::Active { spine_jit, spine_spawn } => if spine_jit || spine_spawn {
            None
        } else {
            Some("feedback/spineUpload requires a Spine-enabled thread"@)
        },
    }
}

/// Accepts only an active thread with a Spine feature.
pub fn check_root_thread(root: &RootThread) -> (r: Result<(), FeedbackError>)
    ensures
        match root_complaint(*root) {
            Some(message) => r matches Err(error) && error.says(
                FeedbackErrorKind::InvalidRequest,
                message,
            ),
            None => r is Ok,
        },
{
    match root {
        RootThread::InvalidId(reason) => {
            let mut message = String::from_str("invalid thread id: ");
            message.append(reason.as_str());
            Err(invalid_request(message.as_str()))
        },
        RootThread::Inactive => Err(invalid_request("Spine feedback requires an active thread")),
        RootThread::Active { spine_jit, spine_spawn } => {
            if spine_feedback_enabled_by(*spine_jit, *spine_spawn) {
                Ok(())
            } else {
                Err(invalid_request("feedback/spineUpload requires a Spine-enabled thread"))
            }
        },
    }
}

/// The threads of a subtree: the root first, then every other one once, in the
/// order of their identifiers.
pub fn normalize_subtree_thread_ids(root_thread_id: &str, thread_ids: &Vec<String>) -> (r: Vec<
    String,
>)
    ensures
        r@.len() > 0,
        r@[0]@ == root_thread_id@,
        in_text_order(r@.skip(1)),
        text_set(r@.skip(1)) == text_set(thread_ids@).remove(root_thread_id@),
{
    let mut descendants: Vec<String> = Vec::new();
    let mut i: usize = 0;
    assert(text_set(descendants@) =~= text_set(thread_ids@.take(0)).remove(root_thread_id@));
    while i < thread_ids.len()
        invariant
            i <= thread_ids@.len(),
            in_text_order(descendants@),
            text_set(descendants@) == text_set(thread_ids@.take(i as int)).remove(root_thread_id@),
        decreases thread_ids@.len() - i,
    {
        let ghost part = text_set(thread_ids@.take(i as int));
        proof {
            lemma_one_more(thread_ids@, i as int);
        }
        if !same_text(thread_ids[i].as_str(), root_thread_id) {
            insert_in_order(&mut descendants, thread_ids[i].clone());
            assert(part.remove(root_thread_id@).insert(thread_ids@[i as int]@) =~= part.insert(
                thread_ids@[i as int]@,
            ).remove(root_thread_id@));
        } else {
            assert(part.remove(root_thread_id@) =~= part.insert(thread_ids@[i as int]@).remove(
                root_thread_id@,
            ));
        }
        i = i + 1;
    }
    assert(thread_ids@.take(i as int) =~= thread_ids@);
    let ghost others = descendants@;
    descendants.insert(0, root_thread_id.to_owned());
    assert(descendants@.skip(1) =~= others);
    descendants
}

proof fn lemma_one_more(list: Seq<String>, i: int)
    requires
        0 <= i < list.len(),
    ensures
        text_set(list.take(i + 1)) == text_set(list.take(i)).insert(list[i]@),
{
    let part = list.take(i);
    let next = list.take(i + 1);
    assert forall|t: Seq<char>| #[trigger] text_set(next).contains(t) == text_set(part).insert(
        list[i]@,
    ).contains(t) by {
        if has_text(part, t) {
            let k = choose|k: int| 0 <= k < part.len() && (#[trigger] part[k])@ == t;
            assert(next[k]@ == t);
        }
        if t == list[i]@ {
            assert(next[i]@ == t);
        }
        if has_text(next, t) && t != list[i]@ {
            let k = choose|k: int| 0 <= k < next.len() && (#[trigger] next[k])@ == t;
            assert(part[k]@ == t);
        }
    }
    assert(text_set(next) =~= text_set(part).insert(list[i]@));
}

/// Notes the parent that an active thread names.
pub fn note_active_parent(
    parents: &mut TextMap<String>,
    thread_id: &str,
    parent_thread_id: Option<String>,
)
    requires
        old(parents).wf(),
    ensures
        final(parents).wf(),
        final(parents)@ == (match parent_thread_id {
            Some(parent) => old(parents)@.insert(thread_id@, parent),
            None => old(parents)@,
        }),
{
    if let Some(parent) = parent_thread_id {
        parents.insert(thread_id.to_owned(), parent);
    }
}

/// The parents after the stored children of a thread are noted. A child outside
/// the subtree is passed over, and a parent that is known stays.
pub open spec fn with_stored_children(
    parents: Map<Seq<char>, Seq<char>>,
    subtree: Set<Seq<char>>,
    parent: Seq<char>,
    children: Set<Seq<char>>,
) -> Map<Seq<char>, Seq<char>> {
    Map::new(
        |id: Seq<char>|
            parents.contains_key(id) || (children.contains(id) && subtree.contains(id)),
        |id: Seq<char>|
            if parents.contains_key(id) {
                parents[id]
            } else {
                parent
            },
    )
}

/// A map of texts as the contracts speak of it.
pub open spec fn text_values(map: Map<Seq<char>, String>) -> Map<Seq<char>, Seq<char>> {
    map.map_values(|text: String| text@)
}

fn is_among(list: &Vec<String>, text: &str) -> (r: bool)
    ensures
        r == has_text(list@, text@),
{
    let mut i: usize = 0;
    while i < list.len()
        invariant
            i <= list@.len(),
            forall|k: int| 0 <= k < i ==> (#[trigger] list@[k])@ != text@,
        decreases list@.len() - i,
    {
        if same_text(list[i].as_str(), text) {
            assert(list@[i as int]@ == text@);
            return true;
        }
        i = i + 1;
    }
    false
}

/// Notes the stored children of a thread of the subtree.
pub fn note_stored_children(
    parents: &mut TextMap<String>,
    thread_ids: &Vec<String>,
    parent_thread_id: &str,
    child_thread_ids: &Vec<String>,
)
    requires
        old(parents).wf(),
    ensures
        final(parents).wf(),
        text_values(final(parents)@) == with_stored_children(
            text_values(old(parents)@),
            text_set(thread_ids@),
            parent_thread_id@,
            text_set(child_thread_ids@),
        ),
{
    let ghost first = text_values(parents@);
    let ghost subtree = text_set(thread_ids@);
    let mut i: usize = 0;
    assert(text_values(parents@) =~= with_stored_children(
        first,
        subtree,
        parent_thread_id@,
        text_set(child_thread_ids@.take(0)),
    ));
    while i < child_thread_ids.len()
        invariant
            i <= child_thread_ids@.len(),
            parents.wf(),
            subtree == text_set(thread_ids@),
            text_values(parents@) == with_stored_children(
                first,
                subtree,
                parent_thread_id@,
                text_set(child_thread_ids@.take(i as int)),
            ),
        decreases child_thread_ids@.len() - i,
    {
        let ghost before = parents@;
        let ghost child = child_thread_ids@[i as int]@;
        proof {
            lemma_one_more(child_thread_ids@, i as int);
        }
        let known = parents.get(child_thread_ids[i].as_str()).is_some();
        assert(known == text_values(before).contains_key(child));
        if is_among(thread_ids, child_thread_ids[i].as_str()) && !known {
            parents.insert(child_thread_ids[i].clone(), parent_thread_id.to_owned());
            assert(text_values(parents@) =~= text_values(before).insert(child, parent_thread_id@));
        }
        assert(text_values(parents@) =~= with_stored_children(
            first,
            subtree,
            parent_thread_id@,
            text_set(child_thread_ids@.take(i as int)).insert(child),
        ));
        i = i + 1;
    }
    assert(child_thread_ids@.take(i as int) =~= child_thread_ids@);
}

/// The bytes of several attachments together.
pub open spec fn attached_bytes(attachments: Seq<FeedbackAttachment>) -> nat
    decreases attachments.len(),
{
    if attachments.len() == 0 {
        0
    } else {
        attached_bytes(attachments.drop_last()) + attachments.last().buffer@.len()
    }
}

proof fn lemma_attached_bytes_grow(attachments: Seq<FeedbackAttachment>, n: int)
    requires
        0 <= n <= attachments.len(),
    ensures
        attached_bytes(attachments.take(n)) <= attached_bytes(attachments),
    decreases attachments.len() - n,
{
    if n == attachments.len() {
        assert(attachments.take(n) =~= attachments);
    } else {
        assert(attachments.take(n + 1).drop_last() =~= attachments.take(n));
        lemma_attached_bytes_grow(attachments, n + 1);
    }
}

/// The bytes that the screenshots leave to the rollout.
pub fn rollout_limit(max_attachment_bytes: usize, screenshots: &Vec<FeedbackAttachment>) -> (r:
    Result<usize, FeedbackError>)
    ensures
        if attached_bytes(screenshots@) > max_attachment_bytes {
            r matches Err(error) && error.says(
                FeedbackErrorKind::InvalidRequest,
                "Spine feedback screenshots exceed the attachment limit"@,
            )
        } else {
            r matches Ok(limit) && limit == max_attachment_bytes - attached_bytes(screenshots@)
        },
{
    let mut left: usize = max_attachment_bytes;
    let mut i: usize = 0;
    while i < screenshots.len()
        invariant
            i <= screenshots@.len(),
            left == max_attachment_bytes - attached_bytes(screenshots@.take(i as int)),
        decreases screenshots@.len() - i,
    {
        proof {
            let upto = screenshots@.take(i + 1);
            assert(upto.drop_last() =~= screenshots@.take(i as int));
            assert(upto.last() == screenshots@[i as int]);
            lemma_attached_bytes_grow(screenshots@, i + 1);
        }
        let bytes = screenshots[i].buffer.len();
        if bytes > left {
            return Err(invalid_request("Spine feedback screenshots exceed the attachment limit"));
        }
        left = left - bytes;
        i = i + 1;
    }
    assert(screenshots@.take(i as int) =~= screenshots@);
    Ok(left)
}

/// The attachments of a report: the rollout, then the screenshots.
pub fn assemble_attachments(
    filename: &str,
    rollout_bytes: Vec<u8>,
    screenshots: Vec<FeedbackAttachment>,
) -> (r: Vec<FeedbackAttachment>)
    ensures
        r@.len() == screenshots@.len() + 1,
        r@[0].filename@ == filename@,
        r@[0].content_type matches Some(kind) && kind@ == ROLLOUT_DEBUG_CONTENT_TYPE@,
        r@[0].buffer@ == rollout_bytes@,
        r@.skip(1) == screenshots@,
{
    let mut attachments = screenshots;
    let ghost before = attachments@;
    attachments.insert(
        0,
        FeedbackAttachment {
            filename: filename.to_owned(),
            content_type: Some(String::from_str(ROLLOUT_DEBUG_CONTENT_TYPE)),
            buffer: rollout_bytes,
        },
    );
    assert(attachments@.skip(1) =~= before);
    attachments
}

/// Whether a build error is the fault of the request.
pub open spec fn fault_of(error: BundleBuildError) -> FeedbackErrorKind {
    match error {
        BundleBuildError::AttachmentTooLarge { .. } => FeedbackErrorKind::InvalidRequest,
        BundleBuildError::SourceWorkLimitExceeded { .. } => FeedbackErrorKind::InvalidRequest,
        _ => FeedbackErrorKind::Internal,
    }
}

/// What a requester is told of a build error.
pub fn map_bundle_error(error: BundleBuildError) -> (r: FeedbackError)
    ensures
        r.says(fault_of(error), build_error_text(error)),
{
    let kind = match error {
        BundleBuildError::AttachmentTooLarge { .. } => FeedbackErrorKind::InvalidRequest,
        BundleBuildError::SourceWorkLimitExceeded { .. } => FeedbackErrorKind::InvalidRequest,
        _ => FeedbackErrorKind::Internal,
    };
    FeedbackError { kind, message: error.message() }
}

/// Steps whose own failure is not the fault of the request.
#[derive(Clone, Copy, Debug, PartialEq, Eq, Structural)]
pub enum FeedbackStage {
    Screenshots,
    Subtree,
    Attachment,
    Upload,
}

/// What is said of a step that failed.
pub open spec fn stage_text(stage: FeedbackStage) -> Seq<char> {
    match stage {
        FeedbackStage::Screenshots => "failed to validate screenshots: "@,
        FeedbackStage::Subtree => "failed to snapshot Spine thread subtree: "@,
        FeedbackStage::Attachment => "failed to build rollout debug attachment: "@,
        FeedbackStage::Upload => "failed to upload Spine feedback: "@,
    }
}

/// What a requester is told of a step that failed.
pub fn stage_failure(stage: FeedbackStage, reason: &str) -> (r: FeedbackError)
    ensures
        r.says(FeedbackErrorKind::Internal, stage_text(stage) + reason@),
{
    let mut message = String::from_str(
        match stage {
            FeedbackStage::Screenshots => "failed to validate screenshots: ",
            FeedbackStage::Subtree => "failed to snapshot Spine thread subtree: ",
            FeedbackStage::Attachment => "failed to build rollout debug attachment: ",
            FeedbackStage::Upload => "failed to upload Spine feedback: ",
        },
    );
    message.append(reason);
    FeedbackError { kind: FeedbackErrorKind::Internal, message }
}

/// The answer to a report that was sent.
#[derive(Debug, PartialEq, Eq)]
pub struct SpineFeedbackUploadResponse {
    pub report_id: String,
}

/// What a requester is told of an upload.
pub fn upload_result_to_response(upload_result: Result<String, String>) -> (r: Result<
    SpineFeedbackUploadResponse,
    FeedbackError,
>)
    ensures
        match upload_result {
            Ok(report_id) => r matches Ok(response) && response.report_id@ == report_id@,
            Err(reason) => r matches Err(error) && error.says(
                FeedbackErrorKind::Internal,
                stage_text(FeedbackStage::Upload) + reason@,
            ),
        },
{
    match upload_result {
        Ok(report_id) => Ok(SpineFeedbackUploadResponse { report_id }),
        Err(reason) => Err(stage_failure(FeedbackStage::Upload, reason.as_str())),
    }
}

/// The screenshots and a rollout attachment that keeps what they leave are
/// together within the limit of a report.
pub proof fn a_report_keeps_its_limit(
    screenshots: Seq<FeedbackAttachment>,
    rollout_bytes: Seq<u8>,
    max_attachment_bytes: usize,
)
    requires
        attached_bytes(screenshots) <= max_attachment_bytes,
        rollout_bytes.len() <= max_attachment_bytes - attached_bytes(screenshots),
    ensures
        forall|attachments: Seq<FeedbackAttachment>|
            attachments.len() > 0 && attachments[0].buffer@ == rollout_bytes && #[trigger]
            attachments.skip(1) == screenshots ==> attached_bytes(attachments)
                <= max_attachment_bytes,
{
    assert forall|attachments: Seq<FeedbackAttachment>|
        attachments.len() > 0 && attachments[0].buffer@ == rollout_bytes && #[trigger]
        attachments.skip(1) == screenshots implies attached_bytes(attachments)
        <= max_attachment_bytes by {
        lemma_first_apart(attachments);
    }
}

proof fn lemma_first_apart(attachments: Seq<FeedbackAttachment>)
    requires
        attachments.len() > 0,
    ensures
        attached_bytes(attachments) == attachments[0].buffer@.len() + attached_bytes(
            attachments.skip(1),
        ),
    decreases attachments.len(),
{
    if attachments.len() == 1 {
        assert(attachments.drop_last() =~= Seq::<FeedbackAttachment>::empty());
        assert(attachments.skip(1) =~= Seq::<FeedbackAttachment>::empty());
    } else {
        lemma_first_apart(attachments.drop_last());
        assert(attachments.drop_last().skip(1) =~= attachments.skip(1).drop_last());
        assert(attachments.skip(1).last() == attachments.last());
    }
}

/// A request is complained about exactly where feedback is off or its note is too
/// long, and the complaint says which.
pub proof fn what_is_wrong_with_a_request(
    feedback_enabled: bool,
    note: Option<Seq<char>>,
    max_note_bytes: usize,
)
    ensures
        request_complaint(feedback_enabled, note, max_note_bytes) is None <==> feedback_enabled && (
        note matches Some(text) ==> byte_len(text) <= max_note_bytes),
        !feedback_enabled ==> request_complaint(feedback_enabled, note, max_note_bytes) == Some(
            "sending feedback is disabled by configuration"@,
        ),
        feedback_enabled && (note matches Some(text) && byte_len(text) > max_note_bytes)
            ==> request_complaint(feedback_enabled, note, max_note_bytes) == Some(
            "Spine feedback note exceeds "@ + decimal_text(max_note_bytes as nat) + " bytes"@,
        ),
{
}

/// A thread is complained about unless it is active with a Spine feature.
pub proof fn what_is_wrong_with_a_thread(root: RootThread)
    ensures
        root_complaint(root) is None <==> (root matches RootThread::Active {
            spine_jit,
            spine_spawn,
        } && (spine_jit || spine_spawn)),
        root matches RootThread::InvalidId(reason) ==> root_complaint(root) == Some(
            "invalid thread id: "@ + reason@,
        ),
        root is Inactive ==> root_complaint(root) == Some(
            "Spine feedback requires an active thread"@,
        ),
        root == (RootThread::Active { spine_jit: false, spine_spawn: false }) ==> root_complaint(
            root,
        ) == Some("feedback/spineUpload requires a Spine-enabled thread"@),
{
}

/// A stored child of the subtree gets the parent that it is stored under, unless
/// its parent is known; no other thread gets one.
pub proof fn stored_children_get_their_parent(
    parents: Map<Seq<char>, Seq<char>>,
    subtree: Set<Seq<char>>,
    parent: Seq<char>,
    children: Set<Seq<char>>,
    id: Seq<char>,
)
    ensures
        ({
            let t = with_stored_children(parents, subtree, parent, children);
            &&& parents.contains_key(id) ==> t.contains_key(id) && t[id] == parents[id]
            &&& !parents.contains_key(id) && children.contains(id) && subtree.contains(id)
                ==> t.contains_key(id) && t[id] == parent
            &&& !parents.contains_key(id) && !(children.contains(id) && subtree.contains(id))
                ==> !t.contains_key(id)
        }),
{
}

/// The bytes of attachments add up.
pub proof fn attachments_add_up(a: Seq<FeedbackAttachment>, b: Seq<FeedbackAttachment>)
    ensures
        attached_bytes(a + b) == attached_bytes(a) + attached_bytes(b),
        a.len() == 1 ==> attached_bytes(a) == a[0].buffer@.len(),
        attached_bytes(Seq::empty()) == 0,
    decreases b.len(),
{
    if a.len() == 1 {
        assert(a.drop_last() =~= Seq::empty());
        assert(attached_bytes(Seq::<FeedbackAttachment>::empty()) == 0);
    }
    if b.len() == 0 {
        assert(a + b =~= a);
    } else {
        attachments_add_up(a, b.drop_last());
        assert((a + b).drop_last() =~= a + b.drop_last());
        assert((a + b).last() == b.last());
    }
}

/// Only a rollout that is too large, or too much work, is the request's fault.
pub proof fn whose_fault_a_build_error_is(error: BundleBuildError)
    ensures
        fault_of(error) == FeedbackErrorKind::InvalidRequest <==> error is AttachmentTooLarge
            || error is SourceWorkLimitExceeded,
{
}

/// A step that failed is named.
pub proof fn failed_steps_are_named(stage: FeedbackStage)
    ensures
        stage is Screenshots ==> stage_text(stage) == "failed to validate screenshots: "@,
        stage is Subtree ==> stage_text(stage) == "failed to snapshot Spine thread subtree: "@,
        stage is Attachment ==> stage_text(stage) == "failed to build rollout debug attachment: "@,
        stage is Upload ==> stage_text(stage) == "failed to upload Spine feedback: "@,
{
}

} // verus!
