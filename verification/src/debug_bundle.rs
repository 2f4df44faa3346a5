//! The redacted diagnostic bundle of a thread and its descendants: what was
//! captured of each rollout, the manifest, and the records in order.

use crate::capped_writer::CappedWriter;
use crate::debug_record::DebugRolloutRecord;
use crate::redactor::{RolloutDebugRedactor, RolloutDebugRedactorError, SpineCarriers};
use crate::rollout::{JsonScan, RolloutItem};
use crate::source_lines::BoundedSourceLine;
use crate::text::{decimal, same_text};
use crate::text_map::TextMap;
use std::io::Write;
use vstd::prelude::*;

verus! {

use crate::debug_record::RecordModel;
use crate::redactor::{
    countable_record, default_limits, dense, fresh, id_step, ids_in, lemma_dense_insert,
    lemma_sums_insert, line_step, redactor_inv, table_of, IdNamespace, RedactorModel,
};
use crate::redactor_laws::lemma_fresh;
use crate::screenshots::optional_bytes;
use crate::source_lines::LineModel;
use crate::text::decimal_text;

pub const ROLLOUT_DEBUG_SCHEMA: &'static str = "spine.rollout_debug.v1";

pub const ROLLOUT_DEBUG_CONTENT_TYPE: &'static str = "application/gzip";

pub const MANIFEST_RECORD_TYPE: &'static str = "manifest";

pub const THREAD_RECORD_TYPE: &'static str = "thread_record";

pub const MAX_SOURCE_LINE_BYTES: usize = 8_388_608;

pub const MAX_PACKAGE_SOURCE_BYTES: u64 = 268_435_456;

pub const MAX_PACKAGE_THREAD_IDS: usize = 131_072;

pub const MAX_PACKAGE_SOURCE_RECORDS: u64 = 131_072;

/// What a bundle is built from, as far as its amount is limited.
#[derive(Clone, Copy, Debug, PartialEq, Eq, Structural)]
pub enum SourceResource {
    ThreadIdentifiers,
    CapturedBytes,
    Records,
}

/// What a limited resource is called.
pub open spec fn resource_name(resource: SourceResource) -> Seq<char> {
    match resource {
        SourceResource::ThreadIdentifiers => "thread identifiers"@,
        SourceResource::CapturedBytes => "captured bytes"@,
        SourceResource::Records => "records"@,
    }
}

impl SourceResource {
    pub fn name(self) -> (r: &'static str)
        ensures
            r@ == resource_name(self),
    {
        match self {
            SourceResource::ThreadIdentifiers => "thread identifiers",
            SourceResource::CapturedBytes => "captured bytes",
            SourceResource::Records => "records",
        }
    }
}

/// Why a captured source could not be read again.
#[derive(Clone, Copy, Debug, PartialEq, Eq, Structural)]
pub enum SourceReadFailure {
    /// The operating system refused.
    Io,
    NotRegular,
    IdentityChanged,
    Shrank,
    ChangedBeforeBoundary,
}

/// What a read failure says.
pub open spec fn read_failure_text(failure: SourceReadFailure) -> Seq<char> {
    match failure {
        SourceReadFailure::Io => "rollout source could not be read"@,
        SourceReadFailure::NotRegular => "captured rollout source is no longer a regular file"@,
        SourceReadFailure::IdentityChanged => "captured rollout source identity changed"@,
        SourceReadFailure::Shrank => "captured rollout source shrank"@,
        SourceReadFailure::ChangedBeforeBoundary =>
            "rollout source changed before its captured boundary"@,
    }
}

impl SourceReadFailure {
    pub fn message(self) -> (r: &'static str)
        ensures
            r@ == read_failure_text(self),
    {
        match self {
            SourceReadFailure::Io => "rollout source could not be read",
            SourceReadFailure::NotRegular => "captured rollout source is no longer a regular file",
            SourceReadFailure::IdentityChanged => "captured rollout source identity changed",
            SourceReadFailure::Shrank => "captured rollout source shrank",
            SourceReadFailure::ChangedBeforeBoundary =>
                "rollout source changed before its captured boundary",
        }
    }
}

/// Why no bundle was built.
#[allow(inconsistent_fields)]
#[derive(Clone, Copy, Debug, PartialEq, Eq, Structural)]
pub enum BundleBuildError {
    AttachmentTooLarge { limit: usize },
    SourceWorkLimitExceeded { resource: SourceResource, limit: u64 },
    SourceCaptureResourceExhausted,
    SourceIdentityUnavailable,
    SourceRead(SourceReadFailure),
    Encoding,
    Serialization,
    Redaction(RolloutDebugRedactorError),
}

/// What a build error says.
pub open spec fn build_error_text(error: BundleBuildError) -> Seq<char> {
    match error {
        BundleBuildError::AttachmentTooLarge { limit } => "rollout debug attachment exceeds "@
            + decimal_text(limit as nat) + " bytes"@,
        BundleBuildError::SourceWorkLimitExceeded { resource, limit } => "rollout debug source "@
            + resource_name(resource) + " exceeds package limit "@ + decimal_text(limit as nat),
        BundleBuildError::SourceCaptureResourceExhausted =>
            "rollout source capture exhausted process resources"@,
        BundleBuildError::SourceIdentityUnavailable =>
            "stable rollout source identity is unavailable"@,
        BundleBuildError::SourceRead(_) => "failed to read captured rollout source"@,
        BundleBuildError::Encoding => "failed to encode rollout debug attachment"@,
        BundleBuildError::Serialization => "failed to serialize rollout debug record"@,
        BundleBuildError::Redaction(_) => "rollout debug redaction state limit exceeded"@,
    }
}

impl BundleBuildError {
    /// What the error says to a user.
    pub fn message(self) -> (r: String)
        ensures
            r@ == build_error_text(self),
    {
        match self {
            BundleBuildError::AttachmentTooLarge { limit } => {
                let mut text = String::from_str("rollout debug attachment exceeds ");
                text.append(decimal(limit as u64).as_str());
                text.append(" bytes");
                text
            },
            BundleBuildError::SourceWorkLimitExceeded { resource, limit } => {
                let mut text = String::from_str("rollout debug source ");
                text.append(resource.name());
                text.append(" exceeds package limit ");
                text.append(decimal(limit).as_str());
                text
            },
            BundleBuildError::SourceCaptureResourceExhausted => String::from_str(
                "rollout source capture exhausted process resources",
            ),
            BundleBuildError::SourceIdentityUnavailable => String::from_str(
                "stable rollout source identity is unavailable",
            ),
            BundleBuildError::SourceRead(_) => String::from_str(
                "failed to read captured rollout source",
            ),
            BundleBuildError::Encoding => String::from_str(
                "failed to encode rollout debug attachment",
            ),
            BundleBuildError::Serialization => String::from_str(
                "failed to serialize rollout debug record",
            ),
            BundleBuildError::Redaction(_) => String::from_str(
                "rollout debug redaction state limit exceeded",
            ),
        }
    }
}

/// The file that a path led to, apart from its name.
#[derive(Clone, Copy, Debug, PartialEq, Eq, Structural)]
pub struct RolloutSourceIdentity {
    pub device: u64,
    pub inode: u64,
}

/// What was captured of a rollout file.
#[derive(Clone, Copy, Debug, PartialEq, Eq, Structural)]
pub struct CapturedFileSnapshot {
    pub captured_bytes: u64,
    pub identity: RolloutSourceIdentity,
}

/// What became of the attempt to capture a thread's rollout.
#[derive(Clone, Copy, Debug, PartialEq, Eq, Structural)]
pub enum CapturedSource {
    Ready(CapturedFileSnapshot),
    Missing,
    FlushFailed,
    Unavailable,
    Unreadable,
}

#[derive(Debug)]
pub struct CapturedThread {
    pub thread_id: String,
    pub source: CapturedSource,
}

/// The systems whose error numbers are told apart.
#[derive(Clone, Copy, Debug, PartialEq, Eq, Structural)]
pub enum Platform {
    Unix,
    Windows,
    Other,
}

/// Whether an error of the operating system means that the process ran out of
/// memory or of open files.
pub open spec fn exhausts_resources(
    out_of_memory: bool,
    raw_os_error: Option<i32>,
    platform: Platform,
) -> bool {
    ||| out_of_memory
    ||| platform is Unix && (raw_os_error == Some(24i32) || raw_os_error == Some(23i32)
        || raw_os_error == Some(12i32))
    ||| platform is Windows && (raw_os_error == Some(4i32) || raw_os_error == Some(8i32)
        || raw_os_error == Some(14i32))
}

/// Tells by its kind and its number whether an error means exhaustion.
pub fn is_source_capture_resource_exhaustion(
    out_of_memory: bool,
    raw_os_error: Option<i32>,
    platform: Platform,
) -> (r: bool)
    ensures
        r == exhausts_resources(out_of_memory, raw_os_error, platform),
{
    if out_of_memory {
        return true;
    }
    match raw_os_error {
        None => false,
        Some(number) => match platform {
            Platform::Unix => number == 24 || number == 23 || number == 12,
            Platform::Windows => number == 4 || number == 8 || number == 14,
            Platform::Other => false,
        },
    }
}

/// How a file answered when it was opened and asked about itself.
#[derive(Clone, Copy, Debug, PartialEq, Eq, Structural)]
pub enum SourceProbe {
    /// It could not be opened because it is not there.
    NotFound,
    /// Opening it, or asking about it, exhausted the process.
    Exhausted,
    /// Opening it, or asking about it, failed otherwise.
    Failed,
    Opened { regular: bool, bytes: u64, identity: Option<RolloutSourceIdentity> },
}

/// What a probe says of a source that is captured for the first time.
pub open spec fn captured_source(probe: SourceProbe) -> Result<CapturedSource, BundleBuildError> {
    match probe {
        SourceProbe::NotFound => Ok(CapturedSource::Missing),
        SourceProbe::Exhausted => Err(BundleBuildError::SourceCaptureResourceExhausted),
        SourceProbe::Failed => Ok(CapturedSource::Unreadable),
        SourceProbe::Opened { regular, bytes, identity } => if !regular {
            Ok(CapturedSource::Unreadable)
        } else {
            match identity {
                None => Err(BundleBuildError::SourceIdentityUnavailable),
                Some(identity) => Ok(
                    CapturedSource::Ready(CapturedFileSnapshot { captured_bytes: bytes, identity }),
                ),
            }
        },
    }
}

/// Captures a source by what was learned of it.
pub fn snapshot_rollout_source(probe: SourceProbe) -> (r: Result<CapturedSource, BundleBuildError>)
    ensures
        r == captured_source(probe),
{
    match probe {
        SourceProbe::NotFound => Ok(CapturedSource::Missing),
        SourceProbe::Exhausted => Err(BundleBuildError::SourceCaptureResourceExhausted),
        SourceProbe::Failed => Ok(CapturedSource::Unreadable),
        SourceProbe::Opened { regular, bytes, identity } => {
            if !regular {
                return Ok(CapturedSource::Unreadable);
            }
            match identity {
                None => Err(BundleBuildError::SourceIdentityUnavailable),
                Some(identity) => Ok(
                    CapturedSource::Ready(CapturedFileSnapshot { captured_bytes: bytes, identity }),
                ),
            }
        },
    }
}

/// What is wrong with a captured source that is opened again, if anything.
pub open spec fn reopen_failure(snapshot: CapturedFileSnapshot, probe: SourceProbe) -> Option<
    SourceReadFailure,
> {
    match probe {
        SourceProbe::Opened { regular, bytes, identity } => if !regular {
            Some(SourceReadFailure::NotRegular)
        } else {
            match identity {
                None => Some(SourceReadFailure::Io),
                Some(identity) => if identity != snapshot.identity {
                    Some(SourceReadFailure::IdentityChanged)
                } else if bytes < snapshot.captured_bytes {
                    Some(SourceReadFailure::Shrank)
                } else {
                    None
                },
            }
        },
        _ => Some(SourceReadFailure::Io),
    }
}

/// Accepts a source that is opened again only if it is the captured one, with
/// all the bytes that were captured.
pub fn reopen_rollout_source(snapshot: &CapturedFileSnapshot, probe: SourceProbe) -> (r: Result<
    (),
    BundleBuildError,
>)
    ensures
        r == (match reopen_failure(*snapshot, probe) {
            Some(failure) => Err::<(), BundleBuildError>(BundleBuildError::SourceRead(failure)),
            None => Ok(()),
        }),
{
    match probe {
        SourceProbe::Opened { regular, bytes, identity } => {
            if !regular {
                return Err(BundleBuildError::SourceRead(SourceReadFailure::NotRegular));
            }
            match identity {
                None => Err(BundleBuildError::SourceRead(SourceReadFailure::Io)),
                Some(identity) => {
                    if identity != snapshot.identity {
                        return Err(
                            BundleBuildError::SourceRead(SourceReadFailure::IdentityChanged),
                        );
                    }
                    if bytes < snapshot.captured_bytes {
                        return Err(BundleBuildError::SourceRead(SourceReadFailure::Shrank));
                    }
                    Ok(())
                },
            }
        },
        _ => Err(BundleBuildError::SourceRead(SourceReadFailure::Io)),
    }
}

/// Refuses a subtree of too many threads.
pub fn validate_subtree_thread_count(thread_count: usize) -> (r: Result<(), BundleBuildError>)
    ensures
        r == (if thread_count > MAX_PACKAGE_THREAD_IDS {
            Err::<(), BundleBuildError>(
                BundleBuildError::SourceWorkLimitExceeded {
                    resource: SourceResource::ThreadIdentifiers,
                    limit: 131_072,
                },
            )
        } else {
            Ok(())
        }),
{
    if thread_count > MAX_PACKAGE_THREAD_IDS {
        return Err(
            BundleBuildError::SourceWorkLimitExceeded {
                resource: SourceResource::ThreadIdentifiers,
                limit: 131_072,
            },
        );
    }
    Ok(())
}

/// The bytes captured of one source.
pub open spec fn bytes_of(source: CapturedSource) -> nat {
    match source {
        CapturedSource::Ready(snapshot) => snapshot.captured_bytes as nat,
        _ => 0,
    }
}

/// The bytes captured of several threads.
pub open spec fn captured_total(captures: Seq<CapturedThread>) -> nat
    decreases captures.len(),
{
    if captures.len() == 0 {
        0
    } else {
        captured_total(captures.drop_last()) + bytes_of(captures.last().source)
    }
}

pub open spec fn over_captured_bytes(limit: u64) -> BundleBuildError {
    BundleBuildError::SourceWorkLimitExceeded { resource: SourceResource::CapturedBytes, limit }
}

fn captured_bytes(source: &CapturedSource) -> (r: u64)
    ensures
        r == bytes_of(*source),
{
    match source {
        CapturedSource::Ready(snapshot) => snapshot.captured_bytes,
        _ => 0,
    }
}

/// Threads as they are captured one after another, within a limit on their
/// bytes.
#[derive(Debug)]
pub struct RolloutCaptures {
    captures: Vec<CapturedThread>,
    captured_source_bytes: u64,
    source_bytes_limit: u64,
}

/// What is captured so far.
#[verifier::ext_equal]
pub ghost struct CapturesModel {
    pub captures: Seq<CapturedThread>,
    pub source_bytes_limit: u64,
}

impl View for RolloutCaptures {
    type V = CapturesModel;

    closed spec fn view(&self) -> CapturesModel {
        CapturesModel {
            captures: self.captures@,
            source_bytes_limit: self.source_bytes_limit,
        }
    }
}

impl RolloutCaptures {
    /// What every collection of captures keeps.
    pub closed spec fn wf(&self) -> bool {
        &&& self.captured_source_bytes == captured_total(self.captures@)
        &&& self.captured_source_bytes <= self.source_bytes_limit
    }

    /// The captured bytes never exceed the limit.
    pub proof fn captures_keep_the_limit(&self)
        requires
            self.wf(),
        ensures
            captured_total(self@.captures) <= self@.source_bytes_limit,
    {
    }

    pub fn new(source_bytes_limit: u64) -> (r: Self)
        ensures
            r.wf(),
            r@ == (CapturesModel { captures: Seq::empty(), source_bytes_limit }),
    {
        RolloutCaptures { captures: Vec::new(), captured_source_bytes: 0, source_bytes_limit }
    }

    /// Adds what was captured of one more thread.
    pub fn capture(&mut self, thread_id: String, source: CapturedSource) -> (r: Result<
        (),
        BundleBuildError,
    >)
        requires
            old(self).wf(),
        ensures
            final(self).wf(),
            if captured_total(old(self)@.captures) + bytes_of(source)
                > old(self)@.source_bytes_limit {
                &&& r == Err::<(), BundleBuildError>(
                    over_captured_bytes(old(self)@.source_bytes_limit),
                )
                &&& final(self)@ == old(self)@
            } else {
                &&& r is Ok
                &&& final(self)@.source_bytes_limit == old(self)@.source_bytes_limit
                &&& final(self)@.captures == old(self)@.captures.push(
                    (CapturedThread { thread_id, source }),
                )
            },
    {
        match self.captured_source_bytes.checked_add(captured_bytes(&source)) {
            None => Err(
                BundleBuildError::SourceWorkLimitExceeded {
                    resource: SourceResource::CapturedBytes,
                    limit: self.source_bytes_limit,
                },
            ),
            Some(total) => {
                if total > self.source_bytes_limit {
                    return Err(
                        BundleBuildError::SourceWorkLimitExceeded {
                            resource: SourceResource::CapturedBytes,
                            limit: self.source_bytes_limit,
                        },
                    );
                }
                let ghost before = self.captures@;
                self.captures.push(CapturedThread { thread_id, source });
                self.captured_source_bytes = total;
                assert(self.captures@.drop_last() =~= before);
                Ok(())
            },
        }
    }

    pub fn into_captures(self) -> (r: Vec<CapturedThread>)
        ensures
            r@ == self@.captures,
    {
        self.captures
    }
}

#[derive(Clone, Copy, Debug, PartialEq, Eq, Structural)]
pub struct BundleBuildLimits {
    pub output_bytes: usize,
    pub source_line_bytes: usize,
    pub source_bytes: u64,
    pub source_records: u64,
}

impl BundleBuildLimits {
    /// The limits of a real package whose output may take so many bytes.
    pub fn production(output_bytes: usize) -> (r: Self)
        ensures
            r == (BundleBuildLimits {
                output_bytes,
                source_line_bytes: MAX_SOURCE_LINE_BYTES,
                source_bytes: MAX_PACKAGE_SOURCE_BYTES,
                source_records: MAX_PACKAGE_SOURCE_RECORDS,
            }),
    {
        BundleBuildLimits {
            output_bytes,
            source_line_bytes: MAX_SOURCE_LINE_BYTES,
            source_bytes: MAX_PACKAGE_SOURCE_BYTES,
            source_records: MAX_PACKAGE_SOURCE_RECORDS,
        }
    }
}

#[derive(Clone, Copy, Debug, PartialEq, Eq, Structural)]
pub enum ManifestParent {
    Root,
    Known { thread_local_id: u64 },
    OutsideSnapshot,
    Unknown,
}

#[derive(Clone, Copy, Debug, PartialEq, Eq, Structural)]
pub enum ManifestSource {
    Ready { captured_bytes: u64 },
    Missing,
    FlushFailed,
    Unavailable,
    Unreadable,
}

#[derive(Clone, Copy, Debug, PartialEq, Eq, Structural)]
pub struct ManifestThread {
    pub thread_local_id: u64,
    pub parent: ManifestParent,
    pub source: ManifestSource,
}

/// The first record of a bundle.
#[derive(Debug)]
pub struct RolloutDebugManifest {
    pub build: String,
    pub root_thread_local_id: u64,
    pub thread_count: usize,
    pub threads: Vec<ManifestThread>,
}

/// Any later record of a bundle.
#[derive(Debug)]
pub struct RolloutDebugThreadRecord {
    pub thread_local_id: u64,
    pub ordinal: u64,
    pub item: DebugRolloutRecord,
}

/// What the manifest says of a thread's parent.
pub open spec fn parent_of(
    thread_id: Seq<char>,
    root_thread_id: Seq<char>,
    parents: Map<Seq<char>, String>,
    local_ids: Map<Seq<char>, u64>,
) -> ManifestParent {
    if thread_id == root_thread_id {
        ManifestParent::Root
    } else if !parents.contains_key(thread_id) {
        ManifestParent::Unknown
    } else if local_ids.contains_key(parents[thread_id]@) {
        ManifestParent::Known { thread_local_id: local_ids[parents[thread_id]@] }
    } else {
        ManifestParent::OutsideSnapshot
    }
}

/// Finds what the manifest says of a thread's parent.
pub fn manifest_parent(
    thread_id: &str,
    root_thread_id: &str,
    parent_thread_ids: &TextMap<String>,
    local_thread_ids: &TextMap<u64>,
) -> (r: ManifestParent)
    requires
        parent_thread_ids.wf(),
        local_thread_ids.wf(),
    ensures
        r == parent_of(thread_id@, root_thread_id@, parent_thread_ids@, local_thread_ids@),
{
    if same_text(thread_id, root_thread_id) {
        return ManifestParent::Root;
    }
    match parent_thread_ids.get(thread_id) {
        None => ManifestParent::Unknown,
        Some(parent) => match local_thread_ids.get(parent.as_str()) {
            Some(thread_local_id) => ManifestParent::Known { thread_local_id: *thread_local_id },
            None => ManifestParent::OutsideSnapshot,
        },
    }
}

/// What the manifest says of a source.
pub open spec fn source_state(source: CapturedSource) -> ManifestSource {
    match source {
        CapturedSource::Ready(snapshot) => ManifestSource::Ready {
            captured_bytes: snapshot.captured_bytes,
        },
        CapturedSource::Missing => ManifestSource::Missing,
        CapturedSource::FlushFailed => ManifestSource::FlushFailed,
        CapturedSource::Unavailable => ManifestSource::Unavailable,
        CapturedSource::Unreadable => ManifestSource::Unreadable,
    }
}

pub fn manifest_source(source: &CapturedSource) -> (r: ManifestSource)
    ensures
        r == source_state(*source),
{
    match source {
        CapturedSource::Ready(snapshot) => ManifestSource::Ready {
            captured_bytes: snapshot.captured_bytes,
        },
        CapturedSource::Missing => ManifestSource::Missing,
        CapturedSource::FlushFailed => ManifestSource::FlushFailed,
        CapturedSource::Unavailable => ManifestSource::Unavailable,
        CapturedSource::Unreadable => ManifestSource::Unreadable,
    }
}

/// A redactor after it was told of the captured threads, in order, as far as
/// its limits allow.
pub open spec fn registered(s: RedactorModel, captures: Seq<CapturedThread>) -> RedactorModel
    decreases captures.len(),
{
    if captures.len() == 0 {
        s
    } else {
        let before = registered(s, captures.drop_last());
        if before.failure is Some {
            before
        } else {
            id_step(before, IdNamespace::Thread, captures.last().thread_id@).0
        }
    }
}

/// The local numbers of the captured threads.
pub open spec fn thread_numbers(carriers: SpineCarriers, captures: Seq<CapturedThread>) -> Map<
    Seq<char>,
    u64,
> {
    ids_in(registered(fresh(default_limits(), carriers), captures), IdNamespace::Thread)
}

/// What the manifest says of a captured thread.
pub open spec fn manifest_thread(
    capture: CapturedThread,
    root_thread_id: Seq<char>,
    parents: Map<Seq<char>, String>,
    local_ids: Map<Seq<char>, u64>,
) -> ManifestThread {
    ManifestThread {
        thread_local_id: local_ids[capture.thread_id@],
        parent: parent_of(capture.thread_id@, root_thread_id, parents, local_ids),
        source: source_state(capture.source),
    }
}

/// Whether a thread is among the captured ones.
pub open spec fn is_captured(captures: Seq<CapturedThread>, thread_id: Seq<char>) -> bool {
    exists|i: int| 0 <= i < captures.len() && (#[trigger] captures[i]).thread_id@ == thread_id
}

/// Why no bundle is begun, if there is a reason.
pub open spec fn begin_error(
    captures: Seq<CapturedThread>,
    limits: BundleBuildLimits,
    carriers: SpineCarriers,
) -> Option<BundleBuildError> {
    if captured_total(captures) > limits.source_bytes {
        Some(over_captured_bytes(limits.source_bytes))
    } else {
        match registered(fresh(default_limits(), carriers), captures).failure {
            Some(error) => Some(BundleBuildError::Redaction(error)),
            None => None,
        }
    }
}

/// Builds a bundle record by record.
pub struct BundleBuilder {
    redactor: RolloutDebugRedactor,
    limits: BundleBuildLimits,
    thread_ids: Vec<u64>,
    gzip: GzipWrites,
    source_records: u64,
    current: usize,
    ordinal: u64,
}

/// The abstract state of a builder.
#[verifier::ext_equal]
pub ghost struct BundleModel {
    pub redactor: RedactorModel,
    pub limits: BundleBuildLimits,
    /// The local numbers of the captured threads, in order.
    pub thread_ids: Seq<u64>,
    /// What was written of the bundle so far.
    pub writes: Seq<Seq<u8>>,
    pub source_records: nat,
    /// The captured thread whose source is being read.
    pub current: nat,
    pub ordinal: u64,
}

impl View for BundleBuilder {
    type V = BundleModel;

    closed spec fn view(&self) -> BundleModel {
        BundleModel {
            redactor: self.redactor@,
            limits: self.limits,
            thread_ids: self.thread_ids@,
            writes: gzip_writes(self.gzip),
            source_records: self.source_records as nat,
            current: self.current as nat,
            ordinal: self.ordinal,
        }
    }
}

/// A record as the contracts speak of it.
pub ghost struct ThreadRecordModel {
    pub thread_local_id: u64,
    pub ordinal: u64,
    pub item: RecordModel,
}

impl View for RolloutDebugThreadRecord {
    type V = ThreadRecordModel;

    open spec fn view(&self) -> ThreadRecordModel {
        ThreadRecordModel {
            thread_local_id: self.thread_local_id,
            ordinal: self.ordinal,
            item: self.item@,
        }
    }
}

/// What every builder keeps.
pub open spec fn bundle_inv(s: BundleModel) -> bool {
    &&& redactor_inv(s.redactor)
    &&& s.source_records <= s.limits.source_records
    &&& s.thread_ids.len() > 0 ==> s.current < s.thread_ids.len()
}

/// The next ordinal, which stays at the largest.
pub open spec fn next_ordinal(ordinal: u64) -> u64 {
    if ordinal == u64::MAX {
        ordinal
    } else {
        (ordinal + 1) as u64
    }
}

/// One line of the current source.
pub open spec fn bundle_step(
    s: BundleModel,
    line: LineModel,
    scan: JsonScan,
    decoded: Option<RolloutItem>,
) -> (BundleModel, Result<ThreadRecordModel, BundleBuildError>) {
    if s.source_records + 1 > s.limits.source_records {
        (
            s,
            Err(
                BundleBuildError::SourceWorkLimitExceeded {
                    resource: SourceResource::Records,
                    limit: s.limits.source_records,
                },
            ),
        )
    } else {
        let counted = BundleModel { source_records: s.source_records + 1, ..s };
        let numbered = BundleModel { ordinal: next_ordinal(s.ordinal), ..counted };
        let thread_local_id = s.thread_ids[s.current as int];
        match line {
            LineModel::Oversized => (
                numbered,
                Ok(
                    ThreadRecordModel {
                        thread_local_id,
                        ordinal: s.ordinal,
                        item: DebugRolloutRecord::OversizedRedacted@,
                    },
                ),
            ),
            LineModel::Retained(bytes) => match s.redactor.failure {
                Some(error) => (counted, Err(BundleBuildError::Redaction(error))),
                None => {
                    let redacted = line_step(s.redactor, bytes, scan, decoded);
                    match redacted.0.failure {
                        Some(error) => (
                            BundleModel { redactor: redacted.0, ..counted },
                            Err(BundleBuildError::Redaction(error)),
                        ),
                        None => (
                            BundleModel { redactor: redacted.0, ..numbered },
                            Ok(
                                ThreadRecordModel {
                                    thread_local_id,
                                    ordinal: s.ordinal,
                                    item: redacted.1,
                                },
                            ),
                        ),
                    }
                },
            },
        }
    }
}

/// Holds `flate2::write::GzEncoder` over a sink in memory, which takes in writes
/// until it is finished.
#[verifier::external_body]
pub struct GzipWrites {
    encoder: flate2::write::GzEncoder<Vec<u8>>,
}

/// What was written to an encoder, write by write.
pub uninterp spec fn gzip_writes(gzip: GzipWrites) -> Seq<Seq<u8>>;

/// What `flate2`'s gzip encoder, at its default level and with no time in the
/// header, has handed on to its sink altogether when it is finished after some
/// writes: nothing where that fails.
pub uninterp spec fn gzip_encoding(writes: Seq<Seq<u8>>) -> Option<Seq<u8>>;

/// Calls `flate2::GzBuilder::write` for a sink in memory: nothing was written
/// yet.
#[verifier::external_body]
fn new_gzip() -> (r: GzipWrites)
    ensures
        gzip_writes(r) == Seq::<Seq<u8>>::empty(),
{
    let level = flate2::Compression::default();
    GzipWrites { encoder: flate2::GzBuilder::new().mtime(0).write(Vec::new(), level) }
}

/// Calls `write_all` of the encoder, and looks at how many bytes are in its sink
/// then; there is no count where the write fails. The encoder keeps some of its
/// output back in a buffer as large as the allocator made it, so nothing is
/// claimed of the count.
#[verifier::external_body]
fn write_gzip(gzip: &mut GzipWrites, bytes: &[u8]) -> (r: Option<usize>)
    ensures
        gzip_writes(*final(gzip)) == gzip_writes(*old(gzip)).push(bytes@),
{
    gzip.encoder.write_all(bytes).ok()?;
    Some(gzip.encoder.get_ref().len())
}

/// Calls `flate2::write::GzEncoder::finish`. The outcome depends on what was
/// written alone; [`gzip_encoding`] names it.
#[verifier::external_body]
fn finish_gzip(gzip: GzipWrites) -> (r: Option<Vec<u8>>)
    ensures
        optional_bytes(r) == gzip_encoding(gzip_writes(gzip)),
{
    gzip.encoder.finish().ok()
}

/// What follows from how much an encoder has handed on: more than the limit is
/// too large, and a write that fails is reported as `failure`.
pub open spec fn written_outcome(
    emitted: Option<usize>,
    limit: usize,
    failure: BundleBuildError,
) -> Result<(), BundleBuildError> {
    match emitted {
        None => Err(failure),
        Some(bytes) => if bytes > limit {
            Err(BundleBuildError::AttachmentTooLarge { limit })
        } else {
            Ok(())
        },
    }
}

/// Refuses an output that has become too large, or a write that failed.
pub fn admit_written(emitted: Option<usize>, limit: usize, failure: BundleBuildError) -> (r: Result<
    (),
    BundleBuildError,
>)
    ensures
        r == written_outcome(emitted, limit, failure),
{
    match emitted {
        None => Err(failure),
        Some(bytes) => {
            if bytes > limit {
                return Err(BundleBuildError::AttachmentTooLarge { limit });
            }
            Ok(())
        },
    }
}

/// Writing an encoded record as a line of its own. The output is held against
/// its limit after the record, and again after the end of the line: `counts` are
/// how much of it there was then.
pub open spec fn line_written(
    s: BundleModel,
    encoded: Seq<u8>,
    counts: (Option<usize>, Option<usize>),
) -> (BundleModel, Result<(), BundleBuildError>) {
    let limit = s.limits.output_bytes;
    let record = s.writes.push(encoded);
    let line = record.push(seq![10u8]);
    match written_outcome(counts.0, limit, BundleBuildError::Serialization) {
        Err(error) => (BundleModel { writes: record, ..s }, Err(error)),
        Ok(()) => (
            BundleModel { writes: line, ..s },
            written_outcome(counts.1, limit, BundleBuildError::Encoding),
        ),
    }
}

/// The attachment that an encoding becomes, or why it becomes none.
pub open spec fn admitted_attachment(encoding: Option<Seq<u8>>, limit: usize) -> Result<
    Seq<u8>,
    BundleBuildError,
> {
    match encoding {
        None => Err(BundleBuildError::Encoding),
        Some(bytes) => if bytes.len() > limit {
            Err(BundleBuildError::AttachmentTooLarge { limit })
        } else {
            Ok(bytes)
        },
    }
}

/// Takes an encoding whole if it keeps the limit.
pub fn admit_attachment(encoding: Option<Vec<u8>>, limit: usize) -> (r: Result<
    Vec<u8>,
    BundleBuildError,
>)
    ensures
        match (r, admitted_attachment(optional_bytes(encoding), limit)) {
            (Ok(bytes), Ok(expected)) => bytes@ == expected,
            (Err(error), Err(expected)) => error == expected,
            _ => false,
        },
{
    match encoding {
        None => Err(BundleBuildError::Encoding),
        Some(bytes) => {
            let mut output = CappedWriter::new(limit);
            let written = output.write(bytes.as_slice());
            assert(bytes.len() == bytes@.len());
            if output.exceeded() {
                return Err(BundleBuildError::AttachmentTooLarge { limit });
            }
            let kept = output.into_inner();
            assert(kept@ =~= bytes@);
            Ok(kept)
        },
    }
}

proof fn lemma_registered_failure(s: RedactorModel, captures: Seq<CapturedThread>, n: int)
    requires
        0 <= n <= captures.len(),
        registered(s, captures.take(n)).failure is Some,
    ensures
        registered(s, captures) == registered(s, captures.take(n)),
    decreases captures.len() - n,
{
    if n == captures.len() {
        assert(captures.take(n) =~= captures);
    } else {
        let longer = captures.take(n + 1);
        assert(longer.drop_last() =~= captures.take(n));
        lemma_registered_failure(s, captures, n + 1);
    }
}

proof fn lemma_total_grows(captures: Seq<CapturedThread>, n: int)
    requires
        0 <= n <= captures.len(),
    ensures
        captured_total(captures.take(n)) <= captured_total(captures),
    decreases captures.len() - n,
{
    if n == captures.len() {
        assert(captures.take(n) =~= captures);
    } else {
        let longer = captures.take(n + 1);
        assert(longer.drop_last() =~= captures.take(n));
        lemma_total_grows(captures, n + 1);
    }
}

fn within_captured_bytes(captures: &Vec<CapturedThread>, limit: u64) -> (r: bool)
    ensures
        r == (captured_total(captures@) <= limit),
{
    let mut total: u64 = 0;
    let mut i: usize = 0;
    while i < captures.len()
        invariant
            i <= captures@.len(),
            total == captured_total(captures@.take(i as int)),
            total <= limit,
        decreases captures@.len() - i,
    {
        proof {
            let upto = captures@.take(i + 1);
            assert(upto.drop_last() =~= captures@.take(i as int));
            assert(upto.last() == captures@[i as int]);
            lemma_total_grows(captures@, i + 1);
        }
        match total.checked_add(captured_bytes(&captures[i].source)) {
            None => {
                return false;
            },
            Some(next) => {
                if next > limit {
                    return false;
                }
                total = next;
            },
        }
        i = i + 1;
    }
    assert(captures@.take(i as int) =~= captures@);
    true
}

impl BundleBuilder {
    /// What every builder keeps: see [`bundle_inv`].
    pub open spec fn wf(&self) -> bool {
        bundle_inv(self@)
    }

    /// Numbers the captured threads and writes the manifest of their bundle.
    pub fn begin(
        root_thread_id: &str,
        captures: &Vec<CapturedThread>,
        parent_thread_ids: &TextMap<String>,
        limits: BundleBuildLimits,
        carriers: SpineCarriers,
        build: &str,
    ) -> (r: Result<(BundleBuilder, RolloutDebugManifest), BundleBuildError>)
        requires
            parent_thread_ids.wf(),
            is_captured(captures@, root_thread_id@),
        ensures
            match begin_error(captures@, limits, carriers) {
                Some(error) => r == Err::<(BundleBuilder, RolloutDebugManifest), BundleBuildError>(
                    error,
                ),
                None => {
                    let numbers = thread_numbers(carriers, captures@);
                    &&& r is Ok
                    &&& r->Ok_0.0.wf()
                    &&& r->Ok_0.0@ == (BundleModel {
                        redactor: registered(fresh(default_limits(), carriers), captures@),
                        limits,
                        thread_ids: captures@.map_values(
                            |capture: CapturedThread| numbers[capture.thread_id@],
                        ),
                        writes: Seq::empty(),
                        source_records: 0,
                        current: 0,
                        ordinal: 0,
                    })
                    &&& r->Ok_0.1.build@ == build@
                    &&& r->Ok_0.1.root_thread_local_id == numbers[root_thread_id@]
                    &&& r->Ok_0.1.thread_count == captures@.len()
                    &&& r->Ok_0.1.threads@ == captures@.map_values(
                        |capture: CapturedThread|
                            manifest_thread(
                                capture,
                                root_thread_id@,
                                parent_thread_ids@,
                                numbers,
                            ),
                    )
                },
            },
    {
        if !within_captured_bytes(captures, limits.source_bytes) {
            return Err(
                BundleBuildError::SourceWorkLimitExceeded {
                    resource: SourceResource::CapturedBytes,
                    limit: limits.source_bytes,
                },
            );
        }
        let ghost empty = fresh(default_limits(), carriers);
        let mut redactor = RolloutDebugRedactor::new(carriers);
        let mut local_thread_ids: TextMap<u64> = TextMap::new();
        let mut i: usize = 0;
        assert(ids_in(empty, IdNamespace::Thread) =~= Map::<Seq<char>, u64>::empty());
        while i < captures.len()
            invariant
                i <= captures@.len(),
                redactor.wf(),
                redactor@ == registered(empty, captures@.take(i as int)),
                redactor@.failure is None,
                local_thread_ids.wf(),
                local_thread_ids@ == ids_in(redactor@, IdNamespace::Thread),
                forall|k: int|
                    0 <= k < i ==> local_thread_ids@.contains_key((#[trigger] captures@[k]).thread_id@),
                captured_total(captures@) <= limits.source_bytes,
                empty == fresh(default_limits(), carriers),
            decreases captures@.len() - i,
        {
            proof {
                let upto = captures@.take(i + 1);
                assert(upto.drop_last() =~= captures@.take(i as int));
                assert(upto.last() == captures@[i as int]);
            }
            match redactor.register_thread_id(captures[i].thread_id.as_str()) {
                Err(error) => {
                    proof {
                        lemma_registered_failure(empty, captures@, i + 1);
                    }
                    return Err(BundleBuildError::Redaction(error));
                },
                Ok(local_id) => {
                    let ghost map = local_thread_ids@;
                    local_thread_ids.insert(captures[i].thread_id.clone(), local_id);
                    proof {
                        let id = captures@[i as int].thread_id@;
                        assert(local_thread_ids@ =~= ids_in(redactor@, IdNamespace::Thread));
                        assert forall|k: int| 0 <= k < i + 1 implies local_thread_ids@.contains_key(
                            (#[trigger] captures@[k]).thread_id@,
                        ) by {
                            if k < i {
                                assert(map.contains_key(captures@[k].thread_id@));
                            }
                        }
                    }
                },
            }
            i = i + 1;
        }
        assert(captures@.take(i as int) =~= captures@);
        let ghost numbers = local_thread_ids@;
        let mut thread_ids: Vec<u64> = Vec::new();
        let mut threads: Vec<ManifestThread> = Vec::new();
        let mut n: usize = 0;
        while n < captures.len()
            invariant
                n <= captures@.len(),
                parent_thread_ids.wf(),
                local_thread_ids.wf(),
                numbers == local_thread_ids@,
                forall|k: int|
                    0 <= k < captures@.len() ==> numbers.contains_key(
                        (#[trigger] captures@[k]).thread_id@,
                    ),
                thread_ids@.len() == n,
                threads@.len() == n,
                forall|k: int|
                    0 <= k < n ==> #[trigger] thread_ids@[k] == numbers[captures@[k].thread_id@],
                forall|k: int|
                    0 <= k < n ==> #[trigger] threads@[k] == manifest_thread(
                        captures@[k],
                        root_thread_id@,
                        parent_thread_ids@,
                        numbers,
                    ),
            decreases captures@.len() - n,
        {
            let thread_id = captures[n].thread_id.as_str();
            assert(numbers.contains_key(captures@[n as int].thread_id@));
            let thread_local_id = match local_thread_ids.get(thread_id) {
                Some(number) => *number,
                None => vstd::pervasive::unreached(),
            };
            thread_ids.push(thread_local_id);
            threads.push(
                ManifestThread {
                    thread_local_id,
                    parent: manifest_parent(
                        thread_id,
                        root_thread_id,
                        parent_thread_ids,
                        &local_thread_ids,
                    ),
                    source: manifest_source(&captures[n].source),
                },
            );
            n = n + 1;
        }
        proof {
            assert(thread_ids@ =~= captures@.map_values(
                |capture: CapturedThread| numbers[capture.thread_id@],
            ));
            assert(threads@ =~= captures@.map_values(
                |capture: CapturedThread|
                    manifest_thread(capture, root_thread_id@, parent_thread_ids@, numbers),
            ));
            let k = choose|k: int|
                0 <= k < captures@.len() && (#[trigger] captures@[k]).thread_id@ == root_thread_id@;
            assert(numbers.contains_key(captures@[k].thread_id@));
        }
        let root_thread_local_id = match local_thread_ids.get(root_thread_id) {
            Some(number) => *number,
            None => vstd::pervasive::unreached(),
        };
        let manifest = RolloutDebugManifest {
            build: build.to_owned(),
            root_thread_local_id,
            thread_count: threads.len(),
            threads,
        };
        let builder = BundleBuilder {
            redactor,
            limits,
            thread_ids,
            gzip: new_gzip(),
            source_records: 0,
            current: 0,
            ordinal: 0,
        };
        Ok((builder, manifest))
    }

    /// The limit on the retained bytes of a source line.
    pub fn source_line_bytes(&self) -> (r: usize)
        ensures
            r == self@.limits.source_line_bytes,
    {
        self.limits.source_line_bytes
    }

    /// Begins the source of a captured thread.
    pub fn open_source(&mut self, thread: usize)
        requires
            old(self).wf(),
            thread < old(self)@.thread_ids.len(),
        ensures
            final(self).wf(),
            final(self)@ == (BundleModel { current: thread as nat, ordinal: 0, ..old(self)@ }),
    {
        self.current = thread;
        self.ordinal = 0;
    }

    /// The record of the next line of the current source.
    pub fn record(
        &mut self,
        line: &BoundedSourceLine,
        scan: JsonScan,
        decoded: &Option<RolloutItem>,
    ) -> (r: Result<RolloutDebugThreadRecord, BundleBuildError>)
        requires
            old(self).wf(),
            old(self)@.thread_ids.len() > 0,
            *decoded matches Some(item) ==> countable_record(item),
        ensures
            final(self).wf(),
            final(self)@ == bundle_step(old(self)@, line@, scan, *decoded).0,
            match (r, bundle_step(old(self)@, line@, scan, *decoded).1) {
                (Ok(record), Ok(expected)) => record@ == expected,
                (Err(error), Err(expected)) => error == expected,
                _ => false,
            },
    {
        if self.source_records >= self.limits.source_records {
            return Err(
                BundleBuildError::SourceWorkLimitExceeded {
                    resource: SourceResource::Records,
                    limit: self.limits.source_records,
                },
            );
        }
        self.source_records = self.source_records + 1;
        let item = match line {
            BoundedSourceLine::Retained(bytes) => {
                match self.redactor.redact_json_line_to_value(bytes.as_slice(), scan, decoded) {
                    Ok(item) => item,
                    Err(error) => {
                        return Err(BundleBuildError::Redaction(error));
                    },
                }
            },
            BoundedSourceLine::Oversized => RolloutDebugRedactor::oversized_value(),
        };
        let record = RolloutDebugThreadRecord {
            thread_local_id: self.thread_ids[self.current],
            ordinal: self.ordinal,
            item,
        };
        self.ordinal = self.ordinal.saturating_add(1);
        Ok(record)
    }

    /// Writes an encoded record as a line of its own. An output that has become
    /// too large is refused at once. How much of the output there is after a
    /// write is the encoder's affair: some two counts decide.
    pub fn write_json_line(&mut self, encoded: &Vec<u8>) -> (r: Result<(), BundleBuildError>)
        requires
            old(self).wf(),
        ensures
            final(self).wf(),
            exists|counts: (Option<usize>, Option<usize>)|
                (final(self)@, r) == #[trigger] line_written(old(self)@, encoded@, counts),
            r matches Err(error) ==> error == BundleBuildError::Serialization || error
                == BundleBuildError::Encoding || error == (BundleBuildError::AttachmentTooLarge {
                limit: old(self)@.limits.output_bytes,
            }),
    {
        let limit = self.limits.output_bytes;
        let ghost before = self@;
        let emitted = write_gzip(&mut self.gzip, encoded.as_slice());
        let ghost first = emitted;
        let written = admit_written(emitted, limit, BundleBuildError::Serialization);
        if written.is_err() {
            assert((self@, written) == line_written(before, encoded@, (first, None)));
            return written;
        }
        let mut end: Vec<u8> = Vec::new();
        end.push(10);
        assert(end@ =~= seq![10u8]);
        let emitted = write_gzip(&mut self.gzip, end.as_slice());
        let written = admit_written(emitted, limit, BundleBuildError::Encoding);
        assert((self@, written) == line_written(before, encoded@, (first, emitted)));
        written
    }

    /// Ends a source of which so many captured bytes were not read.
    pub fn close_source(&self, remaining: u64) -> (r: Result<(), BundleBuildError>)
        ensures
            r == (if remaining != 0 {
                Err::<(), BundleBuildError>(
                    BundleBuildError::SourceRead(SourceReadFailure::ChangedBeforeBoundary),
                )
            } else {
                Ok(())
            }),
    {
        if remaining != 0 {
            return Err(BundleBuildError::SourceRead(SourceReadFailure::ChangedBeforeBoundary));
        }
        Ok(())
    }

    /// The finished attachment.
    pub fn finish(self) -> (r: Result<Vec<u8>, BundleBuildError>)
        requires
            self.wf(),
        ensures
            match (
                r,
                admitted_attachment(gzip_encoding(self@.writes), self@.limits.output_bytes),
            ) {
                (Ok(bytes), Ok(expected)) => bytes@ == expected,
                (Err(error), Err(expected)) => error == expected,
                _ => false,
            },
    {
        let limit = self.limits.output_bytes;
        admit_attachment(finish_gzip(self.gzip), limit)
    }
}

#[verifier::spinoff_prover]
proof fn lemma_registered(s: RedactorModel, captures: Seq<CapturedThread>)
    requires
        redactor_inv(s),
        registered(s, captures).failure is None,
    ensures
        redactor_inv(registered(s, captures)),
        forall|i: int|
            0 <= i < captures.len() ==> ids_in(
                registered(s, captures),
                IdNamespace::Thread,
            ).contains_key((#[trigger] captures[i]).thread_id@),
    decreases captures.len(),
{
    if captures.len() > 0 {
        let before = registered(s, captures.drop_last());
        assert(before.failure is None);
        lemma_registered(s, captures.drop_last());
        let id = captures.last().thread_id@;
        let table = ids_in(before, IdNamespace::Thread);
        let after = registered(s, captures);
        assert(dense(before.ids[table_of(IdNamespace::Thread)]));
        if !table.contains_key(id) {
            let at = table_of(IdNamespace::Thread);
            let number = table.len() as u64;
            assert(table.len() <= before.tracked_id_entries);
            lemma_dense_insert(table, id, number);
            lemma_sums_insert(before.ids, at, id, number);
            assert forall|n: int| 0 <= n < after.ids.len() implies dense(#[trigger] after.ids[n])
                && after.ids[n].len() <= after.tracked_id_entries by {
                assert(dense(before.ids[n]));
            }
        }
        assert forall|i: int| 0 <= i < captures.len() implies ids_in(
            after,
            IdNamespace::Thread,
        ).contains_key((#[trigger] captures[i]).thread_id@) by {
            if i < captures.len() - 1 {
                assert(captures.drop_last()[i] == captures[i]);
                assert(table.contains_key(captures[i].thread_id@));
            }
        }
    }
}

/// The numbers of a manifest tell threads apart: two captures have the same
/// number only if they are of the same thread.
pub proof fn numbers_tell_threads_apart(
    captures: Seq<CapturedThread>,
    limits: BundleBuildLimits,
    carriers: SpineCarriers,
    i: int,
    j: int,
)
    requires
        begin_error(captures, limits, carriers) is None,
        0 <= i < captures.len(),
        0 <= j < captures.len(),
    ensures
        thread_numbers(carriers, captures)[captures[i].thread_id@] == thread_numbers(
            carriers,
            captures,
        )[captures[j].thread_id@] <==> captures[i].thread_id@ == captures[j].thread_id@,
{
    let s = fresh(default_limits(), carriers);
    lemma_fresh(default_limits(), carriers);
    lemma_registered(s, captures);
    let table = thread_numbers(carriers, captures);
    assert(dense(registered(s, captures).ids[table_of(IdNamespace::Thread)]));
    assert(table.contains_key(captures[i].thread_id@));
    assert(table.contains_key(captures[j].thread_id@));
}

/// How many different threads were captured.
pub open spec fn distinct_threads(captures: Seq<CapturedThread>) -> nat
    decreases captures.len(),
{
    if captures.len() == 0 {
        0
    } else if is_captured(captures.drop_last(), captures.last().thread_id@) {
        distinct_threads(captures.drop_last())
    } else {
        distinct_threads(captures.drop_last()) + 1
    }
}

/// Threads are numbered in the order in which they were first captured: the
/// number of one is how many different threads were captured before it.
pub proof fn threads_are_numbered_in_order(
    captures: Seq<CapturedThread>,
    limits: BundleBuildLimits,
    carriers: SpineCarriers,
    i: int,
)
    requires
        begin_error(captures, limits, carriers) is None,
        0 <= i < captures.len(),
        !is_captured(captures.take(i), captures[i].thread_id@),
    ensures
        thread_numbers(carriers, captures)[captures[i].thread_id@] == distinct_threads(
            captures.take(i),
        ),
{
    lemma_fresh(default_limits(), carriers);
    lemma_numbered(fresh(default_limits(), carriers), captures);
}

/// The thread that is captured first has the number zero.
pub proof fn the_first_thread_is_zero(
    captures: Seq<CapturedThread>,
    limits: BundleBuildLimits,
    carriers: SpineCarriers,
)
    requires
        begin_error(captures, limits, carriers) is None,
        captures.len() > 0,
    ensures
        thread_numbers(carriers, captures)[captures[0].thread_id@] == 0,
{
    threads_are_numbered_in_order(captures, limits, carriers, 0);
}

proof fn lemma_captured_last(captures: Seq<CapturedThread>, id: Seq<char>)
    requires
        captures.len() > 0,
    ensures
        is_captured(captures, id) <==> is_captured(captures.drop_last(), id)
            || captures.last().thread_id@ == id,
{
    let earlier = captures.drop_last();
    if is_captured(earlier, id) {
        let k = choose|k: int| 0 <= k < earlier.len() && (#[trigger] earlier[k]).thread_id@ == id;
        assert(captures[k].thread_id@ == id);
    }
    if captures.last().thread_id@ == id {
        assert(captures[captures.len() - 1].thread_id@ == id);
    }
    if is_captured(captures, id) && captures.last().thread_id@ != id {
        let k = choose|k: int| 0 <= k < captures.len() && (#[trigger] captures[k]).thread_id@ == id;
        assert(earlier[k].thread_id@ == id);
    }
}

#[verifier::spinoff_prover]
#[verifier::rlimit(40)]
proof fn lemma_numbered(s: RedactorModel, captures: Seq<CapturedThread>)
    requires
        redactor_inv(s),
        ids_in(s, IdNamespace::Thread) == Map::<Seq<char>, u64>::empty(),
        s.failure is None,
        registered(s, captures).failure is None,
    ensures
        ids_in(registered(s, captures), IdNamespace::Thread).len() == distinct_threads(captures),
        forall|id: Seq<char>|
            #[trigger] ids_in(registered(s, captures), IdNamespace::Thread).contains_key(id)
                <==> is_captured(captures, id),
        forall|i: int|
            0 <= i < captures.len() && !is_captured(captures.take(i), captures[i].thread_id@)
                ==> ids_in(registered(s, captures), IdNamespace::Thread)[(
            #[trigger] captures[i]).thread_id@] == distinct_threads(captures.take(i)),
    decreases captures.len(),
{
    if captures.len() > 0 {
        let earlier = captures.drop_last();
        let before = registered(s, earlier);
        let after = registered(s, captures);
        let table = ids_in(before, IdNamespace::Thread);
        let grown = ids_in(after, IdNamespace::Thread);
        assert(before.failure is None);
        lemma_numbered(s, earlier);
        lemma_registered(s, earlier);
        let id = captures.last().thread_id@;
        assert(dense(before.ids[table_of(IdNamespace::Thread)]));
        assert(table.contains_key(id) == is_captured(earlier, id));
        if !table.contains_key(id) {
            assert(grown == table.insert(id, table.len() as u64));
            assert(before.ids[table_of(IdNamespace::Thread)].len() <= before.tracked_id_entries);
        }
        assert forall|other: Seq<char>| #[trigger] grown.contains_key(other) <==> is_captured(
            captures,
            other,
        ) by {
            lemma_captured_last(captures, other);
            assert(table.contains_key(other) == is_captured(earlier, other));
        }
        assert forall|i: int|
            0 <= i < captures.len() && !is_captured(
                captures.take(i),
                captures[i].thread_id@,
            ) implies grown[(#[trigger] captures[i]).thread_id@] == distinct_threads(
            captures.take(i),
        ) by {
            if i < captures.len() - 1 {
                assert(captures.take(i) =~= earlier.take(i));
                assert(earlier[i] == captures[i]);
                assert(is_captured(earlier, captures[i].thread_id@));
                assert(table.contains_key(captures[i].thread_id@));
            } else {
                assert(captures.take(i) =~= earlier);
            }
        }
    } else {
        assert forall|id: Seq<char>| !is_captured(captures, id) by {}
    }
}

/// However many lines are read, no more records come out than the limit allows,
/// and within a source they are numbered one after another.
pub proof fn records_are_counted(
    s: BundleModel,
    line: LineModel,
    scan: JsonScan,
    decoded: Option<RolloutItem>,
)
    requires
        s.source_records <= s.limits.source_records,
    ensures
        bundle_step(s, line, scan, decoded).0.source_records <= s.limits.source_records,
        bundle_step(s, line, scan, decoded).1 matches Ok(record) ==> {
            &&& record.ordinal == s.ordinal
            &&& record.thread_local_id == s.thread_ids[s.current as int]
            &&& bundle_step(s, line, scan, decoded).0.ordinal == next_ordinal(s.ordinal)
            &&& bundle_step(s, line, scan, decoded).0.source_records == s.source_records + 1
        },
{
}

/// An error of the system is an exhaustion where memory ran out, or where its
/// number says so on the system that it comes from: too many open files, in the
/// process or in all, or no memory.
pub proof fn which_errors_exhaust(out_of_memory: bool, number: i32)
    ensures
        forall|raw: Option<i32>, platform: Platform| #[trigger]
            exhausts_resources(true, raw, platform),
        !exhausts_resources(false, None, Platform::Unix),
        !exhausts_resources(false, None, Platform::Windows),
        !exhausts_resources(false, Some(number), Platform::Other),
        exhausts_resources(false, Some(number), Platform::Unix) <==> number == 12 || number == 23
            || number == 24,
        exhausts_resources(false, Some(number), Platform::Windows) <==> number == 4 || number == 8
            || number == 14,
{
}

/// A source is ready exactly where it is a regular file that can be identified,
/// and then with all its bytes; it is missing only where it is not there.
pub proof fn which_sources_are_ready(probe: SourceProbe)
    ensures
        captured_source(probe) matches Ok(CapturedSource::Ready(snapshot)) ==> (probe
            matches SourceProbe::Opened { regular, bytes, identity } && regular && bytes
            == snapshot.captured_bytes && identity == Some(snapshot.identity)),
        probe matches SourceProbe::Opened { regular: true, bytes, identity: Some(identity) } ==> (
        captured_source(probe) matches Ok(CapturedSource::Ready(snapshot))
            && snapshot.captured_bytes == bytes && snapshot.identity == identity),
        captured_source(probe) == Ok::<CapturedSource, BundleBuildError>(CapturedSource::Missing)
            <==> probe is NotFound,
        captured_source(probe) == Err::<CapturedSource, BundleBuildError>(
            BundleBuildError::SourceCaptureResourceExhausted,
        ) <==> probe is Exhausted,
        captured_source(probe) == Err::<CapturedSource, BundleBuildError>(
            BundleBuildError::SourceIdentityUnavailable,
        ) <==> (probe matches SourceProbe::Opened { regular: true, identity: None, .. }),
        captured_source(probe) == Ok::<CapturedSource, BundleBuildError>(CapturedSource::Unreadable)
            <==> probe is Failed || (probe matches SourceProbe::Opened { regular: false, .. }),
{
}

/// A captured source is read again only where it is the same regular file with
/// at least the captured bytes: one that has only grown is.
pub proof fn only_the_captured_file_is_read_again(
    snapshot: CapturedFileSnapshot,
    probe: SourceProbe,
)
    ensures
        reopen_failure(snapshot, probe) is None <==> (probe matches SourceProbe::Opened {
            regular,
            bytes,
            identity,
        } && regular && identity == Some(snapshot.identity) && bytes >= snapshot.captured_bytes),
        reopen_failure(snapshot, probe) == Some(SourceReadFailure::NotRegular) <==> (probe
            matches SourceProbe::Opened { regular: false, .. }),
        reopen_failure(snapshot, probe) == Some(SourceReadFailure::IdentityChanged) <==> (probe
            matches SourceProbe::Opened { regular: true, identity: Some(found), .. } && found
            != snapshot.identity),
        reopen_failure(snapshot, probe) == Some(SourceReadFailure::Shrank) <==> (probe
            matches SourceProbe::Opened { regular: true, bytes, identity: Some(found) } && found
            == snapshot.identity && bytes < snapshot.captured_bytes),
        reopen_failure(snapshot, probe) != Some(SourceReadFailure::ChangedBeforeBoundary),
{
}

/// What a source is captured as can be read again as long as it does not change.
pub proof fn a_captured_source_can_be_read_again(probe: SourceProbe)
    ensures
        captured_source(probe) matches Ok(CapturedSource::Ready(snapshot)) ==> reopen_failure(
            snapshot,
            probe,
        ) is None,
{
}

/// The captured bytes add up over the threads, and only sources that are ready
/// have any.
pub proof fn captured_bytes_add_up(captures: Seq<CapturedThread>, capture: CapturedThread)
    ensures
        captured_total(Seq::empty()) == 0,
        captured_total(captures.push(capture)) == captured_total(captures) + (
        match capture.source {
            CapturedSource::Ready(snapshot) => snapshot.captured_bytes as nat,
            CapturedSource::Missing => 0,
            CapturedSource::FlushFailed => 0,
            CapturedSource::Unavailable => 0,
            CapturedSource::Unreadable => 0,
        }),
{
    assert(captures.push(capture).drop_last() =~= captures);
}

/// What the manifest says of a parent: the root has none; a thread whose parent
/// is not recorded has an unknown one; else it is the parent's number, where the
/// parent is part of the bundle.
pub proof fn a_parent_is_named_by_its_number(
    thread: Seq<char>,
    root: Seq<char>,
    parents: Map<Seq<char>, String>,
    numbers: Map<Seq<char>, u64>,
)
    ensures
        parent_of(thread, root, parents, numbers) is Root <==> thread == root,
        thread != root ==> (parent_of(thread, root, parents, numbers) is Unknown
            <==> !parents.contains_key(thread)),
        thread != root && parents.contains_key(thread) && numbers.contains_key(parents[thread]@)
            ==> parent_of(thread, root, parents, numbers) == (ManifestParent::Known {
            thread_local_id: numbers[parents[thread]@],
        }),
        thread != root && parents.contains_key(thread) && !numbers.contains_key(parents[thread]@)
            ==> parent_of(thread, root, parents, numbers) is OutsideSnapshot,
{
}

/// The manifest shows of a captured thread its number, its parent and what
/// became of its source.
pub proof fn a_manifest_shows_each_thread(
    capture: CapturedThread,
    root: Seq<char>,
    parents: Map<Seq<char>, String>,
    numbers: Map<Seq<char>, u64>,
)
    ensures
        ({
            let shown = manifest_thread(capture, root, parents, numbers);
            &&& shown.thread_local_id == numbers[capture.thread_id@]
            &&& shown.parent is Root <==> capture.thread_id@ == root
            &&& shown.parent == parent_of(capture.thread_id@, root, parents, numbers)
            &&& capture.source matches CapturedSource::Ready(snapshot) ==> shown.source == (
            ManifestSource::Ready { captured_bytes: snapshot.captured_bytes })
            &&& capture.source is Missing ==> shown.source is Missing
            &&& capture.source is FlushFailed ==> shown.source is FlushFailed
            &&& capture.source is Unavailable ==> shown.source is Unavailable
            &&& capture.source is Unreadable ==> shown.source is Unreadable
        }),
{
}

/// No bundle is begun of more bytes than its limit; else it is begun unless the
/// threads are too many for the redactor.
pub proof fn when_a_bundle_is_begun(
    captures: Seq<CapturedThread>,
    limits: BundleBuildLimits,
    carriers: SpineCarriers,
)
    ensures
        captured_total(captures) > limits.source_bytes ==> begin_error(captures, limits, carriers)
            == Some(
            BundleBuildError::SourceWorkLimitExceeded {
                resource: SourceResource::CapturedBytes,
                limit: limits.source_bytes,
            },
        ),
        captured_total(captures) <= limits.source_bytes ==> match registered(
            fresh(default_limits(), carriers),
            captures,
        ).failure {
            Some(error) => begin_error(captures, limits, carriers) == Some(
                BundleBuildError::Redaction(error),
            ),
            None => begin_error(captures, limits, carriers) is None,
        },
{
}

/// A line that is too long comes out as a record that says only so and tells the
/// redactor nothing; a line past the limit on records comes out as an error, and
/// changes nothing; a retained line comes out as the redactor makes it.
pub proof fn what_comes_of_a_line(
    s: BundleModel,
    line: LineModel,
    scan: JsonScan,
    decoded: Option<RolloutItem>,
)
    requires
        s.source_records <= s.limits.source_records,
    ensures
        ({
            let (t, r) = bundle_step(s, line, scan, decoded);
            &&& s.source_records == s.limits.source_records ==> t == s && r == Err::<
                ThreadRecordModel,
                BundleBuildError,
            >(
                BundleBuildError::SourceWorkLimitExceeded {
                    resource: SourceResource::Records,
                    limit: s.limits.source_records,
                },
            )
            &&& s.source_records < s.limits.source_records ==> {
                &&& t.source_records == s.source_records + 1
                &&& t.limits == s.limits && t.thread_ids == s.thread_ids && t.writes == s.writes
                &&& t.current == s.current
                &&& line is Oversized ==> t.redactor == s.redactor && (r matches Ok(record)
                    && record.item == DebugRolloutRecord::OversizedRedacted@)
                &&& line matches LineModel::Retained(bytes) ==> if s.redactor.failure is Some {
                    t.redactor == s.redactor && r == Err::<ThreadRecordModel, BundleBuildError>(
                        BundleBuildError::Redaction(s.redactor.failure->0),
                    )
                } else {
                    &&& t.redactor == line_step(s.redactor, bytes, scan, decoded).0
                    &&& t.redactor.failure matches Some(error) ==> r == Err::<
                        ThreadRecordModel,
                        BundleBuildError,
                    >(BundleBuildError::Redaction(error))
                    &&& t.redactor.failure is None ==> (r matches Ok(record) && record.item
                        == line_step(s.redactor, bytes, scan, decoded).1)
                }
                &&& r matches Ok(record) ==> record.ordinal == s.ordinal && record.thread_local_id
                    == s.thread_ids[s.current as int] && (s.ordinal < u64::MAX ==> t.ordinal
                    == s.ordinal + 1)
                &&& r is Err ==> t.ordinal == s.ordinal
            }
        }),
{
}

/// Every record is written as a line of its own, unless the output has become
/// too large or a write fails, which is then the error.
pub proof fn a_record_is_written_as_a_line(
    s: BundleModel,
    encoded: Seq<u8>,
    counts: (Option<usize>, Option<usize>),
)
    ensures
        ({
            let (t, r) = line_written(s, encoded, counts);
            &&& t == (BundleModel { writes: t.writes, ..s })
            &&& r is Ok <==> (counts.0 matches Some(n) && n <= s.limits.output_bytes) && (counts.1
                matches Some(m) && m <= s.limits.output_bytes)
            &&& r is Ok ==> t.writes == s.writes.push(encoded).push(seq![10u8])
            &&& counts.0 is None ==> r == Err::<(), BundleBuildError>(
                BundleBuildError::Serialization,
            )
            &&& (counts.0 matches Some(n) && n <= s.limits.output_bytes) && counts.1 is None ==> r
                == Err::<(), BundleBuildError>(BundleBuildError::Encoding)
            &&& (counts.0 matches Some(n) && n > s.limits.output_bytes) ==> r == Err::<
                (),
                BundleBuildError,
            >(BundleBuildError::AttachmentTooLarge { limit: s.limits.output_bytes })
        }),
{
}

/// A finished encoding is the attachment, whole, where it keeps the limit.
pub proof fn an_attachment_keeps_its_limit(encoding: Option<Seq<u8>>, limit: usize)
    ensures
        encoding is None ==> admitted_attachment(encoding, limit) == Err::<
            Seq<u8>,
            BundleBuildError,
        >(BundleBuildError::Encoding),
        encoding matches Some(bytes) ==> if bytes.len() <= limit {
            admitted_attachment(encoding, limit) == Ok::<Seq<u8>, BundleBuildError>(bytes)
        } else {
            admitted_attachment(encoding, limit) == Err::<Seq<u8>, BundleBuildError>(
                BundleBuildError::AttachmentTooLarge { limit },
            )
        },
{
}

/// What each build error says, whatever its particulars.
pub proof fn build_errors_say_what_failed(
    limit: usize,
    amount: u64,
    failure: SourceReadFailure,
    error: RolloutDebugRedactorError,
)
    ensures
        build_error_text(BundleBuildError::AttachmentTooLarge { limit })
            == "rollout debug attachment exceeds "@ + decimal_text(limit as nat) + " bytes"@,
        build_error_text(
            BundleBuildError::SourceWorkLimitExceeded {
                resource: SourceResource::ThreadIdentifiers,
                limit: amount,
            },
        ) == "rollout debug source "@ + "thread identifiers"@ + " exceeds package limit "@
            + decimal_text(amount as nat),
        build_error_text(
            BundleBuildError::SourceWorkLimitExceeded {
                resource: SourceResource::CapturedBytes,
                limit: amount,
            },
        ) == "rollout debug source "@ + "captured bytes"@ + " exceeds package limit "@
            + decimal_text(amount as nat),
        build_error_text(
            BundleBuildError::SourceWorkLimitExceeded {
                resource: SourceResource::Records,
                limit: amount,
            },
        ) == "rollout debug source "@ + "records"@ + " exceeds package limit "@ + decimal_text(
            amount as nat,
        ),
        build_error_text(BundleBuildError::SourceCaptureResourceExhausted)
            == "rollout source capture exhausted process resources"@,
        build_error_text(BundleBuildError::SourceIdentityUnavailable)
            == "stable rollout source identity is unavailable"@,
        build_error_text(BundleBuildError::SourceRead(failure))
            == "failed to read captured rollout source"@,
        build_error_text(BundleBuildError::Encoding)
            == "failed to encode rollout debug attachment"@,
        build_error_text(BundleBuildError::Serialization)
            == "failed to serialize rollout debug record"@,
        build_error_text(BundleBuildError::Redaction(error))
            == "rollout debug redaction state limit exceeded"@,
        match failure {
            SourceReadFailure::Io => read_failure_text(failure)
                == "rollout source could not be read"@,
            SourceReadFailure::NotRegular => read_failure_text(failure)
                == "captured rollout source is no longer a regular file"@,
            SourceReadFailure::IdentityChanged => read_failure_text(failure)
                == "captured rollout source identity changed"@,
            SourceReadFailure::Shrank => read_failure_text(failure)
                == "captured rollout source shrank"@,
            SourceReadFailure::ChangedBeforeBoundary => read_failure_text(failure)
                == "rollout source changed before its captured boundary"@,
        },
{
}

} // verus!
