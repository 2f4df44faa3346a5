//! Locked configurations: what a lock must hold, how older ones are brought up
//! to date, and which configuration a session resolves to.

use crate::session_snapshot::{clear_config_lock_debug_controls, LockConfig};
use crate::text::{decimal, same_text};
use vstd::prelude::*;

verus! {

use crate::session_snapshot::{same_inputs, same_resolved_values, same_rest, same_session_values};
use crate::shapes::text_view;
use crate::text::decimal_text;

/// The version in which locks are written.
pub const CONFIG_LOCK_VERSION: u32 = 3;

/// A file that a configuration was made from.
#[derive(Debug, PartialEq, Eq)]
pub struct SpineConfigSourceLock {
    pub path: String,
    pub required: bool,
    pub digest: Option<String>,
}

/// A configuration as it is locked.
#[derive(Debug, PartialEq, Eq)]
pub struct SpineConfigLock {
    pub schema_version: u32,
    pub bundled_digest: String,
    pub sources: Vec<SpineConfigSourceLock>,
    pub effective_config: Option<String>,
}

/// A file that a configuration was made from, as contracts speak of it: its
/// path, whether it has to be there, and its digest.
pub type SourceModel = (Seq<char>, bool, Option<Seq<char>>);

/// The model of a [`SpineConfigLock`].
#[verifier::ext_equal]
pub ghost struct SnapshotModel {
    pub schema_version: u32,
    pub bundled_digest: Seq<char>,
    pub sources: Seq<SourceModel>,
    pub effective_config: Option<Seq<char>>,
}

impl View for SpineConfigLock {
    type V = SnapshotModel;

    open spec fn view(&self) -> SnapshotModel {
        SnapshotModel {
            schema_version: self.schema_version,
            bundled_digest: self.bundled_digest@,
            sources: source_views(self.sources@),
            effective_config: text_view(self.effective_config),
        }
    }
}

impl SpineConfigLock {
    pub fn copy(&self) -> (r: Self)
        ensures
            r@ == self@,
    {
        let mut sources: Vec<SpineConfigSourceLock> = Vec::new();
        let mut i: usize = 0;
        assert(source_views(sources@) =~= source_views(self.sources@).take(0));
        while i < self.sources.len()
            invariant
                i <= self.sources@.len(),
                source_views(sources@) == source_views(self.sources@).take(i as int),
            decreases self.sources@.len() - i,
        {
            let ghost before = source_views(sources@);
            let source = SpineConfigSourceLock {
                path: self.sources[i].path.clone(),
                required: self.sources[i].required,
                digest: crate::spawn::copy_text(&self.sources[i].digest),
            };
            sources.push(source);
            assert(source_views(sources@) =~= before.push(source_views(self.sources@)[i as int]));
            assert(before.push(source_views(self.sources@)[i as int]) =~= source_views(
                self.sources@,
            ).take(i + 1));
            i = i + 1;
        }
        assert(source_views(self.sources@).take(i as int) =~= source_views(self.sources@));
        SpineConfigLock {
            schema_version: self.schema_version,
            bundled_digest: self.bundled_digest.clone(),
            sources,
            effective_config: crate::spawn::copy_text(&self.effective_config),
        }
    }
}

/// A snapshot that may be there.
pub open spec fn snapshot_view(snapshot: Option<SpineConfigLock>) -> Option<SnapshotModel> {
    match snapshot {
        Some(snapshot) => Some(snapshot@),
        None => None,
    }
}

/// A lock file: the version that it is written in and that of the program that
/// wrote it, the locked configuration of the task tree, and the configuration of
/// the session.
pub struct ConfigLockfile {
    pub version: u32,
    pub codex_version: String,
    pub spine_config: Option<SpineConfigLock>,
    pub config: LockConfig,
}

/// Whether two configurations agree on everything but the locked configuration
/// of the task tree.
pub open spec fn same_but_snapshot(a: LockConfig, b: LockConfig) -> bool {
    &&& same_session_values(a, b)
    &&& same_resolved_values(a, b)
    &&& same_inputs(a, b)
    &&& same_rest(a, b)
}

/// The lock file of a session: the locked configuration stands in it twice.
pub fn config_lockfile(
    config: LockConfig,
    spine_config: SpineConfigLock,
    codex_version: &str,
) -> (r: ConfigLockfile)
    ensures
        r.version == CONFIG_LOCK_VERSION,
        r.codex_version@ == codex_version@,
        snapshot_view(r.spine_config) == Some(spine_config@),
        snapshot_view(r.config.spine_config_snapshot) == Some(spine_config@),
        same_but_snapshot(r.config, config),
{
    let mut config = config;
    config.spine_config_snapshot = Some(spine_config.copy());
    ConfigLockfile {
        version: CONFIG_LOCK_VERSION,
        codex_version: codex_version.to_owned(),
        spine_config: Some(spine_config),
        config,
    }
}

/// A configuration without the controls of locking itself.
pub fn config_without_lock_controls(config: LockConfig) -> (r: LockConfig)
    ensures
        r == (LockConfig { debug: None, spine_snapshot: None, ..config }),
{
    let mut config = config;
    clear_config_lock_debug_controls(&mut config);
    config
}

/// A configuration layer that comes from a file of the user's, under no profile.
pub struct LockLayer {
    pub file: String,
    pub profile: Option<String>,
    pub config: LockConfig,
}

/// The layer that a lock file becomes when its session is replayed.
pub fn lock_layer_from_config(path: &str, lock: ConfigLockfile) -> (r: LockLayer)
    ensures
        r.file@ == path@,
        r.profile is None,
        r.config == (LockConfig { debug: None, spine_snapshot: None, ..lock.config }),
{
    LockLayer {
        file: path.to_owned(),
        profile: None,
        config: config_without_lock_controls(lock.config),
    }
}

/// What is done next with a lock that is read.
#[derive(Debug, PartialEq, Eq)]
#[allow(inconsistent_fields)]
pub enum LockStep {
    /// Read the source at the path, and lay it over the layers before it.
    ReadSource(String),
    /// Write the layers out as one configuration.
    WriteLayers,
    /// Check the configuration.
    Check(String),
}

/// The model of a [`LockStep`].
#[allow(inconsistent_fields)]
pub ghost enum StepModel {
    ReadSource(Seq<char>),
    WriteLayers,
    Check(Seq<char>),
}

impl View for LockStep {
    type V = StepModel;

    open spec fn view(&self) -> StepModel {
        match *self {
            LockStep::ReadSource(path) => StepModel::ReadSource(path@),
            LockStep::WriteLayers => StepModel::WriteLayers,
            LockStep::Check(text) => StepModel::Check(text@),
        }
    }
}

/// What was read of a source.
pub struct SourceText {
    pub digest: String,
    pub text: String,
}

/// What is known of a source that was read.
pub struct SourceVerdict {
    pub digest: String,
    /// Why the text is no configuration, if it is not.
    pub invalid: Option<String>,
}

/// What `toml::from_str` says is wrong with a text that is read as one TOML
/// value: nothing where it reports no error.
pub uninterp spec fn toml_error(text: Seq<char>) -> Option<Seq<char>>;

/// Calls `toml::from_str::<toml::Value>` and writes out its error. The outcome
/// depends on the text alone; [`toml_error`] names it.
#[verifier::external_body]
fn find_toml_error(text: &str) -> (r: Option<String>)
    ensures
        text_view(r) == toml_error(text@),
{
    toml::from_str::<toml::Value>(text).err().map(|error| error.to_string())
}

/// A lock while it is read.
pub struct LockReader {
    pub path: String,
    pub version: u32,
    pub codex_version: String,
    pub config: LockConfig,
    pub snapshot: SpineConfigLock,
    /// The source that comes next.
    pub next: usize,
}

/// The next source that was part of the snapshot; the number of sources where
/// there is none. A required source without a digest is an error.
pub open spec fn next_source(sources: Seq<SpineConfigSourceLock>, from: int) -> Result<
    int,
    Seq<char>,
>
    decreases sources.len() - from,
{
    if from >= sources.len() {
        Ok(sources.len() as int)
    } else if sources[from].digest is Some {
        Ok(from)
    } else if sources[from].required {
        Err("snapshot source "@ + sources[from].path@ + " has no recorded digest"@)
    } else {
        next_source(sources, from + 1)
    }
}

/// The step at a source.
pub open spec fn step_at(sources: Seq<SpineConfigSourceLock>, at: int) -> StepModel {
    if at < sources.len() {
        StepModel::ReadSource(sources[at].path@)
    } else {
        StepModel::WriteLayers
    }
}

/// The step that checks a snapshot.
pub open spec fn check_step(path: Seq<char>, snapshot: Option<SpineConfigLock>) -> Result<
    StepModel,
    Seq<char>,
> {
    match snapshot {
        None => Err("snapshot "@ + path + " has no Spine config"@),
        Some(snapshot) => match text_view(snapshot.effective_config) {
            None => Err("snapshot "@ + path + " has no effective Spine config"@),
            Some(text) => Ok(StepModel::Check(text)),
        },
    }
}

/// Whether a lock's version and its snapshot fit together.
pub open spec fn metadata_fits(lock: ConfigLockfile) -> bool {
    (lock.version == 1 && lock.spine_config is None) || (lock.version == 2
        && lock.spine_config is Some)
}

/// The bundled digest that a lock of an older version refers to.
pub open spec fn recorded_bundle(lock: ConfigLockfile, bundled: Seq<char>) -> Seq<char> {
    match lock.spine_config {
        Some(snapshot) => snapshot.bundled_digest@,
        None => bundled,
    }
}

/// What is wrong with an older lock, before its sources are read.
pub open spec fn legacy_error(path: Seq<char>, lock: ConfigLockfile, bundled: Seq<char>) -> Option<
    Seq<char>,
> {
    if !metadata_fits(lock) {
        Some(
            "snapshot "@ + path + " has invalid version "@ + decimal_text(lock.version as nat)
                + " source metadata"@,
        )
    } else if recorded_bundle(lock, bundled) != bundled {
        Some(
            "snapshot "@ + path + " references unavailable bundled Spine config "@
                + recorded_bundle(lock, bundled),
        )
    } else if lock.version == 1 && lock.config.spine_config_file is Some {
        Some(
            "snapshot "@ + path
                + " does not contain the external Spine config required to reconstruct version 1"@,
        )
    } else {
        None
    }
}

/// The sources of an older lock.
pub open spec fn lock_sources(lock: ConfigLockfile) -> Seq<SpineConfigSourceLock> {
    match lock.spine_config {
        Some(snapshot) => snapshot.sources@,
        None => Seq::empty(),
    }
}

/// How reading a lock begins.
pub open spec fn first_step(path: Seq<char>, lock: ConfigLockfile, bundled: Seq<char>) -> Result<
    StepModel,
    Seq<char>,
> {
    if lock.version == 1 || lock.version == 2 {
        match legacy_error(path, lock, bundled) {
            Some(error) => Err(error),
            None => match next_source(lock_sources(lock), 0) {
                Err(error) => Err(error),
                Ok(at) => Ok(step_at(lock_sources(lock), at)),
            },
        }
    } else if lock.version == CONFIG_LOCK_VERSION {
        check_step(path, lock.spine_config)
    } else {
        Err(
            "unsupported Spine snapshot version "@ + decimal_text(lock.version as nat) + " in "@
                + path,
        )
    }
}

pub open spec fn step_view(step: Result<LockStep, String>) -> Result<StepModel, Seq<char>> {
    match step {
        Ok(step) => Ok(step@),
        Err(error) => Err(error@),
    }
}

/// What comes of a source that was read, given its digest and what is wrong with
/// its text: nothing is taken over of one that is not the recorded one or no
/// configuration.
pub open spec fn source_outcome(
    before: LockReader,
    contents: Result<(Seq<char>, Option<Seq<char>>), Seq<char>>,
    after: LockReader,
    r: Result<LockStep, String>,
) -> bool {
    let source = before.snapshot.sources@[before.next as int];
    let digest = text_view(source.digest)->Some_0;
    match contents {
        Err(error) => r matches Err(message) && message@ == "cannot reconstruct snapshot source "@
            + source.path@ + ": "@ + error,
        Ok((found, invalid)) => if found != digest {
            r matches Err(message) && message@ == "snapshot source "@ + source.path@
                + " no longer matches recorded digest "@ + digest
        } else {
            match invalid {
                Some(error) => r matches Err(message) && message@ == "invalid snapshot source "@
                    + source.path@ + ": "@ + error,
                None => match next_source(before.snapshot.sources@, before.next + 1) {
                    Err(error) => r matches Err(message) && message@ == error,
                    Ok(at) => {
                        &&& r matches Ok(step)
                        &&& step@ == step_at(before.snapshot.sources@, at)
                        &&& after.next == at
                        &&& step@ is ReadSource ==> after.awaits_source()
                    },
                },
            }
        },
    }
}

fn message3(a: &str, b: &str, c: &str) -> (r: String)
    ensures
        r@ == a@ + b@ + c@,
{
    let mut message = String::from_str(a);
    message.append(b);
    message.append(c);
    message
}

fn check_snapshot(path: &str, snapshot: &Option<SpineConfigLock>) -> (r: Result<LockStep, String>)
    ensures
        step_view(r) == check_step(path@, *snapshot),
{
    match snapshot {
        None => Err(message3("snapshot ", path, " has no Spine config")),
        Some(snapshot) => match &snapshot.effective_config {
            None => Err(message3("snapshot ", path, " has no effective Spine config")),
            Some(text) => Ok(LockStep::Check(text.clone())),
        },
    }
}

impl LockReader {
    /// Whether the reader stands at a source that has to be read.
    pub open spec fn awaits_source(&self) -> bool {
        self.next < self.snapshot.sources@.len() && self.snapshot.sources@[self.next as int].digest
            is Some
    }

    fn advance(&mut self, from: usize) -> (r: Result<LockStep, String>)
        requires
            from <= old(self).snapshot.sources@.len(),
        ensures
            final(self).path == old(self).path,
            final(self).version == old(self).version,
            final(self).codex_version == old(self).codex_version,
            final(self).config == old(self).config,
            final(self).snapshot == old(self).snapshot,
            match next_source(old(self).snapshot.sources@, from as int) {
                Err(error) => r matches Err(message) && message@ == error,
                Ok(at) => {
                    &&& r matches Ok(step)
                    &&& step@ == step_at(old(self).snapshot.sources@, at)
                    &&& final(self).next == at
                    &&& at < old(self).snapshot.sources@.len() ==> final(self).awaits_source()
                },
            },
    {
        let mut at: usize = from;
        while at < self.snapshot.sources.len()
            invariant
                from <= at <= self.snapshot.sources@.len(),
                *self == *old(self),
                next_source(self.snapshot.sources@, from as int) == next_source(
                    self.snapshot.sources@,
                    at as int,
                ),
            decreases self.snapshot.sources@.len() - at,
        {
            if self.snapshot.sources[at].digest.is_some() {
                self.next = at;
                return Ok(LockStep::ReadSource(self.snapshot.sources[at].path.clone()));
            }
            if self.snapshot.sources[at].required {
                return Err(
                    message3(
                        "snapshot source ",
                        self.snapshot.sources[at].path.as_str(),
                        " has no recorded digest",
                    ),
                );
            }
            at = at + 1;
        }
        self.next = at;
        Ok(LockStep::WriteLayers)
    }

    /// Begins to read a lock. `bundled_digest` is that of the configuration that
    /// the program carries.
    pub fn begin(path: &str, lock: ConfigLockfile, bundled_digest: &str) -> (r: Result<
        (Self, LockStep),
        String,
    >)
        ensures
            match first_step(path@, lock, bundled_digest@) {
                Err(error) => r matches Err(message) && message@ == error,
                Ok(step) => {
                    &&& r matches Ok((reader, s))
                    &&& s@ == step
                    &&& reader.path@ == path@
                    &&& reader.version == lock.version
                    &&& reader.codex_version == lock.codex_version
                    &&& reader.config == lock.config
                    &&& lock.spine_config matches Some(snapshot) ==> reader.snapshot == snapshot
                    &&& lock.spine_config is None ==> {
                        &&& reader.snapshot.schema_version == 1
                        &&& reader.snapshot.bundled_digest@ == bundled_digest@
                        &&& reader.snapshot.sources@.len() == 0
                        &&& reader.snapshot.effective_config is None
                    }
                    &&& step is ReadSource ==> reader.awaits_source()
                },
            },
    {
        if lock.version == 1 || lock.version == 2 {
            let fits = (lock.version == 1 && lock.spine_config.is_none()) || (lock.version == 2
                && lock.spine_config.is_some());
            if !fits {
                let mut message = message3("snapshot ", path, " has invalid version ");
                message.append(decimal(lock.version as u64).as_str());
                message.append(" source metadata");
                return Err(message);
            }
            let snapshot = match lock.spine_config {
                Some(snapshot) => snapshot,
                None => {
                    let sources: Vec<SpineConfigSourceLock> = Vec::new();
                    assert(sources@ =~= Seq::empty());
                    SpineConfigLock {
                        schema_version: 1,
                        bundled_digest: bundled_digest.to_owned(),
                        sources,
                        effective_config: None,
                    }
                },
            };
            if !same_text(snapshot.bundled_digest.as_str(), bundled_digest) {
                let mut message = message3(
                    "snapshot ",
                    path,
                    " references unavailable bundled Spine config ",
                );
                message.append(snapshot.bundled_digest.as_str());
                return Err(message);
            }
            if lock.version == 1 && lock.config.spine_config_file.is_some() {
                return Err(
                    message3(
                        "snapshot ",
                        path,
                        " does not contain the external Spine config required to reconstruct version 1",
                    ),
                );
            }
            let mut reader = LockReader {
                path: path.to_owned(),
                version: lock.version,
                codex_version: lock.codex_version,
                config: lock.config,
                snapshot,
                next: 0,
            };
            assert(reader.snapshot.sources@ =~= lock_sources(lock));
            match reader.advance(0) {
                Ok(step) => Ok((reader, step)),
                Err(error) => Err(error),
            }
        } else if lock.version == CONFIG_LOCK_VERSION {
            match check_snapshot(path, &lock.spine_config) {
                Err(error) => Err(error),
                Ok(step) => match lock.spine_config {
                    Some(snapshot) => Ok(
                        (
                            LockReader {
                                path: path.to_owned(),
                                version: lock.version,
                                codex_version: lock.codex_version,
                                config: lock.config,
                                snapshot,
                                next: 0,
                            },
                            step,
                        ),
                    ),
                    None => {
                        assert(false);
                        Err(String::new())
                    },
                },
            }
        } else {
            let mut message = String::from_str("unsupported Spine snapshot version ");
            message.append(decimal(lock.version as u64).as_str());
            message.append(" in ");
            message.append(path);
            Err(message)
        }
    }

    /// A source was read and looked through: its text must be the one that was
    /// recorded, and a configuration.
    pub fn source_judged(&mut self, contents: Result<SourceVerdict, String>) -> (r: Result<
        LockStep,
        String,
    >)
        requires
            old(self).awaits_source(),
        ensures
            final(self).path == old(self).path,
            final(self).version == old(self).version,
            final(self).codex_version == old(self).codex_version,
            final(self).config == old(self).config,
            final(self).snapshot == old(self).snapshot,
            source_outcome(
                *old(self),
                match contents {
                    Err(error) => Err(error@),
                    Ok(text) => Ok((text.digest@, text_view(text.invalid))),
                },
                *final(self),
                r,
            ),
    {
        let at = self.next;
        let text = match contents {
            Err(error) => {
                let mut message = message3(
                    "cannot reconstruct snapshot source ",
                    self.snapshot.sources[at].path.as_str(),
                    ": ",
                );
                message.append(error.as_str());
                return Err(message);
            },
            Ok(text) => text,
        };
        if let Some(digest) = &self.snapshot.sources[at].digest {
            if !same_text(text.digest.as_str(), digest.as_str()) {
                let mut message = message3(
                    "snapshot source ",
                    self.snapshot.sources[at].path.as_str(),
                    " no longer matches recorded digest ",
                );
                message.append(digest.as_str());
                return Err(message);
            }
        }
        if let Some(error) = text.invalid {
            let mut message = message3(
                "invalid snapshot source ",
                self.snapshot.sources[at].path.as_str(),
                ": ",
            );
            message.append(error.as_str());
            return Err(message);
        }
        assert(self.snapshot.sources.len() == self.snapshot.sources@.len());
        self.advance(at + 1)
    }

    /// A source was read: its text must be the one that was recorded, and a
    /// configuration.
    pub fn source_read(&mut self, contents: Result<SourceText, String>) -> (r: Result<
        LockStep,
        String,
    >)
        requires
            old(self).awaits_source(),
        ensures
            final(self).path == old(self).path,
            final(self).version == old(self).version,
            final(self).codex_version == old(self).codex_version,
            final(self).config == old(self).config,
            final(self).snapshot == old(self).snapshot,
            source_outcome(
                *old(self),
                match contents {
                    Err(error) => Err(error@),
                    Ok(text) => Ok((text.digest@, toml_error(text.text@))),
                },
                *final(self),
                r,
            ),
    {
        match contents {
            Err(error) => self.source_judged(Err(error)),
            Ok(text) => {
                let invalid = find_toml_error(text.text.as_str());
                self.source_judged(Ok(SourceVerdict { digest: text.digest, invalid }))
            },
        }
    }

    /// The layers were written out as one valid configuration, or that failed.
    /// From here on the lock is of the current version.
    pub fn layers_written(&mut self, effective: Result<String, String>) -> (r: Result<
        LockStep,
        String,
    >)
        ensures
            final(self).path == old(self).path,
            final(self).codex_version == old(self).codex_version,
            final(self).config == old(self).config,
            match effective {
                Err(error) => r == Err::<LockStep, String>(error) && *final(self) == *old(self),
                Ok(text) => {
                    &&& r matches Ok(step)
                    &&& step@ == StepModel::Check(text@)
                    &&& final(self).version == CONFIG_LOCK_VERSION
                    &&& final(self).next == old(self).next
                    &&& final(self).snapshot.effective_config == Some(text)
                    &&& final(self).snapshot.schema_version == old(self).snapshot.schema_version
                    &&& final(self).snapshot.bundled_digest == old(self).snapshot.bundled_digest
                    &&& final(self).snapshot.sources == old(self).snapshot.sources
                },
            },
    {
        match effective {
            Err(error) => Err(error),
            Ok(text) => {
                let checked = text.clone();
                self.snapshot.effective_config = Some(text);
                self.version = CONFIG_LOCK_VERSION;
                Ok(LockStep::Check(checked))
            },
        }
    }

    /// The configuration was checked: the lock that the session uses. Its
    /// snapshot stands in the session's configuration too.
    pub fn checked(self, valid: Result<(), String>) -> (r: Result<ConfigLockfile, String>)
        ensures
            match valid {
                Ok(()) => {
                    &&& r matches Ok(lock)
                    &&& lock.version == self.version
                    &&& lock.codex_version == self.codex_version
                    &&& lock.spine_config == Some(self.snapshot)
                    &&& snapshot_view(lock.config.spine_config_snapshot) == Some(self.snapshot@)
                    &&& same_but_snapshot(lock.config, self.config)
                },
                Err(error) => r == Err::<ConfigLockfile, String>(error),
            },
    {
        match valid {
            Ok(()) => {
                let mut config = self.config;
                config.spine_config_snapshot = Some(self.snapshot.copy());
                Ok(
                    ConfigLockfile {
                        version: self.version,
                        codex_version: self.codex_version,
                        spine_config: Some(self.snapshot),
                        config,
                    },
                )
            },
            Err(error) => Err(error),
        }
    }
}

/// A lock is taken as it is only where it is of the current version and holds
/// its whole configuration, which is then what is checked; nothing but a lock of
/// one of the two older versions is put together from its sources.
pub proof fn only_complete_locks_are_taken_as_they_are(
    path: Seq<char>,
    lock: ConfigLockfile,
    bundled: Seq<char>,
)
    requires
        first_step(path, lock, bundled) is Ok,
    ensures
        first_step(path, lock, bundled)->Ok_0 is Check ==> {
            &&& lock.version == CONFIG_LOCK_VERSION
            &&& lock.spine_config is Some
            &&& text_view(lock.spine_config->Some_0.effective_config) == Some(
                first_step(path, lock, bundled)->Ok_0->Check_0,
            )
        },
        !(first_step(path, lock, bundled)->Ok_0 is Check) ==> lock.version == 1 || lock.version
            == 2,
{
}

/// Which files a configuration is read from: those of the home directory, of the
/// working directory where its layers are loaded, and one that is named.
#[derive(Debug, PartialEq, Eq)]
pub struct SpineConfigLoader {
    pub working_directory: String,
    pub working_directory_layers: bool,
    pub home_directory: Option<String>,
    pub custom_path: Option<String>,
}

/// The files of a session. The layers of a working directory that is not trusted
/// are left out; a file that is named is read in any case.
pub fn loader(
    path: Option<&str>,
    working_directory: &str,
    home_directory: Option<&str>,
    project_config_trusted: bool,
) -> (r: SpineConfigLoader)
    ensures
        r.working_directory@ == working_directory@,
        r.working_directory_layers == project_config_trusted,
        text_view(r.home_directory) == named_text(home_directory),
        text_view(r.custom_path) == named_text(path),
{
    let home = match home_directory {
        Some(home) => Some(home.to_owned()),
        None => None,
    };
    let custom = match path {
        Some(path) => Some(path.to_owned()),
        None => None,
    };
    SpineConfigLoader {
        working_directory: working_directory.to_owned(),
        working_directory_layers: project_config_trusted,
        home_directory: home,
        custom_path: custom,
    }
}

/// A text that may be there.
pub open spec fn named_text(text: Option<&str>) -> Option<Seq<char>> {
    match text {
        Some(text) => Some(text@),
        None => None,
    }
}

/// Where a session's configuration comes from.
#[derive(Debug, PartialEq, Eq)]
#[allow(inconsistent_fields)]
pub enum ConfigurationState<S, T> {
    /// Files that are read when the session begins.
    Sources(SpineConfigLoader),
    Snapshot(SpineConfigLock),
    Resolved { sdk: S, tools: T, snapshot: SpineConfigLock },
}

/// The configuration of a session: selected when the session begins, and fixed
/// from then on.
#[derive(Debug, PartialEq, Eq)]
pub struct SpineConfiguration<S, T> {
    pub state: ConfigurationState<S, T>,
}

/// Where the snapshot that a session resolves comes from.
#[derive(Debug, PartialEq, Eq)]
#[allow(inconsistent_fields)]
pub enum ResolveFrom<'a> {
    /// The configuration saved with a sampling attempt.
    Saved(&'a str),
    /// Files that are read and locked now.
    Sources(&'a SpineConfigLoader),
    Snapshot(&'a SpineConfigLock),
}

impl<S, T> SpineConfiguration<S, T> {
    /// A configuration that is selected when the session begins: a snapshot
    /// goes before files.
    pub fn pending(
        path: Option<&str>,
        snapshot: Option<SpineConfigLock>,
        working_directory: &str,
        home_directory: Option<&str>,
        project_config_trusted: bool,
    ) -> (r: Self)
        ensures
            match snapshot {
                Some(snapshot) => r.state == ConfigurationState::<S, T>::Snapshot(snapshot),
                None => {
                    &&& r.state matches ConfigurationState::Sources(loader)
                    &&& loader.working_directory@ == working_directory@
                    &&& loader.working_directory_layers == project_config_trusted
                    &&& text_view(loader.home_directory) == named_text(home_directory)
                    &&& text_view(loader.custom_path) == named_text(path)
                },
            },
    {
        SpineConfiguration {
            state: match snapshot {
                Some(snapshot) => ConfigurationState::Snapshot(snapshot),
                None => ConfigurationState::Sources(
                    loader(path, working_directory, home_directory, project_config_trusted),
                ),
            },
        }
    }

    /// A configuration that an embedding host has already resolved.
    /// `effective_config` is the configuration written out.
    pub fn from_sdk(
        sdk: S,
        tools: T,
        schema_version: u32,
        bundled_digest: String,
        effective_config: String,
    ) -> (r: Self)
        ensures
            r.state matches ConfigurationState::Resolved { sdk: s, tools: t, snapshot } && s == sdk
                && t == tools && snapshot.schema_version == schema_version
                && snapshot.bundled_digest == bundled_digest && snapshot.sources@.len() == 0
                && snapshot.effective_config == Some(effective_config),
    {
        SpineConfiguration {
            state: ConfigurationState::Resolved {
                sdk,
                tools,
                snapshot: SpineConfigLock {
                    schema_version,
                    bundled_digest,
                    sources: Vec::new(),
                    effective_config: Some(effective_config),
                },
            },
        }
    }

    /// Whether the session has selected the configuration.
    pub open spec fn is_resolved(&self) -> bool {
        self.state is Resolved
    }

    /// The resolved configuration.
    pub fn sdk(&self) -> (r: &S)
        requires
            self.is_resolved(),
        ensures
            self.state matches ConfigurationState::Resolved { sdk, .. } && *r == sdk,
    {
        match &self.state {
            ConfigurationState::Resolved { sdk, .. } => sdk,
            _ => vstd::pervasive::unreached(),
        }
    }

    /// The tools of the resolved configuration.
    pub fn tools(&self) -> (r: &T)
        requires
            self.is_resolved(),
        ensures
            self.state matches ConfigurationState::Resolved { tools, .. } && *r == tools,
    {
        match &self.state {
            ConfigurationState::Resolved { tools, .. } => tools,
            _ => vstd::pervasive::unreached(),
        }
    }

    /// The snapshot of the resolved configuration.
    pub fn snapshot(&self) -> (r: &SpineConfigLock)
        requires
            self.is_resolved(),
        ensures
            self.state matches ConfigurationState::Resolved { snapshot, .. } && *r == snapshot,
    {
        match &self.state {
            ConfigurationState::Resolved { snapshot, .. } => snapshot,
            _ => vstd::pervasive::unreached(),
        }
    }

    /// Where the snapshot comes from that the session resolves: what was saved
    /// with a sampling attempt goes before everything else.
    pub fn resolve_from<'a>(&'a self, saved: Option<&'a str>) -> (r: ResolveFrom<'a>)
        ensures
            match saved {
                Some(text) => r matches ResolveFrom::Saved(t) && t@ == text@,
                None => match self.state {
                    ConfigurationState::Sources(loader) => r matches ResolveFrom::Sources(l) && *l
                        == loader,
                    ConfigurationState::Snapshot(snapshot) => r matches ResolveFrom::Snapshot(s)
                        && *s == snapshot,
                    ConfigurationState::Resolved { snapshot, .. } => r matches ResolveFrom::Snapshot(
                        s,
                    ) && *s == snapshot,
                },
            },
    {
        match saved {
            Some(text) => ResolveFrom::Saved(text),
            None => match &self.state {
                ConfigurationState::Sources(loader) => ResolveFrom::Sources(loader),
                ConfigurationState::Snapshot(snapshot) => ResolveFrom::Snapshot(snapshot),
                ConfigurationState::Resolved { snapshot, .. } => ResolveFrom::Snapshot(snapshot),
            },
        }
    }

    /// The session's configuration, once the one that `snapshot` holds was read
    /// with the host's features, and the tools were made from it.
    pub fn resolved(snapshot: SpineConfigLock, sdk: S, tools: T) -> (r: Self)
        ensures
            r.is_resolved(),
            r.state == (ConfigurationState::<S, T>::Resolved { sdk, tools, snapshot }),
    {
        SpineConfiguration { state: ConfigurationState::Resolved { sdk, tools, snapshot } }
    }
}

/// The configuration that a snapshot holds.
pub fn effective_config(snapshot: &SpineConfigLock) -> (r: Result<String, String>)
    ensures
        match text_view(snapshot.effective_config) {
            Some(text) => r matches Ok(t) && t@ == text,
            None => r matches Err(message) && message@
                == "Spine snapshot is missing effective config"@,
        },
{
    match &snapshot.effective_config {
        Some(text) => Ok(text.clone()),
        None => Err("Spine snapshot is missing effective config".to_owned()),
    }
}

/// A feature of the task tree.
#[derive(Clone, Copy, Debug, PartialEq, Eq, Structural)]
pub enum SpineFeature {
    Jit,
    Spawn,
}

/// The features that the host enables, in order.
pub fn enabled_features(jit: bool, spawn: bool) -> (r: Vec<SpineFeature>)
    ensures
        r@ == (if jit {
            seq![SpineFeature::Jit]
        } else {
            Seq::empty()
        }) + (if spawn {
            seq![SpineFeature::Spawn]
        } else {
            Seq::empty()
        }),
{
    let mut features: Vec<SpineFeature> = Vec::new();
    if jit {
        features.push(SpineFeature::Jit);
    }
    if spawn {
        features.push(SpineFeature::Spawn);
    }
    features
}

/// A file that is locked: its digest, nothing where it is not there, or why it
/// could not be read.
pub struct SourceFile {
    pub path: String,
    pub digest: Result<Option<String>, String>,
}

/// Why a source cannot be locked.
pub open spec fn pin_error(path: Seq<char>, error: Seq<char>) -> Seq<char> {
    "failed to pin Spine config source "@ + path + " in config lock: "@ + error
}

/// The locks of optional sources, or why one cannot be locked.
pub open spec fn pinned(files: Seq<SourceFile>) -> Result<
    Seq<(Seq<char>, bool, Option<Seq<char>>)>,
    Seq<char>,
>
    decreases files.len(),
{
    if files.len() == 0 {
        Ok(Seq::empty())
    } else {
        match pinned(files.drop_last()) {
            Err(error) => Err(error),
            Ok(before) => match files.last().digest {
                Ok(digest) => Ok(before.push((files.last().path@, false, text_view(digest)))),
                Err(error) => Err(pin_error(files.last().path@, error@)),
            },
        }
    }
}

pub open spec fn source_views(sources: Seq<SpineConfigSourceLock>) -> Seq<
    (Seq<char>, bool, Option<Seq<char>>),
> {
    sources.map_values(|s: SpineConfigSourceLock| (s.path@, s.required, text_view(s.digest)))
}

proof fn lemma_pin_error(files: Seq<SourceFile>, n: int)
    requires
        0 <= n <= files.len(),
        pinned(files.take(n)) is Err,
    ensures
        pinned(files) == pinned(files.take(n)),
    decreases files.len() - n,
{
    if n == files.len() {
        assert(files.take(n) =~= files);
    } else {
        assert(files.take(n + 1).drop_last() =~= files.take(n));
        lemma_pin_error(files, n + 1);
    }
}

/// The locks of all sources: the optional ones first, then the required one.
pub open spec fn all_pinned(optional: Seq<SourceFile>, required: Option<&SourceFile>) -> Result<
    Seq<(Seq<char>, bool, Option<Seq<char>>)>,
    Seq<char>,
> {
    match pinned(optional) {
        Err(error) => Err(error),
        Ok(before) => match required {
            None => Ok(before),
            Some(file) => match file.digest {
                Err(error) => Err(pin_error(file.path@, error@)),
                Ok(digest) => Ok(before.push((file.path@, true, text_view(digest)))),
            },
        },
    }
}

/// The locks of a configuration's sources: the optional ones first, which may be
/// missing, then the required one, which may not.
pub fn pin_sources(optional: &Vec<SourceFile>, required: Option<&SourceFile>) -> (r: Result<
    Vec<SpineConfigSourceLock>,
    String,
>)
    requires
        required matches Some(file) ==> !(file.digest matches Ok(None)),
    ensures
        match all_pinned(optional@, required) {
            Err(error) => r matches Err(message) && message@ == error,
            Ok(locks) => r matches Ok(sources) && source_views(sources@) == locks,
        },
{
    let mut sources: Vec<SpineConfigSourceLock> = Vec::new();
    let mut i: usize = 0;
    assert(optional@.take(0) =~= Seq::empty());
    assert(source_views(sources@) =~= Seq::empty());
    while i < optional.len()
        invariant
            i <= optional@.len(),
            pinned(optional@.take(i as int)) == Ok::<
                Seq<(Seq<char>, bool, Option<Seq<char>>)>,
                Seq<char>,
            >(source_views(sources@)),
        decreases optional@.len() - i,
    {
        proof {
            let upto = optional@.take(i + 1);
            assert(upto.drop_last() =~= optional@.take(i as int));
            assert(upto.last() == optional@[i as int]);
        }
        match &optional[i].digest {
            Err(error) => {
                proof {
                    lemma_pin_error(optional@, i + 1);
                }
                let mut message = message3(
                    "failed to pin Spine config source ",
                    optional[i].path.as_str(),
                    " in config lock: ",
                );
                message.append(error.as_str());
                return Err(message);
            },
            Ok(digest) => {
                let ghost before = source_views(sources@);
                let lock = SpineConfigSourceLock {
                    path: optional[i].path.clone(),
                    required: false,
                    digest: crate::spawn::copy_text(digest),
                };
                sources.push(lock);
                assert(source_views(sources@) =~= before.push(
                    (optional@[i as int].path@, false, text_view(*digest)),
                ));
            },
        }
        i = i + 1;
    }
    assert(optional@.take(i as int) =~= optional@);
    if let Some(file) = required {
        match &file.digest {
            Err(error) => {
                let mut message = message3(
                    "failed to pin Spine config source ",
                    file.path.as_str(),
                    " in config lock: ",
                );
                message.append(error.as_str());
                return Err(message);
            },
            Ok(digest) => {
                let ghost before = source_views(sources@);
                let lock = SpineConfigSourceLock {
                    path: file.path.clone(),
                    required: true,
                    digest: crate::spawn::copy_text(digest),
                };
                sources.push(lock);
                assert(source_views(sources@) =~= before.push(
                    (file.path@, true, text_view(*digest)),
                ));
            },
        }
    }
    Ok(sources)
}

/// Locks the configuration that was loaded from files: the schema and the digest
/// of what is bundled, the locks of the sources, and the whole configuration
/// written out.
pub fn lock_snapshot(
    schema_version: u32,
    bundled_digest: String,
    optional: &Vec<SourceFile>,
    required: Option<&SourceFile>,
    loaded: Result<String, String>,
) -> (r: Result<SpineConfigLock, String>)
    requires
        required matches Some(file) ==> !(file.digest matches Ok(None)),
    ensures
        match all_pinned(optional@, required) {
            Err(error) => r matches Err(message) && message@ == error,
            Ok(sources) => match loaded {
                Err(error) => r == Err::<SpineConfigLock, String>(error),
                Ok(text) => {
                    &&& r matches Ok(lock)
                    &&& lock.schema_version == schema_version
                    &&& lock.bundled_digest == bundled_digest
                    &&& source_views(lock.sources@) == sources
                    &&& lock.effective_config == Some(text)
                },
            },
        },
{
    let sources = match pin_sources(optional, required) {
        Err(error) => return Err(error),
        Ok(sources) => sources,
    };
    match loaded {
        Err(error) => Err(error),
        Ok(text) => Ok(
            SpineConfigLock { schema_version, bundled_digest, sources, effective_config: Some(text) },
        ),
    }
}

/// A configuration that agrees with another on all but the locked configuration
/// of the task tree is that other one, but for this.
pub proof fn all_else_is_kept(a: LockConfig, b: LockConfig)
    ensures
        same_but_snapshot(a, b) <==> a == (LockConfig {
            spine_config_snapshot: a.spine_config_snapshot,
            ..b
        }),
{
}

/// The sources that were part of a snapshot are found in order: only optional
/// ones without a digest are passed over, and a required one without a digest is
/// named in the error.
pub proof fn only_absent_optional_sources_are_passed_over(
    sources: Seq<SpineConfigSourceLock>,
    from: int,
)
    requires
        0 <= from <= sources.len(),
    ensures
        match next_source(sources, from) {
            Ok(at) => {
                &&& from <= at <= sources.len()
                &&& at < sources.len() ==> sources[at].digest is Some
                &&& forall|i: int|
                    from <= i < at ==> (#[trigger] sources[i]).digest is None
                        && !sources[i].required
            },
            Err(message) => exists|at: int|
                from <= at < sources.len() && (#[trigger] sources[at]).required
                    && sources[at].digest is None && message == "snapshot source "@
                    + sources[at].path@ + " has no recorded digest"@ && forall|i: int|
                    from <= i < at ==> (#[trigger] sources[i]).digest is None
                        && !sources[i].required,
        },
    decreases sources.len() - from,
{
    if from < sources.len() {
        if sources[from].digest is None && !sources[from].required {
            only_absent_optional_sources_are_passed_over(sources, from + 1);
        } else if sources[from].digest is None {
            let at = from;
            assert(sources[at].required);
        }
    }
}

/// The step at a source reads that source; after the last one the layers are
/// written out.
pub proof fn each_source_is_read(sources: Seq<SpineConfigSourceLock>, at: int)
    ensures
        0 <= at < sources.len() ==> step_at(sources, at) == StepModel::ReadSource(
            sources[at].path@,
        ),
        at >= sources.len() ==> step_at(sources, at) == StepModel::WriteLayers,
{
}

/// A lock of the current version is checked by the configuration that it holds,
/// and refused where it holds none; a lock of any later version is refused, and
/// so is one without a version.
pub proof fn the_current_version_holds_its_configuration(
    path: Seq<char>,
    lock: ConfigLockfile,
    bundled: Seq<char>,
)
    ensures
        lock.version == 3 ==> match lock.spine_config {
            None => first_step(path, lock, bundled) == Err::<StepModel, Seq<char>>(
                "snapshot "@ + path + " has no Spine config"@,
            ),
            Some(snapshot) => match snapshot.effective_config {
                None => first_step(path, lock, bundled) == Err::<StepModel, Seq<char>>(
                    "snapshot "@ + path + " has no effective Spine config"@,
                ),
                Some(text) => first_step(path, lock, bundled) == Ok::<StepModel, Seq<char>>(
                    StepModel::Check(text@),
                ),
            },
        },
        lock.version == 0 || lock.version > 3 ==> first_step(path, lock, bundled) == Err::<
            StepModel,
            Seq<char>,
        >(
            "unsupported Spine snapshot version "@ + decimal_text(lock.version as nat) + " in "@
                + path,
        ),
{
}

/// A lock of an older version is put together again exactly where it has the
/// snapshot that its version calls for, was made with the configuration that is
/// bundled now, and, in the oldest version, named no external file.
pub proof fn which_older_locks_are_put_together(
    path: Seq<char>,
    lock: ConfigLockfile,
    bundled: Seq<char>,
)
    requires
        lock.version == 1 || lock.version == 2,
    ensures
        lock.version == 1 ==> {
            &&& lock.spine_config is Some ==> first_step(path, lock, bundled) == Err::<
                StepModel,
                Seq<char>,
            >(
                "snapshot "@ + path + " has invalid version "@ + decimal_text(1)
                    + " source metadata"@,
            )
            &&& lock.spine_config is None && lock.config.spine_config_file is Some ==> first_step(
                path,
                lock,
                bundled,
            ) == Err::<StepModel, Seq<char>>(
                "snapshot "@ + path
                    + " does not contain the external Spine config required to reconstruct version 1"@,
            )
            &&& lock.spine_config is None && lock.config.spine_config_file is None ==> first_step(
                path,
                lock,
                bundled,
            ) == Ok::<StepModel, Seq<char>>(StepModel::WriteLayers)
        },
        lock.version == 2 ==> {
            &&& lock.spine_config is None ==> first_step(path, lock, bundled) == Err::<
                StepModel,
                Seq<char>,
            >(
                "snapshot "@ + path + " has invalid version "@ + decimal_text(2)
                    + " source metadata"@,
            )
            &&& lock.spine_config matches Some(snapshot) ==> if snapshot.bundled_digest@
                != bundled {
                first_step(path, lock, bundled) == Err::<StepModel, Seq<char>>(
                    "snapshot "@ + path + " references unavailable bundled Spine config "@
                        + snapshot.bundled_digest@,
                )
            } else {
                match next_source(snapshot.sources@, 0) {
                    Err(error) => first_step(path, lock, bundled) == Err::<StepModel, Seq<char>>(
                        error,
                    ),
                    Ok(at) => first_step(path, lock, bundled) == Ok::<StepModel, Seq<char>>(
                        step_at(snapshot.sources@, at),
                    ),
                }
            }
        },
{
}

/// A source is taken over exactly where it could be read, has the digest that
/// was recorded and is a configuration, and then nothing between it and the next
/// step is left out; each other outcome says what is wrong, and of which source.
pub proof fn only_the_recorded_source_is_taken_over(
    before: LockReader,
    contents: Result<(Seq<char>, Option<Seq<char>>), Seq<char>>,
    after: LockReader,
    r: Result<LockStep, String>,
)
    requires
        before.awaits_source(),
        source_outcome(before, contents, after, r),
    ensures
        ({
            let source = before.snapshot.sources@[before.next as int];
            let recorded = source.digest->Some_0@;
            &&& r is Ok ==> (contents matches Ok((found, invalid)) && found == recorded
                && invalid is None)
            &&& r matches Ok(step) ==> {
                &&& before.next < after.next <= before.snapshot.sources@.len()
                &&& forall|i: int|
                    before.next < i < after.next ==> (
                    #[trigger] before.snapshot.sources@[i]).digest is None
                &&& after.next < before.snapshot.sources@.len() ==> step@ == StepModel::ReadSource(
                    before.snapshot.sources@[after.next as int].path@,
                )
                &&& after.next == before.snapshot.sources@.len() ==> step@ is WriteLayers
            }
            &&& contents matches Err(error) ==> (r matches Err(message) && message@
                == "cannot reconstruct snapshot source "@ + source.path@ + ": "@ + error)
            &&& contents matches Ok((found, invalid)) ==> {
                &&& found != recorded ==> (r matches Err(message) && message@ == "snapshot source "@
                    + source.path@ + " no longer matches recorded digest "@ + recorded)
                &&& found == recorded ==> (invalid matches Some(error) ==> (r matches Err(message)
                    && message@ == "invalid snapshot source "@ + source.path@ + ": "@ + error))
            }
        }),
{
    only_absent_optional_sources_are_passed_over(before.snapshot.sources@, before.next + 1);
}

/// Sources are locked all together or not at all: each optional one under its
/// path and with its digest, where it is there, in the order given; the first
/// that cannot be read is named in the error.
pub proof fn optional_sources_are_locked_in_order(files: Seq<SourceFile>)
    ensures
        pinned(files) is Ok <==> forall|i: int|
            0 <= i < files.len() ==> (#[trigger] files[i]).digest is Ok,
        pinned(files) matches Ok(locks) ==> {
            &&& locks.len() == files.len()
            &&& forall|i: int|
                0 <= i < files.len() ==> (#[trigger] locks[i]).0 == files[i].path@ && !locks[i].1
                    && locks[i].2 == text_view(files[i].digest->Ok_0)
        },
        pinned(files) matches Err(message) ==> exists|i: int|
            0 <= i < files.len() && (#[trigger] files[i]).digest is Err && message
                == "failed to pin Spine config source "@ + files[i].path@ + " in config lock: "@
                + files[i].digest->Err_0@ && forall|j: int|
                0 <= j < i ==> (#[trigger] files[j]).digest is Ok,
    decreases files.len(),
{
    if files.len() > 0 {
        let rest = files.drop_last();
        optional_sources_are_locked_in_order(rest);
        assert forall|i: int| 0 <= i < rest.len() implies rest[i] == files[i] by {}
        if pinned(rest) is Ok {
            assert forall|i: int| 0 <= i < rest.len() implies (#[trigger] files[i]).digest
                is Ok by {
                assert(rest[i].digest is Ok);
            }
            if files.last().digest is Err {
                let i = files.len() - 1;
                assert(files[i].digest is Err);
            }
        } else {
            let message = pinned(rest)->Err_0;
            let i = choose|i: int|
                0 <= i < rest.len() && (#[trigger] rest[i]).digest is Err && message
                    == "failed to pin Spine config source "@ + rest[i].path@
                    + " in config lock: "@ + rest[i].digest->Err_0@ && forall|j: int|
                    0 <= j < i ==> (#[trigger] rest[j]).digest is Ok;
            assert(files[i].digest is Err);
            assert forall|j: int| 0 <= j < i implies (#[trigger] files[j]).digest is Ok by {
                assert(rest[j].digest is Ok);
            }
        }
    }
}

/// The required source is locked after the optional ones, as the only one that
/// has to be there.
pub proof fn the_required_source_is_locked_last(optional: Seq<SourceFile>, file: &SourceFile)
    requires
        pinned(optional) is Ok,
    ensures
        all_pinned(optional, None) == pinned(optional),
        match file.digest {
            Err(error) => all_pinned(optional, Some(file)) == Err::<
                Seq<(Seq<char>, bool, Option<Seq<char>>)>,
                Seq<char>,
            >("failed to pin Spine config source "@ + file.path@ + " in config lock: "@ + error@),
            Ok(digest) => {
                &&& all_pinned(optional, Some(file)) matches Ok(locks)
                &&& locks.len() == optional.len() + 1
                &&& locks.drop_last() == pinned(optional)->Ok_0
                &&& locks.last().0 == file.path@ && locks.last().1
                &&& locks.last().2 == text_view(digest)
            },
        },
{
    optional_sources_are_locked_in_order(optional);
}

/// What stops the locking of the optional sources stops it altogether.
pub proof fn nothing_is_locked_after_a_failure(
    optional: Seq<SourceFile>,
    required: Option<&SourceFile>,
)
    ensures
        pinned(optional) is Err ==> all_pinned(optional, required) == pinned(optional),
{
}

} // verus!
