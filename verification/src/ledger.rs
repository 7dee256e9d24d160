//! The integrity ledger: which files are tracked, and under which digest.
//!
//! A project goes from uninitialised to initialised when [`init`] writes
//! its first baseline. [`check_integrity`] then finds the tracked files
//! verified or tampered with, and [`certify_modifications`] accepts their
//! present content as the new baseline. The ledger and the files are handed
//! in as values; reading and writing them is the caller's part.
//!
//! Initialising a project that has a ledger already is refused: a baseline is
//! replaced by certifying, never by starting over. Certifying drops the
//! tracked paths whose files are gone.

use vstd::prelude::*;
use vstd::string::StringSliceAdditionalSpecFns;
use crate::time::Timestamp;
use crate::digest::{calculate_hash, digest_of};
use crate::pathmap::{
    first_index, has_key, lookup, lookup_put, put, put_elements, put_keeps_unique, unique_keys,
    PathMap,
};

verus! {

/// The version written into new ledgers.
pub const VERSION: &'static str = "0.1.0";

/// The scenario a new project starts with.
pub const DEFAULT_SCENARIO: &'static str =
    "SCENARIO \"Access audit\"\nTARGET \"http://localhost:8080\"\nWITH_SCOPE KERNEL\n\nSTEP \"Secure transport verification\"\n    ATTACK secure_headers\n    CHECK header \"Strict-Transport-Security\" EXISTS\n    CHECK response.status BE 200";

/// The text of the scenario that `init` writes into a new project.
pub fn generate_default_scenario() -> (text: String)
    ensures
        text@ == DEFAULT_SCENARIO@,
{
    DEFAULT_SCENARIO.to_owned()
}

/// The kinds of project that `init` tells apart.
#[derive(Clone, Copy, Debug, PartialEq, Eq, Structural)]
pub enum ProjectType {
    /// A `package.json` stands in the project's root.
    NodeJs,
    /// Anything else.
    Generic,
}

impl ProjectType {
    /// The tag recorded in the ledger.
    pub open spec fn tag(self) -> Seq<char> {
        match self {
            ProjectType::NodeJs => "Node.js"@,
            ProjectType::Generic => "Generic"@,
        }
    }

    /// Where the first scenario of such a project goes.
    pub open spec fn scenario_path(self) -> Seq<char> {
        match self {
            ProjectType::NodeJs => "tests/ratel/security.ratel"@,
            ProjectType::Generic => "security.ratel"@,
        }
    }

    /// The kind of a project, given whether its root holds a `package.json`.
    pub open spec fn detected(has_package_manifest: bool) -> ProjectType {
        if has_package_manifest {
            ProjectType::NodeJs
        } else {
            ProjectType::Generic
        }
    }

    /// Decides the kind of a project from the probe of its root.
    pub fn detect(has_package_manifest: bool) -> (kind: ProjectType)
        ensures
            kind == ProjectType::detected(has_package_manifest),
    {
        if has_package_manifest {
            ProjectType::NodeJs
        } else {
            ProjectType::Generic
        }
    }

    /// The tag recorded in the ledger.
    pub fn label(self) -> (text: String)
        ensures
            text@ == self.tag(),
    {
        match self {
            ProjectType::NodeJs => "Node.js".to_owned(),
            ProjectType::Generic => "Generic".to_owned(),
        }
    }

    /// Where the first scenario of such a project goes.
    pub fn default_path(self) -> (path: String)
        ensures
            path@ == self.scenario_path(),
    {
        match self {
            ProjectType::NodeJs => "tests/ratel/security.ratel".to_owned(),
            ProjectType::Generic => "security.ratel".to_owned(),
        }
    }
}

/// The ledger as it is persisted.
#[derive(Debug, PartialEq, Eq)]
pub struct RatelConfig {
    pub version: String,
    pub project_type: String,
    pub context: String,
    pub initialized_at: Timestamp,
    pub customized_at: Option<Timestamp>,
    /// The tracked files: path and expected digest.
    pub expert_hashes: PathMap<String>,
}

/// What a [`RatelConfig`] stands for.
pub struct RatelConfigView {
    pub version: Seq<char>,
    pub project_type: Seq<char>,
    pub context: Seq<char>,
    pub initialized_at: Timestamp,
    pub customized_at: Option<Timestamp>,
    pub expert_hashes: Seq<(Seq<char>, Seq<char>)>,
}

impl View for RatelConfig {
    type V = RatelConfigView;

    open spec fn view(&self) -> RatelConfigView {
        RatelConfigView {
            version: self.version@,
            project_type: self.project_type@,
            context: self.context@,
            initialized_at: self.initialized_at,
            customized_at: self.customized_at,
            expert_hashes: self.expert_hashes@,
        }
    }
}

/// What was found where the ledger is kept.
#[derive(Debug, PartialEq, Eq)]
pub enum LedgerState {
    /// No ledger: the project has not been initialised.
    Uninitialized,
    /// Something is there and cannot be read as a ledger.
    Corrupt,
    /// The ledger.
    Initialized(RatelConfig),
}

/// What a [`LedgerState`] stands for.
pub enum LedgerStateView {
    Uninitialized,
    Corrupt,
    Initialized(RatelConfigView),
}

impl View for LedgerState {
    type V = LedgerStateView;

    open spec fn view(&self) -> LedgerStateView {
        match *self {
            LedgerState::Uninitialized => LedgerStateView::Uninitialized,
            LedgerState::Corrupt => LedgerStateView::Corrupt,
            LedgerState::Initialized(config) => LedgerStateView::Initialized(config@),
        }
    }
}

/// Why a ledger operation was refused.
#[derive(Debug, PartialEq, Eq)]
pub enum LedgerError {
    /// `init` found a ledger in place.
    AlreadyInitialized,
    /// There is no ledger.
    ConfigMissing,
    /// The ledger cannot be read.
    ConfigCorrupt,
    /// The file at this path cannot be read.
    FileMissing(String),
    /// The file at this path does not have the recorded digest.
    IntegrityViolation(String),
}

/// What a [`LedgerError`] stands for.
pub enum LedgerErrorView {
    AlreadyInitialized,
    ConfigMissing,
    ConfigCorrupt,
    FileMissing(Seq<char>),
    IntegrityViolation(Seq<char>),
}

impl View for LedgerError {
    type V = LedgerErrorView;

    open spec fn view(&self) -> LedgerErrorView {
        match *self {
            LedgerError::AlreadyInitialized => LedgerErrorView::AlreadyInitialized,
            LedgerError::ConfigMissing => LedgerErrorView::ConfigMissing,
            LedgerError::ConfigCorrupt => LedgerErrorView::ConfigCorrupt,
            LedgerError::FileMissing(path) => LedgerErrorView::FileMissing(path@),
            LedgerError::IntegrityViolation(path) => LedgerErrorView::IntegrityViolation(path@),
        }
    }
}

/// What `init` decides: the scenario file to write and the ledger to persist.
#[derive(Debug, PartialEq, Eq)]
pub struct InitPlan {
    pub path: String,
    pub content: String,
    pub config: RatelConfig,
}

/// What an [`InitPlan`] stands for.
pub struct InitPlanView {
    pub path: Seq<char>,
    pub content: Seq<char>,
    pub config: RatelConfigView,
}

impl View for InitPlan {
    type V = InitPlanView;

    open spec fn view(&self) -> InitPlanView {
        InitPlanView { path: self.path@, content: self.content@, config: self.config@ }
    }
}

/// Whether the file of a tracked entry is there with the recorded digest.
pub open spec fn entry_matches(entry: (Seq<char>, Seq<char>), files: Seq<(Seq<char>, Seq<u8>)>) -> bool {
    match lookup(files, entry.0) {
        Some(content) => digest_of(content) == entry.1,
        None => false,
    }
}

/// Verifies the tracked entries in order. The first entry whose file is
/// missing or has another digest decides the error; there is none if all
/// match.
pub open spec fn verify_entries(
    baseline: Seq<(Seq<char>, Seq<char>)>,
    files: Seq<(Seq<char>, Seq<u8>)>,
) -> Result<(), LedgerErrorView>
    decreases baseline.len(),
{
    if baseline.len() == 0 {
        Ok(())
    } else {
        match lookup(files, baseline[0].0) {
            None => Err(LedgerErrorView::FileMissing(baseline[0].0)),
            Some(content) => if digest_of(content) != baseline[0].1 {
                Err(LedgerErrorView::IntegrityViolation(baseline[0].0))
            } else {
                verify_entries(baseline.drop_first(), files)
            },
        }
    }
}

/// The tracked entries after certifying: each path whose file is there, under
/// the digest of the file's present content.
pub open spec fn rebaseline(
    baseline: Seq<(Seq<char>, Seq<char>)>,
    files: Seq<(Seq<char>, Seq<u8>)>,
) -> Seq<(Seq<char>, Seq<char>)>
    decreases baseline.len(),
{
    if baseline.len() == 0 {
        Seq::empty()
    } else {
        let earlier = rebaseline(baseline.drop_last(), files);
        match lookup(files, baseline.last().0) {
            Some(content) => put(earlier, baseline.last().0, digest_of(content)),
            None => earlier,
        }
    }
}

/// What `check` answers.
pub open spec fn check_spec(state: LedgerStateView, files: Seq<(Seq<char>, Seq<u8>)>) -> Result<
    (),
    LedgerErrorView,
> {
    match state {
        LedgerStateView::Uninitialized => Err(LedgerErrorView::ConfigMissing),
        LedgerStateView::Corrupt => Err(LedgerErrorView::ConfigCorrupt),
        LedgerStateView::Initialized(config) => verify_entries(config.expert_hashes, files),
    }
}

/// What `certify` answers at the time `at`.
pub open spec fn certify_spec(
    state: LedgerStateView,
    files: Seq<(Seq<char>, Seq<u8>)>,
    at: Timestamp,
) -> Result<RatelConfigView, LedgerErrorView> {
    match state {
        LedgerStateView::Uninitialized => Err(LedgerErrorView::ConfigMissing),
        LedgerStateView::Corrupt => Err(LedgerErrorView::ConfigCorrupt),
        LedgerStateView::Initialized(config) => Ok(
            RatelConfigView {
                version: config.version,
                project_type: config.project_type,
                context: config.context,
                initialized_at: config.initialized_at,
                customized_at: Some(at),
                expert_hashes: rebaseline(config.expert_hashes, files),
            },
        ),
    }
}

/// The ledger of a project of kind `project` that is initialised at the time
/// `at`: it tracks the default scenario and nothing else.
pub open spec fn first_baseline(context: Seq<char>, project: ProjectType, at: Timestamp) -> RatelConfigView {
    RatelConfigView {
        version: VERSION@,
        project_type: project.tag(),
        context,
        initialized_at: at,
        customized_at: None,
        expert_hashes: seq![
            (project.scenario_path(), digest_of(DEFAULT_SCENARIO.spec_bytes())),
        ],
    }
}

/// What `init` answers at the time `at`.
pub open spec fn init_spec(
    state: LedgerStateView,
    context: Seq<char>,
    has_package_manifest: bool,
    at: Timestamp,
) -> Result<InitPlanView, LedgerErrorView> {
    let project = ProjectType::detected(has_package_manifest);
    match state {
        LedgerStateView::Uninitialized => Ok(
            InitPlanView {
                path: project.scenario_path(),
                content: DEFAULT_SCENARIO@,
                config: first_baseline(context, project, at),
            },
        ),
        _ => Err(LedgerErrorView::AlreadyInitialized),
    }
}

/// The view of what `check` gave.
pub open spec fn check_outcome(r: Result<(), LedgerError>) -> Result<(), LedgerErrorView> {
    match r {
        Ok(()) => Ok(()),
        Err(e) => Err(e@),
    }
}

/// The view of what `certify` gave.
pub open spec fn certify_outcome(r: Result<RatelConfig, LedgerError>) -> Result<
    RatelConfigView,
    LedgerErrorView,
> {
    match r {
        Ok(config) => Ok(config@),
        Err(e) => Err(e@),
    }
}

/// The view of what `init` gave.
pub open spec fn init_outcome(r: Result<InitPlan, LedgerError>) -> Result<
    InitPlanView,
    LedgerErrorView,
> {
    match r {
        Ok(plan) => Ok(plan@),
        Err(e) => Err(e@),
    }
}

fn verify_files(baseline: &PathMap<String>, files: &PathMap<Vec<u8>>) -> (r: Result<(), LedgerError>)
    ensures
        check_outcome(r) == verify_entries(baseline@, files@),
{
    let n = baseline.len();
    let mut i: usize = 0;
    assert(baseline@.skip(0) =~= baseline@);
    while i < n
        invariant
            n == baseline@.len(),
            i <= n,
            verify_entries(baseline@, files@) == verify_entries(baseline@.skip(i as int), files@),
        decreases n - i,
    {
        let ghost rest = baseline@.skip(i as int);
        assert(rest[0] == baseline@[i as int]);
        assert(rest.drop_first() =~= baseline@.skip(i + 1));
        let path = baseline.path_at(i).unwrap();
        let expected = baseline.value_at(i).unwrap();
        match files.get(path) {
            None => {
                return Err(LedgerError::FileMissing(path.clone()));
            },
            Some(content) => {
                let digest = calculate_hash(content.as_slice());
                if !(digest == *expected) {
                    return Err(LedgerError::IntegrityViolation(path.clone()));
                }
            },
        }
        i += 1;
    }
    Ok(())
}

/// Verifies every tracked file against the ledger. The answer is `Ok` only
/// if there is a ledger and every tracked file is there with its recorded
/// digest; otherwise it is the error of the first entry that fails.
pub fn check_integrity(state: &LedgerState, files: &PathMap<Vec<u8>>) -> (r: Result<
    (),
    LedgerError,
>)
    ensures
        check_outcome(r) == check_spec(state@, files@),
{
    match state {
        LedgerState::Uninitialized => Err(LedgerError::ConfigMissing),
        LedgerState::Corrupt => Err(LedgerError::ConfigCorrupt),
        LedgerState::Initialized(config) => verify_files(&config.expert_hashes, files),
    }
}

/// Accepts the present content of the tracked files as the new baseline,
/// dated `at`. Paths whose files are gone are no longer tracked.
pub fn certify_modifications(
    state: &LedgerState,
    files: &PathMap<Vec<u8>>,
    at: Timestamp,
) -> (r: Result<RatelConfig, LedgerError>)
    ensures
        certify_outcome(r) == certify_spec(state@, files@, at),
{
    match state {
        LedgerState::Uninitialized => Err(LedgerError::ConfigMissing),
        LedgerState::Corrupt => Err(LedgerError::ConfigCorrupt),
        LedgerState::Initialized(config) => {
            let baseline = &config.expert_hashes;
            let n = baseline.len();
            let mut fresh: PathMap<String> = PathMap::new();
            let mut i: usize = 0;
            assert(baseline@.take(0) =~= Seq::<(Seq<char>, Seq<char>)>::empty());
            while i < n
                invariant
                    n == baseline@.len(),
                    i <= n,
                    fresh@ == rebaseline(baseline@.take(i as int), files@),
                decreases n - i,
            {
                proof {
                    let upto = baseline@.take(i + 1);
                    assert(upto.last() == baseline@[i as int]);
                    assert(upto.drop_last() =~= baseline@.take(i as int));
                }
                let path = baseline.path_at(i).unwrap();
                match files.get(path) {
                    Some(content) => {
                        fresh.insert(path.clone(), calculate_hash(content.as_slice()));
                    },
                    None => {},
                }
                i += 1;
            }
            assert(baseline@.take(n as int) =~= baseline@);
            Ok(
                RatelConfig {
                    version: config.version.clone(),
                    project_type: config.project_type.clone(),
                    context: config.context.clone(),
                    initialized_at: config.initialized_at,
                    customized_at: Some(at),
                    expert_hashes: fresh,
                },
            )
        },
    }
}

/// Plans the initialisation of a project at the time `at`: which scenario
/// file to write, and the ledger that tracks it. A project with a package
/// manifest gets its scenario under `tests/ratel/`, any other in its root.
/// Refused with `AlreadyInitialized` unless there is no ledger yet.
pub fn init(state: &LedgerState, context: &str, has_package_manifest: bool, at: Timestamp) -> (r:
    Result<InitPlan, LedgerError>)
    ensures
        init_outcome(r) == init_spec(state@, context@, has_package_manifest, at),
{
    match state {
        LedgerState::Uninitialized => {
            let project = ProjectType::detect(has_package_manifest);
            let path = project.default_path();
            let content = generate_default_scenario();
            let mut hashes: PathMap<String> = PathMap::new();
            hashes.insert(path.clone(), calculate_hash(content.as_str().as_bytes()));
            let config = save_ratel_config(project, context, hashes, at);
            Ok(InitPlan { path, content, config })
        },
        _ => Err(LedgerError::AlreadyInitialized),
    }
}

/// Makes the ledger of a project that is initialised at the time `at` with
/// the tracked files `hashes`. Persisting it is the caller's part.
pub fn save_ratel_config(
    project: ProjectType,
    context: &str,
    hashes: PathMap<String>,
    at: Timestamp,
) -> (config: RatelConfig)
    ensures
        config@ == (RatelConfigView {
            version: VERSION@,
            project_type: project.tag(),
            context: context@,
            initialized_at: at,
            customized_at: None,
            expert_hashes: hashes@,
        }),
{
    RatelConfig {
        version: VERSION.to_owned(),
        project_type: project.label(),
        context: context.to_owned(),
        initialized_at: at,
        customized_at: None,
        expert_hashes: hashes,
    }
}

/// Whether every entry's file is there with the recorded digest.
pub open spec fn all_match(
    baseline: Seq<(Seq<char>, Seq<char>)>,
    files: Seq<(Seq<char>, Seq<u8>)>,
) -> bool {
    forall|i: int| 0 <= i < baseline.len() ==> entry_matches(#[trigger] baseline[i], files)
}

/// Verification succeeds exactly when every entry matches.
pub proof fn verify_ok_iff_all_match(
    baseline: Seq<(Seq<char>, Seq<char>)>,
    files: Seq<(Seq<char>, Seq<u8>)>,
)
    ensures
        verify_entries(baseline, files) is Ok <==> all_match(baseline, files),
    decreases baseline.len(),
{
    if baseline.len() > 0 {
        let rest = baseline.drop_first();
        verify_ok_iff_all_match(rest, files);
        if all_match(baseline, files) {
            assert(entry_matches(baseline[0], files));
            assert forall|i: int| 0 <= i < rest.len() implies entry_matches(
                #[trigger] rest[i],
                files,
            ) by {
                assert(rest[i] == baseline[i + 1]);
            }
        }
        if verify_entries(baseline, files) is Ok {
            assert forall|i: int| 0 <= i < baseline.len() implies entry_matches(
                #[trigger] baseline[i],
                files,
            ) by {
                if i > 0 {
                    assert(baseline[i] == rest[i - 1]);
                }
            }
        }
    }
}

/// Verification fails on the first entry that does not match, and says
/// whether its file is missing or altered.
pub proof fn verify_reports_first_mismatch(
    baseline: Seq<(Seq<char>, Seq<char>)>,
    files: Seq<(Seq<char>, Seq<u8>)>,
    i: int,
)
    requires
        0 <= i < baseline.len(),
        !entry_matches(baseline[i], files),
        forall|j: int| 0 <= j < i ==> entry_matches(#[trigger] baseline[j], files),
    ensures
        verify_entries(baseline, files) == Err::<(), LedgerErrorView>(
            if lookup(files, baseline[i].0) is None {
                LedgerErrorView::FileMissing(baseline[i].0)
            } else {
                LedgerErrorView::IntegrityViolation(baseline[i].0)
            },
        ),
    decreases baseline.len(),
{
    if i > 0 {
        let rest = baseline.drop_first();
        assert(entry_matches(baseline[0], files));
        assert(rest[i - 1] == baseline[i]);
        assert forall|j: int| 0 <= j < i - 1 implies entry_matches(#[trigger] rest[j], files) by {
            assert(rest[j] == baseline[j + 1]);
        }
        verify_reports_first_mismatch(rest, files, i - 1);
    }
}

/// After certifying, every entry matches the files it was certified from.
pub proof fn rebaseline_matches(
    baseline: Seq<(Seq<char>, Seq<char>)>,
    files: Seq<(Seq<char>, Seq<u8>)>,
)
    ensures
        all_match(rebaseline(baseline, files), files),
    decreases baseline.len(),
{
    if baseline.len() > 0 {
        let earlier = rebaseline(baseline.drop_last(), files);
        rebaseline_matches(baseline.drop_last(), files);
        match lookup(files, baseline.last().0) {
            Some(content) => {
                let path = baseline.last().0;
                put_elements(earlier, path, digest_of(content));
                let after = put(earlier, path, digest_of(content));
                assert forall|i: int| 0 <= i < after.len() implies entry_matches(
                    #[trigger] after[i],
                    files,
                ) by {
                    if after[i] != (path, digest_of(content)) {
                        assert(after[i] == earlier[i]);
                    }
                }
            },
            None => {},
        }
    }
}

/// After certifying, a path is recorded exactly if it was recorded before
/// and its file is there, and then under the digest of the file's content.
/// No path is recorded twice.
pub proof fn rebaseline_records(
    baseline: Seq<(Seq<char>, Seq<char>)>,
    files: Seq<(Seq<char>, Seq<u8>)>,
    path: Seq<char>,
)
    ensures
        lookup(rebaseline(baseline, files), path) == if has_key(baseline, path) {
            match lookup(files, path) {
                Some(content) => Some(digest_of(content)),
                None => None,
            }
        } else {
            None
        },
        unique_keys(rebaseline(baseline, files)),
    decreases baseline.len(),
{
    if baseline.len() > 0 {
        let before = baseline.drop_last();
        let earlier = rebaseline(before, files);
        let last = baseline.last().0;
        rebaseline_records(before, files, path);
        if has_key(before, path) {
            let i = choose|i: int| 0 <= i < before.len() && (#[trigger] before[i]).0 == path;
            assert(baseline[i] == before[i]);
        }
        if has_key(baseline, path) && path != last {
            let i = choose|i: int| 0 <= i < baseline.len() && (#[trigger] baseline[i]).0 == path;
            assert(before[i] == baseline[i]);
        }
        assert(baseline[baseline.len() - 1].0 == last);
        match lookup(files, last) {
            Some(content) => {
                lookup_put(earlier, last, digest_of(content), path);
                put_keeps_unique(earlier, last, digest_of(content));
            },
            None => {},
        }
    } else {
        assert(!has_key(baseline, path));
    }
}

/// Certifying and then checking the same files never fails: the new
/// baseline verifies.
pub proof fn certify_then_check(
    state: LedgerStateView,
    files: Seq<(Seq<char>, Seq<u8>)>,
    at: Timestamp,
)
    requires
        certify_spec(state, files, at) is Ok,
    ensures
        check_spec(LedgerStateView::Initialized(certify_spec(state, files, at)->Ok_0), files) is Ok,
{
    let config = state->Initialized_0;
    rebaseline_matches(config.expert_hashes, files);
    verify_ok_iff_all_match(rebaseline(config.expert_hashes, files), files);
}

/// Initialising and then checking never fails, provided the scenario file
/// was written as planned.
pub proof fn init_then_check(
    state: LedgerStateView,
    context: Seq<char>,
    has_package_manifest: bool,
    at: Timestamp,
    files: Seq<(Seq<char>, Seq<u8>)>,
)
    requires
        init_spec(state, context, has_package_manifest, at) is Ok,
        lookup(files, ProjectType::detected(has_package_manifest).scenario_path()) == Some(
            DEFAULT_SCENARIO.spec_bytes(),
        ),
    ensures
        check_spec(
            LedgerStateView::Initialized(
                init_spec(state, context, has_package_manifest, at)->Ok_0.config,
            ),
            files,
        ) is Ok,
{
    let config = init_spec(state, context, has_package_manifest, at)->Ok_0.config;
    assert(config.expert_hashes.len() == 1);
    assert(entry_matches(config.expert_hashes[0], files));
    verify_ok_iff_all_match(config.expert_hashes, files);
}

/// What checking says after one file of a verified baseline was replaced:
/// the integrity violation of exactly that path, unless the new content has
/// the digest of the old, in which case the baseline still verifies. No
/// other path is ever blamed and no other error is given.
pub proof fn check_after_a_change(
    baseline: Seq<(Seq<char>, Seq<char>)>,
    files: Seq<(Seq<char>, Seq<u8>)>,
    path: Seq<char>,
    content: Seq<u8>,
)
    requires
        verify_entries(baseline, files) is Ok,
        has_key(baseline, path),
        lookup(files, path) is Some,
    ensures
        digest_of(content) == digest_of(lookup(files, path)->0) ==> verify_entries(
            baseline,
            put(files, path, content),
        ) is Ok,
        digest_of(content) != digest_of(lookup(files, path)->0) ==> verify_entries(
            baseline,
            put(files, path, content),
        ) == Err::<(), LedgerErrorView>(LedgerErrorView::IntegrityViolation(path)),
{
    let changed = put(files, path, content);
    if digest_of(content) == digest_of(lookup(files, path)->0) {
        verify_ok_iff_all_match(baseline, files);
        assert forall|j: int| 0 <= j < baseline.len() implies entry_matches(
            #[trigger] baseline[j],
            changed,
        ) by {
            assert(entry_matches(baseline[j], files));
            lookup_put(files, path, content, baseline[j].0);
        }
        verify_ok_iff_all_match(baseline, changed);
    } else {
        modified_file_is_reported(baseline, files, path, content);
    }
}

/// If a baseline verifies and one of its files is then replaced by content
/// with another digest, checking reports the integrity violation of exactly
/// that path.
pub proof fn modified_file_is_reported(
    baseline: Seq<(Seq<char>, Seq<char>)>,
    files: Seq<(Seq<char>, Seq<u8>)>,
    path: Seq<char>,
    content: Seq<u8>,
)
    requires
        verify_entries(baseline, files) is Ok,
        has_key(baseline, path),
        lookup(files, path) is Some,
        digest_of(content) != digest_of(lookup(files, path)->0),
    ensures
        verify_entries(baseline, put(files, path, content)) == Err::<(), LedgerErrorView>(
            LedgerErrorView::IntegrityViolation(path),
        ),
{
    let changed = put(files, path, content);
    verify_ok_iff_all_match(baseline, files);
    let i = first_index(baseline, path);
    assert(entry_matches(baseline[i], files));
    lookup_put(files, path, content, path);
    assert forall|j: int| 0 <= j < i implies entry_matches(#[trigger] baseline[j], changed) by {
        assert(entry_matches(baseline[j], files));
        lookup_put(files, path, content, baseline[j].0);
    }
    verify_reports_first_mismatch(baseline, changed, i);
}

/// A project with a package manifest and one without get their first
/// scenario at different paths, and are recorded under different kinds.
pub proof fn manifest_decides_the_path(context: Seq<char>, at: Timestamp)
    ensures
        init_spec(LedgerStateView::Uninitialized, context, true, at) is Ok,
        init_spec(LedgerStateView::Uninitialized, context, false, at) is Ok,
        init_spec(LedgerStateView::Uninitialized, context, true, at)->Ok_0.path != init_spec(
            LedgerStateView::Uninitialized,
            context,
            false,
            at,
        )->Ok_0.path,
        init_spec(LedgerStateView::Uninitialized, context, true, at)->Ok_0.config.expert_hashes[0].0
            != init_spec(
            LedgerStateView::Uninitialized,
            context,
            false,
            at,
        )->Ok_0.config.expert_hashes[0].0,
        init_spec(LedgerStateView::Uninitialized, context, true, at)->Ok_0.config.project_type
            != init_spec(LedgerStateView::Uninitialized, context, false, at)->Ok_0.config.project_type,
{
    reveal_strlit("tests/ratel/security.ratel");
    reveal_strlit("security.ratel");
    reveal_strlit("Node.js");
    reveal_strlit("Generic");
    assert("tests/ratel/security.ratel"@.len() != "security.ratel"@.len());
    assert("Node.js"@[0] != "Generic"@[0]);
}

} // verus!
