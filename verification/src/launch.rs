//! The run as a whole: from the embedded metadata to the hand-over.
//!
//! The coordinator never acts itself. It tells its host what to do next (read
//! the environment, look whether the install directory exists, perform a step
//! of the installation, start the application, leave) and takes the host's
//! answer. A run passes through its phases in one direction only:
//!
//! ```text
//! metadata resolved -> path resolved -> [installing ->] launching -> terminal
//! ```
//!
//! Reading the metadata comes before the first phase; checking the install
//! directory and being ready to launch take no answer from the host and so
//! are passed within one step. Any failure leads straight to the terminal
//! phase with status 1; a launch that worked ends with the status that the
//! application reported.

use vstd::prelude::*;
use crate::errors::{ErrorModel, WrapperError};
use crate::installer::{
    ActionModel,
    FsAction,
    FsOutcome,
    InstallStatus,
    Installer,
    InstallerModel,
    OutcomeModel,
    record_steps,
};
use crate::metadata::{maybe_parse_metadata, parsed_metadata, MetadataModel, ReleaseMetadata};
use crate::paths::{texts, InstallPath, PathModel};
use crate::payload::{decompress_payload, payload_archive};
use crate::target::{
    determine_needs_install,
    install_path_variable,
    install_target_of,
    override_variable,
    resolve_install_target,
    text_of,
    InstallTarget,
    TargetModel,
};

verus! {

/// What is built into the executable.
#[derive(Debug, Clone, Copy)]
pub struct LaunchConfig<'a> {
    /// The name of the release.
    pub release_name: &'a str,
    /// The release metadata, as a JSON object.
    pub metadata: &'a str,
    /// The compressed archive.
    pub payload: &'a [u8],
    /// Whether this is a production build. Any other build unpacks the
    /// archive on every run.
    pub is_prod: bool,
    /// Whether the host has permission bits to set.
    pub apply_modes: bool,
    /// Whether the host reads paths as Windows does: `\` parts names as `/`
    /// does, and a name with a `:` reaches for a drive.
    pub windows_paths: bool,
}

/// The mathematical value of a [`LaunchConfig`].
pub struct ConfigModel {
    pub release_name: Seq<char>,
    pub metadata: Seq<char>,
    pub payload: Seq<u8>,
    pub is_prod: bool,
    pub apply_modes: bool,
    pub windows_paths: bool,
}

impl<'a> View for LaunchConfig<'a> {
    type V = ConfigModel;

    open spec fn view(&self) -> ConfigModel {
        ConfigModel {
            release_name: self.release_name@,
            metadata: self.metadata@,
            payload: self.payload@,
            is_prod: self.is_prod,
            apply_modes: self.apply_modes,
            windows_paths: self.windows_paths,
        }
    }
}

/// What the coordinator asks of its host.
#[derive(Debug, PartialEq, Eq)]
pub enum Request {
    /// Read the environment variable `variable` and find the platform's
    /// per-user data directory.
    ReadEnvironment { variable: String },
    /// Look whether `dir` exists.
    ProbeInstallDir { dir: InstallPath },
    /// Perform one step of the installation.
    Filesystem(FsAction),
    /// Start the application installed in `dir` with `args`.
    Launch { dir: InstallPath, metadata: ReleaseMetadata, args: Vec<String> },
    /// Leave with `status`, after reporting `error` if there is one.
    Exit { status: i32, error: Option<WrapperError> },
}

/// The mathematical value of a [`Request`].
pub enum RequestModel {
    ReadEnvironment { variable: Seq<char> },
    ProbeInstallDir { dir: PathModel },
    Filesystem(ActionModel),
    Launch { dir: PathModel, metadata: MetadataModel, args: Seq<Seq<char>> },
    Exit { status: i32, error: Option<ErrorModel> },
}

/// The value of an optional error.
pub open spec fn error_of(error: Option<WrapperError>) -> Option<ErrorModel> {
    match error {
        Some(error) => Some(error@),
        None => None,
    }
}

impl View for Request {
    type V = RequestModel;

    open spec fn view(&self) -> RequestModel {
        match self {
            Request::ReadEnvironment { variable } => RequestModel::ReadEnvironment {
                variable: variable@,
            },
            Request::ProbeInstallDir { dir } => RequestModel::ProbeInstallDir { dir: dir@ },
            Request::Filesystem(action) => RequestModel::Filesystem(action@),
            Request::Launch { dir, metadata, args } => RequestModel::Launch {
                dir: dir@,
                metadata: metadata@,
                args: texts(args@),
            },
            Request::Exit { status, error } => RequestModel::Exit {
                status: *status,
                error: error_of(*error),
            },
        }
    }
}

/// What the host answers.
#[derive(Debug, PartialEq, Eq)]
pub enum Reply {
    /// The value of the override variable, if it is set, and the platform's
    /// per-user data directory, if there is one.
    Environment { env_override: Option<String>, data_dir: Option<String> },
    /// Whether the install directory exists.
    InstallDir { exists: bool },
    /// How the step of the installation went.
    Filesystem(FsOutcome),
    /// The application ran and reported `status`.
    Launched { status: i32 },
    /// The application could not be started.
    LaunchFailed { cause: String },
}

/// The mathematical value of a [`Reply`].
pub enum ReplyModel {
    Environment { env_override: Option<Seq<char>>, data_dir: Option<Seq<char>> },
    InstallDir { exists: bool },
    Filesystem(OutcomeModel),
    Launched { status: i32 },
    LaunchFailed { cause: Seq<char> },
}

impl View for Reply {
    type V = ReplyModel;

    open spec fn view(&self) -> ReplyModel {
        match self {
            Reply::Environment { env_override, data_dir } => ReplyModel::Environment {
                env_override: text_of(*env_override),
                data_dir: text_of(*data_dir),
            },
            Reply::InstallDir { exists } => ReplyModel::InstallDir { exists: *exists },
            Reply::Filesystem(outcome) => ReplyModel::Filesystem(outcome@),
            Reply::Launched { status } => ReplyModel::Launched { status: *status },
            Reply::LaunchFailed { cause } => ReplyModel::LaunchFailed { cause: cause@ },
        }
    }
}

/// Where a run stands.
pub enum PhaseModel {
    /// The metadata is read; the environment is being asked for.
    MetadataResolved { metadata: MetadataModel },
    /// The install directory is known; the host is looking whether it exists.
    PathResolved { metadata: MetadataModel, target: TargetModel },
    /// The archive is being unpacked.
    Installing { metadata: MetadataModel, target: TargetModel, installer: InstallerModel },
    /// The application is being started.
    Launching { metadata: MetadataModel, target: TargetModel },
    /// The run is over.
    Terminal { status: i32, error: Option<ErrorModel> },
}

/// The phase that follows from the state of the installation: still
/// installing, ready to launch, or given up.
pub open spec fn phase_of_installation(
    metadata: MetadataModel,
    target: TargetModel,
    installer: InstallerModel,
) -> PhaseModel {
    match installer.status {
        InstallStatus::Writing { .. } => PhaseModel::Installing { metadata, target, installer },
        InstallStatus::Finished => PhaseModel::Launching { metadata, target },
        InstallStatus::Failed(error) => PhaseModel::Terminal { status: 1, error: Some(error) },
    }
}

/// The mathematical value of a [`Coordinator`].
pub struct CoordinatorModel {
    pub config: ConfigModel,
    pub args: Seq<Seq<char>>,
    pub phase: PhaseModel,
}

impl CoordinatorModel {
    /// A run at its start: the metadata is read at once, and a run without
    /// metadata is over before it asks for anything.
    pub open spec fn start(config: ConfigModel, args: Seq<Seq<char>>) -> CoordinatorModel {
        CoordinatorModel {
            config,
            args,
            phase: match parsed_metadata(config.metadata) {
                Some(metadata) => PhaseModel::MetadataResolved { metadata },
                None => PhaseModel::Terminal {
                    status: 1,
                    error: Some(ErrorModel::MetadataCorrupted),
                },
            },
        }
    }

    /// While the archive is unpacked, the installation is under way, unpacks
    /// the archive of the payload, and unpacks it into the directory of this
    /// build.
    pub open spec fn wf(self) -> bool {
        &&& self.metadata() matches Some(metadata) ==> parsed_metadata(self.config.metadata)
            == Some(metadata)
        &&& self.phase matches PhaseModel::Installing { metadata, target, installer } ==> {
            &&& installer.wf()
            &&& installer.status is Writing
            &&& payload_archive(self.config.payload) == Some(installer.archive)
            &&& installer.destination == target.versioned_dir
            &&& installer.apply_modes == self.config.apply_modes
            &&& installer.windows_paths == self.config.windows_paths
        }
    }

    /// The metadata that the run holds, once it is read and until the run is
    /// over.
    pub open spec fn metadata(self) -> Option<MetadataModel> {
        match self.phase {
            PhaseModel::MetadataResolved { metadata } => Some(metadata),
            PhaseModel::PathResolved { metadata, .. } => Some(metadata),
            PhaseModel::Installing { metadata, .. } => Some(metadata),
            PhaseModel::Launching { metadata, .. } => Some(metadata),
            PhaseModel::Terminal { .. } => None,
        }
    }

    /// Whether the archive is unpacked, given whether the install directory
    /// exists: always where it does not, and on every run of a build that is
    /// not a production build.
    pub open spec fn needs_install(self, install_dir_exists: bool) -> bool {
        !self.config.is_prod || !install_dir_exists
    }

    /// What the host is asked to do in this phase.
    pub open spec fn request(self) -> RequestModel {
        match self.phase {
            PhaseModel::MetadataResolved { .. } => RequestModel::ReadEnvironment {
                variable: override_variable(self.config.release_name),
            },
            PhaseModel::PathResolved { target, .. } => RequestModel::ProbeInstallDir {
                dir: target.versioned_dir,
            },
            PhaseModel::Installing { installer, .. } => RequestModel::Filesystem(
                installer.action()->0,
            ),
            PhaseModel::Launching { metadata, target } => RequestModel::Launch {
                dir: target.versioned_dir,
                metadata,
                args: self.args,
            },
            PhaseModel::Terminal { status, error } => RequestModel::Exit { status, error },
        }
    }

    /// The run after the host answered `reply`. An answer that the phase did
    /// not ask for changes nothing.
    pub open spec fn after(self, reply: ReplyModel) -> CoordinatorModel {
        let phase = match (self.phase, reply) {
            (
                PhaseModel::MetadataResolved { metadata },
                ReplyModel::Environment { env_override, data_dir },
            ) => match install_target_of(
                self.config.release_name,
                metadata,
                env_override,
                data_dir,
            ) {
                Some(target) => PhaseModel::PathResolved { metadata, target },
                None => PhaseModel::Terminal {
                    status: 1,
                    error: Some(ErrorModel::CannotComputeInstallDir),
                },
            },
            (PhaseModel::PathResolved { metadata, target }, ReplyModel::InstallDir { exists }) => {
                if self.needs_install(exists) {
                    match payload_archive(self.config.payload) {
                        Some(archive) => phase_of_installation(
                            metadata,
                            target,
                            InstallerModel::start(
                                archive,
                                target.versioned_dir,
                                self.config.apply_modes,
                                self.config.windows_paths,
                            ),
                        ),
                        None => PhaseModel::Terminal {
                            status: 1,
                            error: Some(ErrorModel::PayloadDecompressFailed),
                        },
                    }
                } else {
                    PhaseModel::Launching { metadata, target }
                }
            },
            (
                PhaseModel::Installing { metadata, target, installer },
                ReplyModel::Filesystem(outcome),
            ) => phase_of_installation(metadata, target, installer.after(outcome)),
            (
                PhaseModel::Launching { .. },
                ReplyModel::Launched { status },
            ) => PhaseModel::Terminal { status, error: None },
            (
                PhaseModel::Launching { .. },
                ReplyModel::LaunchFailed { cause },
            ) => PhaseModel::Terminal { status: 1, error: Some(ErrorModel::LaunchFailed(cause)) },
            (phase, _) => phase,
        };
        CoordinatorModel { phase, ..self }
    }

    /// The run after the host gave `replies`, one by one.
    pub open spec fn after_all(self, replies: Seq<ReplyModel>) -> CoordinatorModel
        decreases replies.len(),
    {
        if replies.len() == 0 {
            self
        } else {
            self.after(replies[0]).after_all(replies.drop_first())
        }
    }

    /// How far the run has come.
    pub open spec fn rank(self) -> nat {
        match self.phase {
            PhaseModel::MetadataResolved { .. } => 0,
            PhaseModel::PathResolved { .. } => 1,
            PhaseModel::Installing { .. } => 2,
            PhaseModel::Launching { .. } => 3,
            PhaseModel::Terminal { .. } => 4,
        }
    }
}

/// A run keeps to the archive of its payload from its start on, whatever the
/// host answers.
pub proof fn lemma_run_stays_well_formed(run: CoordinatorModel, reply: ReplyModel)
    requires
        run.wf(),
    ensures
        CoordinatorModel::start(run.config, run.args).wf(),
        run.after(reply).wf(),
        run.after(reply).config == run.config,
        run.after(reply).args == run.args,
{
    match (run.phase, reply) {
        (PhaseModel::PathResolved { metadata, target }, ReplyModel::InstallDir { exists }) => {
            if run.needs_install(exists) && payload_archive(run.config.payload) is Some {
                let archive = payload_archive(run.config.payload)->0;
                let installer = InstallerModel::start(
                    archive,
                    target.versioned_dir,
                    run.config.apply_modes,
                    run.config.windows_paths,
                );
                crate::installer::lemma_installer_stays_well_formed(installer, OutcomeModel::Done);
            }
        },
        (
            PhaseModel::Installing { metadata, target, installer },
            ReplyModel::Filesystem(outcome),
        ) => {
            crate::installer::lemma_installer_stays_well_formed(installer, outcome);
        },
        _ => {},
    }
}

/// The phases are passed in one direction: no answer takes a run back.
pub proof fn lemma_run_moves_forward(run: CoordinatorModel, reply: ReplyModel)
    ensures
        run.rank() <= run.after(reply).rank(),
{
}

/// A run that is over stays over, with the same status and error.
pub proof fn lemma_terminal_is_final(run: CoordinatorModel, replies: Seq<ReplyModel>)
    requires
        run.phase is Terminal,
    ensures
        run.after_all(replies) == run,
    decreases replies.len(),
{
    if replies.len() > 0 {
        assert(run.after(replies[0]) == run);
        lemma_terminal_is_final(run, replies.drop_first());
    }
}

/// Once a run is about to launch, it asks for nothing but the launch and the
/// exit: the file system is not touched again.
pub proof fn lemma_no_writes_after_installation(run: CoordinatorModel, replies: Seq<ReplyModel>)
    requires
        run.phase is Launching || run.phase is Terminal,
    ensures
        run.after_all(replies).phase is Launching || run.after_all(replies).phase is Terminal,
        !(run.after_all(replies).request() is Filesystem),
    decreases replies.len(),
{
    if replies.len() > 0 {
        lemma_no_writes_after_installation(run.after(replies[0]), replies.drop_first());
    }
}

/// A production build that finds its install directory hands over at once:
/// the next thing asked for is the launch, from that directory, with the
/// arguments as they were given, and nothing that follows touches the file
/// system.
pub proof fn lemma_installed_release_is_launched_at_once(
    run: CoordinatorModel,
    replies: Seq<ReplyModel>,
)
    requires
        run.phase is PathResolved,
        run.config.is_prod,
    ensures
        ({
            let found = run.after(ReplyModel::InstallDir { exists: true });
            &&& found.request() == RequestModel::Launch {
                dir: run.phase->PathResolved_target.versioned_dir,
                metadata: run.phase->PathResolved_metadata,
                args: run.args,
            }
            &&& !(found.after_all(replies).request() is Filesystem)
        }),
{
    lemma_no_writes_after_installation(
        run.after(ReplyModel::InstallDir { exists: true }),
        replies,
    );
}

/// Without an override and without a data directory the run ends with
/// `CannotComputeInstallDir` and status 1. Nothing is unpacked and nothing is
/// launched, then or later.
pub proof fn lemma_no_base_dir_ends_the_run(
    run: CoordinatorModel,
    env_override: Option<Seq<char>>,
    replies: Seq<ReplyModel>,
)
    requires
        run.phase is MetadataResolved,
        env_override is None || env_override->0.len() == 0,
    ensures
        ({
            let ended = run.after(ReplyModel::Environment { env_override, data_dir: None });
            &&& ended.phase == PhaseModel::Terminal {
                status: 1,
                error: Some(ErrorModel::CannotComputeInstallDir),
            }
            &&& ended.after_all(replies).request() == RequestModel::Exit {
                status: 1,
                error: Some(ErrorModel::CannotComputeInstallDir),
            }
        }),
{
    lemma_terminal_is_final(
        run.after(ReplyModel::Environment { env_override, data_dir: None }),
        replies,
    );
}

/// A payload that is no compressed archive ends the run with
/// `PayloadDecompressFailed` and status 1 as soon as it is needed, before any
/// step of an installation is asked for; and none is asked for later.
pub proof fn lemma_corrupt_payload_ends_the_run(
    run: CoordinatorModel,
    install_dir_exists: bool,
    replies: Seq<ReplyModel>,
)
    requires
        run.phase is PathResolved,
        run.needs_install(install_dir_exists),
        payload_archive(run.config.payload) is None,
    ensures
        ({
            let ended = run.after(ReplyModel::InstallDir { exists: install_dir_exists });
            &&& ended.phase == PhaseModel::Terminal {
                status: 1,
                error: Some(ErrorModel::PayloadDecompressFailed),
            }
            &&& ended.after_all(replies).request() == RequestModel::Exit {
                status: 1,
                error: Some(ErrorModel::PayloadDecompressFailed),
            }
        }),
{
    lemma_terminal_is_final(
        run.after(ReplyModel::InstallDir { exists: install_dir_exists }),
        replies,
    );
}

proof fn lemma_run_from_start_is_well_formed(
    config: ConfigModel,
    args: Seq<Seq<char>>,
    replies: Seq<ReplyModel>,
)
    ensures
        CoordinatorModel::start(config, args).after_all(replies).wf(),
        CoordinatorModel::start(config, args).after_all(replies).config == config,
{
    let run = CoordinatorModel::start(config, args);
    lemma_run_stays_well_formed(run, ReplyModel::InstallDir { exists: true });
    lemma_well_formed_run_goes_on(run, replies);
}

proof fn lemma_well_formed_run_goes_on(run: CoordinatorModel, replies: Seq<ReplyModel>)
    requires
        run.wf(),
    ensures
        run.after_all(replies).wf(),
        run.after_all(replies).config == run.config,
        run.after_all(replies).args == run.args,
    decreases replies.len(),
{
    if replies.len() > 0 {
        lemma_run_stays_well_formed(run, replies[0]);
        lemma_well_formed_run_goes_on(run.after(replies[0]), replies.drop_first());
    }
}

/// Whatever the host answers, every step of an installation that a run asks
/// for is a step of a record of the archive that its payload holds, taken
/// below the directory of this build. A payload that holds no archive never
/// leads to a step.
pub proof fn lemma_writes_come_from_the_payload(
    config: ConfigModel,
    args: Seq<Seq<char>>,
    replies: Seq<ReplyModel>,
)
    ensures
        ({
            let run = CoordinatorModel::start(config, args).after_all(replies);
            run.request() matches RequestModel::Filesystem(action) ==> {
                &&& run.phase is Installing
                &&& payload_archive(config.payload) is Some
                &&& exists|record: int, step: int|
                    {
                        &&& 0 <= record < payload_archive(config.payload)->0.len()
                        &&& #[trigger] is_step_of(
                            action,
                            payload_archive(config.payload)->0[record],
                            run.phase->Installing_target.versioned_dir,
                            config.apply_modes,
                            config.windows_paths,
                            step,
                        )
                    }
            }
        }),
{
    let run = CoordinatorModel::start(config, args).after_all(replies);
    lemma_run_from_start_is_well_formed(config, args, replies);
    if run.request() is Filesystem {
        let installer = run.phase->Installing_installer;
        let record = installer.status->record as int;
        let step = installer.status->step as int;
        assert(is_step_of(
            run.request()->Filesystem_0,
            payload_archive(config.payload)->0[record],
            run.phase->Installing_target.versioned_dir,
            config.apply_modes,
            config.windows_paths,
            step,
        ));
    }
}

/// Whatever the host answers, an application is launched with the metadata
/// that is built in and with the arguments that the run was started with,
/// none added, dropped or changed.
pub proof fn lemma_arguments_are_handed_on(
    config: ConfigModel,
    args: Seq<Seq<char>>,
    replies: Seq<ReplyModel>,
)
    ensures
        ({
            let run = CoordinatorModel::start(config, args).after_all(replies);
            run.request() matches RequestModel::Launch { metadata, args: handed_on, .. } ==> {
                &&& handed_on == args
                &&& parsed_metadata(config.metadata) == Some(metadata)
            }
        }),
{
    let run = CoordinatorModel::start(config, args);
    lemma_run_stays_well_formed(run, ReplyModel::InstallDir { exists: true });
    lemma_well_formed_run_goes_on(run, replies);
}

/// Whether `action` is step number `step` of writing `record` below
/// `destination`.
pub open spec fn is_step_of(
    action: ActionModel,
    record: crate::archive::RecordModel,
    destination: PathModel,
    apply_modes: bool,
    windows_paths: bool,
    step: int,
) -> bool {
    match record_steps(record, destination, apply_modes, windows_paths) {
        Some(steps) => 0 <= step < steps.len() && steps[step] == action,
        None => false,
    }
}

/// Where a run stands, with what it holds.
enum Phase {
    AwaitingEnvironment { metadata: ReleaseMetadata },
    AwaitingProbe { metadata: ReleaseMetadata, target: InstallTarget },
    Installing { metadata: ReleaseMetadata, target: InstallTarget, installer: Installer },
    Launching { metadata: ReleaseMetadata, target: InstallTarget },
    Terminal { status: i32, error: Option<WrapperError> },
}

impl Phase {
    spec fn model(self) -> PhaseModel {
        match self {
            Phase::AwaitingEnvironment { metadata } => PhaseModel::MetadataResolved {
                metadata: metadata@,
            },
            Phase::AwaitingProbe { metadata, target } => PhaseModel::PathResolved {
                metadata: metadata@,
                target: target@,
            },
            Phase::Installing { metadata, target, installer } => PhaseModel::Installing {
                metadata: metadata@,
                target: target@,
                installer: installer@,
            },
            Phase::Launching { metadata, target } => PhaseModel::Launching {
                metadata: metadata@,
                target: target@,
            },
            Phase::Terminal { status, error } => PhaseModel::Terminal {
                status,
                error: error_of(error),
            },
        }
    }
}

/// One run of the launcher.
pub struct Coordinator<'a> {
    config: LaunchConfig<'a>,
    args: Vec<String>,
    phase: Phase,
}

impl<'a> View for Coordinator<'a> {
    type V = CoordinatorModel;

    closed spec fn view(&self) -> CoordinatorModel {
        CoordinatorModel {
            config: self.config@,
            args: texts(self.args@),
            phase: self.phase.model(),
        }
    }
}

/// A copy of `names`.
fn copy_of(names: &Vec<String>) -> (copy: Vec<String>)
    ensures
        texts(copy@) == texts(names@),
{
    let mut copy: Vec<String> = Vec::new();
    let count: usize = names.len();
    let mut i: usize = 0;
    while i < count
        invariant
            count == names@.len(),
            i <= count,
            copy@.len() == i,
            forall|k: int| 0 <= k < i ==> copy@[k]@ == names@[k]@,
        decreases count - i,
    {
        copy.push(names[i].clone());
        i += 1;
    }
    assert(texts(copy@) =~= texts(names@));
    copy
}

impl<'a> Coordinator<'a> {
    #[verifier::type_invariant]
    spec fn keeps_to_the_payload(self) -> bool {
        self@.wf()
    }

    /// Starts a run with what is built into the executable and the arguments
    /// of this invocation, the program's own name left out.
    pub fn start(config: LaunchConfig<'a>, args: Vec<String>) -> (run: Coordinator<'a>)
        ensures
            run@ == CoordinatorModel::start(config@, texts(args@)),
            run@.wf(),
    {
        let phase = match maybe_parse_metadata(config.metadata) {
            Ok(metadata) => Phase::AwaitingEnvironment { metadata },
            Err(error) => Phase::Terminal { status: 1, error: Some(error) },
        };
        Coordinator { config, args, phase }
    }

    /// What the host is to do next.
    pub fn request(&self) -> (request: Request)
        ensures
            request@ == self@.request(),
            self@.wf(),
    {
        proof {
            use_type_invariant(self);
        }
        match &self.phase {
            Phase::AwaitingEnvironment { .. } => Request::ReadEnvironment {
                variable: install_path_variable(self.config.release_name),
            },
            Phase::AwaitingProbe { target, .. } => Request::ProbeInstallDir {
                dir: target.versioned_dir.clone(),
            },
            Phase::Installing { installer, .. } => match installer.action() {
                Some(action) => Request::Filesystem(action),
                None => vstd::pervasive::unreached(),
            },
            Phase::Launching { metadata, target } => Request::Launch {
                dir: target.versioned_dir.clone(),
                metadata: metadata.clone(),
                args: copy_of(&self.args),
            },
            Phase::Terminal { status, error } => Request::Exit {
                status: *status,
                error: match error {
                    Some(error) => Some(error.clone()),
                    None => None,
                },
            },
        }
    }

    /// Whether the run is over.
    pub fn is_over(&self) -> (over: bool)
        ensures
            over == (self@.phase is Terminal),
    {
        match &self.phase {
            Phase::Terminal { .. } => true,
            _ => false,
        }
    }

    /// Takes the host's answer; see [`CoordinatorModel::after`].
    pub fn handle(&mut self, reply: Reply)
        ensures
            final(self)@ == old(self)@.after(reply@),
            final(self)@.wf(),
    {
        proof {
            use_type_invariant(&*self);
        }
        let mut phase = Phase::Terminal { status: 1, error: None };
        std::mem::swap(&mut self.phase, &mut phase);
        let next = match (phase, reply) {
            (
                Phase::AwaitingEnvironment { metadata },
                Reply::Environment { env_override, data_dir },
            ) => match resolve_install_target(
                self.config.release_name,
                &metadata,
                env_override,
                data_dir,
            ) {
                Ok(target) => Phase::AwaitingProbe { metadata, target },
                Err(error) => Phase::Terminal { status: 1, error: Some(error) },
            },
            (Phase::AwaitingProbe { metadata, target }, Reply::InstallDir { exists }) => {
                if !self.config.is_prod || determine_needs_install(exists) {
                    match decompress_payload(self.config.payload) {
                        Ok(archive) => {
                            let installer = Installer::new(
                                archive,
                                target.versioned_dir.clone(),
                                self.config.apply_modes,
                                self.config.windows_paths,
                            );
                            Self::phase_of(metadata, target, installer)
                        },
                        Err(error) => Phase::Terminal { status: 1, error: Some(error) },
                    }
                } else {
                    Phase::Launching { metadata, target }
                }
            },
            (Phase::Installing { metadata, target, installer }, Reply::Filesystem(outcome)) => {
                let mut installer = installer;
                installer.advance(outcome);
                Self::phase_of(metadata, target, installer)
            },
            (Phase::Launching { .. }, Reply::Launched { status }) => Phase::Terminal {
                status,
                error: None,
            },
            (Phase::Launching { .. }, Reply::LaunchFailed { cause }) => Phase::Terminal {
                status: 1,
                error: Some(WrapperError::LaunchFailed(cause)),
            },
            (phase, _) => phase,
        };
        self.phase = next;
    }

    /// The phase that follows from the state of the installation.
    fn phase_of(metadata: ReleaseMetadata, target: InstallTarget, installer: Installer) -> (phase:
        Phase)
        ensures
            phase.model() == phase_of_installation(metadata@, target@, installer@),
    {
        if installer.is_finished() {
            Phase::Launching { metadata, target }
        } else {
            match installer.failure() {
                Some(error) => Phase::Terminal { status: 1, error: Some(error) },
                None => Phase::Installing { metadata, target, installer },
            }
        }
    }
}

} // verus!
