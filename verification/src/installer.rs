//! Unpacking the archive into the install directory.
//!
//! The installer decides and its host acts. Each record is written by a short
//! list of steps; the installer hands out one step at a time, hears how it
//! went, and either moves on or gives up. The first failure ends the
//! installation at once: what was written before stays where it is.

use vstd::prelude::*;
use vstd::string::StringExecFns;
use crate::archive::{Archive, ArchiveRecord, RecordModel};
use crate::errors::{ErrorModel, WrapperError};
use crate::paths::{
    is_plain_name,
    joined,
    resolve_relative,
    resolved_components,
    texts,
    InstallPath,
    PathModel,
};

verus! {

/// One thing for the host to do to the file system.
#[derive(Debug, PartialEq, Eq)]
pub enum FsAction {
    /// Create `dir` and every directory above it that is missing.
    CreateDirs { dir: InstallPath },
    /// Create `file`, or empty it where it exists, and keep it open.
    CreateFile { file: InstallPath },
    /// Write `content` to the file just created.
    WriteData { file: InstallPath, content: Vec<u8> },
    /// Set the permission bits of the file just written to exactly `mode`.
    SetMode { file: InstallPath, mode: u32 },
}

/// The mathematical value of an [`FsAction`].
pub enum ActionModel {
    CreateDirs { dir: PathModel },
    CreateFile { file: PathModel },
    WriteData { file: PathModel, content: Seq<u8> },
    SetMode { file: PathModel, mode: u32 },
}

impl View for FsAction {
    type V = ActionModel;

    open spec fn view(&self) -> ActionModel {
        match self {
            FsAction::CreateDirs { dir } => ActionModel::CreateDirs { dir: dir@ },
            FsAction::CreateFile { file } => ActionModel::CreateFile { file: file@ },
            FsAction::WriteData { file, content } => ActionModel::WriteData {
                file: file@,
                content: content@,
            },
            FsAction::SetMode { file, mode } => ActionModel::SetMode { file: file@, mode: *mode },
        }
    }
}

impl Clone for FsAction {
    fn clone(&self) -> (copy: Self)
        ensures
            copy@ == self@,
    {
        match self {
            FsAction::CreateDirs { dir } => FsAction::CreateDirs { dir: dir.clone() },
            FsAction::CreateFile { file } => FsAction::CreateFile { file: file.clone() },
            FsAction::WriteData { file, content } => FsAction::WriteData {
                file: file.clone(),
                content: content.clone(),
            },
            FsAction::SetMode { file, mode } => FsAction::SetMode {
                file: file.clone(),
                mode: *mode,
            },
        }
    }
}

/// The values of a sequence of actions.
pub open spec fn action_models(actions: Seq<FsAction>) -> Seq<ActionModel> {
    actions.map_values(|action: FsAction| action@)
}

/// How a step went.
#[derive(Debug, PartialEq, Eq)]
pub enum FsOutcome {
    Done,
    /// The step failed; the text says why.
    Failed(String),
}

/// The mathematical value of an [`FsOutcome`].
pub enum OutcomeModel {
    Done,
    Failed(Seq<char>),
}

impl View for FsOutcome {
    type V = OutcomeModel;

    open spec fn view(&self) -> OutcomeModel {
        match self {
            FsOutcome::Done => OutcomeModel::Done,
            FsOutcome::Failed(cause) => OutcomeModel::Failed(cause@),
        }
    }
}

impl ActionModel {
    /// The error that ends the installation when this step fails with `cause`.
    pub open spec fn failure(self, cause: Seq<char>) -> ErrorModel {
        match self {
            ActionModel::CreateDirs { .. } => ErrorModel::ExtractMkdirFailed(
                "Could not create all install directories"@,
            ),
            ActionModel::CreateFile { .. } => ErrorModel::ExtractFileWriteFailed(
                "Could not create file"@,
            ),
            ActionModel::WriteData { .. } => ErrorModel::ExtractFileWriteFailed(
                "Could not write data to file"@,
            ),
            ActionModel::SetMode { .. } => ErrorModel::ExtractChmodFailed(cause),
        }
    }
}

impl FsAction {
    /// The error that ends the installation when this step fails with `cause`.
    pub fn failure(&self, cause: String) -> (error: WrapperError)
        ensures
            error@ == self@.failure(cause@),
    {
        match self {
            FsAction::CreateDirs { .. } => WrapperError::ExtractMkdirFailed(
                String::from_str("Could not create all install directories"),
            ),
            FsAction::CreateFile { .. } => WrapperError::ExtractFileWriteFailed(
                String::from_str("Could not create file"),
            ),
            FsAction::WriteData { .. } => WrapperError::ExtractFileWriteFailed(
                String::from_str("Could not write data to file"),
            ),
            FsAction::SetMode { .. } => WrapperError::ExtractChmodFailed(cause),
        }
    }
}

/// The steps that write `record` below `destination`, in the order in which
/// they are performed: the directories above the file, the file, its content
/// and, where the host has permission bits, its mode. The file is
/// `destination` with the names of the record's path entered, as the host
/// parts them. `None` when the record's path does not resolve to a file
/// inside `destination`.
pub open spec fn record_steps(
    record: RecordModel,
    destination: PathModel,
    apply_modes: bool,
    windows_paths: bool,
) -> Option<Seq<ActionModel>> {
    match resolved_components(record.relative_path, windows_paths) {
        None => None,
        Some(names) => {
            let file = destination.join_all(names);
            let writes = seq![
                ActionModel::CreateDirs { dir: file.parent() },
                ActionModel::CreateFile { file },
                ActionModel::WriteData { file, content: record.content },
            ];
            if apply_modes {
                Some(writes.push(ActionModel::SetMode { file, mode: record.mode_bits }))
            } else {
                Some(writes)
            }
        },
    }
}

/// Every step of a record touches a path below the destination or, for the
/// directories, the destination itself; and the file is the same in all of
/// them.
pub proof fn lemma_record_steps_stay_inside(
    record: RecordModel,
    destination: PathModel,
    apply_modes: bool,
    windows_paths: bool,
)
    requires
        record_steps(record, destination, apply_modes, windows_paths) is Some,
    ensures
        ({
            let steps = record_steps(record, destination, apply_modes, windows_paths)->0;
            let file = destination.join_all(
                resolved_components(record.relative_path, windows_paths)->0,
            );
            &&& file.is_below(destination)
            &&& steps.len() == if apply_modes { 4nat } else { 3nat }
            &&& steps[0] == ActionModel::CreateDirs { dir: file.parent() }
            &&& steps[1] == ActionModel::CreateFile { file }
            &&& steps[2] == ActionModel::WriteData { file, content: record.content }
            &&& apply_modes ==> steps[3] == ActionModel::SetMode { file, mode: record.mode_bits }
        }),
{
    crate::paths::lemma_resolved_path_is_below(destination, record.relative_path, windows_paths);
}

/// A record whose path is plain names with `/` between them is written to
/// the destination joined with that path: its directories are made down to
/// the last name but one, its file is the destination with all the names
/// entered, and that file written out is the destination, a `/`, and the
/// path as the archive holds it.
pub proof fn lemma_record_lands_at_its_path(
    record: RecordModel,
    destination: PathModel,
    apply_modes: bool,
    windows_paths: bool,
    names: Seq<Seq<char>>,
)
    requires
        names.len() > 0,
        forall|i: int| 0 <= i < names.len() ==> is_plain_name(#[trigger] names[i], windows_paths),
        record.relative_path == joined(names),
    ensures
        ({
            let file = destination.join_all(names);
            &&& record_steps(record, destination, apply_modes, windows_paths) matches Some(steps)
            &&& steps[0] == ActionModel::CreateDirs { dir: destination.join_all(names.drop_last()) }
            &&& steps[1] == ActionModel::CreateFile { file }
            &&& steps[2] == ActionModel::WriteData { file, content: record.content }
            &&& file.text() == destination.text() + seq!['/'] + record.relative_path
        }),
{
    crate::paths::lemma_plain_path_resolves_to_its_names(names, windows_paths);
    crate::paths::lemma_text_below_directory(destination, names);
    let file = destination.join_all(names);
    assert(file.parent() == destination.join_all(names.drop_last())) by {
        assert(file.segments.drop_last() =~= destination.segments + names.drop_last());
    }
}

/// The steps that write `record` below `destination_path`; see
/// [`record_steps`]. A record whose path leaves the directory is refused with
/// `ExtractInvalidInstallDir`. `apply_modes` says whether the host has
/// permission bits to set, `windows_paths` whether it reads paths as Windows
/// does.
pub fn write_payload_file(
    record: &ArchiveRecord,
    destination_path: &InstallPath,
    apply_modes: bool,
    windows_paths: bool,
) -> (steps: Result<Vec<FsAction>, WrapperError>)
    ensures
        match steps {
            Ok(list) => record_steps(
                record@,
                destination_path@,
                apply_modes,
                windows_paths,
            ) == Some(action_models(list@)),
            Err(error) => error@ == ErrorModel::ExtractInvalidInstallDir && record_steps(
                record@,
                destination_path@,
                apply_modes,
                windows_paths,
            ) is None,
        },
{
    let names = match resolve_relative(record.relative_path.as_str(), windows_paths) {
        Some(names) => names,
        None => { return Err(WrapperError::ExtractInvalidInstallDir); },
    };
    let ghost entered = texts(names@);
    let mut file = destination_path.clone();
    let count: usize = names.len();
    let mut i: usize = 0;
    while i < count
        invariant
            count == names@.len(),
            i <= count,
            entered == texts(names@),
            file@ == destination_path@.join_all(entered.take(i as int)),
        decreases count - i,
    {
        file.push(names[i].clone());
        assert(file@.segments =~= destination_path@.segments + entered.take(i + 1));
        i += 1;
    }
    assert(entered.take(count as int) =~= entered);
    let dir = match file.parent() {
        Some(dir) => dir,
        None => { return Err(WrapperError::ExtractInvalidInstallDir); },
    };
    let mut list: Vec<FsAction> = Vec::new();
    list.push(FsAction::CreateDirs { dir });
    list.push(FsAction::CreateFile { file: file.clone() });
    list.push(FsAction::WriteData { file: file.clone(), content: record.content.clone() });
    if apply_modes {
        list.push(FsAction::SetMode { file, mode: record.mode_bits });
    }
    assert(action_models(list@) =~= record_steps(
        record@,
        destination_path@,
        apply_modes,
        windows_paths,
    )->0);
    Ok(list)
}

/// Where an installation stands.
pub enum InstallStatus {
    /// The host holds step `step` of record `record` and has not answered yet.
    Writing { record: nat, step: nat },
    /// Every record has been written.
    Finished,
    /// The installation was given up.
    Failed(ErrorModel),
}

/// The mathematical value of an [`Installer`].
pub struct InstallerModel {
    /// The directory that the archive is unpacked into.
    pub destination: PathModel,
    pub archive: Seq<RecordModel>,
    /// Whether the host has permission bits to set.
    pub apply_modes: bool,
    /// Whether the host reads paths as Windows does.
    pub windows_paths: bool,
    pub status: InstallStatus,
}

impl InstallerModel {
    /// The steps that write record `record`.
    pub open spec fn steps_of(self, record: nat) -> Option<Seq<ActionModel>> {
        record_steps(
            self.archive[record as int],
            self.destination,
            self.apply_modes,
            self.windows_paths,
        )
    }

    /// A step in hand is a step of a record of the archive.
    pub open spec fn wf(self) -> bool {
        self.status matches InstallStatus::Writing { record, step } ==> {
            &&& record < self.archive.len()
            &&& self.steps_of(record) is Some
            &&& step < self.steps_of(record)->0.len()
        }
    }

    /// The status on turning to record `record`: done behind the last one,
    /// given up where the record's path leaves the destination, else at the
    /// record's first step.
    pub open spec fn turn_to(self, record: nat) -> InstallStatus {
        if record >= self.archive.len() {
            InstallStatus::Finished
        } else if self.steps_of(record) is None {
            InstallStatus::Failed(ErrorModel::ExtractInvalidInstallDir)
        } else {
            InstallStatus::Writing { record, step: 0 }
        }
    }

    /// An installation of `archive` into `destination`, at its start.
    pub open spec fn start(
        archive: Seq<RecordModel>,
        destination: PathModel,
        apply_modes: bool,
        windows_paths: bool,
    ) -> InstallerModel {
        let idle = InstallerModel {
            destination,
            archive,
            apply_modes,
            windows_paths,
            status: InstallStatus::Finished,
        };
        InstallerModel { status: idle.turn_to(0), ..idle }
    }

    /// The step that the host is to perform, if the installation is under way.
    pub open spec fn action(self) -> Option<ActionModel> {
        match self.status {
            InstallStatus::Writing { record, step } => Some(
                self.steps_of(record)->0[step as int],
            ),
            _ => None,
        }
    }

    /// The installation after the host reported `outcome` for the step in
    /// hand. A failure ends it with the step's error. After the last step of a
    /// record the next record is turned to. An installation that is over
    /// stays as it is.
    pub open spec fn after(self, outcome: OutcomeModel) -> InstallerModel {
        match self.status {
            InstallStatus::Writing { record, step } => match outcome {
                OutcomeModel::Failed(cause) => InstallerModel {
                    status: InstallStatus::Failed(self.action()->0.failure(cause)),
                    ..self
                },
                OutcomeModel::Done => if step + 1 < self.steps_of(record)->0.len() {
                    InstallerModel {
                        status: InstallStatus::Writing { record, step: step + 1 },
                        ..self
                    }
                } else {
                    InstallerModel { status: self.turn_to(record + 1), ..self }
                },
            },
            _ => self,
        }
    }
}

/// An installation keeps to the records of its archive: it starts well-formed
/// and stays so whatever the host reports.
pub proof fn lemma_installer_stays_well_formed(installer: InstallerModel, outcome: OutcomeModel)
    requires
        installer.wf(),
    ensures
        InstallerModel::start(
            installer.archive,
            installer.destination,
            installer.apply_modes,
            installer.windows_paths,
        ).wf(),
        installer.after(outcome).wf(),
{
}

/// Records are written in the order of the archive, each by its steps in
/// order: after a step that went well the installer stands at the next step
/// of the same record or at the first step of the next record, and never
/// turns back.
pub proof fn lemma_installer_moves_forward(installer: InstallerModel)
    requires
        installer.wf(),
        installer.status is Writing,
    ensures
        ({
            let next = installer.after(OutcomeModel::Done);
            let record = installer.status->record;
            let step = installer.status->step;
            match next.status {
                InstallStatus::Writing { record: r, step: s } => {
                    ||| r == record && s == step + 1
                    ||| r == record + 1 && s == 0 && step + 1 == installer.steps_of(
                        record,
                    )->0.len()
                },
                InstallStatus::Finished => record + 1 == installer.archive.len(),
                InstallStatus::Failed(error) => {
                    &&& error == ErrorModel::ExtractInvalidInstallDir
                    &&& record + 1 < installer.archive.len()
                    &&& installer.steps_of(record + 1) is None
                },
            }
        }),
{
}

/// The first failure ends the installation: a failed step leaves no step in
/// hand, and nothing that the host reports afterwards brings one back.
pub proof fn lemma_failure_is_final(
    installer: InstallerModel,
    cause: Seq<char>,
    later: OutcomeModel,
)
    requires
        installer.status is Writing,
    ensures
        installer.after(OutcomeModel::Failed(cause)).status == InstallStatus::Failed(
            installer.action()->0.failure(cause),
        ),
        installer.after(OutcomeModel::Failed(cause)).action() is None,
        installer.after(OutcomeModel::Failed(cause)).after(later) == installer.after(
            OutcomeModel::Failed(cause),
        ),
{
}

/// The steps that write the records of `archive` from `record` on, one
/// record after the other.
pub open spec fn script(
    archive: Seq<RecordModel>,
    destination: PathModel,
    apply_modes: bool,
    windows_paths: bool,
    record: nat,
) -> Seq<ActionModel>
    decreases archive.len() - record,
{
    if record >= archive.len() {
        Seq::empty()
    } else {
        record_steps(archive[record as int], destination, apply_modes, windows_paths)->0 + script(
            archive,
            destination,
            apply_modes,
            windows_paths,
            record + 1,
        )
    }
}

impl InstallerModel {
    /// Whether every record of the archive names a file inside the
    /// destination.
    pub open spec fn all_records_resolve(self) -> bool {
        forall|record: nat|
            record < self.archive.len() ==> (#[trigger] self.steps_of(record)) is Some
    }

    /// The steps of the records from `record` on, in order.
    pub open spec fn script_from(self, record: nat) -> Seq<ActionModel> {
        script(self.archive, self.destination, self.apply_modes, self.windows_paths, record)
    }

    /// The steps that are still to be done, the one in hand first.
    spec fn remaining(self) -> Seq<ActionModel> {
        match self.status {
            InstallStatus::Writing { record, step } => self.steps_of(record)->0.skip(step as int)
                + self.script_from(record + 1),
            _ => Seq::empty(),
        }
    }

    /// The installation after `count` steps that all went well.
    pub open spec fn after_done(self, count: nat) -> InstallerModel
        decreases count,
    {
        if count == 0 {
            self
        } else {
            self.after_done((count - 1) as nat).after(OutcomeModel::Done)
        }
    }
}

proof fn lemma_step_done(installer: InstallerModel)
    requires
        installer.wf(),
        installer.all_records_resolve(),
        !(installer.status is Failed),
    ensures
        installer.after(OutcomeModel::Done).wf(),
        installer.after(OutcomeModel::Done).all_records_resolve(),
        !(installer.after(OutcomeModel::Done).status is Failed),
        installer.status is Writing <==> installer.remaining().len() > 0,
        installer.status is Writing ==> installer.action() == Some(installer.remaining()[0]),
        installer.status is Writing ==> installer.after(OutcomeModel::Done).remaining()
            == installer.remaining().skip(1),
        installer.status is Finished ==> installer.after(OutcomeModel::Done) == installer,
{
    let next = installer.after(OutcomeModel::Done);
    assert(next.all_records_resolve()) by {
        assert forall|record: nat| record < next.archive.len() implies (#[trigger] next.steps_of(
            record,
        )) is Some by {
            assert(installer.steps_of(record) is Some);
        }
    }
    match installer.status {
        InstallStatus::Writing { record, step } => {
            let steps = installer.steps_of(record)->0;
            let behind = installer.script_from(record + 1);
            if step + 1 < steps.len() {
                assert(next.remaining() =~= installer.remaining().skip(1));
            } else {
                if record + 1 < installer.archive.len() {
                    assert(installer.steps_of(record + 1) is Some);
                    lemma_record_has_steps(installer, record + 1);
                    let first = installer.steps_of(record + 1)->0;
                    assert(first.skip(0) =~= first);
                    assert(next.remaining() =~= behind);
                } else {
                    assert(behind =~= Seq::empty());
                }
                assert(steps.skip(step as int).len() == 1);
                assert(installer.remaining().skip(1) =~= behind);
            }
        },
        _ => {},
    }
}

proof fn lemma_record_has_steps(installer: InstallerModel, record: nat)
    requires
        installer.steps_of(record) is Some,
    ensures
        installer.steps_of(record)->0.len() >= 3,
{
}

proof fn lemma_steps_done(installer: InstallerModel, count: nat)
    requires
        installer.wf(),
        installer.all_records_resolve(),
        !(installer.status is Failed),
    ensures
        installer.after_done(count).wf(),
        installer.after_done(count).all_records_resolve(),
        !(installer.after_done(count).status is Failed),
        count <= installer.remaining().len() ==> installer.after_done(count).remaining()
            == installer.remaining().skip(count as int),
        count > installer.remaining().len() ==> installer.after_done(count).remaining().len() == 0,
    decreases count,
{
    if count == 0 {
        assert(installer.remaining().skip(0) =~= installer.remaining());
    } else {
        let before = installer.after_done((count - 1) as nat);
        lemma_steps_done(installer, (count - 1) as nat);
        lemma_step_done(before);
        if count <= installer.remaining().len() {
            assert(installer.remaining().skip(count - 1).skip(1) =~= installer.remaining().skip(
                count as int,
            ));
        }
    }
}

/// An installation that nothing disturbs performs the steps of its records,
/// record by record in the order of the archive, and is finished after the
/// last step: where every record names a file inside the destination and
/// every step goes well, step number `count` is step number `count` of the
/// whole script, and behind the script the installation is finished.
pub proof fn lemma_undisturbed_installation(
    archive: Seq<RecordModel>,
    destination: PathModel,
    apply_modes: bool,
    windows_paths: bool,
    count: nat,
)
    requires
        InstallerModel::start(
            archive,
            destination,
            apply_modes,
            windows_paths,
        ).all_records_resolve(),
    ensures
        ({
            let installer = InstallerModel::start(archive, destination, apply_modes, windows_paths);
            let script = installer.script_from(0);
            &&& count < script.len() ==> installer.after_done(count).action() == Some(
                script[count as int],
            )
            &&& count >= script.len() ==> installer.after_done(count).status is Finished
        }),
{
    let installer = InstallerModel::start(archive, destination, apply_modes, windows_paths);
    let script = installer.script_from(0);
    assert(installer.remaining() =~= script) by {
        if archive.len() > 0 {
            assert(installer.steps_of(0) is Some);
            let first = installer.steps_of(0)->0;
            assert(first.skip(0) =~= first);
        }
    }
    lemma_steps_done(installer, count);
    lemma_step_done(installer.after_done(count));
}

/// How far an installation has come.
enum Progress {
    Writing { record: usize, step: usize },
    Finished,
    Failed(WrapperError),
}

/// An installation of an archive into a directory, one step at a time.
pub struct Installer {
    destination: InstallPath,
    archive: Archive,
    apply_modes: bool,
    windows_paths: bool,
    progress: Progress,
    /// The steps of the record that is being written.
    steps: Vec<FsAction>,
}

/// The steps kept for the record in hand are no part of the value: they are
/// the steps of that record, and so follow from the rest.
impl View for Installer {
    type V = InstallerModel;

    closed spec fn view(&self) -> InstallerModel {
        InstallerModel {
            destination: self.destination@,
            archive: self.archive@,
            apply_modes: self.apply_modes,
            windows_paths: self.windows_paths,
            status: match self.progress {
                Progress::Writing { record, step } => InstallStatus::Writing {
                    record: record as nat,
                    step: step as nat,
                },
                Progress::Finished => InstallStatus::Finished,
                Progress::Failed(error) => InstallStatus::Failed(error@),
            },
        }
    }
}

impl Installer {
    #[verifier::type_invariant]
    spec fn holds_current_steps(self) -> bool {
        self.progress matches Progress::Writing { record, step } ==> {
            &&& record < self.archive.records@.len()
            &&& record_steps(
                self.archive@[record as int],
                self.destination@,
                self.apply_modes,
                self.windows_paths,
            ) == Some(action_models(self.steps@))
            &&& step < self.steps@.len()
        }
    }

    /// Starts to install `archive` into `destination`. With `apply_modes` the
    /// permission bits of each file are set; without, that step is left out.
    /// With `windows_paths` the paths of the records are parted as Windows
    /// parts them.
    pub fn new(
        archive: Archive,
        destination: InstallPath,
        apply_modes: bool,
        windows_paths: bool,
    ) -> (installer: Installer)
        ensures
            installer@ == InstallerModel::start(
                archive@,
                destination@,
                apply_modes,
                windows_paths,
            ),
            installer@.wf(),
    {
        let mut installer = Installer {
            destination,
            archive,
            apply_modes,
            windows_paths,
            progress: Progress::Finished,
            steps: Vec::new(),
        };
        installer.turn_to(0);
        installer
    }

    /// Turns to record `record`, or finishes where there is none.
    fn turn_to(&mut self, record: usize)
        requires
            !(old(self).progress is Writing),
        ensures
            final(self)@ == (InstallerModel {
                status: old(self)@.turn_to(record as nat),
                ..old(self)@
            }),
            final(self)@.wf(),
    {
        if record >= self.archive.records.len() {
            self.progress = Progress::Finished;
        } else {
            match write_payload_file(
                &self.archive.records[record],
                &self.destination,
                self.apply_modes,
                self.windows_paths,
            ) {
                Ok(steps) => {
                    assert(self.archive@[record as int] == self.archive.records@[record as int]@);
                    assert(action_models(steps@).len() >= 3);
                    self.steps = steps;
                    self.progress = Progress::Writing { record, step: 0 };
                },
                Err(error) => {
                    self.progress = Progress::Failed(error);
                },
            }
        }
    }

    /// The step that the host is to perform now; `None` when the installation
    /// is over.
    pub fn action(&self) -> (action: Option<FsAction>)
        ensures
            match action {
                Some(step) => self@.action() == Some(step@),
                None => self@.action() is None,
            },
    {
        proof {
            use_type_invariant(self);
        }
        match &self.progress {
            Progress::Writing { record, step } => Some(self.steps[*step].clone()),
            _ => None,
        }
    }

    /// Whether every record has been written.
    pub fn is_finished(&self) -> (finished: bool)
        ensures
            finished == (self@.status is Finished),
    {
        match &self.progress {
            Progress::Finished => true,
            _ => false,
        }
    }

    /// The error that ended the installation, if one did.
    pub fn failure(&self) -> (failure: Option<WrapperError>)
        ensures
            match failure {
                Some(error) => self@.status == InstallStatus::Failed(error@),
                None => !(self@.status is Failed),
            },
    {
        match &self.progress {
            Progress::Failed(error) => Some(error.clone()),
            _ => None,
        }
    }

    /// Takes the host's report on the step in hand; see
    /// [`InstallerModel::after`].
    pub fn advance(&mut self, outcome: FsOutcome)
        ensures
            final(self)@ == old(self)@.after(outcome@),
            final(self)@.wf(),
    {
        proof {
            use_type_invariant(&*self);
        }
        let (record, step) = match &self.progress {
            Progress::Writing { record, step } => (*record, *step),
            _ => { return ; },
        };
        match outcome {
            FsOutcome::Failed(cause) => {
                let error = self.steps[step].failure(cause);
                self.progress = Progress::Failed(error);
            },
            FsOutcome::Done => {
                if step + 1 < self.steps.len() {
                    self.progress = Progress::Writing { record, step: step + 1 };
                } else {
                    let total: usize = self.archive.records.len();
                    assert(record < total);
                    self.progress = Progress::Finished;
                    self.turn_to(record + 1);
                }
            },
        }
    }
}

} // verus!
