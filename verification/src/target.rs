//! Where the application is installed.
//!
//! The base directory is the user's override, or else the per-user data
//! directory of the platform, with the installer's own directory below it.
//! The release then gets a directory of its own there, named after the
//! release and both versions, so that each build is unpacked once and builds
//! of different versions stay apart.

use vstd::prelude::*;
use vstd::string::StringExecFns;
use crate::errors::{ErrorModel, WrapperError};
use crate::metadata::{MetadataModel, ReleaseMetadata};
use crate::paths::{InstallPath, PathModel};

verus! {

/// The directory, below the base, that holds everything this installer
/// unpacks.
pub const INSTALL_SUFFIX: &'static str = ".burrito";

/// The name of the environment variable that overrides the base directory of
/// the release called `release_name`.
pub open spec fn override_variable(release_name: Seq<char>) -> Seq<char> {
    release_name + "_INSTALL_PATH"@
}

/// The name of the environment variable that overrides the base directory.
pub fn install_path_variable(release_name: &str) -> (name: String)
    ensures
        name@ == override_variable(release_name@),
{
    let mut name = String::from_str(release_name);
    name.append("_INSTALL_PATH");
    name
}

/// The base directory: below the override where one is set to a non-empty
/// value, else below the platform's data directory, and nowhere without
/// either.
pub open spec fn base_dir_of(env_override: Option<Seq<char>>, data_dir: Option<Seq<char>>)
    -> Option<PathModel> {
    if env_override is Some && env_override->0.len() > 0 {
        Some(PathModel { root: env_override->0, segments: seq![INSTALL_SUFFIX@] })
    } else if data_dir is Some {
        Some(PathModel { root: data_dir->0, segments: seq![INSTALL_SUFFIX@] })
    } else {
        None
    }
}

/// An override that is set decides the base directory, whatever the platform
/// offers.
pub proof fn lemma_override_takes_precedence(
    env_override: Seq<char>,
    data_dir: Option<Seq<char>>,
    other_data_dir: Option<Seq<char>>,
)
    requires
        env_override.len() > 0,
    ensures
        base_dir_of(Some(env_override), data_dir) == Some(
            PathModel { root: env_override, segments: seq![INSTALL_SUFFIX@] },
        ),
        base_dir_of(Some(env_override), data_dir) == base_dir_of(
            Some(env_override),
            other_data_dir,
        ),
{
}

/// The value of an optional string.
pub open spec fn text_of(value: Option<String>) -> Option<Seq<char>> {
    match value {
        Some(text) => Some(text@),
        None => None,
    }
}

/// Computes the base directory from the value of the override variable, if it
/// is set, and the platform's per-user data directory, if there is one.
pub fn get_base_install_dir(env_override: Option<String>, data_dir: Option<String>) -> (base:
    Result<InstallPath, WrapperError>)
    ensures
        match base {
            Ok(dir) => base_dir_of(text_of(env_override), text_of(data_dir)) == Some(dir@),
            Err(error) => error@ == ErrorModel::CannotComputeInstallDir && base_dir_of(
                text_of(env_override),
                text_of(data_dir),
            ) is None,
        },
{
    let root = match env_override {
        Some(value) => if value.as_str().is_empty() {
            data_dir
        } else {
            Some(value)
        },
        None => data_dir,
    };
    match root {
        Some(root) => {
            let mut dir = InstallPath::new(root);
            dir.push(String::from_str(INSTALL_SUFFIX));
            assert(dir@.segments =~= seq![INSTALL_SUFFIX@]);
            Ok(dir)
        },
        None => Err(WrapperError::CannotComputeInstallDir),
    }
}

/// The name of the directory of one build of a release:
/// `<release_name>_erts-<runtime_version>_<app_version>`.
pub open spec fn versioned_segment(release_name: Seq<char>, metadata: MetadataModel) -> Seq<char> {
    release_name + "_erts-"@ + metadata.runtime_version + "_"@ + metadata.app_version
}

/// A text is cut at its first `mark` in one way only.
proof fn lemma_cut_at_mark(
    front: Seq<char>,
    back: Seq<char>,
    other_front: Seq<char>,
    other_back: Seq<char>,
    mark: char,
)
    requires
        !front.contains(mark),
        !other_front.contains(mark),
        front + seq![mark] + back == other_front + seq![mark] + other_back,
    ensures
        front == other_front,
        back == other_back,
{
    let whole = front + seq![mark] + back;
    let other_whole = other_front + seq![mark] + other_back;
    let n = front.len() as int;
    let m = other_front.len() as int;
    assert(whole[n] == mark);
    assert(other_whole[m] == mark);
    if n < m {
        assert(other_whole[n] == other_front[n]);
        assert(other_front.contains(other_front[n]));
    }
    if m < n {
        assert(whole[m] == front[m]);
        assert(front.contains(front[m]));
    }
    assert(n == m);
    assert(front =~= whole.take(n));
    assert(other_front =~= other_whole.take(m));
    assert(back =~= whole.skip(n + 1));
    assert(other_back =~= other_whole.skip(m + 1));
}

/// Two builds of one release share a directory only if they agree in both
/// versions, as long as neither runtime version holds a `_`.
pub proof fn lemma_versions_keep_apart(
    release_name: Seq<char>,
    one: MetadataModel,
    other: MetadataModel,
)
    requires
        !one.runtime_version.contains('_'),
        !other.runtime_version.contains('_'),
        versioned_segment(release_name, one) == versioned_segment(release_name, other),
    ensures
        one == other,
{
    let head = release_name + "_erts-"@;
    let mark = seq!['_'];
    let a = one.runtime_version + mark + one.app_version;
    let b = other.runtime_version + mark + other.app_version;
    assert("_"@ =~= mark) by {
        reveal_strlit("_");
    }
    assert(versioned_segment(release_name, one) =~= head + a);
    assert(versioned_segment(release_name, other) =~= head + b);
    assert(a =~= (head + a).skip(head.len() as int));
    assert(b =~= (head + b).skip(head.len() as int));
    lemma_cut_at_mark(
        one.runtime_version,
        one.app_version,
        other.runtime_version,
        other.app_version,
        '_',
    );
}

/// Enters the directory of this build below the base directory.
pub fn push_final_install_dir(
    base_install_dir: &mut InstallPath,
    release_name: &str,
    release_meta: &ReleaseMetadata,
)
    ensures
        final(base_install_dir)@ == old(base_install_dir)@.join(
            versioned_segment(release_name@, release_meta@),
        ),
{
    let mut name = String::from_str(release_name);
    name.append("_erts-");
    name.append(release_meta.runtime_version().as_str());
    name.append("_");
    name.append(release_meta.app_version().as_str());
    base_install_dir.push(name);
}

/// Whether the archive has to be unpacked: it has to where the directory of
/// this build does not exist yet. Its existence is the only mark of an
/// installation; what the directory holds is not looked at.
pub fn determine_needs_install(install_dir_exists: bool) -> (needed: bool)
    ensures
        needed == !install_dir_exists,
{
    !install_dir_exists
}

/// The two directories of an installation.
#[derive(Debug, PartialEq, Eq)]
pub struct InstallTarget {
    /// The directory that holds the builds of every release.
    pub base_dir: InstallPath,
    /// The directory of this build.
    pub versioned_dir: InstallPath,
}

/// The mathematical value of an [`InstallTarget`].
pub struct TargetModel {
    pub base_dir: PathModel,
    pub versioned_dir: PathModel,
}

impl View for InstallTarget {
    type V = TargetModel;

    open spec fn view(&self) -> TargetModel {
        TargetModel { base_dir: self.base_dir@, versioned_dir: self.versioned_dir@ }
    }
}

/// The directories that a build is installed to, given the override and the
/// platform's data directory.
pub open spec fn install_target_of(
    release_name: Seq<char>,
    metadata: MetadataModel,
    env_override: Option<Seq<char>>,
    data_dir: Option<Seq<char>>,
) -> Option<TargetModel> {
    match base_dir_of(env_override, data_dir) {
        Some(base_dir) => Some(
            TargetModel {
                base_dir,
                versioned_dir: base_dir.join(versioned_segment(release_name, metadata)),
            },
        ),
        None => None,
    }
}

/// Resolves both directories of an installation.
pub fn resolve_install_target(
    release_name: &str,
    release_meta: &ReleaseMetadata,
    env_override: Option<String>,
    data_dir: Option<String>,
) -> (target: Result<InstallTarget, WrapperError>)
    ensures
        match target {
            Ok(found) => install_target_of(
                release_name@,
                release_meta@,
                text_of(env_override),
                text_of(data_dir),
            ) == Some(found@),
            Err(error) => error@ == ErrorModel::CannotComputeInstallDir && install_target_of(
                release_name@,
                release_meta@,
                text_of(env_override),
                text_of(data_dir),
            ) is None,
        },
{
    let base_dir = match get_base_install_dir(env_override, data_dir) {
        Ok(dir) => dir,
        Err(error) => { return Err(error); },
    };
    let mut versioned_dir = base_dir.clone();
    push_final_install_dir(&mut versioned_dir, release_name, release_meta);
    Ok(InstallTarget { base_dir, versioned_dir })
}

} // verus!
