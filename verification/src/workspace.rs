//! The isolated directory of one updater run.
use vstd::prelude::*;

use crate::failure::IoFailure;
use crate::paths;
use crate::text;

verus! {

/// A caller-chosen, isolated directory for one updater run.
#[derive(Clone, Debug, PartialEq, Eq)]
pub struct RunWorkspace {
    root: String,
}

/// Temporary paths reserved for one MCU firmware build.
#[derive(Clone, Debug, PartialEq, Eq)]
pub struct WorkspaceBuildPaths {
    /// Klipper's generated Kconfig path.
    pub config_path: String,
    /// Destination for the copied firmware artifact.
    pub artifact_path: String,
}

/// The directories of one MCU's build, in the order in which they are created.
#[derive(Clone, Debug, PartialEq, Eq)]
pub struct TargetDirectories {
    /// The directory of Klipper's generated Kconfig.
    pub config_dir: String,
    /// The directory of the firmware artifact.
    pub artifact_dir: String,
}

/// The directory of a build that could not be created; none is created after it.
#[derive(Clone, Debug, PartialEq, Eq)]
pub enum DirectoryFailure {
    /// The directory of Klipper's generated Kconfig.
    Config(IoFailure),
    /// The directory of the firmware artifact.
    Artifact(IoFailure),
}

/// Failure while creating an isolated run workspace.
#[derive(Clone, Debug, PartialEq, Eq)]
pub enum WorkspaceError {
    /// The requested run directory already exists.
    AlreadyExists(String),
    /// The host filesystem operation failed.
    Io {
        /// The operation being attempted.
        action: &'static str,
        /// The underlying failure.
        source: IoFailure,
    },
    /// The selected MCU name cannot identify a workspace target.
    EmptyTargetName,
}

impl WorkspaceError {
    /// The wording of this error.
    pub open spec fn text(self) -> Seq<char> {
        match self {
            WorkspaceError::AlreadyExists(path) => "run workspace "@ + path@
                + " already exists; choose a new per-run directory"@,
            WorkspaceError::Io { action, source } => "could not "@ + action@,
            WorkspaceError::EmptyTargetName => "MCU target name must not be empty"@,
        }
    }

    /// The wording of this error and of each of its causes.
    pub open spec fn chain(self) -> Seq<Seq<char>> {
        match self {
            WorkspaceError::Io { action, source } => seq![self.text(), source.message@],
            _ => seq![self.text()],
        }
    }

    /// The wording of this error.
    pub fn message(&self) -> (message: String)
        ensures
            message@ == self.text(),
    {
        match self {
            WorkspaceError::AlreadyExists(path) => {
                let mut message: String = "run workspace ".to_owned();
                message.append(path.as_str());
                message.append(" already exists; choose a new per-run directory");
                message
            },
            WorkspaceError::Io { action, .. } => {
                let mut message: String = "could not ".to_owned();
                message.append(*action);
                message
            },
            WorkspaceError::EmptyTargetName => "MCU target name must not be empty".to_owned(),
        }
    }

    /// Appends the wording of this error and of each of its causes.
    pub fn append_chain(&self, messages: &mut Vec<String>)
        ensures
            text::texts(final(messages)@) == text::texts(old(messages)@) + self.chain(),
    {
        messages.push(self.message());
        if let WorkspaceError::Io { source, .. } = self {
            messages.push(source.message.clone());
        }
        assert(text::texts(messages@) =~= text::texts(old(messages)@) + self.chain());
    }
}

impl DirectoryFailure {
    /// The error that a build's preparation ends with.
    pub open spec fn error(self) -> WorkspaceError {
        match self {
            DirectoryFailure::Config(source) => WorkspaceError::Io {
                action: "create the target configuration directory",
                source,
            },
            DirectoryFailure::Artifact(source) => WorkspaceError::Io {
                action: "create the artifact directory",
                source,
            },
        }
    }

    /// The error that a build's preparation ends with.
    pub fn into_error(self) -> (error: WorkspaceError)
        ensures
            error == self.error(),
    {
        match self {
            DirectoryFailure::Config(source) => WorkspaceError::Io {
                action: "create the target configuration directory",
                source,
            },
            DirectoryFailure::Artifact(source) => WorkspaceError::Io {
                action: "create the artifact directory",
                source,
            },
        }
    }
}

/// Why no paths can be reserved for an MCU, where `created` is what came of creating its
/// directories; none where they can.
pub open spec fn reservation_failure(
    target_name: Seq<char>,
    created: Result<(), DirectoryFailure>,
) -> Option<WorkspaceError> {
    if target_name.len() == 0 {
        Some(WorkspaceError::EmptyTargetName)
    } else {
        match created {
            Ok(_) => None,
            Err(failure) => Some(failure.error()),
        }
    }
}

/// Two hexadecimal digits for every byte, the high one first.
pub open spec fn hex_bytes(bytes: Seq<u8>) -> Seq<char> {
    Seq::new(
        2 * bytes.len(),
        |i: int|
            text::digit_char(
                if i % 2 == 0 {
                    (bytes[i / 2] / 16) as nat
                } else {
                    (bytes[i / 2] % 16) as nat
                },
            ),
    )
}

/// The directory name that stands for an MCU: its name's UTF-8 bytes in hexadecimal.
pub open spec fn target_id(name: Seq<char>) -> Seq<char> {
    hex_bytes(vstd::utf8::encode_utf8(name))
}

fn hex_name(name: &str) -> (id: String)
    ensures
        id@ == target_id(name@),
{
    let bytes: &[u8] = name.as_bytes();
    let mut id: String = String::new();
    let mut i: usize = 0;
    assert(id@ =~= hex_bytes(bytes@.take(0)));
    while i < bytes.len()
        invariant
            i <= bytes@.len(),
            id@ == hex_bytes(bytes@.take(i as int)),
        decreases bytes@.len() - i,
    {
        let digits: String = text::hexadecimal_text((bytes[i] / 16) as u64);
        let low: String = text::hexadecimal_text((bytes[i] % 16) as u64);
        let ghost before = id@;
        id.append(digits.as_str());
        id.append(low.as_str());
        proof {
            let longer = hex_bytes(bytes@.take(i + 1));
            assert forall|k: int| 0 <= k < longer.len() implies #[trigger] longer[k] == id@[k] by {
                if k < 2 * i {
                    assert(longer[k] == before[k]);
                }
            }
            assert(id@ =~= longer);
        }
        i += 1;
    }
    assert(bytes@.take(bytes@.len() as int) =~= bytes@);
    id
}

/// The paths of one MCU's build below a workspace.
pub open spec fn target_path(root: Seq<char>, area: Seq<char>, name: Seq<char>) -> Seq<char> {
    paths::joined_path(paths::joined_path(root, area), target_id(name))
}

impl RunWorkspace {
    /// The workspace root.
    pub closed spec fn path(&self) -> Seq<char> {
        self.root@
    }

    /// Claims a previously unused directory as the workspace. On success the caller creates the
    /// directory and hands what came of it to [`Self::after_creation`].
    pub fn create(root: String, exists: bool) -> (workspace: Result<Self, WorkspaceError>)
        ensures
            match workspace {
                Ok(workspace) => !exists && workspace.path() == root@,
                Err(error) => exists && error == WorkspaceError::AlreadyExists(root),
            },
    {
        if exists {
            return Err(WorkspaceError::AlreadyExists(root));
        }
        Ok(RunWorkspace { root })
    }

    /// The claimed workspace, where `created` is what came of creating its directory.
    pub fn after_creation(self, created: Result<(), IoFailure>) -> (workspace: Result<
        Self,
        WorkspaceError,
    >)
        ensures
            match workspace {
                Ok(workspace) => created is Ok && workspace == self,
                Err(error) => created is Err && error == (WorkspaceError::Io {
                    action: "create the run workspace",
                    source: created->Err_0,
                }),
            },
    {
        match created {
            Ok(_) => Ok(self),
            Err(source) => Err(WorkspaceError::Io { action: "create the run workspace", source }),
        }
    }

    /// Wraps a directory the caller already created uniquely and atomically
    /// (e.g. via `tempfile`'s `mkdtemp`), skipping [`Self::create`]'s
    /// pre-existence check since it would always fail here.
    pub fn adopt(root: String) -> (workspace: Self)
        ensures
            workspace.path() == root@,
    {
        RunWorkspace { root }
    }

    /// Returns the workspace root retained for this run's artifacts and logs.
    pub fn root(&self) -> (root: &str)
        ensures
            root@ == self.path(),
    {
        self.root.as_str()
    }

    /// The directories that are to be created before paths are reserved for `target_name`.
    pub fn target_directories(&self, target_name: &str) -> (directories: Result<
        TargetDirectories,
        WorkspaceError,
    >)
        ensures
            match directories {
                Ok(directories) => {
                    &&& target_name@.len() > 0
                    &&& directories.config_dir@ == target_path(
                        self.path(),
                        "targets"@,
                        target_name@,
                    )
                    &&& directories.artifact_dir@ == target_path(
                        self.path(),
                        "artifacts"@,
                        target_name@,
                    )
                },
                Err(error) => target_name@.len() == 0 && error == WorkspaceError::EmptyTargetName,
            },
    {
        if target_name.unicode_len() == 0 {
            return Err(WorkspaceError::EmptyTargetName);
        }
        let id: String = hex_name(target_name);
        let targets: String = paths::join(self.root.as_str(), "targets");
        let artifacts: String = paths::join(self.root.as_str(), "artifacts");
        let config_dir: String = paths::join(targets.as_str(), id.as_str());
        let artifact_dir: String = paths::join(artifacts.as_str(), id.as_str());
        Ok(TargetDirectories { config_dir, artifact_dir })
    }

    /// Reserves separate generated-config and artifact paths for `target_name`, where `created` is
    /// what came of creating its directories.
    pub fn build_paths(&self, target_name: &str, created: Result<(), DirectoryFailure>) -> (
        reserved: Result<WorkspaceBuildPaths, WorkspaceError>)
        ensures
            match reserved {
                Ok(reserved) => {
                    &&& reservation_failure(target_name@, created) is None
                    &&& reserved.config_path@ == paths::joined_path(
                        target_path(self.path(), "targets"@, target_name@),
                        ".config"@,
                    )
                    &&& reserved.artifact_path@ == paths::joined_path(
                        target_path(self.path(), "artifacts"@, target_name@),
                        "klipper.bin"@,
                    )
                },
                Err(error) => reservation_failure(target_name@, created) == Some(error),
            },
    {
        let directories: TargetDirectories = match self.target_directories(target_name) {
            Ok(directories) => directories,
            Err(error) => {
                return Err(error);
            },
        };
        match created {
            Ok(_) => {
                let config_path: String = paths::join(directories.config_dir.as_str(), ".config");
                let artifact_path: String = paths::join(
                    directories.artifact_dir.as_str(),
                    "klipper.bin",
                );
                Ok(WorkspaceBuildPaths { config_path, artifact_path })
            },
            Err(failure) => Err(failure.into_error()),
        }
    }
}

proof fn lemma_hex_bytes_injective(left: Seq<u8>, right: Seq<u8>)
    requires
        hex_bytes(left) == hex_bytes(right),
    ensures
        left == right,
{
    assert(hex_bytes(left).len() == 2 * left.len());
    assert(hex_bytes(right).len() == 2 * right.len());
    assert forall|i: int| 0 <= i < left.len() implies left[i] == right[i] by {
        let a = hex_bytes(left)[2 * i];
        let b = hex_bytes(left)[2 * i + 1];
        assert(a == hex_bytes(right)[2 * i]);
        assert(b == hex_bytes(right)[2 * i + 1]);
        assert((2 * i) / 2 == i && (2 * i) % 2 == 0);
        assert((2 * i + 1) / 2 == i && (2 * i + 1) % 2 == 1);
        lemma_digit_char_injective((left[i] / 16) as nat, (right[i] / 16) as nat);
        lemma_digit_char_injective((left[i] % 16) as nat, (right[i] % 16) as nat);
    }
    assert(left =~= right);
}

proof fn lemma_digit_char_injective(left: nat, right: nat)
    requires
        left < 16,
        right < 16,
        text::digit_char(left) == text::digit_char(right),
    ensures
        left == right,
{
}

/// Different MCUs never share a directory name: no build overwrites another's files.
pub proof fn law_targets_have_separate_directories(left: Seq<char>, right: Seq<char>)
    requires
        left != right,
    ensures
        target_id(left) != target_id(right),
{
    if target_id(left) == target_id(right) {
        lemma_hex_bytes_injective(
            vstd::utf8::encode_utf8(left),
            vstd::utf8::encode_utf8(right),
        );
        vstd::utf8::encode_utf8_decode_utf8(left);
        vstd::utf8::encode_utf8_decode_utf8(right);
    }
}

/// A directory name made of an MCU's name has no path separator in it, so it stays below the
/// workspace.
pub proof fn law_target_directory_is_one_component(name: Seq<char>, i: int)
    requires
        0 <= i < target_id(name).len(),
    ensures
        target_id(name)[i] != '/',
        target_id(name)[i] != '.',
{
    let bytes = vstd::utf8::encode_utf8(name);
    assert(bytes[i / 2] / 16 < 16 && bytes[i / 2] % 16 < 16);
}

/// The directory of a target is named by the bytes of the target's name, two hexadecimal digits
/// for each, the upper half of the byte first.
pub proof fn law_target_directory_spells_the_name(name: Seq<char>, i: int)
    requires
        0 <= i < vstd::utf8::encode_utf8(name).len(),
    ensures
        ({
            let byte = vstd::utf8::encode_utf8(name)[i];
            let id = target_id(name);
            &&& id.len() == 2 * vstd::utf8::encode_utf8(name).len()
            &&& text::digit_value(id[2 * i], 16) == Some((byte / 16) as nat)
            &&& text::digit_value(id[2 * i + 1], 16) == Some((byte % 16) as nat)
        }),
{
    let byte = vstd::utf8::encode_utf8(name)[i];
    text::law_digits_follow_the_alphabet((byte / 16) as nat);
    text::law_digits_follow_the_alphabet((byte % 16) as nat);
    assert((2 * i) / 2 == i && (2 * i) % 2 == 0);
    assert((2 * i + 1) / 2 == i && (2 * i + 1) % 2 == 1);
}

/// Everything of a target is kept below the workspace, in the directory of its area.
pub proof fn law_target_path_is_below_the_workspace(
    root: Seq<char>,
    area: Seq<char>,
    name: Seq<char>,
)
    requires
        root.len() > 0,
        area.len() > 0,
        area[0] != '/',
        name.len() > 0,
    ensures
        root.is_prefix_of(target_path(root, area, name)),
        paths::joined_path(root, area).is_prefix_of(target_path(root, area, name)),
        target_id(name).is_suffix_of(target_path(root, area, name)),
{
    let id = target_id(name);
    let above = paths::joined_path(root, area);
    paths::law_joined_path_stands_below(root, area);
    if id.len() > 0 {
        law_target_directory_is_one_component(name, 0);
    }
    paths::law_joined_path_stands_below(above, id);
    let whole = paths::joined_path(above, id);
    assert forall|i: int| 0 <= i < root.len() implies root[i] == whole[i] by {
        assert(above[i] == root[i]);
        assert(whole[i] == above[i]);
    }
    assert(root =~= whole.take(root.len() as int));
}

/// A target without a name is refused whatever became of its directories; any other is reserved
/// exactly if both directories could be created, and a directory that could not is told.
pub proof fn law_target_is_reserved_in_its_directories(
    target_name: Seq<char>,
    created: Result<(), DirectoryFailure>,
)
    ensures
        target_name.len() == 0 <==> reservation_failure(target_name, created) == Some(
            WorkspaceError::EmptyTargetName,
        ),
        reservation_failure(target_name, created) is None <==> target_name.len() > 0 && created
            is Ok,
        target_name.len() > 0 && created is Err ==> ({
            let error = reservation_failure(target_name, created)->Some_0;
            &&& error is Io
            &&& match created->Err_0 {
                DirectoryFailure::Config(source) => error->source == source && error->action@
                    == "create the target configuration directory"@,
                DirectoryFailure::Artifact(source) => error->source == source && error->action@
                    == "create the artifact directory"@,
            }
        }),
{
}

} // verus!
