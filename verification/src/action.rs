//! The action vocabulary: every irreversible step the launcher may take is
//! one of these values.  The planners emit ordered lists of them; the
//! unverified shell performs each with the corresponding system call and
//! aborts on the first failure, except where a variant says that failure is
//! ignored.

use vstd::prelude::*;

verus! {

/// One step of the setup, to be performed by the unverified shell.
#[derive(Debug, Clone, PartialEq, Eq)]
pub enum Action {
    /// Enter a new mount namespace, and a new user namespace too when
    /// `user_ns` is set.
    Unshare { user_ns: bool },
    /// Write `content` to the file at `path`, creating or truncating it.
    WriteFile { path: Vec<u8>, content: Vec<u8> },
    /// Bind the tree at `path` recursively over itself, making it a mount
    /// point without changing what is visible.
    BindSelf { path: Vec<u8> },
    /// Make the propagation of the mount at `path` slave, recursively, so
    /// that later unmounts cannot reach the namespace it was inherited from.
    MakeSlave { path: Vec<u8> },
    /// Mount a fresh anonymous writable filesystem at `path` with the given
    /// permission bits.
    MountTmpfs { path: Vec<u8>, mode: u16 },
    /// Create a single directory at `path`.
    CreateDir { path: Vec<u8> },
    /// Create a directory at `path` together with any missing parents;
    /// succeeds when it already exists.
    CreateDirAll { path: Vec<u8> },
    /// Create an empty regular file at `path`, truncating any existing file.
    CreateFile { path: Vec<u8> },
    /// Create a symbolic link at `at` whose target text is exactly `dest`.
    Symlink { at: Vec<u8>, dest: Vec<u8> },
    /// Establish a recursive bind mount of `from` onto `to`.
    BindMount { from: Vec<u8>, to: Vec<u8> },
    /// Lazily detach whatever may be mounted at `path`; failure is ignored.
    DetachAny { path: Vec<u8> },
    /// Remove a file or symlink at `path` if one is there; failure is
    /// ignored.
    RemoveFileAny { path: Vec<u8> },
    /// Lazily detach the mount at `path`; this one must succeed.
    Detach { path: Vec<u8> },
    /// Remove the now-empty directory at `path`.
    RemoveDir { path: Vec<u8> },
    /// Swap the process root for `new_root`, parking the previous root at
    /// `put_old`.
    PivotRoot { new_root: Vec<u8>, put_old: Vec<u8> },
    /// Change the working directory to `path`.
    SetCwd { path: Vec<u8> },
    /// Replace the process image with the requested command; on success the
    /// run ends here.
    Exec,
}

/// Mathematical image of an [`Action`].
pub enum ActionV {
    Unshare { user_ns: bool },
    WriteFile { path: Seq<u8>, content: Seq<u8> },
    BindSelf { path: Seq<u8> },
    MakeSlave { path: Seq<u8> },
    MountTmpfs { path: Seq<u8>, mode: u16 },
    CreateDir { path: Seq<u8> },
    CreateDirAll { path: Seq<u8> },
    CreateFile { path: Seq<u8> },
    Symlink { at: Seq<u8>, dest: Seq<u8> },
    BindMount { from: Seq<u8>, to: Seq<u8> },
    DetachAny { path: Seq<u8> },
    RemoveFileAny { path: Seq<u8> },
    Detach { path: Seq<u8> },
    RemoveDir { path: Seq<u8> },
    PivotRoot { new_root: Seq<u8>, put_old: Seq<u8> },
    SetCwd { path: Seq<u8> },
    Exec,
}

impl View for Action {
    type V = ActionV;

    open spec fn view(&self) -> ActionV {
        match self {
            Action::Unshare { user_ns } => ActionV::Unshare { user_ns: *user_ns },
            Action::WriteFile { path, content } => ActionV::WriteFile {
                path: path@,
                content: content@,
            },
            Action::BindSelf { path } => ActionV::BindSelf { path: path@ },
            Action::MakeSlave { path } => ActionV::MakeSlave { path: path@ },
            Action::MountTmpfs { path, mode } => ActionV::MountTmpfs { path: path@, mode: *mode },
            Action::CreateDir { path } => ActionV::CreateDir { path: path@ },
            Action::CreateDirAll { path } => ActionV::CreateDirAll { path: path@ },
            Action::CreateFile { path } => ActionV::CreateFile { path: path@ },
            Action::Symlink { at, dest } => ActionV::Symlink { at: at@, dest: dest@ },
            Action::BindMount { from, to } => ActionV::BindMount { from: from@, to: to@ },
            Action::DetachAny { path } => ActionV::DetachAny { path: path@ },
            Action::RemoveFileAny { path } => ActionV::RemoveFileAny { path: path@ },
            Action::Detach { path } => ActionV::Detach { path: path@ },
            Action::RemoveDir { path } => ActionV::RemoveDir { path: path@ },
            Action::PivotRoot { new_root, put_old } => ActionV::PivotRoot {
                new_root: new_root@,
                put_old: put_old@,
            },
            Action::SetCwd { path } => ActionV::SetCwd { path: path@ },
            Action::Exec => ActionV::Exec,
        }
    }
}

/// The image of a plan: each action replaced by its mathematical view.
pub open spec fn plan_view(p: Seq<Action>) -> Seq<ActionV> {
    p.map_values(|a: Action| a@)
}

} // verus!
