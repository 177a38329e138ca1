//! Bringing one pin into its declared state, or out of it, step by step.
//!
//! Each operation is a small machine: it hands out one `Action` at a time,
//! the caller performs it against the system (the GPIO driver, the
//! filesystem, the user database) and reports the `Event` that came of it,
//! and the machine decides what follows. Every step tolerates the outcomes
//! that mean the desired state already holds, so a run can be repeated.
use crate::config::{DirectionDef, PinConfig};
use crate::error::Error;
use vstd::prelude::*;

verus! {

/// Attempts at setting the direction right after an export.
pub const DIRECTION_ATTEMPTS: u32 = 3;

/// Milliseconds between two such attempts.
pub const DIRECTION_RETRY_DELAY_MS: u64 = 100;

/// How often an operation is tried, and how long to wait between tries.
#[derive(Debug, Clone, Copy, PartialEq, Eq, Structural)]
pub struct RetryPolicy {
    pub max_attempts: u32,
    pub delay_ms: u64,
}

impl RetryPolicy {
    /// Three attempts, 100 ms apart: enough for the kernel to create the
    /// control files of a freshly exported pin.
    pub fn standard() -> (r: RetryPolicy)
        ensures
            r.max_attempts == 3,
            r.delay_ms == 100,
    {
        RetryPolicy { max_attempts: DIRECTION_ATTEMPTS, delay_ms: DIRECTION_RETRY_DELAY_MS }
    }
}

/// What kind of failure an action met, as far as the decisions need it.
#[derive(Debug, Clone, Copy, PartialEq, Eq, Structural)]
pub enum FaultKind {
    /// The thing to create is already there.
    AlreadyExists,
    /// The thing to remove is not there.
    NotFound,
    /// The driver refused the argument.
    InvalidInput,
    Other,
}

/// A failed action: its kind and the error to report.
#[derive(Debug, Clone)]
pub struct Fault {
    pub kind: FaultKind,
    pub error: Error,
}

/// What the caller is asked to do next.
#[derive(Debug)]
pub enum Action {
    /// Export the pin with the GPIO driver.
    ExportPin(u64),
    /// Find the id of the named user.
    LookupUser(String),
    /// Find the id of the named group.
    LookupGroup(String),
    /// List the regular files directly under the pin's sysfs directory.
    ListFiles(u64),
    /// Change the owner and/or group of a file.
    Chown { path: String, uid: Option<u32>, gid: Option<u32> },
    /// Change the permission bits of a file.
    Chmod { path: String, mode: u32 },
    /// Create a directory and its parents where missing.
    CreateDir(String),
    /// Set the pin's direction with the driver.
    SetDirection { num: u64, direction: DirectionDef },
    /// Sleep for so many milliseconds.
    Wait(u64),
    /// Set the pin's polarity with the driver.
    SetActiveLow { num: u64, active_low: bool },
    /// Create the symlink `root/name` to the pin's sysfs directory.
    Symlink { num: u64, root: String, name: String },
    /// Remove the symlink `root/name`.
    RemoveSymlink { root: String, name: String },
    /// Unexport the pin with the GPIO driver.
    UnexportPin(u64),
    /// Stop: the operation is over, with this outcome.
    Finish(Result<(), Error>),
}

/// What came of the last action.
#[derive(Debug)]
pub enum Event {
    /// It succeeded.
    Done,
    /// It failed.
    Failed(Fault),
    /// A lookup succeeded, and found this id or nothing.
    Resolved(Option<u32>),
    /// A listing succeeded, with these paths.
    Files(Vec<String>),
}

/// Where an export run stands: which action it waits on.
#[derive(Debug, Clone, Copy, PartialEq, Eq, Structural)]
pub enum ExportStage {
    Exporting,
    ResolvingUser,
    ResolvingGroup,
    Listing,
    /// Changing the owner of the file with this index.
    Chowning(usize),
    /// Changing the mode of the file with this index.
    Chmoding(usize),
    CreatingRoot,
    SettingDirection,
    Waiting,
    SettingActiveLow,
    /// Creating the symlink for the name with this index.
    Linking(usize),
    Finished,
}

/// The export of one pin, in progress.
#[derive(Debug)]
pub struct ExportRun {
    pub pin: PinConfig,
    pub root: Option<String>,
    pub policy: RetryPolicy,
    pub stage: ExportStage,
    pub uid: Option<u32>,
    pub gid: Option<u32>,
    pub files: Vec<String>,
    /// Attempts made at setting the direction.
    pub attempts: u32,
}

impl ExportRun {
    /// What each stage relies on: the name it looks up, the file or symlink
    /// index it works on, the symlink root, and the attempts left.
    pub open spec fn wf(&self) -> bool {
        &&& self.policy.max_attempts >= 1
        &&& self.stage is ResolvingUser ==> self.pin.user is Some
        &&& self.stage is ResolvingGroup ==> self.pin.group is Some
        &&& self.stage matches ExportStage::Chowning(i) ==> i < self.files@.len() && (
        self.uid is Some || self.gid is Some)
        &&& self.stage matches ExportStage::Chmoding(i) ==> i < self.files@.len()
            && self.pin.mode is Some
        &&& (self.stage is CreatingRoot || self.stage is SettingDirection || self.stage is Waiting
            || self.stage is SettingActiveLow || self.stage is Linking) ==> self.root is Some
        &&& self.stage matches ExportStage::Linking(i) ==> i < self.pin.names@.len()
        &&& self.stage is SettingDirection ==> 1 <= self.attempts <= self.policy.max_attempts
        &&& self.stage is Waiting ==> 1 <= self.attempts < self.policy.max_attempts
    }
}

pub open spec fn finished(run: ExportRun, outcome: Result<(), Error>) -> (ExportRun, Action) {
    (ExportRun { stage: ExportStage::Finished, ..run }, Action::Finish(outcome))
}

/// Ownership is settled: create the symlink root if there is one, else stop.
pub open spec fn after_ownership(run: ExportRun) -> (ExportRun, Action) {
    match run.root {
        Some(root) => (ExportRun { stage: ExportStage::CreatingRoot, ..run }, Action::CreateDir(root)),
        None => finished(run, Ok(())),
    }
}

/// Work on the file with index `i`, or go on when all are done.
pub open spec fn file_step(run: ExportRun, i: int) -> (ExportRun, Action) {
    if i < run.files@.len() {
        if run.uid is Some || run.gid is Some {
            (
                ExportRun { stage: ExportStage::Chowning(i as usize), ..run },
                Action::Chown { path: run.files@[i], uid: run.uid, gid: run.gid },
            )
        } else if run.pin.mode is Some {
            (
                ExportRun { stage: ExportStage::Chmoding(i as usize), ..run },
                Action::Chmod { path: run.files@[i], mode: run.pin.mode->Some_0 },
            )
        } else {
            after_ownership(run)
        }
    } else {
        after_ownership(run)
    }
}

/// The owner and group ids are known: list the files where anything is to
/// change on them.
pub open spec fn after_lookups(run: ExportRun) -> (ExportRun, Action) {
    if run.uid is Some || run.gid is Some || run.pin.mode is Some {
        (ExportRun { stage: ExportStage::Listing, ..run }, Action::ListFiles(run.pin.num))
    } else {
        after_ownership(run)
    }
}

pub open spec fn after_user(run: ExportRun) -> (ExportRun, Action) {
    match run.pin.group {
        Some(g) => (ExportRun { stage: ExportStage::ResolvingGroup, ..run }, Action::LookupGroup(g)),
        None => after_lookups(run),
    }
}

pub open spec fn after_export(run: ExportRun) -> (ExportRun, Action) {
    match run.pin.user {
        Some(u) => (ExportRun { stage: ExportStage::ResolvingUser, ..run }, Action::LookupUser(u)),
        None => after_user(run),
    }
}

pub open spec fn set_direction(run: ExportRun, attempts: u32) -> (ExportRun, Action) {
    (
        ExportRun { stage: ExportStage::SettingDirection, attempts, ..run },
        Action::SetDirection { num: run.pin.num, direction: run.pin.direction },
    )
}

/// Create the symlink for the name with index `i`, or stop when all are there.
pub open spec fn link_step(run: ExportRun, i: int) -> (ExportRun, Action) {
    if i < run.pin.names@.len() {
        (
            ExportRun { stage: ExportStage::Linking(i as usize), ..run },
            Action::Symlink { num: run.pin.num, root: run.root->Some_0, name: run.pin.names@[i] },
        )
    } else {
        finished(run, Ok(()))
    }
}

/// What an export run does on an event: the next state and action.
pub open spec fn export_next(run: ExportRun, ev: Event) -> (ExportRun, Action) {
    match run.stage {
        ExportStage::Exporting => match ev {
            Event::Done => after_export(run),
            Event::Failed(f) => if f.kind == FaultKind::AlreadyExists {
                after_export(run)
            } else {
                finished(run, Err(f.error))
            },
            _ => finished(run, Err(Error::Unexpected)),
        },
        ExportStage::ResolvingUser => match ev {
            Event::Resolved(Some(id)) => after_user(ExportRun { uid: Some(id), ..run }),
            Event::Resolved(None) => finished(run, Err(Error::UnknownUser(run.pin.user->Some_0))),
            Event::Failed(f) => finished(run, Err(f.error)),
            _ => finished(run, Err(Error::Unexpected)),
        },
        ExportStage::ResolvingGroup => match ev {
            Event::Resolved(Some(id)) => after_lookups(ExportRun { gid: Some(id), ..run }),
            Event::Resolved(None) => finished(run, Err(Error::UnknownGroup(run.pin.group->Some_0))),
            Event::Failed(f) => finished(run, Err(f.error)),
            _ => finished(run, Err(Error::Unexpected)),
        },
        ExportStage::Listing => match ev {
            Event::Files(fs) => file_step(ExportRun { files: fs, ..run }, 0),
            Event::Failed(f) => finished(run, Err(f.error)),
            _ => finished(run, Err(Error::Unexpected)),
        },
        ExportStage::Chowning(i) => match ev {
            Event::Done => if run.pin.mode is Some {
                (
                    ExportRun { stage: ExportStage::Chmoding(i), ..run },
                    Action::Chmod { path: run.files@[i as int], mode: run.pin.mode->Some_0 },
                )
            } else {
                file_step(run, i + 1)
            },
            Event::Failed(f) => finished(run, Err(f.error)),
            _ => finished(run, Err(Error::Unexpected)),
        },
        ExportStage::Chmoding(i) => match ev {
            Event::Done => file_step(run, i + 1),
            Event::Failed(f) => finished(run, Err(f.error)),
            _ => finished(run, Err(Error::Unexpected)),
        },
        ExportStage::CreatingRoot => match ev {
            Event::Done => set_direction(run, 1),
            Event::Failed(f) => finished(run, Err(f.error)),
            _ => finished(run, Err(Error::Unexpected)),
        },
        ExportStage::SettingDirection => match ev {
            Event::Done => (
                ExportRun { stage: ExportStage::SettingActiveLow, ..run },
                Action::SetActiveLow { num: run.pin.num, active_low: run.pin.active_low },
            ),
            Event::Failed(f) => if run.attempts < run.policy.max_attempts {
                (ExportRun { stage: ExportStage::Waiting, ..run }, Action::Wait(run.policy.delay_ms))
            } else {
                finished(run, Err(f.error))
            },
            _ => finished(run, Err(Error::Unexpected)),
        },
        ExportStage::Waiting => match ev {
            Event::Done => set_direction(run, (run.attempts + 1) as u32),
            Event::Failed(f) => finished(run, Err(f.error)),
            _ => finished(run, Err(Error::Unexpected)),
        },
        ExportStage::SettingActiveLow => match ev {
            Event::Done => link_step(run, 0),
            Event::Failed(f) => finished(run, Err(f.error)),
            _ => finished(run, Err(Error::Unexpected)),
        },
        ExportStage::Linking(i) => match ev {
            Event::Done => link_step(run, i + 1),
            Event::Failed(f) => if f.kind == FaultKind::AlreadyExists {
                link_step(run, i + 1)
            } else {
                finished(run, Err(f.error))
            },
            _ => finished(run, Err(Error::Unexpected)),
        },
        ExportStage::Finished => finished(run, Err(Error::Unexpected)),
    }
}

impl ExportRun {
    /// Starts the export of `pin`, with its symlinks under `root` where one
    /// is given; the first action exports the pin.
    pub fn start(pin: PinConfig, root: Option<String>, policy: RetryPolicy) -> (r: (
        ExportRun,
        Action,
    ))
        requires
            policy.max_attempts >= 1,
        ensures
            r.0.wf(),
            r.0.pin == pin,
            r.0.root == root,
            r.0.policy == policy,
            r.0.stage == ExportStage::Exporting,
            r.0.uid is None,
            r.0.gid is None,
            r.0.files@.len() == 0,
            r.0.attempts == 0,
            r.1 == Action::ExportPin(pin.num),
    {
        let num = pin.num;
        let run = ExportRun {
            pin,
            root,
            policy,
            stage: ExportStage::Exporting,
            uid: None,
            gid: None,
            files: Vec::new(),
            attempts: 0,
        };
        (run, Action::ExportPin(num))
    }

    fn finish(&mut self, outcome: Result<(), Error>) -> (a: Action)
        ensures
            (*final(self), a) == finished(*old(self), outcome),
    {
        self.stage = ExportStage::Finished;
        Action::Finish(outcome)
    }

    fn after_ownership(&mut self) -> (a: Action)
        ensures
            (*final(self), a) == after_ownership(*old(self)),
    {
        match &self.root {
            Some(root) => {
                let dir = root.clone();
                self.stage = ExportStage::CreatingRoot;
                Action::CreateDir(dir)
            },
            None => self.finish(Ok(())),
        }
    }

    fn file_step(&mut self, i: usize) -> (a: Action)
        ensures
            (*final(self), a) == file_step(*old(self), i as int),
    {
        if i < self.files.len() {
            if self.uid.is_some() || self.gid.is_some() {
                let path = self.files[i].clone();
                self.stage = ExportStage::Chowning(i);
                Action::Chown { path, uid: self.uid, gid: self.gid }
            } else {
                match self.pin.mode {
                    Some(mode) => {
                        let path = self.files[i].clone();
                        self.stage = ExportStage::Chmoding(i);
                        Action::Chmod { path, mode }
                    },
                    None => self.after_ownership(),
                }
            }
        } else {
            self.after_ownership()
        }
    }

    fn after_lookups(&mut self) -> (a: Action)
        ensures
            (*final(self), a) == after_lookups(*old(self)),
    {
        if self.uid.is_some() || self.gid.is_some() || self.pin.mode.is_some() {
            self.stage = ExportStage::Listing;
            Action::ListFiles(self.pin.num)
        } else {
            self.after_ownership()
        }
    }

    fn after_user(&mut self) -> (a: Action)
        ensures
            (*final(self), a) == after_user(*old(self)),
    {
        match &self.pin.group {
            Some(g) => {
                let name = g.clone();
                self.stage = ExportStage::ResolvingGroup;
                Action::LookupGroup(name)
            },
            None => self.after_lookups(),
        }
    }

    fn after_export(&mut self) -> (a: Action)
        ensures
            (*final(self), a) == after_export(*old(self)),
    {
        match &self.pin.user {
            Some(u) => {
                let name = u.clone();
                self.stage = ExportStage::ResolvingUser;
                Action::LookupUser(name)
            },
            None => self.after_user(),
        }
    }

    fn set_direction(&mut self, attempts: u32) -> (a: Action)
        ensures
            (*final(self), a) == set_direction(*old(self), attempts),
    {
        self.stage = ExportStage::SettingDirection;
        self.attempts = attempts;
        Action::SetDirection { num: self.pin.num, direction: self.pin.direction }
    }

    fn link_step(&mut self, i: usize) -> (a: Action)
        requires
            old(self).root is Some,
        ensures
            (*final(self), a) == link_step(*old(self), i as int),
    {
        if i < self.pin.names.len() {
            let name = self.pin.names[i].clone();
            let root = match &self.root {
                Some(r) => r.clone(),
                None => String::new(),
            };
            self.stage = ExportStage::Linking(i);
            Action::Symlink { num: self.pin.num, root, name }
        } else {
            self.finish(Ok(()))
        }
    }

    /// Takes in what came of the last action and hands out the next one.
    pub fn step(&mut self, ev: Event) -> (a: Action)
        requires
            old(self).wf(),
        ensures
            final(self).wf(),
            (*final(self), a) == export_next(*old(self), ev),
    {
        match self.stage {
            ExportStage::Exporting => match ev {
                Event::Done => self.after_export(),
                Event::Failed(f) => if f.kind == FaultKind::AlreadyExists {
                    self.after_export()
                } else {
                    self.finish(Err(f.error))
                },
                _ => self.finish(Err(Error::Unexpected)),
            },
            ExportStage::ResolvingUser => match ev {
                Event::Resolved(Some(id)) => {
                    self.uid = Some(id);
                    self.after_user()
                },
                Event::Resolved(None) => {
                    let name = match &self.pin.user {
                        Some(u) => u.clone(),
                        None => String::new(),
                    };
                    self.finish(Err(Error::UnknownUser(name)))
                },
                Event::Failed(f) => self.finish(Err(f.error)),
                _ => self.finish(Err(Error::Unexpected)),
            },
            ExportStage::ResolvingGroup => match ev {
                Event::Resolved(Some(id)) => {
                    self.gid = Some(id);
                    self.after_lookups()
                },
                Event::Resolved(None) => {
                    let name = match &self.pin.group {
                        Some(g) => g.clone(),
                        None => String::new(),
                    };
                    self.finish(Err(Error::UnknownGroup(name)))
                },
                Event::Failed(f) => self.finish(Err(f.error)),
                _ => self.finish(Err(Error::Unexpected)),
            },
            ExportStage::Listing => match ev {
                Event::Files(fs) => {
                    self.files = fs;
                    self.file_step(0)
                },
                Event::Failed(f) => self.finish(Err(f.error)),
                _ => self.finish(Err(Error::Unexpected)),
            },
            ExportStage::Chowning(i) => match ev {
                Event::Done => match self.pin.mode {
                    Some(mode) => {
                        let path = self.files[i].clone();
                        self.stage = ExportStage::Chmoding(i);
                        Action::Chmod { path, mode }
                    },
                    None => {
                        let count = self.files.len();
                        assert(i < count);
                        self.file_step(i + 1)
                    },
                },
                Event::Failed(f) => self.finish(Err(f.error)),
                _ => self.finish(Err(Error::Unexpected)),
            },
            ExportStage::Chmoding(i) => match ev {
                Event::Done => {
                    let count = self.files.len();
                    assert(i < count);
                    self.file_step(i + 1)
                },
                Event::Failed(f) => self.finish(Err(f.error)),
                _ => self.finish(Err(Error::Unexpected)),
            },
            ExportStage::CreatingRoot => match ev {
                Event::Done => self.set_direction(1),
                Event::Failed(f) => self.finish(Err(f.error)),
                _ => self.finish(Err(Error::Unexpected)),
            },
            ExportStage::SettingDirection => match ev {
                Event::Done => {
                    self.stage = ExportStage::SettingActiveLow;
                    Action::SetActiveLow { num: self.pin.num, active_low: self.pin.active_low }
                },
                Event::Failed(f) => if self.attempts < self.policy.max_attempts {
                    self.stage = ExportStage::Waiting;
                    Action::Wait(self.policy.delay_ms)
                } else {
                    self.finish(Err(f.error))
                },
                _ => self.finish(Err(Error::Unexpected)),
            },
            ExportStage::Waiting => match ev {
                Event::Done => self.set_direction(self.attempts + 1),
                Event::Failed(f) => self.finish(Err(f.error)),
                _ => self.finish(Err(Error::Unexpected)),
            },
            ExportStage::SettingActiveLow => match ev {
                Event::Done => self.link_step(0),
                Event::Failed(f) => self.finish(Err(f.error)),
                _ => self.finish(Err(Error::Unexpected)),
            },
            ExportStage::Linking(i) => match ev {
                Event::Done => {
                    let count = self.pin.names.len();
                    assert(i < count);
                    self.link_step(i + 1)
                },
                Event::Failed(f) => if f.kind == FaultKind::AlreadyExists {
                    let count = self.pin.names.len();
                    assert(i < count);
                    self.link_step(i + 1)
                } else {
                    self.finish(Err(f.error))
                },
                _ => self.finish(Err(Error::Unexpected)),
            },
            ExportStage::Finished => self.finish(Err(Error::Unexpected)),
        }
    }
}

/// Where an unexport run stands: which action it waits on.
#[derive(Debug, Clone, Copy, PartialEq, Eq, Structural)]
pub enum UnexportStage {
    /// Removing the symlink for the name with this index.
    Unlinking(usize),
    Unexporting,
    Finished,
}

/// The unexport of one pin, in progress.
#[derive(Debug)]
pub struct UnexportRun {
    pub pin: PinConfig,
    pub root: Option<String>,
    pub stage: UnexportStage,
}

impl UnexportRun {
    /// The symlink being removed exists among the names, under a root.
    pub open spec fn wf(&self) -> bool {
        self.stage matches UnexportStage::Unlinking(i) ==> i < self.pin.names@.len()
            && self.root is Some
    }
}

pub open spec fn unexport_finished(run: UnexportRun, outcome: Result<(), Error>) -> (
    UnexportRun,
    Action,
) {
    (UnexportRun { stage: UnexportStage::Finished, ..run }, Action::Finish(outcome))
}

/// Remove the symlink for the name with index `i`; when there is none left,
/// or no symlink root, unexport the pin.
pub open spec fn unlink_step(run: UnexportRun, i: int) -> (UnexportRun, Action) {
    if run.root is Some && i < run.pin.names@.len() {
        (
            UnexportRun { stage: UnexportStage::Unlinking(i as usize), ..run },
            Action::RemoveSymlink { root: run.root->Some_0, name: run.pin.names@[i] },
        )
    } else {
        (UnexportRun { stage: UnexportStage::Unexporting, ..run }, Action::UnexportPin(run.pin.num))
    }
}

/// What an unexport run does on an event: the next state and action.
pub open spec fn unexport_next(run: UnexportRun, ev: Event) -> (UnexportRun, Action) {
    match run.stage {
        UnexportStage::Unlinking(i) => match ev {
            Event::Done => unlink_step(run, i + 1),
            Event::Failed(f) => if f.kind == FaultKind::NotFound {
                unlink_step(run, i + 1)
            } else {
                unexport_finished(run, Err(f.error))
            },
            _ => unexport_finished(run, Err(Error::Unexpected)),
        },
        UnexportStage::Unexporting => match ev {
            Event::Done => unexport_finished(run, Ok(())),
            Event::Failed(f) => if f.kind == FaultKind::InvalidInput {
                unexport_finished(run, Ok(()))
            } else {
                unexport_finished(run, Err(f.error))
            },
            _ => unexport_finished(run, Err(Error::Unexpected)),
        },
        UnexportStage::Finished => unexport_finished(run, Err(Error::Unexpected)),
    }
}

impl UnexportRun {
    fn finish(&mut self, outcome: Result<(), Error>) -> (a: Action)
        ensures
            (*final(self), a) == unexport_finished(*old(self), outcome),
    {
        self.stage = UnexportStage::Finished;
        Action::Finish(outcome)
    }

    fn unlink_step(&mut self, i: usize) -> (a: Action)
        ensures
            (*final(self), a) == unlink_step(*old(self), i as int),
    {
        match &self.root {
            Some(root) => if i < self.pin.names.len() {
                let dir = root.clone();
                let name = self.pin.names[i].clone();
                self.stage = UnexportStage::Unlinking(i);
                Action::RemoveSymlink { root: dir, name }
            } else {
                self.stage = UnexportStage::Unexporting;
                Action::UnexportPin(self.pin.num)
            },
            None => {
                self.stage = UnexportStage::Unexporting;
                Action::UnexportPin(self.pin.num)
            },
        }
    }

    /// Starts the unexport of `pin`, removing its symlinks under `root`
    /// first where one is given.
    pub fn start(pin: PinConfig, root: Option<String>) -> (r: (UnexportRun, Action))
        ensures
            r.0.wf(),
            (r.0, r.1) == unlink_step(
                UnexportRun { pin, root, stage: UnexportStage::Unexporting },
                0,
            ),
    {
        let mut run = UnexportRun { pin, root, stage: UnexportStage::Unexporting };
        let a = run.unlink_step(0);
        (run, a)
    }

    /// Takes in what came of the last action and hands out the next one.
    pub fn step(&mut self, ev: Event) -> (a: Action)
        requires
            old(self).wf(),
        ensures
            final(self).wf(),
            (*final(self), a) == unexport_next(*old(self), ev),
    {
        match self.stage {
            UnexportStage::Unlinking(i) => {
                let count = self.pin.names.len();
                assert(i < count);
                match ev {
                    Event::Done => self.unlink_step(i + 1),
                    Event::Failed(f) => if f.kind == FaultKind::NotFound {
                        self.unlink_step(i + 1)
                    } else {
                        self.finish(Err(f.error))
                    },
                    _ => self.finish(Err(Error::Unexpected)),
                }
            },
            UnexportStage::Unexporting => match ev {
                Event::Done => self.finish(Ok(())),
                Event::Failed(f) => if f.kind == FaultKind::InvalidInput {
                    self.finish(Ok(()))
                } else {
                    self.finish(Err(f.error))
                },
                _ => self.finish(Err(Error::Unexpected)),
            },
            UnexportStage::Finished => self.finish(Err(Error::Unexpected)),
        }
    }
}

/// Exporting a pin that is already exported, or whose symlink is already
/// there, goes on exactly as if that step had just succeeded.
pub proof fn existing_export_counts_as_done(run: ExportRun, f: Fault)
    requires
        f.kind == FaultKind::AlreadyExists,
        run.stage is Exporting || run.stage is Linking,
    ensures
        export_next(run, Event::Failed(f)) == export_next(run, Event::Done),
{
}

/// Removing a symlink that is already absent goes on exactly as if it had
/// just been removed.
pub proof fn absent_symlink_counts_as_removed(run: UnexportRun, f: Fault)
    requires
        f.kind == FaultKind::NotFound,
        run.stage is Unlinking,
    ensures
        unexport_next(run, Event::Failed(f)) == unexport_next(run, Event::Done),
{
}

/// A driver that refuses to unexport a pin the kernel itself holds ends the
/// unexport successfully.
pub proof fn kernel_held_pin_unexports_cleanly(run: UnexportRun, f: Fault)
    requires
        f.kind == FaultKind::InvalidInput,
        run.stage is Unexporting,
    ensures
        unexport_next(run, Event::Failed(f)).1 == Action::Finish(Ok::<(), Error>(())),
{
}

} // verus!
