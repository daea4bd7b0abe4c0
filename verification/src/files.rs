//! Reading files, and writing them so that only their owner can read them.
use vstd::prelude::*;
use vstd::string::*;

verus! {

/// What came of reading a file.
#[derive(Debug, Clone, PartialEq, Eq)]
pub enum ReadOutcome {
    Contents(String),
    NotFound,
    /// The file is there, but cannot be read.
    Failed,
}

/// The mode of a directory that its owner alone can use.
pub const PRIVATE_DIR_MODE: u32 = 0o700;

/// The mode of a file that its owner alone can read and write.
pub const PRIVATE_FILE_MODE: u32 = 0o600;

/// One step of writing a file. Paths and contents are bytes.
#[derive(Debug, Clone, PartialEq, Eq)]
pub enum FileStep {
    /// Create the directory and those above it, as far as they are missing.
    CreateDir { path: Vec<u8>, mode: u32 },
    /// Open the file for writing, emptied; one that is created gets the mode.
    Open { path: Vec<u8>, mode: u32 },
    /// Create a file of a new name in the directory, and open it for writing.
    OpenTemporary { dir: Vec<u8> },
    /// Give the open file the mode.
    SetMode { mode: u32 },
    /// Write to the open file.
    Write { contents: Vec<u8> },
    /// Bring what was written to the disk.
    Sync,
    /// Give the open file its name, in place of any file that has it.
    Persist { path: Vec<u8> },
}

/// What a step stands for.
pub enum StepView {
    CreateDir { path: Seq<u8>, mode: u32 },
    Open { path: Seq<u8>, mode: u32 },
    OpenTemporary { dir: Seq<u8> },
    SetMode { mode: u32 },
    Write { contents: Seq<u8> },
    Sync,
    Persist { path: Seq<u8> },
}

impl View for FileStep {
    type V = StepView;

    open spec fn view(&self) -> StepView {
        match self {
            FileStep::CreateDir { path, mode } => StepView::CreateDir { path: path@, mode: *mode },
            FileStep::Open { path, mode } => StepView::Open { path: path@, mode: *mode },
            FileStep::OpenTemporary { dir } => StepView::OpenTemporary { dir: dir@ },
            FileStep::SetMode { mode } => StepView::SetMode { mode: *mode },
            FileStep::Write { contents } => StepView::Write { contents: contents@ },
            FileStep::Sync => StepView::Sync,
            FileStep::Persist { path } => StepView::Persist { path: path@ },
        }
    }
}

/// Whether a mode lets nobody but the owner in.
pub open spec fn is_private(mode: u32) -> bool {
    mode & 0o077 == 0
}

/// The modes that this crate gives let nobody but the owner in, and the owner
/// do all there is to do: read, write and enter a directory, read and write a
/// file.
pub proof fn modes_are_private()
    ensures
        is_private(PRIVATE_DIR_MODE),
        is_private(PRIVATE_FILE_MODE),
        PRIVATE_DIR_MODE & 0o700 == 0o700,
        PRIVATE_FILE_MODE & 0o600 == 0o600,
        PRIVATE_FILE_MODE & 0o100 == 0,
{
    assert(0o700u32 & 0o700 == 0o700) by (bit_vector);
    assert(0o600u32 & 0o600 == 0o600) by (bit_vector);
    assert(0o600u32 & 0o100 == 0) by (bit_vector);
    assert(0o700u32 & 0o077 == 0) by (bit_vector);
    assert(0o600u32 & 0o077 == 0) by (bit_vector);
}

/// The mode that the open file has for certain once `steps` are done, if
/// they set one.
pub open spec fn mode_after(steps: Seq<StepView>) -> Option<u32>
    decreases steps.len(),
{
    if steps.len() == 0 {
        None
    } else {
        match steps.last() {
            StepView::SetMode { mode } => Some(mode),
            StepView::Open { .. } => None,
            StepView::OpenTemporary { .. } => None,
            _ => mode_after(steps.drop_last()),
        }
    }
}

/// Whether every directory and every file that `steps` create is private.
pub open spec fn creates_privately(steps: Seq<StepView>) -> bool {
    forall|i: int|
        0 <= i < steps.len() ==> match #[trigger] steps[i] {
            StepView::CreateDir { mode, .. } => is_private(mode),
            StepView::Open { mode, .. } => is_private(mode),
            _ => true,
        }
}

/// Whether the open file is private before anything is written to it.
pub open spec fn private_before_write(steps: Seq<StepView>) -> bool {
    forall|i: int|
        0 <= i < steps.len() && (#[trigger] steps[i] is Write) ==> (mode_after(steps.take(i)) matches Some(
            mode,
        ) && is_private(mode))
}

} // verus!
