use vstd::prelude::*;

verus! {

/// The kinds of window the application shows.
#[derive(Clone, Copy, Debug, PartialEq, Eq, PartialOrd, Ord)]
pub enum WindowType {
    Timer,
    LayoutEditor,
}

/// The timer window. It keeps nothing of its own: what it shows is the
/// layout and the run of the application.
#[derive(Clone, Copy, Debug, PartialEq, Eq, Structural)]
pub struct Timer {}

/// What the user can ask of the timer window.
#[derive(Clone, Debug)]
pub enum TimerMessage {
    LoadSplitsOpenPicker,
    LoadSplits(String),
    SaveSplitsOpenPicker,
    SaveSplits(String),
    LoadLayoutOpenPicker,
    LoadLayout(String),
    SaveLayoutOpenPicker,
    SaveLayout(String),
}

/// The files a dialog is opened for.
#[derive(Clone, Copy, Debug, PartialEq, Eq, Structural)]
pub enum FileKind {
    /// Splits in any format that can be read; the extension is `lss`.
    SplitsToLoad,
    /// Splits as they are written; the extension is `lss`.
    SplitsToSave,
    /// A layout; the extension is `yasl`.
    Layout,
}

/// What the application is to do for the timer window. The window decides;
/// the application does the work and, for a dialog, comes back with the
/// user's choice.
#[derive(Debug)]
pub enum TimerTask {
    /// Let the user pick a file to read.
    PickFile(FileKind),
    /// Let the user pick a file to write.
    PickSaveFile(FileKind),
    /// Read the splits at the path and time the run they hold.
    ReadSplits(String),
    /// Write the splits of the run to the path.
    WriteSplits(String),
    /// Read the layout at the path, show it and give the window its size.
    ReadLayout(String),
    /// Write the layout to the path.
    WriteLayout(String),
}

/// What a dialog was opened for.
#[derive(Clone, Copy, Debug, PartialEq, Eq, Structural)]
pub enum Picked {
    SplitsToLoad,
    SplitsToSave,
    LayoutToLoad,
    LayoutToSave,
}

impl FileKind {
    /// The name under which the dialog lists the files.
    pub fn filter_name(self) -> (r: &'static str)
        ensures
            r@ == (match self {
                FileKind::SplitsToLoad => "Compatible Splits"@,
                FileKind::SplitsToSave => "LiveSplit Splits"@,
                FileKind::Layout => "YAST Layout"@,
            }),
    {
        match self {
            FileKind::SplitsToLoad => "Compatible Splits",
            FileKind::SplitsToSave => "LiveSplit Splits",
            FileKind::Layout => "YAST Layout",
        }
    }

    /// The extension of the files the dialog lists.
    pub fn extension(self) -> (r: &'static str)
        ensures
            r@ == (match self {
                FileKind::SplitsToLoad => "lss"@,
                FileKind::SplitsToSave => "lss"@,
                FileKind::Layout => "yasl"@,
            }),
    {
        match self {
            FileKind::SplitsToLoad => "lss",
            FileKind::SplitsToSave => "lss",
            FileKind::Layout => "yasl",
        }
    }
}

impl Timer {
    pub fn new() -> (r: Self)
        ensures
            r == (Timer {  }),
    {
        Timer {  }
    }

    /// The title of the window.
    pub fn title(&self) -> (r: String)
        ensures
            r@ == "YAST"@,
    {
        "YAST".to_owned()
    }

    /// What is to be done for a message.
    pub fn update(&mut self, message: TimerMessage) -> (r: TimerTask)
        ensures
            *final(self) == *old(self),
            r == (match message {
                TimerMessage::LoadSplitsOpenPicker => TimerTask::PickFile(FileKind::SplitsToLoad),
                TimerMessage::LoadSplits(path) => TimerTask::ReadSplits(path),
                TimerMessage::SaveSplitsOpenPicker => TimerTask::PickSaveFile(
                    FileKind::SplitsToSave,
                ),
                TimerMessage::SaveSplits(path) => TimerTask::WriteSplits(path),
                TimerMessage::LoadLayoutOpenPicker => TimerTask::PickFile(FileKind::Layout),
                TimerMessage::LoadLayout(path) => TimerTask::ReadLayout(path),
                TimerMessage::SaveLayoutOpenPicker => TimerTask::PickSaveFile(FileKind::Layout),
                TimerMessage::SaveLayout(path) => TimerTask::WriteLayout(path),
            }),
    {
        match message {
            TimerMessage::LoadSplitsOpenPicker => TimerTask::PickFile(FileKind::SplitsToLoad),
            TimerMessage::LoadSplits(path) => TimerTask::ReadSplits(path),
            TimerMessage::SaveSplitsOpenPicker => TimerTask::PickSaveFile(FileKind::SplitsToSave),
            TimerMessage::SaveSplits(path) => TimerTask::WriteSplits(path),
            TimerMessage::LoadLayoutOpenPicker => TimerTask::PickFile(FileKind::Layout),
            TimerMessage::LoadLayout(path) => TimerTask::ReadLayout(path),
            TimerMessage::SaveLayoutOpenPicker => TimerTask::PickSaveFile(FileKind::Layout),
            TimerMessage::SaveLayout(path) => TimerTask::WriteLayout(path),
        }
    }

    /// The message that follows the user's choice in a dialog. A dialog that
    /// was closed without a choice is followed by nothing.
    pub fn picked(purpose: Picked, choice: Option<String>) -> (r: Option<TimerMessage>)
        ensures
            r == (match choice {
                None => None,
                Some(path) => Some(
                    match purpose {
                        Picked::SplitsToLoad => TimerMessage::LoadSplits(path),
                        Picked::SplitsToSave => TimerMessage::SaveSplits(path),
                        Picked::LayoutToLoad => TimerMessage::LoadLayout(path),
                        Picked::LayoutToSave => TimerMessage::SaveLayout(path),
                    },
                ),
            }),
    {
        match choice {
            None => None,
            Some(path) => Some(
                match purpose {
                    Picked::SplitsToLoad => TimerMessage::LoadSplits(path),
                    Picked::SplitsToSave => TimerMessage::SaveSplits(path),
                    Picked::LayoutToLoad => TimerMessage::LoadLayout(path),
                    Picked::LayoutToSave => TimerMessage::SaveLayout(path),
                },
            ),
        }
    }
}

} // verus!
