//! What can go wrong while a build is set up and run.

use vstd::prelude::*;

verus! {

/// A failure of the orchestration. A build that ran and failed is no such
/// failure: its exit status is handed on as it is.
#[derive(Debug, Clone, PartialEq, Eq)]
pub enum Error {
    /// No engine program was found.
    EngineNotFound,
    /// The container that this process runs in uses a storage driver other
    /// than overlay2; the driver's name is kept.
    UnsupportedStorageDriver(String),
    /// What the engine said about this process's own container does not
    /// have the expected shape.
    MountTranslationFailure,
    /// A persistent volume exists where it was to be created, or is absent
    /// where it was to be removed; the volume's name is kept.
    PreconditionViolated(String),
    /// The engine named a container state that is not known; the name is
    /// kept.
    UnknownContainerState(String),
    /// No image is configured for the target and none is provided for it;
    /// the target is kept.
    ImageNotAvailable(String),
    /// A real file stands where a link to staged data was to be made.
    SymlinkCollision,
    /// An engine command could not be run or reported a failure.
    ExecutionFailed,
    /// A variable that is passed into the container has a reserved name.
    ReservedVariable,
    /// Extra engine options could not be split into words; the text is kept.
    InvalidOptions(String),
    /// A path lacks a parent directory where one is needed; the path is
    /// kept.
    NoParent(String),
    /// The current directory lies outside the workspace, and nothing else
    /// places it inside the container.
    OutsideWorkspace,
    /// A path that must begin at the root does not; the path is kept.
    NotAbsolute(String),
    /// A path that must not begin at the root does; the path is kept.
    NotRelative(String),
    /// A line of output does not have the expected shape; the line is
    /// kept.
    Malformed(String),
    /// A pre-release tag names no channel; the name is kept.
    UnknownChannel(String),
    /// A text is no version; the text is kept.
    InvalidVersion(String),
    /// An image names no target; the image's name is kept.
    NoImageTarget(String),
    /// A text does not begin with what it was to begin with.
    NoPrefix,
    /// An argument needs a value and has none; the argument is kept.
    MissingValue(String),
    /// Bytes are no UTF-8.
    NotUtf8,
    /// A placeholder holds nothing.
    EmptyPlaceholder,
    /// A placeholder begins inside a placeholder.
    NestedStart,
    /// A placeholder begins and does not end.
    StartWithoutEnd,
    /// A placeholder ends that did not begin.
    EndWithoutStart,
    /// Text follows what must stand at the end.
    GroupNotAtEnd,
    /// A placeholder is not known; its name is kept.
    UnsupportedPlaceholder(String),
    /// A placeholder names a separator and has no use for one.
    UnexpectedSeparator,
    /// A text is no number, or the number is too large; the text is kept.
    InvalidNumber(String),
    /// A text is no commit hash; the text is kept.
    InvalidHash(String),
}

/// The plain values of an `Error`.
pub ghost enum ErrorView {
    EngineNotFound,
    UnsupportedStorageDriver(Seq<char>),
    MountTranslationFailure,
    PreconditionViolated(Seq<char>),
    UnknownContainerState(Seq<char>),
    ImageNotAvailable(Seq<char>),
    SymlinkCollision,
    ExecutionFailed,
    ReservedVariable,
    InvalidOptions(Seq<char>),
    NoParent(Seq<char>),
    OutsideWorkspace,
    NotAbsolute(Seq<char>),
    NotRelative(Seq<char>),
    Malformed(Seq<char>),
    UnknownChannel(Seq<char>),
    InvalidVersion(Seq<char>),
    NoImageTarget(Seq<char>),
    NoPrefix,
    MissingValue(Seq<char>),
    NotUtf8,
    EmptyPlaceholder,
    NestedStart,
    StartWithoutEnd,
    EndWithoutStart,
    GroupNotAtEnd,
    UnsupportedPlaceholder(Seq<char>),
    UnexpectedSeparator,
    InvalidNumber(Seq<char>),
    InvalidHash(Seq<char>),
}

impl View for Error {
    type V = ErrorView;

    open spec fn view(&self) -> ErrorView {
        match self {
            Error::EngineNotFound => ErrorView::EngineNotFound,
            Error::UnsupportedStorageDriver(text) => ErrorView::UnsupportedStorageDriver(text@),
            Error::MountTranslationFailure => ErrorView::MountTranslationFailure,
            Error::PreconditionViolated(text) => ErrorView::PreconditionViolated(text@),
            Error::UnknownContainerState(text) => ErrorView::UnknownContainerState(text@),
            Error::ImageNotAvailable(text) => ErrorView::ImageNotAvailable(text@),
            Error::SymlinkCollision => ErrorView::SymlinkCollision,
            Error::ExecutionFailed => ErrorView::ExecutionFailed,
            Error::ReservedVariable => ErrorView::ReservedVariable,
            Error::InvalidOptions(text) => ErrorView::InvalidOptions(text@),
            Error::NoParent(text) => ErrorView::NoParent(text@),
            Error::OutsideWorkspace => ErrorView::OutsideWorkspace,
            Error::NotAbsolute(text) => ErrorView::NotAbsolute(text@),
            Error::NotRelative(text) => ErrorView::NotRelative(text@),
            Error::Malformed(text) => ErrorView::Malformed(text@),
            Error::UnknownChannel(text) => ErrorView::UnknownChannel(text@),
            Error::InvalidVersion(text) => ErrorView::InvalidVersion(text@),
            Error::NoImageTarget(text) => ErrorView::NoImageTarget(text@),
            Error::NoPrefix => ErrorView::NoPrefix,
            Error::MissingValue(text) => ErrorView::MissingValue(text@),
            Error::NotUtf8 => ErrorView::NotUtf8,
            Error::EmptyPlaceholder => ErrorView::EmptyPlaceholder,
            Error::NestedStart => ErrorView::NestedStart,
            Error::StartWithoutEnd => ErrorView::StartWithoutEnd,
            Error::EndWithoutStart => ErrorView::EndWithoutStart,
            Error::GroupNotAtEnd => ErrorView::GroupNotAtEnd,
            Error::UnsupportedPlaceholder(text) => ErrorView::UnsupportedPlaceholder(text@),
            Error::UnexpectedSeparator => ErrorView::UnexpectedSeparator,
            Error::InvalidNumber(text) => ErrorView::InvalidNumber(text@),
            Error::InvalidHash(text) => ErrorView::InvalidHash(text@),
        }
    }
}

} // verus!
