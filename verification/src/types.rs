//! Library-specific type definitions
use vstd::prelude::*;

verus! {

/// What can end a run before its time.
#[derive(Debug, PartialEq, Eq)]
pub enum Failure {
    /// No directory at or above the starting point holds both a manifest
    /// and an examples folder; the text says where the search began.
    NotFound(String),
    /// A replay was asked for, and no earlier run is on record.
    ReplayUnavailable,
    /// A manifest could not be parsed; the text is the parser's.
    ManifestParse(String),
    /// The arguments typed at the prompt hold a quote that is never closed.
    MismatchedQuotes,
    /// The build tool could not be started.
    SpawnFailure(String),
    /// The build tool ran the named example and reported a failure.
    ProcessFailure(String),
    /// A file or a stream could not be read or written.
    Io(String),
    /// An event arrived that the run was not waiting for.
    UnexpectedEvent,
}

/// The mathematical content of an [`Failure`]. The text of a parser's message
/// is no part of it.
pub enum FailureView {
    NotFound(Seq<char>),
    ReplayUnavailable,
    ManifestParse,
    MismatchedQuotes,
    SpawnFailure(Seq<char>),
    ProcessFailure(Seq<char>),
    Io(Seq<char>),
    UnexpectedEvent,
}

impl View for Failure {
    type V = FailureView;

    open spec fn view(&self) -> FailureView {
        match self {
            Failure::NotFound(text) => FailureView::NotFound(text@),
            Failure::ReplayUnavailable => FailureView::ReplayUnavailable,
            Failure::ManifestParse(_) => FailureView::ManifestParse,
            Failure::MismatchedQuotes => FailureView::MismatchedQuotes,
            Failure::SpawnFailure(text) => FailureView::SpawnFailure(text@),
            Failure::ProcessFailure(name) => FailureView::ProcessFailure(name@),
            Failure::Io(text) => FailureView::Io(text@),
            Failure::UnexpectedEvent => FailureView::UnexpectedEvent,
        }
    }
}

/// The words that tell a failure to the user.
pub open spec fn message_text(failure: FailureView) -> Seq<char> {
    match failure {
        FailureView::NotFound(text) => text,
        FailureView::ReplayUnavailable => "no earlier run to replay"@,
        FailureView::ManifestParse => "the manifest could not be parsed"@,
        FailureView::MismatchedQuotes => "Mismatched quotes"@,
        FailureView::SpawnFailure(text) => "could not start `cargo`: "@ + text,
        FailureView::ProcessFailure(name) => "example `"@ + name + "` failed"@,
        FailureView::Io(text) => text,
        FailureView::UnexpectedEvent => "the run was told of something out of turn"@,
    }
}

impl Failure {
    /// The words that tell the failure to the user. For a manifest that
    /// could not be parsed they are the parser's own.
    pub fn message(&self) -> (r: String)
        ensures
            match self {
                Failure::ManifestParse(text) => r@ == text@,
                _ => r@ == message_text(self@),
            },
    {
        match self {
            Failure::NotFound(text) => text.clone(),
            Failure::ReplayUnavailable => "no earlier run to replay".to_owned(),
            Failure::ManifestParse(text) => text.clone(),
            Failure::MismatchedQuotes => "Mismatched quotes".to_owned(),
            Failure::SpawnFailure(text) => {
                let mut r = "could not start `cargo`: ".to_owned();
                r.append(text.as_str());
                r
            },
            Failure::ProcessFailure(name) => {
                let mut r = "example `".to_owned();
                r.append(name.as_str());
                r.append("` failed");
                r
            },
            Failure::Io(text) => text.clone(),
            Failure::UnexpectedEvent => "the run was told of something out of turn".to_owned(),
        }
    }

    /// A copy of the failure.
    pub fn duplicate(&self) -> (r: Failure)
        ensures
            r@ == self@,
    {
        match self {
            Failure::NotFound(text) => Failure::NotFound(text.clone()),
            Failure::ReplayUnavailable => Failure::ReplayUnavailable,
            Failure::ManifestParse(text) => Failure::ManifestParse(text.clone()),
            Failure::MismatchedQuotes => Failure::MismatchedQuotes,
            Failure::SpawnFailure(text) => Failure::SpawnFailure(text.clone()),
            Failure::ProcessFailure(name) => Failure::ProcessFailure(name.clone()),
            Failure::Io(text) => Failure::Io(text.clone()),
            Failure::UnexpectedEvent => Failure::UnexpectedEvent,
        }
    }
}

} // verus!
