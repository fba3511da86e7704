//! Errors as plain values: the kind of an I/O error and its message.
use vstd::prelude::*;

verus! {

/// The kinds of I/O error that the daemon raises by itself.
#[derive(Clone, Copy, Debug, PartialEq, Eq, Structural)]
pub enum ErrorKind {
    NotFound,
    InvalidInput,
    Other,
}

/// An error of the daemon's own.
#[derive(Debug)]
pub struct Failure {
    pub kind: ErrorKind,
    pub message: String,
}

/// What a [`Failure`] says.
#[verifier::ext_equal]
pub struct FailureView {
    pub kind: ErrorKind,
    pub message: Seq<char>,
}

impl View for Failure {
    type V = FailureView;

    open spec fn view(&self) -> FailureView {
        FailureView { kind: self.kind, message: self.message@ }
    }
}

impl Failure {
    /// A failure whose message is `subject` followed by `complaint`.
    pub fn about(kind: ErrorKind, subject: &str, complaint: &str) -> (failure: Failure)
        ensures
            failure@ == failure_about(kind, subject@, complaint@),
            failure.kind == kind,
            failure.message@ == subject@ + complaint@,
    {
        let mut message = subject.to_owned();
        message.append(complaint);
        Failure { kind, message }
    }
}

pub open spec fn failure_about(
    kind: ErrorKind,
    subject: Seq<char>,
    complaint: Seq<char>,
) -> FailureView {
    FailureView { kind, message: subject + complaint }
}

/// A failure is of the kind it was made with, and its message is what it is about,
/// followed by the complaint. Its view tells both.
pub proof fn law_failure_tells_subject_and_complaint(
    kind: ErrorKind,
    subject: Seq<char>,
    complaint: Seq<char>,
    failure: Failure,
)
    ensures
        failure_about(kind, subject, complaint).kind == kind,
        failure_about(kind, subject, complaint).message == subject + complaint,
        failure@.kind == failure.kind,
        failure@.message == failure.message@,
{
}

} // verus!
