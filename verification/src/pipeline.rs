//! Processing-stage plumbing: the comments a stage can attach to the
//! session state while tags flow through.
use vstd::prelude::*;

verus! {

/// What kind of condition a processing comment records.
#[derive(Debug, Clone, Copy, PartialEq, Eq, Structural)]
pub enum CommentType {
    /// A fault in the stream that no stage can repair.
    Unrepairable,
    /// A decoding-header observation.
    DecodingHeader,
    /// A timestamp irregularity.
    TimestampJump,
    /// An unusual but harmless observation.
    Logging,
}

/// A remark a processing stage attaches to the session.
pub struct ProcessingComment {
    pub comment_type: CommentType,
    pub action_required: bool,
    pub comment: String,
}

impl ProcessingComment {
    /// A comment; an empty text would say nothing, so it is not accepted.
    pub fn new(comment_type: CommentType, action_required: bool, comment: String) -> (r: Self)
        requires
            comment@.len() > 0,
        ensures
            r.comment_type == comment_type,
            r.action_required == action_required,
            r.comment@ == comment@,
    {
        ProcessingComment { comment_type, action_required, comment }
    }
}

/// Session state threaded through the processing stages: the comments
/// gathered so far.
pub struct State {
    pub comments: Vec<ProcessingComment>,
}

impl State {
    /// A state with no comments.
    pub fn new() -> (r: Self)
        ensures
            r.comments@.len() == 0,
    {
        State { comments: Vec::new() }
    }

    /// Appends one comment.
    pub fn add_comment(&mut self, value: ProcessingComment)
        ensures
            final(self).comments@ == old(self).comments@.push(value),
    {
        self.comments.push(value)
    }
}

} // verus!
