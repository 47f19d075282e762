//! The execution protocol: confirming uploads, reading the operation stream, and
//! the state machine that takes one action from its first upload to its result.
use vstd::prelude::*;
use crate::action::{action_payload, execution_uploads, plan_execution, ExecutionPlan, PlanError, RebelAction};
use crate::digest::{digest_of, Blob, Digest};
use crate::tree::{all_wf, fits, payloads};

verus! {

/// The type of the payload that a successful operation carries.
pub const EXECUTE_RESPONSE_TYPE: &'static str = "type.googleapis.com/build.bazel.remote.execution.v2.ExecuteResponse";

/// Why an execution failed.
#[derive(Debug, Clone, Copy, PartialEq, Eq, Structural)]
pub enum ExecError {
    /// No input tree was given; nothing was sent.
    MissingInputRoot,
    /// Some payload is too large to digest; nothing was sent.
    PayloadTooLarge,
    /// A call to the server failed.
    Transport,
    /// The server answered an upload with no entry.
    ShortResponse,
    /// The server rejected an upload with this status code.
    UploadRejected(i32),
    /// The server's answer to an upload names no digest.
    MissingDigest,
    /// The server confirmed another digest than the one uploaded.
    DigestMismatch,
    /// The execution finished with this failure status code.
    ExecutionFailed(i32),
    /// The finished operation carries a payload of another type.
    UnexpectedPayload,
    /// The finished operation's payload could not be decoded.
    MalformedResponse,
    /// The execute response holds no action result.
    MissingResult,
    /// The finished operation carries neither a response nor an error.
    NoResult,
    /// The operation stream ended before the operation finished.
    StreamEnded,
}

/// The server's answer for one uploaded blob.
#[derive(Debug, Clone)]
pub struct UploadResponse {
    pub digest: Option<Digest>,
    pub status_code: i32,
}

/// What is wrong with the answer to an upload of the blob with digest
/// `expected`, if anything.
pub open spec fn upload_verdict(expected: (Seq<char>, i64), rs: Seq<UploadResponse>) -> Option<ExecError> {
    if rs.len() == 0 {
        Some(ExecError::ShortResponse)
    } else if rs[0].status_code != 0 {
        Some(ExecError::UploadRejected(rs[0].status_code))
    } else if rs[0].digest is None {
        Some(ExecError::MissingDigest)
    } else if rs[0].digest->0@ != expected {
        Some(ExecError::DigestMismatch)
    } else {
        None
    }
}

/// Checks the server's answer to the upload of one blob.
pub fn confirm_upload(expected: &Digest, rs: &Vec<UploadResponse>) -> (r: Result<(), ExecError>)
    ensures
        r == match upload_verdict(expected@, rs@) {
            None => Ok(()),
            Some(e) => Err(e),
        },
{
    if rs.len() == 0 {
        return Err(ExecError::ShortResponse);
    }
    let first = &rs[0];
    if first.status_code != 0 {
        return Err(ExecError::UploadRejected(first.status_code));
    }
    match &first.digest {
        None => Err(ExecError::MissingDigest),
        Some(d) => {
            if d.same_as(expected) {
                Ok(())
            } else {
                Err(ExecError::DigestMismatch)
            }
        },
    }
}

/// A status: a code, 0 for success, and a message.
#[derive(Debug, Clone)]
pub struct Status {
    pub code: i32,
    pub message: String,
}

/// The payload of a successful operation: a status and the action's result.
pub struct ExecuteResponse<R> {
    pub status: Option<Status>,
    pub result: Option<R>,
}

/// What a finished operation carries.
pub enum OperationResult<R> {
    /// A payload of type `type_url`, decoded as an execute response where it
    /// could be.
    Response { type_url: String, response: Option<ExecuteResponse<R>> },
    /// A failure status.
    Error(Status),
}

/// One update of the operation stream.
pub struct Operation<R> {
    pub done: bool,
    pub result: Option<OperationResult<R>>,
}

/// What an update of the stream decides: nothing while the operation runs,
/// else the action's result or the failure.
pub open spec fn operation_verdict<R>(op: Operation<R>) -> Option<Result<R, ExecError>> {
    if !op.done {
        None
    } else {
        Some(
            match op.result {
                None => Err(ExecError::NoResult),
                Some(OperationResult::Error(s)) => Err(ExecError::ExecutionFailed(s.code)),
                Some(OperationResult::Response { type_url, response }) => {
                    if type_url@ != EXECUTE_RESPONSE_TYPE@ {
                        Err(ExecError::UnexpectedPayload)
                    } else {
                        match response {
                            None => Err(ExecError::MalformedResponse),
                            Some(er) => {
                                if er.status is Some && er.status->0.code != 0 {
                                    Err(ExecError::ExecutionFailed(er.status->0.code))
                                } else {
                                    match er.result {
                                        None => Err(ExecError::MissingResult),
                                        Some(res) => Ok(res),
                                    }
                                }
                            },
                        }
                    }
                },
            },
        )
    }
}

/// An update decides the execution exactly when it says the operation is done:
/// a success payload of the expected type yields its action result unchanged,
/// and a failure status yields a failure with its code.
pub proof fn lemma_completion<R>(op: Operation<R>)
    ensures
        operation_verdict(op) is Some <==> op.done,
        op.done && op.result is Some && op.result->0 is Response && op.result->0->type_url@
            == EXECUTE_RESPONSE_TYPE@ && op.result->0->response is Some
            && op.result->0->response->0.status is None && op.result->0->response->0.result is Some
            ==> operation_verdict(op) == Some(Ok::<R, ExecError>(op.result->0->response->0.result->0)),
        op.done && op.result is Some && op.result->0 is Error ==> operation_verdict(op) == Some(
            Err::<R, ExecError>(ExecError::ExecutionFailed(op.result->0->Error_0.code)),
        ),
{
}

/// Reads one update of the operation stream.
pub fn read_operation<R>(op: Operation<R>) -> (r: Option<Result<R, ExecError>>)
    ensures
        r == operation_verdict(op),
{
    if !op.done {
        return None;
    }
    let ghost op0 = op;
    let verdict = match op.result {
        None => Err(ExecError::NoResult),
        Some(OperationResult::Error(s)) => Err(ExecError::ExecutionFailed(s.code)),
        Some(OperationResult::Response { type_url, response }) => {
            let expected = EXECUTE_RESPONSE_TYPE.to_owned();
            if !type_url.eq(&expected) {
                Err(ExecError::UnexpectedPayload)
            } else {
                match response {
                    None => Err(ExecError::MalformedResponse),
                    Some(er) => {
                        let failed = match &er.status {
                            Some(s) => s.code != 0,
                            None => false,
                        };
                        if failed {
                            let code = match &er.status {
                                Some(s) => s.code,
                                None => 0,
                            };
                            Err(ExecError::ExecutionFailed(code))
                        } else {
                            match er.result {
                                None => Err(ExecError::MissingResult),
                                Some(res) => Ok(res),
                            }
                        }
                    },
                }
            }
        },
    };
    Some(verdict)
}


/// Where an execution stands.
#[derive(Debug, Clone, Copy, PartialEq, Eq, Structural)]
pub enum Phase {
    /// Uploading the planned blobs, one at a time.
    Uploading,
    /// Every blob is confirmed; the action is to be submitted.
    Submitting,
    /// Submitted; reading the operation stream.
    Streaming,
    /// Finished, with a result or a failure.
    Done,
}

/// What the caller does next for an execution.
#[derive(Debug, Clone, Copy, PartialEq, Eq, Structural)]
pub enum Step {
    /// Upload the planned blob at this index.
    Upload(usize),
    /// Submit the action digest for execution.
    Submit,
    /// Read the next update of the operation stream.
    Receive,
    /// Take the outcome.
    Finished,
}

/// One action on its way from the first upload to its result. It never goes
/// back to an earlier phase.
pub struct Execution<R> {
    pub plan: ExecutionPlan,
    /// How many planned blobs were confirmed.
    pub uploaded: usize,
    pub phase: Phase,
    pub outcome: Option<Result<R, ExecError>>,
}

impl<R> Execution<R> {
    pub open spec fn wf(&self) -> bool {
        &&& self.plan.uploads@.len() > 0
        &&& self.uploaded <= self.plan.uploads@.len()
        &&& (self.phase == Phase::Uploading) ==> self.uploaded < self.plan.uploads@.len()
        &&& (self.phase == Phase::Submitting || self.phase == Phase::Streaming) ==> self.uploaded
            == self.plan.uploads@.len()
        &&& (self.phase == Phase::Done) <==> self.outcome is Some
    }

    pub open spec fn step_of(&self) -> Step {
        match self.phase {
            Phase::Uploading => Step::Upload(self.uploaded),
            Phase::Submitting => Step::Submit,
            Phase::Streaming => Step::Receive,
            Phase::Done => Step::Finished,
        }
    }

    /// Plans an action and starts at its first upload. Fails, before anything is
    /// sent, when the plan cannot be made.
    pub fn start(a: &RebelAction) -> (r: Result<Execution<R>, ExecError>)
        ensures
            a.input_root is None ==> r == Err::<Execution<R>, ExecError>(ExecError::MissingInputRoot),
            a.input_root is Some ==> (r is Ok <==> fits(execution_uploads(*a, a.input_root->0))),
            a.input_root is Some && r is Err ==> r->Err_0 == ExecError::PayloadTooLarge,
            r is Ok ==> r->Ok_0.wf() && r->Ok_0.phase == Phase::Uploading && r->Ok_0.uploaded == 0,
            r is Ok ==> all_wf(r->Ok_0.plan.uploads@),
            r is Ok ==> payloads(r->Ok_0.plan.uploads@) == execution_uploads(*a, a.input_root->0),
            r is Ok ==> r->Ok_0.plan.action_digest@ == digest_of(action_payload(*a, a.input_root->0)),
    {
        match plan_execution(a) {
            Err(e) => Err(match e {
                PlanError::MissingInputRoot => ExecError::MissingInputRoot,
                PlanError::PayloadTooLarge => ExecError::PayloadTooLarge,
            }),
            Ok(plan) => {
                assert(payloads(plan.uploads@).len() == plan.uploads@.len());
                Ok(Execution { plan, uploaded: 0, phase: Phase::Uploading, outcome: None })
            },
        }
    }

    /// What to do next.
    pub fn next_step(&self) -> (r: Step)
        ensures
            r == self.step_of(),
    {
        match self.phase {
            Phase::Uploading => Step::Upload(self.uploaded),
            Phase::Submitting => Step::Submit,
            Phase::Streaming => Step::Receive,
            Phase::Done => Step::Finished,
        }
    }

    /// The planned blob at index `i`.
    pub fn blob(&self, i: usize) -> (r: &Blob)
        requires
            i < self.plan.uploads@.len(),
        ensures
            *r == self.plan.uploads@[i as int],
    {
        &self.plan.uploads[i]
    }

    /// The digest to submit.
    pub fn action_digest(&self) -> (r: &Digest)
        ensures
            *r == self.plan.action_digest,
    {
        &self.plan.action_digest
    }

    /// Takes the server's answer to the upload of the current blob: on to the
    /// next blob, or to submission after the last, or to a failure.
    pub fn upload_answered(&mut self, rs: &Vec<UploadResponse>)
        requires
            old(self).wf(),
            old(self).phase == Phase::Uploading,
        ensures
            final(self).wf(),
            final(self).plan == old(self).plan,
            match upload_verdict(old(self).plan.uploads@[old(self).uploaded as int].digest@, rs@) {
                Some(e) => final(self).phase == Phase::Done && final(self).outcome == Some(
                    Err::<R, ExecError>(e),
                ) && final(self).uploaded == old(self).uploaded,
                None => final(self).uploaded == old(self).uploaded + 1 && final(self).phase == (
                if final(self).uploaded == old(self).plan.uploads@.len() {
                    Phase::Submitting
                } else {
                    Phase::Uploading
                }),
            },
    {
        let n = self.plan.uploads.len();
        let checked = confirm_upload(&self.plan.uploads[self.uploaded].digest, rs);
        match checked {
            Err(e) => {
                self.phase = Phase::Done;
                self.outcome = Some(Err(e));
            },
            Ok(()) => {
                self.uploaded = self.uploaded + 1;
                if self.uploaded == n {
                    self.phase = Phase::Submitting;
                } else {
                    self.phase = Phase::Uploading;
                }
            },
        }
    }

    /// The server accepted the submission: on to the operation stream.
    pub fn submitted(&mut self)
        requires
            old(self).wf(),
            old(self).phase == Phase::Submitting,
        ensures
            final(self).wf(),
            final(self).plan == old(self).plan,
            final(self).uploaded == old(self).uploaded,
            final(self).phase == Phase::Streaming,
    {
        self.phase = Phase::Streaming;
    }

    /// Takes one update of the operation stream: the execution finishes on the
    /// first update that says the operation is done.
    pub fn received(&mut self, op: Operation<R>)
        requires
            old(self).wf(),
            old(self).phase == Phase::Streaming,
        ensures
            final(self).wf(),
            final(self).plan == old(self).plan,
            final(self).uploaded == old(self).uploaded,
            operation_verdict(op) is None ==> final(self).phase == Phase::Streaming,
            operation_verdict(op) is Some ==> final(self).phase == Phase::Done
                && final(self).outcome == operation_verdict(op),
    {
        let v = read_operation(op);
        if v.is_some() {
            self.phase = Phase::Done;
            self.outcome = v;
        }
    }

    /// The operation stream ended before the operation was done.
    pub fn stream_ended(&mut self)
        requires
            old(self).wf(),
            old(self).phase == Phase::Streaming,
        ensures
            final(self).wf(),
            final(self).plan == old(self).plan,
            final(self).phase == Phase::Done,
            final(self).outcome == Some(Err::<R, ExecError>(ExecError::StreamEnded)),
    {
        self.phase = Phase::Done;
        self.outcome = Some(Err(ExecError::StreamEnded));
    }

    /// A call to the server failed: the execution fails with it.
    pub fn transport_failed(&mut self)
        requires
            old(self).wf(),
            old(self).phase != Phase::Done,
        ensures
            final(self).wf(),
            final(self).plan == old(self).plan,
            final(self).phase == Phase::Done,
            final(self).outcome == Some(Err::<R, ExecError>(ExecError::Transport)),
    {
        self.phase = Phase::Done;
        self.outcome = Some(Err(ExecError::Transport));
    }

    /// The outcome of a finished execution.
    pub fn into_outcome(self) -> (r: Result<R, ExecError>)
        requires
            self.wf(),
            self.phase == Phase::Done,
        ensures
            Some(r) == self.outcome,
    {
        match self.outcome {
            Some(o) => o,
            None => Err(ExecError::NoResult),
        }
    }
}

} // verus!
