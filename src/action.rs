//! Action specifications and the plan of uploads that executing one takes.
use vstd::prelude::*;
use crate::digest::{digest_of, Blob, Digest, MAX_PAYLOAD_LEN};
use crate::tree::{all_wf, dir_message, fits, payloads, tree_uploads, upload_order, Directory};
use crate::wire::{action_message, action_msg, command_message, command_msg, texts};

verus! {

/// What to execute: the command line, where, on which input tree, and which
/// outputs to collect.
pub struct RebelAction {
    /// The command line. The first argument names the program: an absolute
    /// path, a path relative to the working directory, or a bare name looked up
    /// through the executor's search path.
    pub args: Vec<String>,
    pub working_directory: String,
    pub input_root: Option<Directory>,
    pub output_paths: Vec<String>,
    /// Asks the server not to keep the result in its action cache.
    pub do_not_cache: bool,
}

impl Default for RebelAction {
    fn default() -> (r: Self)
        ensures
            r.args@.len() == 0,
            r.working_directory@.len() == 0,
            r.input_root is None,
            r.output_paths@.len() == 0,
            r.do_not_cache,
    {
        RebelAction::new()
    }
}

impl RebelAction {
    /// An empty specification, with no input root, whose result is not cached.
    pub fn new() -> (r: Self)
        ensures
            r.args@.len() == 0,
            r.working_directory@.len() == 0,
            r.input_root is None,
            r.output_paths@.len() == 0,
            r.do_not_cache,
    {
        RebelAction {
            args: Vec::new(),
            working_directory: String::new(),
            input_root: None,
            output_paths: Vec::new(),
            do_not_cache: true,
        }
    }

    /// Sets the command line.
    pub fn args(self, args: Vec<String>) -> (r: Self)
        ensures
            r == (RebelAction { args, ..self }),
    {
        RebelAction { args, ..self }
    }

    /// Sets the working directory of the command.
    pub fn working_dir(self, working_directory: String) -> (r: Self)
        ensures
            r == (RebelAction { working_directory, ..self }),
    {
        RebelAction { working_directory, ..self }
    }

    /// Sets the input tree of the command.
    pub fn input_root(self, input_root: Directory) -> (r: Self)
        ensures
            r == (RebelAction { input_root: Some(input_root), ..self }),
    {
        RebelAction { input_root: Some(input_root), ..self }
    }

    /// Sets the paths of the outputs to collect.
    pub fn output_paths(self, output_paths: Vec<String>) -> (r: Self)
        ensures
            r == (RebelAction { output_paths, ..self }),
    {
        RebelAction { output_paths, ..self }
    }

    /// Sets whether the server should keep the result out of its cache.
    pub fn cacheable(self, cacheable: bool) -> (r: Self)
        ensures
            r == (RebelAction { do_not_cache: !cacheable, ..self }),
    {
        RebelAction { do_not_cache: !cacheable, ..self }
    }
}

/// Why an action cannot be planned.
#[derive(Debug, Clone, Copy, PartialEq, Eq, Structural)]
pub enum PlanError {
    /// No input tree was given.
    MissingInputRoot,
    /// Some payload is too large to digest.
    PayloadTooLarge,
}

/// The wire form of the command of an action.
pub open spec fn command_payload(a: RebelAction) -> Seq<u8> {
    command_msg(texts(a.args@), a.working_directory@, texts(a.output_paths@))
}

/// The wire form of an action whose input tree is `root`.
pub open spec fn action_payload(a: RebelAction, root: Directory) -> Seq<u8> {
    action_msg(digest_of(command_payload(a)), digest_of(dir_message(root)), a.do_not_cache)
}

/// What executing an action uploads, in order: the command, the input tree
/// bottom-up, then the action.
pub open spec fn execution_uploads(a: RebelAction, root: Directory) -> Seq<Seq<u8>> {
    seq![command_payload(a)] + tree_uploads(root) + seq![action_payload(a, root)]
}

/// The blobs to upload for an action, in order, and the digest to submit.
pub struct ExecutionPlan {
    pub uploads: Vec<Blob>,
    pub action_digest: Digest,
}

/// Builds the command, the input tree and the action of a specification, and
/// lists their blobs in upload order. Nothing is planned without an input root.
pub fn plan_execution(a: &RebelAction) -> (r: Result<ExecutionPlan, PlanError>)
    ensures
        a.input_root is None ==> r == Err::<ExecutionPlan, PlanError>(PlanError::MissingInputRoot),
        a.input_root is Some ==> (r is Ok <==> fits(execution_uploads(*a, a.input_root->0))),
        a.input_root is Some && r is Err ==> r->Err_0 == PlanError::PayloadTooLarge,
        r is Ok ==> all_wf(r->Ok_0.uploads@),
        r is Ok ==> payloads(r->Ok_0.uploads@) == execution_uploads(*a, a.input_root->0),
        r is Ok ==> r->Ok_0.action_digest@ == digest_of(action_payload(*a, a.input_root->0)),
{
    let root = match &a.input_root {
        None => return Err(PlanError::MissingInputRoot),
        Some(d) => d,
    };
    let ghost all = execution_uploads(*a, *root);
    let command = command_message(&a.args, a.working_directory.as_str(), &a.output_paths);
    if command.len() as u64 > MAX_PAYLOAD_LEN {
        assert(all[0] == command@);
        return Err(PlanError::PayloadTooLarge);
    }
    let command_blob = Blob::from_bytes(command);
    let command_digest = command_blob.digest.duplicate();
    let mut uploads: Vec<Blob> = Vec::new();
    uploads.push(command_blob);
    let ghost first = uploads@;
    assert(payloads(first) =~= seq![command_payload(*a)]);
    let root_digest = match upload_order(root, &mut uploads) {
        None => {
            proof {
                let t = tree_uploads(*root);
                let m = choose|m: int| 0 <= m < t.len() && !(t[m].len() <= MAX_PAYLOAD_LEN);
                assert(all[m + 1] == t[m]);
            }
            return Err(PlanError::PayloadTooLarge);
        },
        Some(dg) => dg,
    };
    let action = action_message(&command_digest, &root_digest, a.do_not_cache);
    if action.len() as u64 > MAX_PAYLOAD_LEN {
        assert(all[all.len() - 1] == action@);
        return Err(PlanError::PayloadTooLarge);
    }
    let action_blob = Blob::from_bytes(action);
    let action_digest = action_blob.digest.duplicate();
    let ghost prev = uploads@;
    let ghost action_bytes = action_blob.inner@;
    uploads.push(action_blob);
    proof {
        assert(payloads(uploads@) =~= payloads(prev).push(action_bytes));
        assert(payloads(uploads@) =~= all);
        assert forall|i: int| 0 <= i < all.len() implies #[trigger] all[i].len() <= MAX_PAYLOAD_LEN by {
            assert(all[i] == payloads(uploads@)[i]);
        }
    }
    Ok(ExecutionPlan { uploads, action_digest })
}

} // verus!
