use rebel::action::{plan_execution, RebelAction};
use rebel::digest::{digest, Digest};
use rebel::harness::{Pool, PoolStep};
use rebel::protocol::{
    confirm_upload, read_operation, ExecError, ExecuteResponse, Execution, Operation,
    OperationResult, Phase, Status, Step, UploadResponse, EXECUTE_RESPONSE_TYPE,
};
use rebel::tree::{upload_order, Directory, File};

fn readme_tree() -> Directory {
    Directory::new(
        String::new(),
        vec![],
        vec![File::new("README".to_string(), b"Hello".to_vec())],
    )
}

fn root_digest(d: &Directory) -> (Digest, Vec<Vec<u8>>) {
    let mut out = Vec::new();
    let r = upload_order(d, &mut out).expect("fits");
    (r, out.into_iter().map(|b| b.inner).collect())
}

fn cp_action() -> RebelAction {
    RebelAction::default()
        .args(vec!["/bin/cp".to_string(), "README".to_string(), "bwb-test".to_string()])
        .input_root(readme_tree())
        .output_paths(vec!["bwb-test".to_string()])
}

fn ok_reply(d: &Digest) -> Vec<UploadResponse> {
    vec![UploadResponse { digest: Some(d.clone()), status_code: 0 }]
}

fn success(result: &str) -> Operation<String> {
    Operation {
        done: true,
        result: Some(OperationResult::Response {
            type_url: EXECUTE_RESPONSE_TYPE.to_string(),
            response: Some(ExecuteResponse { status: None, result: Some(result.to_string()) }),
        }),
    }
}

fn pending() -> Operation<String> {
    Operation { done: false, result: None }
}

#[test]
fn single_file_tree_listing() {
    let (root, uploads) = root_digest(&readme_tree());
    assert_eq!(uploads.len(), 2);
    assert_eq!(uploads[0], b"Hello".to_vec());
    let hello = digest(b"Hello");
    let mut listing = vec![0x0a, 0x4e, 0x0a, 6];
    listing.extend_from_slice(b"README");
    listing.extend_from_slice(&[0x12, 0x44, 0x0a, 0x40]);
    listing.extend_from_slice(hello.hash.as_bytes());
    listing.extend_from_slice(&[0x10, 5]);
    assert_eq!(uploads[1], listing);
    assert_eq!(root, digest(&listing));
}

#[test]
fn same_tree_twice_gives_same_root() {
    let (a, ua) = root_digest(&readme_tree());
    let (b, ub) = root_digest(&readme_tree());
    assert_eq!(a, b);
    assert_eq!(ua, ub);
}

#[test]
fn empty_directory_has_empty_listing() {
    let (root, uploads) = root_digest(&Directory::new(String::new(), vec![], vec![]));
    assert_eq!(uploads, vec![Vec::<u8>::new()]);
    assert_eq!(root, digest(b""));
}

#[test]
fn file_order_is_kept() {
    let f = |n: &str, c: &[u8]| File::new(n.to_string(), c.to_vec());
    let ab = Directory::new(String::new(), vec![], vec![f("a", b"1"), f("b", b"2")]);
    let ba = Directory::new(String::new(), vec![], vec![f("b", b"2"), f("a", b"1")]);
    let (ra, ua) = root_digest(&ab);
    let (rb, ub) = root_digest(&ba);
    assert_ne!(ua.last(), ub.last());
    assert_ne!(ra, rb);
}

#[test]
fn duplicate_names_are_kept() {
    let f = || File::new("x".to_string(), b"1".to_vec());
    let (_, two) = root_digest(&Directory::new(String::new(), vec![], vec![f(), f()]));
    let (_, one) = root_digest(&Directory::new(String::new(), vec![], vec![f()]));
    assert_eq!(two.len(), 3);
    assert_eq!(two[2].len(), 2 * one[1].len());
}

#[test]
fn subdirectory_is_uploaded_before_parent() {
    let sub = Directory::new("sub".to_string(), vec![], vec![File::new("inner".to_string(), b"x".to_vec())]);
    let (sub_root, sub_uploads) = root_digest(&Directory::new(
        "sub".to_string(),
        vec![],
        vec![File::new("inner".to_string(), b"x".to_vec())],
    ));
    let top = Directory::new(String::new(), vec![sub], vec![File::new("README".to_string(), b"Hello".to_vec())]);
    let (_, uploads) = root_digest(&top);
    let sub_listing = sub_uploads.last().unwrap().clone();
    let sub_pos = uploads.iter().position(|u| *u == sub_listing).unwrap();
    assert_eq!(sub_pos, 1);
    assert_eq!(uploads.len(), 4);
    assert_eq!(uploads[2], b"Hello".to_vec());
    let parent = &uploads[3];
    assert!(parent.windows(sub_root.hash.len()).any(|w| w == sub_root.hash.as_bytes()));
}

#[test]
fn upload_confirmation_errors() {
    let d = digest(b"Hello");
    assert_eq!(confirm_upload(&d, &ok_reply(&d)), Ok(()));
    assert_eq!(confirm_upload(&d, &vec![]), Err(ExecError::ShortResponse));
    assert_eq!(
        confirm_upload(&d, &vec![UploadResponse { digest: None, status_code: 0 }]),
        Err(ExecError::MissingDigest)
    );
    assert_eq!(
        confirm_upload(&d, &vec![UploadResponse { digest: Some(d.clone()), status_code: 3 }]),
        Err(ExecError::UploadRejected(3))
    );
    assert_eq!(confirm_upload(&d, &ok_reply(&digest(b"other"))), Err(ExecError::DigestMismatch));
}

#[test]
fn operation_updates() {
    assert!(read_operation(pending()).is_none());
    assert_eq!(read_operation(success("r")), Some(Ok("r".to_string())));
    let failed: Operation<String> = Operation {
        done: true,
        result: Some(OperationResult::Error(Status { code: 13, message: "boom".to_string() })),
    };
    assert_eq!(read_operation(failed), Some(Err(ExecError::ExecutionFailed(13))));
    let status_failed: Operation<String> = Operation {
        done: true,
        result: Some(OperationResult::Response {
            type_url: EXECUTE_RESPONSE_TYPE.to_string(),
            response: Some(ExecuteResponse {
                status: Some(Status { code: 9, message: String::new() }),
                result: Some("r".to_string()),
            }),
        }),
    };
    assert_eq!(read_operation(status_failed), Some(Err(ExecError::ExecutionFailed(9))));
    let wrong_type: Operation<String> = Operation {
        done: true,
        result: Some(OperationResult::Response { type_url: "t".to_string(), response: None }),
    };
    assert_eq!(read_operation(wrong_type), Some(Err(ExecError::UnexpectedPayload)));
    let undecoded: Operation<String> = Operation {
        done: true,
        result: Some(OperationResult::Response { type_url: EXECUTE_RESPONSE_TYPE.to_string(), response: None }),
    };
    assert_eq!(read_operation(undecoded), Some(Err(ExecError::MalformedResponse)));
    let empty: Operation<String> = Operation {
        done: true,
        result: Some(OperationResult::Response {
            type_url: EXECUTE_RESPONSE_TYPE.to_string(),
            response: Some(ExecuteResponse { status: None, result: None }),
        }),
    };
    assert_eq!(read_operation(empty), Some(Err(ExecError::MissingResult)));
    let bare: Operation<String> = Operation { done: true, result: None };
    assert_eq!(read_operation(bare), Some(Err(ExecError::NoResult)));
}

/// Drives an execution against a fake server that confirms every upload and
/// then streams `updates`; `None` when the stream runs out.
fn run_against_fake(a: &RebelAction, updates: Vec<Operation<String>>) -> (Result<String, ExecError>, Vec<Digest>) {
    let mut ex: Execution<String> = match Execution::start(a) {
        Ok(ex) => ex,
        Err(e) => return (Err(e), vec![]),
    };
    let mut stream = updates.into_iter();
    let mut uploaded = Vec::new();
    loop {
        match ex.next_step() {
            Step::Upload(i) => {
                let d = ex.blob(i).digest.clone();
                uploaded.push(d.clone());
                ex.upload_answered(&ok_reply(&d));
            }
            Step::Submit => ex.submitted(),
            Step::Receive => match stream.next() {
                Some(op) => ex.received(op),
                None => ex.stream_ended(),
            },
            Step::Finished => return (ex.into_outcome(), uploaded),
        }
    }
}

#[test]
fn end_to_end_cp_readme() {
    let canned = "exit_code: 0, output_files: [bwb-test]";
    let (r, uploaded) = run_against_fake(&cp_action(), vec![pending(), pending(), success(canned)]);
    assert_eq!(r, Ok(canned.to_string()));
    let plan = plan_execution(&cp_action()).unwrap();
    assert_eq!(uploaded.len(), 4);
    assert_eq!(uploaded[3], plan.action_digest);
    assert_eq!(uploaded[1], digest(b"Hello"));
}

#[test]
fn stream_without_done_is_a_protocol_error() {
    let (r, _) = run_against_fake(&cp_action(), vec![pending(), pending()]);
    assert_eq!(r, Err(ExecError::StreamEnded));
}

#[test]
fn missing_input_root_sends_nothing() {
    let a = RebelAction::new().args(vec!["/bin/true".to_string()]);
    let (r, uploaded) = run_against_fake(&a, vec![]);
    assert_eq!(r, Err(ExecError::MissingInputRoot));
    assert!(uploaded.is_empty());
}

#[test]
fn mismatched_upload_fails_the_execution() {
    let mut ex: Execution<String> = Execution::start(&cp_action()).unwrap();
    assert_eq!(ex.next_step(), Step::Upload(0));
    ex.upload_answered(&ok_reply(&digest(b"something else")));
    assert_eq!(ex.phase, Phase::Done);
    assert_eq!(ex.next_step(), Step::Finished);
    assert_eq!(ex.into_outcome(), Err(ExecError::DigestMismatch));
}

#[test]
fn transport_failure_fails_the_execution() {
    let mut ex: Execution<String> = Execution::start(&cp_action()).unwrap();
    ex.transport_failed();
    assert_eq!(ex.into_outcome(), Err(ExecError::Transport));
}

#[test]
fn pool_never_exceeds_bound() {
    // Five delayed tasks under a bound of two: each launched task completes
    // three ticks after it starts.
    let mut pool = Pool::new(2, Some(5));
    let mut started: Vec<u32> = Vec::new();
    let mut finished = 0;
    let mut tick: u32 = 0;
    let mut max_seen = 0;
    loop {
        match pool.next_step() {
            PoolStep::Launch => {
                pool.launched();
                started.push(tick);
            }
            PoolStep::Wait => {
                tick += 1;
                let due = started.iter().filter(|t| **t + 3 == tick).count();
                for _ in 0..due {
                    pool.completed();
                    finished += 1;
                }
            }
            PoolStep::Stop => break,
        }
        max_seen = max_seen.max(pool.in_flight);
        assert!(pool.in_flight <= 2);
    }
    assert_eq!(max_seen, 2);
    assert_eq!(started.len(), 5);
    assert_eq!(finished, 5);
    assert_eq!(started, vec![0, 0, 3, 3, 6]);
}

#[test]
fn pool_refills_a_slot_at_once() {
    let mut pool = Pool::new(2, None);
    pool.launched();
    pool.launched();
    assert_eq!(pool.next_step(), PoolStep::Wait);
    pool.completed();
    assert_eq!(pool.next_step(), PoolStep::Launch);
}

#[test]
fn pool_stops_when_work_is_done() {
    let mut pool = Pool::new(1, Some(1));
    assert_eq!(pool.next_step(), PoolStep::Launch);
    pool.launched();
    assert_eq!(pool.next_step(), PoolStep::Wait);
    pool.completed();
    assert_eq!(pool.next_step(), PoolStep::Stop);
}
