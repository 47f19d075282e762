use rebel::action::{plan_execution, PlanError, RebelAction};
use rebel::digest::{digest, Blob, Digest};
use rebel::wire::{action_message, command_message, digest_message, file_node_message};

const HELLO_SHA256: &str = "185f8db32271fe25f561a6fc938b2e264306ec304eda518007d1764826381969";
const EMPTY_SHA256: &str = "e3b0c44298fc1c149afbf4c8996fb92427ae41e4649b934ca495991b7852b855";

#[test]
fn digest_of_hello() {
    let d = digest(b"Hello");
    assert_eq!(d.hash, HELLO_SHA256);
    assert_eq!(d.size_bytes, 5);
}

#[test]
fn digest_of_empty_payload() {
    let d = digest(b"");
    assert_eq!(d.hash, EMPTY_SHA256);
    assert_eq!(d.size_bytes, 0);
}

#[test]
fn digest_is_deterministic() {
    assert_eq!(digest(b"Hello"), digest(b"Hello"));
    assert_eq!(digest(&vec![7u8; 1000]), digest(&vec![7u8; 1000]));
}

#[test]
fn distinct_payloads_have_distinct_digests() {
    assert_ne!(digest(b"Hello"), digest(b"hello"));
    assert_ne!(digest(b"Hello").hash, digest(b"Hellp").hash);
    assert_ne!(digest(b""), digest(b"\0"));
}

#[test]
fn blob_keeps_payload_and_digest() {
    let b = Blob::new(b"Hello");
    assert_eq!(b.inner, b"Hello".to_vec());
    assert_eq!(b.digest, digest(b"Hello"));
    let c = Blob::from_bytes(b"Hello".to_vec());
    assert_eq!(c.digest.hash, HELLO_SHA256);
}

#[test]
fn digest_wire_form() {
    let d = Digest { hash: "ab".to_string(), size_bytes: 5 };
    assert_eq!(digest_message(&d), vec![0x0a, 2, b'a', b'b', 0x10, 5]);
    let big = Digest { hash: String::new(), size_bytes: 300 };
    assert_eq!(digest_message(&big), vec![0x10, 0xac, 0x02]);
    let zero = Digest { hash: String::new(), size_bytes: 0 };
    assert_eq!(digest_message(&zero), Vec::<u8>::new());
}

#[test]
fn file_node_wire_form() {
    let d = Digest { hash: "h".to_string(), size_bytes: 1 };
    assert_eq!(
        file_node_message("a", &d, true),
        vec![0x0a, 1, b'a', 0x12, 5, 0x0a, 1, b'h', 0x10, 1, 0x20, 1]
    );
    assert_eq!(file_node_message("", &d, false), vec![0x12, 5, 0x0a, 1, b'h', 0x10, 1]);
}

#[test]
fn command_wire_form() {
    let args = vec!["cp".to_string(), String::new()];
    let outs = vec!["o".to_string()];
    assert_eq!(
        command_message(&args, "w", &outs),
        vec![0x0a, 2, b'c', b'p', 0x0a, 0, 0x32, 1, b'w', 0x3a, 1, b'o']
    );
}

#[test]
fn action_wire_form() {
    let c = Digest { hash: "c".to_string(), size_bytes: 0 };
    let r = Digest { hash: String::new(), size_bytes: 2 };
    assert_eq!(
        action_message(&c, &r, true),
        vec![0x0a, 3, 0x0a, 1, b'c', 0x12, 2, 0x10, 2, 0x38, 1]
    );
    assert_eq!(action_message(&c, &r, false), vec![0x0a, 3, 0x0a, 1, b'c', 0x12, 2, 0x10, 2]);
}

#[test]
fn plan_without_input_root_is_refused() {
    let a = RebelAction::new().args(vec!["/bin/true".to_string()]);
    assert!(matches!(plan_execution(&a), Err(PlanError::MissingInputRoot)));
}

#[test]
fn builders_set_fields() {
    let a = RebelAction::default()
        .args(vec!["x".to_string()])
        .working_dir("w".to_string())
        .output_paths(vec!["o".to_string()])
        .cacheable(true);
    assert_eq!(a.args, vec!["x".to_string()]);
    assert_eq!(a.working_directory, "w");
    assert_eq!(a.output_paths, vec!["o".to_string()]);
    assert!(!a.do_not_cache);
    assert!(a.input_root.is_none());
    assert!(RebelAction::new().do_not_cache);
}
