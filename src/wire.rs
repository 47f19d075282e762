//! The protocol-buffer wire form of the messages this library uploads: digests,
//! directory listings, commands and actions. Fields go out in field-number
//! order, and singular fields that hold their default value are left out.
use vstd::prelude::*;
use vstd::utf8::encode_utf8;
use crate::digest::Digest;

verus! {

/// Base-128 little-endian encoding, seven bits per byte, high bit set on every
/// byte but the last.
pub open spec fn varint(v: nat) -> Seq<u8>
    decreases v,
{
    if v < 128 {
        seq![v as u8]
    } else {
        seq![(v % 128 + 128) as u8] + varint(v / 128)
    }
}

/// The key that opens a field: its number and its wire type.
pub open spec fn key(field: nat, wire_type: nat) -> Seq<u8> {
    varint(field * 8 + wire_type)
}

/// A length-delimited field.
pub open spec fn len_field(field: nat, payload: Seq<u8>) -> Seq<u8> {
    key(field, 2) + varint(payload.len()) + payload
}

/// A singular string field, left out when empty.
pub open spec fn text_field(field: nat, s: Seq<char>) -> Seq<u8> {
    if s.len() == 0 {
        Seq::empty()
    } else {
        len_field(field, encode_utf8(s))
    }
}

/// A repeated string field: one entry per string, empty ones included.
pub open spec fn repeated_text(field: nat, ss: Seq<Seq<char>>) -> Seq<u8>
    decreases ss.len(),
{
    if ss.len() == 0 {
        Seq::empty()
    } else {
        repeated_text(field, ss.drop_last()) + len_field(field, encode_utf8(ss.last()))
    }
}

/// A singular bool field, left out when false.
pub open spec fn bool_field(field: nat, b: bool) -> Seq<u8> {
    if b {
        key(field, 0) + seq![1u8]
    } else {
        Seq::empty()
    }
}

/// A singular int64 field, left out when zero.
pub open spec fn int64_field(field: nat, v: i64) -> Seq<u8> {
    if v == 0 {
        Seq::empty()
    } else {
        key(field, 0) + varint(v as u64 as nat)
    }
}

/// `Digest { hash = 1; size_bytes = 2; }`
pub open spec fn digest_msg(d: (Seq<char>, i64)) -> Seq<u8> {
    text_field(1, d.0) + int64_field(2, d.1)
}

/// `FileNode { name = 1; digest = 2; is_executable = 4; }`
pub open spec fn file_node_msg(name: Seq<char>, d: (Seq<char>, i64), is_executable: bool) -> Seq<u8> {
    text_field(1, name) + len_field(2, digest_msg(d)) + bool_field(4, is_executable)
}

/// `DirectoryNode { name = 1; digest = 2; }`
pub open spec fn dir_node_msg(name: Seq<char>, d: (Seq<char>, i64)) -> Seq<u8> {
    text_field(1, name) + len_field(2, digest_msg(d))
}

/// `Command { arguments = 1; working_directory = 6; output_paths = 7; }`
pub open spec fn command_msg(args: Seq<Seq<char>>, working_directory: Seq<char>, output_paths: Seq<Seq<char>>) -> Seq<u8> {
    repeated_text(1, args) + text_field(6, working_directory) + repeated_text(7, output_paths)
}

/// `Action { command_digest = 1; input_root_digest = 2; do_not_cache = 7; }`
pub open spec fn action_msg(command: (Seq<char>, i64), input_root: (Seq<char>, i64), do_not_cache: bool) -> Seq<u8> {
    len_field(1, digest_msg(command)) + len_field(2, digest_msg(input_root)) + bool_field(7, do_not_cache)
}

/// The strings of a vector, as character sequences.
pub open spec fn texts(v: Seq<String>) -> Seq<Seq<char>> {
    v.map_values(|s: String| s@)
}

/// Text encodes to no bytes exactly when it has no characters.
pub proof fn lemma_utf8_empty(s: Seq<char>)
    ensures
        (encode_utf8(s).len() == 0) == (s.len() == 0),
{
    if s.len() > 0 {
        assert(encode_utf8(s) == vstd::utf8::encode_scalar(s[0] as u32) + encode_utf8(s.drop_first()));
    }
}

/// No varint is a proper prefix of another: two varints that both start a
/// sequence encode the same number.
pub proof fn lemma_varint_prefix_free(a: nat, b: nat, s: Seq<u8>)
    requires
        varint(a).len() <= s.len(),
        varint(b).len() <= s.len(),
        s.subrange(0, varint(a).len() as int) == varint(a),
        s.subrange(0, varint(b).len() as int) == varint(b),
    ensures
        a == b,
    decreases a,
{
    assert(s[0] == s.subrange(0, varint(a).len() as int)[0]);
    assert(s[0] == s.subrange(0, varint(b).len() as int)[0]);
    if a >= 128 && b >= 128 {
        let t = s.drop_first();
        let va = varint(a / 128);
        let vb = varint(b / 128);
        assert(varint(a).drop_first() =~= va);
        assert(varint(b).drop_first() =~= vb);
        assert(t.subrange(0, va.len() as int) =~= s.subrange(0, varint(a).len() as int).drop_first());
        assert(t.subrange(0, vb.len() as int) =~= s.subrange(0, varint(b).len() as int).drop_first());
        lemma_varint_prefix_free(a / 128, b / 128, t);
    }
}

/// Two length-delimited fields of the same number commute only when they are
/// equal.
pub proof fn lemma_fields_commute(field: nat, p: Seq<u8>, q: Seq<u8>)
    requires
        len_field(field, p) + len_field(field, q) == len_field(field, q) + len_field(field, p),
    ensures
        len_field(field, p) == len_field(field, q),
{
    let e = len_field(field, p);
    let f = len_field(field, q);
    let s = e + f;
    let k = key(field, 2);
    let t = s.subrange(k.len() as int, s.len() as int);
    assert(t.subrange(0, varint(p.len()).len() as int) =~= varint(p.len()));
    assert(s == f + e);
    assert(t.subrange(0, varint(q.len()).len() as int) =~= varint(q.len()));
    lemma_varint_prefix_free(p.len(), q.len(), t);
    assert(s.subrange(0, e.len() as int) =~= e);
    assert((f + e).subrange(0, f.len() as int) =~= f);
}

/// Relies on prost::encoding::encode_varint: appends the base-128 encoding of
/// the value to the buffer.
#[verifier::external_body]
fn put_varint(buf: &mut Vec<u8>, v: u64)
    ensures
        final(buf)@ == old(buf)@ + varint(v as nat),
{
    prost::encoding::encode_varint(v, buf)
}

/// Appends bytes to a buffer.
pub fn append_bytes(buf: &mut Vec<u8>, s: &[u8])
    ensures
        final(buf)@ == old(buf)@ + s@,
{
    let ghost start = buf@;
    let mut i: usize = 0;
    while i < s.len()
        invariant
            i <= s@.len(),
            buf@ == start + s@.subrange(0, i as int),
        decreases s@.len() - i,
    {
        buf.push(s[i]);
        i = i + 1;
        assert(buf@ == start + s@.subrange(0, i as int));
    }
    assert(s@.subrange(0, s@.len() as int) == s@);
}

fn put_key(buf: &mut Vec<u8>, field: u64, wire_type: u64)
    requires
        1 <= field <= 16,
        wire_type < 8,
    ensures
        final(buf)@ == old(buf)@ + key(field as nat, wire_type as nat),
{
    put_varint(buf, field * 8 + wire_type);
}

/// Appends a length-delimited field.
pub fn put_len_field(buf: &mut Vec<u8>, field: u64, payload: &[u8])
    requires
        1 <= field <= 16,
    ensures
        final(buf)@ == old(buf)@ + len_field(field as nat, payload@),
{
    put_key(buf, field, 2);
    put_varint(buf, payload.len() as u64);
    append_bytes(buf, payload);
    assert(buf@ =~= old(buf)@ + len_field(field as nat, payload@));
}

/// Appends a singular string field, unless the string is empty.
pub fn put_text_field(buf: &mut Vec<u8>, field: u64, s: &str)
    requires
        1 <= field <= 16,
    ensures
        final(buf)@ == old(buf)@ + text_field(field as nat, s@),
{
    let b = s.as_bytes();
    if b.len() == 0 {
        proof {
            lemma_utf8_empty(s@);
        }
        assert(buf@ =~= old(buf)@ + text_field(field as nat, s@));
    } else {
        put_len_field(buf, field, b);
    }
}


/// Appends a singular bool field, unless it is false.
pub fn put_bool_field(buf: &mut Vec<u8>, field: u64, b: bool)
    requires
        1 <= field <= 16,
    ensures
        final(buf)@ == old(buf)@ + bool_field(field as nat, b),
{
    if b {
        put_key(buf, field, 0);
        buf.push(1u8);
    }
    assert(buf@ =~= old(buf)@ + bool_field(field as nat, b));
}

/// Appends a repeated string field.
pub fn put_repeated_text(buf: &mut Vec<u8>, field: u64, ss: &Vec<String>)
    requires
        1 <= field <= 16,
    ensures
        final(buf)@ == old(buf)@ + repeated_text(field as nat, texts(ss@)),
{
    let ghost start = buf@;
    let mut i: usize = 0;
    while i < ss.len()
        invariant
            1 <= field <= 16,
            i <= ss@.len(),
            buf@ == start + repeated_text(field as nat, texts(ss@.subrange(0, i as int))),
        decreases ss@.len() - i,
    {
        put_len_field(buf, field, ss[i].as_str().as_bytes());
        proof {
            let pre = texts(ss@.subrange(0, i as int));
            let post = texts(ss@.subrange(0, i + 1));
            assert(post.drop_last() =~= pre);
            assert(post.last() == ss@[i as int]@);
        }
        i = i + 1;
        assert(buf@ =~= start + repeated_text(field as nat, texts(ss@.subrange(0, i as int))));
    }
    assert(ss@.subrange(0, ss@.len() as int) =~= ss@);
}

/// The wire form of a digest.
pub fn digest_message(d: &Digest) -> (r: Vec<u8>)
    ensures
        r@ == digest_msg(d@),
{
    let mut buf: Vec<u8> = Vec::new();
    put_text_field(&mut buf, 1, d.hash.as_str());
    if d.size_bytes != 0 {
        put_key(&mut buf, 2, 0);
        put_varint(&mut buf, d.size_bytes as u64);
    }
    assert(buf@ =~= digest_msg(d@));
    buf
}

/// The wire form of a file entry of a directory listing.
pub fn file_node_message(name: &str, d: &Digest, is_executable: bool) -> (r: Vec<u8>)
    ensures
        r@ == file_node_msg(name@, d@, is_executable),
{
    let mut buf: Vec<u8> = Vec::new();
    put_text_field(&mut buf, 1, name);
    let dm = digest_message(d);
    put_len_field(&mut buf, 2, dm.as_slice());
    put_bool_field(&mut buf, 4, is_executable);
    assert(buf@ =~= file_node_msg(name@, d@, is_executable));
    buf
}

/// The wire form of a subdirectory entry of a directory listing.
pub fn dir_node_message(name: &str, d: &Digest) -> (r: Vec<u8>)
    ensures
        r@ == dir_node_msg(name@, d@),
{
    let mut buf: Vec<u8> = Vec::new();
    put_text_field(&mut buf, 1, name);
    let dm = digest_message(d);
    put_len_field(&mut buf, 2, dm.as_slice());
    assert(buf@ =~= dir_node_msg(name@, d@));
    buf
}

/// The wire form of a command.
pub fn command_message(args: &Vec<String>, working_directory: &str, output_paths: &Vec<String>) -> (r: Vec<u8>)
    ensures
        r@ == command_msg(texts(args@), working_directory@, texts(output_paths@)),
{
    let mut buf: Vec<u8> = Vec::new();
    put_repeated_text(&mut buf, 1, args);
    put_text_field(&mut buf, 6, working_directory);
    put_repeated_text(&mut buf, 7, output_paths);
    assert(buf@ =~= command_msg(texts(args@), working_directory@, texts(output_paths@)));
    buf
}

/// The wire form of an action.
pub fn action_message(command: &Digest, input_root: &Digest, do_not_cache: bool) -> (r: Vec<u8>)
    ensures
        r@ == action_msg(command@, input_root@, do_not_cache),
{
    let mut buf: Vec<u8> = Vec::new();
    let cm = digest_message(command);
    put_len_field(&mut buf, 1, cm.as_slice());
    let rm = digest_message(input_root);
    put_len_field(&mut buf, 2, rm.as_slice());
    put_bool_field(&mut buf, 7, do_not_cache);
    assert(buf@ =~= action_msg(command@, input_root@, do_not_cache));
    buf
}

} // verus!
