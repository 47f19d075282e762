//! Input trees and their serialization: every file and subdirectory is digested
//! before the listing that names it, and the listing keeps the declared order.
use vstd::prelude::*;
use crate::digest::{digest_of, Blob, Digest, MAX_PAYLOAD_LEN};
use crate::wire::{lemma_fields_commute, dir_node_message, dir_node_msg, file_node_message, file_node_msg, len_field, put_len_field};

verus! {

broadcast use vstd::std_specs::vec::group_vec_axioms;

/// A file of an input tree.
pub struct File {
    pub name: String,
    pub data: Vec<u8>,
    pub is_executable: bool,
}

impl File {
    /// A file that is not executable.
    pub fn new(name: String, data: Vec<u8>) -> (r: Self)
        ensures
            r.name@ == name@,
            r.data@ == data@,
            !r.is_executable,
    {
        File { name, data, is_executable: false }
    }
}

/// A directory of an input tree: its subdirectories and files, in the order given.
pub struct Directory {
    pub name: String,
    pub directories: Vec<Directory>,
    pub files: Vec<File>,
}

impl Directory {
    pub fn new(name: String, directories: Vec<Directory>, files: Vec<File>) -> (r: Self)
        ensures
            r.name@ == name@,
            r.directories == directories,
            r.files == files,
    {
        Directory { name, directories, files }
    }
}

/// The entry of a file in a listing.
pub open spec fn file_entry(f: File) -> Seq<u8> {
    len_field(1, file_node_msg(f.name@, digest_of(f.data@), f.is_executable))
}

/// The file entries of a listing, in declared order.
pub open spec fn file_entries(fs: Seq<File>) -> Seq<u8>
    decreases fs.len(),
{
    if fs.len() == 0 {
        Seq::empty()
    } else {
        file_entries(fs.drop_last()) + file_entry(fs.last())
    }
}

/// The wire listing of a directory: its files, then its first `n` subdirectories
/// by name and digest.
pub open spec fn listing(d: Directory, n: nat) -> Seq<u8>
    decreases d, 0nat, n,
{
    if n == 0 || n > d.directories@.len() {
        file_entries(d.files@)
    } else {
        let c = d.directories@[n - 1];
        listing(d, (n - 1) as nat) + len_field(2, dir_node_msg(c.name@, digest_of(dir_message(c))))
    }
}

/// The wire listing of a directory, whose digest identifies the directory.
pub open spec fn dir_message(d: Directory) -> Seq<u8>
    decreases d, 1nat, 0nat,
{
    listing(d, d.directories@.len())
}

/// The payloads uploaded for the first `n` subdirectories of a directory.
pub open spec fn subtree_uploads(d: Directory, n: nat) -> Seq<Seq<u8>>
    decreases d, 0nat, n,
{
    if n == 0 || n > d.directories@.len() {
        Seq::empty()
    } else {
        subtree_uploads(d, (n - 1) as nat) + tree_uploads(d.directories@[n - 1])
    }
}

/// The payloads uploaded for a tree, in upload order: the subdirectories' trees,
/// then the files' contents, then the directory's own listing.
pub open spec fn tree_uploads(d: Directory) -> Seq<Seq<u8>>
    decreases d, 1nat, 0nat,
{
    subtree_uploads(d, d.directories@.len()) + d.files@.map_values(|f: File| f.data@)
        + seq![dir_message(d)]
}


/// The payloads of a sequence of blobs.
pub open spec fn payloads(bs: Seq<Blob>) -> Seq<Seq<u8>> {
    bs.map_values(|b: Blob| b.inner@)
}

/// Every blob carries the digest of its payload.
pub open spec fn all_wf(bs: Seq<Blob>) -> bool {
    forall|i: int| 0 <= i < bs.len() ==> #[trigger] bs[i].wf()
}

/// Every payload is small enough to be digested.
pub open spec fn fits(ps: Seq<Seq<u8>>) -> bool {
    forall|i: int| 0 <= i < ps.len() ==> #[trigger] ps[i].len() <= MAX_PAYLOAD_LEN
}

proof fn lemma_subtree_prefix(d: Directory, i: nat, j: nat)
    requires
        i <= j <= d.directories@.len(),
    ensures
        subtree_uploads(d, i).len() <= subtree_uploads(d, j).len(),
        forall|m: int|
            0 <= m < subtree_uploads(d, i).len() ==> subtree_uploads(d, j)[m] == #[trigger] subtree_uploads(d, i)[m],
    decreases j - i,
{
    if i < j {
        lemma_subtree_prefix(d, i, (j - 1) as nat);
    }
}

/// Appends to `out`, in upload order, the blobs of a tree: each subdirectory's
/// tree, then each file's contents, then the directory's listing. Returns the
/// listing's digest, or `None` when some payload is too large to digest.
pub fn upload_order(d: &Directory, out: &mut Vec<Blob>) -> (r: Option<Digest>)
    requires
        all_wf(old(out)@),
    ensures
        all_wf(final(out)@),
        r is Some <==> fits(tree_uploads(*d)),
        r is Some ==> payloads(final(out)@) == payloads(old(out)@) + tree_uploads(*d),
        r is Some ==> r->0@ == digest_of(dir_message(*d)),
    decreases d,
{
    let ghost start = out@;
    let ghost n = d.directories@.len();
    let mut digests: Vec<Digest> = Vec::new();
    let mut i: usize = 0;
    while i < d.directories.len()
        invariant
            i <= n == d.directories@.len(),
            all_wf(out@),
            payloads(out@) == payloads(start) + subtree_uploads(*d, i as nat),
            fits(subtree_uploads(*d, i as nat)),
            digests@.len() == i,
            forall|j: int| 0 <= j < i ==> (#[trigger] digests@[j])@ == digest_of(dir_message(d.directories@[j])),
        decreases n - i,
    {
        let child = &d.directories[i];
        proof {
            assert(decreases_to!(*d => d.directories@[i as int]));
        }
        let ghost before = subtree_uploads(*d, i as nat);
        let sub = upload_order(child, out);
        assert(subtree_uploads(*d, (i + 1) as nat) == before + tree_uploads(*child));
        match sub {
            None => {
                proof {
                    let m = choose|m: int| 0 <= m < tree_uploads(*child).len() && !(tree_uploads(*child)[m].len() <= MAX_PAYLOAD_LEN);
                    let k = before.len() + m;
                    assert(subtree_uploads(*d, (i + 1) as nat)[k] == tree_uploads(*child)[m]);
                    lemma_subtree_prefix(*d, (i + 1) as nat, n);
                    assert(tree_uploads(*d)[k] == subtree_uploads(*d, n)[k]);
                }
                return None;
            },
            Some(dg) => {
                digests.push(dg);
            },
        }
        proof {
            assert(payloads(out@) =~= payloads(start) + subtree_uploads(*d, (i + 1) as nat));
        }
        i = i + 1;
    }
    let ghost after_dirs = out@;
    let ghost file_data = d.files@.map_values(|f: File| f.data@);
    let mut buf: Vec<u8> = Vec::new();
    let mut k: usize = 0;
    while k < d.files.len()
        invariant
            i == n == d.directories@.len(),
            k <= d.files@.len(),
            file_data == d.files@.map_values(|f: File| f.data@),
            all_wf(out@),
            payloads(out@) == payloads(after_dirs) + file_data.subrange(0, k as int),
            payloads(after_dirs) == payloads(start) + subtree_uploads(*d, n),
            fits(subtree_uploads(*d, n)),
            fits(file_data.subrange(0, k as int)),
            buf@ == file_entries(d.files@.subrange(0, k as int)),
            digests@.len() == n,
            forall|j: int| 0 <= j < n ==> (#[trigger] digests@[j])@ == digest_of(dir_message(d.directories@[j])),
        decreases d.files@.len() - k,
    {
        let f = &d.files[k];
        if f.data.len() as u64 > MAX_PAYLOAD_LEN {
            proof {
                let idx = subtree_uploads(*d, n).len() + k;
                assert(tree_uploads(*d)[idx] == file_data[k as int]);
            }
            return None;
        }
        let blob = Blob::new(f.data.as_slice());
        let entry = file_node_message(f.name.as_str(), &blob.digest, f.is_executable);
        put_len_field(&mut buf, 1, entry.as_slice());
        let ghost prev = out@;
        out.push(blob);
        proof {
            assert(payloads(out@) =~= payloads(prev).push(f.data@));
            assert(file_data[k as int] == f.data@);
            let fs = d.files@.subrange(0, k + 1);
            assert(fs.drop_last() =~= d.files@.subrange(0, k as int));
            assert(payloads(out@) =~= payloads(after_dirs) + file_data.subrange(0, k + 1));
            assert(file_data.subrange(0, k + 1) =~= file_data.subrange(0, k as int).push(file_data[k as int]));
        }
        k = k + 1;
    }
    assert(d.files@.subrange(0, k as int) =~= d.files@);
    assert(file_data.subrange(0, k as int) =~= file_data);
    let mut j: usize = 0;
    while j < digests.len()
        invariant
            n == d.directories@.len() == digests@.len(),
            j <= n,
            buf@ == listing(*d, j as nat),
            forall|m: int| 0 <= m < n ==> (#[trigger] digests@[m])@ == digest_of(dir_message(d.directories@[m])),
        decreases n - j,
    {
        let entry = dir_node_message(d.directories[j].name.as_str(), &digests[j]);
        put_len_field(&mut buf, 2, entry.as_slice());
        j = j + 1;
    }
    if buf.len() as u64 > MAX_PAYLOAD_LEN {
        proof {
            let idx = tree_uploads(*d).len() - 1;
            assert(tree_uploads(*d)[idx] == dir_message(*d));
        }
        return None;
    }
    let node = Blob::from_bytes(buf);
    let root = node.digest.duplicate();
    let ghost prev = out@;
    let ghost listing_bytes = node.inner@;
    out.push(node);
    proof {
        assert(payloads(out@) =~= payloads(prev).push(listing_bytes));
        assert(payloads(out@) =~= payloads(start) + tree_uploads(*d));
        let t = tree_uploads(*d);
        let s = subtree_uploads(*d, n);
        assert forall|m: int| 0 <= m < t.len() implies #[trigger] t[m].len() <= MAX_PAYLOAD_LEN by {
            if m < s.len() {
                assert(t[m] == s[m]);
            } else if m < s.len() + file_data.len() {
                assert(t[m] == file_data[m - s.len()]);
            }
        }
    }
    Some(root)
}


/// Two files with the same name, contents and executable bit.
pub open spec fn same_file(a: File, b: File) -> bool {
    a.name@ == b.name@ && a.data@ == b.data@ && a.is_executable == b.is_executable
}

/// Two trees with the same names, files and subtrees, in the same order.
pub open spec fn same_tree(a: Directory, b: Directory) -> bool
    decreases a,
{
    &&& a.name@ == b.name@
    &&& a.files@.len() == b.files@.len()
    &&& forall|i: int| 0 <= i < a.files@.len() ==> same_file(#[trigger] a.files@[i], b.files@[i])
    &&& a.directories@.len() == b.directories@.len()
    &&& forall|i: int|
        0 <= i < a.directories@.len() ==> same_tree(#[trigger] a.directories@[i], b.directories@[i])
}

proof fn lemma_same_files(a: Seq<File>, b: Seq<File>)
    requires
        a.len() == b.len(),
        forall|i: int| 0 <= i < a.len() ==> same_file(#[trigger] a[i], b[i]),
    ensures
        file_entries(a) == file_entries(b),
        a.map_values(|f: File| f.data@) == b.map_values(|f: File| f.data@),
    decreases a.len(),
{
    if a.len() > 0 {
        lemma_same_files(a.drop_last(), b.drop_last());
        assert(same_file(a[a.len() - 1], b[b.len() - 1]));
    }
    assert(a.map_values(|f: File| f.data@) =~= b.map_values(|f: File| f.data@));
}

proof fn lemma_same_listing(a: Directory, b: Directory, k: nat)
    requires
        same_tree(a, b),
    ensures
        listing(a, k) == listing(b, k),
        subtree_uploads(a, k) == subtree_uploads(b, k),
    decreases a, 0nat, k,
{
    if k == 0 || k > a.directories@.len() {
        lemma_same_files(a.files@, b.files@);
    } else {
        lemma_same_listing(a, b, (k - 1) as nat);
        let c = a.directories@[k - 1];
        assert(decreases_to!(a => c));
        assert(same_tree(c, b.directories@[k - 1]));
        lemma_same_tree(c, b.directories@[k - 1]);
    }
}

/// Serialization depends on the content of a tree alone: two trees with the
/// same names, files and subtrees in the same order have the same listing,
/// hence the same digest, and the same uploads.
pub proof fn lemma_same_tree(a: Directory, b: Directory)
    requires
        same_tree(a, b),
    ensures
        dir_message(a) == dir_message(b),
        digest_of(dir_message(a)) == digest_of(dir_message(b)),
        tree_uploads(a) == tree_uploads(b),
    decreases a, 1nat, 0nat,
{
    lemma_same_listing(a, b, a.directories@.len());
    lemma_same_files(a.files@, b.files@);
}

/// Uploads go bottom-up: a directory's listing is its last upload, and the
/// listing of each of its subdirectories is uploaded before it.
pub proof fn lemma_bottom_up(d: Directory)
    ensures
        tree_uploads(d).last() == dir_message(d),
        forall|i: int|
            0 <= i < d.directories@.len() ==> exists|j: int|
                0 <= j < tree_uploads(d).len() - 1 && tree_uploads(d)[j] == dir_message(
                    #[trigger] d.directories@[i],
                ),
{
    let n = d.directories@.len();
    let t = tree_uploads(d);
    let s = subtree_uploads(d, n);
    assert forall|i: int| 0 <= i < n implies exists|j: int|
        0 <= j < t.len() - 1 && t[j] == dir_message(#[trigger] d.directories@[i]) by {
        let c = d.directories@[i];
        let si = subtree_uploads(d, (i + 1) as nat);
        assert(si == subtree_uploads(d, i as nat) + tree_uploads(c));
        let j = si.len() - 1;
        assert(si[j] == dir_message(c));
        lemma_subtree_prefix(d, (i + 1) as nat, n);
        assert(s[j] == si[j]);
        assert(t[j] == s[j]);
    }
}


/// Listings keep the declared order and are not sorted: swapping two files
/// whose entries differ changes the listing, hence the directory's content.
pub proof fn lemma_order_kept(a: Directory, b: Directory)
    requires
        a.directories@.len() == 0,
        b.directories@.len() == 0,
        a.files@.len() == 2,
        b.files@.len() == 2,
        b.files@[0] == a.files@[1],
        b.files@[1] == a.files@[0],
        file_entry(a.files@[0]) != file_entry(a.files@[1]),
    ensures
        dir_message(a) != dir_message(b),
{
    let f = a.files@[0];
    let g = a.files@[1];
    assert(a.files@.drop_last().drop_last().len() == 0);
    assert(b.files@.drop_last().drop_last().len() == 0);
    assert(a.files@.drop_last().last() == f);
    assert(b.files@.drop_last().last() == g);
    assert(file_entries(a.files@.drop_last().drop_last()) == Seq::<u8>::empty());
    assert(file_entries(b.files@.drop_last().drop_last()) == Seq::<u8>::empty());
    assert(file_entries(a.files@.drop_last()) =~= file_entry(f));
    assert(file_entries(b.files@.drop_last()) =~= file_entry(g));
    assert(file_entries(a.files@) =~= file_entry(f) + file_entry(g));
    assert(file_entries(b.files@) =~= file_entry(g) + file_entry(f));
    if dir_message(a) == dir_message(b) {
        lemma_fields_commute(
            1,
            file_node_msg(f.name@, digest_of(f.data@), f.is_executable),
            file_node_msg(g.name@, digest_of(g.data@), g.is_executable),
        );
    }
}

} // verus!
