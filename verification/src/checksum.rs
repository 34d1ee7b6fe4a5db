//! The checksum of a lib's source tree, recorded in Cart.lock.
//!
//! Every file under the lib's directory (`.git` aside) is taken in path
//! order; for each, the path relative to the directory, a zero byte, the
//! file's bytes and a zero byte are hashed with SHA-256, and the digest is
//! written in lowercase hex.

use vstd::prelude::*;
use sha2::{Digest, Sha256};
use vstd::utf8::encode_utf8;
use crate::opc::views;
use crate::text::{chars_lt, hex_chars, hex_encode, lemma_hex_chars_len, lemma_chars_lt_irreflexive, lemma_chars_lt_total, lemma_chars_lt_transitive, push_char, push_str, same_text, str_lt};

verus! {

/// What SHA-256 gives for `data`, as `sha2::Sha256::digest` computes it.
pub uninterp spec fn sha256_digest(data: Seq<u8>) -> Seq<u8>;

/// Calls `sha2::Sha256::digest`: the result is the SHA-256 digest of the
/// bytes, named by `sha256_digest`, and it is 32 bytes long.
#[verifier::external_body]
fn sha256(data: &[u8]) -> (r: Vec<u8>)
    ensures
        r@ == sha256_digest(data@),
        r@.len() == 32,
{
    Sha256::digest(data).to_vec()
}

/// A file of a lib: its path relative to the lib's directory, one
/// component per element, and its bytes.
#[derive(Debug)]
pub struct SourceFile {
    pub path: Vec<String>,
    pub data: Vec<u8>,
}

/// The path of a file, by components.
pub open spec fn key(f: SourceFile) -> Seq<Seq<char>> {
    views(f.path@)
}

/// The order of `Path`s: component by component, each compared as text, a
/// proper prefix first.
pub open spec fn components_lt(a: Seq<Seq<char>>, b: Seq<Seq<char>>) -> bool
    decreases a.len(),
{
    if a.len() == 0 {
        b.len() > 0
    } else if b.len() == 0 {
        false
    } else if chars_lt(a[0], b[0]) {
        true
    } else if a[0] == b[0] {
        components_lt(a.drop_first(), b.drop_first())
    } else {
        false
    }
}

/// No path comes before itself.
pub proof fn lemma_components_lt_irreflexive(a: Seq<Seq<char>>)
    ensures
        !components_lt(a, a),
    decreases a.len(),
{
    if a.len() > 0 {
        lemma_chars_lt_irreflexive(a[0]);
        lemma_components_lt_irreflexive(a.drop_first());
    }
}

/// The order of paths is transitive.
pub proof fn lemma_components_lt_transitive(a: Seq<Seq<char>>, b: Seq<Seq<char>>, c: Seq<Seq<char>>)
    requires
        components_lt(a, b),
        components_lt(b, c),
    ensures
        components_lt(a, c),
    decreases a.len(),
{
    if a.len() > 0 && b.len() > 0 && c.len() > 0 {
        if chars_lt(a[0], b[0]) && chars_lt(b[0], c[0]) {
            lemma_chars_lt_transitive(a[0], b[0], c[0]);
        } else if a[0] == b[0] && b[0] == c[0] {
            lemma_components_lt_transitive(a.drop_first(), b.drop_first(), c.drop_first());
        }
    }
}

/// Of two different paths, one comes before the other.
pub proof fn lemma_components_lt_total(a: Seq<Seq<char>>, b: Seq<Seq<char>>)
    requires
        a != b,
    ensures
        components_lt(a, b) || components_lt(b, a),
    decreases a.len(),
{
    if a.len() > 0 && b.len() > 0 {
        if a[0] == b[0] {
            if a.drop_first() == b.drop_first() {
                assert(a =~= seq![a[0]] + a.drop_first());
                assert(b =~= seq![b[0]] + b.drop_first());
            }
            lemma_components_lt_total(a.drop_first(), b.drop_first());
        } else {
            lemma_chars_lt_total(a[0], b[0]);
        }
    } else if a.len() == 0 && b.len() == 0 {
        assert(a =~= b);
    }
}

/// Two paths are not each before the other.
pub proof fn lemma_components_lt_asymmetric(a: Seq<Seq<char>>, b: Seq<Seq<char>>)
    requires
        components_lt(a, b),
    ensures
        !components_lt(b, a),
{
    if components_lt(b, a) {
        lemma_components_lt_transitive(a, b, a);
        lemma_components_lt_irreflexive(a);
    }
}

/// Whether path `a` comes before path `b`.
pub fn path_lt(a: &Vec<String>, b: &Vec<String>) -> (r: bool)
    ensures
        r == components_lt(views(a@), views(b@)),
{
    let ghost va = views(a@);
    let ghost vb = views(b@);
    let mut i: usize = 0;
    assert(va.skip(0) =~= va && vb.skip(0) =~= vb);
    while i < a.len() && i < b.len()
        invariant
            va == views(a@),
            vb == views(b@),
            i <= a@.len(),
            i <= b@.len(),
            components_lt(va, vb) == components_lt(va.skip(i as int), vb.skip(i as int)),
        decreases a@.len() - i,
    {
        let x = a[i].as_str();
        let y = b[i].as_str();
        assert(va.skip(i as int)[0] == x@);
        assert(vb.skip(i as int)[0] == y@);
        if str_lt(x, y) {
            return true;
        }
        if !same_text(x, y) {
            return false;
        }
        assert(va.skip(i as int).drop_first() =~= va.skip(i + 1));
        assert(vb.skip(i as int).drop_first() =~= vb.skip(i + 1));
        i = i + 1;
    }
    i == a.len() && i < b.len()
}

/// Where `f` goes among the sorted files `s`: before the first that comes
/// after it, so that files with the same path keep their order.
pub open spec fn insert_pos(f: SourceFile, s: Seq<SourceFile>) -> int
    decreases s.len(),
{
    if s.len() == 0 {
        0
    } else if components_lt(key(f), key(s[0])) {
        0
    } else {
        1 + insert_pos(f, s.drop_first())
    }
}

/// The files in path order, as a stable sort puts them.
pub open spec fn sorted_files(s: Seq<SourceFile>) -> Seq<SourceFile>
    decreases s.len(),
{
    if s.len() == 0 {
        s
    } else {
        let t = sorted_files(s.drop_last());
        t.insert(insert_pos(s.last(), t), s.last())
    }
}

proof fn lemma_insert_pos(f: SourceFile, s: Seq<SourceFile>, j: int)
    requires
        0 <= j <= s.len(),
        forall|k: int| 0 <= k < j ==> !components_lt(key(f), key(#[trigger] s[k])),
        j == s.len() || components_lt(key(f), key(s[j])),
    ensures
        insert_pos(f, s) == j,
    decreases j,
{
    if j > 0 {
        let t = s.drop_first();
        assert(!components_lt(key(f), key(s[0])));
        assert forall|k: int| 0 <= k < j - 1 implies !components_lt(key(f), key(#[trigger] t[k])) by {
            assert(t[k] == s[k + 1]);
        }
        if j < s.len() {
            assert(t[j - 1] == s[j]);
        }
        lemma_insert_pos(f, t, j - 1);
    }
}

proof fn lemma_insert_pos_bound(f: SourceFile, s: Seq<SourceFile>)
    ensures
        0 <= insert_pos(f, s) <= s.len(),
        forall|k: int| 0 <= k < insert_pos(f, s) ==> !components_lt(key(f), key(#[trigger] s[k])),
        insert_pos(f, s) < s.len() ==> components_lt(key(f), key(s[insert_pos(f, s)])),
    decreases s.len(),
{
    if s.len() > 0 && !components_lt(key(f), key(s[0])) {
        let t = s.drop_first();
        lemma_insert_pos_bound(f, t);
        assert forall|k: int| 0 <= k < insert_pos(f, s) implies !components_lt(key(f), key(#[trigger] s[k])) by {
            if k > 0 {
                assert(s[k] == t[k - 1]);
            }
        }
    }
}

/// Files in path order: none comes after a later one.
pub open spec fn in_path_order(s: Seq<SourceFile>) -> bool {
    forall|i: int, j: int| 0 <= i < j < s.len() ==> !components_lt(key(#[trigger] s[j]), key(#[trigger] s[i]))
}

/// Sorting puts the files in path order and keeps every file: the sorted
/// sequence is a rearrangement of the input.
pub proof fn lemma_sorted_files(s: Seq<SourceFile>)
    ensures
        in_path_order(sorted_files(s)),
        sorted_files(s).len() == s.len(),
        sorted_files(s).to_multiset() == s.to_multiset(),
    decreases s.len(),
{
    if s.len() > 0 {
        let t = sorted_files(s.drop_last());
        let f = s.last();
        lemma_sorted_files(s.drop_last());
        lemma_insert_pos_bound(f, t);
        let p = insert_pos(f, t);
        let u = t.insert(p, f);
        assert forall|i: int, j: int| 0 <= i < j < u.len() implies !components_lt(key(#[trigger] u[j]), key(#[trigger] u[i])) by {
            if j < p {
                assert(u[i] == t[i] && u[j] == t[j]);
            } else if j == p {
                assert(u[j] == f && u[i] == t[i]);
            } else if i == p {
                assert(u[i] == f && u[j] == t[j - 1]);
                if components_lt(key(t[j - 1]), key(f)) {
                    lemma_components_lt_transitive(key(t[j - 1]), key(f), key(t[p]));
                    if j - 1 == p {
                        lemma_components_lt_irreflexive(key(t[p]));
                    } else {
                        assert(!components_lt(key(t[j - 1]), key(t[p])));
                    }
                }
            } else if i < p {
                assert(u[i] == t[i] && u[j] == t[j - 1]);
            } else {
                assert(u[i] == t[i - 1] && u[j] == t[j - 1]);
            }
        }
        assert(s =~= s.drop_last().push(f));
        vstd::seq_lib::to_multiset_build(s.drop_last(), f);
        vstd::seq_lib::to_multiset_insert(t, p, f);
    }
}

/// Paths that occur at most once.
pub open spec fn distinct_paths(s: Seq<SourceFile>) -> bool {
    forall|i: int, j: int| 0 <= i < j < s.len() ==> key(#[trigger] s[i]) != key(#[trigger] s[j])
}

/// Files in strictly ascending path order.
pub open spec fn strictly_ordered(s: Seq<SourceFile>) -> bool {
    forall|i: int, j: int| 0 <= i < j < s.len() ==> components_lt(key(#[trigger] s[i]), key(#[trigger] s[j]))
}

proof fn lemma_distinct_paths_kept(s: Seq<SourceFile>, t: Seq<SourceFile>)
    requires
        distinct_paths(s),
        s.to_multiset() == t.to_multiset(),
    ensures
        distinct_paths(t),
{
    assert(s.no_duplicates()) by {
        assert forall|i: int, j: int| 0 <= i < s.len() && 0 <= j < s.len() && i != j implies s[i] != s[j] by {
            if i < j {
                assert(key(s[i]) != key(s[j]));
            } else {
                assert(key(s[j]) != key(s[i]));
            }
        }
    }
    s.lemma_multiset_has_no_duplicates();
    t.lemma_multiset_has_no_duplicates_conv();
    assert forall|i: int, j: int| 0 <= i < j < t.len() implies key(#[trigger] t[i]) != key(#[trigger] t[j]) by {
        if key(t[i]) == key(t[j]) {
            assert(t[i] != t[j]);
            assert(t.contains(t[i]));
            assert(t.contains(t[j]));
            vstd::seq_lib::to_multiset_contains(t, t[i]);
            vstd::seq_lib::to_multiset_contains(t, t[j]);
            vstd::seq_lib::to_multiset_contains(s, t[i]);
            vstd::seq_lib::to_multiset_contains(s, t[j]);
            let p = choose|p: int| 0 <= p < s.len() && s[p] == t[i];
            let q = choose|q: int| 0 <= q < s.len() && s[q] == t[j];
            if p < q {
                assert(key(s[p]) != key(s[q]));
            } else {
                assert(key(s[q]) != key(s[p]));
            }
        }
    }
}

proof fn lemma_strictly_ordered(s: Seq<SourceFile>)
    requires
        in_path_order(s),
        distinct_paths(s),
    ensures
        strictly_ordered(s),
{
    assert forall|i: int, j: int| 0 <= i < j < s.len() implies components_lt(key(#[trigger] s[i]), key(#[trigger] s[j])) by {
        lemma_components_lt_total(key(s[i]), key(s[j]));
    }
}

proof fn lemma_ordered_unique(a: Seq<SourceFile>, b: Seq<SourceFile>)
    requires
        strictly_ordered(a),
        strictly_ordered(b),
        a.to_multiset() == b.to_multiset(),
    ensures
        a == b,
    decreases a.len(),
{
    vstd::seq_lib::to_multiset_len(a);
    vstd::seq_lib::to_multiset_len(b);
    if a.len() == 0 {
        assert(a =~= b);
    } else {
        assert(a.contains(a[0]));
        assert(b.contains(b[0]));
        vstd::seq_lib::to_multiset_contains(a, a[0]);
        vstd::seq_lib::to_multiset_contains(b, a[0]);
        vstd::seq_lib::to_multiset_contains(b, b[0]);
        vstd::seq_lib::to_multiset_contains(a, b[0]);
        let k = choose|k: int| 0 <= k < b.len() && b[k] == a[0];
        let m = choose|m: int| 0 <= m < a.len() && a[m] == b[0];
        if k > 0 {
            assert(components_lt(key(b[0]), key(b[k])));
            if m > 0 {
                assert(components_lt(key(a[0]), key(a[m])));
                lemma_components_lt_asymmetric(key(a[0]), key(a[m]));
            } else {
                lemma_components_lt_irreflexive(key(b[0]));
            }
        }
        assert(a[0] == b[0]);
        vstd::seq_lib::to_multiset_remove(a, 0);
        vstd::seq_lib::to_multiset_remove(b, 0);
        assert(a.remove(0) =~= a.drop_first());
        assert(b.remove(0) =~= b.drop_first());
        let ta = a.drop_first();
        let tb = b.drop_first();
        assert forall|i: int, j: int| 0 <= i < j < ta.len() implies components_lt(key(#[trigger] ta[i]), key(#[trigger] ta[j])) by {
            assert(ta[i] == a[i + 1] && ta[j] == a[j + 1]);
        }
        assert forall|i: int, j: int| 0 <= i < j < tb.len() implies components_lt(key(#[trigger] tb[i]), key(#[trigger] tb[j])) by {
            assert(tb[i] == b[i + 1] && tb[j] == b[j + 1]);
        }
        lemma_ordered_unique(ta, tb);
        assert forall|i: int| 0 <= i < a.len() implies a[i] == b[i] by {
            if i > 0 {
                assert(a[i] == ta[i - 1] && b[i] == tb[i - 1]);
            }
        }
        assert(a =~= b);
    }
}

/// The checksum of a lib does not depend on the order in which its files
/// were listed: any rearrangement of files with distinct paths has the same
/// checksum.
pub proof fn lemma_checksum_order_independent(a: Seq<SourceFile>, b: Seq<SourceFile>)
    requires
        distinct_paths(a),
        a.to_multiset() == b.to_multiset(),
    ensures
        checksum_of(a) == checksum_of(b),
{
    lemma_sorted_files(a);
    lemma_sorted_files(b);
    let sa = sorted_files(a);
    let sb = sorted_files(b);
    lemma_distinct_paths_kept(a, sa);
    lemma_distinct_paths_kept(a, sb);
    lemma_strictly_ordered(sa);
    lemma_strictly_ordered(sb);
    lemma_ordered_unique(sa, sb);
}

/// Components joined with `/`.
pub open spec fn join_slash(p: Seq<Seq<char>>) -> Seq<char>
    decreases p.len(),
{
    if p.len() == 0 {
        Seq::empty()
    } else if p.len() == 1 {
        p[0]
    } else {
        join_slash(p.drop_last()) + seq!['/'] + p.last()
    }
}

/// What one file adds to the hashed bytes: its path in UTF-8, a zero byte,
/// its bytes, a zero byte.
pub open spec fn file_record(f: SourceFile) -> Seq<u8> {
    encode_utf8(join_slash(key(f))) + seq![0u8] + f.data@ + seq![0u8]
}

/// The bytes hashed for files taken in the given order.
pub open spec fn checksum_input(s: Seq<SourceFile>) -> Seq<u8>
    decreases s.len(),
{
    if s.len() == 0 {
        Seq::empty()
    } else {
        checksum_input(s.drop_last()) + file_record(s.last())
    }
}

/// The checksum of a lib whose files are `files`, in any order.
pub open spec fn checksum_of(files: Seq<SourceFile>) -> Seq<char> {
    hex_chars(sha256_digest(checksum_input(sorted_files(files))))
}

fn append_bytes(v: &mut Vec<u8>, b: &[u8])
    ensures
        final(v)@ == old(v)@ + b@,
{
    let mut i: usize = 0;
    while i < b.len()
        invariant
            i <= b@.len(),
            v@ == old(v)@ + b@.take(i as int),
        decreases b@.len() - i,
    {
        v.push(b[i]);
        i = i + 1;
        assert(v@ =~= old(v)@ + b@.take(i as int));
    }
    assert(b@.take(b@.len() as int) =~= b@);
}

fn joined_path(p: &Vec<String>) -> (r: String)
    ensures
        r@ == join_slash(views(p@)),
{
    let ghost vp = views(p@);
    let mut r = String::new();
    let mut i: usize = 0;
    while i < p.len()
        invariant
            vp == views(p@),
            i <= p@.len(),
            r@ == join_slash(vp.take(i as int)),
        decreases p@.len() - i,
    {
        assert(vp.take(i + 1).drop_last() =~= vp.take(i as int));
        if i > 0 {
            push_char(&mut r, '/');
        } else {
            assert(vp.take(0) =~= Seq::<Seq<char>>::empty());
        }
        push_str(&mut r, p[i].as_str());
        i = i + 1;
        proof {
            if i == 1 {
                assert(r@ =~= vp.take(1)[0]);
            }
        }
    }
    assert(vp.take(p@.len() as int) =~= vp);
    r
}

fn sort_files(files: Vec<SourceFile>) -> (r: Vec<SourceFile>)
    ensures
        r@ == sorted_files(files@),
{
    let ghost input = files@;
    let n = files.len();
    let mut sorted: Vec<SourceFile> = Vec::new();
    let mut rest = files;
    let mut taken: Vec<SourceFile> = Vec::new();
    // take the files from the back, then insert them front to back
    while rest.len() > 0
        invariant
            rest@.len() + taken@.len() == input.len(),
            forall|i: int| 0 <= i < rest@.len() ==> rest@[i] == input[i],
            forall|i: int| 0 <= i < taken@.len() ==> taken@[i] == input[input.len() - 1 - i],
        decreases rest@.len(),
    {
        let f = rest.pop().unwrap();
        taken.push(f);
    }
    let mut done: usize = 0;
    while taken.len() > 0
        invariant
            n == input.len(),
            taken@.len() + done == input.len(),
            forall|i: int| 0 <= i < taken@.len() ==> taken@[i] == input[input.len() - 1 - i],
            sorted@ == sorted_files(input.take(done as int)),
        decreases taken@.len(),
    {
        let f = taken.pop().unwrap();
        assert(f == input[done as int]);
        let mut j: usize = 0;
        while j < sorted.len() && !path_lt(&f.path, &sorted[j].path)
            invariant
                j <= sorted@.len(),
                forall|k: int| 0 <= k < j ==> !components_lt(key(f), key(#[trigger] sorted@[k])),
            decreases sorted@.len() - j,
        {
            j = j + 1;
        }
        proof {
            lemma_insert_pos(f, sorted@, j as int);
            assert(input.take(done + 1).drop_last() =~= input.take(done as int));
        }
        sorted.insert(j, f);
        done = done + 1;
    }
    assert(input.take(input.len() as int) =~= input);
    sorted
}

/// The checksum of a lib's source tree from its files, in any order: the
/// lowercase hex SHA-256 of their records in path order.
pub fn compute_checksum(files: Vec<SourceFile>) -> (r: String)
    ensures
        r@ == checksum_of(files@),
        r@.len() == 64,
{
    let sorted = sort_files(files);
    let mut bytes: Vec<u8> = Vec::new();
    let mut i: usize = 0;
    while i < sorted.len()
        invariant
            i <= sorted@.len(),
            bytes@ == checksum_input(sorted@.take(i as int)),
        decreases sorted@.len() - i,
    {
        assert(sorted@.take(i + 1).drop_last() =~= sorted@.take(i as int));
        let f = &sorted[i];
        let p = joined_path(&f.path);
        append_bytes(&mut bytes, p.as_str().as_bytes());
        bytes.push(0u8);
        append_bytes(&mut bytes, f.data.as_slice());
        bytes.push(0u8);
        i = i + 1;
        assert(bytes@ =~= checksum_input(sorted@.take(i as int)));
    }
    assert(sorted@.take(sorted@.len() as int) =~= sorted@);
    let digest = sha256(bytes.as_slice());
    proof {
        lemma_hex_chars_len(digest@);
    }
    hex_encode(digest.as_slice())
}

} // verus!
