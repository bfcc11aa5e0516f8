//! Digests by which a change of a project is noticed.
use vstd::prelude::*;

use crate::bytes::copy_bytes;

verus! {

// ---------------------------------------------------------------------------
// SHA-256
// ---------------------------------------------------------------------------

/// The SHA-256 digest of bytes.
pub uninterp spec fn sha256_digest(bytes: Seq<u8>) -> Seq<u8>;

/// The SHA-256 digest of bytes, by `sha2::Sha256::digest`. The result is only named.
#[verifier::external_body]
pub(crate) fn sha256(bytes: &[u8]) -> (out: [u8; 32])
    ensures
        out@ == sha256_digest(bytes@),
{
    <sha2::Sha256 as sha2::Digest>::digest(bytes).into()
}

/// What an optional digest holds.
pub open spec fn digest_of(hash: Option<[u8; 32]>) -> Option<Seq<u8>> {
    match hash {
        Some(h) => Some(h@),
        None => None,
    }
}

/// Whether two optional digests are equal.
pub fn same_digest(a: &Option<[u8; 32]>, b: &Option<[u8; 32]>) -> (same: bool)
    ensures
        same == (digest_of(*a) == digest_of(*b)),
{
    match (a, b) {
        (Some(x), Some(y)) => {
            for i in 0..32usize
                invariant
                    *a == Some(*x),
                    *b == Some(*y),
                    forall|k: int| 0 <= k < i ==> x@[k] == y@[k],
            {
                if x[i] != y[i] {
                    assert(x@[i as int] != y@[i as int]);
                    return false;
                }
            }
            assert(x@ =~= y@);
            true
        },
        (None, None) => true,
        _ => false,
    }
}

// ---------------------------------------------------------------------------
// Modification times
// ---------------------------------------------------------------------------

/// The lowest `k` bytes of a number, the lowest first.
pub open spec fn low_bytes(n: nat, k: nat) -> Seq<u8>
    decreases k,
{
    if k == 0 {
        Seq::empty()
    } else {
        seq![(n % 256) as u8] + low_bytes(n / 256, (k - 1) as nat)
    }
}

/// Appends the sixteen bytes of a number, the lowest first.
fn push_low_bytes(out: &mut Vec<u8>, n: u128)
    ensures
        final(out)@ == old(out)@ + low_bytes(n as nat, 16),
{
    let ghost start = out@;
    let ghost all = low_bytes(n as nat, 16);
    let mut rest: u128 = n;
    let ghost mut done: Seq<u8> = Seq::empty();
    assert(start + done =~= start);
    assert(done + all =~= all);
    for i in 0..16u8
        invariant
            out@ == start + done,
            done + low_bytes(rest as nat, (16 - i) as nat) == all,
    {
        let b: u8 = (rest % 256) as u8;
        out.push(b);
        proof {
            let tail = low_bytes(rest as nat / 256, (15 - i) as nat);
            assert(done + (seq![b] + tail) =~= done.push(b) + tail);
            assert((start + done).push(b) =~= start + done.push(b));
            done = done.push(b);
        }
        rest = rest / 256;
    }
    assert(done =~= all);
}

/// Appends bytes.
fn push_bytes(out: &mut Vec<u8>, bytes: &[u8])
    ensures
        final(out)@ == old(out)@ + bytes@,
{
    let ghost start = out@;
    assert(start + bytes@.take(0) =~= start);
    for i in 0..bytes.len()
        invariant
            out@ == start + bytes@.take(i as int),
    {
        out.push(bytes[i]);
        assert(start + bytes@.take(i + 1) =~= (start + bytes@.take(i as int)).push(bytes@[i as int]));
    }
    assert(bytes@.take(bytes@.len() as int) =~= bytes@);
}

/// A file with its modification time, in nanoseconds since 1970, where it has one.
#[derive(Debug)]
pub struct StampedFile {
    /// The bytes of the path, or of the name within a folder.
    pub name: Vec<u8>,
    pub nanos: Option<u128>,
}

/// What a `StampedFile` holds.
#[verifier::ext_equal]
pub struct StampModel {
    pub name: Seq<u8>,
    pub nanos: Option<u128>,
}

impl View for StampedFile {
    type V = StampModel;

    open spec fn view(&self) -> StampModel {
        StampModel { name: self.name@, nanos: self.nanos }
    }
}

/// What each file of a list holds.
pub open spec fn stamp_models(list: Seq<StampedFile>) -> Seq<StampModel> {
    list.map_values(|f: StampedFile| f@)
}

/// The digest of a file's time and path. A file that is not there has none.
pub open spec fn stamp_digest(f: StampModel) -> Option<Seq<u8>> {
    match f.nanos {
        Some(n) => Some(sha256_digest(low_bytes(n as nat, 16) + f.name)),
        None => None,
    }
}

/// The digest of a file's time and path. A file that is not there has none.
pub fn mtime_hash(file: &StampedFile) -> (out: Option<[u8; 32]>)
    ensures
        digest_of(out) == stamp_digest(file@),
{
    match file.nanos {
        Some(n) => {
            let mut bytes: Vec<u8> = Vec::new();
            push_low_bytes(&mut bytes, n);
            push_bytes(&mut bytes, file.name.as_slice());
            assert(bytes@ =~= low_bytes(n as nat, 16) + file.name@);
            Some(sha256(bytes.as_slice()))
        },
        None => None,
    }
}

// ---------------------------------------------------------------------------
// Listings
// ---------------------------------------------------------------------------

/// `a` stands before `b` in the order of their bytes.
pub open spec fn bytes_before(a: Seq<u8>, b: Seq<u8>) -> bool
    decreases a.len(),
{
    if b.len() == 0 {
        false
    } else if a.len() == 0 {
        true
    } else if a[0] != b[0] {
        a[0] < b[0]
    } else {
        bytes_before(a.skip(1), b.skip(1))
    }
}

/// Whether `a` stands before `b` in the order of their bytes.
fn is_before(a: &[u8], b: &[u8]) -> (yes: bool)
    ensures
        yes == bytes_before(a@, b@),
{
    let la: usize = a.len();
    let lb: usize = b.len();
    let mut i: usize = 0;
    assert(a@.skip(0) =~= a@);
    assert(b@.skip(0) =~= b@);
    while i < la && i < lb
        invariant
            la == a@.len(),
            lb == b@.len(),
            i <= la,
            i <= lb,
            bytes_before(a@, b@) == bytes_before(a@.skip(i as int), b@.skip(i as int)),
        decreases la - i,
    {
        proof {
            assert(a@.skip(i as int).skip(1) =~= a@.skip(i + 1));
            assert(b@.skip(i as int).skip(1) =~= b@.skip(i + 1));
        }
        if a[i] != b[i] {
            return a[i] < b[i];
        }
        i += 1;
    }
    i < lb
}

/// The list with a file put in its place: before the first one whose name comes later.
pub open spec fn with_file(list: Seq<StampModel>, f: StampModel) -> Seq<StampModel>
    decreases list.len(),
{
    if list.len() == 0 {
        seq![f]
    } else if bytes_before(f.name, list.last().name) {
        with_file(list.drop_last(), f).push(list.last())
    } else {
        list.push(f)
    }
}

/// The files in the order of their names.
pub open spec fn by_name(list: Seq<StampModel>) -> Seq<StampModel>
    decreases list.len(),
{
    if list.len() == 0 {
        Seq::empty()
    } else {
        with_file(by_name(list.drop_last()), list.last())
    }
}

/// The bytes that stand for a listing: of each file the time, where it has one, and
/// the name.
pub open spec fn listing_bytes(list: Seq<StampModel>) -> Seq<u8>
    decreases list.len(),
{
    if list.len() == 0 {
        Seq::empty()
    } else {
        let f = list.last();
        let before = listing_bytes(list.drop_last());
        match f.nanos {
            Some(n) => before + low_bytes(n as nat, 16) + f.name,
            None => before + f.name,
        }
    }
}

/// A file goes in at the index behind which every name comes later.
proof fn lemma_with_file(list: Seq<StampModel>, f: StampModel, at: int)
    requires
        0 <= at <= list.len(),
        at == 0 || !bytes_before(f.name, list[at - 1].name),
        forall|k: int| at <= k < list.len() ==> bytes_before(f.name, (#[trigger] list[k]).name),
    ensures
        with_file(list, f) == list.insert(at, f),
    decreases list.len(),
{
    if list.len() == 0 {
        assert(list.insert(0, f) =~= seq![f]);
    } else if at == list.len() {
        assert(list.insert(at, f) =~= list.push(f));
    } else {
        let fewer = list.drop_last();
        assert forall|k: int| at <= k < fewer.len() implies bytes_before(
            f.name,
            (#[trigger] fewer[k]).name,
        ) by {
            assert(fewer[k] == list[k]);
        }
        lemma_with_file(fewer, f, at);
        assert(bytes_before(f.name, list[list.len() - 1].name));
        assert(fewer.insert(at, f).push(list.last()) =~= list.insert(at, f));
    }
}

/// The files in the order of their names.
fn sorted_files(list: &Vec<StampedFile>) -> (out: Vec<StampedFile>)
    ensures
        stamp_models(out@) == by_name(stamp_models(list@)),
{
    let mut out: Vec<StampedFile> = Vec::new();
    let ghost all = stamp_models(list@);
    assert(stamp_models(out@) =~= by_name(all.take(0)));
    for i in 0..list.len()
        invariant
            all == stamp_models(list@),
            stamp_models(out@) == by_name(all.take(i as int)),
    {
        let file = StampedFile { name: copy_bytes(list[i].name.as_slice()), nanos: list[i].nanos };
        let ghost f = file@;
        let ghost sorted = stamp_models(out@);
        assert(f == all[i as int]);
        let mut at: usize = out.len();
        while at > 0 && is_before(file.name.as_slice(), out[at - 1].name.as_slice())
            invariant
                at <= out@.len(),
                f == file@,
                sorted == stamp_models(out@),
                forall|k: int|
                    at <= k < sorted.len() ==> bytes_before(f.name, (#[trigger] sorted[k]).name),
            decreases at,
        {
            at = at - 1;
            assert(sorted[at as int] == out@[at as int]@);
        }
        proof {
            if at > 0 {
                assert(sorted[at - 1] == out@[at - 1]@);
            }
            lemma_with_file(sorted, f, at as int);
            assert(all.take(i + 1).drop_last() =~= all.take(i as int));
        }
        out.insert(at, file);
        assert(stamp_models(out@) =~= sorted.insert(at as int, f));
    }
    assert(all.take(all.len() as int) =~= all);
    out
}

/// The bytes that stand for a listing.
fn listing_text(list: &Vec<StampedFile>) -> (out: Vec<u8>)
    ensures
        out@ == listing_bytes(stamp_models(list@)),
{
    let mut out: Vec<u8> = Vec::new();
    let ghost all = stamp_models(list@);
    assert(out@ =~= listing_bytes(all.take(0)));
    for i in 0..list.len()
        invariant
            all == stamp_models(list@),
            out@ == listing_bytes(all.take(i as int)),
    {
        proof {
            let next = all.take(i + 1);
            assert(next.drop_last() =~= all.take(i as int));
            assert(next.last() == list@[i as int]@);
        }
        if let Some(n) = list[i].nanos {
            push_low_bytes(&mut out, n);
        }
        push_bytes(&mut out, list[i].name.as_slice());
    }
    assert(all.take(all.len() as int) =~= all);
    out
}

// ---------------------------------------------------------------------------
// Projects
// ---------------------------------------------------------------------------

/// The times of the files of a Logic package.
pub struct PackageTimes {
    /// `Alternatives/000/ProjectData`, where Logic 10.1 and later keep the project.
    pub modern: StampedFile,
    /// `ProjectData`.
    pub upper: StampedFile,
    /// `projectData`.
    pub lower: StampedFile,
    /// The files of the package's root, where they can be listed.
    pub root: Option<Vec<StampedFile>>,
}

/// The digest of a package: of the first project file that is there, else of all times
/// in its root. The times stand for the content, which can be large.
pub open spec fn package_digest(p: PackageTimes) -> Option<Seq<u8>> {
    if stamp_digest(p.modern@) is Some {
        stamp_digest(p.modern@)
    } else if stamp_digest(p.upper@) is Some {
        stamp_digest(p.upper@)
    } else if stamp_digest(p.lower@) is Some {
        stamp_digest(p.lower@)
    } else {
        match p.root {
            Some(list) => Some(sha256_digest(listing_bytes(by_name(stamp_models(list@))))),
            None => None,
        }
    }
}

/// The digest of a package.
pub fn hash_logic_package(times: &PackageTimes) -> (out: Option<[u8; 32]>)
    ensures
        digest_of(out) == package_digest(*times),
{
    let modern = mtime_hash(&times.modern);
    if modern.is_some() {
        return modern;
    }
    let upper = mtime_hash(&times.upper);
    if upper.is_some() {
        return upper;
    }
    let lower = mtime_hash(&times.lower);
    if lower.is_some() {
        return lower;
    }
    match &times.root {
        Some(list) => {
            let sorted = sorted_files(list);
            let bytes = listing_text(&sorted);
            Some(sha256(bytes.as_slice()))
        },
        None => None,
    }
}

/// The digest of the bytes of a file, where they can be read.
pub fn hash_file(data: &Option<Vec<u8>>) -> (out: Option<[u8; 32]>)
    ensures
        digest_of(out) == match *data {
            Some(bytes) => Some(sha256_digest(bytes@)),
            None => None,
        },
{
    match data {
        Some(bytes) => Some(sha256(bytes.as_slice())),
        None => None,
    }
}

// ---------------------------------------------------------------------------
// Laws
// ---------------------------------------------------------------------------

/// No two neighbours of a list stand in the wrong order.
pub open spec fn in_order(list: Seq<StampModel>) -> bool {
    forall|i: int|
        #![trigger list[i]]
        0 <= i < list.len() - 1 ==> !bytes_before(list[i + 1].name, list[i].name)
}

/// Of two names at most one stands before the other.
proof fn lemma_before_one_way(a: Seq<u8>, b: Seq<u8>)
    requires
        bytes_before(a, b),
    ensures
        !bytes_before(b, a),
    decreases a.len(),
{
    if a.len() > 0 && a[0] == b[0] {
        lemma_before_one_way(a.skip(1), b.skip(1));
    }
}

/// A file put in its place keeps the order.
proof fn lemma_with_file_in_order(list: Seq<StampModel>, f: StampModel)
    requires
        in_order(list),
    ensures
        in_order(with_file(list, f)),
        with_file(list, f).len() == list.len() + 1,
        with_file(list, f).last() == f || (list.len() > 0 && with_file(list, f).last()
            == list.last()),
        with_file(list, f).to_multiset() == list.to_multiset().insert(f),
    decreases list.len(),
{
    broadcast use vstd::seq_lib::group_to_multiset_ensures;

    if list.len() == 0 {
        assert(seq![f] =~= list.push(f));
    } else if bytes_before(f.name, list.last().name) {
        let fewer = list.drop_last();
        assert(in_order(fewer)) by {
            assert forall|i: int|
                #![trigger fewer[i]]
                0 <= i < fewer.len() - 1 implies !bytes_before(fewer[i + 1].name, fewer[i].name) by {
                assert(list[i] == fewer[i]);
                assert(list[i + 1] == fewer[i + 1]);
            }
        }
        lemma_with_file_in_order(fewer, f);
        let inner = with_file(fewer, f);
        let now = inner.push(list.last());
        lemma_before_one_way(f.name, list.last().name);
        assert forall|i: int|
            #![trigger now[i]]
            0 <= i < now.len() - 1 implies !bytes_before(now[i + 1].name, now[i].name) by {
            if i < inner.len() - 1 {
                assert(now[i] == inner[i]);
                assert(now[i + 1] == inner[i + 1]);
            } else {
                assert(now[i] == inner.last());
                if inner.last() != f {
                    assert(list[list.len() - 2] == fewer.last());
                }
            }
        }
        assert(list =~= fewer.push(list.last()));
        assert(now.to_multiset() =~= list.to_multiset().insert(f));
    } else {
        let now = list.push(f);
        assert forall|i: int|
            #![trigger now[i]]
            0 <= i < now.len() - 1 implies !bytes_before(now[i + 1].name, now[i].name) by {
            assert(now[i] == list[i]);
        }
    }
}

/// The files in the order of their names are in that order, and they are the same
/// files.
pub proof fn law_by_name(list: Seq<StampModel>)
    ensures
        in_order(by_name(list)),
        by_name(list).to_multiset() == list.to_multiset(),
    decreases list.len(),
{
    broadcast use vstd::seq_lib::group_to_multiset_ensures;

    if list.len() > 0 {
        law_by_name(list.drop_last());
        lemma_with_file_in_order(by_name(list.drop_last()), list.last());
        assert(list =~= list.drop_last().push(list.last()));
    }
}

} // verus!
