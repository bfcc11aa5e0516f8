//! What holds of every walk for bundles.
use vstd::prelude::*;

use crate::scanner::{
    bundles_at, bundles_below, bundles_in, is_bundle, walk, FsModel, Platform, WalkFormat,
};

verus! {

/// A walk of two lists of roots finds what the walks of the two find, in order.
pub proof fn law_walk_of_joined(
    a: Seq<FsModel>,
    b: Seq<FsModel>,
    format: WalkFormat,
    platform: Platform,
)
    ensures
        walk(a + b, format, platform) == walk(a, format, platform) + walk(b, format, platform),
    decreases b.len(),
{
    if b.len() == 0 {
        assert(a + b =~= a);
        assert(walk(a, format, platform) + walk(b, format, platform) =~= walk(a, format, platform));
    } else {
        law_walk_of_joined(a, b.drop_last(), format, platform);
        assert((a + b).drop_last() =~= a + b.drop_last());
        assert((a + b).last() == b.last());
        assert(walk(a + b, format, platform) =~= walk(a, format, platform) + walk(
            b,
            format,
            platform,
        ));
    }
}

/// A walk of one root finds what is below it. One that does not exist has nothing.
pub proof fn law_walk_of_one(root: FsModel, format: WalkFormat, platform: Platform)
    ensures
        walk(seq![root], format, platform) == (if root.exists {
            bundles_below(root, format, platform)
        } else {
            Seq::empty()
        }),
{
    let one = seq![root];
    assert(one.drop_last() =~= Seq::empty());
    assert(one.last() == root);
    let none = walk(one.drop_last(), format, platform);
    assert(none =~= Seq::empty());
    assert(none + bundles_below(root, format, platform) =~= bundles_below(root, format, platform));
}

// ---------------------------------------------------------------------------
// Paths within paths
// ---------------------------------------------------------------------------

/// Whether the character parts the names of a path.
pub open spec fn is_separator(c: char, platform: Platform) -> bool {
    c == '/' || (platform == Platform::Windows && c == '\\')
}

/// The path `p` is `q`, or lies in it.
pub open spec fn is_within(p: Seq<char>, q: Seq<char>, platform: Platform) -> bool {
    &&& q.len() <= p.len()
    &&& p.take(q.len() as int) == q
    &&& {
        ||| p.len() == q.len()
        ||| q.len() == 0
        ||| is_separator(q.last(), platform)
        ||| is_separator(p[q.len() as int], platform)
    }
}

/// The path `p` lies in `q`, and is not `q`.
pub open spec fn is_below(p: Seq<char>, q: Seq<char>, platform: Platform) -> bool {
    is_within(p, q, platform) && q.len() < p.len()
}

/// No path of the list is another one's, or lies in another.
pub open spec fn apart(list: Seq<FsModel>, platform: Platform) -> bool {
    forall|i: int, j: int|
        #![trigger list[i], list[j]]
        0 <= i < list.len() && 0 <= j < list.len() && i != j ==> !is_within(
            list[i].path,
            list[j].path,
            platform,
        )
}

/// The paths of a file tree: what is in a folder lies below it, and nothing that is in
/// it has the path of something else there, or a path in it.
pub open spec fn is_tree(n: FsModel, platform: Platform) -> bool
    decreases n,
{
    &&& apart(n.entries, platform)
    &&& forall|i: int|
        #![trigger n.entries[i]]
        0 <= i < n.entries.len() ==> is_below(n.entries[i].path, n.path, platform) && is_tree(
            n.entries[i],
            platform,
        )
}

/// The path lies in that of a node of the list.
spec fn in_some(p: Seq<char>, list: Seq<FsModel>, platform: Platform) -> bool {
    exists|j: int| 0 <= j < list.len() && is_within(p, (#[trigger] list[j]).path, platform)
}

/// What lies in a path lies in what that one lies in.
proof fn lemma_within(p: Seq<char>, q: Seq<char>, r: Seq<char>, platform: Platform)
    requires
        is_within(p, q, platform),
        is_within(q, r, platform),
    ensures
        is_within(p, r, platform),
{
    assert(p.take(r.len() as int) =~= q.take(r.len() as int)) by {
        assert forall|k: int| 0 <= k < r.len() implies p[k] == q[k] by {
            assert(p.take(q.len() as int)[k] == q[k]);
        }
    }
    if r.len() < q.len() {
        assert(p.take(q.len() as int)[r.len() as int] == q[r.len() as int]);
    } else {
        assert(q =~= r);
    }
}

/// Of two paths in which one path lies, one lies in the other.
proof fn lemma_within_both(p: Seq<char>, a: Seq<char>, b: Seq<char>, platform: Platform)
    requires
        is_within(p, a, platform),
        is_within(p, b, platform),
        a.len() <= b.len(),
    ensures
        is_within(b, a, platform),
{
    assert(b.take(a.len() as int) =~= a) by {
        assert forall|k: int| 0 <= k < a.len() implies b[k] == a[k] by {
            assert(p.take(a.len() as int)[k] == a[k]);
            assert(p.take(b.len() as int)[k] == b[k]);
        }
    }
    if a.len() < b.len() {
        assert(p.take(b.len() as int)[a.len() as int] == b[a.len() as int]);
    }
}

/// A path that lies in one of two paths that are apart does not lie in a path that
/// lies in the other.
proof fn lemma_apart(p: Seq<char>, a: Seq<char>, q: Seq<char>, b: Seq<char>, platform: Platform)
    requires
        is_within(p, a, platform),
        is_within(q, b, platform),
        !is_within(a, b, platform),
        !is_within(b, a, platform),
    ensures
        !is_within(p, q, platform),
{
    if is_within(p, q, platform) {
        lemma_within(p, q, b, platform);
        if a.len() <= b.len() {
            lemma_within_both(p, a, b, platform);
        } else {
            lemma_within_both(p, b, a, platform);
        }
    }
}

// ---------------------------------------------------------------------------
// What is found
// ---------------------------------------------------------------------------

/// The bundles at or below an entry lie in it, apart from each other.
proof fn lemma_at(n: FsModel, format: WalkFormat, platform: Platform)
    requires
        is_tree(n, platform),
    ensures
        apart(bundles_at(n, format, platform), platform),
        forall|k: int|
            #![trigger bundles_at(n, format, platform)[k]]
            0 <= k < bundles_at(n, format, platform).len() ==> is_within(
                bundles_at(n, format, platform)[k].path,
                n.path,
                platform,
            ),
    decreases n, 1int,
{
    assert(n.path.take(n.path.len() as int) =~= n.path);
    if !is_bundle(n, format, platform) && n.is_dir {
        lemma_below(n, format, platform);
    }
}

/// The bundles below a folder lie below it, apart from each other.
proof fn lemma_below(n: FsModel, format: WalkFormat, platform: Platform)
    requires
        is_tree(n, platform),
    ensures
        apart(bundles_below(n, format, platform), platform),
        forall|k: int|
            #![trigger bundles_below(n, format, platform)[k]]
            0 <= k < bundles_below(n, format, platform).len() ==> is_below(
                bundles_below(n, format, platform)[k].path,
                n.path,
                platform,
            ),
    decreases n, 0int,
{
    if n.unreadable is None {
        assert(decreases_to!(n => n.entries));
        lemma_in(n.entries, format, platform);
        let found = bundles_below(n, format, platform);
        assert forall|k: int| #![trigger found[k]] 0 <= k < found.len() implies is_below(
            found[k].path,
            n.path,
            platform,
        ) by {
            assert(in_some(found[k].path, n.entries, platform));
            let j = choose|j: int|
                0 <= j < n.entries.len() && is_within(
                    found[k].path,
                    (#[trigger] n.entries[j]).path,
                    platform,
                );
            lemma_within(found[k].path, n.entries[j].path, n.path, platform);
        }
    }
}

/// The bundles at or below the entries of a list lie each in one of them, apart from
/// each other.
proof fn lemma_in(list: Seq<FsModel>, format: WalkFormat, platform: Platform)
    requires
        apart(list, platform),
        forall|i: int| #![trigger list[i]] 0 <= i < list.len() ==> is_tree(list[i], platform),
    ensures
        apart(bundles_in(list, format, platform), platform),
        forall|k: int|
            #![trigger bundles_in(list, format, platform)[k]]
            0 <= k < bundles_in(list, format, platform).len() ==> in_some(
                bundles_in(list, format, platform)[k].path,
                list,
                platform,
            ),
    decreases list, 0int,
{
    if list.len() > 0 {
        let last = list.len() - 1;
        assert(decreases_to!(list => list[last]));
        assert(is_tree(list[last], platform));
        lemma_at(list[last], format, platform);
        let fewer = list.drop_last();
        assert forall|i: int| #![trigger fewer[i]] 0 <= i < fewer.len() implies is_tree(
            fewer[i],
            platform,
        ) by {
            assert(fewer[i] == list[i]);
        }
        assert(apart(fewer, platform)) by {
            assert forall|i: int, j: int|
                #![trigger fewer[i], fewer[j]]
                0 <= i < fewer.len() && 0 <= j < fewer.len() && i != j implies !is_within(
                fewer[i].path,
                fewer[j].path,
                platform,
            ) by {
                assert(fewer[i] == list[i] && fewer[j] == list[j]);
            }
        }
        lemma_in(fewer, format, platform);
        lemma_joined(list, bundles_in(fewer, format, platform), bundles_at(
            list[last],
            format,
            platform,
        ), platform);
    }
}

/// Paths that lie each in one node of a list but the last, and paths that lie in the
/// last, are apart from each other where the nodes are.
proof fn lemma_joined(list: Seq<FsModel>, a: Seq<FsModel>, b: Seq<FsModel>, platform: Platform)
    requires
        list.len() > 0,
        apart(list, platform),
        apart(a, platform),
        apart(b, platform),
        forall|k: int|
            #![trigger a[k]]
            0 <= k < a.len() ==> in_some(a[k].path, list.drop_last(), platform),
        forall|k: int|
            #![trigger b[k]]
            0 <= k < b.len() ==> is_within(b[k].path, list.last().path, platform),
    ensures
        apart(a + b, platform),
        forall|k: int|
            #![trigger (a + b)[k]]
            0 <= k < (a + b).len() ==> in_some((a + b)[k].path, list, platform),
{
    let all = a + b;
    let n = a.len() as int;
    let last = list.len() - 1;
    let fewer = list.drop_last();
    assert forall|k: int| #![trigger all[k]] 0 <= k < all.len() implies in_some(
        all[k].path,
        list,
        platform,
    ) by {
        if k < n {
            assert(all[k] == a[k]);
            let i = choose|i: int|
                0 <= i < fewer.len() && is_within(a[k].path, (#[trigger] fewer[i]).path, platform);
            assert(is_within(a[k].path, list[i].path, platform));
        } else {
            assert(all[k] == b[k - n]);
            assert(is_within(b[k - n].path, list[last].path, platform));
        }
    }
    assert forall|i: int, j: int|
        #![trigger all[i], all[j]]
        0 <= i < all.len() && 0 <= j < all.len() && i != j implies !is_within(
        all[i].path,
        all[j].path,
        platform,
    ) by {
        if i < n && j < n {
            assert(all[i] == a[i] && all[j] == a[j]);
        } else if i >= n && j >= n {
            assert(all[i] == b[i - n] && all[j] == b[j - n]);
        } else {
            let (x, y) = if i < n {
                (i, j - n)
            } else {
                (j, i - n)
            };
            let p = a[x].path;
            let q = b[y].path;
            let m = choose|m: int|
                0 <= m < fewer.len() && is_within(p, (#[trigger] fewer[m]).path, platform);
            assert(fewer[m] == list[m]);
            assert(!is_within(list[m].path, list[last].path, platform));
            assert(!is_within(list[last].path, list[m].path, platform));
            lemma_apart(p, list[m].path, q, list[last].path, platform);
            lemma_apart(q, list[last].path, p, list[m].path, platform);
        }
    }
}

/// Where the roots are file trees that are apart from each other, a walk finds no path
/// twice, none that lies in another, and each below one of the roots. This holds of
/// every one root that is a file tree.
pub proof fn law_walk_paths_apart(roots: Seq<FsModel>, format: WalkFormat, platform: Platform)
    requires
        apart(roots, platform),
        forall|i: int| #![trigger roots[i]] 0 <= i < roots.len() ==> is_tree(roots[i], platform),
    ensures
        apart(walk(roots, format, platform), platform),
        forall|k: int|
            #![trigger walk(roots, format, platform)[k]]
            0 <= k < walk(roots, format, platform).len() ==> exists|j: int|
                0 <= j < roots.len() && is_below(
                    walk(roots, format, platform)[k].path,
                    (#[trigger] roots[j]).path,
                    platform,
                ),
    decreases roots.len(),
{
    if roots.len() > 0 {
        let last = roots.len() - 1;
        let fewer = roots.drop_last();
        let found = walk(roots, format, platform);
        let before = walk(fewer, format, platform);
        assert forall|i: int| #![trigger fewer[i]] 0 <= i < fewer.len() implies is_tree(
            fewer[i],
            platform,
        ) by {
            assert(fewer[i] == roots[i]);
        }
        assert(apart(fewer, platform)) by {
            assert forall|i: int, j: int|
                #![trigger fewer[i], fewer[j]]
                0 <= i < fewer.len() && 0 <= j < fewer.len() && i != j implies !is_within(
                fewer[i].path,
                fewer[j].path,
                platform,
            ) by {
                assert(fewer[i] == roots[i] && fewer[j] == roots[j]);
            }
        }
        law_walk_paths_apart(fewer, format, platform);
        assert(is_tree(roots[last], platform));
        lemma_below(roots[last], format, platform);
        let more = bundles_below(roots[last], format, platform);
        assert forall|k: int| #![trigger before[k]] 0 <= k < before.len() implies in_some(
            before[k].path,
            fewer,
            platform,
        ) by {
            let j = choose|j: int|
                0 <= j < fewer.len() && is_below(before[k].path, (#[trigger] fewer[j]).path, platform);
            assert(is_within(before[k].path, fewer[j].path, platform));
        }
        lemma_joined(roots, before, more, platform);
        assert forall|k: int| #![trigger found[k]] 0 <= k < found.len() implies exists|j: int|
            0 <= j < roots.len() && is_below(
                found[k].path,
                (#[trigger] roots[j]).path,
                platform,
            ) by {
            if k < before.len() {
                assert(found[k] == before[k]);
                let j = choose|j: int|
                    0 <= j < fewer.len() && is_below(
                        before[k].path,
                        (#[trigger] fewer[j]).path,
                        platform,
                    );
                assert(fewer[j] == roots[j]);
                assert(is_below(found[k].path, roots[j].path, platform));
            } else {
                assert(found[k] == more[k - before.len()]);
                assert(is_below(found[k].path, roots[last].path, platform));
            }
        }
    }
}

} // verus!
