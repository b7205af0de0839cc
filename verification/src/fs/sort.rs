//! Ordering of entries, following colorls:
//! - name: case-sensitive name order (code point order).
//! - size: largest first, then name.
//! - time: newest first (descending mtime), then name.
//! - extension: by extension, then by name.
//! - unsorted: keep the input order (`-U`).
//!
//! `--reverse` flips the order; `--sd`/`--sf` then partition by kind,
//! keeping the order within each group. Every sort is stable.

use std::cmp::Ordering;

use vstd::prelude::*;

use crate::config::str_map::{lemma_less_irreflexive, lemma_less_total, lemma_less_transitive};
use crate::fs::entry::{EntryKind, FileEntry};
use crate::options::{Group, SortKey, SortSpec};
use crate::path::{path_extension, path_extension_of};
use crate::text::{chars_less, chars_of, seq_less};
use crate::util::time_fmt::SysTime;

verus! {

/// The rank an entry is ordered by: compared lexicographically, integers
/// by `<`, texts by code point order.
pub type Rank = (int, int, Seq<char>, Seq<char>);

/// Lexicographic order on ranks.
pub open spec fn rank_less(x: Rank, y: Rank) -> bool {
    x.0 < y.0 || (x.0 == y.0 && (x.1 < y.1 || (x.1 == y.1 && (seq_less(x.2, y.2) || (x.2 == y.2
        && seq_less(x.3, y.3))))))
}

/// What a sorting pass orders by: a sort key, or a directory grouping.
#[derive(Debug, Clone, Copy, PartialEq, Eq, Structural)]
pub enum Order {
    Key(SortKey),
    Grouping(Group),
}

/// Modification time, the Unix epoch when unknown.
pub open spec fn mtime_of(e: FileEntry) -> SysTime {
    match e.meta.mtime {
        Some(t) => t,
        None => SysTime { secs: 0, nanos: 0 },
    }
}

/// The extension of a name, empty when it has none.
pub open spec fn extension_of(name: Seq<char>) -> Seq<char> {
    match path_extension_of(name) {
        Some(x) => x,
        None => Seq::empty(),
    }
}

/// The rank of `e` under `o`.
pub open spec fn rank(e: FileEntry, o: Order) -> Rank {
    match o {
        Order::Key(SortKey::Name) => (0, 0, e.name@, Seq::empty()),
        Order::Key(SortKey::Size) => (-(e.meta.size as int), 0, e.name@, Seq::empty()),
        Order::Key(SortKey::Time) => (
            -(mtime_of(e).secs as int),
            -(mtime_of(e).nanos as int),
            e.name@,
            Seq::empty(),
        ),
        Order::Key(SortKey::Extension) => (0, 0, extension_of(e.name@), e.name@),
        Order::Key(SortKey::Unsorted) => (0, 0, Seq::empty(), Seq::empty()),
        Order::Grouping(Group::Mixed) => (0, 0, Seq::empty(), Seq::empty()),
        Order::Grouping(Group::DirsFirst) => (
            if e.kind == EntryKind::Directory {
                0
            } else {
                1
            },
            0,
            Seq::empty(),
            Seq::empty(),
        ),
        Order::Grouping(Group::FilesFirst) => (
            if e.kind == EntryKind::Directory {
                1
            } else {
                0
            },
            0,
            Seq::empty(),
            Seq::empty(),
        ),
    }
}

/// `perm` is a permutation of `0..n`.
pub open spec fn is_permutation(perm: Seq<int>, n: nat) -> bool {
    &&& perm.len() == n
    &&& forall|k: int| 0 <= k < n ==> 0 <= #[trigger] perm[k] < n
    &&& forall|a: int, b: int| 0 <= a < b < n ==> #[trigger] perm[a] != #[trigger] perm[b]
}

/// `out` is `inp` rearranged by `perm`, ordered by `o`, with entries of
/// equal rank in their input order.
pub open spec fn stably_sorted_by(
    inp: Seq<FileEntry>,
    out: Seq<FileEntry>,
    o: Order,
    perm: Seq<int>,
) -> bool {
    &&& out.len() == inp.len()
    &&& is_permutation(perm, inp.len())
    &&& forall|k: int| 0 <= k < out.len() ==> #[trigger] out[k] == inp[perm[k]]
    &&& forall|i: int, j: int|
        0 <= i < j < out.len() ==> !rank_less(rank(#[trigger] out[j], o), rank(#[trigger] out[i], o))
    &&& forall|i: int, j: int|
        0 <= i < j < out.len() && rank(#[trigger] out[i], o) == rank(#[trigger] out[j], o) ==> perm[i]
            < perm[j]
}

/// `out` is the stable sort of `inp` by `o`.
pub open spec fn stable_sort_of(inp: Seq<FileEntry>, out: Seq<FileEntry>, o: Order) -> bool {
    exists|perm: Seq<int>| #[trigger] stably_sorted_by(inp, out, o, perm)
}

/// The first pass of `sort`: by key, or unchanged for `-U`.
pub open spec fn key_pass(inp: Seq<FileEntry>, out: Seq<FileEntry>, key: SortKey) -> bool {
    if key == SortKey::Unsorted {
        out == inp
    } else {
        stable_sort_of(inp, out, Order::Key(key))
    }
}

/// The last pass of `sort`: grouping, or unchanged when mixed.
pub open spec fn group_pass(inp: Seq<FileEntry>, out: Seq<FileEntry>, group: Group) -> bool {
    if group == Group::Mixed {
        out == inp
    } else {
        stable_sort_of(inp, out, Order::Grouping(group))
    }
}

/// `out` is `inp` ordered by `spec`: sorted by key, reversed on request,
/// then grouped.
pub open spec fn sorted_by_spec(inp: Seq<FileEntry>, out: Seq<FileEntry>, spec: SortSpec) -> bool {
    exists|a: Seq<FileEntry>|
        #[trigger] key_pass(inp, a, spec.key) && group_pass(
            if spec.reverse {
                a.reverse()
            } else {
                a
            },
            out,
            spec.group,
        )
}

pub proof fn lemma_rank_irreflexive(x: Rank)
    ensures
        !rank_less(x, x),
{
    lemma_less_irreflexive(x.2);
    lemma_less_irreflexive(x.3);
}

pub proof fn lemma_rank_transitive(x: Rank, y: Rank, z: Rank)
    requires
        rank_less(x, y),
        rank_less(y, z),
    ensures
        rank_less(x, z),
{
    if x.0 == y.0 && y.0 == z.0 && x.1 == y.1 && y.1 == z.1 {
        if seq_less(x.2, y.2) && seq_less(y.2, z.2) {
            lemma_less_transitive(x.2, y.2, z.2);
        } else if x.2 == y.2 && y.2 == z.2 {
            lemma_less_transitive(x.3, y.3, z.3);
        }
    }
}

pub proof fn lemma_rank_total(x: Rank, y: Rank)
    ensures
        x == y || rank_less(x, y) || rank_less(y, x),
{
    lemma_less_total(x.2, y.2);
    lemma_less_total(x.3, y.3);
}

/// Ranks compare as a strict weak order: not below is transitive.
pub proof fn lemma_rank_not_less_transitive(x: Rank, y: Rank, z: Rank)
    requires
        !rank_less(x, y),
        !rank_less(y, z),
    ensures
        !rank_less(x, z),
{
    lemma_rank_total(x, y);
    if rank_less(x, z) {
        if x == y {
        } else if rank_less(y, x) {
            lemma_rank_transitive(y, x, z);
        }
    }
}

/// `s` is in order by `o`: no entry ranks below an earlier one.
pub open spec fn in_order(s: Seq<FileEntry>, o: Order) -> bool {
    forall|i: int, j: int|
        0 <= i < j < s.len() ==> !rank_less(rank(#[trigger] s[j], o), rank(#[trigger] s[i], o))
}

/// A permutation of `0..n` takes every value in `0..n`.
proof fn lemma_permutation_onto(perm: Seq<int>, n: nat, v: int)
    requires
        is_permutation(perm, n),
        0 <= v < n,
    ensures
        exists|m: int| 0 <= m < n && perm[m] == v,
{
    assert(perm.no_duplicates()) by {
        assert forall|a: int, b: int| 0 <= a < perm.len() && 0 <= b < perm.len() && a != b implies perm[a]
            != perm[b] by {
            if a < b {
                assert(perm[a] != perm[b]);
            } else {
                assert(perm[b] != perm[a]);
            }
        }
    }
    perm.unique_seq_to_set();
    vstd::set_lib::lemma_int_range(0, n as int);
    let range = vstd::set_lib::set_int_range(0, n as int);
    assert(perm.to_set().subset_of(range)) by {
        assert forall|x: int| perm.to_set().contains(x) implies range.contains(x) by {
            let k = choose|k: int| 0 <= k < perm.len() && perm[k] == x;
            assert(0 <= perm[k] < n);
        }
    }
    vstd::set_lib::lemma_len_subset(perm.to_set(), range);
    vstd::set_lib::lemma_subset_equality(perm.to_set(), range);
    assert(range.contains(v));
    assert(perm.to_set().contains(v));
}

/// Sorting what is already in order changes nothing: a stable sort of an
/// ordered sequence is that sequence.
pub proof fn lemma_stable_sort_of_ordered(y: Seq<FileEntry>, z: Seq<FileEntry>, o: Order)
    requires
        in_order(y, o),
        stable_sort_of(y, z, o),
    ensures
        z == y,
{
    let perm = choose|perm: Seq<int>| #[trigger] stably_sorted_by(y, z, o, perm);
    let n = y.len();
    assert forall|k: int| 0 <= k < n implies perm[k] == k by {
        lemma_perm_is_identity(y, z, o, perm, k);
    }
    assert(z =~= y);
}

/// Under the hypotheses of `lemma_stable_sort_of_ordered`, the
/// permutation fixes every position up to `k`.
proof fn lemma_perm_is_identity(y: Seq<FileEntry>, z: Seq<FileEntry>, o: Order, perm: Seq<int>, k: int)
    requires
        in_order(y, o),
        stably_sorted_by(y, z, o, perm),
        0 <= k < y.len(),
    ensures
        perm[k] == k,
    decreases k,
{
    let n = y.len();
    assert forall|j: int| 0 <= j < k implies perm[j] == j by {
        lemma_perm_is_identity(y, z, o, perm, j);
    }
    let p = perm[k];
    assert(0 <= p < n);
    if p < k {
        assert(perm[p] == p);
        assert(perm[p] != perm[k]);
    }
    if p > k {
        lemma_permutation_onto(perm, n as nat, k);
        let m = choose|m: int| 0 <= m < n && perm[m] == k;
        if m < k {
            assert(perm[m] == m);
        }
        assert(m > k);
        // z[k] == y[p] and z[m] == y[k]
        assert(z[k] == y[p]);
        assert(z[m] == y[k]);
        assert(!rank_less(rank(z[m], o), rank(z[k], o)));
        assert(!rank_less(rank(y[p], o), rank(y[k], o)));
        lemma_rank_total(rank(y[k], o), rank(y[p], o));
        assert(rank(z[k], o) == rank(z[m], o));
        assert(perm[k] < perm[m]);
    }
}

/// A stable sort leaves its output in order.
proof fn lemma_stable_sort_in_order(x: Seq<FileEntry>, y: Seq<FileEntry>, o: Order)
    requires
        stable_sort_of(x, y, o),
    ensures
        in_order(y, o),
{
    let perm = choose|perm: Seq<int>| #[trigger] stably_sorted_by(x, y, o, perm);
}

/// Sorting twice is sorting once, for an order that is not reversed and
/// not grouped: `sort` is idempotent.
pub proof fn lemma_sort_idempotent(x: Seq<FileEntry>, y: Seq<FileEntry>, z: Seq<FileEntry>, spec: SortSpec)
    requires
        !spec.reverse,
        spec.group == Group::Mixed,
        sorted_by_spec(x, y, spec),
        sorted_by_spec(y, z, spec),
    ensures
        z == y,
{
    let a = choose|a: Seq<FileEntry>|
        #[trigger] key_pass(x, a, spec.key) && group_pass(
            if spec.reverse {
                a.reverse()
            } else {
                a
            },
            y,
            spec.group,
        );
    let b = choose|b: Seq<FileEntry>|
        #[trigger] key_pass(y, b, spec.key) && group_pass(
            if spec.reverse {
                b.reverse()
            } else {
                b
            },
            z,
            spec.group,
        );
    assert(y == a);
    assert(z == b);
    if spec.key != SortKey::Unsorted {
        lemma_stable_sort_in_order(x, y, Order::Key(spec.key));
        lemma_stable_sort_of_ordered(y, z, Order::Key(spec.key));
    }
}

/// Sorting by a key with no grouping never puts an entry after one that
/// `compare` orders behind it: for `i < j`, `compare(y[i], y[j], key)` is
/// not `Greater` (whose contract is `rank_less` of the two ranks swapped),
/// and not `Less` when the order is reversed.
pub proof fn lemma_sort_follows_compare(x: Seq<FileEntry>, y: Seq<FileEntry>, spec: SortSpec, i: int, j: int)
    requires
        sorted_by_spec(x, y, spec),
        spec.group == Group::Mixed,
        spec.key != SortKey::Unsorted,
        0 <= i < j < y.len(),
    ensures
        !spec.reverse ==> !rank_less(rank(y[j], Order::Key(spec.key)), rank(y[i], Order::Key(spec.key))),
        spec.reverse ==> !rank_less(rank(y[i], Order::Key(spec.key)), rank(y[j], Order::Key(spec.key))),
{
    let a = choose|a: Seq<FileEntry>|
        #[trigger] key_pass(x, a, spec.key) && group_pass(
            if spec.reverse {
                a.reverse()
            } else {
                a
            },
            y,
            spec.group,
        );
    lemma_stable_sort_in_order(x, a, Order::Key(spec.key));
    if spec.reverse {
        let n = a.len() as int;
        assert(y == a.reverse());
        assert(y[i] == a[n - 1 - i] && y[j] == a[n - 1 - j]);
        assert(!rank_less(rank(a[n - 1 - i], Order::Key(spec.key)), rank(a[n - 1 - j], Order::Key(spec.key))));
    } else {
        assert(y == a);
    }
}

/// `b` is `a` rearranged by the permutation `perm`.
pub open spec fn rearranged(a: Seq<FileEntry>, b: Seq<FileEntry>, perm: Seq<int>) -> bool {
    &&& b.len() == a.len()
    &&& is_permutation(perm, a.len())
    &&& forall|k: int| 0 <= k < b.len() ==> #[trigger] b[k] == a[perm[k]]
}

/// Rearrangements compose.
proof fn lemma_rearranged_compose(a: Seq<FileEntry>, b: Seq<FileEntry>, c: Seq<FileEntry>, p: Seq<int>, q: Seq<int>)
    requires
        rearranged(a, b, p),
        rearranged(b, c, q),
    ensures
        rearranged(a, c, Seq::new(a.len(), |k: int| p[q[k]])),
{
    let r = Seq::new(a.len(), |k: int| p[q[k]]);
    let n = a.len();
    assert forall|k: int| 0 <= k < n implies 0 <= #[trigger] r[k] < n by {
        assert(0 <= q[k] < n);
    }
    assert forall|u: int, v: int| 0 <= u < v < n implies #[trigger] r[u] != #[trigger] r[v] by {
        assert(q[u] != q[v]);
        if q[u] < q[v] {
            assert(p[q[u]] != p[q[v]]);
        } else {
            assert(p[q[v]] != p[q[u]]);
        }
    }
    assert forall|k: int| 0 <= k < c.len() implies #[trigger] c[k] == a[r[k]] by {
        assert(c[k] == b[q[k]]);
        assert(0 <= q[k] < n);
        assert(b[q[k]] == a[p[q[k]]]);
    }
}

/// Sorting rearranges its input: the output holds the same entries, each
/// once.
pub proof fn lemma_sort_rearranges(x: Seq<FileEntry>, y: Seq<FileEntry>, spec: SortSpec)
    requires
        sorted_by_spec(x, y, spec),
    ensures
        exists|perm: Seq<int>| #[trigger] rearranged(x, y, perm),
{
    let a = choose|a: Seq<FileEntry>|
        #[trigger] key_pass(x, a, spec.key) && group_pass(
            if spec.reverse {
                a.reverse()
            } else {
                a
            },
            y,
            spec.group,
        );
    let n = x.len();
    let id = Seq::new(n, |k: int| k);
    // the key pass
    let p1 = if spec.key == SortKey::Unsorted {
        id
    } else {
        choose|perm: Seq<int>| #[trigger] stably_sorted_by(x, a, Order::Key(spec.key), perm)
    };
    assert(rearranged(x, a, p1));
    // the reversal
    let b = if spec.reverse {
        a.reverse()
    } else {
        a
    };
    let p2 = if spec.reverse {
        Seq::new(n, |k: int| n - 1 - k)
    } else {
        id
    };
    assert(rearranged(a, b, p2));
    // the grouping pass
    let p3 = if spec.group == Group::Mixed {
        id
    } else {
        choose|perm: Seq<int>| #[trigger] stably_sorted_by(b, y, Order::Grouping(spec.group), perm)
    };
    assert(rearranged(b, y, p3));
    lemma_rearranged_compose(x, a, b, p1, p2);
    let p12 = Seq::new(n, |k: int| p1[p2[k]]);
    lemma_rearranged_compose(x, b, y, p12, p3);
    assert(rearranged(x, y, Seq::new(n, |k: int| p12[p3[k]])));
}

/// `i` comes before `j` in a stable sort of `a` by `o`: it ranks lower, or
/// ranks the same and comes first.
pub open spec fn precedes(a: Seq<FileEntry>, o: Order, i: int, j: int) -> bool {
    rank_less(rank(a[i], o), rank(a[j], o)) || (rank(a[i], o) == rank(a[j], o) && i < j)
}

proof fn lemma_precedes_asymmetric(a: Seq<FileEntry>, o: Order, i: int, j: int)
    ensures
        !(precedes(a, o, i, j) && precedes(a, o, j, i)),
{
    let x = rank(a[i], o);
    let y = rank(a[j], o);
    lemma_rank_irreflexive(x);
    lemma_rank_irreflexive(y);
    if rank_less(x, y) && rank_less(y, x) {
        lemma_rank_transitive(x, y, x);
    }
}

proof fn lemma_precedes_total(a: Seq<FileEntry>, o: Order, i: int, j: int)
    requires
        i != j,
    ensures
        precedes(a, o, i, j) || precedes(a, o, j, i),
{
    lemma_rank_total(rank(a[i], o), rank(a[j], o));
}

/// A stable sort lists the input positions in `precedes` order.
proof fn lemma_stable_perm_precedes(a: Seq<FileEntry>, out: Seq<FileEntry>, o: Order, p: Seq<int>, k: int, l: int)
    requires
        stably_sorted_by(a, out, o, p),
        0 <= k < l < out.len(),
    ensures
        precedes(a, o, p[k], p[l]),
{
    assert(out[k] == a[p[k]] && out[l] == a[p[l]]);
    lemma_rank_total(rank(out[k], o), rank(out[l], o));
}

/// Two stable sorts of one input use the same permutation, up to `k`.
proof fn lemma_stable_perms_agree(
    a: Seq<FileEntry>,
    o1: Seq<FileEntry>,
    o2: Seq<FileEntry>,
    o: Order,
    p1: Seq<int>,
    p2: Seq<int>,
    k: int,
)
    requires
        stably_sorted_by(a, o1, o, p1),
        stably_sorted_by(a, o2, o, p2),
        0 <= k < a.len(),
    ensures
        p1[k] == p2[k],
    decreases k,
{
    let n = a.len();
    assert forall|j: int| 0 <= j < k implies p1[j] == p2[j] by {
        lemma_stable_perms_agree(a, o1, o2, o, p1, p2, j);
    }
    if p1[k] != p2[k] {
        lemma_precedes_total(a, o, p1[k], p2[k]);
        if precedes(a, o, p1[k], p2[k]) {
            lemma_permutation_onto(p2, n as nat, p1[k]);
            let m = choose|m: int| 0 <= m < n && p2[m] == p1[k];
            if m < k {
                assert(p1[m] == p2[m]);
                assert(p1[m] != p1[k]);
            }
            assert(m > k);
            lemma_stable_perm_precedes(a, o2, o, p2, k, m);
            lemma_precedes_asymmetric(a, o, p1[k], p2[k]);
        } else {
            lemma_permutation_onto(p1, n as nat, p2[k]);
            let m = choose|m: int| 0 <= m < n && p1[m] == p2[k];
            if m < k {
                assert(p1[m] == p2[m]);
                assert(p2[m] != p2[k]);
            }
            assert(m > k);
            lemma_stable_perm_precedes(a, o1, o, p1, k, m);
            lemma_precedes_asymmetric(a, o, p1[k], p2[k]);
        }
    }
}

/// A stable sort is unique: two stable sorts of one input are equal.
pub proof fn lemma_stable_sort_unique(a: Seq<FileEntry>, o1: Seq<FileEntry>, o2: Seq<FileEntry>, o: Order)
    requires
        stable_sort_of(a, o1, o),
        stable_sort_of(a, o2, o),
    ensures
        o1 == o2,
{
    let p1 = choose|perm: Seq<int>| #[trigger] stably_sorted_by(a, o1, o, perm);
    let p2 = choose|perm: Seq<int>| #[trigger] stably_sorted_by(a, o2, o, perm);
    assert forall|k: int| 0 <= k < o1.len() implies o1[k] == o2[k] by {
        lemma_stable_perms_agree(a, o1, o2, o, p1, p2, k);
    }
    assert(o1 =~= o2);
}

/// The entry is a directory.
pub open spec fn is_directory(e: FileEntry) -> bool {
    e.kind == EntryKind::Directory
}

/// Entries that are (`dirs`) or are not directories.
pub open spec fn kind_is(dirs: bool) -> spec_fn(FileEntry) -> bool {
    |e: FileEntry| is_directory(e) == dirs
}

/// The positions below `n` whose entry is (`dirs`) or is not a directory,
/// in order.
pub open spec fn positions(a: Seq<FileEntry>, n: int, dirs: bool) -> Seq<int>
    decreases n,
{
    if n <= 0 {
        Seq::empty()
    } else {
        let p = positions(a, n - 1, dirs);
        if is_directory(a[n - 1]) == dirs {
            p.push(n - 1)
        } else {
            p
        }
    }
}

proof fn lemma_positions(a: Seq<FileEntry>, n: int, dirs: bool)
    requires
        0 <= n <= a.len(),
    ensures
        forall|k: int|
            0 <= k < positions(a, n, dirs).len() ==> 0 <= #[trigger] positions(a, n, dirs)[k] < n
                && is_directory(a[positions(a, n, dirs)[k]]) == dirs,
        forall|u: int, v: int|
            0 <= u < v < positions(a, n, dirs).len() ==> #[trigger] positions(a, n, dirs)[u]
                < #[trigger] positions(a, n, dirs)[v],
        a.take(n).filter(kind_is(dirs)) == positions(a, n, dirs).map_values(|i: int| a[i]),
        positions(a, n, true).len() + positions(a, n, false).len() == n,
    decreases n,
{
    reveal(Seq::filter);
    if n > 0 {
        lemma_positions(a, n - 1, dirs);
        lemma_positions(a, n - 1, !dirs);
        assert(a.take(n).drop_last() =~= a.take(n - 1));
        assert(a.take(n).last() == a[n - 1]);
        let p = positions(a, n - 1, dirs);
        if is_directory(a[n - 1]) == dirs {
            assert(p.push(n - 1).map_values(|i: int| a[i]) =~= p.map_values(|i: int| a[i]).push(
                a[n - 1],
            ));
        }
    } else {
        assert(a.take(n) =~= Seq::<FileEntry>::empty());
    }
}

/// `a` grouped: the entries of the first kind, then the others, each in
/// their order in `a`.
pub open spec fn grouped(a: Seq<FileEntry>, dirs_first: bool) -> Seq<FileEntry> {
    a.filter(kind_is(dirs_first)) + a.filter(kind_is(!dirs_first))
}

/// Grouping is a stable sort by the grouping rank.
proof fn lemma_grouped_is_stable_sort(a: Seq<FileEntry>, g: Group)
    requires
        g != Group::Mixed,
    ensures
        stable_sort_of(a, grouped(a, g == Group::DirsFirst), Order::Grouping(g)),
{
    let n = a.len() as int;
    let df = g == Group::DirsFirst;
    let o = Order::Grouping(g);
    lemma_positions(a, n, df);
    lemma_positions(a, n, !df);
    assert(a.take(n) =~= a);
    let pf = positions(a, n, df);
    let ps = positions(a, n, !df);
    let perm = pf + ps;
    let out = grouped(a, df);
    assert(out =~= perm.map_values(|i: int| a[i]));
    assert(pf.len() + ps.len() == n) by {
        if !df {
            assert(positions(a, n, false).len() + positions(a, n, true).len() == n);
        }
    }
    assert forall|k: int| 0 <= k < n implies 0 <= #[trigger] perm[k] < n by {
        if k < pf.len() {
            assert(perm[k] == pf[k]);
        } else {
            assert(perm[k] == ps[k - pf.len()]);
        }
    }
    assert forall|u: int, v: int| 0 <= u < v < n implies #[trigger] perm[u] != #[trigger] perm[v] by {
        if v < pf.len() {
            assert(pf[u] < pf[v]);
        } else if u >= pf.len() {
            assert(ps[u - pf.len()] < ps[v - pf.len()]);
        } else {
            assert(is_directory(a[pf[u]]) == df);
            assert(is_directory(a[ps[v - pf.len()]]) == !df);
        }
    }
    assert forall|u: int, v: int| 0 <= u < v < out.len() implies !rank_less(
        rank(#[trigger] out[v], o),
        rank(#[trigger] out[u], o),
    ) by {
        assert(out[u] == a[perm[u]] && out[v] == a[perm[v]]);
        if u < pf.len() {
            assert(perm[u] == pf[u]);
            assert(is_directory(a[pf[u]]) == df);
        } else {
            assert(perm[u] == ps[u - pf.len()]);
            assert(perm[v] == ps[v - pf.len()]);
            assert(is_directory(a[ps[u - pf.len()]]) == !df);
            assert(is_directory(a[ps[v - pf.len()]]) == !df);
        }
        if v < pf.len() {
            assert(perm[v] == pf[v]);
            assert(is_directory(a[pf[v]]) == df);
        }
    }
    assert forall|u: int, v: int|
        0 <= u < v < out.len() && rank(#[trigger] out[u], o) == rank(#[trigger] out[v], o) implies perm[u]
        < perm[v] by {
        assert(out[u] == a[perm[u]] && out[v] == a[perm[v]]);
        if v < pf.len() {
            assert(perm[u] == pf[u] && perm[v] == pf[v]);
        } else if u >= pf.len() {
            assert(perm[u] == ps[u - pf.len()] && perm[v] == ps[v - pf.len()]);
        } else {
            assert(perm[u] == pf[u] && perm[v] == ps[v - pf.len()]);
            assert(is_directory(a[pf[u]]) == df);
            assert(is_directory(a[ps[v - pf.len()]]) == !df);
        }
    }
    assert forall|k: int| 0 <= k < out.len() implies #[trigger] out[k] == a[perm[k]] by {}
    assert(stably_sorted_by(a, out, o, perm));
}

/// Grouping partitions the sorted order: with `--sd` the output is the
/// directories of the key-sorted (and, on request, reversed) order
/// followed by its other entries, each part keeping that order; with
/// `--sf` the other entries come first.
pub proof fn lemma_grouping_partitions(x: Seq<FileEntry>, y: Seq<FileEntry>, spec: SortSpec)
    requires
        sorted_by_spec(x, y, spec),
        spec.group != Group::Mixed,
    ensures
        exists|w: Seq<FileEntry>|
            {
                &&& #[trigger] sorted_by_spec(
                    x,
                    w,
                    SortSpec { key: spec.key, reverse: spec.reverse, group: Group::Mixed },
                )
                &&& y == grouped(w, spec.group == Group::DirsFirst)
            },
{
    let a = choose|a: Seq<FileEntry>|
        #[trigger] key_pass(x, a, spec.key) && group_pass(
            if spec.reverse {
                a.reverse()
            } else {
                a
            },
            y,
            spec.group,
        );
    let w = if spec.reverse {
        a.reverse()
    } else {
        a
    };
    let mixed = SortSpec { key: spec.key, reverse: spec.reverse, group: Group::Mixed };
    assert(key_pass(x, a, mixed.key) && group_pass(
        if mixed.reverse {
            a.reverse()
        } else {
            a
        },
        w,
        mixed.group,
    ));
    assert(sorted_by_spec(x, w, mixed));
    lemma_grouped_is_stable_sort(w, spec.group);
    lemma_stable_sort_unique(w, y, grouped(w, spec.group == Group::DirsFirst), Order::Grouping(spec.group));
}

/// Sorting by size puts larger entries first.
pub proof fn lemma_size_sort_descending(x: Seq<FileEntry>, y: Seq<FileEntry>, i: int, j: int)
    requires
        sorted_by_spec(x, y, SortSpec { key: SortKey::Size, reverse: false, group: Group::Mixed }),
        0 <= i < j < y.len(),
    ensures
        y[i].meta.size >= y[j].meta.size,
{
    let spec = SortSpec { key: SortKey::Size, reverse: false, group: Group::Mixed };
    let a = choose|a: Seq<FileEntry>|
        #[trigger] key_pass(x, a, spec.key) && group_pass(
            if spec.reverse {
                a.reverse()
            } else {
                a
            },
            y,
            spec.group,
        );
    assert(y == a);
    lemma_stable_sort_in_order(x, y, Order::Key(SortKey::Size));
    assert(!rank_less(rank(y[j], Order::Key(SortKey::Size)), rank(y[i], Order::Key(SortKey::Size))));
}

/// Whether `a` ranks strictly below `b` by `o`.
pub fn rank_below(a: &FileEntry, b: &FileEntry, o: Order) -> (r: bool)
    ensures
        r == rank_less(rank(*a, o), rank(*b, o)),
{
    match o {
        Order::Key(SortKey::Name) => name_below(a, b),
        Order::Key(SortKey::Size) => {
            if a.meta.size != b.meta.size {
                a.meta.size > b.meta.size
            } else {
                name_below(a, b)
            }
        },
        Order::Key(SortKey::Time) => {
            let ta = mtime_or_epoch(a);
            let tb = mtime_or_epoch(b);
            if ta.secs != tb.secs {
                ta.secs > tb.secs
            } else if ta.nanos != tb.nanos {
                ta.nanos > tb.nanos
            } else {
                name_below(a, b)
            }
        },
        Order::Key(SortKey::Extension) => {
            let ea = chars_of(extension_text(a.name.as_str()).as_str());
            let eb = chars_of(extension_text(b.name.as_str()).as_str());
            if chars_less(ea.as_slice(), eb.as_slice()) {
                true
            } else if chars_less(eb.as_slice(), ea.as_slice()) {
                false
            } else {
                proof {
                    lemma_less_total(ea@, eb@);
                }
                name_below(a, b)
            }
        },
        Order::Key(SortKey::Unsorted) => false,
        Order::Grouping(Group::Mixed) => false,
        Order::Grouping(Group::DirsFirst) => a.kind == EntryKind::Directory && b.kind
            != EntryKind::Directory,
        Order::Grouping(Group::FilesFirst) => a.kind != EntryKind::Directory && b.kind
            == EntryKind::Directory,
    }
}

fn name_below(a: &FileEntry, b: &FileEntry) -> (r: bool)
    ensures
        r == seq_less(a.name@, b.name@),
{
    let x = chars_of(a.name.as_str());
    let y = chars_of(b.name.as_str());
    chars_less(x.as_slice(), y.as_slice())
}

fn mtime_or_epoch(e: &FileEntry) -> (r: SysTime)
    ensures
        r == mtime_of(*e),
{
    match e.meta.mtime {
        Some(t) => t,
        None => SysTime { secs: 0, nanos: 0 },
    }
}

/// The extension of `name` (`Path::extension`), empty when none.
fn extension_text(name: &str) -> (r: String)
    ensures
        r@ == extension_of(name@),
{
    match path_extension(name) {
        Some(x) => x,
        None => String::new(),
    }
}

/// Three-way comparison of two entries by `key`.
pub fn compare(a: &FileEntry, b: &FileEntry, key: SortKey) -> (r: Ordering)
    ensures
        (r == Ordering::Less) == rank_less(rank(*a, Order::Key(key)), rank(*b, Order::Key(key))),
        (r == Ordering::Greater) == rank_less(rank(*b, Order::Key(key)), rank(*a, Order::Key(key))),
        (r == Ordering::Equal) == (rank(*a, Order::Key(key)) == rank(*b, Order::Key(key))),
{
    proof {
        lemma_rank_total(rank(*a, Order::Key(key)), rank(*b, Order::Key(key)));
        lemma_rank_irreflexive(rank(*a, Order::Key(key)));
        if rank_less(rank(*a, Order::Key(key)), rank(*b, Order::Key(key))) && rank_less(
            rank(*b, Order::Key(key)),
            rank(*a, Order::Key(key)),
        ) {
            lemma_rank_transitive(
                rank(*a, Order::Key(key)),
                rank(*b, Order::Key(key)),
                rank(*a, Order::Key(key)),
            );
        }
    }
    if rank_below(a, b, Order::Key(key)) {
        Ordering::Less
    } else if rank_below(b, a, Order::Key(key)) {
        Ordering::Greater
    } else {
        Ordering::Equal
    }
}

/// Sorts `v` stably by `o` (insertion sort).
pub fn stable_sort(v: &mut Vec<FileEntry>, o: Order)
    ensures
        stable_sort_of(old(v)@, final(v)@, o),
{
    let ghost inp = v@;
    let n = v.len();
    let ghost mut perm: Seq<int> = Seq::new(n as nat, |k: int| k);
    let mut i: usize = 0;
    while i < n
        invariant
            i <= n,
            inp.len() == n,
            v@.len() == n,
            perm.len() == n,
            forall|k: int| 0 <= k < n ==> 0 <= #[trigger] perm[k] < n,
            forall|a: int, b: int| 0 <= a < b < n ==> #[trigger] perm[a] != #[trigger] perm[b],
            forall|k: int| 0 <= k < n ==> #[trigger] v@[k] == inp[perm[k]],
            forall|k: int| i <= k < n ==> #[trigger] perm[k] == k,
            forall|k: int| 0 <= k < i ==> #[trigger] perm[k] < i,
            forall|a: int, b: int|
                0 <= a < b < i ==> !rank_less(rank(#[trigger] v@[b], o), rank(#[trigger] v@[a], o)),
            forall|a: int, b: int|
                0 <= a < b < i && rank(#[trigger] v@[a], o) == rank(#[trigger] v@[b], o) ==> perm[a]
                    < perm[b],
        decreases n - i,
    {
        let ghost old_v = v@;
        let ghost old_perm = perm;
        let x = v.remove(i);
        assert(x == old_v[i as int]);
        let mut p: usize = 0;
        while p < i && !rank_below(&x, &v[p], o)
            invariant
                p <= i,
                i < n,
                old_v.len() == n,
                v@.len() == n - 1,
                v@ == old_v.remove(i as int),
                forall|k: int| 0 <= k < p ==> !rank_less(rank(x, o), rank(#[trigger] v@[k], o)),
            decreases i - p,
        {
            p = p + 1;
        }
        let ghost w = v@;
        v.insert(p, x);
        proof {
            let u = v@;
            let rx = rank(x, o);
            perm = old_perm.remove(i as int).insert(p as int, i as int);
            assert(u == w.insert(p as int, x));
            assert forall|k: int| 0 <= k < n implies #[trigger] perm[k] == (if k < p {
                old_perm[k]
            } else if k == p {
                i as int
            } else if k <= i {
                old_perm[k - 1]
            } else {
                old_perm[k]
            }) by {}
            assert forall|k: int| 0 <= k < n implies #[trigger] u[k] == (if k < p {
                old_v[k]
            } else if k == p {
                x
            } else if k <= i {
                old_v[k - 1]
            } else {
                old_v[k]
            }) by {}
            assert forall|k: int| 0 <= k < n implies 0 <= #[trigger] perm[k] < n by {}
            assert forall|a: int, b: int| 0 <= a < b < n implies #[trigger] perm[a]
                != #[trigger] perm[b] by {
                if a == p {
                    if b <= i {
                        assert(old_perm[b - 1] < i);
                    } else {
                        assert(old_perm[b] == b);
                    }
                } else if b == p {
                    assert(old_perm[a] < i);
                } else {
                    let a2 = if a < p { a } else if a <= i { a - 1 } else { a };
                    let b2 = if b < p { b } else if b <= i { b - 1 } else { b };
                    assert(perm[a] == old_perm[a2] && perm[b] == old_perm[b2]);
                    assert(a2 < b2);
                }
            }
            assert forall|k: int| 0 <= k < n implies #[trigger] u[k] == inp[perm[k]] by {
                if k == p {
                    assert(old_perm[i as int] == i);
                }
            }
            assert forall|k: int| i + 1 <= k < n implies #[trigger] perm[k] == k by {}
            assert forall|k: int| 0 <= k < i + 1 implies #[trigger] perm[k] < i + 1 by {
                if k < p {
                    assert(old_perm[k] < i);
                } else if k > p {
                    assert(old_perm[k - 1] < i);
                }
            }
            if p < i {
                assert(rank_less(rx, rank(w[p as int], o)));
            }
            assert forall|a: int, b: int| 0 <= a < b < i + 1 implies !rank_less(
                rank(#[trigger] u[b], o),
                rank(#[trigger] u[a], o),
            ) by {
                if a == p {
                    // u[b] == old_v[b - 1], which is not below old_v[p] > x.
                    let y = old_v[b - 1];
                    assert(u[b] == y);
                    assert(w[p as int] == old_v[p as int]);
                    if b - 1 > p {
                        assert(!rank_less(rank(old_v[b - 1], o), rank(old_v[p as int], o)));
                    }
                    if rank_less(rank(y, o), rx) {
                        if b - 1 > p {
                            lemma_rank_transitive(rank(y, o), rx, rank(old_v[p as int], o));
                        } else {
                            lemma_rank_transitive(rank(y, o), rx, rank(y, o));
                            lemma_rank_irreflexive(rank(y, o));
                        }
                    }
                } else if b == p {
                    assert(u[a] == w[a]);
                } else {
                    let a2 = if a < p { a } else { a - 1 };
                    let b2 = if b < p { b } else { b - 1 };
                    assert(u[a] == old_v[a2] && u[b] == old_v[b2]);
                    assert(a2 < b2 && b2 < i);
                }
            }
            assert forall|a: int, b: int|
                0 <= a < b < i + 1 && rank(#[trigger] u[a], o) == rank(#[trigger] u[b], o) implies perm[a]
                < perm[b] by {
                if a == p {
                    let y = old_v[b - 1];
                    assert(u[b] == y);
                    assert(w[p as int] == old_v[p as int]);
                    if b - 1 > p {
                        assert(!rank_less(rank(old_v[b - 1], o), rank(old_v[p as int], o)));
                    } else {
                        lemma_rank_irreflexive(rx);
                    }
                } else if b == p {
                    assert(old_perm[a] < i);
                } else {
                    let a2 = if a < p { a } else { a - 1 };
                    let b2 = if b < p { b } else { b - 1 };
                    assert(u[a] == old_v[a2] && u[b] == old_v[b2]);
                    assert(perm[a] == old_perm[a2] && perm[b] == old_perm[b2]);
                    assert(a2 < b2 && b2 < i);
                }
            }
        }
        i = i + 1;
    }
    assert(stably_sorted_by(inp, v@, o, perm));
}

/// Reverses `v` in place.
pub fn reverse_entries(v: &mut Vec<FileEntry>)
    ensures
        final(v)@ == old(v)@.reverse(),
{
    let ghost orig = v@;
    let mut out: Vec<FileEntry> = Vec::new();
    let n = v.len();
    while v.len() > 0
        invariant
            orig.len() == n,
            v@ == orig.take(v@.len() as int),
            v@.len() <= n,
            out@ == orig.reverse().take((n - v@.len()) as int),
        decreases v@.len(),
    {
        let ghost before = v@;
        let e = v.pop().unwrap();
        out.push(e);
        assert(v@ =~= orig.take(v@.len() as int));
        assert(out@ =~= orig.reverse().take((n - v@.len()) as int));
    }
    assert(out@ =~= orig.reverse());
    *v = out;
}

/// Orders `entries` by `spec`: a stable sort by key (skipped for `-U`),
/// reversed with `--reverse`, then stably grouped with `--sd`/`--sf`.
pub fn sort(entries: &mut Vec<FileEntry>, spec: SortSpec)
    ensures
        sorted_by_spec(old(entries)@, final(entries)@, spec),
{
    let ghost inp = entries@;
    if spec.key != SortKey::Unsorted {
        stable_sort(entries, Order::Key(spec.key));
    }
    let ghost a = entries@;
    assert(key_pass(inp, a, spec.key));
    if spec.reverse {
        reverse_entries(entries);
    }
    match spec.group {
        Group::Mixed => {},
        Group::DirsFirst => stable_sort(entries, Order::Grouping(Group::DirsFirst)),
        Group::FilesFirst => stable_sort(entries, Order::Grouping(Group::FilesFirst)),
    }
    assert(group_pass(
        if spec.reverse {
            a.reverse()
        } else {
            a
        },
        entries@,
        spec.group,
    ));
}

} // verus!
