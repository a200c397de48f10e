//! Transitive closure of a graph that is given by its nodes' successor lists.
//!
//! A graph is a list of nodes, each a key with the list of keys that it has
//! an edge to. An edge may lead to a key that is no node: such a key can be
//! reached, and nothing is reached through it.

use vstd::prelude::*;
use crate::keys::{
    clone_keys, contains, distinct_keys, insert_members, lemma_with_members, with_members, Key,
};

verus! {

/// Why a closure was refused.
#[derive(Debug, Clone, Copy, PartialEq, Eq, Structural)]
pub enum TcError {
    /// Some node reaches itself.
    HasCycle,
}

/// The graph has an edge from `a` to `b`.
pub open spec fn has_edge<A>(g: Seq<(A, Seq<A>)>, a: A, b: A) -> bool {
    exists|i: int| 0 <= i < g.len() && (#[trigger] g[i]).0 == a && g[i].1.contains(b)
}

/// `m` is the key of one of the first `k` nodes.
pub open spec fn node_below<A>(g: Seq<(A, Seq<A>)>, k: int, m: A) -> bool {
    exists|j: int| 0 <= j < k && j < g.len() && (#[trigger] g[j]).0 == m
}

/// There is a path of at least one and at most `n` edges from `a` to `b`
/// whose inner stops are all among the first `k` nodes.
pub open spec fn reaches_within<A>(g: Seq<(A, Seq<A>)>, k: int, a: A, b: A, n: nat) -> bool
    decreases n,
{
    n > 0 && (has_edge(g, a, b) || exists|m: A|
        #[trigger] has_edge(g, a, m) && node_below(g, k, m) && reaches_within(
            g,
            k,
            m,
            b,
            (n - 1) as nat,
        ))
}

/// There is a path of at least one edge from `a` to `b` whose inner stops are nodes.
pub open spec fn reaches<A>(g: Seq<(A, Seq<A>)>, a: A, b: A) -> bool {
    exists|n: nat| reaches_within(g, g.len() as int, a, b, n)
}

/// Some node reaches itself.
pub open spec fn has_cycle<A>(g: Seq<(A, Seq<A>)>) -> bool {
    exists|i: int| 0 <= i < g.len() && reaches(g, (#[trigger] g[i]).0, g[i].0)
}

/// `rows` holds, for each node of `g` in turn and without repetition, the
/// keys that the node reaches.
pub open spec fn is_closure<A>(g: Seq<(A, Seq<A>)>, rows: Seq<Seq<A>>) -> bool {
    &&& rows.len() == g.len()
    &&& forall|i: int| 0 <= i < rows.len() ==> (#[trigger] rows[i]).no_duplicates()
    &&& forall|i: int, b: A|
        0 <= i < rows.len() ==> ((#[trigger] rows[i].contains(b)) <==> reaches(g, g[i].0, b))
}

/// A path stays a path when more nodes and more edges are allowed.
pub proof fn lemma_reaches_monotone<A>(
    g: Seq<(A, Seq<A>)>,
    k: int,
    k2: int,
    a: A,
    b: A,
    n: nat,
    n2: nat,
)
    requires
        reaches_within(g, k, a, b, n),
        k <= k2,
        n <= n2,
    ensures
        reaches_within(g, k2, a, b, n2),
    decreases n,
{
    if has_edge(g, a, b) {
    } else {
        let m = choose|m: A|
            #[trigger] has_edge(g, a, m) && node_below(g, k, m) && reaches_within(
                g,
                k,
                m,
                b,
                (n - 1) as nat,
            );
        lemma_reaches_monotone(g, k, k2, m, b, (n - 1) as nat, (n2 - 1) as nat);
        let j = choose|j: int| 0 <= j < k && j < g.len() && (#[trigger] g[j]).0 == m;
        assert(node_below(g, k2, m)) by {
            assert(0 <= j < k2 && j < g.len() && g[j].0 == m);
        }
    }
}

/// Two paths that meet in an allowed node make one path.
pub proof fn lemma_reaches_concat<A>(
    g: Seq<(A, Seq<A>)>,
    k: int,
    a: A,
    x: A,
    b: A,
    n1: nat,
    n2: nat,
)
    requires
        reaches_within(g, k, a, x, n1),
        node_below(g, k, x),
        reaches_within(g, k, x, b, n2),
    ensures
        reaches_within(g, k, a, b, n1 + n2),
    decreases n1,
{
    if has_edge(g, a, x) {
        lemma_reaches_monotone(g, k, k, x, b, n2, (n1 + n2 - 1) as nat);
    } else {
        let m = choose|m: A|
            #[trigger] has_edge(g, a, m) && node_below(g, k, m) && reaches_within(
                g,
                k,
                m,
                x,
                (n1 - 1) as nat,
            );
        lemma_reaches_concat(g, k, m, x, b, (n1 - 1) as nat, n2);
        assert((n1 - 1) as nat + n2 == (n1 + n2 - 1) as nat);
    }
}

/// Reaching is transitive through nodes.
pub proof fn lemma_reaches_transitive<A>(g: Seq<(A, Seq<A>)>, a: A, x: A, b: A)
    requires
        reaches(g, a, x),
        has_key_node(g, x),
        reaches(g, x, b),
    ensures
        reaches(g, a, b),
{
    let n1 = choose|n: nat| reaches_within(g, g.len() as int, a, x, n);
    let n2 = choose|n: nat| reaches_within(g, g.len() as int, x, b, n);
    let j = choose|j: int| 0 <= j < g.len() && (#[trigger] g[j]).0 == x;
    assert(node_below(g, g.len() as int, x)) by {
        assert(0 <= j < g.len() && g[j].0 == x);
    }
    lemma_reaches_concat(g, g.len() as int, a, x, b, n1, n2);
}

/// `x` is the key of a node.
pub open spec fn has_key_node<A>(g: Seq<(A, Seq<A>)>, x: A) -> bool {
    exists|j: int| 0 <= j < g.len() && (#[trigger] g[j]).0 == x
}

/// Every edge leads to a node.
pub open spec fn edges_stay<A>(g: Seq<(A, Seq<A>)>) -> bool {
    forall|i: int, c: A|
        0 <= i < g.len() && (#[trigger] g[i].1.contains(c)) ==> has_key_node(g, c)
}

/// Where every edge leads to a node, a path ends in a node.
proof fn lemma_reaches_within_node<A>(g: Seq<(A, Seq<A>)>, k: int, a: A, b: A, n: nat)
    requires
        edges_stay(g),
        reaches_within(g, k, a, b, n),
    ensures
        has_key_node(g, b),
    decreases n,
{
    if has_edge(g, a, b) {
        let i = choose|i: int| 0 <= i < g.len() && (#[trigger] g[i]).0 == a && g[i].1.contains(b);
        assert(g[i].1.contains(b));
    } else {
        let m = choose|m: A|
            #[trigger] has_edge(g, a, m) && node_below(g, k, m) && reaches_within(
                g,
                k,
                m,
                b,
                (n - 1) as nat,
            );
        lemma_reaches_within_node(g, k, m, b, (n - 1) as nat);
    }
}

/// Where every edge leads to a node, only nodes are reached.
pub proof fn lemma_reaches_node<A>(g: Seq<(A, Seq<A>)>, a: A, b: A)
    requires
        edges_stay(g),
        reaches(g, a, b),
    ensures
        has_key_node(g, b),
{
    let n = choose|n: nat| reaches_within(g, g.len() as int, a, b, n);
    lemma_reaches_within_node(g, g.len() as int, a, b, n);
}

/// A path that may stop at node `k` either avoids it, or goes to it and on from it.
proof fn lemma_reaches_split<A>(g: Seq<(A, Seq<A>)>, k: int, a: A, b: A, n: nat)
    requires
        0 <= k < g.len(),
        reaches_within(g, k + 1, a, b, n),
    ensures
        reaches_within(g, k, a, b, n) || (reaches_within(g, k, a, g[k].0, n) && reaches_within(
            g,
            k,
            g[k].0,
            b,
            n,
        )),
    decreases n,
{
    if has_edge(g, a, b) {
    } else {
        let m = choose|m: A|
            #[trigger] has_edge(g, a, m) && node_below(g, k + 1, m) && reaches_within(
                g,
                k + 1,
                m,
                b,
                (n - 1) as nat,
            );
        lemma_reaches_split(g, k, m, b, (n - 1) as nat);
        let p = (n - 1) as nat;
        if m == g[k].0 {
            if reaches_within(g, k, m, b, p) {
                lemma_reaches_monotone(g, k, k, g[k].0, b, p, n);
            } else {
                lemma_reaches_monotone(g, k, k, g[k].0, b, p, n);
            }
            assert(reaches_within(g, k, a, g[k].0, n));
        } else {
            let j = choose|j: int| 0 <= j < k + 1 && j < g.len() && (#[trigger] g[j]).0 == m;
            assert(node_below(g, k, m)) by {
                assert(0 <= j < k && j < g.len() && g[j].0 == m);
            }
            if reaches_within(g, k, m, b, p) {
                assert(reaches_within(g, k, a, b, n));
            } else {
                lemma_reaches_monotone(g, k, k, g[k].0, b, p, n);
                assert(reaches_within(g, k, a, g[k].0, n));
            }
        }
    }
}

/// Each row holds, without repetition, what its node has an edge to.
spec fn rows_hold_edges<A>(g: Seq<(A, Seq<A>)>, rows: Seq<Seq<A>>, upto: int) -> bool {
    &&& rows.len() == upto
    &&& forall|i: int| 0 <= i < upto ==> (#[trigger] rows[i]).no_duplicates()
    &&& forall|i: int, b: A|
        0 <= i < upto ==> ((#[trigger] rows[i].contains(b)) <==> g[i].1.contains(b))
}

/// Each row holds only what its node reaches.
spec fn rows_sound<A>(g: Seq<(A, Seq<A>)>, rows: Seq<Seq<A>>) -> bool {
    &&& rows.len() == g.len()
    &&& forall|i: int| 0 <= i < rows.len() ==> (#[trigger] rows[i]).no_duplicates()
    &&& forall|i: int, b: A|
        0 <= i < rows.len() && (#[trigger] rows[i].contains(b)) ==> reaches(g, g[i].0, b)
}

/// Row `i` holds all that its node reaches by paths that stop only at the first `k` nodes.
spec fn row_complete<A>(g: Seq<(A, Seq<A>)>, rows: Seq<Seq<A>>, k: int, i: int) -> bool {
    forall|b: A, n: nat| #[trigger] reaches_within(g, k, g[i].0, b, n) ==> rows[i].contains(b)
}

/// Rows that hold the edges hold only what is reached, and all that is
/// reached without an inner stop.
proof fn lemma_initial_rows<A>(g: Seq<(A, Seq<A>)>, rows: Seq<Seq<A>>)
    requires
        distinct_keys(g),
        rows_hold_edges(g, rows, g.len() as int),
    ensures
        rows_sound(g, rows),
        forall|i: int| 0 <= i < g.len() ==> row_complete(g, rows, 0, i),
{
    assert forall|i: int, b: A| 0 <= i < rows.len() && (#[trigger] rows[i].contains(b)) implies reaches(
        g,
        g[i].0,
        b,
    ) by {
        assert(g[i].1.contains(b));
        assert(has_edge(g, g[i].0, b));
        assert(reaches_within(g, g.len() as int, g[i].0, b, 1));
    }
    assert forall|i: int| 0 <= i < g.len() implies row_complete(g, rows, 0, i) by {
        assert forall|b: A, n: nat| #[trigger]
            reaches_within(g, 0, g[i].0, b, n) implies rows[i].contains(b) by {
            if has_edge(g, g[i].0, b) {
                let j = choose|j: int|
                    0 <= j < g.len() && (#[trigger] g[j]).0 == g[i].0 && g[j].1.contains(b);
                if j < i {
                    assert(g[j].0 != g[i].0);
                }
                if i < j {
                    assert(g[i].0 != g[j].0);
                }
                assert(rows[i].contains(b));
            } else {
                let m = choose|m: A|
                    #[trigger] has_edge(g, g[i].0, m) && node_below(g, 0, m) && reaches_within(
                        g,
                        0,
                        m,
                        b,
                        (n - 1) as nat,
                    );
                assert(false);
            }
        }
    }
}

/// What merging the pivot's row into row `i` achieves.
proof fn lemma_round_step<A>(
    g: Seq<(A, Seq<A>)>,
    rows: Seq<Seq<A>>,
    k: int,
    i: int,
    new_row: Seq<A>,
)
    requires
        0 <= k < g.len(),
        0 <= i < g.len(),
        rows_sound(g, rows),
        row_complete(g, rows, k, i),
        row_complete(g, rows, k, k),
        new_row == if i != k && rows[i].contains(g[k].0) {
            with_members(rows[i], rows[k])
        } else {
            rows[i]
        },
    ensures
        rows_sound(g, rows.update(i, new_row)),
        row_complete(g, rows.update(i, new_row), k + 1, i),
        row_complete(g, rows.update(i, new_row), k, i),
{
    let rows2 = rows.update(i, new_row);
    lemma_with_members(rows[i], rows[k]);
    assert(rows[i].no_duplicates());
    assert forall|j: int| 0 <= j < rows2.len() implies (#[trigger] rows2[j]).no_duplicates() by {
        if j != i {
            assert(rows[j].no_duplicates());
        }
    }
    assert forall|j: int, b: A| 0 <= j < rows2.len() && (#[trigger] rows2[j].contains(b)) implies reaches(
        g,
        g[j].0,
        b,
    ) by {
        if j != i {
            assert(rows[j].contains(b));
        } else if rows[i].contains(b) {
        } else {
            assert(rows[i].contains(g[k].0));
            assert(rows[k].contains(b));
            assert(has_key_node(g, g[k].0)) by {
                assert(g[k].0 == g[k].0);
            }
            lemma_reaches_transitive(g, g[i].0, g[k].0, b);
        }
    }
    assert forall|b: A, n: nat| #[trigger]
        reaches_within(g, k + 1, g[i].0, b, n) implies rows2[i].contains(b) by {
        lemma_reaches_split(g, k, g[i].0, b, n);
        if reaches_within(g, k, g[i].0, b, n) {
            assert(rows[i].contains(b));
        } else {
            assert(rows[i].contains(g[k].0));
            assert(rows[k].contains(b));
        }
    }
    assert forall|b: A, n: nat| #[trigger]
        reaches_within(g, k, g[i].0, b, n) implies rows2[i].contains(b) by {
        assert(rows[i].contains(b));
    }
}

/// The transitive closure of the graph `nodes`: for each node in turn, the
/// keys that it reaches, each once. With `enforce_dag`, a graph in which a
/// node reaches itself is refused.
pub fn compute_tc<K: Key>(nodes: &Vec<(K, Vec<K>)>, enforce_dag: bool) -> (r: Result<
    Vec<Vec<K>>,
    TcError,
>)
    requires
        distinct_keys(nodes.deep_view()),
    ensures
        match r {
            Ok(rows) => is_closure(nodes.deep_view(), rows.deep_view()) && !(enforce_dag
                && has_cycle(nodes.deep_view())),
            Err(e) => enforce_dag && has_cycle(nodes.deep_view()),
        },
{
    let ghost g = nodes.deep_view();
    let n = nodes.len();
    let mut rows: Vec<Vec<K>> = Vec::new();
    let mut i: usize = 0;
    while i < n
        invariant
            i <= n,
            n == nodes.len(),
            g == nodes.deep_view(),
            rows_hold_edges(g, rows.deep_view(), i as int),
        decreases n - i,
    {
        let mut row: Vec<K> = Vec::new();
        assert(row.deep_view() =~= Seq::<K::V>::empty());
        insert_members(&mut row, &nodes[i].1);
        proof {
            lemma_with_members(Seq::<K::V>::empty(), nodes[i as int].1.deep_view());
            assert(g[i as int].1 == nodes[i as int].1.deep_view());
        }
        let ghost before = rows.deep_view();
        rows.push(row);
        proof {
            assert(rows.deep_view() =~= before.push(row.deep_view()));
            assert forall|j: int, b: K::V| 0 <= j < i + 1 implies ((
            #[trigger] rows.deep_view()[j].contains(b)) <==> g[j].1.contains(b)) by {
                if j < i {
                    assert(before[j].contains(b) <==> g[j].1.contains(b));
                }
            }
        }
        i += 1;
    }
    proof {
        lemma_initial_rows(g, rows.deep_view());
    }
    let mut k: usize = 0;
    while k < n
        invariant
            k <= n,
            n == nodes.len(),
            g == nodes.deep_view(),
            distinct_keys(g),
            rows_sound(g, rows.deep_view()),
            forall|j: int| 0 <= j < n ==> row_complete(g, rows.deep_view(), k as int, j),
        decreases n - k,
    {
        let pivot_row = clone_keys(&rows[k]);
        let ghost next: int = k + 1;
        let mut i: usize = 0;
        while i < n
            invariant
                i <= n,
                k < n,
                n == nodes.len(),
                g == nodes.deep_view(),
                rows_sound(g, rows.deep_view()),
                pivot_row.deep_view() == rows.deep_view()[k as int],
                forall|j: int| 0 <= j < n ==> row_complete(g, rows.deep_view(), k as int, j),
                next == k + 1,
                forall|j: int| 0 <= j < i ==> row_complete(g, rows.deep_view(), next, j),
            decreases n - i,
        {
            let ghost before = rows.deep_view();
            let extend = i != k && contains(&rows[i], &nodes[k].0);
            if extend {
                let mut row = clone_keys(&rows[i]);
                insert_members(&mut row, &pivot_row);
                rows[i] = row;
            }
            proof {
                let new_row = if extend {
                    with_members(before[i as int], before[k as int])
                } else {
                    before[i as int]
                };
                assert(rows.deep_view() =~= before.update(i as int, new_row));
                lemma_round_step(g, before, k as int, i as int, new_row);
                assert forall|j: int| 0 <= j < n implies row_complete(
                    g,
                    rows.deep_view(),
                    k as int,
                    j,
                ) by {
                    if j != i {
                        assert(row_complete(g, before, k as int, j));
                        assert(rows.deep_view()[j] == before[j]);
                    }
                }
                assert forall|j: int| 0 <= j < i + 1 implies row_complete(
                    g,
                    rows.deep_view(),
                    next,
                    j,
                ) by {
                    if j != i {
                        assert(row_complete(g, before, next, j));
                        assert(rows.deep_view()[j] == before[j]);
                    }
                }
            }
            i += 1;
        }
        k += 1;
    }
    proof {
        assert forall|j: int, b: K::V| 0 <= j < n implies ((
        #[trigger] rows.deep_view()[j].contains(b)) <==> reaches(g, g[j].0, b)) by {
            if reaches(g, g[j].0, b) {
                let m = choose|m: nat| reaches_within(g, g.len() as int, g[j].0, b, m);
                assert(row_complete(g, rows.deep_view(), n as int, j));
            }
        }
    }
    if enforce_dag {
        let mut i: usize = 0;
        while i < n
            invariant
                i <= n,
                n == nodes.len(),
                g == nodes.deep_view(),
                enforce_dag,
                is_closure(g, rows.deep_view()),
                forall|j: int| 0 <= j < i ==> !reaches(g, (#[trigger] g[j]).0, g[j].0),
            decreases n - i,
        {
            if contains(&rows[i], &nodes[i].0) {
                proof {
                    assert(rows.deep_view()[i as int].contains(g[i as int].0));
                    assert(reaches(g, g[i as int].0, g[i as int].0));
                    assert(has_cycle(g));
                }
                return Err(TcError::HasCycle);
            }
            proof {
                assert(!rows.deep_view()[i as int].contains(g[i as int].0));
            }
            i += 1;
        }
    }
    Ok(rows)
}

} // verus!
