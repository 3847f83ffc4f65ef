//! Ordering packages so that each one follows its local dependencies.
//!
//! A dependency that names no package of the list is taken to be external
//! and adds no constraint.

use vstd::prelude::*;
use crate::publish::indices::{all_below, lemma_distinct_indices};
use crate::publish::package::{Package, PackageView, PublishError, package_views};

verus! {

/// `a` names `b` among its local dependencies.
pub open spec fn depends_on(a: PackageView, b: PackageView) -> bool {
    a.local_dependencies.contains(b.name)
}

/// No two packages share a name.
pub open spec fn distinct_names(pkgs: Seq<PackageView>) -> bool {
    forall|i: int, j: int| 0 <= i < j < pkgs.len() ==> pkgs[i].name != pkgs[j].name
}

/// The package at `path[k]` is a local dependency of the one at `path[k + 1]`.
pub open spec fn is_dependency_step(pkgs: Seq<PackageView>, path: Seq<int>, k: int) -> bool {
    depends_on(pkgs[path[k + 1]], pkgs[path[k]])
}

/// `path` lists positions in `pkgs`, each a local dependency of the next.
pub open spec fn is_dependency_walk(pkgs: Seq<PackageView>, path: Seq<int>) -> bool {
    &&& forall|k: int| 0 <= k < path.len() ==> 0 <= #[trigger] path[k] < pkgs.len()
    &&& forall|k: int| 0 <= k < path.len() - 1 ==> #[trigger] is_dependency_step(pkgs, path, k)
}

/// Some package reaches itself along local dependencies. A package that
/// names itself is the shortest case.
pub open spec fn has_cycle(pkgs: Seq<PackageView>) -> bool {
    exists|path: Seq<int>|
        #[trigger] is_dependency_walk(pkgs, path) && path.len() >= 2 && path.first()
            == path.last()
}

/// No package stands before, or in the place of, one of its local
/// dependencies.
pub open spec fn is_publish_order(order: Seq<PackageView>) -> bool {
    forall|i: int, j: int| 0 <= i <= j < order.len() ==> !depends_on(order[i], order[j])
}

/// `order[i]` is `pkgs[perm[i]]`, and `perm` uses each position of `pkgs` once.
pub open spec fn arranges(perm: Seq<usize>, pkgs: Seq<PackageView>, order: Seq<PackageView>) -> bool {
    &&& perm.len() == pkgs.len()
    &&& order.len() == pkgs.len()
    &&& perm.no_duplicates()
    &&& forall|i: int| 0 <= i < perm.len() ==> #[trigger] perm[i] < pkgs.len()
    &&& forall|i: int| 0 <= i < perm.len() ==> #[trigger] order[i] == pkgs[perm[i] as int]
}

/// `order` holds the packages of `pkgs`, each once, in some arrangement.
pub open spec fn is_reordering(order: Seq<PackageView>, pkgs: Seq<PackageView>) -> bool {
    exists|perm: Seq<usize>| arranges(perm, pkgs, order)
}

/// Row `p` lists, once each, the positions of the packages that the package
/// at `p` depends on.
pub open spec fn is_dependency_table(deps: Seq<Vec<usize>>, pkgs: Seq<PackageView>) -> bool {
    &&& deps.len() == pkgs.len()
    &&& forall|p: int| 0 <= p < deps.len() ==> (#[trigger] deps[p])@.no_duplicates()
    &&& forall|p: int, d: usize|
        0 <= p < deps.len() ==> (#[trigger] deps[p]@.contains(d) <==> d < pkgs.len() && depends_on(
            pkgs[p],
            pkgs[d as int],
        ))
}

/// Row `d` lists, once each, the positions whose row in `deps` holds `d`.
pub open spec fn is_dependents_table(dependents: Seq<Vec<usize>>, deps: Seq<Vec<usize>>) -> bool {
    &&& dependents.len() == deps.len()
    &&& forall|d: int| 0 <= d < dependents.len() ==> (#[trigger] dependents[d])@.no_duplicates()
    &&& forall|d: usize, p: usize|
        d < dependents.len() ==> (#[trigger] dependents[d as int]@.contains(p) <==> p < deps.len()
            && deps[p as int]@.contains(d))
}

/// Every dependency of the entry at `i` stands earlier in `order`.
pub open spec fn follows_dependencies(order: Seq<usize>, deps: Seq<Vec<usize>>, i: int) -> bool {
    forall|d: usize|
        #[trigger] deps[order[i] as int]@.contains(d) ==> exists|j: int|
            0 <= j < i && order[j] == d
}

/// The dependencies of `p` that are not in `done`.
pub open spec fn pending(deps: Seq<Vec<usize>>, p: int, done: Set<usize>) -> Set<usize> {
    deps[p]@.to_set().difference(done)
}

/// Whether the names of `packages` are pairwise different.
pub fn names_are_distinct(packages: &[Package]) -> (r: bool)
    ensures
        r == distinct_names(package_views(packages@)),
{
    let ghost pkgs = package_views(packages@);
    let n = packages.len();
    let mut j: usize = 0;
    while j < n
        invariant
            j <= n,
            n == packages.len(),
            pkgs == package_views(packages@),
            forall|a: int, b: int| 0 <= a < b < j ==> pkgs[a].name != pkgs[b].name,
        decreases n - j,
    {
        let mut i: usize = 0;
        while i < j
            invariant
                i <= j < n,
                n == packages.len(),
                pkgs == package_views(packages@),
                forall|a: int| 0 <= a < i ==> pkgs[a].name != pkgs[j as int].name,
            decreases j - i,
        {
            if packages[i].name == packages[j].name {
                assert(pkgs[i as int].name == pkgs[j as int].name);
                return false;
            }
            i += 1;
        }
        j += 1;
    }
    true
}

/// The position of the package called `name`, if there is one.
pub fn find_package(packages: &[Package], name: &String) -> (r: Option<usize>)
    ensures
        match r {
            Some(i) => i < packages.len() && packages[i as int]@.name == name@,
            None => forall|i: int| 0 <= i < packages.len() ==> packages[i]@.name != name@,
        },
{
    let mut i: usize = 0;
    while i < packages.len()
        invariant
            i <= packages.len(),
            forall|k: int| 0 <= k < i ==> packages[k]@.name != name@,
        decreases packages.len() - i,
    {
        if packages[i].name == *name {
            return Some(i);
        }
        i += 1;
    }
    None
}

/// Whether `row` holds `value`.
fn row_contains(row: &Vec<usize>, value: usize) -> (r: bool)
    ensures
        r == row@.contains(value),
{
    let mut i: usize = 0;
    while i < row.len()
        invariant
            i <= row.len(),
            forall|k: int| 0 <= k < i ==> row[k] != value,
        decreases row.len() - i,
    {
        if row[i] == value {
            return true;
        }
        i += 1;
    }
    false
}

/// The positions of the packages that `packages[p]` depends on.
fn resolve_row(packages: &[Package], p: usize) -> (row: Vec<usize>)
    requires
        p < packages.len(),
        distinct_names(package_views(packages@)),
    ensures
        row@.no_duplicates(),
        forall|d: usize|
            #[trigger] row@.contains(d) <==> d < packages.len() && depends_on(
                packages[p as int]@,
                packages[d as int]@,
            ),
{
    let ghost pkgs = package_views(packages@);
    let names = &packages[p].local_dependencies;
    let ghost wanted = packages[p as int]@.local_dependencies;
    let mut row: Vec<usize> = Vec::new();
    let mut k: usize = 0;
    while k < names.len()
        invariant
            k <= names.len(),
            p < packages.len(),
            pkgs == package_views(packages@),
            distinct_names(pkgs),
            names == &packages[p as int].local_dependencies,
            wanted == packages[p as int]@.local_dependencies,
            row@.no_duplicates(),
            forall|d: usize|
                #[trigger] row@.contains(d) <==> d < packages.len() && exists|m: int|
                    0 <= m < k && wanted[m] == packages[d as int]@.name,
        decreases names.len() - k,
    {
        let ghost before = row@;
        assert(wanted[k as int] == names[k as int]@);
        match find_package(packages, &names[k]) {
            Some(d) => {
                if !row_contains(&row, d) {
                    row.push(d);
                    assert(row@.no_duplicates()) by {
                        assert forall|a: int, b: int|
                            0 <= a < row.len() && 0 <= b < row.len() && a != b implies row[a]
                            != row[b] by {
                            if a < before.len() && b < before.len() {
                                assert(before[a] != before[b]);
                            } else if a < before.len() {
                                assert(before.contains(before[a]));
                            } else {
                                assert(before.contains(before[b]));
                            }
                        }
                    }
                }
                assert forall|e: usize|
                    #[trigger] row@.contains(e) <==> e < packages.len() && exists|m: int|
                        0 <= m < k + 1 && wanted[m] == packages[e as int]@.name by {
                    if row@.contains(e) {
                        let at = choose|i: int| 0 <= i < row.len() && row[i] == e;
                        if at < before.len() {
                            assert(before.contains(e));
                        } else {
                            assert(e == d);
                            assert(wanted[k as int] == packages[e as int]@.name);
                        }
                    }
                    if e < packages.len() && exists|m: int|
                        0 <= m < k + 1 && wanted[m] == packages[e as int]@.name {
                        let m = choose|m: int|
                            0 <= m < k + 1 && wanted[m] == packages[e as int]@.name;
                        if m < k {
                            assert(before.contains(e));
                            let at = choose|i: int| 0 <= i < before.len() && before[i] == e;
                            assert(row[at] == e);
                        } else {
                            assert(pkgs[e as int].name == pkgs[d as int].name);
                            assert(e == d);
                            if before.contains(d) {
                                let at = choose|i: int| 0 <= i < before.len() && before[i] == d;
                                assert(row[at] == d);
                            } else {
                                assert(row[row.len() - 1] == d);
                            }
                        }
                    }
                }
            },
            None => {
                assert forall|e: usize|
                    #[trigger] row@.contains(e) <==> e < packages.len() && exists|m: int|
                        0 <= m < k + 1 && wanted[m] == packages[e as int]@.name by {
                    if e < packages.len() && exists|m: int|
                        0 <= m < k + 1 && wanted[m] == packages[e as int]@.name {
                        let m = choose|m: int|
                            0 <= m < k + 1 && wanted[m] == packages[e as int]@.name;
                        assert(m < k);
                    }
                }
            },
        }
        k += 1;
    }
    assert forall|d: usize|
        #[trigger] row@.contains(d) <==> d < packages.len() && depends_on(
            packages[p as int]@,
            packages[d as int]@,
        ) by {
        if d < packages.len() && depends_on(packages[p as int]@, packages[d as int]@) {
            let m = choose|m: int| 0 <= m < wanted.len() && wanted[m] == packages[d as int]@.name;
            assert(0 <= m < k);
        }
    }
    row
}

/// The dependency relation of `packages` by position.
fn resolve_dependencies(packages: &[Package]) -> (deps: Vec<Vec<usize>>)
    requires
        distinct_names(package_views(packages@)),
    ensures
        is_dependency_table(deps@, package_views(packages@)),
{
    let ghost pkgs = package_views(packages@);
    let mut deps: Vec<Vec<usize>> = Vec::new();
    let mut p: usize = 0;
    while p < packages.len()
        invariant
            p <= packages.len(),
            pkgs == package_views(packages@),
            distinct_names(pkgs),
            deps.len() == p,
            forall|q: int| 0 <= q < p ==> (#[trigger] deps[q])@.no_duplicates(),
            forall|q: int, d: usize|
                0 <= q < p ==> (#[trigger] deps[q]@.contains(d) <==> d < pkgs.len() && depends_on(
                    pkgs[q],
                    pkgs[d as int],
                )),
        decreases packages.len() - p,
    {
        let row = resolve_row(packages, p);
        deps.push(row);
        p += 1;
    }
    deps
}

/// For each position, the positions that depend on it.
fn invert_dependencies(deps: &Vec<Vec<usize>>) -> (dependents: Vec<Vec<usize>>)
    requires
        forall|p: int| 0 <= p < deps.len() ==> (#[trigger] deps[p])@.no_duplicates(),
        forall|p: int| 0 <= p < deps.len() ==> all_below(#[trigger] deps[p]@, deps.len()),
    ensures
        is_dependents_table(dependents@, deps@),
{
    let n = deps.len();
    let mut dependents: Vec<Vec<usize>> = Vec::new();
    let mut d: usize = 0;
    while d < n
        invariant
            d <= n,
            dependents.len() == d,
            forall|e: int| 0 <= e < d ==> (#[trigger] dependents[e])@.len() == 0,
        decreases n - d,
    {
        dependents.push(Vec::new());
        d += 1;
    }
    let mut p: usize = 0;
    while p < n
        invariant
            p <= n,
            n == deps.len(),
            dependents.len() == n,
            forall|q: int| 0 <= q < deps.len() ==> (#[trigger] deps[q])@.no_duplicates(),
            forall|q: int| 0 <= q < deps.len() ==> all_below(#[trigger] deps[q]@, deps.len()),
            forall|e: int| 0 <= e < n ==> (#[trigger] dependents[e])@.no_duplicates(),
            forall|e: usize, q: usize|
                e < n ==> (#[trigger] dependents[e as int]@.contains(q) <==> q < p && deps[q as int]@.contains(
                    e,
                )),
        decreases n - p,
    {
        let mut k: usize = 0;
        while k < deps[p].len()
            invariant
                p < n,
                n == deps.len(),
                k <= deps[p as int].len(),
                dependents.len() == n,
                deps[p as int]@.no_duplicates(),
                all_below(deps[p as int]@, deps.len()),
                forall|e: int| 0 <= e < n ==> (#[trigger] dependents[e])@.no_duplicates(),
                forall|e: usize, q: usize|
                    e < n ==> (#[trigger] dependents[e as int]@.contains(q) <==> (q < p
                        && deps[q as int]@.contains(e)) || (q == p && deps[p as int]@.take(
                        k as int,
                    ).contains(e))),
            decreases deps[p as int].len() - k,
        {
            let target = deps[p][k];
            let ghost before = dependents@;
            let ghost row_before = dependents[target as int]@;
            assert(!row_before.contains(p)) by {
                if row_before.contains(p) {
                    let at = choose|i: int|
                        0 <= i < k && deps[p as int]@.take(k as int)[i] == target;
                    assert(deps[p as int]@[at] == deps[p as int]@[k as int]);
                }
            }
            dependents[target].push(p);
            assert(dependents[target as int]@.no_duplicates()) by {
                let row = dependents[target as int]@;
                assert forall|a: int, b: int|
                    0 <= a < row.len() && 0 <= b < row.len() && a != b implies row[a] != row[b] by {
                    if a < row_before.len() && b < row_before.len() {
                        assert(row_before[a] != row_before[b]);
                    } else if a < row_before.len() {
                        assert(row_before.contains(row_before[a]));
                    } else {
                        assert(row_before.contains(row_before[b]));
                    }
                }
            }
            assert forall|e: usize, q: usize| e < n implies (#[trigger] dependents[e as int]@.contains(
                q,
            ) <==> (q < p && deps[q as int]@.contains(e)) || (q == p && deps[p as int]@.take(
                k + 1,
            ).contains(e))) by {
                let taken = deps[p as int]@.take(k as int);
                let taken_next = deps[p as int]@.take(k + 1);
                assert(taken_next =~= taken.push(target));
                if e == target {
                    let row = dependents[e as int]@;
                    assert(row =~= row_before.push(p));
                    if row.contains(q) {
                        let at = choose|i: int| 0 <= i < row.len() && row[i] == q;
                        if at < row_before.len() {
                            assert(row_before.contains(q));
                        } else {
                            assert(q == p);
                            assert(taken_next[k as int] == e);
                        }
                    }
                    if (q < p && deps[q as int]@.contains(e)) || (q == p && taken.contains(e)) {
                        assert(row_before.contains(q));
                        let at = choose|i: int| 0 <= i < row_before.len() && row_before[i] == q;
                        assert(row[at] == q);
                    }
                    if q == p {
                        assert(row[row.len() - 1] == p);
                    }
                } else {
                    assert(dependents[e as int] == before[e as int]);
                    if q == p && taken_next.contains(e) {
                        let at = choose|i: int| 0 <= i < taken_next.len() && taken_next[i] == e;
                        assert(at < k);
                        assert(taken[at] == e);
                    }
                    if q == p && taken.contains(e) {
                        let at = choose|i: int| 0 <= i < taken.len() && taken[i] == e;
                        assert(taken_next[at] == e);
                    }
                }
            }
            k += 1;
        }
        assert(deps[p as int]@.take(k as int) =~= deps[p as int]@);
        p += 1;
    }
    dependents
}

/// With no dependency done, all of them are pending.
proof fn lemma_pending_at_start(deps: Seq<Vec<usize>>, p: int)
    requires
        0 <= p < deps.len(),
        deps[p]@.no_duplicates(),
    ensures
        pending(deps, p, Set::empty()).len() == deps[p]@.len(),
{
    broadcast use vstd::seq_lib::seq_to_set_is_finite;

    deps[p]@.unique_seq_to_set();
    assert(pending(deps, p, Set::empty()) =~= deps[p]@.to_set());
}

/// Marking `u` as done takes it out of the pending dependencies of the
/// positions that depend on it, and changes nothing for the others.
proof fn lemma_pending_after_step(deps: Seq<Vec<usize>>, p: int, done: Set<usize>, u: usize)
    requires
        0 <= p < deps.len(),
        done.finite(),
        !done.contains(u),
    ensures
        pending(deps, p, done).finite(),
        pending(deps, p, done.insert(u)).finite(),
        deps[p]@.contains(u) ==> pending(deps, p, done).len() >= 1 && pending(
            deps,
            p,
            done.insert(u),
        ).len() == pending(deps, p, done).len() - 1,
        !deps[p]@.contains(u) ==> pending(deps, p, done.insert(u)) == pending(deps, p, done),
{
    broadcast use vstd::seq_lib::seq_to_set_is_finite;

    let before = pending(deps, p, done);
    let after = pending(deps, p, done.insert(u));
    if deps[p]@.contains(u) {
        assert(before.contains(u));
        assert(after =~= before.remove(u));
    } else {
        assert(after =~= before);
    }
}

/// The pending set is empty exactly when its size is zero.
proof fn lemma_pending_empty(deps: Seq<Vec<usize>>, p: int, done: Set<usize>)
    requires
        0 <= p < deps.len(),
        done.finite(),
    ensures
        pending(deps, p, done).len() == 0 ==> forall|d: usize|
            deps[p]@.contains(d) ==> done.contains(d),
        pending(deps, p, done).len() != 0 ==> exists|d: usize|
            deps[p]@.contains(d) && !done.contains(d),
{
    broadcast use vstd::seq_lib::seq_to_set_is_finite;

    let s = pending(deps, p, done);
    assert(s.finite());
    if s.len() == 0 {
        assert forall|d: usize| deps[p]@.contains(d) implies done.contains(d) by {
            if !done.contains(d) {
                assert(s.contains(d));
            }
        }
    } else {
        let d = s.choose();
        assert(s.contains(d));
        assert(deps[p]@.contains(d) && !done.contains(d));
    }
}

/// Kahn's algorithm on the tables: positions without pending dependencies
/// are queued, and taking one from the queue releases its dependents.
///
/// The queue is never emptied, only read further: what has been queued is
/// the order. Positions that are never queued each depend on another such
/// position.
fn queue_order(deps: &Vec<Vec<usize>>, dependents: &Vec<Vec<usize>>) -> (order: Vec<usize>)
    requires
        is_dependents_table(dependents@, deps@),
        forall|p: int| 0 <= p < deps.len() ==> (#[trigger] deps[p])@.no_duplicates(),
        forall|p: int| 0 <= p < deps.len() ==> all_below(#[trigger] deps[p]@, deps.len()),
    ensures
        order@.no_duplicates(),
        all_below(order@, deps.len()),
        forall|i: int| 0 <= i < order.len() ==> follows_dependencies(order@, deps@, i),
        forall|p: usize|
            p < deps.len() && !order@.contains(p) ==> exists|d: usize|
                deps[p as int]@.contains(d) && d < deps.len() && !order@.contains(d),
{
    let n = deps.len();
    let mut in_degree: Vec<usize> = Vec::new();
    let mut order: Vec<usize> = Vec::new();
    let mut p: usize = 0;
    while p < n
        invariant
            p <= n,
            n == deps.len(),
            in_degree.len() == p,
            forall|q: int| 0 <= q < p ==> in_degree[q] == (#[trigger] deps[q])@.len(),
            order@.no_duplicates(),
            all_below(order@, p),
            forall|q: usize| q < p ==> (order@.contains(q) <==> #[trigger] in_degree[q as int] == 0),
            forall|i: int| 0 <= i < order.len() ==> deps[#[trigger] order[i] as int]@.len() == 0,
        decreases n - p,
    {
        let ghost before = order@;
        let count = deps[p].len();
        in_degree.push(count);
        if count == 0 {
            order.push(p);
            assert(order@.no_duplicates()) by {
                assert forall|a: int, b: int|
                    0 <= a < order.len() && 0 <= b < order.len() && a != b implies order[a]
                    != order[b] by {
                    if a < before.len() {
                        assert(before[a] < p);
                    }
                    if b < before.len() {
                        assert(before[b] < p);
                    }
                }
            }
            assert(order[order.len() - 1] == p);
        }
        assert forall|q: usize| q < p + 1 implies (order@.contains(q) <==> #[trigger] in_degree[q as int]
            == 0) by {
            if q < p {
                if before.contains(q) {
                    let at = choose|i: int| 0 <= i < before.len() && before[i] == q;
                    assert(order[at] == q);
                }
                if order@.contains(q) {
                    let at = choose|i: int| 0 <= i < order.len() && order[i] == q;
                    assert(before[at] == q);
                }
            } else {
                if order@.contains(q) {
                    let at = choose|i: int| 0 <= i < order.len() && order[i] == q;
                    if at < before.len() {
                        assert(before[at] < p);
                    }
                }
            }
        }
        p += 1;
    }
    let mut head: usize = 0;
    let ghost mut done: Set<usize> = Set::empty();
    proof {
        assert forall|q: int| 0 <= q < n implies in_degree[q] == pending(deps@, q, done).len() by {
            lemma_pending_at_start(deps@, q);
        }
        assert forall|i: int| 0 <= i < order.len() implies follows_dependencies(
            order@,
            deps@,
            i,
        ) by {
            assert(deps[order[i] as int]@.len() == 0);
        }
    }
    while head < order.len()
        invariant
            head <= order.len(),
            n == deps.len(),
            in_degree.len() == n,
            is_dependents_table(dependents@, deps@),
            forall|q: int| 0 <= q < deps.len() ==> (#[trigger] deps[q])@.no_duplicates(),
            forall|q: int| 0 <= q < deps.len() ==> all_below(#[trigger] deps[q]@, deps.len()),
            order@.no_duplicates(),
            all_below(order@, n),
            done.finite(),
            forall|x: usize| done.contains(x) <==> exists|j: int| 0 <= j < head && order[j] == x,
            forall|q: int| 0 <= q < n ==> #[trigger] in_degree[q] == pending(deps@, q, done).len(),
            forall|q: usize| q < n ==> (order@.contains(q) <==> #[trigger] in_degree[q as int] == 0),
            forall|i: int| 0 <= i < order.len() ==> follows_dependencies(order@, deps@, i),
        decreases n - head,
    {
        proof {
            lemma_distinct_indices(order@, n);
        }
        let u = order[head];
        let row = &dependents[u];
        let ghost done_next = done.insert(u);
        assert(!done.contains(u)) by {
            if done.contains(u) {
                let j = choose|j: int| 0 <= j < head && order[j] == u;
                assert(order[j] == order[head as int]);
            }
        }
        let mut k: usize = 0;
        while k < row.len()
            invariant
                k <= row.len(),
                head < order.len(),
                order[head as int] == u,
                u < n,
                row == &dependents[u as int],
                n == deps.len(),
                in_degree.len() == n,
                is_dependents_table(dependents@, deps@),
                forall|q: int| 0 <= q < deps.len() ==> (#[trigger] deps[q])@.no_duplicates(),
                forall|q: int| 0 <= q < deps.len() ==> all_below(#[trigger] deps[q]@, deps.len()),
                order@.no_duplicates(),
                all_below(order@, n),
                done.finite(),
                !done.contains(u),
                done_next == done.insert(u),
                forall|x: usize| done.contains(x) <==> exists|j: int| 0 <= j < head && order[j] == x,
                forall|q: int|
                    0 <= q < n ==> #[trigger] in_degree[q] == pending(
                        deps@,
                        q,
                        if row@.take(k as int).contains(q as usize) {
                            done_next
                        } else {
                            done
                        },
                    ).len(),
                forall|q: usize| q < n ==> (order@.contains(q) <==> #[trigger] in_degree[q as int] == 0),
                forall|i: int| 0 <= i < order.len() ==> follows_dependencies(order@, deps@, i),
            decreases row.len() - k,
        {
            let q = row[k];
            let ghost taken = row@.take(k as int);
            let ghost taken_next = row@.take(k + 1);
            let ghost order_before = order@;
            let ghost degree_before = in_degree@;
            proof {
                assert(row@.contains(q));
                assert(q < n && deps[q as int]@.contains(u));
                assert(!taken.contains(q)) by {
                    if taken.contains(q) {
                        let at = choose|i: int| 0 <= i < taken.len() && taken[i] == q;
                        assert(row@[at] == row@[k as int]);
                    }
                }
                assert(taken_next =~= taken.push(q));
                assert(in_degree[q as int] == pending(deps@, q as int, done).len());
                lemma_pending_after_step(deps@, q as int, done, u);
            }
            let remaining = in_degree[q] - 1;
            in_degree.set(q, remaining);
            if remaining == 0 {
                assert(!order@.contains(q));
                order.push(q);
                proof {
                    assert(order@.no_duplicates()) by {
                        assert forall|a: int, b: int|
                            0 <= a < order.len() && 0 <= b < order.len() && a != b implies order[a]
                            != order[b] by {
                            if a < order_before.len() && b < order_before.len() {
                                assert(order_before[a] != order_before[b]);
                            } else if a < order_before.len() {
                                assert(order_before.contains(order_before[a]));
                            } else {
                                assert(order_before.contains(order_before[b]));
                            }
                        }
                    }
                    let last = order.len() - 1;
                    assert(follows_dependencies(order@, deps@, last)) by {
                        lemma_pending_empty(deps@, q as int, done_next);
                        assert forall|d: usize| #[trigger]
                            deps[order[last] as int]@.contains(d) implies exists|j: int|
                            0 <= j < last && order[j] == d by {
                            assert(done_next.contains(d));
                            if d == u {
                                assert(order[head as int] == d);
                            } else {
                                assert(done.contains(d));
                                let j = choose|j: int| 0 <= j < head && order_before[j] == d;
                                assert(order[j] == d);
                            }
                        }
                    }
                    assert forall|i: int| 0 <= i < order.len() - 1 implies follows_dependencies(
                        order@,
                        deps@,
                        i,
                    ) by {
                        assert(follows_dependencies(order_before, deps@, i));
                        assert forall|d: usize| #[trigger]
                            deps[order[i] as int]@.contains(d) implies exists|j: int|
                            0 <= j < i && order[j] == d by {
                            assert(deps[order_before[i] as int]@.contains(d));
                            let j = choose|j: int| 0 <= j < i && order_before[j] == d;
                            assert(order[j] == d);
                        }
                    }
                }
            }
            proof {
                assert forall|x: usize| done.contains(x) <==> exists|j: int|
                    0 <= j < head && order[j] == x by {
                    if done.contains(x) {
                        let j = choose|j: int| 0 <= j < head && order_before[j] == x;
                        assert(order[j] == x);
                    }
                    if exists|j: int| 0 <= j < head && order[j] == x {
                        let j = choose|j: int| 0 <= j < head && order[j] == x;
                        assert(order_before[j] == x);
                    }
                }
                assert forall|t: int| 0 <= t < n implies #[trigger] in_degree[t] == pending(
                    deps@,
                    t,
                    if taken_next.contains(t as usize) {
                        done_next
                    } else {
                        done
                    },
                ).len() by {
                    if t == q {
                        assert(taken_next[k as int] == q);
                    } else {
                        assert(in_degree[t] == degree_before[t]);
                        if taken_next.contains(t as usize) {
                            let at = choose|i: int|
                                0 <= i < taken_next.len() && taken_next[i] == t as usize;
                            assert(at < k);
                            assert(taken[at] == t as usize);
                        }
                        if taken.contains(t as usize) {
                            let at = choose|i: int| 0 <= i < taken.len() && taken[i] == t as usize;
                            assert(taken_next[at] == t as usize);
                        }
                    }
                }
                assert forall|t: usize| t < n implies (order@.contains(t) <==> #[trigger] in_degree[t as int]
                    == 0) by {
                    if order_before.contains(t) {
                        let at = choose|i: int| 0 <= i < order_before.len() && order_before[i] == t;
                        assert(order[at] == t);
                    }
                    if order@.contains(t) && t != q {
                        let at = choose|i: int| 0 <= i < order.len() && order[i] == t;
                        assert(order_before[at] == t);
                    }
                    if t == q && remaining == 0 {
                        assert(order[order.len() - 1] == q);
                    }
                    if t == q && remaining != 0 && order@.contains(t) {
                        let at = choose|i: int| 0 <= i < order.len() && order[i] == t;
                        assert(order_before[at] == t);
                    }
                }
            }
            k += 1;
        }
        proof {
            assert(row@.take(k as int) =~= row@);
            assert forall|t: int| 0 <= t < n implies #[trigger] in_degree[t] == pending(
                deps@,
                t,
                done_next,
            ).len() by {
                if !row@.contains(t as usize) {
                    assert(!deps[t]@.contains(u));
                    lemma_pending_after_step(deps@, t, done, u);
                }
            }
            assert forall|x: usize| done_next.contains(x) <==> exists|j: int|
                0 <= j < head + 1 && order[j] == x by {
                if done_next.contains(x) {
                    if x == u {
                        assert(order[head as int] == x);
                    } else {
                        assert(done.contains(x));
                        let j = choose|j: int| 0 <= j < head && order[j] == x;
                        assert(0 <= j < head + 1 && order[j] == x);
                    }
                }
                if exists|j: int| 0 <= j < head + 1 && order[j] == x {
                    let j = choose|j: int| 0 <= j < head + 1 && order[j] == x;
                    if j < head {
                        assert(done.contains(x));
                    }
                }
            }
            done = done_next;
        }
        head += 1;
    }
    proof {
        assert forall|t: usize| t < deps.len() && !order@.contains(t) implies exists|d: usize|
            deps[t as int]@.contains(d) && d < deps.len() && !order@.contains(d) by {
            assert(in_degree[t as int] != 0);
            lemma_pending_empty(deps@, t as int, done);
            let d = choose|d: usize| deps[t as int]@.contains(d) && !done.contains(d);
            assert(all_below(deps[t as int]@, deps.len()));
            let at = choose|i: int| 0 <= i < deps[t as int]@.len() && deps[t as int]@[i] == d;
            assert(d < deps.len());
            if order@.contains(d) {
                let j = choose|j: int| 0 <= j < order.len() && order[j] == d;
                assert(0 <= j < head && order[j] == d);
            }
        }
    }
    order
}

/// The place of `v` in `order`.
pub open spec fn position_of(order: Seq<usize>, v: int) -> int {
    choose|i: int| 0 <= i < order.len() && order[i] == v
}

/// In an order that holds every position and puts dependencies first, the
/// places rise along a walk.
proof fn lemma_walk_rises(
    pkgs: Seq<PackageView>,
    deps: Seq<Vec<usize>>,
    order: Seq<usize>,
    path: Seq<int>,
    k: int,
)
    requires
        is_dependency_table(deps, pkgs),
        order.no_duplicates(),
        all_below(order, pkgs.len() as usize),
        order.len() == pkgs.len(),
        pkgs.len() <= usize::MAX,
        forall|i: int| 0 <= i < order.len() ==> follows_dependencies(order, deps, i),
        is_dependency_walk(pkgs, path),
        1 <= k < path.len(),
    ensures
        position_of(order, path[0]) < position_of(order, path[k]),
    decreases k,
{
    lemma_distinct_indices(order, pkgs.len() as usize);
    let from = path[k - 1];
    let to = path[k];
    assert(0 <= from < pkgs.len() && 0 <= to < pkgs.len());
    assert(order.contains(from as usize));
    assert(order.contains(to as usize));
    let i = position_of(order, to);
    let j = position_of(order, from);
    assert(is_dependency_step(pkgs, path, k - 1));
    assert(deps[to]@.contains(from as usize));
    assert(follows_dependencies(order, deps, i));
    assert(deps[order[i] as int]@.contains(from as usize));
    let earlier = choose|e: int| 0 <= e < i && order[e] == from as usize;
    assert(earlier == j);
    if k > 1 {
        lemma_walk_rises(pkgs, deps, order, path, k - 1);
    }
}

/// An order that holds every position and puts dependencies first shows
/// that there is no cycle.
proof fn lemma_ordered_means_acyclic(
    pkgs: Seq<PackageView>,
    deps: Seq<Vec<usize>>,
    order: Seq<usize>,
)
    requires
        is_dependency_table(deps, pkgs),
        order.no_duplicates(),
        all_below(order, pkgs.len() as usize),
        order.len() == pkgs.len(),
        pkgs.len() <= usize::MAX,
        forall|i: int| 0 <= i < order.len() ==> follows_dependencies(order, deps, i),
    ensures
        !has_cycle(pkgs),
{
    if has_cycle(pkgs) {
        let path = choose|path: Seq<int>|
            #[trigger] is_dependency_walk(pkgs, path) && path.len() >= 2 && path.first()
                == path.last();
        lemma_walk_rises(pkgs, deps, order, path, path.len() - 1);
    }
}

/// `p` is a position of `pkgs` that `order` leaves out.
pub open spec fn left_out(pkgs: Seq<PackageView>, order: Seq<usize>, p: usize) -> bool {
    p < pkgs.len() && !order.contains(p)
}

/// A chain of left-out positions, each a dependency of the next, can be
/// extended at its front until it meets itself.
proof fn lemma_chain_closes(pkgs: Seq<PackageView>, order: Seq<usize>, chain: Seq<usize>)
    requires
        pkgs.len() <= usize::MAX,
        forall|p: usize| #[trigger]
            left_out(pkgs, order, p) ==> exists|d: usize|
                left_out(pkgs, order, d) && depends_on(pkgs[p as int], pkgs[d as int]),
        chain.len() >= 1,
        chain.no_duplicates(),
        forall|k: int| 0 <= k < chain.len() ==> left_out(pkgs, order, #[trigger] chain[k]),
        forall|k: int|
            0 <= k < chain.len() - 1 ==> depends_on(
                pkgs[#[trigger] chain[k + 1] as int],
                pkgs[chain[k] as int],
            ),
    ensures
        has_cycle(pkgs),
    decreases pkgs.len() - chain.len(),
{
    assert(all_below(chain, pkgs.len() as usize));
    lemma_distinct_indices(chain, pkgs.len() as usize);
    let front = chain[0];
    assert(left_out(pkgs, order, front));
    let d = choose|d: usize|
        left_out(pkgs, order, d) && depends_on(pkgs[front as int], pkgs[d as int]);
    let longer = seq![d] + chain;
    assert forall|k: int| 0 <= k < longer.len() - 1 implies depends_on(
        pkgs[#[trigger] longer[k + 1] as int],
        pkgs[longer[k] as int],
    ) by {
        if k > 0 {
            assert(longer[k] == chain[k - 1]);
            assert(longer[k + 1] == chain[k - 1 + 1]);
        }
    }
    if chain.contains(d) {
        let at = choose|i: int| 0 <= i < chain.len() && chain[i] == d;
        let path = Seq::new((at + 2) as nat, |k: int| longer[k] as int);
        assert(is_dependency_walk(pkgs, path)) by {
            assert forall|k: int| 0 <= k < path.len() implies 0 <= #[trigger] path[k]
                < pkgs.len() by {
                if k > 0 {
                    assert(left_out(pkgs, order, chain[k - 1]));
                }
            }
            assert forall|k: int| 0 <= k < path.len() - 1 implies #[trigger] is_dependency_step(
                pkgs,
                path,
                k,
            ) by {
                assert(depends_on(pkgs[longer[k + 1] as int], pkgs[longer[k] as int]));
            }
        }
        assert(path.first() == path.last()) by {
            assert(longer[at + 1] == chain[at]);
        }
    } else {
        assert(longer.no_duplicates()) by {
            assert forall|a: int, b: int|
                0 <= a < longer.len() && 0 <= b < longer.len() && a != b implies longer[a]
                != longer[b] by {
                if a > 0 && b > 0 {
                    assert(chain[a - 1] != chain[b - 1]);
                } else if a > 0 {
                    assert(chain.contains(chain[a - 1]));
                } else {
                    assert(chain.contains(chain[b - 1]));
                }
            }
        }
        assert forall|k: int| 0 <= k < longer.len() implies left_out(
            pkgs,
            order,
            #[trigger] longer[k],
        ) by {
            if k > 0 {
                assert(longer[k] == chain[k - 1]);
            }
        }
        lemma_chain_closes(pkgs, order, longer);
    }
}

/// When the queue runs dry before every position is placed, the positions
/// left out hold a cycle.
proof fn lemma_stuck_means_cycle(
    pkgs: Seq<PackageView>,
    deps: Seq<Vec<usize>>,
    order: Seq<usize>,
)
    requires
        is_dependency_table(deps, pkgs),
        pkgs.len() <= usize::MAX,
        order.no_duplicates(),
        all_below(order, pkgs.len() as usize),
        order.len() < pkgs.len(),
        forall|p: usize|
            p < deps.len() && !order.contains(p) ==> exists|d: usize|
                deps[p as int]@.contains(d) && d < deps.len() && !order.contains(d),
    ensures
        has_cycle(pkgs),
{
    lemma_distinct_indices(order, pkgs.len() as usize);
    let start = choose|v: usize| v < pkgs.len() && !order.contains(v);
    assert forall|p: usize| #[trigger] left_out(pkgs, order, p) implies exists|d: usize|
        left_out(pkgs, order, d) && depends_on(pkgs[p as int], pkgs[d as int]) by {
        let d = choose|d: usize|
            deps[p as int]@.contains(d) && d < deps.len() && !order.contains(d);
        assert(left_out(pkgs, order, d) && depends_on(pkgs[p as int], pkgs[d as int]));
    }
    lemma_chain_closes(pkgs, order, seq![start]);
}

/// In a publish order every package stands behind each of its local
/// dependencies: where the package at `j` depends on the one at `i`, `i`
/// comes first.
pub proof fn lemma_dependencies_come_first(order: Seq<PackageView>, i: int, j: int)
    requires
        is_publish_order(order),
        0 <= i < order.len(),
        0 <= j < order.len(),
        depends_on(order[j], order[i]),
    ensures
        i < j,
{
}

/// A reordering leaves no package out: every package of the list stands
/// somewhere in the order, and every entry of the order is a package of
/// the list.
pub proof fn lemma_reordering_holds_every_package(order: Seq<PackageView>, pkgs: Seq<PackageView>)
    requires
        is_reordering(order, pkgs),
        pkgs.len() <= usize::MAX,
    ensures
        order.len() == pkgs.len(),
        forall|i: int| 0 <= i < pkgs.len() ==> order.contains(#[trigger] pkgs[i]),
        forall|j: int| 0 <= j < order.len() ==> pkgs.contains(#[trigger] order[j]),
{
    let perm = choose|perm: Seq<usize>| arranges(perm, pkgs, order);
    assert(all_below(perm, pkgs.len() as usize));
    lemma_distinct_indices(perm, pkgs.len() as usize);
    assert forall|i: int| 0 <= i < pkgs.len() implies order.contains(#[trigger] pkgs[i]) by {
        assert(perm.contains(i as usize));
        let at = choose|at: int| 0 <= at < perm.len() && perm[at] == i as usize;
        assert(order[at] == pkgs[perm[at] as int]);
    }
    assert forall|j: int| 0 <= j < order.len() implies pkgs.contains(#[trigger] order[j]) by {
        assert(perm[j] < pkgs.len());
        assert(order[j] == pkgs[perm[j] as int]);
    }
}

/// A package that names itself among its local dependencies is a cycle.
pub proof fn lemma_self_dependency_is_cycle(pkgs: Seq<PackageView>, i: int)
    requires
        0 <= i < pkgs.len(),
        depends_on(pkgs[i], pkgs[i]),
    ensures
        has_cycle(pkgs),
{
    let path = seq![i, i];
    assert(is_dependency_walk(pkgs, path)) by {
        assert forall|k: int| 0 <= k < path.len() - 1 implies #[trigger] is_dependency_step(
            pkgs,
            path,
            k,
        ) by {}
    }
}

/// Two packages that each name the other among their local dependencies
/// are a cycle.
pub proof fn lemma_mutual_dependency_is_cycle(pkgs: Seq<PackageView>, i: int, j: int)
    requires
        0 <= i < pkgs.len(),
        0 <= j < pkgs.len(),
        depends_on(pkgs[i], pkgs[j]),
        depends_on(pkgs[j], pkgs[i]),
    ensures
        has_cycle(pkgs),
{
    let path = seq![i, j, i];
    assert(is_dependency_walk(pkgs, path)) by {
        assert forall|k: int| 0 <= k < path.len() - 1 implies #[trigger] is_dependency_step(
            pkgs,
            path,
            k,
        ) by {}
    }
}

/// The positions of `packages` in an order in which each package follows
/// its local dependencies.
///
/// Fails exactly when two packages share a name or the local dependencies
/// hold a cycle. Which of several valid orders is returned is not fixed.
pub fn publish_order(packages: &[Package]) -> (r: Result<Vec<usize>, PublishError>)
    ensures
        match r {
            Ok(order) => {
                &&& distinct_names(package_views(packages@))
                &&& !has_cycle(package_views(packages@))
                &&& order@.len() == packages.len()
                &&& order@.no_duplicates()
                &&& all_below(order@, packages.len())
                &&& forall|i: int, j: int|
                    0 <= i <= j < order.len() ==> !depends_on(
                        packages[order[i] as int]@,
                        packages[order[j] as int]@,
                    )
            },
            Err(e) => e == PublishError::CircularDependency && (!distinct_names(
                package_views(packages@),
            ) || has_cycle(package_views(packages@))),
        },
{
    let ghost pkgs = package_views(packages@);
    if !names_are_distinct(packages) {
        return Err(PublishError::CircularDependency);
    }
    let deps = resolve_dependencies(packages);
    assert forall|p: int| 0 <= p < deps.len() implies all_below(#[trigger] deps[p]@, deps.len()) by {
        assert forall|i: int| 0 <= i < deps[p]@.len() implies deps[p]@[i] < deps.len() by {
            assert(deps[p]@.contains(deps[p]@[i]));
        }
    }
    let dependents = invert_dependencies(&deps);
    let order = queue_order(&deps, &dependents);
    proof {
        lemma_distinct_indices(order@, packages.len());
    }
    if order.len() != packages.len() {
        proof {
            lemma_stuck_means_cycle(pkgs, deps@, order@);
        }
        return Err(PublishError::CircularDependency);
    }
    proof {
        lemma_ordered_means_acyclic(pkgs, deps@, order@);
        assert forall|i: int, j: int| 0 <= i <= j < order.len() implies !depends_on(
            packages[order[i] as int]@,
            packages[order[j] as int]@,
        ) by {
            if depends_on(packages[order[i] as int]@, packages[order[j] as int]@) {
                assert(depends_on(pkgs[order[i] as int], pkgs[order[j] as int]));
                assert(deps[order[i] as int]@.contains(order[j]));
                assert(follows_dependencies(order@, deps@, i));
                let e = choose|e: int| 0 <= e < i && order[e] == order[j];
                assert(e != j);
            }
        }
    }
    Ok(order)
}

/// The packages in an order in which each one follows its local
/// dependencies, so that publishing them in turn never publishes a package
/// before one it depends on.
///
/// Fails exactly when two packages share a name or the local dependencies
/// hold a cycle; a package that names itself is a cycle. Which of several
/// valid orders is returned is not fixed.
pub fn topological_sort(packages: &[Package]) -> (r: Result<Vec<Package>, PublishError>)
    ensures
        match r {
            Ok(order) => {
                &&& distinct_names(package_views(packages@))
                &&& !has_cycle(package_views(packages@))
                &&& is_reordering(package_views(order@), package_views(packages@))
                &&& is_publish_order(package_views(order@))
            },
            Err(e) => e == PublishError::CircularDependency && (!distinct_names(
                package_views(packages@),
            ) || has_cycle(package_views(packages@))),
        },
{
    let ghost pkgs = package_views(packages@);
    match publish_order(packages) {
        Err(e) => Err(e),
        Ok(positions) => {
            let mut order: Vec<Package> = Vec::new();
            let mut i: usize = 0;
            while i < positions.len()
                invariant
                    i <= positions.len(),
                    all_below(positions@, packages.len()),
                    order.len() == i,
                    forall|k: int| 0 <= k < i ==> (#[trigger] order[k])@ == packages[positions[k] as int]@,
                decreases positions.len() - i,
            {
                assert(positions[i as int] < packages.len());
                order.push(packages[positions[i]].duplicate());
                i += 1;
            }
            proof {
                let sorted = package_views(order@);
                assert(arranges(positions@, pkgs, sorted)) by {
                    assert forall|k: int| 0 <= k < positions.len() implies #[trigger] sorted[k]
                        == pkgs[positions[k] as int] by {
                        assert(order[k]@ == packages[positions[k] as int]@);
                    }
                }
                assert(is_publish_order(sorted)) by {
                    assert forall|a: int, b: int| 0 <= a <= b < sorted.len() implies !depends_on(
                        sorted[a],
                        sorted[b],
                    ) by {
                        assert(order[a]@ == packages[positions[a] as int]@);
                        assert(order[b]@ == packages[positions[b] as int]@);
                    }
                }
            }
            Ok(order)
        },
    }
}

} // verus!
