//! The dependency closure of a root package.
//!
//! The closure of a package is the package itself and every package that is
//! reached from it by following declared dependencies, each held once.
//! [`resolve`] computes it by repeated passes: each pass looks at the
//! dependencies of every member, stages the ones not yet held, and merges
//! them when the pass is over; the first pass that stages nothing ends the
//! computation. A dependency that the index does not hold ends it with an
//! error, and no closure is given.
use crate::error::ProgramError;
use crate::package::distinct_names;
use crate::package::lemma_lookup_member;
use crate::package::lemma_lookup_some;
use crate::package::lookup_spec;
use crate::package::root_spec;
use crate::package::views;
use crate::package::PackageIndex;
use crate::package::PackageMetadata;
use crate::package::PackageView;
use vstd::prelude::*;

verus! {

/// The package named `from` is in `packages` and declares `to` as a dependency.
pub open spec fn depends_on(packages: Seq<PackageView>, from: Seq<char>, to: Seq<char>) -> bool {
    lookup_spec(packages, from) matches Some(p) && p.depends.contains(to)
}

/// `name` is reached from `start` by following at most `steps` declared
/// dependencies.
pub open spec fn reachable_within(
    packages: Seq<PackageView>,
    start: Seq<char>,
    name: Seq<char>,
    steps: nat,
) -> bool
    decreases steps,
{
    if steps == 0 {
        name == start
    } else {
        reachable_within(packages, start, name, (steps - 1) as nat) || exists|via: Seq<char>|
            reachable_within(packages, start, via, (steps - 1) as nat) && #[trigger] depends_on(
                packages,
                via,
                name,
            )
    }
}

/// `name` is `start`, or is reached from it by following declared
/// dependencies.
pub open spec fn reachable(packages: Seq<PackageView>, start: Seq<char>, name: Seq<char>) -> bool {
    exists|steps: nat| reachable_within(packages, start, name, steps)
}

/// Some record of `list` is named `name`.
pub open spec fn has_name(list: Seq<PackageView>, name: Seq<char>) -> bool {
    exists|k: int| 0 <= k < list.len() && (#[trigger] list[k]).name == name
}

/// Every record of `members` is the record that `packages` holds under its
/// name.
pub open spec fn members_of(packages: Seq<PackageView>, members: Seq<PackageView>) -> bool {
    forall|i: int|
        0 <= i < members.len() ==> lookup_spec(packages, (#[trigger] members[i]).name) == Some(
            members[i],
        )
}

/// Every dependency that a record of `members` declares is the name of a
/// record of `members`.
pub open spec fn closed_under_dependencies(members: Seq<PackageView>) -> bool {
    forall|i: int, d: int|
        0 <= i < members.len() && 0 <= d < members[i].depends.len() ==> has_name(
            members,
            #[trigger] members[i].depends[d],
        )
}

/// Every record of `members` is reached from `start`.
pub open spec fn all_reachable(
    packages: Seq<PackageView>,
    start: Seq<char>,
    members: Seq<PackageView>,
) -> bool {
    forall|i: int|
        0 <= i < members.len() ==> reachable(packages, start, (#[trigger] members[i]).name)
}

/// `closure` is the dependency closure of the package named `start`: it
/// begins with that package, holds records of `packages` only, holds no name
/// twice, holds every dependency of each of its records, and holds nothing
/// that is not reached from `start`.
pub open spec fn is_closure(
    packages: Seq<PackageView>,
    start: Seq<char>,
    closure: Seq<PackageView>,
) -> bool {
    &&& closure.len() > 0
    &&& closure[0].name == start
    &&& distinct_names(closure)
    &&& members_of(packages, closure)
    &&& closed_under_dependencies(closure)
    &&& all_reachable(packages, start, closure)
}

/// The closure of the root that `root` stands for exists: the root is in
/// `packages`, and so is every name reached from it.
pub open spec fn resolvable(packages: Seq<PackageView>, root: Seq<char>) -> bool {
    root_spec(packages, root) matches Some(r) && forall|name: Seq<char>|
        #[trigger] reachable(packages, r.name, name) ==> lookup_spec(packages, name) is Some
}

/// `name` stands in the way of the closure: it is the root name and stands
/// for no package, or it is not in `packages` and a package reached from the
/// root depends on it.
pub open spec fn is_missing(packages: Seq<PackageView>, root: Seq<char>, name: Seq<char>) -> bool {
    match root_spec(packages, root) {
        None => name == root,
        Some(r) => lookup_spec(packages, name) is None && exists|via: Seq<char>|
            reachable(packages, r.name, via) && #[trigger] depends_on(packages, via, name),
    }
}

/// Every package is reached from itself.
pub proof fn lemma_reachable_start(packages: Seq<PackageView>, start: Seq<char>)
    ensures
        reachable(packages, start, start),
{
    assert(reachable_within(packages, start, start, 0));
}

/// A dependency of a reached package is reached.
pub proof fn lemma_reachable_step(
    packages: Seq<PackageView>,
    start: Seq<char>,
    via: Seq<char>,
    name: Seq<char>,
)
    requires
        reachable(packages, start, via),
        depends_on(packages, via, name),
    ensures
        reachable(packages, start, name),
{
    let steps = choose|steps: nat| reachable_within(packages, start, via, steps);
    assert(reachable_within(packages, start, name, steps + 1));
}

/// A list that holds `start` and every dependency of its records holds
/// whatever is reached from `start` within `steps` steps.
proof fn lemma_closed_holds_reached(
    packages: Seq<PackageView>,
    start: Seq<char>,
    members: Seq<PackageView>,
    name: Seq<char>,
    steps: nat,
)
    requires
        has_name(members, start),
        members_of(packages, members),
        closed_under_dependencies(members),
        reachable_within(packages, start, name, steps),
    ensures
        has_name(members, name),
    decreases steps,
{
    if steps > 0 {
        let fewer = (steps - 1) as nat;
        if reachable_within(packages, start, name, fewer) {
            lemma_closed_holds_reached(packages, start, members, name, fewer);
        } else {
            let via = choose|via: Seq<char>|
                reachable_within(packages, start, via, fewer) && #[trigger] depends_on(
                    packages,
                    via,
                    name,
                );
            lemma_closed_holds_reached(packages, start, members, via, fewer);
            let k = choose|k: int| 0 <= k < members.len() && (#[trigger] members[k]).name == via;
            assert(lookup_spec(packages, members[k].name) == Some(members[k]));
            let d = choose|d: int|
                0 <= d < members[k].depends.len() && members[k].depends[d] == name;
            assert(has_name(members, members[k].depends[d]));
        }
    }
}

/// The names of a closure are the names reached from its first record, no
/// more and no fewer.
pub proof fn lemma_closure_is_what_is_reached(
    packages: Seq<PackageView>,
    start: Seq<char>,
    closure: Seq<PackageView>,
    name: Seq<char>,
)
    requires
        is_closure(packages, start, closure),
    ensures
        has_name(closure, name) <==> reachable(packages, start, name),
{
    if reachable(packages, start, name) {
        let steps = choose|steps: nat| reachable_within(packages, start, name, steps);
        assert(closure[0].name == start);
        lemma_closed_holds_reached(packages, start, closure, name, steps);
    }
    if has_name(closure, name) {
        let k = choose|k: int| 0 <= k < closure.len() && (#[trigger] closure[k]).name == name;
        assert(reachable(packages, start, closure[k].name));
    }
}

/// The closure does not depend on the order in which packages are visited:
/// two closures of one package in one index hold the same records, each
/// once, whatever the order in which they list them.
pub proof fn lemma_closure_is_order_independent(
    packages: Seq<PackageView>,
    start: Seq<char>,
    one: Seq<PackageView>,
    other: Seq<PackageView>,
)
    requires
        is_closure(packages, start, one),
        is_closure(packages, start, other),
    ensures
        one.to_set() == other.to_set(),
        one.len() == other.len(),
        one.no_duplicates(),
        other.no_duplicates(),
{
    lemma_same_records(packages, start, one, other);
    lemma_same_records(packages, start, other, one);
    assert(one.to_set() =~= other.to_set());
    one.unique_seq_to_set();
    other.unique_seq_to_set();
}

/// Every record of one closure is a record of every other closure of the
/// same package.
proof fn lemma_same_records(
    packages: Seq<PackageView>,
    start: Seq<char>,
    one: Seq<PackageView>,
    other: Seq<PackageView>,
)
    requires
        is_closure(packages, start, one),
        is_closure(packages, start, other),
    ensures
        forall|p: PackageView| one.to_set().contains(p) ==> other.to_set().contains(p),
        one.no_duplicates(),
{
    assert forall|p: PackageView| one.to_set().contains(p) implies other.to_set().contains(p) by {
        let i = choose|i: int| 0 <= i < one.len() && one[i] == p;
        assert(reachable(packages, start, one[i].name));
        lemma_closure_is_what_is_reached(packages, start, other, one[i].name);
        let k = choose|k: int|
            0 <= k < other.len() && (#[trigger] other[k]).name == one[i].name;
        assert(lookup_spec(packages, other[k].name) == Some(other[k]));
        assert(lookup_spec(packages, one[i].name) == Some(one[i]));
        assert(other[k] == p);
    }
    assert forall|i: int, j: int| 0 <= i < one.len() && 0 <= j < one.len() && i != j implies one[i]
        != one[j] by {
        if i < j {
            assert(one[i].name != one[j].name);
        } else {
            assert(one[j].name != one[i].name);
        }
    }
}

/// A package that declares no dependency is its own closure, and has no
/// other.
pub proof fn lemma_closure_of_leaf(
    packages: Seq<PackageView>,
    leaf: PackageView,
    closure: Seq<PackageView>,
)
    requires
        lookup_spec(packages, leaf.name) == Some(leaf),
        leaf.depends.len() == 0,
    ensures
        is_closure(packages, leaf.name, seq![leaf]),
        is_closure(packages, leaf.name, closure) ==> closure == seq![leaf],
{
    let alone = seq![leaf];
    lemma_reachable_start(packages, leaf.name);
    assert(is_closure(packages, leaf.name, alone));
    if is_closure(packages, leaf.name, closure) {
        lemma_closure_is_order_independent(packages, leaf.name, closure, alone);
        assert(lookup_spec(packages, closure[0].name) == Some(closure[0]));
        assert(closure =~= alone);
    }
}

/// A list of records of `packages` without repeated names is no longer than
/// `packages`.
proof fn lemma_members_bounded(packages: Seq<PackageView>, members: Seq<PackageView>)
    requires
        distinct_names(members),
        members_of(packages, members),
    ensures
        members.len() <= packages.len(),
{
    let held = members.map_values(|p: PackageView| p.name);
    let known = packages.map_values(|p: PackageView| p.name);
    assert forall|i: int, j: int| 0 <= i < held.len() && 0 <= j < held.len() && i != j implies held[i]
        != held[j] by {
        if i < j {
            assert(members[i].name != members[j].name);
        } else {
            assert(members[j].name != members[i].name);
        }
    }
    assert forall|name: Seq<char>| held.to_set().contains(name) implies known.to_set().contains(
        name,
    ) by {
        let i = choose|i: int| 0 <= i < held.len() && held[i] == name;
        assert(lookup_spec(packages, members[i].name) == Some(members[i]));
        lemma_lookup_some(packages, name);
        let k = choose|k: int| 0 <= k < packages.len() && packages[k] == members[i];
        assert(known[k] == name);
    }
    held.unique_seq_to_set();
    known.lemma_cardinality_of_set();
    vstd::set_lib::lemma_len_subset(held.to_set(), known.to_set());
}

/// Whether a record of `list` is named `name`.
fn holds_name(list: &Vec<PackageMetadata>, name: &String) -> (held: bool)
    ensures
        held == has_name(views(list@), name@),
{
    let mut k: usize = 0;
    while k < list.len()
        invariant
            k <= list.len(),
            forall|m: int| 0 <= m < k ==> (#[trigger] views(list@)[m]).name != name@,
        decreases list.len() - k,
    {
        if list[k].name == *name {
            assert(views(list@)[k as int].name == name@);
            return true;
        }
        k += 1;
    }
    false
}

/// What holds of the closure and of what a pass has staged while the pass
/// looks at the record at position `at`.
spec fn pass_holds(
    packages: Seq<PackageView>,
    start: Seq<char>,
    closure: Seq<PackageView>,
    staged: Seq<PackageView>,
) -> bool {
    &&& closure.len() > 0
    &&& closure[0].name == start
    &&& distinct_names(closure + staged)
    &&& members_of(packages, closure + staged)
    &&& all_reachable(packages, start, closure + staged)
}

/// The dependencies of the first `done` records of `closure`, and the first
/// `seen` of the record after them, are names of `closure` or of `staged`.
spec fn scanned(closure: Seq<PackageView>, staged: Seq<PackageView>, done: int, seen: int) -> bool {
    &&& forall|i: int, d: int|
        0 <= i < done && 0 <= d < closure[i].depends.len() ==> has_name(
            closure + staged,
            #[trigger] closure[i].depends[d],
        )
    &&& forall|d: int|
        0 <= d < seen ==> has_name(closure + staged, #[trigger] closure[done].depends[d])
}

/// Staging one more record keeps what was scanned.
proof fn lemma_scanned_after_staging(
    closure: Seq<PackageView>,
    staged: Seq<PackageView>,
    package: PackageView,
    done: int,
    seen: int,
)
    requires
        scanned(closure, staged, done, seen),
    ensures
        scanned(closure, staged.push(package), done, seen),
        has_name(closure + staged.push(package), package.name),
{
    let before = closure + staged;
    let after = closure + staged.push(package);
    assert(after =~= before.push(package));
    assert forall|name: Seq<char>| has_name(before, name) implies has_name(after, name) by {
        let k = choose|k: int| 0 <= k < before.len() && (#[trigger] before[k]).name == name;
        assert(after[k].name == name);
    }
    assert(after[before.len() as int].name == package.name);
}

/// A name held by neither part of a list is not held by the list.
proof fn lemma_has_name_split(closure: Seq<PackageView>, staged: Seq<PackageView>, name: Seq<char>)
    ensures
        has_name(closure + staged, name) <==> has_name(closure, name) || has_name(staged, name),
{
    let whole = closure + staged;
    if has_name(whole, name) {
        let k = choose|k: int| 0 <= k < whole.len() && (#[trigger] whole[k]).name == name;
        if k < closure.len() {
            assert(closure[k].name == name);
        } else {
            assert(staged[k - closure.len()].name == name);
        }
    }
    if has_name(closure, name) {
        let k = choose|k: int| 0 <= k < closure.len() && (#[trigger] closure[k]).name == name;
        assert(whole[k].name == name);
    }
    if has_name(staged, name) {
        let k = choose|k: int| 0 <= k < staged.len() && (#[trigger] staged[k]).name == name;
        assert(whole[closure.len() + k].name == name);
    }
}

/// Staging a record of the index that is newly reached keeps the pass in
/// order.
proof fn lemma_pass_after_staging(
    packages: Seq<PackageView>,
    start: Seq<char>,
    closure: Seq<PackageView>,
    staged: Seq<PackageView>,
    package: PackageView,
)
    requires
        pass_holds(packages, start, closure, staged),
        !has_name(closure + staged, package.name),
        lookup_spec(packages, package.name) == Some(package),
        reachable(packages, start, package.name),
    ensures
        pass_holds(packages, start, closure, staged.push(package)),
{
    let before = closure + staged;
    let after = closure + staged.push(package);
    assert(after =~= before.push(package));
    assert forall|i: int, j: int| 0 <= i < j < after.len() implies (#[trigger] after[i]).name != (
    #[trigger] after[j]).name by {
        if j < before.len() {
            assert(before[i].name != before[j].name);
        } else {
            assert(before[i].name != package.name);
        }
    }
    assert forall|i: int| 0 <= i < after.len() implies lookup_spec(
        packages,
        (#[trigger] after[i]).name,
    ) == Some(after[i]) by {
        if i < before.len() {
            assert(lookup_spec(packages, before[i].name) == Some(before[i]));
        }
    }
    assert forall|i: int| 0 <= i < after.len() implies reachable(
        packages,
        start,
        (#[trigger] after[i]).name,
    ) by {
        if i < before.len() {
            assert(reachable(packages, start, before[i].name));
        }
    }
}

/// The views of a longer list.
proof fn lemma_views_push(list: Seq<PackageMetadata>, package: PackageMetadata)
    ensures
        views(list.push(package)) == views(list).push(package@),
{
    assert(views(list.push(package)) =~= views(list).push(package@));
}

/// The views of two lists joined.
proof fn lemma_views_add(one: Seq<PackageMetadata>, other: Seq<PackageMetadata>)
    ensures
        views(one + other) == views(one) + views(other),
{
    assert(views(one + other) =~= views(one) + views(other));
}

/// Computes the dependency closure of the package that `root` stands for.
///
/// The root is found by base name, by name, or by name and version; every
/// dependency is found by its exact name. The result lists the root first
/// and every package reached from it once. Where the root, or a dependency
/// of a package that is reached, is not in `index`, the result is
/// [`ProgramError::MissingDependency`] with a name that was not found.
pub fn resolve(root: &str, index: &PackageIndex) -> (result: Result<
    Vec<PackageMetadata>,
    ProgramError,
>)
    ensures
        result is Ok <==> resolvable(index@, root@),
        match result {
            Ok(closure) => root_spec(index@, root@) matches Some(first) && views(closure@)[0]
                == first && is_closure(index@, first.name, views(closure@)),
            Err(ProgramError::MissingDependency(name)) => is_missing(index@, root@, name@),
            Err(_) => false,
        },
{
    let first = match index.root(root) {
        Some(package) => package,
        None => {
            return Err(ProgramError::MissingDependency(root.to_owned()));
        },
    };
    let ghost packages = index@;
    let ghost start = first@.name;
    let known: usize = index.len();
    let mut closure: Vec<PackageMetadata> = Vec::new();
    closure.push(first.clone());
    proof {
        lemma_root_is_member(packages, root@);
        lemma_reachable_start(packages, start);
        assert(views(closure@) =~= seq![first@]);
        assert(views(closure@) + Seq::<PackageView>::empty() =~= views(closure@));
        assert(pass_holds(packages, start, views(closure@), Seq::<PackageView>::empty()));
    }
    loop
        invariant
            packages == index@,
            known == packages.len(),
            distinct_names(packages),
            root_spec(packages, root@) == Some(first@),
            start == first@.name,
            views(closure@)[0] == first@,
            pass_holds(packages, start, views(closure@), Seq::<PackageView>::empty()),
        decreases known - closure.len(),
    {
        let mut staged: Vec<PackageMetadata> = Vec::new();
        let mut i: usize = 0;
        proof {
            assert(views(staged@) =~= Seq::<PackageView>::empty());
        }
        while i < closure.len()
            invariant
                packages == index@,
                distinct_names(packages),
                root_spec(packages, root@) == Some(first@),
                start == first@.name,
                i <= closure.len(),
                pass_holds(packages, start, views(closure@), views(staged@)),
                scanned(views(closure@), views(staged@), i as int, 0),
            decreases closure.len() - i,
        {
            let mut d: usize = 0;
            while d < closure[i].depends.len()
                invariant
                    packages == index@,
                    distinct_names(packages),
                    root_spec(packages, root@) == Some(first@),
                    start == first@.name,
                    i < closure.len(),
                    d <= closure@[i as int].depends@.len(),
                    pass_holds(packages, start, views(closure@), views(staged@)),
                    scanned(views(closure@), views(staged@), i as int, d as int),
                decreases closure@[i as int].depends@.len() - d,
            {
                let wanted: &String = &closure[i].depends[d];
                let ghost held = views(closure@);
                let ghost waiting = views(staged@);
                proof {
                    lemma_has_name_split(held, waiting, wanted@);
                    assert(held[i as int].depends[d as int] == wanted@);
                    assert((held + waiting)[i as int] == held[i as int]);
                    assert(lookup_spec(packages, held[i as int].name) == Some(held[i as int]));
                    assert(reachable(packages, start, held[i as int].name));
                    assert(depends_on(packages, held[i as int].name, wanted@));
                    lemma_reachable_step(packages, start, held[i as int].name, wanted@);
                }
                if !holds_name(&closure, wanted) && !holds_name(&staged, wanted) {
                    match index.lookup(wanted.as_str()) {
                        None => {
                            let missing = wanted.clone();
                            proof {
                                lemma_missing_dependency_prevents_closure(
                                    packages,
                                    root@,
                                    held[i as int].name,
                                    missing@,
                                );
                            }
                            return Err(ProgramError::MissingDependency(missing));
                        },
                        Some(package) => {
                            let found = package.clone();
                            proof {
                                lemma_lookup_some(packages, wanted@);
                                lemma_pass_after_staging(packages, start, held, waiting, found@);
                                lemma_scanned_after_staging(
                                    held,
                                    waiting,
                                    found@,
                                    i as int,
                                    d as int,
                                );
                                lemma_views_push(staged@, found);
                            }
                            staged.push(found);
                        },
                    }
                }
                d += 1;
            }
            i += 1;
        }
        if staged.len() == 0 {
            proof {
                let held = views(closure@);
                assert(views(staged@) =~= Seq::<PackageView>::empty());
                assert(held + views(staged@) =~= held);
                assert(is_closure(packages, start, held));
                assert forall|name: Seq<char>| #[trigger]
                    reachable(packages, start, name) implies lookup_spec(packages, name) is Some by {
                    lemma_closure_is_what_is_reached(packages, start, held, name);
                    let k = choose|k: int| 0 <= k < held.len() && (#[trigger] held[k]).name == name;
                    assert(lookup_spec(packages, held[k].name) == Some(held[k]));
                }
            }
            return Ok(closure);
        }
        proof {
            lemma_views_add(closure@, staged@);
            lemma_members_bounded(packages, views(closure@) + views(staged@));
            assert((views(closure@) + views(staged@))[0] == views(closure@)[0]);
            assert(views(closure@) + views(staged@) + Seq::<PackageView>::empty() =~= views(
                closure@,
            ) + views(staged@));
        }
        closure.append(&mut staged);
    }
}

/// The record that a root name stands for is the record that the index
/// holds under that record's name.
proof fn lemma_root_is_member(packages: Seq<PackageView>, root: Seq<char>)
    requires
        distinct_names(packages),
        root_spec(packages, root) is Some,
    ensures
        lookup_spec(packages, root_spec(packages, root)->0.name) == root_spec(packages, root),
{
    let first = root_spec(packages, root)->0;
    let by_base = |p: PackageView| p.base == Some(root);
    let by_name = |p: PackageView| p.name == root;
    let by_version = |p: PackageView| crate::package::versioned_name(p) == root;
    let wanted = if crate::package::first_match(packages, by_base) is Some {
        by_base
    } else if crate::package::first_match(packages, by_name) is Some {
        by_name
    } else {
        by_version
    };
    let i = choose|i: int| crate::package::is_first_match(packages, wanted, i);
    assert(crate::package::is_first_match(packages, wanted, i));
    assert(packages[i] == first);
    lemma_lookup_member(packages, i);
}

/// A dependency that the index lacks prevents the closure: where a package
/// that is reached from the root depends on a name that the index does not
/// hold, there is no closure, and the name is one that stands in its way.
pub proof fn lemma_missing_dependency_prevents_closure(
    packages: Seq<PackageView>,
    root: Seq<char>,
    via: Seq<char>,
    name: Seq<char>,
)
    requires
        root_spec(packages, root) is Some,
        reachable(packages, root_spec(packages, root)->0.name, via),
        depends_on(packages, via, name),
        lookup_spec(packages, name) is None,
    ensures
        !resolvable(packages, root),
        is_missing(packages, root, name),
{
    lemma_reachable_step(packages, root_spec(packages, root)->0.name, via, name);
}

} // verus!
