//! Removing unused dependencies with the project's package manager.
//!
//! The commands are run by the caller; this module decides which command
//! to run and what the outcome is.
use vstd::prelude::*;

use crate::{LockfileType, UnusedDep};

verus! {

/// The outcome of a removal: the packages removed and those that failed,
/// with the package manager's error output.
#[derive(Debug, Clone)]
pub struct FixResult {
    pub removed: Vec<String>,
    pub failed: Vec<(String, String)>,
}

/// The package manager binary and its removal subcommand for a lockfile
/// type.
pub open spec fn pm_command(t: LockfileType) -> (Seq<char>, Seq<char>) {
    match t {
        LockfileType::Pnpm => ("pnpm"@, "remove"@),
        LockfileType::Npm => ("npm"@, "uninstall"@),
        LockfileType::Yarn => ("yarn"@, "remove"@),
        LockfileType::Bun => ("bun"@, "remove"@),
    }
}

/// The package manager binary and its removal subcommand.
pub fn get_pm_command(lockfile_type: &LockfileType) -> (r: (&'static str, &'static str))
    ensures
        (r.0@, r.1@) == pm_command(*lockfile_type),
{
    match lockfile_type {
        LockfileType::Pnpm => ("pnpm", "remove"),
        LockfileType::Npm => ("npm", "uninstall"),
        LockfileType::Yarn => ("yarn", "remove"),
        LockfileType::Bun => ("bun", "remove"),
    }
}

/// The names of the packages to remove, in order.
pub open spec fn names_of(unused: Seq<UnusedDep>) -> Seq<Seq<char>> {
    unused.map_values(|d: UnusedDep| d.name@)
}

/// The names of the packages to remove.
pub fn removal_names(unused: &[UnusedDep]) -> (r: Vec<String>)
    ensures
        r.deep_view() == names_of(unused@),
{
    let mut out: Vec<String> = Vec::new();
    let mut i: usize = 0;
    while i < unused.len()
        invariant
            i <= unused@.len(),
            out.deep_view() == names_of(unused@.take(i as int)),
        decreases unused@.len() - i,
    {
        let ghost before = out.deep_view();
        let n = unused[i].name.clone();
        out.push(n);
        assert(out.deep_view() =~= before.push(unused@[i as int].name@));
        assert(names_of(unused@.take(i + 1)) =~= names_of(unused@.take(i as int)).push(
            unused@[i as int].name@,
        ));
        i = i + 1;
    }
    assert(unused@.take(unused@.len() as int) =~= unused@);
    out
}

/// The result when no command has to run: nothing to remove, or a dry run
/// (which reports every package as removed); none when the package
/// manager has to run.
pub fn fix_without_command(unused: &[UnusedDep], dry_run: bool) -> (r: Option<FixResult>)
    ensures
        unused@.len() == 0 ==> (r matches Some(f) && f.removed@.len() == 0 && f.failed@.len() == 0),
        unused@.len() > 0 && dry_run ==> (r matches Some(f) && f.removed.deep_view() == names_of(
            unused@,
        ) && f.failed@.len() == 0),
        unused@.len() > 0 && !dry_run ==> r is None,
{
    if unused.len() == 0 {
        return Some(FixResult { removed: Vec::new(), failed: Vec::new() });
    }
    if dry_run {
        return Some(FixResult { removed: removal_names(unused), failed: Vec::new() });
    }
    None
}

/// The packages removed one by one: those whose command succeeded.
pub open spec fn removed_singly(names: Seq<Seq<char>>, outcomes: Seq<(bool, Seq<char>)>) -> Seq<Seq<char>>
    decreases names.len(),
{
    if names.len() == 0 {
        Seq::empty()
    } else {
        let rest = removed_singly(names.drop_last(), outcomes);
        if outcomes[names.len() - 1].0 {
            rest.push(names.last())
        } else {
            rest
        }
    }
}

/// The packages whose own command failed, with its error output.
pub open spec fn failed_singly(names: Seq<Seq<char>>, outcomes: Seq<(bool, Seq<char>)>) -> Seq<
    (Seq<char>, Seq<char>),
>
    decreases names.len(),
{
    if names.len() == 0 {
        Seq::empty()
    } else {
        let rest = failed_singly(names.drop_last(), outcomes);
        if outcomes[names.len() - 1].0 {
            rest
        } else {
            rest.push((names.last(), outcomes[names.len() - 1].1))
        }
    }
}

/// The result of running the package manager: when the command for all
/// packages succeeded every one is removed; otherwise each package was
/// tried alone, and `outcomes[i]` tells whether its command succeeded and
/// what it printed on failure.
pub fn fix_result(names: &Vec<String>, batch_ok: bool, outcomes: &Vec<(bool, String)>) -> (r: FixResult)
    requires
        batch_ok || outcomes@.len() == names@.len(),
    ensures
        batch_ok ==> r.removed.deep_view() == names.deep_view() && r.failed@.len() == 0,
        !batch_ok ==> r.removed.deep_view() == removed_singly(names.deep_view(), outcomes.deep_view())
            && r.failed.deep_view() == failed_singly(names.deep_view(), outcomes.deep_view()),
{
    let mut removed: Vec<String> = Vec::new();
    let mut failed: Vec<(String, String)> = Vec::new();
    let ghost nv = names.deep_view();
    let ghost ov = outcomes.deep_view();
    if batch_ok {
        let mut i: usize = 0;
        while i < names.len()
            invariant
                i <= nv.len(),
                nv == names.deep_view(),
                removed.deep_view() == nv.take(i as int),
            decreases nv.len() - i,
        {
            let ghost before = removed.deep_view();
            let n = names[i].clone();
            removed.push(n);
            assert(removed.deep_view() =~= before.push(nv[i as int]));
            assert(nv.take(i + 1) =~= nv.take(i as int).push(nv[i as int]));
            i = i + 1;
        }
        assert(nv.take(nv.len() as int) =~= nv);
        return FixResult { removed, failed };
    }
    let mut i: usize = 0;
    while i < names.len()
        invariant
            i <= nv.len(),
            nv == names.deep_view(),
            ov == outcomes.deep_view(),
            ov.len() == nv.len(),
            removed.deep_view() == removed_singly(nv.take(i as int), ov),
            failed.deep_view() == failed_singly(nv.take(i as int), ov),
        decreases nv.len() - i,
    {
        assert(nv.take(i + 1).drop_last() =~= nv.take(i as int));
        assert(nv.take(i + 1).last() == nv[i as int]);
        assert(outcomes@[i as int].0 == ov[i as int].0);
        if outcomes[i].0 {
            let ghost before = removed.deep_view();
            let n = names[i].clone();
            removed.push(n);
            assert(removed.deep_view() =~= before.push(nv[i as int]));
        } else {
            let ghost before = failed.deep_view();
            let item = (names[i].clone(), outcomes[i].1.clone());
            failed.push(item);
            assert(failed.deep_view() =~= before.push((nv[i as int], ov[i as int].1)));
        }
        i = i + 1;
    }
    assert(nv.take(nv.len() as int) =~= nv);
    FixResult { removed, failed }
}

/// When packages are removed one at a time, each ends up either removed or
/// failed, never both: the two lists together account for every package.
pub proof fn law_single_removals_partition_the_packages(
    names: Seq<Seq<char>>,
    outcomes: Seq<(bool, Seq<char>)>,
)
    requires
        outcomes.len() == names.len(),
    ensures
        removed_singly(names, outcomes).len() + failed_singly(names, outcomes).len() == names.len(),
        forall|i: int|
            0 <= i < names.len() ==> (#[trigger] outcomes[i].0 ==> removed_singly(names, outcomes).contains(
                names[i],
            )),
        forall|i: int|
            0 <= i < names.len() ==> (!#[trigger] outcomes[i].0 ==> failed_singly(names, outcomes).contains(
                (names[i], outcomes[i].1),
            )),
    decreases names.len(),
{
    if names.len() > 0 {
        let n = names.len() - 1;
        let pre = names.drop_last();
        let po = outcomes.drop_last();
        law_single_removals_partition_the_packages(pre, po);
        assert(removed_singly(pre, po) == removed_singly(pre, outcomes)) by {
            lemma_singly_prefix(pre, po, outcomes);
        }
        assert(failed_singly(pre, po) == failed_singly(pre, outcomes)) by {
            lemma_singly_prefix(pre, po, outcomes);
        }
        let r = removed_singly(names, outcomes);
        let f = failed_singly(names, outcomes);
        assert forall|i: int| 0 <= i < names.len() implies (#[trigger] outcomes[i].0 ==> r.contains(names[i])) by {
            if outcomes[i].0 {
                if i < n {
                    assert(po[i] == outcomes[i] && pre[i] == names[i]);
                    let k = choose|k: int|
                        0 <= k < removed_singly(pre, po).len() && removed_singly(pre, po)[k] == names[i];
                    assert(r[k] == names[i]);
                } else {
                    assert(r[r.len() - 1] == names[i]);
                }
            }
        }
        assert forall|i: int| 0 <= i < names.len() implies (!#[trigger] outcomes[i].0 ==> f.contains(
            (names[i], outcomes[i].1),
        )) by {
            if !outcomes[i].0 {
                if i < n {
                    assert(po[i] == outcomes[i] && pre[i] == names[i]);
                    let k = choose|k: int|
                        0 <= k < failed_singly(pre, po).len() && failed_singly(pre, po)[k] == (
                            names[i],
                            outcomes[i].1,
                        );
                    assert(f[k] == (names[i], outcomes[i].1));
                } else {
                    assert(f[f.len() - 1] == (names[i], outcomes[i].1));
                }
            }
        }
    }
}

/// Only the first `names.len()` outcomes matter.
proof fn lemma_singly_prefix(
    names: Seq<Seq<char>>,
    short: Seq<(bool, Seq<char>)>,
    long: Seq<(bool, Seq<char>)>,
)
    requires
        names.len() <= short.len() <= long.len(),
        forall|i: int| 0 <= i < short.len() ==> short[i] == long[i],
    ensures
        removed_singly(names, short) == removed_singly(names, long),
        failed_singly(names, short) == failed_singly(names, long),
    decreases names.len(),
{
    if names.len() > 0 {
        lemma_singly_prefix(names.drop_last(), short, long);
    }
}

} // verus!
