//! What the runner sets up before it measures: the tree of cages, the grants and the
//! handler, and the call that the scenarios make.
use vstd::prelude::*;

use crate::cage::{Grants, Lineage};
use crate::dispatch::{make_syscall, register_raw, Action, CallArgs, Config, Threei};
use crate::handler::{HandlerTable, MAX_CAGES};

verus! {

/// The syscall that the scenarios make.
pub const CALLNUM: u64 = 63;

/// The cage that the scenarios call from.
pub const SELF_CAGE: u64 = 1;

/// The arguments of the scenarios' call, all of cage `argc`.
pub open spec fn scenario_args(argc: u64) -> CallArgs {
    CallArgs {
        arg1: 0x1000,
        arg1_cageid: argc,
        arg2: 0x2000,
        arg2_cageid: argc,
        arg3: 8,
        arg3_cageid: argc,
        arg4: 0,
        arg4_cageid: argc,
        arg5: 0,
        arg5_cageid: argc,
        arg6: 0,
        arg6_cageid: argc,
    }
}

/// The arguments of the scenarios' call, all of cage `argc`.
pub fn call_args(argc: u64) -> (args: CallArgs)
    ensures
        args == scenario_args(argc),
{
    CallArgs {
        arg1: 0x1000,
        arg1_cageid: argc,
        arg2: 0x2000,
        arg2_cageid: argc,
        arg3: 8,
        arg3_cageid: argc,
        arg4: 0,
        arg4_cageid: argc,
        arg5: 0,
        arg5_cageid: argc,
        arg6: 0,
        arg6_cageid: argc,
    }
}

/// Decides the scenarios' call, with all six argument cage ids `argc`.
pub fn call16<T: HandlerTable + ?Sized>(
    t: &mut Threei<T>,
    cfg: &Config,
    self_cage: u64,
    target: u64,
    argc: u64,
) -> (action: Action)
    requires
        crate::dispatch::call_ready(old(t), cfg, self_cage, CALLNUM, target, scenario_args(argc)),
    ensures
        action == crate::dispatch::decided(
            old(t),
            cfg,
            self_cage,
            CALLNUM,
            target,
            scenario_args(argc),
        ),
        crate::dispatch::counted(
            *old(t),
            *final(t),
            !crate::dispatch::policy_allows(
                old(t),
                cfg,
                self_cage,
                CALLNUM,
                target,
                scenario_args(argc),
            ),
        ),
{
    let a: CallArgs = call_args(argc);
    make_syscall(
        t,
        cfg,
        self_cage,
        CALLNUM,
        0,
        target,
        a.arg1,
        a.arg1_cageid,
        a.arg2,
        a.arg2_cageid,
        a.arg3,
        a.arg3_cageid,
        a.arg4,
        a.arg4_cageid,
        a.arg5,
        a.arg5_cageid,
        a.arg6,
        a.arg6_cageid,
    )
}

/// `c` is one of the first `n` cages below cage 0 in the scenarios' tree.
pub open spec fn in_line(n: nat, c: int) -> bool {
    SELF_CAGE <= c < SELF_CAGE + n
}

/// The cages from 0 down to `c` in the scenarios' tree.
pub open spec fn line_to(c: int) -> Set<u64> {
    Set::new(|x: u64| x <= c)
}

/// The first `n` cages of the scenarios' tree are there: a line from cage 0 down,
/// with each cage the child of the one before it.
pub open spec fn line_of(l: Lineage, n: nat) -> bool {
    &&& l.wf()
    &&& l.tree()
    &&& forall|c: int|
        0 <= c < MAX_CAGES ==> #[trigger] l.parents()[c] == (if in_line(n, c) {
            (c - 1) as u64
        } else {
            crate::cage::NO_PARENT
        })
    &&& forall|c: int|
        0 <= c < MAX_CAGES ==> #[trigger] l.depths()[c] == (if in_line(n, c) {
            c
        } else {
            0
        })
    &&& forall|c: int|
        0 <= c < MAX_CAGES ==> #[trigger] l.rows()[c] == (if c == 0 || in_line(n, c) {
            line_to(c)
        } else {
            Set::empty()
        })
}

/// The first `n` cages of the line.
pub open spec fn line_set(n: nat) -> Set<u64> {
    Set::new(|x: u64| in_line(n, x as int))
}

/// The calling cage holds grants on the first `n` cages of the line, and nobody
/// holds any other.
pub open spec fn granted_line(g: Grants, n: nat) -> bool {
    &&& g.wf()
    &&& forall|h: int|
        0 <= h < MAX_CAGES ==> #[trigger] g.granted()[h] == (if h == SELF_CAGE {
            line_set(n)
        } else {
            Set::empty()
        })
}

/// Makes the tree of cages, `depth` levels below the calling cage.
fn fork_line(l: &mut Lineage, depth: u64)
    requires
        old(l).wf(),
        old(l).tree(),
        old(l).initial(),
        SELF_CAGE + depth < MAX_CAGES,
    ensures
        line_of(*final(l), (depth + 1) as nat),
{
    assert(set![0u64] =~= line_to(0));
    let mut d: u64 = 0;
    while d <= depth
        invariant
            d <= depth + 1,
            SELF_CAGE + depth < MAX_CAGES,
            line_of(*l, d as nat),
        decreases depth + 1 - d,
    {
        let parent: u64 = if d == 0 {
            0
        } else {
            SELF_CAGE + d - 1
        };
        let child: u64 = SELF_CAGE + d;
        let ghost before = *l;
        l.fork(parent, child);
        proof {
            crate::cage::law_fork_keeps_tree(before, *l, parent, child);
            assert(line_to(parent as int).insert(child) =~= line_to(child as int));
        }
        d = d + 1;
    }
}

/// Grants the calling cage every cage of the line.
fn grant_line(g: &mut Grants, depth: u64)
    requires
        old(g).wf(),
        old(g).initial(),
        SELF_CAGE + depth < MAX_CAGES,
    ensures
        granted_line(*final(g), (depth + 1) as nat),
{
    let mut d: u64 = 0;
    assert(Set::<u64>::empty() =~= line_set(0));
    while d <= depth
        invariant
            d <= depth + 1,
            SELF_CAGE + depth < MAX_CAGES,
            granted_line(*g, d as nat),
        decreases depth + 1 - d,
    {
        g.grant(SELF_CAGE, SELF_CAGE + d);
        d = d + 1;
        assert(line_set((d - 1) as nat).insert((SELF_CAGE + d - 1) as u64) =~= line_set(d as nat));
    }
}

/// Makes the tree of cages, `depth` levels below the calling cage, grants the calling
/// cage all of them, and lets the host function at `leaf` serve its call.
pub fn set_up<T: HandlerTable + ?Sized>(t: &mut Threei<T>, leaf: u64, depth: u64)
    requires
        old(t).wf(),
        old(t).lineage.tree(),
        old(t).lineage.initial(),
        old(t).grants.initial(),
        SELF_CAGE + depth < MAX_CAGES,
        old(t).table.can_register(SELF_CAGE, CALLNUM),
    ensures
        final(t).wf(),
        line_of(final(t).lineage, (depth + 1) as nat),
        granted_line(final(t).grants, (depth + 1) as nat),
        final(t).denied == old(t).denied,
        final(t).table.lookup(SELF_CAGE, CALLNUM) == Some(
            old(t).table.recorded(
                crate::dispatch::raw_handler(leaf, crate::handler::unpinned()),
            ),
        ),
        forall|c: u64, n: u64|
            !(c == SELF_CAGE && n == CALLNUM) ==> #[trigger] final(t).table.lookup(c, n) == old(
                t,
            ).table.lookup(c, n),
        forall|c: u64, n: u64| #[trigger]
            final(t).table.can_register(c, n) == old(t).table.can_register(c, n),
        forall|c: u64, n: u64| #[trigger]
            final(t).table.can_get(c, n) == (if c == SELF_CAGE {
                old(t).table.can_register(c, n)
            } else {
                old(t).table.can_get(c, n)
            }),
        forall|h: crate::handler::Handler| #[trigger]
            final(t).table.recorded(h) == old(t).table.recorded(h),
        crate::handler::same_route(
            crate::dispatch::raw_handler(leaf, crate::handler::unpinned()),
            old(t).table.recorded(
                crate::dispatch::raw_handler(leaf, crate::handler::unpinned()),
            ),
        ),
{
    fork_line(&mut t.lineage, depth);
    grant_line(&mut t.grants, depth);
    register_raw(t, leaf, SELF_CAGE, CALLNUM);
}

/// In the scenarios' tree every policy on subtrees and grants lets the calling cage
/// name any cage of the line.
pub proof fn law_scenarios_are_allowed<T: HandlerTable + ?Sized>(
    t: &Threei<T>,
    cfg: &Config,
    n: nat,
    target: u64,
)
    requires
        SELF_CAGE + n <= MAX_CAGES,
        line_of(t.lineage, n),
        granted_line(t.grants, n),
        in_line(n, target as int),
        cfg.policy_kind != crate::dispatch::P_BPF,
        cfg.ncheck <= 6,
    ensures
        crate::dispatch::policy_allows(t, cfg, SELF_CAGE, CALLNUM, target, scenario_args(target)),
{
    let cages = crate::dispatch::arg_cages(scenario_args(target))@;
    let ids = crate::cage::checked_ids(target, cages, cfg.ncheck as nat);
    assert forall|i: int| 0 <= i < ids.len() implies #[trigger] ids[i] == target by {
        if i > 0 {
            assert(ids[i] == cages[i - 1]);
        }
    }
    assert(t.lineage.rows()[target as int].contains(SELF_CAGE));
    crate::cage::law_bits_are_ancestors(t.lineage, SELF_CAGE, target);
}

/// The call of the scenarios: the arguments of a read, all six of one cage.
pub proof fn law_scenario_arguments(argc: u64, i: int)
    requires
        0 <= i < 6,
    ensures
        crate::dispatch::arg_words(scenario_args(argc))@ == seq![0x1000u64, 0x2000, 8, 0, 0, 0],
        crate::dispatch::arg_cages(scenario_args(argc))@[i] == argc,
        CALLNUM == 63,
        SELF_CAGE == 1,
{
    crate::dispatch::law_arguments_in_order(scenario_args(argc));
    assert(crate::dispatch::arg_words(scenario_args(argc))@ =~= seq![0x1000u64, 0x2000, 8, 0, 0, 0]);
}

/// The tree of the scenarios with `n` cages below cage 0: cage 1 is a child of cage 0, each
/// further one a child of the one before it, and there is no other cage; so a cage is in
/// the subtree of another exactly when it is no smaller.
pub proof fn law_scenario_tree_is_a_line(l: Lineage, n: nat, root: u64, cage: u64)
    requires
        1 + n <= 1024,
        line_of(l, n),
        root < 1024,
        cage < 1024,
    ensures
        l.live(cage) <==> cage <= n,
        1 <= cage <= n ==> l.parents()[cage as int] == cage - 1,
        cage == 0 || cage > n ==> l.parents()[cage as int] == u64::MAX,
        cage <= n ==> l.depths()[cage as int] == cage,
        l.row_holds(root, cage) <==> root <= cage <= n,
        cage <= n ==> (crate::cage::descends(l.parents(), root, cage) <==> root <= cage),
{
    crate::cage::law_bits_are_ancestors(l, root, cage);
    assert(l.rows()[cage as int].contains(root) <==> root <= cage <= n);
    assert(l.rows()[cage as int].contains(cage) <==> cage <= n);
}

/// In the scenarios' grants cage 1 may act on itself and on the cages of the line, and
/// every other cage on itself alone.
pub proof fn law_scenario_grants_are_the_line(g: Grants, n: nat, holder: u64, target: u64)
    requires
        1 + n <= 1024,
        granted_line(g, n),
        holder < 1024,
    ensures
        holder == 1 ==> (g.allows(holder, target) <==> target == 1 || 1 <= target <= n),
        holder != 1 ==> (g.allows(holder, target) <==> target == holder),
{
    assert(g.granted()[holder as int].contains(target) <==> holder == 1 && 1 <= target <= n);
}

} // verus!
