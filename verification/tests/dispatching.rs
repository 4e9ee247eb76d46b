use std::sync::Arc;

use threei_dispatch_bench::bpf::{
    prog_allow_all, prog_deny_all, prog_subtree_check, prog_syscall_allowlist, Insn, Program, ALLOW,
    DENY,
};
use threei_dispatch_bench::dispatch::{
    from_grate, init, leaf_calls_host, make_syscall, make_syscall_narrow, policy_ok, raw_leaf,
    register_grate, register_raw, register_raw_with_argcages, set_leaf, set_ncheck, set_policy,
    threei, try_policy, try_syscall, Action, CallArgs, Config, Leaf, Policy, Threei, EACCES, ENOSYS, P_BPF, P_GRANTS_BITS,
    P_GRANTS_HASH, P_NONE, P_SUBTREE_BITS, P_SUBTREE_WALK,
};
use threei_dispatch_bench::handler::{DashNested, Flat, HandlerTable, MutexNested};

const LEAF: u64 = 0xbeef;

fn over<T: HandlerTable>(table: T) -> Threei<T> {
    let mut t = Threei::new(Box::new(table));
    for d in 1..=4u64 {
        t.lineage.fork(d - 1, d);
    }
    t
}

fn wide<T: HandlerTable + ?Sized>(
    t: &mut Threei<T>,
    cfg: &Config,
    cage: u64,
    num: u64,
    target: u64,
    argc: u64,
) -> Action {
    make_syscall(
        t, cfg, cage, num, 0, target, 10, argc, 20, argc, 30, argc, 40, argc, 50, argc, 60, argc,
    )
}

fn args(argc: u64) -> CallArgs {
    CallArgs {
        arg1: 10,
        arg1_cageid: argc,
        arg2: 20,
        arg2_cageid: argc,
        arg3: 30,
        arg3_cageid: argc,
        arg4: 40,
        arg4_cageid: argc,
        arg5: 50,
        arg5_cageid: argc,
        arg6: 60,
        arg6_cageid: argc,
    }
}

fn of_cages(cages: [u64; 6]) -> CallArgs {
    CallArgs {
        arg1: 10,
        arg1_cageid: cages[0],
        arg2: 20,
        arg2_cageid: cages[1],
        arg3: 30,
        arg3_cageid: cages[2],
        arg4: 40,
        arg4_cageid: cages[3],
        arg5: 50,
        arg5_cageid: cages[4],
        arg6: 60,
        arg6_cageid: cages[5],
    }
}

fn ok<T: HandlerTable>(t: &Threei<T>, cfg: &Config, cage: u64, target: u64, cages: [u64; 6]) -> bool {
    let allowed = policy_ok(t, cfg, cage, 63, target, &of_cages(cages));
    assert_eq!(try_policy(t, cfg, cage, 63, target, &of_cages(cages)), Some(allowed));
    allowed
}

fn filtered(insns: Vec<Insn>) -> Config {
    let mut cfg = Config::new();
    set_policy(&mut cfg, Policy::Bpf(Arc::new(Program { insns }), true));
    cfg
}

#[test]
fn configuration_at_first_and_after_it_is_set() {
    let mut cfg = Config::new();
    assert_eq!((cfg.policy_kind, cfg.ncheck, cfg.leaf_mode), (P_NONE, 2, 0));
    assert!(cfg.bpf_prog.is_none());
    for (policy, kind) in [
        (Policy::SubtreeWalk, P_SUBTREE_WALK),
        (Policy::SubtreeBits, P_SUBTREE_BITS),
        (Policy::GrantsHash, P_GRANTS_HASH),
        (Policy::GrantsBits, P_GRANTS_BITS),
        (Policy::Bpf(Arc::new(prog_allow_all()), true), P_BPF),
        (Policy::Unchecked, P_NONE),
    ] {
        set_policy(&mut cfg, policy);
        assert_eq!(cfg.policy_kind, kind);
    }
    assert!(cfg.bpf_prog.is_some());
    set_leaf(&mut cfg, Leaf::HostSyscall);
    assert!(leaf_calls_host(&cfg));
    set_leaf(&mut cfg, Leaf::Cheap);
    assert!(!leaf_calls_host(&cfg));
    set_ncheck(&mut cfg, 6);
    assert_eq!(cfg.ncheck, 6);
}

#[test]
fn the_leaf_folds_its_arguments() {
    assert_eq!(raw_leaf(1, 0x1000, 1, 0x2000, 1, 8, 1, 0, 1, 0, 1, 0, 1), 0x3009);
    assert_eq!(raw_leaf(5, u64::MAX, 2, 0, 0, 0, 0, 0, 0, 0, 0, 0, 0), 4);
    assert_eq!(raw_leaf(0xffff_ffff, 0, 0, 0, 0, 0, 0, 0, 0, 0, 0, 0, 0), -1);
    assert_eq!(raw_leaf(1 << 32, 0, 0, 0, 0, 0, 0, 0, 0, 0, 0, 0, 0), 0);
}

#[test]
fn a_call_without_a_handler_is_enosys() {
    let mut t = over(MutexNested::new());
    let cfg = Config::new();
    assert_eq!(wide(&mut t, &cfg, 1, 63, 1, 1), Action::Return(ENOSYS));
    assert_eq!(make_syscall_narrow(&t, 1, 63, 1, 2, 3, 4, 5, 6), Action::Return(-38));
    assert_eq!(t.denied, 0);
}

#[test]
fn a_raw_call_reaches_its_leaf() {
    let mut t = over(DashNested::new());
    let cfg = Config::new();
    register_raw(&mut t, LEAF, 1, 63);
    assert_eq!(
        wide(&mut t, &cfg, 1, 63, 9, 4),
        Action::CallRaw { fnptr: LEAF, target_cageid: 9, args: args(4) }
    );
}

#[test]
fn a_grate_call_enters_its_grate() {
    let mut t = over(Flat::new());
    let cfg = Config::new();
    register_grate(&mut t, 1, 63, 100, 2);
    assert_eq!(
        wide(&mut t, &cfg, 1, 63, 9, 4),
        Action::CallGrate { grateid: 100, fnptr: 2, args: args(4) }
    );
    assert_eq!(
        from_grate(&mut t, &cfg, 1, 63, 9, [10, 4, 20, 4, 30, 4, 40, 4, 50, 4, 60, 4]),
        Action::CallGrate { grateid: 100, fnptr: 2, args: args(4) }
    );
}

#[test]
fn refused_calls_get_eacces_and_are_counted() {
    let mut t = over(MutexNested::new());
    let mut cfg = Config::new();
    register_raw(&mut t, LEAF, 2, 63);
    for policy in [
        Policy::SubtreeWalk,
        Policy::SubtreeBits,
        Policy::GrantsHash,
        Policy::GrantsBits,
        Policy::Bpf(Arc::new(prog_deny_all()), true),
    ] {
        set_policy(&mut cfg, policy);
        let before = t.denied;
        assert_eq!(wide(&mut t, &cfg, 2, 63, 1, 1), Action::Return(EACCES));
        assert_eq!(t.denied, before + 1);
    }
    set_policy(&mut cfg, Policy::Unchecked);
    assert!(matches!(wide(&mut t, &cfg, 2, 63, 1, 1), Action::CallRaw { .. }));
    assert_eq!(t.denied, 5);
}

#[test]
fn a_refused_call_needs_no_handler() {
    let mut t = over(MutexNested::new());
    let mut cfg = Config::new();
    set_policy(&mut cfg, Policy::SubtreeBits);
    assert_eq!(wide(&mut t, &cfg, 2, 99, 1, 1), Action::Return(-13));
}

#[test]
fn only_the_first_argument_cages_are_inspected() {
    let t = over(MutexNested::new());
    let mut cfg = Config::new();
    for policy in [Policy::SubtreeWalk, Policy::SubtreeBits] {
        set_policy(&mut cfg, policy);
        set_ncheck(&mut cfg, 2);
        assert!(ok(&t, &cfg, 2, 3, [2, 4, 0, 0, 0, 0]));
        assert!(!ok(&t, &cfg, 2, 3, [2, 1, 4, 4, 4, 4]));
        assert!(!ok(&t, &cfg, 2, 1, [2, 2, 2, 2, 2, 2]));
        set_ncheck(&mut cfg, 6);
        assert!(!ok(&t, &cfg, 2, 3, [2, 4, 4, 4, 4, 0]));
        set_ncheck(&mut cfg, 0);
        assert!(ok(&t, &cfg, 2, 3, [0, 0, 0, 0, 0, 0]));
    }
}

#[test]
fn grants_decide_under_the_grant_policies() {
    let mut t = over(MutexNested::new());
    let mut cfg = Config::new();
    t.grants.grant(2, 0);
    for policy in [Policy::GrantsHash, Policy::GrantsBits] {
        set_policy(&mut cfg, policy);
        assert!(ok(&t, &cfg, 2, 0, [2, 0, 9, 9, 9, 9]));
        assert!(!ok(&t, &cfg, 2, 3, [2, 2, 2, 2, 2, 2]));
    }
}

#[test]
fn a_cage_may_name_itself() {
    let t = over(MutexNested::new());
    let mut cfg = Config::new();
    for policy in
        [Policy::SubtreeWalk, Policy::SubtreeBits, Policy::GrantsHash, Policy::GrantsBits]
    {
        set_policy(&mut cfg, policy);
        assert!(ok(&t, &cfg, 3, 3, [3; 6]));
    }
}

#[test]
fn the_subtree_filter_decides_as_the_subtree_policies() {
    let t = over(MutexNested::new());
    for (bits, policy) in [(true, Policy::SubtreeBits), (false, Policy::SubtreeWalk)] {
        let mut by_policy = Config::new();
        set_policy(&mut by_policy, policy);
        let mut by_filter = Config::new();
        set_policy(&mut by_filter, Policy::Bpf(Arc::new(prog_subtree_check(2)), bits));
        for target in 0..=4u64 {
            for argc in 0..=4u64 {
                let inside = target >= 2 && argc >= 2;
                assert_eq!(ok(&t, &by_policy, 2, target, [argc; 6]), inside);
                assert_eq!(ok(&t, &by_filter, 2, target, [argc; 6]), inside);
            }
        }
    }
}

#[test]
fn a_filter_that_denies_a_syscall_sees_its_number() {
    let mut t = over(MutexNested::new());
    register_raw(&mut t, LEAF, 1, 63);
    register_raw(&mut t, LEAF, 1, 64);
    let cfg = filtered(vec![
        Insn::LdSyscall,
        Insn::JeqK { k: 63, jt: 0, jf: 1 },
        Insn::Ret(DENY),
        Insn::Ret(ALLOW),
    ]);
    assert_eq!(wide(&mut t, &cfg, 1, 63, 1, 0), Action::Return(EACCES));
    assert_eq!(t.denied, 1);
    assert!(matches!(wide(&mut t, &cfg, 1, 64, 1, 0), Action::CallRaw { fnptr: LEAF, .. }));
    assert_eq!(t.denied, 1);
}

#[test]
fn an_allowlist_filter_lets_listed_calls_through() {
    let t = over(MutexNested::new());
    let mut cfg = Config::new();
    set_policy(&mut cfg, Policy::Bpf(Arc::new(prog_syscall_allowlist(&[3, 63])), true));
    for num in [0u64, 3, 62, 63, 64] {
        let listed = num == 3 || num == 63;
        assert_eq!(policy_ok(&t, &cfg, 1, num, 1, &args(1)), listed);
    }
}

#[test]
fn a_filter_sees_the_whole_call() {
    let t = over(MutexNested::new());
    let equals = |load: Insn, k: u64| {
        filtered(vec![load, Insn::JeqK { k, jt: 0, jf: 1 }, Insn::Ret(ALLOW), Insn::Ret(DENY)])
    };
    let cages = [1, 2, 3, 4, 5, 6];
    assert!(ok(&t, &equals(Insn::LdSelf, 2), 2, 9, cages));
    assert!(ok(&t, &equals(Insn::LdTarget, 9), 2, 9, cages));
    assert!(ok(&t, &equals(Insn::LdSyscall, 63), 2, 9, cages));
    for i in 0..6u8 {
        assert!(ok(&t, &equals(Insn::LdArgCage(i), 1 + i as u64), 2, 9, cages));
        assert!(ok(&t, &equals(Insn::LdArg(i), 10 + 10 * i as u64), 2, 9, cages));
        assert!(!ok(&t, &equals(Insn::LdArg(i), 0), 2, 9, cages));
    }
}

#[test]
fn calls_that_cannot_be_decided() {
    let mut t = over(Flat::new());
    register_raw(&mut t, LEAF, 1, 63);
    let mut cfg = Config::new();
    let try_call = |t: &Threei<Flat>, cfg: &Config, cage: u64, num: u64, target: u64| {
        try_syscall(t, cfg, cage, num, target, &args(1))
    };
    assert!(matches!(try_call(&t, &cfg, 1, 63, 9999), Some(Action::CallRaw { .. })));
    assert_eq!(try_call(&t, &cfg, 1, 600, 1), None);
    assert_eq!(try_call(&t, &cfg, 2, 600, 1), Some(Action::Return(ENOSYS)));
    assert_eq!(try_call(&t, &cfg, 1024, 63, 1), None);
    set_ncheck(&mut cfg, 7);
    assert!(try_call(&t, &cfg, 1, 63, 1).is_some());
    for policy in [Policy::SubtreeWalk, Policy::SubtreeBits, Policy::GrantsHash, Policy::GrantsBits] {
        set_policy(&mut cfg, policy);
        set_ncheck(&mut cfg, 7);
        assert_eq!(try_call(&t, &cfg, 1, 63, 1), None);
        set_ncheck(&mut cfg, 2);
        assert!(try_call(&t, &cfg, 1, 63, 1).is_some());
    }
    set_policy(&mut cfg, Policy::GrantsBits);
    assert_eq!(try_call(&t, &cfg, 1, 63, 9999), None);
    set_policy(&mut cfg, Policy::GrantsHash);
    assert_eq!(try_call(&t, &cfg, 1, 63, 9999), Some(Action::Return(EACCES)));
    for insns in [
        vec![Insn::LdSelf],
        vec![Insn::LdArg(6), Insn::Ret(ALLOW)],
        vec![Insn::JeqK { k: 0, jt: 9, jf: 9 }, Insn::Ret(ALLOW)],
    ] {
        assert_eq!(try_call(&t, &filtered(insns), 1, 63, 1), None);
    }
    let helper = vec![Insn::LdTarget, Insn::CallInSubtree, Insn::Ret(ALLOW)];
    assert_eq!(try_call(&t, &filtered(helper), 1, 63, 9999), None);
    cfg.policy_kind = P_BPF;
    cfg.bpf_prog = None;
    assert_eq!(try_call(&t, &cfg, 1, 63, 1), None);
    // a ring of parents that the walk never leaves
    t.lineage.fork(11, 10);
    t.lineage.fork(10, 11);
    set_policy(&mut cfg, Policy::SubtreeWalk);
    assert_eq!(try_call(&t, &cfg, 1, 63, 10), None);
}

#[test]
fn the_first_dispatcher_stays() {
    let mut place: Option<Threei<MutexNested>> = None;
    init(&mut place, Box::new(MutexNested::new()));
    assert_eq!(place.as_ref().unwrap().denied, 0);
    let t = place.as_mut().unwrap();
    register_raw(t, LEAF, 1, 63);
    t.lineage.fork(0, 1);
    t.grants.grant(1, 2);
    t.denied = 7;
    init(&mut place, Box::new(MutexNested::new()));
    let t = threei(&place);
    assert_eq!(t.table.get(1, 63).unwrap().fnptr, LEAF);
    assert!(t.lineage.in_subtree_bits(0, 1));
    assert!(t.grants.allowed_hash(1, 2));
    assert_eq!(t.denied, 7);
}

fn assert_pinned<T: HandlerTable>(table: T) {
    let mut t = over(table);
    register_raw_with_argcages(&mut t, LEAF, 3, 63, [1, 2, 3, 4, 5, 6]);
    assert_eq!(
        make_syscall_narrow(&t, 3, 63, 10, 20, 30, 40, 50, 60),
        Action::CallRaw { fnptr: LEAF, target_cageid: 3, args: of_cages([1, 2, 3, 4, 5, 6]) }
    );
}

#[test]
fn narrow_calls_carry_the_pinned_cages() {
    assert_pinned(MutexNested::new());
    assert_pinned(DashNested::new());
    assert_pinned(Flat::new());
}

#[test]
fn a_narrow_call_folds_its_pinned_cage() {
    let mut t = over(MutexNested::new());
    register_raw_with_argcages(&mut t, LEAF, 1, 63, [7, 0, 0, 0, 0, 0]);
    match make_syscall_narrow(&t, 1, 63, 0x10, 0, 0, 0, 0, 0) {
        Action::CallRaw { target_cageid, args: a, .. } => {
            let r = raw_leaf(
                target_cageid, a.arg1, a.arg1_cageid, a.arg2, a.arg2_cageid, a.arg3, a.arg3_cageid,
                a.arg4, a.arg4_cageid, a.arg5, a.arg5_cageid, a.arg6, a.arg6_cageid,
            );
            assert_eq!(r, 22);
        }
        other => panic!("{other:?}"),
    }
}

#[test]
fn narrow_and_wide_calls_agree() {
    let mut t = over(Flat::new());
    let cfg = Config::new();
    register_grate(&mut t, 3, 64, 101, 3);
    register_raw_with_argcages(&mut t, LEAF, 3, 63, [7; 6]);
    assert_eq!(
        make_syscall_narrow(&t, 3, 63, 10, 20, 30, 40, 50, 60),
        wide(&mut t, &cfg, 3, 63, 3, 7)
    );
    assert_eq!(
        make_syscall_narrow(&t, 3, 64, 10, 20, 30, 40, 50, 60),
        wide(&mut t, &cfg, 3, 64, 3, 0)
    );
}

#[test]
fn a_dispatcher_over_a_boxed_table() {
    let table: Box<dyn HandlerTable> = Box::new(MutexNested::new());
    let mut t: Threei<dyn HandlerTable> = Threei::new(table);
    register_raw(&mut t, LEAF, 1, 63);
    let cfg = Config::new();
    assert!(matches!(wide(&mut t, &cfg, 1, 63, 1, 1), Action::CallRaw { fnptr: LEAF, .. }));
}
