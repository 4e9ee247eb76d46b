use std::sync::Arc;

use threei_dispatch_bench::bpf::prog_subtree_check;
use threei_dispatch_bench::cli::{keep, parse_args, table_kind, Args, Parsed, TableKind, HELP};
use threei_dispatch_bench::dispatch::{
    policy_ok, set_policy, Action, CallArgs, Config, Leaf, Policy, Threei, EACCES,
};
use threei_dispatch_bench::handler::{Flat, HandlerTable, MutexNested};
use threei_dispatch_bench::runner::{call16, call_args, set_up, CALLNUM, SELF_CAGE};

fn parse(words: &[&str]) -> Parsed {
    let argv: Vec<String> = words.iter().map(|w| w.to_string()).collect();
    parse_args(&argv)
}

fn run(words: &[&str]) -> Args {
    match parse(words) {
        Parsed::Run(a) => a,
        _ => panic!("{words:?}"),
    }
}

#[test]
fn defaults() {
    let a = run(&[]);
    assert_eq!((a.trials, a.depth, a.ncheck, a.leaf), (9, 3, 2, Leaf::Cheap));
    assert_eq!(a.table, "mutex");
    assert_eq!(a.grates, vec![1, 2, 3]);
    assert_eq!(a.threads, vec![1, 2, 4, 8]);
    assert!(a.only.is_none() && a.csv.is_none());
}

#[test]
fn every_flag() {
    let a = run(&[
        "--trials", "5", "--depth", "+7", "--ncheck", "6", "--leaf", "syscall", "--table", "flat",
        "--grates", "4,5", "--threads", "16", "--only", "lookup", "--csv", "out.csv",
    ]);
    assert_eq!((a.trials, a.depth, a.ncheck, a.leaf), (5, 7, 6, Leaf::HostSyscall));
    assert_eq!(a.table, "flat");
    assert_eq!(a.grates, vec![4, 5]);
    assert_eq!(a.threads, vec![16]);
    assert_eq!(a.only.as_deref(), Some("lookup"));
    assert_eq!(a.csv.as_deref(), Some("out.csv"));
}

#[test]
fn the_last_flag_wins_and_any_other_leaf_is_cheap() {
    let a = run(&["--leaf", "syscall", "--trials", "1", "--leaf", "no", "--trials", "2"]);
    assert_eq!((a.trials, a.leaf), (2, Leaf::Cheap));
}

#[test]
fn a_flag_at_the_end_has_no_value() {
    let a = run(&["--only"]);
    assert_eq!(a.only.as_deref(), Some(""));
    assert_eq!(run(&["--table"]).table, "");
    assert!(matches!(parse(&["--trials"]), Parsed::BadValue(f) if f == "--trials"));
}

#[test]
fn a_value_may_look_like_a_flag() {
    let a = run(&["--only", "--help"]);
    assert_eq!(a.only.as_deref(), Some("--help"));
}

#[test]
fn bad_values() {
    for flag in ["--trials", "--depth", "--ncheck", "--grates", "--threads"] {
        assert!(matches!(parse(&[flag, "x"]), Parsed::BadValue(f) if f == flag));
        assert!(matches!(parse(&[flag, "-1"]), Parsed::BadValue(f) if f == flag));
        assert!(
            matches!(parse(&[flag, "18446744073709551616"]), Parsed::BadValue(f) if f == flag)
        );
    }
}

#[test]
fn help_and_unknown_flags_end_the_command_line() {
    assert!(matches!(parse(&["-h"]), Parsed::Help));
    assert!(matches!(parse(&["--trials", "3", "--help", "--bogus"]), Parsed::Help));
    assert!(matches!(parse(&["--bogus", "-h"]), Parsed::UnknownFlag(f) if f == "--bogus"));
    assert!(matches!(parse(&["5"]), Parsed::UnknownFlag(f) if f == "5"));
    assert!(HELP.starts_with("threei-dispatch-bench\n\n--trials N "));
    assert!(HELP.ends_with("also write results as CSV\n"));
}

#[test]
fn table_names() {
    assert_eq!(table_kind(&"dash".to_string()), TableKind::DashNested);
    assert_eq!(table_kind(&"flat".to_string()), TableKind::Flat);
    assert_eq!(table_kind(&"mutex".to_string()), TableKind::MutexNested);
    assert_eq!(table_kind(&"".to_string()), TableKind::MutexNested);
}

#[test]
fn scenarios_are_selected_by_a_part_of_their_name() {
    assert!(keep(&None, "anything"));
    assert!(keep(&Some("flat".to_string()), "lookup/flat-array"));
    assert!(!keep(&Some("dash".to_string()), "lookup/flat-array"));
    assert!(keep(&Some(String::new()), "lookup/flat-array"));
}

#[test]
fn the_set_up_tree() {
    let mut t = Threei::new(Box::new(MutexNested::new()));
    set_up(&mut t, 0xbeef, 3);
    for d in 0..=3u64 {
        assert!(t.lineage.in_subtree_bits(SELF_CAGE, SELF_CAGE + d));
        assert!(t.lineage.in_subtree_walk(SELF_CAGE, SELF_CAGE + d));
        assert_eq!(t.lineage.depth_of(SELF_CAGE + d) as u64, 1 + d);
        assert!(t.grants.allowed_hash(SELF_CAGE, SELF_CAGE + d));
        assert!(t.grants.allowed_bits(SELF_CAGE, SELF_CAGE + d));
    }
    assert!(!t.lineage.in_subtree_bits(SELF_CAGE, SELF_CAGE + 4));
    assert!(!t.grants.allowed_hash(SELF_CAGE, SELF_CAGE + 4));
    assert!(!t.lineage.in_subtree_walk(SELF_CAGE, 0));
    assert_eq!(t.table.get(SELF_CAGE, CALLNUM).unwrap().fnptr, 0xbeef);
}

#[test]
fn the_scenarios_are_allowed() {
    let mut t = Threei::new(Box::new(Flat::new()));
    set_up(&mut t, 0xbeef, 5);
    let mut cfg = Config::new();
    for policy in [
        Policy::Unchecked,
        Policy::SubtreeWalk,
        Policy::SubtreeBits,
        Policy::GrantsHash,
        Policy::GrantsBits,
        Policy::Bpf(Arc::new(prog_subtree_check(2)), true),
    ] {
        set_policy(&mut cfg, policy);
        for d in 0..=5u64 {
            let target = SELF_CAGE + d;
            assert!(policy_ok(&t, &cfg, SELF_CAGE, CALLNUM, target, &call_args(target)));
        }
    }
}

#[test]
fn the_call_of_the_scenarios() {
    let mut t = Threei::new(Box::new(MutexNested::new()));
    set_up(&mut t, 0xbeef, 3);
    let mut cfg = Config::new();
    let want = CallArgs {
        arg1: 0x1000,
        arg1_cageid: 4,
        arg2: 0x2000,
        arg2_cageid: 4,
        arg3: 8,
        arg3_cageid: 4,
        arg4: 0,
        arg4_cageid: 4,
        arg5: 0,
        arg5_cageid: 4,
        arg6: 0,
        arg6_cageid: 4,
    };
    assert_eq!(
        call16(&mut t, &cfg, SELF_CAGE, 2, 4),
        Action::CallRaw { fnptr: 0xbeef, target_cageid: 2, args: want }
    );
    set_policy(&mut cfg, Policy::GrantsBits);
    assert_eq!(call16(&mut t, &cfg, SELF_CAGE, 9, 9), Action::Return(EACCES));
    assert_eq!(t.denied, 1);
}
