use threei_dispatch_bench::bpf::{
    prog_allow_all, prog_deny_all, prog_subtree_check, prog_syscall_allowlist, Ctx, Insn, Outcome,
    Program,
    ALLOW, DENY,
};
use threei_dispatch_bench::cage::Lineage;

fn ctx(lineage: &Lineage, syscall_num: u64, target: u64, argc: u64) -> Ctx<'_> {
    Ctx {
        self_cage: 1,
        target_cage: target,
        syscall_num,
        args: [10, 11, 12, 13, 14, 15],
        arg_cageids: [argc; 6],
        lineage,
    }
}

fn line(n: u64) -> Lineage {
    let mut l = Lineage::new();
    for d in 1..=n {
        l.fork(d - 1, d);
    }
    l
}

fn refusal(insns: Vec<Insn>) -> String {
    Program { insns }.verify().unwrap_err()
}

#[test]
fn constant_filters() {
    let l = Lineage::new();
    assert_eq!(prog_allow_all().run(&ctx(&l, 63, 1, 1), true), ALLOW);
    assert_eq!(prog_deny_all().run(&ctx(&l, 63, 1, 1), true), DENY);
    assert!(prog_allow_all().verify().is_ok());
    assert!(prog_deny_all().verify().is_ok());
}

#[test]
fn an_empty_program_is_refused() {
    assert_eq!(refusal(vec![]), "empty program");
}

#[test]
fn a_program_that_is_too_long_is_refused() {
    assert_eq!(refusal(vec![Insn::Ret(ALLOW); 4097]), "program too long");
    assert!(Program { insns: vec![Insn::Ret(ALLOW); 4096] }.verify().is_ok());
}

#[test]
fn a_jump_out_of_the_program_is_refused() {
    assert_eq!(
        refusal(vec![Insn::LdSyscall, Insn::JeqK { k: 1, jt: 0, jf: 1 }, Insn::Ret(ALLOW)]),
        "insn 1: jump out of range"
    );
    assert_eq!(
        refusal(vec![Insn::JgtK { k: 1, jt: 255, jf: 0 }, Insn::Ret(ALLOW)]),
        "insn 0: jump out of range"
    );
}

#[test]
fn an_argument_that_no_call_has_is_refused() {
    assert_eq!(
        refusal(vec![Insn::LdArg(5), Insn::LdArgCage(6), Insn::Ret(ALLOW)]),
        "insn 1: bad arg index"
    );
    assert_eq!(refusal(vec![Insn::LdArg(6), Insn::Ret(ALLOW)]), "insn 0: bad arg index");
}

#[test]
fn a_program_has_to_end_in_ret() {
    assert_eq!(refusal(vec![Insn::Ret(ALLOW), Insn::LdSelf]), "program must end in Ret");
}

#[test]
fn instructions_do_what_they_say() {
    let l = Lineage::new();
    let c = ctx(&l, 63, 4, 5);
    let run = |load: Insn, mask: u64, k: u64| {
        Program {
            insns: vec![
                load,
                Insn::AndK(mask),
                Insn::JeqK { k, jt: 0, jf: 1 },
                Insn::Ret(7),
                Insn::Ret(9),
            ],
        }
        .run(&c, false)
    };
    let all = u64::MAX;
    assert_eq!(run(Insn::LdSyscall, all, 63), 7);
    assert_eq!(run(Insn::LdSyscall, 1, 1), 7);
    assert_eq!(run(Insn::LdSelf, all, 1), 7);
    assert_eq!(run(Insn::LdTarget, all, 4), 7);
    assert_eq!(run(Insn::LdArgCage(5), all, 5), 7);
    assert_eq!(run(Insn::LdArg(2), all, 12), 7);
    assert_eq!(run(Insn::LdArg(2), all, 13), 9);
    let gt = |k: u64| {
        Program {
            insns: vec![
                Insn::LdSyscall,
                Insn::JgtK { k, jt: 1, jf: 0 },
                Insn::Ret(0),
                Insn::Ret(1),
            ],
        }
        .run(&c, false)
    };
    assert_eq!(gt(62), 1);
    assert_eq!(gt(63), 0);
}

#[test]
fn the_allowlist_denies_what_is_not_listed() {
    let l = Lineage::new();
    let p = prog_syscall_allowlist(&[0, 1, 2, 3, 4, 5, 6, 7]);
    assert!(p.verify().is_ok());
    for n in 0..8u64 {
        assert_eq!(p.run(&ctx(&l, n, 1, 1), true), ALLOW);
    }
    assert_eq!(p.run(&ctx(&l, 8, 1, 1), true), DENY);
    assert_eq!(p.run(&ctx(&l, 63, 1, 1), true), DENY);
}

#[test]
fn the_shape_of_an_allowlist() {
    let p = prog_syscall_allowlist(&[4, 9]);
    assert_eq!(
        p.insns,
        vec![
            Insn::LdSyscall,
            Insn::JeqK { k: 4, jt: 1, jf: 0 },
            Insn::JeqK { k: 9, jt: 0, jf: 1 },
            Insn::Ret(ALLOW),
            Insn::Ret(DENY),
        ]
    );
}

#[test]
fn an_empty_allowlist_denies_everything() {
    let l = Lineage::new();
    let p = prog_syscall_allowlist(&[]);
    assert!(p.verify().is_ok());
    assert_eq!(p.run(&ctx(&l, 0, 1, 1), true), DENY);
}

#[test]
fn a_long_allowlist_still_reaches_its_verdict() {
    let l = Lineage::new();
    let listed: Vec<u64> = (0..1000).map(|i| 2 * i).collect();
    let p = prog_syscall_allowlist(&listed);
    assert!(p.verify().is_ok());
    assert_eq!(p.run(&ctx(&l, 0, 1, 1), true), ALLOW);
    assert_eq!(p.run(&ctx(&l, 510, 1, 1), true), ALLOW);
    assert_eq!(p.run(&ctx(&l, 512, 1, 1), true), ALLOW);
    assert_eq!(p.run(&ctx(&l, 1998, 1, 1), true), ALLOW);
    assert_eq!(p.run(&ctx(&l, 1999, 1, 1), true), DENY);
}

#[test]
fn the_subtree_filter_checks_target_and_arguments() {
    let l = line(4);
    let p = prog_subtree_check(2);
    assert_eq!(p.insns.len(), 13);
    assert!(p.verify().is_ok());
    for bits in [true, false] {
        assert_eq!(p.run(&ctx(&l, 63, 3, 4), bits), ALLOW);
        assert_eq!(p.run(&ctx(&l, 63, 1, 1), bits), ALLOW);
        assert_eq!(p.run(&ctx(&l, 63, 0, 4), bits), DENY);
        assert_eq!(p.run(&ctx(&l, 63, 3, 0), bits), DENY);
    }
}

#[test]
fn the_subtree_filter_is_accepted_up_to_six_arguments() {
    assert!(prog_subtree_check(0).verify().is_ok());
    assert!(prog_subtree_check(6).verify().is_ok());
    assert_eq!(prog_subtree_check(7).verify().unwrap_err(), "insn 28: bad arg index");
}

#[test]
fn every_end_of_a_run() {
    let l = line(4);
    let end = |insns: Vec<Insn>, target: u64| {
        let p = Program { insns };
        let end = p.try_run(&ctx(&l, 63, target, 1), true);
        assert_eq!(matches!(end, Outcome::HelperFault), target >= 1024);
        end
    };
    assert!(matches!(end(vec![Insn::Ret(5)], 1), Outcome::Returned(5)));
    assert!(matches!(end(vec![], 1), Outcome::LeftProgram));
    assert!(matches!(end(vec![Insn::LdSelf], 1), Outcome::LeftProgram));
    let out = vec![Insn::JgtK { k: 0, jt: 0, jf: 1 }, Insn::Ret(0)];
    assert!(matches!(end(out, 1), Outcome::LeftProgram));
    assert!(matches!(end(vec![Insn::LdArg(6)], 1), Outcome::NoSuchArg));
    assert!(matches!(end(vec![Insn::LdArgCage(6)], 1), Outcome::NoSuchArg));
    let ask = vec![Insn::LdTarget, Insn::CallInSubtree, Insn::Ret(0)];
    assert!(matches!(end(ask.clone(), 2), Outcome::Returned(0)));
    assert!(matches!(end(ask, 1024), Outcome::HelperFault));
}

#[test]
fn an_accepted_program_returns_in_a_tree() {
    let l = line(4);
    let p = prog_subtree_check(6);
    assert!(p.verify().is_ok());
    for bits in [true, false] {
        for target in [0u64, 1, 4, 5, 1023] {
            let c = ctx(&l, 63, target, 1);
            let end = p.try_run(&c, bits);
            assert!(matches!(end, Outcome::Returned(v) if v == p.run(&c, bits)));
        }
    }
}
