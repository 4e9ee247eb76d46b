//! A filter machine in the shape of seccomp-BPF: one accumulator, forward jumps
//! only, no loops.
//!
//! It can express "deny this syscall", "deny unless the argument cage is that one"
//! and "deny unless the target is in my subtree". [`Program::verify`] is paid for
//! when a filter is installed; [`Program::run`] is on the hot path.
use vstd::prelude::*;
use vstd::string::StringExecFns;

use crate::cage::Lineage;
use crate::handler::MAX_CAGES;
use crate::text::push_decimal;

verus! {

#[derive(Clone, Copy, Debug, PartialEq, Eq)]
pub enum Insn {
    /// A = syscall number
    LdSyscall,
    /// A = caller cage id
    LdSelf,
    /// A = target cage id
    LdTarget,
    /// A = arg_cageids[i]
    LdArgCage(u8),
    /// A = args[i]
    LdArg(u8),
    /// A &= k
    AndK(u64),
    /// if A == k jump +jt else jump +jf
    JeqK { k: u64, jt: u8, jf: u8 },
    /// if A > k jump +jt else jump +jf
    JgtK { k: u64, jt: u8, jf: u8 },
    /// A = 1 if cage A is in the caller's subtree, else 0
    CallInSubtree,
    Ret(i32),
}

pub const ALLOW: i32 = 0;

pub const DENY: i32 = -1;

/// The longest program that `verify` accepts.
pub const MAX_INSNS: usize = 4096;

/// What a filter can see of one call.
pub struct Ctx<'a> {
    pub self_cage: u64,
    pub target_cage: u64,
    pub syscall_num: u64,
    pub args: [u64; 6],
    pub arg_cageids: [u64; 6],
    pub lineage: &'a Lineage,
}

#[derive(Clone, Debug)]
pub struct Program {
    pub insns: Vec<Insn>,
}

/// How an execution comes to its end.
pub enum Outcome {
    /// a `Ret` was reached
    Returned(i32),
    /// the program counter left the program
    LeftProgram,
    /// a load named an argument that no call has
    NoSuchArg,
    /// the subtree helper was asked about a cage that it cannot look up
    HelperFault,
}

/// The subtree helper can answer for cage `a`.
pub open spec fn helper_ready(ctx: Ctx, use_bits: bool, a: u64) -> bool {
    if use_bits {
        ctx.self_cage < MAX_CAGES && a < MAX_CAGES
    } else {
        crate::cage::walkable(ctx.lineage.parents(), ctx.self_cage, a)
    }
}

/// Cage `a` is in the caller's subtree, by the representation asked for.
pub open spec fn in_callers_subtree(ctx: Ctx, use_bits: bool, a: u64) -> bool {
    if use_bits {
        ctx.lineage.row_holds(ctx.self_cage, a)
    } else {
        crate::cage::descends(ctx.lineage.parents(), ctx.self_cage, a)
    }
}

/// The execution of `insns` from instruction `pc` with accumulator `a`.
pub open spec fn exec_from(insns: Seq<Insn>, ctx: Ctx, use_bits: bool, pc: int, a: u64) -> Outcome
    decreases (if pc < insns.len() { insns.len() - pc } else { 0 }),
{
    if pc < 0 || pc >= insns.len() {
        Outcome::LeftProgram
    } else {
        match insns[pc] {
            Insn::LdSyscall => exec_from(insns, ctx, use_bits, pc + 1, ctx.syscall_num),
            Insn::LdSelf => exec_from(insns, ctx, use_bits, pc + 1, ctx.self_cage),
            Insn::LdTarget => exec_from(insns, ctx, use_bits, pc + 1, ctx.target_cage),
            Insn::LdArgCage(i) => if i < 6 {
                exec_from(insns, ctx, use_bits, pc + 1, ctx.arg_cageids@[i as int])
            } else {
                Outcome::NoSuchArg
            },
            Insn::LdArg(i) => if i < 6 {
                exec_from(insns, ctx, use_bits, pc + 1, ctx.args@[i as int])
            } else {
                Outcome::NoSuchArg
            },
            Insn::AndK(k) => exec_from(insns, ctx, use_bits, pc + 1, a & k),
            Insn::JeqK { k, jt, jf } => exec_from(
                insns,
                ctx,
                use_bits,
                pc + 1 + (if a == k {
                    jt
                } else {
                    jf
                }),
                a,
            ),
            Insn::JgtK { k, jt, jf } => exec_from(
                insns,
                ctx,
                use_bits,
                pc + 1 + (if a > k {
                    jt
                } else {
                    jf
                }),
                a,
            ),
            Insn::CallInSubtree => if helper_ready(ctx, use_bits, a) {
                exec_from(
                    insns,
                    ctx,
                    use_bits,
                    pc + 1,
                    if in_callers_subtree(ctx, use_bits, a) {
                        1
                    } else {
                        0
                    },
                )
            } else {
                Outcome::HelperFault
            },
            Insn::Ret(v) => Outcome::Returned(v),
        }
    }
}

/// The execution of a whole program.
pub open spec fn exec(insns: Seq<Insn>, ctx: Ctx, use_bits: bool) -> Outcome {
    exec_from(insns, ctx, use_bits, 0, 0)
}

/// A jump of instruction `i` leads out of the program.
pub open spec fn jumps_out(insns: Seq<Insn>, i: int) -> bool {
    match insns[i] {
        Insn::JeqK { jt, jf, .. } => i + 1 + jt >= insns.len() || i + 1 + jf >= insns.len(),
        Insn::JgtK { jt, jf, .. } => i + 1 + jt >= insns.len() || i + 1 + jf >= insns.len(),
        _ => false,
    }
}

/// Instruction `i` loads an argument that no call has.
pub open spec fn bad_arg(insns: Seq<Insn>, i: int) -> bool {
    match insns[i] {
        Insn::LdArg(n) => n >= 6,
        Insn::LdArgCage(n) => n >= 6,
        _ => false,
    }
}

/// Instruction `i` is fit to be run.
pub open spec fn insn_ok(insns: Seq<Insn>, i: int) -> bool {
    !jumps_out(insns, i) && !bad_arg(insns, i)
}

/// The programs that `verify` accepts.
pub open spec fn accepted(insns: Seq<Insn>) -> bool {
    &&& 0 < insns.len() <= MAX_INSNS
    &&& forall|i: int| 0 <= i < insns.len() ==> #[trigger] insn_ok(insns, i)
    &&& insns.last() is Ret
}

/// Instruction `i` is the first one unfit to be run.
pub open spec fn first_unfit(insns: Seq<Insn>, i: int) -> bool {
    &&& 0 <= i < insns.len()
    &&& !insn_ok(insns, i)
    &&& forall|j: int| 0 <= j < i ==> #[trigger] insn_ok(insns, j)
}

/// `msg` says why `insns` is refused.
pub open spec fn refusal(insns: Seq<Insn>, msg: Seq<char>) -> bool {
    if insns.len() == 0 {
        msg == "empty program"@
    } else if insns.len() > MAX_INSNS {
        msg == "program too long"@
    } else if forall|i: int| 0 <= i < insns.len() ==> #[trigger] insn_ok(insns, i) {
        insns.last() !is Ret && msg == "program must end in Ret"@
    } else {
        exists|i: int| #[trigger]
            first_unfit(insns, i) && msg == "insn "@ + crate::text::decimal(i as nat) + (
            if jumps_out(insns, i) {
                ": jump out of range"@
            } else {
                ": bad arg index"@
            })
    }
}

/// "insn `i`" and what is wrong with it.
fn insn_message(i: usize, fault: &str) -> (msg: String)
    ensures
        msg@ == "insn "@ + crate::text::decimal(i as nat) + fault@,
{
    let mut msg: String = "insn ".to_owned();
    push_decimal(&mut msg, i as u64);
    msg.append(fault);
    msg
}

impl Program {
    /// Whether every execution stays inside the program and ends in a `Ret`: jumps
    /// only lead forward and to an instruction, loads name one of the six
    /// arguments, and the last instruction is a `Ret`.
    pub fn verify(&self) -> (r: Result<(), String>)
        ensures
            r is Ok <==> accepted(self.insns@),
            r matches Err(msg) ==> refusal(self.insns@, msg@),
    {
        let ghost insns = self.insns@;
        let n: usize = self.insns.len();
        if n == 0 {
            return Err("empty program".to_owned());
        }
        if n > MAX_INSNS {
            return Err("program too long".to_owned());
        }
        let mut i: usize = 0;
        while i < n
            invariant
                insns == self.insns@,
                n == insns.len(),
                0 < n <= MAX_INSNS,
                i <= n,
                forall|j: int| 0 <= j < i ==> #[trigger] insn_ok(insns, j),
            decreases n - i,
        {
            match self.insns[i] {
                Insn::JeqK { jt, jf, .. } | Insn::JgtK { jt, jf, .. } => {
                    if i + 1 + jt as usize >= n || i + 1 + jf as usize >= n {
                        assert(first_unfit(insns, i as int));
                        return Err(insn_message(i, ": jump out of range"));
                    }
                },
                Insn::LdArg(k) | Insn::LdArgCage(k) => {
                    if k >= 6 {
                        assert(first_unfit(insns, i as int));
                        return Err(insn_message(i, ": bad arg index"));
                    }
                },
                _ => {},
            }
            assert(insn_ok(insns, i as int));
            i = i + 1;
        }
        match self.insns[n - 1] {
            Insn::Ret(_) => Ok(()),
            _ => Err("program must end in Ret".to_owned()),
        }
    }

    /// Runs the filter on one call, with the subtree helper on the ancestor rows
    /// or on the parent pointers.
    pub fn run(&self, ctx: &Ctx, use_bits: bool) -> (v: i32)
        requires
            ctx.lineage.wf(),
            exec(self.insns@, *ctx, use_bits) is Returned,
        ensures
            exec(self.insns@, *ctx, use_bits) == Outcome::Returned(v),
    {
        match self.try_run(ctx, use_bits) {
            Outcome::Returned(v) => v,
            _ => vstd::pervasive::unreached(),
        }
    }

    /// Runs the filter on one call and says how it came to its end, whatever the
    /// program is.
    pub fn try_run(&self, ctx: &Ctx, use_bits: bool) -> (end: Outcome)
        requires
            ctx.lineage.wf(),
        ensures
            end == exec(self.insns@, *ctx, use_bits),
    {
        let ghost insns = self.insns@;
        let n: usize = self.insns.len();
        let mut a: u64 = 0;
        let mut pc: usize = 0;
        while pc < n
            invariant
                insns == self.insns@,
                n == insns.len(),
                ctx.lineage.wf(),
                exec_from(insns, *ctx, use_bits, pc as int, a) == exec(insns, *ctx, use_bits),
            decreases n - pc,
        {
            let mut skip: usize = 0;
            match self.insns[pc] {
                Insn::LdSyscall => {
                    a = ctx.syscall_num;
                },
                Insn::LdSelf => {
                    a = ctx.self_cage;
                },
                Insn::LdTarget => {
                    a = ctx.target_cage;
                },
                Insn::LdArgCage(i) => {
                    if i >= 6 {
                        return Outcome::NoSuchArg;
                    }
                    a = ctx.arg_cageids[i as usize];
                },
                Insn::LdArg(i) => {
                    if i >= 6 {
                        return Outcome::NoSuchArg;
                    }
                    a = ctx.args[i as usize];
                },
                Insn::AndK(k) => {
                    a = a & k;
                },
                Insn::JeqK { k, jt, jf } => {
                    skip = if a == k {
                        jt as usize
                    } else {
                        jf as usize
                    };
                },
                Insn::JgtK { k, jt, jf } => {
                    skip = if a > k {
                        jt as usize
                    } else {
                        jf as usize
                    };
                },
                Insn::CallInSubtree => {
                    let inside: Option<bool> = if !use_bits {
                        ctx.lineage.try_in_subtree_walk(ctx.self_cage, a)
                    } else if ctx.self_cage < MAX_CAGES as u64 && a < MAX_CAGES as u64 {
                        Some(ctx.lineage.in_subtree_bits(ctx.self_cage, a))
                    } else {
                        None
                    };
                    match inside {
                        Some(true) => {
                            a = 1;
                        },
                        Some(false) => {
                            a = 0;
                        },
                        None => {
                            return Outcome::HelperFault;
                        },
                    }
                },
                Insn::Ret(v) => {
                    return Outcome::Returned(v);
                },
            }
            if skip >= n - pc - 1 {
                assert(exec_from(insns, *ctx, use_bits, pc + 1 + skip, a) is LeftProgram);
                return Outcome::LeftProgram;
            }
            pc = pc + 1 + skip;
        }
        Outcome::LeftProgram
    }
}

/// How many entries of an allowlist share one `Ret(ALLOW)`: as many as the offset
/// of a jump can skip.
pub const GROUP: usize = 256;

/// The tests of a group of allowlist entries, and the `Ret(ALLOW)` that a match
/// jumps to. After the last test a miss jumps over it.
pub open spec fn group_insns(entries: Seq<u64>) -> Seq<Insn> {
    Seq::new(
        entries.len() + 1,
        |j: int|
            if j < entries.len() {
                Insn::JeqK {
                    k: entries[j],
                    jt: (entries.len() - 1 - j) as u8,
                    jf: if j + 1 == entries.len() {
                        1
                    } else {
                        0
                    },
                }
            } else {
                Insn::Ret(ALLOW)
            },
    )
}

/// The groups of an allowlist, and the `Ret(DENY)` behind the last of them.
pub open spec fn scan_insns(entries: Seq<u64>) -> Seq<Insn>
    decreases entries.len(),
{
    if entries.len() == 0 {
        seq![Insn::Ret(DENY)]
    } else if entries.len() <= GROUP {
        group_insns(entries) + seq![Insn::Ret(DENY)]
    } else {
        group_insns(entries.take(GROUP as int)) + scan_insns(entries.skip(GROUP as int))
    }
}

/// The filter that allows the syscalls of a list.
pub open spec fn allowlist_insns(entries: Seq<u64>) -> Seq<Insn> {
    seq![Insn::LdSyscall] + scan_insns(entries)
}

/// The filter that allows a call when the target and the first `nargs` argument
/// cages are in the caller's subtree: four instructions for each of them.
pub open spec fn subtree_check_insns(nargs: nat) -> Seq<Insn> {
    Seq::new(
        4 * (nargs + 1) + 1,
        |j: int|
            if j == 4 * (nargs + 1) {
                Insn::Ret(ALLOW)
            } else if j == 0 {
                Insn::LdTarget
            } else if j % 4 == 0 {
                Insn::LdArgCage(((j / 4 - 1) % 256) as u8)
            } else if j % 4 == 1 {
                Insn::CallInSubtree
            } else if j % 4 == 2 {
                Insn::JeqK { k: 0, jt: 0, jf: 1 }
            } else {
                Insn::Ret(DENY)
            },
    )
}

/// The subtree helper can answer for each of `ids` that comes before the first one
/// outside, and for that one.
pub open spec fn checkable(ctx: Ctx, use_bits: bool, ids: Seq<u64>) -> bool {
    forall|i: int|
        0 <= i < ids.len() ==> helper_ready(ctx, use_bits, #[trigger] ids[i]) || (exists|j: int|
            0 <= j < i && !in_callers_subtree(ctx, use_bits, #[trigger] ids[j]))
}

/// Each of `ids` is in the caller's subtree.
pub open spec fn all_in_callers_subtree(ctx: Ctx, use_bits: bool, ids: Seq<u64>) -> bool {
    forall|i: int| 0 <= i < ids.len() ==> in_callers_subtree(ctx, use_bits, #[trigger] ids[i])
}

/// What a filter returns for a verdict.
pub open spec fn verdict(allow: bool) -> Outcome {
    Outcome::Returned(
        if allow {
            ALLOW
        } else {
            DENY
        },
    )
}

/// Always allow.
pub fn prog_allow_all() -> (p: Program)
    ensures
        p.insns@ == seq![Insn::Ret(ALLOW)],
        accepted(p.insns@),
        forall|ctx: Ctx, use_bits: bool| #[trigger] exec(p.insns@, ctx, use_bits) == verdict(true),
{
    let p = Program { insns: vec![Insn::Ret(ALLOW)] };
    assert(p.insns@ =~= seq![Insn::Ret(ALLOW)]);
    p
}

/// Always deny.
pub fn prog_deny_all() -> (p: Program)
    ensures
        p.insns@ == seq![Insn::Ret(DENY)],
        accepted(p.insns@),
        forall|ctx: Ctx, use_bits: bool| #[trigger] exec(p.insns@, ctx, use_bits) == verdict(false),
{
    let p = Program { insns: vec![Insn::Ret(DENY)] };
    assert(p.insns@ =~= seq![Insn::Ret(DENY)]);
    p
}

/// Allow the listed syscalls, deny every other: a linear scan of the list.
pub fn prog_syscall_allowlist(allowed: &[u64]) -> (p: Program)
    ensures
        p.insns@ == allowlist_insns(allowed@),
        accepted(p.insns@) <==> p.insns@.len() <= MAX_INSNS,
        forall|ctx: Ctx, use_bits: bool| #[trigger]
            exec(p.insns@, ctx, use_bits) == verdict(allowed@.contains(ctx.syscall_num)),
{
    let n: usize = allowed.len();
    let mut insns: Vec<Insn> = vec![Insn::LdSyscall];
    let mut done: usize = 0;
    assert(allowed@.skip(0) =~= allowed@);
    assert(insns@ =~= seq![Insn::LdSyscall]);
    while done < n
        invariant
            n == allowed@.len(),
            done <= n,
            insns@ + scan_insns(allowed@.skip(done as int)) == allowlist_insns(allowed@),
        decreases n - done,
    {
        let m: usize = if n - done < GROUP {
            n - done
        } else {
            GROUP
        };
        let ghost before = insns@;
        let ghost rest = allowed@.skip(done as int);
        let ghost entries = rest.take(m as int);
        let mut j: usize = 0;
        while j < m
            invariant
                n == allowed@.len(),
                done + m <= n,
                0 < m <= GROUP,
                j <= m,
                rest == allowed@.skip(done as int),
                entries == rest.take(m as int),
                insns@ == before + group_insns(entries).take(j as int),
            decreases m - j,
        {
            // a match jumps to the group's Ret(ALLOW), a miss goes on to the next test
            let jt: u8 = (m - 1 - j) as u8;
            let jf: u8 = if j + 1 == m {
                1
            } else {
                0
            };
            insns.push(Insn::JeqK { k: allowed[done + j], jt, jf });
            assert(insns@ =~= before + group_insns(entries).take(j as int + 1));
            j = j + 1;
        }
        insns.push(Insn::Ret(ALLOW));
        assert(insns@ =~= before + group_insns(entries));
        proof {
            assert(rest.skip(m as int) =~= allowed@.skip(done + m));
            if rest.len() <= GROUP {
                assert(entries =~= rest);
            }
            assert(scan_insns(rest) =~= group_insns(entries) + scan_insns(rest.skip(m as int)));
            assert(before + (group_insns(entries) + scan_insns(rest.skip(m as int))) =~= (before
                + group_insns(entries)) + scan_insns(rest.skip(m as int)));
        }
        done = done + m;
    }
    insns.push(Insn::Ret(DENY));
    assert(insns@ =~= allowlist_insns(allowed@));
    proof {
        let code = insns@;
        let head = seq![Insn::LdSyscall];
        lemma_scan_fit(head, allowed@);
        assert forall|i: int| 0 <= i < code.len() implies #[trigger] insn_ok(code, i) by {}
        assert forall|ctx: Ctx, use_bits: bool| #[trigger]
            exec(code, ctx, use_bits) == verdict(allowed@.contains(ctx.syscall_num)) by {
            law_allowlist_verdict(allowed@, ctx, use_bits);
        }
    }
    Program { insns }
}

/// Allow a call when the target and the first `nargs` argument cages are in the
/// caller's subtree.
pub fn prog_subtree_check(nargs: usize) -> (p: Program)
    ensures
        p.insns@ == subtree_check_insns(nargs as nat),
        accepted(p.insns@) <==> nargs <= 6,
        forall|ctx: Ctx, use_bits: bool|
            nargs <= 6 && checkable(
                ctx,
                use_bits,
                crate::cage::checked_ids(ctx.target_cage, ctx.arg_cageids@, nargs as nat),
            ) ==> #[trigger] exec(p.insns@, ctx, use_bits) == verdict(
                all_in_callers_subtree(
                    ctx,
                    use_bits,
                    crate::cage::checked_ids(ctx.target_cage, ctx.arg_cageids@, nargs as nat),
                ),
            ),
{
    let mut insns: Vec<Insn> = Vec::new();
    // target cage first
    insns.push(Insn::LdTarget);
    insns.push(Insn::CallInSubtree);
    insns.push(Insn::JeqK { k: 0, jt: 0, jf: 1 });
    insns.push(Insn::Ret(DENY));
    let ghost code = subtree_check_insns(nargs as nat);
    assert(insns@ =~= code.take(4));
    let mut i: usize = 0;
    while i < nargs
        invariant
            i <= nargs,
            code == subtree_check_insns(nargs as nat),
            insns@ == code.take(4 * (i + 1)),
        decreases nargs - i,
    {
        insns.push(Insn::LdArgCage((i % 256) as u8));
        insns.push(Insn::CallInSubtree);
        insns.push(Insn::JeqK { k: 0, jt: 0, jf: 1 });
        insns.push(Insn::Ret(DENY));
        assert(insns@ =~= code.take(4 * (i + 2)));
        i = i + 1;
    }
    insns.push(Insn::Ret(ALLOW));
    assert(insns@ =~= code);
    proof {
        assert forall|i: int| 0 <= i < code.len() && nargs <= 6 implies #[trigger] insn_ok(
            code,
            i,
        ) by {}
        if nargs > 6 {
            assert(code[28] == Insn::LdArgCage(6));
            assert(!insn_ok(code, 28));
        }
        assert forall|ctx: Ctx, use_bits: bool|
            nargs <= 6 && checkable(
                ctx,
                use_bits,
                crate::cage::checked_ids(ctx.target_cage, ctx.arg_cageids@, nargs as nat),
            ) implies #[trigger] exec(code, ctx, use_bits) == verdict(
            all_in_callers_subtree(
                ctx,
                use_bits,
                crate::cage::checked_ids(ctx.target_cage, ctx.arg_cageids@, nargs as nat),
            ),
        ) by {
            law_subtree_filter_verdict(nargs as nat, ctx, use_bits);
        }
    }
    Program { insns }
}

/// An accepted program runs to a `Ret` on every call, or to a question that the
/// subtree helper cannot answer: it never leaves the program, and never loads an
/// argument that no call has.
pub proof fn law_accepted_programs_end(insns: Seq<Insn>, ctx: Ctx, use_bits: bool)
    requires
        accepted(insns),
    ensures
        exec(insns, ctx, use_bits) is Returned || exec(insns, ctx, use_bits) is HelperFault,
{
    lemma_accepted_ends_from(insns, ctx, use_bits, 0, 0);
}

/// An accepted program that never asks the subtree helper returns on every call.
pub proof fn law_accepted_programs_return(insns: Seq<Insn>, ctx: Ctx, use_bits: bool)
    requires
        accepted(insns),
        forall|i: int| 0 <= i < insns.len() ==> #[trigger] insns[i] !is CallInSubtree,
    ensures
        exec(insns, ctx, use_bits) is Returned,
{
    lemma_accepted_ends_from(insns, ctx, use_bits, 0, 0);
}

/// All that a filter can load is a cage id: the numbers of the call are below
/// `MAX_CAGES`.
pub open spec fn names_cages(ctx: Ctx) -> bool {
    &&& ctx.self_cage < MAX_CAGES
    &&& ctx.target_cage < MAX_CAGES
    &&& ctx.syscall_num < MAX_CAGES
    &&& forall|i: int| 0 <= i < 6 ==> #[trigger] ctx.args@[i] < MAX_CAGES
    &&& forall|i: int| 0 <= i < 6 ==> #[trigger] ctx.arg_cageids@[i] < MAX_CAGES
}

/// An accepted program returns on every call whose numbers are cage ids, where the
/// cages form trees: the subtree helper can then answer whatever it is asked.
pub proof fn law_accepted_programs_return_in_tree(insns: Seq<Insn>, ctx: Ctx, use_bits: bool)
    requires
        accepted(insns),
        ctx.lineage.wf(),
        ctx.lineage.tree(),
        names_cages(ctx),
    ensures
        exec(insns, ctx, use_bits) is Returned,
{
    lemma_returns_in_tree_from(insns, ctx, use_bits, 0, 0);
}

/// The law on trees, from any instruction and for any cage id in the accumulator.
proof fn lemma_returns_in_tree_from(insns: Seq<Insn>, ctx: Ctx, use_bits: bool, pc: int, a: u64)
    requires
        accepted(insns),
        ctx.lineage.wf(),
        ctx.lineage.tree(),
        names_cages(ctx),
        0 <= pc < insns.len(),
        a < MAX_CAGES,
    ensures
        exec_from(insns, ctx, use_bits, pc, a) is Returned,
    decreases insns.len() - pc,
{
    assert(insn_ok(insns, pc));
    if insns[pc] !is Ret {
        assert(pc + 1 < insns.len());
        let (jump, next) = match insns[pc] {
            Insn::LdSyscall => (0u8, ctx.syscall_num),
            Insn::LdSelf => (0u8, ctx.self_cage),
            Insn::LdTarget => (0u8, ctx.target_cage),
            Insn::LdArgCage(i) => (0u8, ctx.arg_cageids@[i as int]),
            Insn::LdArg(i) => (0u8, ctx.args@[i as int]),
            Insn::AndK(k) => (0u8, a & k),
            Insn::JeqK { k, jt, jf } => (
                if a == k {
                    jt
                } else {
                    jf
                },
                a,
            ),
            Insn::JgtK { k, jt, jf } => (
                if a > k {
                    jt
                } else {
                    jf
                },
                a,
            ),
            Insn::CallInSubtree => (
                0u8,
                if in_callers_subtree(ctx, use_bits, a) {
                    1
                } else {
                    0
                },
            ),
            Insn::Ret(_) => (0u8, a),
        };
        if let Insn::AndK(k) = insns[pc] {
            assert(a & k <= a) by (bit_vector);
        }
        crate::cage::law_walks_end_in_tree(*ctx.lineage, ctx.self_cage, a);
        lemma_returns_in_tree_from(insns, ctx, use_bits, pc + 1 + jump, next);
    }
}

/// The filter of an allowlist allows exactly the calls of the listed syscalls.
pub proof fn law_allowlist_verdict(listed: Seq<u64>, ctx: Ctx, use_bits: bool)
    ensures
        exec(allowlist_insns(listed), ctx, use_bits) == verdict(listed.contains(ctx.syscall_num)),
{
    lemma_scan_verdict(seq![Insn::LdSyscall], listed, ctx, use_bits, ctx.syscall_num);
    assert(allowlist_insns(listed)[0] == Insn::LdSyscall);
}

/// The subtree filter allows a call exactly when the target and the first `nargs`
/// argument cages are in the caller's subtree, wherever the subtree helper can
/// answer.
pub proof fn law_subtree_filter_verdict(nargs: nat, ctx: Ctx, use_bits: bool)
    requires
        nargs <= 6,
        checkable(
            ctx,
            use_bits,
            crate::cage::checked_ids(ctx.target_cage, ctx.arg_cageids@, nargs),
        ),
    ensures
        exec(subtree_check_insns(nargs), ctx, use_bits) == verdict(
            all_in_callers_subtree(
                ctx,
                use_bits,
                crate::cage::checked_ids(ctx.target_cage, ctx.arg_cageids@, nargs),
            ),
        ),
{
    lemma_subtree_verdict(nargs, ctx, use_bits, 0, 0);
}

/// The laws on accepted programs, from any instruction and for any accumulator.
proof fn lemma_accepted_ends_from(insns: Seq<Insn>, ctx: Ctx, use_bits: bool, pc: int, a: u64)
    requires
        accepted(insns),
        0 <= pc < insns.len(),
    ensures
        exec_from(insns, ctx, use_bits, pc, a) is Returned || exec_from(
            insns,
            ctx,
            use_bits,
            pc,
            a,
        ) is HelperFault,
        (forall|i: int| 0 <= i < insns.len() ==> #[trigger] insns[i] !is CallInSubtree)
            ==> exec_from(insns, ctx, use_bits, pc, a) is Returned,
    decreases insns.len() - pc,
{
    assert(insn_ok(insns, pc));
    if pc + 1 < insns.len() {
        match insns[pc] {
            Insn::LdSyscall => lemma_accepted_ends_from(
                insns,
                ctx,
                use_bits,
                pc + 1,
                ctx.syscall_num,
            ),
            Insn::LdSelf => lemma_accepted_ends_from(insns, ctx, use_bits, pc + 1, ctx.self_cage),
            Insn::LdTarget => lemma_accepted_ends_from(
                insns,
                ctx,
                use_bits,
                pc + 1,
                ctx.target_cage,
            ),
            Insn::LdArgCage(i) => lemma_accepted_ends_from(
                insns,
                ctx,
                use_bits,
                pc + 1,
                ctx.arg_cageids@[i as int],
            ),
            Insn::LdArg(i) => lemma_accepted_ends_from(
                insns,
                ctx,
                use_bits,
                pc + 1,
                ctx.args@[i as int],
            ),
            Insn::AndK(k) => lemma_accepted_ends_from(insns, ctx, use_bits, pc + 1, a & k),
            Insn::JeqK { k, jt, jf } => lemma_accepted_ends_from(
                insns,
                ctx,
                use_bits,
                pc + 1 + (if a == k {
                    jt
                } else {
                    jf
                }),
                a,
            ),
            Insn::JgtK { k, jt, jf } => lemma_accepted_ends_from(
                insns,
                ctx,
                use_bits,
                pc + 1 + (if a > k {
                    jt
                } else {
                    jf
                }),
                a,
            ),
            Insn::CallInSubtree => {
                lemma_accepted_ends_from(insns, ctx, use_bits, pc + 1, 0);
                lemma_accepted_ends_from(insns, ctx, use_bits, pc + 1, 1);
            },
            Insn::Ret(v) => {},
        }
    }
}

/// Behind any instructions the scan is fit to be run, and it ends in a `Ret`.
proof fn lemma_scan_fit(head: Seq<Insn>, entries: Seq<u64>)
    ensures
        scan_insns(entries).len() > 0,
        scan_insns(entries).last() is Ret,
        forall|i: int|
            head.len() <= i < (head + scan_insns(entries)).len() ==> #[trigger] insn_ok(
                head + scan_insns(entries),
                i,
            ),
    decreases entries.len(),
{
    let code = head + scan_insns(entries);
    if entries.len() > GROUP {
        let group = group_insns(entries.take(GROUP as int));
        let rest = entries.skip(GROUP as int);
        lemma_scan_fit(head + group, rest);
        assert(code =~= (head + group) + scan_insns(rest));
        assert forall|i: int| head.len() <= i < code.len() implies #[trigger] insn_ok(code, i) by {
            if i < head.len() + group.len() {
                assert(code[i] == group[i - head.len()]);
            }
        }
    } else if entries.len() > 0 {
        let group = group_insns(entries);
        assert forall|i: int| head.len() <= i < code.len() implies #[trigger] insn_ok(code, i) by {
            if i < head.len() + group.len() {
                assert(code[i] == group[i - head.len()]);
            }
        }
    }
}

/// From test `j` on a group returns `ALLOW` for an entry that is still to come, and
/// hands every other number on to what is behind the group.
proof fn lemma_group_verdict(
    code: Seq<Insn>,
    base: int,
    entries: Seq<u64>,
    j: int,
    ctx: Ctx,
    use_bits: bool,
    a: u64,
)
    requires
        0 <= base,
        0 < entries.len() <= GROUP,
        0 <= j < entries.len(),
        base + entries.len() + 1 <= code.len(),
        forall|i: int| 0 <= i <= entries.len() ==> code[base + i] == #[trigger] group_insns(entries)[i],
    ensures
        exec_from(code, ctx, use_bits, base + j, a) == (if entries.skip(j).contains(a) {
            verdict(true)
        } else {
            exec_from(code, ctx, use_bits, base + entries.len() + 1, a)
        }),
    decreases entries.len() - j,
{
    let m = entries.len() as int;
    assert(code[base + j] == group_insns(entries)[j]);
    assert(code[base + m] == group_insns(entries)[m]);
    assert(entries.skip(j)[0] == entries[j]);
    if a == entries[j] {
        assert(exec_from(code, ctx, use_bits, base + m, a) == verdict(true));
    } else {
        if j + 1 < m {
            lemma_group_verdict(code, base, entries, j + 1, ctx, use_bits, a);
            let here = entries.skip(j);
            let next = entries.skip(j + 1);
            if here.contains(a) {
                let i = choose|i: int| 0 <= i < here.len() && here[i] == a;
                assert(next[i - 1] == a);
            }
            if next.contains(a) {
                let i = choose|i: int| 0 <= i < next.len() && next[i] == a;
                assert(here[i + 1] == a);
            }
        } else {
            assert(entries.skip(j).len() == 1);
        }
    }
}

/// The scan returns `ALLOW` for the listed numbers and `DENY` for every other.
proof fn lemma_scan_verdict(
    head: Seq<Insn>,
    entries: Seq<u64>,
    ctx: Ctx,
    use_bits: bool,
    a: u64,
)
    ensures
        exec_from(head + scan_insns(entries), ctx, use_bits, head.len() as int, a) == verdict(
            entries.contains(a),
        ),
    decreases entries.len(),
{
    let code = head + scan_insns(entries);
    let base = head.len() as int;
    if entries.len() == 0 {
        assert(code[base] == Insn::Ret(DENY));
    } else {
        let m = if entries.len() <= GROUP {
            entries.len() as int
        } else {
            GROUP as int
        };
        let first = entries.take(m);
        let rest = entries.skip(m);
        let group = group_insns(first);
        if entries.len() <= GROUP {
            assert(first =~= entries);
        }
        assert(scan_insns(entries) =~= group + scan_insns(rest));
        assert(code =~= (head + group) + scan_insns(rest));
        assert forall|i: int| 0 <= i <= first.len() implies code[base + i]
            == #[trigger] group_insns(first)[i] by {}
        lemma_group_verdict(code, base, first, 0, ctx, use_bits, a);
        lemma_scan_verdict(head + group, rest, ctx, use_bits, a);
        assert(first.skip(0) =~= first);
        assert(entries =~= first + rest);
        if entries.contains(a) {
            let i = choose|i: int| 0 <= i < entries.len() && entries[i] == a;
            if i < m {
                assert(first[i] == a);
            } else {
                assert(rest[i - m] == a);
            }
        }
        if first.contains(a) {
            let i = choose|i: int| 0 <= i < first.len() && first[i] == a;
            assert(entries[i] == a);
        }
        if rest.contains(a) {
            let i = choose|i: int| 0 <= i < rest.len() && rest[i] == a;
            assert(entries[m + i] == a);
        }
    }
}

/// From the `i`th checked id on, when the ids before it are inside, the subtree
/// filter gives the verdict on all of them.
proof fn lemma_subtree_verdict(nargs: nat, ctx: Ctx, use_bits: bool, i: int, a: u64)
    requires
        nargs <= 6,
        0 <= i <= nargs + 1,
        checkable(
            ctx,
            use_bits,
            crate::cage::checked_ids(ctx.target_cage, ctx.arg_cageids@, nargs),
        ),
        forall|j: int|
            0 <= j < i ==> in_callers_subtree(
                ctx,
                use_bits,
                #[trigger] crate::cage::checked_ids(ctx.target_cage, ctx.arg_cageids@, nargs)[j],
            ),
    ensures
        exec_from(subtree_check_insns(nargs), ctx, use_bits, 4 * i, a) == verdict(
            all_in_callers_subtree(
                ctx,
                use_bits,
                crate::cage::checked_ids(ctx.target_cage, ctx.arg_cageids@, nargs),
            ),
        ),
    decreases nargs + 1 - i,
{
    let code = subtree_check_insns(nargs);
    let ids = crate::cage::checked_ids(ctx.target_cage, ctx.arg_cageids@, nargs);
    if i == nargs + 1 {
        assert(code[4 * i] == Insn::Ret(ALLOW));
    } else {
        let id = ids[i];
        assert(helper_ready(ctx, use_bits, id));
        let inside = in_callers_subtree(ctx, use_bits, id);
        let a1: u64 = if inside {
            1
        } else {
            0
        };
        assert(code[4 * i + 1] == Insn::CallInSubtree);
        assert(code[4 * i + 2] == Insn::JeqK { k: 0, jt: 0, jf: 1 });
        assert(code[4 * i + 3] == Insn::Ret(DENY));
        if i > 0 {
            assert(code[4 * i] == Insn::LdArgCage((i - 1) as u8));
        }
        assert(exec_from(code, ctx, use_bits, 4 * i, a) == exec_from(
            code,
            ctx,
            use_bits,
            4 * i + 1,
            id,
        ));
        assert(exec_from(code, ctx, use_bits, 4 * i + 1, id) == exec_from(
            code,
            ctx,
            use_bits,
            4 * i + 2,
            a1,
        ));
        if inside {
            lemma_subtree_verdict(nargs, ctx, use_bits, i + 1, a1);
        } else {
            assert(exec_from(code, ctx, use_bits, 4 * i + 3, a1) == verdict(false));
        }
    }
}

/// What one instruction does, whatever comes behind it: loads and masks set the
/// accumulator and go on, jumps go on where their test sends them, the helper answers in
/// the accumulator, and `Ret` ends the run.
pub proof fn law_one_step(insns: Seq<Insn>, ctx: Ctx, use_bits: bool, pc: int, a: u64)
    requires
        0 <= pc < insns.len(),
    ensures
        insns[pc] == Insn::LdSyscall ==> exec_from(insns, ctx, use_bits, pc, a) == exec_from(
            insns,
            ctx,
            use_bits,
            pc + 1,
            ctx.syscall_num,
        ),
        insns[pc] == Insn::LdSelf ==> exec_from(insns, ctx, use_bits, pc, a) == exec_from(
            insns,
            ctx,
            use_bits,
            pc + 1,
            ctx.self_cage,
        ),
        insns[pc] == Insn::LdTarget ==> exec_from(insns, ctx, use_bits, pc, a) == exec_from(
            insns,
            ctx,
            use_bits,
            pc + 1,
            ctx.target_cage,
        ),
        insns[pc] matches Insn::LdArgCage(i) ==> i < 6 ==> exec_from(insns, ctx, use_bits, pc, a)
            == exec_from(insns, ctx, use_bits, pc + 1, ctx.arg_cageids@[i as int]),
        insns[pc] matches Insn::LdArg(i) ==> i < 6 ==> exec_from(insns, ctx, use_bits, pc, a)
            == exec_from(insns, ctx, use_bits, pc + 1, ctx.args@[i as int]),
        insns[pc] matches Insn::LdArgCage(i) ==> i >= 6 ==> exec_from(insns, ctx, use_bits, pc, a)
            is NoSuchArg,
        insns[pc] matches Insn::LdArg(i) ==> i >= 6 ==> exec_from(insns, ctx, use_bits, pc, a)
            is NoSuchArg,
        insns[pc] matches Insn::AndK(k) ==> exec_from(insns, ctx, use_bits, pc, a) == exec_from(
            insns,
            ctx,
            use_bits,
            pc + 1,
            a & k,
        ),
        insns[pc] matches Insn::JeqK { k, jt, jf } ==> {
            &&& a == k ==> exec_from(insns, ctx, use_bits, pc, a) == exec_from(
                insns,
                ctx,
                use_bits,
                pc + 1 + jt,
                a,
            )
            &&& a != k ==> exec_from(insns, ctx, use_bits, pc, a) == exec_from(
                insns,
                ctx,
                use_bits,
                pc + 1 + jf,
                a,
            )
        },
        insns[pc] matches Insn::JgtK { k, jt, jf } ==> {
            &&& a > k ==> exec_from(insns, ctx, use_bits, pc, a) == exec_from(
                insns,
                ctx,
                use_bits,
                pc + 1 + jt,
                a,
            )
            &&& a <= k ==> exec_from(insns, ctx, use_bits, pc, a) == exec_from(
                insns,
                ctx,
                use_bits,
                pc + 1 + jf,
                a,
            )
        },
        insns[pc] == Insn::CallInSubtree && use_bits && ctx.self_cage < 1024 && a < 1024 ==> exec_from(
            insns,
            ctx,
            use_bits,
            pc,
            a,
        ) == exec_from(
            insns,
            ctx,
            use_bits,
            pc + 1,
            if ctx.lineage.rows()[a as int].contains(ctx.self_cage) {
                1
            } else {
                0
            },
        ),
        insns[pc] == Insn::CallInSubtree && use_bits && !(ctx.self_cage < 1024 && a < 1024)
            ==> exec_from(insns, ctx, use_bits, pc, a) is HelperFault,
        insns[pc] == Insn::CallInSubtree && !use_bits && crate::cage::walkable(
            ctx.lineage.parents(),
            ctx.self_cage,
            a,
        ) ==> exec_from(insns, ctx, use_bits, pc, a) == exec_from(
            insns,
            ctx,
            use_bits,
            pc + 1,
            if crate::cage::descends(ctx.lineage.parents(), ctx.self_cage, a) {
                1
            } else {
                0
            },
        ),
        insns[pc] == Insn::CallInSubtree && !use_bits && !crate::cage::walkable(
            ctx.lineage.parents(),
            ctx.self_cage,
            a,
        ) ==> exec_from(insns, ctx, use_bits, pc, a) is HelperFault,
        insns[pc] matches Insn::Ret(v) ==> exec_from(insns, ctx, use_bits, pc, a)
            == Outcome::Returned(v),
{
}

/// A run starts at the first instruction with an empty accumulator, and leaves the
/// program behind the last one.
pub proof fn law_runs_start_and_leave(insns: Seq<Insn>, ctx: Ctx, use_bits: bool, pc: int, a: u64)
    ensures
        exec(insns, ctx, use_bits) == exec_from(insns, ctx, use_bits, 0, 0),
        pc >= insns.len() ==> exec_from(insns, ctx, use_bits, pc, a) is LeftProgram,
{
}

/// What the program that loads a number, tests it and returns one of two values does: the
/// test is of that number, as an integer, and both branches are reached.
pub proof fn law_tests_of_the_syscall_number(
    ctx: Ctx,
    use_bits: bool,
    k: u64,
    mask: u64,
    v: i32,
    w: i32,
)
    ensures
        exec(
            seq![Insn::LdSyscall, Insn::JgtK { k, jt: 0, jf: 1 }, Insn::Ret(v), Insn::Ret(w)],
            ctx,
            use_bits,
        ) == Outcome::Returned(
            if ctx.syscall_num > k {
                v
            } else {
                w
            },
        ),
        exec(
            seq![Insn::LdSyscall, Insn::JeqK { k, jt: 0, jf: 1 }, Insn::Ret(v), Insn::Ret(w)],
            ctx,
            use_bits,
        ) == Outcome::Returned(
            if ctx.syscall_num == k {
                v
            } else {
                w
            },
        ),
        exec(
            seq![
                Insn::LdSyscall,
                Insn::AndK(mask),
                Insn::JeqK { k, jt: 0, jf: 1 },
                Insn::Ret(v),
                Insn::Ret(w),
            ],
            ctx,
            use_bits,
        ) == Outcome::Returned(
            if ctx.syscall_num & mask == k {
                v
            } else {
                w
            },
        ),
{
    let gt = seq![Insn::LdSyscall, Insn::JgtK { k, jt: 0, jf: 1 }, Insn::Ret(v), Insn::Ret(w)];
    law_one_step(gt, ctx, use_bits, 0, 0);
    lemma_test_and_return(gt, ctx, use_bits, 1, ctx.syscall_num, k, v, w);
    let eq = seq![Insn::LdSyscall, Insn::JeqK { k, jt: 0, jf: 1 }, Insn::Ret(v), Insn::Ret(w)];
    law_one_step(eq, ctx, use_bits, 0, 0);
    lemma_test_and_return(eq, ctx, use_bits, 1, ctx.syscall_num, k, v, w);
    let and = seq![
        Insn::LdSyscall,
        Insn::AndK(mask),
        Insn::JeqK { k, jt: 0, jf: 1 },
        Insn::Ret(v),
        Insn::Ret(w),
    ];
    law_one_step(and, ctx, use_bits, 0, 0);
    law_one_step(and, ctx, use_bits, 1, ctx.syscall_num);
    lemma_test_and_return(and, ctx, use_bits, 2, ctx.syscall_num & mask, k, v, w);
}

/// A test at `pc` that goes to one of the two `Ret` behind it.
proof fn lemma_test_and_return(
    insns: Seq<Insn>,
    ctx: Ctx,
    use_bits: bool,
    pc: int,
    a: u64,
    k: u64,
    v: i32,
    w: i32,
)
    requires
        0 <= pc,
        pc + 3 <= insns.len(),
        insns[pc] == (Insn::JeqK { k, jt: 0, jf: 1 }) || insns[pc] == (Insn::JgtK {
            k,
            jt: 0,
            jf: 1,
        }),
        insns[pc + 1] == Insn::Ret(v),
        insns[pc + 2] == Insn::Ret(w),
    ensures
        insns[pc] is JeqK ==> exec_from(insns, ctx, use_bits, pc, a) == Outcome::Returned(
            if a == k {
                v
            } else {
                w
            },
        ),
        insns[pc] is JgtK ==> exec_from(insns, ctx, use_bits, pc, a) == Outcome::Returned(
            if a > k {
                v
            } else {
                w
            },
        ),
{
    law_one_step(insns, ctx, use_bits, pc, a);
    law_one_step(insns, ctx, use_bits, pc + 1, a);
    law_one_step(insns, ctx, use_bits, pc + 2, a);
}

/// The outcome of a threshold filter is monotone: where it returns `v` for a syscall
/// number it returns `v` for every greater one.
pub proof fn law_threshold_filters_are_monotone(
    lower: Ctx,
    higher: Ctx,
    use_bits: bool,
    k: u64,
    v: i32,
    w: i32,
)
    requires
        lower.syscall_num <= higher.syscall_num,
        v != w,
        exec(
            seq![Insn::LdSyscall, Insn::JgtK { k, jt: 0, jf: 1 }, Insn::Ret(v), Insn::Ret(w)],
            lower,
            use_bits,
        ) == Outcome::Returned(v),
    ensures
        exec(
            seq![Insn::LdSyscall, Insn::JgtK { k, jt: 0, jf: 1 }, Insn::Ret(v), Insn::Ret(w)],
            higher,
            use_bits,
        ) == Outcome::Returned(v),
{
    law_tests_of_the_syscall_number(lower, use_bits, k, 0, v, w);
    law_tests_of_the_syscall_number(higher, use_bits, k, 0, v, w);
}

/// What each load loads: a program that tests what was loaded against `k` tells the
/// caller, the target, the argument words and the argument cages apart.
pub proof fn law_loads(ctx: Ctx, use_bits: bool, i: u8, k: u64, v: i32, w: i32)
    requires
        i < 6,
    ensures
        exec(
            seq![Insn::LdSelf, Insn::JeqK { k, jt: 0, jf: 1 }, Insn::Ret(v), Insn::Ret(w)],
            ctx,
            use_bits,
        ) == Outcome::Returned(
            if ctx.self_cage == k {
                v
            } else {
                w
            },
        ),
        exec(
            seq![Insn::LdTarget, Insn::JeqK { k, jt: 0, jf: 1 }, Insn::Ret(v), Insn::Ret(w)],
            ctx,
            use_bits,
        ) == Outcome::Returned(
            if ctx.target_cage == k {
                v
            } else {
                w
            },
        ),
        exec(
            seq![Insn::LdArg(i), Insn::JeqK { k, jt: 0, jf: 1 }, Insn::Ret(v), Insn::Ret(w)],
            ctx,
            use_bits,
        ) == Outcome::Returned(
            if ctx.args@[i as int] == k {
                v
            } else {
                w
            },
        ),
        exec(
            seq![Insn::LdArgCage(i), Insn::JeqK { k, jt: 0, jf: 1 }, Insn::Ret(v), Insn::Ret(w)],
            ctx,
            use_bits,
        ) == Outcome::Returned(
            if ctx.arg_cageids@[i as int] == k {
                v
            } else {
                w
            },
        ),
{
    let test = seq![Insn::JeqK { k, jt: 0, jf: 1 }, Insn::Ret(v), Insn::Ret(w)];
    assert forall|load: Insn, x: u64|
        #![trigger exec_from(seq![load] + test, ctx, use_bits, 1, x)]
        exec_from(seq![load] + test, ctx, use_bits, 1, x) == Outcome::Returned(
            if x == k {
                v
            } else {
                w
            },
        ) by {
        lemma_test_and_return(seq![load] + test, ctx, use_bits, 1, x, k, v, w);
    }
    let own = seq![Insn::LdSelf, Insn::JeqK { k, jt: 0, jf: 1 }, Insn::Ret(v), Insn::Ret(w)];
    assert(own =~= seq![Insn::LdSelf] + test);
    law_one_step(own, ctx, use_bits, 0, 0);
    let target = seq![Insn::LdTarget, Insn::JeqK { k, jt: 0, jf: 1 }, Insn::Ret(v), Insn::Ret(w)];
    assert(target =~= seq![Insn::LdTarget] + test);
    law_one_step(target, ctx, use_bits, 0, 0);
    let word = seq![Insn::LdArg(i), Insn::JeqK { k, jt: 0, jf: 1 }, Insn::Ret(v), Insn::Ret(w)];
    assert(word =~= seq![Insn::LdArg(i)] + test);
    law_one_step(word, ctx, use_bits, 0, 0);
    let cage = seq![Insn::LdArgCage(i), Insn::JeqK { k, jt: 0, jf: 1 }, Insn::Ret(v), Insn::Ret(w)];
    assert(cage =~= seq![Insn::LdArgCage(i)] + test);
    law_one_step(cage, ctx, use_bits, 0, 0);
}

/// Which programs are accepted: those of one to 4096 instructions whose jumps, forward
/// only, end at an instruction, whose loads name one of six arguments, and whose last
/// instruction is a `Ret`.
pub proof fn law_what_is_accepted(insns: Seq<Insn>)
    ensures
        accepted(insns) <==> {
            &&& 1 <= insns.len() <= 4096
            &&& insns.last() is Ret
            &&& forall|i: int|
                0 <= i < insns.len() ==> match #[trigger] insns[i] {
                    Insn::JeqK { k: _, jt, jf } => i + 1 + jt < insns.len() && i + 1 + jf
                        < insns.len(),
                    Insn::JgtK { k: _, jt, jf } => i + 1 + jt < insns.len() && i + 1 + jf
                        < insns.len(),
                    Insn::LdArg(n) => n < 6,
                    Insn::LdArgCage(n) => n < 6,
                    _ => true,
                }
        },
{
    if accepted(insns) {
        assert forall|i: int| 0 <= i < insns.len() implies match #[trigger] insns[i] {
            Insn::JeqK { k: _, jt, jf } => i + 1 + jt < insns.len() && i + 1 + jf < insns.len(),
            Insn::JgtK { k: _, jt, jf } => i + 1 + jt < insns.len() && i + 1 + jf < insns.len(),
            Insn::LdArg(n) => n < 6,
            Insn::LdArgCage(n) => n < 6,
            _ => true,
        } by {
            assert(insn_ok(insns, i));
        }
    } else if 1 <= insns.len() <= 4096 && insns.last() is Ret {
        let i = choose|i: int| 0 <= i < insns.len() && !insn_ok(insns, i);
        assert(!match insns[i] {
            Insn::JeqK { k: _, jt, jf } => i + 1 + jt < insns.len() && i + 1 + jf < insns.len(),
            Insn::JgtK { k: _, jt, jf } => i + 1 + jt < insns.len() && i + 1 + jf < insns.len(),
            Insn::LdArg(n) => n < 6,
            Insn::LdArgCage(n) => n < 6,
            _ => true,
        });
    }
}

/// What a refused program is told: what is wrong with its length, or with the first
/// instruction that is unfit, or with its end; and nothing else.
pub proof fn law_what_a_refusal_says(insns: Seq<Insn>, msg: Seq<char>, i: int)
    requires
        refusal(insns, msg),
    ensures
        insns.len() == 0 ==> msg == "empty program"@,
        insns.len() > 4096 ==> msg == "program too long"@,
        0 < insns.len() <= 4096 && 0 <= i < insns.len() && (forall|j: int|
            0 <= j < i ==> match #[trigger] insns[j] {
                Insn::JeqK { k: _, jt, jf } => j + 1 + jt < insns.len() && j + 1 + jf < insns.len(),
                Insn::JgtK { k: _, jt, jf } => j + 1 + jt < insns.len() && j + 1 + jf < insns.len(),
                Insn::LdArg(n) => n < 6,
                Insn::LdArgCage(n) => n < 6,
                _ => true,
            }) ==> match insns[i] {
            Insn::JeqK { k: _, jt, jf } => i + 1 + jt >= insns.len() || i + 1 + jf >= insns.len()
                ==> msg == "insn "@ + crate::text::decimal(i as nat) + ": jump out of range"@,
            Insn::JgtK { k: _, jt, jf } => i + 1 + jt >= insns.len() || i + 1 + jf >= insns.len()
                ==> msg == "insn "@ + crate::text::decimal(i as nat) + ": jump out of range"@,
            Insn::LdArg(n) => n >= 6 ==> msg == "insn "@ + crate::text::decimal(i as nat)
                + ": bad arg index"@,
            Insn::LdArgCage(n) => n >= 6 ==> msg == "insn "@ + crate::text::decimal(i as nat)
                + ": bad arg index"@,
            _ => true,
        },
        0 < insns.len() <= 4096 && (forall|j: int|
            0 <= j < insns.len() ==> match #[trigger] insns[j] {
                Insn::JeqK { k: _, jt, jf } => j + 1 + jt < insns.len() && j + 1 + jf < insns.len(),
                Insn::JgtK { k: _, jt, jf } => j + 1 + jt < insns.len() && j + 1 + jf < insns.len(),
                Insn::LdArg(n) => n < 6,
                Insn::LdArgCage(n) => n < 6,
                _ => true,
            }) ==> msg == "program must end in Ret"@,
{
    let fit = |j: int|
        match insns[j] {
            Insn::JeqK { k: _, jt, jf } => j + 1 + jt < insns.len() && j + 1 + jf < insns.len(),
            Insn::JgtK { k: _, jt, jf } => j + 1 + jt < insns.len() && j + 1 + jf < insns.len(),
            Insn::LdArg(n) => n < 6,
            Insn::LdArgCage(n) => n < 6,
            _ => true,
        };
    assert forall|j: int| 0 <= j < insns.len() implies #[trigger] insn_ok(insns, j) == fit(j) by {
        assert(insns[j] == insns[j]);
    }
    if 0 < insns.len() <= 4096 && 0 <= i < insns.len() && !insn_ok(insns, i) {
        let f = choose|f: int| #[trigger]
            first_unfit(insns, f) && msg == "insn "@ + crate::text::decimal(f as nat) + (
            if jumps_out(insns, f) {
                ": jump out of range"@
            } else {
                ": bad arg index"@
            });
        if f < i {
            assert(!insn_ok(insns, f));
            assert(!fit(f));
        }
        if i < f {
            assert(insn_ok(insns, i));
        }
    }
}

/// With the filter for `nargs` argument cages a call is answered 0 exactly when the
/// caller may name the target and each of the first `nargs` argument cages, taken in
/// order, and -1 otherwise: on the ancestor rows.
pub proof fn law_subtree_filter_on_rows(nargs: nat, ctx: Ctx)
    requires
        nargs <= 6,
        ctx.self_cage < 1024,
        ctx.target_cage < 1024,
        forall|i: int| 0 <= i < 6 ==> #[trigger] ctx.arg_cageids@[i] < 1024,
    ensures
        exec(subtree_check_insns(nargs), ctx, true) == Outcome::Returned(
            if ctx.lineage.row_holds(ctx.self_cage, ctx.target_cage) && (forall|i: int|
                0 <= i < nargs ==> ctx.lineage.row_holds(
                    ctx.self_cage,
                    #[trigger] ctx.arg_cageids@[i],
                )) {
                0
            } else {
                (-1) as i32
            },
        ),
        subtree_check_insns(nargs).len() == 4 * nargs + 5,
{
    let ids = crate::cage::checked_ids(ctx.target_cage, ctx.arg_cageids@, nargs);
    lemma_each_checked_id(ctx, nargs);
    assert(checkable(ctx, true, ids));
    law_subtree_filter_verdict(nargs, ctx, true);
}

/// The same on the parent pointers of a tree.
pub proof fn law_subtree_filter_on_pointers(nargs: nat, ctx: Ctx)
    requires
        nargs <= 6,
        ctx.self_cage < 1024,
        ctx.target_cage < 1024,
        forall|i: int| 0 <= i < 6 ==> #[trigger] ctx.arg_cageids@[i] < 1024,
        ctx.lineage.wf(),
        ctx.lineage.tree(),
    ensures
        exec(subtree_check_insns(nargs), ctx, false) == Outcome::Returned(
            if crate::cage::descends(ctx.lineage.parents(), ctx.self_cage, ctx.target_cage) && (
            forall|i: int|
                0 <= i < nargs ==> crate::cage::descends(
                    ctx.lineage.parents(),
                    ctx.self_cage,
                    #[trigger] ctx.arg_cageids@[i],
                )) {
                0
            } else {
                (-1) as i32
            },
        ),
{
    let ids = crate::cage::checked_ids(ctx.target_cage, ctx.arg_cageids@, nargs);
    lemma_each_checked_id(ctx, nargs);
    assert forall|i: int| 0 <= i < ids.len() implies helper_ready(ctx, false, #[trigger] ids[i]) by {
        crate::cage::law_walks_end_in_tree(*ctx.lineage, ctx.self_cage, ids[i]);
    }
    assert(checkable(ctx, false, ids));
    law_subtree_filter_verdict(nargs, ctx, false);
}

/// The checked ids are the target and the argument cages, and all of them cage ids.
proof fn lemma_each_checked_id(ctx: Ctx, nargs: nat)
    requires
        nargs <= 6,
        ctx.self_cage < 1024,
        ctx.target_cage < 1024,
        forall|i: int| 0 <= i < 6 ==> #[trigger] ctx.arg_cageids@[i] < 1024,
    ensures
        ({
            let ids = crate::cage::checked_ids(ctx.target_cage, ctx.arg_cageids@, nargs);
            &&& ids.len() == nargs + 1
            &&& ids[0] == ctx.target_cage
            &&& forall|i: int| 0 <= i < nargs ==> ids[i + 1] == #[trigger] ctx.arg_cageids@[i]
            &&& forall|i: int| 0 <= i < ids.len() ==> #[trigger] ids[i] < MAX_CAGES
        }),
{
    let ids = crate::cage::checked_ids(ctx.target_cage, ctx.arg_cageids@, nargs);
    assert forall|i: int| 0 <= i < ids.len() implies #[trigger] ids[i] < MAX_CAGES by {
        if i > 0 {
            assert(ids[i] == ctx.arg_cageids@[i - 1]);
        }
    }
}

/// The filter of an allowlist answers 0 to the listed syscalls and -1 to every other,
/// and has one test for each entry, a load, and two ends, while one end can be reached
/// from every test.
pub proof fn law_allowlist_filter_answers(listed: Seq<u64>, ctx: Ctx, use_bits: bool)
    ensures
        exec(allowlist_insns(listed), ctx, use_bits) == Outcome::Returned(
            if exists|i: int| 0 <= i < listed.len() && listed[i] == ctx.syscall_num {
                0
            } else {
                (-1) as i32
            },
        ),
        1 <= listed.len() <= 256 ==> allowlist_insns(listed).len() == listed.len() + 3,
        allowlist_insns(listed).len() >= listed.len() + 2,
{
    law_allowlist_verdict(listed, ctx, use_bits);
    lemma_scan_len(listed);
}

/// A scan has an instruction for each entry, and at least one more.
proof fn lemma_scan_len(entries: Seq<u64>)
    ensures
        scan_insns(entries).len() >= entries.len() + 1,
    decreases entries.len(),
{
    if entries.len() > GROUP {
        lemma_scan_len(entries.skip(GROUP as int));
    }
}

} // verus!
