//! The dispatcher: the policy hook, the handler lookup, and what to call.
//!
//! A call is decided here and carried out by the runtime: [`make_syscall`] answers
//! with an [`Action`], which is the value to return, the host function to call, or
//! the grate to enter.
use std::sync::Arc;

use vstd::prelude::*;

use crate::bpf::{Ctx, Outcome, Program, ALLOW};
use crate::cage::{Grants, Lineage};
use crate::handler::{Handler, HandlerKind, HandlerTable, MAX_CAGES, RAWPOSIX_CAGEID};

verus! {

/// The answer to a call that the policy refuses.
pub const EACCES: i32 = -13;

/// The answer to a call that has no handler.
pub const ENOSYS: i32 = -38;

/// Which policy check runs before a call is dispatched.
#[derive(Clone)]
pub enum Policy {
    /// no check: the policy, if any, is in a grate
    Unchecked,
    /// subtree membership, on the parent pointers
    SubtreeWalk,
    /// subtree membership, on the ancestor rows
    SubtreeBits,
    /// the grants, in the hash set
    GrantsHash,
    /// the grants, in the bit rows
    GrantsBits,
    /// a filter program, with the subtree helper on the ancestor rows or not
    Bpf(Arc<Program>, bool),
}

/// What the bottom of the stack does.
#[derive(Clone, Copy, PartialEq, Eq, Debug, Structural)]
pub enum Leaf {
    /// a call served from user space
    Cheap,
    /// a call that ends in a host syscall
    HostSyscall,
}

pub const P_NONE: u8 = 0;

pub const P_SUBTREE_WALK: u8 = 1;

pub const P_SUBTREE_BITS: u8 = 2;

pub const P_GRANTS_HASH: u8 = 3;

pub const P_GRANTS_BITS: u8 = 4;

pub const P_BPF: u8 = 5;

/// The configuration that every call reads.
pub struct Config {
    /// one of the `P_` codes
    pub policy_kind: u8,
    /// how many of the six argument cage ids the policy inspects
    pub ncheck: usize,
    /// 1 where the leaf makes a host syscall
    pub leaf_mode: u8,
    /// the filter that was installed last, and its choice of subtree helper
    pub bpf_prog: Option<(Arc<Program>, bool)>,
}

pub struct Threei<T: HandlerTable + ?Sized> {
    pub table: Box<T>,
    pub lineage: Lineage,
    pub grants: Grants,
    /// how many calls the policy has refused, modulo the range of the counter
    pub denied: u64,
}

/// The six arguments of a call, each with its cage id.
#[derive(Clone, Copy, PartialEq, Eq, Debug, Structural)]
pub struct CallArgs {
    pub arg1: u64,
    pub arg1_cageid: u64,
    pub arg2: u64,
    pub arg2_cageid: u64,
    pub arg3: u64,
    pub arg3_cageid: u64,
    pub arg4: u64,
    pub arg4_cageid: u64,
    pub arg5: u64,
    pub arg5_cageid: u64,
    pub arg6: u64,
    pub arg6_cageid: u64,
}

/// What the runtime does with a call.
#[derive(Clone, Copy, PartialEq, Eq, Debug, Structural)]
pub enum Action {
    /// return this value
    Return(i32),
    /// call the host function at `fnptr`
    CallRaw { fnptr: u64, target_cageid: u64, args: CallArgs },
    /// enter the grate at its function `fnptr`
    CallGrate { grateid: u64, fnptr: u64, args: CallArgs },
}

impl Config {
    /// No policy, two argument cage ids inspected, a cheap leaf, no filter.
    pub fn new() -> (cfg: Config)
        ensures
            cfg.policy_kind == P_NONE,
            cfg.ncheck == 2,
            cfg.leaf_mode == 0,
            cfg.bpf_prog is None,
    {
        Config { policy_kind: P_NONE, ncheck: 2, leaf_mode: 0, bpf_prog: None }
    }
}

/// The code of a policy.
pub open spec fn policy_code(p: Policy) -> u8 {
    match p {
        Policy::Unchecked => P_NONE,
        Policy::SubtreeWalk => P_SUBTREE_WALK,
        Policy::SubtreeBits => P_SUBTREE_BITS,
        Policy::GrantsHash => P_GRANTS_HASH,
        Policy::GrantsBits => P_GRANTS_BITS,
        Policy::Bpf(_, _) => P_BPF,
    }
}

/// Makes `p` the policy. A filter stays installed when another policy is chosen.
pub fn set_policy(cfg: &mut Config, p: Policy)
    ensures
        final(cfg).policy_kind == policy_code(p),
        final(cfg).bpf_prog == (match p {
            Policy::Bpf(prog, bits) => Some((prog, bits)),
            _ => old(cfg).bpf_prog,
        }),
        final(cfg).ncheck == old(cfg).ncheck,
        final(cfg).leaf_mode == old(cfg).leaf_mode,
{
    match p {
        Policy::Unchecked => {
            cfg.policy_kind = P_NONE;
        },
        Policy::SubtreeWalk => {
            cfg.policy_kind = P_SUBTREE_WALK;
        },
        Policy::SubtreeBits => {
            cfg.policy_kind = P_SUBTREE_BITS;
        },
        Policy::GrantsHash => {
            cfg.policy_kind = P_GRANTS_HASH;
        },
        Policy::GrantsBits => {
            cfg.policy_kind = P_GRANTS_BITS;
        },
        Policy::Bpf(prog, bits) => {
            cfg.bpf_prog = Some((prog, bits));
            cfg.policy_kind = P_BPF;
        },
    }
}

pub fn set_leaf(cfg: &mut Config, l: Leaf)
    ensures
        final(cfg).leaf_mode == (if l == Leaf::HostSyscall {
            1u8
        } else {
            0u8
        }),
        final(cfg).policy_kind == old(cfg).policy_kind,
        final(cfg).ncheck == old(cfg).ncheck,
        final(cfg).bpf_prog == old(cfg).bpf_prog,
{
    cfg.leaf_mode = if l == Leaf::HostSyscall {
        1
    } else {
        0
    };
}

pub fn set_ncheck(cfg: &mut Config, n: usize)
    ensures
        final(cfg).ncheck == n,
        final(cfg).policy_kind == old(cfg).policy_kind,
        final(cfg).leaf_mode == old(cfg).leaf_mode,
        final(cfg).bpf_prog == old(cfg).bpf_prog,
{
    cfg.ncheck = n;
}

impl<T: HandlerTable + ?Sized> Threei<T> {
    pub open spec fn wf(&self) -> bool {
        &&& self.table.wf()
        &&& self.lineage.wf()
        &&& self.grants.wf()
    }
}

/// `t` is a dispatcher over `table`, with only cage 0 and no grants.
pub open spec fn just_made<T: HandlerTable + ?Sized>(t: Threei<T>, table: Box<T>) -> bool {
    &&& t.wf()
    &&& t.table == table
    &&& t.lineage.initial()
    &&& t.lineage.tree()
    &&& t.lineage.rooted()
    &&& t.grants.initial()
    &&& t.denied == 0
}

impl<T: HandlerTable + ?Sized> Threei<T> {
    /// A dispatcher over `table`, with only cage 0 and no grants.
    pub fn new(table: Box<T>) -> (t: Threei<T>)
        requires
            table.wf(),
        ensures
            just_made(t, table),
    {
        Threei { table, lineage: Lineage::new(), grants: Grants::new(), denied: 0 }
    }
}

/// What `init` does to the place of the dispatcher.
pub open spec fn initialised<T: HandlerTable + ?Sized>(
    before: Option<Threei<T>>,
    after: Option<Threei<T>>,
    table: Box<T>,
) -> bool {
    match before {
        Some(t) => after == Some(t),
        None => after matches Some(t) && just_made(t, table),
    }
}

/// Puts a dispatcher over `table` into its place, once: where there is one already it
/// stays as it is, and `table` is dropped.
pub fn init<T: HandlerTable + ?Sized>(place: &mut Option<Threei<T>>, table: Box<T>)
    requires
        *old(place) is None ==> table.wf(),
    ensures
        initialised(*old(place), *final(place), table),
{
    if place.is_none() {
        *place = Some(Threei::new(table));
    }
}

/// The dispatcher in its place.
pub fn threei<'a, T: HandlerTable + ?Sized>(place: &'a Option<Threei<T>>) -> (t: &'a Threei<T>)
    requires
        *place is Some,
    ensures
        *place == Some(*t),
{
    match place {
        Some(t) => t,
        None => vstd::pervasive::unreached(),
    }
}

/// What the leaf folds the arguments to.
pub open spec fn leaf_value(target_cageid: u64, args: CallArgs) -> u64 {
    target_cageid ^ args.arg1.wrapping_add(args.arg1_cageid) ^ args.arg2.wrapping_add(
        args.arg2_cageid,
    ) ^ args.arg3.wrapping_add(args.arg3_cageid) ^ args.arg4.wrapping_add(args.arg4_cageid)
        ^ args.arg5.wrapping_add(args.arg5_cageid) ^ args.arg6.wrapping_add(args.arg6_cageid)
}

/// Whether the leaf makes a host syscall.
pub fn leaf_calls_host(cfg: &Config) -> (host: bool)
    ensures
        host == (cfg.leaf_mode == 1),
{
    cfg.leaf_mode == 1
}

/// The value that the leaf returns, once it has made the host syscall where it is
/// to make one: the low half of the folded arguments.
pub fn raw_leaf(
    target_cageid: u64,
    arg1: u64,
    arg1_cageid: u64,
    arg2: u64,
    arg2_cageid: u64,
    arg3: u64,
    arg3_cageid: u64,
    arg4: u64,
    arg4_cageid: u64,
    arg5: u64,
    arg5_cageid: u64,
    arg6: u64,
    arg6_cageid: u64,
) -> (r: i32)
    ensures
        r == leaf_value(
            target_cageid,
            CallArgs {
                arg1,
                arg1_cageid,
                arg2,
                arg2_cageid,
                arg3,
                arg3_cageid,
                arg4,
                arg4_cageid,
                arg5,
                arg5_cageid,
                arg6,
                arg6_cageid,
            },
        ) as i32,
{
    let acc: u64 = target_cageid ^ arg1.wrapping_add(arg1_cageid) ^ arg2.wrapping_add(arg2_cageid)
        ^ arg3.wrapping_add(arg3_cageid) ^ arg4.wrapping_add(arg4_cageid) ^ arg5.wrapping_add(
        arg5_cageid,
    ) ^ arg6.wrapping_add(arg6_cageid);
    #[verifier::truncate]
    (acc as i32)
}

/// The argument cage ids of a call.
pub open spec fn arg_cages(args: CallArgs) -> [u64; 6] {
    [
        args.arg1_cageid,
        args.arg2_cageid,
        args.arg3_cageid,
        args.arg4_cageid,
        args.arg5_cageid,
        args.arg6_cageid,
    ]
}

/// The argument words of a call.
pub open spec fn arg_words(args: CallArgs) -> [u64; 6] {
    [args.arg1, args.arg2, args.arg3, args.arg4, args.arg5, args.arg6]
}

impl CallArgs {
    /// The argument cage ids.
    pub fn cages(&self) -> (cages: [u64; 6])
        ensures
            cages == arg_cages(*self),
    {
        [
            self.arg1_cageid,
            self.arg2_cageid,
            self.arg3_cageid,
            self.arg4_cageid,
            self.arg5_cageid,
            self.arg6_cageid,
        ]
    }

    /// The argument words.
    pub fn words(&self) -> (words: [u64; 6])
        ensures
            words == arg_words(*self),
    {
        [self.arg1, self.arg2, self.arg3, self.arg4, self.arg5, self.arg6]
    }
}

/// What the filter sees of a call: the syscall number, the cages, and the arguments.
pub open spec fn hook_ctx<'a, T: HandlerTable + ?Sized>(
    t: &'a Threei<T>,
    self_cageid: u64,
    syscall_num: u64,
    target_cageid: u64,
    args: CallArgs,
) -> Ctx<'a> {
    Ctx {
        self_cage: self_cageid,
        target_cage: target_cageid,
        syscall_num,
        args: arg_words(args),
        arg_cageids: arg_cages(args),
        lineage: &t.lineage,
    }
}

/// The policy can be decided for a call: it inspects at most the six argument
/// cages, those that it comes to are in the tables, and a filter is installed and
/// returns.
pub open spec fn policy_ready<T: HandlerTable + ?Sized>(
    t: &Threei<T>,
    cfg: &Config,
    self_cageid: u64,
    syscall_num: u64,
    target_cageid: u64,
    args: CallArgs,
) -> bool {
    let ids = crate::cage::checked_ids(target_cageid, arg_cages(args)@, cfg.ncheck as nat);
    let parents = t.lineage.parents();
    let max = crate::handler::MAX_CAGES;
    cfg.policy_kind == P_NONE || (cfg.ncheck <= 6 && if cfg.policy_kind == P_SUBTREE_WALK {
        forall|i: int|
            0 <= i < ids.len() ==> crate::cage::walkable(parents, self_cageid, #[trigger] ids[i])
                || (exists|j: int|
                0 <= j < i && !crate::cage::descends(parents, self_cageid, #[trigger] ids[j]))
    } else if cfg.policy_kind == P_SUBTREE_BITS {
        forall|i: int|
            0 <= i < ids.len() ==> (#[trigger] ids[i] < max && self_cageid < max) || (exists|j: int|
                0 <= j < i && !t.lineage.row_holds(self_cageid, #[trigger] ids[j]))
    } else if cfg.policy_kind == P_GRANTS_HASH {
        self_cageid < max
    } else if cfg.policy_kind == P_GRANTS_BITS {
        self_cageid < max && forall|i: int|
            0 <= i < ids.len() ==> (#[trigger] ids[i] == self_cageid || ids[i] < max) || (
            exists|j: int| 0 <= j < i && !t.grants.allows(self_cageid, #[trigger] ids[j]))
    } else if cfg.policy_kind == P_BPF {
        cfg.bpf_prog matches Some((prog, bits)) && crate::bpf::exec(
            prog.insns@,
            hook_ctx(t, self_cageid, syscall_num, target_cageid, args),
            bits,
        ) is Returned
    } else {
        true
    })
}

/// The policy lets the call through.
pub open spec fn policy_allows<T: HandlerTable + ?Sized>(
    t: &Threei<T>,
    cfg: &Config,
    self_cageid: u64,
    syscall_num: u64,
    target_cageid: u64,
    args: CallArgs,
) -> bool {
    let ids = crate::cage::checked_ids(target_cageid, arg_cages(args)@, cfg.ncheck as nat);
    if cfg.policy_kind == P_SUBTREE_WALK {
        forall|i: int|
            0 <= i < ids.len() ==> crate::cage::descends(
                t.lineage.parents(),
                self_cageid,
                #[trigger] ids[i],
            )
    } else if cfg.policy_kind == P_SUBTREE_BITS {
        forall|i: int|
            0 <= i < ids.len() ==> t.lineage.row_holds(self_cageid, #[trigger] ids[i])
    } else if cfg.policy_kind == P_GRANTS_HASH || cfg.policy_kind == P_GRANTS_BITS {
        forall|i: int| 0 <= i < ids.len() ==> t.grants.allows(self_cageid, #[trigger] ids[i])
    } else if cfg.policy_kind == P_BPF {
        cfg.bpf_prog matches Some((prog, bits)) && crate::bpf::exec(
            prog.insns@,
            hook_ctx(t, self_cageid, syscall_num, target_cageid, args),
            bits,
        ) == crate::bpf::Outcome::Returned(ALLOW)
    } else {
        true
    }
}

/// The cage ids that a policy checks: the target and the first `n` argument cages.
fn ids_to_check(target_cageid: u64, args: &CallArgs, n: usize) -> (ids: Vec<u64>)
    requires
        n <= 6,
    ensures
        ids@ == crate::cage::checked_ids(target_cageid, arg_cages(*args)@, n as nat),
{
    let cages: [u64; 6] = args.cages();
    let mut ids: Vec<u64> = Vec::with_capacity(7);
    ids.push(target_cageid);
    let mut i: usize = 0;
    while i < n
        invariant
            i <= n <= 6,
            ids@ == crate::cage::checked_ids(target_cageid, cages@, i as nat),
        decreases n - i,
    {
        ids.push(cages[i]);
        i = i + 1;
        assert(ids@ =~= crate::cage::checked_ids(target_cageid, cages@, i as nat));
    }
    ids
}

/// Whether the policy lets a call through. The subtree and grant policies look at the
/// target cage and the first `ncheck` argument cages, seen from the calling cage; a
/// filter sees the whole call.
pub fn policy_ok<T: HandlerTable + ?Sized>(
    t: &Threei<T>,
    cfg: &Config,
    self_cageid: u64,
    syscall_num: u64,
    target_cageid: u64,
    args: &CallArgs,
) -> (ok: bool)
    requires
        t.wf(),
        policy_ready(t, cfg, self_cageid, syscall_num, target_cageid, *args),
    ensures
        ok == policy_allows(t, cfg, self_cageid, syscall_num, target_cageid, *args),
{
    try_policy(t, cfg, self_cageid, syscall_num, target_cageid, args).unwrap()
}

/// Whether the policy lets a call through; nothing where the policy cannot be decided.
pub fn try_policy<T: HandlerTable + ?Sized>(
    t: &Threei<T>,
    cfg: &Config,
    self_cageid: u64,
    syscall_num: u64,
    target_cageid: u64,
    args: &CallArgs,
) -> (ok: Option<bool>)
    requires
        t.wf(),
    ensures
        ok is Some <==> policy_ready(t, cfg, self_cageid, syscall_num, target_cageid, *args),
        ok matches Some(allowed) ==> allowed == policy_allows(
            t,
            cfg,
            self_cageid,
            syscall_num,
            target_cageid,
            *args,
        ),
{
    let kind: u8 = cfg.policy_kind;
    if kind == P_NONE {
        return Some(true);
    }
    if cfg.ncheck > 6 {
        return None;
    }
    let checked: Vec<u64> = ids_to_check(target_cageid, args, cfg.ncheck);
    let ids: &[u64] = checked.as_slice();
    if kind == P_SUBTREE_WALK {
        t.lineage.try_all_in_subtree_walk(self_cageid, ids)
    } else if kind == P_SUBTREE_BITS {
        t.lineage.try_all_in_subtree_bits(self_cageid, ids)
    } else if kind == P_GRANTS_HASH {
        if self_cageid < MAX_CAGES as u64 {
            Some(t.grants.all_allowed_hash(self_cageid, ids))
        } else {
            None
        }
    } else if kind == P_GRANTS_BITS {
        if self_cageid < MAX_CAGES as u64 {
            t.grants.try_all_allowed_bits(self_cageid, ids)
        } else {
            None
        }
    } else if kind == P_BPF {
        match &cfg.bpf_prog {
            Some((prog, use_bits)) => {
                let ctx = Ctx {
                    self_cage: self_cageid,
                    target_cage: target_cageid,
                    syscall_num,
                    args: args.words(),
                    arg_cageids: args.cages(),
                    lineage: &t.lineage,
                };
                match prog.try_run(&ctx, *use_bits) {
                    Outcome::Returned(v) => Some(v == ALLOW),
                    _ => None,
                }
            },
            None => None,
        }
    } else {
        Some(true)
    }
}

/// Where a call goes that has handler `h`.
pub open spec fn routed(h: Option<Handler>, target_cageid: u64, args: CallArgs) -> Action {
    match h {
        Some(h) => match h.kind {
            HandlerKind::Raw => Action::CallRaw { fnptr: h.fnptr, target_cageid, args },
            HandlerKind::Grate => Action::CallGrate { grateid: h.grateid, fnptr: h.fnptr, args },
        },
        None => Action::Return(ENOSYS),
    }
}

/// Where a call goes that has handler `h`.
fn route(h: Option<Handler>, target_cageid: u64, args: &CallArgs) -> (action: Action)
    ensures
        action == routed(h, target_cageid, *args),
{
    match h {
        Some(h) => match h.kind {
            HandlerKind::Raw => Action::CallRaw { fnptr: h.fnptr, target_cageid, args: *args },
            HandlerKind::Grate => Action::CallGrate {
                grateid: h.grateid,
                fnptr: h.fnptr,
                args: *args,
            },
        },
        None => Action::Return(ENOSYS),
    }
}

/// A call can be decided: its policy can, and if that lets it through, its handler
/// can be looked up.
pub open spec fn call_ready<T: HandlerTable + ?Sized>(
    t: &Threei<T>,
    cfg: &Config,
    self_cageid: u64,
    syscall_num: u64,
    target_cageid: u64,
    args: CallArgs,
) -> bool {
    &&& t.wf()
    &&& policy_ready(t, cfg, self_cageid, syscall_num, target_cageid, args)
    &&& policy_allows(t, cfg, self_cageid, syscall_num, target_cageid, args) ==> t.table.can_get(
        self_cageid,
        syscall_num,
    )
}

/// What is done with a call: the policy refuses it, or its handler is called.
pub open spec fn decided<T: HandlerTable + ?Sized>(
    t: &Threei<T>,
    cfg: &Config,
    self_cageid: u64,
    syscall_num: u64,
    target_cageid: u64,
    args: CallArgs,
) -> Action {
    if policy_allows(t, cfg, self_cageid, syscall_num, target_cageid, args) {
        routed(t.table.lookup(self_cageid, syscall_num), target_cageid, args)
    } else {
        Action::Return(EACCES)
    }
}

/// Decides a call, whatever it names; nothing where it cannot be decided. The call is
/// not counted.
pub fn try_syscall<T: HandlerTable + ?Sized>(
    t: &Threei<T>,
    cfg: &Config,
    self_cageid: u64,
    syscall_num: u64,
    target_cageid: u64,
    args: &CallArgs,
) -> (action: Option<Action>)
    requires
        t.wf(),
    ensures
        action is Some <==> call_ready(t, cfg, self_cageid, syscall_num, target_cageid, *args),
        action matches Some(a) ==> a == decided(
            t,
            cfg,
            self_cageid,
            syscall_num,
            target_cageid,
            *args,
        ),
{
    match try_policy(t, cfg, self_cageid, syscall_num, target_cageid, args) {
        Some(true) => if t.table.answers(self_cageid, syscall_num) {
            Some(route(t.table.get(self_cageid, syscall_num), target_cageid, args))
        } else {
            None
        },
        Some(false) => Some(Action::Return(EACCES)),
        None => None,
    }
}

/// The refused calls are counted, and nothing else changes.
pub open spec fn counted<T: HandlerTable + ?Sized>(
    before: Threei<T>,
    after: Threei<T>,
    refused: bool,
) -> bool {
    &&& after.table == before.table
    &&& after.lineage == before.lineage
    &&& after.grants == before.grants
    &&& after.denied == (if refused {
        before.denied.wrapping_add(1)
    } else {
        before.denied
    })
}

/// Decides a call from all sixteen of its arguments.
pub fn make_syscall<T: HandlerTable + ?Sized>(
    t: &mut Threei<T>,
    cfg: &Config,
    self_cageid: u64,
    syscall_num: u64,
    _syscall_name: u64,
    target_cageid: u64,
    arg1: u64,
    arg1_cageid: u64,
    arg2: u64,
    arg2_cageid: u64,
    arg3: u64,
    arg3_cageid: u64,
    arg4: u64,
    arg4_cageid: u64,
    arg5: u64,
    arg5_cageid: u64,
    arg6: u64,
    arg6_cageid: u64,
) -> (action: Action)
    requires
        call_ready(
            old(t),
            cfg,
            self_cageid,
            syscall_num,
            target_cageid,
            (CallArgs {
                arg1,
                arg1_cageid,
                arg2,
                arg2_cageid,
                arg3,
                arg3_cageid,
                arg4,
                arg4_cageid,
                arg5,
                arg5_cageid,
                arg6,
                arg6_cageid,
            }),
        ),
    ensures
        action == decided(
            old(t),
            cfg,
            self_cageid,
            syscall_num,
            target_cageid,
            (CallArgs {
                arg1,
                arg1_cageid,
                arg2,
                arg2_cageid,
                arg3,
                arg3_cageid,
                arg4,
                arg4_cageid,
                arg5,
                arg5_cageid,
                arg6,
                arg6_cageid,
            }),
        ),
        counted(
            *old(t),
            *final(t),
            !policy_allows(
                old(t),
                cfg,
                self_cageid,
                syscall_num,
                target_cageid,
                (CallArgs {
                    arg1,
                    arg1_cageid,
                    arg2,
                    arg2_cageid,
                    arg3,
                    arg3_cageid,
                    arg4,
                    arg4_cageid,
                    arg5,
                    arg5_cageid,
                    arg6,
                    arg6_cageid,
                }),
            ),
        ),
{
    let args = CallArgs {
        arg1,
        arg1_cageid,
        arg2,
        arg2_cageid,
        arg3,
        arg3_cageid,
        arg4,
        arg4_cageid,
        arg5,
        arg5_cageid,
        arg6,
        arg6_cageid,
    };
    if !policy_ok(t, cfg, self_cageid, syscall_num, target_cageid, &args) {
        t.denied = t.denied.wrapping_add(1);
        return Action::Return(EACCES);
    }
    route(t.table.get(self_cageid, syscall_num), target_cageid, &args)
}

/// The arguments of a narrow call, with the cage ids that are pinned in the table.
pub open spec fn pinned_args(
    cages: [u64; 6],
    arg1: u64,
    arg2: u64,
    arg3: u64,
    arg4: u64,
    arg5: u64,
    arg6: u64,
) -> CallArgs {
    CallArgs {
        arg1,
        arg1_cageid: cages@[0],
        arg2,
        arg2_cageid: cages@[1],
        arg3,
        arg3_cageid: cages@[2],
        arg4,
        arg4_cageid: cages@[3],
        arg5,
        arg5_cageid: cages@[4],
        arg6,
        arg6_cageid: cages@[5],
    }
}

/// What is done with a narrow call: its handler is called, for the calling cage.
pub open spec fn decided_narrow<T: HandlerTable + ?Sized>(
    t: &Threei<T>,
    current_cage: u64,
    syscall_num: u64,
    arg1: u64,
    arg2: u64,
    arg3: u64,
    arg4: u64,
    arg5: u64,
    arg6: u64,
) -> Action {
    match t.table.lookup(current_cage, syscall_num) {
        Some(h) => routed(
            Some(h),
            current_cage,
            pinned_args(h.arg_cageids, arg1, arg2, arg3, arg4, arg5, arg6),
        ),
        None => Action::Return(ENOSYS),
    }
}

/// Decides a call from its number and its six arguments. The runtime knows the
/// calling cage, and the argument cage ids come from the table, so that a caller
/// can choose neither. A raw handler acts on the calling cage.
pub fn make_syscall_narrow<T: HandlerTable + ?Sized>(
    t: &Threei<T>,
    current_cage: u64,
    syscall_num: u64,
    arg1: u64,
    arg2: u64,
    arg3: u64,
    arg4: u64,
    arg5: u64,
    arg6: u64,
) -> (action: Action)
    requires
        t.wf(),
        t.table.can_get(current_cage, syscall_num),
    ensures
        action == decided_narrow(
            t,
            current_cage,
            syscall_num,
            arg1,
            arg2,
            arg3,
            arg4,
            arg5,
            arg6,
        ),
{
    match t.table.get(current_cage, syscall_num) {
        Some(h) => {
            let a: [u64; 6] = h.arg_cageids;
            let args = CallArgs {
                arg1,
                arg1_cageid: a[0],
                arg2,
                arg2_cageid: a[1],
                arg3,
                arg3_cageid: a[2],
                arg4,
                arg4_cageid: a[3],
                arg5,
                arg5_cageid: a[4],
                arg6,
                arg6_cageid: a[5],
            };
            route(Some(h), current_cage, &args)
        },
        None => Action::Return(ENOSYS),
    }
}

/// Twelve words as six arguments, each followed by its cage id.
pub open spec fn args_of(words: [u64; 12]) -> CallArgs {
    CallArgs {
        arg1: words@[0],
        arg1_cageid: words@[1],
        arg2: words@[2],
        arg2_cageid: words@[3],
        arg3: words@[4],
        arg3_cageid: words@[5],
        arg4: words@[6],
        arg4_cageid: words@[7],
        arg5: words@[8],
        arg5_cageid: words@[9],
        arg6: words@[10],
        arg6_cageid: words@[11],
    }
}

/// Decides a call that a grate makes: the same call, reached from inside wasm.
pub fn from_grate<T: HandlerTable + ?Sized>(
    t: &mut Threei<T>,
    cfg: &Config,
    self_cageid: u64,
    syscall_num: u64,
    target_cageid: u64,
    args: [u64; 12],
) -> (action: Action)
    requires
        call_ready(old(t), cfg, self_cageid, syscall_num, target_cageid, args_of(args)),
    ensures
        action == decided(
            old(t),
            cfg,
            self_cageid,
            syscall_num,
            target_cageid,
            args_of(args),
        ),
        counted(
            *old(t),
            *final(t),
            !policy_allows(old(t), cfg, self_cageid, syscall_num, target_cageid, args_of(args)),
        ),
        action matches Action::CallRaw { args: a, .. } ==> {
            &&& a.arg1 == args@[0] && a.arg1_cageid == args@[1]
            &&& a.arg2 == args@[2] && a.arg2_cageid == args@[3]
            &&& a.arg3 == args@[4] && a.arg3_cageid == args@[5]
            &&& a.arg4 == args@[6] && a.arg4_cageid == args@[7]
            &&& a.arg5 == args@[8] && a.arg5_cageid == args@[9]
            &&& a.arg6 == args@[10] && a.arg6_cageid == args@[11]
        },
        action matches Action::CallGrate { args: a, .. } ==> {
            &&& a.arg1 == args@[0] && a.arg1_cageid == args@[1]
            &&& a.arg2 == args@[2] && a.arg2_cageid == args@[3]
            &&& a.arg3 == args@[4] && a.arg3_cageid == args@[5]
            &&& a.arg4 == args@[6] && a.arg4_cageid == args@[7]
            &&& a.arg5 == args@[8] && a.arg5_cageid == args@[9]
            &&& a.arg6 == args@[10] && a.arg6_cageid == args@[11]
        },
{
    make_syscall(
        t,
        cfg,
        self_cageid,
        syscall_num,
        0,
        target_cageid,
        args[0],
        args[1],
        args[2],
        args[3],
        args[4],
        args[5],
        args[6],
        args[7],
        args[8],
        args[9],
        args[10],
        args[11],
    )
}

/// `h` is now the handler of syscall `callnum` of `cage`, as the table keeps it,
/// and nothing else has changed.
pub open spec fn registered<T: HandlerTable + ?Sized>(
    before: Threei<T>,
    after: Threei<T>,
    cage: u64,
    callnum: u64,
    h: Handler,
) -> bool {
    &&& after.wf()
    &&& after.lineage == before.lineage
    &&& after.grants == before.grants
    &&& after.denied == before.denied
    &&& after.table.lookup(cage, callnum) == Some(before.table.recorded(h))
    &&& crate::handler::same_route(h, before.table.recorded(h))
    &&& forall|c: u64, n: u64|
        !(c == cage && n == callnum) ==> #[trigger] after.table.lookup(c, n)
            == before.table.lookup(c, n)
    &&& forall|c: u64, n: u64| #[trigger]
        after.table.can_register(c, n) == before.table.can_register(c, n)
    &&& forall|c: u64, n: u64| #[trigger]
        after.table.can_get(c, n) == (if c == cage {
            before.table.can_register(c, n)
        } else {
            before.table.can_get(c, n)
        })
    &&& forall|g: Handler| #[trigger] after.table.recorded(g) == before.table.recorded(g)
}

/// The handler that calls the host function at `leaf`.
pub open spec fn raw_handler(leaf: u64, arg_cageids: [u64; 6]) -> Handler {
    Handler { kind: HandlerKind::Raw, grateid: RAWPOSIX_CAGEID, fnptr: leaf, arg_cageids }
}

/// The handler that enters the grate `grateid` at its function `fnptr`.
pub open spec fn grate_handler(grateid: u64, fnptr: u64) -> Handler {
    Handler {
        kind: HandlerKind::Grate,
        grateid,
        fnptr,
        arg_cageids: crate::handler::unpinned(),
    }
}

/// Lets the host function at `leaf` serve syscall `callnum` of `cage`.
pub fn register_raw<T: HandlerTable + ?Sized>(
    t: &mut Threei<T>,
    leaf: u64,
    cage: u64,
    callnum: u64,
)
    requires
        old(t).wf(),
        old(t).table.can_register(cage, callnum),
    ensures
        registered(
            *old(t),
            *final(t),
            cage,
            callnum,
            raw_handler(leaf, crate::handler::unpinned()),
        ),
{
    let mut h: Handler = Handler::raw(leaf);
    h.grateid = RAWPOSIX_CAGEID;
    t.table.register(cage, callnum, h);
}

/// Lets the host function at `leaf` serve syscall `callnum` of `cage`, with pinned
/// argument cage ids.
pub fn register_raw_with_argcages<T: HandlerTable + ?Sized>(
    t: &mut Threei<T>,
    leaf: u64,
    cage: u64,
    callnum: u64,
    arg_cageids: [u64; 6],
)
    requires
        old(t).wf(),
        old(t).table.can_register(cage, callnum),
    ensures
        registered(*old(t), *final(t), cage, callnum, raw_handler(leaf, arg_cageids)),
{
    let mut h: Handler = Handler::raw(leaf);
    h.grateid = RAWPOSIX_CAGEID;
    h.arg_cageids = arg_cageids;
    t.table.register(cage, callnum, h);
}

/// Lets the grate `grateid` serve syscall `callnum` of `cage`, at its function
/// `fnptr`.
pub fn register_grate<T: HandlerTable + ?Sized>(
    t: &mut Threei<T>,
    cage: u64,
    callnum: u64,
    grateid: u64,
    fnptr: u64,
)
    requires
        old(t).wf(),
        old(t).table.can_register(cage, callnum),
    ensures
        registered(*old(t), *final(t), cage, callnum, grate_handler(grateid, fnptr)),
{
    t.table.register(cage, callnum, Handler::grate(grateid, fnptr));
}

/// A dispatcher stays when another one is asked for, with all that was done to it since
/// it was put into its place.
pub proof fn law_the_first_dispatcher_stays<T: HandlerTable + ?Sized>(
    now: Threei<T>,
    after: Option<Threei<T>>,
    table: Box<T>,
)
    requires
        initialised(Some(now), after, table),
    ensures
        after == Some(now),
{
}

/// The first dispatcher that is asked for is made, over the table that it was asked for.
pub proof fn law_the_first_dispatcher_is_made<T: HandlerTable + ?Sized>(
    after: Option<Threei<T>>,
    table: Box<T>,
)
    requires
        initialised(None, after, table),
    ensures
        after matches Some(t) && t.table == table && t.denied == 0 && just_made(t, table),
{
}

/// The calls that the policy refuses are answered `EACCES`, whatever their handler is,
/// and no other call is.
pub proof fn law_refused_calls_get_eacces<T: HandlerTable + ?Sized>(
    t: &Threei<T>,
    cfg: &Config,
    self_cageid: u64,
    syscall_num: u64,
    target_cageid: u64,
    args: CallArgs,
)
    ensures
        decided(t, cfg, self_cageid, syscall_num, target_cageid, args) == Action::Return(EACCES)
            <==> !policy_allows(t, cfg, self_cageid, syscall_num, target_cageid, args),
{
}

/// Without a policy every call is routed by the table alone.
pub proof fn law_unchecked_calls_are_routed<T: HandlerTable + ?Sized>(
    t: &Threei<T>,
    cfg: &Config,
    self_cageid: u64,
    syscall_num: u64,
    target_cageid: u64,
    args: CallArgs,
)
    requires
        cfg.policy_kind == P_NONE,
    ensures
        decided(t, cfg, self_cageid, syscall_num, target_cageid, args) == routed(
            t.table.lookup(self_cageid, syscall_num),
            target_cageid,
            args,
        ),
{
}

/// A call that the policy lets through reaches the host function that was
/// registered for it, with the target and the arguments of the call.
pub proof fn law_raw_calls_reach_their_leaf<T: HandlerTable + ?Sized>(
    before: Threei<T>,
    after: Threei<T>,
    cfg: &Config,
    leaf: u64,
    pinned: [u64; 6],
    cage: u64,
    callnum: u64,
    target_cageid: u64,
    args: CallArgs,
)
    requires
        registered(before, after, cage, callnum, raw_handler(leaf, pinned)),
        policy_allows(&after, cfg, cage, callnum, target_cageid, args),
    ensures
        decided(&after, cfg, cage, callnum, target_cageid, args) == (Action::CallRaw {
            fnptr: leaf,
            target_cageid,
            args,
        }),
{
}

/// A call that the policy lets through enters the grate that was registered for it,
/// at the function that was registered, with the arguments of the call.
pub proof fn law_grate_calls_enter_their_grate<T: HandlerTable + ?Sized>(
    before: Threei<T>,
    after: Threei<T>,
    cfg: &Config,
    grateid: u64,
    fnptr: u64,
    cage: u64,
    callnum: u64,
    target_cageid: u64,
    args: CallArgs,
)
    requires
        grateid != RAWPOSIX_CAGEID,
        registered(before, after, cage, callnum, grate_handler(grateid, fnptr)),
        policy_allows(&after, cfg, cage, callnum, target_cageid, args),
    ensures
        decided(&after, cfg, cage, callnum, target_cageid, args) == (Action::CallGrate {
            grateid,
            fnptr,
            args,
        }),
{
}

/// A narrow call is the wide call without a policy whose target is the caller and
/// whose argument cage ids are the pinned ones.
pub proof fn law_narrow_is_wide_with_pinned_cages<T: HandlerTable + ?Sized>(
    t: &Threei<T>,
    cfg: &Config,
    current_cage: u64,
    syscall_num: u64,
    pinned: [u64; 6],
    arg1: u64,
    arg2: u64,
    arg3: u64,
    arg4: u64,
    arg5: u64,
    arg6: u64,
)
    requires
        cfg.policy_kind == P_NONE,
        t.table.lookup(current_cage, syscall_num) matches Some(h) ==> h.arg_cageids == pinned,
    ensures
        decided_narrow(t, current_cage, syscall_num, arg1, arg2, arg3, arg4, arg5, arg6) == decided(
            t,
            cfg,
            current_cage,
            syscall_num,
            current_cage,
            pinned_args(pinned, arg1, arg2, arg3, arg4, arg5, arg6),
        ),
{
}

/// A narrow call carries the argument cage ids that its handler was registered with.
pub proof fn law_narrow_calls_carry_pinned_cages<T: HandlerTable + ?Sized>(
    before: Threei<T>,
    after: Threei<T>,
    leaf: u64,
    pinned: [u64; 6],
    cage: u64,
    callnum: u64,
    arg1: u64,
    arg2: u64,
    arg3: u64,
    arg4: u64,
    arg5: u64,
    arg6: u64,
)
    requires
        registered(before, after, cage, callnum, raw_handler(leaf, pinned)),
    ensures
        decided_narrow(&after, cage, callnum, arg1, arg2, arg3, arg4, arg5, arg6) == (
        Action::CallRaw {
            fnptr: leaf,
            target_cageid: cage,
            args: pinned_args(pinned, arg1, arg2, arg3, arg4, arg5, arg6),
        }),
{
}

/// With the filter of an allowlist installed, exactly the calls of the listed syscalls
/// are let through.
pub proof fn law_allowlist_filter_lets_listed_calls_through<T: HandlerTable + ?Sized>(
    t: &Threei<T>,
    cfg: &Config,
    listed: Seq<u64>,
    self_cageid: u64,
    syscall_num: u64,
    target_cageid: u64,
    args: CallArgs,
)
    requires
        cfg.policy_kind == P_BPF,
        cfg.bpf_prog matches Some((prog, _)) && prog.insns@ == crate::bpf::allowlist_insns(listed),
        cfg.ncheck <= 6,
    ensures
        policy_ready(t, cfg, self_cageid, syscall_num, target_cageid, args),
        policy_allows(t, cfg, self_cageid, syscall_num, target_cageid, args) == listed.contains(
            syscall_num,
        ),
{
    let (_, use_bits) = cfg.bpf_prog.unwrap();
    let ctx = hook_ctx(t, self_cageid, syscall_num, target_cageid, args);
    crate::bpf::law_allowlist_verdict(listed, ctx, use_bits);
}

/// The subtree policy and the subtree filter agree: with the filter for `ncheck`
/// argument cages installed, a call is let through exactly when the policy on the
/// same representation lets it through.
pub proof fn law_subtree_filter_is_the_subtree_policy<T: HandlerTable + ?Sized>(
    t: &Threei<T>,
    policy: &Config,
    filter: &Config,
    use_bits: bool,
    self_cageid: u64,
    syscall_num: u64,
    target_cageid: u64,
    args: CallArgs,
)
    requires
        policy.policy_kind == (if use_bits {
            P_SUBTREE_BITS
        } else {
            P_SUBTREE_WALK
        }),
        filter.policy_kind == P_BPF,
        filter.bpf_prog matches Some((prog, bits)) && prog.insns@
            == crate::bpf::subtree_check_insns(policy.ncheck as nat) && bits == use_bits,
        filter.ncheck <= 6,
        policy_ready(t, policy, self_cageid, syscall_num, target_cageid, args),
    ensures
        policy_ready(t, filter, self_cageid, syscall_num, target_cageid, args),
        policy_allows(t, filter, self_cageid, syscall_num, target_cageid, args) == policy_allows(
            t,
            policy,
            self_cageid,
            syscall_num,
            target_cageid,
            args,
        ),
{
    let ctx = hook_ctx(t, self_cageid, syscall_num, target_cageid, args);
    let ids = crate::cage::checked_ids(target_cageid, arg_cages(args)@, policy.ncheck as nat);
    assert(crate::bpf::checkable(ctx, use_bits, ids));
    crate::bpf::law_subtree_filter_verdict(policy.ncheck as nat, ctx, use_bits);
}

/// In a tree the two subtree policies agree on calls that only name cages that
/// exist.
pub proof fn law_subtree_policies_agree<T: HandlerTable + ?Sized>(
    t: &Threei<T>,
    walk: &Config,
    bits: &Config,
    self_cageid: u64,
    syscall_num: u64,
    target_cageid: u64,
    args: CallArgs,
)
    requires
        t.wf(),
        t.lineage.tree(),
        walk.policy_kind == P_SUBTREE_WALK,
        bits.policy_kind == P_SUBTREE_BITS,
        walk.ncheck == bits.ncheck,
        walk.ncheck <= 6,
        t.lineage.live(target_cageid),
        forall|i: int| 0 <= i < walk.ncheck ==> t.lineage.live(#[trigger] arg_cages(args)@[i]),
    ensures
        policy_allows(t, walk, self_cageid, syscall_num, target_cageid, args) == policy_allows(
            t,
            bits,
            self_cageid,
            syscall_num,
            target_cageid,
            args,
        ),
{
    let cages = arg_cages(args)@;
    let ids = crate::cage::checked_ids(target_cageid, cages, walk.ncheck as nat);
    assert forall|i: int| 0 <= i < ids.len() implies t.lineage.row_holds(
        self_cageid,
        #[trigger] ids[i],
    ) == crate::cage::descends(t.lineage.parents(), self_cageid, ids[i]) by {
        if i > 0 {
            assert(ids[i] == cages[i - 1]);
        }
        crate::cage::law_bits_are_ancestors(t.lineage, self_cageid, ids[i]);
    }
}

/// The two grant policies agree.
pub proof fn law_grant_policies_agree<T: HandlerTable + ?Sized>(
    t: &Threei<T>,
    hash: &Config,
    bits: &Config,
    self_cageid: u64,
    syscall_num: u64,
    target_cageid: u64,
    args: CallArgs,
)
    requires
        hash.policy_kind == P_GRANTS_HASH,
        bits.policy_kind == P_GRANTS_BITS,
        hash.ncheck == bits.ncheck,
    ensures
        policy_allows(t, hash, self_cageid, syscall_num, target_cageid, args) == policy_allows(
            t,
            bits,
            self_cageid,
            syscall_num,
            target_cageid,
            args,
        ),
{
}

/// A cage may always name itself, under the subtree walk and under grants; on the
/// ancestor rows, where it exists.
pub proof fn law_own_cage_is_allowed<T: HandlerTable + ?Sized>(
    t: &Threei<T>,
    cfg: &Config,
    self_cageid: u64,
    syscall_num: u64,
    args: CallArgs,
)
    requires
        cfg.ncheck <= 6,
        cfg.policy_kind != P_BPF,
        cfg.policy_kind == P_SUBTREE_BITS ==> t.lineage.live(self_cageid),
        forall|i: int| 0 <= i < cfg.ncheck ==> #[trigger] arg_cages(args)@[i] == self_cageid,
    ensures
        policy_allows(t, cfg, self_cageid, syscall_num, self_cageid, args),
{
    let own = arg_cages(args)@;
    let ids = crate::cage::checked_ids(self_cageid, own, cfg.ncheck as nat);
    assert forall|i: int| 0 <= i < ids.len() implies #[trigger] ids[i] == self_cageid by {
        if i > 0 {
            assert(ids[i] == own[i - 1]);
        }
    }
    crate::cage::law_subtree_reflexive(t.lineage.parents(), self_cageid);
}

/// The arguments of a call in order: the words, and the cage id of each.
pub proof fn law_arguments_in_order(args: CallArgs)
    ensures
        arg_words(args)@ == seq![args.arg1, args.arg2, args.arg3, args.arg4, args.arg5, args.arg6],
        arg_cages(args)@ == seq![
            args.arg1_cageid,
            args.arg2_cageid,
            args.arg3_cageid,
            args.arg4_cageid,
            args.arg5_cageid,
            args.arg6_cageid,
        ],
{
    assert(arg_words(args)@ =~= seq![
        args.arg1,
        args.arg2,
        args.arg3,
        args.arg4,
        args.arg5,
        args.arg6,
    ]);
    assert(arg_cages(args)@ =~= seq![
        args.arg1_cageid,
        args.arg2_cageid,
        args.arg3_cageid,
        args.arg4_cageid,
        args.arg5_cageid,
        args.arg6_cageid,
    ]);
}

/// A call that a grate makes with twelve words is the call with those arguments: each
/// word at an even place is an argument, and the word behind it the cage id of that
/// argument.
pub proof fn law_grate_words_are_arguments_with_their_cages<T: HandlerTable + ?Sized>(
    t: &Threei<T>,
    cfg: &Config,
    self_cageid: u64,
    syscall_num: u64,
    target_cageid: u64,
    w: [u64; 12],
    i: int,
)
    requires
        0 <= i < 6,
    ensures
        arg_words(args_of(w))@[i] == w@[2 * i],
        arg_cages(args_of(w))@[i] == w@[2 * i + 1],
        decided(t, cfg, self_cageid, syscall_num, target_cageid, args_of(w)) == decided(
            t,
            cfg,
            self_cageid,
            syscall_num,
            target_cageid,
            (CallArgs {
                arg1: w@[0],
                arg1_cageid: w@[1],
                arg2: w@[2],
                arg2_cageid: w@[3],
                arg3: w@[4],
                arg3_cageid: w@[5],
                arg4: w@[6],
                arg4_cageid: w@[7],
                arg5: w@[8],
                arg5_cageid: w@[9],
                arg6: w@[10],
                arg6_cageid: w@[11],
            }),
        ),
{
    law_arguments_in_order(args_of(w));
}

/// Under the subtree walk a call is let through exactly when the target, and each of the
/// first `ncheck` argument cages, descends from the caller.
pub proof fn law_walk_policy_on_arguments<T: HandlerTable + ?Sized>(
    t: &Threei<T>,
    cfg: &Config,
    s: u64,
    syscall_num: u64,
    target: u64,
    args: CallArgs,
)
    requires
        cfg.policy_kind == policy_code(Policy::SubtreeWalk),
        cfg.ncheck <= 6,
    ensures
        policy_allows(t, cfg, s, syscall_num, target, args) <==> {
            let p = t.lineage.parents();
            &&& crate::cage::descends(p, s, target)
            &&& cfg.ncheck >= 1 ==> crate::cage::descends(p, s, args.arg1_cageid)
            &&& cfg.ncheck >= 2 ==> crate::cage::descends(p, s, args.arg2_cageid)
            &&& cfg.ncheck >= 3 ==> crate::cage::descends(p, s, args.arg3_cageid)
            &&& cfg.ncheck >= 4 ==> crate::cage::descends(p, s, args.arg4_cageid)
            &&& cfg.ncheck >= 5 ==> crate::cage::descends(p, s, args.arg5_cageid)
            &&& cfg.ncheck >= 6 ==> crate::cage::descends(p, s, args.arg6_cageid)
        },
{
    lemma_checked_one_by_one(
        target,
        args,
        cfg.ncheck as nat,
        |id: u64| crate::cage::descends(t.lineage.parents(), s, id),
    );
}

/// Under the subtree policy on rows a call is let through exactly when the caller is in
/// the ancestor row of the target and of each of the first `ncheck` argument cages.
pub proof fn law_row_policy_on_arguments<T: HandlerTable + ?Sized>(
    t: &Threei<T>,
    cfg: &Config,
    s: u64,
    syscall_num: u64,
    target: u64,
    args: CallArgs,
)
    requires
        cfg.policy_kind == policy_code(Policy::SubtreeBits),
        cfg.ncheck <= 6,
    ensures
        policy_allows(t, cfg, s, syscall_num, target, args) <==> {
            &&& t.lineage.row_holds(s, target)
            &&& cfg.ncheck >= 1 ==> t.lineage.row_holds(s, args.arg1_cageid)
            &&& cfg.ncheck >= 2 ==> t.lineage.row_holds(s, args.arg2_cageid)
            &&& cfg.ncheck >= 3 ==> t.lineage.row_holds(s, args.arg3_cageid)
            &&& cfg.ncheck >= 4 ==> t.lineage.row_holds(s, args.arg4_cageid)
            &&& cfg.ncheck >= 5 ==> t.lineage.row_holds(s, args.arg5_cageid)
            &&& cfg.ncheck >= 6 ==> t.lineage.row_holds(s, args.arg6_cageid)
        },
{
    lemma_checked_one_by_one(
        target,
        args,
        cfg.ncheck as nat,
        |id: u64| t.lineage.row_holds(s, id),
    );
}

/// Under either grant policy a call is let through exactly when the target, and each of
/// the first `ncheck` argument cages, is the caller or was granted to it.
pub proof fn law_grant_policies_on_arguments<T: HandlerTable + ?Sized>(
    t: &Threei<T>,
    cfg: &Config,
    s: u64,
    syscall_num: u64,
    target: u64,
    args: CallArgs,
)
    requires
        cfg.policy_kind == policy_code(Policy::GrantsHash) || cfg.policy_kind == policy_code(
            Policy::GrantsBits,
        ),
        cfg.ncheck <= 6,
    ensures
        policy_allows(t, cfg, s, syscall_num, target, args) <==> {
            let g = t.grants.granted()[s as int];
            &&& target == s || g.contains(target)
            &&& cfg.ncheck >= 1 ==> args.arg1_cageid == s || g.contains(args.arg1_cageid)
            &&& cfg.ncheck >= 2 ==> args.arg2_cageid == s || g.contains(args.arg2_cageid)
            &&& cfg.ncheck >= 3 ==> args.arg3_cageid == s || g.contains(args.arg3_cageid)
            &&& cfg.ncheck >= 4 ==> args.arg4_cageid == s || g.contains(args.arg4_cageid)
            &&& cfg.ncheck >= 5 ==> args.arg5_cageid == s || g.contains(args.arg5_cageid)
            &&& cfg.ncheck >= 6 ==> args.arg6_cageid == s || g.contains(args.arg6_cageid)
        },
{
    lemma_checked_one_by_one(target, args, cfg.ncheck as nat, |id: u64| t.grants.allows(s, id));
}

/// What holds of every checked id holds of the target and of the argument cages that are
/// checked.
proof fn lemma_checked_one_by_one(target: u64, args: CallArgs, n: nat, p: spec_fn(u64) -> bool)
    requires
        n <= 6,
    ensures
        (forall|i: int|
            0 <= i < crate::cage::checked_ids(target, arg_cages(args)@, n).len() ==> p(
                #[trigger] crate::cage::checked_ids(target, arg_cages(args)@, n)[i],
            )) <==> {
            &&& p(target)
            &&& n >= 1 ==> p(args.arg1_cageid)
            &&& n >= 2 ==> p(args.arg2_cageid)
            &&& n >= 3 ==> p(args.arg3_cageid)
            &&& n >= 4 ==> p(args.arg4_cageid)
            &&& n >= 5 ==> p(args.arg5_cageid)
            &&& n >= 6 ==> p(args.arg6_cageid)
        },
{
    let cages = arg_cages(args)@;
    let ids = crate::cage::checked_ids(target, cages, n);
    assert(ids.len() == n + 1 && ids[0] == target);
    assert forall|i: int| 0 <= i < n implies #[trigger] ids[i + 1] == cages[i] by {}
    assert(n >= 1 ==> ids[1] == args.arg1_cageid);
    assert(n >= 2 ==> ids[2] == args.arg2_cageid);
    assert(n >= 3 ==> ids[3] == args.arg3_cageid);
    assert(n >= 4 ==> ids[4] == args.arg4_cageid);
    assert(n >= 5 ==> ids[5] == args.arg5_cageid);
    assert(n >= 6 ==> ids[6] == args.arg6_cageid);
}

/// A call that names a cage outside the caller's subtree among its target and its first
/// `ncheck` argument cages is answered -13, whatever else it says.
pub proof fn law_outsiders_are_refused<T: HandlerTable + ?Sized>(
    t: &Threei<T>,
    cfg: &Config,
    s: u64,
    syscall_num: u64,
    target: u64,
    args: CallArgs,
)
    requires
        cfg.policy_kind == policy_code(Policy::SubtreeWalk),
        cfg.ncheck <= 6,
        ({
            let p = t.lineage.parents();
            ||| !crate::cage::descends(p, s, target)
            ||| cfg.ncheck >= 1 && !crate::cage::descends(p, s, args.arg1_cageid)
            ||| cfg.ncheck >= 2 && !crate::cage::descends(p, s, args.arg2_cageid)
            ||| cfg.ncheck >= 3 && !crate::cage::descends(p, s, args.arg3_cageid)
            ||| cfg.ncheck >= 4 && !crate::cage::descends(p, s, args.arg4_cageid)
            ||| cfg.ncheck >= 5 && !crate::cage::descends(p, s, args.arg5_cageid)
            ||| cfg.ncheck >= 6 && !crate::cage::descends(p, s, args.arg6_cageid)
        }),
    ensures
        decided(t, cfg, s, syscall_num, target, args) == Action::Return((-13) as i32),
{
    law_walk_policy_on_arguments(t, cfg, s, syscall_num, target, args);
}

/// Under a filter a call is let through exactly when the filter, run on the caller, the
/// target, the number, the words and the cages of that call, returns 0.
pub proof fn law_filter_policy_is_the_filters_answer<T: HandlerTable + ?Sized>(
    t: &Threei<T>,
    cfg: &Config,
    s: u64,
    syscall_num: u64,
    target: u64,
    args: CallArgs,
    prog: Arc<Program>,
    use_bits: bool,
    ctx: Ctx,
)
    requires
        cfg.policy_kind == policy_code(Policy::Bpf(prog, use_bits)),
        cfg.bpf_prog == Some((prog, use_bits)),
        ctx.self_cage == s,
        ctx.target_cage == target,
        ctx.syscall_num == syscall_num,
        ctx.args@ == seq![args.arg1, args.arg2, args.arg3, args.arg4, args.arg5, args.arg6],
        ctx.arg_cageids@ == seq![
            args.arg1_cageid,
            args.arg2_cageid,
            args.arg3_cageid,
            args.arg4_cageid,
            args.arg5_cageid,
            args.arg6_cageid,
        ],
        *ctx.lineage == t.lineage,
    ensures
        policy_allows(t, cfg, s, syscall_num, target, args) <==> crate::bpf::exec(
            prog.insns@,
            ctx,
            use_bits,
        ) == crate::bpf::Outcome::Returned(0),
        cfg.ncheck <= 6 ==> (policy_ready(t, cfg, s, syscall_num, target, args)
            <==> crate::bpf::exec(prog.insns@, ctx, use_bits) is Returned),
{
    law_arguments_in_order(args);
    let seen = hook_ctx(t, s, syscall_num, target, args);
    assert(seen.args =~= ctx.args);
    assert(seen.arg_cageids =~= ctx.arg_cageids);
    assert(seen == ctx);
}

/// Without a policy every call is let through, and one whose code is no policy's too.
pub proof fn law_no_policy_refuses_nothing<T: HandlerTable + ?Sized>(
    t: &Threei<T>,
    cfg: &Config,
    s: u64,
    syscall_num: u64,
    target: u64,
    args: CallArgs,
)
    requires
        cfg.policy_kind == policy_code(Policy::Unchecked) || cfg.policy_kind > 5,
    ensures
        policy_allows(t, cfg, s, syscall_num, target, args),
        policy_code(Policy::Unchecked) == 0,
        cfg.policy_kind == policy_code(Policy::Unchecked) ==> policy_ready(
            t,
            cfg,
            s,
            syscall_num,
            target,
            args,
        ),
{
}

/// No two policies have one code, but for filters, which have the same.
pub proof fn law_policies_have_codes_of_their_own(prog: Arc<Program>, bits: bool)
    ensures
        policy_code(Policy::Unchecked) == 0,
        policy_code(Policy::SubtreeWalk) == 1,
        policy_code(Policy::SubtreeBits) == 2,
        policy_code(Policy::GrantsHash) == 3,
        policy_code(Policy::GrantsBits) == 4,
        policy_code(Policy::Bpf(prog, bits)) == 5,
{
}

/// Where the cages form trees, a call that names cage ids can be decided under every
/// policy on subtrees and grants, if no more than six argument cages are checked.
pub proof fn law_calls_that_name_cages_can_be_decided<T: HandlerTable + ?Sized>(
    t: &Threei<T>,
    cfg: &Config,
    s: u64,
    syscall_num: u64,
    target: u64,
    args: CallArgs,
)
    requires
        t.wf(),
        t.lineage.tree(),
        cfg.ncheck <= 6,
        cfg.policy_kind != P_BPF,
        s < 1024,
        target < 1024,
        args.arg1_cageid < 1024,
        args.arg2_cageid < 1024,
        args.arg3_cageid < 1024,
        args.arg4_cageid < 1024,
        args.arg5_cageid < 1024,
        args.arg6_cageid < 1024,
    ensures
        policy_ready(t, cfg, s, syscall_num, target, args),
{
    let ids = crate::cage::checked_ids(target, arg_cages(args)@, cfg.ncheck as nat);
    lemma_checked_one_by_one(target, args, cfg.ncheck as nat, |id: u64| id < 1024);
    let below = |id: u64| id < 1024;
    assert forall|i: int| 0 <= i < ids.len() implies (#[trigger] ids[i]) < 1024
        && crate::cage::walkable(t.lineage.parents(), s, ids[i]) by {
        assert(below(ids[i]));
        crate::cage::law_walks_end_in_tree(t.lineage, s, ids[i]);
    }
}

/// A call can be decided when its policy can and its handler, where it comes to that, can
/// be looked up; without a policy, when its handler can be looked up.
pub proof fn law_when_calls_can_be_decided<T: HandlerTable + ?Sized>(
    t: &Threei<T>,
    cfg: &Config,
    s: u64,
    syscall_num: u64,
    target: u64,
    args: CallArgs,
)
    requires
        t.wf(),
        policy_ready(t, cfg, s, syscall_num, target, args),
    ensures
        t.table.can_get(s, syscall_num) ==> call_ready(t, cfg, s, syscall_num, target, args),
        !policy_allows(t, cfg, s, syscall_num, target, args) ==> call_ready(
            t,
            cfg,
            s,
            syscall_num,
            target,
            args,
        ),
        call_ready(t, cfg, s, syscall_num, target, args) && policy_allows(
            t,
            cfg,
            s,
            syscall_num,
            target,
            args,
        ) ==> t.table.can_get(s, syscall_num),
{
}

/// What becomes of a call that is let through: the handler of the calling cage for that
/// number decides, and the target and the arguments reach it unchanged; without a handler
/// the answer is -38.
pub proof fn law_calls_let_through_follow_their_handler<T: HandlerTable + ?Sized>(
    t: &Threei<T>,
    cfg: &Config,
    s: u64,
    syscall_num: u64,
    target: u64,
    args: CallArgs,
)
    requires
        policy_allows(t, cfg, s, syscall_num, target, args),
    ensures
        t.table.lookup(s, syscall_num) is None ==> decided(t, cfg, s, syscall_num, target, args)
            == Action::Return((-38) as i32),
        t.table.lookup(s, syscall_num) matches Some(h) ==> h.kind == HandlerKind::Raw ==> decided(
            t,
            cfg,
            s,
            syscall_num,
            target,
            args,
        ) == (Action::CallRaw { fnptr: h.fnptr, target_cageid: target, args }),
        t.table.lookup(s, syscall_num) matches Some(h) ==> h.kind == HandlerKind::Grate ==> decided(
            t,
            cfg,
            s,
            syscall_num,
            target,
            args,
        ) == (Action::CallGrate { grateid: h.grateid, fnptr: h.fnptr, args }),
{
}

/// What becomes of a narrow call: the handler of the calling cage gets the six words, each
/// with the cage id pinned at its place, and acts on the calling cage.
pub proof fn law_narrow_calls_follow_their_handler<T: HandlerTable + ?Sized>(
    t: &Threei<T>,
    cage: u64,
    num: u64,
    w: [u64; 6],
)
    ensures
        t.table.lookup(cage, num) is None ==> decided_narrow(
            t,
            cage,
            num,
            w@[0],
            w@[1],
            w@[2],
            w@[3],
            w@[4],
            w@[5],
        ) == Action::Return((-38) as i32),
        t.table.lookup(cage, num) matches Some(h) ==> {
            let args = CallArgs {
                arg1: w@[0],
                arg1_cageid: h.arg_cageids@[0],
                arg2: w@[1],
                arg2_cageid: h.arg_cageids@[1],
                arg3: w@[2],
                arg3_cageid: h.arg_cageids@[2],
                arg4: w@[3],
                arg4_cageid: h.arg_cageids@[3],
                arg5: w@[4],
                arg5_cageid: h.arg_cageids@[4],
                arg6: w@[5],
                arg6_cageid: h.arg_cageids@[5],
            };
            decided_narrow(t, cage, num, w@[0], w@[1], w@[2], w@[3], w@[4], w@[5]) == (
            match h.kind {
                HandlerKind::Raw => Action::CallRaw { fnptr: h.fnptr, target_cageid: cage, args },
                HandlerKind::Grate => Action::CallGrate {
                    grateid: h.grateid,
                    fnptr: h.fnptr,
                    args,
                },
            })
        },
{
}

/// A refused call adds one to the count, modulo the range of the counter, and no call
/// changes anything else.
pub proof fn law_refusals_are_counted<T: HandlerTable + ?Sized>(
    before: Threei<T>,
    after: Threei<T>,
    refused: bool,
)
    requires
        counted(before, after, refused),
    ensures
        !refused ==> after.denied == before.denied,
        refused && before.denied < u64::MAX ==> after.denied == before.denied + 1,
        refused && before.denied == u64::MAX ==> after.denied == 0,
        after.table == before.table,
        after.lineage == before.lineage,
        after.grants == before.grants,
{
}

/// A registration makes the handler the answer to its own call and changes no other
/// answer; what is kept of it leads to the same function of the same target, with the
/// same argument cages.
pub proof fn law_registrations_answer_their_call<T: HandlerTable + ?Sized>(
    before: Threei<T>,
    after: Threei<T>,
    cage: u64,
    callnum: u64,
    h: Handler,
    c: u64,
    n: u64,
)
    requires
        registered(before, after, cage, callnum, h),
    ensures
        after.table.lookup(cage, callnum) matches Some(kept) && kept.grateid == h.grateid
            && kept.fnptr == h.fnptr && kept.arg_cageids == h.arg_cageids && (h.kind == (
        if h.grateid == 1 {
            HandlerKind::Raw
        } else {
            HandlerKind::Grate
        }) ==> kept.kind == h.kind),
        !(c == cage && n == callnum) ==> after.table.lookup(c, n) == before.table.lookup(c, n),
        before.table.can_register(cage, n) ==> after.table.can_get(cage, n),
        after.lineage == before.lineage,
        after.grants == before.grants,
        after.denied == before.denied,
{
}

/// What the two registrations for calls register: the host function under the host's cage
/// id, and the grate under its own.
pub proof fn law_what_is_registered(leaf: u64, pinned: [u64; 6], grateid: u64, fnptr: u64)
    ensures
        raw_handler(leaf, pinned).kind == HandlerKind::Raw,
        raw_handler(leaf, pinned).grateid == 1,
        raw_handler(leaf, pinned).fnptr == leaf,
        raw_handler(leaf, pinned).arg_cageids == pinned,
        grate_handler(grateid, fnptr).kind == HandlerKind::Grate,
        grate_handler(grateid, fnptr).grateid == grateid,
        grate_handler(grateid, fnptr).fnptr == fnptr,
        grate_handler(grateid, fnptr).arg_cageids@ == seq![0u64, 0, 0, 0, 0, 0],
{
    assert(grate_handler(grateid, fnptr).arg_cageids@ =~= seq![0u64, 0, 0, 0, 0, 0]);
}

/// A dispatcher that was just made has the table that it was given, knows cage 0 only,
/// has granted nothing and refused nothing.
pub proof fn law_new_dispatchers_know_cage_zero_only<T: HandlerTable + ?Sized>(
    t: Threei<T>,
    table: Box<T>,
    a: u64,
    b: u64,
)
    requires
        just_made(t, table),
        a < 1024,
        b < 1024,
    ensures
        t.table == table,
        t.denied == 0,
        t.lineage.live(b) <==> b == 0,
        crate::cage::descends(t.lineage.parents(), a, b) <==> a == b,
        t.grants.allows(a, b) <==> a == b,
{
    crate::cage::law_nothing_is_related_at_first(t.lineage, t.grants, a, b);
}

/// The leaf folds a call without arguments to its target, and each argument into it by
/// the sum of the word and its cage id: to put another argument in place of one changes
/// the fold by the two sums.
pub proof fn law_leaf_folds_each_argument(
    target: u64,
    a: CallArgs,
    w: u64,
    c: u64,
)
    ensures
        ({
            let zero = CallArgs {
                arg1: 0,
                arg1_cageid: 0,
                arg2: 0,
                arg2_cageid: 0,
                arg3: 0,
                arg3_cageid: 0,
                arg4: 0,
                arg4_cageid: 0,
                arg5: 0,
                arg5_cageid: 0,
                arg6: 0,
                arg6_cageid: 0,
            };
            leaf_value(target, zero) == target
        }),
        leaf_value(target, CallArgs { arg1: w, arg1_cageid: c, ..a }) == leaf_value(target, a)
            ^ a.arg1.wrapping_add(a.arg1_cageid) ^ w.wrapping_add(c),
        leaf_value(target, CallArgs { arg2: w, arg2_cageid: c, ..a }) == leaf_value(target, a)
            ^ a.arg2.wrapping_add(a.arg2_cageid) ^ w.wrapping_add(c),
        leaf_value(target, CallArgs { arg3: w, arg3_cageid: c, ..a }) == leaf_value(target, a)
            ^ a.arg3.wrapping_add(a.arg3_cageid) ^ w.wrapping_add(c),
        leaf_value(target, CallArgs { arg4: w, arg4_cageid: c, ..a }) == leaf_value(target, a)
            ^ a.arg4.wrapping_add(a.arg4_cageid) ^ w.wrapping_add(c),
        leaf_value(target, CallArgs { arg5: w, arg5_cageid: c, ..a }) == leaf_value(target, a)
            ^ a.arg5.wrapping_add(a.arg5_cageid) ^ w.wrapping_add(c),
        leaf_value(target, CallArgs { arg6: w, arg6_cageid: c, ..a }) == leaf_value(target, a)
            ^ a.arg6.wrapping_add(a.arg6_cageid) ^ w.wrapping_add(c),
{
    assert(target ^ 0 ^ 0 ^ 0 ^ 0 ^ 0 ^ 0 == target) by (bit_vector);
    let t = target;
    let s1 = a.arg1.wrapping_add(a.arg1_cageid);
    let s2 = a.arg2.wrapping_add(a.arg2_cageid);
    let s3 = a.arg3.wrapping_add(a.arg3_cageid);
    let s4 = a.arg4.wrapping_add(a.arg4_cageid);
    let s5 = a.arg5.wrapping_add(a.arg5_cageid);
    let s6 = a.arg6.wrapping_add(a.arg6_cageid);
    let n = w.wrapping_add(c);
    assert(t ^ n ^ s2 ^ s3 ^ s4 ^ s5 ^ s6 == (t ^ s1 ^ s2 ^ s3 ^ s4 ^ s5 ^ s6) ^ s1 ^ n)
        by (bit_vector);
    assert(t ^ s1 ^ n ^ s3 ^ s4 ^ s5 ^ s6 == (t ^ s1 ^ s2 ^ s3 ^ s4 ^ s5 ^ s6) ^ s2 ^ n)
        by (bit_vector);
    assert(t ^ s1 ^ s2 ^ n ^ s4 ^ s5 ^ s6 == (t ^ s1 ^ s2 ^ s3 ^ s4 ^ s5 ^ s6) ^ s3 ^ n)
        by (bit_vector);
    assert(t ^ s1 ^ s2 ^ s3 ^ n ^ s5 ^ s6 == (t ^ s1 ^ s2 ^ s3 ^ s4 ^ s5 ^ s6) ^ s4 ^ n)
        by (bit_vector);
    assert(t ^ s1 ^ s2 ^ s3 ^ s4 ^ n ^ s6 == (t ^ s1 ^ s2 ^ s3 ^ s4 ^ s5 ^ s6) ^ s5 ^ n)
        by (bit_vector);
    assert(t ^ s1 ^ s2 ^ s3 ^ s4 ^ s5 ^ n == (t ^ s1 ^ s2 ^ s3 ^ s4 ^ s5 ^ s6) ^ s6 ^ n)
        by (bit_vector);
}

/// When a policy cannot be decided: no policy looks at more than six argument cages, the
/// grants of a cage outside the tables are not known, and a filter has to be there; the
/// hash sets of a cage in the tables answer whatever is asked.
pub proof fn law_when_policies_cannot_be_decided<T: HandlerTable + ?Sized>(
    t: &Threei<T>,
    cfg: &Config,
    s: u64,
    syscall_num: u64,
    target: u64,
    args: CallArgs,
)
    ensures
        cfg.policy_kind != policy_code(Policy::Unchecked) && cfg.ncheck > 6 ==> !policy_ready(
            t,
            cfg,
            s,
            syscall_num,
            target,
            args,
        ),
        cfg.policy_kind == policy_code(Policy::GrantsHash) && cfg.ncheck <= 6 ==> (policy_ready(
            t,
            cfg,
            s,
            syscall_num,
            target,
            args,
        ) <==> s < 1024),
        cfg.policy_kind == policy_code(Policy::GrantsBits) && s >= 1024 ==> !policy_ready(
            t,
            cfg,
            s,
            syscall_num,
            target,
            args,
        ),
        cfg.policy_kind == policy_code(Policy::SubtreeBits) && (s >= 1024 || target >= 1024)
            ==> !policy_ready(t, cfg, s, syscall_num, target, args),
        cfg.policy_kind == policy_code(Policy::SubtreeWalk) && target != s && target >= 1024
            ==> !policy_ready(t, cfg, s, syscall_num, target, args),
        cfg.policy_kind == 5 && cfg.bpf_prog is None ==> !policy_ready(
            t,
            cfg,
            s,
            syscall_num,
            target,
            args,
        ),
{
    let ids = crate::cage::checked_ids(target, arg_cages(args)@, cfg.ncheck as nat);
    assert(ids[0] == target);
}

/// A policy looks at the cages in order, the target first, and at none behind the first one
/// that the caller may not name: a call with such a cage is decided, and refused, whatever
/// the cages behind it are.
pub proof fn law_refused_cages_hide_those_behind_them<T: HandlerTable + ?Sized>(
    t: &Threei<T>,
    cfg: &Config,
    s: u64,
    syscall_num: u64,
    target: u64,
    args: CallArgs,
    j: int,
)
    requires
        cfg.ncheck <= 6,
        0 <= j <= cfg.ncheck,
        ({
            let ids = seq![
                target,
                args.arg1_cageid,
                args.arg2_cageid,
                args.arg3_cageid,
                args.arg4_cageid,
                args.arg5_cageid,
                args.arg6_cageid,
            ];
            let p = t.lineage.parents();
            ||| cfg.policy_kind == 1 && !crate::cage::descends(p, s, ids[j]) && forall|i: int|
                0 <= i <= j ==> crate::cage::walkable(p, s, #[trigger] ids[i])
            ||| cfg.policy_kind == 2 && !t.lineage.row_holds(s, ids[j]) && s < 1024 && forall|i: int|
                0 <= i <= j ==> #[trigger] ids[i] < 1024
            ||| cfg.policy_kind == 4 && !t.grants.allows(s, ids[j]) && s < 1024 && forall|i: int|
                0 <= i <= j ==> #[trigger] ids[i] < 1024
        }),
    ensures
        policy_ready(t, cfg, s, syscall_num, target, args),
        !policy_allows(t, cfg, s, syscall_num, target, args),
{
    let ids = seq![
        target,
        args.arg1_cageid,
        args.arg2_cageid,
        args.arg3_cageid,
        args.arg4_cageid,
        args.arg5_cageid,
        args.arg6_cageid,
    ];
    let checked = crate::cage::checked_ids(target, arg_cages(args)@, cfg.ncheck as nat);
    assert(checked.len() == cfg.ncheck + 1);
    assert forall|i: int| 0 <= i < checked.len() implies #[trigger] checked[i] == ids[i] by {
        if i > 0 {
            assert(checked[i] == arg_cages(args)@[i - 1]);
        }
    }
    assert(checked[j] == ids[j]);
}

} // verus!
