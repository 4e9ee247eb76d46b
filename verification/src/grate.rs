//! Wasm grates: the module that a grate runs, the stack of grates that a call goes
//! down, and the trampoline that enters them.
//!
//! Each grate is an instance of its own. Under [`TrampolineMode::PerCall`] every
//! call takes the grate's context out of a pool, finds the entry by name and puts the
//! context back; under [`TrampolineMode::Cached`] the entry is found once and the pool
//! is left alone. The runtime holds the instances and carries a [`GrateCall`] out.
use std::collections::HashMap;

use vstd::prelude::*;
use vstd::string::StringExecFns;

use crate::dispatch::{register_grate, register_raw, Threei};
use crate::handler::HandlerTable;
use crate::text::push_decimal;

verus! {

/// The cage id of the first grate of a stack.
pub const GRATE_BASE: u64 = 100;

/// The function of a grate that forwards the call.
pub const FPTR_FORWARD: u64 = 1;

/// The function of a grate that refuses the call.
pub const FPTR_DENY: u64 = 2;

/// The function of a grate that forwards the call where the first argument cage is
/// on its allowlist.
pub const FPTR_POLICY_FORWARD: u64 = 3;

/// The grate module up to the length of the allowlist.
pub const WAT_HEAD: &'static str = r#"(module
  (import "threei" "make_syscall" (func $ms
    (param i64 i64 i64 i64 i64 i64 i64 i64 i64 i64 i64 i64 i64 i64 i64 i64) (result i32)))
  (memory (export "memory") 1)
  (func (export "pass_fptr_to_wt")
    (param $fptr i64) (param $cage i64)
    (param $a1 i64) (param $c1 i64) (param $a2 i64) (param $c2 i64)
    (param $a3 i64) (param $c3 i64) (param $a4 i64) (param $c4 i64)
    (param $a5 i64) (param $c5 i64) (param $a6 i64) (param $c6 i64)
    (result i32)
    (local $i i32) (local $ok i32)

    ;; handler 2: deny outright
    (if (i64.eq (local.get $fptr) (i64.const 2))
      (then (return (i32.const -13))))

    ;; handler 3: policy check, then forward
    (if (i64.eq (local.get $fptr) (i64.const 3))
      (then
        (local.set $ok (i32.const 0))
        (local.set $i (i32.const 0))
        (block $done
          (loop $l
            (br_if $done (i32.ge_u (local.get $i) (i32.const "#;

/// The grate module between the length of the allowlist and the syscall number.
pub const WAT_MIDDLE: &'static str = r#")))
            (if (i64.eq (i64.load (i32.mul (local.get $i) (i32.const 8))) (local.get $c1))
              (then (local.set $ok (i32.const 1)) (br $done)))
            (local.set $i (i32.add (local.get $i) (i32.const 1)))
            (br $l)))
        (if (i32.eqz (local.get $ok))
          (then (return (i32.const -13))))))

    ;; forward the call down the stack
    (call $ms
      (local.get $cage) (i64.const "#;

/// The grate module behind the syscall number.
pub const WAT_TAIL: &'static str = r#") (i64.const 0) (local.get $cage)
      (local.get $a1) (local.get $c1) (local.get $a2) (local.get $c2)
      (local.get $a3) (local.get $c3) (local.get $a4) (local.get $c4)
      (local.get $a5) (local.get $c5) (local.get $a6) (local.get $c6))
  )
)
"#;

/// The text of the module of a grate that forwards `callnum` and scans `policy_len`
/// allowlist entries.
pub open spec fn grate_text(callnum: u64, policy_len: u32) -> Seq<char> {
    WAT_HEAD@ + crate::text::decimal(policy_len as nat) + WAT_MIDDLE@ + crate::text::decimal(
        callnum as nat,
    ) + WAT_TAIL@
}

/// The module of a grate. The syscall number is part of it because a grate function
/// serves one syscall, so that the grate always knows which call it forwards.
/// `policy_len` is the number of allowlist entries that `FPTR_POLICY_FORWARD` scans.
pub fn grate_wat(callnum: u64, policy_len: u32) -> (wat: String)
    ensures
        wat@ == grate_text(callnum, policy_len),
{
    let mut wat: String = String::new();
    wat.append(WAT_HEAD);
    push_decimal(&mut wat, policy_len as u64);
    wat.append(WAT_MIDDLE);
    push_decimal(&mut wat, callnum);
    wat.append(WAT_TAIL);
    assert(wat@ =~= grate_text(callnum, policy_len));
    wat
}

/// How the trampoline finds its way into a grate.
#[derive(Clone, Copy, PartialEq, Eq, Debug, Structural)]
pub enum TrampolineMode {
    /// the context is taken from the pool and the entry found by name, on every call
    PerCall,
    /// the entry is found once and kept, and the pool is left alone
    Cached,
}

/// Where the entry of a grate comes from.
#[derive(Clone, Copy, PartialEq, Eq, Debug, Structural)]
pub enum Entry {
    /// find the export by name and check its type
    ByName,
    /// find the export, check its type, and keep it
    ByNameAndKeep,
    /// use the export that was kept
    Kept,
}

/// A call into a grate: its slot, where its entry comes from, and the arguments of
/// the entry.
#[derive(Clone, Copy, Debug)]
pub struct GrateCall {
    pub slot: usize,
    pub entry: Entry,
    pub args: [u64; 14],
}

/// The state of one grate of a stack.
#[derive(Clone, Copy, Debug)]
struct Slot {
    /// a call is in the grate
    entered: bool,
    /// the entry of the grate was kept
    cached: bool,
}

/// A stack of grates, with cage ids from `GRATE_BASE` on.
pub struct Chain {
    slots: Vec<Slot>,
    mode: TrampolineMode,
    /// the contexts that no call has taken: the slot of each grate, by cage id
    vmctx_pool: HashMap<u64, usize>,
}

impl Chain {
    /// How many grates the stack has.
    pub closed spec fn height(&self) -> nat {
        self.slots@.len()
    }

    pub closed spec fn trampoline(&self) -> TrampolineMode {
        self.mode
    }

    /// A call is in grate `i`.
    pub closed spec fn entered(&self, i: int) -> bool {
        self.slots@[i].entered
    }

    /// The entry of grate `i` was kept.
    pub closed spec fn cached(&self, i: int) -> bool {
        self.slots@[i].cached
    }

    /// The slots in the pool, by cage id.
    pub closed spec fn pool(&self) -> Map<u64, usize> {
        self.vmctx_pool@
    }

    /// `grateid` is a grate of the stack.
    pub open spec fn holds(&self, grateid: u64) -> bool {
        GRATE_BASE <= grateid < GRATE_BASE + self.height()
    }

    /// `grateid` is a grate of the stack that no call is in.
    pub open spec fn enterable(&self, grateid: u64) -> bool {
        self.holds(grateid) && !self.entered(grateid - GRATE_BASE)
    }

    /// The pool holds the slot of every grate, but for those that a call has taken
    /// out of it.
    pub open spec fn wf(&self) -> bool {
        &&& self.height() <= usize::MAX
        &&& GRATE_BASE + self.height() <= u64::MAX
        &&& forall|g: u64| #[trigger]
            self.pool().contains_key(g) == (self.holds(g) && (self.trampoline()
                == TrampolineMode::PerCall ==> self.enterable(g)))
        &&& forall|g: u64|
            self.pool().contains_key(g) ==> #[trigger] self.pool()[g] == g - GRATE_BASE
    }

    /// No call is in a grate and no entry was kept.
    pub open spec fn fresh(&self) -> bool {
        forall|i: int| 0 <= i < self.height() ==> !#[trigger] self.entered(i) && !self.cached(i)
    }

    /// Whether `grateid` is a grate of the stack that no call is in.
    pub fn can_enter(&self, grateid: u64) -> (ok: bool)
        requires
            self.wf(),
        ensures
            ok == self.enterable(grateid),
    {
        if grateid < GRATE_BASE || grateid - GRATE_BASE >= self.slots.len() as u64 {
            return false;
        }
        !self.slots[(grateid - GRATE_BASE) as usize].entered
    }
}

/// A call has gone into `grateid`: under `PerCall` its context is out of the pool,
/// under `Cached` its entry is kept.
pub open spec fn entering(before: Chain, after: Chain, grateid: u64) -> bool {
    let slot = grateid - GRATE_BASE;
    &&& after.wf()
    &&& after.height() == before.height()
    &&& after.trampoline() == before.trampoline()
    &&& forall|i: int|
        0 <= i < before.height() ==> #[trigger] after.entered(i) == (i == slot || before.entered(i))
    &&& forall|i: int|
        0 <= i < before.height() ==> #[trigger] after.cached(i) == (before.cached(i) || (i == slot
            && before.trampoline() == TrampolineMode::Cached))
    &&& after.pool() == (match before.trampoline() {
        TrampolineMode::PerCall => before.pool().remove(grateid),
        TrampolineMode::Cached => before.pool(),
    })
}

/// A call has come out of `grateid`: its context is back in the pool.
pub open spec fn leaving(before: Chain, after: Chain, grateid: u64) -> bool {
    let slot = grateid - GRATE_BASE;
    &&& after.wf()
    &&& after.height() == before.height()
    &&& after.trampoline() == before.trampoline()
    &&& forall|i: int|
        0 <= i < before.height() ==> #[trigger] after.entered(i) == (i != slot && before.entered(i))
    &&& forall|i: int|
        0 <= i < before.height() ==> #[trigger] after.cached(i) == before.cached(i)
    &&& after.pool() == (match before.trampoline() {
        TrampolineMode::PerCall => before.pool().insert(grateid, slot as usize),
        TrampolineMode::Cached => before.pool(),
    })
}

/// Enters `grateid` at its function `fnptr`: the call that the runtime then makes.
pub fn call_grate(
    chain: &mut Chain,
    grateid: u64,
    fnptr: u64,
    a1: u64,
    c1: u64,
    a2: u64,
    c2: u64,
    a3: u64,
    c3: u64,
    a4: u64,
    c4: u64,
    a5: u64,
    c5: u64,
    a6: u64,
    c6: u64,
) -> (call: GrateCall)
    requires
        old(chain).wf(),
        old(chain).enterable(grateid),
    ensures
        entering(*old(chain), *final(chain), grateid),
        call.slot == grateid - GRATE_BASE,
        call.entry == (match old(chain).trampoline() {
            TrampolineMode::PerCall => Entry::ByName,
            TrampolineMode::Cached => if old(chain).cached(grateid - GRATE_BASE) {
                Entry::Kept
            } else {
                Entry::ByNameAndKeep
            },
        }),
        call.args@ == seq![fnptr, grateid, a1, c1, a2, c2, a3, c3, a4, c4, a5, c5, a6, c6],
{
    broadcast use vstd::std_specs::hash::group_hash_axioms;

    assert(chain.pool().contains_key(grateid));
    let slot: usize = match chain.mode {
        TrampolineMode::PerCall => chain.vmctx_pool.remove(&grateid).unwrap(),
        TrampolineMode::Cached => (grateid - GRATE_BASE) as usize,
    };
    let cached: bool = chain.slots[slot].cached;
    let entry: Entry = match chain.mode {
        TrampolineMode::PerCall => Entry::ByName,
        TrampolineMode::Cached => if cached {
            Entry::Kept
        } else {
            Entry::ByNameAndKeep
        },
    };
    let keep: bool = cached || chain.mode == TrampolineMode::Cached;
    chain.slots[slot] = Slot { entered: true, cached: keep };
    let args: [u64; 14] = [fnptr, grateid, a1, c1, a2, c2, a3, c3, a4, c4, a5, c5, a6, c6];
    assert(args@ =~= seq![fnptr, grateid, a1, c1, a2, c2, a3, c3, a4, c4, a5, c5, a6, c6]);
    GrateCall { slot, entry, args }
}

/// Leaves `grateid`, which replied `reply`: the context goes back to the pool and
/// the reply to the caller.
pub fn finish_call(chain: &mut Chain, grateid: u64, reply: i32) -> (r: i32)
    requires
        old(chain).wf(),
        old(chain).holds(grateid),
        old(chain).entered(grateid - GRATE_BASE),
    ensures
        leaving(*old(chain), *final(chain), grateid),
        r == reply,
{
    broadcast use vstd::std_specs::hash::group_hash_axioms;

    let slot: usize = (grateid - GRATE_BASE) as usize;
    let cached: bool = chain.slots[slot].cached;
    chain.slots[slot] = Slot { entered: false, cached };
    if chain.mode == TrampolineMode::PerCall {
        chain.vmctx_pool.insert(grateid, slot);
    }
    proof {
        let before = *old(chain);
        assert forall|g: u64| #[trigger]
            chain.pool().contains_key(g) == (chain.holds(g) && (chain.trampoline()
                == TrampolineMode::PerCall ==> chain.enterable(g))) by {
            assert(before.pool().contains_key(g) == (before.holds(g) && (before.trampoline()
                == TrampolineMode::PerCall ==> before.enterable(g))));
        }
        assert forall|g: u64| chain.pool().contains_key(g) implies #[trigger] chain.pool()[g] == g
            - GRATE_BASE by {
            if g != grateid {
                assert(before.pool().contains_key(g));
            }
        }
    }
    reply
}

/// Takes the stack down.
pub fn teardown(chain: &mut Option<Chain>)
    ensures
        *final(chain) is None,
{
    *chain = None;
}

/// A call that comes out of the grate that it went into leaves the pool as it was
/// and no other grate entered or left; only the kept entry stays.
pub proof fn law_call_restores_the_chain(before: Chain, within: Chain, after: Chain, grateid: u64)
    requires
        before.wf(),
        before.enterable(grateid),
        entering(before, within, grateid),
        leaving(within, after, grateid),
    ensures
        after.pool() == before.pool(),
        after.height() == before.height(),
        after.trampoline() == before.trampoline(),
        forall|i: int| 0 <= i < before.height() ==> #[trigger] after.entered(i) == before.entered(i),
        forall|i: int|
            0 <= i < before.height() ==> #[trigger] after.cached(i) == (before.cached(i) || (i
                == grateid - GRATE_BASE && before.trampoline() == TrampolineMode::Cached)),
{
    assert(before.pool().contains_key(grateid));
    assert(after.pool() =~= before.pool());
}

/// A grate is not entered again while a call is in it, and every other grate can be
/// entered as before.
pub proof fn law_a_grate_is_entered_once(before: Chain, within: Chain, grateid: u64, other: u64)
    requires
        before.wf(),
        before.enterable(grateid),
        entering(before, within, grateid),
    ensures
        !within.enterable(grateid),
        other != grateid ==> within.enterable(other) == before.enterable(other),
{
}

/// How many bytes of memory a grate has: one page.
pub const GRATE_MEMORY: usize = 65536;

/// The words in little-endian bytes, one behind the other.
pub open spec fn image_of(words: Seq<u64>) -> Seq<u8>
    decreases words.len(),
{
    if words.len() == 0 {
        Seq::empty()
    } else {
        image_of(words.drop_last()) + vstd::bytes::spec_u64_to_le_bytes(words.last())
    }
}

/// The allowlist as the bytes that a grate scans.
pub fn memory_image(allowlist: &[u64]) -> (image: Vec<u8>)
    ensures
        image@ == image_of(allowlist@),
{
    let mut image: Vec<u8> = Vec::new();
    let mut k: usize = 0;
    while k < allowlist.len()
        invariant
            k <= allowlist@.len(),
            image@ == image_of(allowlist@.take(k as int)),
        decreases allowlist@.len() - k,
    {
        let mut word: Vec<u8> = vstd::bytes::u64_to_le_bytes(allowlist[k]);
        image.append(&mut word);
        k = k + 1;
        assert(allowlist@.take(k as int).drop_last() =~= allowlist@.take(k - 1));
    }
    assert(allowlist@.take(k as int) =~= allowlist@);
    image
}

/// A word that a grate reads from its memory is the allowlist entry at that place.
pub proof fn law_grates_read_the_allowlist(words: Seq<u64>, k: int)
    requires
        0 <= k < words.len(),
    ensures
        image_of(words).len() == 8 * words.len(),
        vstd::bytes::spec_u64_from_le_bytes(image_of(words).subrange(8 * k, 8 * k + 8)) == words[k],
    decreases words.len(),
{
    vstd::bytes::lemma_auto_spec_u64_to_from_le_bytes();
    let front = words.drop_last();
    let last = vstd::bytes::spec_u64_to_le_bytes(words.last());
    if front.len() == 0 {
        assert(image_of(front).len() == 0);
        assert(image_of(words).subrange(0, 8) =~= last);
    } else if k < front.len() {
        law_grates_read_the_allowlist(front, k);
        assert(image_of(words).subrange(8 * k, 8 * k + 8) =~= image_of(front).subrange(
            8 * k,
            8 * k + 8,
        ));
    } else {
        law_grates_read_the_allowlist(front, 0);
        assert(image_of(words).subrange(8 * k, 8 * k + 8) =~= last);
    }
}

/// What the runtime makes a stack from: the module of its grates, the bytes at the
/// start of the memory of each, and the state of the stack.
pub struct ChainPlan {
    pub wat: String,
    pub memory: Vec<u8>,
    pub chain: Chain,
}

/// The handler that leads to level `i` of a stack of `n` grates over the host
/// function at `leaf`.
pub open spec fn hop(leaf: u64, n: nat, i: nat) -> crate::handler::Handler {
    if i < n {
        crate::dispatch::grate_handler((GRATE_BASE + i) as u64, FPTR_FORWARD)
    } else {
        crate::dispatch::raw_handler(leaf, crate::handler::unpinned())
    }
}

/// `c` is one of the cages that a stack of `n` grates below `cage` has handlers for.
pub open spec fn on_stack(cage: u64, n: nat, c: u64) -> bool {
    c == cage || GRATE_BASE <= c < GRATE_BASE + n
}

/// Syscall `callnum` of `cage` leads to the first of `n` grates, and that of each of
/// the first `k` grates to the next one or, from the last one, to the host function
/// at `leaf`. A cage that is itself one of those grates leads on from its own level.
pub open spec fn wired_below<T: HandlerTable + ?Sized>(
    before: Threei<T>,
    after: Threei<T>,
    leaf: u64,
    cage: u64,
    callnum: u64,
    n: nat,
    k: nat,
) -> bool {
    &&& after.wf()
    &&& after.lineage == before.lineage
    &&& after.grants == before.grants
    &&& after.denied == before.denied
    &&& !(GRATE_BASE <= cage < GRATE_BASE + k) ==> after.table.lookup(cage, callnum) == Some(
        before.table.recorded(hop(leaf, n, 0)),
    )
    &&& forall|c: u64|
        GRATE_BASE <= c < GRATE_BASE + k ==> #[trigger] after.table.lookup(c, callnum) == Some(
            before.table.recorded(hop(leaf, n, (c - GRATE_BASE + 1) as nat)),
        )
    &&& forall|i: nat|
        i <= k ==> crate::handler::same_route(
            #[trigger] hop(leaf, n, i),
            before.table.recorded(hop(leaf, n, i)),
        )
    &&& forall|c: u64, m: u64|
        !(m == callnum && on_stack(cage, k, c)) ==> #[trigger] after.table.lookup(c, m)
            == before.table.lookup(c, m)
    &&& forall|c: u64, m: u64| #[trigger]
        after.table.can_register(c, m) == before.table.can_register(c, m)
    &&& forall|c: u64, m: u64| #[trigger]
        after.table.can_get(c, m) == (if on_stack(cage, k, c) {
            before.table.can_register(c, m)
        } else {
            before.table.can_get(c, m)
        })
    &&& forall|h: crate::handler::Handler| #[trigger] after.table.recorded(h) == before.table.recorded(h)
}

/// The whole stack of `n` grates is wired.
pub open spec fn wired<T: HandlerTable + ?Sized>(
    before: Threei<T>,
    after: Threei<T>,
    leaf: u64,
    cage: u64,
    callnum: u64,
    n: nat,
) -> bool {
    wired_below(before, after, leaf, cage, callnum, n, n)
}

/// Plans `n` stacked grates for `callnum` and wires the handler table, so that
/// `cage` leads to grate 0, grate 0 to grate 1, and so on down to the host function
/// at `leaf`.
pub fn build_chain<T: HandlerTable + ?Sized>(
    t: &mut Threei<T>,
    leaf: u64,
    n: usize,
    callnum: u64,
    mode: TrampolineMode,
    policy_len: u32,
    cage: u64,
    allowlist: &[u64],
) -> (plan: ChainPlan)
    requires
        old(t).wf(),
        GRATE_BASE + n <= u64::MAX,
        old(t).table.can_register(cage, callnum),
        forall|c: u64|
            GRATE_BASE <= c < GRATE_BASE + n ==> #[trigger] old(t).table.can_register(c, callnum),
        n > 0 ==> 8 * allowlist@.len() <= GRATE_MEMORY,
    ensures
        plan.wat@ == grate_text(callnum, policy_len),
        plan.memory@ == image_of(allowlist@),
        plan.chain.wf(),
        plan.chain.height() == n,
        plan.chain.trampoline() == mode,
        plan.chain.fresh(),
        wired(*old(t), *final(t), leaf, cage, callnum, n as nat),
{
    broadcast use vstd::std_specs::hash::group_hash_axioms;

    let ghost before = *t;
    let wat: String = grate_wat(callnum, policy_len);
    let memory: Vec<u8> = memory_image(allowlist);
    if n == 0 {
        register_raw(t, leaf, cage, callnum);
    } else {
        register_grate(t, cage, callnum, GRATE_BASE, FPTR_FORWARD);
    }
    let mut slots: Vec<Slot> = Vec::new();
    let mut pool: HashMap<u64, usize> = HashMap::new();
    let mut i: usize = 0;
    while i < n
        invariant
            i <= n,
            GRATE_BASE + n <= u64::MAX,
            forall|c: u64|
                GRATE_BASE <= c < GRATE_BASE + n ==> #[trigger] before.table.can_register(
                    c,
                    callnum,
                ),
            wired_below(before, *t, leaf, cage, callnum, n as nat, i as nat),
            slots@.len() == i,
            forall|j: int| 0 <= j < i ==> !(#[trigger] slots@[j]).entered && !slots@[j].cached,
            forall|g: u64| #[trigger]
                pool@.contains_key(g) == (GRATE_BASE <= g < GRATE_BASE + i),
            forall|g: u64| pool@.contains_key(g) ==> #[trigger] pool@[g] == g - GRATE_BASE,
        decreases n - i,
    {
        broadcast use vstd::std_specs::hash::group_hash_axioms;

        let gid: u64 = GRATE_BASE + i as u64;
        if i + 1 < n {
            register_grate(t, gid, callnum, gid + 1, FPTR_FORWARD);
        } else {
            register_raw(t, leaf, gid, callnum);
        }
        slots.push(Slot { entered: false, cached: false });
        pool.insert(gid, i);
        i = i + 1;
    }
    ChainPlan { wat, memory, chain: Chain { slots, mode, vmctx_pool: pool } }
}

/// The grates that a forwarded call of `cage` goes through, at most `fuel` of them,
/// and the host function that it ends in.
pub open spec fn path<T: HandlerTable + ?Sized>(
    t: Threei<T>,
    cage: u64,
    callnum: u64,
    fuel: nat,
) -> (Seq<u64>, Option<u64>)
    decreases fuel,
{
    match t.table.lookup(cage, callnum) {
        Some(h) => match h.kind {
            crate::handler::HandlerKind::Raw => (Seq::empty(), Some(h.fnptr)),
            crate::handler::HandlerKind::Grate => if fuel == 0 {
                (Seq::empty(), None)
            } else {
                let rest = path(t, h.grateid, callnum, (fuel - 1) as nat);
                (seq![h.grateid] + rest.0, rest.1)
            },
        },
        None => (Seq::empty(), None),
    }
}

/// From level `i` of a wired stack a call goes through the grates from `i` on and
/// ends in the host function.
proof fn lemma_path_from<T: HandlerTable + ?Sized>(
    before: Threei<T>,
    after: Threei<T>,
    leaf: u64,
    cage: u64,
    callnum: u64,
    n: nat,
    c: u64,
    i: nat,
)
    requires
        i <= n,
        GRATE_BASE + n <= u64::MAX,
        wired(before, after, leaf, cage, callnum, n),
        after.table.lookup(c, callnum) == Some(before.table.recorded(hop(leaf, n, i))),
    ensures
        path(after, c, callnum, (n - i) as nat) == (
            Seq::new((n - i) as nat, |j: int| (GRATE_BASE + i + j) as u64),
            Some(leaf),
        ),
    decreases n - i,
{
    let to = hop(leaf, n, i);
    assert(crate::handler::same_route(to, before.table.recorded(to)));
    let here = Seq::new((n - i) as nat, |j: int| (GRATE_BASE + i + j) as u64);
    if i == n {
        assert(here =~= Seq::empty());
    } else {
        let grate = (GRATE_BASE + i) as u64;
        lemma_path_from(before, after, leaf, cage, callnum, n, grate, i + 1);
        assert(here =~= seq![grate] + Seq::new(
            (n - i - 1) as nat,
            |j: int| (GRATE_BASE + (i + 1) + j) as u64,
        ));
    }
}

/// A forwarded call of the cage that a stack was built for goes through every grate
/// of the stack, in order, and ends in the host function.
pub proof fn law_stacks_end_in_the_host<T: HandlerTable + ?Sized>(
    before: Threei<T>,
    after: Threei<T>,
    leaf: u64,
    cage: u64,
    callnum: u64,
    n: nat,
)
    requires
        GRATE_BASE + n <= u64::MAX,
        !(GRATE_BASE <= cage < GRATE_BASE + n),
        wired(before, after, leaf, cage, callnum, n),
    ensures
        path(after, cage, callnum, n) == (
            Seq::new(n, |j: int| (GRATE_BASE + j) as u64),
            Some(leaf),
        ),
{
    lemma_path_from(before, after, leaf, cage, callnum, n, cage, 0);
    assert(Seq::new(n, |j: int| (GRATE_BASE + 0 + j) as u64) =~= Seq::new(
        n,
        |j: int| (GRATE_BASE + j) as u64,
    ));
}

/// The module that measures what a call from wasm to the host costs: a loop over an
/// import with sixteen parameters, and one over an import with seven.
pub const PROBE_WAT: &'static str = r#"(module
  (import "h" "wide" (func $wide
    (param i64 i64 i64 i64 i64 i64 i64 i64 i64 i64 i64 i64 i64 i64 i64 i64) (result i32)))
  (import "h" "narrow" (func $narrow (param i64 i64 i64 i64 i64 i64 i64) (result i32)))
  (func (export "loop_wide") (param $n i32) (result i64)
    (local $i i32) (local $acc i64)
    (block $done (loop $l
      (br_if $done (i32.ge_u (local.get $i) (local.get $n)))
      (local.set $acc (i64.add (local.get $acc) (i64.extend_i32_u (call $wide
        (i64.const 1) (i64.const 2) (i64.const 0) (i64.const 1)
        (i64.const 3) (i64.const 1) (i64.const 4) (i64.const 1)
        (i64.const 5) (i64.const 1) (i64.const 6) (i64.const 1)
        (i64.const 7) (i64.const 1) (i64.const 8) (i64.const 1)))))
      (local.set $i (i32.add (local.get $i) (i32.const 1)))
      (br $l)))
    (local.get $acc))
  (func (export "loop_narrow") (param $n i32) (result i64)
    (local $i i32) (local $acc i64)
    (block $done (loop $l
      (br_if $done (i32.ge_u (local.get $i) (local.get $n)))
      (local.set $acc (i64.add (local.get $acc) (i64.extend_i32_u (call $narrow
        (i64.const 2) (i64.const 3) (i64.const 4)
        (i64.const 5) (i64.const 6) (i64.const 7) (i64.const 8)))))
      (local.set $i (i32.add (local.get $i) (i32.const 1)))
      (br $l)))
    (local.get $acc))
)
"#;

/// The host side of the import with sixteen parameters: the parity of its arguments.
pub fn probe_wide(
    a1: u64,
    a2: u64,
    a3: u64,
    a4: u64,
    a5: u64,
    a6: u64,
    a7: u64,
    a8: u64,
    a9: u64,
    a10: u64,
    a11: u64,
    a12: u64,
    a13: u64,
    a14: u64,
    a15: u64,
    a16: u64,
) -> (parity: i32)
    ensures
        parity == (if ((a1 ^ a2 ^ a3 ^ a4 ^ a5 ^ a6 ^ a7 ^ a8 ^ a9 ^ a10 ^ a11 ^ a12 ^ a13 ^ a14 ^ a15 ^ a16) & 1) == 1 {
            1i32
        } else {
            0i32
        }),
{
    let all: u64 = a1 ^ a2 ^ a3 ^ a4 ^ a5 ^ a6 ^ a7 ^ a8 ^ a9 ^ a10 ^ a11 ^ a12 ^ a13 ^ a14 ^ a15 ^ a16;
    assert(all & 1 <= 1) by (bit_vector);
    (all & 1) as i32
}

/// The host side of the import with seven parameters: the parity of its arguments.
pub fn probe_narrow(
    a1: u64,
    a2: u64,
    a3: u64,
    a4: u64,
    a5: u64,
    a6: u64,
    a7: u64,
) -> (parity: i32)
    ensures
        parity == (if ((a1 ^ a2 ^ a3 ^ a4 ^ a5 ^ a6 ^ a7) & 1) == 1 {
            1i32
        } else {
            0i32
        }),
{
    let all: u64 = a1 ^ a2 ^ a3 ^ a4 ^ a5 ^ a6 ^ a7;
    assert(all & 1 <= 1) by (bit_vector);
    (all & 1) as i32
}

/// Where the two numbers of a grate's module stand: the length of the allowlist behind the
/// head, and the syscall number behind the middle part; both are read back from there.
pub proof fn law_module_texts_hold_their_numbers(callnum: u64, policy_len: u32)
    ensures
        ({
            let text = grate_text(callnum, policy_len);
            let n = crate::text::decimal(policy_len as nat);
            let c = crate::text::decimal(callnum as nat);
            let a = WAT_HEAD@.len() as int;
            let b = a + n.len() + WAT_MIDDLE@.len();
            &&& text.len() == b + c.len() + WAT_TAIL@.len()
            &&& text.take(a) == WAT_HEAD@
            &&& crate::text::number(text.subrange(a, a + n.len()), u32::MAX as nat) == Some(
                policy_len as nat,
            )
            &&& text.subrange(a + n.len(), b) == WAT_MIDDLE@
            &&& crate::text::number(text.subrange(b, b + c.len()), u64::MAX as nat) == Some(
                callnum as nat,
            )
            &&& text.skip(b + c.len()) == WAT_TAIL@
        }),
{
    let text = grate_text(callnum, policy_len);
    let n = crate::text::decimal(policy_len as nat);
    let c = crate::text::decimal(callnum as nat);
    let a = WAT_HEAD@.len() as int;
    let b = a + n.len() + WAT_MIDDLE@.len();
    crate::text::law_printed_numbers_are_read_back(policy_len as nat, u32::MAX as nat);
    crate::text::law_printed_numbers_are_read_back(callnum as nat, u64::MAX as nat);
    assert(text.take(a) =~= WAT_HEAD@);
    assert(text.subrange(a, a + n.len()) =~= n);
    assert(text.subrange(a + n.len(), b) =~= WAT_MIDDLE@);
    assert(text.subrange(b, b + c.len()) =~= c);
    assert(text.skip(b + c.len()) =~= WAT_TAIL@);
}

/// What a wired stack registers: forwarding to the next grate, in order from 100 on, and
/// from the last one to the host function; and nothing for any other cage or call.
pub proof fn law_stacks_forward_to_the_next<T: HandlerTable + ?Sized>(
    before: Threei<T>,
    after: Threei<T>,
    leaf: u64,
    cage: u64,
    callnum: u64,
    n: nat,
    c: u64,
    m: u64,
)
    requires
        100 + n <= u64::MAX,
        wired(before, after, leaf, cage, callnum, n),
    ensures
        100 <= c && c + 1 < 100 + n ==> (after.table.lookup(c, callnum) matches Some(h) && h.kind
            == crate::handler::HandlerKind::Grate && h.grateid == c + 1 && h.fnptr == 1),
        n > 0 && c == 99 + n ==> (after.table.lookup(c, callnum) matches Some(h) && h.kind
            == crate::handler::HandlerKind::Raw && h.grateid == 1 && h.fnptr == leaf),
        n > 0 && !(100 <= cage < 100 + n) ==> (after.table.lookup(cage, callnum) matches Some(h)
            && h.kind == crate::handler::HandlerKind::Grate && h.grateid == 100 && h.fnptr == 1),
        n == 0 ==> (after.table.lookup(cage, callnum) matches Some(h) && h.kind
            == crate::handler::HandlerKind::Raw && h.grateid == 1 && h.fnptr == leaf),
        m != callnum || (c != cage && !(100 <= c < 100 + n)) ==> after.table.lookup(c, m)
            == before.table.lookup(c, m),
        after.lineage == before.lineage,
        after.grants == before.grants,
        after.denied == before.denied,
        after.wf(),
{
    let first = hop(leaf, n, 0);
    assert(crate::handler::same_route(first, before.table.recorded(first)));
    if 100 <= c < 100 + n {
        let next = hop(leaf, n, (c - 100 + 1) as nat);
        assert(crate::handler::same_route(next, before.table.recorded(next)));
    }
}

/// A stack that was just built can be entered at each of its grates, from 100 on, and
/// nowhere else; its pool then holds the slot of each of them.
pub proof fn law_fresh_stacks_can_be_entered(chain: Chain, g: u64)
    requires
        chain.wf(),
        chain.fresh(),
    ensures
        chain.enterable(g) <==> 100 <= g < 100 + chain.height(),
        chain.pool().contains_key(g) <==> 100 <= g < 100 + chain.height(),
        100 <= g < 100 + chain.height() ==> chain.pool()[g] == g - 100,
{
    if 100 <= g < 100 + chain.height() {
        assert(!chain.entered(g - 100));
    }
    assert(chain.pool().contains_key(g) == (chain.holds(g) && (chain.trampoline()
        == TrampolineMode::PerCall ==> chain.enterable(g))));
}

/// What going into a grate and coming out of it does to the pool and to the grates: under
/// `PerCall` the context of that grate alone leaves the pool and comes back with its own
/// slot; under `Cached` the pool is left alone and the entry of that grate alone is kept.
pub proof fn law_going_in_and_coming_out(
    before: Chain,
    within: Chain,
    after: Chain,
    grateid: u64,
    g: u64,
)
    requires
        before.wf(),
        before.enterable(grateid),
        entering(before, within, grateid),
        leaving(within, after, grateid),
    ensures
        !within.enterable(grateid),
        after.enterable(grateid),
        before.trampoline() == TrampolineMode::PerCall ==> !within.pool().contains_key(grateid)
            && after.pool().contains_key(grateid) && after.pool()[grateid] == grateid - 100,
        g != grateid ==> within.pool().contains_key(g) == before.pool().contains_key(g)
            && within.enterable(g) == before.enterable(g) && after.enterable(g)
            == before.enterable(g),
        before.trampoline() == TrampolineMode::Cached ==> within.pool() == before.pool()
            && within.cached(grateid - 100) && after.cached(grateid - 100),
        before.trampoline() == TrampolineMode::PerCall ==> within.cached(grateid - 100)
            == before.cached(grateid - 100),
        g != grateid && before.holds(g) ==> within.cached(g - 100) == before.cached(g - 100)
            && after.cached(g - 100) == before.cached(g - 100),
        within.height() == before.height(),
        within.trampoline() == before.trampoline(),
        before.holds(g) <==> 100 <= g < 100 + before.height(),
{
}

} // verus!
