//! Handler tables: which handler serves a syscall of a cage.
//!
//! [`MutexNested`] keeps nested hash maps from cage to syscall to target, the way
//! 3i does today. [`DashNested`] keeps the same rows in a `DashMap`. Both keep the
//! argument cage ids of their handlers beside the rows. [`Flat`] keeps a row of slots
//! per cage, the cheapest lookup there can be.
use std::collections::HashMap;

use dashmap::mapref::one::Ref;
use dashmap::DashMap;
use vstd::prelude::*;

verus! {

pub const MAX_CAGES: usize = 1024;

pub const MAX_SYSCALLS: usize = 512;

/// The cage id of the host kernel, at the bottom of every stack.
pub const RAWPOSIX_CAGEID: u64 = 1;

#[derive(Clone, Copy, PartialEq, Eq, Debug, Structural)]
pub enum HandlerKind {
    /// dispatch straight to a host function pointer
    Raw,
    /// dispatch into a wasm grate through the runtime trampoline
    Grate,
}

#[derive(Clone, Copy, Debug)]
pub struct Handler {
    pub kind: HandlerKind,
    pub grateid: u64,
    pub fnptr: u64,
    /// The argument cage ids, pinned when the handler is registered instead of
    /// being passed on every call.
    pub arg_cageids: [u64; 6],
}

/// The argument cage ids of a handler that pins none.
pub open spec fn unpinned() -> [u64; 6] {
    [0, 0, 0, 0, 0, 0]
}

impl Handler {
    pub fn raw(fnptr: u64) -> (h: Handler)
        ensures
            h == (Handler { kind: HandlerKind::Raw, grateid: 0, fnptr, arg_cageids: unpinned() }),
    {
        Handler { kind: HandlerKind::Raw, grateid: 0, fnptr, arg_cageids: [0, 0, 0, 0, 0, 0] }
    }

    pub fn grate(grateid: u64, fnptr: u64) -> (h: Handler)
        ensures
            h == (Handler { kind: HandlerKind::Grate, grateid, fnptr, arg_cageids: unpinned() }),
    {
        Handler { kind: HandlerKind::Grate, grateid, fnptr, arg_cageids: [0, 0, 0, 0, 0, 0] }
    }
}

/// The kind of a handler in a table that only keeps the target: the host kernel is
/// called directly, every other target is a grate.
pub open spec fn kind_of(grateid: u64) -> HandlerKind {
    if grateid == RAWPOSIX_CAGEID {
        HandlerKind::Raw
    } else {
        HandlerKind::Grate
    }
}

/// `kept` sends a call where `h` would send it: the same target, the same function,
/// the same argument cage ids, and the same kind where the kind of `h` is the one its
/// target implies.
pub open spec fn same_route(h: Handler, kept: Handler) -> bool {
    &&& kept.grateid == h.grateid
    &&& kept.fnptr == h.fnptr
    &&& kept.arg_cageids == h.arg_cageids
    &&& h.kind == kind_of(h.grateid) ==> kept.kind == h.kind
}

/// The two handlers are of one kind and call one function of one target.
pub open spec fn same_target(h: Handler, kept: Handler) -> bool {
    kept.kind == h.kind && kept.grateid == h.grateid && kept.fnptr == h.fnptr
}

pub trait HandlerTable: Send + Sync {
    /// The table is well formed.
    spec fn wf(&self) -> bool;

    /// The handler that serves syscall `callnum` of `cage`.
    spec fn lookup(&self, cage: u64, callnum: u64) -> Option<Handler>;

    /// What the table keeps of a handler that is registered.
    spec fn recorded(&self, h: Handler) -> Handler;

    /// What serves syscall `callnum` of `dst` after a copy from `src`.
    spec fn copied(&self, src: u64, dst: u64, callnum: u64) -> Option<Handler>;

    /// The table has room for a handler of syscall `callnum` of `cage`.
    spec fn can_register(&self, cage: u64, callnum: u64) -> bool;

    /// Syscall `callnum` of `cage` can be looked up.
    spec fn can_get(&self, cage: u64, callnum: u64) -> bool;

    /// The handlers of `src` can be copied to `dst`.
    spec fn can_copy(&self, src: u64, dst: u64) -> bool;

    /// The name of the table.
    spec fn label(&self) -> Seq<char>;

    /// Whether the table has room for a handler of syscall `callnum` of `cage`.
    fn takes(&self, cage: u64, callnum: u64) -> (room: bool)
        requires
            self.wf(),
        ensures
            room == self.can_register(cage, callnum),
    ;

    /// Whether syscall `callnum` of `cage` can be looked up.
    fn answers(&self, cage: u64, callnum: u64) -> (ok: bool)
        requires
            self.wf(),
        ensures
            ok == self.can_get(cage, callnum),
    ;

    fn name(&self) -> (s: &'static str)
        ensures
            s@ == self.label(),
    ;

    fn register(&mut self, cage: u64, callnum: u64, h: Handler)
        requires
            old(self).wf(),
            old(self).can_register(cage, callnum),
        ensures
            final(self).wf(),
            final(self).lookup(cage, callnum) == Some(old(self).recorded(h)),
            same_route(h, old(self).recorded(h)),
            old(self).recorded(h).arg_cageids == h.arg_cageids,
            forall|c: u64, n: u64|
                !(c == cage && n == callnum) ==> #[trigger] final(self).lookup(c, n) == old(
                    self,
                ).lookup(c, n),
            forall|c: u64, n: u64| #[trigger]
                final(self).can_register(c, n) == old(self).can_register(c, n),
            forall|c: u64, n: u64| #[trigger]
                final(self).can_get(c, n) == (if c == cage {
                    old(self).can_register(c, n)
                } else {
                    old(self).can_get(c, n)
                }),
            forall|s: u64, d: u64| #[trigger] final(self).can_copy(s, d) == old(self).can_copy(s, d),
            forall|g: Handler| #[trigger] final(self).recorded(g) == old(self).recorded(g),
            final(self).label() == old(self).label(),
    ;

    fn get(&self, cage: u64, callnum: u64) -> (h: Option<Handler>)
        requires
            self.wf(),
            self.can_get(cage, callnum),
        ensures
            h == self.lookup(cage, callnum),
    ;

    /// Gives the handlers of `src` to `dst`, as a fork does.
    fn copy_to_cage(&mut self, src: u64, dst: u64)
        requires
            old(self).wf(),
            old(self).can_copy(src, dst),
        ensures
            final(self).wf(),
            forall|n: u64| #[trigger]
                final(self).lookup(dst, n) == old(self).copied(src, dst, n),
            forall|n: u64|
                old(self).lookup(src, n) matches Some(h) ==> (#[trigger] final(self).lookup(
                    dst,
                    n,
                ) matches Some(kept) && same_target(h, kept)),
            forall|c: u64, n: u64|
                c != dst ==> #[trigger] final(self).lookup(c, n) == old(self).lookup(c, n),
            forall|c: u64, n: u64| #[trigger]
                final(self).can_register(c, n) == old(self).can_register(c, n),
            forall|c: u64, n: u64| #[trigger]
                final(self).can_get(c, n) == (if c == dst {
                    old(self).can_get(src, n)
                } else {
                    old(self).can_get(c, n)
                }),
            forall|s: u64, d: u64| #[trigger] final(self).can_copy(s, d) == old(self).can_copy(s, d),
            forall|g: Handler| #[trigger] final(self).recorded(g) == old(self).recorded(g),
            final(self).label() == old(self).label(),
    ;
}

/// The target of a syscall: one entry, from grate id to function pointer.
type TargetMap = HashMap<u64, u64>;

/// The targets of the syscalls of one cage.
type CallMap = HashMap<u64, TargetMap>;

/// A row of targets as plain maps.
pub open spec fn row_model(row: CallMap) -> Map<u64, Map<u64, u64>> {
    row@.map_values(|t: TargetMap| t@)
}

/// A target map holds exactly one entry.
pub open spec fn one_target(target: Map<u64, u64>) -> bool {
    exists|g: u64| target.dom() == set![g]
}

/// Every syscall of a row has one target.
pub open spec fn row_wf(row: Map<u64, Map<u64, u64>>) -> bool {
    forall|n: u64| row.contains_key(n) ==> one_target(#[trigger] row[n])
}

/// The grate id and the function pointer of syscall `n`.
pub open spec fn row_target(row: Map<u64, Map<u64, u64>>, n: u64) -> Option<(u64, u64)> {
    if row.contains_key(n) {
        let g = row[n].dom().choose();
        Some((g, row[n][g]))
    } else {
        None
    }
}

/// Makes `fnptr` in `grateid` the one target of syscall `callnum`.
fn set_target(row: &mut CallMap, callnum: u64, grateid: u64, fnptr: u64)
    requires
        row_wf(row_model(*old(row))),
    ensures
        row_wf(row_model(*final(row))),
        forall|n: u64| #[trigger]
            row_target(row_model(*final(row)), n) == (if n == callnum {
                Some((grateid, fnptr))
            } else {
                row_target(row_model(*old(row)), n)
            }),
{
    broadcast use vstd::std_specs::hash::group_hash_axioms;

    let mut target: TargetMap = HashMap::new();
    target.insert(grateid, fnptr);
    assert(target@.dom() =~= set![grateid]);
    row.insert(callnum, target);
    proof {
        let before = row_model(*old(row));
        let after = row_model(*row);
        assert(after =~= before.insert(callnum, target@));
        assert(one_target(after[callnum]));
        assert forall|n: u64| after.contains_key(n) implies one_target(#[trigger] after[n]) by {
            if n != callnum {
                assert(one_target(before[n]));
            }
        }
        assert(set![grateid].contains(grateid));
        assert(set![grateid].contains(set![grateid].choose()));
    }
}

/// The target of syscall `callnum`: the first entry of its target map.
fn get_target(row: &CallMap, callnum: u64) -> (t: Option<(u64, u64)>)
    requires
        row_wf(row_model(*row)),
    ensures
        t == row_target(row_model(*row), callnum),
{
    broadcast use vstd::std_specs::hash::group_hash_axioms;

    match row.get(&callnum) {
        Some(target) => {
            assert(row_model(*row)[callnum] == target@);
            let ghost only = choose|g: u64| target@.dom() == set![g];
            for g in it: target.keys()
                invariant
                    it.index() == 0,
                    target@ == row_model(*row)[callnum],
                    row_model(*row).contains_key(callnum),
                    target@.dom() == set![only],
            {
                let ghost seen = it.seq().unref();
                assert(seen[it.index()] == *g);
                assert(seen.to_set().contains(*g));
                assert(target@.dom().contains(*g));
                assert(target@.dom().contains(target@.dom().choose()));
                match target.get(g) {
                    Some(f) => {
                        return Some((*g, *f));
                    },
                    None => {
                        assert(false);
                    },
                }
            }
            None
        },
        None => None,
    }
}

/// The rows of a table, all with one target per syscall.
pub open spec fn rows_wf(rows: Map<u64, Map<u64, Map<u64, u64>>>) -> bool {
    forall|c: u64| rows.contains_key(c) ==> row_wf(#[trigger] rows[c])
}

/// The grate id and the function pointer of syscall `n` of `cage`.
pub open spec fn target_in(
    rows: Map<u64, Map<u64, Map<u64, u64>>>,
    cage: u64,
    n: u64,
) -> Option<(u64, u64)> {
    if rows.contains_key(cage) {
        row_target(rows[cage], n)
    } else {
        None
    }
}

/// What the rows of targets leave out of a handler, by cage and syscall: the argument
/// cage ids that it was registered with.
struct SideTable {
    rows: HashMap<u64, HashMap<u64, Handler>>,
}

impl SideTable {
    /// The argument cage ids of the last handler registered for syscall `callnum` of
    /// `cage`.
    closed spec fn pinned(&self, cage: u64, callnum: u64) -> Option<[u64; 6]> {
        if self.rows@.contains_key(cage) && self.rows@[cage]@.contains_key(callnum) {
            Some(self.rows@[cage]@[callnum].arg_cageids)
        } else {
            None
        }
    }

    fn new() -> (side: SideTable)
        ensures
            forall|c: u64, n: u64| #[trigger] side.pinned(c, n) is None,
    {
        SideTable { rows: HashMap::new() }
    }

    /// Keeps `h` for syscall `callnum` of `cage`.
    fn put(&mut self, cage: u64, callnum: u64, h: Handler)
        ensures
            forall|c: u64, n: u64| #[trigger]
                final(self).pinned(c, n) == (if c == cage && n == callnum {
                    Some(h.arg_cageids)
                } else {
                    old(self).pinned(c, n)
                }),
    {
        broadcast use vstd::std_specs::hash::group_hash_axioms;

        let row: &mut HashMap<u64, Handler> = self.rows.entry(cage).or_insert(HashMap::new());
        row.insert(callnum, h);
    }

    /// The argument cage ids for syscall `callnum` of `cage`.
    fn ids(&self, cage: u64, callnum: u64) -> (ids: Option<[u64; 6]>)
        ensures
            ids == self.pinned(cage, callnum),
    {
        broadcast use vstd::std_specs::hash::group_hash_axioms;

        match self.rows.get(&cage) {
            Some(row) => match row.get(&callnum) {
                Some(h) => Some(h.arg_cageids),
                None => None,
            },
            None => None,
        }
    }
}

/// The handler for a target and what is pinned for it.
pub open spec fn assemble(target: Option<(u64, u64)>, pinned: Option<[u64; 6]>) -> Option<Handler> {
    match target {
        Some((grateid, fnptr)) => Some(
            Handler {
                kind: kind_of(grateid),
                grateid,
                fnptr,
                arg_cageids: match pinned {
                    Some(ids) => ids,
                    None => unpinned(),
                },
            },
        ),
        None => None,
    }
}

/// What a table keeps of `h` that keeps its target and its argument cage ids.
pub open spec fn with_implied_kind(h: Handler) -> Handler {
    Handler { kind: kind_of(h.grateid), ..h }
}

/// Puts a handler together from its target and what is pinned for it.
fn assembled(target: Option<(u64, u64)>, pinned: Option<[u64; 6]>) -> (h: Option<Handler>)
    ensures
        h == assemble(target, pinned),
{
    match target {
        Some((grateid, fnptr)) => {
            let kind: HandlerKind = if grateid == RAWPOSIX_CAGEID {
                HandlerKind::Raw
            } else {
                HandlerKind::Grate
            };
            let arg_cageids: [u64; 6] = match pinned {
                Some(ids) => ids,
                None => [0, 0, 0, 0, 0, 0],
            };
            Some(Handler { kind, grateid, fnptr, arg_cageids })
        },
        None => None,
    }
}

/// Nested hash maps, and a side table for the argument cage ids.
pub struct MutexNested {
    table: HashMap<u64, CallMap>,
    meta: SideTable,
}

impl MutexNested {
    closed spec fn rows(&self) -> Map<u64, Map<u64, Map<u64, u64>>> {
        self.table@.map_values(|row: CallMap| row_model(row))
    }

    /// `cage` has a row of targets.
    pub closed spec fn has_row(&self, cage: u64) -> bool {
        self.table@.contains_key(cage)
    }

    /// The grate id and the function pointer of syscall `callnum` of `cage`.
    pub closed spec fn target(&self, cage: u64, callnum: u64) -> Option<(u64, u64)> {
        target_in(self.rows(), cage, callnum)
    }

    /// The argument cage ids of the last handler registered for syscall `callnum`
    /// of `cage`.
    pub closed spec fn pinned(&self, cage: u64, callnum: u64) -> Option<[u64; 6]> {
        self.meta.pinned(cage, callnum)
    }

    /// A table without handlers.
    pub fn new() -> (t: MutexNested)
        ensures
            t.wf(),
            forall|c: u64| !#[trigger] t.has_row(c),
            forall|c: u64, n: u64| #[trigger] t.target(c, n) is None,
            forall|c: u64, n: u64| #[trigger] t.pinned(c, n) is None,
            forall|c: u64, n: u64| #[trigger] t.lookup(c, n) is None,
    {
        MutexNested { table: HashMap::new(), meta: SideTable::new() }
    }
}

impl HandlerTable for MutexNested {
    closed spec fn wf(&self) -> bool {
        rows_wf(self.rows())
    }

    open spec fn lookup(&self, cage: u64, callnum: u64) -> Option<Handler> {
        assemble(self.target(cage, callnum), self.pinned(cage, callnum))
    }

    open spec fn recorded(&self, h: Handler) -> Handler {
        with_implied_kind(h)
    }

    /// The targets are copied, the argument cage ids are not.
    open spec fn copied(&self, src: u64, dst: u64, callnum: u64) -> Option<Handler> {
        if self.has_row(src) {
            assemble(self.target(src, callnum), self.pinned(dst, callnum))
        } else {
            self.lookup(dst, callnum)
        }
    }

    open spec fn can_register(&self, cage: u64, callnum: u64) -> bool {
        true
    }

    open spec fn can_get(&self, cage: u64, callnum: u64) -> bool {
        true
    }

    open spec fn can_copy(&self, src: u64, dst: u64) -> bool {
        true
    }

    open spec fn label(&self) -> Seq<char> {
        "mutex-nested-hashmap (upstream default)"@
    }

    fn takes(&self, cage: u64, callnum: u64) -> bool {
        true
    }

    fn answers(&self, cage: u64, callnum: u64) -> bool {
        true
    }

    fn name(&self) -> &'static str {
        "mutex-nested-hashmap (upstream default)"
    }

    fn register(&mut self, cage: u64, callnum: u64, h: Handler)
        ensures
            forall|c: u64| #[trigger] final(self).has_row(c) == (c == cage || old(self).has_row(c)),
            forall|c: u64, n: u64| #[trigger]
                final(self).target(c, n) == (if c == cage && n == callnum {
                    Some((h.grateid, h.fnptr))
                } else {
                    old(self).target(c, n)
                }),
            forall|c: u64, n: u64| #[trigger]
                final(self).pinned(c, n) == (if c == cage && n == callnum {
                    Some(h.arg_cageids)
                } else {
                    old(self).pinned(c, n)
                }),
    {
        broadcast use vstd::std_specs::hash::group_hash_axioms;

        let ghost before = self.rows();
        let call_map: &mut CallMap = self.table.entry(cage).or_insert(HashMap::new());
        proof {
            if before.contains_key(cage) {
                assert(row_wf(before[cage]));
                assert(before[cage] == row_model(*call_map));
            }
        }
        set_target(call_map, callnum, h.grateid, h.fnptr);
        self.meta.put(cage, callnum, h);
        proof {
            let after = self.rows();
            assert(self.table@ == old(self).table@.insert(cage, self.table@[cage]));
            assert forall|c: u64| after.contains_key(c) implies row_wf(#[trigger] after[c]) by {
                if c != cage {
                    assert(after[c] == before[c]);
                }
            }
        }
    }

    fn get(&self, cage: u64, callnum: u64) -> Option<Handler> {
        broadcast use vstd::std_specs::hash::group_hash_axioms;

        let target: Option<(u64, u64)> = match self.table.get(&cage) {
            Some(row) => get_target(row, callnum),
            None => None,
        };
        assembled(target, self.meta.ids(cage, callnum))
    }

    fn copy_to_cage(&mut self, src: u64, dst: u64)
        ensures
            forall|c: u64| #[trigger]
                final(self).has_row(c) == (old(self).has_row(c) || (c == dst && old(self).has_row(
                    src,
                ))),
            forall|c: u64, n: u64| #[trigger]
                final(self).target(c, n) == (if c == dst && old(self).has_row(src) {
                    old(self).target(src, n)
                } else {
                    old(self).target(c, n)
                }),
            forall|c: u64, n: u64| #[trigger] final(self).pinned(c, n) == old(self).pinned(c, n),
    {
        broadcast use vstd::std_specs::hash::group_hash_axioms;

        let copy: Option<CallMap> = match self.table.get(&src) {
            Some(row) => Some(row.clone()),
            None => None,
        };
        if let Some(row) = copy {
            self.table.insert(dst, row);
            proof {
                let before = old(self).rows();
                let after = self.rows();
                assert(row_model(row) == before[src]);
                assert(after =~= before.insert(dst, before[src]));
                assert forall|c: u64| after.contains_key(c) implies row_wf(#[trigger] after[c]) by {
                    assert(row_wf(before[src]));
                    if c != dst {
                        assert(row_wf(before[c]));
                    }
                }
            }
        }
    }
}

/// `dashmap::DashMap`, the sharded concurrent map.
#[verifier::external_type_specification]
#[verifier::external_body]
#[verifier::reject_recursive_types(K)]
#[verifier::reject_recursive_types(V)]
#[verifier::reject_recursive_types(S)]
pub struct ExDashMap<K, V, S>(DashMap<K, V, S>);

/// The rows that a `DashMap` holds, by cage.
pub uninterp spec fn dash_rows(map: DashMap<u64, HashMap<u64, HashMap<u64, u64>>>) -> Map<
    u64,
    Map<u64, Map<u64, u64>>,
>;

/// `DashMap::new`: the map holds nothing.
#[verifier::external_body]
fn dash_new() -> (map: DashMap<u64, CallMap>)
    ensures
        forall|c: u64| !dash_rows(map).contains_key(c),
{
    DashMap::new()
}

/// `dashmap::mapref::one::Ref`, a guard on one entry of a `DashMap`.
#[verifier::external_type_specification]
#[verifier::external_body]
#[verifier::reject_recursive_types(K)]
#[verifier::reject_recursive_types(V)]
pub struct ExRef<'a, K, V>(Ref<'a, K, V>);

/// The row that a guard gives access to.
pub uninterp spec fn held_row(guard: Ref<u64, HashMap<u64, HashMap<u64, u64>>>) -> Map<
    u64,
    Map<u64, u64>,
>;

/// `DashMap::get`: a guard on the row of `cage`, or nothing where the map has none.
/// The map changes only through `dash_insert`, which borrows it exclusively, so no
/// writer runs beside this.
#[verifier::external_body]
fn dash_get<'a>(map: &'a DashMap<u64, CallMap>, cage: u64) -> (guard: Option<Ref<'a, u64, CallMap>>)
    ensures
        match guard {
            Some(g) => dash_rows(*map).contains_key(cage) && held_row(g) == dash_rows(*map)[cage],
            None => !dash_rows(*map).contains_key(cage),
        },
{
    map.get(&cage)
}

/// `Ref::value`: the row behind the guard.
#[verifier::external_body]
fn ref_value<'r>(guard: &'r Ref<'_, u64, CallMap>) -> (row: &'r CallMap)
    ensures
        row_model(*row) == held_row(*guard),
{
    guard.value()
}

/// `DashMap::insert`: the row of `cage` is now `row`, and no other row changes.
#[verifier::external_body]
fn dash_insert(map: &mut DashMap<u64, CallMap>, cage: u64, row: CallMap)
    ensures
        dash_rows(*final(map)) == dash_rows(*old(map)).insert(cage, row_model(row)),
{
    map.insert(cage, row);
}

/// The rows in a `DashMap`, and a side table for the argument cage ids.
pub struct DashNested {
    table: DashMap<u64, CallMap>,
    meta: SideTable,
}

impl DashNested {
    /// `cage` has a row of targets.
    pub closed spec fn has_row(&self, cage: u64) -> bool {
        dash_rows(self.table).contains_key(cage)
    }

    /// The grate id and the function pointer of syscall `callnum` of `cage`.
    pub closed spec fn target(&self, cage: u64, callnum: u64) -> Option<(u64, u64)> {
        target_in(dash_rows(self.table), cage, callnum)
    }

    /// The argument cage ids of the last handler registered for syscall `callnum`
    /// of `cage`.
    pub closed spec fn pinned(&self, cage: u64, callnum: u64) -> Option<[u64; 6]> {
        self.meta.pinned(cage, callnum)
    }

    /// A table without handlers.
    pub fn new() -> (t: DashNested)
        ensures
            t.wf(),
            forall|c: u64| !#[trigger] t.has_row(c),
            forall|c: u64, n: u64| #[trigger] t.target(c, n) is None,
            forall|c: u64, n: u64| #[trigger] t.pinned(c, n) is None,
            forall|c: u64, n: u64| #[trigger] t.lookup(c, n) is None,
    {
        DashNested { table: dash_new(), meta: SideTable::new() }
    }
}

impl HandlerTable for DashNested {
    closed spec fn wf(&self) -> bool {
        rows_wf(dash_rows(self.table))
    }

    open spec fn lookup(&self, cage: u64, callnum: u64) -> Option<Handler> {
        assemble(self.target(cage, callnum), self.pinned(cage, callnum))
    }

    open spec fn recorded(&self, h: Handler) -> Handler {
        with_implied_kind(h)
    }

    /// The targets are copied, the argument cage ids are not.
    open spec fn copied(&self, src: u64, dst: u64, callnum: u64) -> Option<Handler> {
        if self.has_row(src) {
            assemble(self.target(src, callnum), self.pinned(dst, callnum))
        } else {
            self.lookup(dst, callnum)
        }
    }

    open spec fn can_register(&self, cage: u64, callnum: u64) -> bool {
        true
    }

    open spec fn can_get(&self, cage: u64, callnum: u64) -> bool {
        true
    }

    open spec fn can_copy(&self, src: u64, dst: u64) -> bool {
        true
    }

    open spec fn label(&self) -> Seq<char> {
        "dashmap-nested"@
    }

    fn takes(&self, cage: u64, callnum: u64) -> bool {
        true
    }

    fn answers(&self, cage: u64, callnum: u64) -> bool {
        true
    }

    fn name(&self) -> &'static str {
        "dashmap-nested"
    }

    fn register(&mut self, cage: u64, callnum: u64, h: Handler)
        ensures
            forall|c: u64| #[trigger] final(self).has_row(c) == (c == cage || old(self).has_row(c)),
            forall|c: u64, n: u64| #[trigger]
                final(self).target(c, n) == (if c == cage && n == callnum {
                    Some((h.grateid, h.fnptr))
                } else {
                    old(self).target(c, n)
                }),
            forall|c: u64, n: u64| #[trigger]
                final(self).pinned(c, n) == (if c == cage && n == callnum {
                    Some(h.arg_cageids)
                } else {
                    old(self).pinned(c, n)
                }),
    {
        let ghost before = dash_rows(self.table);
        let mut row: CallMap = match dash_get(&self.table, cage) {
            Some(guard) => ref_value(&guard).clone(),
            None => HashMap::new(),
        };
        assert(before.contains_key(cage) ==> row_wf(before[cage]));
        set_target(&mut row, callnum, h.grateid, h.fnptr);
        dash_insert(&mut self.table, cage, row);
        self.meta.put(cage, callnum, h);
        proof {
            let after = dash_rows(self.table);
            assert forall|c: u64| after.contains_key(c) implies row_wf(#[trigger] after[c]) by {
                if c != cage {
                    assert(after[c] == before[c]);
                }
            }
        }
    }

    fn get(&self, cage: u64, callnum: u64) -> Option<Handler> {
        let target: Option<(u64, u64)> = match dash_get(&self.table, cage) {
            Some(guard) => {
                assert(row_wf(dash_rows(self.table)[cage]));
                get_target(ref_value(&guard), callnum)
            },
            None => None,
        };
        assembled(target, self.meta.ids(cage, callnum))
    }

    fn copy_to_cage(&mut self, src: u64, dst: u64)
        ensures
            forall|c: u64| #[trigger]
                final(self).has_row(c) == (old(self).has_row(c) || (c == dst && old(self).has_row(
                    src,
                ))),
            forall|c: u64, n: u64| #[trigger]
                final(self).target(c, n) == (if c == dst && old(self).has_row(src) {
                    old(self).target(src, n)
                } else {
                    old(self).target(c, n)
                }),
            forall|c: u64, n: u64| #[trigger] final(self).pinned(c, n) == old(self).pinned(c, n),
    {
        let ghost before = dash_rows(self.table);
        let copy: Option<CallMap> = match dash_get(&self.table, src) {
            Some(guard) => Some(ref_value(&guard).clone()),
            None => None,
        };
        if let Some(row) = copy {
            dash_insert(&mut self.table, dst, row);
            proof {
                let after = dash_rows(self.table);
                assert forall|c: u64| after.contains_key(c) implies row_wf(#[trigger] after[c]) by {
                    assert(row_wf(before[src]));
                    if c != dst {
                        assert(row_wf(before[c]));
                    }
                }
            }
        }
    }
}

/// A row of slots per cage, made when the cage gets its first handler.
pub struct Flat {
    rows: Vec<Option<Vec<Option<Handler>>>>,
}

impl Flat {
    /// `cage` has a row of slots.
    pub closed spec fn has_row(&self, cage: u64) -> bool {
        cage < MAX_CAGES && self.rows@[cage as int] is Some
    }

    /// The handler in slot `callnum` of the row of `cage`.
    pub closed spec fn slot(&self, cage: u64, callnum: u64) -> Option<Handler> {
        if self.has_row(cage) && callnum < MAX_SYSCALLS {
            self.rows@[cage as int]->0@[callnum as int]
        } else {
            None
        }
    }

    /// A table without handlers.
    pub fn new() -> (t: Flat)
        ensures
            t.wf(),
            forall|c: u64| !#[trigger] t.has_row(c),
            forall|c: u64, n: u64| #[trigger] t.lookup(c, n) is None,
    {
        let mut rows: Vec<Option<Vec<Option<Handler>>>> = Vec::with_capacity(MAX_CAGES);
        let mut c: usize = 0;
        while c < MAX_CAGES
            invariant
                c <= MAX_CAGES,
                rows@.len() == c,
                forall|i: int| 0 <= i < c ==> #[trigger] rows@[i] is None,
            decreases MAX_CAGES - c,
        {
            rows.push(None);
            c = c + 1;
        }
        Flat { rows }
    }
}

/// A row of empty slots.
fn empty_row() -> (row: Vec<Option<Handler>>)
    ensures
        row@ == Seq::new(MAX_SYSCALLS as nat, |n: int| None::<Handler>),
{
    let mut row: Vec<Option<Handler>> = Vec::with_capacity(MAX_SYSCALLS);
    let mut n: usize = 0;
    while n < MAX_SYSCALLS
        invariant
            n <= MAX_SYSCALLS,
            row@ == Seq::new(n as nat, |i: int| None::<Handler>),
        decreases MAX_SYSCALLS - n,
    {
        row.push(None);
        n = n + 1;
        assert(row@ =~= Seq::new(n as nat, |i: int| None::<Handler>));
    }
    row
}

/// A row with the same slots.
fn copy_row(row: &Vec<Option<Handler>>) -> (copy: Vec<Option<Handler>>)
    ensures
        copy@ == row@,
{
    let mut copy: Vec<Option<Handler>> = Vec::with_capacity(row.len());
    let mut n: usize = 0;
    while n < row.len()
        invariant
            n <= row@.len(),
            copy@ == row@.take(n as int),
        decreases row@.len() - n,
    {
        copy.push(row[n]);
        n = n + 1;
        assert(copy@ =~= row@.take(n as int));
    }
    assert(copy@ =~= row@);
    copy
}

impl HandlerTable for Flat {
    closed spec fn wf(&self) -> bool {
        &&& self.rows@.len() == MAX_CAGES
        &&& forall|c: int|
            0 <= c < MAX_CAGES ==> (#[trigger] self.rows@[c] matches Some(row) ==> row@.len()
                == MAX_SYSCALLS)
    }

    open spec fn lookup(&self, cage: u64, callnum: u64) -> Option<Handler> {
        self.slot(cage, callnum)
    }

    open spec fn recorded(&self, h: Handler) -> Handler {
        h
    }

    open spec fn copied(&self, src: u64, dst: u64, callnum: u64) -> Option<Handler> {
        self.lookup(src, callnum)
    }

    open spec fn can_register(&self, cage: u64, callnum: u64) -> bool {
        cage < MAX_CAGES && callnum < MAX_SYSCALLS
    }

    open spec fn can_get(&self, cage: u64, callnum: u64) -> bool {
        cage < MAX_CAGES && (self.has_row(cage) ==> callnum < MAX_SYSCALLS)
    }

    open spec fn can_copy(&self, src: u64, dst: u64) -> bool {
        src < MAX_CAGES && dst < MAX_CAGES
    }

    open spec fn label(&self) -> Seq<char> {
        "flat-array"@
    }

    fn takes(&self, cage: u64, callnum: u64) -> bool {
        cage < MAX_CAGES as u64 && callnum < MAX_SYSCALLS as u64
    }

    fn answers(&self, cage: u64, callnum: u64) -> bool {
        cage < MAX_CAGES as u64 && (self.rows[cage as usize].is_none() || callnum
            < MAX_SYSCALLS as u64)
    }

    fn name(&self) -> &'static str {
        "flat-array"
    }

    fn register(&mut self, cage: u64, callnum: u64, h: Handler)
        ensures
            forall|c: u64| #[trigger] final(self).has_row(c) == (c == cage || old(self).has_row(c)),
    {
        if self.rows[cage as usize].is_none() {
            self.rows[cage as usize] = Some(empty_row());
        }
        if let Some(row) = &mut self.rows[cage as usize] {
            row[callnum as usize] = Some(h);
        }
    }

    fn get(&self, cage: u64, callnum: u64) -> Option<Handler> {
        match &self.rows[cage as usize] {
            Some(row) => row[callnum as usize],
            None => None,
        }
    }

    fn copy_to_cage(&mut self, src: u64, dst: u64)
        ensures
            forall|c: u64| #[trigger]
                final(self).has_row(c) == (if c == dst {
                    old(self).has_row(src)
                } else {
                    old(self).has_row(c)
                }),
    {
        let copy: Option<Vec<Option<Handler>>> = match &self.rows[src as usize] {
            Some(row) => Some(copy_row(row)),
            None => None,
        };
        self.rows[dst as usize] = copy;
    }
}

/// What the nested hash maps answer: the target that was registered, a raw handler exactly where the
/// target is the host's cage id, with the argument cage ids that were pinned, or zeros.
pub proof fn law_mutexnested_lookups(t: MutexNested, cage: u64, n: u64)
    ensures
        t.target(cage, n) is None <==> t.lookup(cage, n) is None,
        t.target(cage, n) matches Some((grateid, fnptr)) ==> (t.lookup(cage, n) matches Some(h)
            && h.grateid == grateid && h.fnptr == fnptr && (h.kind == HandlerKind::Raw <==> grateid
            == 1) && (t.pinned(cage, n) matches Some(ids) ==> h.arg_cageids == ids) && (t.pinned(
            cage,
            n,
        ) is None ==> h.arg_cageids@ == seq![0u64, 0, 0, 0, 0, 0])),
        !t.has_row(cage) ==> t.lookup(cage, n) is None,
{
    assert(unpinned()@ =~= seq![0u64, 0, 0, 0, 0, 0]);
}

/// What the nested hash maps keep of a handler: all of it, but for a kind that its target does not imply.
pub proof fn law_mutexnested_records(t: MutexNested, h: Handler)
    ensures
        t.recorded(h).grateid == h.grateid,
        t.recorded(h).fnptr == h.fnptr,
        t.recorded(h).arg_cageids == h.arg_cageids,
        t.recorded(h).kind == HandlerKind::Raw <==> h.grateid == 1,
{
}

/// What a copy in the nested hash maps gives: nothing new where the source has no row; otherwise the
/// source's targets and no other, with the argument cage ids of the destination.
pub proof fn law_mutexnested_copies(t: MutexNested, src: u64, dst: u64, n: u64)
    ensures
        !t.has_row(src) ==> t.copied(src, dst, n) == t.lookup(dst, n),
        t.has_row(src) && t.lookup(src, n) is None ==> t.copied(src, dst, n) is None,
        t.has_row(src) ==> (t.lookup(src, n) matches Some(h) ==> (t.copied(src, dst, n) matches Some(
            k,
        ) && k.kind == h.kind && k.grateid == h.grateid && k.fnptr == h.fnptr && (t.pinned(
            dst,
            n,
        ) matches Some(ids) ==> k.arg_cageids == ids) && (t.pinned(dst, n) is None
            ==> k.arg_cageids@ == seq![0u64, 0, 0, 0, 0, 0]))),
{
    assert(unpinned()@ =~= seq![0u64, 0, 0, 0, 0, 0]);
}

/// In the nested hash maps every call of every cage has a place.
pub proof fn law_mutexnested_has_room(t: MutexNested, a: u64, b: u64)
    ensures
        t.can_register(a, b),
        t.can_get(a, b),
        t.can_copy(a, b),
{
}

/// What the rows in the `DashMap` answer: the target that was registered, a raw handler exactly where the
/// target is the host's cage id, with the argument cage ids that were pinned, or zeros.
pub proof fn law_dashnested_lookups(t: DashNested, cage: u64, n: u64)
    ensures
        t.target(cage, n) is None <==> t.lookup(cage, n) is None,
        t.target(cage, n) matches Some((grateid, fnptr)) ==> (t.lookup(cage, n) matches Some(h)
            && h.grateid == grateid && h.fnptr == fnptr && (h.kind == HandlerKind::Raw <==> grateid
            == 1) && (t.pinned(cage, n) matches Some(ids) ==> h.arg_cageids == ids) && (t.pinned(
            cage,
            n,
        ) is None ==> h.arg_cageids@ == seq![0u64, 0, 0, 0, 0, 0])),
        !t.has_row(cage) ==> t.lookup(cage, n) is None,
{
    assert(unpinned()@ =~= seq![0u64, 0, 0, 0, 0, 0]);
}

/// What the rows in the `DashMap` keep of a handler: all of it, but for a kind that its target does not imply.
pub proof fn law_dashnested_records(t: DashNested, h: Handler)
    ensures
        t.recorded(h).grateid == h.grateid,
        t.recorded(h).fnptr == h.fnptr,
        t.recorded(h).arg_cageids == h.arg_cageids,
        t.recorded(h).kind == HandlerKind::Raw <==> h.grateid == 1,
{
}

/// What a copy in the rows in the `DashMap` gives: nothing new where the source has no row; otherwise the
/// source's targets and no other, with the argument cage ids of the destination.
pub proof fn law_dashnested_copies(t: DashNested, src: u64, dst: u64, n: u64)
    ensures
        !t.has_row(src) ==> t.copied(src, dst, n) == t.lookup(dst, n),
        t.has_row(src) && t.lookup(src, n) is None ==> t.copied(src, dst, n) is None,
        t.has_row(src) ==> (t.lookup(src, n) matches Some(h) ==> (t.copied(src, dst, n) matches Some(
            k,
        ) && k.kind == h.kind && k.grateid == h.grateid && k.fnptr == h.fnptr && (t.pinned(
            dst,
            n,
        ) matches Some(ids) ==> k.arg_cageids == ids) && (t.pinned(dst, n) is None
            ==> k.arg_cageids@ == seq![0u64, 0, 0, 0, 0, 0]))),
{
    assert(unpinned()@ =~= seq![0u64, 0, 0, 0, 0, 0]);
}

/// In the rows in the `DashMap` every call of every cage has a place.
pub proof fn law_dashnested_has_room(t: DashNested, a: u64, b: u64)
    ensures
        t.can_register(a, b),
        t.can_get(a, b),
        t.can_copy(a, b),
{
}

/// What the flat array answers, keeps, copies and has room for: handlers as they are, for
/// 1024 cages of 512 calls each; a cage without a row can be asked for any call.
pub proof fn law_flat_is_an_array_of_handlers(t: Flat, h: Handler, a: u64, b: u64, n: u64)
    ensures
        t.recorded(h) == h,
        t.copied(a, b, n) == t.lookup(a, n),
        t.can_register(a, n) <==> a < 1024 && n < 512,
        t.can_copy(a, b) <==> a < 1024 && b < 1024,
        t.can_get(a, n) <==> a < 1024 && (n < 512 || !t.has_row(a)),
        !t.has_row(a) ==> t.lookup(a, n) is None,
        a >= 1024 || n >= 512 ==> t.lookup(a, n) is None,
{
}

/// When a handler leads where another does: to the same function of the same target, with
/// the same argument cages, and as the same kind where the target implies it.
pub proof fn law_what_a_route_is(h: Handler, k: Handler)
    ensures
        same_route(h, k) ==> k.grateid == h.grateid && k.fnptr == h.fnptr && k.arg_cageids
            == h.arg_cageids,
        same_route(h, k) && h.kind == HandlerKind::Raw && h.grateid == 1 ==> k == h,
        same_route(h, k) && h.kind == HandlerKind::Grate && h.grateid != 1 ==> k == h,
        same_target(h, k) <==> k.kind == h.kind && k.grateid == h.grateid && k.fnptr == h.fnptr,
{
}

} // verus!
