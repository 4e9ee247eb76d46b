use threei_dispatch_bench::dispatch::{from_grate, Action, Config, Threei};
use threei_dispatch_bench::grate::{
    build_chain, call_grate, finish_call, grate_wat, memory_image, probe_narrow, probe_wide,
    teardown, Chain, Entry, GrateCall, TrampolineMode, FPTR_FORWARD, GRATE_BASE, PROBE_WAT,
};
use threei_dispatch_bench::handler::{Flat, HandlerTable, MutexNested};

const LEAF: u64 = 0xbeef;

fn chain(n: usize, mode: TrampolineMode) -> Chain {
    let mut t = Threei::new(Box::new(MutexNested::new()));
    build_chain(&mut t, LEAF, n, 63, mode, 2, 1, &[1, 2]).chain
}

fn enter(c: &mut Chain, gid: u64) -> GrateCall {
    call_grate(c, gid, 1, 2, 3, 4, 5, 6, 7, 8, 9, 10, 11, 12, 13)
}

fn path<T: HandlerTable + ?Sized>(t: &mut Threei<T>, cage: u64) -> (Vec<u64>, u64) {
    let cfg = Config::new();
    let mut at = cage;
    let mut through = Vec::new();
    loop {
        match from_grate(t, &cfg, at, 63, at, [0; 12]) {
            Action::CallGrate { grateid, fnptr, .. } => {
                assert_eq!(fnptr, FPTR_FORWARD);
                through.push(grateid);
                at = grateid;
            }
            Action::CallRaw { fnptr, .. } => return (through, fnptr),
            Action::Return(r) => panic!("{r}"),
        }
    }
}

#[test]
fn the_module_of_a_grate() {
    let wat = grate_wat(63, 8);
    assert!(wat.starts_with("(module\n  (import \"threei\" \"make_syscall\" (func $ms\n"));
    assert!(wat.contains("(br_if $done (i32.ge_u (local.get $i) (i32.const 8)))\n"));
    assert!(wat.contains("(local.get $cage) (i64.const 63) (i64.const 0) (local.get $cage)\n"));
    assert!(wat.ends_with("(local.get $c5) (local.get $a6) (local.get $c6))\n  )\n)\n"));
    assert_eq!(wat.matches('(').count(), wat.matches(')').count());
    let large = grate_wat(u64::MAX, u32::MAX);
    assert!(large.contains("(i64.const 18446744073709551615)"));
    assert!(large.contains("(i32.const 4294967295)"));
}

#[test]
fn the_module_of_a_grate_compiles() {
    let engine = wasmtime::Engine::default();
    let module = wasmtime::Module::new(&engine, grate_wat(63, 8)).unwrap();
    let exports: Vec<&str> = module.exports().map(|e| e.name()).collect();
    assert_eq!(exports, vec!["memory", "pass_fptr_to_wt"]);
    let probe = wasmtime::Module::new(&engine, PROBE_WAT).unwrap();
    let exports: Vec<&str> = probe.exports().map(|e| e.name()).collect();
    assert_eq!(exports, vec!["loop_wide", "loop_narrow"]);
}

#[test]
fn the_allowlist_in_memory() {
    assert_eq!(
        memory_image(&[1, 0x0102_0304_0506_0708]),
        vec![1, 0, 0, 0, 0, 0, 0, 0, 8, 7, 6, 5, 4, 3, 2, 1]
    );
    assert_eq!(memory_image(&[]), Vec::<u8>::new());
}

#[test]
fn a_stack_leads_through_its_grates_to_the_host() {
    for n in 0..4usize {
        let mut t = Threei::new(Box::new(MutexNested::new()));
        let plan = build_chain(&mut t, LEAF, n, 63, TrampolineMode::PerCall, 8, 1, &[1, 2]);
        assert_eq!(plan.wat, grate_wat(63, 8));
        assert_eq!(plan.memory, memory_image(&[1, 2]));
        let want: Vec<u64> = (0..n as u64).map(|i| GRATE_BASE + i).collect();
        assert_eq!(path(&mut t, 1), (want, LEAF));
    }
}

#[test]
fn a_stack_over_a_flat_table_leaves_other_handlers_alone() {
    let mut t = Threei::new(Box::new(Flat::new()));
    threei_dispatch_bench::dispatch::register_raw(&mut t, 5, 1, 64);
    build_chain(&mut t, LEAF, 2, 63, TrampolineMode::Cached, 0, 1, &[]);
    assert_eq!(t.table.get(1, 64).unwrap().fnptr, 5);
    assert_eq!(path(&mut t, 1), (vec![100, 101], LEAF));
    assert!(t.table.get(102, 63).is_none());
}

#[test]
fn per_call_takes_the_context_out_and_puts_it_back() {
    let mut c = chain(2, TrampolineMode::PerCall);
    assert!(c.can_enter(100) && c.can_enter(101));
    assert!(!c.can_enter(99) && !c.can_enter(102));
    let call = enter(&mut c, 100);
    assert_eq!((call.slot, call.entry), (0, Entry::ByName));
    assert_eq!(call.args, [1, 100, 2, 3, 4, 5, 6, 7, 8, 9, 10, 11, 12, 13]);
    assert!(!c.can_enter(100));
    let inner = enter(&mut c, 101);
    assert_eq!((inner.slot, inner.entry), (1, Entry::ByName));
    assert!(!c.can_enter(101));
    assert_eq!(finish_call(&mut c, 101, 7), 7);
    assert!(c.can_enter(101) && !c.can_enter(100));
    assert_eq!(finish_call(&mut c, 100, -13), -13);
    assert!(c.can_enter(100) && c.can_enter(101));
    assert_eq!(enter(&mut c, 100).entry, Entry::ByName);
}

#[test]
fn cached_looks_the_entry_up_once() {
    let mut c = chain(2, TrampolineMode::Cached);
    assert_eq!(enter(&mut c, 101).entry, Entry::ByNameAndKeep);
    assert_eq!(finish_call(&mut c, 101, 0), 0);
    let again = enter(&mut c, 101);
    assert_eq!((again.slot, again.entry), (1, Entry::Kept));
    assert!(!c.can_enter(101));
    finish_call(&mut c, 101, 0);
    assert_eq!(enter(&mut c, 100).entry, Entry::ByNameAndKeep);
}

#[test]
fn a_stack_is_taken_down() {
    let mut c = Some(chain(1, TrampolineMode::PerCall));
    teardown(&mut c);
    assert!(c.is_none());
    teardown(&mut c);
    assert!(c.is_none());
}

#[test]
fn the_probe_returns_parities() {
    assert_eq!(probe_wide(1, 2, 0, 1, 3, 1, 4, 1, 5, 1, 6, 1, 7, 1, 8, 1), 1);
    assert_eq!(probe_wide(1, 2, 0, 1, 3, 1, 4, 1, 5, 1, 6, 1, 7, 1, 8, 2), 0);
    assert_eq!(probe_narrow(2, 3, 4, 5, 6, 7, 8), 1);
    assert_eq!(probe_narrow(2, 2, 4, 5, 6, 7, 8), 0);
}
