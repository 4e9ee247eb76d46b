use std::sync::{Arc, Mutex, OnceLock};

use threei_dispatch_bench::dispatch::{
    from_grate, make_syscall, raw_leaf, register_grate, Action, CallArgs, Config, Threei,
    EACCES,
};
use threei_dispatch_bench::grate::{
    build_chain, call_grate, finish_call, grate_wat, memory_image, probe_narrow, probe_wide, Chain,
    TrampolineMode, FPTR_DENY, FPTR_FORWARD, FPTR_POLICY_FORWARD, GRATE_BASE, GRATE_MEMORY,
    PROBE_WAT,
};
use threei_dispatch_bench::handler::MutexNested;
use wasmtime::{Engine, Instance, Linker, Module, Store, TypedFunc};

type Args14 = (u64, u64, u64, u64, u64, u64, u64, u64, u64, u64, u64, u64, u64, u64);
type Host = Arc<dyn Fn([u64; 16]) -> i32 + Send + Sync>;

struct Grate {
    store: Store<()>,
    instance: Instance,
}

/// An engine that reserves no more address space than a grate has memory.
fn engine() -> Engine {
    let mut config = wasmtime::Config::new();
    config.memory_reservation(GRATE_MEMORY as u64);
    config.memory_reservation_for_growth(0);
    config.memory_guard_size(0);
    Engine::new(&config).unwrap()
}

impl Grate {
    fn new(wat: &str, image: &[u8], host: Host) -> Grate {
        let engine = engine();
        let module = Module::new(&engine, wat).unwrap();
        let mut store = Store::new(&engine, ());
        let mut linker: Linker<()> = Linker::new(&engine);
        linker
            .func_wrap(
                "threei",
                "make_syscall",
                move |a: u64, b: u64, c: u64, d: u64, e: u64, f: u64, g: u64, h: u64, i: u64,
                      j: u64, k: u64, l: u64, m: u64, n: u64, o: u64, p: u64|
                      -> i32 { host([a, b, c, d, e, f, g, h, i, j, k, l, m, n, o, p]) },
            )
            .unwrap();
        let instance = linker.instantiate(&mut store, &module).unwrap();
        let memory = instance.get_memory(&mut store, "memory").unwrap();
        assert_eq!(memory.data_size(&store), GRATE_MEMORY);
        memory.data_mut(&mut store)[..image.len()].copy_from_slice(image);
        Grate { store, instance }
    }

    fn call(&mut self, a: [u64; 14]) -> i32 {
        let entry: TypedFunc<Args14, i32> =
            self.instance.get_typed_func(&mut self.store, "pass_fptr_to_wt").unwrap();
        let args = (
            a[0], a[1], a[2], a[3], a[4], a[5], a[6], a[7], a[8], a[9], a[10], a[11], a[12], a[13],
        );
        entry.call(&mut self.store, args).unwrap()
    }
}

fn args(fptr: u64, c1: u64) -> [u64; 14] {
    [fptr, 100, 11, c1, 12, 22, 13, 23, 14, 24, 15, 25, 16, 26]
}

fn recorder() -> (Host, Arc<Mutex<Vec<[u64; 16]>>>) {
    let seen = Arc::new(Mutex::new(Vec::new()));
    let log = seen.clone();
    (
        Arc::new(move |call: [u64; 16]| {
            log.lock().unwrap().push(call);
            42
        }),
        seen,
    )
}

#[test]
fn a_forwarding_grate_makes_the_call_as_itself() {
    let (host, seen) = recorder();
    let mut g = Grate::new(&grate_wat(63, 0), &[], host);
    assert_eq!(g.call(args(FPTR_FORWARD, 21)), 42);
    assert_eq!(
        *seen.lock().unwrap(),
        vec![[100, 63, 0, 100, 11, 21, 12, 22, 13, 23, 14, 24, 15, 25, 16, 26]]
    );
}

#[test]
fn a_denying_grate_makes_no_call() {
    let (host, seen) = recorder();
    let mut g = Grate::new(&grate_wat(63, 2), &memory_image(&[1, 2]), host);
    assert_eq!(g.call(args(FPTR_DENY, 1)), EACCES);
    assert!(seen.lock().unwrap().is_empty());
}

#[test]
fn a_grate_with_a_policy_scans_its_allowlist() {
    let (host, seen) = recorder();
    let listed = [5u64, u64::MAX, 7, 9];
    let mut g = Grate::new(&grate_wat(63, 3), &memory_image(&listed), host);
    for c1 in [5u64, u64::MAX, 7] {
        assert_eq!(g.call(args(FPTR_POLICY_FORWARD, c1)), 42);
    }
    for c1 in [0u64, 6, 9] {
        assert_eq!(g.call(args(FPTR_POLICY_FORWARD, c1)), EACCES);
    }
    assert_eq!(seen.lock().unwrap().len(), 3);
}

#[test]
fn the_probe_loops_add_up_parities() {
    let engine = engine();
    let module = Module::new(&engine, PROBE_WAT).unwrap();
    let mut store = Store::new(&engine, ());
    let mut linker: Linker<()> = Linker::new(&engine);
    linker.func_wrap("h", "wide", probe_wide).unwrap();
    linker.func_wrap("h", "narrow", probe_narrow).unwrap();
    let instance = linker.instantiate(&mut store, &module).unwrap();
    let wide: TypedFunc<(u32,), u64> = instance.get_typed_func(&mut store, "loop_wide").unwrap();
    let narrow: TypedFunc<(u32,), u64> =
        instance.get_typed_func(&mut store, "loop_narrow").unwrap();
    assert_eq!(wide.call(&mut store, (1000,)).unwrap(), 1000);
    assert_eq!(narrow.call(&mut store, (1000,)).unwrap(), 1000);
    assert_eq!(wide.call(&mut store, (0,)).unwrap(), 0);
}

struct Runtime {
    threei: Mutex<Threei<MutexNested>>,
    chain: Mutex<Chain>,
    grates: Vec<Mutex<Grate>>,
    entered: Mutex<Vec<u64>>,
}

impl Runtime {
    fn carry_out(&self, action: Action) -> i32 {
        match action {
            Action::Return(r) => r,
            Action::CallRaw { target_cageid, args: a, .. } => raw_leaf(
                target_cageid, a.arg1, a.arg1_cageid, a.arg2, a.arg2_cageid, a.arg3, a.arg3_cageid,
                a.arg4, a.arg4_cageid, a.arg5, a.arg5_cageid, a.arg6, a.arg6_cageid,
            ),
            Action::CallGrate { grateid, fnptr, args } => self.enter(grateid, fnptr, args),
        }
    }

    fn enter(&self, grateid: u64, fnptr: u64, a: CallArgs) -> i32 {
        self.entered.lock().unwrap().push(grateid);
        let call = {
            let mut chain = self.chain.lock().unwrap();
            assert!(chain.can_enter(grateid));
            call_grate(
                &mut chain, grateid, fnptr, a.arg1, a.arg1_cageid, a.arg2, a.arg2_cageid, a.arg3,
                a.arg3_cageid, a.arg4, a.arg4_cageid, a.arg5, a.arg5_cageid, a.arg6, a.arg6_cageid,
            )
        };
        let reply = self.grates[call.slot].lock().unwrap().call(call.args);
        finish_call(&mut self.chain.lock().unwrap(), grateid, reply)
    }

    fn start(&self) -> i32 {
        let action = make_syscall(
            &mut self.threei.lock().unwrap(), &Config::new(), 1, 63, 0, 1, 0x1000, 1, 0x2000, 1, 8,
            1, 0, 1, 0, 1, 0, 1,
        );
        self.carry_out(action)
    }
}

fn runtime(n: usize, mode: TrampolineMode, first: u64) -> Arc<Runtime> {
    let cell: Arc<OnceLock<Arc<Runtime>>> = Arc::new(OnceLock::new());
    let mut t = Threei::new(Box::new(MutexNested::new()));
    let plan = build_chain(&mut t, 0xbeef, n, 63, mode, 2, 1, &[1, 2]);
    register_grate(&mut t, 1, 63, GRATE_BASE, first);
    let mut grates = Vec::new();
    for _ in 0..n {
        let back = cell.clone();
        let host: Host = Arc::new(move |c: [u64; 16]| {
            let r = back.get().unwrap();
            let mut words = [0u64; 12];
            words.copy_from_slice(&c[4..]);
            let action = from_grate(
                &mut r.threei.lock().unwrap(), &Config::new(), c[0], c[1], c[3], words,
            );
            r.carry_out(action)
        });
        grates.push(Mutex::new(Grate::new(&plan.wat, &plan.memory, host)));
    }
    let r = Arc::new(Runtime {
        threei: Mutex::new(t),
        chain: Mutex::new(plan.chain),
        grates,
        entered: Mutex::new(Vec::new()),
    });
    assert!(cell.set(r.clone()).is_ok());
    r
}

#[test]
fn a_call_goes_down_the_whole_stack() {
    for mode in [TrampolineMode::PerCall, TrampolineMode::Cached] {
        let r = runtime(3, mode, FPTR_FORWARD);
        for _ in 0..2 {
            r.entered.lock().unwrap().clear();
            // the last grate acts on itself, so the leaf folds its cage id
            assert_eq!(r.start(), raw_leaf(102, 0x1000, 1, 0x2000, 1, 8, 1, 0, 1, 0, 1, 0, 1));
            assert_eq!(*r.entered.lock().unwrap(), vec![100, 101, 102]);
        }
        for grateid in [100u64, 101, 102] {
            assert!(r.chain.lock().unwrap().can_enter(grateid));
        }
    }
}

#[test]
fn a_stack_that_denies_ends_at_its_first_grate() {
    let r = runtime(2, TrampolineMode::PerCall, FPTR_DENY);
    assert_eq!(r.start(), EACCES);
    assert_eq!(*r.entered.lock().unwrap(), vec![100]);
}

#[test]
fn a_stack_that_scans_its_allowlist_forwards_what_is_listed() {
    let r = runtime(2, TrampolineMode::Cached, FPTR_POLICY_FORWARD);
    assert_eq!(r.start(), raw_leaf(101, 0x1000, 1, 0x2000, 1, 8, 1, 0, 1, 0, 1, 0, 1));
    assert_eq!(*r.entered.lock().unwrap(), vec![100, 101]);
}
