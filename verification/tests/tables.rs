use threei_dispatch_bench::handler::{
    DashNested, Flat, Handler, HandlerKind, HandlerTable, MutexNested, RAWPOSIX_CAGEID,
};

fn tables() -> Vec<Box<dyn HandlerTable>> {
    vec![
        Box::new(MutexNested::new()),
        Box::new(DashNested::new()),
        Box::new(Flat::new()),
    ]
}

fn raw(fnptr: u64) -> Handler {
    let mut h = Handler::raw(fnptr);
    h.grateid = RAWPOSIX_CAGEID;
    h
}

#[test]
fn constructors_pin_nothing() {
    let r = Handler::raw(77);
    assert_eq!((r.kind, r.grateid, r.fnptr, r.arg_cageids), (HandlerKind::Raw, 0, 77, [0; 6]));
    let g = Handler::grate(100, 3);
    assert_eq!((g.kind, g.grateid, g.fnptr, g.arg_cageids), (HandlerKind::Grate, 100, 3, [0; 6]));
}

#[test]
fn tables_have_names() {
    let names: Vec<&str> = tables().iter().map(|t| t.name()).collect();
    assert_eq!(
        names,
        vec!["mutex-nested-hashmap (upstream default)", "dashmap-nested", "flat-array"]
    );
}

#[test]
fn an_empty_table_has_no_handlers() {
    for t in tables() {
        assert!(t.get(1, 63).is_none());
        assert!(t.get(0, 0).is_none());
    }
}

#[test]
fn what_was_registered_is_looked_up() {
    for mut t in tables() {
        t.register(1, 63, raw(4711));
        t.register(1, 64, Handler::grate(100, 2));
        t.register(2, 63, Handler::grate(101, 1));
        let a = t.get(1, 63).unwrap();
        assert_eq!((a.kind, a.grateid, a.fnptr), (HandlerKind::Raw, 1, 4711));
        let b = t.get(1, 64).unwrap();
        assert_eq!((b.kind, b.grateid, b.fnptr), (HandlerKind::Grate, 100, 2));
        let c = t.get(2, 63).unwrap();
        assert_eq!((c.kind, c.grateid, c.fnptr), (HandlerKind::Grate, 101, 1));
        assert!(t.get(2, 64).is_none());
        assert!(t.get(3, 63).is_none());
    }
}

#[test]
fn the_last_registration_wins() {
    for mut t in tables() {
        t.register(1, 63, Handler::grate(100, 2));
        t.register(1, 63, raw(5));
        let h = t.get(1, 63).unwrap();
        assert_eq!((h.kind, h.grateid, h.fnptr), (HandlerKind::Raw, 1, 5));
    }
}

#[test]
fn the_target_decides_the_kind_where_only_the_target_is_kept() {
    let mut m = MutexNested::new();
    let mut d = DashNested::new();
    let mut f = Flat::new();
    m.register(1, 63, Handler::raw(5));
    d.register(1, 63, Handler::raw(5));
    f.register(1, 63, Handler::raw(5));
    assert_eq!(m.get(1, 63).unwrap().kind, HandlerKind::Grate);
    assert_eq!(d.get(1, 63).unwrap().kind, HandlerKind::Grate);
    assert_eq!(f.get(1, 63).unwrap().kind, HandlerKind::Raw);
}

#[test]
fn pinned_argument_cages() {
    for mut t in tables() {
        let mut pinned_raw = raw(5);
        pinned_raw.arg_cageids = [1, 2, 3, 4, 5, 6];
        let mut pinned_grate = Handler::grate(100, 1);
        pinned_grate.arg_cageids = [6, 5, 4, 3, 2, 1];
        t.register(1, 63, pinned_raw);
        t.register(1, 64, pinned_grate);
        assert_eq!(t.get(1, 63).unwrap().arg_cageids, [1, 2, 3, 4, 5, 6]);
        assert_eq!(t.get(1, 64).unwrap().arg_cageids, [6, 5, 4, 3, 2, 1]);
        t.register(1, 63, raw(5));
        assert_eq!(t.get(1, 63).unwrap().arg_cageids, [0; 6]);
    }
}

#[test]
fn what_has_a_place() {
    for t in tables() {
        assert!(t.takes(1023, 511) && t.answers(1023, 511));
        let flat = t.name() == "flat-array";
        assert_eq!(t.takes(1024, 0), !flat);
        assert_eq!(t.takes(0, 512), !flat);
        assert_eq!(t.answers(1024, 0), !flat);
        assert!(t.answers(0, 512));
    }
    let mut f = Flat::new();
    f.register(0, 1, raw(5));
    assert!(!f.answers(0, 512));
}

#[test]
fn a_fork_copies_the_handlers() {
    for mut t in tables() {
        for c in 0..64u64 {
            t.register(1, c, raw(1000 + c));
        }
        t.register(600, 200, raw(9));
        t.copy_to_cage(1, 600);
        for c in 0..64u64 {
            assert_eq!(t.get(600, c).unwrap().fnptr, 1000 + c);
            assert_eq!(t.get(1, c).unwrap().fnptr, 1000 + c);
        }
        assert!(t.get(600, 200).is_none());
        t.register(600, 3, raw(7));
        assert_eq!(t.get(1, 3).unwrap().fnptr, 1003);
    }
}

#[test]
fn a_copy_from_a_cage_without_handlers() {
    let mut m = MutexNested::new();
    let mut d = DashNested::new();
    let mut f = Flat::new();
    m.register(2, 63, raw(5));
    d.register(2, 63, raw(5));
    f.register(2, 63, raw(5));
    m.copy_to_cage(1, 2);
    d.copy_to_cage(1, 2);
    f.copy_to_cage(1, 2);
    assert!(m.get(2, 63).is_some());
    assert!(d.get(2, 63).is_some());
    assert!(f.get(2, 63).is_none());
}

fn after_a_fork<T: HandlerTable>(mut t: T, registered_before: bool) -> Handler {
    let mut h = Handler::grate(100, 1);
    h.arg_cageids = [9; 6];
    t.register(1, 63, h);
    if registered_before {
        let mut own = Handler::grate(101, 2);
        own.arg_cageids = [8; 6];
        t.register(2, 63, own);
    }
    t.copy_to_cage(1, 2);
    assert_eq!(t.get(1, 63).unwrap().arg_cageids, [9; 6]);
    t.get(2, 63).unwrap()
}

#[test]
fn a_fork_copies_targets_and_a_flat_row_whole() {
    for before in [false, true] {
        let own = if before { [8; 6] } else { [0; 6] };
        let m = after_a_fork(MutexNested::new(), before);
        assert_eq!((m.grateid, m.fnptr, m.arg_cageids), (100, 1, own));
        let d = after_a_fork(DashNested::new(), before);
        assert_eq!((d.grateid, d.fnptr, d.arg_cageids), (100, 1, own));
        let f = after_a_fork(Flat::new(), before);
        assert_eq!((f.grateid, f.fnptr, f.arg_cageids), (100, 1, [9; 6]));
    }
}
