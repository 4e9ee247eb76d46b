use threei_dispatch_bench::bits::BitRow;
use threei_dispatch_bench::cage::{Grants, Lineage};
use threei_dispatch_bench::handler::MAX_CAGES;

fn line(n: u64) -> Lineage {
    let mut l = Lineage::new();
    for d in 1..=n {
        l.fork(d - 1, d);
    }
    l
}

#[test]
fn bit_rows_hold_what_was_set() {
    let mut row = BitRow::empty();
    for c in [0u64, 63, 64, 1023] {
        assert!(!row.test(c));
        row.set(c);
        assert!(row.test(c));
    }
    row.clear(64);
    assert!(!row.test(64));
    assert!(row.test(63));
    assert!(!row.test(65));
}

#[test]
fn only_cage_zero_exists_at_first() {
    let l = Lineage::new();
    assert!(l.in_subtree_bits(0, 0));
    assert!(!l.in_subtree_bits(1, 1));
    assert!(l.in_subtree_walk(1, 1));
    assert!(!l.in_subtree_walk(0, 1));
    assert_eq!(l.depth_of(0), 0);
}

#[test]
fn children_are_in_every_subtree_of_their_parents() {
    let l = line(32);
    for root in 0..=32u64 {
        for cage in 0..=32u64 {
            let inside = root <= cage;
            assert_eq!(l.in_subtree_walk(root, cage), inside);
            assert_eq!(l.in_subtree_bits(root, cage), inside);
        }
        assert_eq!(l.depth_of(root) as u64, root);
    }
}

#[test]
fn siblings_are_not_in_each_others_subtree() {
    let mut l = Lineage::new();
    l.fork(0, 1);
    l.fork(0, 2);
    l.fork(1, 3);
    assert!(!l.in_subtree_walk(2, 3));
    assert!(!l.in_subtree_bits(2, 3));
    assert!(l.in_subtree_walk(1, 3));
    assert!(l.in_subtree_bits(1, 3));
    assert!(!l.in_subtree_walk(3, 1));
    assert!(!l.in_subtree_bits(3, 1));
}

#[test]
fn a_cage_that_exited_has_no_ancestors() {
    let mut l = line(3);
    l.exit(3);
    assert!(!l.in_subtree_walk(2, 3));
    assert!(!l.in_subtree_bits(2, 3));
    assert!(!l.in_subtree_bits(3, 3));
    assert!(l.in_subtree_walk(1, 2));
    assert!(l.in_subtree_bits(1, 2));
}

#[test]
fn all_ids_have_to_be_in_the_subtree() {
    let l = line(5);
    assert!(l.all_in_subtree_walk(2, &[2, 3, 5]));
    assert!(l.all_in_subtree_bits(2, &[2, 3, 5]));
    assert!(!l.all_in_subtree_walk(2, &[2, 1, 5]));
    assert!(!l.all_in_subtree_bits(2, &[2, 1, 5]));
    assert!(l.all_in_subtree_walk(2, &[]));
    assert!(l.all_in_subtree_bits(2, &[]));
}

#[test]
fn the_last_cage_id_can_be_forked() {
    let mut l = Lineage::new();
    let last = MAX_CAGES as u64 - 1;
    l.fork(0, last);
    assert!(l.in_subtree_bits(0, last));
    assert!(l.in_subtree_walk(0, last));
}

#[test]
fn grants_allow_and_revokes_deny() {
    let mut g = Grants::new();
    assert!(g.allowed_hash(7, 7));
    assert!(g.allowed_bits(7, 7));
    assert!(!g.allowed_hash(7, 9));
    assert!(!g.allowed_bits(7, 9));
    g.grant(7, 9);
    assert!(g.allowed_hash(7, 9));
    assert!(g.allowed_bits(7, 9));
    assert!(!g.allowed_hash(9, 7));
    g.revoke(7, 9);
    assert!(!g.allowed_hash(7, 9));
    assert!(!g.allowed_bits(7, 9));
}

#[test]
fn a_revoke_undoes_a_grant() {
    let mut g = Grants::new();
    g.grant(1, 700);
    g.grant(1, 800);
    g.revoke(1, 800);
    assert!(g.allowed_hash(1, 700));
    assert!(!g.allowed_hash(1, 800));
    assert!(g.allowed_bits(1, 700));
    assert!(!g.allowed_bits(1, 800));
}

#[test]
fn children_inherit_the_grants_of_their_parent() {
    let mut g = Grants::new();
    for x in 0..16 {
        g.grant(1, 700 + x);
    }
    g.grant(2, 900);
    g.inherit(1, 2);
    for x in 0..16 {
        assert!(g.allowed_hash(2, 700 + x));
        assert!(g.allowed_bits(2, 700 + x));
    }
    assert!(!g.allowed_hash(2, 900));
    assert!(!g.allowed_bits(2, 900));
    g.revoke(1, 700);
    assert!(g.allowed_hash(2, 700));
}

#[test]
fn all_ids_have_to_be_granted() {
    let mut g = Grants::new();
    g.grant(0, 3);
    g.grant(0, 4);
    assert!(g.all_allowed_hash(0, &[0, 3, 4]));
    assert!(g.all_allowed_bits(0, &[0, 3, 4]));
    assert!(!g.all_allowed_hash(0, &[3, 5]));
    assert!(!g.all_allowed_bits(0, &[3, 5]));
}

#[test]
fn walks_that_cannot_be_made() {
    let mut l = line(3);
    assert_eq!(l.try_in_subtree_walk(1, 3), Some(true));
    assert_eq!(l.try_in_subtree_walk(3, 1), Some(false));
    assert_eq!(l.try_in_subtree_walk(2000, 2000), Some(true));
    assert_eq!(l.try_in_subtree_walk(1, 1024), None);
    l.fork(11, 10);
    l.fork(10, 11);
    assert_eq!(l.try_in_subtree_walk(11, 10), Some(true));
    assert_eq!(l.try_in_subtree_walk(1, 10), None);
    assert_eq!(l.try_all_in_subtree_walk(1, &[2, 0, 10]), Some(false));
    assert_eq!(l.try_all_in_subtree_walk(1, &[2, 10, 0]), None);
    assert_eq!(l.try_all_in_subtree_bits(1, &[2, 0, 5000]), Some(false));
    assert_eq!(l.try_all_in_subtree_bits(1, &[2, 5000, 0]), None);
    assert_eq!(l.try_all_in_subtree_bits(1, &[2, 3]), Some(true));
}

#[test]
fn a_walk_through_every_cage() {
    let l = line(1023);
    assert_eq!(l.try_in_subtree_walk(0, 1023), Some(true));
    assert_eq!(l.try_in_subtree_walk(5000, 1023), Some(false));
}

#[test]
fn grants_that_have_no_bit() {
    let mut g = Grants::new();
    g.grant(1, 2);
    assert_eq!(g.try_all_allowed_bits(1, &[1, 2]), Some(true));
    assert_eq!(g.try_all_allowed_bits(1, &[3, 5000]), Some(false));
    assert_eq!(g.try_all_allowed_bits(1, &[2, 5000]), None);
}

#[test]
fn forks_grow_one_tree_from_cage_zero() {
    let mut l = Lineage::new();
    for (parent, child) in [(0u64, 1u64), (0, 2), (1, 3), (3, 4), (1, 5)] {
        l.fork(parent, child);
    }
    for cage in 0..=5u64 {
        let above: Vec<u64> = (0..=5).filter(|a| l.in_subtree_bits(*a, cage)).collect();
        assert!(l.in_subtree_bits(0, cage) && l.in_subtree_walk(0, cage));
        assert_eq!(above.len(), l.depth_of(cage) as usize + 1);
        for a in &above {
            for b in &above {
                assert!(l.in_subtree_bits(*a, *b) || l.in_subtree_bits(*b, *a));
            }
        }
    }
}
