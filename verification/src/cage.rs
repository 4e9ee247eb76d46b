//! Who descends from whom, and who may act on whom.
//!
//! [`Lineage`] answers "is this cage inside that cage's subtree?" from two
//! representations: parent pointers, walked on every check, and one bit row of
//! ancestors per cage, copied on every fork. [`Grants`] replaces the fixed
//! subtree relation by an explicitly managed one, as a hash set and as a bit row.
use std::collections::HashSet;

use vstd::prelude::*;

use crate::bits::BitRow;
use crate::handler::MAX_CAGES;

verus! {

/// The parent of a cage that has none.
pub const NO_PARENT: u64 = u64::MAX;

/// Where `k` steps along the parent pointers lead from `cage`.
pub open spec fn climb(parents: Seq<u64>, cage: u64, k: nat) -> Option<u64>
    decreases k,
{
    if k == 0 {
        Some(cage)
    } else {
        match climb(parents, cage, (k - 1) as nat) {
            Some(c) => if c < parents.len() && parents[c as int] != NO_PARENT {
                Some(parents[c as int])
            } else {
                None
            },
            None => None,
        }
    }
}

/// `cage` is `root`, or the parent pointers lead from `cage` to `root`.
pub open spec fn descends(parents: Seq<u64>, root: u64, cage: u64) -> bool {
    exists|k: nat| climb(parents, cage, k) == Some(root)
}

/// The walk from `cage` towards `root` comes to an end: it reaches `root`, or a
/// cage without a parent.
pub open spec fn walk_ends(parents: Seq<u64>, root: u64, cage: u64) -> bool {
    exists|k: nat| #![trigger climb(parents, cage, k)]
        climb(parents, cage, k) == Some(root) || climb(parents, cage, k) is None
}

/// The walk from `cage` towards `root` can be made: it starts inside the table
/// and comes to an end.
pub open spec fn walkable(parents: Seq<u64>, root: u64, cage: u64) -> bool {
    root == cage || (cage < MAX_CAGES && walk_ends(parents, root, cage))
}

/// The cage ids that a policy checks: the target and the first `n` argument cages.
pub open spec fn checked_ids(target: u64, arg_cageids: Seq<u64>, n: nat) -> Seq<u64> {
    seq![target] + arg_cageids.take(n as int)
}

pub struct Lineage {
    parent: Vec<u64>,
    depth: Vec<u32>,
    /// `ancestors[c]` holds the ancestors that `c` had when it was forked, and `c`.
    ancestors: Vec<BitRow>,
}

impl Lineage {
    /// The parent of each cage, `NO_PARENT` where there is none.
    pub closed spec fn parents(&self) -> Seq<u64> {
        self.parent@
    }

    /// The depth of each cage.
    pub closed spec fn depths(&self) -> Seq<u32> {
        self.depth@
    }

    /// The ancestor row of each cage.
    pub closed spec fn rows(&self) -> Seq<Set<u64>> {
        Seq::new(self.ancestors@.len(), |c: int| self.ancestors@[c]@)
    }

    /// The ancestor row of `cage` holds `root`.
    pub open spec fn row_holds(&self, root: u64, cage: u64) -> bool {
        cage < MAX_CAGES && self.rows()[cage as int].contains(root)
    }

    /// Every table has an entry per cage id, and parents are cage ids.
    pub open spec fn wf(&self) -> bool {
        &&& self.parents().len() == MAX_CAGES
        &&& self.depths().len() == MAX_CAGES
        &&& self.rows().len() == MAX_CAGES
        &&& forall|c: int|
            0 <= c < MAX_CAGES ==> (#[trigger] self.parents()[c] < MAX_CAGES || self.parents()[c]
                == NO_PARENT)
    }

    /// `cage` exists: it is in its own ancestor row.
    pub open spec fn live(&self, cage: u64) -> bool {
        self.row_holds(cage, cage)
    }

    /// The entries of `cage` agree with those of its parent: its row is the parent's
    /// row and itself, and it is one level deeper. A cage that does not exist has
    /// no parent and an empty row.
    pub open spec fn agrees(&self, cage: u64) -> bool {
        let p = self.parents()[cage as int];
        if !self.live(cage) {
            p == NO_PARENT && self.rows()[cage as int] == Set::<u64>::empty()
        } else if p == NO_PARENT {
            self.rows()[cage as int] == set![cage]
        } else {
            &&& self.live(p)
            &&& self.depths()[cage as int] == self.depths()[p as int] + 1
            &&& self.rows()[cage as int] == self.rows()[p as int].insert(cage)
        }
    }

    /// The cages form trees: every entry agrees with that of the parent.
    pub open spec fn tree(&self) -> bool {
        forall|cage: u64| cage < MAX_CAGES ==> #[trigger] self.agrees(cage)
    }

    /// The cages form one tree: cage 0, at depth 0, is the only one without a parent.
    pub open spec fn rooted(&self) -> bool {
        &&& self.tree()
        &&& self.live(0)
        &&& self.parents()[0] == NO_PARENT
        &&& self.depths()[0] == 0
        &&& forall|cage: u64|
            self.live(cage) && #[trigger] self.parents()[cage as int] == NO_PARENT ==> cage == 0
    }

    /// Only cage 0 exists: it is the root, and its own ancestor.
    pub open spec fn initial(&self) -> bool {
        &&& self.parents() == Seq::new(MAX_CAGES as nat, |c: int| NO_PARENT)
        &&& self.depths() == Seq::new(MAX_CAGES as nat, |c: int| 0u32)
        &&& self.rows() == Seq::new(
            MAX_CAGES as nat,
            |c: int|
                if c == 0 {
                    set![0u64]
                } else {
                    Set::empty()
                },
        )
    }

    /// The lineage in which only cage 0 exists.
    pub fn new() -> (l: Lineage)
        ensures
            l.wf(),
            l.tree(),
            l.rooted(),
            l.initial(),
    {
        let mut parent: Vec<u64> = Vec::with_capacity(MAX_CAGES);
        let mut depth: Vec<u32> = Vec::with_capacity(MAX_CAGES);
        let mut ancestors: Vec<BitRow> = Vec::with_capacity(MAX_CAGES);
        let mut c: usize = 0;
        while c < MAX_CAGES
            invariant
                c <= MAX_CAGES,
                parent@ == Seq::new(c as nat, |i: int| NO_PARENT),
                depth@ == Seq::new(c as nat, |i: int| 0u32),
                ancestors@.len() == c,
                forall|i: int| 0 <= i < c ==> (#[trigger] ancestors@[i])@ == Set::<u64>::empty(),
            decreases MAX_CAGES - c,
        {
            parent.push(NO_PARENT);
            depth.push(0);
            ancestors.push(BitRow::empty());
            c = c + 1;
        }
        let mut root: BitRow = ancestors[0];
        root.set(0);
        ancestors[0] = root;
        let l = Lineage { parent, depth, ancestors };
        assert(l.rows() =~= Seq::new(
            MAX_CAGES as nat,
            |c: int|
                if c == 0 {
                    set![0u64]
                } else {
                    Set::empty()
                },
        ));
        assert forall|cage: u64| cage < MAX_CAGES implies #[trigger] l.agrees(cage) by {
            if cage == 0 {
                assert(l.rows()[0] == set![0u64]);
            }
        }
        l
    }

    /// Records that `child` was forked from `parent`.
    pub fn fork(&mut self, parent: u64, child: u64)
        requires
            old(self).wf(),
            parent < MAX_CAGES,
            child < MAX_CAGES,
            old(self).depths()[parent as int] < u32::MAX,
        ensures
            final(self).wf(),
            final(self).parents() == old(self).parents().update(child as int, parent),
            final(self).depths() == old(self).depths().update(
                child as int,
                (old(self).depths()[parent as int] + 1) as u32,
            ),
            final(self).rows() == old(self).rows().update(
                child as int,
                old(self).rows()[parent as int].insert(child),
            ),
            final(self).live(child),
            descends(final(self).parents(), parent, child),
            forall|root: u64, cage: u64| #[trigger]
                final(self).row_holds(root, cage) == (if cage == child {
                    root == child || old(self).row_holds(root, parent)
                } else {
                    old(self).row_holds(root, cage)
                }),
            old(self).tree() && old(self).live(parent) && !old(self).live(child) ==> final(self).tree(),
            old(self).rooted() && old(self).live(parent) && !old(self).live(child) ==> final(self).rooted(),
    {
        self.parent[child as usize] = parent;
        let d: u32 = self.depth[parent as usize] + 1;
        self.depth[child as usize] = d;
        let mut row: BitRow = self.ancestors[parent as usize];
        row.set(child);
        self.ancestors[child as usize] = row;
        assert(self.rows() =~= old(self).rows().update(
            child as int,
            old(self).rows()[parent as int].insert(child),
        ));
        proof {
            law_fork_joins_subtrees(*old(self), *self, parent, child);
            if old(self).tree() && old(self).live(parent) && !old(self).live(child) {
                law_fork_keeps_tree(*old(self), *self, parent, child);
                if old(self).rooted() {
                    law_fork_keeps_rooted(*old(self), *self, parent, child);
                }
            }
        }
    }

    /// Forgets the parent and the ancestors of `cage`.
    pub fn exit(&mut self, cage: u64)
        requires
            old(self).wf(),
            cage < MAX_CAGES,
        ensures
            final(self).wf(),
            final(self).parents() == old(self).parents().update(cage as int, NO_PARENT),
            final(self).depths() == old(self).depths(),
            final(self).rows() == old(self).rows().update(cage as int, Set::empty()),
            !final(self).live(cage),
            forall|root: u64, c: u64| #[trigger]
                final(self).row_holds(root, c) == (c != cage && old(self).row_holds(root, c)),
            old(self).tree() && (forall|c: int|
                0 <= c < MAX_CAGES ==> #[trigger] old(self).parents()[c] != cage) ==> final(self).tree(),
    {
        self.parent[cage as usize] = NO_PARENT;
        self.ancestors[cage as usize] = BitRow::empty();
        assert(self.rows() =~= old(self).rows().update(cage as int, Set::empty()));
        proof {
            if old(self).tree() && (forall|c: int|
                0 <= c < MAX_CAGES ==> #[trigger] old(self).parents()[c] != cage) {
                law_leaf_exit_keeps_tree(*old(self), *self, cage);
            }
        }
    }

    /// Whether `cage` descends from `root`, by walking the parent pointers.
    pub fn in_subtree_walk(&self, root: u64, cage: u64) -> (inside: bool)
        requires
            self.wf(),
            walkable(self.parents(), root, cage),
        ensures
            inside == descends(self.parents(), root, cage),
    {
        self.try_in_subtree_walk(root, cage).unwrap()
    }

    /// Whether `cage` descends from `root`, by walking the parent pointers; nothing
    /// where the walk cannot be made.
    pub fn try_in_subtree_walk(&self, root: u64, cage: u64) -> (inside: Option<bool>)
        requires
            self.wf(),
        ensures
            match inside {
                Some(b) => walkable(self.parents(), root, cage) && b == descends(
                    self.parents(),
                    root,
                    cage,
                ),
                None => !walkable(self.parents(), root, cage),
            },
    {
        let ghost parents = self.parents();
        if root == cage {
            assert(climb(parents, cage, 0) == Some(root));
            return Some(true);
        }
        if cage >= MAX_CAGES as u64 {
            return None;
        }
        let mut steps: usize = 0;
        let mut cur: usize = cage as usize;
        while steps < MAX_CAGES
            invariant
                self.wf(),
                parents == self.parents(),
                root != cage,
                cage < MAX_CAGES,
                steps <= MAX_CAGES,
                cur < MAX_CAGES,
                climb(parents, cage, steps as nat) == Some(cur as u64),
                forall|k: nat| k <= steps ==> climb(parents, cage, k) is Some && climb(
                    parents,
                    cage,
                    k,
                ) != Some(root),
            decreases MAX_CAGES - steps,
        {
            let p: u64 = self.parent[cur];
            assert(parents[cur as int] == p);
            if p == NO_PARENT {
                proof {
                    assert(climb(parents, cage, (steps + 1) as nat) is None);
                    assert forall|k: nat| climb(parents, cage, k) != Some(root) by {
                        if k > steps {
                            lemma_climb_stops(parents, cage, (steps + 1) as nat, k);
                        }
                    }
                }
                return Some(false);
            }
            assert(climb(parents, cage, (steps + 1) as nat) == Some(p));
            if p == root {
                return Some(true);
            }
            cur = p as usize;
            steps = steps + 1;
        }
        proof {
            lemma_long_walk_never_ends(*self, root, cage);
        }
        None
    }

    /// Whether the ancestor row of `cage` holds `root`.
    pub fn in_subtree_bits(&self, root: u64, cage: u64) -> (inside: bool)
        requires
            self.wf(),
            root < MAX_CAGES,
            cage < MAX_CAGES,
        ensures
            inside == self.row_holds(root, cage),
    {
        self.ancestors[cage as usize].test(root)
    }

    pub fn depth_of(&self, cage: u64) -> (d: u32)
        requires
            self.wf(),
            cage < MAX_CAGES,
        ensures
            d == self.depths()[cage as int],
    {
        self.depth[cage as usize]
    }
}

impl Lineage {
    /// Whether every one of `ids` descends from `root`, by walking the parent
    /// pointers. The ids after the first one outside are not looked at.
    pub fn all_in_subtree_walk(&self, root: u64, ids: &[u64]) -> (inside: bool)
        requires
            self.wf(),
            forall|i: int|
                0 <= i < ids@.len() ==> walkable(self.parents(), root, #[trigger] ids@[i]) || (
                exists|j: int| 0 <= j < i && !descends(self.parents(), root, #[trigger] ids@[j])),
        ensures
            inside == (forall|i: int|
                0 <= i < ids@.len() ==> descends(self.parents(), root, #[trigger] ids@[i])),
    {
        self.try_all_in_subtree_walk(root, ids).unwrap()
    }

    /// Whether the ancestor row of every one of `ids` holds `root`. The ids after
    /// the first one outside are not looked at.
    pub fn all_in_subtree_bits(&self, root: u64, ids: &[u64]) -> (inside: bool)
        requires
            self.wf(),
            forall|i: int|
                0 <= i < ids@.len() ==> (#[trigger] ids@[i] < MAX_CAGES && root < MAX_CAGES) || (
                exists|j: int| 0 <= j < i && !self.row_holds(root, #[trigger] ids@[j])),
        ensures
            inside == (forall|i: int|
                0 <= i < ids@.len() ==> self.row_holds(root, #[trigger] ids@[i])),
    {
        self.try_all_in_subtree_bits(root, ids).unwrap()
    }
}

impl Lineage {
    /// Whether every one of `ids` descends from `root`, by walking the parent
    /// pointers; nothing where a walk that it comes to cannot be made.
    pub fn try_all_in_subtree_walk(&self, root: u64, ids: &[u64]) -> (inside: Option<bool>)
        requires
            self.wf(),
        ensures
            inside is Some <==> (forall|i: int|
                0 <= i < ids@.len() ==> walkable(self.parents(), root, #[trigger] ids@[i]) || (
                exists|j: int| 0 <= j < i && !descends(self.parents(), root, #[trigger] ids@[j]))),
            inside matches Some(b) ==> b == (forall|i: int|
                0 <= i < ids@.len() ==> descends(self.parents(), root, #[trigger] ids@[i])),
    {
        let mut i: usize = 0;
        while i < ids.len()
            invariant
                self.wf(),
                i <= ids@.len(),
                forall|k: int|
                    0 <= k < i ==> walkable(self.parents(), root, #[trigger] ids@[k]) && descends(
                        self.parents(),
                        root,
                        ids@[k],
                    ),
            decreases ids@.len() - i,
        {
            match self.try_in_subtree_walk(root, ids[i]) {
                Some(inside) => {
                    if !inside {
                        return Some(false);
                    }
                },
                None => {
                    return None;
                },
            }
            i = i + 1;
        }
        Some(true)
    }

    /// Whether the ancestor row of every one of `ids` holds `root`; nothing where an
    /// id that it comes to has no row.
    pub fn try_all_in_subtree_bits(&self, root: u64, ids: &[u64]) -> (inside: Option<bool>)
        requires
            self.wf(),
        ensures
            inside is Some <==> (forall|i: int|
                0 <= i < ids@.len() ==> (#[trigger] ids@[i] < MAX_CAGES && root < MAX_CAGES) || (
                exists|j: int| 0 <= j < i && !self.row_holds(root, #[trigger] ids@[j]))),
            inside matches Some(b) ==> b == (forall|i: int|
                0 <= i < ids@.len() ==> self.row_holds(root, #[trigger] ids@[i])),
    {
        let mut i: usize = 0;
        while i < ids.len()
            invariant
                self.wf(),
                i <= ids@.len(),
                forall|k: int|
                    0 <= k < i ==> #[trigger] ids@[k] < MAX_CAGES && root < MAX_CAGES
                        && self.row_holds(root, ids@[k]),
            decreases ids@.len() - i,
        {
            if ids[i] >= MAX_CAGES as u64 || root >= MAX_CAGES as u64 {
                return None;
            }
            if !self.in_subtree_bits(root, ids[i]) {
                return Some(false);
            }
            i = i + 1;
        }
        Some(true)
    }
}

/// An explicit, changeable relation: who may act on whom.
pub struct Grants {
    sets: Vec<HashSet<u64>>,
    bits: Vec<BitRow>,
}

impl Grants {
    /// What each holder was granted.
    pub closed spec fn granted(&self) -> Seq<Set<u64>> {
        Seq::new(self.bits@.len(), |h: int| self.bits@[h]@)
    }

    /// There is a row per cage id, and both representations hold the same grants.
    pub open spec fn wf(&self) -> bool {
        self.granted().len() == MAX_CAGES && self.agree()
    }

    /// The hash sets and the bit rows hold the same grants.
    pub closed spec fn agree(&self) -> bool {
        &&& self.sets@.len() == MAX_CAGES
        &&& self.bits@.len() == MAX_CAGES
        &&& forall|h: int| 0 <= h < MAX_CAGES ==> (#[trigger] self.sets@[h])@ == self.bits@[h]@
    }

    /// `holder` may act on `target`: on itself, and on what it was granted.
    pub open spec fn allows(&self, holder: u64, target: u64) -> bool {
        holder == target || self.granted()[holder as int].contains(target)
    }

    /// Nothing is granted.
    pub open spec fn initial(&self) -> bool {
        self.granted() == Seq::new(MAX_CAGES as nat, |h: int| Set::<u64>::empty())
    }

    /// The relation in which nothing is granted.
    pub fn new() -> (g: Grants)
        ensures
            g.wf(),
            g.initial(),
    {
        let mut sets: Vec<HashSet<u64>> = Vec::with_capacity(MAX_CAGES);
        let mut bits: Vec<BitRow> = Vec::with_capacity(MAX_CAGES);
        let mut h: usize = 0;
        while h < MAX_CAGES
            invariant
                h <= MAX_CAGES,
                sets@.len() == h,
                bits@.len() == h,
                forall|i: int| 0 <= i < h ==> (#[trigger] sets@[i])@ == Set::<u64>::empty(),
                forall|i: int| 0 <= i < h ==> (#[trigger] bits@[i])@ == Set::<u64>::empty(),
            decreases MAX_CAGES - h,
        {
            sets.push(HashSet::new());
            bits.push(BitRow::empty());
            h = h + 1;
        }
        let g = Grants { sets, bits };
        assert(g.granted() =~= Seq::new(MAX_CAGES as nat, |h: int| Set::<u64>::empty()));
        g
    }

    /// Lets `holder` act on `target`.
    pub fn grant(&mut self, holder: u64, target: u64)
        requires
            old(self).wf(),
            holder < MAX_CAGES,
            target < MAX_CAGES,
        ensures
            final(self).wf(),
            final(self).granted() == old(self).granted().update(
                holder as int,
                old(self).granted()[holder as int].insert(target),
            ),
            forall|h: u64, c: u64|
                h < MAX_CAGES ==> #[trigger] final(self).allows(h, c) == (old(self).allows(h, c)
                    || (h == holder && c == target)),
    {
        broadcast use vstd::std_specs::hash::group_hash_axioms;

        self.sets[holder as usize].insert(target);
        self.bits[holder as usize].set(target);
        assert(self.granted() =~= old(self).granted().update(
            holder as int,
            old(self).granted()[holder as int].insert(target),
        ));
    }

    /// Takes the grant of `target` back from `holder`.
    pub fn revoke(&mut self, holder: u64, target: u64)
        requires
            old(self).wf(),
            holder < MAX_CAGES,
            target < MAX_CAGES,
        ensures
            final(self).wf(),
            final(self).granted() == old(self).granted().update(
                holder as int,
                old(self).granted()[holder as int].remove(target),
            ),
            forall|h: u64, c: u64|
                h < MAX_CAGES ==> #[trigger] final(self).allows(h, c) == (h == c || (old(self).allows(h, c) && !(h == holder && c == target))),
    {
        broadcast use vstd::std_specs::hash::group_hash_axioms;

        self.sets[holder as usize].remove(&target);
        self.bits[holder as usize].clear(target);
        assert(self.granted() =~= old(self).granted().update(
            holder as int,
            old(self).granted()[holder as int].remove(target),
        ));
    }

    /// Gives a forked `child` the grants of its `parent`, in place of its own.
    pub fn inherit(&mut self, parent: u64, child: u64)
        requires
            old(self).wf(),
            parent < MAX_CAGES,
            child < MAX_CAGES,
        ensures
            final(self).wf(),
            final(self).granted() == old(self).granted().update(
                child as int,
                old(self).granted()[parent as int],
            ),
            forall|c: u64|
                c != parent ==> #[trigger] final(self).allows(child, c) == (c == child || old(self).allows(parent, c)),
            forall|h: u64, c: u64|
                h < MAX_CAGES && h != child ==> #[trigger] final(self).allows(h, c) == old(self).allows(h, c),
    {
        let p: HashSet<u64> = copy_set(&self.sets[parent as usize]);
        self.sets[child as usize] = p;
        let pb: BitRow = self.bits[parent as usize];
        self.bits[child as usize] = pb;
        assert(self.granted() =~= old(self).granted().update(
            child as int,
            old(self).granted()[parent as int],
        ));
    }

    /// Whether `holder` may act on `target`, from the hash set.
    pub fn allowed_hash(&self, holder: u64, target: u64) -> (allowed: bool)
        requires
            self.wf(),
            holder == target || holder < MAX_CAGES,
        ensures
            allowed == self.allows(holder, target),
    {
        broadcast use vstd::std_specs::hash::group_hash_axioms;

        holder == target || self.sets[holder as usize].contains(&target)
    }

    /// Whether `holder` may act on `target`, from the bit row.
    pub fn allowed_bits(&self, holder: u64, target: u64) -> (allowed: bool)
        requires
            self.wf(),
            holder == target || (holder < MAX_CAGES && target < MAX_CAGES),
        ensures
            allowed == self.allows(holder, target),
    {
        holder == target || self.bits[holder as usize].test(target)
    }

    /// Whether `holder` may act on every one of `ids`, from the hash set.
    pub fn all_allowed_hash(&self, holder: u64, ids: &[u64]) -> (allowed: bool)
        requires
            self.wf(),
            holder < MAX_CAGES,
        ensures
            allowed == (forall|i: int|
                0 <= i < ids@.len() ==> self.allows(holder, #[trigger] ids@[i])),
    {
        let mut i: usize = 0;
        while i < ids.len()
            invariant
                self.wf(),
                holder < MAX_CAGES,
                i <= ids@.len(),
                forall|k: int| 0 <= k < i ==> self.allows(holder, #[trigger] ids@[k]),
            decreases ids@.len() - i,
        {
            if !self.allowed_hash(holder, ids[i]) {
                return false;
            }
            i = i + 1;
        }
        true
    }

    /// Whether `holder` may act on every one of `ids`, from the bit row. The ids
    /// after the first one refused are not looked at.
    pub fn all_allowed_bits(&self, holder: u64, ids: &[u64]) -> (allowed: bool)
        requires
            self.wf(),
            holder < MAX_CAGES,
            forall|i: int|
                0 <= i < ids@.len() ==> (#[trigger] ids@[i] == holder || ids@[i] < MAX_CAGES) || (
                exists|j: int| 0 <= j < i && !self.allows(holder, #[trigger] ids@[j])),
        ensures
            allowed == (forall|i: int|
                0 <= i < ids@.len() ==> self.allows(holder, #[trigger] ids@[i])),
    {
        self.try_all_allowed_bits(holder, ids).unwrap()
    }
}

impl Grants {
    /// Whether `holder` may act on every one of `ids`, from the bit row; nothing where
    /// an id that it comes to has no bit.
    pub fn try_all_allowed_bits(&self, holder: u64, ids: &[u64]) -> (allowed: Option<bool>)
        requires
            self.wf(),
            holder < MAX_CAGES,
        ensures
            allowed is Some <==> (forall|i: int|
                0 <= i < ids@.len() ==> (#[trigger] ids@[i] == holder || ids@[i] < MAX_CAGES) || (
                exists|j: int| 0 <= j < i && !self.allows(holder, #[trigger] ids@[j]))),
            allowed matches Some(b) ==> b == (forall|i: int|
                0 <= i < ids@.len() ==> self.allows(holder, #[trigger] ids@[i])),
    {
        let mut i: usize = 0;
        while i < ids.len()
            invariant
                self.wf(),
                holder < MAX_CAGES,
                i <= ids@.len(),
                forall|k: int|
                    0 <= k < i ==> (#[trigger] ids@[k] == holder || ids@[k] < MAX_CAGES)
                        && self.allows(holder, ids@[k]),
            decreases ids@.len() - i,
        {
            if ids[i] != holder && ids[i] >= MAX_CAGES as u64 {
                return None;
            }
            if !self.allowed_bits(holder, ids[i]) {
                return Some(false);
            }
            i = i + 1;
        }
        Some(true)
    }
}

/// A set with the same elements.
fn copy_set(set: &HashSet<u64>) -> (copy: HashSet<u64>)
    ensures
        copy@ == set@,
{
    broadcast use vstd::std_specs::hash::group_hash_axioms;

    let mut copy: HashSet<u64> = HashSet::new();
    for id in it: set.iter()
        invariant
            forall|x: u64| #[trigger]
                copy@.contains(x) <==> exists|i: int|
                    0 <= i < it.index() && *(#[trigger] it.seq()[i]) == x,
    {
        copy.insert(*id);
        assert(*it.seq()[it.index()] == *id);
    }
    proof {
        let iter = vstd::std_specs::hash::spec_hash_keys_iter(set);
        let seen = vstd::std_specs::iter::IteratorSpec::remaining(&iter);
        assert forall|x: u64| copy@.contains(x) == set@.contains(x) by {
            if set@.contains(x) {
                assert(seen.unref().to_set().contains(x));
                let i = choose|i: int| 0 <= i < seen.unref().len() && seen.unref()[i] == x;
                assert(*seen[i] == x);
            }
            if copy@.contains(x) {
                let i = choose|i: int| 0 <= i < seen.len() && *(#[trigger] seen[i]) == x;
                assert(seen.unref()[i] == x);
            }
        }
        assert(copy@ =~= set@);
    }
    copy
}

/// A cage is inside its own subtree.
pub proof fn law_subtree_reflexive(parents: Seq<u64>, cage: u64)
    ensures
        descends(parents, cage, cage),
{
    assert(climb(parents, cage, 0) == Some(cage));
}

/// A subtree holds the subtrees of the cages inside it.
pub proof fn law_subtree_transitive(parents: Seq<u64>, root: u64, middle: u64, cage: u64)
    requires
        descends(parents, root, middle),
        descends(parents, middle, cage),
    ensures
        descends(parents, root, cage),
{
    let j = choose|k: nat| climb(parents, cage, k) == Some(middle);
    let k = choose|k: nat| climb(parents, middle, k) == Some(root);
    lemma_climb_from(parents, cage, middle, j, k);
    assert(climb(parents, cage, j + k) == Some(root));
}

/// A fork puts the child into every subtree that its parent is in, and into the
/// parent's own where the parent exists.
pub proof fn law_fork_joins_subtrees(before: Lineage, after: Lineage, parent: u64, child: u64)
    requires
        before.wf(),
        parent < MAX_CAGES,
        child < MAX_CAGES,
        after.parents() == before.parents().update(child as int, parent),
        after.rows() == before.rows().update(
            child as int,
            before.rows()[parent as int].insert(child),
        ),
    ensures
        descends(after.parents(), parent, child),
        after.live(child),
        forall|root: u64| before.row_holds(root, parent) ==> #[trigger] after.row_holds(root, child),
{
    assert(climb(after.parents(), child, 0) == Some(child));
    assert(climb(after.parents(), child, 1) == Some(parent));
}

/// Forking a new child from a cage that exists keeps the trees.
pub proof fn law_fork_keeps_tree(before: Lineage, after: Lineage, parent: u64, child: u64)
    requires
        before.wf(),
        before.tree(),
        before.live(parent),
        child < MAX_CAGES,
        !before.live(child),
        before.depths()[parent as int] < u32::MAX,
        after.parents() == before.parents().update(child as int, parent),
        after.depths() == before.depths().update(
            child as int,
            (before.depths()[parent as int] + 1) as u32,
        ),
        after.rows() == before.rows().update(
            child as int,
            before.rows()[parent as int].insert(child),
        ),
    ensures
        after.tree(),
        after.live(child),
{
    assert forall|cage: u64| cage < MAX_CAGES implies #[trigger] after.agrees(cage) by {
        assert(before.agrees(cage));
    }
}

/// A new child is in its own subtree and in those that its parent is in, and the
/// cages that existed before are in the subtrees that they were in.
pub proof fn law_fork_places_child(
    before: Lineage,
    after: Lineage,
    parent: u64,
    child: u64,
    root: u64,
    cage: u64,
)
    requires
        before.wf(),
        after.wf(),
        before.tree(),
        before.live(parent),
        child < MAX_CAGES,
        !before.live(child),
        before.live(cage),
        before.depths()[parent as int] < u32::MAX,
        after.parents() == before.parents().update(child as int, parent),
        after.depths() == before.depths().update(
            child as int,
            (before.depths()[parent as int] + 1) as u32,
        ),
        after.rows() == before.rows().update(
            child as int,
            before.rows()[parent as int].insert(child),
        ),
    ensures
        descends(after.parents(), root, child) == (root == child || descends(
            before.parents(),
            root,
            parent,
        )),
        after.row_holds(root, child) == (root == child || before.row_holds(root, parent)),
        descends(after.parents(), root, cage) == descends(before.parents(), root, cage),
        after.row_holds(root, cage) == before.row_holds(root, cage),
{
    law_fork_keeps_tree(before, after, parent, child);
    law_bits_are_ancestors(before, root, parent);
    law_bits_are_ancestors(before, root, cage);
    law_bits_are_ancestors(after, root, child);
    law_bits_are_ancestors(after, root, cage);
}

/// The exit of a cage that has no children keeps the trees.
pub proof fn law_leaf_exit_keeps_tree(before: Lineage, after: Lineage, cage: u64)
    requires
        before.wf(),
        before.tree(),
        cage < MAX_CAGES,
        forall|c: int| 0 <= c < MAX_CAGES ==> #[trigger] before.parents()[c] != cage,
        after.parents() == before.parents().update(cage as int, NO_PARENT),
        after.depths() == before.depths(),
        after.rows() == before.rows().update(cage as int, Set::empty()),
    ensures
        after.tree(),
        !after.live(cage),
{
    assert forall|c: u64| c < MAX_CAGES implies #[trigger] after.agrees(c) by {
        assert(before.agrees(c));
        assert(before.parents()[c as int] != cage);
    }
}

/// In a tree the ancestor row of a cage holds the cage and its ancestors, and
/// nothing else. So the walk and the bit test give the same answer, but for a cage
/// that does not exist, which only the walk puts into its own subtree.
pub proof fn law_bits_are_ancestors(l: Lineage, root: u64, cage: u64)
    requires
        l.wf(),
        l.tree(),
        cage < MAX_CAGES,
    ensures
        l.row_holds(root, cage) == (l.live(cage) && descends(l.parents(), root, cage)),
    decreases l.depths()[cage as int],
{
    let parents = l.parents();
    assert(l.agrees(cage));
    let p = parents[cage as int];
    lemma_descends_step(parents, root, cage);
    if l.live(cage) && p != NO_PARENT {
        law_bits_are_ancestors(l, root, p);
    }
}

/// Forking a new child from a cage that exists keeps the one tree.
pub proof fn law_fork_keeps_rooted(before: Lineage, after: Lineage, parent: u64, child: u64)
    requires
        before.wf(),
        before.rooted(),
        before.live(parent),
        child < MAX_CAGES,
        !before.live(child),
        before.depths()[parent as int] < u32::MAX,
        after.parents() == before.parents().update(child as int, parent),
        after.depths() == before.depths().update(
            child as int,
            (before.depths()[parent as int] + 1) as u32,
        ),
        after.rows() == before.rows().update(
            child as int,
            before.rows()[parent as int].insert(child),
        ),
    ensures
        after.rooted(),
        after.live(child),
{
    law_fork_keeps_tree(before, after, parent, child);
    assert forall|cage: u64|
        after.live(cage) && #[trigger] after.parents()[cage as int] == NO_PARENT implies cage == 0 by {
        if cage != child {
            assert(before.live(cage));
            assert(before.parents()[cage as int] == NO_PARENT);
        }
    }
}

/// The exit of a cage that has no children keeps the one tree, but for the exit of its
/// root.
pub proof fn law_leaf_exit_keeps_rooted(before: Lineage, after: Lineage, cage: u64)
    requires
        before.wf(),
        before.rooted(),
        0 < cage < MAX_CAGES,
        forall|c: int| 0 <= c < MAX_CAGES ==> #[trigger] before.parents()[c] != cage,
        after.parents() == before.parents().update(cage as int, NO_PARENT),
        after.depths() == before.depths(),
        after.rows() == before.rows().update(cage as int, Set::empty()),
    ensures
        after.rooted(),
{
    law_leaf_exit_keeps_tree(before, after, cage);
    assert forall|c: u64|
        after.live(c) && #[trigger] after.parents()[c as int] == NO_PARENT implies c == 0 by {
        assert(before.live(c));
        assert(before.parents()[c as int] == NO_PARENT);
    }
}

/// Cage 0 is above every cage that exists.
pub proof fn law_root_is_above_all(l: Lineage, cage: u64)
    requires
        l.wf(),
        l.rooted(),
        l.live(cage),
    ensures
        l.row_holds(0, cage),
        descends(l.parents(), 0, cage),
    decreases l.depths()[cage as int],
{
    assert(l.agrees(cage));
    if l.parents()[cage as int] != NO_PARENT {
        law_root_is_above_all(l, l.parents()[cage as int]);
    }
    law_bits_are_ancestors(l, 0, cage);
}

/// The depth of a cage is the number of its proper ancestors.
pub proof fn law_depth_counts_ancestors(l: Lineage, cage: u64)
    requires
        l.wf(),
        l.rooted(),
        l.live(cage),
    ensures
        l.rows()[cage as int].finite(),
        l.rows()[cage as int].len() == l.depths()[cage as int] + 1,
    decreases l.depths()[cage as int],
{
    assert(l.agrees(cage));
    let p = l.parents()[cage as int];
    if p == NO_PARENT {
        assert(cage == 0);
    } else {
        law_depth_counts_ancestors(l, p);
        assert(!l.row_holds(cage, p)) by {
            lemma_descends_step(l.parents(), p, cage);
            law_subtree_reflexive(l.parents(), p);
            law_depth_orders_subtree(l, p, cage);
            law_bits_are_ancestors(l, cage, p);
        }
    }
}

/// Of two ancestors of a cage, one is above the other.
pub proof fn law_ancestors_are_comparable(l: Lineage, a: u64, b: u64, cage: u64)
    requires
        l.wf(),
        l.tree(),
        l.row_holds(a, cage),
        l.row_holds(b, cage),
    ensures
        l.row_holds(a, b) || l.row_holds(b, a),
        descends(l.parents(), a, b) || descends(l.parents(), b, a),
    decreases l.depths()[cage as int],
{
    assert(l.agrees(cage));
    let p = l.parents()[cage as int];
    if a != cage && b != cage {
        law_ancestors_are_comparable(l, a, b, p);
    }
    if l.row_holds(a, b) {
        law_bits_are_ancestors(l, a, b);
    } else {
        law_bits_are_ancestors(l, b, a);
    }
}

/// In a tree every walk comes to an end.
pub proof fn law_walks_end_in_tree(l: Lineage, root: u64, cage: u64)
    requires
        l.wf(),
        l.tree(),
        cage < MAX_CAGES,
    ensures
        walkable(l.parents(), root, cage),
    decreases l.depths()[cage as int],
{
    let parents = l.parents();
    assert(l.agrees(cage));
    assert(climb(parents, cage, 0) == Some(cage));
    let p = parents[cage as int];
    if p == NO_PARENT {
        assert(climb(parents, cage, 1) is None);
    } else {
        law_walks_end_in_tree(l, root, p);
        assert(climb(parents, cage, 1) == Some(p));
        assert(climb(parents, p, 0) == Some(p));
        let k = choose|k: nat| #![trigger climb(parents, p, k)]
            climb(parents, p, k) == Some(root) || climb(parents, p, k) is None;
        lemma_climb_from(parents, cage, p, 1, k);
        assert(climb(parents, cage, 1 + k) == climb(parents, p, k));
    }
}

/// In a tree a cage is deeper than its proper ancestors, so no two cages are
/// inside each other's subtree.
pub proof fn law_depth_orders_subtree(l: Lineage, root: u64, cage: u64)
    requires
        l.wf(),
        l.tree(),
        cage < MAX_CAGES,
        root != cage,
        descends(l.parents(), root, cage),
    ensures
        root < MAX_CAGES,
        l.depths()[root as int] < l.depths()[cage as int],
        !descends(l.parents(), cage, root),
    decreases l.depths()[cage as int],
{
    let parents = l.parents();
    lemma_descends_step(parents, root, cage);
    assert(l.agrees(cage));
    let p = parents[cage as int];
    if p != root {
        law_depth_orders_subtree(l, root, p);
    }
    if descends(parents, cage, root) {
        lemma_depth_bounds(l, cage, root);
    }
}

/// In a tree no ancestor is deeper than the cage.
proof fn lemma_depth_bounds(l: Lineage, root: u64, cage: u64)
    requires
        l.wf(),
        l.tree(),
        cage < MAX_CAGES,
        descends(l.parents(), root, cage),
    ensures
        root < MAX_CAGES,
        l.depths()[root as int] <= l.depths()[cage as int],
    decreases l.depths()[cage as int],
{
    lemma_descends_step(l.parents(), root, cage);
    assert(l.agrees(cage));
    if root != cage {
        lemma_depth_bounds(l, root, l.parents()[cage as int]);
    }
}

/// Who was granted a target may act on it, and nothing else changes.
pub proof fn law_grant_allows(before: Grants, after: Grants, holder: u64, target: u64)
    requires
        before.wf(),
        holder < MAX_CAGES,
        after.granted() == before.granted().update(
            holder as int,
            before.granted()[holder as int].insert(target),
        ),
    ensures
        after.allows(holder, target),
        forall|h: u64, t: u64|
            h < MAX_CAGES && !(h == holder && t == target) ==> #[trigger] after.allows(h, t)
                == before.allows(h, t),
{
}

/// Who lost a grant may act on the target only if it is the holder itself, and
/// nothing else changes.
pub proof fn law_revoke_denies(before: Grants, after: Grants, holder: u64, target: u64)
    requires
        before.wf(),
        holder < MAX_CAGES,
        after.granted() == before.granted().update(
            holder as int,
            before.granted()[holder as int].remove(target),
        ),
    ensures
        after.allows(holder, target) == (holder == target),
        forall|h: u64, t: u64|
            h < MAX_CAGES && !(h == holder && t == target) ==> #[trigger] after.allows(h, t)
                == before.allows(h, t),
{
}

/// A revoke undoes the grant of a target that was not granted before.
pub proof fn law_revoke_undoes_grant(
    before: Grants,
    between: Grants,
    after: Grants,
    holder: u64,
    target: u64,
)
    requires
        before.wf(),
        holder < MAX_CAGES,
        !before.granted()[holder as int].contains(target),
        between.granted() == before.granted().update(
            holder as int,
            before.granted()[holder as int].insert(target),
        ),
        after.granted() == between.granted().update(
            holder as int,
            between.granted()[holder as int].remove(target),
        ),
    ensures
        after.granted() == before.granted(),
{
    assert(before.granted()[holder as int].insert(target).remove(target)
        =~= before.granted()[holder as int]);
    assert(after.granted() =~= before.granted());
}

/// A child that inherits may act on what its parent was granted, and on itself.
pub proof fn law_inherit_copies(before: Grants, after: Grants, parent: u64, child: u64)
    requires
        before.wf(),
        parent < MAX_CAGES,
        child < MAX_CAGES,
        after.granted() == before.granted().update(child as int, before.granted()[parent as int]),
    ensures
        forall|t: u64| #[trigger]
            after.allows(child, t) == (t == child || before.granted()[parent as int].contains(t)),
        forall|h: u64, t: u64|
            h < MAX_CAGES && h != child ==> #[trigger] after.allows(h, t) == before.allows(h, t),
{
}

/// The climb from `cage` goes on as the climb from the cage it has reached.
proof fn lemma_climb_from(parents: Seq<u64>, cage: u64, middle: u64, j: nat, k: nat)
    requires
        climb(parents, cage, j) == Some(middle),
    ensures
        climb(parents, cage, j + k) == climb(parents, middle, k),
    decreases k,
{
    if k > 0 {
        lemma_climb_from(parents, cage, middle, j, (k - 1) as nat);
        assert((j + k - 1) as nat == j + (k - 1) as nat);
    }
}

/// A cage descends from itself and from what its parent descends from.
proof fn lemma_descends_step(parents: Seq<u64>, root: u64, cage: u64)
    requires
        cage < parents.len(),
    ensures
        descends(parents, root, cage) == (root == cage || (parents[cage as int] != NO_PARENT
            && descends(parents, root, parents[cage as int]))),
{
    let p = parents[cage as int];
    assert(climb(parents, cage, 0) == Some(cage));
    if descends(parents, root, cage) && root != cage {
        let k = choose|k: nat| climb(parents, cage, k) == Some(root);
        if p == NO_PARENT {
            assert(climb(parents, cage, 1) is None);
            lemma_climb_stops(parents, cage, 1, k);
        } else {
            assert(climb(parents, cage, 1) == Some(p));
            lemma_climb_from(parents, cage, p, 1, (k - 1) as nat);
            assert(climb(parents, p, (k - 1) as nat) == Some(root));
        }
    }
    if p != NO_PARENT && descends(parents, root, p) {
        let k = choose|k: nat| climb(parents, p, k) == Some(root);
        assert(climb(parents, cage, 1) == Some(p));
        lemma_climb_from(parents, cage, p, 1, k);
        assert(climb(parents, cage, 1 + k) == Some(root));
    }
}

/// Once the climb has ended, it stays ended.
proof fn lemma_climb_stops(parents: Seq<u64>, cage: u64, j: nat, k: nat)
    requires
        climb(parents, cage, j) is None,
        j <= k,
    ensures
        climb(parents, cage, k) is None,
    decreases k - j,
{
    if j < k {
        lemma_climb_stops(parents, cage, j, (k - 1) as nat);
    }
}

/// The climb stays inside the table.
proof fn lemma_climb_in_table(l: Lineage, cage: u64, k: nat)
    requires
        l.wf(),
        cage < MAX_CAGES,
    ensures
        climb(l.parents(), cage, k) matches Some(c) ==> c < MAX_CAGES,
    decreases k,
{
    if k > 0 {
        lemma_climb_in_table(l, cage, (k - 1) as nat);
    }
}

/// A climb that comes to the same cage after `i` and after `j` steps, and has neither
/// ended nor met `root` by then, never does.
proof fn lemma_climb_goes_round(
    parents: Seq<u64>,
    root: u64,
    cage: u64,
    i: nat,
    j: nat,
    k: nat,
)
    requires
        i < j,
        climb(parents, cage, i) == climb(parents, cage, j),
        forall|m: nat| m <= j ==> climb(parents, cage, m) is Some && climb(parents, cage, m) != Some(
            root,
        ),
    ensures
        climb(parents, cage, k) is Some,
        climb(parents, cage, k) != Some(root),
    decreases k,
{
    if k > j {
        let middle = climb(parents, cage, j)->0;
        let rest = (k - j) as nat;
        lemma_climb_from(parents, cage, middle, j, rest);
        lemma_climb_from(parents, cage, middle, i, rest);
        lemma_climb_goes_round(parents, root, cage, i, j, i + rest);
        assert(j + rest == k);
    }
}

/// A walk that has neither ended nor met `root` after as many steps as there are cage
/// ids never does: it has come to some cage twice.
proof fn lemma_long_walk_never_ends(l: Lineage, root: u64, cage: u64)
    requires
        l.wf(),
        cage < MAX_CAGES,
        forall|k: nat| k <= MAX_CAGES ==> climb(l.parents(), cage, k) is Some && climb(
            l.parents(),
            cage,
            k,
        ) != Some(root),
    ensures
        !walk_ends(l.parents(), root, cage),
{
    let parents = l.parents();
    let n = MAX_CAGES as nat;
    let seen = Seq::new(n + 1, |k: int| climb(parents, cage, k as nat)->0 as int);
    if seen.no_duplicates() {
        let ids = vstd::set_lib::set_int_range(0, n as int);
        seen.unique_seq_to_set();
        vstd::set_lib::lemma_int_range(0, n as int);
        assert forall|x: int| seen.to_set().contains(x) implies ids.contains(x) by {
            let k = choose|k: int| 0 <= k < seen.len() && seen[k] == x;
            lemma_climb_in_table(l, cage, k as nat);
        }
        vstd::set_lib::lemma_len_subset(seen.to_set(), ids);
    }
    let (p, q) = choose|p: int, q: int|
        0 <= p < seen.len() && 0 <= q < seen.len() && p != q && #[trigger] seen[p]
            == #[trigger] seen[q];
    let i = (if p < q { p } else { q }) as nat;
    let j = (if p < q { q } else { p }) as nat;
    assert forall|k: nat| !(#[trigger] climb(parents, cage, k) == Some(root) || climb(
        parents,
        cage,
        k,
    ) is None) by {
        lemma_climb_goes_round(parents, root, cage, i, j, k);
    }
}

/// A cage descends from the cages at the ends of the paths that lead from it along the
/// parent pointers, and from no other.
pub proof fn law_descent_is_a_path(parents: Seq<u64>, root: u64, cage: u64)
    ensures
        descends(parents, root, cage) <==> exists|path: Seq<u64>|
            #![trigger path.len()]
            path.len() > 0 && path[0] == cage && path.last() == root && forall|i: int|
                0 <= i < path.len() - 1 ==> (#[trigger] path[i]) < parents.len()
                    && parents[path[i] as int] != u64::MAX && parents[path[i] as int] == path[i + 1],
{
    if descends(parents, root, cage) {
        let k = choose|k: nat| climb(parents, cage, k) == Some(root);
        let path = Seq::new(k + 1, |i: int| climb(parents, cage, i as nat)->0);
        assert forall|i: nat| i <= k implies #[trigger] climb(parents, cage, i) is Some by {
            if climb(parents, cage, i) is None {
                lemma_climb_stops(parents, cage, i, k);
            }
        }
        assert forall|i: int| 0 <= i < path.len() - 1 implies (#[trigger] path[i]) < parents.len()
            && parents[path[i] as int] != u64::MAX && parents[path[i] as int] == path[i + 1] by {
            assert(climb(parents, cage, i as nat) is Some);
            assert(climb(parents, cage, (i + 1) as nat) is Some);
        }
        assert(climb(parents, cage, 0) == Some(cage));
        assert(path.len() > 0 && path[0] == cage && path.last() == root);
    }
    if exists|path: Seq<u64>|
        #![trigger path.len()]
        path.len() > 0 && path[0] == cage && path.last() == root && forall|i: int|
            0 <= i < path.len() - 1 ==> (#[trigger] path[i]) < parents.len()
                && parents[path[i] as int] != u64::MAX && parents[path[i] as int] == path[i + 1] {
        let path = choose|path: Seq<u64>|
            #![trigger path.len()]
            path.len() > 0 && path[0] == cage && path.last() == root && forall|i: int|
                0 <= i < path.len() - 1 ==> (#[trigger] path[i]) < parents.len()
                    && parents[path[i] as int] != u64::MAX && parents[path[i] as int] == path[i + 1];
        lemma_path_is_climbed(parents, path, (path.len() - 1) as nat);
        assert(climb(parents, cage, (path.len() - 1) as nat) == Some(root));
    }
}

/// A path along the parent pointers is what the climb goes through.
proof fn lemma_path_is_climbed(parents: Seq<u64>, path: Seq<u64>, k: nat)
    requires
        k < path.len(),
        forall|i: int|
            0 <= i < path.len() - 1 ==> (#[trigger] path[i]) < parents.len() && parents[path[i] as int]
                != u64::MAX && parents[path[i] as int] == path[i + 1],
    ensures
        climb(parents, path[0], k) == Some(path[k as int]),
    decreases k,
{
    if k > 0 {
        lemma_path_is_climbed(parents, path, (k - 1) as nat);
        assert(path[k - 1] < parents.len());
    }
}

/// A walk can be made from a cage to itself, and from a cage of the table whose path to
/// a cage without a parent, or to the root that is looked for, can be followed.
pub proof fn law_finite_paths_can_be_walked(parents: Seq<u64>, root: u64, path: Seq<u64>)
    requires
        path.len() > 0,
        path[0] < MAX_CAGES,
        forall|i: int|
            0 <= i < path.len() - 1 ==> (#[trigger] path[i]) < parents.len() && parents[path[i] as int]
                != u64::MAX && parents[path[i] as int] == path[i + 1],
        path.last() == root || path.last() >= parents.len() || parents[path.last() as int] == u64::MAX,
    ensures
        walkable(parents, root, path[0]),
        walkable(parents, root, root),
{
    lemma_path_is_climbed(parents, path, (path.len() - 1) as nat);
    let n = path.len();
    assert(climb(parents, path[0], (n - 1) as nat) == Some(path.last()));
    assert(climb(parents, path[0], n) == Some(root) || climb(parents, path[0], n) is None || climb(
        parents,
        path[0],
        (n - 1) as nat,
    ) == Some(root));
}

/// The ids that a policy checks: the target first, then the argument cages in order.
pub proof fn law_checked_ids_in_order(target: u64, arg_cageids: Seq<u64>, n: nat, i: int)
    requires
        n <= arg_cageids.len(),
        0 <= i < n,
    ensures
        checked_ids(target, arg_cageids, n).len() == n + 1,
        checked_ids(target, arg_cageids, n)[0] == target,
        checked_ids(target, arg_cageids, n)[i + 1] == arg_cageids[i],
{
}

/// At first a cage may act on itself and on nothing else, and only cage 0 has an
/// ancestor row.
pub proof fn law_nothing_is_related_at_first(l: Lineage, g: Grants, a: u64, b: u64)
    requires
        l.initial(),
        g.initial(),
        a < 1024,
        b < 1024,
    ensures
        g.allows(a, b) <==> a == b,
        descends(l.parents(), a, b) <==> a == b,
        l.row_holds(a, b) <==> a == 0 && b == 0,
        l.live(b) <==> b == 0,
        l.depths()[b as int] == 0,
{
    lemma_descends_step(l.parents(), a, b);
}

/// A cage exists when it is in its own ancestor row, and a row that does not exist holds
/// nobody: an id outside the table has no row.
pub proof fn law_rows_are_of_cage_ids(l: Lineage, root: u64, cage: u64)
    ensures
        cage >= 1024 ==> !l.row_holds(root, cage) && !l.live(cage),
        cage < 1024 ==> (l.row_holds(root, cage) <==> l.rows()[cage as int].contains(root)),
        cage < 1024 ==> (l.live(cage) <==> l.rows()[cage as int].contains(cage)),
{
}

} // verus!
