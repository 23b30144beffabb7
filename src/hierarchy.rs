use vstd::prelude::*;

use crate::entity::Entity;

verus! {

/// The node tree. Nodes are numbered in document order, which is a
/// pre-order traversal: the root is node 0, and the parent of every other
/// node lies on the path from the root to the node numbered just before it.
/// So every node comes after its parent, each subtree is a contiguous run of
/// numbers, and each ancestor walk ends at the root after finitely many
/// steps.
pub struct Hierarchy {
    pub parents: Vec<Option<usize>>,
}

impl Hierarchy {
    /// Number of nodes, the root included.
    pub open spec fn spec_len(&self) -> nat {
        self.parents@.len()
    }

    /// The parent of node `n`, if `n` is a node other than the root.
    pub open spec fn parent_of(&self, n: int) -> Option<int> {
        if 0 <= n < self.parents@.len() {
            match self.parents@[n] {
                Some(p) => Some(p as int),
                None => None,
            }
        } else {
            None
        }
    }

    pub open spec fn contains(&self, e: Entity) -> bool {
        e.spec_index() < self.spec_len()
    }

    pub open spec fn wf(&self) -> bool {
        &&& self.parents@.len() >= 1
        &&& self.parents@[0] is None
        &&& forall|i: int|
            1 <= i < self.parents@.len() ==> (#[trigger] self.parents@[i] is Some && self.parents@[i]->0 < i)
        &&& forall|i: int|
            1 <= i < self.parents@.len() ==> self.on_path(#[trigger] self.parents@[i]->0 as int, i - 1)
    }

    /// Node `a` is node `n` or one of its ancestors.
    pub open spec fn on_path(&self, a: int, n: int) -> bool {
        a == n || self.is_ancestor(a, n)
    }

    /// A new node may become a child of `a` with the numbering kept in
    /// pre-order: `a` is the last node or one of its ancestors.
    pub open spec fn is_open(&self, a: int) -> bool {
        self.on_path(a, self.spec_len() - 1)
    }

    /// Node `a` is a strict ancestor of node `n`.
    pub open spec fn is_ancestor(&self, a: int, n: int) -> bool
        decreases n,
    {
        if n <= 0 {
            false
        } else {
            match self.parent_of(n) {
                Some(p) => p < n && (p == a || self.is_ancestor(a, p)),
                None => false,
            }
        }
    }

    /// Ancestry among the first nodes of a tree stays as it is when nodes
    /// are appended.
    pub proof fn lemma_ancestry_kept(&self, longer: Hierarchy, a: int, n: int)
        requires
            self.parents@.len() <= longer.parents@.len(),
            forall|k: int| 0 <= k < self.parents@.len() ==> longer.parents@[k] == self.parents@[k],
            n < self.parents@.len(),
        ensures
            longer.is_ancestor(a, n) == self.is_ancestor(a, n),
        decreases n,
    {
        if n > 0 {
            if let Some(p) = self.parent_of(n) {
                if p < n {
                    self.lemma_ancestry_kept(longer, a, p);
                }
            }
        }
    }

    /// A tree that holds the root alone.
    pub fn new() -> (r: Hierarchy)
        ensures
            r.wf(),
            r.spec_len() == 1,
    {
        let mut parents: Vec<Option<usize>> = Vec::new();
        parents.push(None);
        Hierarchy { parents }
    }

    pub fn len(&self) -> (r: usize)
        ensures
            r == self.spec_len(),
    {
        self.parents.len()
    }

    /// Whether `parent` may take a new child now (see `is_open`).
    pub fn can_add(&self, parent: Entity) -> (r: bool)
        requires
            self.wf(),
        ensures
            r == (self.contains(parent) && self.is_open(parent.spec_index() as int)),
    {
        let last = self.parents.len() - 1;
        let target = parent.index();
        if target > last {
            return false;
        }
        let mut cur = last;
        while cur != target
            invariant
                self.wf(),
                cur <= last,
                last == self.spec_len() - 1,
                target == parent.spec_index(),
                self.on_path(target as int, last as int) == self.on_path(target as int, cur as int),
            decreases cur,
        {
            assert(cur >= 1 ==> self.parents@[cur as int] is Some);
            match self.parents[cur] {
                Some(p) => {
                    cur = p;
                },
                None => {
                    return false;
                },
            }
        }
        true
    }

    /// Appends a new node as the last child of `parent` and returns its
    /// handle. `parent` must be the last node or one of its ancestors, so
    /// that the numbering stays a pre-order.
    pub fn add(&mut self, parent: Entity) -> (r: Entity)
        requires
            old(self).wf(),
            old(self).contains(parent),
            old(self).is_open(parent.spec_index() as int),
            old(self).spec_len() < usize::MAX,
        ensures
            final(self).wf(),
            r.spec_index() == old(self).spec_len(),
            final(self).spec_len() == old(self).spec_len() + 1,
            final(self).parent_of(r.spec_index() as int) == Some(parent.spec_index() as int),
            forall|n: int| 0 <= n < old(self).spec_len() ==> final(self).parent_of(n) == old(self).parent_of(n),
    {
        let id = self.parents.len();
        self.parents.push(Some(parent.index()));
        proof {
            assert forall|i: int| 1 <= i < self.parents@.len() implies (#[trigger] self.parents@[i] is Some && self.parents@[i]->0 < i) by {
                if i < id {
                    assert(old(self).parents@[i] == self.parents@[i]);
                }
            }
            assert forall|i: int| 1 <= i < self.parents@.len() implies self.on_path(#[trigger] self.parents@[i]->0 as int, i - 1) by {
                if i < id {
                    assert(old(self).parents@[i] == self.parents@[i]);
                }
                old(self).lemma_ancestry_kept(*self, self.parents@[i]->0 as int, i - 1);
            }
        }
        Entity::new(id)
    }

    /// The parent of `entity`; `None` for the root.
    pub fn get_parent(&self, entity: Entity) -> (r: Option<Entity>)
        requires
            self.contains(entity),
        ensures
            r matches Some(p) ==> self.parent_of(entity.spec_index() as int) == Some(p.spec_index() as int),
            r is None ==> self.parent_of(entity.spec_index() as int) is None,
    {
        match self.parents[entity.index()] {
            Some(p) => Some(Entity::new(p)),
            None => None,
        }
    }

    /// The children of `entity`, in document order.
    pub fn get_children(&self, entity: Entity) -> (r: Vec<Entity>)
        ensures
            forall|i: int| 0 <= i < r@.len() ==> self.parent_of(#[trigger] r@[i].spec_index() as int) == Some(entity.spec_index() as int),
            forall|n: int| 0 <= n < self.spec_len() && self.parent_of(n) == Some(entity.spec_index() as int)
                ==> exists|i: int| 0 <= i < r@.len() && #[trigger] r@[i].spec_index() == n,
            forall|i: int, j: int| 0 <= i < j < r@.len() ==> r@[i].spec_index() < r@[j].spec_index(),
    {
        let mut r: Vec<Entity> = Vec::new();
        let mut i: usize = 0;
        while i < self.parents.len()
            invariant
                i <= self.parents@.len(),
                forall|k: int| 0 <= k < r@.len() ==> self.parent_of(#[trigger] r@[k].spec_index() as int) == Some(entity.spec_index() as int),
                forall|k: int| 0 <= k < r@.len() ==> #[trigger] r@[k].spec_index() < i,
                forall|n: int| 0 <= n < i && self.parent_of(n) == Some(entity.spec_index() as int)
                    ==> exists|k: int| 0 <= k < r@.len() && #[trigger] r@[k].spec_index() == n,
                forall|a: int, b: int| 0 <= a < b < r@.len() ==> r@[a].spec_index() < r@[b].spec_index(),
            decreases self.parents@.len() - i,
        {
            if let Some(p) = self.parents[i] {
                if p == entity.index() {
                    let ghost before = r@;
                    r.push(Entity::new(i));
                    proof {
                        assert forall|n: int| 0 <= n < i + 1 && self.parent_of(n) == Some(entity.spec_index() as int)
                            implies exists|k: int| 0 <= k < r@.len() && #[trigger] r@[k].spec_index() == n by {
                            if n < i {
                                let k = choose|k: int| 0 <= k < before.len() && #[trigger] before[k].spec_index() == n;
                                assert(r@[k] == before[k]);
                            } else {
                                assert(r@[r@.len() - 1].spec_index() == n);
                            }
                        }
                    }
                }
            }
            i += 1;
        }
        r
    }
}

} // verus!
