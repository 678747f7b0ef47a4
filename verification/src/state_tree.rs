//! The state tree: view state of every component, addressed by path.
//!
//! A path is a sequence of string segments; a component's path is its
//! parent's path followed by the key under which the parent placed it. The
//! tree maps paths to stored values. A [`StateCursor`] is a place in a tree:
//! it borrows the tree, so descending copies no stored value.

use vstd::prelude::*;

use crate::local_state::{LocalState, StateValue, StateValueView};

verus! {

/// A path, mathematically: its segments in order.
pub type PathView = Seq<Seq<char>>;

/// Whether two paths have the same segments.
pub fn same_path(a: &Vec<String>, b: &Vec<String>) -> (r: bool)
    ensures
        r == (a.deep_view() == b.deep_view()),
{
    if a.len() != b.len() {
        assert(a.deep_view().len() != b.deep_view().len());
        return false;
    }
    let mut i: usize = 0;
    while i < a.len()
        invariant
            a.len() == b.len(),
            i <= a.len(),
            forall|k: int| 0 <= k < i ==> a[k]@ == b[k]@,
        decreases a.len() - i,
    {
        if a[i] != b[i] {
            assert(a.deep_view()[i as int] != b.deep_view()[i as int]);
            return false;
        }
        i += 1;
    }
    assert(a.deep_view() =~= b.deep_view());
    true
}

/// A copy of a path.
pub fn copy_path(p: &Vec<String>) -> (r: Vec<String>)
    ensures
        r.deep_view() == p.deep_view(),
{
    let mut r: Vec<String> = Vec::new();
    let mut i: usize = 0;
    while i < p.len()
        invariant
            i <= p.len(),
            r.len() == i,
            forall|k: int| 0 <= k < i ==> r[k]@ == p[k]@,
        decreases p.len() - i,
    {
        r.push(p[i].clone());
        i += 1;
    }
    assert(r.deep_view() =~= p.deep_view());
    r
}

/// One stored value with the path it is stored at.
#[derive(Debug, PartialEq, Eq)]
pub struct StateNode {
    pub path: Vec<String>,
    pub value: StateValue,
}

impl View for StateNode {
    type V = (PathView, StateValueView);

    open spec fn view(&self) -> (PathView, StateValueView) {
        (self.path.deep_view(), self.value@)
    }
}

impl Clone for StateNode {
    fn clone(&self) -> (r: Self)
        ensures
            r@ == self@,
    {
        StateNode { path: copy_path(&self.path), value: self.value.clone() }
    }
}

/// The views of a sequence of nodes, in the same order.
pub open spec fn nodes_view(nodes: Seq<StateNode>) -> Seq<(PathView, StateValueView)> {
    nodes.map_values(|n: StateNode| n@)
}

/// Whether no two entries have the same path.
pub open spec fn distinct_paths(entries: Seq<(PathView, StateValueView)>) -> bool {
    forall|i: int, j: int|
        0 <= i < entries.len() && 0 <= j < entries.len() && i != j ==> entries[i].0
            != entries[j].0
}

/// Whether the entry at `j` is the first whose path an earlier entry has.
pub open spec fn is_first_repeat(entries: Seq<(PathView, StateValueView)>, j: int) -> bool {
    &&& 0 <= j < entries.len()
    &&& exists|i: int| 0 <= i < j && entries[i].0 == entries[j].0
    &&& forall|a: int, b: int| 0 <= a < b < j ==> entries[a].0 != entries[b].0
}

/// Whether one of the entries has this path.
pub open spec fn has_path(entries: Seq<(PathView, StateValueView)>, path: PathView) -> bool {
    exists|i: int| 0 <= i < entries.len() && entries[i].0 == path
}

/// The place of the entry that has this path, where there is one.
pub open spec fn place_of(entries: Seq<(PathView, StateValueView)>, path: PathView) -> int {
    choose|i: int| 0 <= i < entries.len() && entries[i].0 == path
}

/// The entries after `value` is stored at `path`: the entry of that path
/// holds the value, in its old place; or, where there was none, a new
/// entry comes last.
pub open spec fn entries_with(
    entries: Seq<(PathView, StateValueView)>,
    path: PathView,
    value: StateValueView,
) -> Seq<(PathView, StateValueView)> {
    if has_path(entries, path) {
        entries.update(place_of(entries, path), (path, value))
    } else {
        entries.push((path, value))
    }
}

/// The entries after `path` is cleared: the entry of that path is gone,
/// and the others keep their order.
pub open spec fn entries_without(entries: Seq<(PathView, StateValueView)>, path: PathView) -> Seq<
    (PathView, StateValueView),
> {
    if has_path(entries, path) {
        entries.remove(place_of(entries, path))
    } else {
        entries
    }
}

/// The tree that holds the given entries: each entry's value at its path.
pub open spec fn tree_of(entries: Seq<(PathView, StateValueView)>) -> Map<
    PathView,
    StateValueView,
> {
    Map::new(
        |p: PathView| exists|i: int| 0 <= i < entries.len() && entries[i].0 == p,
        |p: PathView| entries[choose|i: int| 0 <= i < entries.len() && entries[i].0 == p].1,
    )
}

/// In a tree of entries with distinct paths, each entry's value is found
/// at its path.
pub proof fn tree_of_holds_each_entry(entries: Seq<(PathView, StateValueView)>, i: int)
    requires
        distinct_paths(entries),
        0 <= i < entries.len(),
    ensures
        tree_of(entries).contains_key(entries[i].0),
        tree_of(entries)[entries[i].0] == entries[i].1,
{
    let p = entries[i].0;
    let k = choose|k: int| 0 <= k < entries.len() && entries[k].0 == p;
    assert(k == i);
}

/// The whole tree. No two nodes share a path.
#[derive(Debug, PartialEq, Eq)]
pub struct StateTree {
    nodes: Vec<StateNode>,
}

spec fn stored_at(nodes: Seq<StateNode>, i: int, p: PathView) -> bool {
    0 <= i < nodes.len() && nodes[i].path.deep_view() == p
}

spec fn paths_distinct(nodes: Seq<StateNode>) -> bool {
    forall|i: int, j: int|
        0 <= i < nodes.len() && 0 <= j < nodes.len() && i != j ==> nodes[i].path.deep_view()
            != nodes[j].path.deep_view()
}

spec fn nodes_map(nodes: Seq<StateNode>) -> Map<PathView, StateValueView> {
    Map::new(
        |p: PathView| exists|i: int| stored_at(nodes, i, p),
        |p: PathView| nodes[choose|i: int| stored_at(nodes, i, p)].value@,
    )
}

proof fn lemma_map_at(nodes: Seq<StateNode>, i: int)
    requires
        paths_distinct(nodes),
        0 <= i < nodes.len(),
    ensures
        nodes_map(nodes).contains_key(nodes[i].path.deep_view()),
        nodes_map(nodes)[nodes[i].path.deep_view()] == nodes[i].value@,
{
    let p = nodes[i].path.deep_view();
    assert(stored_at(nodes, i, p));
    let k = choose|k: int| stored_at(nodes, k, p);
    assert(stored_at(nodes, k, p));
    assert(k == i);
}

proof fn lemma_replace(nodes: Seq<StateNode>, i: int, node: StateNode)
    requires
        paths_distinct(nodes),
        stored_at(nodes, i, node.path.deep_view()),
    ensures
        paths_distinct(nodes.update(i, node)),
        nodes_map(nodes.update(i, node)) == nodes_map(nodes).insert(
            node.path.deep_view(),
            node.value@,
        ),
{
    let after = nodes.update(i, node);
    let p = node.path.deep_view();
    assert forall|a: int, b: int|
        0 <= a < after.len() && 0 <= b < after.len() && a != b implies after[a].path.deep_view()
        != after[b].path.deep_view() by {
        assert(after[a].path.deep_view() == nodes[a].path.deep_view());
        assert(after[b].path.deep_view() == nodes[b].path.deep_view());
        assert(nodes[a].path.deep_view() != nodes[b].path.deep_view());
    }
    assert forall|q: PathView|
        nodes_map(after).contains_key(q) <==> nodes_map(nodes).insert(p, node.value@).contains_key(
            q,
        ) by {
        if nodes_map(after).contains_key(q) {
            let k = choose|k: int| stored_at(after, k, q);
            assert(stored_at(nodes, k, q));
        }
        if nodes_map(nodes).contains_key(q) {
            let k = choose|k: int| stored_at(nodes, k, q);
            assert(stored_at(after, k, q));
        }
        if q == p {
            assert(stored_at(after, i, q));
        }
    }
    assert forall|q: PathView| nodes_map(after).contains_key(q) implies nodes_map(after)[q]
        == nodes_map(nodes).insert(p, node.value@)[q] by {
        let k = choose|k: int| stored_at(after, k, q);
        lemma_map_at(after, k);
        if k != i {
            lemma_map_at(nodes, k);
        }
    }
    assert(nodes_map(after) =~= nodes_map(nodes).insert(p, node.value@));
}

proof fn lemma_append(nodes: Seq<StateNode>, node: StateNode)
    requires
        paths_distinct(nodes),
        forall|k: int| !stored_at(nodes, k, node.path.deep_view()),
    ensures
        paths_distinct(nodes.push(node)),
        nodes_map(nodes.push(node)) == nodes_map(nodes).insert(node.path.deep_view(), node.value@),
{
    let after = nodes.push(node);
    let p = node.path.deep_view();
    let n = nodes.len() as int;
    assert forall|a: int, b: int|
        0 <= a < after.len() && 0 <= b < after.len() && a != b implies after[a].path.deep_view()
        != after[b].path.deep_view() by {
        if a == n {
            assert(!stored_at(nodes, b, p));
        } else if b == n {
            assert(!stored_at(nodes, a, p));
        } else {
            assert(nodes[a].path.deep_view() != nodes[b].path.deep_view());
        }
    }
    assert forall|q: PathView|
        nodes_map(after).contains_key(q) <==> nodes_map(nodes).insert(p, node.value@).contains_key(
            q,
        ) by {
        if nodes_map(after).contains_key(q) {
            let k = choose|k: int| stored_at(after, k, q);
            if k != n {
                assert(stored_at(nodes, k, q));
            }
        }
        if nodes_map(nodes).contains_key(q) {
            let k = choose|k: int| stored_at(nodes, k, q);
            assert(stored_at(after, k, q));
        }
        if q == p {
            assert(stored_at(after, n, q));
        }
    }
    assert forall|q: PathView| nodes_map(after).contains_key(q) implies nodes_map(after)[q]
        == nodes_map(nodes).insert(p, node.value@)[q] by {
        let k = choose|k: int| stored_at(after, k, q);
        lemma_map_at(after, k);
        if k != n {
            lemma_map_at(nodes, k);
        }
    }
    assert(nodes_map(after) =~= nodes_map(nodes).insert(p, node.value@));
}

proof fn lemma_drop(nodes: Seq<StateNode>, i: int)
    requires
        paths_distinct(nodes),
        0 <= i < nodes.len(),
    ensures
        paths_distinct(nodes.remove(i)),
        nodes_map(nodes.remove(i)) == nodes_map(nodes).remove(nodes[i].path.deep_view()),
{
    let after = nodes.remove(i);
    let p = nodes[i].path.deep_view();
    assert forall|a: int, b: int|
        0 <= a < after.len() && 0 <= b < after.len() && a != b implies after[a].path.deep_view()
        != after[b].path.deep_view() by {
        let a0 = if a < i { a } else { a + 1 };
        let b0 = if b < i { b } else { b + 1 };
        assert(after[a] == nodes[a0]);
        assert(after[b] == nodes[b0]);
        assert(nodes[a0].path.deep_view() != nodes[b0].path.deep_view());
    }
    assert forall|q: PathView|
        nodes_map(after).contains_key(q) <==> nodes_map(nodes).remove(p).contains_key(q) by {
        if nodes_map(after).contains_key(q) {
            let k = choose|k: int| stored_at(after, k, q);
            let k0 = if k < i { k } else { k + 1 };
            assert(after[k] == nodes[k0]);
            assert(stored_at(nodes, k0, q));
            assert(nodes[i].path.deep_view() != nodes[k0].path.deep_view());
        }
        if nodes_map(nodes).contains_key(q) && q != p {
            let k = choose|k: int| stored_at(nodes, k, q);
            let k1 = if k < i { k } else { k - 1 };
            assert(after[k1] == nodes[k]);
            assert(stored_at(after, k1, q));
        }
    }
    assert forall|q: PathView| nodes_map(after).contains_key(q) implies nodes_map(after)[q]
        == nodes_map(nodes).remove(p)[q] by {
        let k = choose|k: int| stored_at(after, k, q);
        let k0 = if k < i { k } else { k + 1 };
        assert(after[k] == nodes[k0]);
        lemma_map_at(after, k);
        lemma_map_at(nodes, k0);
    }
    assert(nodes_map(after) =~= nodes_map(nodes).remove(p));
}

proof fn lemma_entries(nodes: Seq<StateNode>)
    requires
        paths_distinct(nodes),
    ensures
        distinct_paths(nodes_view(nodes)),
        nodes_map(nodes) == tree_of(nodes_view(nodes)),
{
    let entries = nodes_view(nodes);
    assert forall|i: int, j: int|
        0 <= i < entries.len() && 0 <= j < entries.len() && i != j implies entries[i].0
        != entries[j].0 by {
        assert(nodes[i].path.deep_view() != nodes[j].path.deep_view());
    }
    assert forall|q: PathView| nodes_map(nodes).contains_key(q) <==> tree_of(
        entries,
    ).contains_key(q) by {
        if nodes_map(nodes).contains_key(q) {
            let k = choose|k: int| stored_at(nodes, k, q);
            assert(entries[k].0 == q);
        }
        if tree_of(entries).contains_key(q) {
            let k = choose|k: int| 0 <= k < entries.len() && entries[k].0 == q;
            assert(stored_at(nodes, k, q));
        }
    }
    assert forall|q: PathView| nodes_map(nodes).contains_key(q) implies nodes_map(nodes)[q]
        == tree_of(entries)[q] by {
        let k = choose|k: int| stored_at(nodes, k, q);
        lemma_map_at(nodes, k);
        assert(entries[k].0 == q);
        tree_of_holds_each_entry(entries, k);
    }
    assert(nodes_map(nodes) =~= tree_of(entries));
}

fn position(nodes: &Vec<StateNode>, path: &Vec<String>) -> (r: Option<usize>)
    ensures
        match r {
            Some(i) => stored_at(nodes@, i as int, path.deep_view()),
            None => forall|k: int| !stored_at(nodes@, k, path.deep_view()),
        },
{
    let mut i: usize = 0;
    while i < nodes.len()
        invariant
            i <= nodes.len(),
            forall|k: int| 0 <= k < i ==> !stored_at(nodes@, k, path.deep_view()),
        decreases nodes.len() - i,
    {
        if same_path(&nodes[i].path, path) {
            return Some(i);
        }
        i += 1;
    }
    None
}

impl StateTree {
    #[verifier::type_invariant]
    spec fn well_formed(self) -> bool {
        paths_distinct(self.nodes@)
    }

    /// The empty tree.
    pub fn new() -> (r: Self)
        ensures
            r@ == Map::<PathView, StateValueView>::empty(),
            r.entries() == Seq::<(PathView, StateValueView)>::empty(),
    {
        let r = StateTree { nodes: Vec::new() };
        assert(r@ =~= Map::<PathView, StateValueView>::empty());
        assert(r.entries() =~= Seq::<(PathView, StateValueView)>::empty());
        r
    }

    /// The value stored at `path`, if there is one.
    pub fn get(&self, path: &Vec<String>) -> (r: Option<&StateValue>)
        ensures
            match r {
                Some(v) => self@.contains_key(path.deep_view()) && self@[path.deep_view()] == v@,
                None => !self@.contains_key(path.deep_view()),
            },
    {
        proof {
            use_type_invariant(self);
        }
        match position(&self.nodes, path) {
            Some(i) => {
                proof {
                    lemma_map_at(self.nodes@, i as int);
                }
                Some(&self.nodes[i].value)
            },
            None => None,
        }
    }

    /// Stores `value` at `path`, in place of what was there. A path that
    /// held nothing becomes the last entry.
    pub fn set(&mut self, path: Vec<String>, value: StateValue)
        ensures
            final(self)@ == old(self)@.insert(path.deep_view(), value@),
            final(self).entries() == entries_with(old(self).entries(), path.deep_view(), value@),
    {
        proof {
            use_type_invariant(&*self);
        }
        let mut nodes: Vec<StateNode> = Vec::new();
        core::mem::swap(&mut self.nodes, &mut nodes);
        let found = position(&nodes, &path);
        let node = StateNode { path, value };
        let ghost before = nodes_view(nodes@);
        proof {
            lemma_entries(nodes@);
        }
        match found {
            Some(i) => {
                proof {
                    lemma_replace(nodes@, i as int, node);
                    assert(before[i as int].0 == node@.0);
                    assert(place_of(before, node@.0) == i);
                    assert(nodes_view(nodes@.update(i as int, node)) =~= before.update(
                        i as int,
                        node@,
                    ));
                }
                nodes[i] = node;
            },
            None => {
                proof {
                    lemma_append(nodes@, node);
                    assert(!has_path(before, node@.0)) by {
                        if has_path(before, node@.0) {
                            let k = place_of(before, node@.0);
                            assert(stored_at(nodes@, k, node@.0));
                        }
                    }
                    assert(nodes_view(nodes@.push(node)) =~= before.push(node@));
                }
                nodes.push(node);
            },
        }
        core::mem::swap(&mut self.nodes, &mut nodes);
    }

    /// Removes what is stored at `path`, if anything.
    pub fn clear(&mut self, path: &Vec<String>)
        ensures
            final(self)@ == old(self)@.remove(path.deep_view()),
            final(self).entries() == entries_without(old(self).entries(), path.deep_view()),
    {
        proof {
            use_type_invariant(&*self);
        }
        let mut nodes: Vec<StateNode> = Vec::new();
        core::mem::swap(&mut self.nodes, &mut nodes);
        let ghost before = nodes_view(nodes@);
        let ghost p = path.deep_view();
        proof {
            lemma_entries(nodes@);
        }
        match position(&nodes, path) {
            Some(i) => {
                proof {
                    lemma_drop(nodes@, i as int);
                    assert(before[i as int].0 == p);
                    assert(place_of(before, p) == i);
                    assert(nodes_view(nodes@.remove(i as int)) =~= before.remove(i as int));
                }
                let _ = nodes.remove(i);
            },
            None => {
                assert(nodes_map(nodes@) =~= nodes_map(nodes@).remove(path.deep_view()));
                assert(!has_path(before, p)) by {
                    if has_path(before, p) {
                        let k = place_of(before, p);
                        assert(stored_at(nodes@, k, p));
                    }
                }
            },
        }
        core::mem::swap(&mut self.nodes, &mut nodes);
    }

    /// What the tree holds, as a list: each stored value with its path, in
    /// the order in which the paths were first written.
    pub closed spec fn entries(&self) -> Seq<(PathView, StateValueView)> {
        nodes_view(self.nodes@)
    }

    /// A copy of what the tree holds, as a list. No path occurs twice in
    /// it, and the tree is the one that holds exactly these entries.
    pub fn to_entries(&self) -> (r: Vec<StateNode>)
        ensures
            nodes_view(r@) == self.entries(),
            distinct_paths(self.entries()),
            self@ == tree_of(self.entries()),
    {
        proof {
            use_type_invariant(self);
            lemma_entries(self.nodes@);
        }
        let mut r: Vec<StateNode> = Vec::new();
        let mut i: usize = 0;
        while i < self.nodes.len()
            invariant
                i <= self.nodes.len(),
                r.len() == i,
                forall|k: int| 0 <= k < i ==> (#[trigger] r[k])@ == self.nodes[k]@,
            decreases self.nodes.len() - i,
        {
            r.push(self.nodes[i].clone());
            i += 1;
        }
        assert(nodes_view(r@) =~= nodes_view(self.nodes@));
        r
    }

    /// The tree that holds the given entries. A list in which a path
    /// occurs twice is no tree: the answer is then the first path that
    /// repeats an earlier one.
    pub fn from_entries(entries: Vec<StateNode>) -> (r: Result<StateTree, Vec<String>>)
        ensures
            match r {
                Ok(tree) => {
                    &&& distinct_paths(nodes_view(entries@))
                    &&& tree.entries() == nodes_view(entries@)
                    &&& tree@ == tree_of(nodes_view(entries@))
                },
                Err(path) => exists|j: int|
                    #![auto]
                    is_first_repeat(nodes_view(entries@), j) && nodes_view(entries@)[j].0
                        == path.deep_view(),
            },
    {
        let ghost all = nodes_view(entries@);
        let mut j: usize = 0;
        while j < entries.len()
            invariant
                j <= entries.len(),
                all == nodes_view(entries@),
                forall|a: int, b: int| 0 <= a < b < j ==> all[a].0 != all[b].0,
            decreases entries.len() - j,
        {
            let mut i: usize = 0;
            while i < j
                invariant
                    i <= j < entries.len(),
                    all == nodes_view(entries@),
                    forall|a: int, b: int| 0 <= a < b < j ==> all[a].0 != all[b].0,
                    forall|a: int| 0 <= a < i ==> all[a].0 != all[j as int].0,
                decreases j - i,
            {
                if same_path(&entries[i].path, &entries[j].path) {
                    assert(all[i as int].0 == all[j as int].0);
                    assert(is_first_repeat(all, j as int));
                    return Err(copy_path(&entries[j].path));
                }
                i += 1;
            }
            j += 1;
        }
        assert forall|a: int, b: int|
            0 <= a < entries.len() && 0 <= b < entries.len() && a != b implies entries[a].path.deep_view()
            != entries[b].path.deep_view() by {
            if a < b {
                assert(all[a].0 != all[b].0);
            } else {
                assert(all[b].0 != all[a].0);
            }
        }
        proof {
            lemma_entries(entries@);
        }
        Ok(StateTree { nodes: entries })
    }

    /// The place at the top of the tree, with the empty path.
    pub fn root(&self) -> (r: StateCursor<'_>)
        ensures
            r.tree() == self,
            r.path_view() == Seq::<Seq<char>>::empty(),
    {
        let r = StateCursor { tree: self, path: Vec::new() };
        assert(r.path.deep_view() =~= Seq::<Seq<char>>::empty());
        r
    }
}

impl Clone for StateTree {
    fn clone(&self) -> (r: Self)
        ensures
            r@ == self@,
            r.entries() == self.entries(),
    {
        proof {
            use_type_invariant(self);
        }
        let nodes = self.to_entries();
        assert forall|a: int, b: int|
            0 <= a < nodes.len() && 0 <= b < nodes.len() && a != b implies nodes[a].path.deep_view()
            != nodes[b].path.deep_view() by {
            assert(nodes_view(nodes@)[a] == nodes_view(self.nodes@)[a]);
            assert(nodes_view(nodes@)[b] == nodes_view(self.nodes@)[b]);
        }
        proof {
            lemma_entries(nodes@);
            lemma_entries(self.nodes@);
        }
        StateTree { nodes }
    }
}

impl View for StateTree {
    type V = Map<PathView, StateValueView>;

    closed spec fn view(&self) -> Map<PathView, StateValueView> {
        nodes_map(self.nodes@)
    }
}

/// A place in a state tree: the tree, and the path of the place.
pub struct StateCursor<'a> {
    tree: &'a StateTree,
    path: Vec<String>,
}

impl<'a> StateCursor<'a> {
    /// The tree that this place is in.
    pub closed spec fn tree(&self) -> &StateTree {
        self.tree
    }

    /// The path of this place.
    pub closed spec fn path_view(&self) -> PathView {
        self.path.deep_view()
    }

    /// What is stored at this place, if anything.
    pub open spec fn node(&self) -> Option<StateValueView> {
        node_at(self.tree()@, self.path_view())
    }

    /// The path of this place, from the top of the tree.
    pub fn path(&self) -> (r: Vec<String>)
        ensures
            r.deep_view() == self.path_view(),
    {
        copy_path(&self.path)
    }

    /// The place of the child that is kept under `key`.
    pub fn pick(&self, key: &str) -> (r: StateCursor<'a>)
        ensures
            r.tree() == self.tree(),
            r.path_view() == self.path_view().push(key@),
    {
        let mut path = copy_path(&self.path);
        path.push(key.to_owned());
        assert(path.deep_view() =~= self.path.deep_view().push(key@));
        StateCursor { tree: self.tree, path }
    }

    /// The record of type `T` kept at this place. Where nothing is stored
    /// here, or what is stored is another component's record, this is `T`'s
    /// initial value.
    pub fn read<T: LocalState>(&self) -> (r: T)
        ensures
            r@ == read_as::<T>(self.node()),
    {
        match self.tree.get(&self.path) {
            Some(v) => match T::decode(v) {
                Some(s) => s,
                None => T::fallback(),
            },
            None => T::fallback(),
        }
    }
}

/// What a tree holds at a path, if anything.
pub open spec fn node_at(tree: Map<PathView, StateValueView>, path: PathView) -> Option<
    StateValueView,
> {
    if tree.contains_key(path) {
        Some(tree[path])
    } else {
        None
    }
}

/// What a component reads from a node that may be absent, or another's.
pub open spec fn read_as<T: LocalState>(node: Option<StateValueView>) -> T::V {
    match node {
        Some(v) => match T::decoded(v) {
            Some(s) => s,
            None => T::initial(),
        },
        None => T::initial(),
    }
}

} // verus!
