//! The records the schema stores and the invariants they obey.
//!
//! A [`MapRecord`] is a roadmap container; a [`NodeRecord`] is an item
//! inside exactly one roadmap, optionally nested under another node. The
//! schema alone does not enforce the referential rules — that every node's
//! `roadmap_uuid` names an existing map, that a parent lives in the same
//! roadmap as its child, and that the parent relation is acyclic — so this
//! module enforces them in the calling layer: a [`Store`] value mirrors the
//! two tables, its insert operations reject every row that would break a
//! rule, and its queries are specified against that well-formed state.

use vstd::prelude::*;

verus! {

/// A roadmap container row of the `maps` table.
pub struct MapRecord {
    pub uuid: String,
    pub title: String,
    pub description: String,
}

/// The mathematical value of a [`MapRecord`].
pub struct MapModel {
    pub uuid: Seq<char>,
    pub title: Seq<char>,
    pub description: Seq<char>,
}

impl View for MapRecord {
    type V = MapModel;

    open spec fn view(&self) -> MapModel {
        MapModel { uuid: self.uuid@, title: self.title@, description: self.description@ }
    }
}

impl Clone for MapRecord {
    fn clone(&self) -> (r: Self)
        ensures
            r@ == self@,
    {
        MapRecord {
            uuid: self.uuid.clone(),
            title: self.title.clone(),
            description: self.description.clone(),
        }
    }
}

/// A row of the `nodes` table: an item within exactly one roadmap,
/// optionally nested under another node of that roadmap.
pub struct NodeRecord {
    pub uuid: String,
    pub title: String,
    pub description: String,
    pub node_type: String,
    pub parent_node: Option<String>,
    pub roadmap_uuid: String,
}

/// The mathematical value of a [`NodeRecord`].
pub struct NodeModel {
    pub uuid: Seq<char>,
    pub title: Seq<char>,
    pub description: Seq<char>,
    pub node_type: Seq<char>,
    pub parent_node: Option<Seq<char>>,
    pub roadmap_uuid: Seq<char>,
}

impl View for NodeRecord {
    type V = NodeModel;

    open spec fn view(&self) -> NodeModel {
        NodeModel {
            uuid: self.uuid@,
            title: self.title@,
            description: self.description@,
            node_type: self.node_type@,
            parent_node: match self.parent_node {
                Option::None => Option::None,
                Option::Some(p) => Option::Some(p@),
            },
            roadmap_uuid: self.roadmap_uuid@,
        }
    }
}

impl Clone for NodeRecord {
    fn clone(&self) -> (r: Self)
        ensures
            r@ == self@,
    {
        NodeRecord {
            uuid: self.uuid.clone(),
            title: self.title.clone(),
            description: self.description.clone(),
            node_type: self.node_type.clone(),
            parent_node: match &self.parent_node {
                Option::None => Option::None,
                Option::Some(p) => Option::Some(p.clone()),
            },
            roadmap_uuid: self.roadmap_uuid.clone(),
        }
    }
}

/// Why an insert was rejected: the row would have broken a rule of the
/// data model.
#[derive(Clone, Copy, Debug, PartialEq, Eq, Structural)]
pub enum StoreError {
    /// A map with this `uuid` already exists; uuids are assigned once.
    DuplicateMapUuid,
    /// A node with this `uuid` already exists; uuids are assigned once.
    DuplicateNodeUuid,
    /// The node's `roadmap_uuid` names no existing map.
    UnknownRoadmap,
    /// The node's `parent_node` names no existing node of the same roadmap.
    InvalidParent,
}

/// The mathematical values of a sequence of map records.
pub open spec fn views_of_maps(s: Seq<MapRecord>) -> Seq<MapModel> {
    s.map_values(|m: MapRecord| m@)
}

/// The mathematical values of a sequence of node records.
pub open spec fn views_of_nodes(s: Seq<NodeRecord>) -> Seq<NodeModel> {
    s.map_values(|n: NodeRecord| n@)
}

/// The mathematical values of a sequence of strings.
pub open spec fn views_of_strings(s: Seq<String>) -> Seq<Seq<char>> {
    s.map_values(|x: String| x@)
}

/// Some map carries this uuid.
pub open spec fn has_map(maps: Seq<MapModel>, uuid: Seq<char>) -> bool {
    exists|i: int| 0 <= i < maps.len() && maps[i].uuid == uuid
}

/// Some node carries this uuid.
pub open spec fn has_node(nodes: Seq<NodeModel>, uuid: Seq<char>) -> bool {
    exists|i: int| 0 <= i < nodes.len() && nodes[i].uuid == uuid
}

/// The index of the node carrying this uuid (meaningful when
/// [`has_node`] holds and uuids are distinct).
pub open spec fn node_index(nodes: Seq<NodeModel>, uuid: Seq<char>) -> int {
    choose|i: int| 0 <= i < nodes.len() && nodes[i].uuid == uuid
}

/// Map uuids are pairwise distinct.
pub open spec fn maps_distinct(maps: Seq<MapModel>) -> bool {
    forall|i: int, j: int|
        0 <= i < j < maps.len() ==> (#[trigger] maps[i]).uuid != (#[trigger] maps[j]).uuid
}

/// Node uuids are pairwise distinct.
pub open spec fn nodes_distinct(nodes: Seq<NodeModel>) -> bool {
    forall|i: int, j: int|
        0 <= i < j < nodes.len() ==> (#[trigger] nodes[i]).uuid != (#[trigger] nodes[j]).uuid
}

/// The node at `j` either has no parent, or its parent stands earlier in
/// the sequence, carries the named uuid, and belongs to the same roadmap.
/// "Earlier" reflects that a parent must exist before its children and
/// rules out any cycle through `parent_node`.
pub open spec fn parent_ok(nodes: Seq<NodeModel>, j: int) -> bool {
    nodes[j].parent_node is Some ==> exists|i: int|
        0 <= i < j && (#[trigger] nodes[i]).uuid == nodes[j].parent_node->0
            && nodes[i].roadmap_uuid == nodes[j].roadmap_uuid
}

/// The node-side invariants: distinct uuids, and every parent link
/// resolved earlier in the same roadmap.
pub open spec fn nodes_linked(nodes: Seq<NodeModel>) -> bool {
    &&& nodes_distinct(nodes)
    &&& forall|j: int| 0 <= j < nodes.len() ==> #[trigger] parent_ok(nodes, j)
}

/// The full referential invariant of a store: distinct map uuids, node
/// invariants, and every node's `roadmap_uuid` naming an existing map.
pub open spec fn wf_models(maps: Seq<MapModel>, nodes: Seq<NodeModel>) -> bool {
    &&& maps_distinct(maps)
    &&& nodes_linked(nodes)
    &&& forall|j: int| 0 <= j < nodes.len() ==> has_map(maps, (#[trigger] nodes[j]).roadmap_uuid)
}

/// An in-memory mirror of the two tables, kept well formed by its insert
/// operations.
pub struct Store {
    pub maps: Vec<MapRecord>,
    pub nodes: Vec<NodeRecord>,
}

impl Store {
    /// The referential invariant, over the mathematical values of the rows.
    pub open spec fn wf(self) -> bool {
        wf_models(views_of_maps(self.maps@), views_of_nodes(self.nodes@))
    }

    /// A store with no rows; trivially well formed.
    pub fn new() -> (r: Store)
        ensures
            r.maps@.len() == 0,
            r.nodes@.len() == 0,
            r.wf(),
    {
        let r = Store { maps: Vec::new(), nodes: Vec::new() };
        proof {
            assert(views_of_maps(r.maps@) =~= Seq::<MapModel>::empty());
            assert(views_of_nodes(r.nodes@) =~= Seq::<NodeModel>::empty());
        }
        r
    }

    /// Whether a map with this uuid exists.
    pub fn contains_map(&self, uuid: &String) -> (r: bool)
        ensures
            r == has_map(views_of_maps(self.maps@), uuid@),
    {
        let mut i: usize = 0;
        while i < self.maps.len()
            invariant
                i <= self.maps.len(),
                forall|k: int| 0 <= k < i ==> (#[trigger] views_of_maps(self.maps@)[k]).uuid != uuid@,
            decreases self.maps.len() - i,
        {
            if self.maps[i].uuid == *uuid {
                assert(views_of_maps(self.maps@)[i as int].uuid == uuid@);
                return true;
            }
            i = i + 1;
        }
        false
    }

    /// The index of the first node with this uuid, if any; under the
    /// store's invariant it is the only one.
    pub fn find_node(&self, uuid: &String) -> (r: Option<usize>)
        ensures
            r is Some ==> r->0 < self.nodes@.len() && views_of_nodes(self.nodes@)[r->0 as int].uuid
                == uuid@,
            r is None ==> !has_node(views_of_nodes(self.nodes@), uuid@),
    {
        let mut i: usize = 0;
        while i < self.nodes.len()
            invariant
                i <= self.nodes.len(),
                forall|k: int|
                    0 <= k < i ==> (#[trigger] views_of_nodes(self.nodes@)[k]).uuid != uuid@,
            decreases self.nodes.len() - i,
        {
            if self.nodes[i].uuid == *uuid {
                assert(views_of_nodes(self.nodes@)[i as int].uuid == uuid@);
                return Some(i);
            }
            i = i + 1;
        }
        None
    }

    /// Whether a node with this uuid exists.
    pub fn contains_node(&self, uuid: &String) -> (r: bool)
        ensures
            r == has_node(views_of_nodes(self.nodes@), uuid@),
    {
        self.find_node(uuid).is_some()
    }

    /// Inserts a roadmap container. Succeeds exactly when no map carries
    /// the row's uuid already; a rejected insert leaves the store
    /// unchanged.
    pub fn insert_map(&mut self, m: MapRecord) -> (r: Result<(), StoreError>)
        requires
            old(self).wf(),
        ensures
            final(self).wf(),
            r is Ok <==> !has_map(views_of_maps(old(self).maps@), m@.uuid),
            r is Ok ==> final(self).maps@ == old(self).maps@.push(m) && final(self).nodes@ == old(
                self,
            ).nodes@,
            r is Err ==> *final(self) == *old(self) && r == Result::<(), StoreError>::Err(
                StoreError::DuplicateMapUuid,
            ),
    {
        if self.contains_map(&m.uuid) {
            return Err(StoreError::DuplicateMapUuid);
        }
        let ghost old_maps = views_of_maps(self.maps@);
        self.maps.push(m);
        proof {
            let maps = views_of_maps(self.maps@);
            assert(maps =~= old_maps.push(m@));
            assert forall|j: int| 0 <= j < views_of_nodes(self.nodes@).len() implies has_map(
                maps,
                (#[trigger] views_of_nodes(self.nodes@)[j]).roadmap_uuid,
            ) by {
                let i = choose|i: int|
                    0 <= i < old_maps.len() && old_maps[i].uuid == views_of_nodes(
                        self.nodes@,
                    )[j].roadmap_uuid;
                assert(maps[i].uuid == views_of_nodes(self.nodes@)[j].roadmap_uuid);
            }
        }
        Ok(())
    }

    /// Inserts a node. Succeeds exactly when the row's uuid is fresh, its
    /// `roadmap_uuid` names an existing map, and its `parent_node`, if
    /// set, names an existing node of that same roadmap; a rejected insert
    /// leaves the store unchanged and says which rule the row broke, the
    /// first of these three in that order.
    pub fn insert_node(&mut self, n: NodeRecord) -> (r: Result<(), StoreError>)
        requires
            old(self).wf(),
        ensures
            final(self).wf(),
            r is Ok <==> {
                &&& !has_node(views_of_nodes(old(self).nodes@), n@.uuid)
                &&& has_map(views_of_maps(old(self).maps@), n@.roadmap_uuid)
                &&& parent_ok(views_of_nodes(old(self).nodes@).push(n@), old(self).nodes@.len() as int)
            },
            r is Ok ==> final(self).nodes@ == old(self).nodes@.push(n) && final(self).maps@ == old(
                self,
            ).maps@,
            r is Err ==> *final(self) == *old(self),
            r == Result::<(), StoreError>::Err(StoreError::DuplicateNodeUuid) <==> has_node(
                views_of_nodes(old(self).nodes@),
                n@.uuid,
            ),
            r == Result::<(), StoreError>::Err(StoreError::UnknownRoadmap) <==> !has_node(
                views_of_nodes(old(self).nodes@),
                n@.uuid,
            ) && !has_map(views_of_maps(old(self).maps@), n@.roadmap_uuid),
            r == Result::<(), StoreError>::Err(StoreError::InvalidParent) <==> {
                &&& !has_node(views_of_nodes(old(self).nodes@), n@.uuid)
                &&& has_map(views_of_maps(old(self).maps@), n@.roadmap_uuid)
                &&& !parent_ok(
                    views_of_nodes(old(self).nodes@).push(n@),
                    old(self).nodes@.len() as int,
                )
            },
    {
        let ghost old_nodes = views_of_nodes(self.nodes@);
        let ghost pushed = old_nodes.push(n@);
        let ghost at = self.nodes@.len() as int;
        if self.contains_node(&n.uuid) {
            return Err(StoreError::DuplicateNodeUuid);
        }
        if !self.contains_map(&n.roadmap_uuid) {
            return Err(StoreError::UnknownRoadmap);
        }
        let parent_fits: bool = match &n.parent_node {
            Option::None => true,
            Option::Some(p) => {
                match self.find_node(p) {
                    Option::None => false,
                    Option::Some(i) => self.nodes[i].roadmap_uuid == n.roadmap_uuid,
                }
            },
        };
        proof {
            assert(pushed[at] == n@);
            if parent_fits && n@.parent_node is Some {
                let p = n@.parent_node->0;
                let i = choose|i: int| 0 <= i < old_nodes.len() && old_nodes[i].uuid == p;
                assert(pushed[i].uuid == p && pushed[i].roadmap_uuid == pushed[at].roadmap_uuid);
            }
            if !parent_fits && n@.parent_node is Some && parent_ok(pushed, at) {
                let p = n@.parent_node->0;
                let i = choose|i: int|
                    0 <= i < at && (#[trigger] pushed[i]).uuid == p && pushed[i].roadmap_uuid
                        == pushed[at].roadmap_uuid;
                assert(old_nodes[i].uuid == p);
            }
        }
        if !parent_fits {
            return Err(StoreError::InvalidParent);
        }
        self.nodes.push(n);
        proof {
            let nodes = views_of_nodes(self.nodes@);
            assert(nodes =~= pushed);
            assert forall|j: int| 0 <= j < nodes.len() implies #[trigger] parent_ok(nodes, j) by {
                if j < at {
                    assert(parent_ok(old_nodes, j));
                    if old_nodes[j].parent_node is Some {
                        let i = choose|i: int|
                            0 <= i < j && (#[trigger] old_nodes[i]).uuid
                                == old_nodes[j].parent_node->0 && old_nodes[i].roadmap_uuid
                                == old_nodes[j].roadmap_uuid;
                        assert(nodes[i].uuid == nodes[j].parent_node->0 && nodes[i].roadmap_uuid
                            == nodes[j].roadmap_uuid);
                    }
                }
            }
            assert forall|j: int| 0 <= j < nodes.len() implies has_map(
                views_of_maps(self.maps@),
                (#[trigger] nodes[j]).roadmap_uuid,
            ) by {
                if j < at {
                    assert(has_map(views_of_maps(self.maps@), old_nodes[j].roadmap_uuid));
                }
            }
        }
        Ok(())
    }

    /// The join of `maps` and `nodes` on the declared relationship, seen
    /// from one map: every node whose `roadmap_uuid` equals `map_uuid`, in
    /// storage order, and no others.
    pub fn nodes_of_map(&self, map_uuid: &String) -> (r: Vec<NodeRecord>)
        ensures
            views_of_nodes(r@) == spec_nodes_of_map(views_of_nodes(self.nodes@), map_uuid@),
    {
        let mut r: Vec<NodeRecord> = Vec::new();
        let mut i: usize = 0;
        while i < self.nodes.len()
            invariant
                i <= self.nodes.len(),
                views_of_nodes(r@) == views_of_nodes(self.nodes@).take(i as int).filter(
                    in_roadmap_pred(map_uuid@),
                ),
            decreases self.nodes.len() - i,
        {
            proof {
                assert(views_of_nodes(self.nodes@).take(i + 1) =~= views_of_nodes(
                    self.nodes@,
                ).take(i as int).push(self.nodes@[i as int]@));
                Seq::lemma_filter_push(
                    views_of_nodes(self.nodes@).take(i as int),
                    self.nodes@[i as int]@,
                    in_roadmap_pred(map_uuid@),
                );
            }
            if self.nodes[i].roadmap_uuid == *map_uuid {
                let ghost prev = r@;
                r.push(self.nodes[i].clone());
                proof {
                    assert(views_of_nodes(r@) =~= views_of_nodes(prev).push(
                        self.nodes@[i as int]@,
                    ));
                }
            }
            i = i + 1;
        }
        proof {
            assert(views_of_nodes(self.nodes@).take(self.nodes@.len() as int) =~= views_of_nodes(
                self.nodes@,
            ));
        }
        r
    }

    /// The ordered list of ancestors of the node carrying `uuid`, found by
    /// walking `parent_node`: first the node's parent, then the parent's
    /// parent, and so on up to a node with no parent. `None` exactly when
    /// no node carries `uuid`.
    pub fn ancestors(&self, uuid: &String) -> (r: Option<Vec<String>>)
        requires
            self.wf(),
        ensures
            r is None <==> !has_node(views_of_nodes(self.nodes@), uuid@),
            r is Some ==> views_of_strings(r->0@) == spec_chain(
                views_of_nodes(self.nodes@),
                node_index(views_of_nodes(self.nodes@), uuid@),
            ),
    {
        let ghost on = views_of_nodes(self.nodes@);
        let start: usize = match self.find_node(uuid) {
            Option::None => { return Option::None },
            Option::Some(j) => j,
        };
        proof {
            assert(has_node(on, uuid@));
            assert(on[node_index(on, uuid@)].uuid == uuid@);
            lemma_uuid_determines_index(on, start as int, node_index(on, uuid@));
        }
        let ghost j0 = start as int;
        let mut j = start;
        let mut out: Vec<String> = Vec::new();
        while self.nodes[j].parent_node.is_some()
            invariant
                self.wf(),
                on == views_of_nodes(self.nodes@),
                j < self.nodes@.len(),
                spec_chain(on, j0) == views_of_strings(out@) + spec_chain(on, j as int),
            decreases j,
        {
            let ghost jj = j as int;
            let p: &String = self.nodes[j].parent_node.as_ref().unwrap();
            proof {
                assert(parent_ok(on, jj));
                let w = choose|i: int|
                    0 <= i < jj && (#[trigger] on[i]).uuid == on[jj].parent_node->0
                        && on[i].roadmap_uuid == on[jj].roadmap_uuid;
                assert(on[w].uuid == p@);
                assert(has_node(on, p@));
            }
            let fi: usize = match self.find_node(p) {
                Option::None => {
                    proof {
                        assert(false);
                    }
                    0
                },
                Option::Some(i) => i,
            };
            proof {
                assert(has_parent_link(on, jj));
                let ci = parent_index(on, jj);
                assert(0 <= ci < jj && on[ci].uuid == p@);
                lemma_uuid_determines_index(on, fi as int, ci);
                assert(spec_chain(on, jj) == seq![p@] + spec_chain(on, fi as int));
            }
            let ghost prev = out@;
            out.push(p.clone());
            proof {
                assert(views_of_strings(out@) =~= views_of_strings(prev).push(p@));
                assert(views_of_strings(prev) + (seq![p@] + spec_chain(on, fi as int))
                    =~= views_of_strings(out@) + spec_chain(on, fi as int));
            }
            j = fi;
        }
        proof {
            assert(spec_chain(on, j as int) =~= Seq::<Seq<char>>::empty());
            assert(views_of_strings(out@) + Seq::<Seq<char>>::empty() =~= views_of_strings(out@));
        }
        Some(out)
    }
}

/// Holds of a node that belongs to the roadmap carrying this uuid.
pub open spec fn in_roadmap_pred(uuid: Seq<char>) -> spec_fn(NodeModel) -> bool {
    |n: NodeModel| n.roadmap_uuid == uuid
}

/// The nodes of one map, joined on `roadmap_uuid`: exactly those whose
/// `roadmap_uuid` equals `uuid`, in storage order.
pub open spec fn spec_nodes_of_map(nodes: Seq<NodeModel>, uuid: Seq<char>) -> Seq<NodeModel> {
    nodes.filter(in_roadmap_pred(uuid))
}

/// The declared relationship is exact: the join result holds only nodes of
/// the given map, every such node of the store, and nothing that is not a
/// node of the store.
pub proof fn lemma_join_exact(nodes: Seq<NodeModel>, uuid: Seq<char>)
    ensures
        forall|k: int|
            0 <= k < spec_nodes_of_map(nodes, uuid).len() ==> (#[trigger] spec_nodes_of_map(
                nodes,
                uuid,
            )[k]).roadmap_uuid == uuid,
        forall|k: int|
            0 <= k < spec_nodes_of_map(nodes, uuid).len() ==> nodes.contains(
                #[trigger] spec_nodes_of_map(nodes, uuid)[k],
            ),
        forall|j: int|
            0 <= j < nodes.len() && (#[trigger] nodes[j]).roadmap_uuid == uuid
                ==> spec_nodes_of_map(nodes, uuid).contains(nodes[j]),
{
    let joined = spec_nodes_of_map(nodes, uuid);
    assert forall|k: int| 0 <= k < joined.len() implies (#[trigger] joined[k]).roadmap_uuid == uuid
        && nodes.contains(joined[k]) by {
        Seq::lemma_filter_pred(nodes, in_roadmap_pred(uuid), k);
        assert(joined.contains(joined[k]));
        Seq::lemma_filter_contains_rev(nodes, in_roadmap_pred(uuid), joined[k]);
    }
    assert forall|j: int|
        0 <= j < nodes.len() && (#[trigger] nodes[j]).roadmap_uuid == uuid implies joined.contains(
        nodes[j],
    ) by {
        Seq::lemma_filter_contains(nodes, in_roadmap_pred(uuid), j);
    }
}

/// Some node earlier than `j` carries the uuid that node `j`'s
/// `parent_node` names.
pub open spec fn has_parent_link(nodes: Seq<NodeModel>, j: int) -> bool {
    exists|i: int| 0 <= i < j && (#[trigger] nodes[i]).uuid == nodes[j].parent_node->0
}

/// The index of such an earlier node (meaningful when [`has_parent_link`]
/// holds and uuids are distinct).
pub open spec fn parent_index(nodes: Seq<NodeModel>, j: int) -> int {
    choose|i: int| 0 <= i < j && (#[trigger] nodes[i]).uuid == nodes[j].parent_node->0
}

/// The ordered ancestor uuids of the node at `j`: its parent's uuid, then
/// that node's parent's uuid, and so on up to a node with no parent.
pub open spec fn spec_chain(nodes: Seq<NodeModel>, j: int) -> Seq<Seq<char>>
    decreases j,
{
    if 0 <= j < nodes.len() {
        match nodes[j].parent_node {
            Option::None => Seq::empty(),
            Option::Some(p) => if has_parent_link(nodes, j) {
                seq![p] + spec_chain(nodes, parent_index(nodes, j))
            } else {
                seq![p]
            },
        }
    } else {
        Seq::empty()
    }
}

/// Two positions carrying the same uuid are one position, when uuids are
/// pairwise distinct.
pub proof fn lemma_uuid_determines_index(nodes: Seq<NodeModel>, i: int, k: int)
    requires
        nodes_distinct(nodes),
        0 <= i < nodes.len(),
        0 <= k < nodes.len(),
        nodes[i].uuid == nodes[k].uuid,
    ensures
        i == k,
{
    if i < k {
        assert(nodes[i].uuid != nodes[k].uuid);
    } else if k < i {
        assert(nodes[k].uuid != nodes[i].uuid);
    }
}

/// Every uuid in a node's ancestor chain belongs to a node standing
/// strictly earlier in the sequence.
pub proof fn lemma_chain_from_earlier(nodes: Seq<NodeModel>, j: int)
    requires
        nodes_linked(nodes),
        0 <= j < nodes.len(),
    ensures
        forall|k: int|
            0 <= k < spec_chain(nodes, j).len() ==> exists|i: int|
                0 <= i < j && (#[trigger] nodes[i]).uuid == #[trigger] spec_chain(nodes, j)[k],
    decreases j,
{
    let chain = spec_chain(nodes, j);
    match nodes[j].parent_node {
        Option::None => {},
        Option::Some(p) => {
            assert(parent_ok(nodes, j));
            let w = choose|i: int|
                0 <= i < j && (#[trigger] nodes[i]).uuid == nodes[j].parent_node->0
                    && nodes[i].roadmap_uuid == nodes[j].roadmap_uuid;
            assert(nodes[w].uuid == p);
            assert(has_parent_link(nodes, j));
            let ci = parent_index(nodes, j);
            assert(0 <= ci < j && nodes[ci].uuid == p);
            lemma_chain_from_earlier(nodes, ci);
            assert forall|k: int| 0 <= k < chain.len() implies exists|i: int|
                0 <= i < j && (#[trigger] nodes[i]).uuid == #[trigger] chain[k] by {
                if k == 0 {
                    assert(nodes[ci].uuid == chain[0]);
                } else {
                    let e = choose|i: int|
                        0 <= i < ci && (#[trigger] nodes[i]).uuid == spec_chain(nodes, ci)[k - 1];
                    assert(nodes[e].uuid == chain[k]);
                }
            }
        },
    }
}

/// Acyclicity: no node is its own ancestor — a node's uuid never appears
/// in its own ancestor chain.
pub proof fn lemma_no_self_ancestor(nodes: Seq<NodeModel>, j: int)
    requires
        nodes_linked(nodes),
        0 <= j < nodes.len(),
    ensures
        !spec_chain(nodes, j).contains(nodes[j].uuid),
{
    lemma_chain_from_earlier(nodes, j);
    let chain = spec_chain(nodes, j);
    if chain.contains(nodes[j].uuid) {
        let k = choose|k: int| 0 <= k < chain.len() && chain[k] == nodes[j].uuid;
        let i = choose|i: int| 0 <= i < j && (#[trigger] nodes[i]).uuid == chain[k];
        lemma_uuid_determines_index(nodes, i, j);
    }
}

} // verus!
