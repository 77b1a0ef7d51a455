//! The conversion pipeline's import side: drives one pass over the element
//! stream, writing the table rows each element implies, feeding the dedup
//! indices, and synthesizing the user and changeset rows at the end.
use vstd::prelude::*;
use crate::element::{Element, ElementView, Node, NodeView, Way, WayView, Relation, RelationView};
use crate::error::OsmError;
use crate::import_rows::{
    tab,
    node_current_row, node_history_row, node_tag_row, current_node_tag_row, way_current_row,
    way_history_row, current_way_node_row, way_node_row, current_way_tag_row, way_tag_row,
    relation_current_row, relation_history_row, current_relation_member_row, relation_member_row,
    current_relation_tag_row, relation_tag_row, node_wf, way_wf, relation_wf,
};
use crate::index::{UserIndex, ChangesetUserIndex, user_entries_vec_ok, changeset_entries_vec_ok};
use crate::sql::{bool_char, null_chars};
use crate::text::{int_dec, push_i64};
use crate::time::{Timestamp, ts_micros_chars, push_sql_time, to_sql_time_micro};

verus! {

/// Spec-level state of one import pass: the rows written to each table and
/// the contents of the two dedup indices.
#[verifier::ext_equal]
pub ghost struct DumpView {
    pub current_nodes: Seq<Seq<char>>,
    pub nodes: Seq<Seq<char>>,
    pub node_tags: Seq<Seq<char>>,
    pub current_node_tags: Seq<Seq<char>>,
    pub current_ways: Seq<Seq<char>>,
    pub ways: Seq<Seq<char>>,
    pub current_way_nodes: Seq<Seq<char>>,
    pub way_nodes: Seq<Seq<char>>,
    pub current_way_tags: Seq<Seq<char>>,
    pub way_tags: Seq<Seq<char>>,
    pub current_relations: Seq<Seq<char>>,
    pub relations: Seq<Seq<char>>,
    pub current_relation_members: Seq<Seq<char>>,
    pub relation_members: Seq<Seq<char>>,
    pub current_relation_tags: Seq<Seq<char>>,
    pub relation_tags: Seq<Seq<char>>,
    pub changesets: Seq<Seq<char>>,
    pub changeset_tags: Seq<Seq<char>>,
    pub users: Seq<Seq<char>>,
    pub user_index: Map<i64, Seq<char>>,
    pub changeset_user_index: Map<i64, i64>,
}

/// The state before any element was processed.
pub open spec fn empty_dump() -> DumpView {
    DumpView {
        current_nodes: Seq::empty(),
        nodes: Seq::empty(),
        node_tags: Seq::empty(),
        current_node_tags: Seq::empty(),
        current_ways: Seq::empty(),
        ways: Seq::empty(),
        current_way_nodes: Seq::empty(),
        way_nodes: Seq::empty(),
        current_way_tags: Seq::empty(),
        way_tags: Seq::empty(),
        current_relations: Seq::empty(),
        relations: Seq::empty(),
        current_relation_members: Seq::empty(),
        relation_members: Seq::empty(),
        current_relation_tags: Seq::empty(),
        relation_tags: Seq::empty(),
        changesets: Seq::empty(),
        changeset_tags: Seq::empty(),
        users: Seq::empty(),
        user_index: Map::empty(),
        changeset_user_index: Map::empty(),
    }
}

/// The node_tags rows of one node, in tag order.
pub open spec fn node_tag_rows(n: NodeView) -> Seq<Seq<char>> {
    Seq::new(n.tags.len(), |i: int| node_tag_row(n, n.tags[i]))
}

/// The current_node_tags rows of one node, in tag order.
pub open spec fn current_node_tag_rows(n: NodeView) -> Seq<Seq<char>> {
    Seq::new(n.tags.len(), |i: int| current_node_tag_row(n, n.tags[i]))
}

/// What writing one node does: both node rows, the tag rows, and the two
/// index entries; the user index maps the node's user id to its name and
/// the changeset index maps its changeset to the user id, last write wins.
pub open spec fn apply_node(s: DumpView, n: NodeView) -> DumpView {
    DumpView {
        current_nodes: s.current_nodes.push(node_current_row(n)),
        nodes: s.nodes.push(node_history_row(n)),
        node_tags: s.node_tags + node_tag_rows(n),
        current_node_tags: s.current_node_tags + current_node_tag_rows(n),
        current_ways: s.current_ways,
        ways: s.ways,
        current_way_nodes: s.current_way_nodes,
        way_nodes: s.way_nodes,
        current_way_tags: s.current_way_tags,
        way_tags: s.way_tags,
        current_relations: s.current_relations,
        relations: s.relations,
        current_relation_members: s.current_relation_members,
        relation_members: s.relation_members,
        current_relation_tags: s.current_relation_tags,
        relation_tags: s.relation_tags,
        changesets: s.changesets,
        changeset_tags: s.changeset_tags,
        users: s.users,
        user_index: s.user_index.insert(n.uid, n.user),
        changeset_user_index: s.changeset_user_index.insert(n.changeset, n.uid),
    }
}

/// The current_way_nodes rows of one way, ordinals from one.
pub open spec fn current_way_node_rows(w: WayView) -> Seq<Seq<char>> {
    Seq::new(w.refs.len(), |i: int| current_way_node_row(w, i))
}

/// The way_nodes rows of one way, ordinals from one.
pub open spec fn way_node_rows(w: WayView) -> Seq<Seq<char>> {
    Seq::new(w.refs.len(), |i: int| way_node_row(w, i))
}

/// The current_way_tags rows of one way, in tag order.
pub open spec fn current_way_tag_rows(w: WayView) -> Seq<Seq<char>> {
    Seq::new(w.tags.len(), |i: int| current_way_tag_row(w, w.tags[i]))
}

/// The way_tags rows of one way, in tag order.
pub open spec fn way_tag_rows(w: WayView) -> Seq<Seq<char>> {
    Seq::new(w.tags.len(), |i: int| way_tag_row(w, w.tags[i]))
}

/// What writing one way does.
pub open spec fn apply_way(s: DumpView, w: WayView) -> DumpView {
    DumpView {
        current_nodes: s.current_nodes,
        nodes: s.nodes,
        node_tags: s.node_tags,
        current_node_tags: s.current_node_tags,
        current_ways: s.current_ways.push(way_current_row(w)),
        ways: s.ways.push(way_history_row(w)),
        current_way_nodes: s.current_way_nodes + current_way_node_rows(w),
        way_nodes: s.way_nodes + way_node_rows(w),
        current_way_tags: s.current_way_tags + current_way_tag_rows(w),
        way_tags: s.way_tags + way_tag_rows(w),
        current_relations: s.current_relations,
        relations: s.relations,
        current_relation_members: s.current_relation_members,
        relation_members: s.relation_members,
        current_relation_tags: s.current_relation_tags,
        relation_tags: s.relation_tags,
        changesets: s.changesets,
        changeset_tags: s.changeset_tags,
        users: s.users,
        user_index: s.user_index.insert(w.uid, w.user),
        changeset_user_index: s.changeset_user_index.insert(w.changeset, w.uid),
    }
}

/// The current_relation_members rows of one relation, ordinals from one.
pub open spec fn current_relation_member_rows(rl: RelationView) -> Seq<Seq<char>> {
    Seq::new(rl.members.len(), |i: int| current_relation_member_row(rl, i))
}

/// The relation_members rows of one relation, ordinals from one.
pub open spec fn relation_member_rows(rl: RelationView) -> Seq<Seq<char>> {
    Seq::new(rl.members.len(), |i: int| relation_member_row(rl, i))
}

/// The current_relation_tags rows of one relation, in tag order.
pub open spec fn current_relation_tag_rows(rl: RelationView) -> Seq<Seq<char>> {
    Seq::new(rl.tags.len(), |i: int| current_relation_tag_row(rl, rl.tags[i]))
}

/// The relation_tags rows of one relation, in tag order.
pub open spec fn relation_tag_rows(rl: RelationView) -> Seq<Seq<char>> {
    Seq::new(rl.tags.len(), |i: int| relation_tag_row(rl, rl.tags[i]))
}

/// What writing one relation does.
pub open spec fn apply_relation(s: DumpView, rl: RelationView) -> DumpView {
    DumpView {
        current_nodes: s.current_nodes,
        nodes: s.nodes,
        node_tags: s.node_tags,
        current_node_tags: s.current_node_tags,
        current_ways: s.current_ways,
        ways: s.ways,
        current_way_nodes: s.current_way_nodes,
        way_nodes: s.way_nodes,
        current_way_tags: s.current_way_tags,
        way_tags: s.way_tags,
        current_relations: s.current_relations.push(relation_current_row(rl)),
        relations: s.relations.push(relation_history_row(rl)),
        current_relation_members: s.current_relation_members + current_relation_member_rows(rl),
        relation_members: s.relation_members + relation_member_rows(rl),
        current_relation_tags: s.current_relation_tags + current_relation_tag_rows(rl),
        relation_tags: s.relation_tags + relation_tag_rows(rl),
        changesets: s.changesets,
        changeset_tags: s.changeset_tags,
        users: s.users,
        user_index: s.user_index.insert(rl.uid, rl.user),
        changeset_user_index: s.changeset_user_index.insert(rl.changeset, rl.uid),
    }
}

/// What writing one element does; the sentinel writes nothing.
pub open spec fn apply_element(s: DumpView, e: ElementView) -> DumpView {
    match e {
        ElementView::Node { node } => apply_node(s, node),
        ElementView::Way { way } => apply_way(s, way),
        ElementView::Relation { relation } => apply_relation(s, relation),
        ElementView::Sentinel => s,
    }
}

/// One full pass over an element stream, in order.
pub open spec fn import_fold(s: DumpView, elements: Seq<ElementView>) -> DumpView
    decreases elements.len(),
{
    if elements.len() == 0 {
        s
    } else {
        import_fold(apply_element(s, elements[0]), elements.drop_first())
    }
}

/// The table row buffers of one import pass, with the two dedup indices.
pub struct TableDataWriters {
    pub current_nodes: Vec<String>,
    pub nodes: Vec<String>,
    pub node_tags: Vec<String>,
    pub current_node_tags: Vec<String>,
    pub current_ways: Vec<String>,
    pub ways: Vec<String>,
    pub current_way_nodes: Vec<String>,
    pub way_nodes: Vec<String>,
    pub current_way_tags: Vec<String>,
    pub way_tags: Vec<String>,
    pub current_relations: Vec<String>,
    pub relations: Vec<String>,
    pub current_relation_members: Vec<String>,
    pub relation_members: Vec<String>,
    pub current_relation_tags: Vec<String>,
    pub relation_tags: Vec<String>,
    pub changesets: Vec<String>,
    pub changeset_tags: Vec<String>,
    pub users: Vec<String>,
    pub user_index: UserIndex,
    pub changeset_user_index: ChangesetUserIndex,
}

impl View for TableDataWriters {
    type V = DumpView;

    open spec fn view(&self) -> DumpView {
        DumpView {
            current_nodes: self.current_nodes.deep_view(),
            nodes: self.nodes.deep_view(),
            node_tags: self.node_tags.deep_view(),
            current_node_tags: self.current_node_tags.deep_view(),
            current_ways: self.current_ways.deep_view(),
            ways: self.ways.deep_view(),
            current_way_nodes: self.current_way_nodes.deep_view(),
            way_nodes: self.way_nodes.deep_view(),
            current_way_tags: self.current_way_tags.deep_view(),
            way_tags: self.way_tags.deep_view(),
            current_relations: self.current_relations.deep_view(),
            relations: self.relations.deep_view(),
            current_relation_members: self.current_relation_members.deep_view(),
            relation_members: self.relation_members.deep_view(),
            current_relation_tags: self.current_relation_tags.deep_view(),
            relation_tags: self.relation_tags.deep_view(),
            changesets: self.changesets.deep_view(),
            changeset_tags: self.changeset_tags.deep_view(),
            users: self.users.deep_view(),
            user_index: self.user_index@,
            changeset_user_index: self.changeset_user_index@,
        }
    }
}

/// The table rows of two states agree; only the indices may differ.
pub open spec fn same_tables(a: DumpView, b: DumpView) -> bool {
    &&& a.current_nodes == b.current_nodes
    &&& a.nodes == b.nodes
    &&& a.node_tags == b.node_tags
    &&& a.current_node_tags == b.current_node_tags
    &&& a.current_ways == b.current_ways
    &&& a.ways == b.ways
    &&& a.current_way_nodes == b.current_way_nodes
    &&& a.way_nodes == b.way_nodes
    &&& a.current_way_tags == b.current_way_tags
    &&& a.way_tags == b.way_tags
    &&& a.current_relations == b.current_relations
    &&& a.relations == b.relations
    &&& a.current_relation_members == b.current_relation_members
    &&& a.relation_members == b.relation_members
    &&& a.current_relation_tags == b.current_relation_tags
    &&& a.relation_tags == b.relation_tags
    &&& a.changesets == b.changesets
    &&& a.changeset_tags == b.changeset_tags
    &&& a.users == b.users
}

impl TableDataWriters {
    /// Empty buffers and empty indices.
    pub fn new() -> (r: Result<TableDataWriters, OsmError>)
        ensures
            r matches Ok(w) ==> w@ =~~= empty_dump(),
    {
        let user_index = UserIndex::new()?;
        let changeset_user_index = ChangesetUserIndex::new()?;
        let w = TableDataWriters {
            current_nodes: Vec::new(),
            nodes: Vec::new(),
            node_tags: Vec::new(),
            current_node_tags: Vec::new(),
            current_ways: Vec::new(),
            ways: Vec::new(),
            current_way_nodes: Vec::new(),
            way_nodes: Vec::new(),
            current_way_tags: Vec::new(),
            way_tags: Vec::new(),
            current_relations: Vec::new(),
            relations: Vec::new(),
            current_relation_members: Vec::new(),
            relation_members: Vec::new(),
            current_relation_tags: Vec::new(),
            relation_tags: Vec::new(),
            changesets: Vec::new(),
            changeset_tags: Vec::new(),
            users: Vec::new(),
            user_index,
            changeset_user_index,
        };
        proof {
            assert(w@.current_nodes =~= Seq::<Seq<char>>::empty());
            assert(w@.nodes =~= Seq::<Seq<char>>::empty());
            assert(w@.node_tags =~= Seq::<Seq<char>>::empty());
            assert(w@.current_node_tags =~= Seq::<Seq<char>>::empty());
            assert(w@.current_ways =~= Seq::<Seq<char>>::empty());
            assert(w@.ways =~= Seq::<Seq<char>>::empty());
            assert(w@.current_way_nodes =~= Seq::<Seq<char>>::empty());
            assert(w@.way_nodes =~= Seq::<Seq<char>>::empty());
            assert(w@.current_way_tags =~= Seq::<Seq<char>>::empty());
            assert(w@.way_tags =~= Seq::<Seq<char>>::empty());
            assert(w@.current_relations =~= Seq::<Seq<char>>::empty());
            assert(w@.relations =~= Seq::<Seq<char>>::empty());
            assert(w@.current_relation_members =~= Seq::<Seq<char>>::empty());
            assert(w@.relation_members =~= Seq::<Seq<char>>::empty());
            assert(w@.current_relation_tags =~= Seq::<Seq<char>>::empty());
            assert(w@.relation_tags =~= Seq::<Seq<char>>::empty());
            assert(w@.changesets =~= Seq::<Seq<char>>::empty());
            assert(w@.changeset_tags =~= Seq::<Seq<char>>::empty());
            assert(w@.users =~= Seq::<Seq<char>>::empty());
        }
        Ok(w)
    }
}

fn build_node_tag_rows(n: &Node) -> (r: Vec<String>)
    ensures
        r.deep_view() == node_tag_rows(n@),
{
    let mut out: Vec<String> = Vec::new();
    let mut i: usize = 0;
    proof {
        assert(out.deep_view() =~= node_tag_rows(n@).take(0));
    }
    while i < n.tags.len()
        invariant
            0 <= i <= n.tags@.len(),
            out.deep_view() =~= node_tag_rows(n@).take(i as int),
        decreases n.tags@.len() - i,
    {
        let ghost before = out.deep_view();
        out.push(crate::import_rows::build_node_tag_row(n, i));
        proof {
            assert(out.deep_view() =~= before.push(node_tag_rows(n@)[i as int]));
            assert(node_tag_rows(n@).take(i + 1) =~= node_tag_rows(n@).take(i as int).push(
                node_tag_rows(n@)[i as int],
            ));
        }
        i = i + 1;
        proof {
            assert(out.deep_view() =~= node_tag_rows(n@).take(i as int));
        }
    }
    proof {
        assert(node_tag_rows(n@).take(n.tags@.len() as int) =~= node_tag_rows(n@));
    }
    out
}

fn build_current_node_tag_rows(n: &Node) -> (r: Vec<String>)
    ensures
        r.deep_view() == current_node_tag_rows(n@),
{
    let mut out: Vec<String> = Vec::new();
    let mut i: usize = 0;
    proof {
        assert(out.deep_view() =~= current_node_tag_rows(n@).take(0));
    }
    while i < n.tags.len()
        invariant
            0 <= i <= n.tags@.len(),
            out.deep_view() =~= current_node_tag_rows(n@).take(i as int),
        decreases n.tags@.len() - i,
    {
        let ghost before = out.deep_view();
        out.push(crate::import_rows::build_current_node_tag_row(n, i));
        proof {
            assert(out.deep_view() =~= before.push(current_node_tag_rows(n@)[i as int]));
            assert(current_node_tag_rows(n@).take(i + 1) =~= current_node_tag_rows(n@).take(i as int).push(
                current_node_tag_rows(n@)[i as int],
            ));
        }
        i = i + 1;
        proof {
            assert(out.deep_view() =~= current_node_tag_rows(n@).take(i as int));
        }
    }
    proof {
        assert(current_node_tag_rows(n@).take(n.tags@.len() as int) =~= current_node_tag_rows(n@));
    }
    out
}

/// Writes the two node rows and the node's tag rows, and records the node's
/// user and changeset in the dedup indices, last write winning. On an index
/// failure no table row is written.
pub fn write_node(writers: &mut TableDataWriters, n: &Node) -> (r: Result<(), OsmError>)
    requires
        node_wf(n@),
    ensures
        r is Ok ==> final(writers)@ == apply_node(old(writers)@, n@),
        r is Err ==> same_tables(old(writers)@, final(writers)@),
{
    let row_cur = crate::import_rows::build_node_current_row(n);
    let row_hist = crate::import_rows::build_node_history_row(n);
    let mut nt = build_node_tag_rows(n);
    let mut cnt = build_current_node_tag_rows(n);
    match writers.user_index.insert(n.uid, n.user.clone()) {
        Ok(_) => {},
        Err(e) => {
            return Err(e);
        },
    }
    match writers.changeset_user_index.insert(n.changeset, n.uid) {
        Ok(_) => {},
        Err(e) => {
            return Err(e);
        },
    }
    writers.current_nodes.push(row_cur);
    writers.nodes.push(row_hist);
    writers.node_tags.append(&mut nt);
    writers.current_node_tags.append(&mut cnt);
    proof {
        assert(writers@.current_nodes =~= old(writers)@.current_nodes.push(node_current_row(n@)));
        assert(writers@.nodes =~= old(writers)@.nodes.push(node_history_row(n@)));
        assert(writers@.node_tags =~= old(writers)@.node_tags + node_tag_rows(n@));
        assert(writers@.current_node_tags =~= old(writers)@.current_node_tags
            + current_node_tag_rows(n@));
        assert(writers@ =~~= apply_node(old(writers)@, n@));
    }
    Ok(())
}

fn build_way_node_rows(w: &Way) -> (r: Vec<String>)
    ensures
        r.deep_view() == way_node_rows(w@),
{
    let mut out: Vec<String> = Vec::new();
    let mut i: usize = 0;
    proof {
        assert(out.deep_view() =~= way_node_rows(w@).take(0));
    }
    while i < w.refs.len()
        invariant
            0 <= i <= w.refs@.len(),
            out.deep_view() =~= way_node_rows(w@).take(i as int),
        decreases w.refs@.len() - i,
    {
        let ghost before = out.deep_view();
        out.push(crate::import_rows::build_way_node_row(w, i));
        proof {
            assert(out.deep_view() =~= before.push(way_node_rows(w@)[i as int]));
            assert(way_node_rows(w@).take(i + 1) =~= way_node_rows(w@).take(i as int).push(
                way_node_rows(w@)[i as int],
            ));
        }
        i = i + 1;
        proof {
            assert(out.deep_view() =~= way_node_rows(w@).take(i as int));
        }
    }
    proof {
        assert(way_node_rows(w@).take(w.refs@.len() as int) =~= way_node_rows(w@));
    }
    out
}

fn build_current_way_node_rows(w: &Way) -> (r: Vec<String>)
    ensures
        r.deep_view() == current_way_node_rows(w@),
{
    let mut out: Vec<String> = Vec::new();
    let mut i: usize = 0;
    proof {
        assert(out.deep_view() =~= current_way_node_rows(w@).take(0));
    }
    while i < w.refs.len()
        invariant
            0 <= i <= w.refs@.len(),
            out.deep_view() =~= current_way_node_rows(w@).take(i as int),
        decreases w.refs@.len() - i,
    {
        let ghost before = out.deep_view();
        out.push(crate::import_rows::build_current_way_node_row(w, i));
        proof {
            assert(out.deep_view() =~= before.push(current_way_node_rows(w@)[i as int]));
            assert(current_way_node_rows(w@).take(i + 1) =~= current_way_node_rows(w@).take(i as int).push(
                current_way_node_rows(w@)[i as int],
            ));
        }
        i = i + 1;
        proof {
            assert(out.deep_view() =~= current_way_node_rows(w@).take(i as int));
        }
    }
    proof {
        assert(current_way_node_rows(w@).take(w.refs@.len() as int) =~= current_way_node_rows(w@));
    }
    out
}

fn build_way_tag_rows(w: &Way) -> (r: Vec<String>)
    ensures
        r.deep_view() == way_tag_rows(w@),
{
    let mut out: Vec<String> = Vec::new();
    let mut i: usize = 0;
    proof {
        assert(out.deep_view() =~= way_tag_rows(w@).take(0));
    }
    while i < w.tags.len()
        invariant
            0 <= i <= w.tags@.len(),
            out.deep_view() =~= way_tag_rows(w@).take(i as int),
        decreases w.tags@.len() - i,
    {
        let ghost before = out.deep_view();
        out.push(crate::import_rows::build_way_tag_row(w, i));
        proof {
            assert(out.deep_view() =~= before.push(way_tag_rows(w@)[i as int]));
            assert(way_tag_rows(w@).take(i + 1) =~= way_tag_rows(w@).take(i as int).push(
                way_tag_rows(w@)[i as int],
            ));
        }
        i = i + 1;
        proof {
            assert(out.deep_view() =~= way_tag_rows(w@).take(i as int));
        }
    }
    proof {
        assert(way_tag_rows(w@).take(w.tags@.len() as int) =~= way_tag_rows(w@));
    }
    out
}

fn build_current_way_tag_rows(w: &Way) -> (r: Vec<String>)
    ensures
        r.deep_view() == current_way_tag_rows(w@),
{
    let mut out: Vec<String> = Vec::new();
    let mut i: usize = 0;
    proof {
        assert(out.deep_view() =~= current_way_tag_rows(w@).take(0));
    }
    while i < w.tags.len()
        invariant
            0 <= i <= w.tags@.len(),
            out.deep_view() =~= current_way_tag_rows(w@).take(i as int),
        decreases w.tags@.len() - i,
    {
        let ghost before = out.deep_view();
        out.push(crate::import_rows::build_current_way_tag_row(w, i));
        proof {
            assert(out.deep_view() =~= before.push(current_way_tag_rows(w@)[i as int]));
            assert(current_way_tag_rows(w@).take(i + 1) =~= current_way_tag_rows(w@).take(i as int).push(
                current_way_tag_rows(w@)[i as int],
            ));
        }
        i = i + 1;
        proof {
            assert(out.deep_view() =~= current_way_tag_rows(w@).take(i as int));
        }
    }
    proof {
        assert(current_way_tag_rows(w@).take(w.tags@.len() as int) =~= current_way_tag_rows(w@));
    }
    out
}

/// Writes the two way rows, the way's node-reference rows and tag rows, and
/// records its user and changeset in the dedup indices.
pub fn write_way(writers: &mut TableDataWriters, w: &Way) -> (r: Result<(), OsmError>)
    requires
        way_wf(w@),
    ensures
        r is Ok ==> final(writers)@ == apply_way(old(writers)@, w@),
        r is Err ==> same_tables(old(writers)@, final(writers)@),
{
    let row_cur = crate::import_rows::build_way_current_row(w);
    let row_hist = crate::import_rows::build_way_history_row(w);
    let mut cwn = build_current_way_node_rows(w);
    let mut wn = build_way_node_rows(w);
    let mut cwt = build_current_way_tag_rows(w);
    let mut wt = build_way_tag_rows(w);
    match writers.user_index.insert(w.uid, w.user.clone()) {
        Ok(_) => {},
        Err(e) => {
            return Err(e);
        },
    }
    match writers.changeset_user_index.insert(w.changeset, w.uid) {
        Ok(_) => {},
        Err(e) => {
            return Err(e);
        },
    }
    writers.current_ways.push(row_cur);
    writers.ways.push(row_hist);
    writers.current_way_nodes.append(&mut cwn);
    writers.way_nodes.append(&mut wn);
    writers.current_way_tags.append(&mut cwt);
    writers.way_tags.append(&mut wt);
    proof {
        assert(writers@.current_ways =~= old(writers)@.current_ways.push(way_current_row(w@)));
        assert(writers@.ways =~= old(writers)@.ways.push(way_history_row(w@)));
        assert(writers@.current_way_nodes =~= old(writers)@.current_way_nodes
            + current_way_node_rows(w@));
        assert(writers@.way_nodes =~= old(writers)@.way_nodes + way_node_rows(w@));
        assert(writers@.current_way_tags =~= old(writers)@.current_way_tags
            + current_way_tag_rows(w@));
        assert(writers@.way_tags =~= old(writers)@.way_tags + way_tag_rows(w@));
        assert(writers@ =~~= apply_way(old(writers)@, w@));
    }
    Ok(())
}

fn build_relation_member_rows(rl: &Relation) -> (r: Vec<String>)
    ensures
        r.deep_view() == relation_member_rows(rl@),
{
    let mut out: Vec<String> = Vec::new();
    let mut i: usize = 0;
    proof {
        assert(out.deep_view() =~= relation_member_rows(rl@).take(0));
    }
    while i < rl.members.len()
        invariant
            0 <= i <= rl.members@.len(),
            out.deep_view() =~= relation_member_rows(rl@).take(i as int),
        decreases rl.members@.len() - i,
    {
        let ghost before = out.deep_view();
        out.push(crate::import_rows::build_relation_member_row(rl, i));
        proof {
            assert(out.deep_view() =~= before.push(relation_member_rows(rl@)[i as int]));
            assert(relation_member_rows(rl@).take(i + 1) =~= relation_member_rows(rl@).take(i as int).push(
                relation_member_rows(rl@)[i as int],
            ));
        }
        i = i + 1;
        proof {
            assert(out.deep_view() =~= relation_member_rows(rl@).take(i as int));
        }
    }
    proof {
        assert(relation_member_rows(rl@).take(rl.members@.len() as int) =~= relation_member_rows(
            rl@,
        ));
    }
    out
}

fn build_current_relation_member_rows(rl: &Relation) -> (r: Vec<String>)
    ensures
        r.deep_view() == current_relation_member_rows(rl@),
{
    let mut out: Vec<String> = Vec::new();
    let mut i: usize = 0;
    proof {
        assert(out.deep_view() =~= current_relation_member_rows(rl@).take(0));
    }
    while i < rl.members.len()
        invariant
            0 <= i <= rl.members@.len(),
            out.deep_view() =~= current_relation_member_rows(rl@).take(i as int),
        decreases rl.members@.len() - i,
    {
        let ghost before = out.deep_view();
        out.push(crate::import_rows::build_current_relation_member_row(rl, i));
        proof {
            assert(out.deep_view() =~= before.push(current_relation_member_rows(rl@)[i as int]));
            assert(current_relation_member_rows(rl@).take(i + 1) =~= current_relation_member_rows(rl@).take(i as int).push(
                current_relation_member_rows(rl@)[i as int],
            ));
        }
        i = i + 1;
        proof {
            assert(out.deep_view() =~= current_relation_member_rows(rl@).take(i as int));
        }
    }
    proof {
        assert(current_relation_member_rows(rl@).take(rl.members@.len() as int)
            =~= current_relation_member_rows(rl@));
    }
    out
}

fn build_relation_tag_rows(rl: &Relation) -> (r: Vec<String>)
    ensures
        r.deep_view() == relation_tag_rows(rl@),
{
    let mut out: Vec<String> = Vec::new();
    let mut i: usize = 0;
    proof {
        assert(out.deep_view() =~= relation_tag_rows(rl@).take(0));
    }
    while i < rl.tags.len()
        invariant
            0 <= i <= rl.tags@.len(),
            out.deep_view() =~= relation_tag_rows(rl@).take(i as int),
        decreases rl.tags@.len() - i,
    {
        let ghost before = out.deep_view();
        out.push(crate::import_rows::build_relation_tag_row(rl, i));
        proof {
            assert(out.deep_view() =~= before.push(relation_tag_rows(rl@)[i as int]));
            assert(relation_tag_rows(rl@).take(i + 1) =~= relation_tag_rows(rl@).take(i as int).push(
                relation_tag_rows(rl@)[i as int],
            ));
        }
        i = i + 1;
        proof {
            assert(out.deep_view() =~= relation_tag_rows(rl@).take(i as int));
        }
    }
    proof {
        assert(relation_tag_rows(rl@).take(rl.tags@.len() as int) =~= relation_tag_rows(rl@));
    }
    out
}

fn build_current_relation_tag_rows(rl: &Relation) -> (r: Vec<String>)
    ensures
        r.deep_view() == current_relation_tag_rows(rl@),
{
    let mut out: Vec<String> = Vec::new();
    let mut i: usize = 0;
    proof {
        assert(out.deep_view() =~= current_relation_tag_rows(rl@).take(0));
    }
    while i < rl.tags.len()
        invariant
            0 <= i <= rl.tags@.len(),
            out.deep_view() =~= current_relation_tag_rows(rl@).take(i as int),
        decreases rl.tags@.len() - i,
    {
        let ghost before = out.deep_view();
        out.push(crate::import_rows::build_current_relation_tag_row(rl, i));
        proof {
            assert(out.deep_view() =~= before.push(current_relation_tag_rows(rl@)[i as int]));
            assert(current_relation_tag_rows(rl@).take(i + 1) =~= current_relation_tag_rows(rl@).take(i as int).push(
                current_relation_tag_rows(rl@)[i as int],
            ));
        }
        i = i + 1;
        proof {
            assert(out.deep_view() =~= current_relation_tag_rows(rl@).take(i as int));
        }
    }
    proof {
        assert(current_relation_tag_rows(rl@).take(rl.tags@.len() as int)
            =~= current_relation_tag_rows(rl@));
    }
    out
}

/// Writes the two relation rows, the member rows and tag rows, and records
/// the relation's user and changeset in the dedup indices.
pub fn write_relation(writers: &mut TableDataWriters, rl: &Relation) -> (r: Result<(), OsmError>)
    requires
        relation_wf(rl@),
    ensures
        r is Ok ==> final(writers)@ == apply_relation(old(writers)@, rl@),
        r is Err ==> same_tables(old(writers)@, final(writers)@),
{
    let row_cur = crate::import_rows::build_relation_current_row(rl);
    let row_hist = crate::import_rows::build_relation_history_row(rl);
    let mut crm = build_current_relation_member_rows(rl);
    let mut rm = build_relation_member_rows(rl);
    let mut crt = build_current_relation_tag_rows(rl);
    let mut rt = build_relation_tag_rows(rl);
    match writers.user_index.insert(rl.uid, rl.user.clone()) {
        Ok(_) => {},
        Err(e) => {
            return Err(e);
        },
    }
    match writers.changeset_user_index.insert(rl.changeset, rl.uid) {
        Ok(_) => {},
        Err(e) => {
            return Err(e);
        },
    }
    writers.current_relations.push(row_cur);
    writers.relations.push(row_hist);
    writers.current_relation_members.append(&mut crm);
    writers.relation_members.append(&mut rm);
    writers.current_relation_tags.append(&mut crt);
    writers.relation_tags.append(&mut rt);
    proof {
        assert(writers@.current_relations =~= old(writers)@.current_relations.push(
            relation_current_row(rl@),
        ));
        assert(writers@.relations =~= old(writers)@.relations.push(relation_history_row(rl@)));
        assert(writers@.current_relation_members =~= old(writers)@.current_relation_members
            + current_relation_member_rows(rl@));
        assert(writers@.relation_members =~= old(writers)@.relation_members + relation_member_rows(
            rl@,
        ));
        assert(writers@.current_relation_tags =~= old(writers)@.current_relation_tags
            + current_relation_tag_rows(rl@));
        assert(writers@.relation_tags =~= old(writers)@.relation_tags + relation_tag_rows(rl@));
        assert(writers@ =~~= apply_relation(old(writers)@, rl@));
    }
    Ok(())
}

/// One changeset_tags row naming the producing tool.
pub open spec fn changeset_tag_row_created(cid: i64) -> Seq<char> {
    int_dec(cid as int) + tab() + "created_by"@ + tab() + "osm-admin"@
}

/// One changeset_tags row marking the changeset as replicated.
pub open spec fn changeset_tag_row_replication(cid: i64) -> Seq<char> {
    int_dec(cid as int) + tab() + "replication"@ + tab() + "true"@
}

/// The two changeset_tags rows of each drained entry, in entry order.
pub open spec fn changeset_tag_rows_of(es: Seq<(i64, i64)>) -> Seq<Seq<char>>
    decreases es.len(),
{
    if es.len() == 0 {
        Seq::empty()
    } else {
        changeset_tag_rows_of(es.drop_last()) + seq![
            changeset_tag_row_created(es.last().0),
            changeset_tag_row_replication(es.last().0),
        ]
    }
}

/// The synthesized changesets row of one drained entry: the whole world as
/// its bounding box, the pass's time as both timestamps, no changes.
pub open spec fn changeset_synth_row(cid: i64, uid: i64, now: Timestamp) -> Seq<char> {
    int_dec(cid as int) + tab() + int_dec(uid as int) + tab() + ts_micros_chars(now) + tab()
        + int_dec(-900000000) + tab() + int_dec(900000000) + tab() + int_dec(-1800000000) + tab()
        + int_dec(1800000000) + tab() + ts_micros_chars(now) + tab() + int_dec(0)
}

/// The changesets rows of the drained entries, in entry order.
pub open spec fn changeset_rows_of(es: Seq<(i64, i64)>, now: Timestamp) -> Seq<Seq<char>> {
    Seq::new(es.len(), |i: int| changeset_synth_row(es[i].0, es[i].1, now))
}

/// What draining the changeset index appends.
pub open spec fn apply_changeset_rows(s: DumpView, es: Seq<(i64, i64)>, now: Timestamp) -> DumpView {
    DumpView {
        changeset_tags: s.changeset_tags + changeset_tag_rows_of(es),
        changesets: s.changesets + changeset_rows_of(es, now),
        ..s
    }
}

fn build_changeset_tag_created(cid: i64) -> (r: String)
    ensures
        r@ == changeset_tag_row_created(cid),
{
    proof {
        reveal_strlit("created_by");
        reveal_strlit("osm-admin");
    }
    let mut s = String::new();
    push_i64(&mut s, cid);
    crate::import_rows::push_tab(&mut s);
    s.append("created_by");
    crate::import_rows::push_tab(&mut s);
    s.append("osm-admin");
    assert(s@ =~= changeset_tag_row_created(cid));
    s
}

fn build_changeset_tag_replication(cid: i64) -> (r: String)
    ensures
        r@ == changeset_tag_row_replication(cid),
{
    proof {
        reveal_strlit("replication");
        reveal_strlit("true");
    }
    let mut s = String::new();
    push_i64(&mut s, cid);
    crate::import_rows::push_tab(&mut s);
    s.append("replication");
    crate::import_rows::push_tab(&mut s);
    s.append("true");
    assert(s@ =~= changeset_tag_row_replication(cid));
    s
}

fn build_changeset_synth_row(cid: i64, uid: i64, now: &Timestamp) -> (r: String)
    requires
        now.valid(),
    ensures
        r@ == changeset_synth_row(cid, uid, *now),
{
    let mut s = String::new();
    push_i64(&mut s, cid);
    crate::import_rows::push_tab(&mut s);
    push_i64(&mut s, uid);
    crate::import_rows::push_tab(&mut s);
    let t = to_sql_time_micro(now);
    s.append(t.as_str());
    crate::import_rows::push_tab(&mut s);
    push_i64(&mut s, -900000000);
    crate::import_rows::push_tab(&mut s);
    push_i64(&mut s, 900000000);
    crate::import_rows::push_tab(&mut s);
    push_i64(&mut s, -1800000000);
    crate::import_rows::push_tab(&mut s);
    push_i64(&mut s, 1800000000);
    crate::import_rows::push_tab(&mut s);
    s.append(t.as_str());
    crate::import_rows::push_tab(&mut s);
    push_i64(&mut s, 0);
    assert(s@ =~= changeset_synth_row(cid, uid, *now));
    s
}

/// Drains the changeset index into the changesets and changeset_tags
/// buffers, one synthesized changeset and two tag rows per distinct
/// changeset id, in ascending id order.
#[verifier::loop_isolation(false)]
pub fn write_changesets(writers: &mut TableDataWriters, now: &Timestamp) -> (r: Result<
    (),
    OsmError,
>)
    requires
        now.valid(),
    ensures
        r is Ok ==> exists|es: Seq<(i64, i64)>|
            {
                &&& #[trigger] changeset_entries_vec_ok(
                    old(writers)@.changeset_user_index,
                    es,
                )
                &&& final(writers)@ == apply_changeset_rows(old(writers)@, es, *now)
            },
        r is Err ==> same_tables(old(writers)@, final(writers)@),
{
    let entries = match writers.changeset_user_index.entries() {
        Ok(es) => es,
        Err(e) => {
            return Err(e);
        },
    };
    let mut tag_rows: Vec<String> = Vec::new();
    let mut cs_rows: Vec<String> = Vec::new();
    let mut i: usize = 0;
    proof {
        assert(tag_rows.deep_view() =~= changeset_tag_rows_of(entries@.take(0)));
        assert(cs_rows.deep_view() =~= changeset_rows_of(entries@.take(0), *now));
    }
    while i < entries.len()
        invariant
            0 <= i <= entries@.len(),
            tag_rows.deep_view() == changeset_tag_rows_of(entries@.take(i as int)),
            cs_rows.deep_view() == changeset_rows_of(entries@.take(i as int), *now),
        decreases entries@.len() - i,
    {
        let (cid, uid) = entries[i];
        let ghost tags_before = tag_rows.deep_view();
        let ghost cs_before = cs_rows.deep_view();
        tag_rows.push(build_changeset_tag_created(cid));
        tag_rows.push(build_changeset_tag_replication(cid));
        cs_rows.push(build_changeset_synth_row(cid, uid, now));
        proof {
            assert(entries@.take(i + 1).drop_last() =~= entries@.take(i as int));
            assert(entries@.take(i + 1).last() == entries@[i as int]);
            assert(tag_rows.deep_view() =~= tags_before + seq![
                changeset_tag_row_created(cid),
                changeset_tag_row_replication(cid),
            ]);
            assert(tag_rows.deep_view() =~= changeset_tag_rows_of(entries@.take(i + 1)));
            assert(cs_rows.deep_view() =~= cs_before.push(changeset_synth_row(cid, uid, *now)));
            assert(changeset_rows_of(entries@.take(i + 1), *now) =~= changeset_rows_of(
                entries@.take(i as int),
                *now,
            ).push(changeset_synth_row(entries@[i as int].0, entries@[i as int].1, *now)));
        }
        i = i + 1;
    }
    proof {
        assert(entries@.take(entries@.len() as int) =~= entries@);
    }
    writers.changeset_tags.append(&mut tag_rows);
    writers.changesets.append(&mut cs_rows);
    proof {
        assert(writers@.changeset_tags =~= old(writers)@.changeset_tags + changeset_tag_rows_of(
            entries@,
        ));
        assert(writers@.changesets =~= old(writers)@.changesets + changeset_rows_of(
            entries@,
            *now,
        ));
        assert(writers@ =~~= apply_changeset_rows(old(writers)@, entries@, *now));
    }
    Ok(())
}

/// The synthesized users row of one drained entry: a placeholder account
/// carrying the user id and display name the elements mentioned.
pub open spec fn user_synth_row(uid: i64, name: Seq<char>, now: Timestamp) -> Seq<char> {
    "osm-admin-user-"@ + int_dec(uid as int) + "@example.com"@ + tab() + int_dec(uid as int)
        + tab() + "00000000000000000000000000000000"@ + tab() + ts_micros_chars(now) + tab() + name
        + tab() + seq![bool_char(true)] + tab() + name + tab() + int_dec(0) + tab() + int_dec(0)
        + tab() + int_dec(3) + tab() + "00000000"@ + tab() + seq![bool_char(false)] + tab()
        + null_chars() + tab() + null_chars() + tab() + null_chars() + tab() + "pending"@ + tab()
        + null_chars() + tab() + seq![bool_char(false)] + tab() + null_chars() + tab()
        + null_chars() + tab() + seq![bool_char(false)] + tab() + "markdown"@ + tab() + int_dec(0)
        + tab() + int_dec(0) + tab() + int_dec(0) + tab() + seq![bool_char(false)] + tab()
        + null_chars() + tab() + null_chars() + tab() + null_chars()
}

/// The users rows of the drained entries, in entry order.
pub open spec fn user_rows_of(es: Seq<(i64, String)>, now: Timestamp) -> Seq<Seq<char>> {
    Seq::new(es.len(), |i: int| user_synth_row(es[i].0, es[i].1@, now))
}

/// What draining the user index appends.
pub open spec fn apply_user_rows(s: DumpView, es: Seq<(i64, String)>, now: Timestamp) -> DumpView {
    DumpView { users: s.users + user_rows_of(es, now), ..s }
}

fn build_user_synth_row(uid: i64, name: &String, now: &Timestamp) -> (r: String)
    requires
        now.valid(),
    ensures
        r@ == user_synth_row(uid, name@, *now),
{
    proof {
        reveal_strlit("osm-admin-user-");
        reveal_strlit("@example.com");
        reveal_strlit("00000000000000000000000000000000");
        reveal_strlit("00000000");
        reveal_strlit("pending");
        reveal_strlit("markdown");
        reveal_strlit("t");
        reveal_strlit("f");
    }
    let mut s = String::new();
    s.append("osm-admin-user-");
    push_i64(&mut s, uid);
    s.append("@example.com");
    crate::import_rows::push_tab(&mut s);
    push_i64(&mut s, uid);
    crate::import_rows::push_tab(&mut s);
    s.append("00000000000000000000000000000000");
    crate::import_rows::push_tab(&mut s);
    let t = to_sql_time_micro(now);
    s.append(t.as_str());
    crate::import_rows::push_tab(&mut s);
    s.append(name.as_str());
    crate::import_rows::push_tab(&mut s);
    s.append("t");
    crate::import_rows::push_tab(&mut s);
    s.append(name.as_str());
    crate::import_rows::push_tab(&mut s);
    push_i64(&mut s, 0);
    crate::import_rows::push_tab(&mut s);
    push_i64(&mut s, 0);
    crate::import_rows::push_tab(&mut s);
    push_i64(&mut s, 3);
    crate::import_rows::push_tab(&mut s);
    s.append("00000000");
    crate::import_rows::push_tab(&mut s);
    s.append("f");
    crate::import_rows::push_tab(&mut s);
    crate::sql::push_null(&mut s);
    crate::import_rows::push_tab(&mut s);
    crate::sql::push_null(&mut s);
    crate::import_rows::push_tab(&mut s);
    crate::sql::push_null(&mut s);
    crate::import_rows::push_tab(&mut s);
    s.append("pending");
    crate::import_rows::push_tab(&mut s);
    crate::sql::push_null(&mut s);
    crate::import_rows::push_tab(&mut s);
    s.append("f");
    crate::import_rows::push_tab(&mut s);
    crate::sql::push_null(&mut s);
    crate::import_rows::push_tab(&mut s);
    crate::sql::push_null(&mut s);
    crate::import_rows::push_tab(&mut s);
    s.append("f");
    crate::import_rows::push_tab(&mut s);
    s.append("markdown");
    crate::import_rows::push_tab(&mut s);
    push_i64(&mut s, 0);
    crate::import_rows::push_tab(&mut s);
    push_i64(&mut s, 0);
    crate::import_rows::push_tab(&mut s);
    push_i64(&mut s, 0);
    crate::import_rows::push_tab(&mut s);
    s.append("f");
    crate::import_rows::push_tab(&mut s);
    crate::sql::push_null(&mut s);
    crate::import_rows::push_tab(&mut s);
    crate::sql::push_null(&mut s);
    crate::import_rows::push_tab(&mut s);
    crate::sql::push_null(&mut s);
    assert(s@ =~= user_synth_row(uid, name@, *now));
    s
}

/// Drains the user index into the users buffer, one synthesized user row
/// per distinct user id, in ascending id order.
#[verifier::loop_isolation(false)]
pub fn write_users(writers: &mut TableDataWriters, now: &Timestamp) -> (r: Result<(), OsmError>)
    requires
        now.valid(),
    ensures
        r is Ok ==> exists|es: Seq<(i64, String)>|
            {
                &&& #[trigger] user_entries_vec_ok(old(writers)@.user_index, es)
                &&& final(writers)@ == apply_user_rows(old(writers)@, es, *now)
            },
        r is Err ==> same_tables(old(writers)@, final(writers)@),
{
    let entries = match writers.user_index.entries() {
        Ok(es) => es,
        Err(e) => {
            return Err(e);
        },
    };
    let mut rows: Vec<String> = Vec::new();
    let mut i: usize = 0;
    proof {
        assert(rows.deep_view() =~= user_rows_of(entries@.take(0), *now));
    }
    while i < entries.len()
        invariant
            0 <= i <= entries@.len(),
            rows.deep_view() == user_rows_of(entries@.take(i as int), *now),
        decreases entries@.len() - i,
    {
        let ghost before = rows.deep_view();
        let row = build_user_synth_row(entries[i].0, &entries[i].1, now);
        rows.push(row);
        proof {
            assert(rows.deep_view() =~= before.push(
                user_synth_row(entries@[i as int].0, entries@[i as int].1@, *now),
            ));
            assert(user_rows_of(entries@.take(i + 1), *now) =~= user_rows_of(
                entries@.take(i as int),
                *now,
            ).push(user_synth_row(entries@[i as int].0, entries@[i as int].1@, *now)));
        }
        i = i + 1;
    }
    proof {
        assert(entries@.take(entries@.len() as int) =~= entries@);
    }
    writers.users.append(&mut rows);
    proof {
        assert(writers@.users =~= old(writers)@.users + user_rows_of(entries@, *now));
        assert(writers@ =~~= apply_user_rows(old(writers)@, entries@, *now));
    }
    Ok(())
}

/// Every element of the stream is well formed.
pub open spec fn elements_wf(es: Seq<ElementView>) -> bool {
    forall|i: int|
        0 <= i < es.len() ==> match #[trigger] es[i] {
            ElementView::Node { node } => node_wf(node),
            ElementView::Way { way } => way_wf(way),
            ElementView::Relation { relation } => relation_wf(relation),
            ElementView::Sentinel => true,
        }
}

/// Extending a pass by one element applies that element last.
pub proof fn lemma_import_fold_snoc(s: DumpView, es: Seq<ElementView>, e: ElementView)
    ensures
        import_fold(s, es.push(e)) == apply_element(import_fold(s, es), e),
    decreases es.len(),
{
    if es.len() == 0 {
        assert(es.push(e).drop_first() =~= Seq::<ElementView>::empty());
        assert(es.push(e)[0] == e);
        assert(import_fold(apply_element(s, e), Seq::<ElementView>::empty()) == apply_element(
            s,
            e,
        ));
        assert(import_fold(s, es.push(e)) == import_fold(
            apply_element(s, es.push(e)[0]),
            es.push(e).drop_first(),
        ));
    } else {
        assert(es.push(e).drop_first() =~= es.drop_first().push(e));
        assert(es.push(e)[0] == es[0]);
        lemma_import_fold_snoc(apply_element(s, es[0]), es.drop_first(), e);
    }
}

/// One full import pass over an element stream: writes the rows of every
/// element in order, then drains both dedup indices into the synthesized
/// changeset and user rows. The pass's own time stamps the synthesized
/// rows.
#[verifier::loop_isolation(false)]
pub fn generate(elements: &Vec<Element>, now: &Timestamp) -> (r: Result<TableDataWriters, OsmError>)
    requires
        elements_wf(elements.deep_view()),
        now.valid(),
    ensures
        r matches Ok(w) ==> exists|ces: Seq<(i64, i64)>, ues: Seq<(i64, String)>|
            {
                &&& #[trigger] changeset_entries_vec_ok(
                    import_fold(empty_dump(), elements.deep_view()).changeset_user_index,
                    ces,
                )
                &&& #[trigger] user_entries_vec_ok(
                    import_fold(empty_dump(), elements.deep_view()).user_index,
                    ues,
                )
                &&& w@ == apply_user_rows(
                    apply_changeset_rows(
                        import_fold(empty_dump(), elements.deep_view()),
                        ces,
                        *now,
                    ),
                    ues,
                    *now,
                )
            },
{
    let mut writers = TableDataWriters::new()?;
    let mut i: usize = 0;
    proof {
        assert(elements.deep_view().take(0) =~= Seq::<ElementView>::empty());
    }
    while i < elements.len()
        invariant
            0 <= i <= elements@.len(),
            writers@ == import_fold(empty_dump(), elements.deep_view().take(i as int)),
        decreases elements@.len() - i,
    {
        let ghost prefix = elements.deep_view().take(i as int);
        let result = match &elements[i] {
            Element::Node { node } => write_node(&mut writers, node),
            Element::Way { way } => write_way(&mut writers, way),
            Element::Relation { relation } => write_relation(&mut writers, relation),
            Element::Sentinel => Ok(()),
        };
        match result {
            Ok(_) => {},
            Err(e) => {
                return Err(e);
            },
        }
        proof {
            assert(elements.deep_view().take(i + 1) =~= prefix.push(
                elements.deep_view()[i as int],
            ));
            lemma_import_fold_snoc(empty_dump(), prefix, elements.deep_view()[i as int]);
        }
        i = i + 1;
    }
    proof {
        assert(elements.deep_view().take(elements@.len() as int) =~= elements.deep_view());
    }
    let ghost folded = writers@;
    match write_changesets(&mut writers, now) {
        Ok(_) => {},
        Err(e) => {
            return Err(e);
        },
    }
    let ghost mid = writers@;
    match write_users(&mut writers, now) {
        Ok(_) => {},
        Err(e) => {
            return Err(e);
        },
    }
    proof {
        let ces = choose|es: Seq<(i64, i64)>|
            #[trigger] changeset_entries_vec_ok(folded.changeset_user_index, es) && mid
                == apply_changeset_rows(folded, es, *now);
        let ues = choose|es: Seq<(i64, String)>|
            #[trigger] user_entries_vec_ok(mid.user_index, es) && writers@ == apply_user_rows(
                mid,
                es,
                *now,
            );
        assert(mid.user_index == folded.user_index);
        assert(changeset_entries_vec_ok(folded.changeset_user_index, ces));
        assert(user_entries_vec_ok(folded.user_index, ues));
        assert(writers@ == apply_user_rows(apply_changeset_rows(folded, ces, *now), ues, *now));
    }
    Ok(writers)
}

/// Names one of the relational tables the import fills.
#[derive(Debug, Clone, Copy, PartialEq, Eq, Structural)]
pub enum TableId {
    CurrentNodes,
    Nodes,
    NodeTags,
    CurrentNodeTags,
    CurrentWays,
    Ways,
    CurrentWayNodes,
    WayNodes,
    CurrentWayTags,
    WayTags,
    CurrentRelations,
    Relations,
    CurrentRelationMembers,
    RelationMembers,
    CurrentRelationTags,
    RelationTags,
    Changesets,
    ChangesetTags,
    Users,
}

/// The rows buffered for one table.
pub open spec fn table_rows(s: DumpView, table: TableId) -> Seq<Seq<char>> {
    match table {
        TableId::CurrentNodes => s.current_nodes,
        TableId::Nodes => s.nodes,
        TableId::NodeTags => s.node_tags,
        TableId::CurrentNodeTags => s.current_node_tags,
        TableId::CurrentWays => s.current_ways,
        TableId::Ways => s.ways,
        TableId::CurrentWayNodes => s.current_way_nodes,
        TableId::WayNodes => s.way_nodes,
        TableId::CurrentWayTags => s.current_way_tags,
        TableId::WayTags => s.way_tags,
        TableId::CurrentRelations => s.current_relations,
        TableId::Relations => s.relations,
        TableId::CurrentRelationMembers => s.current_relation_members,
        TableId::RelationMembers => s.relation_members,
        TableId::CurrentRelationTags => s.current_relation_tags,
        TableId::RelationTags => s.relation_tags,
        TableId::Changesets => s.changesets,
        TableId::ChangesetTags => s.changeset_tags,
        TableId::Users => s.users,
    }
}

/// The state with one table's buffer emptied, everything else kept.
pub open spec fn clear_table(s: DumpView, table: TableId) -> DumpView {
    match table {
        TableId::CurrentNodes => DumpView { current_nodes: Seq::empty(), ..s },
        TableId::Nodes => DumpView { nodes: Seq::empty(), ..s },
        TableId::NodeTags => DumpView { node_tags: Seq::empty(), ..s },
        TableId::CurrentNodeTags => DumpView { current_node_tags: Seq::empty(), ..s },
        TableId::CurrentWays => DumpView { current_ways: Seq::empty(), ..s },
        TableId::Ways => DumpView { ways: Seq::empty(), ..s },
        TableId::CurrentWayNodes => DumpView { current_way_nodes: Seq::empty(), ..s },
        TableId::WayNodes => DumpView { way_nodes: Seq::empty(), ..s },
        TableId::CurrentWayTags => DumpView { current_way_tags: Seq::empty(), ..s },
        TableId::WayTags => DumpView { way_tags: Seq::empty(), ..s },
        TableId::CurrentRelations => DumpView { current_relations: Seq::empty(), ..s },
        TableId::Relations => DumpView { relations: Seq::empty(), ..s },
        TableId::CurrentRelationMembers => DumpView { current_relation_members: Seq::empty(), ..s },
        TableId::RelationMembers => DumpView { relation_members: Seq::empty(), ..s },
        TableId::CurrentRelationTags => DumpView { current_relation_tags: Seq::empty(), ..s },
        TableId::RelationTags => DumpView { relation_tags: Seq::empty(), ..s },
        TableId::Changesets => DumpView { changesets: Seq::empty(), ..s },
        TableId::ChangesetTags => DumpView { changeset_tags: Seq::empty(), ..s },
        TableId::Users => DumpView { users: Seq::empty(), ..s },
    }
}

impl TableDataWriters {
    /// Hands out the rows buffered for one table and empties that buffer,
    /// so a streaming caller can write them out periodically and bound the
    /// memory a pass holds.
    pub fn take_rows(&mut self, table: TableId) -> (r: Vec<String>)
        ensures
            r.deep_view() == table_rows(old(self)@, table),
            final(self)@ == clear_table(old(self)@, table),
    {
        let mut out: Vec<String> = Vec::new();
        match table {
            TableId::CurrentNodes => {
                core::mem::swap(&mut out, &mut self.current_nodes);
                proof {
                    assert(self@.current_nodes =~= Seq::<Seq<char>>::empty());
                    assert(self@ =~~= clear_table(old(self)@, table));
                }
            },
            TableId::Nodes => {
                core::mem::swap(&mut out, &mut self.nodes);
                proof {
                    assert(self@.nodes =~= Seq::<Seq<char>>::empty());
                    assert(self@ =~~= clear_table(old(self)@, table));
                }
            },
            TableId::NodeTags => {
                core::mem::swap(&mut out, &mut self.node_tags);
                proof {
                    assert(self@.node_tags =~= Seq::<Seq<char>>::empty());
                    assert(self@ =~~= clear_table(old(self)@, table));
                }
            },
            TableId::CurrentNodeTags => {
                core::mem::swap(&mut out, &mut self.current_node_tags);
                proof {
                    assert(self@.current_node_tags =~= Seq::<Seq<char>>::empty());
                    assert(self@ =~~= clear_table(old(self)@, table));
                }
            },
            TableId::CurrentWays => {
                core::mem::swap(&mut out, &mut self.current_ways);
                proof {
                    assert(self@.current_ways =~= Seq::<Seq<char>>::empty());
                    assert(self@ =~~= clear_table(old(self)@, table));
                }
            },
            TableId::Ways => {
                core::mem::swap(&mut out, &mut self.ways);
                proof {
                    assert(self@.ways =~= Seq::<Seq<char>>::empty());
                    assert(self@ =~~= clear_table(old(self)@, table));
                }
            },
            TableId::CurrentWayNodes => {
                core::mem::swap(&mut out, &mut self.current_way_nodes);
                proof {
                    assert(self@.current_way_nodes =~= Seq::<Seq<char>>::empty());
                    assert(self@ =~~= clear_table(old(self)@, table));
                }
            },
            TableId::WayNodes => {
                core::mem::swap(&mut out, &mut self.way_nodes);
                proof {
                    assert(self@.way_nodes =~= Seq::<Seq<char>>::empty());
                    assert(self@ =~~= clear_table(old(self)@, table));
                }
            },
            TableId::CurrentWayTags => {
                core::mem::swap(&mut out, &mut self.current_way_tags);
                proof {
                    assert(self@.current_way_tags =~= Seq::<Seq<char>>::empty());
                    assert(self@ =~~= clear_table(old(self)@, table));
                }
            },
            TableId::WayTags => {
                core::mem::swap(&mut out, &mut self.way_tags);
                proof {
                    assert(self@.way_tags =~= Seq::<Seq<char>>::empty());
                    assert(self@ =~~= clear_table(old(self)@, table));
                }
            },
            TableId::CurrentRelations => {
                core::mem::swap(&mut out, &mut self.current_relations);
                proof {
                    assert(self@.current_relations =~= Seq::<Seq<char>>::empty());
                    assert(self@ =~~= clear_table(old(self)@, table));
                }
            },
            TableId::Relations => {
                core::mem::swap(&mut out, &mut self.relations);
                proof {
                    assert(self@.relations =~= Seq::<Seq<char>>::empty());
                    assert(self@ =~~= clear_table(old(self)@, table));
                }
            },
            TableId::CurrentRelationMembers => {
                core::mem::swap(&mut out, &mut self.current_relation_members);
                proof {
                    assert(self@.current_relation_members =~= Seq::<Seq<char>>::empty());
                    assert(self@ =~~= clear_table(old(self)@, table));
                }
            },
            TableId::RelationMembers => {
                core::mem::swap(&mut out, &mut self.relation_members);
                proof {
                    assert(self@.relation_members =~= Seq::<Seq<char>>::empty());
                    assert(self@ =~~= clear_table(old(self)@, table));
                }
            },
            TableId::CurrentRelationTags => {
                core::mem::swap(&mut out, &mut self.current_relation_tags);
                proof {
                    assert(self@.current_relation_tags =~= Seq::<Seq<char>>::empty());
                    assert(self@ =~~= clear_table(old(self)@, table));
                }
            },
            TableId::RelationTags => {
                core::mem::swap(&mut out, &mut self.relation_tags);
                proof {
                    assert(self@.relation_tags =~= Seq::<Seq<char>>::empty());
                    assert(self@ =~~= clear_table(old(self)@, table));
                }
            },
            TableId::Changesets => {
                core::mem::swap(&mut out, &mut self.changesets);
                proof {
                    assert(self@.changesets =~= Seq::<Seq<char>>::empty());
                    assert(self@ =~~= clear_table(old(self)@, table));
                }
            },
            TableId::ChangesetTags => {
                core::mem::swap(&mut out, &mut self.changeset_tags);
                proof {
                    assert(self@.changeset_tags =~= Seq::<Seq<char>>::empty());
                    assert(self@ =~~= clear_table(old(self)@, table));
                }
            },
            TableId::Users => {
                core::mem::swap(&mut out, &mut self.users);
                proof {
                    assert(self@.users =~= Seq::<Seq<char>>::empty());
                    assert(self@ =~~= clear_table(old(self)@, table));
                }
            },
        }
        out
    }
}

/// Checks every element of the stream for well-formedness, as an unverified
/// caller must before it hands the stream to the import pass.
#[verifier::loop_isolation(false)]
pub fn elements_wf_check(elements: &Vec<Element>) -> (r: bool)
    ensures
        r == elements_wf(elements.deep_view()),
{
    let ghost ev = elements.deep_view();
    let mut i: usize = 0;
    while i < elements.len()
        invariant
            0 <= i <= ev.len(),
            ev.len() == elements@.len(),
            forall|j: int|
                0 <= j < i as int ==> match #[trigger] ev[j] {
                    ElementView::Node { node } => node_wf(node),
                    ElementView::Way { way } => way_wf(way),
                    ElementView::Relation { relation } => relation_wf(relation),
                    ElementView::Sentinel => true,
                },
        decreases ev.len() - i,
    {
        let ok = match &elements[i] {
            Element::Node { node } => -900000000 <= node.lat_dm && node.lat_dm <= 900000000
                && -1800000000 <= node.lon_dm && node.lon_dm <= 1800000000
                && node.timestamp.is_valid(),
            Element::Way { way } => way.timestamp.is_valid(),
            Element::Relation { relation } => relation.timestamp.is_valid(),
            Element::Sentinel => true,
        };
        proof {
            assert(ev[i as int] == elements@[i as int].deep_view());
            assert(ok == match ev[i as int] {
                ElementView::Node { node } => node_wf(node),
                ElementView::Way { way } => way_wf(way),
                ElementView::Relation { relation } => relation_wf(relation),
                ElementView::Sentinel => true,
            });
        }
        if !ok {
            return false;
        }
        i = i + 1;
    }
    true
}

} // verus!
