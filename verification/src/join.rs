//! The merge-join relation reader: combines a parent table's stream with a
//! sorted child stream into one composite record per parent, holding no more
//! than one pending child. Both streams must be sorted by the parent key,
//! and every child key must occur among the parents; those preconditions are
//! the archive's own ordering guarantee and are not re-checked row by row.
use vstd::prelude::*;
use crate::error::OsmError;
use crate::reader::{TableIterator, TableReader};
use crate::record::{NodeRecord, NodeTagRecord, NodeTagView, TableRecord, TableRecordView};

verus! {

/// One node with all its tag rows.
#[derive(Debug, Clone)]
pub struct NodeRelation {
    pub node: NodeRecord,
    pub tags: Vec<NodeTagRecord>,
}

/// Spec-level form of a composite node record.
#[verifier::ext_equal]
pub ghost struct NodeRelationView {
    pub node: NodeRecord,
    pub tags: Seq<NodeTagView>,
}

impl View for NodeRelation {
    type V = NodeRelationView;

    open spec fn view(&self) -> NodeRelationView {
        NodeRelationView { node: self.node, tags: self.tags.deep_view() }
    }
}

impl DeepView for NodeRelation {
    type V = NodeRelationView;

    open spec fn deep_view(&self) -> NodeRelationView {
        self.view()
    }
}

/// A record stream is all node rows.
pub open spec fn all_nodes(s: Seq<TableRecordView>) -> bool {
    forall|i: int| 0 <= i < s.len() ==> (#[trigger] s[i]) is Node
}

/// A record stream is all node tag rows.
pub open spec fn all_node_tags(s: Seq<TableRecordView>) -> bool {
    forall|i: int| 0 <= i < s.len() ==> (#[trigger] s[i]) is NodeTag
}

/// The node ids of a node stream ascend strictly.
pub open spec fn nodes_strictly_sorted(s: Seq<TableRecordView>) -> bool {
    forall|i: int, j: int|
        0 <= i < j < s.len() ==> (#[trigger] s[i])->Node_node_record.node_id < (#[trigger] s[j])->Node_node_record.node_id
}

/// The node ids of a tag sequence never descend.
pub open spec fn tags_sorted(s: Seq<NodeTagView>) -> bool {
    forall|i: int, j: int| 0 <= i < j < s.len() ==> (#[trigger] s[i]).node_id <= (#[trigger] s[j]).node_id
}

/// The tag at `i` carries some node's id.
pub open spec fn covered_at(tags: Seq<NodeTagView>, nodes: Seq<TableRecordView>, i: int) -> bool {
    exists|j: int|
        0 <= j < nodes.len() && tags[i].node_id == (#[trigger] nodes[j])->Node_node_record.node_id
}

/// Every tag's node id occurs among the nodes.
pub open spec fn tags_covered(tags: Seq<NodeTagView>, nodes: Seq<TableRecordView>) -> bool {
    forall|i: int| 0 <= i < tags.len() ==> #[trigger] covered_at(tags, nodes, i)
}

/// The tags of one node, in stream order.
pub open spec fn filter_tags(tags: Seq<NodeTagView>, key: i64) -> Seq<NodeTagView>
    decreases tags.len(),
{
    if tags.len() == 0 {
        Seq::empty()
    } else {
        let rest = filter_tags(tags.drop_first(), key);
        if tags[0].node_id == key {
            seq![tags[0]] + rest
        } else {
            rest
        }
    }
}

/// The composite records of sorted streams: each node, in order, with the
/// tags that carry its id.
#[verifier::opaque]
pub open spec fn node_relations_of(
    nodes: Seq<TableRecordView>,
    tags: Seq<NodeTagView>,
) -> Seq<NodeRelationView> {
    Seq::new(
        nodes.len(),
        |i: int|
            NodeRelationView {
                node: nodes[i]->Node_node_record,
                tags: filter_tags(tags, nodes[i]->Node_node_record.node_id),
            },
    )
}

/// The node id of the node row at `i`.
pub open spec fn node_key(s: Seq<TableRecordView>, i: int) -> i64 {
    s[i]->Node_node_record.node_id
}

/// The node-tag view sequence of a record stream of tag rows.
pub open spec fn tag_views(s: Seq<TableRecordView>) -> Seq<NodeTagView> {
    Seq::new(s.len(), |i: int| s[i]->NodeTag_node_tag_record)
}

/// Wraps the two table readers whose streams are joined.
#[derive(Debug, Clone)]
pub struct NodeRelationsReader {
    pub nodes_reader: TableReader,
    pub node_tags_reader: TableReader,
}

impl NodeRelationsReader {
    /// Pairs the nodes table with its child tag table.
    pub fn new(nodes_def: &crate::reader::TableDef, node_tags_def: &crate::reader::TableDef) -> (r:
        Result<NodeRelationsReader, OsmError>)
        ensures
            r matches Ok(nr) ==> nr.nodes_reader.table_def.fields == nodes_def.fields
                && nr.node_tags_reader.table_def.fields == node_tags_def.fields,
    {
        let nodes_reader = TableReader::new(nodes_def)?;
        let node_tags_reader = TableReader::new(node_tags_def)?;
        Ok(NodeRelationsReader { nodes_reader, node_tags_reader })
    }
}

/// The streaming join: a pass over both streams with one pending child.
pub struct NodeRelationsIterator {
    pub nodes_iterator: TableIterator,
    pub node_tags_iterator: TableIterator,
    pub next_node_tag_record: Option<NodeTagRecord>,
}

impl NodeRelationsIterator {
    /// The tags not yet attached: the pending record, then the stream.
    pub open spec fn tags_model(self) -> Seq<NodeTagView> {
        let rest = tag_views(self.node_tags_iterator.remaining());
        match self.next_node_tag_record {
            Some(t) => seq![t@] + rest,
            None => rest,
        }
    }

    /// The join's preconditions, maintained across calls: well-formed
    /// iterators, node rows only, strictly ascending node ids, tag rows
    /// only, tags sorted, and every unattached tag covered by a remaining
    /// node.
    pub open spec fn wf(self) -> bool {
        &&& self.nodes_iterator.wf()
        &&& self.node_tags_iterator.wf()
        &&& all_nodes(self.nodes_iterator.remaining())
        &&& nodes_strictly_sorted(self.nodes_iterator.remaining())
        &&& all_node_tags(self.node_tags_iterator.remaining())
        &&& tags_sorted(self.tags_model())
        &&& tags_covered(self.tags_model(), self.nodes_iterator.remaining())
    }

    /// Starts the join over the two line sets.
    pub fn new(
        reader: &NodeRelationsReader,
        nodes_lines: Vec<String>,
        node_tags_lines: Vec<String>,
    ) -> (it: NodeRelationsIterator)
        ensures
            it.nodes_iterator.remaining() == crate::reader::records_of(
                nodes_lines.deep_view(),
                reader.nodes_reader.table_def.fields,
            ),
            it.node_tags_iterator.remaining() == crate::reader::records_of(
                node_tags_lines.deep_view(),
                reader.node_tags_reader.table_def.fields,
            ),
            it.tags_model() == tag_views(
                crate::reader::records_of(
                    node_tags_lines.deep_view(),
                    reader.node_tags_reader.table_def.fields,
                ),
            ),
            it.nodes_iterator.wf(),
            it.node_tags_iterator.wf(),
            it.next_node_tag_record is None,
    {
        let nodes_iterator = TableIterator::new(&reader.nodes_reader, nodes_lines);
        let node_tags_iterator = TableIterator::new(&reader.node_tags_reader, node_tags_lines);
        NodeRelationsIterator { nodes_iterator, node_tags_iterator, next_node_tag_record: None }
    }
}

/// No tag of the sequence carries the key.
pub proof fn lemma_filter_none(tags: Seq<NodeTagView>, key: i64)
    requires
        forall|j: int| 0 <= j < tags.len() ==> (#[trigger] tags[j]).node_id != key,
    ensures
        filter_tags(tags, key) == Seq::<NodeTagView>::empty(),
    decreases tags.len(),
{
    if tags.len() > 0 {
        assert(forall|j: int|
            0 <= j < tags.len() - 1 ==> #[trigger] tags.drop_first()[j] == tags[j + 1]);
        lemma_filter_none(tags.drop_first(), key);
        assert(filter_tags(tags, key) =~= Seq::<NodeTagView>::empty());
    }
}

/// In a sorted tag sequence whose first `k` entries carry the key and whose
/// later entries carry larger ids, the filter is exactly that prefix.
pub proof fn lemma_filter_prefix(tags: Seq<NodeTagView>, key: i64, k: int)
    requires
        0 <= k <= tags.len(),
        forall|j: int| 0 <= j < k ==> (#[trigger] tags[j]).node_id == key,
        forall|j: int| k <= j < tags.len() ==> (#[trigger] tags[j]).node_id > key,
    ensures
        filter_tags(tags, key) == tags.take(k),
    decreases k,
{
    if k == 0 {
        lemma_filter_none(tags, key);
        assert(tags.take(0) =~= Seq::<NodeTagView>::empty());
    } else {
        assert(tags[0].node_id == key);
        assert(forall|j: int|
            0 <= j < tags.len() - 1 ==> #[trigger] tags.drop_first()[j] == tags[j + 1]);
        lemma_filter_prefix(tags.drop_first(), key, k - 1);
        assert(seq![tags[0]] + tags.drop_first().take(k - 1) =~= tags.take(k));
    }
}

/// Once the matched prefix ends, in a covered sorted tag sequence every
/// later tag id exceeds the first node's id.
proof fn lemma_rest_gt(
    old_model: Seq<NodeTagView>,
    old_nodes: Seq<TableRecordView>,
    key: i64,
    k: int,
)
    requires
        0 <= k <= old_model.len(),
        old_nodes.len() > 0,
        key == old_nodes[0]->Node_node_record.node_id,
        nodes_strictly_sorted(old_nodes),
        tags_sorted(old_model),
        tags_covered(old_model, old_nodes),
        k < old_model.len() ==> old_model[k].node_id != key,
        forall|j: int| 0 <= j < k ==> (#[trigger] old_model[j]).node_id == key,
    ensures
        forall|j: int| k <= j < old_model.len() ==> (#[trigger] old_model[j]).node_id > key,
{
    if k < old_model.len() {
        assert(old_model[k].node_id > key) by {
            assert(covered_at(old_model, old_nodes, k));
            let q = choose|q: int|
                0 <= q < old_nodes.len() && old_model[k].node_id
                    == (#[trigger] old_nodes[q])->Node_node_record.node_id;
            assert(0 <= q < old_nodes.len() && old_model[k].node_id
                == old_nodes[q]->Node_node_record.node_id);
            if q == 0 {
                assert(old_model[k].node_id == key);
            } else {
                assert(old_nodes[0]->Node_node_record.node_id
                    < old_nodes[q]->Node_node_record.node_id);
            }
        }
        assert forall|j: int| k <= j < old_model.len() implies (#[trigger] old_model[j]).node_id
            > key by {
            assert(old_model[j].node_id >= old_model[k].node_id);
        }
    }
}

/// The join's preconditions survive yielding one composite record.
proof fn lemma_next_wf(
    it: NodeRelationsIterator,
    old_nodes: Seq<TableRecordView>,
    old_model: Seq<NodeTagView>,
    key: i64,
    k: int,
)
    requires
        it.nodes_iterator.wf(),
        it.node_tags_iterator.wf(),
        old_nodes.len() > 0,
        it.nodes_iterator.remaining() == old_nodes.drop_first(),
        all_nodes(old_nodes),
        nodes_strictly_sorted(old_nodes),
        all_node_tags(it.node_tags_iterator.remaining()),
        tags_sorted(old_model),
        tags_covered(old_model, old_nodes),
        key == old_nodes[0]->Node_node_record.node_id,
        0 <= k <= old_model.len(),
        forall|j: int| k <= j < old_model.len() ==> (#[trigger] old_model[j]).node_id > key,
        it.tags_model() == old_model.skip(k),
    ensures
        it.wf(),
{
    let rest = old_nodes.drop_first();
    assert(forall|j: int| 0 <= j < rest.len() ==> #[trigger] rest[j] == old_nodes[j + 1]);
    assert(all_nodes(rest));
    assert(nodes_strictly_sorted(rest));
    let model = old_model.skip(k);
    assert(forall|j: int| 0 <= j < model.len() ==> #[trigger] model[j] == old_model[j + k]);
    assert(tags_sorted(model));
    assert forall|i: int| 0 <= i < model.len() implies #[trigger] covered_at(
        model,
        rest,
        i,
    ) by {
        assert(model[i] == old_model[i + k]);
        assert(covered_at(old_model, old_nodes, i + k));
        let q = choose|q: int|
            0 <= q < old_nodes.len() && old_model[i + k].node_id
                == (#[trigger] old_nodes[q])->Node_node_record.node_id;
        assert(0 <= q < old_nodes.len() && old_model[i + k].node_id
            == old_nodes[q]->Node_node_record.node_id);
        assert(old_model[i + k].node_id > key);
        if q == 0 {
            assert(old_model[i + k].node_id == key);
        }
        assert(rest[q - 1] == old_nodes[q]);
        assert(0 <= q - 1 < rest.len() && model[i].node_id == rest[q
            - 1]->Node_node_record.node_id);
    }
    assert(tags_covered(model, rest));
}

/// Tags covered by an empty node stream are covered by any node stream:
/// there are none.
proof fn lemma_covered_empty(
    m: Seq<NodeTagView>,
    empty_nodes: Seq<TableRecordView>,
    nodes2: Seq<TableRecordView>,
)
    requires
        tags_covered(m, empty_nodes),
        empty_nodes.len() == 0,
    ensures
        tags_covered(m, nodes2),
{
    assert forall|i: int| 0 <= i < m.len() implies #[trigger] covered_at(m, nodes2, i) by {
        assert(covered_at(m, empty_nodes, i));
        let q = choose|q: int|
            0 <= q < empty_nodes.len() && m[i].node_id
                == (#[trigger] empty_nodes[q])->Node_node_record.node_id;
        assert(0 <= q < empty_nodes.len());
    }
}

impl NodeRelationsIterator {
    /// Consumes the run of tags that carry `key`, starting at the pending
    /// record, and leaves the first tag that does not as the new pending
    /// record. The node stream is untouched.
    #[verifier::loop_isolation(false)]
    #[verifier::rlimit(60)]
    fn consume_run(&mut self, key: i64) -> (tags: Vec<NodeTagRecord>)
        requires
            old(self).node_tags_iterator.wf(),
            all_node_tags(old(self).node_tags_iterator.remaining()),
        ensures
            final(self).nodes_iterator == old(self).nodes_iterator,
            final(self).node_tags_iterator.wf(),
            all_node_tags(final(self).node_tags_iterator.remaining()),
            tags@.len() <= old(self).tags_model().len(),
            tags.deep_view() == old(self).tags_model().take(tags@.len() as int),
            forall|j: int|
                0 <= j < tags@.len() ==> (#[trigger] old(self).tags_model()[j]).node_id == key,
            final(self).tags_model() == old(self).tags_model().skip(tags@.len() as int),
            tags@.len() == old(self).tags_model().len() || old(self).tags_model()[
                tags@.len() as int
            ].node_id != key,
    {
        let ghost old_model = self.tags_model();
        let mut tags: Vec<NodeTagRecord> = Vec::new();
        proof {
            assert(tags.deep_view() =~= old_model.take(0));
        }
        loop
            invariant
                self.node_tags_iterator.wf(),
                self.nodes_iterator == old(self).nodes_iterator,
                all_node_tags(self.node_tags_iterator.remaining()),
                tags.deep_view() == old_model.take(tags@.len() as int),
                tags@.len() <= old_model.len(),
                forall|j: int|
                    0 <= j < tags@.len() ==> (#[trigger] old_model[j]).node_id == key,
                self.tags_model() == old_model.skip(tags@.len() as int),
            decreases self.tags_model().len(),
        {
            let ghost consumed = tags@.len() as int;
            let cur: Option<NodeTagRecord> = match self.next_node_tag_record.take() {
                Some(t) => Some(t),
                None => {
                    match self.node_tags_iterator.next() {
                        None => None,
                        Some(rec) => {
                            match rec {
                                TableRecord::NodeTag { node_tag_record } => Some(node_tag_record),
                                _ => {
                                    proof {
                                        assert(false);
                                    }
                                    None
                                },
                            }
                        },
                    }
                },
            };
            match cur {
                None => {
                    proof {
                        assert(old_model.skip(consumed) =~= Seq::<NodeTagView>::empty());
                    }
                    return tags;
                },
                Some(t) => {
                    if t.node_id == key {
                        let ghost before = tags.deep_view();
                        tags.push(t);
                        proof {
                            assert(old_model.skip(consumed)[0] == t@);
                            assert(old_model[consumed] == t@);
                            assert(tags.deep_view() =~= before.push(t@));
                            assert(old_model.take(consumed + 1) =~= old_model.take(
                                consumed,
                            ).push(old_model[consumed]));
                            assert(old_model.skip(consumed).drop_first() =~= old_model.skip(
                                consumed + 1,
                            ));
                        }
                    } else {
                        self.next_node_tag_record = Some(t);
                        proof {
                            assert(old_model.skip(consumed)[0] == t@);
                            assert(old_model[consumed].node_id != key);
                            assert(self.tags_model() =~= old_model.skip(consumed));
                        }
                        return tags;
                    }
                },
            }
        }
    }

    /// Yields the next node with all the tags that carry its id; the
    /// lookahead buffer holds at most the first unmatched tag. When the
    /// node stream ends, so does the join, with the unattached tags kept.
    #[verifier::rlimit(100)]
    pub fn next(&mut self) -> (r: Option<NodeRelation>)
        requires
            old(self).wf(),
        ensures
            final(self).wf(),
            match r {
                Some(rel) => {
                    &&& old(self).nodes_iterator.remaining().len() > 0
                    &&& rel@.node == old(self).nodes_iterator.remaining()[0]->Node_node_record
                    &&& rel@.tags == filter_tags(old(self).tags_model(), rel@.node.node_id)
                    &&& final(self).nodes_iterator.remaining() == old(
                        self,
                    ).nodes_iterator.remaining().drop_first()
                    &&& final(self).tags_model() == old(self).tags_model().skip(
                        rel@.tags.len() as int,
                    )
                },
                None => {
                    &&& old(self).nodes_iterator.remaining().len() == 0
                    &&& final(self).nodes_iterator.remaining().len() == 0
                    &&& final(self).tags_model() == old(self).tags_model()
                },
            },
    {
        let ghost old_nodes = self.nodes_iterator.remaining();
        let ghost old_model = self.tags_model();
        let node_rec = match self.nodes_iterator.next() {
            None => {
                proof {
                    lemma_covered_empty(
                        self.tags_model(),
                        old_nodes,
                        self.nodes_iterator.remaining(),
                    );
                }
                return None;
            },
            Some(rec) => rec,
        };
        let node_record = match node_rec {
            TableRecord::Node { node_record } => node_record,
            _ => {
                proof {
                    assert(old_nodes[0] is Node);
                    assert(false);
                }
                return None;
            },
        };
        let key = node_record.node_id;
        proof {
            assert(node_record == old_nodes[0]->Node_node_record);
        }
        let tags = self.consume_run(key);
        proof {
            let k = tags@.len() as int;
            lemma_rest_gt(old_model, old_nodes, key, k);
            lemma_filter_prefix(old_model, key, k);
            assert(tags.deep_view() == filter_tags(old_model, key));
            lemma_next_wf(*self, old_nodes, old_model, key, k);
        }
        Some(NodeRelation { node: node_record, tags })
    }
}

/// Entries that carry other keys do not change the filter.
pub proof fn lemma_filter_skip(tags: Seq<NodeTagView>, key: i64, p: int)
    requires
        0 <= p <= tags.len(),
        forall|j: int| 0 <= j < p ==> (#[trigger] tags[j]).node_id != key,
    ensures
        filter_tags(tags, key) == filter_tags(tags.skip(p), key),
    decreases p,
{
    if p > 0 {
        assert(tags[0].node_id != key);
        assert(forall|j: int|
            0 <= j < tags.len() - 1 ==> #[trigger] tags.drop_first()[j] == tags[j + 1]);
        lemma_filter_skip(tags.drop_first(), key, p - 1);
        assert(tags.drop_first().skip(p - 1) =~= tags.skip(p));
    } else {
        assert(tags.skip(0) =~= tags);
    }
}

/// The length of the run of leading entries that carry the key.
pub open spec fn run_len(m: Seq<NodeTagView>, key: i64) -> int
    decreases m.len(),
{
    if m.len() > 0 && m[0].node_id == key {
        1 + run_len(m.drop_first(), key)
    } else {
        0
    }
}

proof fn lemma_run_len(m: Seq<NodeTagView>, key: i64)
    ensures
        0 <= run_len(m, key) <= m.len(),
        forall|j: int| 0 <= j < run_len(m, key) ==> (#[trigger] m[j]).node_id == key,
        run_len(m, key) < m.len() ==> m[run_len(m, key)].node_id != key,
    decreases m.len(),
{
    if m.len() > 0 && m[0].node_id == key {
        lemma_run_len(m.drop_first(), key);
        assert(forall|j: int| 0 <= j < m.len() - 1 ==> #[trigger] m.drop_first()[j] == m[j + 1]);
        assert forall|j: int| 0 <= j < run_len(m, key) implies (#[trigger] m[j]).node_id == key by {
            if j > 0 {
                assert(m.drop_first()[j - 1].node_id == key);
            }
        }
    }
}

/// Under the join's preconditions every unattached tag id is at least the
/// first node's id, so the matched tags are exactly the leading run.
proof fn lemma_filter_front(
    m: Seq<NodeTagView>,
    nodes_rem: Seq<TableRecordView>,
    key: i64,
)
    requires
        tags_sorted(m),
        tags_covered(m, nodes_rem),
        nodes_strictly_sorted(nodes_rem),
        nodes_rem.len() > 0,
        key == node_key(nodes_rem, 0),
    ensures
        filter_tags(m, key) == m.take(run_len(m, key)),
        forall|j: int| 0 <= j < run_len(m, key) ==> (#[trigger] m[j]).node_id == key,
{
    lemma_run_len(m, key);
    let p = run_len(m, key);
    assert forall|j: int| 0 <= j < m.len() implies (#[trigger] m[j]).node_id >= key by {
        assert(covered_at(m, nodes_rem, j));
        let q = choose|q: int|
            0 <= q < nodes_rem.len() && m[j].node_id
                == (#[trigger] nodes_rem[q])->Node_node_record.node_id;
        assert(0 <= q < nodes_rem.len() && m[j].node_id
            == nodes_rem[q]->Node_node_record.node_id);
        if q > 0 {
            assert(nodes_rem[0]->Node_node_record.node_id
                < nodes_rem[q]->Node_node_record.node_id);
        }
    }
    assert forall|j: int| p <= j < m.len() implies (#[trigger] m[j]).node_id > key by {
        assert(m[p].node_id >= key);
        assert(m[p].node_id != key);
        assert(m[j].node_id >= m[p].node_id);
    }
    lemma_filter_prefix(m, key, p);
}

/// One step of collecting the join: the yielded record is the target's
/// next entry, and the consumed-prefix bound moves to the next node.
#[verifier::rlimit(100)]
proof fn lemma_collect_step(
    old_nodes: Seq<TableRecordView>,
    old_model: Seq<NodeTagView>,
    count: int,
    consumed: int,
    rel: NodeRelationView,
    pre_model: Seq<NodeTagView>,
)
    requires
        0 <= count < old_nodes.len(),
        0 <= consumed <= old_model.len(),
        nodes_strictly_sorted(old_nodes),
        pre_model == old_model.skip(consumed),
        tags_sorted(pre_model),
        tags_covered(pre_model, old_nodes.skip(count)),
        rel.node == old_nodes[count]->Node_node_record,
        rel.tags == filter_tags(pre_model, rel.node.node_id),
        forall|j: int|
            0 <= j < consumed ==> (#[trigger] old_model[j]).node_id < node_key(old_nodes, count),
    ensures
        node_relations_of(old_nodes, old_model)[count] == rel,
        node_relations_of(old_nodes, old_model).take(count + 1) == node_relations_of(
            old_nodes,
            old_model,
        ).take(count).push(rel),
        rel.tags.len() <= pre_model.len(),
        pre_model.skip(rel.tags.len() as int) == old_model.skip(consumed + rel.tags.len()),
        count + 1 < old_nodes.len() ==> forall|j: int|
            0 <= j < consumed + rel.tags.len() ==> (#[trigger] old_model[j]).node_id < node_key(
                old_nodes,
                count + 1,
            ),
{
    reveal(node_relations_of);
    let key = rel.node.node_id;
    let rest_nodes = old_nodes.skip(count);
    assert(rest_nodes.len() > 0);
    assert(rest_nodes[0] == old_nodes[count]);
    assert(nodes_strictly_sorted(rest_nodes)) by {
        assert(forall|j: int|
            0 <= j < rest_nodes.len() ==> #[trigger] rest_nodes[j] == old_nodes[j + count]);
    }
    lemma_filter_front(pre_model, rest_nodes, key);
    lemma_run_len(pre_model, key);
    let k = run_len(pre_model, key);
    assert(rel.tags.len() == k);
    assert(forall|j: int|
        0 <= j < consumed ==> (#[trigger] old_model[j]).node_id != key);
    lemma_filter_skip(old_model, key, consumed);
    assert(rel.tags == filter_tags(old_model, key));
    assert(node_relations_of(old_nodes, old_model)[count] =~~= rel);
    assert(node_relations_of(old_nodes, old_model).take(count + 1) =~= node_relations_of(
        old_nodes,
        old_model,
    ).take(count).push(node_relations_of(old_nodes, old_model)[count]));
    assert(pre_model.skip(k) =~= old_model.skip(consumed + k));
    if count + 1 < old_nodes.len() {
        let next_key = node_key(old_nodes, count + 1);
        assert(key < next_key);
        assert forall|j: int| 0 <= j < consumed + k implies (#[trigger] old_model[j]).node_id
            < next_key by {
            if j >= consumed {
                assert(pre_model[j - consumed] == old_model[j]);
                assert(old_model[j].node_id == key);
            }
        }
    }
}

impl NodeRelationsIterator {
    /// Collects every composite record: each remaining node, in order, with
    /// the tags of the whole unattached tag sequence that carry its id.
    #[verifier::spinoff_prover]
    #[verifier::rlimit(100)]
    pub fn collect_relations(&mut self) -> (r: Vec<NodeRelation>)
        requires
            old(self).wf(),
        ensures
            r.deep_view() == node_relations_of(
                old(self).nodes_iterator.remaining(),
                old(self).tags_model(),
            ),
    {
        let ghost old_nodes = self.nodes_iterator.remaining();
        let ghost old_model = self.tags_model();
        let ghost target = node_relations_of(old_nodes, old_model);
        let mut out: Vec<NodeRelation> = Vec::new();
        proof {
            reveal(node_relations_of);
            assert(target.len() == old_nodes.len());
            assert(out.deep_view() =~= target.take(0));
            assert(old_nodes.skip(0) =~= old_nodes);
            assert(old_model.skip(0) =~= old_model);
        }
        let mut count: usize = 0;
        let ghost mut consumed: int = 0;
        loop
            invariant
                self.wf(),
                old_nodes == old(self).nodes_iterator.remaining(),
                old_model == old(self).tags_model(),
                target == node_relations_of(old_nodes, old_model),
                target.len() == old_nodes.len(),
                nodes_strictly_sorted(old_nodes),
                0 <= count as int <= old_nodes.len(),
                0 <= consumed <= old_model.len(),
                self.nodes_iterator.remaining() == old_nodes.skip(count as int),
                self.tags_model() == old_model.skip(consumed),
                out.deep_view() == target.take(count as int),
                (count as int) < old_nodes.len() ==> forall|j: int|
                    0 <= j < consumed ==> (#[trigger] old_model[j]).node_id < node_key(
                        old_nodes,
                        count as int,
                    ),
            decreases old_nodes.len() - count as int,
        {
            let ghost pre_model = self.tags_model();
            match self.next() {
                None => {
                    proof {
                        assert(old_nodes.skip(count as int).len() == 0);
                        assert(count as int == old_nodes.len());
                        assert(target.take(count as int) =~= target);
                        assert(out.deep_view() =~= target);
                    }
                    return out;
                },
                Some(rel) => {
                    proof {
                        assert(old_nodes.skip(count as int)[0] == old_nodes[count as int]);
                        assert(old_nodes.skip(count as int).drop_first() =~= old_nodes.skip(
                            count + 1,
                        ));
                        lemma_collect_step(
                            old_nodes,
                            old_model,
                            count as int,
                            consumed,
                            rel@,
                            pre_model,
                        );
                    }
                    let ghost before = out.deep_view();
                    let ghost k = rel@.tags.len() as int;
                    out.push(rel);
                    let new_len = out.len();
                    proof {
                        assert(out.deep_view() =~= before.push(target[count as int]));
                        assert(new_len == count + 1);
                        consumed = consumed + k;
                    }
                    count = new_len;
                },
            }
        }
    }
}

/// One way with its ordered node references and its tag rows.
#[derive(Debug, Clone)]
pub struct WayRelation {
    pub way_id: i64,
    pub changeset_id: i64,
    pub timestamp: crate::time::Timestamp,
    pub version: i64,
    pub visible: bool,
    pub redaction_id: Option<i32>,
    pub refs: Vec<i64>,
    pub tags: Vec<crate::element::Tag>,
}

/// Spec-level form of a composite way record.
#[verifier::ext_equal]
pub ghost struct WayRelationView {
    pub way_id: i64,
    pub changeset_id: i64,
    pub timestamp: crate::time::Timestamp,
    pub version: i64,
    pub visible: bool,
    pub redaction_id: Option<i32>,
    pub refs: Seq<i64>,
    pub tags: Seq<crate::element::TagView>,
}

impl View for WayRelation {
    type V = WayRelationView;

    open spec fn view(&self) -> WayRelationView {
        WayRelationView {
            way_id: self.way_id,
            changeset_id: self.changeset_id,
            timestamp: self.timestamp,
            version: self.version,
            visible: self.visible,
            redaction_id: self.redaction_id,
            refs: self.refs.deep_view(),
            tags: self.tags.deep_view(),
        }
    }
}

impl DeepView for WayRelation {
    type V = WayRelationView;

    open spec fn deep_view(&self) -> WayRelationView {
        self.view()
    }
}

/// One relation with its member rows and its tag rows.
#[derive(Debug, Clone)]
pub struct RelationComposite {
    pub relation_id: i64,
    pub changeset_id: i64,
    pub timestamp: crate::time::Timestamp,
    pub version: i64,
    pub visible: bool,
    pub redaction_id: Option<i32>,
    pub members: Vec<crate::element::Member>,
    pub tags: Vec<crate::element::Tag>,
}

/// Spec-level form of a composite relation record.
#[verifier::ext_equal]
pub ghost struct RelationCompositeView {
    pub relation_id: i64,
    pub changeset_id: i64,
    pub timestamp: crate::time::Timestamp,
    pub version: i64,
    pub visible: bool,
    pub redaction_id: Option<i32>,
    pub members: Seq<crate::element::MemberView>,
    pub tags: Seq<crate::element::TagView>,
}

impl View for RelationComposite {
    type V = RelationCompositeView;

    open spec fn view(&self) -> RelationCompositeView {
        RelationCompositeView {
            relation_id: self.relation_id,
            changeset_id: self.changeset_id,
            timestamp: self.timestamp,
            version: self.version,
            visible: self.visible,
            redaction_id: self.redaction_id,
            members: self.members.deep_view(),
            tags: self.tags.deep_view(),
        }
    }
}

impl DeepView for RelationComposite {
    type V = RelationCompositeView;

    open spec fn deep_view(&self) -> RelationCompositeView {
        self.view()
    }
}

/// A record stream is all way rows.
pub open spec fn all_ways(s: Seq<TableRecordView>) -> bool {
    forall|i: int| 0 <= i < s.len() ==> (#[trigger] s[i]) is Way
}

/// A record stream is all relation rows.
pub open spec fn all_relations(s: Seq<TableRecordView>) -> bool {
    forall|i: int| 0 <= i < s.len() ==> (#[trigger] s[i]) is Relation
}

/// The node references of one way, in stream order.
pub open spec fn way_refs_of(children: Seq<TableRecordView>, id: i64) -> Seq<i64>
    decreases children.len(),
{
    if children.len() == 0 {
        Seq::empty()
    } else {
        let rest = way_refs_of(children.drop_last(), id);
        if children.last() is WayNode && children.last()->WayNode_way_id == id {
            rest.push(children.last()->WayNode_node_id)
        } else {
            rest
        }
    }
}

/// The tags of one way, in stream order.
pub open spec fn way_tags_of(children: Seq<TableRecordView>, id: i64) -> Seq<
    crate::element::TagView,
>
    decreases children.len(),
{
    if children.len() == 0 {
        Seq::empty()
    } else {
        let rest = way_tags_of(children.drop_last(), id);
        if children.last() is WayTag && children.last()->WayTag_way_id == id {
            rest.push(
                crate::element::TagView {
                    k: children.last()->WayTag_k,
                    v: children.last()->WayTag_v,
                },
            )
        } else {
            rest
        }
    }
}

/// The members of one relation, in stream order.
pub open spec fn relation_members_of(children: Seq<TableRecordView>, id: i64) -> Seq<
    crate::element::MemberView,
>
    decreases children.len(),
{
    if children.len() == 0 {
        Seq::empty()
    } else {
        let rest = relation_members_of(children.drop_last(), id);
        if children.last() is RelationMember && children.last()->RelationMember_relation_id
            == id {
            rest.push(
                crate::element::MemberView {
                    member_type: children.last()->RelationMember_member_type,
                    member_id: children.last()->RelationMember_member_id,
                    member_role: children.last()->RelationMember_member_role,
                },
            )
        } else {
            rest
        }
    }
}

/// The tags of one relation, in stream order.
pub open spec fn relation_tags_of(children: Seq<TableRecordView>, id: i64) -> Seq<
    crate::element::TagView,
>
    decreases children.len(),
{
    if children.len() == 0 {
        Seq::empty()
    } else {
        let rest = relation_tags_of(children.drop_last(), id);
        if children.last() is RelationTag && children.last()->RelationTag_relation_id == id {
            rest.push(
                crate::element::TagView {
                    k: children.last()->RelationTag_k,
                    v: children.last()->RelationTag_v,
                },
            )
        } else {
            rest
        }
    }
}

/// The composite records of a ways table: each way, in order, with the node
/// references and tags that carry its id.
pub open spec fn way_relations_of(
    w: Seq<TableRecordView>,
    wn: Seq<TableRecordView>,
    wt: Seq<TableRecordView>,
) -> Seq<WayRelationView> {
    Seq::new(
        w.len(),
        |i: int|
            WayRelationView {
                way_id: w[i]->Way_way_id,
                changeset_id: w[i]->Way_changeset_id,
                timestamp: w[i]->Way_timestamp,
                version: w[i]->Way_version,
                visible: w[i]->Way_visible,
                redaction_id: w[i]->Way_redaction_id,
                refs: way_refs_of(wn, w[i]->Way_way_id),
                tags: way_tags_of(wt, w[i]->Way_way_id),
            },
    )
}

/// The composite records of a relations table: each relation, in order,
/// with the members and tags that carry its id.
pub open spec fn relation_composites_of(
    rl: Seq<TableRecordView>,
    rm: Seq<TableRecordView>,
    rt: Seq<TableRecordView>,
) -> Seq<RelationCompositeView> {
    Seq::new(
        rl.len(),
        |i: int|
            RelationCompositeView {
                relation_id: rl[i]->Relation_relation_id,
                changeset_id: rl[i]->Relation_changeset_id,
                timestamp: rl[i]->Relation_timestamp,
                version: rl[i]->Relation_version,
                visible: rl[i]->Relation_visible,
                redaction_id: rl[i]->Relation_redaction_id,
                members: relation_members_of(rm, rl[i]->Relation_relation_id),
                tags: relation_tags_of(rt, rl[i]->Relation_relation_id),
            },
    )
}

#[verifier::loop_isolation(false)]
fn collect_way_refs(children: &Vec<TableRecord>, id: i64) -> (r: Vec<i64>)
    ensures
        r@ == way_refs_of(children.deep_view(), id),
{
    let ghost cv = children.deep_view();
    let mut out: Vec<i64> = Vec::new();
    proof {
        assert(cv.take(0) =~= Seq::<TableRecordView>::empty());
    }
    let mut j: usize = 0;
    while j < children.len()
        invariant
            0 <= j <= cv.len(),
            cv.len() == children@.len(),
            out@ == way_refs_of(cv.take(j as int), id),
        decreases cv.len() - j,
    {
        proof {
            assert(cv.take(j + 1).drop_last() =~= cv.take(j as int));
            assert(cv.take(j + 1).last() == cv[j as int]);
        }
        match &children[j] {
            TableRecord::WayNode { way_id, node_id, .. } => {
                if *way_id == id {
                    out.push(*node_id);
                }
            },
            _ => {},
        }
        j = j + 1;
    }
    proof {
        assert(cv.take(cv.len() as int) =~= cv);
    }
    out
}

#[verifier::loop_isolation(false)]
fn collect_way_tags(children: &Vec<TableRecord>, id: i64) -> (r: Vec<crate::element::Tag>)
    ensures
        r.deep_view() == way_tags_of(children.deep_view(), id),
{
    let ghost cv = children.deep_view();
    let mut out: Vec<crate::element::Tag> = Vec::new();
    proof {
        assert(cv.take(0) =~= Seq::<TableRecordView>::empty());
        assert(out.deep_view() =~= way_tags_of(cv.take(0), id));
    }
    let mut j: usize = 0;
    while j < children.len()
        invariant
            0 <= j <= cv.len(),
            cv.len() == children@.len(),
            out.deep_view() == way_tags_of(cv.take(j as int), id),
        decreases cv.len() - j,
    {
        proof {
            assert(cv.take(j + 1).drop_last() =~= cv.take(j as int));
            assert(cv.take(j + 1).last() == cv[j as int]);
        }
        let ghost before = out.deep_view();
        match &children[j] {
            TableRecord::WayTag { way_id, k, v, .. } => {
                if *way_id == id {
                    out.push(crate::element::Tag { k: k.clone(), v: v.clone() });
                    proof {
                        assert(out.deep_view() =~= before.push(
                            crate::element::TagView { k: k@, v: v@ },
                        ));
                    }
                }
            },
            _ => {},
        }
        j = j + 1;
        proof {
            assert(out.deep_view() =~= way_tags_of(cv.take(j as int), id));
        }
    }
    proof {
        assert(cv.take(cv.len() as int) =~= cv);
    }
    out
}

#[verifier::loop_isolation(false)]
fn collect_relation_members(children: &Vec<TableRecord>, id: i64) -> (r: Vec<
    crate::element::Member,
>)
    ensures
        r.deep_view() == relation_members_of(children.deep_view(), id),
{
    let ghost cv = children.deep_view();
    let mut out: Vec<crate::element::Member> = Vec::new();
    proof {
        assert(cv.take(0) =~= Seq::<TableRecordView>::empty());
        assert(out.deep_view() =~= relation_members_of(cv.take(0), id));
    }
    let mut j: usize = 0;
    while j < children.len()
        invariant
            0 <= j <= cv.len(),
            cv.len() == children@.len(),
            out.deep_view() == relation_members_of(cv.take(j as int), id),
        decreases cv.len() - j,
    {
        proof {
            assert(cv.take(j + 1).drop_last() =~= cv.take(j as int));
            assert(cv.take(j + 1).last() == cv[j as int]);
        }
        let ghost before = out.deep_view();
        match &children[j] {
            TableRecord::RelationMember { relation_id, member_type, member_id, member_role, .. } => {
                if *relation_id == id {
                    out.push(
                        crate::element::Member {
                            member_type: *member_type,
                            member_id: *member_id,
                            member_role: member_role.clone(),
                        },
                    );
                    proof {
                        assert(out.deep_view() =~= before.push(
                            crate::element::MemberView {
                                member_type: *member_type,
                                member_id: *member_id,
                                member_role: member_role@,
                            },
                        ));
                    }
                }
            },
            _ => {},
        }
        j = j + 1;
        proof {
            assert(out.deep_view() =~= relation_members_of(cv.take(j as int), id));
        }
    }
    proof {
        assert(cv.take(cv.len() as int) =~= cv);
    }
    out
}

#[verifier::loop_isolation(false)]
fn collect_relation_tags(children: &Vec<TableRecord>, id: i64) -> (r: Vec<crate::element::Tag>)
    ensures
        r.deep_view() == relation_tags_of(children.deep_view(), id),
{
    let ghost cv = children.deep_view();
    let mut out: Vec<crate::element::Tag> = Vec::new();
    proof {
        assert(cv.take(0) =~= Seq::<TableRecordView>::empty());
        assert(out.deep_view() =~= relation_tags_of(cv.take(0), id));
    }
    let mut j: usize = 0;
    while j < children.len()
        invariant
            0 <= j <= cv.len(),
            cv.len() == children@.len(),
            out.deep_view() == relation_tags_of(cv.take(j as int), id),
        decreases cv.len() - j,
    {
        proof {
            assert(cv.take(j + 1).drop_last() =~= cv.take(j as int));
            assert(cv.take(j + 1).last() == cv[j as int]);
        }
        let ghost before = out.deep_view();
        match &children[j] {
            TableRecord::RelationTag { relation_id, k, v, .. } => {
                if *relation_id == id {
                    out.push(crate::element::Tag { k: k.clone(), v: v.clone() });
                    proof {
                        assert(out.deep_view() =~= before.push(
                            crate::element::TagView { k: k@, v: v@ },
                        ));
                    }
                }
            },
            _ => {},
        }
        j = j + 1;
        proof {
            assert(out.deep_view() =~= relation_tags_of(cv.take(j as int), id));
        }
    }
    proof {
        assert(cv.take(cv.len() as int) =~= cv);
    }
    out
}

/// Combines the ways table with its two child tables: each way, in order,
/// with its node references and tags attached; a row of another table among
/// the ways is a structural error.
#[verifier::loop_isolation(false)]
pub fn way_relations(
    w: &Vec<TableRecord>,
    wn: &Vec<TableRecord>,
    wt: &Vec<TableRecord>,
) -> (r: Result<Vec<WayRelation>, OsmError>)
    ensures
        r is Ok <==> all_ways(w.deep_view()),
        r matches Ok(rels) ==> rels.deep_view() == way_relations_of(
            w.deep_view(),
            wn.deep_view(),
            wt.deep_view(),
        ),
        r matches Err(e) ==> e.kind == crate::error::ErrorKind::Structure,
{
    let ghost wv = w.deep_view();
    let ghost target = way_relations_of(wv, wn.deep_view(), wt.deep_view());
    let mut out: Vec<WayRelation> = Vec::new();
    proof {
        assert(out.deep_view() =~= target.take(0));
    }
    let mut i: usize = 0;
    while i < w.len()
        invariant
            0 <= i <= wv.len(),
            wv.len() == w@.len(),
            out.deep_view() == target.take(i as int),
            forall|j: int| 0 <= j < i as int ==> (#[trigger] wv[j]) is Way,
        decreases wv.len() - i,
    {
        match &w[i] {
            TableRecord::Way { way_id, changeset_id, timestamp, version, visible, redaction_id } => {
                let refs = collect_way_refs(wn, *way_id);
                let tags = collect_way_tags(wt, *way_id);
                let rel = WayRelation {
                    way_id: *way_id,
                    changeset_id: *changeset_id,
                    timestamp: *timestamp,
                    version: *version,
                    visible: *visible,
                    redaction_id: *redaction_id,
                    refs,
                    tags,
                };
                let ghost before = out.deep_view();
                proof {
                    assert(rel@ =~~= target[i as int]);
                }
                out.push(rel);
                proof {
                    assert(out.deep_view() =~= before.push(target[i as int]));
                    assert(target.take(i + 1) =~= target.take(i as int).push(target[i as int]));
                }
            },
            _ => {
                return Err(OsmError::new(String::from_str("not a way record")));
            },
        }
        i = i + 1;
    }
    proof {
        assert(target.take(wv.len() as int) =~= target);
    }
    Ok(out)
}

/// Combines the relations table with its two child tables: each relation,
/// in order, with its members and tags attached; a row of another table
/// among the relations is a structural error.
#[verifier::loop_isolation(false)]
pub fn relation_composites(
    rl: &Vec<TableRecord>,
    rm: &Vec<TableRecord>,
    rt: &Vec<TableRecord>,
) -> (r: Result<Vec<RelationComposite>, OsmError>)
    ensures
        r is Ok <==> all_relations(rl.deep_view()),
        r matches Ok(rels) ==> rels.deep_view() == relation_composites_of(
            rl.deep_view(),
            rm.deep_view(),
            rt.deep_view(),
        ),
        r matches Err(e) ==> e.kind == crate::error::ErrorKind::Structure,
{
    let ghost rv = rl.deep_view();
    let ghost target = relation_composites_of(rv, rm.deep_view(), rt.deep_view());
    let mut out: Vec<RelationComposite> = Vec::new();
    proof {
        assert(out.deep_view() =~= target.take(0));
    }
    let mut i: usize = 0;
    while i < rl.len()
        invariant
            0 <= i <= rv.len(),
            rv.len() == rl@.len(),
            out.deep_view() == target.take(i as int),
            forall|j: int| 0 <= j < i as int ==> (#[trigger] rv[j]) is Relation,
        decreases rv.len() - i,
    {
        match &rl[i] {
            TableRecord::Relation {
                relation_id,
                changeset_id,
                timestamp,
                version,
                visible,
                redaction_id,
            } => {
                let members = collect_relation_members(rm, *relation_id);
                let tags = collect_relation_tags(rt, *relation_id);
                let rel = RelationComposite {
                    relation_id: *relation_id,
                    changeset_id: *changeset_id,
                    timestamp: *timestamp,
                    version: *version,
                    visible: *visible,
                    redaction_id: *redaction_id,
                    members,
                    tags,
                };
                let ghost before = out.deep_view();
                proof {
                    assert(rel@ =~~= target[i as int]);
                }
                out.push(rel);
                proof {
                    assert(out.deep_view() =~= before.push(target[i as int]));
                    assert(target.take(i + 1) =~= target.take(i as int).push(target[i as int]));
                }
            },
            _ => {
                return Err(OsmError::new(String::from_str("not a relation record")));
            },
        }
        i = i + 1;
    }
    proof {
        assert(target.take(rv.len() as int) =~= target);
    }
    Ok(out)
}

} // verus!

