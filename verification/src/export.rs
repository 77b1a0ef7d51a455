//! The conversion pipeline's export side: locates the tables through the
//! table of contents, indexes changesets and users, merge-joins nodes with
//! their tags, and reconstructs the element stream.
use vstd::prelude::*;
use crate::error::OsmError;
use crate::element::{Element, ElementView, Node, NodeView, Tag, TagView};
use crate::fields::{TableFields, table_cols_present, table_fields_ok};
use crate::index::{ChangesetUserIndex, UserIndex};
use crate::join::{
    NodeRelation, NodeRelationView, NodeRelationsIterator, NodeRelationsReader, all_nodes,
    all_node_tags, node_key, node_relations_of, nodes_strictly_sorted, tag_views, tags_covered,
    tags_sorted, covered_at,
};
use crate::reader::{TableDef, TableIterator, TableReader, records_of};
use crate::record::{TableRecord, TableRecordView};
use crate::text::{split_lines, str_eq};
use crate::toc::{get_table_def_strings, parse_table_def, parse_table_def_spec, toc_pairs,
    toc_pairs_decoded, pair_utf8_ok, pair_decoded};

verus! {

/// Directive `k` of the table of contents names this table with this data
/// file, and its declared columns resolve to these offsets.
pub open spec fn toc_def_at(
    toc: Seq<u8>,
    name: Seq<char>,
    file_name: Seq<char>,
    tf: TableFields,
    k: int,
) -> bool {
    &&& 0 <= k < toc_pairs(toc).len()
    &&& pair_utf8_ok(toc_pairs(toc)[k])
    &&& parse_table_def_spec(pair_decoded(toc_pairs(toc)[k]).0) matches Some(nc) && nc.0 == name
        && table_fields_ok(name, nc.1, tf)
    &&& pair_decoded(toc_pairs(toc)[k]).1 == file_name
}

/// The table of contents names this table, with this data file, and its
/// declared columns resolve to these offsets.
pub open spec fn toc_def_for(
    toc: Seq<u8>,
    name: Seq<char>,
    file_name: Seq<char>,
    tf: TableFields,
) -> bool {
    exists|k: int| #[trigger] toc_def_at(toc, name, file_name, tf, k)
}

/// Every pair the table of contents yields decodes, parses as a table
/// definition, and names a known table with all required columns declared.
pub open spec fn toc_defs_ok(toc: Seq<u8>) -> bool {
    forall|k: int|
        0 <= k < toc_pairs(toc).len() ==> {
            &&& #[trigger] pair_utf8_ok(toc_pairs(toc)[k])
            &&& parse_table_def_spec(pair_decoded(toc_pairs(toc)[k]).0) matches Some(nc)
                && table_cols_present(nc.0, nc.1)
        }
}

/// Directive `k` parses and names this table.
pub open spec fn directive_names(toc: Seq<u8>, k: int, name: Seq<char>) -> bool {
    &&& 0 <= k < toc_pairs(toc).len()
    &&& pair_utf8_ok(toc_pairs(toc)[k])
    &&& parse_table_def_spec(pair_decoded(toc_pairs(toc)[k]).0) matches Some(nc) && nc.0 == name
}

/// The table is named by some directive, and every directive that names it
/// points at a data file the file set holds.
pub open spec fn located_ok(toc: Seq<u8>, fs: Seq<(Seq<char>, Seq<char>)>, name: Seq<char>) -> bool {
    &&& exists|k: int| #[trigger] directive_names(toc, k, name)
    &&& forall|k: int|
        #[trigger] directive_names(toc, k, name) ==> exists|c: Seq<char>|
            #[trigger] file_content(fs, pair_decoded(toc_pairs(toc)[k]).1, c)
}

/// Table definition `i` came from directive `i` of the table of contents.
pub open spec fn dump_tables_at(toc: Seq<u8>, tables: Seq<TableDef>) -> bool {
    &&& tables.len() == toc_pairs(toc).len()
    &&& forall|i: int|
        0 <= i < tables.len() ==> toc_def_at(
            toc,
            (#[trigger] tables[i]).name@,
            tables[i].file_name@,
            tables[i].fields,
            i,
        )
}

/// A record stream is all changeset rows.
pub open spec fn all_changesets(s: Seq<TableRecordView>) -> bool {
    forall|i: int| 0 <= i < s.len() ==> (#[trigger] s[i]) is Changeset
}

/// A record stream is all user rows.
pub open spec fn all_users(s: Seq<TableRecordView>) -> bool {
    forall|i: int| 0 <= i < s.len() ==> (#[trigger] s[i]) is User
}

/// The tables of one dump archive, with the two lookup indices the export
/// builds before emitting elements.
pub struct Dump {
    pub tables: Vec<TableDef>,
    pub user_index: UserIndex,
    pub changeset_user_index: ChangesetUserIndex,
}

impl Dump {
    /// Parses the table of contents into one table definition per dump
    /// directive. Any directive that does not parse, names an unknown
    /// table, or misses a required column is a structural error.
    #[verifier::loop_isolation(false)]
    pub fn new(toc: &Vec<u8>) -> (r: Result<Dump, OsmError>)
        ensures
            r matches Ok(d) ==> {
                &&& dump_tables_at(toc@, d.tables@)
                &&& d.user_index@ == Map::<i64, Seq<char>>::empty()
                &&& d.changeset_user_index@ == Map::<i64, i64>::empty()
            },
            r matches Err(e) ==> e.kind == crate::error::ErrorKind::Resource || !toc_defs_ok(toc@),
    {
        let user_index = match UserIndex::new() {
            Ok(ix) => ix,
            Err(e) => {
                return Err(e);
            },
        };
        let changeset_user_index = match ChangesetUserIndex::new() {
            Ok(ix) => ix,
            Err(e) => {
                return Err(e);
            },
        };
        let raw = match get_table_def_strings(toc) {
            Ok(raw) => raw,
            Err(e) => {
                return Err(e);
            },
        };
        let mut tables: Vec<TableDef> = Vec::new();
        let mut i: usize = 0;
        while i < raw.len()
            invariant
                0 <= i <= raw@.len(),
                raw.deep_view() == toc_pairs_decoded(toc@),
                forall|k: int|
                    0 <= k < toc_pairs(toc@).len() ==> pair_utf8_ok(#[trigger] toc_pairs(toc@)[k]),
                tables@.len() == i,
                forall|j: int|
                    0 <= j < i as int ==> toc_def_at(
                        toc@,
                        (#[trigger] tables@[j]).name@,
                        tables@[j].file_name@,
                        tables@[j].fields,
                        j,
                    ),
            decreases raw@.len() - i,
        {
            proof {
                let k = i as int;
                assert(raw.deep_view()[k] == raw@[k].deep_view());
                assert(raw@[k].deep_view().0 == raw@[k].0@);
                assert(raw.deep_view()[k] == toc_pairs_decoded(toc@)[k]);
                assert(toc_pairs_decoded(toc@)[k] == pair_decoded(toc_pairs(toc@)[k]));
                assert(pair_decoded(toc_pairs(toc@)[k]).0 == raw@[k].0@);
                assert(pair_utf8_ok(toc_pairs(toc@)[k]));
            }
            let (name, columns) = match parse_table_def(raw[i].0.as_str()) {
                Ok(nc) => nc,
                Err(e) => {
                    return Err(e);
                },
            };
            let td = match TableDef::new(name, raw[i].1.clone(), &columns) {
                Ok(td) => td,
                Err(e) => {
                    return Err(e);
                },
            };
            proof {
                let k = i as int;
                assert(raw.deep_view()[k] == raw@[k].deep_view());
                assert(raw@[k].deep_view().0 == raw@[k].0@);
                assert(raw@[k].deep_view().1 == raw@[k].1@);
                assert(raw.deep_view()[k] == toc_pairs_decoded(toc@)[k]);
                assert(toc_pairs_decoded(toc@)[k] == pair_decoded(toc_pairs(toc@)[k]));
                assert(pair_decoded(toc_pairs(toc@)[k]).0 == raw@[k].0@);
                assert(pair_decoded(toc_pairs(toc@)[k]).1 == raw@[k].1@);
                assert(pair_utf8_ok(toc_pairs(toc@)[k]));
                assert(parse_table_def_spec(pair_decoded(toc_pairs(toc@)[k]).0) matches Some(nc)
                    && nc.0 == td.name@ && table_fields_ok(td.name@, nc.1, td.fields));
                assert(toc_def_at(toc@, td.name@, td.file_name@, td.fields, k));
            }
            tables.push(td);
            i = i + 1;
        }
        Ok(Dump { tables, user_index, changeset_user_index })
    }

    /// Finds the table with the given relational name.
    #[verifier::loop_isolation(false)]
    pub fn find_table(&self, name: &str) -> (r: Option<&TableDef>)
        ensures
            match r {
                Some(td) => exists|i: int|
                    0 <= i < self.tables@.len() && (#[trigger] self.tables@[i]).name@ == name@
                        && td.name@ == name@ && td.file_name@ == self.tables@[i].file_name@
                        && td.fields == self.tables@[i].fields,
                None => forall|i: int|
                    0 <= i < self.tables@.len() ==> (#[trigger] self.tables@[i]).name@ != name@,
            },
    {
        let mut i: usize = 0;
        while i < self.tables.len()
            invariant
                0 <= i <= self.tables@.len(),
                forall|j: int|
                    0 <= j < i as int ==> (#[trigger] self.tables@[j]).name@ != name@,
            decreases self.tables@.len() - i,
        {
            if str_eq(self.tables[i].name.as_str(), name) {
                return Some(&self.tables[i]);
            }
            i = i + 1;
        }
        None
    }
}

/// What indexing the changesets table stores: each changeset row's user id
/// under its changeset id, in row order, last write winning.
pub open spec fn changesets_fold(m: Map<i64, i64>, records: Seq<TableRecordView>) -> Map<i64, i64>
    decreases records.len(),
{
    if records.len() == 0 {
        m
    } else {
        let m1 = changesets_fold(m, records.drop_last());
        match records.last() {
            TableRecordView::Changeset { changeset_record } => m1.insert(
                changeset_record.id,
                changeset_record.user_id,
            ),
            _ => m1,
        }
    }
}

/// What indexing the users table stores: each user row's display name under
/// its user id, in row order, last write winning.
pub open spec fn users_fold(m: Map<i64, Seq<char>>, records: Seq<TableRecordView>) -> Map<
    i64,
    Seq<char>,
>
    decreases records.len(),
{
    if records.len() == 0 {
        m
    } else {
        let m1 = users_fold(m, records.drop_last());
        match records.last() {
            TableRecordView::User { user_record } => m1.insert(
                user_record.id,
                user_record.display_name,
            ),
            _ => m1,
        }
    }
}

impl Dump {
    /// Feeds every changeset row into the changeset index; any row of
    /// another table is a structural error.
    #[verifier::loop_isolation(false)]
    pub fn index_changesets(&mut self, records: Vec<TableRecord>) -> (r: Result<(), OsmError>)
        ensures
            r is Ok ==> final(self).changeset_user_index@ == changesets_fold(
                old(self).changeset_user_index@,
                records.deep_view(),
            ),
            r is Ok ==> all_changesets(records.deep_view()),
            r matches Err(e) ==> e.kind == crate::error::ErrorKind::Resource || !all_changesets(
                records.deep_view(),
            ),
            final(self).tables@ == old(self).tables@,
            final(self).user_index@ == old(self).user_index@,
    {
        let ghost base = self.changeset_user_index@;
        let ghost rv = records.deep_view();
        let mut i: usize = 0;
        proof {
            assert(changesets_fold(base, rv.take(0)) == base) by {
                assert(rv.take(0) =~= Seq::<TableRecordView>::empty());
            }
        }
        for i in 0..records.len()
            invariant
                self.changeset_user_index@ == changesets_fold(base, rv.take(i as int)),
                self.tables@ == old(self).tables@,
                self.user_index@ == old(self).user_index@,
                rv.len() == records@.len(),
                forall|j: int| 0 <= j < i as int ==> (#[trigger] rv[j]) is Changeset,
        {
            match &records[i] {
                TableRecord::Changeset { changeset_record } => {
                    let res = self.changeset_user_index.insert(
                        changeset_record.id,
                        changeset_record.user_id,
                    );
                    match res {
                        Ok(_) => {},
                        Err(e) => {
                            return Err(e);
                        },
                    }
                    proof {
                        assert(rv.take(i + 1).drop_last() =~= rv.take(i as int));
                        assert(rv.take(i + 1).last() == rv[i as int]);
                    }
                },
                _ => {
                    proof {
                        assert(!(rv[i as int] is Changeset));
                    }
                    return Err(OsmError::new(String::from_str("not a changeset record")));
                },
            }
        }
        proof {
            assert(rv.take(records@.len() as int) =~= rv);
        }
        Ok(())
    }

    /// Feeds every user row into the user index; any row of another table
    /// is a structural error.
    #[verifier::loop_isolation(false)]
    pub fn index_users(&mut self, records: Vec<TableRecord>) -> (r: Result<(), OsmError>)
        ensures
            r is Ok ==> final(self).user_index@ == users_fold(
                old(self).user_index@,
                records.deep_view(),
            ),
            r is Ok ==> all_users(records.deep_view()),
            r matches Err(e) ==> e.kind == crate::error::ErrorKind::Resource || !all_users(
                records.deep_view(),
            ),
            final(self).tables@ == old(self).tables@,
            final(self).changeset_user_index@ == old(self).changeset_user_index@,
    {
        let ghost base = self.user_index@;
        let ghost rv = records.deep_view();
        proof {
            assert(users_fold(base, rv.take(0)) == base) by {
                assert(rv.take(0) =~= Seq::<TableRecordView>::empty());
            }
        }
        for i in 0..records.len()
            invariant
                self.user_index@ == users_fold(base, rv.take(i as int)),
                self.tables@ == old(self).tables@,
                self.changeset_user_index@ == old(self).changeset_user_index@,
                rv.len() == records@.len(),
                forall|j: int| 0 <= j < i as int ==> (#[trigger] rv[j]) is User,
        {
            match &records[i] {
                TableRecord::User { user_record } => {
                    let res = self.user_index.insert(
                        user_record.id,
                        user_record.display_name.clone(),
                    );
                    match res {
                        Ok(_) => {},
                        Err(e) => {
                            return Err(e);
                        },
                    }
                    proof {
                        assert(rv.take(i + 1).drop_last() =~= rv.take(i as int));
                        assert(rv.take(i + 1).last() == rv[i as int]);
                    }
                },
                _ => {
                    proof {
                        assert(!(rv[i as int] is User));
                    }
                    return Err(OsmError::new(String::from_str("not a user record")));
                },
            }
        }
        proof {
            assert(rv.take(records@.len() as int) =~= rv);
        }
        Ok(())
    }
}

/// The element one composite node record becomes, once its changeset's user
/// id and that user's display name are resolved.
pub open spec fn node_element_spec(rel: NodeRelationView, uid: i64, user: Seq<char>) -> NodeView {
    NodeView {
        id: rel.node.node_id,
        lat_dm: rel.node.latitude,
        lon_dm: rel.node.longitude,
        timestamp: rel.node.timestamp,
        changeset: rel.node.changeset_id,
        uid,
        user,
        visible: rel.node.visible,
        version: rel.node.version,
        tags: Seq::new(rel.tags.len(), |i: int| TagView { k: rel.tags[i].k, v: rel.tags[i].v }),
    }
}

/// Builds the node element of one composite record.
#[verifier::loop_isolation(false)]
pub fn node_relation_to_element(nr: &NodeRelation, uid: i64, user: String) -> (r: Element)
    ensures
        r@ == (ElementView::Node { node: node_element_spec(nr@, uid, user@) }),
{
    let mut tags: Vec<Tag> = Vec::new();
    let ghost target = node_element_spec(nr@, uid, user@).tags;
    proof {
        assert(tags.deep_view() =~= target.take(0));
    }
    let mut i: usize = 0;
    while i < nr.tags.len()
        invariant
            0 <= i <= nr.tags@.len(),
            target.len() == nr.tags@.len(),
            tags.deep_view() == target.take(i as int),
        decreases nr.tags@.len() - i,
    {
        let ghost before = tags.deep_view();
        tags.push(Tag { k: nr.tags[i].k.clone(), v: nr.tags[i].v.clone() });
        proof {
            assert(tags.deep_view() =~= before.push(target[i as int]));
            assert(target.take(i + 1) =~= target.take(i as int).push(target[i as int]));
        }
        i = i + 1;
    }
    proof {
        assert(target.take(nr.tags@.len() as int) =~= target);
    }
    let node = Node {
        id: nr.node.node_id,
        lat_dm: nr.node.latitude,
        lon_dm: nr.node.longitude,
        timestamp: nr.node.timestamp,
        changeset: nr.node.changeset_id,
        uid,
        user,
        visible: nr.node.visible,
        version: nr.node.version,
        tags,
    };
    proof {
        assert(node@ =~~= node_element_spec(nr@, uid, user@));
    }
    Element::Node { node }
}

/// The element stream of a sequence of composite records under the two
/// lookup maps: defined when every changeset and user resolves.
pub open spec fn node_elements_spec(
    rels: Seq<NodeRelationView>,
    cs: Map<i64, i64>,
    um: Map<i64, Seq<char>>,
) -> Seq<ElementView> {
    Seq::new(
        rels.len(),
        |i: int|
            ElementView::Node {
                node: node_element_spec(
                    rels[i],
                    cs[rels[i].node.changeset_id],
                    um[cs[rels[i].node.changeset_id]],
                ),
            },
    )
}

/// Every composite record's changeset id resolves to a user id, and that
/// user id to a display name.
pub open spec fn lookups_resolve(
    rels: Seq<NodeRelationView>,
    cs: Map<i64, i64>,
    um: Map<i64, Seq<char>>,
) -> bool {
    forall|i: int|
        0 <= i < rels.len() ==> cs.contains_key((#[trigger] rels[i]).node.changeset_id)
            && um.contains_key(cs[rels[i].node.changeset_id])
}

/// Turns the composite records into node elements, resolving each
/// changeset to its user and each user to a display name through the two
/// indices; an unresolved lookup is a structural error.
#[verifier::loop_isolation(false)]
pub fn node_elements(
    rels: &Vec<NodeRelation>,
    cs: &ChangesetUserIndex,
    um: &UserIndex,
) -> (r: Result<Vec<Element>, OsmError>)
    ensures
        r matches Ok(els) ==> lookups_resolve(rels.deep_view(), cs@, um@) && els.deep_view()
            == node_elements_spec(rels.deep_view(), cs@, um@),
        r matches Err(e) ==> e.kind == crate::error::ErrorKind::Resource || !lookups_resolve(
            rels.deep_view(),
            cs@,
            um@,
        ),
{
    let mut out: Vec<Element> = Vec::new();
    let ghost target = node_elements_spec(rels.deep_view(), cs@, um@);
    proof {
        assert(out.deep_view() =~= target.take(0));
    }
    let mut i: usize = 0;
    while i < rels.len()
        invariant
            0 <= i <= rels@.len(),
            target.len() == rels@.len(),
            out.deep_view() == target.take(i as int),
            forall|j: int|
                0 <= j < i as int ==> cs@.contains_key(
                    (#[trigger] rels.deep_view()[j]).node.changeset_id,
                ) && um@.contains_key(cs@[rels.deep_view()[j].node.changeset_id]),
        decreases rels@.len() - i,
    {
        let uid = match cs.get(rels[i].node.changeset_id) {
            Ok(Some(uid)) => uid,
            Ok(None) => {
                proof {
                    assert(!cs@.contains_key(
                        (rels.deep_view()[i as int]).node.changeset_id,
                    ));
                }
                return Err(OsmError::new(String::from_str("changeset not indexed")));
            },
            Err(e) => {
                return Err(e);
            },
        };
        let user = match um.get(uid) {
            Ok(Some(user)) => user,
            Ok(None) => {
                proof {
                    assert(cs@[(rels.deep_view()[i as int]).node.changeset_id] == uid);
                    assert(!um@.contains_key(uid));
                }
                return Err(OsmError::new(String::from_str("user not indexed")));
            },
            Err(e) => {
                return Err(e);
            },
        };
        let el = node_relation_to_element(&rels[i], uid, user);
        let ghost before = out.deep_view();
        out.push(el);
        proof {
            assert(rels.deep_view()[i as int] == rels@[i as int]@);
            assert(out.deep_view() =~= before.push(target[i as int]));
            assert(target.take(i + 1) =~= target.take(i as int).push(target[i as int]));
        }
        i = i + 1;
    }
    proof {
        assert(target.take(rels@.len() as int) =~= target);
    }
    Ok(out)
}

/// Rows read with the nodes offsets are node records.
pub proof fn lemma_records_all_nodes(lines: Seq<Seq<char>>, tf: TableFields)
    requires
        tf is Nodes,
    ensures
        all_nodes(records_of(lines, tf)),
    decreases lines.len(),
{
    if lines.len() > 0 && !crate::reader::is_end_line(lines[0]) {
        lemma_records_all_nodes(lines.drop_first(), tf);
        let rest = records_of(lines.drop_first(), tf);
        match crate::reader::decode_row_spec(crate::text::split_on(lines[0], '\t'), tf) {
            Some(rv) => {
                assert(rv is Node);
                assert(forall|i: int|
                    0 <= i < rest.len() ==> (seq![rv] + rest)[i + 1] == #[trigger] rest[i]);
                assert(all_nodes(records_of(lines, tf)));
            },
            None => {},
        }
    }
}

/// Rows read with the node_tags offsets are node tag records.
pub proof fn lemma_records_all_node_tags(lines: Seq<Seq<char>>, tf: TableFields)
    requires
        tf is NodeTags,
    ensures
        all_node_tags(records_of(lines, tf)),
    decreases lines.len(),
{
    if lines.len() > 0 && !crate::reader::is_end_line(lines[0]) {
        lemma_records_all_node_tags(lines.drop_first(), tf);
        let rest = records_of(lines.drop_first(), tf);
        match crate::reader::decode_row_spec(crate::text::split_on(lines[0], '\t'), tf) {
            Some(rv) => {
                assert(rv is NodeTag);
                assert(forall|i: int|
                    0 <= i < rest.len() ==> (seq![rv] + rest)[i + 1] == #[trigger] rest[i]);
                assert(all_node_tags(records_of(lines, tf)));
            },
            None => {},
        }
    }
}

proof fn lemma_node_key_mono(s: Seq<TableRecordView>, i: int, j: int)
    requires
        0 <= i < j < s.len(),
        forall|p: int| 1 <= p < s.len() ==> node_key(s, p - 1) < #[trigger] node_key(s, p),
    ensures
        node_key(s, i) < node_key(s, j),
    decreases j - i,
{
    if j == i + 1 {
        assert(node_key(s, j - 1) < node_key(s, j));
    } else {
        lemma_node_key_mono(s, i, j - 1);
        assert(node_key(s, j - 1) < node_key(s, j));
    }
}

/// Checks that node ids ascend strictly, the ordering the archive owes.
#[verifier::loop_isolation(false)]
fn check_nodes_sorted(records: &Vec<TableRecord>) -> (r: bool)
    requires
        all_nodes(records.deep_view()),
    ensures
        r == nodes_strictly_sorted(records.deep_view()),
{
    let ghost s = records.deep_view();
    let mut i: usize = 1;
    if records.len() == 0 {
        return true;
    }
    while i < records.len()
        invariant
            1 <= i <= s.len(),
            forall|p: int| 1 <= p < i as int ==> node_key(s, p - 1) < #[trigger] node_key(s, p),
        decreases s.len() - i,
    {
        let prev = match &records[i - 1] {
            TableRecord::Node { node_record } => node_record.node_id,
            _ => {
                proof {
                    assert(s[i - 1] is Node);
                    assert(false);
                }
                0
            },
        };
        let cur = match &records[i] {
            TableRecord::Node { node_record } => node_record.node_id,
            _ => {
                proof {
                    assert(s[i as int] is Node);
                    assert(false);
                }
                0
            },
        };
        if prev >= cur {
            proof {
                assert(node_key(s, i - 1) >= node_key(s, i as int));
            }
            return false;
        }
        proof {
            assert(node_key(s, i - 1) < node_key(s, i as int));
        }
        i = i + 1;
    }
    proof {
        assert forall|a: int, b: int| 0 <= a < b < s.len() implies (
        #[trigger] s[a])->Node_node_record.node_id < (#[trigger] s[b])->Node_node_record.node_id by {
            lemma_node_key_mono(s, a, b);
        }
    }
    true
}

proof fn lemma_tag_key_mono(s: Seq<crate::record::NodeTagView>, i: int, j: int)
    requires
        0 <= i < j < s.len(),
        forall|p: int| 1 <= p < s.len() ==> (#[trigger] s[p]).node_id >= s[p - 1].node_id,
    ensures
        s[i].node_id <= s[j].node_id,
    decreases j - i,
{
    if j == i + 1 {
    } else {
        lemma_tag_key_mono(s, i, j - 1);
    }
}

/// Checks that tag node ids never descend, the ordering the archive owes.
#[verifier::loop_isolation(false)]
fn check_tags_sorted(records: &Vec<TableRecord>) -> (r: bool)
    requires
        all_node_tags(records.deep_view()),
    ensures
        r == tags_sorted(tag_views(records.deep_view())),
{
    let ghost s = tag_views(records.deep_view());
    if records.len() == 0 {
        return true;
    }
    let mut i: usize = 1;
    while i < records.len()
        invariant
            1 <= i <= s.len(),
            s.len() == records@.len(),
            forall|p: int| 1 <= p < i as int ==> (#[trigger] s[p]).node_id >= s[p - 1].node_id,
        decreases s.len() - i,
    {
        let prev = match &records[i - 1] {
            TableRecord::NodeTag { node_tag_record } => node_tag_record.node_id,
            _ => {
                proof {
                    assert(records.deep_view()[i - 1] is NodeTag);
                    assert(false);
                }
                0
            },
        };
        let cur = match &records[i] {
            TableRecord::NodeTag { node_tag_record } => node_tag_record.node_id,
            _ => {
                proof {
                    assert(records.deep_view()[i as int] is NodeTag);
                    assert(false);
                }
                0
            },
        };
        if prev > cur {
            proof {
                assert(s[i - 1].node_id > s[i as int].node_id);
            }
            return false;
        }
        proof {
            assert(s[i as int].node_id >= s[i - 1].node_id);
        }
        i = i + 1;
    }
    proof {
        assert forall|a: int, b: int| 0 <= a < b < s.len() implies (#[trigger] s[a]).node_id <= (
        #[trigger] s[b]).node_id by {
            lemma_tag_key_mono(s, a, b);
        }
    }
    true
}

/// Checks that every tag's node id occurs among the node rows, so no tag
/// is left unattached by the join.
#[verifier::loop_isolation(false)]
fn check_tags_covered(tag_records: &Vec<TableRecord>, node_records: &Vec<TableRecord>) -> (r: bool)
    requires
        all_node_tags(tag_records.deep_view()),
        all_nodes(node_records.deep_view()),
    ensures
        r == tags_covered(tag_views(tag_records.deep_view()), node_records.deep_view()),
{
    let ghost ts = tag_views(tag_records.deep_view());
    let ghost ns = node_records.deep_view();
    let mut i: usize = 0;
    while i < tag_records.len()
        invariant
            0 <= i <= ts.len(),
            ts.len() == tag_records@.len(),
            forall|p: int| 0 <= p < i as int ==> #[trigger] covered_at(ts, ns, p),
        decreases ts.len() - i,
    {
        let tid = match &tag_records[i] {
            TableRecord::NodeTag { node_tag_record } => node_tag_record.node_id,
            _ => {
                proof {
                    assert(tag_records.deep_view()[i as int] is NodeTag);
                    assert(false);
                }
                0
            },
        };
        let mut j: usize = 0;
        let mut found = false;
        while j < node_records.len()
            invariant
                0 <= j <= ns.len(),
                ns.len() == node_records@.len(),
                tid == ts[i as int].node_id,
                i < ts.len(),
                found ==> covered_at(ts, ns, i as int),
                !found ==> forall|q: int|
                    0 <= q < j as int ==> (#[trigger] ns[q])->Node_node_record.node_id != tid,
            decreases ns.len() - j,
        {
            let nid = match &node_records[j] {
                TableRecord::Node { node_record } => node_record.node_id,
                _ => {
                    proof {
                        assert(ns[j as int] is Node);
                        assert(false);
                    }
                    0
                },
            };
            if nid == tid {
                found = true;
                proof {
                    assert(ts[i as int].node_id == ns[j as int]->Node_node_record.node_id);
                }
                break ;
            }
            j = j + 1;
        }
        if !found {
            proof {
                if covered_at(ts, ns, i as int) {
                    let q = choose|q: int|
                        0 <= q < ns.len() && ts[i as int].node_id
                            == (#[trigger] ns[q])->Node_node_record.node_id;
                    assert(ns[q]->Node_node_record.node_id != tid);
                }
            }
            return false;
        }
        i = i + 1;
    }
    true
}

/// The first file with this name holds this content.
pub open spec fn file_content(
    fs: Seq<(Seq<char>, Seq<char>)>,
    name: Seq<char>,
    content: Seq<char>,
) -> bool {
    exists|i: int|
        {
            &&& 0 <= i < fs.len()
            &&& (#[trigger] fs[i]).0 == name
            &&& fs[i].1 == content
            &&& forall|j: int| 0 <= j < i ==> (#[trigger] fs[j]).0 != name
        }
}

/// Finds the first file with the given name.
#[verifier::loop_isolation(false)]
fn find_file<'a>(files: &'a Vec<(String, String)>, name: &str) -> (r: Option<&'a String>)
    ensures
        match r {
            Some(c) => file_content(files.deep_view(), name@, c@),
            None => forall|i: int|
                0 <= i < files.deep_view().len() ==> (#[trigger] files.deep_view()[i]).0 != name@,
        },
{
    let ghost fs = files.deep_view();
    let mut i: usize = 0;
    while i < files.len()
        invariant
            0 <= i <= fs.len(),
            fs.len() == files@.len(),
            forall|j: int| 0 <= j < i as int ==> (#[trigger] fs[j]).0 != name@,
        decreases fs.len() - i,
    {
        if str_eq(files[i].0.as_str(), name) {
            proof {
                assert(fs[i as int] == files@[i as int].deep_view());
                assert(fs[i as int].0 == name@ && fs[i as int].1 == files@[i as int].1@);
            }
            return Some(&files[i].1);
        }
        proof {
            assert(fs[i as int] == files@[i as int].deep_view());
        }
        i = i + 1;
    }
    None
}

/// The table of contents locates this table, the file set holds its data
/// file, and its rows decode to these records.
pub open spec fn table_recs(
    toc: Seq<u8>,
    fs: Seq<(Seq<char>, Seq<char>)>,
    name: Seq<char>,
    recs: Seq<TableRecordView>,
) -> bool {
    exists|file_name: Seq<char>, tf: TableFields, content: Seq<char>|
        #![trigger toc_def_for(toc, name, file_name, tf), file_content(fs, file_name, content)]
        {
            &&& toc_def_for(toc, name, file_name, tf)
            &&& file_content(fs, file_name, content)
            &&& recs == records_of(crate::text::split_on(content, '\n'), tf)
        }
}

/// What a successful export emits: the element stream reconstructed from
/// the ten tables the pass reads — each node with its tags, each way with
/// its ordered node references and tags, each relation with its members and
/// tags, users resolved through the changeset and user tables — followed by
/// a terminal sentinel. The node streams satisfy the archive's ordering
/// guarantee and every lookup resolves.
pub open spec fn export_elements_ok(
    toc: Seq<u8>,
    fs: Seq<(Seq<char>, Seq<char>)>,
    els: Seq<ElementView>,
) -> bool {
    exists|
        nrecs: Seq<TableRecordView>,
        trecs: Seq<TableRecordView>,
        wrecs: Seq<TableRecordView>,
        wnrecs: Seq<TableRecordView>,
        wtrecs: Seq<TableRecordView>,
        rlrecs: Seq<TableRecordView>,
        rmrecs: Seq<TableRecordView>,
        rtrecs: Seq<TableRecordView>,
        crecs: Seq<TableRecordView>,
        urecs: Seq<TableRecordView>,
    |
        #![trigger table_recs(toc, fs, "public.nodes"@, nrecs), table_recs(toc, fs, "public.node_tags"@, trecs), table_recs(toc, fs, "public.ways"@, wrecs), table_recs(toc, fs, "public.way_nodes"@, wnrecs), table_recs(toc, fs, "public.way_tags"@, wtrecs), table_recs(toc, fs, "public.relations"@, rlrecs), table_recs(toc, fs, "public.relation_members"@, rmrecs), table_recs(toc, fs, "public.relation_tags"@, rtrecs), table_recs(toc, fs, "public.changesets"@, crecs), table_recs(toc, fs, "public.users"@, urecs)]
        {
            &&& table_recs(toc, fs, "public.nodes"@, nrecs)
            &&& table_recs(toc, fs, "public.node_tags"@, trecs)
            &&& table_recs(toc, fs, "public.ways"@, wrecs)
            &&& table_recs(toc, fs, "public.way_nodes"@, wnrecs)
            &&& table_recs(toc, fs, "public.way_tags"@, wtrecs)
            &&& table_recs(toc, fs, "public.relations"@, rlrecs)
            &&& table_recs(toc, fs, "public.relation_members"@, rmrecs)
            &&& table_recs(toc, fs, "public.relation_tags"@, rtrecs)
            &&& table_recs(toc, fs, "public.changesets"@, crecs)
            &&& table_recs(toc, fs, "public.users"@, urecs)
            &&& nodes_strictly_sorted(nrecs)
            &&& tags_sorted(tag_views(trecs))
            &&& tags_covered(tag_views(trecs), nrecs)
            &&& crate::join::all_ways(wrecs)
            &&& crate::join::all_relations(rlrecs)
            &&& all_changesets(crecs)
            &&& all_users(urecs)
            &&& lookups_resolve(
                node_relations_of(nrecs, tag_views(trecs)),
                changesets_fold(Map::empty(), crecs),
                users_fold(Map::empty(), urecs),
            )
            &&& way_lookups_resolve(
                crate::join::way_relations_of(wrecs, wnrecs, wtrecs),
                changesets_fold(Map::empty(), crecs),
                users_fold(Map::empty(), urecs),
            )
            &&& relation_lookups_resolve(
                crate::join::relation_composites_of(rlrecs, rmrecs, rtrecs),
                changesets_fold(Map::empty(), crecs),
                users_fold(Map::empty(), urecs),
            )
            &&& els == node_elements_spec(
                node_relations_of(nrecs, tag_views(trecs)),
                changesets_fold(Map::empty(), crecs),
                users_fold(Map::empty(), urecs),
            ) + way_elements_spec(
                crate::join::way_relations_of(wrecs, wnrecs, wtrecs),
                changesets_fold(Map::empty(), crecs),
                users_fold(Map::empty(), urecs),
            ) + relation_elements_spec(
                crate::join::relation_composites_of(rlrecs, rmrecs, rtrecs),
                changesets_fold(Map::empty(), crecs),
                users_fold(Map::empty(), urecs),
            ) + seq![ElementView::Sentinel]
        }
}

/// The table of contents locates this table in the file set, and its data
/// file's lines decode to these records.
pub open spec fn loaded_table(
    toc: Seq<u8>,
    fs: Seq<(Seq<char>, Seq<char>)>,
    name: Seq<char>,
    tf: TableFields,
    lines: Seq<Seq<char>>,
    recs: Seq<TableRecordView>,
) -> bool {
    exists|file_name: Seq<char>, content: Seq<char>|
        #![trigger toc_def_for(toc, name, file_name, tf), file_content(fs, file_name, content)]
        {
            &&& toc_def_for(toc, name, file_name, tf)
            &&& file_content(fs, file_name, content)
            &&& lines == crate::text::split_on(content, '\n')
            &&& recs == records_of(lines, tf)
        }
}


/// Every node row's changeset resolves, and its user id to a name.
pub open spec fn node_parents_resolve(
    n: Seq<TableRecordView>,
    cs: Map<i64, i64>,
    um: Map<i64, Seq<char>>,
) -> bool {
    forall|i: int|
        0 <= i < n.len() ==> cs.contains_key(
            (#[trigger] n[i])->Node_node_record.changeset_id,
        ) && um.contains_key(cs[n[i]->Node_node_record.changeset_id])
}

/// Every way row's changeset resolves, and its user id to a name.
pub open spec fn way_parents_resolve(
    w: Seq<TableRecordView>,
    cs: Map<i64, i64>,
    um: Map<i64, Seq<char>>,
) -> bool {
    forall|i: int|
        0 <= i < w.len() ==> cs.contains_key((#[trigger] w[i])->Way_changeset_id)
            && um.contains_key(cs[w[i]->Way_changeset_id])
}

/// Every relation row's changeset resolves, and its user id to a name.
pub open spec fn relation_parents_resolve(
    rl: Seq<TableRecordView>,
    cs: Map<i64, i64>,
    um: Map<i64, Seq<char>>,
) -> bool {
    forall|i: int|
        0 <= i < rl.len() ==> cs.contains_key((#[trigger] rl[i])->Relation_changeset_id)
            && um.contains_key(cs[rl[i]->Relation_changeset_id])
}

/// The composite node records resolve exactly when their node rows do.
proof fn lemma_node_resolve_bridge(
    nrecs: Seq<TableRecordView>,
    tags: Seq<crate::record::NodeTagView>,
    cs: Map<i64, i64>,
    um: Map<i64, Seq<char>>,
)
    ensures
        lookups_resolve(node_relations_of(nrecs, tags), cs, um) <==> node_parents_resolve(
            nrecs,
            cs,
            um,
        ),
{
    reveal(node_relations_of);
    let rels = node_relations_of(nrecs, tags);
    if node_parents_resolve(nrecs, cs, um) {
        assert forall|i: int| 0 <= i < rels.len() implies cs.contains_key(
            (#[trigger] rels[i]).node.changeset_id,
        ) && um.contains_key(cs[rels[i].node.changeset_id]) by {
            assert(rels[i].node.changeset_id == nrecs[i]->Node_node_record.changeset_id);
            assert(cs.contains_key(nrecs[i]->Node_node_record.changeset_id) && um.contains_key(
                cs[nrecs[i]->Node_node_record.changeset_id],
            ));
        }
    }
    if lookups_resolve(rels, cs, um) {
        assert forall|i: int| 0 <= i < nrecs.len() implies cs.contains_key(
            (#[trigger] nrecs[i])->Node_node_record.changeset_id,
        ) && um.contains_key(cs[nrecs[i]->Node_node_record.changeset_id]) by {
            assert(rels[i].node.changeset_id == nrecs[i]->Node_node_record.changeset_id);
            assert(cs.contains_key(rels[i].node.changeset_id) && um.contains_key(
                cs[rels[i].node.changeset_id],
            ));
        }
    }
}

/// The composite way records resolve exactly when their way rows do.
proof fn lemma_way_resolve_bridge(
    wrecs: Seq<TableRecordView>,
    wnrecs: Seq<TableRecordView>,
    wtrecs: Seq<TableRecordView>,
    cs: Map<i64, i64>,
    um: Map<i64, Seq<char>>,
)
    ensures
        way_lookups_resolve(crate::join::way_relations_of(wrecs, wnrecs, wtrecs), cs, um)
            <==> way_parents_resolve(wrecs, cs, um),
{
    let rels = crate::join::way_relations_of(wrecs, wnrecs, wtrecs);
    if way_parents_resolve(wrecs, cs, um) {
        assert forall|i: int| 0 <= i < rels.len() implies cs.contains_key(
            (#[trigger] rels[i]).changeset_id,
        ) && um.contains_key(cs[rels[i].changeset_id]) by {
            assert(rels[i].changeset_id == wrecs[i]->Way_changeset_id);
            assert(cs.contains_key(wrecs[i]->Way_changeset_id) && um.contains_key(
                cs[wrecs[i]->Way_changeset_id],
            ));
        }
    }
    if way_lookups_resolve(rels, cs, um) {
        assert forall|i: int| 0 <= i < wrecs.len() implies cs.contains_key(
            (#[trigger] wrecs[i])->Way_changeset_id,
        ) && um.contains_key(cs[wrecs[i]->Way_changeset_id]) by {
            assert(rels[i].changeset_id == wrecs[i]->Way_changeset_id);
            assert(cs.contains_key(rels[i].changeset_id) && um.contains_key(
                cs[rels[i].changeset_id],
            ));
        }
    }
}

/// The composite relation records resolve exactly when their rows do.
proof fn lemma_relation_resolve_bridge(
    rlrecs: Seq<TableRecordView>,
    rmrecs: Seq<TableRecordView>,
    rtrecs: Seq<TableRecordView>,
    cs: Map<i64, i64>,
    um: Map<i64, Seq<char>>,
)
    ensures
        relation_lookups_resolve(
            crate::join::relation_composites_of(rlrecs, rmrecs, rtrecs),
            cs,
            um,
        ) <==> relation_parents_resolve(rlrecs, cs, um),
{
    let rels = crate::join::relation_composites_of(rlrecs, rmrecs, rtrecs);
    if relation_parents_resolve(rlrecs, cs, um) {
        assert forall|i: int| 0 <= i < rels.len() implies cs.contains_key(
            (#[trigger] rels[i]).changeset_id,
        ) && um.contains_key(cs[rels[i].changeset_id]) by {
            assert(rels[i].changeset_id == rlrecs[i]->Relation_changeset_id);
            assert(cs.contains_key(rlrecs[i]->Relation_changeset_id) && um.contains_key(
                cs[rlrecs[i]->Relation_changeset_id],
            ));
        }
    }
    if relation_lookups_resolve(rels, cs, um) {
        assert forall|i: int| 0 <= i < rlrecs.len() implies cs.contains_key(
            (#[trigger] rlrecs[i])->Relation_changeset_id,
        ) && um.contains_key(cs[rlrecs[i]->Relation_changeset_id]) by {
            assert(rels[i].changeset_id == rlrecs[i]->Relation_changeset_id);
            assert(cs.contains_key(rels[i].changeset_id) && um.contains_key(
                cs[rels[i].changeset_id],
            ));
        }
    }
}

/// The rows of every located nodes table ascend strictly by node id.
pub open spec fn nodes_sorted_ok(toc: Seq<u8>, fs: Seq<(Seq<char>, Seq<char>)>) -> bool {
    forall|k: int, f: Seq<char>, tf: TableFields, c: Seq<char>|
        #![trigger toc_def_at(toc, "public.nodes"@, f, tf, k), file_content(fs, f, c)]
        toc_def_at(toc, "public.nodes"@, f, tf, k) && file_content(fs, f, c)
            ==> nodes_strictly_sorted(records_of(crate::text::split_on(c, '\n'), tf))
}

/// The rows of every located node_tags table never descend by node id.
pub open spec fn node_tags_sorted_ok(toc: Seq<u8>, fs: Seq<(Seq<char>, Seq<char>)>) -> bool {
    forall|k: int, f: Seq<char>, tf: TableFields, c: Seq<char>|
        #![trigger toc_def_at(toc, "public.node_tags"@, f, tf, k), file_content(fs, f, c)]
        toc_def_at(toc, "public.node_tags"@, f, tf, k) && file_content(fs, f, c)
            ==> tags_sorted(tag_views(records_of(crate::text::split_on(c, '\n'), tf)))
}

/// Every tag of every located node_tags table has its node in the located
/// nodes table.
pub open spec fn node_tags_covered_ok(toc: Seq<u8>, fs: Seq<(Seq<char>, Seq<char>)>) -> bool {
    forall|
        kn: int,
        fn_: Seq<char>,
        tfn: TableFields,
        cn: Seq<char>,
        kt: int,
        ft: Seq<char>,
        tft: TableFields,
        ct: Seq<char>,
    |
        #![trigger toc_def_at(toc, "public.nodes"@, fn_, tfn, kn), file_content(fs, fn_, cn), toc_def_at(toc, "public.node_tags"@, ft, tft, kt), file_content(fs, ft, ct)]
        toc_def_at(toc, "public.nodes"@, fn_, tfn, kn) && file_content(fs, fn_, cn) && toc_def_at(
            toc,
            "public.node_tags"@,
            ft,
            tft,
            kt,
        ) && file_content(fs, ft, ct) ==> tags_covered(
            tag_views(records_of(crate::text::split_on(ct, '\n'), tft)),
            records_of(crate::text::split_on(cn, '\n'), tfn),
        )
}

/// The rows of every located table of this name are all of its record kind.
pub open spec fn rows_all_ways_ok(toc: Seq<u8>, fs: Seq<(Seq<char>, Seq<char>)>) -> bool {
    forall|k: int, f: Seq<char>, tf: TableFields, c: Seq<char>|
        #![trigger toc_def_at(toc, "public.ways"@, f, tf, k), file_content(fs, f, c)]
        toc_def_at(toc, "public.ways"@, f, tf, k) && file_content(fs, f, c)
            ==> crate::join::all_ways(records_of(crate::text::split_on(c, '\n'), tf))
}

pub open spec fn rows_all_relations_ok(toc: Seq<u8>, fs: Seq<(Seq<char>, Seq<char>)>) -> bool {
    forall|k: int, f: Seq<char>, tf: TableFields, c: Seq<char>|
        #![trigger toc_def_at(toc, "public.relations"@, f, tf, k), file_content(fs, f, c)]
        toc_def_at(toc, "public.relations"@, f, tf, k) && file_content(fs, f, c)
            ==> crate::join::all_relations(records_of(crate::text::split_on(c, '\n'), tf))
}

pub open spec fn rows_all_changesets_ok(toc: Seq<u8>, fs: Seq<(Seq<char>, Seq<char>)>) -> bool {
    forall|k: int, f: Seq<char>, tf: TableFields, c: Seq<char>|
        #![trigger toc_def_at(toc, "public.changesets"@, f, tf, k), file_content(fs, f, c)]
        toc_def_at(toc, "public.changesets"@, f, tf, k) && file_content(fs, f, c)
            ==> all_changesets(records_of(crate::text::split_on(c, '\n'), tf))
}

pub open spec fn rows_all_users_ok(toc: Seq<u8>, fs: Seq<(Seq<char>, Seq<char>)>) -> bool {
    forall|k: int, f: Seq<char>, tf: TableFields, c: Seq<char>|
        #![trigger toc_def_at(toc, "public.users"@, f, tf, k), file_content(fs, f, c)]
        toc_def_at(toc, "public.users"@, f, tf, k) && file_content(fs, f, c)
            ==> all_users(records_of(crate::text::split_on(c, '\n'), tf))
}

/// Every changeset named by a parent row of the given kind is in the
/// located changesets table, and its user in the located users table.
pub open spec fn nodes_resolve_ok(toc: Seq<u8>, fs: Seq<(Seq<char>, Seq<char>)>) -> bool {
    forall|
        kn: int,
        fn_: Seq<char>,
        tfn: TableFields,
        cn: Seq<char>,
        kc: int,
        fc: Seq<char>,
        tfc: TableFields,
        cc: Seq<char>,
        ku: int,
        fu: Seq<char>,
        tfu: TableFields,
        cu: Seq<char>,
    |
        #![trigger toc_def_at(toc, "public.nodes"@, fn_, tfn, kn), file_content(fs, fn_, cn), toc_def_at(toc, "public.changesets"@, fc, tfc, kc), file_content(fs, fc, cc), toc_def_at(toc, "public.users"@, fu, tfu, ku), file_content(fs, fu, cu)]
        toc_def_at(toc, "public.nodes"@, fn_, tfn, kn) && file_content(fs, fn_, cn) && toc_def_at(
            toc,
            "public.changesets"@,
            fc,
            tfc,
            kc,
        ) && file_content(fs, fc, cc) && toc_def_at(toc, "public.users"@, fu, tfu, ku)
            && file_content(fs, fu, cu) ==> node_parents_resolve(
            records_of(crate::text::split_on(cn, '\n'), tfn),
            changesets_fold(Map::empty(), records_of(crate::text::split_on(cc, '\n'), tfc)),
            users_fold(Map::empty(), records_of(crate::text::split_on(cu, '\n'), tfu)),
        )
}

pub open spec fn ways_resolve_ok(toc: Seq<u8>, fs: Seq<(Seq<char>, Seq<char>)>) -> bool {
    forall|
        kn: int,
        fn_: Seq<char>,
        tfn: TableFields,
        cn: Seq<char>,
        kc: int,
        fc: Seq<char>,
        tfc: TableFields,
        cc: Seq<char>,
        ku: int,
        fu: Seq<char>,
        tfu: TableFields,
        cu: Seq<char>,
    |
        #![trigger toc_def_at(toc, "public.ways"@, fn_, tfn, kn), file_content(fs, fn_, cn), toc_def_at(toc, "public.changesets"@, fc, tfc, kc), file_content(fs, fc, cc), toc_def_at(toc, "public.users"@, fu, tfu, ku), file_content(fs, fu, cu)]
        toc_def_at(toc, "public.ways"@, fn_, tfn, kn) && file_content(fs, fn_, cn) && toc_def_at(
            toc,
            "public.changesets"@,
            fc,
            tfc,
            kc,
        ) && file_content(fs, fc, cc) && toc_def_at(toc, "public.users"@, fu, tfu, ku)
            && file_content(fs, fu, cu) ==> way_parents_resolve(
            records_of(crate::text::split_on(cn, '\n'), tfn),
            changesets_fold(Map::empty(), records_of(crate::text::split_on(cc, '\n'), tfc)),
            users_fold(Map::empty(), records_of(crate::text::split_on(cu, '\n'), tfu)),
        )
}

pub open spec fn relations_resolve_ok(toc: Seq<u8>, fs: Seq<(Seq<char>, Seq<char>)>) -> bool {
    forall|
        kn: int,
        fn_: Seq<char>,
        tfn: TableFields,
        cn: Seq<char>,
        kc: int,
        fc: Seq<char>,
        tfc: TableFields,
        cc: Seq<char>,
        ku: int,
        fu: Seq<char>,
        tfu: TableFields,
        cu: Seq<char>,
    |
        #![trigger toc_def_at(toc, "public.relations"@, fn_, tfn, kn), file_content(fs, fn_, cn), toc_def_at(toc, "public.changesets"@, fc, tfc, kc), file_content(fs, fc, cc), toc_def_at(toc, "public.users"@, fu, tfu, ku), file_content(fs, fu, cu)]
        toc_def_at(toc, "public.relations"@, fn_, tfn, kn) && file_content(fs, fn_, cn)
            && toc_def_at(toc, "public.changesets"@, fc, tfc, kc) && file_content(fs, fc, cc)
            && toc_def_at(toc, "public.users"@, fu, tfu, ku) && file_content(fs, fu, cu)
            ==> relation_parents_resolve(
            records_of(crate::text::split_on(cn, '\n'), tfn),
            changesets_fold(Map::empty(), records_of(crate::text::split_on(cc, '\n'), tfc)),
            users_fold(Map::empty(), records_of(crate::text::split_on(cu, '\n'), tfu)),
        )
}

/// A well-formed archive: every directive parses and names a known table
/// with its columns declared; the ten tables the pass reads are named and
/// their data files present; the node streams satisfy the ordering the join
/// relies on; the child-bearing tables hold only their own record kinds;
/// and every changeset and user a parent row names is indexed. On such an
/// archive the export owes success, short of a resource fault.
pub open spec fn archive_ok(toc: Seq<u8>, fs: Seq<(Seq<char>, Seq<char>)>) -> bool {
    &&& toc_defs_ok(toc)
    &&& located_ok(toc, fs, "public.nodes"@)
    &&& located_ok(toc, fs, "public.node_tags"@)
    &&& located_ok(toc, fs, "public.ways"@)
    &&& located_ok(toc, fs, "public.way_nodes"@)
    &&& located_ok(toc, fs, "public.way_tags"@)
    &&& located_ok(toc, fs, "public.relations"@)
    &&& located_ok(toc, fs, "public.relation_members"@)
    &&& located_ok(toc, fs, "public.relation_tags"@)
    &&& located_ok(toc, fs, "public.changesets"@)
    &&& located_ok(toc, fs, "public.users"@)
    &&& nodes_sorted_ok(toc, fs)
    &&& node_tags_sorted_ok(toc, fs)
    &&& node_tags_covered_ok(toc, fs)
    &&& rows_all_ways_ok(toc, fs)
    &&& rows_all_relations_ok(toc, fs)
    &&& rows_all_changesets_ok(toc, fs)
    &&& rows_all_users_ok(toc, fs)
    &&& nodes_resolve_ok(toc, fs)
    &&& ways_resolve_ok(toc, fs)
    &&& relations_resolve_ok(toc, fs)
}

/// Opens a loaded table back into its directive and file-content witnesses.
proof fn lemma_loaded_witnesses(
    toc: Seq<u8>,
    fs: Seq<(Seq<char>, Seq<char>)>,
    name: Seq<char>,
    tf: TableFields,
    lines: Seq<Seq<char>>,
    recs: Seq<TableRecordView>,
) -> (w: (int, Seq<char>, Seq<char>))
    requires
        loaded_table(toc, fs, name, tf, lines, recs),
    ensures
        toc_def_at(toc, name, w.1, tf, w.0),
        file_content(fs, w.1, w.2),
        recs == records_of(crate::text::split_on(w.2, '\n'), tf),
{
    let (f, c) = choose|f: Seq<char>, c: Seq<char>|
        #![trigger toc_def_for(toc, name, f, tf), file_content(fs, f, c)]
        {
            &&& toc_def_for(toc, name, f, tf)
            &&& file_content(fs, f, c)
            &&& lines == crate::text::split_on(c, '\n')
            &&& recs == records_of(lines, tf)
        };
    let k = choose|k: int| #[trigger] toc_def_at(toc, name, f, tf, k);
    (k, f, c)
}

/// A loaded table's records satisfy the located-records predicate.
proof fn lemma_loaded_table_recs(
    toc: Seq<u8>,
    fs: Seq<(Seq<char>, Seq<char>)>,
    name: Seq<char>,
    tf: TableFields,
    lines: Seq<Seq<char>>,
    recs: Seq<TableRecordView>,
)
    requires
        loaded_table(toc, fs, name, tf, lines, recs),
    ensures
        table_recs(toc, fs, name, recs),
{
    let (file_name, content) = choose|file_name: Seq<char>, content: Seq<char>|
        #![trigger toc_def_for(toc, name, file_name, tf), file_content(fs, file_name, content)]
        {
            &&& toc_def_for(toc, name, file_name, tf)
            &&& file_content(fs, file_name, content)
            &&& lines == crate::text::split_on(content, '\n')
            &&& recs == records_of(lines, tf)
        };
    assert(toc_def_for(toc, name, file_name, tf) && file_content(fs, file_name, content) && recs
        == records_of(crate::text::split_on(content, '\n'), tf));
}

/// Locates one table through the table of contents, finds its data file,
/// and reads its rows.
#[verifier::loop_isolation(false)]
fn load_table(
    dump: &Dump,
    toc: &Vec<u8>,
    files: &Vec<(String, String)>,
    name: &str,
) -> (r: Result<(TableReader, Vec<String>, Vec<TableRecord>), OsmError>)
    requires
        dump_tables_at(toc@, dump.tables@),
    ensures
        r matches Ok(t) ==> loaded_table(
            toc@,
            files.deep_view(),
            name@,
            t.0.table_def.fields,
            t.1.deep_view(),
            t.2.deep_view(),
        ),
        r matches Err(e) ==> e.kind == crate::error::ErrorKind::Structure && !located_ok(
            toc@,
            files.deep_view(),
            name@,
        ),
{
    let def = match dump.find_table(name) {
        Some(d) => d,
        None => {
            proof {
                assert forall|k: int| !#[trigger] directive_names(toc@, k, name@) by {
                    if 0 <= k < toc_pairs(toc@).len() {
                        assert(toc_def_at(
                            toc@,
                            dump.tables@[k].name@,
                            dump.tables@[k].file_name@,
                            dump.tables@[k].fields,
                            k,
                        ));
                        assert(dump.tables@[k].name@ != name@);
                    }
                }
            }
            return Err(OsmError::new(crate::text::message_with(
                "table missing from archive: ",
                name,
            )));
        },
    };
    let content = match find_file(files, def.file_name.as_str()) {
        Some(c) => c,
        None => {
            proof {
                let i = choose|i: int|
                    0 <= i < dump.tables@.len() && (#[trigger] dump.tables@[i]).name@ == name@
                        && def.name@ == name@ && def.file_name@ == dump.tables@[i].file_name@
                        && def.fields == dump.tables@[i].fields;
                assert(toc_def_at(toc@, name@, def.file_name@, def.fields, i));
                assert(directive_names(toc@, i, name@));
                assert(pair_decoded(toc_pairs(toc@)[i]).1 == def.file_name@);
                if exists|c: Seq<char>|
                    #[trigger] file_content(files.deep_view(), def.file_name@, c) {
                    let c = choose|c: Seq<char>|
                        #[trigger] file_content(files.deep_view(), def.file_name@, c);
                    let j = choose|j: int|
                        {
                            &&& 0 <= j < files.deep_view().len()
                            &&& (#[trigger] files.deep_view()[j]).0 == def.file_name@
                            &&& files.deep_view()[j].1 == c
                            &&& forall|q: int|
                                0 <= q < j ==> (#[trigger] files.deep_view()[q]).0
                                    != def.file_name@
                        };
                    assert(files.deep_view()[j].0 != def.file_name@);
                }
            }
            return Err(OsmError::new(crate::text::message_with(
                "table data file missing: ",
                name,
            )));
        },
    };
    let lines = split_lines(content.as_str());
    let reader = TableReader::new(def)?;
    let recs = crate::reader::read_table(&reader, split_lines(content.as_str()));
    proof {
        assert(toc_def_for(toc@, name@, def.file_name@, reader.table_def.fields));
        assert(file_content(files.deep_view(), def.file_name@, content@));
        assert(loaded_table(
            toc@,
            files.deep_view(),
            name@,
            reader.table_def.fields,
            lines.deep_view(),
            recs.deep_view(),
        ));
    }
    Ok((reader, lines, recs))
}

/// A loaded nodes table carries the nodes offsets and only node rows.
proof fn lemma_loaded_nodes(
    toc: Seq<u8>,
    fs: Seq<(Seq<char>, Seq<char>)>,
    tf: TableFields,
    lines: Seq<Seq<char>>,
    recs: Seq<TableRecordView>,
)
    requires
        loaded_table(toc, fs, "public.nodes"@, tf, lines, recs),
    ensures
        tf is Nodes,
        all_nodes(recs),
{
    let name = "public.nodes"@;
    let (file_name, content) = choose|file_name: Seq<char>, content: Seq<char>|
        #![trigger toc_def_for(toc, name, file_name, tf), file_content(fs, file_name, content)]
        {
            &&& toc_def_for(toc, name, file_name, tf)
            &&& file_content(fs, file_name, content)
            &&& lines == crate::text::split_on(content, '\n')
            &&& recs == records_of(lines, tf)
        };
    lemma_def_variant_nodes(toc, file_name, tf);
    lemma_records_all_nodes(lines, tf);
}

/// A loaded node_tags table carries the node_tags offsets and only tag
/// rows.
proof fn lemma_loaded_node_tags(
    toc: Seq<u8>,
    fs: Seq<(Seq<char>, Seq<char>)>,
    tf: TableFields,
    lines: Seq<Seq<char>>,
    recs: Seq<TableRecordView>,
)
    requires
        loaded_table(toc, fs, "public.node_tags"@, tf, lines, recs),
    ensures
        tf is NodeTags,
        all_node_tags(recs),
{
    let name = "public.node_tags"@;
    let (file_name, content) = choose|file_name: Seq<char>, content: Seq<char>|
        #![trigger toc_def_for(toc, name, file_name, tf), file_content(fs, file_name, content)]
        {
            &&& toc_def_for(toc, name, file_name, tf)
            &&& file_content(fs, file_name, content)
            &&& lines == crate::text::split_on(content, '\n')
            &&& recs == records_of(lines, tf)
        };
    lemma_def_variant_node_tags(toc, file_name, tf);
    lemma_records_all_node_tags(lines, tf);
}

/// Checks the join's ordering preconditions and runs the streaming join.
#[verifier::loop_isolation(false)]
#[verifier::spinoff_prover]
#[verifier::rlimit(100)]
fn join_node_tables(
    nr_reader: NodeRelationsReader,
    n_lines: Vec<String>,
    t_lines: Vec<String>,
    n_recs: &Vec<TableRecord>,
    t_recs: &Vec<TableRecord>,
) -> (r: Result<Vec<NodeRelation>, OsmError>)
    requires
        n_recs.deep_view() == records_of(
            n_lines.deep_view(),
            nr_reader.nodes_reader.table_def.fields,
        ),
        t_recs.deep_view() == records_of(
            t_lines.deep_view(),
            nr_reader.node_tags_reader.table_def.fields,
        ),
        all_nodes(n_recs.deep_view()),
        all_node_tags(t_recs.deep_view()),
    ensures
        r matches Ok(rels) ==> {
            &&& nodes_strictly_sorted(n_recs.deep_view())
            &&& tags_sorted(tag_views(t_recs.deep_view()))
            &&& tags_covered(tag_views(t_recs.deep_view()), n_recs.deep_view())
            &&& rels.deep_view() == node_relations_of(
                n_recs.deep_view(),
                tag_views(t_recs.deep_view()),
            )
        },
        r matches Err(e) ==> e.kind == crate::error::ErrorKind::Structure && !(
        nodes_strictly_sorted(n_recs.deep_view()) && tags_sorted(tag_views(t_recs.deep_view()))
            && tags_covered(tag_views(t_recs.deep_view()), n_recs.deep_view())),
{
    if !check_nodes_sorted(n_recs) {
        return Err(OsmError::new(String::from_str("nodes table not sorted")));
    }
    if !check_tags_sorted(t_recs) {
        return Err(OsmError::new(String::from_str("node_tags table not sorted")));
    }
    if !check_tags_covered(t_recs, n_recs) {
        return Err(OsmError::new(String::from_str("node tag without its node")));
    }
    let mut it = NodeRelationsIterator::new(&nr_reader, n_lines, t_lines);
    proof {
        assert(it.nodes_iterator.remaining() == n_recs.deep_view());
        assert(it.tags_model() == tag_views(t_recs.deep_view()));
        assert(it.nodes_iterator.wf());
        assert(it.node_tags_iterator.wf());
        assert(all_nodes(it.nodes_iterator.remaining()));
        assert(nodes_strictly_sorted(it.nodes_iterator.remaining()));
        assert(all_node_tags(it.node_tags_iterator.remaining()));
        assert(tags_sorted(it.tags_model()));
        assert(tags_covered(it.tags_model(), it.nodes_iterator.remaining()));
        assert(it.wf());
    }
    let rels = it.collect_relations();
    Ok(rels)
}

/// The final composition: everything a successful pass established, put
/// together as the export statement.
#[verifier::rlimit(100)]
#[verifier::spinoff_prover]
proof fn lemma_export_ok(
    toc: Seq<u8>,
    fs: Seq<(Seq<char>, Seq<char>)>,
    tfn: TableFields,
    tft: TableFields,
    tfw: TableFields,
    tfwn: TableFields,
    tfwt: TableFields,
    tfrl: TableFields,
    tfrm: TableFields,
    tfrt: TableFields,
    tfc: TableFields,
    tfu: TableFields,
    n_lines: Seq<Seq<char>>,
    t_lines: Seq<Seq<char>>,
    w_lines: Seq<Seq<char>>,
    wn_lines: Seq<Seq<char>>,
    wt_lines: Seq<Seq<char>>,
    rl_lines: Seq<Seq<char>>,
    rm_lines: Seq<Seq<char>>,
    rt_lines: Seq<Seq<char>>,
    c_lines: Seq<Seq<char>>,
    u_lines: Seq<Seq<char>>,
    nrecs: Seq<TableRecordView>,
    trecs: Seq<TableRecordView>,
    wrecs: Seq<TableRecordView>,
    wnrecs: Seq<TableRecordView>,
    wtrecs: Seq<TableRecordView>,
    rlrecs: Seq<TableRecordView>,
    rmrecs: Seq<TableRecordView>,
    rtrecs: Seq<TableRecordView>,
    crecs: Seq<TableRecordView>,
    urecs: Seq<TableRecordView>,
    els: Seq<ElementView>,
)
    requires
        loaded_table(toc, fs, "public.nodes"@, tfn, n_lines, nrecs),
        loaded_table(toc, fs, "public.node_tags"@, tft, t_lines, trecs),
        loaded_table(toc, fs, "public.ways"@, tfw, w_lines, wrecs),
        loaded_table(toc, fs, "public.way_nodes"@, tfwn, wn_lines, wnrecs),
        loaded_table(toc, fs, "public.way_tags"@, tfwt, wt_lines, wtrecs),
        loaded_table(toc, fs, "public.relations"@, tfrl, rl_lines, rlrecs),
        loaded_table(toc, fs, "public.relation_members"@, tfrm, rm_lines, rmrecs),
        loaded_table(toc, fs, "public.relation_tags"@, tfrt, rt_lines, rtrecs),
        loaded_table(toc, fs, "public.changesets"@, tfc, c_lines, crecs),
        loaded_table(toc, fs, "public.users"@, tfu, u_lines, urecs),
        nodes_strictly_sorted(nrecs),
        tags_sorted(tag_views(trecs)),
        tags_covered(tag_views(trecs), nrecs),
        crate::join::all_ways(wrecs),
        crate::join::all_relations(rlrecs),
        all_changesets(crecs),
        all_users(urecs),
        lookups_resolve(
            node_relations_of(nrecs, tag_views(trecs)),
            changesets_fold(Map::empty(), crecs),
            users_fold(Map::empty(), urecs),
        ),
        way_lookups_resolve(
            crate::join::way_relations_of(wrecs, wnrecs, wtrecs),
            changesets_fold(Map::empty(), crecs),
            users_fold(Map::empty(), urecs),
        ),
        relation_lookups_resolve(
            crate::join::relation_composites_of(rlrecs, rmrecs, rtrecs),
            changesets_fold(Map::empty(), crecs),
            users_fold(Map::empty(), urecs),
        ),
        els == node_elements_spec(
            node_relations_of(nrecs, tag_views(trecs)),
            changesets_fold(Map::empty(), crecs),
            users_fold(Map::empty(), urecs),
        ) + way_elements_spec(
            crate::join::way_relations_of(wrecs, wnrecs, wtrecs),
            changesets_fold(Map::empty(), crecs),
            users_fold(Map::empty(), urecs),
        ) + relation_elements_spec(
            crate::join::relation_composites_of(rlrecs, rmrecs, rtrecs),
            changesets_fold(Map::empty(), crecs),
            users_fold(Map::empty(), urecs),
        ) + seq![ElementView::Sentinel],
    ensures
        export_elements_ok(toc, fs, els),
{
    lemma_loaded_table_recs(toc, fs, "public.nodes"@, tfn, n_lines, nrecs);
    lemma_loaded_table_recs(toc, fs, "public.node_tags"@, tft, t_lines, trecs);
    lemma_loaded_table_recs(toc, fs, "public.ways"@, tfw, w_lines, wrecs);
    lemma_loaded_table_recs(toc, fs, "public.way_nodes"@, tfwn, wn_lines, wnrecs);
    lemma_loaded_table_recs(toc, fs, "public.way_tags"@, tfwt, wt_lines, wtrecs);
    lemma_loaded_table_recs(toc, fs, "public.relations"@, tfrl, rl_lines, rlrecs);
    lemma_loaded_table_recs(toc, fs, "public.relation_members"@, tfrm, rm_lines, rmrecs);
    lemma_loaded_table_recs(toc, fs, "public.relation_tags"@, tfrt, rt_lines, rtrecs);
    lemma_loaded_table_recs(toc, fs, "public.changesets"@, tfc, c_lines, crecs);
    lemma_loaded_table_recs(toc, fs, "public.users"@, tfu, u_lines, urecs);
    assert(export_elements_ok(toc, fs, els));
}

/// One full export pass over a dump archive handed in as its table of
/// contents and data files: parses the table of contents, indexes the
/// changesets and users tables, checks the ordering the node join relies
/// on, joins each node with its tags, each way with its node references and
/// tags, and each relation with its members and tags, and emits the element
/// stream — nodes, then ways, then relations — with a terminal sentinel.
/// On a well-formed archive the pass fails only on a resource fault.
#[verifier::loop_isolation(false)]
#[verifier::spinoff_prover]
#[verifier::rlimit(100)]
pub fn generate(toc: &Vec<u8>, files: &Vec<(String, String)>) -> (r: Result<Vec<Element>, OsmError>)
    ensures
        r matches Ok(els) ==> export_elements_ok(toc@, files.deep_view(), els.deep_view()),
        r matches Err(e) ==> e.kind == crate::error::ErrorKind::Resource || !archive_ok(
            toc@,
            files.deep_view(),
        ),
{
    let ghost fsv = files.deep_view();
    let mut dump = match Dump::new(toc) {
        Ok(d) => d,
        Err(e) => {
            return Err(e);
        },
    };
    let (cs_reader, cs_lines, cs_recs) = match load_table(&dump, toc, files, "public.changesets") {
        Ok(t) => t,
        Err(e) => {
            return Err(e);
        },
    };
    let (u_reader, u_lines, u_recs) = match load_table(&dump, toc, files, "public.users") {
        Ok(t) => t,
        Err(e) => {
            return Err(e);
        },
    };
    let (n_reader, n_lines, n_recs) = match load_table(&dump, toc, files, "public.nodes") {
        Ok(t) => t,
        Err(e) => {
            return Err(e);
        },
    };
    let (t_reader, t_lines, t_recs) = match load_table(&dump, toc, files, "public.node_tags") {
        Ok(t) => t,
        Err(e) => {
            return Err(e);
        },
    };
    let (w_reader, w_lines, w_recs) = match load_table(&dump, toc, files, "public.ways") {
        Ok(t) => t,
        Err(e) => {
            return Err(e);
        },
    };
    let (wn_reader, wn_lines, wn_recs) = match load_table(&dump, toc, files, "public.way_nodes") {
        Ok(t) => t,
        Err(e) => {
            return Err(e);
        },
    };
    let (wt_reader, wt_lines, wt_recs) = match load_table(&dump, toc, files, "public.way_tags") {
        Ok(t) => t,
        Err(e) => {
            return Err(e);
        },
    };
    let (rl_reader, rl_lines, rl_recs) = match load_table(&dump, toc, files, "public.relations") {
        Ok(t) => t,
        Err(e) => {
            return Err(e);
        },
    };
    let (rm_reader, rm_lines, rm_recs) = match load_table(
        &dump,
        toc,
        files,
        "public.relation_members",
    ) {
        Ok(t) => t,
        Err(e) => {
            return Err(e);
        },
    };
    let (rt_reader, rt_lines, rt_recs) = match load_table(
        &dump,
        toc,
        files,
        "public.relation_tags",
    ) {
        Ok(t) => t,
        Err(e) => {
            return Err(e);
        },
    };
    let ghost crecs = cs_recs.deep_view();
    let ghost urecs = u_recs.deep_view();
    let ghost nrecs = n_recs.deep_view();
    let ghost trecs = t_recs.deep_view();
    let ghost wrecs = w_recs.deep_view();
    let ghost wnrecs = wn_recs.deep_view();
    let ghost wtrecs = wt_recs.deep_view();
    let ghost rlrecs = rl_recs.deep_view();
    let ghost rmrecs = rm_recs.deep_view();
    let ghost rtrecs = rt_recs.deep_view();
    let ghost n_lines_v = n_lines.deep_view();
    let ghost t_lines_v = t_lines.deep_view();
    let ghost c_lines_v = cs_lines.deep_view();
    let ghost u_lines_v = u_lines.deep_view();
    let ghost tfn = n_reader.table_def.fields;
    let ghost tft = t_reader.table_def.fields;
    let ghost tfc = cs_reader.table_def.fields;
    let ghost tfu = u_reader.table_def.fields;

    match dump.index_changesets(cs_recs) {
        Ok(_) => {},
        Err(e) => {
            proof {
                if e.kind != crate::error::ErrorKind::Resource {
                    let w = lemma_loaded_witnesses(toc@, fsv, "public.changesets"@, tfc, c_lines_v, crecs);
                    if rows_all_changesets_ok(toc@, fsv) {
                        assert(all_changesets(crecs));
                    }
                }
            }
            return Err(e);
        },
    }
    match dump.index_users(u_recs) {
        Ok(_) => {},
        Err(e) => {
            proof {
                if e.kind != crate::error::ErrorKind::Resource {
                    let w = lemma_loaded_witnesses(toc@, fsv, "public.users"@, tfu, u_lines_v, urecs);
                    if rows_all_users_ok(toc@, fsv) {
                        assert(all_users(urecs));
                    }
                }
            }
            return Err(e);
        },
    }
    proof {
        assert(dump.changeset_user_index@ == changesets_fold(Map::empty(), crecs));
        assert(dump.user_index@ == users_fold(Map::empty(), urecs));
        lemma_loaded_nodes(toc@, fsv, tfn, n_lines_v, nrecs);
        lemma_loaded_node_tags(toc@, fsv, tft, t_lines_v, trecs);
    }
    let nr_reader = NodeRelationsReader { nodes_reader: n_reader, node_tags_reader: t_reader };
    let rels = match join_node_tables(nr_reader, n_lines, t_lines, &n_recs, &t_recs) {
        Ok(rels) => rels,
        Err(e) => {
            proof {
                let w1 = lemma_loaded_witnesses(toc@, fsv, "public.nodes"@, tfn, n_lines_v, nrecs);
                let w2 = lemma_loaded_witnesses(toc@, fsv, "public.node_tags"@, tft, t_lines_v, trecs);
                if nodes_sorted_ok(toc@, fsv) {
                    assert(nodes_strictly_sorted(nrecs));
                }
                if node_tags_sorted_ok(toc@, fsv) {
                    assert(tags_sorted(tag_views(trecs)));
                }
                if node_tags_covered_ok(toc@, fsv) {
                    assert(tags_covered(tag_views(trecs), nrecs));
                }
            }
            return Err(e);
        },
    };
    let wrels = match crate::join::way_relations(&w_recs, &wn_recs, &wt_recs) {
        Ok(w) => w,
        Err(e) => {
            proof {
                let w = lemma_loaded_witnesses(
                    toc@,
                    fsv,
                    "public.ways"@,
                    w_reader.table_def.fields,
                    w_lines.deep_view(),
                    wrecs,
                );
                if rows_all_ways_ok(toc@, fsv) {
                    assert(crate::join::all_ways(wrecs));
                }
            }
            return Err(e);
        },
    };
    let rcomps = match crate::join::relation_composites(&rl_recs, &rm_recs, &rt_recs) {
        Ok(rc) => rc,
        Err(e) => {
            proof {
                let w = lemma_loaded_witnesses(
                    toc@,
                    fsv,
                    "public.relations"@,
                    rl_reader.table_def.fields,
                    rl_lines.deep_view(),
                    rlrecs,
                );
                if rows_all_relations_ok(toc@, fsv) {
                    assert(crate::join::all_relations(rlrecs));
                }
            }
            return Err(e);
        },
    };
    let mut els = match node_elements(&rels, &dump.changeset_user_index, &dump.user_index) {
        Ok(els) => els,
        Err(e) => {
            proof {
                if e.kind != crate::error::ErrorKind::Resource {
                    let w1 = lemma_loaded_witnesses(toc@, fsv, "public.nodes"@, tfn, n_lines_v, nrecs);
                    let w2 = lemma_loaded_witnesses(toc@, fsv, "public.changesets"@, tfc, c_lines_v, crecs);
                    let w3 = lemma_loaded_witnesses(toc@, fsv, "public.users"@, tfu, u_lines_v, urecs);
                    lemma_node_resolve_bridge(
                        nrecs,
                        tag_views(trecs),
                        changesets_fold(Map::empty(), crecs),
                        users_fold(Map::empty(), urecs),
                    );
                    if nodes_resolve_ok(toc@, fsv) {
                        assert(node_parents_resolve(
                            nrecs,
                            changesets_fold(Map::empty(), crecs),
                            users_fold(Map::empty(), urecs),
                        ));
                    }
                }
            }
            return Err(e);
        },
    };
    let mut w_els = match way_elements(&wrels, &dump.changeset_user_index, &dump.user_index) {
        Ok(els) => els,
        Err(e) => {
            proof {
                if e.kind != crate::error::ErrorKind::Resource {
                    let w1 = lemma_loaded_witnesses(
                        toc@,
                        fsv,
                        "public.ways"@,
                        w_reader.table_def.fields,
                        w_lines.deep_view(),
                        wrecs,
                    );
                    let w2 = lemma_loaded_witnesses(toc@, fsv, "public.changesets"@, tfc, c_lines_v, crecs);
                    let w3 = lemma_loaded_witnesses(toc@, fsv, "public.users"@, tfu, u_lines_v, urecs);
                    lemma_way_resolve_bridge(
                        wrecs,
                        wnrecs,
                        wtrecs,
                        changesets_fold(Map::empty(), crecs),
                        users_fold(Map::empty(), urecs),
                    );
                    if ways_resolve_ok(toc@, fsv) {
                        assert(way_parents_resolve(
                            wrecs,
                            changesets_fold(Map::empty(), crecs),
                            users_fold(Map::empty(), urecs),
                        ));
                    }
                }
            }
            return Err(e);
        },
    };
    let mut r_els = match relation_elements(&rcomps, &dump.changeset_user_index, &dump.user_index) {
        Ok(els) => els,
        Err(e) => {
            proof {
                if e.kind != crate::error::ErrorKind::Resource {
                    let w1 = lemma_loaded_witnesses(
                        toc@,
                        fsv,
                        "public.relations"@,
                        rl_reader.table_def.fields,
                        rl_lines.deep_view(),
                        rlrecs,
                    );
                    let w2 = lemma_loaded_witnesses(toc@, fsv, "public.changesets"@, tfc, c_lines_v, crecs);
                    let w3 = lemma_loaded_witnesses(toc@, fsv, "public.users"@, tfu, u_lines_v, urecs);
                    lemma_relation_resolve_bridge(
                        rlrecs,
                        rmrecs,
                        rtrecs,
                        changesets_fold(Map::empty(), crecs),
                        users_fold(Map::empty(), urecs),
                    );
                    if relations_resolve_ok(toc@, fsv) {
                        assert(relation_parents_resolve(
                            rlrecs,
                            changesets_fold(Map::empty(), crecs),
                            users_fold(Map::empty(), urecs),
                        ));
                    }
                }
            }
            return Err(e);
        },
    };
    let ghost n_core = els.deep_view();
    let ghost w_core = w_els.deep_view();
    let ghost r_core = r_els.deep_view();
    els.append(&mut w_els);
    els.append(&mut r_els);
    els.push(Element::Sentinel);
    proof {
        assert(els.deep_view() =~= n_core + w_core + r_core + seq![ElementView::Sentinel]);
        lemma_export_ok(
            toc@,
            fsv,
            tfn,
            tft,
            w_reader.table_def.fields,
            wn_reader.table_def.fields,
            wt_reader.table_def.fields,
            rl_reader.table_def.fields,
            rm_reader.table_def.fields,
            rt_reader.table_def.fields,
            tfc,
            tfu,
            n_lines_v,
            t_lines_v,
            w_lines.deep_view(),
            wn_lines.deep_view(),
            wt_lines.deep_view(),
            rl_lines.deep_view(),
            rm_lines.deep_view(),
            rt_lines.deep_view(),
            c_lines_v,
            u_lines_v,
            nrecs,
            trecs,
            wrecs,
            wnrecs,
            wtrecs,
            rlrecs,
            rmrecs,
            rtrecs,
            crecs,
            urecs,
            els.deep_view(),
        );
    }
    Ok(els)
}

/// A definition the table of contents gives for the nodes table carries
/// the nodes offsets.
proof fn lemma_def_variant_nodes(toc: Seq<u8>, file_name: Seq<char>, tf: TableFields)
    requires
        toc_def_for(toc, "public.nodes"@, file_name, tf),
    ensures
        tf is Nodes,
{
    let k = choose|k: int| #[trigger] toc_def_at(toc, "public.nodes"@, file_name, tf, k);
    assert(toc_def_at(toc, "public.nodes"@, file_name, tf, k));
    reveal_strlit("public.nodes");
    reveal_strlit("public.node_tags");
    reveal_strlit("public.ways");
    reveal_strlit("public.way_nodes");
    reveal_strlit("public.way_tags");
    reveal_strlit("public.relations");
    reveal_strlit("public.relation_members");
    reveal_strlit("public.relation_tags");
    reveal_strlit("public.changesets");
    reveal_strlit("public.users");
}

/// A definition the table of contents gives for the node_tags table
/// carries the node_tags offsets.
proof fn lemma_def_variant_node_tags(toc: Seq<u8>, file_name: Seq<char>, tf: TableFields)
    requires
        toc_def_for(toc, "public.node_tags"@, file_name, tf),
    ensures
        tf is NodeTags,
{
    let k = choose|k: int| #[trigger] toc_def_at(toc, "public.node_tags"@, file_name, tf, k);
    assert(toc_def_at(toc, "public.node_tags"@, file_name, tf, k));
    reveal_strlit("public.nodes");
    reveal_strlit("public.node_tags");
    assert("public.node_tags"@ != "public.nodes"@) by {
        assert("public.node_tags"@.len() == 16);
        assert("public.nodes"@.len() == 12);
    }
    assert(crate::fields::node_tags_fields_ok(
        (parse_table_def_spec(pair_decoded(toc_pairs(toc)[k]).0)->0).1,
        tf,
    ));
    reveal_strlit("public.ways");
    reveal_strlit("public.way_nodes");
    reveal_strlit("public.way_tags");
    reveal_strlit("public.relations");
    reveal_strlit("public.relation_members");
    reveal_strlit("public.relation_tags");
    reveal_strlit("public.changesets");
    reveal_strlit("public.users");
}

/// The element one composite way record becomes, once its changeset's user
/// id and that user's display name are resolved.
pub open spec fn way_element_spec(wr: crate::join::WayRelationView, uid: i64, user: Seq<char>) -> crate::element::WayView {
    crate::element::WayView {
        id: wr.way_id,
        timestamp: wr.timestamp,
        changeset: wr.changeset_id,
        uid,
        user,
        visible: wr.visible,
        version: wr.version,
        tags: wr.tags,
        refs: wr.refs,
    }
}

/// The element one composite relation record becomes.
pub open spec fn relation_element_spec(
    rc: crate::join::RelationCompositeView,
    uid: i64,
    user: Seq<char>,
) -> crate::element::RelationView {
    crate::element::RelationView {
        id: rc.relation_id,
        timestamp: rc.timestamp,
        changeset: rc.changeset_id,
        uid,
        user,
        visible: rc.visible,
        version: rc.version,
        tags: rc.tags,
        members: rc.members,
    }
}

#[verifier::loop_isolation(false)]
fn copy_tags(tags: &Vec<Tag>) -> (r: Vec<Tag>)
    ensures
        r.deep_view() == tags.deep_view(),
{
    let mut out: Vec<Tag> = Vec::new();
    proof {
        assert(out.deep_view() =~= tags.deep_view().take(0));
    }
    let mut i: usize = 0;
    while i < tags.len()
        invariant
            0 <= i <= tags@.len(),
            out.deep_view() == tags.deep_view().take(i as int),
        decreases tags@.len() - i,
    {
        let ghost before = out.deep_view();
        out.push(Tag { k: tags[i].k.clone(), v: tags[i].v.clone() });
        proof {
            assert(out.deep_view() =~= before.push(tags.deep_view()[i as int]));
            assert(tags.deep_view().take(i + 1) =~= tags.deep_view().take(i as int).push(
                tags.deep_view()[i as int],
            ));
        }
        i = i + 1;
    }
    proof {
        assert(tags.deep_view().take(tags@.len() as int) =~= tags.deep_view());
    }
    out
}

#[verifier::loop_isolation(false)]
fn copy_refs(refs: &Vec<i64>) -> (r: Vec<i64>)
    ensures
        r.deep_view() == refs.deep_view(),
        r@ == refs@,
{
    let mut out: Vec<i64> = Vec::new();
    let mut i: usize = 0;
    while i < refs.len()
        invariant
            0 <= i <= refs@.len(),
            out@ == refs@.take(i as int),
        decreases refs@.len() - i,
    {
        out.push(refs[i]);
        proof {
            assert(out@ =~= refs@.take(i + 1));
        }
        i = i + 1;
    }
    proof {
        assert(refs@.take(refs@.len() as int) =~= refs@);
        assert(out.deep_view() =~= refs.deep_view());
    }
    out
}

#[verifier::loop_isolation(false)]
fn copy_members(members: &Vec<crate::element::Member>) -> (r: Vec<crate::element::Member>)
    ensures
        r.deep_view() == members.deep_view(),
{
    let mut out: Vec<crate::element::Member> = Vec::new();
    proof {
        assert(out.deep_view() =~= members.deep_view().take(0));
    }
    let mut i: usize = 0;
    while i < members.len()
        invariant
            0 <= i <= members@.len(),
            out.deep_view() == members.deep_view().take(i as int),
        decreases members@.len() - i,
    {
        let ghost before = out.deep_view();
        out.push(
            crate::element::Member {
                member_type: members[i].member_type,
                member_id: members[i].member_id,
                member_role: members[i].member_role.clone(),
            },
        );
        proof {
            assert(out.deep_view() =~= before.push(members.deep_view()[i as int]));
            assert(members.deep_view().take(i + 1) =~= members.deep_view().take(i as int).push(
                members.deep_view()[i as int],
            ));
        }
        i = i + 1;
    }
    proof {
        assert(members.deep_view().take(members@.len() as int) =~= members.deep_view());
    }
    out
}

/// Builds the way element of one composite record.
pub fn way_relation_to_element(wr: &crate::join::WayRelation, uid: i64, user: String) -> (r:
    Element)
    ensures
        r@ == (ElementView::Way { way: way_element_spec(wr@, uid, user@) }),
{
    let tags = copy_tags(&wr.tags);
    let refs = copy_refs(&wr.refs);
    let way = crate::element::Way {
        id: wr.way_id,
        timestamp: wr.timestamp,
        changeset: wr.changeset_id,
        uid,
        user,
        visible: wr.visible,
        version: wr.version,
        tags,
        refs,
    };
    proof {
        assert(way@ =~~= way_element_spec(wr@, uid, user@));
    }
    Element::Way { way }
}

/// Builds the relation element of one composite record.
pub fn relation_composite_to_element(
    rc: &crate::join::RelationComposite,
    uid: i64,
    user: String,
) -> (r: Element)
    ensures
        r@ == (ElementView::Relation { relation: relation_element_spec(rc@, uid, user@) }),
{
    let tags = copy_tags(&rc.tags);
    let members = copy_members(&rc.members);
    let relation = crate::element::Relation {
        id: rc.relation_id,
        timestamp: rc.timestamp,
        changeset: rc.changeset_id,
        uid,
        user,
        visible: rc.visible,
        version: rc.version,
        tags,
        members,
    };
    proof {
        assert(relation@ =~~= relation_element_spec(rc@, uid, user@));
    }
    Element::Relation { relation }
}

/// The element stream of the composite way records under the two lookup
/// maps.
pub open spec fn way_elements_spec(
    rels: Seq<crate::join::WayRelationView>,
    cs: Map<i64, i64>,
    um: Map<i64, Seq<char>>,
) -> Seq<ElementView> {
    Seq::new(
        rels.len(),
        |i: int|
            ElementView::Way {
                way: way_element_spec(
                    rels[i],
                    cs[rels[i].changeset_id],
                    um[cs[rels[i].changeset_id]],
                ),
            },
    )
}

/// Every composite way's changeset id resolves to a user id, and that user
/// id to a display name.
pub open spec fn way_lookups_resolve(
    rels: Seq<crate::join::WayRelationView>,
    cs: Map<i64, i64>,
    um: Map<i64, Seq<char>>,
) -> bool {
    forall|i: int|
        0 <= i < rels.len() ==> cs.contains_key((#[trigger] rels[i]).changeset_id)
            && um.contains_key(cs[rels[i].changeset_id])
}

/// The element stream of the composite relation records under the two
/// lookup maps.
pub open spec fn relation_elements_spec(
    rels: Seq<crate::join::RelationCompositeView>,
    cs: Map<i64, i64>,
    um: Map<i64, Seq<char>>,
) -> Seq<ElementView> {
    Seq::new(
        rels.len(),
        |i: int|
            ElementView::Relation {
                relation: relation_element_spec(
                    rels[i],
                    cs[rels[i].changeset_id],
                    um[cs[rels[i].changeset_id]],
                ),
            },
    )
}

/// Every composite relation's changeset id resolves to a user id, and that
/// user id to a display name.
pub open spec fn relation_lookups_resolve(
    rels: Seq<crate::join::RelationCompositeView>,
    cs: Map<i64, i64>,
    um: Map<i64, Seq<char>>,
) -> bool {
    forall|i: int|
        0 <= i < rels.len() ==> cs.contains_key((#[trigger] rels[i]).changeset_id)
            && um.contains_key(cs[rels[i].changeset_id])
}

/// Turns the composite way records into way elements, resolving each
/// changeset and user through the two indices.
#[verifier::loop_isolation(false)]
pub fn way_elements(
    rels: &Vec<crate::join::WayRelation>,
    cs: &ChangesetUserIndex,
    um: &UserIndex,
) -> (r: Result<Vec<Element>, OsmError>)
    ensures
        r matches Ok(els) ==> way_lookups_resolve(rels.deep_view(), cs@, um@) && els.deep_view()
            == way_elements_spec(rels.deep_view(), cs@, um@),
        r matches Err(e) ==> e.kind == crate::error::ErrorKind::Resource || !way_lookups_resolve(
            rels.deep_view(),
            cs@,
            um@,
        ),
{
    let mut out: Vec<Element> = Vec::new();
    let ghost target = way_elements_spec(rels.deep_view(), cs@, um@);
    proof {
        assert(out.deep_view() =~= target.take(0));
    }
    let mut i: usize = 0;
    while i < rels.len()
        invariant
            0 <= i <= rels@.len(),
            target.len() == rels@.len(),
            out.deep_view() == target.take(i as int),
            forall|j: int|
                0 <= j < i as int ==> cs@.contains_key(
                    (#[trigger] rels.deep_view()[j]).changeset_id,
                ) && um@.contains_key(cs@[rels.deep_view()[j].changeset_id]),
        decreases rels@.len() - i,
    {
        let uid = match cs.get(rels[i].changeset_id) {
            Ok(Some(uid)) => uid,
            Ok(None) => {
                proof {
                    assert(!cs@.contains_key((rels.deep_view()[i as int]).changeset_id));
                }
                return Err(OsmError::new(String::from_str("changeset not indexed")));
            },
            Err(e) => {
                return Err(e);
            },
        };
        let user = match um.get(uid) {
            Ok(Some(user)) => user,
            Ok(None) => {
                proof {
                    assert(cs@[(rels.deep_view()[i as int]).changeset_id] == uid);
                    assert(!um@.contains_key(uid));
                }
                return Err(OsmError::new(String::from_str("user not indexed")));
            },
            Err(e) => {
                return Err(e);
            },
        };
        let el = way_relation_to_element(&rels[i], uid, user);
        let ghost before = out.deep_view();
        out.push(el);
        proof {
            assert(rels.deep_view()[i as int] == rels@[i as int]@);
            assert(out.deep_view() =~= before.push(target[i as int]));
            assert(target.take(i + 1) =~= target.take(i as int).push(target[i as int]));
        }
        i = i + 1;
    }
    proof {
        assert(target.take(rels@.len() as int) =~= target);
    }
    Ok(out)
}

/// Turns the composite relation records into relation elements, resolving
/// each changeset and user through the two indices.
#[verifier::loop_isolation(false)]
pub fn relation_elements(
    rels: &Vec<crate::join::RelationComposite>,
    cs: &ChangesetUserIndex,
    um: &UserIndex,
) -> (r: Result<Vec<Element>, OsmError>)
    ensures
        r matches Ok(els) ==> relation_lookups_resolve(rels.deep_view(), cs@, um@)
            && els.deep_view() == relation_elements_spec(rels.deep_view(), cs@, um@),
        r matches Err(e) ==> e.kind == crate::error::ErrorKind::Resource
            || !relation_lookups_resolve(rels.deep_view(), cs@, um@),
{
    let mut out: Vec<Element> = Vec::new();
    let ghost target = relation_elements_spec(rels.deep_view(), cs@, um@);
    proof {
        assert(out.deep_view() =~= target.take(0));
    }
    let mut i: usize = 0;
    while i < rels.len()
        invariant
            0 <= i <= rels@.len(),
            target.len() == rels@.len(),
            out.deep_view() == target.take(i as int),
            forall|j: int|
                0 <= j < i as int ==> cs@.contains_key(
                    (#[trigger] rels.deep_view()[j]).changeset_id,
                ) && um@.contains_key(cs@[rels.deep_view()[j].changeset_id]),
        decreases rels@.len() - i,
    {
        let uid = match cs.get(rels[i].changeset_id) {
            Ok(Some(uid)) => uid,
            Ok(None) => {
                proof {
                    assert(!cs@.contains_key((rels.deep_view()[i as int]).changeset_id));
                }
                return Err(OsmError::new(String::from_str("changeset not indexed")));
            },
            Err(e) => {
                return Err(e);
            },
        };
        let user = match um.get(uid) {
            Ok(Some(user)) => user,
            Ok(None) => {
                proof {
                    assert(cs@[(rels.deep_view()[i as int]).changeset_id] == uid);
                    assert(!um@.contains_key(uid));
                }
                return Err(OsmError::new(String::from_str("user not indexed")));
            },
            Err(e) => {
                return Err(e);
            },
        };
        let el = relation_composite_to_element(&rels[i], uid, user);
        let ghost before = out.deep_view();
        out.push(el);
        proof {
            assert(rels.deep_view()[i as int] == rels@[i as int]@);
            assert(out.deep_view() =~= before.push(target[i as int]));
            assert(target.take(i + 1) =~= target.take(i as int).push(target[i as int]));
        }
        i = i + 1;
    }
    proof {
        assert(target.take(rels@.len() as int) =~= target);
    }
    Ok(out)
}

} // verus!
