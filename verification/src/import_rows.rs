//! The import writers: turn one element of the exchange stream into the
//! rows of the relational tables it implies, and synthesize the user and
//! changeset rows from the dedup indices after the main pass.
use vstd::prelude::*;
use crate::element::{Node, NodeView, Way, WayView, Relation, RelationView, Element, TagView,
    MemberView};
use crate::error::OsmError;
use crate::index::{UserIndex, ChangesetUserIndex};
use crate::record::RelationMemberType;
use crate::sql::{bool_char, boolean_prefix, null_chars, escape_chars, escape_value, push_null};
use crate::text::{int_dec, dec_digits, push_i64, push_u64};
use crate::tile::{tile_spec, calculate_tile};
use crate::time::{Timestamp, ts_secs_chars, ts_micros_chars, push_sql_time, to_sql_time_micro};

verus! {

pub open spec fn tab() -> Seq<char> {
    seq!['\t']
}

pub(crate) fn push_tab(s: &mut String)
    ensures
        final(s)@ == old(s)@ + tab(),
{
    proof {
        reveal_strlit("\t");
    }
    s.append("\t");
    assert(final(s)@ =~= old(s)@ + tab());
}

fn push_str(s: &mut String, t: &str)
    ensures
        final(s)@ == old(s)@ + t@,
{
    s.append(t);
}

fn push_bool(s: &mut String, v: bool)
    ensures
        final(s)@ == old(s)@ + seq![bool_char(v)],
{
    proof {
        reveal_strlit("t");
        reveal_strlit("f");
    }
    if v {
        s.append("t");
    } else {
        s.append("f");
    }
    assert(final(s)@ =~= old(s)@ + seq![bool_char(v)]);
}

/// A node or dense node is well formed: coordinates within the world's
/// bounds and a valid timestamp.
pub open spec fn node_wf(n: NodeView) -> bool {
    &&& -900000000 <= n.lat_dm <= 900000000
    &&& -1800000000 <= n.lon_dm <= 1800000000
    &&& n.timestamp.valid()
}

pub open spec fn way_wf(w: WayView) -> bool {
    w.timestamp.valid()
}

pub open spec fn relation_wf(r: RelationView) -> bool {
    r.timestamp.valid()
}

/// The current_nodes row of a node: id, coordinates, changeset, visibility,
/// timestamp at seconds precision, tile index, version.
pub open spec fn node_current_row(n: NodeView) -> Seq<char> {
    int_dec(n.id as int) + tab() + int_dec(n.lat_dm as int) + tab() + int_dec(n.lon_dm as int)
        + tab() + int_dec(n.changeset as int) + tab() + seq![bool_char(n.visible)] + tab()
        + ts_secs_chars(n.timestamp) + tab() + dec_digits(
        tile_spec(n.lat_dm as int, n.lon_dm as int) as nat,
    ) + tab() + int_dec(n.version as int)
}

/// The historical nodes row: the current row with a null redaction column.
pub open spec fn node_history_row(n: NodeView) -> Seq<char> {
    node_current_row(n) + tab() + null_chars()
}

/// One node_tags row: id, version, key, escaped value.
pub open spec fn node_tag_row(n: NodeView, t: TagView) -> Seq<char> {
    int_dec(n.id as int) + tab() + int_dec(n.version as int) + tab() + t.k + tab() + escape_chars(
        t.v,
    )
}

/// One current_node_tags row: id, key, escaped value.
pub open spec fn current_node_tag_row(n: NodeView, t: TagView) -> Seq<char> {
    int_dec(n.id as int) + tab() + t.k + tab() + escape_chars(t.v)
}

/// Builds the shared body of the two node rows.
pub(crate) fn build_node_current_row(n: &Node) -> (r: String)
    requires
        node_wf(n@),
    ensures
        r@ == node_current_row(n@),
{
    let mut s = String::new();
    push_i64(&mut s, n.id);
    push_tab(&mut s);
    push_i64(&mut s, n.lat_dm as i64);
    push_tab(&mut s);
    push_i64(&mut s, n.lon_dm as i64);
    push_tab(&mut s);
    push_i64(&mut s, n.changeset);
    push_tab(&mut s);
    push_bool(&mut s, n.visible);
    push_tab(&mut s);
    push_sql_time(&mut s, &n.timestamp);
    push_tab(&mut s);
    let tile = calculate_tile(n.lat_dm, n.lon_dm);
    push_u64(&mut s, tile);
    push_tab(&mut s);
    push_i64(&mut s, n.version);
    assert(s@ =~= node_current_row(n@));
    s
}

pub(crate) fn build_node_history_row(n: &Node) -> (r: String)
    requires
        node_wf(n@),
    ensures
        r@ == node_history_row(n@),
{
    let mut s = build_node_current_row(n);
    push_tab(&mut s);
    push_null(&mut s);
    assert(s@ =~= node_history_row(n@));
    s
}

pub(crate) fn build_node_tag_row(n: &Node, i: usize) -> (r: String)
    requires
        i < n.tags@.len(),
    ensures
        r@ == node_tag_row(n@, n@.tags[i as int]),
{
    let mut s = String::new();
    push_i64(&mut s, n.id);
    push_tab(&mut s);
    push_i64(&mut s, n.version);
    push_tab(&mut s);
    push_str(&mut s, n.tags[i].k.as_str());
    push_tab(&mut s);
    let escaped = escape_value(n.tags[i].v.as_str());
    push_str(&mut s, escaped.as_str());
    assert(s@ =~= node_tag_row(n@, n@.tags[i as int]));
    s
}

pub(crate) fn build_current_node_tag_row(n: &Node, i: usize) -> (r: String)
    requires
        i < n.tags@.len(),
    ensures
        r@ == current_node_tag_row(n@, n@.tags[i as int]),
{
    let mut s = String::new();
    push_i64(&mut s, n.id);
    push_tab(&mut s);
    push_str(&mut s, n.tags[i].k.as_str());
    push_tab(&mut s);
    let escaped = escape_value(n.tags[i].v.as_str());
    push_str(&mut s, escaped.as_str());
    assert(s@ =~= current_node_tag_row(n@, n@.tags[i as int]));
    s
}

/// The current_ways row: id, changeset, timestamp, visibility, version.
pub open spec fn way_current_row(w: WayView) -> Seq<char> {
    int_dec(w.id as int) + tab() + int_dec(w.changeset as int) + tab() + ts_secs_chars(w.timestamp)
        + tab() + seq![bool_char(w.visible)] + tab() + int_dec(w.version as int)
}

/// The historical ways row: id, changeset, timestamp, version, visibility,
/// null redaction.
pub open spec fn way_history_row(w: WayView) -> Seq<char> {
    int_dec(w.id as int) + tab() + int_dec(w.changeset as int) + tab() + ts_secs_chars(w.timestamp)
        + tab() + int_dec(w.version as int) + tab() + seq![bool_char(w.visible)] + tab()
        + null_chars()
}

/// One current_way_nodes row: way, node, ordinal from one.
pub open spec fn current_way_node_row(w: WayView, i: int) -> Seq<char> {
    int_dec(w.id as int) + tab() + int_dec(w.refs[i] as int) + tab() + int_dec(i + 1)
}

/// One way_nodes row: way, node, version, ordinal from one.
pub open spec fn way_node_row(w: WayView, i: int) -> Seq<char> {
    int_dec(w.id as int) + tab() + int_dec(w.refs[i] as int) + tab() + int_dec(w.version as int)
        + tab() + int_dec(i + 1)
}

/// One current_way_tags row: way, key, escaped value.
pub open spec fn current_way_tag_row(w: WayView, t: TagView) -> Seq<char> {
    int_dec(w.id as int) + tab() + t.k + tab() + escape_chars(t.v)
}

/// One way_tags row: way, key, escaped value, version.
pub open spec fn way_tag_row(w: WayView, t: TagView) -> Seq<char> {
    int_dec(w.id as int) + tab() + t.k + tab() + escape_chars(t.v) + tab() + int_dec(
        w.version as int,
    )
}

pub(crate) fn build_way_current_row(w: &Way) -> (r: String)
    requires
        way_wf(w@),
    ensures
        r@ == way_current_row(w@),
{
    let mut s = String::new();
    push_i64(&mut s, w.id);
    push_tab(&mut s);
    push_i64(&mut s, w.changeset);
    push_tab(&mut s);
    push_sql_time(&mut s, &w.timestamp);
    push_tab(&mut s);
    push_bool(&mut s, w.visible);
    push_tab(&mut s);
    push_i64(&mut s, w.version);
    assert(s@ =~= way_current_row(w@));
    s
}

pub(crate) fn build_way_history_row(w: &Way) -> (r: String)
    requires
        way_wf(w@),
    ensures
        r@ == way_history_row(w@),
{
    let mut s = String::new();
    push_i64(&mut s, w.id);
    push_tab(&mut s);
    push_i64(&mut s, w.changeset);
    push_tab(&mut s);
    push_sql_time(&mut s, &w.timestamp);
    push_tab(&mut s);
    push_i64(&mut s, w.version);
    push_tab(&mut s);
    push_bool(&mut s, w.visible);
    push_tab(&mut s);
    push_null(&mut s);
    assert(s@ =~= way_history_row(w@));
    s
}

pub(crate) fn build_current_way_node_row(w: &Way, i: usize) -> (r: String)
    requires
        i < w.refs@.len(),
    ensures
        r@ == current_way_node_row(w@, i as int),
{
    let mut s = String::new();
    push_i64(&mut s, w.id);
    push_tab(&mut s);
    push_i64(&mut s, w.refs[i]);
    push_tab(&mut s);
    let _len = w.refs.len();
    let ordinal = i + 1;
    push_u64(&mut s, ordinal as u64);
    assert(s@ =~= current_way_node_row(w@, i as int));
    s
}

pub(crate) fn build_way_node_row(w: &Way, i: usize) -> (r: String)
    requires
        i < w.refs@.len(),
    ensures
        r@ == way_node_row(w@, i as int),
{
    let mut s = String::new();
    push_i64(&mut s, w.id);
    push_tab(&mut s);
    push_i64(&mut s, w.refs[i]);
    push_tab(&mut s);
    push_i64(&mut s, w.version);
    push_tab(&mut s);
    let _len = w.refs.len();
    let ordinal = i + 1;
    push_u64(&mut s, ordinal as u64);
    assert(s@ =~= way_node_row(w@, i as int));
    s
}

pub(crate) fn build_current_way_tag_row(w: &Way, i: usize) -> (r: String)
    requires
        i < w.tags@.len(),
    ensures
        r@ == current_way_tag_row(w@, w@.tags[i as int]),
{
    let mut s = String::new();
    push_i64(&mut s, w.id);
    push_tab(&mut s);
    push_str(&mut s, w.tags[i].k.as_str());
    push_tab(&mut s);
    let escaped = escape_value(w.tags[i].v.as_str());
    push_str(&mut s, escaped.as_str());
    assert(s@ =~= current_way_tag_row(w@, w@.tags[i as int]));
    s
}

pub(crate) fn build_way_tag_row(w: &Way, i: usize) -> (r: String)
    requires
        i < w.tags@.len(),
    ensures
        r@ == way_tag_row(w@, w@.tags[i as int]),
{
    let mut s = String::new();
    push_i64(&mut s, w.id);
    push_tab(&mut s);
    push_str(&mut s, w.tags[i].k.as_str());
    push_tab(&mut s);
    let escaped = escape_value(w.tags[i].v.as_str());
    push_str(&mut s, escaped.as_str());
    push_tab(&mut s);
    push_i64(&mut s, w.version);
    assert(s@ =~= way_tag_row(w@, w@.tags[i as int]));
    s
}

/// The current_relations row: id, changeset, timestamp, visibility, version.
pub open spec fn relation_current_row(rl: RelationView) -> Seq<char> {
    int_dec(rl.id as int) + tab() + int_dec(rl.changeset as int) + tab() + ts_secs_chars(
        rl.timestamp,
    ) + tab() + seq![bool_char(rl.visible)] + tab() + int_dec(rl.version as int)
}

/// The historical relations row: id, changeset, timestamp, version,
/// visibility, null redaction.
pub open spec fn relation_history_row(rl: RelationView) -> Seq<char> {
    int_dec(rl.id as int) + tab() + int_dec(rl.changeset as int) + tab() + ts_secs_chars(
        rl.timestamp,
    ) + tab() + int_dec(rl.version as int) + tab() + seq![bool_char(rl.visible)] + tab()
        + null_chars()
}

/// One current_relation_members row: relation, member type word, member id,
/// escaped role, ordinal from one.
pub open spec fn current_relation_member_row(rl: RelationView, i: int) -> Seq<char> {
    int_dec(rl.id as int) + tab() + rl.members[i].member_type.word() + tab() + int_dec(
        rl.members[i].member_id as int,
    ) + tab() + escape_chars(rl.members[i].member_role) + tab() + int_dec(i + 1)
}

/// One relation_members row: relation, member type word, member id, escaped
/// role, version, ordinal from one.
pub open spec fn relation_member_row(rl: RelationView, i: int) -> Seq<char> {
    int_dec(rl.id as int) + tab() + rl.members[i].member_type.word() + tab() + int_dec(
        rl.members[i].member_id as int,
    ) + tab() + escape_chars(rl.members[i].member_role) + tab() + int_dec(rl.version as int)
        + tab() + int_dec(i + 1)
}

/// One current_relation_tags row: relation, key, escaped value.
pub open spec fn current_relation_tag_row(rl: RelationView, t: TagView) -> Seq<char> {
    int_dec(rl.id as int) + tab() + t.k + tab() + escape_chars(t.v)
}

/// One relation_tags row: relation, key, escaped value, version.
pub open spec fn relation_tag_row(rl: RelationView, t: TagView) -> Seq<char> {
    int_dec(rl.id as int) + tab() + t.k + tab() + escape_chars(t.v) + tab() + int_dec(
        rl.version as int,
    )
}

pub(crate) fn build_relation_current_row(rl: &Relation) -> (r: String)
    requires
        relation_wf(rl@),
    ensures
        r@ == relation_current_row(rl@),
{
    let mut s = String::new();
    push_i64(&mut s, rl.id);
    push_tab(&mut s);
    push_i64(&mut s, rl.changeset);
    push_tab(&mut s);
    push_sql_time(&mut s, &rl.timestamp);
    push_tab(&mut s);
    push_bool(&mut s, rl.visible);
    push_tab(&mut s);
    push_i64(&mut s, rl.version);
    assert(s@ =~= relation_current_row(rl@));
    s
}

pub(crate) fn build_relation_history_row(rl: &Relation) -> (r: String)
    requires
        relation_wf(rl@),
    ensures
        r@ == relation_history_row(rl@),
{
    let mut s = String::new();
    push_i64(&mut s, rl.id);
    push_tab(&mut s);
    push_i64(&mut s, rl.changeset);
    push_tab(&mut s);
    push_sql_time(&mut s, &rl.timestamp);
    push_tab(&mut s);
    push_i64(&mut s, rl.version);
    push_tab(&mut s);
    push_bool(&mut s, rl.visible);
    push_tab(&mut s);
    push_null(&mut s);
    assert(s@ =~= relation_history_row(rl@));
    s
}

pub(crate) fn build_current_relation_member_row(rl: &Relation, i: usize) -> (r: String)
    requires
        i < rl.members@.len(),
    ensures
        r@ == current_relation_member_row(rl@, i as int),
{
    let mut s = String::new();
    push_i64(&mut s, rl.id);
    push_tab(&mut s);
    let word = rl.members[i].member_type.to_word();
    push_str(&mut s, word.as_str());
    push_tab(&mut s);
    push_i64(&mut s, rl.members[i].member_id);
    push_tab(&mut s);
    let escaped = escape_value(rl.members[i].member_role.as_str());
    push_str(&mut s, escaped.as_str());
    push_tab(&mut s);
    let _len = rl.members.len();
    let ordinal = i + 1;
    push_u64(&mut s, ordinal as u64);
    assert(s@ =~= current_relation_member_row(rl@, i as int));
    s
}

pub(crate) fn build_relation_member_row(rl: &Relation, i: usize) -> (r: String)
    requires
        i < rl.members@.len(),
    ensures
        r@ == relation_member_row(rl@, i as int),
{
    let mut s = String::new();
    push_i64(&mut s, rl.id);
    push_tab(&mut s);
    let word = rl.members[i].member_type.to_word();
    push_str(&mut s, word.as_str());
    push_tab(&mut s);
    push_i64(&mut s, rl.members[i].member_id);
    push_tab(&mut s);
    let escaped = escape_value(rl.members[i].member_role.as_str());
    push_str(&mut s, escaped.as_str());
    push_tab(&mut s);
    push_i64(&mut s, rl.version);
    push_tab(&mut s);
    let _len = rl.members.len();
    let ordinal = i + 1;
    push_u64(&mut s, ordinal as u64);
    assert(s@ =~= relation_member_row(rl@, i as int));
    s
}

pub(crate) fn build_current_relation_tag_row(rl: &Relation, i: usize) -> (r: String)
    requires
        i < rl.tags@.len(),
    ensures
        r@ == current_relation_tag_row(rl@, rl@.tags[i as int]),
{
    let mut s = String::new();
    push_i64(&mut s, rl.id);
    push_tab(&mut s);
    push_str(&mut s, rl.tags[i].k.as_str());
    push_tab(&mut s);
    let escaped = escape_value(rl.tags[i].v.as_str());
    push_str(&mut s, escaped.as_str());
    assert(s@ =~= current_relation_tag_row(rl@, rl@.tags[i as int]));
    s
}

pub(crate) fn build_relation_tag_row(rl: &Relation, i: usize) -> (r: String)
    requires
        i < rl.tags@.len(),
    ensures
        r@ == relation_tag_row(rl@, rl@.tags[i as int]),
{
    let mut s = String::new();
    push_i64(&mut s, rl.id);
    push_tab(&mut s);
    push_str(&mut s, rl.tags[i].k.as_str());
    push_tab(&mut s);
    let escaped = escape_value(rl.tags[i].v.as_str());
    push_str(&mut s, escaped.as_str());
    push_tab(&mut s);
    push_i64(&mut s, rl.version);
    assert(s@ =~= relation_tag_row(rl@, rl@.tags[i as int]));
    s
}

} // verus!
