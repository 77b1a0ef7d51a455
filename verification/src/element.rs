//! The element model of the exchange format: nodes, ways and relations with
//! their metadata, as the conversion passes them between the two
//! representations.
use vstd::prelude::*;
use crate::record::RelationMemberType;
use crate::time::Timestamp;
use crate::text::str_eq;

verus! {

/// One tag of an element.
#[derive(Debug, Clone)]
pub struct Tag {
    pub k: String,
    pub v: String,
}

/// Spec-level form of a tag.
#[verifier::ext_equal]
pub ghost struct TagView {
    pub k: Seq<char>,
    pub v: Seq<char>,
}

impl View for Tag {
    type V = TagView;

    open spec fn view(&self) -> TagView {
        TagView { k: self.k@, v: self.v@ }
    }
}

impl DeepView for Tag {
    type V = TagView;

    open spec fn deep_view(&self) -> TagView {
        self.view()
    }
}

/// One member of a relation.
#[derive(Debug, Clone)]
pub struct Member {
    pub member_type: RelationMemberType,
    pub member_id: i64,
    pub member_role: String,
}

/// Spec-level form of a member.
#[verifier::ext_equal]
pub ghost struct MemberView {
    pub member_type: RelationMemberType,
    pub member_id: i64,
    pub member_role: Seq<char>,
}

impl View for Member {
    type V = MemberView;

    open spec fn view(&self) -> MemberView {
        MemberView {
            member_type: self.member_type,
            member_id: self.member_id,
            member_role: self.member_role@,
        }
    }
}

impl DeepView for Member {
    type V = MemberView;

    open spec fn deep_view(&self) -> MemberView {
        self.view()
    }
}

/// A node element. Coordinates are carried in decimicro degrees, as the
/// exchange format stores them.
#[derive(Debug, Clone)]
pub struct Node {
    pub id: i64,
    pub lat_dm: i32,
    pub lon_dm: i32,
    pub timestamp: Timestamp,
    pub changeset: i64,
    pub uid: i64,
    pub user: String,
    pub visible: bool,
    pub version: i64,
    pub tags: Vec<Tag>,
}

/// Spec-level form of a node element.
#[verifier::ext_equal]
pub ghost struct NodeView {
    pub id: i64,
    pub lat_dm: i32,
    pub lon_dm: i32,
    pub timestamp: Timestamp,
    pub changeset: i64,
    pub uid: i64,
    pub user: Seq<char>,
    pub visible: bool,
    pub version: i64,
    pub tags: Seq<TagView>,
}

impl View for Node {
    type V = NodeView;

    open spec fn view(&self) -> NodeView {
        NodeView {
            id: self.id,
            lat_dm: self.lat_dm,
            lon_dm: self.lon_dm,
            timestamp: self.timestamp,
            changeset: self.changeset,
            uid: self.uid,
            user: self.user@,
            visible: self.visible,
            version: self.version,
            tags: self.tags.deep_view(),
        }
    }
}

impl DeepView for Node {
    type V = NodeView;

    open spec fn deep_view(&self) -> NodeView {
        self.view()
    }
}

/// A way element with its ordered node references.
#[derive(Debug, Clone)]
pub struct Way {
    pub id: i64,
    pub timestamp: Timestamp,
    pub changeset: i64,
    pub uid: i64,
    pub user: String,
    pub visible: bool,
    pub version: i64,
    pub tags: Vec<Tag>,
    pub refs: Vec<i64>,
}

/// Spec-level form of a way element.
#[verifier::ext_equal]
pub ghost struct WayView {
    pub id: i64,
    pub timestamp: Timestamp,
    pub changeset: i64,
    pub uid: i64,
    pub user: Seq<char>,
    pub visible: bool,
    pub version: i64,
    pub tags: Seq<TagView>,
    pub refs: Seq<i64>,
}

impl View for Way {
    type V = WayView;

    open spec fn view(&self) -> WayView {
        WayView {
            id: self.id,
            timestamp: self.timestamp,
            changeset: self.changeset,
            uid: self.uid,
            user: self.user@,
            visible: self.visible,
            version: self.version,
            tags: self.tags.deep_view(),
            refs: self.refs.deep_view(),
        }
    }
}

impl DeepView for Way {
    type V = WayView;

    open spec fn deep_view(&self) -> WayView {
        self.view()
    }
}

/// A relation element with its member list.
#[derive(Debug, Clone)]
pub struct Relation {
    pub id: i64,
    pub timestamp: Timestamp,
    pub changeset: i64,
    pub uid: i64,
    pub user: String,
    pub visible: bool,
    pub version: i64,
    pub tags: Vec<Tag>,
    pub members: Vec<Member>,
}

/// Spec-level form of a relation element.
#[verifier::ext_equal]
pub ghost struct RelationView {
    pub id: i64,
    pub timestamp: Timestamp,
    pub changeset: i64,
    pub uid: i64,
    pub user: Seq<char>,
    pub visible: bool,
    pub version: i64,
    pub tags: Seq<TagView>,
    pub members: Seq<MemberView>,
}

impl View for Relation {
    type V = RelationView;

    open spec fn view(&self) -> RelationView {
        RelationView {
            id: self.id,
            timestamp: self.timestamp,
            changeset: self.changeset,
            uid: self.uid,
            user: self.user@,
            visible: self.visible,
            version: self.version,
            tags: self.tags.deep_view(),
            members: self.members.deep_view(),
        }
    }
}

impl DeepView for Relation {
    type V = RelationView;

    open spec fn deep_view(&self) -> RelationView {
        self.view()
    }
}

/// One element of the exchange stream; the sentinel ends a stream.
#[derive(Debug, Clone)]
pub enum Element {
    Node { node: Node },
    Way { way: Way },
    Relation { relation: Relation },
    Sentinel,
}

/// Spec-level form of an element.
#[verifier::ext_equal]
pub ghost enum ElementView {
    Node { node: NodeView },
    Way { way: WayView },
    Relation { relation: RelationView },
    Sentinel,
}

impl View for Element {
    type V = ElementView;

    open spec fn view(&self) -> ElementView {
        match self {
            Element::Node { node } => ElementView::Node { node: node@ },
            Element::Way { way } => ElementView::Way { way: way@ },
            Element::Relation { relation } => ElementView::Relation { relation: relation@ },
            Element::Sentinel => ElementView::Sentinel,
        }
    }
}

impl DeepView for Element {
    type V = ElementView;

    open spec fn deep_view(&self) -> ElementView {
        self.view()
    }
}

/// Tag lists compared as equal sequences.
#[verifier::loop_isolation(false)]
pub fn tags_are_equal(a: &Vec<Tag>, b: &Vec<Tag>) -> (r: bool)
    ensures
        r == (a.deep_view() == b.deep_view()),
{
    if a.len() != b.len() {
        proof {
            assert(a.deep_view().len() != b.deep_view().len());
        }
        return false;
    }
    let mut i: usize = 0;
    while i < a.len()
        invariant
            0 <= i <= a@.len(),
            a@.len() == b@.len(),
            forall|j: int| 0 <= j < i ==> a.deep_view()[j] == b.deep_view()[j],
        decreases a@.len() - i,
    {
        if !str_eq(a[i].k.as_str(), b[i].k.as_str()) || !str_eq(a[i].v.as_str(), b[i].v.as_str()) {
            proof {
                if a.deep_view() == b.deep_view() {
                    assert(a.deep_view()[i as int] == b.deep_view()[i as int]);
                    assert(a.deep_view()[i as int].k == a@[i as int].k@);
                    assert(b.deep_view()[i as int].k == b@[i as int].k@);
                    assert(a.deep_view()[i as int].v == a@[i as int].v@);
                    assert(b.deep_view()[i as int].v == b@[i as int].v@);
                }
            }
            return false;
        }
        i = i + 1;
    }
    proof {
        assert(a.deep_view() =~~= b.deep_view());
    }
    true
}

/// Node reference lists compared as equal sequences.
#[verifier::loop_isolation(false)]
pub fn refs_are_equal(a: &Vec<i64>, b: &Vec<i64>) -> (r: bool)
    ensures
        r == (a.deep_view() == b.deep_view()),
{
    if a.len() != b.len() {
        proof {
            assert(a.deep_view().len() != b.deep_view().len());
        }
        return false;
    }
    let mut i: usize = 0;
    while i < a.len()
        invariant
            0 <= i <= a@.len(),
            a@.len() == b@.len(),
            forall|j: int| 0 <= j < i ==> a@[j] == b@[j],
        decreases a@.len() - i,
    {
        if a[i] != b[i] {
            proof {
                if a.deep_view() == b.deep_view() {
                    assert(a.deep_view()[i as int] == b.deep_view()[i as int]);
                }
            }
            return false;
        }
        i = i + 1;
    }
    proof {
        assert(a.deep_view() =~= b.deep_view());
    }
    true
}

/// How often a member occurs in a member list.
pub open spec fn member_count(s: Seq<MemberView>, m: MemberView) -> nat
    decreases s.len(),
{
    if s.len() == 0 {
        0
    } else {
        member_count(s.drop_last(), m) + if s.last() == m {
            1nat
        } else {
            0nat
        }
    }
}

/// Two member lists hold the same members, in any order: they have the
/// same length and every member of the first occurs equally often in both.
pub open spec fn same_members(a: Seq<MemberView>, b: Seq<MemberView>) -> bool {
    &&& a.len() == b.len()
    &&& forall|j: int|
        0 <= j < a.len() ==> member_count(a, #[trigger] a[j]) == member_count(b, a[j])
}

fn members_eq(a: &Member, b: &Member) -> (r: bool)
    ensures
        r == (a@ == b@),
{
    let t = match (a.member_type, b.member_type) {
        (RelationMemberType::Node, RelationMemberType::Node) => true,
        (RelationMemberType::Way, RelationMemberType::Way) => true,
        (RelationMemberType::Relation, RelationMemberType::Relation) => true,
        _ => false,
    };
    t && a.member_id == b.member_id && str_eq(a.member_role.as_str(), b.member_role.as_str())
}

#[verifier::loop_isolation(false)]
fn count_member(v: &Vec<Member>, m: &Member) -> (r: usize)
    ensures
        r == member_count(v.deep_view(), m@),
{
    let mut count: usize = 0;
    let mut i: usize = 0;
    proof {
        assert(v.deep_view().take(0) =~= Seq::<MemberView>::empty());
    }
    while i < v.len()
        invariant
            0 <= i <= v@.len(),
            count == member_count(v.deep_view().take(i as int), m@),
            count <= i,
        decreases v@.len() - i,
    {
        proof {
            assert(v.deep_view().take(i + 1).drop_last() =~= v.deep_view().take(i as int));
            assert(v.deep_view().take(i + 1).last() == v.deep_view()[i as int]);
        }
        if members_eq(&v[i], m) {
            count = count + 1;
        }
        i = i + 1;
    }
    proof {
        assert(v.deep_view().take(v.deep_view().len() as int) =~= v.deep_view());
    }
    count
}

/// Member lists compared as an order-independent collection: each member
/// occurs equally often in both.
#[verifier::loop_isolation(false)]
pub fn compare_relation_members(input: &Vec<Member>, output: &Vec<Member>) -> (r: bool)
    ensures
        r == same_members(input.deep_view(), output.deep_view()),
{
    if input.len() != output.len() {
        return false;
    }
    let mut i: usize = 0;
    while i < input.len()
        invariant
            0 <= i <= input@.len(),
            input@.len() == output@.len(),
            forall|j: int|
                0 <= j < i ==> member_count(input.deep_view(), #[trigger] input.deep_view()[j])
                    == member_count(output.deep_view(), input.deep_view()[j]),
        decreases input@.len() - i,
    {
        let ca = count_member(input, &input[i]);
        let cb = count_member(output, &input[i]);
        if ca != cb {
            proof {
                assert(input.deep_view()[i as int] == input@[i as int]@);
                if same_members(input.deep_view(), output.deep_view()) {
                    assert(member_count(input.deep_view(), input.deep_view()[i as int])
                        == member_count(output.deep_view(), input.deep_view()[i as int]));
                }
            }
            return false;
        }
        i = i + 1;
    }
    true
}

/// Two relations are equivalent when every plain field and the tag list
/// agree, and the member lists hold the same members in any order.
pub open spec fn relations_equivalent(a: RelationView, b: RelationView) -> bool {
    &&& a.id == b.id
    &&& a.timestamp == b.timestamp
    &&& a.changeset == b.changeset
    &&& a.uid == b.uid
    &&& a.user == b.user
    &&& a.visible == b.visible
    &&& a.version == b.version
    &&& a.tags == b.tags
    &&& same_members(a.members, b.members)
}

/// Two elements are equivalent: equal nodes or ways, equivalent relations,
/// or both the sentinel.
pub open spec fn elements_equivalent(a: ElementView, b: ElementView) -> bool {
    match (a, b) {
        (ElementView::Node { node: x }, ElementView::Node { node: y }) => x == y,
        (ElementView::Way { way: x }, ElementView::Way { way: y }) => x == y,
        (ElementView::Relation { relation: x }, ElementView::Relation { relation: y }) => {
            relations_equivalent(x, y)
        },
        (ElementView::Sentinel, ElementView::Sentinel) => true,
        _ => false,
    }
}

/// Nodes compared field by field, tags as ordered lists.
pub fn nodes_are_equal(a: &Node, b: &Node) -> (r: bool)
    ensures
        r == (a@ == b@),
{
    let fields_ok = a.id == b.id && a.lat_dm == b.lat_dm && a.lon_dm == b.lon_dm && a.timestamp
        == b.timestamp && a.changeset == b.changeset && a.uid == b.uid && str_eq(
        a.user.as_str(),
        b.user.as_str(),
    ) && a.visible == b.visible && a.version == b.version;
    let r = fields_ok && tags_are_equal(&a.tags, &b.tags);
    proof {
        if r {
            assert(a@ =~~= b@);
        } else {
            if a@ == b@ {
                assert(a@.id == b@.id);
                assert(a@.lat_dm == b@.lat_dm);
                assert(a@.lon_dm == b@.lon_dm);
                assert(a@.timestamp == b@.timestamp);
                assert(a@.changeset == b@.changeset);
                assert(a@.uid == b@.uid);
                assert(a@.user == b@.user);
                assert(a@.visible == b@.visible);
                assert(a@.version == b@.version);
                assert(a@.tags == b@.tags);
            }
        }
    }
    r
}

/// Ways compared field by field, tags and node references as ordered lists.
pub fn ways_are_equal(a: &Way, b: &Way) -> (r: bool)
    ensures
        r == (a@ == b@),
{
    let fields_ok = a.id == b.id && a.timestamp == b.timestamp && a.changeset == b.changeset
        && a.uid == b.uid && str_eq(a.user.as_str(), b.user.as_str()) && a.visible == b.visible
        && a.version == b.version;
    let r = fields_ok && tags_are_equal(&a.tags, &b.tags) && refs_are_equal(&a.refs, &b.refs);
    proof {
        if r {
            assert(a@ =~~= b@);
        } else {
            if a@ == b@ {
                assert(a@.id == b@.id);
                assert(a@.timestamp == b@.timestamp);
                assert(a@.changeset == b@.changeset);
                assert(a@.uid == b@.uid);
                assert(a@.user == b@.user);
                assert(a@.visible == b@.visible);
                assert(a@.version == b@.version);
                assert(a@.tags == b@.tags);
                assert(a@.refs == b@.refs);
            }
        }
    }
    r
}

/// Relations compared field by field, tags as ordered lists, members as an
/// order-independent collection.
pub fn relations_are_equal(a: &Relation, b: &Relation) -> (r: bool)
    ensures
        r == relations_equivalent(a@, b@),
{
    let fields_ok = a.id == b.id && a.timestamp == b.timestamp && a.changeset == b.changeset
        && a.uid == b.uid && str_eq(a.user.as_str(), b.user.as_str()) && a.visible == b.visible
        && a.version == b.version;
    fields_ok && tags_are_equal(&a.tags, &b.tags) && compare_relation_members(
        &a.members,
        &b.members,
    )
}

/// Elements compared by kind: equal nodes or ways, equivalent relations, or
/// both the terminal sentinel.
pub fn elements_are_equal(input_element: &Element, output_element: &Element) -> (r: bool)
    ensures
        r == elements_equivalent(input_element@, output_element@),
{
    match (input_element, output_element) {
        (Element::Node { node: x }, Element::Node { node: y }) => nodes_are_equal(x, y),
        (Element::Way { way: x }, Element::Way { way: y }) => ways_are_equal(x, y),
        (Element::Relation { relation: x }, Element::Relation { relation: y }) => {
            relations_are_equal(x, y)
        },
        (Element::Sentinel, Element::Sentinel) => true,
        _ => false,
    }
}

} // verus!
