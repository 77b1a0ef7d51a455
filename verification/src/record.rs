//! Typed records, one variant per relational table, as the decoder produces
//! them and the writers consume them.
use vstd::prelude::*;
use crate::error::OsmError;
use crate::time::Timestamp;

verus! {

/// What a relation member refers to. Decoded from the member-type column,
/// which carries either the single-letter code or the full word.
#[derive(Debug, Clone, Copy, PartialEq, Eq, Structural)]
pub enum RelationMemberType {
    Node,
    Way,
    Relation,
}

impl RelationMemberType {
    /// The full word written into member rows.
    pub open spec fn word(self) -> Seq<char> {
        match self {
            RelationMemberType::Node => "Node"@,
            RelationMemberType::Way => "Way"@,
            RelationMemberType::Relation => "Relation"@,
        }
    }

    /// The single-letter code.
    pub open spec fn code(self) -> Seq<char> {
        match self {
            RelationMemberType::Node => "n"@,
            RelationMemberType::Way => "w"@,
            RelationMemberType::Relation => "r"@,
        }
    }

    /// Decodes a member type; accepts the letter code and the full word,
    /// and rejects everything else.
    pub fn try_from(value: &str) -> (r: Result<RelationMemberType, OsmError>)
        ensures
            match r {
                Ok(t) => spec_member_type(value@) == Some(t),
                Err(e) => spec_member_type(value@) is None && e.kind
                    == crate::error::ErrorKind::Structure && e.message@
                    == "unknown relation member type: "@ + value@,
            },
    {
        proof {
            reveal_strlit("n");
            reveal_strlit("w");
            reveal_strlit("r");
            reveal_strlit("Node");
            reveal_strlit("Way");
            reveal_strlit("Relation");
        }
        if crate::text::str_eq(value, "n") || crate::text::str_eq(value, "Node") {
            Ok(RelationMemberType::Node)
        } else if crate::text::str_eq(value, "w") || crate::text::str_eq(value, "Way") {
            Ok(RelationMemberType::Way)
        } else if crate::text::str_eq(value, "r") || crate::text::str_eq(value, "Relation") {
            Ok(RelationMemberType::Relation)
        } else {
            Err(OsmError::new(crate::text::message_with("unknown relation member type: ", value)))
        }
    }

    /// The full word of this member type, as member rows carry it.
    pub fn to_word(self) -> (r: String)
        ensures
            r@ == self.word(),
    {
        match self {
            RelationMemberType::Node => String::from_str("Node"),
            RelationMemberType::Way => String::from_str("Way"),
            RelationMemberType::Relation => String::from_str("Relation"),
        }
    }
}

/// Account state of a user row; a closed set, decoded without defaulting.
#[derive(Debug, Clone, Copy, PartialEq, Eq, Structural)]
pub enum UserStatus {
    Pending,
    Active,
    Confirmed,
    Suspended,
    Deleted,
}

impl UserStatus {
    /// The word stored in the status column.
    pub open spec fn word(self) -> Seq<char> {
        match self {
            UserStatus::Pending => "pending"@,
            UserStatus::Active => "active"@,
            UserStatus::Confirmed => "confirmed"@,
            UserStatus::Suspended => "suspended"@,
            UserStatus::Deleted => "deleted"@,
        }
    }

    /// Decodes a user status; unknown words are an error.
    pub fn try_from(value: &str) -> (r: Result<UserStatus, OsmError>)
        ensures
            match r {
                Ok(t) => spec_user_status(value@) == Some(t),
                Err(e) => spec_user_status(value@) is None && e.kind
                    == crate::error::ErrorKind::Structure && e.message@
                    == "unknown user status: "@ + value@,
            },
    {
        proof {
            reveal_strlit("pending");
            reveal_strlit("active");
            reveal_strlit("confirmed");
            reveal_strlit("suspended");
            reveal_strlit("deleted");
        }
        if crate::text::str_eq(value, "pending") {
            Ok(UserStatus::Pending)
        } else if crate::text::str_eq(value, "active") {
            Ok(UserStatus::Active)
        } else if crate::text::str_eq(value, "confirmed") {
            Ok(UserStatus::Confirmed)
        } else if crate::text::str_eq(value, "suspended") {
            Ok(UserStatus::Suspended)
        } else if crate::text::str_eq(value, "deleted") {
            Ok(UserStatus::Deleted)
        } else {
            Err(OsmError::new(crate::text::message_with("unknown user status: ", value)))
        }
    }
}

/// Markup format of a user's description column.
#[derive(Debug, Clone, Copy, PartialEq, Eq, Structural)]
pub enum FormatEnum {
    Html,
    Markdown,
    Text,
}

impl FormatEnum {
    /// The word stored in the format column.
    pub open spec fn word(self) -> Seq<char> {
        match self {
            FormatEnum::Html => "html"@,
            FormatEnum::Markdown => "markdown"@,
            FormatEnum::Text => "text"@,
        }
    }

    /// Decodes a description format; unknown words are an error.
    pub fn try_from(value: &str) -> (r: Result<FormatEnum, OsmError>)
        ensures
            match r {
                Ok(t) => spec_format_enum(value@) == Some(t),
                Err(e) => spec_format_enum(value@) is None && e.kind
                    == crate::error::ErrorKind::Structure && e.message@
                    == "unknown format: "@ + value@,
            },
    {
        proof {
            reveal_strlit("html");
            reveal_strlit("markdown");
            reveal_strlit("text");
        }
        if crate::text::str_eq(value, "html") {
            Ok(FormatEnum::Html)
        } else if crate::text::str_eq(value, "markdown") {
            Ok(FormatEnum::Markdown)
        } else if crate::text::str_eq(value, "text") {
            Ok(FormatEnum::Text)
        } else {
            Err(OsmError::new(crate::text::message_with("unknown format: ", value)))
        }
    }
}

/// The member-type tokens a row may carry, first the codes then the words.
pub open spec fn spec_member_type(s: Seq<char>) -> Option<RelationMemberType> {
    if s == RelationMemberType::Node.code() || s == RelationMemberType::Node.word() {
        Some(RelationMemberType::Node)
    } else if s == RelationMemberType::Way.code() || s == RelationMemberType::Way.word() {
        Some(RelationMemberType::Way)
    } else if s == RelationMemberType::Relation.code() || s == RelationMemberType::Relation.word() {
        Some(RelationMemberType::Relation)
    } else {
        None
    }
}

/// The user-status words a row may carry.
pub open spec fn spec_user_status(s: Seq<char>) -> Option<UserStatus> {
    if s == UserStatus::Pending.word() {
        Some(UserStatus::Pending)
    } else if s == UserStatus::Active.word() {
        Some(UserStatus::Active)
    } else if s == UserStatus::Confirmed.word() {
        Some(UserStatus::Confirmed)
    } else if s == UserStatus::Suspended.word() {
        Some(UserStatus::Suspended)
    } else if s == UserStatus::Deleted.word() {
        Some(UserStatus::Deleted)
    } else {
        None
    }
}

/// The description-format words a row may carry.
pub open spec fn spec_format_enum(s: Seq<char>) -> Option<FormatEnum> {
    if s == FormatEnum::Html.word() {
        Some(FormatEnum::Html)
    } else if s == FormatEnum::Markdown.word() {
        Some(FormatEnum::Markdown)
    } else if s == FormatEnum::Text.word() {
        Some(FormatEnum::Text)
    } else {
        None
    }
}

/// One row of the nodes table.
#[derive(Debug, Clone, Copy, PartialEq, Eq, Structural)]
pub struct NodeRecord {
    pub node_id: i64,
    pub latitude: i32,
    pub longitude: i32,
    pub changeset_id: i64,
    pub visible: bool,
    pub timestamp: Timestamp,
    pub tile: i64,
    pub version: i64,
    pub redaction_id: Option<i32>,
}

/// One row of the node_tags table.
#[derive(Debug, Clone)]
pub struct NodeTagRecord {
    pub node_id: i64,
    pub version: i64,
    pub k: String,
    pub v: String,
}

/// One row of the changesets table.
#[derive(Debug, Clone, Copy, PartialEq, Eq, Structural)]
pub struct ChangesetRecord {
    pub id: i64,
    pub user_id: i64,
    pub created_at: Timestamp,
    pub min_lat: i32,
    pub max_lat: i32,
    pub min_lon: i32,
    pub max_lon: i32,
    pub closed_at: Timestamp,
    pub num_changes: i32,
}

/// One row of the users table. The two home coordinates are carried as the
/// raw column text, since nothing in the conversion interprets them.
#[derive(Debug, Clone)]
pub struct UserRecord {
    pub email: String,
    pub id: i64,
    pub pass_crypt: String,
    pub creation_time: Timestamp,
    pub display_name: String,
    pub data_public: bool,
    pub description: String,
    pub home_lat: String,
    pub home_lon: String,
    pub home_zoom: i16,
    pub pass_salt: String,
    pub email_valid: bool,
    pub new_email: String,
    pub creation_ip: String,
    pub languages: String,
    pub status: UserStatus,
    pub terms_agreed: Option<Timestamp>,
    pub consider_pd: bool,
    pub auth_uid: String,
    pub preferred_editor: String,
    pub terms_seen: bool,
    pub description_format: FormatEnum,
    pub changesets_count: i32,
    pub traces_count: i32,
    pub diary_entries_count: i32,
    pub image_use_gravatar: bool,
    pub auth_provider: String,
    pub home_tile: Option<i64>,
    pub tou_agreed: Option<Timestamp>,
}

/// One decoded row of any table the conversion reads.
#[derive(Debug, Clone)]
pub enum TableRecord {
    Node { node_record: NodeRecord },
    NodeTag { node_tag_record: NodeTagRecord },
    Way {
        way_id: i64,
        changeset_id: i64,
        timestamp: Timestamp,
        version: i64,
        visible: bool,
        redaction_id: Option<i32>,
    },
    WayTag { way_id: i64, k: String, v: String, version: i64 },
    WayNode { way_id: i64, node_id: i64, version: i64, sequence_id: i64 },
    Relation {
        relation_id: i64,
        changeset_id: i64,
        timestamp: Timestamp,
        version: i64,
        visible: bool,
        redaction_id: Option<i32>,
    },
    RelationTag { relation_id: i64, k: String, v: String, version: i64 },
    RelationMember {
        relation_id: i64,
        member_type: RelationMemberType,
        member_id: i64,
        member_role: String,
        version: i64,
        sequence_id: i32,
    },
    Changeset { changeset_record: ChangesetRecord },
    User { user_record: UserRecord },
}


/// Spec-level form of a node tag row.
#[verifier::ext_equal]
pub ghost struct NodeTagView {
    pub node_id: i64,
    pub version: i64,
    pub k: Seq<char>,
    pub v: Seq<char>,
}

impl View for NodeTagRecord {
    type V = NodeTagView;

    open spec fn view(&self) -> NodeTagView {
        NodeTagView { node_id: self.node_id, version: self.version, k: self.k@, v: self.v@ }
    }
}

impl DeepView for NodeTagRecord {
    type V = NodeTagView;

    open spec fn deep_view(&self) -> NodeTagView {
        self.view()
    }
}

/// Spec-level form of a user row.
#[verifier::ext_equal]
pub ghost struct UserRecordView {
    pub email: Seq<char>,
    pub id: i64,
    pub pass_crypt: Seq<char>,
    pub creation_time: Timestamp,
    pub display_name: Seq<char>,
    pub data_public: bool,
    pub description: Seq<char>,
    pub home_lat: Seq<char>,
    pub home_lon: Seq<char>,
    pub home_zoom: i16,
    pub pass_salt: Seq<char>,
    pub email_valid: bool,
    pub new_email: Seq<char>,
    pub creation_ip: Seq<char>,
    pub languages: Seq<char>,
    pub status: UserStatus,
    pub terms_agreed: Option<Timestamp>,
    pub consider_pd: bool,
    pub auth_uid: Seq<char>,
    pub preferred_editor: Seq<char>,
    pub terms_seen: bool,
    pub description_format: FormatEnum,
    pub changesets_count: i32,
    pub traces_count: i32,
    pub diary_entries_count: i32,
    pub image_use_gravatar: bool,
    pub auth_provider: Seq<char>,
    pub home_tile: Option<i64>,
    pub tou_agreed: Option<Timestamp>,
}

impl View for UserRecord {
    type V = UserRecordView;

    open spec fn view(&self) -> UserRecordView {
        UserRecordView {
            email: self.email@,
            id: self.id,
            pass_crypt: self.pass_crypt@,
            creation_time: self.creation_time,
            display_name: self.display_name@,
            data_public: self.data_public,
            description: self.description@,
            home_lat: self.home_lat@,
            home_lon: self.home_lon@,
            home_zoom: self.home_zoom,
            pass_salt: self.pass_salt@,
            email_valid: self.email_valid,
            new_email: self.new_email@,
            creation_ip: self.creation_ip@,
            languages: self.languages@,
            status: self.status,
            terms_agreed: self.terms_agreed,
            consider_pd: self.consider_pd,
            auth_uid: self.auth_uid@,
            preferred_editor: self.preferred_editor@,
            terms_seen: self.terms_seen,
            description_format: self.description_format,
            changesets_count: self.changesets_count,
            traces_count: self.traces_count,
            diary_entries_count: self.diary_entries_count,
            image_use_gravatar: self.image_use_gravatar,
            auth_provider: self.auth_provider@,
            home_tile: self.home_tile,
            tou_agreed: self.tou_agreed,
        }
    }
}

impl DeepView for UserRecord {
    type V = UserRecordView;

    open spec fn deep_view(&self) -> UserRecordView {
        self.view()
    }
}

/// Spec-level form of a decoded row.
#[verifier::ext_equal]
pub ghost enum TableRecordView {
    Node { node_record: NodeRecord },
    NodeTag { node_tag_record: NodeTagView },
    Way {
        way_id: i64,
        changeset_id: i64,
        timestamp: Timestamp,
        version: i64,
        visible: bool,
        redaction_id: Option<i32>,
    },
    WayTag { way_id: i64, k: Seq<char>, v: Seq<char>, version: i64 },
    WayNode { way_id: i64, node_id: i64, version: i64, sequence_id: i64 },
    Relation {
        relation_id: i64,
        changeset_id: i64,
        timestamp: Timestamp,
        version: i64,
        visible: bool,
        redaction_id: Option<i32>,
    },
    RelationTag { relation_id: i64, k: Seq<char>, v: Seq<char>, version: i64 },
    RelationMember {
        relation_id: i64,
        member_type: RelationMemberType,
        member_id: i64,
        member_role: Seq<char>,
        version: i64,
        sequence_id: i32,
    },
    Changeset { changeset_record: ChangesetRecord },
    User { user_record: UserRecordView },
}

impl View for TableRecord {
    type V = TableRecordView;

    open spec fn view(&self) -> TableRecordView {
        match self {
            TableRecord::Node { node_record } => TableRecordView::Node {
                node_record: *node_record,
            },
            TableRecord::NodeTag { node_tag_record } => TableRecordView::NodeTag {
                node_tag_record: node_tag_record@,
            },
            TableRecord::Way { way_id, changeset_id, timestamp, version, visible, redaction_id } => {
                TableRecordView::Way {
                    way_id: *way_id,
                    changeset_id: *changeset_id,
                    timestamp: *timestamp,
                    version: *version,
                    visible: *visible,
                    redaction_id: *redaction_id,
                }
            },
            TableRecord::WayTag { way_id, k, v, version } => TableRecordView::WayTag {
                way_id: *way_id,
                k: k@,
                v: v@,
                version: *version,
            },
            TableRecord::WayNode { way_id, node_id, version, sequence_id } => {
                TableRecordView::WayNode {
                    way_id: *way_id,
                    node_id: *node_id,
                    version: *version,
                    sequence_id: *sequence_id,
                }
            },
            TableRecord::Relation {
                relation_id,
                changeset_id,
                timestamp,
                version,
                visible,
                redaction_id,
            } => TableRecordView::Relation {
                relation_id: *relation_id,
                changeset_id: *changeset_id,
                timestamp: *timestamp,
                version: *version,
                visible: *visible,
                redaction_id: *redaction_id,
            },
            TableRecord::RelationTag { relation_id, k, v, version } => {
                TableRecordView::RelationTag {
                    relation_id: *relation_id,
                    k: k@,
                    v: v@,
                    version: *version,
                }
            },
            TableRecord::RelationMember {
                relation_id,
                member_type,
                member_id,
                member_role,
                version,
                sequence_id,
            } => TableRecordView::RelationMember {
                relation_id: *relation_id,
                member_type: *member_type,
                member_id: *member_id,
                member_role: member_role@,
                version: *version,
                sequence_id: *sequence_id,
            },
            TableRecord::Changeset { changeset_record } => TableRecordView::Changeset {
                changeset_record: *changeset_record,
            },
            TableRecord::User { user_record } => TableRecordView::User {
                user_record: user_record@,
            },
        }
    }
}

impl DeepView for TableRecord {
    type V = TableRecordView;

    open spec fn deep_view(&self) -> TableRecordView {
        self.view()
    }
}

} // verus!
