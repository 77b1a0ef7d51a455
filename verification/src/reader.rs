//! The streaming table reader: decodes tab-separated rows into typed
//! records by resolved offsets, skipping malformed rows and stopping at the
//! archive's end-of-data sentinel.
use vstd::prelude::*;
use crate::error::OsmError;
use crate::fields::{TableFields, table_cols_present, table_fields_ok};
use crate::record::{
    TableRecord, TableRecordView, NodeRecord, NodeTagRecord, NodeTagView, ChangesetRecord,
    UserRecord, UserRecordView, RelationMemberType, UserStatus, FormatEnum, spec_member_type,
    spec_user_status, spec_format_enum,
};
use crate::text::split_on;

verus! {

/// A table located by the table of contents: its relational name, the data
/// file that holds its rows, and the resolved field offsets.
#[derive(Debug, Clone)]
pub struct TableDef {
    pub name: String,
    pub file_name: String,
    pub fields: TableFields,
}

impl TableDef {
    /// Builds a table definition from the declared column list; fails on an
    /// unknown table name or a missing required column.
    pub fn new(name: String, file_name: String, columns: &Vec<String>) -> (r: Result<
        TableDef,
        OsmError,
    >)
        ensures
            r is Ok <==> table_cols_present(name@, columns.deep_view()),
            r matches Ok(td) ==> td.name@ == name@ && td.file_name@ == file_name@
                && table_fields_ok(name@, columns.deep_view(), td.fields),
            r matches Err(e) ==> e.kind == crate::error::ErrorKind::Structure && if
                crate::fields::known_table(name@) {
                crate::fields::missing_column_message(columns.deep_view(), e.message@)
            } else {
                e.message@ == "unknown table name: "@ + name@
            },
    {
        match TableFields::new(name.as_str(), columns) {
            Ok(fields) => Ok(TableDef { name, file_name, fields }),
            Err(e) => Err(e),
        }
    }
}

/// How the exec decoder's result must relate to the spec decoder's.
pub open spec fn decode_matches(r: Option<TableRecord>, s: Option<TableRecordView>) -> bool {
    match r {
        Some(rec) => s == Some(rec@),
        None => s is None,
    }
}

/// One nodes row decoded by offsets, as a spec function.
pub open spec fn decode_nodes_spec(cols: Seq<Seq<char>>, tf: TableFields) -> Option<TableRecordView> {
    match tf {
        TableFields::Nodes { node_id, latitude, longitude, changeset_id, visible, timestamp, tile, version, redaction_id } => {
            if node_id < cols.len() && latitude < cols.len() && longitude < cols.len() && changeset_id < cols.len() && visible < cols.len() && timestamp < cols.len() && tile < cols.len() && version < cols.len() && redaction_id < cols.len() {
                if crate::text::spec_parse_i64(cols[node_id as int]) is Some && crate::text::spec_parse_i32(cols[latitude as int]) is Some && crate::text::spec_parse_i32(cols[longitude as int]) is Some && crate::text::spec_parse_i64(cols[changeset_id as int]) is Some && crate::sql::spec_parse_bool(cols[visible as int]) is Some && crate::time::parse_ts_spec(cols[timestamp as int]) is Some && crate::text::spec_parse_i64(cols[tile as int]) is Some && crate::text::spec_parse_i64(cols[version as int]) is Some {
                    Some(TableRecordView::Node {
                        node_record: NodeRecord {
                            node_id: crate::text::spec_parse_i64(cols[node_id as int])->0,
                            latitude: crate::text::spec_parse_i32(cols[latitude as int])->0,
                            longitude: crate::text::spec_parse_i32(cols[longitude as int])->0,
                            changeset_id: crate::text::spec_parse_i64(cols[changeset_id as int])->0,
                            visible: crate::sql::spec_parse_bool(cols[visible as int])->0,
                            timestamp: crate::time::parse_ts_spec(cols[timestamp as int])->0,
                            tile: crate::text::spec_parse_i64(cols[tile as int])->0,
                            version: crate::text::spec_parse_i64(cols[version as int])->0,
                            redaction_id: crate::text::spec_parse_i32(cols[redaction_id as int]),
                        },
                    })
                } else {
                    None
                }
            } else {
                None
            }
        },
        _ => None,
    }
}

/// One node_tags row decoded by offsets, as a spec function.
pub open spec fn decode_node_tags_spec(cols: Seq<Seq<char>>, tf: TableFields) -> Option<TableRecordView> {
    match tf {
        TableFields::NodeTags { node_id, version, k, v } => {
            if node_id < cols.len() && version < cols.len() && k < cols.len() && v < cols.len() {
                if crate::text::spec_parse_i64(cols[node_id as int]) is Some && crate::text::spec_parse_i64(cols[version as int]) is Some {
                    Some(TableRecordView::NodeTag {
                        node_tag_record: NodeTagView {
                            node_id: crate::text::spec_parse_i64(cols[node_id as int])->0,
                            version: crate::text::spec_parse_i64(cols[version as int])->0,
                            k: cols[k as int],
                            v: cols[v as int],
                        },
                    })
                } else {
                    None
                }
            } else {
                None
            }
        },
        _ => None,
    }
}

/// One ways row decoded by offsets, as a spec function.
pub open spec fn decode_ways_spec(cols: Seq<Seq<char>>, tf: TableFields) -> Option<TableRecordView> {
    match tf {
        TableFields::Ways { way_id, changeset_id, timestamp, version, visible, redaction_id } => {
            if way_id < cols.len() && changeset_id < cols.len() && timestamp < cols.len() && version < cols.len() && visible < cols.len() && redaction_id < cols.len() {
                if crate::text::spec_parse_i64(cols[way_id as int]) is Some && crate::text::spec_parse_i64(cols[changeset_id as int]) is Some && crate::time::parse_ts_spec(cols[timestamp as int]) is Some && crate::text::spec_parse_i64(cols[version as int]) is Some && crate::sql::spec_parse_bool(cols[visible as int]) is Some {
                    Some(TableRecordView::Way {
                        way_id: crate::text::spec_parse_i64(cols[way_id as int])->0,
                        changeset_id: crate::text::spec_parse_i64(cols[changeset_id as int])->0,
                        timestamp: crate::time::parse_ts_spec(cols[timestamp as int])->0,
                        version: crate::text::spec_parse_i64(cols[version as int])->0,
                        visible: crate::sql::spec_parse_bool(cols[visible as int])->0,
                        redaction_id: crate::text::spec_parse_i32(cols[redaction_id as int]),
                    })
                } else {
                    None
                }
            } else {
                None
            }
        },
        _ => None,
    }
}

/// One way_nodes row decoded by offsets, as a spec function.
pub open spec fn decode_way_nodes_spec(cols: Seq<Seq<char>>, tf: TableFields) -> Option<TableRecordView> {
    match tf {
        TableFields::WayNodes { way_id, node_id, version, sequence_id } => {
            if way_id < cols.len() && node_id < cols.len() && version < cols.len() && sequence_id < cols.len() {
                if crate::text::spec_parse_i64(cols[way_id as int]) is Some && crate::text::spec_parse_i64(cols[node_id as int]) is Some && crate::text::spec_parse_i64(cols[version as int]) is Some && crate::text::spec_parse_i64(cols[sequence_id as int]) is Some {
                    Some(TableRecordView::WayNode {
                        way_id: crate::text::spec_parse_i64(cols[way_id as int])->0,
                        node_id: crate::text::spec_parse_i64(cols[node_id as int])->0,
                        version: crate::text::spec_parse_i64(cols[version as int])->0,
                        sequence_id: crate::text::spec_parse_i64(cols[sequence_id as int])->0,
                    })
                } else {
                    None
                }
            } else {
                None
            }
        },
        _ => None,
    }
}

/// One way_tags row decoded by offsets, as a spec function.
pub open spec fn decode_way_tags_spec(cols: Seq<Seq<char>>, tf: TableFields) -> Option<TableRecordView> {
    match tf {
        TableFields::WayTags { way_id, k, v, version } => {
            if way_id < cols.len() && k < cols.len() && v < cols.len() && version < cols.len() {
                if crate::text::spec_parse_i64(cols[way_id as int]) is Some && crate::text::spec_parse_i64(cols[version as int]) is Some {
                    Some(TableRecordView::WayTag {
                        way_id: crate::text::spec_parse_i64(cols[way_id as int])->0,
                        k: cols[k as int],
                        v: cols[v as int],
                        version: crate::text::spec_parse_i64(cols[version as int])->0,
                    })
                } else {
                    None
                }
            } else {
                None
            }
        },
        _ => None,
    }
}

/// One relations row decoded by offsets, as a spec function.
pub open spec fn decode_relations_spec(cols: Seq<Seq<char>>, tf: TableFields) -> Option<TableRecordView> {
    match tf {
        TableFields::Relations { relation_id, changeset_id, timestamp, version, visible, redaction_id } => {
            if relation_id < cols.len() && changeset_id < cols.len() && timestamp < cols.len() && version < cols.len() && visible < cols.len() && redaction_id < cols.len() {
                if crate::text::spec_parse_i64(cols[relation_id as int]) is Some && crate::text::spec_parse_i64(cols[changeset_id as int]) is Some && crate::time::parse_ts_spec(cols[timestamp as int]) is Some && crate::text::spec_parse_i64(cols[version as int]) is Some && crate::sql::spec_parse_bool(cols[visible as int]) is Some {
                    Some(TableRecordView::Relation {
                        relation_id: crate::text::spec_parse_i64(cols[relation_id as int])->0,
                        changeset_id: crate::text::spec_parse_i64(cols[changeset_id as int])->0,
                        timestamp: crate::time::parse_ts_spec(cols[timestamp as int])->0,
                        version: crate::text::spec_parse_i64(cols[version as int])->0,
                        visible: crate::sql::spec_parse_bool(cols[visible as int])->0,
                        redaction_id: crate::text::spec_parse_i32(cols[redaction_id as int]),
                    })
                } else {
                    None
                }
            } else {
                None
            }
        },
        _ => None,
    }
}

/// One relation_members row decoded by offsets, as a spec function.
pub open spec fn decode_relation_members_spec(cols: Seq<Seq<char>>, tf: TableFields) -> Option<TableRecordView> {
    match tf {
        TableFields::RelationMembers { relation_id, member_type, member_id, member_role, version, sequence_id } => {
            if relation_id < cols.len() && member_type < cols.len() && member_id < cols.len() && member_role < cols.len() && version < cols.len() && sequence_id < cols.len() {
                if crate::text::spec_parse_i64(cols[relation_id as int]) is Some && spec_member_type(cols[member_type as int]) is Some && crate::text::spec_parse_i64(cols[member_id as int]) is Some && crate::text::spec_parse_i64(cols[version as int]) is Some && crate::text::spec_parse_i32(cols[sequence_id as int]) is Some {
                    Some(TableRecordView::RelationMember {
                        relation_id: crate::text::spec_parse_i64(cols[relation_id as int])->0,
                        member_type: spec_member_type(cols[member_type as int])->0,
                        member_id: crate::text::spec_parse_i64(cols[member_id as int])->0,
                        member_role: cols[member_role as int],
                        version: crate::text::spec_parse_i64(cols[version as int])->0,
                        sequence_id: crate::text::spec_parse_i32(cols[sequence_id as int])->0,
                    })
                } else {
                    None
                }
            } else {
                None
            }
        },
        _ => None,
    }
}

/// One relation_tags row decoded by offsets, as a spec function.
pub open spec fn decode_relation_tags_spec(cols: Seq<Seq<char>>, tf: TableFields) -> Option<TableRecordView> {
    match tf {
        TableFields::RelationTags { relation_id, k, v, version } => {
            if relation_id < cols.len() && k < cols.len() && v < cols.len() && version < cols.len() {
                if crate::text::spec_parse_i64(cols[relation_id as int]) is Some && crate::text::spec_parse_i64(cols[version as int]) is Some {
                    Some(TableRecordView::RelationTag {
                        relation_id: crate::text::spec_parse_i64(cols[relation_id as int])->0,
                        k: cols[k as int],
                        v: cols[v as int],
                        version: crate::text::spec_parse_i64(cols[version as int])->0,
                    })
                } else {
                    None
                }
            } else {
                None
            }
        },
        _ => None,
    }
}

/// One changesets row decoded by offsets, as a spec function.
pub open spec fn decode_changesets_spec(cols: Seq<Seq<char>>, tf: TableFields) -> Option<TableRecordView> {
    match tf {
        TableFields::Changesets { id, user_id, created_at, min_lat, max_lat, min_lon, max_lon, closed_at, num_changes } => {
            if id < cols.len() && user_id < cols.len() && created_at < cols.len() && min_lat < cols.len() && max_lat < cols.len() && min_lon < cols.len() && max_lon < cols.len() && closed_at < cols.len() && num_changes < cols.len() {
                if crate::text::spec_parse_i64(cols[id as int]) is Some && crate::text::spec_parse_i64(cols[user_id as int]) is Some && crate::time::parse_ts_spec(cols[created_at as int]) is Some && crate::text::spec_parse_i32(cols[min_lat as int]) is Some && crate::text::spec_parse_i32(cols[max_lat as int]) is Some && crate::text::spec_parse_i32(cols[min_lon as int]) is Some && crate::text::spec_parse_i32(cols[max_lon as int]) is Some && crate::time::parse_ts_spec(cols[closed_at as int]) is Some && crate::text::spec_parse_i32(cols[num_changes as int]) is Some {
                    Some(TableRecordView::Changeset {
                        changeset_record: ChangesetRecord {
                            id: crate::text::spec_parse_i64(cols[id as int])->0,
                            user_id: crate::text::spec_parse_i64(cols[user_id as int])->0,
                            created_at: crate::time::parse_ts_spec(cols[created_at as int])->0,
                            min_lat: crate::text::spec_parse_i32(cols[min_lat as int])->0,
                            max_lat: crate::text::spec_parse_i32(cols[max_lat as int])->0,
                            min_lon: crate::text::spec_parse_i32(cols[min_lon as int])->0,
                            max_lon: crate::text::spec_parse_i32(cols[max_lon as int])->0,
                            closed_at: crate::time::parse_ts_spec(cols[closed_at as int])->0,
                            num_changes: crate::text::spec_parse_i32(cols[num_changes as int])->0,
                        },
                    })
                } else {
                    None
                }
            } else {
                None
            }
        },
        _ => None,
    }
}

/// One users row decoded by offsets, as a spec function.
pub open spec fn decode_users_spec(cols: Seq<Seq<char>>, tf: TableFields) -> Option<TableRecordView> {
    match tf {
        TableFields::Users { email, id, pass_crypt, creation_time, display_name, data_public, description, home_lat, home_lon, home_zoom, pass_salt, email_valid, new_email, creation_ip, languages, status, terms_agreed, consider_pd, auth_uid, preferred_editor, terms_seen, description_format, changesets_count, traces_count, diary_entries_count, image_use_gravatar, auth_provider, home_tile, tou_agreed } => {
            if email < cols.len() && id < cols.len() && pass_crypt < cols.len() && creation_time < cols.len() && display_name < cols.len() && data_public < cols.len() && description < cols.len() && home_lat < cols.len() && home_lon < cols.len() && home_zoom < cols.len() && pass_salt < cols.len() && email_valid < cols.len() && new_email < cols.len() && creation_ip < cols.len() && languages < cols.len() && status < cols.len() && terms_agreed < cols.len() && consider_pd < cols.len() && auth_uid < cols.len() && preferred_editor < cols.len() && terms_seen < cols.len() && description_format < cols.len() && changesets_count < cols.len() && traces_count < cols.len() && diary_entries_count < cols.len() && image_use_gravatar < cols.len() && auth_provider < cols.len() && home_tile < cols.len() && tou_agreed < cols.len() {
                if crate::text::spec_parse_i64(cols[id as int]) is Some && crate::time::parse_ts_spec(cols[creation_time as int]) is Some && crate::sql::spec_parse_bool(cols[data_public as int]) is Some && crate::text::spec_parse_i16(cols[home_zoom as int]) is Some && crate::sql::spec_parse_bool(cols[email_valid as int]) is Some && spec_user_status(cols[status as int]) is Some && crate::sql::spec_parse_bool(cols[consider_pd as int]) is Some && crate::sql::spec_parse_bool(cols[terms_seen as int]) is Some && spec_format_enum(cols[description_format as int]) is Some && crate::text::spec_parse_i32(cols[changesets_count as int]) is Some && crate::text::spec_parse_i32(cols[traces_count as int]) is Some && crate::text::spec_parse_i32(cols[diary_entries_count as int]) is Some && crate::sql::spec_parse_bool(cols[image_use_gravatar as int]) is Some {
                    Some(TableRecordView::User {
                        user_record: UserRecordView {
                            email: cols[email as int],
                            id: crate::text::spec_parse_i64(cols[id as int])->0,
                            pass_crypt: cols[pass_crypt as int],
                            creation_time: crate::time::parse_ts_spec(cols[creation_time as int])->0,
                            display_name: cols[display_name as int],
                            data_public: crate::sql::spec_parse_bool(cols[data_public as int])->0,
                            description: cols[description as int],
                            home_lat: cols[home_lat as int],
                            home_lon: cols[home_lon as int],
                            home_zoom: crate::text::spec_parse_i16(cols[home_zoom as int])->0,
                            pass_salt: cols[pass_salt as int],
                            email_valid: crate::sql::spec_parse_bool(cols[email_valid as int])->0,
                            new_email: cols[new_email as int],
                            creation_ip: cols[creation_ip as int],
                            languages: cols[languages as int],
                            status: spec_user_status(cols[status as int])->0,
                            terms_agreed: crate::time::parse_ts_spec(cols[terms_agreed as int]),
                            consider_pd: crate::sql::spec_parse_bool(cols[consider_pd as int])->0,
                            auth_uid: cols[auth_uid as int],
                            preferred_editor: cols[preferred_editor as int],
                            terms_seen: crate::sql::spec_parse_bool(cols[terms_seen as int])->0,
                            description_format: spec_format_enum(cols[description_format as int])->0,
                            changesets_count: crate::text::spec_parse_i32(cols[changesets_count as int])->0,
                            traces_count: crate::text::spec_parse_i32(cols[traces_count as int])->0,
                            diary_entries_count: crate::text::spec_parse_i32(cols[diary_entries_count as int])->0,
                            image_use_gravatar: crate::sql::spec_parse_bool(cols[image_use_gravatar as int])->0,
                            auth_provider: cols[auth_provider as int],
                            home_tile: crate::text::spec_parse_i64(cols[home_tile as int]),
                            tou_agreed: crate::time::parse_ts_spec(cols[tou_agreed as int]),
                        },
                    })
                } else {
                    None
                }
            } else {
                None
            }
        },
        _ => None,
    }
}

/// One row decoded according to the table the offsets belong to.
pub open spec fn decode_row_spec(cols: Seq<Seq<char>>, tf: TableFields) -> Option<TableRecordView> {
    match tf {
        TableFields::Nodes { .. } => decode_nodes_spec(cols, tf),
        TableFields::NodeTags { .. } => decode_node_tags_spec(cols, tf),
        TableFields::Ways { .. } => decode_ways_spec(cols, tf),
        TableFields::WayNodes { .. } => decode_way_nodes_spec(cols, tf),
        TableFields::WayTags { .. } => decode_way_tags_spec(cols, tf),
        TableFields::Relations { .. } => decode_relations_spec(cols, tf),
        TableFields::RelationMembers { .. } => decode_relation_members_spec(cols, tf),
        TableFields::RelationTags { .. } => decode_relation_tags_spec(cols, tf),
        TableFields::Changesets { .. } => decode_changesets_spec(cols, tf),
        TableFields::Users { .. } => decode_users_spec(cols, tf),
    }
}

/// A reader over one table's data rows.
#[derive(Debug, Clone)]
pub struct TableReader {
    pub table_def: TableDef,
}

impl TableReader {
    /// Wraps a table definition for row decoding.
    pub fn new(table_def: &TableDef) -> (r: Result<TableReader, OsmError>)
        ensures
            r matches Ok(tr) && tr.table_def.name@ == table_def.name@
                && tr.table_def.file_name@ == table_def.file_name@
                && tr.table_def.fields == table_def.fields,
    {
        Ok(
            TableReader {
                table_def: TableDef {
                    name: table_def.name.clone(),
                    file_name: table_def.file_name.clone(),
                    fields: table_def.fields,
                },
            },
        )
    }

    /// Decodes one nodes row; a malformed row is `None`.
    pub fn create_node(line: &str, fields: &TableFields) -> (r: Option<TableRecord>)
        ensures
            decode_matches(r, decode_nodes_spec(split_on(line@, '\t'), *fields)),
    {
        let cols = crate::text::split_tabs(line);
        match *fields {
            TableFields::Nodes { node_id, latitude, longitude, changeset_id, visible, timestamp, tile, version, redaction_id } => {
                if !(node_id < cols.len() && latitude < cols.len() && longitude < cols.len() && changeset_id < cols.len() && visible < cols.len() && timestamp < cols.len() && tile < cols.len() && version < cols.len() && redaction_id < cols.len()) {
                    return None;
                }
                let v_node_id = match crate::text::parse_i64(cols[node_id].as_str()) {
                    Some(v) => v,
                    None => {
                        return None;
                    },
                };
                let v_latitude = match crate::text::parse_i32(cols[latitude].as_str()) {
                    Some(v) => v,
                    None => {
                        return None;
                    },
                };
                let v_longitude = match crate::text::parse_i32(cols[longitude].as_str()) {
                    Some(v) => v,
                    None => {
                        return None;
                    },
                };
                let v_changeset_id = match crate::text::parse_i64(cols[changeset_id].as_str()) {
                    Some(v) => v,
                    None => {
                        return None;
                    },
                };
                let v_visible = match crate::sql::parse_sql_bool(cols[visible].as_str()) {
                    Ok(v) => v,
                    Err(_) => {
                        return None;
                    },
                };
                let v_timestamp = match crate::time::parse_sql_time(cols[timestamp].as_str()) {
                    Ok(v) => v,
                    Err(_) => {
                        return None;
                    },
                };
                let v_tile = match crate::text::parse_i64(cols[tile].as_str()) {
                    Some(v) => v,
                    None => {
                        return None;
                    },
                };
                let v_version = match crate::text::parse_i64(cols[version].as_str()) {
                    Some(v) => v,
                    None => {
                        return None;
                    },
                };
                let v_redaction_id = crate::text::parse_i32(cols[redaction_id].as_str());
                Some(TableRecord::Node { node_record: NodeRecord { node_id: v_node_id, latitude: v_latitude, longitude: v_longitude, changeset_id: v_changeset_id, visible: v_visible, timestamp: v_timestamp, tile: v_tile, version: v_version, redaction_id: v_redaction_id } })
            },
            _ => None,
        }
    }

    /// Decodes one node_tags row; a malformed row is `None`.
    pub fn create_node_tag(line: &str, fields: &TableFields) -> (r: Option<TableRecord>)
        ensures
            decode_matches(r, decode_node_tags_spec(split_on(line@, '\t'), *fields)),
    {
        let cols = crate::text::split_tabs(line);
        match *fields {
            TableFields::NodeTags { node_id, version, k, v } => {
                if !(node_id < cols.len() && version < cols.len() && k < cols.len() && v < cols.len()) {
                    return None;
                }
                let v_node_id = match crate::text::parse_i64(cols[node_id].as_str()) {
                    Some(v) => v,
                    None => {
                        return None;
                    },
                };
                let v_version = match crate::text::parse_i64(cols[version].as_str()) {
                    Some(v) => v,
                    None => {
                        return None;
                    },
                };
                let v_k = cols[k].clone();
                let v_v = cols[v].clone();
                Some(TableRecord::NodeTag { node_tag_record: NodeTagRecord { node_id: v_node_id, version: v_version, k: v_k, v: v_v } })
            },
            _ => None,
        }
    }

    /// Decodes one ways row; a malformed row is `None`.
    pub fn create_way(line: &str, fields: &TableFields) -> (r: Option<TableRecord>)
        ensures
            decode_matches(r, decode_ways_spec(split_on(line@, '\t'), *fields)),
    {
        let cols = crate::text::split_tabs(line);
        match *fields {
            TableFields::Ways { way_id, changeset_id, timestamp, version, visible, redaction_id } => {
                if !(way_id < cols.len() && changeset_id < cols.len() && timestamp < cols.len() && version < cols.len() && visible < cols.len() && redaction_id < cols.len()) {
                    return None;
                }
                let v_way_id = match crate::text::parse_i64(cols[way_id].as_str()) {
                    Some(v) => v,
                    None => {
                        return None;
                    },
                };
                let v_changeset_id = match crate::text::parse_i64(cols[changeset_id].as_str()) {
                    Some(v) => v,
                    None => {
                        return None;
                    },
                };
                let v_timestamp = match crate::time::parse_sql_time(cols[timestamp].as_str()) {
                    Ok(v) => v,
                    Err(_) => {
                        return None;
                    },
                };
                let v_version = match crate::text::parse_i64(cols[version].as_str()) {
                    Some(v) => v,
                    None => {
                        return None;
                    },
                };
                let v_visible = match crate::sql::parse_sql_bool(cols[visible].as_str()) {
                    Ok(v) => v,
                    Err(_) => {
                        return None;
                    },
                };
                let v_redaction_id = crate::text::parse_i32(cols[redaction_id].as_str());
                Some(TableRecord::Way { way_id: v_way_id, changeset_id: v_changeset_id, timestamp: v_timestamp, version: v_version, visible: v_visible, redaction_id: v_redaction_id })
            },
            _ => None,
        }
    }

    /// Decodes one way_nodes row; a malformed row is `None`.
    pub fn create_way_node(line: &str, fields: &TableFields) -> (r: Option<TableRecord>)
        ensures
            decode_matches(r, decode_way_nodes_spec(split_on(line@, '\t'), *fields)),
    {
        let cols = crate::text::split_tabs(line);
        match *fields {
            TableFields::WayNodes { way_id, node_id, version, sequence_id } => {
                if !(way_id < cols.len() && node_id < cols.len() && version < cols.len() && sequence_id < cols.len()) {
                    return None;
                }
                let v_way_id = match crate::text::parse_i64(cols[way_id].as_str()) {
                    Some(v) => v,
                    None => {
                        return None;
                    },
                };
                let v_node_id = match crate::text::parse_i64(cols[node_id].as_str()) {
                    Some(v) => v,
                    None => {
                        return None;
                    },
                };
                let v_version = match crate::text::parse_i64(cols[version].as_str()) {
                    Some(v) => v,
                    None => {
                        return None;
                    },
                };
                let v_sequence_id = match crate::text::parse_i64(cols[sequence_id].as_str()) {
                    Some(v) => v,
                    None => {
                        return None;
                    },
                };
                Some(TableRecord::WayNode { way_id: v_way_id, node_id: v_node_id, version: v_version, sequence_id: v_sequence_id })
            },
            _ => None,
        }
    }

    /// Decodes one way_tags row; a malformed row is `None`.
    pub fn create_way_tag(line: &str, fields: &TableFields) -> (r: Option<TableRecord>)
        ensures
            decode_matches(r, decode_way_tags_spec(split_on(line@, '\t'), *fields)),
    {
        let cols = crate::text::split_tabs(line);
        match *fields {
            TableFields::WayTags { way_id, k, v, version } => {
                if !(way_id < cols.len() && k < cols.len() && v < cols.len() && version < cols.len()) {
                    return None;
                }
                let v_way_id = match crate::text::parse_i64(cols[way_id].as_str()) {
                    Some(v) => v,
                    None => {
                        return None;
                    },
                };
                let v_k = cols[k].clone();
                let v_v = cols[v].clone();
                let v_version = match crate::text::parse_i64(cols[version].as_str()) {
                    Some(v) => v,
                    None => {
                        return None;
                    },
                };
                Some(TableRecord::WayTag { way_id: v_way_id, k: v_k, v: v_v, version: v_version })
            },
            _ => None,
        }
    }

    /// Decodes one relations row; a malformed row is `None`.
    pub fn create_relation(line: &str, fields: &TableFields) -> (r: Option<TableRecord>)
        ensures
            decode_matches(r, decode_relations_spec(split_on(line@, '\t'), *fields)),
    {
        let cols = crate::text::split_tabs(line);
        match *fields {
            TableFields::Relations { relation_id, changeset_id, timestamp, version, visible, redaction_id } => {
                if !(relation_id < cols.len() && changeset_id < cols.len() && timestamp < cols.len() && version < cols.len() && visible < cols.len() && redaction_id < cols.len()) {
                    return None;
                }
                let v_relation_id = match crate::text::parse_i64(cols[relation_id].as_str()) {
                    Some(v) => v,
                    None => {
                        return None;
                    },
                };
                let v_changeset_id = match crate::text::parse_i64(cols[changeset_id].as_str()) {
                    Some(v) => v,
                    None => {
                        return None;
                    },
                };
                let v_timestamp = match crate::time::parse_sql_time(cols[timestamp].as_str()) {
                    Ok(v) => v,
                    Err(_) => {
                        return None;
                    },
                };
                let v_version = match crate::text::parse_i64(cols[version].as_str()) {
                    Some(v) => v,
                    None => {
                        return None;
                    },
                };
                let v_visible = match crate::sql::parse_sql_bool(cols[visible].as_str()) {
                    Ok(v) => v,
                    Err(_) => {
                        return None;
                    },
                };
                let v_redaction_id = crate::text::parse_i32(cols[redaction_id].as_str());
                Some(TableRecord::Relation { relation_id: v_relation_id, changeset_id: v_changeset_id, timestamp: v_timestamp, version: v_version, visible: v_visible, redaction_id: v_redaction_id })
            },
            _ => None,
        }
    }

    /// Decodes one relation_members row; a malformed row is `None`.
    pub fn create_relation_member(line: &str, fields: &TableFields) -> (r: Option<TableRecord>)
        ensures
            decode_matches(r, decode_relation_members_spec(split_on(line@, '\t'), *fields)),
    {
        let cols = crate::text::split_tabs(line);
        match *fields {
            TableFields::RelationMembers { relation_id, member_type, member_id, member_role, version, sequence_id } => {
                if !(relation_id < cols.len() && member_type < cols.len() && member_id < cols.len() && member_role < cols.len() && version < cols.len() && sequence_id < cols.len()) {
                    return None;
                }
                let v_relation_id = match crate::text::parse_i64(cols[relation_id].as_str()) {
                    Some(v) => v,
                    None => {
                        return None;
                    },
                };
                let v_member_type = match RelationMemberType::try_from(cols[member_type].as_str()) {
                    Ok(v) => v,
                    Err(_) => {
                        return None;
                    },
                };
                let v_member_id = match crate::text::parse_i64(cols[member_id].as_str()) {
                    Some(v) => v,
                    None => {
                        return None;
                    },
                };
                let v_member_role = cols[member_role].clone();
                let v_version = match crate::text::parse_i64(cols[version].as_str()) {
                    Some(v) => v,
                    None => {
                        return None;
                    },
                };
                let v_sequence_id = match crate::text::parse_i32(cols[sequence_id].as_str()) {
                    Some(v) => v,
                    None => {
                        return None;
                    },
                };
                Some(TableRecord::RelationMember { relation_id: v_relation_id, member_type: v_member_type, member_id: v_member_id, member_role: v_member_role, version: v_version, sequence_id: v_sequence_id })
            },
            _ => None,
        }
    }

    /// Decodes one relation_tags row; a malformed row is `None`.
    pub fn create_relation_tag(line: &str, fields: &TableFields) -> (r: Option<TableRecord>)
        ensures
            decode_matches(r, decode_relation_tags_spec(split_on(line@, '\t'), *fields)),
    {
        let cols = crate::text::split_tabs(line);
        match *fields {
            TableFields::RelationTags { relation_id, k, v, version } => {
                if !(relation_id < cols.len() && k < cols.len() && v < cols.len() && version < cols.len()) {
                    return None;
                }
                let v_relation_id = match crate::text::parse_i64(cols[relation_id].as_str()) {
                    Some(v) => v,
                    None => {
                        return None;
                    },
                };
                let v_k = cols[k].clone();
                let v_v = cols[v].clone();
                let v_version = match crate::text::parse_i64(cols[version].as_str()) {
                    Some(v) => v,
                    None => {
                        return None;
                    },
                };
                Some(TableRecord::RelationTag { relation_id: v_relation_id, k: v_k, v: v_v, version: v_version })
            },
            _ => None,
        }
    }

    /// Decodes one changesets row; a malformed row is `None`.
    pub fn create_changeset(line: &str, fields: &TableFields) -> (r: Option<TableRecord>)
        ensures
            decode_matches(r, decode_changesets_spec(split_on(line@, '\t'), *fields)),
    {
        let cols = crate::text::split_tabs(line);
        match *fields {
            TableFields::Changesets { id, user_id, created_at, min_lat, max_lat, min_lon, max_lon, closed_at, num_changes } => {
                if !(id < cols.len() && user_id < cols.len() && created_at < cols.len() && min_lat < cols.len() && max_lat < cols.len() && min_lon < cols.len() && max_lon < cols.len() && closed_at < cols.len() && num_changes < cols.len()) {
                    return None;
                }
                let v_id = match crate::text::parse_i64(cols[id].as_str()) {
                    Some(v) => v,
                    None => {
                        return None;
                    },
                };
                let v_user_id = match crate::text::parse_i64(cols[user_id].as_str()) {
                    Some(v) => v,
                    None => {
                        return None;
                    },
                };
                let v_created_at = match crate::time::parse_sql_time(cols[created_at].as_str()) {
                    Ok(v) => v,
                    Err(_) => {
                        return None;
                    },
                };
                let v_min_lat = match crate::text::parse_i32(cols[min_lat].as_str()) {
                    Some(v) => v,
                    None => {
                        return None;
                    },
                };
                let v_max_lat = match crate::text::parse_i32(cols[max_lat].as_str()) {
                    Some(v) => v,
                    None => {
                        return None;
                    },
                };
                let v_min_lon = match crate::text::parse_i32(cols[min_lon].as_str()) {
                    Some(v) => v,
                    None => {
                        return None;
                    },
                };
                let v_max_lon = match crate::text::parse_i32(cols[max_lon].as_str()) {
                    Some(v) => v,
                    None => {
                        return None;
                    },
                };
                let v_closed_at = match crate::time::parse_sql_time(cols[closed_at].as_str()) {
                    Ok(v) => v,
                    Err(_) => {
                        return None;
                    },
                };
                let v_num_changes = match crate::text::parse_i32(cols[num_changes].as_str()) {
                    Some(v) => v,
                    None => {
                        return None;
                    },
                };
                Some(TableRecord::Changeset { changeset_record: ChangesetRecord { id: v_id, user_id: v_user_id, created_at: v_created_at, min_lat: v_min_lat, max_lat: v_max_lat, min_lon: v_min_lon, max_lon: v_max_lon, closed_at: v_closed_at, num_changes: v_num_changes } })
            },
            _ => None,
        }
    }

    /// Decodes one users row; a malformed row is `None`.
    pub fn create_user(line: &str, fields: &TableFields) -> (r: Option<TableRecord>)
        ensures
            decode_matches(r, decode_users_spec(split_on(line@, '\t'), *fields)),
    {
        let cols = crate::text::split_tabs(line);
        match *fields {
            TableFields::Users { email, id, pass_crypt, creation_time, display_name, data_public, description, home_lat, home_lon, home_zoom, pass_salt, email_valid, new_email, creation_ip, languages, status, terms_agreed, consider_pd, auth_uid, preferred_editor, terms_seen, description_format, changesets_count, traces_count, diary_entries_count, image_use_gravatar, auth_provider, home_tile, tou_agreed } => {
                if !(email < cols.len() && id < cols.len() && pass_crypt < cols.len() && creation_time < cols.len() && display_name < cols.len() && data_public < cols.len() && description < cols.len() && home_lat < cols.len() && home_lon < cols.len() && home_zoom < cols.len() && pass_salt < cols.len() && email_valid < cols.len() && new_email < cols.len() && creation_ip < cols.len() && languages < cols.len() && status < cols.len() && terms_agreed < cols.len() && consider_pd < cols.len() && auth_uid < cols.len() && preferred_editor < cols.len() && terms_seen < cols.len() && description_format < cols.len() && changesets_count < cols.len() && traces_count < cols.len() && diary_entries_count < cols.len() && image_use_gravatar < cols.len() && auth_provider < cols.len() && home_tile < cols.len() && tou_agreed < cols.len()) {
                    return None;
                }
                let v_email = cols[email].clone();
                let v_id = match crate::text::parse_i64(cols[id].as_str()) {
                    Some(v) => v,
                    None => {
                        return None;
                    },
                };
                let v_pass_crypt = cols[pass_crypt].clone();
                let v_creation_time = match crate::time::parse_sql_time(cols[creation_time].as_str()) {
                    Ok(v) => v,
                    Err(_) => {
                        return None;
                    },
                };
                let v_display_name = cols[display_name].clone();
                let v_data_public = match crate::sql::parse_sql_bool(cols[data_public].as_str()) {
                    Ok(v) => v,
                    Err(_) => {
                        return None;
                    },
                };
                let v_description = cols[description].clone();
                let v_home_lat = cols[home_lat].clone();
                let v_home_lon = cols[home_lon].clone();
                let v_home_zoom = match crate::text::parse_i16(cols[home_zoom].as_str()) {
                    Some(v) => v,
                    None => {
                        return None;
                    },
                };
                let v_pass_salt = cols[pass_salt].clone();
                let v_email_valid = match crate::sql::parse_sql_bool(cols[email_valid].as_str()) {
                    Ok(v) => v,
                    Err(_) => {
                        return None;
                    },
                };
                let v_new_email = cols[new_email].clone();
                let v_creation_ip = cols[creation_ip].clone();
                let v_languages = cols[languages].clone();
                let v_status = match UserStatus::try_from(cols[status].as_str()) {
                    Ok(v) => v,
                    Err(_) => {
                        return None;
                    },
                };
                let v_terms_agreed = match crate::time::parse_sql_time(cols[terms_agreed].as_str()) {
                    Ok(t) => Some(t),
                    Err(_) => None,
                };
                let v_consider_pd = match crate::sql::parse_sql_bool(cols[consider_pd].as_str()) {
                    Ok(v) => v,
                    Err(_) => {
                        return None;
                    },
                };
                let v_auth_uid = cols[auth_uid].clone();
                let v_preferred_editor = cols[preferred_editor].clone();
                let v_terms_seen = match crate::sql::parse_sql_bool(cols[terms_seen].as_str()) {
                    Ok(v) => v,
                    Err(_) => {
                        return None;
                    },
                };
                let v_description_format = match FormatEnum::try_from(cols[description_format].as_str()) {
                    Ok(v) => v,
                    Err(_) => {
                        return None;
                    },
                };
                let v_changesets_count = match crate::text::parse_i32(cols[changesets_count].as_str()) {
                    Some(v) => v,
                    None => {
                        return None;
                    },
                };
                let v_traces_count = match crate::text::parse_i32(cols[traces_count].as_str()) {
                    Some(v) => v,
                    None => {
                        return None;
                    },
                };
                let v_diary_entries_count = match crate::text::parse_i32(cols[diary_entries_count].as_str()) {
                    Some(v) => v,
                    None => {
                        return None;
                    },
                };
                let v_image_use_gravatar = match crate::sql::parse_sql_bool(cols[image_use_gravatar].as_str()) {
                    Ok(v) => v,
                    Err(_) => {
                        return None;
                    },
                };
                let v_auth_provider = cols[auth_provider].clone();
                let v_home_tile = crate::text::parse_i64(cols[home_tile].as_str());
                let v_tou_agreed = match crate::time::parse_sql_time(cols[tou_agreed].as_str()) {
                    Ok(t) => Some(t),
                    Err(_) => None,
                };
                Some(TableRecord::User { user_record: UserRecord { email: v_email, id: v_id, pass_crypt: v_pass_crypt, creation_time: v_creation_time, display_name: v_display_name, data_public: v_data_public, description: v_description, home_lat: v_home_lat, home_lon: v_home_lon, home_zoom: v_home_zoom, pass_salt: v_pass_salt, email_valid: v_email_valid, new_email: v_new_email, creation_ip: v_creation_ip, languages: v_languages, status: v_status, terms_agreed: v_terms_agreed, consider_pd: v_consider_pd, auth_uid: v_auth_uid, preferred_editor: v_preferred_editor, terms_seen: v_terms_seen, description_format: v_description_format, changesets_count: v_changesets_count, traces_count: v_traces_count, diary_entries_count: v_diary_entries_count, image_use_gravatar: v_image_use_gravatar, auth_provider: v_auth_provider, home_tile: v_home_tile, tou_agreed: v_tou_agreed } })
            },
            _ => None,
        }
    }

    /// Decodes one row according to this reader's table.
    pub fn decode_row(line: &str, fields: &TableFields) -> (r: Option<TableRecord>)
        ensures
            decode_matches(r, decode_row_spec(split_on(line@, '\t'), *fields)),
    {
        match *fields {
            TableFields::Nodes { .. } => Self::create_node(line, fields),
            TableFields::NodeTags { .. } => Self::create_node_tag(line, fields),
            TableFields::Ways { .. } => Self::create_way(line, fields),
            TableFields::WayNodes { .. } => Self::create_way_node(line, fields),
            TableFields::WayTags { .. } => Self::create_way_tag(line, fields),
            TableFields::Relations { .. } => Self::create_relation(line, fields),
            TableFields::RelationMembers { .. } => Self::create_relation_member(line, fields),
            TableFields::RelationTags { .. } => Self::create_relation_tag(line, fields),
            TableFields::Changesets { .. } => Self::create_changeset(line, fields),
            TableFields::Users { .. } => Self::create_user(line, fields),
        }
    }
}

/// A line is the archive's end of data: empty, or starting with the
/// sentinel prefix.
pub open spec fn is_end_line(line: Seq<char>) -> bool {
    line.len() == 0 || (line.len() >= 2 && line[0] == '\\' && line[1] == '.')
}

fn is_end_line_exec(line: &str) -> (r: bool)
    ensures
        r == is_end_line(line@),
{
    let len = line.unicode_len();
    if len == 0 {
        return true;
    }
    if len >= 2 && line.get_char(0) == '\\' && line.get_char(1) == '.' {
        return true;
    }
    false
}

/// The records a line sequence yields: rows decoded in order, malformed rows
/// skipped, everything from the first end-of-data line on ignored.
pub open spec fn records_of(lines: Seq<Seq<char>>, tf: TableFields) -> Seq<TableRecordView>
    decreases lines.len(),
{
    if lines.len() == 0 {
        Seq::empty()
    } else if is_end_line(lines[0]) {
        Seq::empty()
    } else {
        match decode_row_spec(split_on(lines[0], '\t'), tf) {
            Some(rv) => seq![rv] + records_of(lines.drop_first(), tf),
            None => records_of(lines.drop_first(), tf),
        }
    }
}

/// A forward-only pass over one table's lines; not restartable.
pub struct TableIterator {
    pub fields: TableFields,
    pub lines: Vec<String>,
    pub pos: usize,
}

impl TableIterator {
    pub open spec fn wf(self) -> bool {
        self.pos <= self.lines.len()
    }

    /// The records this iterator has yet to yield.
    pub open spec fn remaining(self) -> Seq<TableRecordView> {
        records_of(self.lines.deep_view().skip(self.pos as int), self.fields)
    }

    /// Starts a pass over the given lines of the reader's table.
    pub fn new(table_reader: &TableReader, lines: Vec<String>) -> (it: TableIterator)
        ensures
            it.wf(),
            it.fields == table_reader.table_def.fields,
            it.remaining() == records_of(lines.deep_view(), table_reader.table_def.fields),
    {
        let it = TableIterator { fields: table_reader.table_def.fields, lines, pos: 0 };
        proof {
            assert(it.lines.deep_view().skip(0) =~= it.lines.deep_view());
        }
        it
    }

    /// Yields the next record: skips malformed rows, ends at the sentinel,
    /// an empty line, or the end of input.
    #[verifier::loop_isolation(false)]
    pub fn next(&mut self) -> (r: Option<TableRecord>)
        requires
            old(self).wf(),
        ensures
            final(self).wf(),
            final(self).fields == old(self).fields,
            match r {
                Some(rec) => old(self).remaining().len() > 0 && rec@ == old(self).remaining()[0]
                    && final(self).remaining() == old(self).remaining().drop_first(),
                None => old(self).remaining().len() == 0 && final(self).remaining().len() == 0,
            },
    {
        loop
            invariant
                self.wf(),
                self.fields == old(self).fields,
                self.lines == old(self).lines,
                self.remaining() == old(self).remaining(),
            decreases self.lines.len() - self.pos,
        {
            if self.pos >= self.lines.len() {
                proof {
                    assert(self.lines.deep_view().skip(self.pos as int) =~= Seq::<
                        Seq<char>,
                    >::empty());
                }
                return None;
            }
            let ghost rest = self.lines.deep_view().skip(self.pos as int);
            proof {
                assert(rest[0] == self.lines.deep_view()[self.pos as int]);
                assert(rest.drop_first() =~= self.lines.deep_view().skip(self.pos + 1));
            }
            let line = &self.lines[self.pos];
            if is_end_line_exec(line.as_str()) {
                return None;
            }
            let rec = TableReader::decode_row(line.as_str(), &self.fields);
            self.pos = self.pos + 1;
            match rec {
                Some(record) => {
                    return Some(record);
                },
                None => {
                },
            }
        }
    }

    /// Collects every remaining record, in order.
    #[verifier::loop_isolation(false)]
    pub fn collect_records(&mut self) -> (r: Vec<TableRecord>)
        requires
            old(self).wf(),
        ensures
            final(self).wf(),
            r.deep_view() == old(self).remaining(),
    {
        let mut out: Vec<TableRecord> = Vec::new();
        proof {
            assert(out.deep_view() + old(self).remaining() =~= old(self).remaining());
        }
        loop
            invariant
                self.wf(),
                self.fields == old(self).fields,
                out.deep_view() + self.remaining() == old(self).remaining(),
            decreases self.remaining().len() + 1,
        {
            let ghost before = self.remaining();
            match self.next() {
                Some(rec) => {
                    out.push(rec);
                    proof {
                        assert(out.deep_view() =~= out.deep_view().take(
                            out.deep_view().len() - 1,
                        ).push(rec@));
                        assert(out.deep_view() + self.remaining() =~= old(self).remaining());
                    }
                },
                None => {
                    proof {
                        assert(out.deep_view() + self.remaining() =~= out.deep_view());
                    }
                    return out;
                },
            }
        }
    }
}

/// Reads one table wholly: the records its lines yield.
pub fn read_table(table_reader: &TableReader, lines: Vec<String>) -> (r: Vec<TableRecord>)
    ensures
        r.deep_view() == records_of(lines.deep_view(), table_reader.table_def.fields),
{
    let mut it = TableIterator::new(table_reader, lines);
    it.collect_records()
}

} // verus!
