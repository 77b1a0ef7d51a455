//! The schema field mapper: resolves each table's declared column list to
//! the fixed offsets its decoder reads, failing loudly on a missing column.
use vstd::prelude::*;
use crate::error::OsmError;
use crate::text::str_eq;

verus! {

/// A declared column name matches a required field name directly or in its
/// double-quoted form.
pub open spec fn col_matches(col: Seq<char>, name: Seq<char>) -> bool {
    col == name || col == seq!['"'] + name + seq!['"']
}

/// Some declared column matches the field name.
pub open spec fn col_present(cols: Seq<Seq<char>>, name: Seq<char>) -> bool {
    exists|j: int| 0 <= j < cols.len() && col_matches(#[trigger] cols[j], name)
}

/// Offset `o` is the first declared column matching the field name.
pub open spec fn col_at(cols: Seq<Seq<char>>, o: int, name: Seq<char>) -> bool {
    &&& 0 <= o < cols.len()
    &&& col_matches(cols[o], name)
    &&& forall|j: int| 0 <= j < o ==> !col_matches(#[trigger] cols[j], name)
}

fn column_matches(col: &str, name: &str) -> (r: bool)
    ensures
        r == col_matches(col@, name@),
{
    if str_eq(col, name) {
        return true;
    }
    let lc = col.unicode_len();
    let ln = name.unicode_len();
    let ghost quoted = seq!['"'] + name@ + seq!['"'];
    if lc < 2 || lc - 2 != ln {
        proof {
            assert(quoted.len() == ln + 2);
        }
        return false;
    }
    if col.get_char(0) != '"' || col.get_char(lc - 1) != '"' {
        proof {
            assert(quoted[0] == '"' && quoted[lc - 1] == '"');
        }
        return false;
    }
    let mid = col.substring_char(1, lc - 1);
    let r = str_eq(mid, name);
    proof {
        if r {
            assert(col@ =~= quoted);
        } else {
            if col@ == quoted {
                assert(mid@ =~= name@);
            }
        }
    }
    r
}

/// Finds the first declared column matching the field name.
#[verifier::loop_isolation(false)]
pub fn find_column(columns: &Vec<String>, name: &str) -> (r: Option<usize>)
    ensures
        match r {
            Some(i) => col_at(columns.deep_view(), i as int, name@),
            None => !col_present(columns.deep_view(), name@),
        },
{
    let mut i: usize = 0;
    while i < columns.len()
        invariant
            0 <= i <= columns@.len(),
            forall|j: int| 0 <= j < i ==> !col_matches(#[trigger] columns.deep_view()[j], name@),
        decreases columns@.len() - i,
    {
        if column_matches(columns[i].as_str(), name) {
            return Some(i);
        }
        i = i + 1;
    }
    None
}

/// Per-table field offsets, resolved once from the declared column list.
#[derive(Debug, Clone, Copy, PartialEq, Eq, Structural)]
pub enum TableFields {
    Nodes {
        node_id: usize,
        latitude: usize,
        longitude: usize,
        changeset_id: usize,
        visible: usize,
        timestamp: usize,
        tile: usize,
        version: usize,
        redaction_id: usize,
    },
    NodeTags {
        node_id: usize,
        version: usize,
        k: usize,
        v: usize,
    },
    Ways {
        way_id: usize,
        changeset_id: usize,
        timestamp: usize,
        version: usize,
        visible: usize,
        redaction_id: usize,
    },
    WayNodes {
        way_id: usize,
        node_id: usize,
        version: usize,
        sequence_id: usize,
    },
    WayTags {
        way_id: usize,
        k: usize,
        v: usize,
        version: usize,
    },
    Relations {
        relation_id: usize,
        changeset_id: usize,
        timestamp: usize,
        version: usize,
        visible: usize,
        redaction_id: usize,
    },
    RelationMembers {
        relation_id: usize,
        member_type: usize,
        member_id: usize,
        member_role: usize,
        version: usize,
        sequence_id: usize,
    },
    RelationTags {
        relation_id: usize,
        k: usize,
        v: usize,
        version: usize,
    },
    Changesets {
        id: usize,
        user_id: usize,
        created_at: usize,
        min_lat: usize,
        max_lat: usize,
        min_lon: usize,
        max_lon: usize,
        closed_at: usize,
        num_changes: usize,
    },
    Users {
        email: usize,
        id: usize,
        pass_crypt: usize,
        creation_time: usize,
        display_name: usize,
        data_public: usize,
        description: usize,
        home_lat: usize,
        home_lon: usize,
        home_zoom: usize,
        pass_salt: usize,
        email_valid: usize,
        new_email: usize,
        creation_ip: usize,
        languages: usize,
        status: usize,
        terms_agreed: usize,
        consider_pd: usize,
        auth_uid: usize,
        preferred_editor: usize,
        terms_seen: usize,
        description_format: usize,
        changesets_count: usize,
        traces_count: usize,
        diary_entries_count: usize,
        image_use_gravatar: usize,
        auth_provider: usize,
        home_tile: usize,
        tou_agreed: usize,
    },
}

/// Every column the nodes decoder needs is declared.
pub open spec fn nodes_cols_present(cols: Seq<Seq<char>>) -> bool {
    &&& col_present(cols, "node_id"@)
    &&& col_present(cols, "latitude"@)
    &&& col_present(cols, "longitude"@)
    &&& col_present(cols, "changeset_id"@)
    &&& col_present(cols, "visible"@)
    &&& col_present(cols, "timestamp"@)
    &&& col_present(cols, "tile"@)
    &&& col_present(cols, "version"@)
    &&& col_present(cols, "redaction_id"@)
}

/// The offsets are exactly the first matches of the nodes columns.
pub open spec fn nodes_fields_ok(cols: Seq<Seq<char>>, tf: TableFields) -> bool {
    match tf {
        TableFields::Nodes { node_id, latitude, longitude, changeset_id, visible, timestamp, tile, version, redaction_id } => {
            &&& col_at(cols, node_id as int, "node_id"@)
            &&& col_at(cols, latitude as int, "latitude"@)
            &&& col_at(cols, longitude as int, "longitude"@)
            &&& col_at(cols, changeset_id as int, "changeset_id"@)
            &&& col_at(cols, visible as int, "visible"@)
            &&& col_at(cols, timestamp as int, "timestamp"@)
            &&& col_at(cols, tile as int, "tile"@)
            &&& col_at(cols, version as int, "version"@)
            &&& col_at(cols, redaction_id as int, "redaction_id"@)
        },
        _ => false,
    }
}

/// Every column the node_tags decoder needs is declared.
pub open spec fn node_tags_cols_present(cols: Seq<Seq<char>>) -> bool {
    &&& col_present(cols, "node_id"@)
    &&& col_present(cols, "version"@)
    &&& col_present(cols, "k"@)
    &&& col_present(cols, "v"@)
}

/// The offsets are exactly the first matches of the node_tags columns.
pub open spec fn node_tags_fields_ok(cols: Seq<Seq<char>>, tf: TableFields) -> bool {
    match tf {
        TableFields::NodeTags { node_id, version, k, v } => {
            &&& col_at(cols, node_id as int, "node_id"@)
            &&& col_at(cols, version as int, "version"@)
            &&& col_at(cols, k as int, "k"@)
            &&& col_at(cols, v as int, "v"@)
        },
        _ => false,
    }
}

/// Every column the ways decoder needs is declared.
pub open spec fn ways_cols_present(cols: Seq<Seq<char>>) -> bool {
    &&& col_present(cols, "way_id"@)
    &&& col_present(cols, "changeset_id"@)
    &&& col_present(cols, "timestamp"@)
    &&& col_present(cols, "version"@)
    &&& col_present(cols, "visible"@)
    &&& col_present(cols, "redaction_id"@)
}

/// The offsets are exactly the first matches of the ways columns.
pub open spec fn ways_fields_ok(cols: Seq<Seq<char>>, tf: TableFields) -> bool {
    match tf {
        TableFields::Ways { way_id, changeset_id, timestamp, version, visible, redaction_id } => {
            &&& col_at(cols, way_id as int, "way_id"@)
            &&& col_at(cols, changeset_id as int, "changeset_id"@)
            &&& col_at(cols, timestamp as int, "timestamp"@)
            &&& col_at(cols, version as int, "version"@)
            &&& col_at(cols, visible as int, "visible"@)
            &&& col_at(cols, redaction_id as int, "redaction_id"@)
        },
        _ => false,
    }
}

/// Every column the way_nodes decoder needs is declared.
pub open spec fn way_nodes_cols_present(cols: Seq<Seq<char>>) -> bool {
    &&& col_present(cols, "way_id"@)
    &&& col_present(cols, "node_id"@)
    &&& col_present(cols, "version"@)
    &&& col_present(cols, "sequence_id"@)
}

/// The offsets are exactly the first matches of the way_nodes columns.
pub open spec fn way_nodes_fields_ok(cols: Seq<Seq<char>>, tf: TableFields) -> bool {
    match tf {
        TableFields::WayNodes { way_id, node_id, version, sequence_id } => {
            &&& col_at(cols, way_id as int, "way_id"@)
            &&& col_at(cols, node_id as int, "node_id"@)
            &&& col_at(cols, version as int, "version"@)
            &&& col_at(cols, sequence_id as int, "sequence_id"@)
        },
        _ => false,
    }
}

/// Every column the way_tags decoder needs is declared.
pub open spec fn way_tags_cols_present(cols: Seq<Seq<char>>) -> bool {
    &&& col_present(cols, "way_id"@)
    &&& col_present(cols, "k"@)
    &&& col_present(cols, "v"@)
    &&& col_present(cols, "version"@)
}

/// The offsets are exactly the first matches of the way_tags columns.
pub open spec fn way_tags_fields_ok(cols: Seq<Seq<char>>, tf: TableFields) -> bool {
    match tf {
        TableFields::WayTags { way_id, k, v, version } => {
            &&& col_at(cols, way_id as int, "way_id"@)
            &&& col_at(cols, k as int, "k"@)
            &&& col_at(cols, v as int, "v"@)
            &&& col_at(cols, version as int, "version"@)
        },
        _ => false,
    }
}

/// Every column the relations decoder needs is declared.
pub open spec fn relations_cols_present(cols: Seq<Seq<char>>) -> bool {
    &&& col_present(cols, "relation_id"@)
    &&& col_present(cols, "changeset_id"@)
    &&& col_present(cols, "timestamp"@)
    &&& col_present(cols, "version"@)
    &&& col_present(cols, "visible"@)
    &&& col_present(cols, "redaction_id"@)
}

/// The offsets are exactly the first matches of the relations columns.
pub open spec fn relations_fields_ok(cols: Seq<Seq<char>>, tf: TableFields) -> bool {
    match tf {
        TableFields::Relations { relation_id, changeset_id, timestamp, version, visible, redaction_id } => {
            &&& col_at(cols, relation_id as int, "relation_id"@)
            &&& col_at(cols, changeset_id as int, "changeset_id"@)
            &&& col_at(cols, timestamp as int, "timestamp"@)
            &&& col_at(cols, version as int, "version"@)
            &&& col_at(cols, visible as int, "visible"@)
            &&& col_at(cols, redaction_id as int, "redaction_id"@)
        },
        _ => false,
    }
}

/// Every column the relation_members decoder needs is declared.
pub open spec fn relation_members_cols_present(cols: Seq<Seq<char>>) -> bool {
    &&& col_present(cols, "relation_id"@)
    &&& col_present(cols, "member_type"@)
    &&& col_present(cols, "member_id"@)
    &&& col_present(cols, "member_role"@)
    &&& col_present(cols, "version"@)
    &&& col_present(cols, "sequence_id"@)
}

/// The offsets are exactly the first matches of the relation_members columns.
pub open spec fn relation_members_fields_ok(cols: Seq<Seq<char>>, tf: TableFields) -> bool {
    match tf {
        TableFields::RelationMembers { relation_id, member_type, member_id, member_role, version, sequence_id } => {
            &&& col_at(cols, relation_id as int, "relation_id"@)
            &&& col_at(cols, member_type as int, "member_type"@)
            &&& col_at(cols, member_id as int, "member_id"@)
            &&& col_at(cols, member_role as int, "member_role"@)
            &&& col_at(cols, version as int, "version"@)
            &&& col_at(cols, sequence_id as int, "sequence_id"@)
        },
        _ => false,
    }
}

/// Every column the relation_tags decoder needs is declared.
pub open spec fn relation_tags_cols_present(cols: Seq<Seq<char>>) -> bool {
    &&& col_present(cols, "relation_id"@)
    &&& col_present(cols, "k"@)
    &&& col_present(cols, "v"@)
    &&& col_present(cols, "version"@)
}

/// The offsets are exactly the first matches of the relation_tags columns.
pub open spec fn relation_tags_fields_ok(cols: Seq<Seq<char>>, tf: TableFields) -> bool {
    match tf {
        TableFields::RelationTags { relation_id, k, v, version } => {
            &&& col_at(cols, relation_id as int, "relation_id"@)
            &&& col_at(cols, k as int, "k"@)
            &&& col_at(cols, v as int, "v"@)
            &&& col_at(cols, version as int, "version"@)
        },
        _ => false,
    }
}

/// Every column the changesets decoder needs is declared.
pub open spec fn changesets_cols_present(cols: Seq<Seq<char>>) -> bool {
    &&& col_present(cols, "id"@)
    &&& col_present(cols, "user_id"@)
    &&& col_present(cols, "created_at"@)
    &&& col_present(cols, "min_lat"@)
    &&& col_present(cols, "max_lat"@)
    &&& col_present(cols, "min_lon"@)
    &&& col_present(cols, "max_lon"@)
    &&& col_present(cols, "closed_at"@)
    &&& col_present(cols, "num_changes"@)
}

/// The offsets are exactly the first matches of the changesets columns.
pub open spec fn changesets_fields_ok(cols: Seq<Seq<char>>, tf: TableFields) -> bool {
    match tf {
        TableFields::Changesets { id, user_id, created_at, min_lat, max_lat, min_lon, max_lon, closed_at, num_changes } => {
            &&& col_at(cols, id as int, "id"@)
            &&& col_at(cols, user_id as int, "user_id"@)
            &&& col_at(cols, created_at as int, "created_at"@)
            &&& col_at(cols, min_lat as int, "min_lat"@)
            &&& col_at(cols, max_lat as int, "max_lat"@)
            &&& col_at(cols, min_lon as int, "min_lon"@)
            &&& col_at(cols, max_lon as int, "max_lon"@)
            &&& col_at(cols, closed_at as int, "closed_at"@)
            &&& col_at(cols, num_changes as int, "num_changes"@)
        },
        _ => false,
    }
}

/// Every column the users decoder needs is declared.
pub open spec fn users_cols_present(cols: Seq<Seq<char>>) -> bool {
    &&& col_present(cols, "email"@)
    &&& col_present(cols, "id"@)
    &&& col_present(cols, "pass_crypt"@)
    &&& col_present(cols, "creation_time"@)
    &&& col_present(cols, "display_name"@)
    &&& col_present(cols, "data_public"@)
    &&& col_present(cols, "description"@)
    &&& col_present(cols, "home_lat"@)
    &&& col_present(cols, "home_lon"@)
    &&& col_present(cols, "home_zoom"@)
    &&& col_present(cols, "pass_salt"@)
    &&& col_present(cols, "email_valid"@)
    &&& col_present(cols, "new_email"@)
    &&& col_present(cols, "creation_ip"@)
    &&& col_present(cols, "languages"@)
    &&& col_present(cols, "status"@)
    &&& col_present(cols, "terms_agreed"@)
    &&& col_present(cols, "consider_pd"@)
    &&& col_present(cols, "auth_uid"@)
    &&& col_present(cols, "preferred_editor"@)
    &&& col_present(cols, "terms_seen"@)
    &&& col_present(cols, "description_format"@)
    &&& col_present(cols, "changesets_count"@)
    &&& col_present(cols, "traces_count"@)
    &&& col_present(cols, "diary_entries_count"@)
    &&& col_present(cols, "image_use_gravatar"@)
    &&& col_present(cols, "auth_provider"@)
    &&& col_present(cols, "home_tile"@)
    &&& col_present(cols, "tou_agreed"@)
}

/// The offsets are exactly the first matches of the users columns.
pub open spec fn users_fields_ok(cols: Seq<Seq<char>>, tf: TableFields) -> bool {
    match tf {
        TableFields::Users { email, id, pass_crypt, creation_time, display_name, data_public, description, home_lat, home_lon, home_zoom, pass_salt, email_valid, new_email, creation_ip, languages, status, terms_agreed, consider_pd, auth_uid, preferred_editor, terms_seen, description_format, changesets_count, traces_count, diary_entries_count, image_use_gravatar, auth_provider, home_tile, tou_agreed } => {
            &&& col_at(cols, email as int, "email"@)
            &&& col_at(cols, id as int, "id"@)
            &&& col_at(cols, pass_crypt as int, "pass_crypt"@)
            &&& col_at(cols, creation_time as int, "creation_time"@)
            &&& col_at(cols, display_name as int, "display_name"@)
            &&& col_at(cols, data_public as int, "data_public"@)
            &&& col_at(cols, description as int, "description"@)
            &&& col_at(cols, home_lat as int, "home_lat"@)
            &&& col_at(cols, home_lon as int, "home_lon"@)
            &&& col_at(cols, home_zoom as int, "home_zoom"@)
            &&& col_at(cols, pass_salt as int, "pass_salt"@)
            &&& col_at(cols, email_valid as int, "email_valid"@)
            &&& col_at(cols, new_email as int, "new_email"@)
            &&& col_at(cols, creation_ip as int, "creation_ip"@)
            &&& col_at(cols, languages as int, "languages"@)
            &&& col_at(cols, status as int, "status"@)
            &&& col_at(cols, terms_agreed as int, "terms_agreed"@)
            &&& col_at(cols, consider_pd as int, "consider_pd"@)
            &&& col_at(cols, auth_uid as int, "auth_uid"@)
            &&& col_at(cols, preferred_editor as int, "preferred_editor"@)
            &&& col_at(cols, terms_seen as int, "terms_seen"@)
            &&& col_at(cols, description_format as int, "description_format"@)
            &&& col_at(cols, changesets_count as int, "changesets_count"@)
            &&& col_at(cols, traces_count as int, "traces_count"@)
            &&& col_at(cols, diary_entries_count as int, "diary_entries_count"@)
            &&& col_at(cols, image_use_gravatar as int, "image_use_gravatar"@)
            &&& col_at(cols, auth_provider as int, "auth_provider"@)
            &&& col_at(cols, home_tile as int, "home_tile"@)
            &&& col_at(cols, tou_agreed as int, "tou_agreed"@)
        },
        _ => false,
    }
}

/// The table names the conversion knows.
pub open spec fn known_table(name: Seq<char>) -> bool {
    name == "public.nodes"@
    || name == "public.node_tags"@
    || name == "public.ways"@
    || name == "public.way_nodes"@
    || name == "public.way_tags"@
    || name == "public.relations"@
    || name == "public.relation_members"@
    || name == "public.relation_tags"@
    || name == "public.changesets"@
    || name == "public.users"@
}

/// All columns that the named table's decoder needs are declared.
pub open spec fn table_cols_present(name: Seq<char>, cols: Seq<Seq<char>>) -> bool {
    if name == "public.nodes"@ {
        nodes_cols_present(cols)
    } else if name == "public.node_tags"@ {
        node_tags_cols_present(cols)
    } else if name == "public.ways"@ {
        ways_cols_present(cols)
    } else if name == "public.way_nodes"@ {
        way_nodes_cols_present(cols)
    } else if name == "public.way_tags"@ {
        way_tags_cols_present(cols)
    } else if name == "public.relations"@ {
        relations_cols_present(cols)
    } else if name == "public.relation_members"@ {
        relation_members_cols_present(cols)
    } else if name == "public.relation_tags"@ {
        relation_tags_cols_present(cols)
    } else if name == "public.changesets"@ {
        changesets_cols_present(cols)
    } else if name == "public.users"@ {
        users_cols_present(cols)
    } else {
        false
    }
}

/// The resolved offsets are exactly the first matches for the named table.
pub open spec fn table_fields_ok(name: Seq<char>, cols: Seq<Seq<char>>, tf: TableFields) -> bool {
    if name == "public.nodes"@ {
        nodes_fields_ok(cols, tf)
    } else if name == "public.node_tags"@ {
        node_tags_fields_ok(cols, tf)
    } else if name == "public.ways"@ {
        ways_fields_ok(cols, tf)
    } else if name == "public.way_nodes"@ {
        way_nodes_fields_ok(cols, tf)
    } else if name == "public.way_tags"@ {
        way_tags_fields_ok(cols, tf)
    } else if name == "public.relations"@ {
        relations_fields_ok(cols, tf)
    } else if name == "public.relation_members"@ {
        relation_members_fields_ok(cols, tf)
    } else if name == "public.relation_tags"@ {
        relation_tags_fields_ok(cols, tf)
    } else if name == "public.changesets"@ {
        changesets_fields_ok(cols, tf)
    } else if name == "public.users"@ {
        users_fields_ok(cols, tf)
    } else {
        false
    }
}

/// The error text names a column that the declared list misses.
pub open spec fn missing_column_message(cols: Seq<Seq<char>>, msg: Seq<char>) -> bool {
    exists|c: Seq<char>| !#[trigger] col_present(cols, c) && msg == "missing column: "@ + c
}

fn missing_column_error(column: &str) -> (e: OsmError)
    ensures
        e.kind == crate::error::ErrorKind::Structure,
        e.message@ == "missing column: "@ + column@,
{
    OsmError::new(crate::text::message_with("missing column: ", column))
}


fn nodes_fields(columns: &Vec<String>) -> (r: Result<TableFields, OsmError>)
    ensures
        r is Ok <==> nodes_cols_present(columns.deep_view()),
        r matches Ok(tf) ==> nodes_fields_ok(columns.deep_view(), tf),
        r matches Err(e) ==> e.kind == crate::error::ErrorKind::Structure
            && missing_column_message(columns.deep_view(), e.message@),
{
    let node_id = match find_column(columns, "node_id") {
        Some(o) => o,
        None => {
            return Err(missing_column_error("node_id"));
        },
    };
    let latitude = match find_column(columns, "latitude") {
        Some(o) => o,
        None => {
            return Err(missing_column_error("latitude"));
        },
    };
    let longitude = match find_column(columns, "longitude") {
        Some(o) => o,
        None => {
            return Err(missing_column_error("longitude"));
        },
    };
    let changeset_id = match find_column(columns, "changeset_id") {
        Some(o) => o,
        None => {
            return Err(missing_column_error("changeset_id"));
        },
    };
    let visible = match find_column(columns, "visible") {
        Some(o) => o,
        None => {
            return Err(missing_column_error("visible"));
        },
    };
    let timestamp = match find_column(columns, "timestamp") {
        Some(o) => o,
        None => {
            return Err(missing_column_error("timestamp"));
        },
    };
    let tile = match find_column(columns, "tile") {
        Some(o) => o,
        None => {
            return Err(missing_column_error("tile"));
        },
    };
    let version = match find_column(columns, "version") {
        Some(o) => o,
        None => {
            return Err(missing_column_error("version"));
        },
    };
    let redaction_id = match find_column(columns, "redaction_id") {
        Some(o) => o,
        None => {
            return Err(missing_column_error("redaction_id"));
        },
    };
    Ok(TableFields::Nodes { node_id, latitude, longitude, changeset_id, visible, timestamp, tile, version, redaction_id })
}

fn node_tags_fields(columns: &Vec<String>) -> (r: Result<TableFields, OsmError>)
    ensures
        r is Ok <==> node_tags_cols_present(columns.deep_view()),
        r matches Ok(tf) ==> node_tags_fields_ok(columns.deep_view(), tf),
        r matches Err(e) ==> e.kind == crate::error::ErrorKind::Structure
            && missing_column_message(columns.deep_view(), e.message@),
{
    let node_id = match find_column(columns, "node_id") {
        Some(o) => o,
        None => {
            return Err(missing_column_error("node_id"));
        },
    };
    let version = match find_column(columns, "version") {
        Some(o) => o,
        None => {
            return Err(missing_column_error("version"));
        },
    };
    let k = match find_column(columns, "k") {
        Some(o) => o,
        None => {
            return Err(missing_column_error("k"));
        },
    };
    let v = match find_column(columns, "v") {
        Some(o) => o,
        None => {
            return Err(missing_column_error("v"));
        },
    };
    Ok(TableFields::NodeTags { node_id, version, k, v })
}

fn ways_fields(columns: &Vec<String>) -> (r: Result<TableFields, OsmError>)
    ensures
        r is Ok <==> ways_cols_present(columns.deep_view()),
        r matches Ok(tf) ==> ways_fields_ok(columns.deep_view(), tf),
        r matches Err(e) ==> e.kind == crate::error::ErrorKind::Structure
            && missing_column_message(columns.deep_view(), e.message@),
{
    let way_id = match find_column(columns, "way_id") {
        Some(o) => o,
        None => {
            return Err(missing_column_error("way_id"));
        },
    };
    let changeset_id = match find_column(columns, "changeset_id") {
        Some(o) => o,
        None => {
            return Err(missing_column_error("changeset_id"));
        },
    };
    let timestamp = match find_column(columns, "timestamp") {
        Some(o) => o,
        None => {
            return Err(missing_column_error("timestamp"));
        },
    };
    let version = match find_column(columns, "version") {
        Some(o) => o,
        None => {
            return Err(missing_column_error("version"));
        },
    };
    let visible = match find_column(columns, "visible") {
        Some(o) => o,
        None => {
            return Err(missing_column_error("visible"));
        },
    };
    let redaction_id = match find_column(columns, "redaction_id") {
        Some(o) => o,
        None => {
            return Err(missing_column_error("redaction_id"));
        },
    };
    Ok(TableFields::Ways { way_id, changeset_id, timestamp, version, visible, redaction_id })
}

fn way_nodes_fields(columns: &Vec<String>) -> (r: Result<TableFields, OsmError>)
    ensures
        r is Ok <==> way_nodes_cols_present(columns.deep_view()),
        r matches Ok(tf) ==> way_nodes_fields_ok(columns.deep_view(), tf),
        r matches Err(e) ==> e.kind == crate::error::ErrorKind::Structure
            && missing_column_message(columns.deep_view(), e.message@),
{
    let way_id = match find_column(columns, "way_id") {
        Some(o) => o,
        None => {
            return Err(missing_column_error("way_id"));
        },
    };
    let node_id = match find_column(columns, "node_id") {
        Some(o) => o,
        None => {
            return Err(missing_column_error("node_id"));
        },
    };
    let version = match find_column(columns, "version") {
        Some(o) => o,
        None => {
            return Err(missing_column_error("version"));
        },
    };
    let sequence_id = match find_column(columns, "sequence_id") {
        Some(o) => o,
        None => {
            return Err(missing_column_error("sequence_id"));
        },
    };
    Ok(TableFields::WayNodes { way_id, node_id, version, sequence_id })
}

fn way_tags_fields(columns: &Vec<String>) -> (r: Result<TableFields, OsmError>)
    ensures
        r is Ok <==> way_tags_cols_present(columns.deep_view()),
        r matches Ok(tf) ==> way_tags_fields_ok(columns.deep_view(), tf),
        r matches Err(e) ==> e.kind == crate::error::ErrorKind::Structure
            && missing_column_message(columns.deep_view(), e.message@),
{
    let way_id = match find_column(columns, "way_id") {
        Some(o) => o,
        None => {
            return Err(missing_column_error("way_id"));
        },
    };
    let k = match find_column(columns, "k") {
        Some(o) => o,
        None => {
            return Err(missing_column_error("k"));
        },
    };
    let v = match find_column(columns, "v") {
        Some(o) => o,
        None => {
            return Err(missing_column_error("v"));
        },
    };
    let version = match find_column(columns, "version") {
        Some(o) => o,
        None => {
            return Err(missing_column_error("version"));
        },
    };
    Ok(TableFields::WayTags { way_id, k, v, version })
}

fn relations_fields(columns: &Vec<String>) -> (r: Result<TableFields, OsmError>)
    ensures
        r is Ok <==> relations_cols_present(columns.deep_view()),
        r matches Ok(tf) ==> relations_fields_ok(columns.deep_view(), tf),
        r matches Err(e) ==> e.kind == crate::error::ErrorKind::Structure
            && missing_column_message(columns.deep_view(), e.message@),
{
    let relation_id = match find_column(columns, "relation_id") {
        Some(o) => o,
        None => {
            return Err(missing_column_error("relation_id"));
        },
    };
    let changeset_id = match find_column(columns, "changeset_id") {
        Some(o) => o,
        None => {
            return Err(missing_column_error("changeset_id"));
        },
    };
    let timestamp = match find_column(columns, "timestamp") {
        Some(o) => o,
        None => {
            return Err(missing_column_error("timestamp"));
        },
    };
    let version = match find_column(columns, "version") {
        Some(o) => o,
        None => {
            return Err(missing_column_error("version"));
        },
    };
    let visible = match find_column(columns, "visible") {
        Some(o) => o,
        None => {
            return Err(missing_column_error("visible"));
        },
    };
    let redaction_id = match find_column(columns, "redaction_id") {
        Some(o) => o,
        None => {
            return Err(missing_column_error("redaction_id"));
        },
    };
    Ok(TableFields::Relations { relation_id, changeset_id, timestamp, version, visible, redaction_id })
}

fn relation_members_fields(columns: &Vec<String>) -> (r: Result<TableFields, OsmError>)
    ensures
        r is Ok <==> relation_members_cols_present(columns.deep_view()),
        r matches Ok(tf) ==> relation_members_fields_ok(columns.deep_view(), tf),
        r matches Err(e) ==> e.kind == crate::error::ErrorKind::Structure
            && missing_column_message(columns.deep_view(), e.message@),
{
    let relation_id = match find_column(columns, "relation_id") {
        Some(o) => o,
        None => {
            return Err(missing_column_error("relation_id"));
        },
    };
    let member_type = match find_column(columns, "member_type") {
        Some(o) => o,
        None => {
            return Err(missing_column_error("member_type"));
        },
    };
    let member_id = match find_column(columns, "member_id") {
        Some(o) => o,
        None => {
            return Err(missing_column_error("member_id"));
        },
    };
    let member_role = match find_column(columns, "member_role") {
        Some(o) => o,
        None => {
            return Err(missing_column_error("member_role"));
        },
    };
    let version = match find_column(columns, "version") {
        Some(o) => o,
        None => {
            return Err(missing_column_error("version"));
        },
    };
    let sequence_id = match find_column(columns, "sequence_id") {
        Some(o) => o,
        None => {
            return Err(missing_column_error("sequence_id"));
        },
    };
    Ok(TableFields::RelationMembers { relation_id, member_type, member_id, member_role, version, sequence_id })
}

fn relation_tags_fields(columns: &Vec<String>) -> (r: Result<TableFields, OsmError>)
    ensures
        r is Ok <==> relation_tags_cols_present(columns.deep_view()),
        r matches Ok(tf) ==> relation_tags_fields_ok(columns.deep_view(), tf),
        r matches Err(e) ==> e.kind == crate::error::ErrorKind::Structure
            && missing_column_message(columns.deep_view(), e.message@),
{
    let relation_id = match find_column(columns, "relation_id") {
        Some(o) => o,
        None => {
            return Err(missing_column_error("relation_id"));
        },
    };
    let k = match find_column(columns, "k") {
        Some(o) => o,
        None => {
            return Err(missing_column_error("k"));
        },
    };
    let v = match find_column(columns, "v") {
        Some(o) => o,
        None => {
            return Err(missing_column_error("v"));
        },
    };
    let version = match find_column(columns, "version") {
        Some(o) => o,
        None => {
            return Err(missing_column_error("version"));
        },
    };
    Ok(TableFields::RelationTags { relation_id, k, v, version })
}

fn changesets_fields(columns: &Vec<String>) -> (r: Result<TableFields, OsmError>)
    ensures
        r is Ok <==> changesets_cols_present(columns.deep_view()),
        r matches Ok(tf) ==> changesets_fields_ok(columns.deep_view(), tf),
        r matches Err(e) ==> e.kind == crate::error::ErrorKind::Structure
            && missing_column_message(columns.deep_view(), e.message@),
{
    let id = match find_column(columns, "id") {
        Some(o) => o,
        None => {
            return Err(missing_column_error("id"));
        },
    };
    let user_id = match find_column(columns, "user_id") {
        Some(o) => o,
        None => {
            return Err(missing_column_error("user_id"));
        },
    };
    let created_at = match find_column(columns, "created_at") {
        Some(o) => o,
        None => {
            return Err(missing_column_error("created_at"));
        },
    };
    let min_lat = match find_column(columns, "min_lat") {
        Some(o) => o,
        None => {
            return Err(missing_column_error("min_lat"));
        },
    };
    let max_lat = match find_column(columns, "max_lat") {
        Some(o) => o,
        None => {
            return Err(missing_column_error("max_lat"));
        },
    };
    let min_lon = match find_column(columns, "min_lon") {
        Some(o) => o,
        None => {
            return Err(missing_column_error("min_lon"));
        },
    };
    let max_lon = match find_column(columns, "max_lon") {
        Some(o) => o,
        None => {
            return Err(missing_column_error("max_lon"));
        },
    };
    let closed_at = match find_column(columns, "closed_at") {
        Some(o) => o,
        None => {
            return Err(missing_column_error("closed_at"));
        },
    };
    let num_changes = match find_column(columns, "num_changes") {
        Some(o) => o,
        None => {
            return Err(missing_column_error("num_changes"));
        },
    };
    Ok(TableFields::Changesets { id, user_id, created_at, min_lat, max_lat, min_lon, max_lon, closed_at, num_changes })
}

fn users_fields(columns: &Vec<String>) -> (r: Result<TableFields, OsmError>)
    ensures
        r is Ok <==> users_cols_present(columns.deep_view()),
        r matches Ok(tf) ==> users_fields_ok(columns.deep_view(), tf),
        r matches Err(e) ==> e.kind == crate::error::ErrorKind::Structure
            && missing_column_message(columns.deep_view(), e.message@),
{
    let email = match find_column(columns, "email") {
        Some(o) => o,
        None => {
            return Err(missing_column_error("email"));
        },
    };
    let id = match find_column(columns, "id") {
        Some(o) => o,
        None => {
            return Err(missing_column_error("id"));
        },
    };
    let pass_crypt = match find_column(columns, "pass_crypt") {
        Some(o) => o,
        None => {
            return Err(missing_column_error("pass_crypt"));
        },
    };
    let creation_time = match find_column(columns, "creation_time") {
        Some(o) => o,
        None => {
            return Err(missing_column_error("creation_time"));
        },
    };
    let display_name = match find_column(columns, "display_name") {
        Some(o) => o,
        None => {
            return Err(missing_column_error("display_name"));
        },
    };
    let data_public = match find_column(columns, "data_public") {
        Some(o) => o,
        None => {
            return Err(missing_column_error("data_public"));
        },
    };
    let description = match find_column(columns, "description") {
        Some(o) => o,
        None => {
            return Err(missing_column_error("description"));
        },
    };
    let home_lat = match find_column(columns, "home_lat") {
        Some(o) => o,
        None => {
            return Err(missing_column_error("home_lat"));
        },
    };
    let home_lon = match find_column(columns, "home_lon") {
        Some(o) => o,
        None => {
            return Err(missing_column_error("home_lon"));
        },
    };
    let home_zoom = match find_column(columns, "home_zoom") {
        Some(o) => o,
        None => {
            return Err(missing_column_error("home_zoom"));
        },
    };
    let pass_salt = match find_column(columns, "pass_salt") {
        Some(o) => o,
        None => {
            return Err(missing_column_error("pass_salt"));
        },
    };
    let email_valid = match find_column(columns, "email_valid") {
        Some(o) => o,
        None => {
            return Err(missing_column_error("email_valid"));
        },
    };
    let new_email = match find_column(columns, "new_email") {
        Some(o) => o,
        None => {
            return Err(missing_column_error("new_email"));
        },
    };
    let creation_ip = match find_column(columns, "creation_ip") {
        Some(o) => o,
        None => {
            return Err(missing_column_error("creation_ip"));
        },
    };
    let languages = match find_column(columns, "languages") {
        Some(o) => o,
        None => {
            return Err(missing_column_error("languages"));
        },
    };
    let status = match find_column(columns, "status") {
        Some(o) => o,
        None => {
            return Err(missing_column_error("status"));
        },
    };
    let terms_agreed = match find_column(columns, "terms_agreed") {
        Some(o) => o,
        None => {
            return Err(missing_column_error("terms_agreed"));
        },
    };
    let consider_pd = match find_column(columns, "consider_pd") {
        Some(o) => o,
        None => {
            return Err(missing_column_error("consider_pd"));
        },
    };
    let auth_uid = match find_column(columns, "auth_uid") {
        Some(o) => o,
        None => {
            return Err(missing_column_error("auth_uid"));
        },
    };
    let preferred_editor = match find_column(columns, "preferred_editor") {
        Some(o) => o,
        None => {
            return Err(missing_column_error("preferred_editor"));
        },
    };
    let terms_seen = match find_column(columns, "terms_seen") {
        Some(o) => o,
        None => {
            return Err(missing_column_error("terms_seen"));
        },
    };
    let description_format = match find_column(columns, "description_format") {
        Some(o) => o,
        None => {
            return Err(missing_column_error("description_format"));
        },
    };
    let changesets_count = match find_column(columns, "changesets_count") {
        Some(o) => o,
        None => {
            return Err(missing_column_error("changesets_count"));
        },
    };
    let traces_count = match find_column(columns, "traces_count") {
        Some(o) => o,
        None => {
            return Err(missing_column_error("traces_count"));
        },
    };
    let diary_entries_count = match find_column(columns, "diary_entries_count") {
        Some(o) => o,
        None => {
            return Err(missing_column_error("diary_entries_count"));
        },
    };
    let image_use_gravatar = match find_column(columns, "image_use_gravatar") {
        Some(o) => o,
        None => {
            return Err(missing_column_error("image_use_gravatar"));
        },
    };
    let auth_provider = match find_column(columns, "auth_provider") {
        Some(o) => o,
        None => {
            return Err(missing_column_error("auth_provider"));
        },
    };
    let home_tile = match find_column(columns, "home_tile") {
        Some(o) => o,
        None => {
            return Err(missing_column_error("home_tile"));
        },
    };
    let tou_agreed = match find_column(columns, "tou_agreed") {
        Some(o) => o,
        None => {
            return Err(missing_column_error("tou_agreed"));
        },
    };
    Ok(TableFields::Users { email, id, pass_crypt, creation_time, display_name, data_public, description, home_lat, home_lon, home_zoom, pass_salt, email_valid, new_email, creation_ip, languages, status, terms_agreed, consider_pd, auth_uid, preferred_editor, terms_seen, description_format, changesets_count, traces_count, diary_entries_count, image_use_gravatar, auth_provider, home_tile, tou_agreed })
}

impl TableFields {
    /// Resolves the declared column list of the named table to offsets.
    /// An unknown table name, or a missing required column, is an error
    /// whose text names what is missing.
    pub fn new(name: &str, columns: &Vec<String>) -> (r: Result<TableFields, OsmError>)
        ensures
            r is Ok <==> table_cols_present(name@, columns.deep_view()),
            r matches Ok(tf) ==> table_fields_ok(name@, columns.deep_view(), tf),
            r matches Err(e) ==> e.kind == crate::error::ErrorKind::Structure && if known_table(
                name@,
            ) {
                missing_column_message(columns.deep_view(), e.message@)
            } else {
                e.message@ == "unknown table name: "@ + name@
            },
    {
        if str_eq(name, "public.nodes") {
            nodes_fields(columns)
        } else if str_eq(name, "public.node_tags") {
            node_tags_fields(columns)
        } else if str_eq(name, "public.ways") {
            ways_fields(columns)
        } else if str_eq(name, "public.way_nodes") {
            way_nodes_fields(columns)
        } else if str_eq(name, "public.way_tags") {
            way_tags_fields(columns)
        } else if str_eq(name, "public.relations") {
            relations_fields(columns)
        } else if str_eq(name, "public.relation_members") {
            relation_members_fields(columns)
        } else if str_eq(name, "public.relation_tags") {
            relation_tags_fields(columns)
        } else if str_eq(name, "public.changesets") {
            changesets_fields(columns)
        } else if str_eq(name, "public.users") {
            users_fields(columns)
        } else {
            Err(OsmError::new(crate::text::message_with("unknown table name: ", name)))
        }
    }
}

} // verus!
