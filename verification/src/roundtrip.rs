//! Round-trip statements: the rows the import writes for a node, decoded by
//! the export's row decoder and joined with the node's tag rows, give the
//! node element back.
use vstd::prelude::*;
use crate::element::{NodeView, TagView};
use crate::fields::TableFields;
use crate::import_rows::{node_history_row, node_current_row, node_tag_row, node_wf, tab};
use crate::join::NodeRelationView;
use crate::reader::{decode_nodes_spec, decode_node_tags_spec};
use crate::record::{NodeTagView, TableRecordView, NodeRecord};
use crate::sql::{bool_char, escape_chars, escape_free, null_chars, lemma_escape_free_id,
    lemma_escape_no_separators, spec_parse_bool};
use crate::text::{all_digits, dec_digits, int_dec, is_digit, split_on, join_on, spec_parse_i64,
    spec_parse_i32, parse_int_spec, lemma_parse_int_dec, lemma_dec_digits_all_digits,
    lemma_split_join};
use crate::tile::{tile_spec, tile_prefix};
use crate::time::{Timestamp, ts_secs_chars, parse_ts_spec, lemma_sql_time_round_trip};
use crate::export::node_element_spec;

verus! {

/// The offsets of a nodes table declared in its canonical column order.
pub open spec fn canonical_nodes_fields() -> TableFields {
    TableFields::Nodes {
        node_id: 0,
        latitude: 1,
        longitude: 2,
        changeset_id: 3,
        visible: 4,
        timestamp: 5,
        tile: 6,
        version: 7,
        redaction_id: 8,
    }
}

/// The offsets of a node_tags table declared in its canonical column order.
pub open spec fn canonical_node_tags_fields() -> TableFields {
    TableFields::NodeTags { node_id: 0, version: 1, k: 2, v: 3 }
}

/// A decimal integer never contains a tab or newline.
proof fn lemma_int_dec_no_seps(v: int)
    ensures
        forall|i: int|
            0 <= i < int_dec(v).len() ==> #[trigger] int_dec(v)[i] != '\t' && int_dec(v)[i] != '\n',
{
    if v < 0 {
        lemma_dec_digits_all_digits((-v) as nat);
        assert(forall|i: int|
            0 <= i < int_dec(v).len() ==> i >= 1 ==> #[trigger] int_dec(v)[i] == dec_digits(
                (-v) as nat,
            )[i - 1]);
    } else {
        lemma_dec_digits_all_digits(v as nat);
    }
}

/// A timestamp at seconds precision never contains a tab or newline.
proof fn lemma_ts_no_seps(t: Timestamp)
    ensures
        forall|i: int|
            0 <= i < ts_secs_chars(t).len() ==> #[trigger] ts_secs_chars(t)[i] != '\t'
                && ts_secs_chars(t)[i] != '\n',
{
    crate::time::lemma_ts_secs_literal(t);
    assert forall|i: int| 0 <= i < ts_secs_chars(t).len() implies #[trigger] ts_secs_chars(t)[i]
        != '\t' && ts_secs_chars(t)[i] != '\n' by {
        let c = ts_secs_chars(t)[i];
        assert('\t' as u32 == 9 && '\n' as u32 == 10 && '-' as u32 == 45 && ' ' as u32 == 32
            && ':' as u32 == 58);
        if i == 4 || i == 7 || i == 10 || i == 13 || i == 16 {
        } else {
            assert(is_digit(c)) by {
                crate::text::lemma_digit_char_any(t.year as int / 1000 % 10);
                crate::text::lemma_digit_char_any(t.year as int / 100 % 10);
                crate::text::lemma_digit_char_any(t.year as int / 10 % 10);
                crate::text::lemma_digit_char_any(t.year as int % 10);
                crate::text::lemma_digit_char_any(t.month as int / 10 % 10);
                crate::text::lemma_digit_char_any(t.month as int % 10);
                crate::text::lemma_digit_char_any(t.day as int / 10 % 10);
                crate::text::lemma_digit_char_any(t.day as int % 10);
                crate::text::lemma_digit_char_any(t.hour as int / 10 % 10);
                crate::text::lemma_digit_char_any(t.hour as int % 10);
                crate::text::lemma_digit_char_any(t.minute as int / 10 % 10);
                crate::text::lemma_digit_char_any(t.minute as int % 10);
                crate::text::lemma_digit_char_any(t.second as int / 10 % 10);
                crate::text::lemma_digit_char_any(t.second as int % 10);
            }
        }
    }
}

/// The interleaved tile index fits in thirty-two bits.
pub proof fn lemma_tile_bound(x: u64, y: u64, k: int)
    ensures
        tile_prefix(x, y, k) <= 0xFFFFFFFFu64,
        (tile_prefix(x, y, k) as int) < pow4(16 - k),
    decreases 16 - k,
{
    if k >= 16 || k < 0 {
        assert(pow4(16 - k) >= 1) by {
            lemma_pow4_pos(16 - k);
        }
    } else {
        lemma_tile_bound(x, y, k + 1);
        let acc = tile_prefix(x, y, k + 1);
        assert((acc as int) < pow4(15 - k));
        assert(pow4(15 - k) <= pow4(15)) by {
            lemma_pow4_mono(15 - k, 15);
        }
        assert(pow4(15) == 0x40000000) by {
            reveal_with_fuel(pow4, 17);
        }
        let kk = k as u64;
        let bx = (x >> kk) & 1u64;
        let by = (y >> kk) & 1u64;
        assert(((x >> kk) & 1u64) <= 1u64) by (bit_vector);
        assert(((y >> kk) & 1u64) <= 1u64) by (bit_vector);
        assert((((acc << 1u64) | bx) << 1u64) | by == 4u64 * acc + 2u64 * bx + by) by (bit_vector)
            requires
                acc <= 0x3FFFFFFFu64,
                bx <= 1u64,
                by <= 1u64,
        ;
        assert(tile_prefix(x, y, k) == (((acc << 1u64) | bx) << 1u64) | by);
        assert(pow4(16 - k) == 4 * pow4(15 - k));
        assert(pow4(16 - k) <= pow4(16)) by {
            lemma_pow4_mono(16 - k, 16);
        }
        assert(pow4(16) == 0x100000000) by {
            reveal_with_fuel(pow4, 18);
        }
    }
}

pub open spec fn pow4(j: int) -> int
    decreases j,
{
    if j <= 0 {
        1
    } else {
        4 * pow4(j - 1)
    }
}

proof fn lemma_pow4_pos(j: int)
    ensures
        pow4(j) >= 1,
    decreases j,
{
    if j > 0 {
        lemma_pow4_pos(j - 1);
    }
}

proof fn lemma_pow4_mono(a: int, b: int)
    requires
        a <= b,
    ensures
        pow4(a) <= pow4(b),
    decreases b,
{
    if b > 0 {
        if a == b {
        } else {
            lemma_pow4_mono(a, b - 1);
            lemma_pow4_pos(b - 1);
        }
    } else {
        if a < b {
            lemma_pow4_le_zero(a);
        }
    }
}

proof fn lemma_pow4_le_zero(a: int)
    requires
        a <= 0,
    ensures
        pow4(a) == 1,
{
}

/// The null marker does not parse as an integer.
proof fn lemma_null_not_int()
    ensures
        spec_parse_i32(null_chars()) is None,
{
    assert(!is_digit(null_chars()[0]));
    assert(null_chars()[0] != '-' && null_chars()[0] != '+');
    assert(!all_digits(null_chars()));
}

/// The record the historical nodes row of a well-formed node decodes to.
pub open spec fn node_row_record(n: NodeView) -> NodeRecord {
    NodeRecord {
        node_id: n.id,
        latitude: n.lat_dm,
        longitude: n.lon_dm,
        changeset_id: n.changeset,
        visible: n.visible,
        timestamp: n.timestamp,
        tile: tile_spec(n.lat_dm as int, n.lon_dm as int) as i64,
        version: n.version,
        redaction_id: None,
    }
}

/// The nine fields of a node's historical row.
pub open spec fn node_row_fields(n: NodeView) -> Seq<Seq<char>> {
    seq![
        int_dec(n.id as int),
        int_dec(n.lat_dm as int),
        int_dec(n.lon_dm as int),
        int_dec(n.changeset as int),
        seq![bool_char(n.visible)],
        ts_secs_chars(n.timestamp),
        dec_digits(tile_spec(n.lat_dm as int, n.lon_dm as int) as nat),
        int_dec(n.version as int),
        null_chars(),
    ]
}

/// Splitting the row at the tabs returns exactly the fields: none of them
/// contains a tab.
#[verifier::spinoff_prover]
#[verifier::rlimit(100)]
proof fn lemma_node_row_splits(n: NodeView)
    ensures
        split_on(node_history_row(n), '\t') == node_row_fields(n),
{
    let fields = node_row_fields(n);
    assert(node_history_row(n) =~= join_on(fields, '\t')) by {
        reveal_with_fuel(join_on, 10);
    }
    assert forall|i: int, j: int|
        0 <= i < fields.len() && 0 <= j < fields[i].len() implies #[trigger] fields[i][j]
        != '\t' by {
        lemma_int_dec_no_seps(n.id as int);
        lemma_int_dec_no_seps(n.lat_dm as int);
        lemma_int_dec_no_seps(n.lon_dm as int);
        lemma_int_dec_no_seps(n.changeset as int);
        lemma_int_dec_no_seps(n.version as int);
        lemma_ts_no_seps(n.timestamp);
        lemma_dec_digits_all_digits(tile_spec(n.lat_dm as int, n.lon_dm as int) as nat);
    }
    lemma_split_join(fields, '\t');
}

/// Each field of the row parses back to the node's value.
#[verifier::spinoff_prover]
#[verifier::rlimit(100)]
proof fn lemma_node_row_parses(n: NodeView)
    requires
        node_wf(n),
        n.timestamp.micros == 0,
    ensures
        spec_parse_i64(node_row_fields(n)[0]) == Some(n.id),
        spec_parse_i32(node_row_fields(n)[1]) == Some(n.lat_dm),
        spec_parse_i32(node_row_fields(n)[2]) == Some(n.lon_dm),
        spec_parse_i64(node_row_fields(n)[3]) == Some(n.changeset),
        spec_parse_bool(node_row_fields(n)[4]) == Some(n.visible),
        parse_ts_spec(node_row_fields(n)[5]) == Some(n.timestamp),
        spec_parse_i64(node_row_fields(n)[6]) == Some(
            tile_spec(n.lat_dm as int, n.lon_dm as int) as i64,
        ),
        spec_parse_i64(node_row_fields(n)[7]) == Some(n.version),
        spec_parse_i32(node_row_fields(n)[8]) is None,
{
    lemma_parse_int_dec(n.id as int);
    lemma_parse_int_dec(n.lat_dm as int);
    lemma_parse_int_dec(n.lon_dm as int);
    lemma_parse_int_dec(n.changeset as int);
    lemma_parse_int_dec(n.version as int);
    let tile = tile_spec(n.lat_dm as int, n.lon_dm as int);
    lemma_tile_bound(
        crate::tile::scale_lon_spec(n.lon_dm as int) as u64,
        crate::tile::scale_lat_spec(n.lat_dm as int) as u64,
        0,
    );
    assert(int_dec(tile as int) == dec_digits(tile as nat));
    lemma_parse_int_dec(tile as int);
    lemma_sql_time_round_trip(n.timestamp);
    lemma_null_not_int();
    assert(spec_parse_bool(node_row_fields(n)[4]) == Some(n.visible)) by {
        if !n.visible {
            assert(seq![bool_char(n.visible)][0] == 'f');
            if seq![bool_char(n.visible)] == seq!['t'] {
                assert(seq!['t'][0] == 't');
            }
        }
    }
}

/// Writing a node's historical row and decoding it with the canonical
/// offsets returns the node's fields; the written tile index is kept and
/// the redaction column stays null. The timestamp survives whole when it
/// carries no fraction, since the row stores seconds.
#[verifier::spinoff_prover]
#[verifier::rlimit(100)]
pub proof fn lemma_node_row_round_trip(n: NodeView)
    requires
        node_wf(n),
        n.timestamp.micros == 0,
    ensures
        decode_nodes_spec(split_on(node_history_row(n), '\t'), canonical_nodes_fields()) == Some(
            TableRecordView::Node { node_record: node_row_record(n) },
        ),
{
    lemma_node_row_splits(n);
    lemma_node_row_parses(n);
    assert(decode_nodes_spec(node_row_fields(n), canonical_nodes_fields()) == Some(
        TableRecordView::Node { node_record: node_row_record(n) },
    ));
}

/// Writing one tag row of a node and decoding it with the canonical offsets
/// returns the tag, as long as neither key nor value needs escaping.
#[verifier::spinoff_prover]
#[verifier::rlimit(100)]
pub proof fn lemma_node_tag_row_round_trip(n: NodeView, i: int)
    requires
        0 <= i < n.tags.len(),
        escape_free(n.tags[i].k),
        escape_free(n.tags[i].v),
    ensures
        decode_node_tags_spec(
            split_on(node_tag_row(n, n.tags[i]), '\t'),
            canonical_node_tags_fields(),
        ) == Some(
            TableRecordView::NodeTag {
                node_tag_record: NodeTagView {
                    node_id: n.id,
                    version: n.version,
                    k: n.tags[i].k,
                    v: n.tags[i].v,
                },
            },
        ),
{
    let t = n.tags[i];
    lemma_escape_free_id(t.v);
    let fields: Seq<Seq<char>> = seq![
        int_dec(n.id as int),
        int_dec(n.version as int),
        t.k,
        t.v,
    ];
    assert(node_tag_row(n, t) =~= join_on(fields, '\t')) by {
        reveal_with_fuel(join_on, 5);
    }
    assert forall|a: int, j: int|
        0 <= a < fields.len() && 0 <= j < fields[a].len() implies #[trigger] fields[a][j]
        != '\t' by {
        lemma_int_dec_no_seps(n.id as int);
        lemma_int_dec_no_seps(n.version as int);
        assert(crate::sql::escape_code('\t') is Some);
    }
    lemma_split_join(fields, '\t');
    assert(split_on(node_tag_row(n, t), '\t') == fields);
    lemma_parse_int_dec(n.id as int);
    lemma_parse_int_dec(n.version as int);
    assert(decode_node_tags_spec(fields, canonical_node_tags_fields()) == Some(
        TableRecordView::NodeTag {
            node_tag_record: NodeTagView {
                node_id: n.id,
                version: n.version,
                k: t.k,
                v: t.v,
            },
        },
    ));
}

/// The round trip of one node element: the rows the import writes for it,
/// decoded with the canonical offsets and joined, resolved with the node's
/// own user id and name, give the node element back. Timestamps must carry
/// no fraction (the row stores seconds) and tag text must need no escaping
/// (the decoder does not unescape).
pub proof fn lemma_node_element_round_trip(n: NodeView)
    requires
        node_wf(n),
        n.timestamp.micros == 0,
        forall|i: int|
            0 <= i < n.tags.len() ==> escape_free((#[trigger] n.tags[i]).k) && escape_free(
                n.tags[i].v,
            ),
    ensures
        node_element_spec(
            NodeRelationView {
                node: node_row_record(n),
                tags: Seq::new(
                    n.tags.len(),
                    |i: int|
                        NodeTagView {
                            node_id: n.id,
                            version: n.version,
                            k: n.tags[i].k,
                            v: n.tags[i].v,
                        },
                ),
            },
            n.uid,
            n.user,
        ) == n,
        forall|i: int|
            0 <= i < n.tags.len() ==> decode_node_tags_spec(
                split_on(node_tag_row(n, #[trigger] n.tags[i]), '\t'),
                canonical_node_tags_fields(),
            ) == Some(
                TableRecordView::NodeTag {
                    node_tag_record: NodeTagView {
                        node_id: n.id,
                        version: n.version,
                        k: n.tags[i].k,
                        v: n.tags[i].v,
                    },
                },
            ),
        decode_nodes_spec(split_on(node_history_row(n), '\t'), canonical_nodes_fields()) == Some(
            TableRecordView::Node { node_record: node_row_record(n) },
        ),
{
    lemma_node_row_round_trip(n);
    assert forall|i: int| 0 <= i < n.tags.len() implies decode_node_tags_spec(
        split_on(node_tag_row(n, #[trigger] n.tags[i]), '\t'),
        canonical_node_tags_fields(),
    ) == Some(
        TableRecordView::NodeTag {
            node_tag_record: NodeTagView {
                node_id: n.id,
                version: n.version,
                k: n.tags[i].k,
                v: n.tags[i].v,
            },
        },
    ) by {
        lemma_node_tag_row_round_trip(n, i);
    }
    let rel = NodeRelationView {
        node: node_row_record(n),
        tags: Seq::new(
            n.tags.len(),
            |i: int|
                NodeTagView { node_id: n.id, version: n.version, k: n.tags[i].k, v: n.tags[i].v },
        ),
    };
    assert(node_element_spec(rel, n.uid, n.user) =~~= n);
}

} // verus!
