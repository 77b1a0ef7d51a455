//! The replication and bounding-box resolver: derives the geographic extent
//! from the element stream and picks the replication parameters.
use vstd::prelude::*;
use crate::element::{Element, ElementView};

verus! {

/// A geographic extent in decimicro degrees: west, south, east, north.
#[derive(Debug, Clone, Copy, PartialEq, Eq, Structural)]
pub struct BoundingBox {
    pub left: i32,
    pub bottom: i32,
    pub right: i32,
    pub top: i32,
}

/// The box grown to contain one more point.
pub open spec fn merge_point_spec(b: BoundingBox, lon_dm: i32, lat_dm: i32) -> BoundingBox {
    BoundingBox {
        left: if lon_dm < b.left {
            lon_dm
        } else {
            b.left
        },
        bottom: if lat_dm < b.bottom {
            lat_dm
        } else {
            b.bottom
        },
        right: if lon_dm > b.right {
            lon_dm
        } else {
            b.right
        },
        top: if lat_dm > b.top {
            lat_dm
        } else {
            b.top
        },
    }
}

impl BoundingBox {
    /// The box of a single point.
    pub fn of_point(lon_dm: i32, lat_dm: i32) -> (b: BoundingBox)
        ensures
            b == (BoundingBox { left: lon_dm, bottom: lat_dm, right: lon_dm, top: lat_dm }),
    {
        BoundingBox { left: lon_dm, bottom: lat_dm, right: lon_dm, top: lat_dm }
    }

    /// Grows the box to contain one more point.
    pub fn merge_point(&mut self, lon_dm: i32, lat_dm: i32)
        ensures
            *final(self) == merge_point_spec(*old(self), lon_dm, lat_dm),
    {
        if lon_dm < self.left {
            self.left = lon_dm;
        }
        if lat_dm < self.bottom {
            self.bottom = lat_dm;
        }
        if lon_dm > self.right {
            self.right = lon_dm;
        }
        if lat_dm > self.top {
            self.top = lat_dm;
        }
    }
}

/// The box accumulated over the stream's leading nodes: visible nodes grow
/// it, hidden nodes are skipped, and the first element of any other kind
/// ends the scan, nodes coming first in a sorted stream.
pub open spec fn bbox_scan(els: Seq<ElementView>, acc: Option<BoundingBox>) -> Option<BoundingBox>
    decreases els.len(),
{
    if els.len() == 0 {
        acc
    } else {
        match els[0] {
            ElementView::Node { node } => {
                let acc1 = if node.visible {
                    match acc {
                        None => Some(
                            BoundingBox {
                                left: node.lon_dm,
                                bottom: node.lat_dm,
                                right: node.lon_dm,
                                top: node.lat_dm,
                            },
                        ),
                        Some(b) => Some(merge_point_spec(b, node.lon_dm, node.lat_dm)),
                    }
                } else {
                    acc
                };
                bbox_scan(els.drop_first(), acc1)
            },
            _ => acc,
        }
    }
}

/// Resolves the output's bounding box: when a scan is requested, the box of
/// the stream's visible leading nodes; otherwise the supplied box.
#[verifier::loop_isolation(false)]
pub fn calculate_bounding_box(
    calc_bounding_box: bool,
    bounding_box_opt: Option<BoundingBox>,
    elements: &Vec<Element>,
) -> (r: Option<BoundingBox>)
    ensures
        calc_bounding_box ==> r == bbox_scan(elements.deep_view(), None),
        !calc_bounding_box ==> r == bounding_box_opt,
{
    if !calc_bounding_box {
        return bounding_box_opt;
    }
    let ghost els = elements.deep_view();
    let mut acc: Option<BoundingBox> = None;
    let mut i: usize = 0;
    proof {
        assert(els.skip(0) =~= els);
    }
    while i < elements.len()
        invariant
            0 <= i <= els.len(),
            els.len() == elements@.len(),
            bbox_scan(els, None) == bbox_scan(els.skip(i as int), acc),
        decreases els.len() - i,
    {
        proof {
            assert(els.skip(i as int)[0] == els[i as int]);
            assert(els.skip(i as int).drop_first() =~= els.skip(i + 1));
        }
        match &elements[i] {
            Element::Node { node } => {
                if node.visible {
                    match acc {
                        None => {
                            acc = Some(BoundingBox::of_point(node.lon_dm, node.lat_dm));
                        },
                        Some(mut b) => {
                            b.merge_point(node.lon_dm, node.lat_dm);
                            acc = Some(b);
                        },
                    }
                }
            },
            _ => {
                return acc;
            },
        }
        i = i + 1;
    }
    proof {
        assert(els.skip(els.len() as int) =~= Seq::<ElementView>::empty());
    }
    acc
}

/// Picks the replication parameters: explicit values win; otherwise the
/// timestamp comes from the dump's commit time, in whole seconds, and the
/// sequence number from its transaction id.
pub fn select_replication_params(
    osmosis_replication_timestamp: Option<i64>,
    osmosis_replication_sequence_number: Option<i64>,
    dump_timestamp_millis: i64,
    dump_transaction_id: u64,
) -> (r: (Option<i64>, Option<i64>))
    requires
        dump_timestamp_millis >= 0,
        dump_transaction_id <= i64::MAX as u64,
    ensures
        r.0 == Some(
            match osmosis_replication_timestamp {
                Some(t) => t,
                None => (dump_timestamp_millis / 1000) as i64,
            },
        ),
        r.1 == Some(
            match osmosis_replication_sequence_number {
                Some(n) => n,
                None => dump_transaction_id as i64,
            },
        ),
{
    let timestamp = match osmosis_replication_timestamp {
        None => Some(dump_timestamp_millis / 1000),
        Some(t) => Some(t),
    };
    let sequence_number = match osmosis_replication_sequence_number {
        None => Some(dump_transaction_id as i64),
        Some(n) => Some(n),
    };
    (timestamp, sequence_number)
}

} // verus!
