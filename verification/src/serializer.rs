//! The segment serializer: renders one acknowledgment into the final
//! per-transaction document text, one segment per line.

use crate::builder::{AckModel, Acknowledgement};
use crate::parser::ItemModel;
use vstd::prelude::*;

verus! {

/// The line-item part of the document: each item's purchase-order-line
/// segment, then its acknowledgment-line segment, each on its own line.
pub open spec fn items_text(items: Seq<ItemModel>) -> Seq<char>
    decreases items.len(),
{
    if items.len() == 0 {
        Seq::<char>::empty()
    } else {
        items_text(items.drop_last()) + items.last().po1 + seq!['\n'] + items.last().ack
            + seq!['\n']
    }
}

/// The per-transaction document body: transaction header, acknowledgment
/// header, the two name segments, the line-item pairs, the totals segment
/// and the transaction trailer, newline-separated with no trailing blank
/// line. The envelope segments and the address segments are withheld from
/// this body.
pub open spec fn serialize_spec(a: AckModel) -> Seq<char> {
    a.st + seq!['\n'] + a.bak + seq!['\n'] + a.n1_sf + seq!['\n'] + a.n1_st + seq!['\n']
        + items_text(a.items) + a.ctt + seq!['\n'] + a.se
}

/// Renders one acknowledgment into the final document text.
pub fn serialize_acknowledgement(a: &Acknowledgement) -> (r: String)
    ensures
        r@ == serialize_spec(a@),
{
    let mut r = String::new();
    r.append(a.st_segment.as_str());
    r.push('\n');
    r.append(a.bak_segment.as_str());
    r.push('\n');
    r.append(a.n1_sf_segment.as_str());
    r.push('\n');
    r.append(a.n1_st_segment.as_str());
    r.push('\n');
    let ghost head = a@.st + seq!['\n'] + a@.bak + seq!['\n'] + a@.n1_sf + seq!['\n'] + a@.n1_st
        + seq!['\n'];
    proof {
        assert(r@ =~= head);
        assert(a@.items.take(0) =~= Seq::<ItemModel>::empty());
    }
    let mut i: usize = 0;
    while i < a.order.line_items.len()
        invariant
            i <= a.order.line_items.len(),
            a@.items.len() == a.order.line_items@.len(),
            forall|j: int| 0 <= j < a@.items.len() ==> a@.items[j] == a.order.line_items@[j]@,
            head == a@.st + seq!['\n'] + a@.bak + seq!['\n'] + a@.n1_sf + seq!['\n'] + a@.n1_st
                + seq!['\n'],
            r@ == head + items_text(a@.items.take(i as int)),
        decreases a.order.line_items.len() - i,
    {
        proof {
            assert(a@.items.take(i + 1).drop_last() =~= a@.items.take(i as int));
            assert(a@.items.take(i + 1).last() == a@.items[i as int]);
        }
        r.append(a.order.line_items[i].po1_segment.as_str());
        r.push('\n');
        r.append(a.order.line_items[i].ack_segment.as_str());
        r.push('\n');
        proof {
            assert(r@ =~= head + items_text(a@.items.take(i + 1)));
        }
        i = i + 1;
    }
    proof {
        assert(a@.items.take(a@.items.len() as int) =~= a@.items);
    }
    r.append(a.control_tt_segment.as_str());
    r.push('\n');
    r.append(a.se_segment.as_str());
    proof {
        assert(r@ =~= serialize_spec(a@));
    }
    r
}

} // verus!
