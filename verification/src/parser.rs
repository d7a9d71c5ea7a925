//! The order parser: turns one cleaned order block into a structured order.
//! Each line is split on the record separator and dispatched on its
//! record-type discriminator: header records fill the acknowledgment's
//! header segments, detail records append a triple to the flat detail list,
//! and delivery records build a line item from the most recent triple.

use crate::numbers::{dec_int, int_value, price_of, trunc_div, valid_i32_string};
use crate::numbers::{i32_dec, parse_i32, price_string};
use crate::patterns::{replace_dslash, replace_double_slash};
use crate::text::{split_char, split_str_on, str_eq};
use crate::ParseError;
use vstd::prelude::*;

verus! {

/// One delivery line: the rendered purchase-order-line segment and the
/// rendered acknowledgment-line segment.
pub struct LineItem {
    pub po1_segment: String,
    pub ack_segment: String,
}

/// The segments of a line item, as sequences of characters.
#[verifier::ext_equal]
pub ghost struct ItemModel {
    pub po1: Seq<char>,
    pub ack: Seq<char>,
}

impl View for LineItem {
    type V = ItemModel;

    open spec fn view(&self) -> ItemModel {
        ItemModel { po1: self.po1_segment@, ack: self.ack_segment@ }
    }
}

/// The flat detail list and the line items of one order. Details are
/// appended in triples and never removed; a delivery record reads the last
/// triple without popping it.
pub struct Order {
    pub details: Vec<String>,
    pub line_items: Vec<LineItem>,
}

/// The header-derived segments of one order.
pub struct OrderHeader {
    pub bak_segment: String,
    pub n1_sf_segment: String,
    pub n1_st_segment: String,
    pub n3_st_segment: String,
    pub n4_st_segment: String,
}

/// A fully parsed order block: its header segments and its order contents.
pub struct ParsedOrder {
    pub header: OrderHeader,
    pub order: Order,
}

/// The mathematical content of a parsed order.
#[verifier::ext_equal]
pub ghost struct OrderModel {
    pub bak: Seq<char>,
    pub n1_sf: Seq<char>,
    pub n1_st: Seq<char>,
    pub n3_st: Seq<char>,
    pub n4_st: Seq<char>,
    pub details: Seq<Seq<char>>,
    pub items: Seq<ItemModel>,
}

impl View for ParsedOrder {
    type V = OrderModel;

    open spec fn view(&self) -> OrderModel {
        OrderModel {
            bak: self.header.bak_segment@,
            n1_sf: self.header.n1_sf_segment@,
            n1_st: self.header.n1_st_segment@,
            n3_st: self.header.n3_st_segment@,
            n4_st: self.header.n4_st_segment@,
            details: Seq::new(self.order.details@.len(), |i: int| self.order.details@[i]@),
            items: Seq::new(self.order.line_items@.len(), |i: int| self.order.line_items@[i]@),
        }
    }
}

/// The order a parse starts from: every segment empty, no details, no items.
pub open spec fn empty_order() -> OrderModel {
    OrderModel {
        bak: Seq::<char>::empty(),
        n1_sf: Seq::<char>::empty(),
        n1_st: Seq::<char>::empty(),
        n3_st: Seq::<char>::empty(),
        n4_st: Seq::<char>::empty(),
        details: Seq::<Seq<char>>::empty(),
        items: Seq::<ItemModel>::empty(),
    }
}

/// The BAK segment built from the customer purchase order, the received
/// date and the vendor sales order.
pub open spec fn bak_of(po: Seq<char>, rdate: Seq<char>, so: Seq<char>) -> Seq<char> {
    "BAK*00*AD*"@ + po + "*"@ + rdate + "****"@ + so + "*"@ + rdate
}

/// The ship-from name segment.
pub open spec fn n1_sf_of(name: Seq<char>) -> Seq<char> {
    "N1*SF*"@ + name + "**"@
}

/// The ship-to name segment; the line-break token inside the name is
/// normalized to a space.
pub open spec fn n1_st_of(name: Seq<char>, id: Seq<char>) -> Seq<char> {
    "N1*ST*"@ + replace_dslash(name) + "*92*"@ + id
}

/// The ship-to address segment.
pub open spec fn n3_of(a1: Seq<char>, a2: Seq<char>) -> Seq<char> {
    "N3*"@ + a1 + "*"@ + a2
}

/// The ship-to city, state and zip segment.
pub open spec fn n4_of(city: Seq<char>, state: Seq<char>, zip: Seq<char>) -> Seq<char> {
    "N4*"@ + city + "*"@ + state + "*"@ + zip + "*"@
}

/// The purchase-order-line segment for a quantity, a raw unit price and the
/// current detail triple.
pub open spec fn po1_of(
    t0: Seq<char>,
    qty: int,
    praw: int,
    t2: Seq<char>,
    t1: Seq<char>,
) -> Seq<char> {
    "PO1*"@ + t0 + "*"@ + dec_int(qty) + "*CA*"@ + price_of(praw) + "**VC*"@ + t2 + "*BC*"@ + t1
        + "*"@
}

/// The acknowledgment-line segment for a quantity and a tentative ship
/// date.
pub open spec fn ack_of(qty: int, ship: Seq<char>) -> Seq<char> {
    "ACK*IA*"@ + dec_int(qty) + "*CA**"@ + ship
}

/// The line item a delivery record produces: the raw quantity carries three
/// implied decimal digits and is divided by 1000 truncating; the raw unit
/// price carries five implied decimal digits.
pub open spec fn line_item_of(
    t0: Seq<char>,
    t1: Seq<char>,
    t2: Seq<char>,
    qraw: int,
    praw: int,
    ship: Seq<char>,
) -> ItemModel {
    ItemModel {
        po1: po1_of(t0, trunc_div(qraw, 1000), praw, t2, t1),
        ack: ack_of(trunc_div(qraw, 1000), ship),
    }
}

/// One step of the parse: dispatches one line on its record-type
/// discriminator and extends the order accordingly.
pub open spec fn parse_line(m: OrderModel, line: Seq<char>) -> Result<OrderModel, ParseError> {
    let f = split_char(line, '~');
    if f[0] == "H"@ {
        if f.len() < 63 {
            Err(ParseError::MissingField)
        } else {
            Ok(
                OrderModel {
                    bak: bak_of(f[10], f[9], f[8]),
                    n1_sf: n1_sf_of(f[50]),
                    n1_st: n1_st_of(f[43], f[62]),
                    n3_st: n3_of(f[44], f[45]),
                    n4_st: n4_of(f[46], f[47], f[48]),
                    ..m
                },
            )
        }
    } else if f[0] == "D"@ {
        if f.len() < 5 {
            Err(ParseError::MissingField)
        } else {
            Ok(OrderModel { details: m.details + seq![f[1], f[4], f[2]], ..m })
        }
    } else if f[0] == "DLV"@ {
        if f.len() < 8 {
            Err(ParseError::MissingField)
        } else if !valid_i32_string(f[3]) || !valid_i32_string(f[7]) {
            Err(ParseError::InvalidNumber)
        } else if m.details.len() < 3 {
            Err(ParseError::DeliveryBeforeDetail)
        } else {
            let n = m.details.len() as int;
            Ok(
                OrderModel {
                    items: m.items.push(
                        line_item_of(
                            m.details[n - 3],
                            m.details[n - 2],
                            m.details[n - 1],
                            int_value(f[3]),
                            int_value(f[7]),
                            f[1],
                        ),
                    ),
                    ..m
                },
            )
        }
    } else {
        Ok(m)
    }
}

/// The parse of the first `n` lines.
pub open spec fn parse_upto(ls: Seq<Seq<char>>, n: int) -> Result<OrderModel, ParseError>
    decreases n,
{
    if n <= 0 {
        Ok(empty_order())
    } else {
        match parse_upto(ls, n - 1) {
            Ok(m) => parse_line(m, ls[n - 1]),
            Err(e) => Err(e),
        }
    }
}

/// The parse of one cleaned order block: its lines folded in order.
pub open spec fn spec_parse(b: Seq<char>) -> Result<OrderModel, ParseError> {
    parse_upto(split_char(b, '\n'), split_char(b, '\n').len() as int)
}

/// Truncating division of a raw quantity by its implied-decimal scale.
fn div1000(q: i32) -> (r: i32)
    ensures
        r as int == trunc_div(q as int, 1000),
{
    let q64: i64 = q as i64;
    if q64 >= 0 {
        (q64 / 1000) as i32
    } else {
        (-((-q64) / 1000)) as i32
    }
}

/// Fills the header-derived segments from a header record's fields.
fn set_header(cur: &mut ParsedOrder, fields: &Vec<String>)
    requires
        fields@.len() >= 63,
    ensures
        final(cur)@ == (OrderModel {
            bak: bak_of(fields@[10]@, fields@[9]@, fields@[8]@),
            n1_sf: n1_sf_of(fields@[50]@),
            n1_st: n1_st_of(fields@[43]@, fields@[62]@),
            n3_st: n3_of(fields@[44]@, fields@[45]@),
            n4_st: n4_of(fields@[46]@, fields@[47]@, fields@[48]@),
            ..old(cur)@
        }),
{
    let mut bak = String::new();
    bak.append("BAK*00*AD*");
    bak.append(fields[10].as_str());
    bak.append("*");
    bak.append(fields[9].as_str());
    bak.append("****");
    bak.append(fields[8].as_str());
    bak.append("*");
    bak.append(fields[9].as_str());
    let mut n1_sf = String::new();
    n1_sf.append("N1*SF*");
    n1_sf.append(fields[50].as_str());
    n1_sf.append("**");
    let mut n1_st = String::new();
    n1_st.append("N1*ST*");
    let st_name = replace_double_slash(fields[43].as_str());
    n1_st.append(st_name.as_str());
    n1_st.append("*92*");
    n1_st.append(fields[62].as_str());
    let mut n3_st = String::new();
    n3_st.append("N3*");
    n3_st.append(fields[44].as_str());
    n3_st.append("*");
    n3_st.append(fields[45].as_str());
    let mut n4_st = String::new();
    n4_st.append("N4*");
    n4_st.append(fields[46].as_str());
    n4_st.append("*");
    n4_st.append(fields[47].as_str());
    n4_st.append("*");
    n4_st.append(fields[48].as_str());
    n4_st.append("*");
    proof {
        assert(bak@ =~= bak_of(fields@[10]@, fields@[9]@, fields@[8]@));
        assert(n1_sf@ =~= n1_sf_of(fields@[50]@));
        assert(n1_st@ =~= n1_st_of(fields@[43]@, fields@[62]@));
        assert(n3_st@ =~= n3_of(fields@[44]@, fields@[45]@));
        assert(n4_st@ =~= n4_of(fields@[46]@, fields@[47]@, fields@[48]@));
    }
    cur.header.bak_segment = bak;
    cur.header.n1_sf_segment = n1_sf;
    cur.header.n1_st_segment = n1_st;
    cur.header.n3_st_segment = n3_st;
    cur.header.n4_st_segment = n4_st;
    proof {
        assert(cur@ =~~= (OrderModel {
            bak: bak_of(fields@[10]@, fields@[9]@, fields@[8]@),
            n1_sf: n1_sf_of(fields@[50]@),
            n1_st: n1_st_of(fields@[43]@, fields@[62]@),
            n3_st: n3_of(fields@[44]@, fields@[45]@),
            n4_st: n4_of(fields@[46]@, fields@[47]@, fields@[48]@),
            ..old(cur)@
        }));
    }
}

/// Appends a detail record's triple to the flat detail list.
fn push_detail(cur: &mut ParsedOrder, fields: &Vec<String>)
    requires
        fields@.len() >= 5,
    ensures
        final(cur)@ == (OrderModel {
            details: old(cur)@.details + seq![fields@[1]@, fields@[4]@, fields@[2]@],
            ..old(cur)@
        }),
{
    cur.order.details.push(fields[1].clone());
    cur.order.details.push(fields[4].clone());
    cur.order.details.push(fields[2].clone());
    proof {
        assert(cur@ =~~= (OrderModel {
            details: old(cur)@.details + seq![fields@[1]@, fields@[4]@, fields@[2]@],
            ..old(cur)@
        }));
    }
}

/// Builds a line item from the last detail triple, the raw quantity and
/// price, and the tentative ship date, and appends it.
fn push_delivery(cur: &mut ParsedOrder, qraw: i32, praw: i32, ship: &String)
    requires
        old(cur)@.details.len() >= 3,
    ensures
        final(cur)@ == (OrderModel {
            items: old(cur)@.items.push(
                line_item_of(
                    old(cur)@.details[old(cur)@.details.len() - 3],
                    old(cur)@.details[old(cur)@.details.len() - 2],
                    old(cur)@.details[old(cur)@.details.len() - 1],
                    qraw as int,
                    praw as int,
                    ship@,
                ),
            ),
            ..old(cur)@
        }),
{
    let qty = div1000(qraw);
    let qty_str = i32_dec(qty);
    let price_str = price_string(praw);
    let n = cur.order.details.len();
    let mut po1 = String::new();
    po1.append("PO1*");
    po1.append(cur.order.details[n - 3].as_str());
    po1.append("*");
    po1.append(qty_str.as_str());
    po1.append("*CA*");
    po1.append(price_str.as_str());
    po1.append("**VC*");
    po1.append(cur.order.details[n - 1].as_str());
    po1.append("*BC*");
    po1.append(cur.order.details[n - 2].as_str());
    po1.append("*");
    let mut ack = String::new();
    ack.append("ACK*IA*");
    ack.append(qty_str.as_str());
    ack.append("*CA**");
    ack.append(ship.as_str());
    let ghost item = line_item_of(
        old(cur)@.details[old(cur)@.details.len() - 3],
        old(cur)@.details[old(cur)@.details.len() - 2],
        old(cur)@.details[old(cur)@.details.len() - 1],
        qraw as int,
        praw as int,
        ship@,
    );
    proof {
        assert(po1@ =~= item.po1);
        assert(ack@ =~= item.ack);
    }
    cur.order.line_items.push(LineItem { po1_segment: po1, ack_segment: ack });
    proof {
        assert(cur@ =~~= (OrderModel { items: old(cur)@.items.push(item), ..old(cur)@ }));
    }
}

/// Parses one cleaned order block, line by line, exactly as the
/// specification folds `parse_line` over the block's lines; any structural
/// or numeric fault of a record fails the whole block with its error kind.
pub fn parse_order(block: &str) -> (r: Result<ParsedOrder, ParseError>)
    ensures
        match r {
            Ok(p) => spec_parse(block@) == Ok::<OrderModel, ParseError>(p@),
            Err(e) => spec_parse(block@) == Err::<OrderModel, ParseError>(e),
        },
{
    let ghost ls = split_char(block@, '\n');
    let lines = split_str_on(block, '\n');
    let mut cur = ParsedOrder {
        header: OrderHeader {
            bak_segment: String::new(),
            n1_sf_segment: String::new(),
            n1_st_segment: String::new(),
            n3_st_segment: String::new(),
            n4_st_segment: String::new(),
        },
        order: Order { details: Vec::new(), line_items: Vec::new() },
    };
    proof {
        assert(cur@ =~~= empty_order());
    }
    let mut i: usize = 0;
    while i < lines.len()
        invariant
            i <= lines.len(),
            ls == split_char(block@, '\n'),
            lines@.len() == ls.len(),
            forall|j: int| 0 <= j < ls.len() ==> lines@[j]@ == ls[j],
            parse_upto(ls, i as int) == Ok::<OrderModel, ParseError>(cur@),
        decreases lines.len() - i,
    {
        let ghost m0 = cur@;
        let ghost f = split_char(ls[i as int], '~');
        let fields = split_str_on(lines[i].as_str(), '~');
        if str_eq(fields[0].as_str(), "H") {
            if fields.len() < 63 {
                proof {
                    lemma_parse_upto_stable(ls, i + 1, ls.len() as int);
                }
                return Err(ParseError::MissingField);
            }
            set_header(&mut cur, &fields);
        } else if str_eq(fields[0].as_str(), "D") {
            if fields.len() < 5 {
                proof {
                    lemma_parse_upto_stable(ls, i + 1, ls.len() as int);
                }
                return Err(ParseError::MissingField);
            }
            push_detail(&mut cur, &fields);
        } else if str_eq(fields[0].as_str(), "DLV") {
            if fields.len() < 8 {
                proof {
                    lemma_parse_upto_stable(ls, i + 1, ls.len() as int);
                }
                return Err(ParseError::MissingField);
            }
            let qraw = match parse_i32(fields[3].as_str()) {
                Ok(v) => v,
                Err(e) => {
                    proof {
                        lemma_parse_upto_stable(ls, i + 1, ls.len() as int);
                    }
                    return Err(e);
                },
            };
            let praw = match parse_i32(fields[7].as_str()) {
                Ok(v) => v,
                Err(e) => {
                    proof {
                        lemma_parse_upto_stable(ls, i + 1, ls.len() as int);
                    }
                    return Err(e);
                },
            };
            if cur.order.details.len() < 3 {
                proof {
                    lemma_parse_upto_stable(ls, i + 1, ls.len() as int);
                }
                return Err(ParseError::DeliveryBeforeDetail);
            }
            push_delivery(&mut cur, qraw, praw, &fields[1]);
        }
        proof {
            assert(parse_line(m0, ls[i as int]) == Ok::<OrderModel, ParseError>(cur@));
        }
        i = i + 1;
    }
    proof {
        assert(i as int == ls.len());
    }
    Ok(cur)
}

proof fn lemma_parse_upto_details_mod3(ls: Seq<Seq<char>>, n: int)
    ensures
        parse_upto(ls, n) matches Ok(m) ==> m.details.len() % 3 == 0,
    decreases n,
{
    if n > 0 {
        lemma_parse_upto_details_mod3(ls, n - 1);
    }
}

/// After any successful parse the flat detail list holds whole triples:
/// its length is a multiple of three.
pub proof fn lemma_details_whole_triples(b: Seq<char>)
    ensures
        spec_parse(b) matches Ok(m) ==> m.details.len() % 3 == 0,
{
    let ls = split_char(b, '\n');
    lemma_parse_upto_details_mod3(ls, ls.len() as int);
}

/// The line item a delivery record produces renders, in both of its
/// segments, the raw quantity divided by 1000 truncating, and, in its
/// purchase-order-line segment, the raw unit price read with five implied
/// decimal digits.
pub proof fn lemma_line_item_values(
    t0: Seq<char>,
    t1: Seq<char>,
    t2: Seq<char>,
    qraw: int,
    praw: int,
    ship: Seq<char>,
)
    ensures
        line_item_of(t0, t1, t2, qraw, praw, ship).po1 == "PO1*"@ + t0 + "*"@ + dec_int(
            trunc_div(qraw, 1000),
        ) + "*CA*"@ + price_of(praw) + "**VC*"@ + t2 + "*BC*"@ + t1 + "*"@,
        line_item_of(t0, t1, t2, qraw, praw, ship).ack == "ACK*IA*"@ + dec_int(
            trunc_div(qraw, 1000),
        ) + "*CA**"@ + ship,
{
}

/// A parse that has failed stays failed whatever lines follow.
proof fn lemma_parse_upto_stable(ls: Seq<Seq<char>>, k: int, n: int)
    requires
        0 <= k <= n,
        parse_upto(ls, k) is Err,
    ensures
        parse_upto(ls, n) == parse_upto(ls, k),
    decreases n - k,
{
    if n > k {
        lemma_parse_upto_stable(ls, k, n - 1);
    }
}

} // verus!
