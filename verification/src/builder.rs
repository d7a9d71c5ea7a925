//! The acknowledgment builder: combines a parsed order, two control-number
//! issuances, the current date and time, and the static trading-partner
//! identifiers into the full set of rendered EDI segments.

use crate::numbers::{dec_int, dec_of, i32_dec, pad3, pad3_spec, u64_dec};
use crate::parser::{ItemModel, Order, ParsedOrder};
use crate::sequencer::ControlNumberState;
use crate::text::str_eq;
use vstd::prelude::*;

verus! {

/// The full set of rendered segments for one transaction, with the order
/// that produced them.
pub struct Acknowledgement {
    pub isa_segment: String,
    pub gs_segment: String,
    pub st_segment: String,
    pub bak_segment: String,
    pub n1_sf_segment: String,
    pub n1_st_segment: String,
    pub n3_st_segment: String,
    pub n4_st_segment: String,
    pub order: Order,
    pub control_tt_segment: String,
    pub se_segment: String,
    pub iea_segment: String,
}

/// The mathematical content of an acknowledgment: every segment as a
/// sequence of characters, and the order's details and items.
#[verifier::ext_equal]
pub ghost struct AckModel {
    pub isa: Seq<char>,
    pub gs: Seq<char>,
    pub st: Seq<char>,
    pub bak: Seq<char>,
    pub n1_sf: Seq<char>,
    pub n1_st: Seq<char>,
    pub n3_st: Seq<char>,
    pub n4_st: Seq<char>,
    pub details: Seq<Seq<char>>,
    pub items: Seq<ItemModel>,
    pub ctt: Seq<char>,
    pub se: Seq<char>,
    pub iea: Seq<char>,
}

impl View for Acknowledgement {
    type V = AckModel;

    open spec fn view(&self) -> AckModel {
        AckModel {
            isa: self.isa_segment@,
            gs: self.gs_segment@,
            st: self.st_segment@,
            bak: self.bak_segment@,
            n1_sf: self.n1_sf_segment@,
            n1_st: self.n1_st_segment@,
            n3_st: self.n3_st_segment@,
            n4_st: self.n4_st_segment@,
            details: Seq::new(self.order.details@.len(), |i: int| self.order.details@[i]@),
            items: Seq::new(self.order.line_items@.len(), |i: int| self.order.line_items@[i]@),
            ctt: self.control_tt_segment@,
            se: self.se_segment@,
            iea: self.iea_segment@,
        }
    }
}

/// The fixed-width identifier of a trading partner; unknown names give the
/// empty identifier.
pub open spec fn partner_id_spec(name: Seq<char>) -> Seq<char> {
    if name == "HENRYSCHEIN"@ {
        "012430880      "@
    } else if name == "BUSSE"@ {
        "002418234T     "@
    } else {
        Seq::<char>::empty()
    }
}

/// Looks a trading partner's fixed-width identifier up by its symbolic
/// name; an unknown name yields the empty identifier.
pub fn get_trading_partner_id(partner: &str) -> (r: String)
    ensures
        r@ == partner_id_spec(partner@),
{
    if str_eq(partner, "HENRYSCHEIN") {
        String::from_str("012430880      ")
    } else if str_eq(partner, "BUSSE") {
        String::from_str("002418234T     ")
    } else {
        String::new()
    }
}

/// A full control number: the issuance's date followed by its counter
/// zero-padded to at least three digits.
pub open spec fn control_number_of(date: Seq<char>, counter: int) -> Seq<char> {
    date + pad3_spec(dec_int(counter))
}

/// Renders an issued control-number state as the full control number.
pub fn control_number_string(state: &ControlNumberState) -> (r: String)
    ensures
        r@ == control_number_of(state.date@, state.counter as int),
{
    let num = i32_dec(state.counter);
    let padded = pad3(num.as_str());
    let r = state.date.clone().concat(padded.as_str());
    proof {
        assert(r@ =~= control_number_of(state.date@, state.counter as int));
    }
    r
}

/// The interchange header for the fixed trading-partner pair.
pub open spec fn isa_of(date: Seq<char>, time: Seq<char>, isa_cn: Seq<char>) -> Seq<char> {
    "ISA*00*          *00*          *01*"@ + partner_id_spec("BUSSE"@) + "*01*"@ + partner_id_spec(
        "HENRYSCHEIN"@,
    ) + "*"@ + date + "*"@ + time + "*U*00201*"@ + isa_cn + "*1*P*"@
}

/// The functional-group header for the fixed trading-partner pair.
pub open spec fn gs_of(date: Seq<char>, time: Seq<char>) -> Seq<char> {
    "GS*IN*"@ + partner_id_spec("BUSSE"@) + "*HS855*"@ + date + "*"@ + time + "*5452*X*003040"@
}

/// The transaction-set header.
pub open spec fn st_of(cn: Seq<char>) -> Seq<char> {
    "ST*855*"@ + cn
}

/// The transaction-set trailer.
pub open spec fn se_of(cn: Seq<char>) -> Seq<char> {
    "SE*855*"@ + cn
}

/// The interchange trailer.
pub open spec fn iea_of(isa_cn: Seq<char>) -> Seq<char> {
    "IEA*"@ + isa_cn
}

/// The transaction-totals segment: the count of line items.
pub open spec fn ctt_of(count: int) -> Seq<char> {
    "CTT*"@ + dec_int(count)
}

/// An acknowledgment is complete once the header-derived segments have been
/// set from a header record and the totals segment has been computed.
pub open spec fn ack_complete(a: AckModel) -> bool {
    &&& a.bak.len() > 0
    &&& a.n1_sf.len() > 0
    &&& a.n1_st.len() > 0
    &&& a.ctt.len() > 0
}

/// Assembles the full acknowledgment from a parsed order, the
/// interchange-level and transaction-level control-number issuances, and
/// the current date and time. The totals segment counts the order's line
/// items; the header-derived segments are taken from the parse as they
/// stand.
pub fn build_acknowledgement(
    parsed: ParsedOrder,
    isa_ctl: &ControlNumberState,
    st_ctl: &ControlNumberState,
    date: &str,
    time: &str,
) -> (a: Acknowledgement)
    ensures
        a@ == (AckModel {
            isa: isa_of(
                date@,
                time@,
                control_number_of(isa_ctl.date@, isa_ctl.counter as int),
            ),
            gs: gs_of(date@, time@),
            st: st_of(control_number_of(st_ctl.date@, st_ctl.counter as int)),
            bak: parsed@.bak,
            n1_sf: parsed@.n1_sf,
            n1_st: parsed@.n1_st,
            n3_st: parsed@.n3_st,
            n4_st: parsed@.n4_st,
            details: parsed@.details,
            items: parsed@.items,
            ctt: ctt_of(parsed@.items.len() as int),
            se: se_of(control_number_of(st_ctl.date@, st_ctl.counter as int)),
            iea: iea_of(control_number_of(isa_ctl.date@, isa_ctl.counter as int)),
        }),
        parsed@.bak.len() > 0 && parsed@.n1_sf.len() > 0 && parsed@.n1_st.len() > 0
            ==> ack_complete(a@),
{
    let isa_cn = control_number_string(isa_ctl);
    let st_cn = control_number_string(st_ctl);
    let busse = get_trading_partner_id("BUSSE");
    let schein = get_trading_partner_id("HENRYSCHEIN");
    let mut isa = String::new();
    isa.append("ISA*00*          *00*          *01*");
    isa.append(busse.as_str());
    isa.append("*01*");
    isa.append(schein.as_str());
    isa.append("*");
    isa.append(date);
    isa.append("*");
    isa.append(time);
    isa.append("*U*00201*");
    isa.append(isa_cn.as_str());
    isa.append("*1*P*");
    let mut gs = String::new();
    gs.append("GS*IN*");
    gs.append(busse.as_str());
    gs.append("*HS855*");
    gs.append(date);
    gs.append("*");
    gs.append(time);
    gs.append("*5452*X*003040");
    let mut st = String::new();
    st.append("ST*855*");
    st.append(st_cn.as_str());
    let mut se = String::new();
    se.append("SE*855*");
    se.append(st_cn.as_str());
    let mut iea = String::new();
    iea.append("IEA*");
    iea.append(isa_cn.as_str());
    let count = parsed.order.line_items.len();
    let mut ctt = String::new();
    ctt.append("CTT*");
    let count_str = u64_dec(count as u64);
    ctt.append(count_str.as_str());
    proof {
        let icn = control_number_of(isa_ctl.date@, isa_ctl.counter as int);
        let scn = control_number_of(st_ctl.date@, st_ctl.counter as int);
        assert(isa@ =~= isa_of(date@, time@, icn));
        assert(gs@ =~= gs_of(date@, time@));
        assert(st@ =~= st_of(scn));
        assert(se@ =~= se_of(scn));
        assert(iea@ =~= iea_of(icn));
        assert(ctt@ =~= ctt_of(parsed@.items.len() as int));
        reveal_strlit("CTT*");
        lemma_dec_of_nonempty(count as nat);
    }
    let a = Acknowledgement {
        isa_segment: isa,
        gs_segment: gs,
        st_segment: st,
        bak_segment: parsed.header.bak_segment,
        n1_sf_segment: parsed.header.n1_sf_segment,
        n1_st_segment: parsed.header.n1_st_segment,
        n3_st_segment: parsed.header.n3_st_segment,
        n4_st_segment: parsed.header.n4_st_segment,
        order: parsed.order,
        control_tt_segment: ctt,
        se_segment: se,
        iea_segment: iea,
    };
    proof {
        assert(a@.details =~= parsed@.details);
        assert(a@.items =~= parsed@.items);
        assert(a@ =~~= (AckModel {
            isa: isa_of(
                date@,
                time@,
                control_number_of(isa_ctl.date@, isa_ctl.counter as int),
            ),
            gs: gs_of(date@, time@),
            st: st_of(control_number_of(st_ctl.date@, st_ctl.counter as int)),
            bak: parsed@.bak,
            n1_sf: parsed@.n1_sf,
            n1_st: parsed@.n1_st,
            n3_st: parsed@.n3_st,
            n4_st: parsed@.n4_st,
            details: parsed@.details,
            items: parsed@.items,
            ctt: ctt_of(parsed@.items.len() as int),
            se: se_of(control_number_of(st_ctl.date@, st_ctl.counter as int)),
            iea: iea_of(control_number_of(isa_ctl.date@, isa_ctl.counter as int)),
        }));
    }
    a
}

/// A decimal rendering is never empty.
pub proof fn lemma_dec_of_nonempty(n: nat)
    ensures
        dec_of(n).len() >= 1,
    decreases n,
{
    if n >= 10 {
        lemma_dec_of_nonempty(n / 10);
    }
}

} // verus!
