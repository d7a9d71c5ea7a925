use edi855::builder::{build_acknowledgement, get_trading_partner_id};
use edi855::parser::parse_order;
use edi855::sequencer::{advance_control_state, render_control_state, ControlNumberState};
use edi855::serializer::serialize_acknowledgement;
use edi855::ParseError;

#[test]
fn control_number_same_date_increments() {
    let next = advance_control_state("220627;5", "220627").unwrap();
    assert_eq!(next.date, "220627");
    assert_eq!(next.counter, 6);
    assert_eq!(render_control_state(&next), "220627;6");
}

#[test]
fn control_number_new_date_resets() {
    let next = advance_control_state("220626;5", "220627").unwrap();
    assert_eq!(next.date, "220627");
    assert_eq!(next.counter, 1);
    assert_eq!(render_control_state(&next), "220627;1");
}

#[test]
fn control_number_stale_store_resets_without_reading_counter() {
    // Under a changed date the counter field is never read: a garbled or
    // absent counter still resets cleanly.
    let next = advance_control_state("220626;x", "220627").unwrap();
    assert_eq!(next.date, "220627");
    assert_eq!(next.counter, 1);
    let next = advance_control_state("220626", "220627").unwrap();
    assert_eq!(next.counter, 1);
}

#[test]
fn control_number_store_without_separator_is_malformed_under_same_date() {
    assert!(matches!(
        advance_control_state("220627", "220627"),
        Err(ParseError::MalformedControlFile)
    ));
}

#[test]
fn control_number_store_with_bad_counter_is_an_error_under_same_date() {
    assert!(matches!(
        advance_control_state("220627;five", "220627"),
        Err(ParseError::InvalidNumber)
    ));
    assert!(matches!(
        advance_control_state("220627;2147483647", "220627"),
        Err(ParseError::InvalidNumber)
    ));
}

#[test]
fn trading_partner_ids_are_fixed_width() {
    assert_eq!(get_trading_partner_id("HENRYSCHEIN"), "012430880      ");
    assert_eq!(get_trading_partner_id("BUSSE"), "002418234T     ");
    assert_eq!(get_trading_partner_id("NOBODY"), "");
}

fn end_to_end_block() -> String {
    let mut fields: Vec<String> = (0..63).map(|i| format!("v{}", i)).collect();
    fields[0] = "H".to_string();
    fields[8] = "525876".to_string();
    fields[9] = "20220627".to_string();
    fields[10] = "4515216839".to_string();
    let header = fields.join("~");
    format!("{}\nD~30~VC~~CA\nDLV~20220627~~30000~~~~13000000", header)
}

#[test]
fn end_to_end_single_delivery_order() {
    let parsed = parse_order(&end_to_end_block()).unwrap();
    assert_eq!(parsed.order.line_items.len(), 1);
    assert_eq!(
        parsed.order.line_items[0].po1_segment,
        "PO1*30*30*CA*130**VC*VC*BC*CA*"
    );
    assert_eq!(parsed.order.line_items[0].ack_segment, "ACK*IA*30*CA**20220627");
    let isa_ctl = ControlNumberState { date: "220628".to_string(), counter: 6 };
    let st_ctl = ControlNumberState { date: "220628".to_string(), counter: 7 };
    let ack = build_acknowledgement(parsed, &isa_ctl, &st_ctl, "220628", "0940");
    assert_eq!(ack.control_tt_segment, "CTT*1");
    assert_eq!(
        ack.bak_segment,
        "BAK*00*AD*4515216839*20220627****525876*20220627"
    );
    let doc = serialize_acknowledgement(&ack);
    assert!(doc.contains("CTT*1\n"));
    assert!(doc.contains("PO1*30*30*CA*130**VC*VC*BC*CA*\nACK*IA*30*CA**20220627\n"));
}

#[test]
fn builder_renders_envelope_and_transaction_segments() {
    let parsed = parse_order(&end_to_end_block()).unwrap();
    let isa_ctl = ControlNumberState { date: "220628".to_string(), counter: 6 };
    let st_ctl = ControlNumberState { date: "220628".to_string(), counter: 1234 };
    let ack = build_acknowledgement(parsed, &isa_ctl, &st_ctl, "220628", "0940");
    assert_eq!(
        ack.isa_segment,
        "ISA*00*          *00*          *01*002418234T     *01*012430880      \
         *220628*0940*U*00201*220628006*1*P*"
    );
    assert_eq!(
        ack.gs_segment,
        "GS*IN*002418234T     *HS855*220628*0940*5452*X*003040"
    );
    assert_eq!(ack.st_segment, "ST*855*2206281234");
    assert_eq!(ack.se_segment, "SE*855*2206281234");
    assert_eq!(ack.iea_segment, "IEA*220628006");
}

#[test]
fn serializer_joins_segments_in_fixed_order() {
    let parsed = parse_order(&end_to_end_block()).unwrap();
    let isa_ctl = ControlNumberState { date: "220628".to_string(), counter: 6 };
    let st_ctl = ControlNumberState { date: "220628".to_string(), counter: 7 };
    let ack = build_acknowledgement(parsed, &isa_ctl, &st_ctl, "220628", "0940");
    let doc = serialize_acknowledgement(&ack);
    let expected = "ST*855*220628007\n\
                    BAK*00*AD*4515216839*20220627****525876*20220627\n\
                    N1*SF*v50**\n\
                    N1*ST*v43*92*v62\n\
                    PO1*30*30*CA*130**VC*VC*BC*CA*\n\
                    ACK*IA*30*CA**20220627\n\
                    CTT*1\n\
                    SE*855*220628007";
    assert_eq!(doc, expected);
}

#[test]
fn serializer_omits_line_item_block_for_empty_orders() {
    let parsed = parse_order("Z~nothing").unwrap();
    let isa_ctl = ControlNumberState { date: "220628".to_string(), counter: 1 };
    let st_ctl = ControlNumberState { date: "220628".to_string(), counter: 2 };
    let ack = build_acknowledgement(parsed, &isa_ctl, &st_ctl, "220628", "0940");
    let doc = serialize_acknowledgement(&ack);
    assert_eq!(doc, "ST*855*220628002\n\n\n\nCTT*0\nSE*855*220628002");
}
