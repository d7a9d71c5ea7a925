use edi855::parser::parse_order;
use edi855::splitter::{clean_block, split_feed};
use edi855::ParseError;

fn header_line_with(overrides: &[(usize, &str)]) -> String {
    let mut fields: Vec<String> = (0..63).map(|i| format!("v{}", i)).collect();
    fields[0] = "H".to_string();
    for (i, v) in overrides {
        fields[*i] = v.to_string();
    }
    fields.join("~")
}

#[test]
fn split_feed_two_markers_yields_two_usable_blocks() {
    let feed = "preamble\n\"H\"~\"one\"\n\"D\"~d1\n\"H\"~\"two\"\n";
    let blocks = split_feed(feed);
    assert_eq!(blocks.len(), 3);
    assert_eq!(blocks[0], "Hpreamble");
    assert_eq!(blocks[1], "H~one\nD~d1");
    assert_eq!(blocks[2], "H~two");
}

#[test]
fn split_feed_without_marker_gives_only_preamble() {
    let blocks = split_feed("no orders here\n");
    assert_eq!(blocks.len(), 1);
}

#[test]
fn clean_block_drops_special_instruction_lines() {
    let block = "\"H\"~\"a\"\n\"SR\"~\"note\"\n\"SI\"~\"other\"\n\"D\"~d";
    assert_eq!(clean_block(block), "H~a\nD~d");
}

#[test]
fn clean_block_keeps_unmatched_prefixes() {
    // "SX" is no special-instruction code, and an "SR" without a closing
    // quote after the prefix does not match either.
    let block = "\"SX\"~\"keep\"\n\"SR\"~unquoted";
    assert_eq!(clean_block(block), "SX~keep\nSR~unquoted");
}

#[test]
fn clean_block_drops_final_line_terminator_and_carriage_returns() {
    assert_eq!(clean_block("a\n"), "a");
    assert_eq!(clean_block("\"H\"~\"a\"\r\n\"D\"~d\r\n"), "H~a\nD~d");
    assert_eq!(clean_block(""), "");
}

#[test]
fn clean_block_is_idempotent_on_cleaned_output() {
    let block = "\"H\"~\"a\"\n\"SR\"~\"note\"\n\"D\"~\"d\"\nplain";
    let once = clean_block(block);
    let twice = clean_block(&once);
    assert_eq!(once, twice);
}

#[test]
fn parse_order_details_come_in_triples() {
    let block = "D~a~b~c~d\nD~e~f~g~h\nX~ignored";
    let parsed = parse_order(block).unwrap();
    assert_eq!(parsed.order.details.len() % 3, 0);
    assert_eq!(parsed.order.details, vec!["a", "d", "b", "e", "h", "f"]);
}

#[test]
fn parse_order_header_fills_segments() {
    let line = header_line_with(&[(8, "525876"), (9, "20220627"), (10, "4515216839")]);
    let parsed = parse_order(&line).unwrap();
    assert_eq!(
        parsed.header.bak_segment,
        "BAK*00*AD*4515216839*20220627****525876*20220627"
    );
    assert_eq!(parsed.header.n1_sf_segment, "N1*SF*v50**");
    assert_eq!(parsed.header.n1_st_segment, "N1*ST*v43*92*v62");
    assert_eq!(parsed.header.n3_st_segment, "N3*v44*v45");
    assert_eq!(parsed.header.n4_st_segment, "N4*v46*v47*v48*");
}

#[test]
fn parse_order_ship_to_name_normalizes_line_breaks() {
    let line = header_line_with(&[(43, "Medline//Industries//LP"), (62, "C54")]);
    let parsed = parse_order(&line).unwrap();
    assert_eq!(parsed.header.n1_st_segment, "N1*ST*Medline Industries LP*92*C54");
}

#[test]
fn parse_order_delivery_divides_quantity_and_price() {
    let block = "D~30~VC~~CA\nDLV~20220627~~30500~~~~7585000";
    let parsed = parse_order(block).unwrap();
    assert_eq!(parsed.order.line_items.len(), 1);
    assert_eq!(
        parsed.order.line_items[0].po1_segment,
        "PO1*30*30*CA*75.85**VC*VC*BC*CA*"
    );
    assert_eq!(parsed.order.line_items[0].ack_segment, "ACK*IA*30*CA**20220627");
}

#[test]
fn parse_order_reuses_last_triple_for_repeated_deliveries() {
    let block = "D~a~b~c~d\nDLV~x~~1000~~~~200000\nDLV~y~~2000~~~~200000";
    let parsed = parse_order(block).unwrap();
    assert_eq!(parsed.order.line_items.len(), 2);
    assert_eq!(parsed.order.line_items[0].po1_segment, "PO1*a*1*CA*2**VC*b*BC*d*");
    assert_eq!(parsed.order.line_items[1].po1_segment, "PO1*a*2*CA*2**VC*b*BC*d*");
}

#[test]
fn parse_order_delivery_before_detail_is_an_error() {
    let block = "DLV~20220627~~30000~~~~13000000";
    assert!(matches!(parse_order(block), Err(ParseError::DeliveryBeforeDetail)));
}

#[test]
fn parse_order_short_header_is_an_error() {
    assert!(matches!(parse_order("H~only~a~few~fields"), Err(ParseError::MissingField)));
}

#[test]
fn parse_order_short_detail_is_an_error() {
    assert!(matches!(parse_order("D~a~b"), Err(ParseError::MissingField)));
}

#[test]
fn parse_order_short_delivery_is_an_error() {
    assert!(matches!(parse_order("D~a~b~c~d\nDLV~x~~5"), Err(ParseError::MissingField)));
}

#[test]
fn parse_order_bad_number_outranks_missing_detail() {
    // A delivery record that both precedes any detail record and carries an
    // unparseable quantity reports the numeric error.
    let block = "DLV~x~~bad~~~~200000";
    assert!(matches!(parse_order(block), Err(ParseError::InvalidNumber)));
}

#[test]
fn parse_order_bad_quantity_is_an_error() {
    let block = "D~a~b~c~d\nDLV~x~~12x00~~~~200000";
    assert!(matches!(parse_order(block), Err(ParseError::InvalidNumber)));
}

#[test]
fn parse_order_bad_price_is_an_error() {
    let block = "D~a~b~c~d\nDLV~x~~12000~~~~";
    assert!(matches!(parse_order(block), Err(ParseError::InvalidNumber)));
}

#[test]
fn parse_order_unknown_discriminators_are_ignored() {
    let parsed = parse_order("Z~anything\n\nQ~more").unwrap();
    assert_eq!(parsed.order.details.len(), 0);
    assert_eq!(parsed.order.line_items.len(), 0);
    assert_eq!(parsed.header.bak_segment, "");
}
