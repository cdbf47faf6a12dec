use rpc_gen::naming::{capitalize_first_letter, variant_name};

#[test]
fn capitalizes_the_first_letter_only() {
    assert_eq!(capitalize_first_letter("packet"), "Packet");
    assert_eq!(capitalize_first_letter("sendPacket"), "SendPacket");
    assert_eq!(capitalize_first_letter("Packet"), "Packet");
    assert_eq!(capitalize_first_letter("9lives"), "9lives");
    assert_eq!(capitalize_first_letter(""), "");
}

#[test]
fn variant_name_joins_capitalized_segments() {
    assert_eq!(variant_name("send_packet"), "SendPacket");
    assert_eq!(variant_name("ping"), "Ping");
    assert_eq!(variant_name("a_b_c"), "ABC");
    assert_eq!(variant_name("_lead__double_"), "LeadDouble");
    assert_eq!(variant_name(""), "");
}
