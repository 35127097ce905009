use elementary::payload::probe_payload;

#[test]
fn probe_payload_is_the_cbor_of_the_entry_map() {
    // CBOR: a one-pair map (0xa1), the three-character text "key"
    // (0x63 'k' 'e' 'y'), the unsigned integer 1 (0x01).
    assert_eq!(probe_payload(), vec![0xa1, 0x63, 0x6b, 0x65, 0x79, 0x01]);
}
