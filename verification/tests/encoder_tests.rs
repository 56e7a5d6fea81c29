use flapit_server::codec::Message;
use flapit_server::flaps::flaps_from_string;

#[test]
fn blast_hello_world_selects_lead_and_glyphs() {
    // Lead "BLAST" is entry 1 of the lead table; the body "HELLO WORLD"
    // tokenizes to H E L L O W (the space matches nothing) and is capped
    // at six glyphs.
    let p = flaps_from_string(&"BLAST HELLO WORLD".to_string());
    assert_eq!(p, vec![0, 0, 0, 11, 0, 0, 0, 2, 1, 11, 8, 16, 16, 20, 29]);
}

#[test]
fn no_space_defaults_to_blank_lead() {
    // Without a space the lead defaults to "blank" (entry 0) and the whole
    // text is the body: X Y Z.
    let p = flaps_from_string(&"xyz".to_string());
    assert_eq!(p, vec![0, 0, 0, 11, 0, 0, 0, 2, 0, 30, 33, 32, 0, 0, 0]);
}

#[test]
fn longest_match_beats_single_characters() {
    // "HEART" (entry 34) must win over its one-character prefixes H, E, ...
    let p = flaps_from_string(&"x HEART".to_string());
    assert_eq!(p, vec![0, 0, 0, 11, 0, 0, 0, 2, 0, 34, 0, 0, 0, 0, 0]);
}

#[test]
fn longest_match_beats_prefix_entry() {
    // "BLANK2" (entry 56) must win over its prefix "BLANK" (entry 0).
    let p = flaps_from_string(&"x BLANK2".to_string());
    assert_eq!(p, vec![0, 0, 0, 11, 0, 0, 0, 2, 0, 56, 0, 0, 0, 0, 0]);
}

#[test]
fn unknown_lead_uses_blank() {
    let p = flaps_from_string(&"NOSUCH A".to_string());
    assert_eq!(p[8], 0);
    assert_eq!(p[9], 3);
}

#[test]
fn empty_text_yields_template() {
    let p = flaps_from_string(&"".to_string());
    assert_eq!(p, vec![0, 0, 0, 11, 0, 0, 0, 2, 0, 0, 0, 0, 0, 0, 0]);
}

#[test]
fn set_counter_value_encodes_as_flap_payload() {
    let m = Message::SetCounterValue("BLAST HI".to_string());
    assert_eq!(m.encode(), flaps_from_string(&"BLAST HI".to_string()));
}

#[test]
fn lowercase_is_folded() {
    let upper = flaps_from_string(&"BLAST HELLO".to_string());
    let lower = flaps_from_string(&"blast hello".to_string());
    assert_eq!(upper, lower);
}
