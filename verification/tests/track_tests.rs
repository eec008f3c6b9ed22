use guestbook::track::parse_card_data;

#[test]
fn parse_valid_track() {
    let data = "%B1234567   ^DOE/JOHN^1234567890123456?";
    let card = parse_card_data(data).expect("Should parse");
    assert_eq!(card.onecard, "1234567");
    assert_eq!(card.name, "DOE/JOHN");
}

#[test]
fn parse_invalid_track() {
    let data = "%B12^BAD^";
    assert!(parse_card_data(data).is_none());
}

#[test]
fn decode_takes_last_qualifying_run() {
    // two qualifying runs; the later one is the real identifier
    let data = "%1234567   ^AB^7654321   ?";
    let card = parse_card_data(data).expect("Should parse");
    assert_eq!(card.onecard, "7654321");
    assert_eq!(card.name, "AB");
}

#[test]
fn decode_ignores_text_after_end_sentinel() {
    // the only qualifying run before the sentinel wins; the one after is discarded
    let data = "%B1111111   ^NAME^?2222222   ";
    let card = parse_card_data(data).expect("Should parse");
    assert_eq!(card.onecard, "1111111");
}

#[test]
fn decode_requires_field_separator() {
    // a qualifying run alone is not a card: no separator, no name
    assert!(parse_card_data("9999999   ").is_none());
}

#[test]
fn decode_requires_three_spaces_after_run() {
    // only two spaces of padding: the run does not qualify
    assert!(parse_card_data("%B1234567  ^DOE/JOHN^?").is_none());
}

#[test]
fn decode_trims_frame_and_name() {
    let data = "   %B1234567   ^ DOE/JOHN ^999?   ";
    let card = parse_card_data(data).expect("Should parse");
    assert_eq!(card.onecard, "1234567");
    assert_eq!(card.name, "DOE/JOHN");
}

#[test]
fn decode_empty_frame_is_none() {
    assert!(parse_card_data("").is_none());
}
