use cart::triplet::{TargetTriplet, TripletError};

#[test]
fn parse_three_part_triplet() {
    let t = TargetTriplet::parse("rp2A03-nintendo-nes").expect("parse");
    assert_eq!(t.cpu, "rp2A03");
    assert_eq!(t.manufacturer, "nintendo");
    assert_eq!(t.machine, "nes");
    assert_eq!(t.variant, "");
}

#[test]
fn parse_four_part_triplet() {
    let t = TargetTriplet::parse("rp2A03-nintendo-nes-ntsc").expect("parse");
    assert_eq!(t.cpu, "rp2A03");
    assert_eq!(t.manufacturer, "nintendo");
    assert_eq!(t.machine, "nes");
    assert_eq!(t.variant, "ntsc");
}

#[test]
fn parse_malformed_triplet() {
    let err = TargetTriplet::parse("bad").unwrap_err();
    assert!(matches!(err, TripletError::Malformed(_)));
}

#[test]
fn parse_two_part_triplet_fails() {
    let err = TargetTriplet::parse("cpu-vendor").unwrap_err();
    assert!(matches!(err, TripletError::Malformed(_)));
}

#[test]
fn as_str_roundtrip() {
    let t = TargetTriplet::parse("z80-sega-genesis").expect("parse");
    assert_eq!(t.as_str(), "z80-sega-genesis");
}

#[test]
fn as_str_with_variant() {
    let t = TargetTriplet::parse("mos6502-atari-800-ntsc").expect("parse");
    assert_eq!(t.as_str(), "mos6502-atari-800-ntsc");
}

#[test]
fn display_trait() {
    let t = TargetTriplet::parse("rp2A03-nintendo-nes-ntsc").expect("parse");
    assert_eq!(t.as_str(), "rp2A03-nintendo-nes-ntsc");
}

#[test]
fn parse_rejects_empty_component() {
    for bad in ["rp2A03--nes", "-nintendo-nes", "a-b-c-", "a-b-c-d-e", ""] {
        match TargetTriplet::parse(bad) {
            Err(TripletError::Malformed(text)) => assert_eq!(text, bad),
            _ => panic!("expected Malformed for {bad:?}"),
        }
    }
}

#[test]
fn print_then_parse_gives_the_triplet_back() {
    let t = TargetTriplet::parse("wdc65c816-nintendo-snes").expect("parse");
    let again = TargetTriplet::parse(&t.as_str()).expect("reparse");
    assert_eq!(again.cpu, "wdc65c816");
    assert_eq!(again.manufacturer, "nintendo");
    assert_eq!(again.machine, "snes");
    assert_eq!(again.variant, "");
}

#[test]
fn machine_name_is_third_component() {
    assert_eq!(cart::triplet::machine_name("rp2A03-nintendo-nes-ntsc"), "nes");
    assert_eq!(cart::triplet::machine_name("cpu-vendor"), "");
}
