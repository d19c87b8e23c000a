use rail_extract::maxspeed::{parse_maxspeed, try_parse_maxspeed, MaxSpeed, SpeedUnit};

#[test]
fn empty_text_sets_no_limit() {
    assert!(matches!(try_parse_maxspeed(""), Some(MaxSpeed::NoLimit)));
    assert!(matches!(try_parse_maxspeed("   \t"), Some(MaxSpeed::NoLimit)));
}

#[test]
fn the_word_none_sets_no_limit() {
    assert!(matches!(try_parse_maxspeed("none"), Some(MaxSpeed::NoLimit)));
    assert!(matches!(try_parse_maxspeed("  none\n"), Some(MaxSpeed::NoLimit)));
}

#[test]
fn plain_number_is_kilometres_per_hour() {
    assert!(matches!(
        try_parse_maxspeed("120"),
        Some(MaxSpeed::Single(SpeedUnit::KilometersPerHour, 120))
    ));
    assert!(matches!(
        try_parse_maxspeed(" 80 "),
        Some(MaxSpeed::Single(SpeedUnit::KilometersPerHour, 80))
    ));
}

#[test]
fn a_plus_sign_and_leading_zeros_are_read() {
    assert!(matches!(
        try_parse_maxspeed("+60"),
        Some(MaxSpeed::Single(SpeedUnit::KilometersPerHour, 60))
    ));
    assert!(matches!(
        try_parse_maxspeed("007"),
        Some(MaxSpeed::Single(SpeedUnit::KilometersPerHour, 7))
    ));
}

#[test]
fn the_largest_number_is_read_and_the_next_is_not() {
    assert!(matches!(
        try_parse_maxspeed("4294967295"),
        Some(MaxSpeed::Single(SpeedUnit::KilometersPerHour, 4294967295))
    ));
    assert!(try_parse_maxspeed("4294967296").is_none());
    assert!(try_parse_maxspeed("99999999999999999999999").is_none());
}

#[test]
fn parse_maxspeed_reads_miles_per_hour() {
    assert!(matches!(
        parse_maxspeed(" 50mph "),
        MaxSpeed::Single(SpeedUnit::MilesPerHour, 50)
    ));
}

#[test]
fn every_mph_is_taken_out_before_the_number_is_read() {
    assert!(matches!(
        try_parse_maxspeed("mph30mph"),
        Some(MaxSpeed::Single(SpeedUnit::MilesPerHour, 30))
    ));
    assert!(matches!(
        try_parse_maxspeed("3mph0mph"),
        Some(MaxSpeed::Single(SpeedUnit::MilesPerHour, 30))
    ));
}

#[test]
fn a_space_before_mph_has_no_meaning() {
    assert!(try_parse_maxspeed("50 mph").is_none());
}

#[test]
fn mph_alone_has_no_meaning() {
    assert!(try_parse_maxspeed("mph").is_none());
}

#[test]
fn other_texts_have_no_meaning() {
    assert!(try_parse_maxspeed("fast").is_none());
    assert!(try_parse_maxspeed("-5").is_none());
    assert!(try_parse_maxspeed("+").is_none());
    assert!(try_parse_maxspeed("50;60").is_none());
    assert!(try_parse_maxspeed("5 0").is_none());
    assert!(try_parse_maxspeed("50mphx").is_none());
}

#[test]
fn parse_maxspeed_agrees_with_try_parse_maxspeed() {
    assert!(matches!(parse_maxspeed("none"), MaxSpeed::NoLimit));
    assert!(matches!(
        parse_maxspeed("160"),
        MaxSpeed::Single(SpeedUnit::KilometersPerHour, 160)
    ));
}
