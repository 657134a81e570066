use modcore::case::CaseType;
use modcore::localization::{Language, TranslationParam, TranslationRef};
use modcore::removal::parse_case_ids;
use modcore::settings::{
    parse_channel_selection, validate_warn_expire_input, warn_expire_options, ExpireOption,
    SettingsError,
};
use modcore::color::parse_hex_color;
use modcore::strings::parse_decimal;
use modcore::time::{date_after, parse_duration};
use modcore::timestamp::{u64_to_dec, Format, Timestamp, TimestampExt};

#[test]
fn durations_parse_to_seconds() {
    assert_eq!(parse_duration("13d"), Some(13 * 86400));
    assert_eq!(parse_duration("2h"), Some(7200));
    assert_eq!(parse_duration("45m"), Some(2700));
    assert_eq!(parse_duration("90s"), Some(90));
    assert_eq!(parse_duration("007m"), Some(420));
    assert_eq!(date_after(1000, parse_duration("1h").unwrap()), 4600);
}

#[test]
fn bad_durations_are_rejected() {
    assert_eq!(parse_duration(""), None);
    assert_eq!(parse_duration("d"), None);
    assert_eq!(parse_duration("13"), None);
    assert_eq!(parse_duration("13x"), None);
    assert_eq!(parse_duration("d13"), None);
    assert_eq!(parse_duration("1 d"), None);
    assert_eq!(parse_duration("-5m"), None);
    // seconds that do not fit 64 bits are invalid, not a panic
    assert_eq!(parse_duration("999999999999999999999d"), None);
    assert_eq!(parse_duration("18446744073709551615s"), Some(u64::MAX));
    assert_eq!(parse_duration("18446744073709551616s"), None);
}

#[test]
fn case_id_lists_split_on_commas() {
    assert_eq!(parse_case_ids("1,2,3"), vec![1, 2, 3]);
    assert_eq!(parse_case_ids(" 1 , 2 ,3 "), vec![1, 2, 3]);
    assert_eq!(parse_case_ids("4"), vec![4]);
    assert_eq!(parse_case_ids("1,x,3"), vec![1, 3]);
    assert_eq!(parse_case_ids(""), Vec::<u32>::new());
    assert_eq!(parse_case_ids("a,b"), Vec::<u32>::new());
    assert_eq!(parse_case_ids("1,,2"), vec![1, 2]);
    // an entry past the id range is dropped, not truncated
    assert_eq!(parse_case_ids("4294967295,4294967296"), vec![u32::MAX]);
}

#[test]
fn plain_decimals() {
    assert_eq!(parse_decimal("0"), Some(0));
    assert_eq!(parse_decimal("042"), Some(42));
    assert_eq!(parse_decimal(""), None);
    assert_eq!(parse_decimal("1.5"), None);
    assert_eq!(parse_decimal("+3"), None);
}

#[test]
fn warn_expire_inputs() {
    assert_eq!(validate_warn_expire_input("14"), Ok(14));
    assert_eq!(validate_warn_expire_input("3"), Ok(3));
    assert_eq!(validate_warn_expire_input("999"), Ok(999));
    assert_eq!(validate_warn_expire_input("2"), Err(SettingsError::TooFewDays));
    assert_eq!(validate_warn_expire_input("abc"), Err(SettingsError::InvalidNumber));
    assert_eq!(validate_warn_expire_input("1000"), Err(SettingsError::InvalidNumber));
    assert_eq!(validate_warn_expire_input(""), Err(SettingsError::InvalidNumber));
}

#[test]
fn channel_selections() {
    assert_eq!(parse_channel_selection("none"), Some(None));
    assert_eq!(parse_channel_selection("123456"), Some(Some(123456)));
    assert_eq!(parse_channel_selection("junk"), None);
}

#[test]
fn expire_menu_lists_presets_and_custom() {
    let std_menu = warn_expire_options(7);
    assert_eq!(std_menu.len(), 5);
    assert_eq!(std_menu[1], ExpireOption::Preset { days: 7, selected: true });
    assert_eq!(std_menu[0], ExpireOption::Preset { days: 3, selected: false });
    assert_eq!(std_menu[4], ExpireOption::Custom);

    let custom_menu = warn_expire_options(12);
    assert_eq!(custom_menu.len(), 6);
    assert_eq!(custom_menu[5], ExpireOption::Current { days: 12 });
}

#[test]
fn language_codes_round_trip() {
    assert_eq!(Language::English.as_str(), "en");
    assert_eq!(Language::Polish.as_str(), "pl");
    assert_eq!(Language::from_str("en"), Ok(Language::English));
    assert_eq!(Language::from_str("pl"), Ok(Language::Polish));
    assert_eq!(Language::from_str("de"), Err(()));
    assert_eq!(Language::from_str(Language::Polish.as_str()), Ok(Language::Polish));
}

#[test]
fn translation_refs_carry_their_params() {
    let tr = TranslationRef::new(
        String::from("commands.moderation.ban.reply"),
        vec![String::from("alice"), String::from("1d")],
    );
    let params = tr.to_translation_params();
    assert_eq!(params.len(), 2);
    assert!(matches!(&params[0], TranslationParam::Text(t) if t == "alice"));
    assert!(matches!(&params[1], TranslationParam::Text(t) if t == "1d"));

    assert!(matches!(TranslationParam::from_option(None), TranslationParam::Absent));
    let wrapped = TranslationParam::from_option(Some(tr.clone()));
    assert!(matches!(wrapped, TranslationParam::Ref(inner) if inner.key == tr.key));
}

#[test]
fn case_type_codes_round_trip() {
    for t in [CaseType::Ban, CaseType::Kick, CaseType::Mute, CaseType::Warn] {
        assert_eq!(CaseType::from_code(t.code()), Some(t));
    }
    assert_eq!(CaseType::Ban.code(), "BAN");
    assert_eq!(CaseType::from_code("ban"), None);
    assert_eq!(CaseType::from_code(""), None);
}

#[test]
fn hex_colors() {
    assert_eq!(parse_hex_color("#5848CE"), Some((0x58, 0x48, 0xCE)));
    assert_eq!(parse_hex_color("5848ce"), Some((0x58, 0x48, 0xCE)));
    assert_eq!(parse_hex_color("##ffffff"), Some((255, 255, 255)));
    assert_eq!(parse_hex_color("#fff"), None);
    assert_eq!(parse_hex_color("#gggggg"), None);
    assert_eq!(parse_hex_color(""), None);
}

#[test]
fn decimal_rendering() {
    assert_eq!(u64_to_dec(0), "0");
    assert_eq!(u64_to_dec(7), "7");
    assert_eq!(u64_to_dec(1234567890), "1234567890");
    assert_eq!(u64_to_dec(u64::MAX), "18446744073709551615");
}

#[test]
fn discord_timestamps() {
    let ts = Timestamp { secs: 1725029869 };
    assert_eq!(ts.to_discord_timestamp(Format::LongDateShortTime), "<t:1725029869:f>");
    assert_eq!(ts.to_discord_timestamp(Format::Relative), "<t:1725029869:R>");
    assert_eq!(Format::ShortTime.code(), "t");
    assert_eq!(Format::LongDateDayAndShortTime.code(), "F");
}
