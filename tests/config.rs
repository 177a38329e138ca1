use gpio_utils::config::{
    bool_true, default_direction, DirectionDef as D, Error, GpioConfig, PinConfig,
    DEFAULT_SYMLINK_ROOT,
};
use gpio_utils::decimal::parse_u64;
use gpio_utils::decode::ConfigField;
use gpio_utils::toml_doc::{TomlEntry, TomlValue};
use std::collections::BTreeSet;
use std::iter::FromIterator;

const BASIC_CFG: &'static str = r#"
[[pins]]
num = 73
names = ["reset_button"]
direction = "in"   # default: in
active_low = true  # default: false
export = true      # default: true

[[pins]]
num = 37
names = ["status_led", "A27", "green_led"]
direction = "out"
"#;

const COMPACT_CFG: &'static str = r#"
pins = [
   { num = 73, names = ["reset_button"], direction = "in", active_low = true, export = true},
   { num = 37, names = ["status_led", "A27", "green_led"], direction = "out"},
]

[config]
symlink_root = "/tmp/gpio"
"#;

const MISSING_PINNUM_CFG: &'static str = r#"
[[pins]]
export = true
"#;

const DUPLICATED_NAMES_CFG: &'static str = r#"
[[pins]]
num = 25
names = ["foo", "bar"]

[[pins]]
num = 26
names = ["baz", "foo"]  # foo is repeated!
"#;

const PARTIALLY_OVERLAPS_BASIC_CFG: &'static str = r#"
[config]
symlink_root = "/foo/bar/baz"

# Add a new alias to pin 73
[[pins]]
num = 73
names = ["new_name"]


# Change pin 37 to be an input (not output)
[[pins]]
num = 37
direction = "in"

# New pin 88
[[pins]]
num = 88
names = ["wildcard"]
"#;

fn name_set(pin: &PinConfig) -> BTreeSet<String> {
    BTreeSet::from_iter(pin.names.iter().cloned())
}

fn set_of(names: &[&str]) -> BTreeSet<String> {
    BTreeSet::from_iter(names.iter().map(|n| String::from(*n)))
}

#[test]
fn test_parse_basic() {
    let config = GpioConfig::from_str(BASIC_CFG).unwrap();
    let status_led = config.pins.get(1).unwrap();
    let names = BTreeSet::from_iter(vec![
        String::from("status_led"),
        String::from("A27"),
        String::from("green_led"),
    ]);

    assert_eq!(config.get_symlink_root(), "/var/run/gpio");

    let reset_button = config.pins.get(0).unwrap();
    assert_eq!(reset_button.num, 73);
    assert_eq!(
        name_set(reset_button),
        BTreeSet::from_iter(vec![String::from("reset_button")])
    );
    assert_eq!(reset_button.direction, D::In);
    assert_eq!(reset_button.active_low, true);
    assert_eq!(reset_button.export, true);

    assert_eq!(name_set(status_led), names);
    assert_eq!(status_led.direction, D::Out);
    assert_eq!(status_led.active_low, false);
    assert_eq!(status_led.export, true);
}

#[test]
fn test_get_pin_present() {
    let config = GpioConfig::from_str(BASIC_CFG).unwrap();
    let status_led = config.get_pin("status_led").unwrap();
    assert_eq!(status_led.num, 37);
}

#[test]
fn test_get_pin_not_present() {
    let config = GpioConfig::from_str(BASIC_CFG).unwrap();
    assert_eq!(config.get_pin("missing"), None);
}

#[test]
fn test_get_pin_by_number() {
    let config = GpioConfig::from_str(BASIC_CFG).unwrap();
    let status_led = config.get_pin("37").unwrap();
    assert_eq!(status_led.num, 37);
}

#[test]
fn test_get_pin_by_number_not_found() {
    let config = GpioConfig::from_str(BASIC_CFG).unwrap();
    assert_eq!(config.get_pin("64"), None);
}

#[test]
fn test_parser_compact() {
    let config = GpioConfig::from_str(COMPACT_CFG).unwrap();
    let status_led = config.pins.get(1).unwrap();
    let names = BTreeSet::from_iter(vec![
        String::from("status_led"),
        String::from("A27"),
        String::from("green_led"),
    ]);
    assert_eq!(name_set(status_led), names);
    assert_eq!(status_led.direction, D::Out);
    assert_eq!(status_led.active_low, false);
    assert_eq!(status_led.export, true);
    assert_eq!(config.get_symlink_root(), "/tmp/gpio")
}

#[test]
fn test_parser_empty_toml() {
    let configstr = "";
    match GpioConfig::from_str(configstr) {
        Ok(pins) => assert_eq!(pins.pins, vec![]),
        Err(Error::ParserErrors(_)) => {}
        _ => panic!("Expected a parsing error"),
    }
}

#[test]
fn test_parser_missing_pinnum() {
    match GpioConfig::from_str(MISSING_PINNUM_CFG) {
        Err(Error::DecodingError(_)) => {}
        _ => panic!("Expected a parsing error"),
    }
}

#[test]
fn test_parse_error_bad_toml() {
    // basically, just garbage data
    let configstr = r"[] -*-..asdf=-=-@#$%^&*()";
    match GpioConfig::from_str(configstr) {
        Err(Error::ParserErrors(_)) => {}
        _ => panic!("Did not receive parse error when expected"),
    }
}

#[test]
fn test_error_on_duplicated_names() {
    match GpioConfig::from_str(DUPLICATED_NAMES_CFG) {
        Err(Error::DuplicateNames(_)) => (),
        r => panic!("Expected DuplicateNames Error, got {:?}", r),
    }
}

#[test]
fn test_merge_configs() {
    let mut config = GpioConfig::from_str(BASIC_CFG).unwrap();
    let cfg2 = GpioConfig::from_str(PARTIALLY_OVERLAPS_BASIC_CFG).unwrap();

    // perform the merge
    config.update(cfg2).unwrap();

    assert_eq!(config.get_symlink_root(), "/foo/bar/baz");

    let reset_button = config.pins.get(0).unwrap();
    assert_eq!(reset_button.num, 73);
    assert_eq!(
        name_set(reset_button),
        BTreeSet::from_iter(vec![String::from("reset_button"), String::from("new_name")])
    );
    assert_eq!(reset_button.direction, D::In);
    assert_eq!(reset_button.active_low, false);
    assert_eq!(reset_button.export, true);

    let status_led = config.pins.get(1).unwrap();
    let names = BTreeSet::from_iter(vec![
        String::from("status_led"),
        String::from("A27"),
        String::from("green_led"),
    ]);
    assert_eq!(name_set(status_led), names);
    assert_eq!(status_led.direction, D::In);
    assert_eq!(status_led.active_low, false);
    assert_eq!(status_led.export, true);

    let wildcard = config.pins.get(2).unwrap();
    assert_eq!(wildcard.num, 88);
    assert_eq!(
        name_set(wildcard),
        BTreeSet::from_iter(vec![String::from("wildcard")])
    );
}

#[test]
fn empty_text_is_an_empty_configuration() {
    let config = GpioConfig::from_str("").unwrap();
    assert!(config.pins.is_empty());
    assert_eq!(config.config.symlink_root, None);
    assert_eq!(config.get_symlink_root(), DEFAULT_SYMLINK_ROOT);
}

#[test]
fn omitted_fields_take_their_defaults() {
    let config = GpioConfig::from_str("[[pins]]\nnum = 5\n").unwrap();
    let pin = &config.pins[0];
    assert_eq!(pin.num, 5);
    assert_eq!(pin.direction, D::In);
    assert!(pin.export);
    assert!(!pin.active_low);
    assert!(pin.names.is_empty());
    assert_eq!(pin.user, None);
    assert_eq!(pin.group, None);
    assert_eq!(pin.mode, None);
    assert_eq!(default_direction(), D::In);
    assert!(bool_true());
}

#[test]
fn all_fields_are_read() {
    let text = "[[pins]]\nnum = 9\nnames = [\"a\", \"b\", \"a\"]\ndirection = \"high\"\nexport = false\nactive_low = true\nuser = \"gpio\"\ngroup = \"dialout\"\nmode = 432\n";
    let config = GpioConfig::from_str(text).unwrap();
    let pin = &config.pins[0];
    assert_eq!(pin.direction, D::High);
    assert_eq!(pin.names.len(), 2);
    assert_eq!(name_set(pin), set_of(&["a", "b"]));
    assert!(!pin.export);
    assert!(pin.active_low);
    assert_eq!(pin.user.as_deref(), Some("gpio"));
    assert_eq!(pin.group.as_deref(), Some("dialout"));
    assert_eq!(pin.mode, Some(432));
    let low = GpioConfig::from_str("[[pins]]\nnum = 1\ndirection = \"low\"\n").unwrap();
    assert_eq!(low.pins[0].direction, D::Low);
}

fn decoding_error(text: &str) -> ConfigField {
    match GpioConfig::from_str(text) {
        Err(Error::DecodingError(f)) => f,
        r => panic!("expected a decoding error, got {:?}", r),
    }
}

#[test]
fn each_bad_field_is_reported() {
    assert_eq!(decoding_error("[[pins]]\nnum = -1\n"), ConfigField::Num);
    assert_eq!(decoding_error("[[pins]]\nnum = \"3\"\n"), ConfigField::Num);
    assert_eq!(decoding_error("[[pins]]\nnum = 3\ndirection = \"up\"\n"), ConfigField::Direction);
    assert_eq!(decoding_error("[[pins]]\nnum = 3\nnames = [1]\n"), ConfigField::Names);
    assert_eq!(decoding_error("[[pins]]\nnum = 3\nexport = 1\n"), ConfigField::Export);
    assert_eq!(decoding_error("[[pins]]\nnum = 3\nactive_low = \"no\"\n"), ConfigField::ActiveLow);
    assert_eq!(decoding_error("[[pins]]\nnum = 3\nuser = 0\n"), ConfigField::User);
    assert_eq!(decoding_error("[[pins]]\nnum = 3\ngroup = 0\n"), ConfigField::Group);
    assert_eq!(decoding_error("[[pins]]\nnum = 3\nmode = 4294967296\n"), ConfigField::Mode);
    assert_eq!(decoding_error("pins = 3\n"), ConfigField::Pins);
    assert_eq!(decoding_error("pins = [3]\n"), ConfigField::Pins);
    assert_eq!(decoding_error("config = 3\n"), ConfigField::Config);
    assert_eq!(decoding_error("[config]\nsymlink_root = 3\n"), ConfigField::SymlinkRoot);
}

#[test]
fn largest_mode_and_number_are_accepted() {
    let config =
        GpioConfig::from_str("[[pins]]\nnum = 9223372036854775807\nmode = 4294967295\n").unwrap();
    assert_eq!(config.pins[0].num, 9223372036854775807);
    assert_eq!(config.pins[0].mode, Some(4294967295));
}

#[test]
fn duplicate_report_names_both_pins_and_the_name() {
    match GpioConfig::from_str(DUPLICATED_NAMES_CFG) {
        Err(Error::DuplicateNames(d)) => {
            assert_eq!(d.name, "foo");
            assert_eq!(d.pin, 26);
            assert_eq!(d.other_pin, 25);
        }
        r => panic!("Expected DuplicateNames Error, got {:?}", r),
    }
}

#[test]
fn merging_disjoint_fragments_appends_in_order() {
    let mut base = GpioConfig::from_str("[[pins]]\nnum = 3\n[[pins]]\nnum = 1\n").unwrap();
    let overlay = GpioConfig::from_str("[[pins]]\nnum = 7\n[[pins]]\nnum = 2\n").unwrap();
    base.update(overlay).unwrap();
    let nums: Vec<u64> = base.get_pins().iter().map(|p| p.num).collect();
    assert_eq!(nums, vec![3, 1, 7, 2]);
    assert_eq!(base.get_symlink_root(), "/var/run/gpio");
}

#[test]
fn merging_a_shared_pin_unites_names_and_takes_overlay_flags() {
    let mut a = GpioConfig::from_str(
        "[[pins]]\nnum = 73\nnames = [\"reset\"]\nactive_low = true\nuser = \"root\"\n",
    )
    .unwrap();
    let b = GpioConfig::from_str("[[pins]]\nnum = 73\nnames = [\"new_name\"]\n").unwrap();
    a.update(b).unwrap();
    assert_eq!(a.pins.len(), 1);
    let pin = &a.pins[0];
    assert_eq!(name_set(pin), set_of(&["reset", "new_name"]));
    assert!(!pin.active_low);
    assert!(pin.export);
    assert_eq!(pin.direction, D::In);
    assert_eq!(pin.user.as_deref(), Some("root"));
}

#[test]
fn merging_ownership_overrides_only_what_is_given() {
    let mut a = GpioConfig::from_str("[[pins]]\nnum = 4\nuser = \"a\"\ngroup = \"g\"\nmode = 420\n")
        .unwrap();
    let b = GpioConfig::from_str("[[pins]]\nnum = 4\nuser = \"b\"\n").unwrap();
    a.update(b).unwrap();
    assert_eq!(a.pins[0].user.as_deref(), Some("b"));
    assert_eq!(a.pins[0].group.as_deref(), Some("g"));
    assert_eq!(a.pins[0].mode, Some(420));
}

#[test]
fn merge_that_shares_a_name_fails() {
    let mut a = GpioConfig::from_str("[[pins]]\nnum = 1\nnames = [\"led\"]\n").unwrap();
    let b = GpioConfig::from_str("[[pins]]\nnum = 2\nnames = [\"led\"]\n").unwrap();
    match a.update(b) {
        Err(Error::DuplicateNames(d)) => {
            assert_eq!(d.name, "led");
            assert_eq!(d.pin, 2);
            assert_eq!(d.other_pin, 1);
        }
        r => panic!("Expected DuplicateNames Error, got {:?}", r),
    }
}

#[test]
fn combine_without_fragments_finds_no_config() {
    assert!(matches!(GpioConfig::combine(Vec::new()), Err(Error::NoConfigFound)));
}

#[test]
fn combine_lays_fragments_in_order() {
    let frags = vec![
        GpioConfig::from_str(BASIC_CFG).unwrap(),
        GpioConfig::from_str(PARTIALLY_OVERLAPS_BASIC_CFG).unwrap(),
        GpioConfig::from_str("[config]\nsymlink_root = \"/run/x\"\n[[pins]]\nnum = 37\ndirection = \"low\"\n").unwrap(),
    ];
    let config = GpioConfig::combine(frags).unwrap();
    assert_eq!(config.get_symlink_root(), "/run/x");
    let nums: Vec<u64> = config.pins.iter().map(|p| p.num).collect();
    assert_eq!(nums, vec![73, 37, 88]);
    assert_eq!(config.pins[1].direction, D::Low);
    assert_eq!(name_set(&config.pins[0]), set_of(&["reset_button", "new_name"]));
}

#[test]
fn combine_stops_at_a_shared_name() {
    let frags = vec![
        GpioConfig::from_str("[[pins]]\nnum = 1\nnames = [\"x\"]\n").unwrap(),
        GpioConfig::from_str("[[pins]]\nnum = 2\nnames = [\"x\"]\n").unwrap(),
        GpioConfig::from_str("[[pins]]\nnum = 3\n").unwrap(),
    ];
    match GpioConfig::combine(frags) {
        Err(Error::DuplicateNames(d)) => {
            assert_eq!((d.pin, d.other_pin), (2, 1));
        }
        r => panic!("Expected DuplicateNames Error, got {:?}", r),
    }
}

#[test]
fn name_match_wins_over_number() {
    let config = GpioConfig::from_str(
        "[[pins]]\nnum = 5\nnames = [\"37\"]\n[[pins]]\nnum = 37\nnames = [\"x\"]\n",
    )
    .unwrap();
    assert_eq!(config.get_pin("37").unwrap().num, 5);
    assert_eq!(config.get_pin("x").unwrap().num, 37);
    assert_eq!(config.get_pin("+37").unwrap().num, 37);
    assert_eq!(config.get_pin("037").unwrap().num, 37);
    assert_eq!(config.get_pin("-37"), None);
    assert_eq!(config.get_pin(""), None);
}

#[test]
fn decimal_parse_follows_u64_from_str() {
    assert_eq!(parse_u64("0"), Some(0));
    assert_eq!(parse_u64("+12"), Some(12));
    assert_eq!(parse_u64("18446744073709551615"), Some(u64::MAX));
    assert_eq!(parse_u64("18446744073709551616"), None);
    assert_eq!(parse_u64("99999999999999999999x"), None);
    assert_eq!(parse_u64(""), None);
    assert_eq!(parse_u64("+"), None);
    assert_eq!(parse_u64("-1"), None);
    assert_eq!(parse_u64("1 "), None);
    for s in ["7", "123", "+0", "4096"] {
        assert_eq!(parse_u64(s), s.parse::<u64>().ok());
    }
}

#[test]
fn only_pins_marked_for_export_are_unexported_in_bulk() {
    let config = GpioConfig::from_str(
        "[[pins]]\nnum = 1\n[[pins]]\nnum = 2\nexport = false\n[[pins]]\nnum = 3\n",
    )
    .unwrap();
    let nums: Vec<u64> = config.pins_to_unexport().iter().map(|p| p.num).collect();
    assert_eq!(nums, vec![1, 3]);
    assert_eq!(config.get_pins().len(), 3);
}

#[test]
fn validate_accepts_distinct_names() {
    let config = GpioConfig::from_str(BASIC_CFG).unwrap();
    assert!(config.validate().is_ok());
    let copy = config.pins[1].duplicate();
    assert_eq!(copy, config.pins[1]);
}

#[test]
fn driver_handle_carries_the_pin_number() {
    let config = GpioConfig::from_str(BASIC_CFG).unwrap();
    assert_eq!(config.pins[1].get_pin().get_pin_num(), 37);
}

#[test]
fn document_trees_are_read_without_the_parser() {
    let entry = |key: &str, value: TomlValue| TomlEntry { key: String::from(key), value };
    let pin = TomlValue::Table(vec![
        entry("num", TomlValue::Integer(12)),
        entry("names", TomlValue::Array(vec![TomlValue::Str(String::from("fan"))])),
        entry("direction", TomlValue::Str(String::from("out"))),
    ]);
    let doc = TomlValue::Table(vec![
        entry("config", TomlValue::Table(vec![entry("symlink_root", TomlValue::Str(String::from("/srv")))])),
        entry("pins", TomlValue::Array(vec![pin])),
    ]);
    let config = GpioConfig::from_document(&doc).unwrap();
    assert_eq!(config.pins.len(), 1);
    assert_eq!(config.pins[0].num, 12);
    assert_eq!(config.pins[0].direction, D::Out);
    assert_eq!(config.pins[0].names, vec![String::from("fan")]);
    assert_eq!(config.get_symlink_root(), "/srv");

    let float_num = TomlValue::Table(vec![entry(
        "pins",
        TomlValue::Array(vec![TomlValue::Table(vec![entry("num", TomlValue::Other)])]),
    )]);
    assert!(matches!(
        GpioConfig::from_document(&float_num),
        Err(Error::DecodingError(ConfigField::Num))
    ));
    assert!(matches!(
        GpioConfig::from_document(&TomlValue::Integer(1)),
        Err(Error::DecodingError(ConfigField::Pins))
    ));
}
