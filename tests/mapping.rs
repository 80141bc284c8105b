use serde_json_helpers::enum_string::{enum_string_mapping, EnumStringError};
use serde_json_helpers::guard::{guard_against_serde_derives, is_derive_attr, EnumAttr, SetupError};
use serde_json_helpers::mapping::{quote, quote_list, render_variant, DuplicateRendering, EnumMapping};
use serde_json_helpers::options::{AttrParam, ConfigError, EnumStringOptions};
use serde_json_helpers::string_transform::StringTransform;

fn strings(v: &[&str]) -> Vec<String> {
    v.iter().map(|s| s.to_string()).collect()
}

fn test_enum(options: EnumStringOptions) -> EnumMapping {
    EnumMapping::build("TestEnum", &strings(&["Variant", "ExampleVariant", "Example2"]), &options)
        .unwrap()
}

fn styled(t: Option<StringTransform>, prepend_enum_name: bool) -> EnumStringOptions {
    EnumStringOptions { transform: t, prepend_enum_name }
}

fn table(m: &EnumMapping) -> Vec<String> {
    (0..m.len()).map(|i| m.serialize(i)).collect()
}

#[test]
fn round_trip_under_every_configuration() {
    let styles = [
        None,
        Some(StringTransform::Lowercase),
        Some(StringTransform::Uppercase),
        Some(StringTransform::PascalCase),
        Some(StringTransform::CamelCase),
        Some(StringTransform::SnakeCase),
        Some(StringTransform::ScreamingSnakeCase),
        Some(StringTransform::KebabCase),
        Some(StringTransform::ScreamingKebabCase),
    ];
    for t in styles {
        for prepend in [false, true] {
            let m = test_enum(styled(t, prepend));
            for v in 0..m.len() {
                assert_eq!(m.deserialize(&m.serialize(v)), Ok(v));
            }
        }
    }
}

#[test]
fn reverse_index_inverts_the_table() {
    let m = test_enum(styled(Some(StringTransform::SnakeCase), false));
    assert_eq!(m.deserialize("variant"), Ok(0));
    assert_eq!(m.deserialize("example_variant"), Ok(1));
    assert_eq!(m.deserialize("example2"), Ok(2));
    assert!(m.deserialize("Variant").is_err());
    assert_eq!(m.variant_name(1), "ExampleVariant");
}

#[test]
fn no_configuration_keeps_names() {
    let m = test_enum(EnumStringOptions::default());
    assert_eq!(table(&m), strings(&["Variant", "ExampleVariant", "Example2"]));
}

#[test]
fn snake_case_scenario() {
    let m = test_enum(styled(Some(StringTransform::SnakeCase), false));
    assert_eq!(table(&m), strings(&["variant", "example_variant", "example2"]));
}

#[test]
fn screaming_snake_case_scenario() {
    let m = test_enum(styled(Some(StringTransform::ScreamingSnakeCase), false));
    assert_eq!(table(&m), strings(&["VARIANT", "EXAMPLE_VARIANT", "EXAMPLE2"]));
}

#[test]
fn prepend_happens_before_transform() {
    let o = styled(Some(StringTransform::SnakeCase), true);
    assert_eq!(render_variant("TestEnum", "ExampleVariant", &o), "test_enum_example_variant");
}

#[test]
fn prepended_kebab_case_scenario() {
    let m = test_enum(styled(Some(StringTransform::KebabCase), true));
    assert_eq!(m.serialize(2), "test-enum-example2");
}

#[test]
fn unknown_input_lists_every_valid_string() {
    let m = test_enum(EnumStringOptions::default());
    let e = m.deserialize("not_a_real_value").unwrap_err();
    assert_eq!(e.input, "not_a_real_value");
    assert_eq!(e.expected, strings(&["Variant", "ExampleVariant", "Example2"]));
    assert_eq!(
        e.message(),
        "invalid value: string \"not_a_real_value\", expected one of: \"Variant\", \"ExampleVariant\", \"Example2\""
    );
}

#[test]
fn bad_value_on_a_configured_mapping() {
    let m = test_enum(styled(Some(StringTransform::KebabCase), true));
    let e = m.deserialize("bad_value").unwrap_err();
    assert_eq!(
        e.expected,
        strings(&["test-enum-variant", "test-enum-example-variant", "test-enum-example2"])
    );
    assert_eq!(
        m.expecting(),
        "\"test-enum-variant\", \"test-enum-example-variant\", \"test-enum-example2\""
    );
}

#[test]
fn quoting() {
    assert_eq!(quote("a"), "\"a\"");
    assert_eq!(quote(""), "\"\"");
    assert_eq!(quote_list(&strings(&[])), "");
    assert_eq!(quote_list(&strings(&["x"])), "\"x\"");
    assert_eq!(quote_list(&strings(&["x", "y"])), "\"x\", \"y\"");
}

#[test]
fn duplicate_rendering_is_refused() {
    let o = styled(Some(StringTransform::Lowercase), false);
    let r = EnumMapping::build("E", &strings(&["One", "Ab", "AB"]), &o);
    assert_eq!(
        r.err(),
        Some(DuplicateRendering { first: 1, second: 2, rendered: "ab".to_string() })
    );
}

#[test]
fn empty_enumeration() {
    let m = EnumMapping::build("E", &Vec::new(), &EnumStringOptions::default()).unwrap();
    assert_eq!(m.len(), 0);
    assert_eq!(m.expecting(), "");
    assert_eq!(m.deserialize("x").unwrap_err().message(), "invalid value: string \"x\", expected one of: ");
}

#[test]
fn options_from_params() {
    let params = vec![
        AttrParam::NameValue("transform".to_string(), Some("camelCase".to_string())),
        AttrParam::Word("prepend_enum_name".to_string()),
    ];
    assert_eq!(
        EnumStringOptions::from_attr_params(&params),
        Ok(EnumStringOptions { transform: Some(StringTransform::CamelCase), prepend_enum_name: true })
    );
    assert_eq!(EnumStringOptions::from_attr_params(&Vec::new()), Ok(EnumStringOptions::default()));
    let later_wins = vec![
        AttrParam::NameValue("transform".to_string(), Some("camelCase".to_string())),
        AttrParam::NameValue("transform".to_string(), Some("kebab-case".to_string())),
    ];
    assert_eq!(
        EnumStringOptions::from_attr_params(&later_wins).unwrap().transform,
        Some(StringTransform::KebabCase)
    );
}

#[test]
fn option_errors() {
    let one = |p: AttrParam| EnumStringOptions::from_attr_params(&vec![p]);
    assert_eq!(
        one(AttrParam::NameValue("transform".to_string(), Some("snake".to_string()))),
        Err(ConfigError::InvalidTransform("snake".to_string()))
    );
    assert_eq!(
        one(AttrParam::NameValue("transform".to_string(), None)),
        Err(ConfigError::TransformNotString)
    );
    assert_eq!(
        one(AttrParam::NameValue("rename".to_string(), Some("x".to_string()))),
        Err(ConfigError::UnknownKey("rename".to_string()))
    );
    assert_eq!(
        one(AttrParam::Word("prepend".to_string())),
        Err(ConfigError::UnknownKeyword("prepend".to_string()))
    );
    assert_eq!(
        one(AttrParam::Other("\"x\"".to_string())),
        Err(ConfigError::UnknownSyntax("\"x\"".to_string()))
    );
    let first_error_wins = vec![
        AttrParam::Word("a".to_string()),
        AttrParam::Word("b".to_string()),
    ];
    assert_eq!(
        EnumStringOptions::from_attr_params(&first_error_wins),
        Err(ConfigError::UnknownKeyword("a".to_string()))
    );
}

#[test]
fn serde_derives_are_refused() {
    let ok = vec![EnumAttr::Other, EnumAttr::Derive(strings(&["Debug", "Clone"]))];
    assert_eq!(guard_against_serde_derives(&ok), Ok(()));
    let ser = vec![EnumAttr::Derive(strings(&["Debug", "Serialize"]))];
    assert_eq!(guard_against_serde_derives(&ser), Err(SetupError::ConflictingDerive));
    let de = vec![EnumAttr::Other, EnumAttr::Derive(strings(&["Deserialize"]))];
    assert_eq!(guard_against_serde_derives(&de), Err(SetupError::ConflictingDerive));
    let bad = vec![EnumAttr::MalformedDerive("derive".to_string()), EnumAttr::Derive(strings(&["Serialize"]))];
    assert_eq!(
        guard_against_serde_derives(&bad),
        Err(SetupError::MalformedAttribute("derive".to_string()))
    );
}

#[test]
fn setup_steps_in_order() {
    let variants = strings(&["A", "B"]);
    let conflicting = vec![EnumAttr::Derive(strings(&["Serialize"]))];
    let bad_params = vec![AttrParam::Word("nope".to_string())];
    assert_eq!(
        enum_string_mapping("E", &conflicting, &bad_params, &variants).err(),
        Some(EnumStringError::Setup(SetupError::ConflictingDerive))
    );
    assert_eq!(
        enum_string_mapping("E", &Vec::new(), &bad_params, &variants).err(),
        Some(EnumStringError::Config(ConfigError::UnknownKeyword("nope".to_string())))
    );
    let lower = vec![AttrParam::NameValue("transform".to_string(), Some("lowercase".to_string()))];
    assert!(matches!(
        enum_string_mapping("E", &Vec::new(), &lower, &strings(&["A", "a"])),
        Err(EnumStringError::Duplicate(_))
    ));
    let m = enum_string_mapping("E", &Vec::new(), &lower, &variants).unwrap();
    assert_eq!(m.serialize(1), "b");
}

#[test]
fn derive_attributes_are_recognised() {
    assert!(is_derive_attr(&strings(&["derive"])));
    assert!(!is_derive_attr(&strings(&["serde", "derive"])));
    assert!(!is_derive_attr(&strings(&["derived"])));
    assert!(!is_derive_attr(&Vec::new()));
}
