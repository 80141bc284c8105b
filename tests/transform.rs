use serde_json_helpers::ascii::{ascii_lowercase, ascii_uppercase, to_lower_char, to_upper_char};
use serde_json_helpers::string_transform::StringTransform;

fn words(s: &str) -> Vec<String> {
    StringTransform::split_by_case(s)
}

#[test]
fn lowercase_keeps_lowercase_text() {
    assert_eq!(StringTransform::transform_lowercase("variant"), "variant");
}

#[test]
fn uppercase_keeps_uppercase_text() {
    assert_eq!(StringTransform::transform_uppercase("VARIANT"), "VARIANT");
}

#[test]
fn lowercase_and_uppercase_whole_string() {
    assert_eq!(StringTransform::transform_lowercase("ExampleVariant2"), "examplevariant2");
    assert_eq!(StringTransform::transform_uppercase("ExampleVariant2"), "EXAMPLEVARIANT2");
}

#[test]
fn ascii_case_of_characters() {
    assert_eq!(to_lower_char('A'), 'a');
    assert_eq!(to_lower_char('Z'), 'z');
    assert_eq!(to_lower_char('a'), 'a');
    assert_eq!(to_lower_char('7'), '7');
    assert_eq!(to_upper_char('a'), 'A');
    assert_eq!(to_upper_char('z'), 'Z');
    assert_eq!(to_upper_char('_'), '_');
    assert_eq!(ascii_lowercase("MiXeD-9"), "mixed-9");
    assert_eq!(ascii_uppercase("MiXeD-9"), "MIXED-9");
    assert_eq!(ascii_lowercase("Ünï"), "Ünï");
}

#[test]
fn split_at_every_uppercase_letter() {
    assert_eq!(words("ExampleVariant"), vec!["Example", "Variant"]);
    assert_eq!(words("exampleVariant"), vec!["example", "Variant"]);
    assert_eq!(words("Example2"), vec!["Example2"]);
    assert_eq!(words("HTTPServer"), vec!["H", "T", "T", "P", "Server"]);
}

#[test]
fn split_without_uppercase_is_one_word() {
    assert_eq!(words("variant"), vec!["variant"]);
    assert_eq!(words("42"), vec!["42"]);
}

#[test]
fn split_of_empty_is_empty() {
    assert!(words("").is_empty());
}

#[test]
fn pascal_case_marks_word_boundaries() {
    assert_eq!(StringTransform::transform_pascalcase("exampleVariant"), "ExampleVariant");
    assert_eq!(StringTransform::transform_pascalcase("ExampleVARIANT"), "ExampleVARIANT");
    assert_eq!(StringTransform::transform_pascalcase("variant"), "Variant");
}

#[test]
fn camel_case() {
    assert_eq!(StringTransform::transform_camelcase("ExampleVariant"), "exampleVariant");
    assert_eq!(StringTransform::transform_camelcase("Example2"), "example2");
    assert_eq!(StringTransform::transform_camelcase(""), "");
}

#[test]
fn joined_styles() {
    assert_eq!(StringTransform::transform_snakecase("ExampleVariant"), "example_variant");
    assert_eq!(StringTransform::transform_screaming_snakecase("ExampleVariant"), "EXAMPLE_VARIANT");
    assert_eq!(StringTransform::transform_kebabcase("ExampleVariant"), "example-variant");
    assert_eq!(
        StringTransform::transform_screaming_kebabcase("ExampleVariant"),
        "EXAMPLE-VARIANT"
    );
    assert_eq!(StringTransform::transform_snakecase("HTTPServer"), "h_t_t_p_server");
    assert_eq!(StringTransform::transform_kebabcase("variant"), "variant");
    assert_eq!(StringTransform::transform_snakecase(""), "");
}

#[test]
fn transform_dispatches_on_style() {
    let s = "TestEnumExampleVariant";
    assert_eq!(StringTransform::Lowercase.transform(s), "testenumexamplevariant");
    assert_eq!(StringTransform::Uppercase.transform(s), "TESTENUMEXAMPLEVARIANT");
    assert_eq!(StringTransform::PascalCase.transform(s), "TestEnumExampleVariant");
    assert_eq!(StringTransform::CamelCase.transform(s), "testEnumExampleVariant");
    assert_eq!(StringTransform::SnakeCase.transform(s), "test_enum_example_variant");
    assert_eq!(StringTransform::ScreamingSnakeCase.transform(s), "TEST_ENUM_EXAMPLE_VARIANT");
    assert_eq!(StringTransform::KebabCase.transform(s), "test-enum-example-variant");
    assert_eq!(StringTransform::ScreamingKebabCase.transform(s), "TEST-ENUM-EXAMPLE-VARIANT");
}

#[test]
fn style_keywords() {
    assert_eq!(StringTransform::from_str("lowercase"), Some(StringTransform::Lowercase));
    assert_eq!(StringTransform::from_str("UPPERCASE"), Some(StringTransform::Uppercase));
    assert_eq!(StringTransform::from_str("PascalCase"), Some(StringTransform::PascalCase));
    assert_eq!(StringTransform::from_str("camelCase"), Some(StringTransform::CamelCase));
    assert_eq!(StringTransform::from_str("snake_case"), Some(StringTransform::SnakeCase));
    assert_eq!(
        StringTransform::from_str("SCREAMING_SNAKE_CASE"),
        Some(StringTransform::ScreamingSnakeCase)
    );
    assert_eq!(StringTransform::from_str("kebab-case"), Some(StringTransform::KebabCase));
    assert_eq!(
        StringTransform::from_str("SCREAMING-KEBAB-CASE"),
        Some(StringTransform::ScreamingKebabCase)
    );
    assert_eq!(StringTransform::from_str("snake_case "), None);
    assert_eq!(StringTransform::from_str("pascal_case"), None);
    assert_eq!(StringTransform::from_str(""), None);
}
