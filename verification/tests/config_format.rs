//! The configuration syntax: parsing, serialization, and error positions.

use textra::config::{Replacement, TextraConfig, TextraRule};
use textra::parser::{parse_textra_config, position_in_input, serialize_textra_config};

#[test]
fn test_parse_simple_config() {
    let config_content = r#"
        ///key:value
        /// doc line 1
        trigger1 => replacement1
        "#;
    let config = parse_textra_config(config_content).unwrap();
    assert_eq!(config.metadata_get("key"), Some(&"value".to_string()));
    assert_eq!(config.documentation, vec!["doc line 1"]);
    assert_eq!(config.rules.len(), 1);
    assert_eq!(config.rules[0].triggers, vec!["trigger1"]);
    assert_eq!(
        config.rules[0].replacement,
        Replacement::Simple("replacement1".to_string())
    );
}

#[test]
fn test_parse_config_empty_input() {
    let config_content = "";
    let config = parse_textra_config(config_content).unwrap();
    assert!(config.metadata.is_empty());
    assert!(config.documentation.is_empty());
    assert!(config.rules.is_empty());
}

#[test]
fn test_parse_config_invalid_syntax() {
    let config_content = "trigger1 = > replacement1";
    assert!(parse_textra_config(config_content).is_err());
}

#[test]
fn test_serialize_deserialize_config_basic() {
    let original_config = TextraConfig {
        metadata: vec![("version".to_string(), "1.0".to_string())],
        documentation: vec!["Test documentation.".to_string()],
        rules: vec![TextraRule {
            triggers: vec!["hi".to_string()],
            replacement: Replacement::Simple("hello".to_string()),
            description: Some("Greets".to_string()),
            category: Some("General".to_string()),
        }],
        overlay: Default::default(),
    };

    let serialized_config = serialize_textra_config(&original_config);
    let deserialized_config = parse_textra_config(&serialized_config).unwrap();

    assert_eq!(
        deserialized_config.metadata_get("version"),
        Some(&"1.0".to_string())
    );
    assert_eq!(deserialized_config.documentation, vec!["Test documentation."]);
    assert_eq!(deserialized_config.rules.len(), 1);
    assert_eq!(deserialized_config.rules[0].triggers, vec!["hi"]);
    assert_eq!(
        deserialized_config.rules[0].replacement,
        Replacement::Simple("hello".to_string())
    );
    assert_eq!(deserialized_config.rules[0].description, None);
    assert_eq!(deserialized_config.rules[0].category, None);
}

#[test]
fn test_parse_metadata() {
    let input = "///name:Textra Config Example\n";
    let config = parse_textra_config(input).expect("Failed to parse metadata");
    assert_eq!(
        config.metadata_get("name"),
        Some(&"Textra Config Example".to_string())
    );
}

#[test]
fn test_parse_documentation() {
    let input = "/// This is a Textra configuration file.\n";
    let config = parse_textra_config(input).expect("Failed to parse documentation");
    assert_eq!(
        config.documentation,
        vec!["This is a Textra configuration file.".to_string()]
    );
}

#[test]
fn test_parse_simple_rule() {
    let input = "btw => by the way\n";
    let config = parse_textra_config(input).expect("Failed to parse simple rule");
    assert_eq!(config.rules.len(), 1);
    assert_eq!(config.rules[0].triggers, vec!["btw".to_string()]);
    assert_eq!(
        config.rules[0].replacement,
        Replacement::Simple("by the way".to_string())
    );
}

#[test]
fn test_parse_multiple_triggers() {
    let input = ":email | :mail => a@xo.rs\n";
    let config = parse_textra_config(input).expect("Failed to parse multiple triggers");
    assert_eq!(config.rules.len(), 1);
    assert_eq!(
        config.rules[0].triggers,
        vec![":email".to_string(), ":mail".to_string()]
    );
    assert_eq!(
        config.rules[0].replacement,
        Replacement::Simple("a@xo.rs".to_string())
    );
}

#[test]
fn test_parse_multiline_replacement() {
    let input = ":tst => `twinkle twinkle little star,\nhow i wonder what you are`\n";
    let config = parse_textra_config(input).expect("Failed to parse multiline replacement");
    assert_eq!(config.rules.len(), 1);
    assert_eq!(config.rules[0].triggers, vec![":tst".to_string()]);
    assert_eq!(
        config.rules[0].replacement,
        Replacement::Multiline(
            "twinkle twinkle little star,\nhow i wonder what you are".to_string()
        )
    );
}

#[test]
fn test_parse_code_replacement() {
    let input = ":date => ```javascript\nreturn format.date(date.now(), \"YYYY-MM-DD\");\n```\n";
    let config = parse_textra_config(input).expect("Failed to parse code replacement");
    assert_eq!(config.rules.len(), 1);
    assert_eq!(config.rules[0].triggers, vec![":date".to_string()]);
    assert_eq!(
        config.rules[0].replacement,
        Replacement::Code {
            language: "javascript".to_string(),
            content: "return format.date(date.now(), \"YYYY-MM-DD\");\n".to_string()
        }
    );
}

#[test]
fn test_parse_comment_lines_are_ignored() {
    let input = "// just a note\nbtw => by the way\n// another note\n";
    let config = parse_textra_config(input).unwrap();
    assert_eq!(config.rules.len(), 1);
    assert_eq!(config.rules[0].triggers, vec!["btw"]);
}

#[test]
fn test_parse_error_position() {
    let input = "btw => by the way\nbroken line\n";
    let err = parse_textra_config(input).unwrap_err();
    assert_eq!(err.line, 2);
    assert_eq!(err.column, 0);
}

#[test]
fn test_parse_empty_trigger_rejected() {
    assert!(parse_textra_config("=> something\n").is_err());
    assert!(parse_textra_config("a | => something\n").is_err());
}

#[test]
fn test_parse_unterminated_blocks_rejected() {
    assert!(parse_textra_config("x => `never closed\n").is_err());
    assert!(parse_textra_config("x => ```python\nprint(1)\n").is_err());
}

#[test]
fn test_metadata_repeated_key_overwrites() {
    let input = "///key:first\n///key:second\n";
    let config = parse_textra_config(input).unwrap();
    assert_eq!(config.metadata_get("key"), Some(&"second".to_string()));
}

#[test]
fn test_serialize_code_and_multiline_round_trip() {
    let original = TextraConfig {
        metadata: vec![],
        documentation: vec![],
        rules: vec![
            TextraRule {
                triggers: vec![":tst".to_string()],
                replacement: Replacement::Multiline("two\nlines".to_string()),
                description: None,
                category: None,
            },
            TextraRule {
                triggers: vec![":py".to_string()],
                replacement: Replacement::Code {
                    language: "python".to_string(),
                    content: "print(1)\n".to_string(),
                },
                description: None,
                category: None,
            },
        ],
        overlay: Default::default(),
    };
    let text = serialize_textra_config(&original);
    let parsed = parse_textra_config(&text).unwrap();
    assert_eq!(parsed.rules, original.rules);
}

#[test]
fn test_position_in_input() {
    let full = "ab\ncd";
    let (line, column) = position_in_input(full, "d");
    assert_eq!(line, 2);
    assert_eq!(column, 1);
    let (line, column) = position_in_input(full, full);
    assert_eq!(line, 1);
    assert_eq!(column, 0);
}
