use nucleus::{Config, Template, TemplateError};

#[test]
fn basic_template() {
    let content = r#"
	# pack.mcmeta
		{
			"pack": {
				"pack_format": 5,
				"description": "This is a description"
			}
		}
	"#;

    let config = Config::new();

    let result = Template::from_str(content, &config).unwrap();
    let expect = Template::new(
        "pack.mcmeta",
        r#"
		{
			"pack": {
				"pack_format": 5,
				"description": "This is a description"
			}
		}
	"#,
    );

    assert_eq!(result, expect);
}

#[test]
fn template_with_config() {
    let content = r#"
	# data/<namespace>/advancements/<datapack>.json
	{
		"display": {
			"title": "<datapack>",
			"description": "<description>",
			"icon": {
				"item": "<display_item>"
			},
			"announce_to_chat": false,
			"show_toast": false
		},
		"parent": "global:<namespace>",
		"criteria": {
			"trigger": {
				"trigger": "minecraft:tick"
			}
		}
	}
	"#;

    let config = Config::new()
        .insert("<namespace>", "boomber")
        .insert("<datapack>", "explosion_magic")
        .insert("<description>", "Explosion!")
        .insert("<display_item>", "minecraft:tnt");

    let result = Template::from_str(content, &config).unwrap();
    let expect = Template::new(
        "data/boomber/advancements/explosion_magic.json",
        r#"
	{
		"display": {
			"title": "explosion_magic",
			"description": "Explosion!",
			"icon": {
				"item": "minecraft:tnt"
			},
			"announce_to_chat": false,
			"show_toast": false
		},
		"parent": "global:boomber",
		"criteria": {
			"trigger": {
				"trigger": "minecraft:tick"
			}
		}
	}
	"#,
    );

    assert_eq!(result, expect);
}

#[test]
fn with_invalid_syntax() {
    let content = r#"Hello, world!"#;
    let config = Config::new();
    let result: TemplateError = Template::from_str(content, &config).unwrap_err();
    assert_eq!(result, TemplateError::MissingPathMarker);
}

#[test]
fn parse_round_trip() {
    let config = Config::new();
    let template = Template::from_str("\n# out/file.txt\nHELLO\n", &config).unwrap();
    assert_eq!(template.path().as_str(), "out/file.txt");
    assert_eq!(template.content().as_str(), "HELLO\n");
}

#[test]
fn empty_text_is_unexpected_end_of_input() {
    let config = Config::new();
    let result = Template::from_str("", &config).unwrap_err();
    assert_eq!(result, TemplateError::UnexpectedEndOfInput);
}

#[test]
fn newlines_only_is_unexpected_end_of_input() {
    let config = Config::new();
    let result = Template::from_str("\n\n\r\n\n", &config).unwrap_err();
    assert_eq!(result, TemplateError::UnexpectedEndOfInput);
}

#[test]
fn bare_marker_is_unexpected_end_of_input() {
    let config = Config::new();
    let result = Template::from_str("#   \nbody\n", &config).unwrap_err();
    assert_eq!(result, TemplateError::UnexpectedEndOfInput);
}

#[test]
fn final_line_gets_a_newline() {
    let config = Config::new();
    let template = Template::from_str("# a.txt\nfirst\nsecond", &config).unwrap();
    assert_eq!(template.content().as_str(), "first\nsecond\n");
}

#[test]
fn marker_line_may_be_indented() {
    let config = Config::new();
    let template = Template::from_str("   # spaced/path.txt   \nbody\n", &config).unwrap();
    assert_eq!(template.path().as_str(), "spaced/path.txt");
}
