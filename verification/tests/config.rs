use gitflux::{Layout, RenderConfiguration, RenderConfigurationError};

const VALID: &str = r##"
# a comment
frame_width = 1280   # trailing comment
frame_height = 720
frames_per_second = 30

[theme]
name = "terminal"
background_color = "#101010"
entity_color = "#32D583"
contributor_color = "#fdb022"

[layout]
kind = "repository_graph"
entity_spacing = 140
settle_iterations = 80

[filters]
included_paths = ["src/app", "docs",]
"##;

#[test]
fn reads_every_field_of_a_configuration() {
    let config = RenderConfiguration::from_toml_str(VALID).expect("valid");

    assert_eq!(config.frame_size().width(), 1280);
    assert_eq!(config.frames_per_second().get(), 30);
    assert_eq!(config.theme().entity_color().as_hex(), "#32D583");
    assert_eq!(config.visual_metaphor().as_str(), "flow");
    assert!(matches!(config.layout(), Layout::RepositoryGraphWithParameters(_)));
    assert_eq!(config.layout().entity_spacing().get(), 140);
    assert_eq!(config.explicit_path_filter().included_paths(), ["src/app", "docs"]);
    assert_eq!(
        config.level_of_detail().dense_directory_threshold().get(),
        5
    );
}

#[test]
fn repeated_keys_and_tables_are_parse_errors() {
    let error = RenderConfiguration::from_toml_str(&format!("{VALID}\n[theme]\n"))
        .expect_err("duplicate table");
    assert_eq!(
        error,
        RenderConfigurationError::Parse {
            line: 21,
            detail: "duplicate table `[theme]`".to_owned()
        }
    );
    let error = RenderConfiguration::from_toml_str("a = 1\na = 2").expect_err("duplicate key");
    assert_eq!(
        error.message(),
        "expected a valid TOML Render Configuration; toml parse error at line 2: duplicate key `a`"
    );
}

#[test]
fn malformed_lines_are_reported_with_their_number() {
    for (text, line, detail) in [
        ("[theme", 1, "a table header needs a closing `]`"),
        ("x\n", 1, "expected `key = value`"),
        ("\n\nname = \"a\\\"b\"", 3, "unsupported value"),
        ("n = 1.5", 1, "unexpected text after a value"),
        ("n = 99999999999999999999", 1, "integer out of range"),
        ("[a b]", 1, "a table name is letters, digits, `_` or `-`"),
    ] {
        assert_eq!(
            RenderConfiguration::from_toml_str(text).expect_err("malformed"),
            RenderConfigurationError::Parse {
                line,
                detail: detail.to_owned()
            }
        );
    }
}

#[test]
fn every_problem_is_listed_in_field_order() {
    let error = RenderConfiguration::from_toml_str(
        "frame_width = -3\nframe_height = true\nextra = 1\n[colors]\n[layout]\nkind = \"tree\"\n",
    )
    .expect_err("invalid");
    assert_eq!(
        error.message(),
        "invalid Render Configuration:\n\
- frame_width: expected a positive integer\n\
- frame_height: expected a positive integer\n\
- frames_per_second: missing required field; expected a positive integer\n\
- theme.name: missing required field; expected a string\n\
- theme.background_color: missing required field; expected a #RRGGBB color\n\
- theme.entity_color: missing required field; expected a #RRGGBB color\n\
- theme.contributor_color: missing required field; expected a #RRGGBB color\n\
- layout.kind: expected \"repository_graph\"\n\
- layout.entity_spacing: missing required field; expected a positive integer\n\
- layout.settle_iterations: missing required field; expected a positive integer\n\
- extra: unknown field; known fields: frame_width, frame_height, frames_per_second\n\
- colors: unknown table; known tables: theme, layout, filters"
    );
}
