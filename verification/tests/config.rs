use nucleus::Config;

#[test]
fn replace_once() {
    let content = r#"Replace <foo> once"#;
    let config = Config::new().insert("<foo>", "me");

    assert_eq!(config.apply(content), "Replace me once");
}

#[test]
fn replace_multiple() {
    let content = "\n\t\tLine 1: <foo>\n\t\tLine 2: <bar>\n\t\tLine 3: <foobar>\n\t\t";
    let config = Config::new()
        .insert("<foo>", "一")
        .insert("<bar>", "二")
        .insert("<foobar>", "三");

    let result = config.apply(content);
    let expect = "\n\t\tLine 1: 一\n\t\tLine 2: 二\n\t\tLine 3: 三\n\t\t";

    assert_eq!(result, expect);
}

#[test]
fn replace_many_time() {
    let content = "\n\t\tA: <explosion>\n\t\tB: <explosion>\n\t\tC: <explosion>\n\t\tD: <explosion>\n\t\t";
    let config = Config::new().insert("<explosion>", "エクプロシオン");

    let result = config.apply(content);
    let expect = "\n\t\tA: エクプロシオン\n\t\tB: エクプロシオン\n\t\tC: エクプロシオン\n\t\tD: エクプロシオン\n\t\t";

    assert_eq!(result, expect);
}

#[test]
fn apply_empty_config_returns_input_unchanged() {
    let config = Config::new();
    assert_eq!(config.apply(""), "");
    assert_eq!(config.apply("no placeholders here"), "no placeholders here");
    assert_eq!(config.apply("<foo> stays <bar>"), "<foo> stays <bar>");
}

#[test]
fn insert_overwrites_existing_key() {
    let config = Config::new().insert("<k>", "first").insert("<k>", "second");
    assert_eq!(config.apply("value: <k>"), "value: second");
}

#[test]
fn absent_key_is_a_no_op() {
    let config = Config::new().insert("<missing>", "x");
    assert_eq!(config.apply("nothing to do"), "nothing to do");
}
