use sozu::nesting::{nesting_is_bounded, MAX_NESTING};
use sozu::syntax::parse_document;

fn nested_tables(depth: usize) -> String {
    format!("a = {}1{}", "{ a = ".repeat(depth), " }".repeat(depth))
}

fn nested_arrays(depth: usize) -> String {
    format!("a = {}1{}", "[ \n".repeat(depth), "]".repeat(depth))
}

fn header(keys: usize) -> String {
    format!("[a{}]\n", " . a".repeat(keys - 1))
}

#[test]
fn inline_tables_count_once() {
    assert_eq!(MAX_NESTING, 256);
    assert!(nesting_is_bounded(&nested_tables(256)));
    assert!(!nesting_is_bounded(&nested_tables(257)));
}

#[test]
fn arrays_count_once() {
    assert!(nesting_is_bounded(&nested_arrays(254)));
    assert!(!nesting_is_bounded(&nested_arrays(255)));
}

#[test]
fn keys_of_a_header_count_twice() {
    assert!(nesting_is_bounded(&header(127)));
    assert!(!nesting_is_bounded(&header(128)));
    assert!(nesting_is_bounded(&format!("{}a = {{ a = {{}} }}\n", header(127))));
    assert!(!nesting_is_bounded(&format!("{}a = {{ a = {{ a = {{}} }} }}\n", header(127))));
}

#[test]
fn quoted_keys_count_like_others() {
    let keys = [
        r#""a""#, "'a'", r#""a.b""#, r#""\"""#, r#"'"'"#, "\"\n\"", "'\n", r#""]""#, r#""""#, "''", "",
    ];
    for key in keys {
        let path = |count: usize| format!("[{}a]", format!("{}.", key).repeat(count));
        assert!(nesting_is_bounded(&path(126)), "{:?}", key);
        assert!(!nesting_is_bounded(&path(127)), "{:?}", key);
    }
}

#[test]
fn closed_brackets_do_not_count() {
    let tables = format!("a = [{}{{}}]\n", "{ b = [1, 2] }, ".repeat(5000));
    assert!(nesting_is_bounded(&tables));
    let headers = "[[x]]\n[\"proxies\".y]\n['z']\n".repeat(5000);
    assert!(nesting_is_bounded(&headers));
    let mut inline = String::from("[proxies]\n");
    for index in 0..5000 {
        inline.push_str(&format!("p{} = {{ port = 80 }}\n", index));
    }
    assert!(nesting_is_bounded(&inline));
    assert!(parse_document(&inline).is_ok());
    let flat = format!("a = [{}{{}}]\n", "{}, ".repeat(5000));
    assert!(nesting_is_bounded(&flat));
    match parse_document(&flat) {
        Ok(table) => match &table["a"] {
            toml::Value::Array(items) => assert_eq!(items.len(), 5001),
            other => panic!("not an array: {:?}", other),
        },
        Err(failure) => panic!("{:?}", failure),
    }
}

#[test]
fn strings_and_comments_do_not_count() {
    let open = "[{".repeat(5000);
    let path = format!("[a{}", ".a".repeat(5000));
    let texts = [
        format!("# {}\na = 1\n", open),
        format!("# {}\na = 1\n", path),
        format!("a = \"{}\"\n", open),
        format!("a = \"{}\"\n", path),
        format!("a = '{}'\n", open),
        format!("a = \"\\\"{}\"\n", open),
        format!("a = \"\\\\\" # {}\n", open),
        format!("a = \"\" # {}\n", open),
        format!("a = \"\"\"\n\"\"{}\\\"\"\"{}\"\"\"\n", open, open),
        format!("a = '''\n''{}\\\n{}'''\n", open, open),
    ];
    for text in &texts {
        assert!(nesting_is_bounded(text), "{:.20}", text);
        assert!(parse_document(text).is_ok(), "{:.20}", text);
    }
}

#[test]
fn closing_brackets_in_strings_and_comments_close_nothing() {
    let items = [
        r#"[ "]", "#,
        "[ ']', ",
        "[ # ]\n",
        r#"[ """]""", "#,
        r#"[ """"]""", "#,
        r#"[ """\"""]""", "#,
        "[ '''']''', ",
        r#"[ "\"]", "#,
        "[ \"\n]\", ",
        r#"[ "", "#,
        r#"{ "}" = "#,
        "{ '}' = ",
    ];
    for item in items {
        let text = |count: usize| format!("a = {}", item.repeat(count));
        assert!(nesting_is_bounded(&text(254)), "{:?}", item);
        assert!(!nesting_is_bounded(&text(257)), "{:?}", item);
    }
}

#[test]
fn what_is_nested_up_to_the_bound_is_parsed() {
    assert!(parse_document(&nested_tables(256)).is_ok());
    assert!(parse_document(&nested_arrays(254)).is_ok());
    assert!(parse_document(&header(127)).is_ok());
    let mut arrays_of_tables = String::new();
    for keys in 1..128 {
        arrays_of_tables.push_str(&format!("[[a{}]]\n", ".a".repeat(keys - 1)));
    }
    assert!(nesting_is_bounded(&arrays_of_tables));
    assert!(parse_document(&arrays_of_tables).is_ok());
    arrays_of_tables.push_str(&format!("[[a{}]]\n", ".a".repeat(127)));
    assert!(!nesting_is_bounded(&arrays_of_tables));
    let tables = format!("{}{}", header(64), nested_tables(128));
    assert!(nesting_is_bounded(&tables));
    assert!(parse_document(&tables).is_ok());
}

#[test]
fn a_long_text_may_be_shallow() {
    let mut text = String::from("command_socket = \"./sock\"\n");
    for index in 0..10000 {
        text.push_str(&format!(
            "[proxies.proxy_{}]\naddress = \"127.0.0.1\"\nanswer_404 = \"404.html\" # [ ... ]\n",
            index
        ));
    }
    assert!(nesting_is_bounded(&text));
    assert!(parse_document(&text).is_ok());
    assert!(nesting_is_bounded(""));
}

#[test]
fn a_text_too_deep_for_the_stack_is_told() {
    assert!(!nesting_is_bounded(&format!("a = {}", "[".repeat(1_000_000))));
    assert!(!nesting_is_bounded(&format!("[a{}]", ".a".repeat(300_000))));
}
