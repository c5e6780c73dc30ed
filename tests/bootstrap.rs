use lagon::bootstrap::{get_runtime_code, AssemblyError, IsolateOptions};
use lagon::literal::{escape_literal, is_valid_identifier};

const HANDLER: &str = "export function handler(req){ return new Response('ok'); }";

fn options(code: &str, env: Option<Vec<(&str, &str)>>) -> IsolateOptions {
    IsolateOptions {
        code: code.to_string(),
        environment_variables: env.map(|v| {
            v.into_iter().map(|(k, v)| (k.to_string(), v.to_string())).collect()
        }),
        allow_eval: false,
    }
}

#[test]
fn assembles_shim_bindings_code_and_entry_point() {
    let text = get_runtime_code("SHIM", &options(HANDLER, Some(vec![]))).unwrap();
    let expected = format!(
        "\nSHIM\n\n(() => {{\n}})()\n\n{}\n\nexport async function masterHandler(request) {{\n    const handlerRequest = new Request(request.target, {{\n        method: request.method,\n        headers: request.headers,\n        body: request.body,\n    }});\n\n    return handler(handlerRequest);\n}}\n",
        HANDLER
    );
    assert_eq!(text, expected);
    assert_eq!(text.matches("export async function masterHandler").count(), 1);
}

#[test]
fn no_mapping_binds_nothing() {
    let with_none = get_runtime_code("S", &options("c", None)).unwrap();
    let with_empty = get_runtime_code("S", &options("c", Some(vec![]))).unwrap();
    assert_eq!(with_none, with_empty);
}

#[test]
fn assembly_is_deterministic() {
    let o = options(HANDLER, Some(vec![("B", "two"), ("A", "1")]));
    assert_eq!(get_runtime_code("S", &o).unwrap(), get_runtime_code("S", &o).unwrap());
}

#[test]
fn binds_each_variable() {
    let text = get_runtime_code("S", &options("c", Some(vec![("B_2", "x y"), ("A", "1")]))).unwrap();
    assert!(text.contains(
        "(() => {\n    globalThis.process.env.A = '1';\n    globalThis.process.env.B_2 = 'x y';\n})()"
    ));
}

#[test]
fn rejects_non_identifier_keys() {
    for key in ["1FOO", "A-B", "", "x.y", "a b", "\u{2028}", "·x"] {
        let r = get_runtime_code("S", &options("c", Some(vec![("OK", "v"), (key, "v")])));
        assert_eq!(r, Err(AssemblyError::InvalidEnvironmentKey(key.to_string())));
    }
}

#[test]
fn reports_the_first_invalid_key() {
    let r = get_runtime_code("S", &options("c", Some(vec![("9a", "v"), ("b-c", "v")])));
    assert_eq!(r, Err(AssemblyError::InvalidEnvironmentKey("9a".to_string())));
}

#[test]
fn injected_value_stays_inside_its_literal() {
    let value = "bar'); doSomethingUnsafe(); //";
    let text = get_runtime_code("S", &options("c", Some(vec![("FOO", value)]))).unwrap();
    assert!(text.contains(
        "globalThis.process.env.FOO = 'bar\\u{000027}\\u{000029}\\u{00003b} doSomethingUnsafe\\u{000028}\\u{000029}\\u{00003b} //';"
    ));
    assert!(!text.contains("doSomethingUnsafe();"));
}

#[test]
fn escapes_quotes_backslashes_and_line_breaks() {
    assert_eq!(escape_literal("a'b"), "a\\u{000027}b");
    assert_eq!(escape_literal("\\"), "\\u{00005c}");
    assert_eq!(escape_literal("\n\r"), "\\u{00000a}\\u{00000d}");
    assert_eq!(escape_literal("</script>"), "\\u{00003c}/script\\u{00003e}");
    assert_eq!(escape_literal("\u{2028}"), "\\u{002028}");
}

#[test]
fn escapes_non_ascii_by_code_point() {
    assert_eq!(escape_literal("é"), "\\u{0000e9}");
    assert_eq!(escape_literal("😀"), "\\u{01f600}");
    assert_eq!(escape_literal("\u{10FFFF}"), "\\u{10ffff}");
}

#[test]
fn keeps_plain_characters() {
    assert_eq!(escape_literal(""), "");
    assert_eq!(escape_literal("Hello, world 42 a_b-c.d:e/f@g=h+i"), "Hello, world 42 a_b-c.d:e/f@g=h+i");
}

#[test]
fn escaped_text_holds_no_quote() {
    let out = escape_literal("'\"`${}");
    assert!(!out.contains('\''));
    assert!(!out.contains('"'));
    assert!(!out.contains('`'));
    assert_eq!(out, "\\u{000027}\\u{000022}\\u{000060}\\u{000024}\\u{00007b}\\u{00007d}");
}

#[test]
fn identifiers() {
    assert!(is_valid_identifier("FOO"));
    assert!(is_valid_identifier("_x1"));
    assert!(is_valid_identifier("$"));
    assert!(!is_valid_identifier(""));
    assert!(!is_valid_identifier("1a"));
    assert!(!is_valid_identifier("a-b"));
    assert!(!is_valid_identifier("a'b"));
    assert!(is_valid_identifier("é"));
    assert!(is_valid_identifier("café_1"));
    assert!(is_valid_identifier("日本"));
    assert!(is_valid_identifier("x\u{200D}y"));
    assert!(!is_valid_identifier("\u{200D}y"));
    assert!(is_valid_identifier("x·"));
    assert!(!is_valid_identifier("·x"));
}

#[test]
fn non_ascii_identifier_keys_assemble() {
    let text = get_runtime_code("S", &options("c", Some(vec![("é", "v")]))).unwrap();
    assert!(text.contains("    globalThis.process.env.é = 'v';\n"));
}

#[test]
fn bindings_are_emitted_by_name() {
    let a = get_runtime_code("S", &options("c", Some(vec![("B", "2"), ("A", "1"), ("a", "3")]))).unwrap();
    let b = get_runtime_code("S", &options("c", Some(vec![("a", "3"), ("A", "1"), ("B", "2")]))).unwrap();
    assert_eq!(a, b);
    assert!(a.contains(
        "(() => {\n    globalThis.process.env.A = '1';\n    globalThis.process.env.B = '2';\n    globalThis.process.env.a = '3';\n})()"
    ));
}

#[test]
fn shared_names_are_rejected() {
    let r = get_runtime_code("S", &options("c", Some(vec![("A", "1"), ("B", "2"), ("A", "1")])));
    assert_eq!(r, Err(AssemblyError::DuplicateEnvironmentKey("A".to_string())));
    let r = get_runtime_code("S", &options("c", Some(vec![("A", "1"), ("A", "2")])));
    assert_eq!(r, Err(AssemblyError::DuplicateEnvironmentKey("A".to_string())));
}

#[test]
fn invalid_name_is_reported_before_a_shared_one() {
    let r = get_runtime_code("S", &options("c", Some(vec![("A", "1"), ("A", "1"), ("1x", "2")])));
    assert_eq!(r, Err(AssemblyError::InvalidEnvironmentKey("1x".to_string())));
}
