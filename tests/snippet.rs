use shard::color::{ColorData, OPAQUE};
use shard::snippet::code::{
    detect_language, language_to_extension, looks_like_code, CodeData, LanguageSignals,
};
use shard::snippet::code::pick_language;
use shard::snippet::text::TextData;
use shard::snippet::{detect_snippet_type, Snippet, SnippetContent, SnippetKind};
use shard::status::truncate_for_status;

#[test]
fn test_snippet_kind_db_strings() {
    assert_eq!(SnippetKind::Color.as_db_str(), "color");
    assert_eq!(SnippetKind::Code.as_db_str(), "code");
    assert_eq!(SnippetKind::Text.as_db_str(), "text");
}

#[test]
fn test_detect_rust() {
    let code = r#"
fn main() {
    println!("Hello, world!");
}
"#;
    assert_eq!(detect_language(code), "rust");
}

#[test]
fn test_detect_python() {
    let code = r#"
def hello():
    print("Hello, world!")

if __name__ == "__main__":
    hello()
"#;
    assert_eq!(detect_language(code), "python");
}

#[test]
fn test_detect_javascript() {
    let code = r#"
const greeting = () => {
    console.log("Hello, world!");
};
"#;
    assert_eq!(detect_language(code), "javascript");
}

#[test]
fn test_detect_json() {
    let code = r#"{"name": "test", "value": 42}"#;
    assert_eq!(detect_language(code), "json");
}

#[test]
fn test_looks_like_code() {
    assert!(looks_like_code("fn main() {\n    println!(\"Hello\");\n}"));
    assert!(looks_like_code("def hello():\n    print('world')"));
    assert!(!looks_like_code("Hello world"));
    assert!(!looks_like_code("Short"));
}

#[test]
fn test_code_data_preview() {
    let code = CodeData::new(
        "line 1\nline 2\nline 3\nline 4\nline 5".to_string(),
        "plain".to_string(),
    );
    assert_eq!(code.preview(2), "line 1\nline 2");
    assert_eq!(code.line_count(), 5);
}

#[test]
fn test_snippet_kind_db_roundtrip() {
    for kind in [SnippetKind::Color, SnippetKind::Code, SnippetKind::Text] {
        let s = kind.as_db_str();
        let parsed = SnippetKind::from_db_str(s).unwrap();
        assert_eq!(kind, parsed);
    }
}

#[test]
fn test_detect_color_snippet() {
    assert_eq!(detect_snippet_type("#FF5733"), Some(SnippetKind::Color));
    assert_eq!(
        detect_snippet_type("rgb(255, 0, 0)"),
        Some(SnippetKind::Color)
    );
}

#[test]
fn test_detect_code_snippet() {
    assert_eq!(
        detect_snippet_type("fn main() {\n    println!(\"Hello\");\n}"),
        Some(SnippetKind::Code)
    );
    assert_eq!(
        detect_snippet_type("def hello():\n    print('world')"),
        Some(SnippetKind::Code)
    );
}

#[test]
fn test_detect_text_snippet() {
    assert_eq!(
        detect_snippet_type("This is a longer piece of text that should be detected as text"),
        Some(SnippetKind::Text)
    );
    assert_eq!(
        detect_snippet_type("Line one\nLine two"),
        Some(SnippetKind::Text)
    );
}

#[test]
fn test_snippet_matches_filter() {
    let snippet = Snippet::color(255, 87, 51, OPAQUE, "Orange".to_string());
    assert!(snippet.matches_filter("orange"));
    assert!(snippet.matches_filter("FF5733"));
    assert!(!snippet.matches_filter("blue"));
}

#[test]
fn test_text_data_new() {
    let text = TextData::new("Hello, world!".to_string());
    assert_eq!(text.text, "Hello, world!");
}

#[test]
fn test_line_count() {
    let text = TextData::new("line 1\nline 2\nline 3".to_string());
    assert_eq!(text.line_count(), 3);
}

#[test]
fn test_char_count() {
    let text = TextData::new("Hello".to_string());
    assert_eq!(text.char_count(), 5);
}

#[test]
fn test_preview() {
    let text = TextData::new("line 1\nline 2\nline 3\nline 4".to_string());
    assert_eq!(text.preview(2), "line 1\nline 2");
}

#[test]
fn test_is_empty() {
    assert!(TextData::new("".to_string()).is_empty());
    assert!(TextData::new("   ".to_string()).is_empty());
    assert!(!TextData::new("hello".to_string()).is_empty());
}

#[test]
fn short_single_words_are_no_snippet() {
    assert_eq!(detect_snippet_type("  hi  "), None);
    assert_eq!(detect_snippet_type(""), None);
}

#[test]
fn lines_follow_str_lines() {
    assert_eq!(TextData::new("a\r\nb\n".to_string()).line_count(), 2);
    assert_eq!(TextData::new("\n".to_string()).line_count(), 1);
    assert_eq!(TextData::new("a\r\nb\n".to_string()).preview(5), "a\nb");
    assert_eq!(TextData::new("héllo".to_string()).char_count(), 5);
}

#[test]
fn extensions_ignore_case() {
    assert_eq!(language_to_extension("Rust"), "rs");
    assert_eq!(language_to_extension("C++"), "cpp");
    assert_eq!(language_to_extension("YML"), "yaml");
    assert_eq!(language_to_extension("brainfuck"), "txt");
}

#[test]
fn language_choice_from_signals() {
    let none = LanguageSignals {
        typescript: false,
        javascript: false,
        rust: false,
        python: false,
        go: false,
        json: false,
        html: false,
        css: false,
        sql: false,
        shell: false,
    };
    assert_eq!(pick_language(&none), "plain");
    assert_eq!(pick_language(&LanguageSignals { typescript: true, ..none }), "plain");
    assert_eq!(
        pick_language(&LanguageSignals { typescript: true, javascript: true, ..none }),
        "typescript"
    );
    assert_eq!(pick_language(&LanguageSignals { rust: true, python: true, ..none }), "rust");
    assert_eq!(detect_language("SELECT * FROM t"), "sql");
}

#[test]
fn empty_language_is_detected() {
    let c = CodeData::new("fn main() {}".to_string(), String::new());
    assert_eq!(c.language, "rust");
}

#[test]
fn previews_and_copies() {
    let color = SnippetContent::Color(ColorData { r: 255, g: 87, b: 51, a: OPAQUE });
    assert_eq!(color.preview(3), "#FF5733");
    assert_eq!(color.to_copyable_string(), "#FF5733");
    assert_eq!(color.kind(), SnippetKind::Color);
    let text = SnippetContent::Text(TextData::new("abcdefgh\nsecond".to_string()));
    assert_eq!(text.preview(5), "abcde...");
    assert_eq!(text.preview(8), "abcdefgh");
    assert_eq!(text.to_copyable_string(), "abcdefgh\nsecond");
    let wide = SnippetContent::Text(TextData::new("héllo".to_string()));
    assert_eq!(wide.preview(2), "h...");
}

#[test]
fn empty_labels_are_generated() {
    let s = Snippet::text("note".to_string(), String::new());
    assert_eq!(s.label.chars().count(), 8);
    assert!(s
        .label
        .chars()
        .all(|c| c == '_' || c == '-' || c.is_ascii_alphanumeric()));
    assert_eq!(s.kind(), SnippetKind::Text);
    let named = Snippet::code("x = 1".to_string(), "python".to_string(), "mine".to_string());
    assert_eq!(named.label, "mine");
    assert_eq!(named.default_label().len(), 8);
    assert!(SnippetKind::from_db_str("palette").is_none());
}

#[test]
fn status_text_is_truncated() {
    assert_eq!(truncate_for_status("  hello world  \nmore", 20), "hello world");
    assert_eq!(truncate_for_status("hello world", 7), "hello\u{2026}");
    assert_eq!(truncate_for_status("", 3), "");
}
