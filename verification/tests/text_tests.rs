use embeder::json::{escape, quote, str_array};
use embeder::oracle::SourceRef;
use embeder::paths::{join_path, path_within};
use embeder::tiers::{Tier, VerifiabilityBoundary};

#[test]
fn json_strings_are_escaped() {
    assert_eq!(escape("a\"b\\c\nd\re\tf"), "a\\\"b\\\\c\\nd\\re\\tf");
    assert_eq!(escape("\u{1}x"), "\\u0001x");
    assert_eq!(escape("caf\u{e9}"), "caf\u{e9}");
    assert_eq!(quote("hi"), "\"hi\"");
    assert_eq!(str_array(&["a".to_string(), "b\"c".to_string()]), "[\"a\",\"b\\\"c\"]");
    assert_eq!(str_array(&[]), "[]");
}

#[test]
fn boundary_renders_as_a_json_object() {
    let b = VerifiabilityBoundary {
        verified: vec!["uart_tx".to_string()],
        stubbed: vec![],
        not_modeled: vec!["rf".to_string(), "ble".to_string()],
    };
    assert_eq!(b.to_json(), "{\"verified\":[\"uart_tx\"],\"stubbed\":[],\"not_modeled\":[\"rf\",\"ble\"]}");
    assert_eq!(VerifiabilityBoundary::default().to_json(), "{\"verified\":[],\"stubbed\":[],\"not_modeled\":[]}");
}

#[test]
fn tiers_have_symbols_and_names() {
    assert_eq!(Tier::Verified.symbol(), "[OK]");
    assert_eq!(Tier::Assisted.symbol(), "[~]");
    assert_eq!(Tier::Advisory.symbol(), "[!]");
    assert_eq!(Tier::OutOfScope.symbol(), "[X]");
    assert_eq!(Tier::OutOfScope.as_str(), "out_of_scope");
    assert_eq!(Tier::Verified.as_str(), "verified");
}

#[test]
fn citations_render_as_one_line() {
    let c = SourceRef::new("stm32f4-mini.svd", "device/peripherals/USART2", "USART2 @ 0x40004400");
    assert_eq!(c.as_line(), "stm32f4-mini.svd::device/peripherals/USART2 (USART2 @ 0x40004400)");
}

#[test]
fn paths_join_like_path_join() {
    assert_eq!(join_path("fw", "src"), "fw/src");
    assert_eq!(join_path("fw/", "src"), "fw/src");
    assert_eq!(join_path("", "src"), "src");
    assert_eq!(join_path("fw", "/abs"), "/abs");
}

#[test]
fn escape_works_part_by_part() {
    let a = "say \"hi\"\n";
    let b = "tab\there\u{1}";
    let whole = format!("{a}{b}");
    assert_eq!(escape(&whole), format!("{}{}", escape(a), escape(b)));
    assert_eq!(escape(b), "tab\\there\\u0001");
    assert_eq!(quote(&whole), format!("\"{}{}\"", escape(a), escape(b)));
}

#[test]
fn path_within_compares_whole_components() {
    assert!(path_within("/home/u/ws/src/main.c", "/home/u/ws"));
    assert!(path_within("/home/u/ws", "/home/u/ws"));
    assert!(path_within("/home/u/ws/", "/home/u/ws"));
    assert!(path_within("/anything", "/"));
    assert!(!path_within("/home/u/wsx/main.c", "/home/u/ws"));
    assert!(!path_within("/home/u", "/home/u/ws"));
    assert!(!path_within("home/u/ws/a", "/home/u/ws"));
    assert!(!path_within("/tmp/a.elf", "/home/u/ws"));
    // agrees with `Path::starts_with` on canonical paths
    for (p, r) in [("/a/b/c", "/a/b"), ("/a/bc", "/a/b"), ("/a", "/a/b"), ("/", "/")] {
        assert_eq!(path_within(p, r), std::path::Path::new(p).starts_with(r));
    }
}

#[test]
fn quoted_and_array_text_reads_back() {
    let s = "a\"b\\c\n\r\t\u{1}\u{1f}é";
    let q = quote(s);
    assert_eq!(serde_json::from_str::<String>(&q).unwrap(), s);
    let items = vec!["x,y".to_string(), "\"]".to_string(), String::new()];
    let a = str_array(&items);
    assert_eq!(serde_json::from_str::<Vec<String>>(&a).unwrap(), items);
    assert_eq!(str_array(&[]), "[]");
}

#[test]
fn escape_changes_only_what_it_must() {
    for plain in ["", "abc", "é ü 100%", "a/b'c"] {
        assert_eq!(escape(plain), plain);
    }
    for special in ["\"", "\\", "\n", "\u{1f}", "x\ty"] {
        assert_ne!(escape(special), special);
    }
    let e = escape("\u{0}\u{7}\n\"\\z");
    assert!(e.chars().all(|c| c >= '\u{20}'));
}
