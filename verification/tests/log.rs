use cmt::commands::log::{is_breaking, log_entry, log_heading, parse_log_args, parse_type, LogOptions};
use cmt::types::Config;
use cmt::ui::Palette;

#[test]
fn extracts_type_from_subject() {
    assert_eq!(parse_type("feat(api): x"), Some("feat".to_string()));
    assert_eq!(parse_type("fix!: y"), Some("fix".to_string()));
    assert_eq!(parse_type("no type here"), None);
}

#[test]
fn detects_breaking_marker() {
    assert!(is_breaking("feat!: drop"));
    assert!(is_breaking("feat(x)!: drop"));
    assert!(!is_breaking("feat: keep"));
}

#[test]
fn parse_type_edge_cases() {
    assert_eq!(parse_type(""), None);
    assert_eq!(parse_type("Feat: x"), None);
    assert_eq!(parse_type("feat"), None);
    assert_eq!(parse_type("my-type_2: x"), Some("my-type_2".to_string()));
}

fn args(v: &[&str]) -> Vec<String> {
    v.iter().map(|s| s.to_string()).collect()
}

#[test]
fn log_args_set_limit_and_filters() {
    let o = parse_log_args(&args(&[]));
    assert_eq!((o.limit, o.filter_type.as_str(), o.filter_author.as_str()), (20, "", ""));
    let o = parse_log_args(&args(&["5", "--type=fix", "--author=Ann", "bogus", "7"]));
    assert_eq!(o.limit, 7);
    assert_eq!(o.filter_type, "fix");
    assert_eq!(o.filter_author, "Ann");
}

#[test]
fn log_heading_shows_limit_and_filters() {
    let p = Palette::plain();
    let o = LogOptions { limit: 5, filter_type: "fix".into(), filter_author: String::new() };
    assert_eq!(log_heading(&o, &p), "\n  log  last 5 commits  type=fix\n");
}

#[test]
fn log_entry_renders_and_filters() {
    let p = Palette::plain();
    let cfg = Config::default();
    let all = LogOptions { limit: 20, filter_type: String::new(), filter_author: String::new() };
    assert_eq!(
        log_entry("h|abc|2024-01-02|Ann Lee|feat(api)!: new shape", &cfg, &all, &p),
        Some("  abc  ✨  feat(api)!: new shape breaking\n  2024-01-02  Ann Lee\n\n".to_string())
    );
    assert_eq!(
        log_entry("h|abc|2024-01-02|Bob|tidy up", &cfg, &all, &p),
        Some("  abc  ·  tidy up\n  2024-01-02  Bob\n\n".to_string())
    );
    // A subject may itself hold bars: only the first four split.
    assert_eq!(
        log_entry("h|abc|d|Bob|fix: a|b", &cfg, &all, &p),
        Some("  abc  🐛  fix: a|b\n  d  Bob\n\n".to_string())
    );
    assert_eq!(log_entry("h|abc|d|Bob", &cfg, &all, &p), None);
    let fixes = LogOptions { limit: 20, filter_type: "fix".into(), filter_author: String::new() };
    assert_eq!(log_entry("h|abc|d|Bob|feat: x", &cfg, &fixes, &p), None);
    let ann = LogOptions { limit: 20, filter_type: String::new(), filter_author: "Ann".into() };
    assert_eq!(log_entry("h|abc|d|Bob|feat: x", &cfg, &ann, &p), None);
    assert!(log_entry("h|abc|d|Annie|feat: x", &cfg, &ann, &p).is_some());
}
