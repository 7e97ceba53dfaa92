use cmt::git::{last_message, log_args, log_lines, status_porcelain, top_level};

#[test]
fn top_level_drops_trailing_white_space() {
    assert_eq!(top_level(Some("/home/me/repo\n".into())), Some("/home/me/repo".to_string()));
    assert_eq!(top_level(None), None);
}

#[test]
fn output_is_split_into_lines() {
    assert_eq!(log_lines(Some("a|b\nc|d\n".into())), vec!["a|b", "c|d"]);
    assert_eq!(log_lines(Some("a\r\nb".into())), vec!["a", "b"]);
    assert!(log_lines(None).is_empty());
    assert_eq!(status_porcelain(Some("M  x\n?? y\n".into())), vec!["M  x", "?? y"]);
    assert!(status_porcelain(Some(String::new())).is_empty());
}

#[test]
fn log_arguments_carry_the_limit() {
    assert_eq!(log_args(12), vec!["log", "-12", "--format=%H|%h|%ad|%an|%s", "--date=short"]);
    assert_eq!(log_args(0)[1], "-0");
}

#[test]
fn last_message_drops_trailing_line_feeds() {
    assert_eq!(last_message(Some("feat: x\n\nbody\n\n".into())), Some("feat: x\n\nbody".to_string()));
    assert_eq!(last_message(Some("x\r\n".into())), Some("x\r".to_string()));
    assert_eq!(last_message(None), None);
}
