use transgender::config::{get_opener, get_theme};
use transgender::ops::Op;

#[test]
fn test_get_theme() {
    let target = "lucius";
    let text = "theme = ".to_owned() + target;
    assert_eq!(get_theme(&text), target);
}

#[test]
fn test_get_opener() {
    let conf = "/tmp/ts-temp-conf-QX7ZB2";
    let text = "o = vim -R -es -m -b -A -V -D -q ".to_owned() + conf;
    let (comm, args) = get_opener(Op::ExitCursorO, &text);
    assert_eq!(comm, "vim");
    assert_eq!(
        args.expect("failed to get args for assertion"),
        ["-R", "-es", "-m", "-b", "-A", "-V", "-D", "-q", conf]
    );
}

#[test]
fn theme_lines_are_trimmed_and_folded() {
    assert_eq!(get_theme("editor = nano\n  Theme =  Sakura \r\ntheme = dark\n"), "sakura");
    assert_eq!(get_theme("a = b = c\nnothing here\n"), "");
    assert_eq!(get_theme(""), "");
}

#[test]
fn opener_falls_back_to_editor_and_default() {
    let (comm, args) = get_opener(Op::ExitCursorEnter, "editor = nano -w\n");
    assert_eq!(comm, "nano");
    assert_eq!(args.unwrap(), ["-w"]);
    let (comm, args) = get_opener(Op::ExitCursorO, "theme = dark\n");
    assert_eq!(comm, "vi");
    assert!(args.is_none());
    let (comm, args) = get_opener(Op::ExitCursorEnter, "open = xdg-open\nenter = less\neditor = ed");
    assert_eq!(comm, "less");
    assert!(args.unwrap().is_empty());
}

#[test]
fn unicode_white_space_is_trimmed() {
    assert_eq!(get_theme("\ttheme\u{3000}=\u{a0}acme\u{2009}\n"), "acme");
}
