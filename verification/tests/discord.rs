use houston::discord::{config_hide, get_unique_username, quote_lines, write_message_link};

#[test]
fn hide_toggles_or_sets() {
    assert_eq!(config_hide(true, None), (false, "Your command usage is now **visible** to other users.".to_string()));
    assert_eq!(config_hide(false, None).0, true);
    assert_eq!(config_hide(false, Some(false)).0, false);
    assert_eq!(config_hide(false, Some(true)).1, "Your command usage is now **hidden** to other users.");
}

#[test]
fn unique_usernames() {
    assert_eq!(get_unique_username("someone", None), "someone");
    assert_eq!(get_unique_username("old", Some(7)), "old#0007");
    assert_eq!(get_unique_username("old", Some(1234)), "old#1234");
    assert_eq!(get_unique_username("x", Some(65535)), "x#65535");
}

#[test]
fn message_links() {
    let mut f = String::new();
    write_message_link(&mut f, Some(1), 22, 333);
    assert_eq!(f, "https://discord.com/channels/1/22/333");
    let mut f = String::from("> ");
    write_message_link(&mut f, None, 5, 6);
    assert_eq!(f, "> https://discord.com/channels/@me/5/6");
}

#[test]
fn quotes_lines() {
    assert_eq!(quote_lines("a\nb\r\nc"), "> a\n> b\n> c\n");
    assert_eq!(quote_lines("one\n"), "> one\n");
    assert_eq!(quote_lines(""), "");
    assert_eq!(quote_lines("\n\nx\r"), "> \n> \n> x\r\n");
    let text = "line one\r\nline two\n\nend";
    let expected: String = text.lines().map(|l| format!("> {l}\n")).collect();
    assert_eq!(quote_lines(text), expected);
}
