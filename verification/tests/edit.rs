use i18n_editor::config;
use i18n_editor::edit::{joined_lines, normalize_input, one_line, Round, Session};

fn table(pairs: &[(&str, &str)]) -> config::Table {
    let mut t = config::Table::new();
    for (k, v) in pairs {
        t.insert(k.to_string(), v.to_string());
    }
    t
}

#[test]
fn flattens_multiline() {
    assert_eq!(one_line("a\n\nb"), "a ⏎ b");
    assert_eq!(one_line("  单行  "), "单行");
}

#[test]
fn finds_first_untranslated() {
    let mut table = config::Table::new();
    table.insert("A".into(), "已翻译".into());
    table.insert("B".into(), "".into());
    table.insert("C".into(), "".into());
    let mut session = Session::new(&mut table, vec![]);
    session.seek_first_untranslated();
    assert_eq!(session.keys[session.index], "B");
}

#[test]
fn one_line_has_no_line_feed() {
    for text in ["", "\n", " \r\n a \r\n\tb\n", "a\rb"] {
        assert!(!one_line(text).contains('\n'));
    }
    assert_eq!(one_line(" \r\n a \r\n\tb\n"), "a ⏎ b");
    assert_eq!(joined_lines(" a\n\nb "), " a ⏎  ⏎ b ");
}

#[test]
fn input_is_cleaned() {
    assert_eq!(normalize_input("\u{feff}译文\r\n"), "译文");
    assert_eq!(normalize_input(" x \n\n"), " x ");
    assert_eq!(normalize_input("\n"), "");
    assert_eq!(normalize_input("a\u{feff}"), "a\u{feff}");
    assert_eq!(normalize_input(&normalize_input("\u{feff}\u{feff}a\r")), "a");
}

#[test]
fn seek_stays_when_all_is_translated() {
    let mut t = table(&[("a", "1"), ("b", "2")]);
    let mut session = Session::new(&mut t, vec![]);
    session.index = 1;
    session.seek_first_untranslated();
    assert_eq!(session.index, 1);
}

#[test]
fn session_stores_what_is_typed() {
    let mut t = table(&[("a", ""), ("b", "old"), ("c", "")]);
    let references = vec![("a".to_string(), "one\ntwo".to_string()), ("a".to_string(), "no".to_string())];
    let mut session = Session::new(&mut t, references);

    let prompt = session.prompt().unwrap();
    assert_eq!((prompt.number, prompt.total, prompt.key.as_str()), (1, 3, "a"));
    assert_eq!(prompt.reference.as_deref(), Some("one ⏎ two"));
    assert_eq!(prompt.current, "");

    assert_eq!(session.run("=\n"), Round::Next);
    let prompt = session.prompt().unwrap();
    assert_eq!((prompt.number, prompt.current.as_str()), (2, "old"));
    assert!(prompt.reference.is_none());

    assert_eq!(session.run("=\n"), Round::NoReference);
    assert_eq!(session.index, 1);
    assert_eq!(session.run("\u{feff}new\r\n"), Round::Next);
    assert_eq!(session.run("\r\n"), Round::Next);
    assert!(session.prompt().is_none());
    assert_eq!(session.changed_count(), 2);
    assert_eq!(t, table(&[("a", "one\ntwo"), ("b", "new"), ("c", "")]));
    assert_eq!(t.keys().collect::<Vec<_>>(), vec!["a", "b", "c"]);
}

#[test]
fn session_moves_without_changes() {
    let mut t = table(&[("a", "1"), ("b", "2")]);
    let before = t.clone();
    let mut session = Session::new(&mut t, vec![]);
    assert_eq!(session.run(":p\n"), Round::Next);
    assert_eq!(session.index, 0);
    assert_eq!(session.run(":n\n"), Round::Next);
    assert_eq!(session.index, 1);
    assert_eq!(session.run(":n\n"), Round::Next);
    assert_eq!(session.index, 1);
    assert_eq!(session.run(":p\n"), Round::Next);
    assert_eq!(session.run(":q\n"), Round::Quit);
    assert_eq!(session.changed_count(), 0);
    assert_eq!(t, before);
}

#[test]
fn session_over_nothing_is_over() {
    let mut t = table(&[]);
    let mut session = Session::new(&mut t, vec![]);
    session.seek_first_untranslated();
    assert!(session.prompt().is_none());
    assert_eq!(session.reference_of("x"), "");
}

#[test]
fn one_line_twice_is_one_line() {
    for text in ["", " a \r\n\n b\u{3000}", "a\rb\r", "\n \n", "中\n文 "] {
        let once = one_line(text);
        assert_eq!(once.trim(), once);
        assert_eq!(one_line(&once), once);
    }
}

#[test]
fn no_more_entries_differ_than_are_counted() {
    let mut t = table(&[("a", ""), ("b", "x"), ("c", "")]);
    let before = t.clone();
    let mut session = Session::new(&mut t, vec![]);
    for line in ["1\n", "x\n", ":p\n", ":p\n", "2\n", ":q\n"] {
        session.run(line);
    }
    let changed = session.changed_count();
    assert_eq!(changed, 3);
    let differing = before.iter().filter(|(k, v)| t.get(*k) != Some(*v)).count();
    assert_eq!(differing, 1);
}
