use i18n_editor::args::{Kind, ModError};
use i18n_editor::config::Source;
use i18n_editor::github::RemoteFile;
use i18n_editor::sheet::{parse, Sheet};
use i18n_editor::sync::{
    base_file, base_table, edit_mod, edit_result, merge_sheet, pull_content, pull_step, push_content, push_step, references_of,
    reports_missing, review, save_entry, save_request, seed_table, session_references, sync_files, tables_text,
    up_to_date, EditError, PushContent, PushStep, SaveError, SaveOutcome,
};
use i18n_editor::table::{progress, table_text, Table};

fn table_of(pairs: &[(&str, &str)]) -> Table {
    let mut t = Table::new();
    for (k, v) in pairs {
        t.insert(k.to_string(), v.to_string());
    }
    t
}

fn pairs_of(t: &Table) -> Vec<(&str, &str)> {
    t.iter().map(|(k, v)| (k.as_str(), v.as_str())).collect()
}

fn words(list: &[&str]) -> Vec<String> {
    list.iter().map(|w| w.to_string()).collect()
}

fn small_sheet() -> Sheet {
    let body = r#"{"table":{"rows":[
        {"c":[{"v":"Key"},{"v":"English"}]},
        {"c":[{"v":"a"},{"v":"A"}]},
        {"c":[{"v":"b"},{"v":"B"}]},
        {"c":[{"v":"b"},{"v":"B2"}]},
        {"c":[{"v":"c"},null]}]}}"#;
    parse(body, "JALib").unwrap()
}

#[test]
fn fetch_keeps_what_is_there() {
    let sheet = small_sheet();
    let mut t = table_of(&[("x", "旧"), ("b", "乙")]);
    let done = progress(&t).done;
    let report = merge_sheet(&mut t, &sheet);
    assert_eq!(pairs_of(&t), vec![("x", "旧"), ("b", "乙"), ("a", ""), ("c", "")]);
    assert_eq!(report.added, 2);
    assert_eq!(report.gone, vec!["x"]);
    assert_eq!(report.remark().as_deref(), Some("1 条已不在表格中（保留在本地）：x"));
    assert_eq!(progress(&t).done, done);
    let before = t.clone();
    let again = merge_sheet(&mut t, &sheet);
    assert_eq!(again.added, 0);
    assert_eq!(t, before);
}

#[test]
fn remark_names_five_keys() {
    let sheet = small_sheet();
    let mut t = table_of(&[("1", ""), ("2", ""), ("3", ""), ("4", ""), ("5", ""), ("6", "")]);
    let report = merge_sheet(&mut t, &sheet);
    assert_eq!(report.remark().as_deref(), Some("6 条已不在表格中（保留在本地）：1, 2, 3, 4, 5"));
    let mut t = Table::new();
    assert!(merge_sheet(&mut t, &sheet).remark().is_none());
}

#[test]
fn reference_table() {
    let references = references_of(&small_sheet());
    let expected = [("a", "A"), ("b", "B"), ("b", "B2"), ("c", "")];
    assert_eq!(references, expected.map(|(k, v)| (k.to_string(), v.to_string())));
    assert_eq!(pairs_of(&base_table(&references)), vec![("a", "A"), ("b", "B2"), ("c", "")]);
}

#[test]
fn empty_table_is_seeded() {
    let references = references_of(&small_sheet());
    let mut t = Table::new();
    assert!(seed_table(&mut t, &references));
    assert_eq!(pairs_of(&t), vec![("a", ""), ("b", ""), ("c", "")]);
    let mut t = table_of(&[("z", "1")]);
    assert!(!seed_table(&mut t, &references));
    assert_eq!(pairs_of(&t), vec![("z", "1")]);
}

#[test]
fn seeding_is_fetching_into_nothing() {
    let sheet = small_sheet();
    let mut seeded = Table::new();
    seed_table(&mut seeded, &references_of(&sheet));
    let mut fetched = Table::new();
    merge_sheet(&mut fetched, &sheet);
    assert_eq!(pairs_of(&seeded), pairs_of(&fetched));
}

#[test]
fn review_shows_every_entry() {
    let t = table_of(&[("a", "甲"), ("b", "")]);
    let references = vec![("a".to_string(), "x\n\ny".to_string())];
    let shown = review(&t, &references);
    assert_eq!(shown.len(), 2);
    assert_eq!(shown[0].key, "a");
    assert_eq!(shown[0].reference.as_deref(), Some("x ⏎  ⏎ y"));
    assert_eq!(shown[0].text, "甲");
    assert!(shown[1].reference.is_none() && shown[1].text.is_empty());
}

#[test]
fn unchanged_table_is_not_written() {
    let t = table_of(&[("a", "甲"), ("b", "")]);
    let r = edit_result(&t, 0);
    assert!(r.text.is_none());
    assert_eq!((r.progress.done, r.progress.total), (1, 2));
    assert_eq!(edit_result(&t, 1).text.unwrap(), table_text(&t));
}

#[test]
fn sessions_are_held_on_one_mod() {
    assert_eq!(edit_mod(&words(&["JALib", "x"])).unwrap().id, "JALib");
    assert_eq!(edit_mod(&vec![]).unwrap_err().message(), "用法：i18n-editor edit <模组>");
    let e = edit_mod(&words(&["x"])).unwrap_err();
    assert!(matches!(&e, EditError::Mod(ModError::Unknown(n)) if n == "x"));
    assert_eq!(e.message(), "未知模组：x（可用：JALib, JipperResourcePack, BetterCalibration）");
}

#[test]
fn save_requests() {
    assert!(matches!(save_request(&vec![]), Err(SaveError::Usage)));
    assert!(matches!(save_request(&words(&["x"])), Err(SaveError::Mod(ModError::Unknown(_)))));
    let e = save_request(&words(&["JALib"])).unwrap_err();
    assert_eq!(e.message(), "用法：i18n-editor save <模组> <键> [译文]");
    assert_eq!(
        save_request(&words(&["x"])).unwrap_err().message(),
        "未知模组：x（可用：JALib, JipperResourcePack, BetterCalibration）"
    );
    let r = save_request(&words(&["JALib", "k"])).unwrap();
    assert!(r.value.is_none());
    let r = save_request(&words(&["JALib", "k", "\u{feff}译\n"])).unwrap();
    assert_eq!((r.mod_id.as_str(), r.key.as_str(), r.value.as_deref()), ("JALib", "k", Some("译")));
}

#[test]
fn saves_and_shows_one_entry() {
    let mut t = table_of(&[("a", "1"), ("b", "2"), ("c", "3")]);
    let request = |list: &[&str]| save_request(&words(list)).unwrap();
    assert!(matches!(save_entry(&mut t, &request(&["JALib", "b", "x"])), SaveOutcome::Written));
    assert!(matches!(save_entry(&mut t, &request(&["JALib", "b"])), SaveOutcome::Shown(s) if s == "x"));
    assert!(matches!(save_entry(&mut t, &request(&["JALib", "d", "y"])), SaveOutcome::Written));
    assert!(matches!(save_entry(&mut t, &request(&["JALib", "a", ""])), SaveOutcome::Removed));
    assert!(matches!(save_entry(&mut t, &request(&["JALib", "a"])), SaveOutcome::Absent));
    assert!(matches!(save_entry(&mut t, &request(&["JALib", "a", ""])), SaveOutcome::Removed));
    assert_eq!(pairs_of(&t), vec![("b", "x"), ("c", "3"), ("d", "y")]);
}

#[test]
fn files_in_step() {
    let files = sync_files(&words(&["JALib", "BetterCalibration"]));
    let paths: Vec<&str> = files.iter().map(|f| f.path.as_str()).collect();
    assert_eq!(
        paths,
        vec![
            "data/JALib.ChineseSimplified.json",
            "data/JALib.BaseEnglish.json",
            "data/BetterCalibration.ChineseSimplified.json",
            "data/BetterCalibration.BaseEnglish.json",
        ]
    );
    assert_eq!(files[3].message, "i18n(BetterCalibration): 更新原文兜底表");
    assert_eq!((files[0].kind, files[1].kind), (Kind::Chinese, Kind::BaseEnglish));
    assert!(reports_missing(Kind::Chinese) && !reports_missing(Kind::BaseEnglish));
}

#[test]
fn push_decisions() {
    assert!(matches!(push_content(None), Ok(PushContent::Missing)));
    assert!(matches!(push_content(Some("{}")), Ok(PushContent::Empty)));
    assert!(push_content(Some("x")).is_err());
    let text = match push_content(Some("{\"a\":\"1\"}")) {
        Ok(PushContent::Ready(text)) => text,
        _ => panic!(),
    };
    assert_eq!(text, "{\n  \"a\": \"1\"\n}\n");
    let remote = |t: &str| Some(RemoteFile { text: t.to_string(), sha: None });
    assert!(up_to_date(&remote(&text), &text));
    assert!(up_to_date(&remote(text.trim()), &text));
    assert!(!up_to_date(&remote("{}"), &text));
    assert!(!up_to_date(&None, &text));
}

#[test]
fn push_steps() {
    let remote = |t: &str| Some(RemoteFile { text: t.to_string(), sha: None });
    let step = |content: &PushContent, kind| push_step(content, kind, None);
    assert!(matches!(step(&PushContent::Missing, Kind::Chinese), PushStep::Remark));
    assert!(matches!(step(&PushContent::Missing, Kind::BaseEnglish), PushStep::Skip));
    assert!(matches!(step(&PushContent::Empty, Kind::Chinese), PushStep::Skip));
    let ready = PushContent::Ready("{}\n".to_string());
    assert!(matches!(step(&ready, Kind::Chinese), PushStep::Ask));
    assert!(matches!(push_step(&ready, Kind::Chinese, Some(&None)), PushStep::Write(t) if t == "{}\n"));
    assert!(matches!(push_step(&ready, Kind::Chinese, Some(&remote(" {}"))), PushStep::Unchanged));
    assert!(matches!(push_step(&ready, Kind::BaseEnglish, Some(&remote("x"))), PushStep::Write(_)));
}

#[test]
fn pull_restores_what_was_pushed() {
    let t = table_of(&[("b", "2"), ("a", "")]);
    let text = table_text(&t);
    let pulled = pull_content(&text).unwrap();
    assert_eq!((pulled.count, pulled.text.as_str()), (2, text.as_str()));
    assert_eq!(pull_content("{\"x\":\"y\"}").unwrap().text, "{\n  \"x\": \"y\"\n}\n");
    assert!(pull_content("null").is_err());
}

#[test]
fn all_tables_as_one_text() {
    let tables = vec![
        ("JALib".to_string(), table_of(&[("b", "2"), ("a", "1")])),
        ("B".to_string(), Table::new()),
    ];
    assert_eq!(
        tables_text(&tables),
        "{\n  \"B\": {},\n  \"JALib\": {\n    \"a\": \"1\",\n    \"b\": \"2\"\n  }\n}"
    );
}

#[test]
fn reference_file_only_where_asked_for() {
    let references = vec![("b".to_string(), "B".to_string()), ("a".to_string(), "A".to_string())];
    assert!(base_file(false, &references).is_none());
    assert_eq!(base_file(true, &references).unwrap(), "{\n  \"b\": \"B\",\n  \"a\": \"A\"\n}\n");
    assert_eq!(pairs_of(&base_table(&references)), vec![("b", "B"), ("a", "A")]);
}

#[test]
fn references_of_a_session() {
    let sheet = small_sheet();
    let source = Source::Sheet { gid: 1 };
    assert_eq!(session_references(source, Some(&sheet)), references_of(&sheet));
    assert!(session_references(source, None).is_empty());
    assert!(session_references(Source::LocalOnly, Some(&sheet)).is_empty());
}

#[test]
fn a_missing_remote_file_changes_nothing_here() {
    assert!(pull_step(&None).unwrap().is_none());
    let remote = |t: &str| Some(RemoteFile { text: t.to_string(), sha: None });
    let content = pull_step(&remote("{\"x\":\"y\"}")).unwrap().unwrap();
    assert_eq!((content.count, content.text.as_str()), (1, "{\n  \"x\": \"y\"\n}\n"));
    assert!(pull_step(&remote("[]")).is_err());
}

#[test]
fn fetched_keys_stand_in_the_order_of_the_sheet() {
    let mut t = table_of(&[("z", "1"), ("b", "2")]);
    merge_sheet(&mut t, &small_sheet());
    assert_eq!(t.keys().collect::<Vec<_>>(), vec!["z", "b", "a", "c"]);
}
