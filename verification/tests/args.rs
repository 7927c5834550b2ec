use i18n_editor::args::{
    all_mod_ids, apply_overrides, command, commit_message, data_dir, file_path, parse_args,
    remote_path, root, sheet_mods, table_path, take_token, target_mods, Args, ArgsStop, Command,
    Kind, ModError, RootPlan,
};
use i18n_editor::config::{raw_url, Base, State};
use i18n_editor::sheet::fetch;

fn words(list: &[&str]) -> Vec<String> {
    list.iter().map(|w| w.to_string()).collect()
}

fn args(list: &[&str]) -> Args {
    parse_args(&words(list)).unwrap()
}

#[test]
fn options_and_command() {
    let a = args(&["--repo", "o/r", "fetch", "JALib", "--base", "--proxy", "-h", "x"]);
    assert_eq!(a.repo.as_deref(), Some("o/r"));
    assert_eq!(a.proxy.as_deref(), Some("-h"));
    assert_eq!(a.command.as_deref(), Some("fetch"));
    assert_eq!(a.rest, vec!["JALib", "x"]);
    assert!(a.base);
    let a = args(&["--branch", "b", "--data", "d", "--token", "t", "--branch", "c"]);
    assert_eq!((a.branch.as_deref(), a.data.as_deref(), a.token.as_deref()), (Some("c"), Some("d"), Some("t")));
    assert!(a.command.is_none() && !a.base && a.rest.is_empty());
}

#[test]
fn option_at_the_end_has_no_value() {
    let a = args(&["--repo", "o/r", "--repo"]);
    assert!(a.repo.is_none());
    assert!(args(&[]).command.is_none());
}

#[test]
fn help_and_unknown_options_stop() {
    assert!(matches!(parse_args(&words(&["edit", "-h", "--wrong"])), Err(ArgsStop::Help)));
    assert!(matches!(parse_args(&words(&["--help"])), Err(ArgsStop::Help)));
    let e = parse_args(&words(&["--wrong", "-h"])).unwrap_err();
    assert!(matches!(&e, ArgsStop::Unknown(w) if w == "--wrong"));
    assert_eq!(e.message(), "未知选项：--wrong（用 --help 查看用法）");
    assert!(parse_args(&words(&["-"])).is_err());
}

#[test]
fn plain_words_are_command_and_rest() {
    let a = args(&["save", "JALib", "k", ""]);
    assert_eq!(a.command.as_deref(), Some("save"));
    assert_eq!(a.rest, vec!["JALib", "k", ""]);
}

#[test]
fn command_line_goes_before_settings() {
    let mut state = State::load(None);
    state.proxy = Some("old".into());
    apply_overrides(&mut state, &args(&["--repo", "a/b", "--token", "t"]));
    assert_eq!(state.repo(), "a/b");
    assert_eq!(state.branch(), "main");
    assert_eq!(state.token.as_deref(), Some("t"));
    assert_eq!(state.proxy.as_deref(), Some("old"));
    apply_overrides(&mut state, &args(&["--branch", "x", "--proxy", "p"]));
    assert_eq!((state.branch(), state.proxy.as_deref()), ("x".into(), Some("p")));
}

#[test]
fn token_after_the_command() {
    let mut state = State::default();
    assert!(!take_token(&mut state, &args(&["auth"])));
    assert!(state.token.is_none());
    assert!(take_token(&mut state, &args(&["auth", "t", "u"])));
    assert_eq!(state.token.as_deref(), Some("t"));
}

#[test]
fn mods_to_work_on() {
    assert_eq!(target_mods(&vec![]).unwrap(), vec!["JALib", "JipperResourcePack", "BetterCalibration"]);
    assert_eq!(target_mods(&words(&["BetterCalibration"])).unwrap(), vec!["BetterCalibration"]);
    let e = target_mods(&words(&["JALib", "x", "y"])).unwrap_err();
    assert!(matches!(&e, ModError::Unknown(n) if n == "x"));
    assert_eq!(e.message(), "未知模组：x（可用：JALib, JipperResourcePack, BetterCalibration）");
    assert_eq!(all_mod_ids(), "JALib, JipperResourcePack, BetterCalibration");
}

#[test]
fn mods_to_fetch() {
    assert_eq!(sheet_mods(&vec![]).unwrap(), vec!["JALib", "JipperResourcePack"]);
    assert_eq!(sheet_mods(&words(&["JALib", "JALib"])).unwrap(), vec!["JALib", "JALib"]);
    let e = sheet_mods(&words(&["BetterCalibration", "x"])).unwrap_err();
    assert_eq!(
        e.message(),
        "BetterCalibration 没有云端表格，无法 fetch（可用 JALib, JipperResourcePack）"
    );
    assert!(matches!(sheet_mods(&words(&["x"])), Err(ModError::Unknown(_))));
    let all = sheet_mods(&vec![]).unwrap();
    assert_eq!(sheet_mods(&all).unwrap(), all);
}

#[test]
fn chosen_mods_can_be_fetched() {
    for mod_id in sheet_mods(&vec![]).unwrap() {
        assert!(fetch(&mod_id).is_ok());
    }
}

#[test]
fn pushed_tables_are_read_at_the_raw_address() {
    for mod_id in target_mods(&vec![]).unwrap() {
        assert_eq!(
            raw_url("o/r", "b", &mod_id),
            format!("https://raw.githubusercontent.com/o/r/b/{}", remote_path(&mod_id, Kind::Chinese))
        );
    }
}

#[test]
fn local_files() {
    let a = args(&[]);
    assert!(matches!(root(&a), RootPlan::Search));
    let dir = data_dir(&a);
    assert!(matches!(dir.base, Base::Root));
    assert_eq!(dir.names, vec!["data"]);
    assert_eq!(table_path(&a, "JALib").names, vec!["data", "JALib.ChineseSimplified.json"]);
    let a = args(&["--data", "/d/e"]);
    assert!(matches!(root(&a), RootPlan::ParentOf(d) if d == "/d/e"));
    let file = file_path(&a, "JALib", Kind::BaseEnglish);
    assert!(matches!(file.base, Base::Directory(d) if d == "/d/e"));
    assert_eq!(file.names, vec!["JALib.BaseEnglish.json"]);
}

#[test]
fn remote_files() {
    assert_eq!(remote_path("JALib", Kind::Chinese), "data/JALib.ChineseSimplified.json");
    assert_eq!(remote_path("JALib", Kind::BaseEnglish), "data/JALib.BaseEnglish.json");
    assert_eq!(commit_message("JALib", Kind::Chinese), "i18n(JALib): 更新简体中文汉化表");
    assert_eq!(commit_message("JALib", Kind::BaseEnglish), "i18n(JALib): 更新原文兜底表");
}

#[test]
fn commands() {
    let all = [
        ("help", Command::Help), ("init", Command::Init), ("auth", Command::Auth),
        ("info", Command::Info), ("status", Command::Status), ("fetch", Command::Fetch),
        ("edit", Command::Edit), ("review", Command::Review), ("save", Command::Save),
        ("push", Command::Push), ("pull", Command::Pull), ("data", Command::Data),
    ];
    for (word, expected) in all {
        assert_eq!(command(word), Some(expected));
    }
    assert_eq!(command(""), None);
    assert_eq!(command("Push"), None);
}

#[test]
fn written_settings_are_those_of_the_next_start() {
    let mut state = State::load(None);
    apply_overrides(&mut state, &args(&["--repo", "a/b", "--proxy", "p", "--token", "t"]));
    let (repo, branch) = (state.repo(), state.branch());
    let again = State::load(Some(state));
    assert_eq!((again.repo(), again.branch()), (repo, branch));
    assert_eq!((again.proxy.as_deref(), again.token.as_deref()), (Some("p"), Some("t")));
}
