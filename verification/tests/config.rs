use i18n_editor::config::{
    find_mod, github_token, mod_ids, mods, raw_url, sheet_backed_ids, sheet_url, workspace_root,
    Base, Environment, Location, RootMarks, Source, State,
};

fn unset() -> Environment {
    Environment { home_override: None, app_data: None, config_home: None, home: None }
}

fn parts(l: Location) -> (String, Vec<String>) {
    match l.base {
        Base::Directory(d) => (d, l.names),
        Base::Root => panic!("at the root"),
    }
}

#[test]
fn addresses() {
    assert_eq!(
        sheet_url(1716850936),
        "https://docs.google.com/spreadsheets/d/1kx12GMqK9lgpiZimBSAMdj51xY4IuQUSLXzmQFZ6Sk4/gviz/tq?tqx=out:json&tq&gid=1716850936"
    );
    assert_eq!(
        raw_url("FYWanye/JongyeolModsI18n", "main", "JALib"),
        "https://raw.githubusercontent.com/FYWanye/JongyeolModsI18n/main/data/JALib.ChineseSimplified.json"
    );
}

#[test]
fn every_mod_is_found() {
    assert_eq!(mod_ids(), vec!["JALib", "JipperResourcePack", "BetterCalibration"]);
    assert_eq!(sheet_backed_ids(), vec!["JALib", "JipperResourcePack"]);
    for def in mods() {
        assert_eq!(find_mod(def.id).unwrap().id, def.id);
    }
    assert_eq!(find_mod("JipperResourcePack").unwrap().source, Source::Sheet { gid: 1313107549 });
    assert_eq!(find_mod("BetterCalibration").unwrap().source, Source::LocalOnly);
    assert_eq!(find_mod("BetterCalibration").unwrap().reference, "Korean");
    assert!(find_mod("jalib").is_none());
    assert!(find_mod("").is_none());
}

#[test]
fn settings_directory() {
    let s = |x: &str| Some(x.to_string());
    let mut env = unset();
    assert_eq!(parts(State::dir(&env)), (".".into(), vec![".config".into(), "jongyeol-mods-i18n".into()]));
    env.home = s("/home/u");
    assert_eq!(parts(State::path(&env)).1, vec![".config", "jongyeol-mods-i18n", "config.json"]);
    env.config_home = s("/cfg");
    assert_eq!(parts(State::dir(&env)), ("/cfg".into(), vec!["jongyeol-mods-i18n".into()]));
    env.app_data = s("C:\\a");
    assert_eq!(parts(State::dir(&env)), ("C:\\a".into(), vec!["JongyeolModsI18n".into()]));
    env.home_override = s("/x");
    assert_eq!(parts(State::path(&env)), ("/x".into(), vec!["config.json".into()]));
}

#[test]
fn settings_get_their_defaults() {
    let state = State::load(None);
    assert_eq!(state.repo.as_deref(), Some("FYWanye/JongyeolModsI18n"));
    assert_eq!(state.branch.as_deref(), Some("main"));
    assert!(state.token.is_none() && state.proxy.is_none());
    let stored = State { repo: Some("a/b".into()), branch: None, token: Some("t".into()), proxy: None };
    let state = State::load(Some(stored));
    assert_eq!((state.repo(), state.branch()), ("a/b".into(), "main".into()));
    assert_eq!(state.token.as_deref(), Some("t"));
    assert_eq!(State::default().repo(), "FYWanye/JongyeolModsI18n");
    assert_eq!(State::default().branch(), "main");
}

#[test]
fn token_of_the_environment_goes_first() {
    let mut state = State::default();
    assert_eq!(github_token(None, &state), None);
    state.token = Some(" stored\n".into());
    assert_eq!(github_token(None, &state).as_deref(), Some("stored"));
    assert_eq!(github_token(Some(" \t"), &state).as_deref(), Some("stored"));
    assert_eq!(github_token(Some(" env "), &state).as_deref(), Some("env"));
    state.token = Some("  ".into());
    assert_eq!(github_token(Some(""), &state), None);
}

#[test]
fn root_is_the_nearest_marked_directory() {
    let none = RootMarks { project: false, manifest: false, data: false };
    let project = RootMarks { project: true, ..none };
    let cargo = RootMarks { manifest: true, data: true, ..none };
    let half = RootMarks { manifest: true, ..none };
    assert_eq!(workspace_root(&vec![]), None);
    assert_eq!(workspace_root(&vec![none, half]), None);
    assert_eq!(workspace_root(&vec![half, cargo, cargo]), Some(1));
    assert_eq!(workspace_root(&vec![cargo, project, project]), Some(1));
}
