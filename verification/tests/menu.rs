use i18n_editor::args::{parse_args, Command};
use i18n_editor::config::{find_mod, mods, Base, Environment, State};
use i18n_editor::http::Reply;
use i18n_editor::menu::{
    after_choice, choose_action, info_head, info_line, init_plan, init_report, is_console_attached,
    menu_command, menu_head, menu_line, pick_line, pick_mod, reach_line, status_head, status_line,
    waits_at_end, Choice, MenuStep, Pick,
};
use i18n_editor::table::Progress;

#[test]
fn choices() {
    for line in ["", "\n", " 0 \r\n", "q\n", "Q"] {
        assert!(matches!(choose_action(Some(line)), Choice::Quit));
    }
    assert!(matches!(choose_action(None), Choice::Quit));
    assert!(matches!(choose_action(Some("1\n")), Choice::Fetch));
    assert!(matches!(choose_action(Some("2\n")), Choice::Edit));
    assert!(matches!(choose_action(Some("3\n")), Choice::Status));
    assert!(matches!(choose_action(Some("4\n")), Choice::Push));
    assert!(matches!(choose_action(Some("5\n")), Choice::Pull));
    assert!(matches!(choose_action(Some(" 6")), Choice::Info));
    assert!(matches!(choose_action(Some(" 7 \n")), Choice::Unknown(w) if w == "7"));
}

#[test]
fn picks_by_number_or_name() {
    for (i, def) in mods().iter().enumerate() {
        assert!(matches!(pick_mod(Some(&format!(" {} \n", i + 1))), Pick::Mod(id) if id == def.id));
        assert!(matches!(pick_mod(Some(def.id)), Pick::Mod(id) if id == def.id));
    }
    assert!(matches!(pick_mod(Some("+1")), Pick::Mod(id) if id == "JALib"));
    assert!(matches!(pick_mod(Some(" \n")), Pick::Cancelled));
    assert!(matches!(pick_mod(None), Pick::Cancelled));
    assert!(matches!(pick_mod(Some("0\n")), Pick::Invalid(w) if w == "0"));
    assert!(matches!(pick_mod(Some("4")), Pick::Invalid(_)));
    assert!(matches!(pick_mod(Some("99999999999999999999")), Pick::Invalid(_)));
    assert!(matches!(pick_mod(Some("jalib")), Pick::Invalid(_)));
}

#[test]
fn lines_of_mods() {
    let def = find_mod("JALib").unwrap();
    let local = find_mod("BetterCalibration").unwrap();
    let p = Progress { total: 42, done: 40, missing: 2 };
    assert_eq!(
        menu_line(&def, p),
        format!("  {:<20} {:>4}/{:<4} 已翻译   {}", "JALib", 40, 42, "云端可拉取")
    );
    assert_eq!(
        pick_line(3, &local, p),
        format!("  {}) {:<20} 待翻译 {} 条（共 {} 条）", 3, "BetterCalibration", 2, 42)
    );
    assert_eq!(
        status_head(),
        format!("{:<22}{:>8}{:>10}{:>10}  来源", "模组", "总数", "已翻译", "未翻译")
    );
    assert_eq!(
        status_line(&local, p),
        format!("{:<22}{:>8}{:>10}{:>10}  {}", "BetterCalibration", 42, 40, 2, "仅本地")
    );
    assert_eq!(
        info_line(&def, p, true),
        format!("  {:<20} {:<18} 参考列={:<8} 本地 {} 条  {}", "JALib", "云端 Gid=1716850936", "English", 40, "")
    );
    assert_eq!(
        info_line(&local, p, false),
        format!("  {:<20} {:<18} 参考列={:<8} 本地 {} 条  {}", "BetterCalibration", "仅本地维护", "Korean", 40, "（文件缺失）")
    );
}

#[test]
fn the_menu_goes_on_until_it_is_left() {
    for failed in [false, true] {
        assert_eq!(after_choice(&Choice::Quit, failed), MenuStep::End);
        assert_eq!(after_choice(&Choice::Edit, failed), MenuStep::Again);
    }
    for line in ["1", "3", "4", "5", "6"] {
        let choice = choose_action(Some(line));
        assert_eq!(after_choice(&choice, false), MenuStep::Again);
        assert_eq!(after_choice(&choice, true), MenuStep::Report);
    }
    let mut commands = Vec::new();
    let mut shown = 0;
    for line in ["1\n", "x\n", "3\n", "4\n", " q \n", "5\n"] {
        shown += 1;
        let choice = choose_action(Some(line));
        commands.extend(menu_command(&choice));
        if after_choice(&choice, line == "3\n") == MenuStep::End {
            break;
        }
    }
    assert_eq!(shown, 5);
    assert_eq!(commands, vec![Command::Fetch, Command::Status, Command::Push]);
}

#[test]
fn commands_of_choices() {
    let all = [
        ("1", Some(Command::Fetch)), ("2", Some(Command::Edit)), ("3", Some(Command::Status)),
        ("4", Some(Command::Push)), ("5", Some(Command::Pull)), ("6", Some(Command::Info)),
        ("0", None), ("", None), ("7", None), ("11", None),
    ];
    for (line, command) in all {
        assert_eq!(menu_command(&choose_action(Some(line))), command);
    }
    assert_eq!(menu_command(&choose_action(None)), None);
}

#[test]
fn heads_show_the_settings() {
    let mut state = State::default();
    assert_eq!(
        menu_head(&state, None, "/r", "/r/data"),
        vec![
            "  仓库     : FYWanye/JongyeolModsI18n",
            "  分支     : main",
            "  代理     : （未设置，联网失败时用 --proxy 指定）",
            "  令牌     : 未配置（上传需要）",
            "  仓库根   : /r",
            "  数据目录 : /r/data",
        ]
    );
    assert_eq!(menu_head(&state, Some("t"), "", "")[3], "  令牌     : 已配置");
    state.proxy = Some("p".into());
    state.branch = Some("b".into());
    assert_eq!(
        info_head(&state, Some(" "), "/c", "/r", "/d"),
        vec![
            "配置文件   ：/c",
            "仓库       ：FYWanye/JongyeolModsI18n",
            "分支       ：b",
            "代理       ：p",
            "令牌       ：未配置（push 需要）",
            "仓库根目录 ：/r",
            "数据目录   ：/d",
        ]
    );
    assert_eq!(info_head(&State::default(), None, "", "", "")[3], "代理       ：（未设置，必要时加 --proxy）");
}

#[test]
fn an_address_that_cannot_be_reached_is_a_line() {
    let good = Reply::Text { status: 200, text: String::new() };
    assert_eq!(reach_line("U", good), "      GitHub 可访问：U");
    assert_eq!(reach_line("U", Reply::Failed("e".into())), "      GitHub 不可访问（e：U）");
    let missing = Reply::Text { status: 404, text: "x".into() };
    assert_eq!(reach_line("U", missing), "      GitHub 不可访问（HTTP 404：U\n  x）");
}

#[test]
fn first_settings() {
    let state = State::load(None);
    assert_eq!(
        init_report(&state, "/c/config.json", "/d"),
        vec![
            "配置已写入：/c/config.json",
            "仓库：FYWanye/JongyeolModsI18n   分支：main",
            "代理：（未设置）",
            "数据目录：/d",
        ]
    );
    let env = Environment {
        home_override: Some("/x".into()),
        app_data: None,
        config_home: None,
        home: None,
    };
    let plan = init_plan(&env, &parse_args(&vec![]).unwrap());
    assert!(plan.settings_dir.names.is_empty());
    assert_eq!(plan.settings.names, vec!["config.json"]);
    assert!(matches!(plan.settings.base, Base::Directory(d) if d == "/x"));
    assert!(matches!(plan.data.base, Base::Root));
    assert_eq!(plan.data.names, vec!["data"]);
}

#[test]
fn waiting_at_the_end() {
    assert!(is_console_attached(true, false));
    assert!(!is_console_attached(true, true));
    assert!(!is_console_attached(false, false));
    assert!(waits_at_end(0, true));
    assert!(!waits_at_end(0, false));
    assert!(!waits_at_end(1, true));
}
