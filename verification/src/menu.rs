//! The interactive menu: what is chosen and how it goes on, and the lines that show the settings and
//! the state of the mods.

use vstd::prelude::*;

use crate::args::{data_dir, tables_dir, Args, Command};
use crate::config::{
    all_ids, config_dir, effective_token, github_token, mod_ids, value_or, Environment, Location,
    LocationView, ModDef, Source, State, StateView, DEFAULT_BRANCH, DEFAULT_REPO,
};
use crate::http::{http_message, opt_str, ping, text_in, Reply};
use crate::table::Progress;
use crate::text::{
    align_left, align_right, decimal, decimal_text, left_aligned, number_in, opt_view, parse_number,
    right_aligned, same_text, trim, trimmed, views,
};

verus! {

broadcast use vstd::seq::group_seq_axioms;

/// What is chosen in the menu.
#[derive(Debug)]
pub enum Choice {
    Quit,
    Fetch,
    Edit,
    Status,
    Push,
    Pull,
    Info,
    /// There is no such choice.
    Unknown(String),
}

/// What is chosen in the menu, as a mathematical value.
pub enum ChoiceView {
    Quit,
    Fetch,
    Edit,
    Status,
    Push,
    Pull,
    Info,
    Unknown(Seq<char>),
}

impl View for Choice {
    type V = ChoiceView;

    open spec fn view(&self) -> ChoiceView {
        match self {
            Choice::Quit => ChoiceView::Quit,
            Choice::Fetch => ChoiceView::Fetch,
            Choice::Edit => ChoiceView::Edit,
            Choice::Status => ChoiceView::Status,
            Choice::Push => ChoiceView::Push,
            Choice::Pull => ChoiceView::Pull,
            Choice::Info => ChoiceView::Info,
            Choice::Unknown(word) => ChoiceView::Unknown(word@),
        }
    }
}

/// What `word` chooses in the menu.
pub open spec fn choice_of(word: Seq<char>) -> ChoiceView {
    if word.len() == 0 || word == "0"@ || word == "q"@ || word == "Q"@ {
        ChoiceView::Quit
    } else if word == "1"@ {
        ChoiceView::Fetch
    } else if word == "2"@ {
        ChoiceView::Edit
    } else if word == "3"@ {
        ChoiceView::Status
    } else if word == "4"@ {
        ChoiceView::Push
    } else if word == "5"@ {
        ChoiceView::Pull
    } else if word == "6"@ {
        ChoiceView::Info
    } else {
        ChoiceView::Unknown(word)
    }
}

/// What the line that was typed chooses in the menu; none means that the input has ended.
pub fn choose_action(line: Option<&str>) -> (r: Choice)
    ensures
        r@ == match line {
            Some(typed) => choice_of(trimmed(typed@)),
            None => ChoiceView::Quit,
        },
{
    let word = match line {
        Some(typed) => trim(typed),
        None => {
            return Choice::Quit;
        },
    };
    if word.is_empty() || same_text(word, "0") || same_text(word, "q") || same_text(word, "Q") {
        Choice::Quit
    } else if same_text(word, "1") {
        Choice::Fetch
    } else if same_text(word, "2") {
        Choice::Edit
    } else if same_text(word, "3") {
        Choice::Status
    } else if same_text(word, "4") {
        Choice::Push
    } else if same_text(word, "5") {
        Choice::Pull
    } else if same_text(word, "6") {
        Choice::Info
    } else {
        Choice::Unknown(word.to_owned())
    }
}

/// The command that a choice stands for.
pub open spec fn command_in(choice: ChoiceView) -> Option<Command> {
    match choice {
        ChoiceView::Fetch => Some(Command::Fetch),
        ChoiceView::Edit => Some(Command::Edit),
        ChoiceView::Status => Some(Command::Status),
        ChoiceView::Push => Some(Command::Push),
        ChoiceView::Pull => Some(Command::Pull),
        ChoiceView::Info => Some(Command::Info),
        ChoiceView::Quit => None,
        ChoiceView::Unknown(_) => None,
    }
}

/// The command that a choice stands for; none where it leaves the menu, or is no choice.
pub fn menu_command(choice: &Choice) -> (r: Option<Command>)
    ensures
        r == command_in(choice@),
{
    match choice {
        Choice::Fetch => Some(Command::Fetch),
        Choice::Edit => Some(Command::Edit),
        Choice::Status => Some(Command::Status),
        Choice::Push => Some(Command::Push),
        Choice::Pull => Some(Command::Pull),
        Choice::Info => Some(Command::Info),
        Choice::Quit => None,
        Choice::Unknown(_) => None,
    }
}

/// How the menu goes on.
#[derive(Debug, Clone, Copy, PartialEq, Eq, Structural)]
pub enum MenuStep {
    /// It is left, without an error.
    End,
    /// It is shown again.
    Again,
    /// The failure of the command is reported, and the menu is shown again.
    Report,
}

/// How the menu goes on after a choice: it ends exactly where it is left, and a failed command does
/// not end it. The failure is reported, but for that of a session, which is passed over.
pub open spec fn step_of(choice: ChoiceView, failed: bool) -> MenuStep {
    if choice is Quit {
        MenuStep::End
    } else if failed && !(choice is Edit) {
        MenuStep::Report
    } else {
        MenuStep::Again
    }
}

/// How the menu goes on after a choice; `failed` says whether its command failed.
pub fn after_choice(choice: &Choice, failed: bool) -> (r: MenuStep)
    ensures
        r == step_of(choice@, failed),
{
    match choice {
        Choice::Quit => MenuStep::End,
        Choice::Edit => MenuStep::Again,
        _ => if failed {
            MenuStep::Report
        } else {
            MenuStep::Again
        },
    }
}

/// Which mod is picked.
#[derive(Debug)]
pub enum Pick {
    Cancelled,
    /// This mod.
    Mod(String),
    /// There is no such mod.
    Invalid(String),
}

/// Which mod is picked, as a mathematical value.
pub enum PickView {
    Cancelled,
    Mod(Seq<char>),
    Invalid(Seq<char>),
}

impl View for Pick {
    type V = PickView;

    open spec fn view(&self) -> PickView {
        match self {
            Pick::Cancelled => PickView::Cancelled,
            Pick::Mod(id) => PickView::Mod(id@),
            Pick::Invalid(word) => PickView::Invalid(word@),
        }
    }
}

/// Which mod `word` picks: by its number in the list, counted from one, or by its name.
pub open spec fn pick_of(word: Seq<char>) -> PickView {
    let ids = all_ids();
    if word.len() == 0 {
        PickView::Cancelled
    } else if number_in(word) is Some && 1 <= number_in(word)->0 <= ids.len() {
        PickView::Mod(ids[number_in(word)->0 - 1])
    } else if ids.contains(word) {
        PickView::Mod(word)
    } else {
        PickView::Invalid(word)
    }
}

/// Which mod the line that was typed picks; none means that the input has ended.
pub fn pick_mod(line: Option<&str>) -> (r: Pick)
    ensures
        r@ == match line {
            Some(typed) => pick_of(trimmed(typed@)),
            None => PickView::Cancelled,
        },
{
    let word = match line {
        Some(typed) => trim(typed),
        None => {
            return Pick::Cancelled;
        },
    };
    if word.is_empty() {
        return Pick::Cancelled;
    }
    let ids = mod_ids();
    if let Some(number) = parse_number(word) {
        if number >= 1 && number <= ids.len() {
            assert(views(ids@)[number - 1] == ids@[number - 1]@);
            return Pick::Mod(ids[number - 1].clone());
        }
    }
    let mut i: usize = 0;
    while i < ids.len()
        invariant
            i <= ids@.len(),
            views(ids@) == all_ids(),
            line matches Some(typed) && word@ == trimmed(typed@),
            word@.len() > 0,
            number_in(word@) matches Some(n) ==> !(1 <= n <= ids@.len()),
            forall|k: int| 0 <= k < i ==> all_ids()[k] != word@,
        decreases ids@.len() - i,
    {
        assert(all_ids()[i as int] == ids@[i as int]@);
        if same_text(ids[i].as_str(), word) {
            assert(all_ids().contains(word@));
            return Pick::Mod(word.to_owned());
        }
        i = i + 1;
    }
    Pick::Invalid(word.to_owned())
}

/// Where the texts of a mod come from, in short.
pub open spec fn origin_of(source: Source) -> Seq<char> {
    match source {
        Source::Sheet { .. } => "云端可拉取"@,
        Source::LocalOnly => "仅本地"@,
    }
}

/// Where the texts of a mod come from, in short.
pub fn origin(source: Source) -> (r: &'static str)
    ensures
        r@ == origin_of(source),
{
    match source {
        Source::Sheet { .. } => "云端可拉取",
        Source::LocalOnly => "仅本地",
    }
}

/// Where the texts of a mod come from, with the number of the sheet.
pub open spec fn origin_detail_of(source: Source) -> Seq<char> {
    match source {
        Source::Sheet { gid } => "云端 Gid="@ + decimal(gid as nat),
        Source::LocalOnly => "仅本地维护"@,
    }
}

/// Where the texts of a mod come from, with the number of the sheet.
pub fn origin_detail(source: Source) -> (r: String)
    ensures
        r@ == origin_detail_of(source),
{
    match source {
        Source::Sheet { gid } => "云端 Gid=".to_owned().concat(decimal_text(gid).as_str()),
        Source::LocalOnly => "仅本地维护".to_owned(),
    }
}

/// The line of a mod in the menu.
pub fn menu_line(def: &ModDef, p: Progress) -> (r: String)
    ensures
        r@ == "  "@ + left_aligned(def@.id, 20) + " "@ + right_aligned(decimal(p.done as nat), 4)
            + "/"@ + left_aligned(decimal(p.total as nat), 4) + " 已翻译   "@ + origin_of(
            def@.source,
        ),
{
    "  ".to_owned().concat(align_left(def.id, 20).as_str()).concat(" ").concat(
        align_right(decimal_text(p.done as u64).as_str(), 4).as_str(),
    ).concat("/").concat(align_left(decimal_text(p.total as u64).as_str(), 4).as_str()).concat(
        " 已翻译   ",
    ).concat(origin(def.source))
}

/// The line of a mod in the list to pick from, under `number`.
pub fn pick_line(number: usize, def: &ModDef, p: Progress) -> (r: String)
    ensures
        r@ == "  "@ + decimal(number as nat) + ") "@ + left_aligned(def@.id, 20) + " 待翻译 "@
            + decimal(p.missing as nat) + " 条（共 "@ + decimal(p.total as nat) + " 条）"@,
{
    "  ".to_owned().concat(decimal_text(number as u64).as_str()).concat(") ").concat(
        align_left(def.id, 20).as_str(),
    ).concat(" 待翻译 ").concat(decimal_text(p.missing as u64).as_str()).concat(
        " 条（共 ",
    ).concat(decimal_text(p.total as u64).as_str()).concat(" 条）")
}

/// The head of the list of all mods.
pub fn status_head() -> (r: String)
    ensures
        r@ == left_aligned("模组"@, 22) + right_aligned("总数"@, 8) + right_aligned(
            "已翻译"@,
            10,
        ) + right_aligned("未翻译"@, 10) + "  来源"@,
{
    align_left("模组", 22).concat(align_right("总数", 8).as_str()).concat(
        align_right("已翻译", 10).as_str(),
    ).concat(align_right("未翻译", 10).as_str()).concat("  来源")
}

/// The line of a mod in the list of all mods.
pub fn status_line(def: &ModDef, p: Progress) -> (r: String)
    ensures
        r@ == left_aligned(def@.id, 22) + right_aligned(decimal(p.total as nat), 8)
            + right_aligned(decimal(p.done as nat), 10) + right_aligned(
            decimal(p.missing as nat),
            10,
        ) + "  "@ + origin_of(def@.source),
{
    align_left(def.id, 22).concat(
        align_right(decimal_text(p.total as u64).as_str(), 8).as_str(),
    ).concat(align_right(decimal_text(p.done as u64).as_str(), 10).as_str()).concat(
        align_right(decimal_text(p.missing as u64).as_str(), 10).as_str(),
    ).concat("  ").concat(origin(def.source))
}

/// The line of a mod in the overview of the settings; `present` says whether its table is there.
pub fn info_line(def: &ModDef, p: Progress, present: bool) -> (r: String)
    ensures
        r@ == "  "@ + left_aligned(def@.id, 20) + " "@ + left_aligned(
            origin_detail_of(def@.source),
            18,
        ) + " 参考列="@ + left_aligned(def@.reference, 8) + " 本地 "@ + decimal(p.done as nat)
            + " 条  "@ + if present {
            ""@
        } else {
            "（文件缺失）"@
        },
{
    "  ".to_owned().concat(align_left(def.id, 20).as_str()).concat(" ").concat(
        align_left(origin_detail(def.source).as_str(), 18).as_str(),
    ).concat(" 参考列=").concat(align_left(def.reference, 8).as_str()).concat(
        " 本地 ",
    ).concat(decimal_text(p.done as u64).as_str()).concat(" 条  ").concat(
        if present {
            ""
        } else {
            "（文件缺失）"
        },
    )
}

/// What is shown of a setting: `unset` where there is none.
fn shown<'a>(value: &'a Option<String>, unset: &'a str) -> (r: &'a str)
    ensures
        r@ == value_or(opt_view(*value), unset@),
{
    match value {
        Some(v) => v.as_str(),
        None => unset,
    }
}

/// The text for whether there is a token: `unset` where there is none.
pub open spec fn token_remark(token: Option<Seq<char>>, unset: Seq<char>) -> Seq<char> {
    if token is Some {
        "已配置"@
    } else {
        unset
    }
}

/// The lines over the mods in the menu, as mathematical values.
pub open spec fn menu_head_lines(
    state: StateView,
    token: Option<Seq<char>>,
    root: Seq<char>,
    data: Seq<char>,
) -> Seq<Seq<char>> {
    seq![
        "  仓库     : "@ + value_or(state.repo, DEFAULT_REPO@),
        "  分支     : "@ + value_or(state.branch, DEFAULT_BRANCH@),
        "  代理     : "@ + value_or(state.proxy, "（未设置，联网失败时用 --proxy 指定）"@),
        "  令牌     : "@ + token_remark(token, "未配置（上传需要）"@),
        "  仓库根   : "@ + root,
        "  数据目录 : "@ + data,
    ]
}

/// The lines over the mods in the menu; `variable` is the token of the environment.
pub fn menu_head(state: &State, variable: Option<&str>, root: &str, data: &str) -> (r: Vec<String>)
    ensures
        views(r@) == menu_head_lines(
            state@,
            effective_token(opt_str(variable), state@.token),
            root@,
            data@,
        ),
{
    let token = if github_token(variable, state).is_some() {
        "已配置"
    } else {
        "未配置（上传需要）"
    };
    let r: Vec<String> = vec![
        "  仓库     : ".to_owned().concat(state.repo().as_str()),
        "  分支     : ".to_owned().concat(state.branch().as_str()),
        "  代理     : ".to_owned().concat(
            shown(&state.proxy, "（未设置，联网失败时用 --proxy 指定）"),
        ),
        "  令牌     : ".to_owned().concat(token),
        "  仓库根   : ".to_owned().concat(root),
        "  数据目录 : ".to_owned().concat(data),
    ];
    assert(views(r@) =~= menu_head_lines(
        state@,
        effective_token(opt_str(variable), state@.token),
        root@,
        data@,
    ));
    r
}

/// The lines of the overview of the settings, as mathematical values.
pub open spec fn info_head_lines(
    state: StateView,
    token: Option<Seq<char>>,
    settings: Seq<char>,
    root: Seq<char>,
    data: Seq<char>,
) -> Seq<Seq<char>> {
    seq![
        "配置文件   ："@ + settings,
        "仓库       ："@ + value_or(state.repo, DEFAULT_REPO@),
        "分支       ："@ + value_or(state.branch, DEFAULT_BRANCH@),
        "代理       ："@ + value_or(state.proxy, "（未设置，必要时加 --proxy）"@),
        "令牌       ："@ + token_remark(token, "未配置（push 需要）"@),
        "仓库根目录 ："@ + root,
        "数据目录   ："@ + data,
    ]
}

/// The lines of the overview of the settings; `variable` is the token of the environment.
pub fn info_head(
    state: &State,
    variable: Option<&str>,
    settings: &str,
    root: &str,
    data: &str,
) -> (r: Vec<String>)
    ensures
        views(r@) == info_head_lines(
            state@,
            effective_token(opt_str(variable), state@.token),
            settings@,
            root@,
            data@,
        ),
{
    let token = if github_token(variable, state).is_some() {
        "已配置"
    } else {
        "未配置（push 需要）"
    };
    let r: Vec<String> = vec![
        "配置文件   ：".to_owned().concat(settings),
        "仓库       ：".to_owned().concat(state.repo().as_str()),
        "分支       ：".to_owned().concat(state.branch().as_str()),
        "代理       ：".to_owned().concat(shown(&state.proxy, "（未设置，必要时加 --proxy）")),
        "令牌       ：".to_owned().concat(token),
        "仓库根目录 ：".to_owned().concat(root),
        "数据目录   ：".to_owned().concat(data),
    ];
    assert(views(r@) =~= info_head_lines(
        state@,
        effective_token(opt_str(variable), state@.token),
        settings@,
        root@,
        data@,
    ));
    r
}

/// The line that says whether the table at `url` can be reached. A failure is a line like any other.
pub fn reach_line(url: &str, reply: Reply) -> (r: String)
    ensures
        r@ == match text_in(reply@) {
            Ok(_) => "      GitHub 可访问："@ + url@,
            Err(e) => "      GitHub 不可访问（"@ + http_message(e, url@) + "）"@,
        },
{
    match ping(reply) {
        Ok(_) => "      GitHub 可访问：".to_owned().concat(url),
        Err(e) => "      GitHub 不可访问（".to_owned().concat(e.message(url).as_str()).concat("）"),
    }
}

/// What is done when the settings are first written.
pub struct InitPlan {
    /// The directory of the settings, to be made where it is missing.
    pub settings_dir: Location,
    /// The file that the settings are written to.
    pub settings: Location,
    /// The directory of the tables, to be made where it is missing.
    pub data: Location,
}

/// Where the settings are written, and which directories are made for them and for the tables.
pub fn init_plan(env: &Environment, args: &Args) -> (r: InitPlan)
    ensures
        r.settings_dir@ == config_dir(*env),
        r.settings@ == (LocationView {
            base: config_dir(*env).base,
            names: config_dir(*env).names.push("config.json"@),
        }),
        r.data@ == tables_dir(args@),
{
    InitPlan { settings_dir: State::dir(env), settings: State::path(env), data: data_dir(args) }
}

/// The lines that say which settings were written, as mathematical values.
pub open spec fn init_report_lines(
    state: StateView,
    settings: Seq<char>,
    data: Seq<char>,
) -> Seq<Seq<char>> {
    seq![
        "配置已写入："@ + settings,
        "仓库："@ + value_or(state.repo, DEFAULT_REPO@) + "   分支："@ + value_or(
            state.branch,
            DEFAULT_BRANCH@,
        ),
        "代理："@ + value_or(state.proxy, "（未设置）"@),
        "数据目录："@ + data,
    ]
}

/// The lines that say which settings were written, and where the tables are kept.
pub fn init_report(state: &State, settings: &str, data: &str) -> (r: Vec<String>)
    ensures
        views(r@) == init_report_lines(state@, settings@, data@),
{
    let r: Vec<String> = vec![
        "配置已写入：".to_owned().concat(settings),
        "仓库：".to_owned().concat(state.repo().as_str()).concat("   分支：").concat(
            state.branch().as_str(),
        ),
        "代理：".to_owned().concat(shown(&state.proxy, "（未设置）")),
        "数据目录：".to_owned().concat(data),
    ];
    assert(views(r@) =~= init_report_lines(state@, settings@, data@));
    r
}

/// Whether the editor stands on a console that may close: it has a window, and its output is not
/// redirected.
pub fn is_console_attached(window: bool, redirected: bool) -> (r: bool)
    ensures
        r == (window && !redirected),
{
    window && !redirected
}

/// Whether the editor waits for a key before it ends: only where it was started without any words,
/// as by a double click, and stands on a console that may close.
pub fn waits_at_end(words: usize, attached: bool) -> (r: bool)
    ensures
        r == (words == 0 && attached),
{
    words == 0 && attached
}

} // verus!
