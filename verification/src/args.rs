//! The command line: options, commands, and which mods and files they mean.

use vstd::prelude::*;

use crate::config::{
    all_ids, catalogue, find_in, find_mod, mod_ids, sheet_backed_ids, sheet_ids, Base, BaseView,
    Location, LocationView, Source, State, StateView, DATA_DIR,
};
use crate::sheet::{available, available_text};
use crate::text::{join, joined, opt_view, owned, same_text, views};

verus! {

broadcast use vstd::seq::group_seq_axioms;

/// What was asked for on the command line.
#[derive(Debug)]
pub struct Args {
    pub repo: Option<String>,
    pub branch: Option<String>,
    pub proxy: Option<String>,
    /// The directory of the tables.
    pub data: Option<String>,
    pub token: Option<String>,
    /// Whether a fetch also writes the reference texts to a file.
    pub base: bool,
    pub command: Option<String>,
    /// What follows the command.
    pub rest: Vec<String>,
}

/// What was asked for, as a mathematical value.
pub struct ArgsView {
    pub repo: Option<Seq<char>>,
    pub branch: Option<Seq<char>>,
    pub proxy: Option<Seq<char>>,
    pub data: Option<Seq<char>>,
    pub token: Option<Seq<char>>,
    pub base: bool,
    pub command: Option<Seq<char>>,
    pub rest: Seq<Seq<char>>,
}

impl View for Args {
    type V = ArgsView;

    open spec fn view(&self) -> ArgsView {
        ArgsView {
            repo: opt_view(self.repo),
            branch: opt_view(self.branch),
            proxy: opt_view(self.proxy),
            data: opt_view(self.data),
            token: opt_view(self.token),
            base: self.base,
            command: opt_view(self.command),
            rest: views(self.rest@),
        }
    }
}

/// Why the command line gives nothing to do.
#[derive(Debug)]
pub enum ArgsStop {
    /// The help was asked for.
    Help,
    /// There is no such option.
    Unknown(String),
}

/// Why the command line gives nothing to do, as a mathematical value.
pub enum ArgsStopView {
    Help,
    Unknown(Seq<char>),
}

impl View for ArgsStop {
    type V = ArgsStopView;

    open spec fn view(&self) -> ArgsStopView {
        match self {
            ArgsStop::Help => ArgsStopView::Help,
            ArgsStop::Unknown(word) => ArgsStopView::Unknown(word@),
        }
    }
}

/// An option that takes the word after it.
#[derive(Clone, Copy)]
pub enum Setting {
    Repo,
    Branch,
    Proxy,
    Data,
    Token,
}

/// The option that `word` names, among those that take the word after it.
pub open spec fn setting_of(word: Seq<char>) -> Option<Setting> {
    if word == "--repo"@ {
        Some(Setting::Repo)
    } else if word == "--branch"@ {
        Some(Setting::Branch)
    } else if word == "--proxy"@ {
        Some(Setting::Proxy)
    } else if word == "--data"@ {
        Some(Setting::Data)
    } else if word == "--token"@ {
        Some(Setting::Token)
    } else {
        None
    }
}

/// The option that `word` names, among those that take the word after it.
fn setting_named(word: &str) -> (r: Option<Setting>)
    ensures
        r == setting_of(word@),
{
    if same_text(word, "--repo") {
        Some(Setting::Repo)
    } else if same_text(word, "--branch") {
        Some(Setting::Branch)
    } else if same_text(word, "--proxy") {
        Some(Setting::Proxy)
    } else if same_text(word, "--data") {
        Some(Setting::Data)
    } else if same_text(word, "--token") {
        Some(Setting::Token)
    } else {
        None
    }
}

impl ArgsView {
    /// Nothing is asked for.
    pub open spec fn empty() -> ArgsView {
        ArgsView {
            repo: None,
            branch: None,
            proxy: None,
            data: None,
            token: None,
            base: false,
            command: None,
            rest: Seq::empty(),
        }
    }

    /// With the option `setting` at `value`.
    pub open spec fn with(self, setting: Setting, value: Option<Seq<char>>) -> ArgsView {
        match setting {
            Setting::Repo => ArgsView { repo: value, ..self },
            Setting::Branch => ArgsView { branch: value, ..self },
            Setting::Proxy => ArgsView { proxy: value, ..self },
            Setting::Data => ArgsView { data: value, ..self },
            Setting::Token => ArgsView { token: value, ..self },
        }
    }

    /// With one more word that is no option: the first is the command.
    pub open spec fn with_word(self, word: Seq<char>) -> ArgsView {
        match self.command {
            None => ArgsView { command: Some(word), ..self },
            Some(_) => ArgsView { rest: self.rest.push(word), ..self },
        }
    }
}

/// What `words` ask for, from the word at `at` on, on top of `args`. An option at the very end
/// has no value.
pub open spec fn read_words(words: Seq<Seq<char>>, at: int, args: ArgsView) -> Result<
    ArgsView,
    ArgsStopView,
>
    decreases words.len() - at,
{
    if at >= words.len() {
        Ok(args)
    } else {
        let word = words[at];
        if word == "-h"@ || word == "--help"@ {
            Err(ArgsStopView::Help)
        } else if setting_of(word) is Some {
            if at + 1 < words.len() {
                read_words(words, at + 2, args.with(setting_of(word)->0, Some(words[at + 1])))
            } else {
                Ok(args.with(setting_of(word)->0, None))
            }
        } else if word == "--base"@ {
            read_words(words, at + 1, ArgsView { base: true, ..args })
        } else if word.len() > 0 && word[0] == '-' {
            Err(ArgsStopView::Unknown(word))
        } else {
            read_words(words, at + 1, args.with_word(word))
        }
    }
}

/// A result as a mathematical value.
pub open spec fn args_result(r: Result<Args, ArgsStop>) -> Result<ArgsView, ArgsStopView> {
    match r {
        Ok(args) => Ok(args@),
        Err(stop) => Err(stop@),
    }
}

/// Reads the words of the command line, without the name of the program.
pub fn parse_args(words: &Vec<String>) -> (r: Result<Args, ArgsStop>)
    ensures
        args_result(r) == read_words(views(words@), 0, ArgsView::empty()),
{
    let mut args = Args {
        repo: None,
        branch: None,
        proxy: None,
        data: None,
        token: None,
        base: false,
        command: None,
        rest: Vec::new(),
    };
    let ghost all = views(words@);
    assert(args@.rest =~= ArgsView::empty().rest);
    let mut i: usize = 0;
    while i < words.len()
        invariant
            i <= words@.len(),
            all == views(words@),
            read_words(all, 0, ArgsView::empty()) == read_words(all, i as int, args@),
        decreases words@.len() - i,
    {
        let n = words.len();
        assert(all[i as int] == words@[i as int]@);
        let word = words[i].as_str();
        if same_text(word, "-h") || same_text(word, "--help") {
            return Err(ArgsStop::Help);
        }
        match setting_named(word) {
            Some(setting) => {
                let value = if i + 1 < n {
                    assert(all[i + 1] == words@[i + 1]@);
                    Some(words[i + 1].clone())
                } else {
                    None
                };
                let ghost before = args@;
                match setting {
                    Setting::Repo => {
                        args.repo = value;
                    },
                    Setting::Branch => {
                        args.branch = value;
                    },
                    Setting::Proxy => {
                        args.proxy = value;
                    },
                    Setting::Data => {
                        args.data = value;
                    },
                    Setting::Token => {
                        args.token = value;
                    },
                }
                assert(args@ == before.with(setting, opt_view(value)));
                if i + 1 < n {
                    i = i + 2;
                } else {
                    i = n;
                }
            },
            None => {
                if same_text(word, "--base") {
                    args.base = true;
                } else if word.unicode_len() > 0 && word.get_char(0) == '-' {
                    return Err(ArgsStop::Unknown(words[i].clone()));
                } else {
                    let ghost before = args@;
                    if args.command.is_none() {
                        args.command = Some(words[i].clone());
                    } else {
                        args.rest.push(words[i].clone());
                        assert(views(args.rest@) == before.rest.push(words@[i as int]@));
                    }
                    assert(args@ == before.with_word(words@[i as int]@));
                }
                i = i + 1;
            },
        }
    }
    Ok(args)
}

impl ArgsStop {
    /// Why the command line gives nothing to do, in words.
    pub open spec fn says(self) -> Seq<char> {
        match self {
            ArgsStop::Help => Seq::empty(),
            ArgsStop::Unknown(word) => "未知选项："@ + word@ + "（用 --help 查看用法）"@,
        }
    }

    /// Why the command line gives nothing to do, in words; nothing where the help was asked for.
    pub fn message(&self) -> (r: String)
        ensures
            r@ == self.says(),
    {
        match self {
            ArgsStop::Help => String::new(),
            ArgsStop::Unknown(word) => "未知选项：".to_owned().concat(word.as_str()).concat(
                "（用 --help 查看用法）",
            ),
        }
    }
}

/// `value`, or `fallback` where there is none.
pub open spec fn either(
    value: Option<Seq<char>>,
    fallback: Option<Seq<char>>,
) -> Option<Seq<char>> {
    match value {
        Some(v) => Some(v),
        None => fallback,
    }
}

/// The settings, with those of the command line in place of the stored ones.
pub open spec fn overridden(state: StateView, args: ArgsView) -> StateView {
    StateView {
        repo: either(args.repo, state.repo),
        branch: either(args.branch, state.branch),
        token: either(args.token, state.token),
        proxy: either(args.proxy, state.proxy),
    }
}

/// The settings, with those of the command line in place of the stored ones.
pub fn apply_overrides(state: &mut State, args: &Args)
    ensures
        final(state)@ == overridden(old(state)@, args@),
{
    if let Some(repo) = &args.repo {
        state.repo = Some(repo.clone());
    }
    if let Some(branch) = &args.branch {
        state.branch = Some(branch.clone());
    }
    if let Some(proxy) = &args.proxy {
        state.proxy = Some(proxy.clone());
    }
    if let Some(token) = &args.token {
        state.token = Some(token.clone());
    }
}

/// Takes over the token that follows the command, if one does; says whether one did.
pub fn take_token(state: &mut State, args: &Args) -> (r: bool)
    ensures
        r == (args@.rest.len() > 0),
        final(state)@ == (StateView {
            token: if args@.rest.len() > 0 {
                Some(args@.rest[0])
            } else {
                old(state)@.token
            },
            ..old(state)@
        }),
{
    if args.rest.len() > 0 {
        assert(args@.rest[0] == args.rest@[0]@);
        state.token = Some(args.rest[0].clone());
        true
    } else {
        false
    }
}

/// Why a mod cannot be worked on.
#[derive(Debug)]
pub enum ModError {
    /// There is no mod of this name.
    Unknown(String),
    /// The mod has no spreadsheet to fetch.
    NoSheet(String),
}

/// Why a mod cannot be worked on, as a mathematical value.
pub enum ModFault {
    Unknown(Seq<char>),
    NoSheet(Seq<char>),
}

impl View for ModError {
    type V = ModFault;

    open spec fn view(&self) -> ModFault {
        match self {
            ModError::Unknown(name) => ModFault::Unknown(name@),
            ModError::NoSheet(name) => ModFault::NoSheet(name@),
        }
    }
}

/// A result as a mathematical value.
pub open spec fn mods_result(r: Result<Vec<String>, ModError>) -> Result<
    Seq<Seq<char>>,
    ModFault,
> {
    match r {
        Ok(names) => Ok(views(names@)),
        Err(e) => Err(e@),
    }
}

/// What is wrong with the first of `names` that is no mod; for a fetch, that is no mod with a
/// spreadsheet.
pub open spec fn first_fault(names: Seq<Seq<char>>, fetch: bool) -> Option<ModFault>
    decreases names.len(),
{
    if names.len() == 0 {
        None
    } else {
        match find_in(catalogue(), names.first()) {
            None => Some(ModFault::Unknown(names.first())),
            Some(def) => if fetch && !(def.source is Sheet) {
                Some(ModFault::NoSheet(names.first()))
            } else {
                first_fault(names.drop_first(), fetch)
            },
        }
    }
}

/// The mods that `names` ask for: those that are named, or all of `default` where none is.
pub open spec fn chosen_mods(
    names: Seq<Seq<char>>,
    default: Seq<Seq<char>>,
    fetch: bool,
) -> Result<Seq<Seq<char>>, ModFault> {
    if names.len() == 0 {
        Ok(default)
    } else {
        match first_fault(names, fetch) {
            Some(fault) => Err(fault),
            None => Ok(names),
        }
    }
}

fn check_mods(names: &Vec<String>, fetch: bool) -> (r: Result<Vec<String>, ModError>)
    ensures
        match first_fault(views(names@), fetch) {
            Some(fault) => r matches Err(e) && e@ == fault,
            None => r matches Ok(same) && views(same@) == views(names@),
        },
{
    let ghost all = views(names@);
    let mut r: Vec<String> = Vec::new();
    let mut i: usize = 0;
    assert(all.skip(0) == all);
    while i < names.len()
        invariant
            i <= names@.len(),
            all == views(names@),
            first_fault(all, fetch) == first_fault(all.skip(i as int), fetch),
            r@.len() == i,
            forall|k: int| 0 <= k < i ==> (#[trigger] r@[k])@ == all[k],
        decreases names@.len() - i,
    {
        assert(all.skip(i as int).drop_first() == all.skip(i as int + 1));
        assert(all[i as int] == names@[i as int]@);
        match find_mod(names[i].as_str()) {
            None => {
                return Err(ModError::Unknown(names[i].clone()));
            },
            Some(def) => {
                let local = match def.source {
                    Source::Sheet { gid: _ } => false,
                    Source::LocalOnly => true,
                };
                if fetch && local {
                    return Err(ModError::NoSheet(names[i].clone()));
                }
            },
        }
        r.push(names[i].clone());
        i = i + 1;
    }
    assert(views(r@) =~= all);
    Ok(r)
}

/// The mods to work on: those that are named, or all where none is.
pub fn target_mods(rest: &Vec<String>) -> (r: Result<Vec<String>, ModError>)
    ensures
        mods_result(r) == chosen_mods(views(rest@), all_ids(), false),
{
    if rest.len() == 0 {
        return Ok(mod_ids());
    }
    check_mods(rest, false)
}

/// The mods to fetch: those that are named, or all with a spreadsheet where none is.
pub fn sheet_mods(rest: &Vec<String>) -> (r: Result<Vec<String>, ModError>)
    ensures
        mods_result(r) == chosen_mods(views(rest@), sheet_ids(catalogue()), true),
{
    if rest.len() == 0 {
        return Ok(owned(&sheet_backed_ids()));
    }
    check_mods(rest, true)
}

/// The names of all mods, in words.
pub open spec fn all_ids_text() -> Seq<char> {
    joined(all_ids(), ", "@)
}

/// The names of all mods, in words.
pub fn all_mod_ids() -> (r: String)
    ensures
        r@ == all_ids_text(),
{
    join(&mod_ids(), ", ")
}

impl ModError {
    /// Why the mod cannot be worked on, in words.
    pub open spec fn says(self) -> Seq<char> {
        match self {
            ModError::Unknown(name) => "未知模组："@ + name@ + "（可用："@ + all_ids_text() + "）"@,
            ModError::NoSheet(name) => name@ + " 没有云端表格，无法 fetch（可用 "@ + available_text()
                + "）"@,
        }
    }

    /// Why the mod cannot be worked on, in words.
    pub fn message(&self) -> (r: String)
        ensures
            r@ == self.says(),
    {
        match self {
            ModError::Unknown(name) => "未知模组：".to_owned().concat(name.as_str()).concat(
                "（可用：",
            ).concat(all_mod_ids().as_str()).concat("）"),
            ModError::NoSheet(name) => name.clone().concat(
                " 没有云端表格，无法 fetch（可用 ",
            ).concat(available().as_str()).concat("）"),
        }
    }
}

/// Where the root of the repository is to be found.
#[derive(Debug)]
pub enum RootPlan {
    /// It is the parent of this directory; the current directory where it has none.
    ParentOf(String),
    /// It is to be looked for upwards of the working directory.
    Search,
}

/// Where the root of the repository is to be found.
pub fn root(args: &Args) -> (r: RootPlan)
    ensures
        match args@.data {
            Some(dir) => r matches RootPlan::ParentOf(d) && d@ == dir,
            None => r is Search,
        },
{
    match &args.data {
        Some(dir) => RootPlan::ParentOf(dir.clone()),
        None => RootPlan::Search,
    }
}

/// The directory of the tables: the one that was asked for, or that of the repository.
pub open spec fn tables_dir(args: ArgsView) -> LocationView {
    match args.data {
        Some(dir) => LocationView { base: BaseView::Directory(dir), names: Seq::empty() },
        None => LocationView { base: BaseView::Root, names: seq![DATA_DIR@] },
    }
}

/// The directory of the tables.
pub fn data_dir(args: &Args) -> (r: Location)
    ensures
        r@ == tables_dir(args@),
{
    let r = match &args.data {
        Some(dir) => Location { base: Base::Directory(dir.clone()), names: Vec::new() },
        None => Location { base: Base::Root, names: Vec::new() }.join(DATA_DIR),
    };
    assert(r@.names =~= tables_dir(args@).names);
    r
}

/// What a file of a mod holds.
#[derive(Debug, Clone, Copy, PartialEq, Eq, Structural)]
pub enum Kind {
    /// The translations.
    Chinese,
    /// The reference texts, for the mod to fall back on.
    BaseEnglish,
}

impl Kind {
    /// How the kind is called in the name of a file.
    pub open spec fn label(self) -> Seq<char> {
        match self {
            Kind::Chinese => "ChineseSimplified"@,
            Kind::BaseEnglish => "BaseEnglish"@,
        }
    }

    /// How the kind is called in the name of a file.
    pub fn name(self) -> (r: &'static str)
        ensures
            r@ == self.label(),
    {
        match self {
            Kind::Chinese => "ChineseSimplified",
            Kind::BaseEnglish => "BaseEnglish",
        }
    }

    /// What the message of a commit says of the kind.
    pub open spec fn remark(self) -> Seq<char> {
        match self {
            Kind::Chinese => "更新简体中文汉化表"@,
            Kind::BaseEnglish => "更新原文兜底表"@,
        }
    }

    /// What the message of a commit says of the kind.
    pub fn note(self) -> (r: &'static str)
        ensures
            r@ == self.remark(),
    {
        match self {
            Kind::Chinese => "更新简体中文汉化表",
            Kind::BaseEnglish => "更新原文兜底表",
        }
    }
}

/// The name of the file of a mod.
pub open spec fn file_name_of(mod_id: Seq<char>, kind: Kind) -> Seq<char> {
    mod_id + "."@ + kind.label() + ".json"@
}

/// The name of the file of a mod.
pub fn file_name(mod_id: &str, kind: Kind) -> (r: String)
    ensures
        r@ == file_name_of(mod_id@, kind),
{
    mod_id.to_owned().concat(".").concat(kind.name()).concat(".json")
}

/// Where the file of a mod is kept here.
pub fn file_path(args: &Args, mod_id: &str, kind: Kind) -> (r: Location)
    ensures
        r@ == (LocationView {
            base: tables_dir(args@).base,
            names: tables_dir(args@).names.push(file_name_of(mod_id@, kind)),
        }),
{
    data_dir(args).join(file_name(mod_id, kind).as_str())
}

/// Where the table of a mod is kept here.
pub fn table_path(args: &Args, mod_id: &str) -> (r: Location)
    ensures
        r@ == (LocationView {
            base: tables_dir(args@).base,
            names: tables_dir(args@).names.push(file_name_of(mod_id@, Kind::Chinese)),
        }),
{
    file_path(args, mod_id, Kind::Chinese)
}

/// Where the file of a mod is kept in the repository.
pub open spec fn remote_path_of(mod_id: Seq<char>, kind: Kind) -> Seq<char> {
    DATA_DIR@ + "/"@ + file_name_of(mod_id, kind)
}

/// Where the file of a mod is kept in the repository.
pub fn remote_path(mod_id: &str, kind: Kind) -> (r: String)
    ensures
        r@ == remote_path_of(mod_id@, kind),
{
    DATA_DIR.to_owned().concat("/").concat(file_name(mod_id, kind).as_str())
}

/// The message of the commit that updates the file of a mod.
pub open spec fn commit_message_of(mod_id: Seq<char>, kind: Kind) -> Seq<char> {
    "i18n("@ + mod_id + "): "@ + kind.remark()
}

/// The message of the commit that updates the file of a mod.
pub fn commit_message(mod_id: &str, kind: Kind) -> (r: String)
    ensures
        r@ == commit_message_of(mod_id@, kind),
{
    "i18n(".to_owned().concat(mod_id).concat("): ").concat(kind.note())
}

/// What the editor is told to do.
#[derive(Debug, Clone, Copy, PartialEq, Eq, Structural)]
pub enum Command {
    Help,
    Init,
    Auth,
    Info,
    Status,
    Fetch,
    Edit,
    Review,
    Save,
    Push,
    Pull,
    Data,
}

/// The command that `word` names.
pub open spec fn command_of(word: Seq<char>) -> Option<Command> {
    if word == "help"@ {
        Some(Command::Help)
    } else if word == "init"@ {
        Some(Command::Init)
    } else if word == "auth"@ {
        Some(Command::Auth)
    } else if word == "info"@ {
        Some(Command::Info)
    } else if word == "status"@ {
        Some(Command::Status)
    } else if word == "fetch"@ {
        Some(Command::Fetch)
    } else if word == "edit"@ {
        Some(Command::Edit)
    } else if word == "review"@ {
        Some(Command::Review)
    } else if word == "save"@ {
        Some(Command::Save)
    } else if word == "push"@ {
        Some(Command::Push)
    } else if word == "pull"@ {
        Some(Command::Pull)
    } else if word == "data"@ {
        Some(Command::Data)
    } else {
        None
    }
}

/// The command that `word` names.
pub fn command(word: &str) -> (r: Option<Command>)
    ensures
        r == command_of(word@),
{
    if same_text(word, "help") {
        Some(Command::Help)
    } else if same_text(word, "init") {
        Some(Command::Init)
    } else if same_text(word, "auth") {
        Some(Command::Auth)
    } else if same_text(word, "info") {
        Some(Command::Info)
    } else if same_text(word, "status") {
        Some(Command::Status)
    } else if same_text(word, "fetch") {
        Some(Command::Fetch)
    } else if same_text(word, "edit") {
        Some(Command::Edit)
    } else if same_text(word, "review") {
        Some(Command::Review)
    } else if same_text(word, "save") {
        Some(Command::Save)
    } else if same_text(word, "push") {
        Some(Command::Push)
    } else if same_text(word, "pull") {
        Some(Command::Pull)
    } else if same_text(word, "data") {
        Some(Command::Data)
    } else {
        None
    }
}

} // verus!
