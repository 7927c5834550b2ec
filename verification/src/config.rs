//! The catalogue of mods, the addresses of their tables, and the editor's settings.

use vstd::prelude::*;

pub use crate::table::Table;
use crate::table::{copy_table, entries};
use crate::text::{
    blank, decimal, decimal_text, is_blank, opt_view, same_text, str_views, trim, trimmed, views,
};

verus! {

broadcast use vstd::seq::group_seq_axioms;

/// The author's spreadsheet document.
pub const SHEET_DOC: &'static str =
    "https://docs.google.com/spreadsheets/d/1kx12GMqK9lgpiZimBSAMdj51xY4IuQUSLXzmQFZ6Sk4";

/// The repository that holds the tables; the mod reads them from there when it starts.
pub const DEFAULT_REPO: &'static str = "FYWanye/JongyeolModsI18n";

/// The branch of the repository.
pub const DEFAULT_BRANCH: &'static str = "main";

/// The directory of the tables in the repository.
pub const DATA_DIR: &'static str = "data";

/// Where the texts of a mod come from.
#[derive(Debug, Clone, Copy, PartialEq, Eq, Structural)]
pub enum Source {
    /// The author's spreadsheet, whose texts can be fetched.
    Sheet { gid: u64 },
    /// No spreadsheet: the table is edited here and uploaded.
    LocalOnly,
}

/// A mod whose texts are translated.
#[derive(Debug, Clone, Copy)]
pub struct ModDef {
    pub id: &'static str,
    pub source: Source,
    /// The column of the spreadsheet to compare with.
    pub reference: &'static str,
}

/// A row of a spreadsheet: a key and its text in each language.
#[derive(Debug)]
pub struct SheetRow {
    pub key: String,
    /// Language name to text.
    pub values: Table,
}

impl Clone for SheetRow {
    fn clone(&self) -> (r: Self)
        ensures
            r.key@ == self.key@,
            entries(r.values) == entries(self.values),
    {
        SheetRow { key: self.key.clone(), values: copy_table(&self.values) }
    }
}

/// A mod as a mathematical value.
pub struct ModView {
    pub id: Seq<char>,
    pub source: Source,
    pub reference: Seq<char>,
}

impl View for ModDef {
    type V = ModView;

    open spec fn view(&self) -> ModView {
        ModView { id: self.id@, source: self.source, reference: self.reference@ }
    }
}

/// The mods, in the order in which they are listed.
pub open spec fn catalogue() -> Seq<ModView> {
    seq![
        ModView {
            id: "JALib"@,
            source: Source::Sheet { gid: 1716850936 },
            reference: "English"@,
        },
        ModView {
            id: "JipperResourcePack"@,
            source: Source::Sheet { gid: 1313107549 },
            reference: "English"@,
        },
        ModView { id: "BetterCalibration"@, source: Source::LocalOnly, reference: "Korean"@ },
    ]
}

/// The mods, in the order in which they are listed.
pub fn mods() -> (r: Vec<ModDef>)
    ensures
        r@.map_values(|d: ModDef| d@) == catalogue(),
{
    let r: Vec<ModDef> = vec![
        ModDef { id: "JALib", source: Source::Sheet { gid: 1716850936 }, reference: "English" },
        ModDef {
            id: "JipperResourcePack",
            source: Source::Sheet { gid: 1313107549 },
            reference: "English",
        },
        ModDef { id: "BetterCalibration", source: Source::LocalOnly, reference: "Korean" },
    ];
    assert(r@.map_values(|d: ModDef| d@) =~= catalogue());
    r
}

/// The address from which the sheet `gid` of the document is fetched.
pub open spec fn sheet_address(gid: u64) -> Seq<char> {
    SHEET_DOC@ + "/gviz/tq?tqx=out:json&tq&gid="@ + decimal(gid as nat)
}

/// The address from which the sheet `gid` of the document is fetched.
pub fn sheet_url(gid: u64) -> (r: String)
    ensures
        r@ == sheet_address(gid),
{
    SHEET_DOC.to_owned().concat("/gviz/tq?tqx=out:json&tq&gid=").concat(decimal_text(gid).as_str())
}

/// The raw address of the table of `mod_id` on GitHub.
pub open spec fn raw_address(repo: Seq<char>, branch: Seq<char>, mod_id: Seq<char>) -> Seq<char> {
    "https://raw.githubusercontent.com/"@ + repo + "/"@ + branch + "/"@ + DATA_DIR@ + "/"@ + mod_id
        + ".ChineseSimplified.json"@
}

/// The raw address of the table of `mod_id` on GitHub; the mod reads it from there too.
pub fn raw_url(repo: &str, branch: &str, mod_id: &str) -> (r: String)
    ensures
        r@ == raw_address(repo@, branch@, mod_id@),
{
    "https://raw.githubusercontent.com/".to_owned().concat(repo).concat("/").concat(branch).concat(
        "/",
    ).concat(DATA_DIR).concat("/").concat(mod_id).concat(".ChineseSimplified.json")
}

/// The first mod of `ms` with the name `id`.
pub open spec fn find_in(ms: Seq<ModView>, id: Seq<char>) -> Option<ModView>
    decreases ms.len(),
{
    if ms.len() == 0 {
        None
    } else if ms.first().id == id {
        Some(ms.first())
    } else {
        find_in(ms.drop_first(), id)
    }
}

/// Whether the texts of a mod come from a spreadsheet.
pub open spec fn sheet_backed(source: Source) -> bool {
    source is Sheet
}

/// The names of the mods of `ms` that have a spreadsheet.
pub open spec fn sheet_ids(ms: Seq<ModView>) -> Seq<Seq<char>>
    decreases ms.len(),
{
    if ms.len() == 0 {
        Seq::empty()
    } else if sheet_backed(ms.last().source) {
        sheet_ids(ms.drop_last()).push(ms.last().id)
    } else {
        sheet_ids(ms.drop_last())
    }
}

/// The mod with the name `mod_id`.
pub fn find_mod(mod_id: &str) -> (r: Option<ModDef>)
    ensures
        match r {
            Some(def) => find_in(catalogue(), mod_id@) == Some(def@),
            None => find_in(catalogue(), mod_id@) is None,
        },
{
    let all = mods();
    let ghost ms = all@.map_values(|d: ModDef| d@);
    let mut i: usize = 0;
    assert(ms.skip(0) == ms);
    while i < all.len()
        invariant
            i <= all@.len(),
            ms == all@.map_values(|d: ModDef| d@),
            ms == catalogue(),
            find_in(ms, mod_id@) == find_in(ms.skip(i as int), mod_id@),
        decreases all@.len() - i,
    {
        assert(ms.skip(i as int).drop_first() == ms.skip(i as int + 1));
        assert(ms.skip(i as int).first() == all@[i as int]@);
        let def = all[i];
        if same_text(def.id, mod_id) {
            return Some(def);
        }
        i = i + 1;
    }
    None
}

/// The names of the mods that have a spreadsheet.
pub fn sheet_backed_ids() -> (r: Vec<&'static str>)
    ensures
        str_views(r@) == sheet_ids(catalogue()),
{
    let all = mods();
    let ghost ms = all@.map_values(|d: ModDef| d@);
    let mut r: Vec<&'static str> = Vec::new();
    let mut i: usize = 0;
    while i < all.len()
        invariant
            i <= all@.len(),
            ms == all@.map_values(|d: ModDef| d@),
            str_views(r@) == sheet_ids(ms.take(i as int)),
        decreases all@.len() - i,
    {
        let ghost before = str_views(r@);
        assert(ms.take(i as int + 1).drop_last() == ms.take(i as int));
        assert(ms.take(i as int + 1).last() == all@[i as int]@);
        let def = all[i];
        match def.source {
            Source::Sheet { gid: _ } => {
                r.push(def.id);
                assert(str_views(r@) == before.push(def.id@));
            },
            Source::LocalOnly => {},
        }
        i = i + 1;
    }
    assert(ms.take(ms.len() as int) == ms);
    r
}

/// The names of all mods.
pub open spec fn all_ids() -> Seq<Seq<char>> {
    catalogue().map_values(|m: ModView| m.id)
}

/// The names of all mods.
pub fn mod_ids() -> (r: Vec<String>)
    ensures
        views(r@) == all_ids(),
{
    let all = mods();
    let ghost ms = all@.map_values(|d: ModDef| d@);
    let mut r: Vec<String> = Vec::new();
    let mut i: usize = 0;
    while i < all.len()
        invariant
            i <= all@.len(),
            ms == all@.map_values(|d: ModDef| d@),
            r@.len() == i,
            forall|k: int| 0 <= k < i ==> (#[trigger] r@[k])@ == ms[k].id,
        decreases all@.len() - i,
    {
        assert(ms[i as int] == all@[i as int]@);
        r.push(all[i].id.to_owned());
        i = i + 1;
    }
    assert(views(r@) == all_ids());
    r
}

/// The editor's settings. They are kept outside the repository, so that the token is never
/// committed.
#[derive(Debug)]
pub struct State {
    pub repo: Option<String>,
    pub branch: Option<String>,
    /// The GitHub token; where it is missing, the environment gives one.
    pub token: Option<String>,
    /// The network proxy.
    pub proxy: Option<String>,
}

/// The settings as a mathematical value.
pub struct StateView {
    pub repo: Option<Seq<char>>,
    pub branch: Option<Seq<char>>,
    pub token: Option<Seq<char>>,
    pub proxy: Option<Seq<char>>,
}

impl View for State {
    type V = StateView;

    open spec fn view(&self) -> StateView {
        StateView {
            repo: opt_view(self.repo),
            branch: opt_view(self.branch),
            token: opt_view(self.token),
            proxy: opt_view(self.proxy),
        }
    }
}

impl Default for State {
    /// Settings in which nothing is set.
    fn default() -> (r: Self)
        ensures
            r@ == (StateView { repo: None, branch: None, token: None, proxy: None }),
    {
        State { repo: None, branch: None, token: None, proxy: None }
    }
}

/// `value`, or `fallback` where there is none.
pub open spec fn value_or(value: Option<Seq<char>>, fallback: Seq<char>) -> Seq<char> {
    match value {
        Some(v) => v,
        None => fallback,
    }
}

/// What the environment says about where the settings are kept.
#[derive(Debug)]
pub struct Environment {
    /// The directory that was asked for by name.
    pub home_override: Option<String>,
    /// The directory for application data, on systems that have one.
    pub app_data: Option<String>,
    /// The directory for user settings.
    pub config_home: Option<String>,
    /// The home directory.
    pub home: Option<String>,
}

/// Where a path starts.
#[derive(Debug)]
pub enum Base {
    /// At this directory.
    Directory(String),
    /// At the root of the repository.
    Root,
}

/// A path: where it starts, and the names that follow.
#[derive(Debug)]
pub struct Location {
    pub base: Base,
    pub names: Vec<String>,
}

/// Where a path starts, as a mathematical value.
pub enum BaseView {
    Directory(Seq<char>),
    Root,
}

/// A path as a mathematical value.
pub struct LocationView {
    pub base: BaseView,
    pub names: Seq<Seq<char>>,
}

impl View for Location {
    type V = LocationView;

    open spec fn view(&self) -> LocationView {
        LocationView {
            base: match self.base {
                Base::Directory(d) => BaseView::Directory(d@),
                Base::Root => BaseView::Root,
            },
            names: views(self.names@),
        }
    }
}

impl Location {
    /// The path with one more name.
    pub fn join(self, name: &str) -> (r: Location)
        ensures
            r@ == (LocationView { base: self@.base, names: self@.names.push(name@) }),
    {
        let mut names = self.names;
        let ghost before = views(names@);
        names.push(name.to_owned());
        assert(views(names@) == before.push(name@));
        Location { base: self.base, names }
    }
}

/// The directory of the settings: the one that was asked for; else a directory of the editor's own
/// below the application data, below the user settings, or below the home directory.
pub open spec fn config_dir(env: Environment) -> LocationView {
    match (env.home_override, env.app_data, env.config_home) {
        (Some(dir), _, _) => LocationView {
            base: BaseView::Directory(dir@),
            names: Seq::empty(),
        },
        (None, Some(dir), _) => LocationView {
            base: BaseView::Directory(dir@),
            names: seq!["JongyeolModsI18n"@],
        },
        (None, None, Some(dir)) => LocationView {
            base: BaseView::Directory(dir@),
            names: seq!["jongyeol-mods-i18n"@],
        },
        (None, None, None) => LocationView {
            base: BaseView::Directory(value_or(opt_view(env.home), "."@)),
            names: seq![".config"@, "jongyeol-mods-i18n"@],
        },
    }
}

impl State {
    /// The directory in which the settings are kept.
    pub fn dir(env: &Environment) -> (r: Location)
        ensures
            r@ == config_dir(*env),
    {
        if let Some(dir) = &env.home_override {
            let r = Location { base: Base::Directory(dir.clone()), names: Vec::new() };
            assert(r@.names =~= config_dir(*env).names);
            return r;
        }
        if let Some(dir) = &env.app_data {
            let r = Location { base: Base::Directory(dir.clone()), names: Vec::new() }.join(
                "JongyeolModsI18n",
            );
            assert(r@.names =~= config_dir(*env).names);
            return r;
        }
        if let Some(dir) = &env.config_home {
            let r = Location { base: Base::Directory(dir.clone()), names: Vec::new() }.join(
                "jongyeol-mods-i18n",
            );
            assert(r@.names =~= config_dir(*env).names);
            return r;
        }
        let home = match &env.home {
            Some(dir) => dir.clone(),
            None => ".".to_owned(),
        };
        let r = Location { base: Base::Directory(home), names: Vec::new() }.join(".config").join(
            "jongyeol-mods-i18n",
        );
        assert(r@.names =~= config_dir(*env).names);
        r
    }

    /// The file in which the settings are kept.
    pub fn path(env: &Environment) -> (r: Location)
        ensures
            r@ == (LocationView {
                base: config_dir(*env).base,
                names: config_dir(*env).names.push("config.json"@),
            }),
    {
        State::dir(env).join("config.json")
    }

    /// The settings to work with, from those that were stored, if any could be read: a repository
    /// or a branch that is not set gets its default.
    pub fn load(stored: Option<State>) -> (r: State)
        ensures
            r@ == loaded(
                match stored {
                    Some(s) => Some(s@),
                    None => None,
                },
            ),
    {
        let mut state = match stored {
            Some(s) => s,
            None => State::default(),
        };
        if state.repo.is_none() {
            state.repo = Some(DEFAULT_REPO.to_owned());
        }
        if state.branch.is_none() {
            state.branch = Some(DEFAULT_BRANCH.to_owned());
        }
        state
    }

    /// The repository to work with.
    pub fn repo(&self) -> (r: String)
        ensures
            r@ == value_or(self@.repo, DEFAULT_REPO@),
    {
        match &self.repo {
            Some(repo) => repo.clone(),
            None => DEFAULT_REPO.to_owned(),
        }
    }

    /// The branch to work with.
    pub fn branch(&self) -> (r: String)
        ensures
            r@ == value_or(self@.branch, DEFAULT_BRANCH@),
    {
        match &self.branch {
            Some(branch) => branch.clone(),
            None => DEFAULT_BRANCH.to_owned(),
        }
    }
}

/// The settings to work with, from those that were stored, if any could be read.
pub open spec fn loaded(stored: Option<StateView>) -> StateView {
    let from = match stored {
        Some(s) => s,
        None => StateView { repo: None, branch: None, token: None, proxy: None },
    };
    StateView {
        repo: Some(value_or(from.repo, DEFAULT_REPO@)),
        branch: Some(value_or(from.branch, DEFAULT_BRANCH@)),
        ..from
    }
}

/// The token in `value`, without white space at its ends; a blank one counts as none.
pub open spec fn token_in(value: Option<Seq<char>>) -> Option<Seq<char>> {
    match value {
        Some(v) => if blank(v) {
            None
        } else {
            Some(trimmed(v))
        },
        None => None,
    }
}

/// The token to work with: that of the environment goes before that of the settings.
pub open spec fn effective_token(variable: Option<Seq<char>>, stored: Option<Seq<char>>) -> Option<
    Seq<char>,
> {
    match token_in(variable) {
        Some(t) => Some(t),
        None => token_in(stored),
    }
}

/// The GitHub token to work with, where `variable` is the one that the environment gives.
pub fn github_token(variable: Option<&str>, state: &State) -> (r: Option<String>)
    ensures
        opt_view(r) == effective_token(
            match variable {
                Some(v) => Some(v@),
                None => None,
            },
            state@.token,
        ),
{
    if let Some(token) = variable {
        if !is_blank(token) {
            return Some(trim(token).to_owned());
        }
    }
    match &state.token {
        Some(token) => if is_blank(token.as_str()) {
            None
        } else {
            Some(trim(token.as_str()).to_owned())
        },
        None => None,
    }
}

/// What a directory holds of the marks of a repository root.
#[derive(Debug, Clone, Copy)]
pub struct RootMarks {
    /// The project file of the mod.
    pub project: bool,
    /// A Cargo manifest.
    pub manifest: bool,
    /// A directory for the tables.
    pub data: bool,
}

/// Which of `levels` is the root of the repository, the working directory first and then upwards:
/// the nearest with the project file; where none has it, the nearest with a Cargo manifest and a
/// directory for the tables.
pub fn workspace_root(levels: &Vec<RootMarks>) -> (r: Option<usize>)
    ensures
        match r {
            Some(at) => at < levels@.len() && (if levels@[at as int].project {
                forall|i: int| 0 <= i < at ==> !(#[trigger] levels@[i]).project
            } else {
                &&& levels@[at as int].manifest && levels@[at as int].data
                &&& forall|i: int| 0 <= i < levels@.len() ==> !(#[trigger] levels@[i]).project
                &&& forall|i: int|
                    0 <= i < at ==> !((#[trigger] levels@[i]).manifest && levels@[i].data)
            }),
            None => forall|i: int|
                0 <= i < levels@.len() ==> !(#[trigger] levels@[i]).project && !(levels@[i].manifest
                    && levels@[i].data),
        },
{
    let mut i: usize = 0;
    while i < levels.len()
        invariant
            i <= levels@.len(),
            forall|k: int| 0 <= k < i ==> !(#[trigger] levels@[k]).project,
        decreases levels@.len() - i,
    {
        if levels[i].project {
            return Some(i);
        }
        i = i + 1;
    }
    let mut j: usize = 0;
    while j < levels.len()
        invariant
            j <= levels@.len(),
            forall|k: int| 0 <= k < levels@.len() ==> !(#[trigger] levels@[k]).project,
            forall|k: int|
                0 <= k < j ==> !((#[trigger] levels@[k]).manifest && levels@[k].data),
        decreases levels@.len() - j,
    {
        if levels[j].manifest && levels[j].data {
            return Some(j);
        }
        j = j + 1;
    }
    None
}

} // verus!
