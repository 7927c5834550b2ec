//! Laws of the command line, of the settings and of the menu.

use vstd::prelude::*;

use crate::args::{
    chosen_mods, command_of, commit_message_of, file_name_of, first_fault, overridden, read_words,
    remote_path_of, tables_dir, ArgsStopView, ArgsView, Command, Kind, ModFault,
};
use crate::config::{
    all_ids, catalogue, config_dir, find_in, loaded, sheet_address, sheet_ids, token_in, BaseView, Environment,
    ModView, StateView, DATA_DIR, DEFAULT_BRANCH, DEFAULT_REPO, SHEET_DOC,
};
use crate::laws::{law_blank, law_number_reads_back};
use crate::laws_sync::all_white;
use crate::laws_text::law_trim_is_unique;
use crate::menu::{pick_of, step_of, ChoiceView, MenuStep, PickView};
use crate::text::{decimal, joined, number_in, whitespace};

verus! {

broadcast use vstd::seq::group_seq_axioms;

/// A command line is read word by word. An option takes the word after it, whatever that is, and
/// sets nothing else; a later one counts. The first word that is no option is the command, and the
/// others follow it in order. A call for help and an option that is not known end the reading.
pub proof fn law_words(words: Seq<Seq<char>>, at: int, args: ArgsView)
    requires
        0 <= at < words.len(),
    ensures
        read_words(words, words.len() as int, args) == Ok::<ArgsView, ArgsStopView>(args),
        at + 1 < words.len() ==> ({
            let value = Some(words[at + 1]);
            let read = read_words(words, at, args);
            &&& words[at] == "--repo"@ ==> read == read_words(
                words,
                at + 2,
                ArgsView { repo: value, ..args },
            )
            &&& words[at] == "--branch"@ ==> read == read_words(
                words,
                at + 2,
                ArgsView { branch: value, ..args },
            )
            &&& words[at] == "--proxy"@ ==> read == read_words(
                words,
                at + 2,
                ArgsView { proxy: value, ..args },
            )
            &&& words[at] == "--data"@ ==> read == read_words(
                words,
                at + 2,
                ArgsView { data: value, ..args },
            )
            &&& words[at] == "--token"@ ==> read == read_words(
                words,
                at + 2,
                ArgsView { token: value, ..args },
            )
        }),
        at + 1 == words.len() ==> ({
            let read = read_words(words, at, args);
            &&& words[at] == "--repo"@ ==> read == Ok::<ArgsView, ArgsStopView>(
                ArgsView { repo: None, ..args },
            )
            &&& words[at] == "--branch"@ ==> read == Ok::<ArgsView, ArgsStopView>(
                ArgsView { branch: None, ..args },
            )
            &&& words[at] == "--proxy"@ ==> read == Ok::<ArgsView, ArgsStopView>(
                ArgsView { proxy: None, ..args },
            )
            &&& words[at] == "--data"@ ==> read == Ok::<ArgsView, ArgsStopView>(
                ArgsView { data: None, ..args },
            )
            &&& words[at] == "--token"@ ==> read == Ok::<ArgsView, ArgsStopView>(
                ArgsView { token: None, ..args },
            )
        }),
        words[at] == "--base"@ ==> read_words(words, at, args) == read_words(
            words,
            at + 1,
            ArgsView { base: true, ..args },
        ),
        words[at] == "-h"@ || words[at] == "--help"@ ==> read_words(words, at, args) == Err::<
            ArgsView,
            ArgsStopView,
        >(ArgsStopView::Help),
        known_option(words[at]) || !(words[at].len() > 0 && words[at][0] == '-') || read_words(
            words,
            at,
            args,
        ) == Err::<ArgsView, ArgsStopView>(ArgsStopView::Unknown(words[at])),
        words[at].len() == 0 || words[at][0] != '-' ==> read_words(words, at, args) == read_words(
            words,
            at + 1,
            if args.command is None {
                ArgsView { command: Some(words[at]), ..args }
            } else {
                ArgsView { rest: args.rest.push(words[at]), ..args }
            },
        ),
{
    reveal_strlit("-h");
    reveal_strlit("--help");
    reveal_strlit("--base");
    reveal_strlit("--repo");
    reveal_strlit("--branch");
    reveal_strlit("--proxy");
    reveal_strlit("--data");
    reveal_strlit("--token");
    assert("--help"@[2] == 'h' && "--base"@[2] == 'b' && "--repo"@[2] == 'r' && "--branch"@[2]
        == 'b' && "--proxy"@[2] == 'p' && "--data"@[2] == 'd' && "--token"@[2] == 't');
    assert("--base"@.len() == 6 && "--branch"@.len() == 8 && "-h"@.len() == 2);
    assert("-h"@[0] == '-' && "--help"@[0] == '-' && "--base"@[0] == '-' && "--repo"@[0] == '-'
        && "--branch"@[0] == '-' && "--proxy"@[0] == '-' && "--data"@[0] == '-' && "--token"@[0]
        == '-');
}

/// Whether `word` is one of the options.
pub open spec fn known_option(word: Seq<char>) -> bool {
    word == "-h"@ || word == "--help"@ || word == "--base"@ || word == "--repo"@ || word
        == "--branch"@ || word == "--proxy"@ || word == "--data"@ || word == "--token"@
}

/// Whether a mod may be named: it is one of the catalogue and, for a fetch, has a spreadsheet.
pub open spec fn may_be_named(name: Seq<char>, fetch: bool) -> bool {
    find_in(catalogue(), name) matches Some(def) && (fetch ==> def.source is Sheet)
}

/// Where mods are named, exactly these are chosen, in their order, whatever is chosen where none
/// is.
pub proof fn law_named_mods(names: Seq<Seq<char>>, default: Seq<Seq<char>>, fetch: bool)
    requires
        names.len() > 0,
        forall|i: int| 0 <= i < names.len() ==> may_be_named(#[trigger] names[i], fetch),
    ensures
        chosen_mods(names, default, fetch) == Ok::<Seq<Seq<char>>, ModFault>(names),
{
    lemma_faultless(names, fetch);
}

proof fn lemma_faultless(names: Seq<Seq<char>>, fetch: bool)
    requires
        forall|i: int| 0 <= i < names.len() ==> may_be_named(#[trigger] names[i], fetch),
    ensures
        first_fault(names, fetch) is None,
    decreases names.len(),
{
    if names.len() > 0 {
        let rest = names.drop_first();
        assert(may_be_named(names[0], fetch));
        assert forall|i: int| 0 <= i < rest.len() implies may_be_named(
            #[trigger] rest[i],
            fetch,
        ) by {
            assert(rest[i] == names[i + 1]);
        }
        lemma_faultless(rest, fetch);
    }
}

/// Where a name is wrong, nothing is chosen, and the first wrong name is blamed: it is unknown, or
/// for a fetch without a spreadsheet. Where no name is given, the default is chosen.
pub proof fn law_wrong_mods(
    names: Seq<Seq<char>>,
    default: Seq<Seq<char>>,
    fetch: bool,
    at: int,
)
    ensures
        chosen_mods(Seq::empty(), default, fetch) == Ok::<Seq<Seq<char>>, ModFault>(default),
        0 <= at < names.len() && !may_be_named(names[at], fetch) && (forall|k: int|
            0 <= k < at ==> may_be_named(#[trigger] names[k], fetch)) ==> chosen_mods(
            names,
            default,
            fetch,
        ) == Err::<Seq<Seq<char>>, ModFault>(
            if find_in(catalogue(), names[at]) is None {
                ModFault::Unknown(names[at])
            } else {
                ModFault::NoSheet(names[at])
            },
        ),
    decreases names.len(),
{
    if 0 <= at < names.len() && !may_be_named(names[at], fetch) && (forall|k: int|
        0 <= k < at ==> may_be_named(#[trigger] names[k], fetch)) {
        if at > 0 {
            let rest = names.drop_first();
            assert(may_be_named(names[0], fetch));
            assert(rest[at - 1] == names[at]);
            assert forall|k: int| 0 <= k < at - 1 implies may_be_named(
                #[trigger] rest[k],
                fetch,
            ) by {
                assert(rest[k] == names[k + 1]);
            }
            law_wrong_mods(rest, default, fetch, at - 1);
        }
    }
}

/// What is found under a name has the name and stands in the list, before all others with it;
/// nothing is found exactly where no one has the name.
pub proof fn law_find(ms: Seq<ModView>, id: Seq<char>)
    ensures
        match find_in(ms, id) {
            Some(def) => def.id == id && ms.contains(def),
            None => forall|i: int| 0 <= i < ms.len() ==> (#[trigger] ms[i]).id != id,
        },
    decreases ms.len(),
{
    if ms.len() > 0 {
        let rest = ms.drop_first();
        law_find(rest, id);
        assert(ms[0] == ms.first());
        match find_in(rest, id) {
            Some(def) => {
                let k = choose|k: int| 0 <= k < rest.len() && rest[k] == def;
                assert(ms[k + 1] == def);
            },
            None => {
                if ms[0].id != id {
                    assert forall|i: int| 0 <= i < ms.len() implies (#[trigger] ms[i]).id != id by {
                        if i > 0 {
                            assert(rest[i - 1] == ms[i]);
                        }
                    }
                }
            },
        }
    }
}

/// The mods with a spreadsheet are found one by one, in order.
pub proof fn law_sheet_ids(a: Seq<ModView>, b: Seq<ModView>, def: ModView)
    ensures
        sheet_ids(a + b) == sheet_ids(a) + sheet_ids(b),
        sheet_ids(seq![def]) == if def.source is Sheet {
            seq![def.id]
        } else {
            Seq::empty()
        },
        all_ids().len() == catalogue().len(),
        forall|i: int| 0 <= i < catalogue().len() ==> #[trigger] all_ids()[i] == catalogue()[i].id,
    decreases b.len(),
{
    assert(seq![def].drop_last() =~= Seq::<ModView>::empty());
    assert(sheet_ids(seq![def].drop_last()) =~= Seq::<Seq<char>>::empty());
    assert(Seq::<Seq<char>>::empty().push(def.id) =~= seq![def.id]);
    if b.len() > 0 {
        law_sheet_ids(a, b.drop_last(), def);
        assert((a + b).drop_last() =~= a + b.drop_last());
        assert((a + b).last() == b.last());
        assert(sheet_ids(a + b) =~= sheet_ids(a) + sheet_ids(b));
    } else {
        assert(a + b =~= a);
        assert(sheet_ids(a) + sheet_ids(b) =~= sheet_ids(a));
    }
}

/// A setting of the command line goes before a stored one, and each sets only itself.
pub proof fn law_overrides(state: StateView, args: ArgsView)
    ensures
        overridden(state, args).repo == if args.repo is Some {
            args.repo
        } else {
            state.repo
        },
        overridden(state, args).branch == if args.branch is Some {
            args.branch
        } else {
            state.branch
        },
        overridden(state, args).token == if args.token is Some {
            args.token
        } else {
            state.token
        },
        overridden(state, args).proxy == if args.proxy is Some {
            args.proxy
        } else {
            state.proxy
        },
        overridden(overridden(state, args), args) == overridden(state, args),
{
}

/// Stored settings are kept as they are; only a repository or a branch that is not set gets its
/// default.
pub proof fn law_loaded(stored: StateView)
    ensures
        loaded(Some(stored)).token == stored.token,
        loaded(Some(stored)).proxy == stored.proxy,
        loaded(Some(stored)).repo == if stored.repo is Some {
            stored.repo
        } else {
            Some(DEFAULT_REPO@)
        },
        loaded(Some(stored)).branch == if stored.branch is Some {
            stored.branch
        } else {
            Some(DEFAULT_BRANCH@)
        },
        loaded(None).token is None && loaded(None).proxy is None,
        loaded(None).repo == Some(DEFAULT_REPO@),
        loaded(None).branch == Some(DEFAULT_BRANCH@),
{
}

/// A token is what was given without the white space around it, and there is none exactly where
/// nothing but white space was given.
pub proof fn law_token_in(before: Seq<char>, token: Seq<char>, after: Seq<char>, value: Seq<char>)
    ensures
        token_in(None) is None,
        token_in(Some(value)) is None <==> all_white(value),
        all_white(before) && all_white(after) && token.len() > 0 && !whitespace(token.first())
            && !whitespace(token.last()) ==> token_in(Some(before + token + after)) == Some(token),
{
    law_blank(value);
    if all_white(before) && all_white(after) && token.len() > 0 && !whitespace(token.first())
        && !whitespace(token.last()) {
        law_trim_is_unique(before, token, after);
    }
}

/// The directory of the settings that was asked for goes before all others and is taken as it is;
/// next come the application data, the user settings and the home directory, each with a directory
/// of the editor's own below it.
pub proof fn law_config_dir(env: Environment, other: Environment)
    ensures
        env.home_override matches Some(dir) ==> config_dir(env).base == BaseView::Directory(dir@)
            && config_dir(env).names.len() == 0,
        env.home_override is None ==> (env.app_data matches Some(dir) ==> config_dir(env).base
            == BaseView::Directory(dir@) && config_dir(env).names.len() == 1),
        env.home_override is None && env.app_data is None ==> (env.config_home matches Some(dir)
            ==> config_dir(env).base == BaseView::Directory(dir@) && config_dir(env).names.len()
            == 1),
        env.home_override is None && env.app_data is None && env.config_home is None ==> (
        env.home matches Some(dir) ==> config_dir(env).base == BaseView::Directory(dir@)
            && config_dir(env).names.len() == 2),
        env.home_override is Some && other.home_override == env.home_override ==> config_dir(other)
            == config_dir(env),
        env.home_override is None && other.home_override is None && env.app_data is Some
            && other.app_data == env.app_data ==> config_dir(other) == config_dir(env),
{
}

/// Each command has one word, and no other word is a command.
pub proof fn law_commands(a: Seq<char>, b: Seq<char>)
    ensures
        command_of(a) is Some && command_of(a) == command_of(b) ==> a == b,
        command_of(a) is Some ==> a == "help"@ || a == "init"@ || a == "auth"@ || a == "info"@ || a
            == "status"@ || a == "fetch"@ || a == "edit"@ || a == "review"@ || a == "save"@ || a
            == "push"@ || a == "pull"@ || a == "data"@,
        command_of("push"@) == Some(Command::Push),
        command_of("pull"@) == Some(Command::Pull),
{
    reveal_strlit("help");
    reveal_strlit("init");
    reveal_strlit("auth");
    reveal_strlit("info");
    reveal_strlit("status");
    reveal_strlit("fetch");
    reveal_strlit("edit");
    reveal_strlit("review");
    reveal_strlit("save");
    reveal_strlit("push");
    reveal_strlit("pull");
    assert("help"@[0] == 'h' && "init"@[0] == 'i' && "auth"@[0] == 'a' && "info"@[0] == 'i'
        && "edit"@[0] == 'e' && "save"@[0] == 's' && "push"@[0] == 'p' && "pull"@[0] == 'p');
    assert("push"@[2] == 's' && "pull"@[2] == 'l');
}

/// A word picks by its number where it is the number of a mod, and else by name; what is neither
/// picks nothing, and only an empty word cancels.
pub proof fn law_pick(word: Seq<char>, i: int)
    ensures
        pick_of(word) is Cancelled <==> word.len() == 0,
        word.len() > 0 && 1 <= i <= all_ids().len() && number_in(word) == Some(i as nat) ==> pick_of(
            word,
        ) == PickView::Mod(all_ids()[i - 1]),
        word.len() > 0 && (number_in(word) matches Some(n) ==> n == 0 || n > all_ids().len())
            && all_ids().contains(word) ==> pick_of(word) == PickView::Mod(word),
        word.len() > 0 && (number_in(word) matches Some(n) ==> n == 0 || n > all_ids().len())
            && !all_ids().contains(word) ==> pick_of(word) == PickView::Invalid(word),
        pick_of(word) matches PickView::Mod(id) ==> all_ids().contains(id),
{
    if pick_of(word) is Mod && number_in(word) is Some && 1 <= number_in(word)->0
        <= all_ids().len() {
        assert(all_ids().contains(all_ids()[number_in(word)->0 - 1]));
    }
}

/// The menu ends only where it is left; a command that failed is reported, but for a session.
pub proof fn law_menu_step(choice: ChoiceView, failed: bool)
    ensures
        step_of(choice, failed) == MenuStep::End <==> choice is Quit,
        step_of(choice, failed) == MenuStep::Report ==> failed,
        failed && !(choice is Quit) && !(choice is Edit) ==> step_of(choice, failed)
            == MenuStep::Report,
        step_of(ChoiceView::Edit, failed) == MenuStep::Again,
{
}

/// The file of a mod stands in the repository where it stands below the root here, under one name;
/// and no two files share a name.
pub proof fn law_paths(args: ArgsView, mod_id: Seq<char>, kind: Kind)
    ensures
        args.data is None ==> tables_dir(args).base is Root && joined(
            tables_dir(args).names.push(file_name_of(mod_id, kind)),
            "/"@,
        ) == remote_path_of(mod_id, kind),
        args.data matches Some(dir) ==> tables_dir(args).base == BaseView::Directory(dir)
            && tables_dir(args).names.len() == 0,
        file_name_of(mod_id, Kind::Chinese) != file_name_of(mod_id, Kind::BaseEnglish),
        remote_path_of(mod_id, Kind::Chinese) != remote_path_of(mod_id, Kind::BaseEnglish),
        commit_message_of(mod_id, Kind::Chinese) != commit_message_of(mod_id, Kind::BaseEnglish),
{
    reveal_strlit("ChineseSimplified");
    reveal_strlit("BaseEnglish");
    reveal_strlit("更新简体中文汉化表");
    reveal_strlit("更新原文兜底表");
    let a = file_name_of(mod_id, Kind::Chinese);
    let b = file_name_of(mod_id, Kind::BaseEnglish);
    assert(a.len() != b.len());
    assert(remote_path_of(mod_id, Kind::Chinese).len() != remote_path_of(
        mod_id,
        Kind::BaseEnglish,
    ).len());
    assert(commit_message_of(mod_id, Kind::Chinese).len() != commit_message_of(
        mod_id,
        Kind::BaseEnglish,
    ).len());
    if args.data is None {
        let names = seq![DATA_DIR@].push(file_name_of(mod_id, kind));
        assert(names.drop_last() =~= seq![DATA_DIR@]);
        assert(joined(seq![DATA_DIR@], "/"@) == DATA_DIR@);
    }
}

/// Every sheet has its own address, below that of the document.
pub proof fn law_sheet_address(a: u64, b: u64)
    ensures
        sheet_address(a) == sheet_address(b) ==> a == b,
        SHEET_DOC@.is_prefix_of(sheet_address(a)),
        decimal(a as nat).is_suffix_of(sheet_address(a)),
{
    let x = decimal(a as nat);
    let y = decimal(b as nat);
    let head = SHEET_DOC@ + "/gviz/tq?tqx=out:json&tq&gid="@;
    assert(sheet_address(a) =~= head + x);
    assert(sheet_address(b) =~= head + y);
    assert((head + x).skip(head.len() as int) =~= x);
    assert((head + y).skip(head.len() as int) =~= y);
    law_number_reads_back(a as nat);
    law_number_reads_back(b as nat);
    assert((head + x).take(SHEET_DOC@.len() as int) =~= SHEET_DOC@);
    assert((head + x).skip((head + x).len() - x.len()) =~= x);
}

} // verus!
