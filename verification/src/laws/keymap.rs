//! Which key stands for which action, and what a script of keys does.

use vstd::prelude::*;

use crate::laws::text::law_numbers_are_read_back;
use crate::text::number::decimal;
use crate::text::strings::{trim, words};
use crate::ui::automation::{key_for, step_for, step_of, StepView};
use crate::ui::keymap::{
    branches_keys, files_keys, global_keys, repos_keys, staging_keys, stash_keys, view_keys, Action, Binding,
};

verus! {

/// Whether a key stands for an action in a context.
pub open spec fn binds(list: Seq<Binding>, key: &'static str, context: &'static str, action: Action) -> bool {
    exists|i: int|
        0 <= i < list.len() && (#[trigger] list[i]).key == key && list[i].context == context && list[i].action == action
}

/// The keys that work anywhere.
pub proof fn law_keys_anywhere()
    ensures
        binds(global_keys(), "h", "Panels", Action::PrevPanel) && binds(global_keys(), "l", "Panels", Action::NextPanel),
        binds(global_keys(), "tab", "Panels", Action::NextPanel) && binds(
            global_keys(),
            "cmd-r",
            "Panels",
            Action::FocusRepos,
        ) && binds(global_keys(), "ctrl-r", "Panels", Action::FocusRepos),
        binds(global_keys(), "1", "Panels", Action::FocusStatus) && binds(
            global_keys(),
            "2",
            "Panels",
            Action::FocusFiles,
        ) && binds(global_keys(), "3", "Panels", Action::FocusBranches) && binds(
            global_keys(),
            "4",
            "Panels",
            Action::FocusCommits,
        ) && binds(global_keys(), "5", "Panels", Action::FocusStash) && binds(
            global_keys(),
            "0",
            "Panels",
            Action::FocusMain,
        ),
        binds(global_keys(), "}", "Panels", Action::NextRepo) && binds(global_keys(), "{", "Panels", Action::PrevRepo),
        binds(global_keys(), "]", "Panels", Action::NextTab) && binds(global_keys(), "[", "Panels", Action::PrevTab),
        binds(global_keys(), "j", "Panels", Action::SelectNext) && binds(
            global_keys(),
            "k",
            "Panels",
            Action::SelectPrev,
        ),
        global_keys().len() == 28,
{
    let k = global_keys();
    assert(k[0].key == "h" && k[3].key == "l" && k[5].key == "tab" && k[6].key == "cmd-r" && k[7].key == "ctrl-r");
    assert(k[8].key == "1" && k[9].key == "2" && k[10].key == "3" && k[11].key == "4" && k[12].key == "5" && k[13].key
        == "0");
    assert(k[14].key == "}" && k[15].key == "{" && k[16].key == "]" && k[17].key == "[");
    assert(k[18].key == "j" && k[20].key == "k");
}

/// The keys for the screen, for quitting, and for talking to remotes.
pub proof fn law_keys_of_the_screen()
    ensures
        binds(view_keys(), "enter", "Panels", Action::Enter) && binds(view_keys(), "escape", "Panels", Action::Back),
        binds(view_keys(), "/", "Panels", Action::StartFilter) && binds(view_keys(), "?", "Panels", Action::ToggleHelp),
        binds(view_keys(), "+", "Panels", Action::NextScreenMode) && binds(
            view_keys(),
            "_",
            "Panels",
            Action::PrevScreenMode,
        ),
        binds(view_keys(), "@", "Panels", Action::ToggleCommandLog) && binds(
            view_keys(),
            "shift-r",
            "Panels",
            Action::Refresh,
        ),
        binds(view_keys(), "q", "Panels", Action::Quit) && binds(view_keys(), "cmd-q", "Panels", Action::QuitApp),
        binds(view_keys(), "f", "Panels", Action::Fetch) && binds(view_keys(), "p", "Panels", Action::Pull) && binds(
            view_keys(),
            "shift-p",
            "Panels",
            Action::Push,
        ),
{
    let k = view_keys();
    assert(k[6].key == "enter" && k[7].key == "escape" && k[8].key == "/" && k[9].key == "?" && k[10].key == "+"
        && k[11].key == "_" && k[12].key == "@" && k[13].key == "shift-r" && k[14].key == "q" && k[16].key == "cmd-q"
        && k[17].key == "f" && k[18].key == "p" && k[19].key == "shift-p");
}

/// The keys of the list of repos.
pub proof fn law_keys_of_repos()
    ensures
        binds(repos_keys(), "space", "Repos", Action::ToggleMark) && binds(
            repos_keys(),
            "a",
            "Repos",
            Action::ToggleMarkAll,
        ),
        binds(repos_keys(), "c", "Repos", Action::CheckoutByName) && binds(
            repos_keys(),
            "n",
            "Repos",
            Action::NewBranchInRepos,
        ),
        binds(repos_keys(), "m", "Repos", Action::SwitchToDefault) && binds(
            repos_keys(),
            "shift-f",
            "Repos",
            Action::FetchAll,
        ),
        binds(repos_keys(), "shift-u", "Repos", Action::FastForwardAll) && binds(
            repos_keys(),
            "o",
            "Repos",
            Action::OpenInLazygit,
        ),
{
    let k = repos_keys();
    assert(k[0].key == "space" && k[1].key == "a" && k[2].key == "c" && k[3].key == "n" && k[4].key == "m" && k[5].key
        == "shift-f" && k[6].key == "shift-u" && k[7].key == "o");
}

/// The keys of the list of files and of the staging view.
pub proof fn law_keys_of_files()
    ensures
        binds(files_keys(), "space", "Files", Action::ToggleStage) && binds(
            files_keys(),
            "a",
            "Files",
            Action::ToggleStageAll,
        ),
        binds(files_keys(), "c", "Files", Action::Commit) && binds(files_keys(), "shift-a", "Files", Action::Amend),
        binds(files_keys(), "d", "Files", Action::Discard) && binds(files_keys(), "s", "Files", Action::StashAll)
            && binds(files_keys(), "shift-s", "Files", Action::StashOptions),
        binds(staging_keys(), "space", "Staging", Action::ToggleStage) && binds(
            staging_keys(),
            "d",
            "Staging",
            Action::Discard,
        ),
        binds(staging_keys(), "a", "Staging", Action::ToggleSelectHunk) && binds(
            staging_keys(),
            "v",
            "Staging",
            Action::ToggleRangeSelect,
        ),
        binds(staging_keys(), "shift-down", "Staging", Action::RangeSelectDown) && binds(
            staging_keys(),
            "shift-up",
            "Staging",
            Action::RangeSelectUp,
        ),
        binds(staging_keys(), "l", "Staging", Action::NextHunk) && binds(
            staging_keys(),
            "h",
            "Staging",
            Action::PrevHunk,
        ),
        binds(staging_keys(), "right", "Staging", Action::NextHunk) && binds(
            staging_keys(),
            "left",
            "Staging",
            Action::PrevHunk,
        ),
        binds(staging_keys(), "tab", "Staging", Action::ToggleStagingPanel) && binds(
            staging_keys(),
            "c",
            "Staging",
            Action::Commit,
        ),
{
    let f = files_keys();
    let s = staging_keys();
    assert(f[0].key == "space" && f[1].key == "a" && f[2].key == "c" && f[3].key == "shift-a" && f[4].key == "d"
        && f[5].key == "s" && f[6].key == "shift-s");
    assert(s[0].key == "space" && s[1].key == "d" && s[2].key == "a" && s[3].key == "v" && s[4].key == "shift-down"
        && s[5].key == "shift-up" && s[6].key == "l" && s[7].key == "right" && s[8].key == "h" && s[9].key == "left"
        && s[10].key == "tab" && s[11].key == "c");
}

/// The keys of the lists of refs and of stashes.
pub proof fn law_keys_of_refs()
    ensures
        binds(branches_keys(), "space", "Branches", Action::Checkout) && binds(
            branches_keys(),
            "n",
            "Branches",
            Action::NewBranch,
        ),
        binds(branches_keys(), "d", "Branches", Action::DeleteBranch) && binds(
            branches_keys(),
            "f",
            "Branches",
            Action::FastForward,
        ),
        binds(branches_keys(), "-", "Branches", Action::CheckoutPrevious) && binds(
            branches_keys(),
            "u",
            "Branches",
            Action::SetUpstream,
        ),
        binds(branches_keys(), "space", "Remotes", Action::Checkout) && binds(
            branches_keys(),
            "space",
            "Tags",
            Action::Checkout,
        ) && binds(branches_keys(), "space", "Commits", Action::Checkout),
        binds(branches_keys(), "n", "Remotes", Action::NewBranch) && binds(
            branches_keys(),
            "n",
            "Tags",
            Action::NewBranch,
        ) && binds(branches_keys(), "n", "Commits", Action::NewBranch),
        binds(stash_keys(), "space", "Stash", Action::StashApply) && binds(stash_keys(), "g", "Stash", Action::StashPop)
            && binds(stash_keys(), "d", "Stash", Action::StashDrop),
        binds(stash_keys(), "r", "Stash", Action::RenameStash) && binds(
            stash_keys(),
            "n",
            "Stash",
            Action::BranchFromStash,
        ),
{
    let b = branches_keys();
    let s = stash_keys();
    assert(b[0].key == "space" && b[1].key == "n" && b[2].key == "d" && b[3].key == "f" && b[4].key == "-" && b[5].key
        == "u" && b[6].key == "space" && b[7].key == "n" && b[8].key == "space" && b[9].key == "n" && b[10].key
        == "space" && b[11].key == "n");
    assert(s[0].key == "space" && s[1].key == "g" && s[2].key == "d" && s[3].key == "r" && s[4].key == "n");
}

/// What the steps of a script do: wait that long, press those keys, type that text, take a
/// picture there, quit.
pub proof fn law_script_steps(ms: u64, arg: Seq<char>)
    ensures
        step_for("wait"@, decimal(ms as nat)) == StepView::Wait(ms),
        step_for("keys"@, arg) == StepView::Keys(words(arg)) && step_for("key"@, arg) == StepView::Keys(words(arg)),
        step_for("shot"@, arg) == StepView::Shot(trim(arg)),
        step_for("quit"@, arg) is Quit,
        step_for("type"@, arg) matches StepView::Type(keys) && keys.len() == arg.len() && forall|i: int|
            0 <= i < arg.len() ==> #[trigger] keys[i] == key_for(arg[i]),
        step_for("drag"@, arg) == StepView::Drag(words(arg)) && step_for("wheel"@, arg) == StepView::Wheel(words(arg)),
        trim(arg).len() == 0 ==> step_of(arg) is None,
        key_for(' ') == "space"@,
        key_for('A') == "shift-"@.push('a') && key_for('Z') == "shift-"@.push('z') && key_for('a') == seq!['a'],
{
    reveal_strlit("wait");
    assert("wait"@.len() == 4);
    reveal_strlit("keys");
    assert("keys"@.len() == 4);
    reveal_strlit("key");
    assert("key"@.len() == 3);
    reveal_strlit("shot");
    assert("shot"@.len() == 4);
    reveal_strlit("quit");
    assert("quit"@.len() == 4);
    reveal_strlit("type");
    assert("type"@.len() == 4);
    reveal_strlit("drag");
    assert("drag"@.len() == 4);
    reveal_strlit("wheel");
    assert("wheel"@.len() == 5);
    assert("wait"@[0] == 'w' && "keys"@[0] == 'k' && "shot"@[0] == 's' && "quit"@[0] == 'q' && "type"@[0] == 't'
        && "drag"@[0] == 'd');
    law_numbers_are_read_back(0, ms);
}

} // verus!
