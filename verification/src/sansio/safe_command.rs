//! Commands that can be seen to be read-only.
//!
//! From the argv alone this module decides whether a command cannot write,
//! open a socket or spawn a process, and which of its words are paths that it
//! reads. It fails closed: whatever it does not know makes a command unsafe.
use vstd::prelude::*;
use vstd::string::*;

pub mod verdicts;

use crate::text::{chars_of, find_char, find_from, same, split, split_at, string_of, views};

verus! {

/// The verdict for one invocation.
#[derive(Debug, Clone, PartialEq, Eq)]
pub enum Safety {
    /// The invocation is read-only, provided that every path lies inside a
    /// granted root.
    Safe { paths: Vec<String> },
    /// Not known to be safe.
    NotSafe,
}

/// A [`Safety`] as a mathematical value.
#[verifier::ext_equal]
pub enum SafetyModel {
    Safe { paths: Seq<Seq<char>> },
    NotSafe,
}

impl View for Safety {
    type V = SafetyModel;

    open spec fn view(&self) -> SafetyModel {
        match self {
            Safety::Safe { paths } => SafetyModel::Safe { paths: views(paths@) },
            Safety::NotSafe => SafetyModel::NotSafe,
        }
    }
}

/// Whether a word is an option.
pub open spec fn is_option(arg: Seq<char>) -> bool {
    arg.len() > 0 && arg[0] == '-'
}

fn looks_like_option(arg: &str) -> (r: bool)
    ensures
        r == is_option(arg@),
{
    !arg.is_empty() && arg.get_char(0) == '-'
}

/// The option without the value that is attached to it.
pub open spec fn option_key(arg: Seq<char>) -> Seq<char> {
    arg.take(find_from(arg, '=', 0))
}

/// The options of reading subcommands that are known not to write.
pub open spec fn known_read_option(key: Seq<char>) -> bool {
    ||| key == "-s"@
    ||| key == "--short"@
    ||| key == "--branch"@
    ||| key == "--ahead-behind"@
    ||| key == "--no-ahead-behind"@
    ||| key == "--untracked-files"@
    ||| key == "--column"@
    ||| key == "--no-column"@
    ||| key == "--no-pager"@
    ||| key == "-p"@
    ||| key == "--patch"@
    ||| key == "--stat"@
    ||| key == "--shortstat"@
    ||| key == "--numstat"@
    ||| key == "--name-only"@
    ||| key == "--name-status"@
    ||| key == "--color"@
    ||| key == "--no-color"@
    ||| key == "--oneline"@
    ||| key == "--graph"@
    ||| key == "--decorate"@
    ||| key == "--no-decorate"@
    ||| key == "--abbrev-commit"@
    ||| key == "--pretty"@
    ||| key == "--format"@
    ||| key == "--date"@
    ||| key == "--relative"@
    ||| key == "--no-renames"@
    ||| key == "-M"@
    ||| key == "-C"@
    ||| key == "--find-renames"@
    ||| key == "--find-copies"@
    ||| key == "--find-copies-harder"@
    ||| key == "--follow"@
    ||| key == "--find-object"@
    ||| key == "--unified"@
    ||| key == "-U"@
    ||| key == "--word-diff"@
    ||| key == "--ignore-all-space"@
    ||| key == "-w"@
    ||| key == "--ignore-space-change"@
    ||| key == "-b"@
    ||| key == "--ignore-blank-lines"@
    ||| key == "--check"@
    ||| key == "--ext-diff"@
    ||| key == "--no-ext-diff"@
    ||| key == "--textconv"@
    ||| key == "--no-textconv"@
    ||| key == "--submodule"@
    ||| key == "--pickaxe-all"@
    ||| key == "--pickaxe-regex"@
    ||| key == "-S"@
    ||| key == "-G"@
    ||| key == "--diff-filter"@
    ||| key == "--src-prefix"@
    ||| key == "--dst-prefix"@
    ||| key == "--line-prefix"@
    ||| key == "-n"@
    ||| key == "--max-count"@
    ||| key == "--skip"@
    ||| key == "--since"@
    ||| key == "--after"@
    ||| key == "--until"@
    ||| key == "--before"@
    ||| key == "--author"@
    ||| key == "--committer"@
    ||| key == "--grep"@
    ||| key == "-i"@
    ||| key == "--regexp-ignore-case"@
    ||| key == "--all"@
    ||| key == "--branches"@
    ||| key == "--tags"@
    ||| key == "--remotes"@
    ||| key == "--no-walk"@
    ||| key == "--first-parent"@
    ||| key == "--merges"@
    ||| key == "--no-merges"@
    ||| key == "--reverse"@
    ||| key == "--topo-order"@
    ||| key == "--date-order"@
    ||| key == "--author-date-order"@
    ||| key == "--left-right"@
    ||| key == "--cherry-pick"@
    ||| key == "--count"@
    ||| key == "--walk-reflogs"@
    ||| key == "--no-patch"@
    ||| key == "--exit-code"@
    ||| key == "--quiet"@
    ||| key == "-z"@
    ||| key == "--stage"@
    ||| key == "--long"@
    ||| key == "-l"@
    ||| key == "--dirty"@
    ||| key == "--always"@
    ||| key == "--abbrev"@
    ||| key == "--show-toplevel"@
    ||| key == "--is-inside-work-tree"@
    ||| key == "--is-bare-repository"@
    ||| key == "--show-cdup"@
    ||| key == "--show-prefix"@
    ||| key == "--verify"@
    ||| key == "-e"@
    ||| key == "--line-porcelain"@
    ||| key == "--porcelain"@
    ||| key == "-L"@
    ||| key == "-f"@
    ||| key == "-c"@
    ||| key == "--diff"@
    ||| key == "--contents"@
    ||| key == "--exclude"@
    ||| key == "--exclude-standard"@
    ||| key == "--others"@
    ||| key == "-o"@
    ||| key == "--ignored"@
    ||| key == "-d"@
    ||| key == "--directory"@
    ||| key == "--no-empty-directory"@
    ||| key == "--deleted"@
    ||| key == "-m"@
    ||| key == "--modified"@
    ||| key == "--unmerged"@
    ||| key == "-u"@
    ||| key == "--killed"@
    ||| key == "--error-unmatch"@
}

fn is_known_read_option(key: &str) -> (r: bool)
    ensures
        r == known_read_option(key@),
{
    same(key, "-s")
        || same(key, "--short")
        || same(key, "--branch")
        || same(key, "--ahead-behind")
        || same(key, "--no-ahead-behind")
        || same(key, "--untracked-files")
        || same(key, "--column")
        || same(key, "--no-column")
        || same(key, "--no-pager")
        || same(key, "-p")
        || same(key, "--patch")
        || same(key, "--stat")
        || same(key, "--shortstat")
        || same(key, "--numstat")
        || same(key, "--name-only")
        || same(key, "--name-status")
        || same(key, "--color")
        || same(key, "--no-color")
        || same(key, "--oneline")
        || same(key, "--graph")
        || same(key, "--decorate")
        || same(key, "--no-decorate")
        || same(key, "--abbrev-commit")
        || same(key, "--pretty")
        || same(key, "--format")
        || same(key, "--date")
        || same(key, "--relative")
        || same(key, "--no-renames")
        || same(key, "-M")
        || same(key, "-C")
        || same(key, "--find-renames")
        || same(key, "--find-copies")
        || same(key, "--find-copies-harder")
        || same(key, "--follow")
        || same(key, "--find-object")
        || same(key, "--unified")
        || same(key, "-U")
        || same(key, "--word-diff")
        || same(key, "--ignore-all-space")
        || same(key, "-w")
        || same(key, "--ignore-space-change")
        || same(key, "-b")
        || same(key, "--ignore-blank-lines")
        || same(key, "--check")
        || same(key, "--ext-diff")
        || same(key, "--no-ext-diff")
        || same(key, "--textconv")
        || same(key, "--no-textconv")
        || same(key, "--submodule")
        || same(key, "--pickaxe-all")
        || same(key, "--pickaxe-regex")
        || same(key, "-S")
        || same(key, "-G")
        || same(key, "--diff-filter")
        || same(key, "--src-prefix")
        || same(key, "--dst-prefix")
        || same(key, "--line-prefix")
        || same(key, "-n")
        || same(key, "--max-count")
        || same(key, "--skip")
        || same(key, "--since")
        || same(key, "--after")
        || same(key, "--until")
        || same(key, "--before")
        || same(key, "--author")
        || same(key, "--committer")
        || same(key, "--grep")
        || same(key, "-i")
        || same(key, "--regexp-ignore-case")
        || same(key, "--all")
        || same(key, "--branches")
        || same(key, "--tags")
        || same(key, "--remotes")
        || same(key, "--no-walk")
        || same(key, "--first-parent")
        || same(key, "--merges")
        || same(key, "--no-merges")
        || same(key, "--reverse")
        || same(key, "--topo-order")
        || same(key, "--date-order")
        || same(key, "--author-date-order")
        || same(key, "--left-right")
        || same(key, "--cherry-pick")
        || same(key, "--count")
        || same(key, "--walk-reflogs")
        || same(key, "--no-patch")
        || same(key, "--exit-code")
        || same(key, "--quiet")
        || same(key, "-z")
        || same(key, "--stage")
        || same(key, "--long")
        || same(key, "-l")
        || same(key, "--dirty")
        || same(key, "--always")
        || same(key, "--abbrev")
        || same(key, "--show-toplevel")
        || same(key, "--is-inside-work-tree")
        || same(key, "--is-bare-repository")
        || same(key, "--show-cdup")
        || same(key, "--show-prefix")
        || same(key, "--verify")
        || same(key, "-e")
        || same(key, "--line-porcelain")
        || same(key, "--porcelain")
        || same(key, "-L")
        || same(key, "-f")
        || same(key, "-c")
        || same(key, "--diff")
        || same(key, "--contents")
        || same(key, "--exclude")
        || same(key, "--exclude-standard")
        || same(key, "--others")
        || same(key, "-o")
        || same(key, "--ignored")
        || same(key, "-d")
        || same(key, "--directory")
        || same(key, "--no-empty-directory")
        || same(key, "--deleted")
        || same(key, "-m")
        || same(key, "--modified")
        || same(key, "--unmerged")
        || same(key, "-u")
        || same(key, "--killed")
        || same(key, "--error-unmatch")
}

/// The options of `git branch` that only list.
pub open spec fn known_branch_option(key: Seq<char>) -> bool {
    ||| key == "-a"@
    ||| key == "--all"@
    ||| key == "-r"@
    ||| key == "--remotes"@
    ||| key == "-v"@
    ||| key == "-vv"@
    ||| key == "--verbose"@
    ||| key == "--list"@
    ||| key == "--show-current"@
    ||| key == "--color"@
    ||| key == "--no-color"@
    ||| key == "--format"@
    ||| key == "--sort"@
    ||| key == "--merged"@
    ||| key == "--no-merged"@
    ||| key == "--contains"@
    ||| key == "--no-contains"@
    ||| key == "--points-at"@
}

fn is_known_branch_option(key: &str) -> (r: bool)
    ensures
        r == known_branch_option(key@),
{
    same(key, "-a")
        || same(key, "--all")
        || same(key, "-r")
        || same(key, "--remotes")
        || same(key, "-v")
        || same(key, "-vv")
        || same(key, "--verbose")
        || same(key, "--list")
        || same(key, "--show-current")
        || same(key, "--color")
        || same(key, "--no-color")
        || same(key, "--format")
        || same(key, "--sort")
        || same(key, "--merged")
        || same(key, "--no-merged")
        || same(key, "--contains")
        || same(key, "--no-contains")
        || same(key, "--points-at")
}

/// The subcommands that only read.
pub open spec fn reading_subcommand(name: Seq<char>) -> bool {
    ||| name == "status"@
    ||| name == "diff"@
    ||| name == "log"@
    ||| name == "show"@
    ||| name == "ls-files"@
    ||| name == "ls-tree"@
    ||| name == "rev-parse"@
    ||| name == "describe"@
    ||| name == "shortlog"@
    ||| name == "blame"@
}

fn is_reading_subcommand(name: &str) -> (r: bool)
    ensures
        r == reading_subcommand(name@),
{
    same(name, "status") || same(name, "diff") || same(name, "log") || same(name, "show") || same(
        name,
        "ls-files",
    ) || same(name, "ls-tree") || same(name, "rev-parse") || same(name, "describe") || same(
        name,
        "shortlog",
    ) || same(name, "blame")
}

/// Where the first `--` stands among words, or their number.
pub open spec fn dash_dash(args: Seq<Seq<char>>, from: int) -> int
    decreases args.len() - from,
{
    if from < 0 || from >= args.len() {
        args.len() as int
    } else if args[from] == "--"@ {
        from
    } else {
        dash_dash(args, from + 1)
    }
}

/// A reading subcommand is safe where every option before the first `--` is
/// known. What follows the `--` are paths.
pub open spec fn read_verdict(args: Seq<Seq<char>>) -> SafetyModel {
    let end = dash_dash(args, 0);
    if exists|i: int|
        0 <= i < end && is_option(#[trigger] args[i]) && !known_read_option(option_key(args[i])) {
        SafetyModel::NotSafe
    } else if end < args.len() {
        SafetyModel::Safe { paths: args.skip(end + 1) }
    } else {
        SafetyModel::Safe { paths: Seq::empty() }
    }
}

/// `git branch` is safe where every word is a known listing option.
pub open spec fn branch_verdict(args: Seq<Seq<char>>) -> SafetyModel {
    if forall|i: int| 0 <= i < args.len() ==> known_branch_option(#[trigger] args[i]) {
        SafetyModel::Safe { paths: Seq::empty() }
    } else {
        SafetyModel::NotSafe
    }
}

/// `git remote` is safe where it lists, or where it shows something without
/// any option.
pub open spec fn remote_verdict(args: Seq<Seq<char>>) -> SafetyModel {
    if args.len() == 0 || (args.len() == 1 && (args[0] == "-v"@ || args[0] == "--verbose"@)) || ((
    args[0] == "show"@ || args[0] == "get-url"@) && forall|i: int|
        1 <= i < args.len() ==> !is_option(#[trigger] args[i])) {
        SafetyModel::Safe { paths: Seq::empty() }
    } else {
        SafetyModel::NotSafe
    }
}

/// The verdict for the words behind `git`.
pub open spec fn git_verdict(args: Seq<Seq<char>>) -> SafetyModel {
    if args.len() == 0 || is_option(args[0]) {
        SafetyModel::NotSafe
    } else if reading_subcommand(args[0]) {
        read_verdict(args.skip(1))
    } else if args[0] == "branch"@ {
        branch_verdict(args.skip(1))
    } else if args[0] == "remote"@ {
        remote_verdict(args.skip(1))
    } else {
        SafetyModel::NotSafe
    }
}

/// The last component of a program's path.
pub open spec fn base_name(program: Seq<char>) -> Seq<char> {
    split_at(program, '/').last()
}

/// The verdict for a command. Only `git` is known.
pub open spec fn verdict(argv: Seq<Seq<char>>) -> SafetyModel {
    if argv.len() > 0 && base_name(argv[0]) == "git"@ {
        git_verdict(argv.skip(1))
    } else {
        SafetyModel::NotSafe
    }
}

/// An option that is not known makes a command unsafe, wherever it stands
/// before the first `--`.
pub proof fn law_unknown_options_fail_closed(argv: Seq<Seq<char>>, i: int)
    requires
        2 <= i < argv.len(),
        is_option(argv[i]),
        !known_read_option(option_key(argv[i])),
        !known_branch_option(argv[i]),
        forall|j: int| 2 <= j <= i ==> #[trigger] argv[j] != "--"@,
    ensures
        verdict(argv) == SafetyModel::NotSafe,
{
    let args = argv.skip(1).skip(1);
    assert(args[i - 2] == argv[i]);
    assert(argv.skip(1)[0] == argv[1]);
    reveal_strlit("show");
    reveal_strlit("get-url");
    assert("show"@[0] == 's' && "get-url"@[0] == 'g');
    lemma_dash_dash(args, 0);
    if dash_dash(args, 0) <= i - 2 {
        assert(args[dash_dash(args, 0)] == argv[dash_dash(args, 0) + 2]);
    }
}

/// Where the first `--` is.
pub proof fn lemma_dash_dash(args: Seq<Seq<char>>, from: int)
    requires
        0 <= from <= args.len(),
    ensures
        from <= dash_dash(args, from) <= args.len(),
        dash_dash(args, from) < args.len() ==> args[dash_dash(args, from)] == "--"@,
        forall|i: int| from <= i < dash_dash(args, from) ==> #[trigger] args[i] != "--"@,
    decreases args.len() - from,
{
    if from < args.len() && args[from] != "--"@ {
        lemma_dash_dash(args, from + 1);
    }
}

/// Every path that is reported is a word of the command behind a `--`.
pub proof fn law_paths_stand_behind_dashes(argv: Seq<Seq<char>>)
    ensures
        verdict(argv) matches SafetyModel::Safe { paths } ==> paths.len() == 0 || exists|k: int|
            2 <= k < argv.len() && argv[k] == "--"@ && paths == #[trigger] argv.skip(k + 1),
{
    if let SafetyModel::Safe { paths } = verdict(argv) {
        if paths.len() > 0 {
            let args = argv.skip(1).skip(1);
            lemma_dash_dash(args, 0);
            let k = dash_dash(args, 0) + 2;
            assert(argv[k] == args[k - 2]);
            assert(args.skip(k - 1) =~= argv.skip(k + 1));
        }
    }
}

fn option_is_known(arg: &str) -> (r: bool)
    ensures
        r == known_read_option(option_key(arg@)),
{
    let v = chars_of(arg);
    let end = find_char(&v, '=', 0);
    assert(v@.subrange(0, end as int) =~= v@.take(end as int));
    is_known_read_option(string_of(&v, 0, end).as_str())
}

fn safe_git_read(argv: &Vec<String>) -> (r: Safety)
    requires
        argv@.len() >= 2,
    ensures
        r@ == read_verdict(views(argv@).skip(2)),
{
    let ghost args = views(argv@).skip(2);
    let mut i: usize = 2;
    while i < argv.len() && !same(argv[i].as_str(), "--")
        invariant
            2 <= i <= argv@.len(),
            args == views(argv@).skip(2),
            dash_dash(args, i - 2) == dash_dash(args, 0),
            forall|k: int|
                0 <= k < i - 2 ==> !(is_option(#[trigger] args[k]) && !known_read_option(
                    option_key(args[k]),
                )),
        decreases argv@.len() - i,
    {
        assert(args[i - 2] == argv@[i as int]@);
        if looks_like_option(argv[i].as_str()) && !option_is_known(argv[i].as_str()) {
            proof {
                lemma_dash_dash(args, 0);
                lemma_dash_dash(args, i - 2);
            }
            return Safety::NotSafe;
        }
        i = i + 1;
    }
    proof {
        if i < argv@.len() {
            assert(args[i - 2] == argv@[i as int]@);
        }
        assert(dash_dash(args, 0) == i - 2);
    }
    let mut paths: Vec<String> = Vec::new();
    let ghost end = i - 2;
    if i < argv.len() {
        i = i + 1;
        let ghost rest = args.skip(end + 1);
        assert(views(paths@) =~= rest.take(0));
        while i < argv.len()
            invariant
                end + 3 <= i <= argv@.len(),
                0 <= end,
                args == views(argv@).skip(2),
                rest == args.skip(end + 1),
                views(paths@) == rest.take(i - end - 3),
            decreases argv@.len() - i,
        {
            let ghost before = views(paths@);
            paths.push(argv[i].clone());
            proof {
                assert(views(paths@) =~= before.push(argv@[i as int]@));
                assert(rest[i - end - 3] == argv@[i as int]@);
                assert(rest.take(i - end - 2) =~= rest.take(i - end - 3).push(rest[i - end - 3]));
            }
            i = i + 1;
        }
        assert(rest.take(rest.len() as int) =~= rest);
    } else {
        assert(views(paths@) =~= Seq::empty());
    }
    Safety::Safe { paths }
}

fn safe_git_branch(argv: &Vec<String>) -> (r: Safety)
    requires
        argv@.len() >= 2,
    ensures
        r@ == branch_verdict(views(argv@).skip(2)),
{
    let ghost args = views(argv@).skip(2);
    let mut i: usize = 2;
    while i < argv.len()
        invariant
            2 <= i <= argv@.len(),
            args == views(argv@).skip(2),
            forall|k: int| 0 <= k < i - 2 ==> known_branch_option(#[trigger] args[k]),
        decreases argv@.len() - i,
    {
        assert(args[i - 2] == argv@[i as int]@);
        if !is_known_branch_option(argv[i].as_str()) {
            return Safety::NotSafe;
        }
        i = i + 1;
    }
    let paths: Vec<String> = Vec::new();
    assert(views(paths@) =~= Seq::empty());
    Safety::Safe { paths }
}

fn safe_git_remote(argv: &Vec<String>) -> (r: Safety)
    requires
        argv@.len() >= 2,
    ensures
        r@ == remote_verdict(views(argv@).skip(2)),
{
    let ghost args = views(argv@).skip(2);
    let paths: Vec<String> = Vec::new();
    assert(views(paths@) =~= Seq::empty());
    if argv.len() == 2 {
        return Safety::Safe { paths };
    }
    let sub = argv[2].as_str();
    assert(args[0] == sub@);
    if argv.len() == 3 && (same(sub, "-v") || same(sub, "--verbose")) {
        return Safety::Safe { paths };
    }
    if !same(sub, "show") && !same(sub, "get-url") {
        return Safety::NotSafe;
    }
    let mut i: usize = 3;
    while i < argv.len()
        invariant
            3 <= i <= argv@.len(),
            args == views(argv@).skip(2),
            forall|k: int| 1 <= k < i - 2 ==> !is_option(#[trigger] args[k]),
            remote_verdict(args) == SafetyModel::NotSafe || forall|k: int|
                1 <= k < args.len() ==> !is_option(#[trigger] args[k]),
        decreases argv@.len() - i,
    {
        assert(args[i - 2] == argv@[i as int]@);
        if looks_like_option(argv[i].as_str()) {
            return Safety::NotSafe;
        }
        i = i + 1;
    }
    Safety::Safe { paths }
}

/// Decides whether a command is known to be read-only. The program is
/// recognised by the last component of its path.
pub fn safe_read_only(argv: &Vec<String>) -> (r: Safety)
    ensures
        r@ == verdict(views(argv@)),
{
    let ghost all = views(argv@);
    if argv.len() == 0 {
        return Safety::NotSafe;
    }
    let pieces = split(argv[0].as_str(), '/');
    assert(all[0] == argv@[0]@);
    proof {
        lemma_split_not_empty(argv@[0]@, '/');
    }
    let base = &pieces[pieces.len() - 1];
    assert(base@ == views(pieces@).last());
    if !same(base.as_str(), "git") || argv.len() == 1 {
        return Safety::NotSafe;
    }
    let sub = argv[1].as_str();
    assert(all.skip(1)[0] == sub@);
    assert(all.skip(1).skip(1) =~= all.skip(2));
    if looks_like_option(sub) {
        Safety::NotSafe
    } else if is_reading_subcommand(sub) {
        safe_git_read(argv)
    } else if same(sub, "branch") {
        safe_git_branch(argv)
    } else if same(sub, "remote") {
        safe_git_remote(argv)
    } else {
        Safety::NotSafe
    }
}

/// There is always at least one piece.
pub proof fn lemma_split_not_empty(s: Seq<char>, c: char)
    ensures
        split_at(s, c).len() > 0,
{
}

} // verus!
