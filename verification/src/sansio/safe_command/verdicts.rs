//! What holds of commands that are found to be read-only.
use vstd::prelude::*;
use vstd::string::*;

use super::{
    base_name, dash_dash, known_branch_option, known_read_option, lemma_dash_dash, option_key,
    safe_read_only, Safety,
};
use crate::text::{find_from, lemma_find_from, split_at, views};

verus! {

proof fn lemma_base(s: Seq<char>)
    ensures
        split_at(s, '/').len() > 0,
        base_name(s).len() <= s.len(),
        s.skip(s.len() - base_name(s).len()) == base_name(s),
        !base_name(s).contains('/'),
        base_name(s).len() < s.len() ==> s[s.len() - base_name(s).len() - 1] == '/',
    decreases s.len(),
{
    let at = find_from(s, '/', 0);
    lemma_find_from(s, '/', 0);
    if at < s.len() {
        let rest = s.skip(at + 1);
        lemma_base(rest);
        let n = base_name(rest).len();
        assert(split_at(s, '/') == seq![s.take(at)] + split_at(rest, '/'));
        assert(base_name(s) == base_name(rest));
        assert(s.skip(s.len() - n) =~= rest.skip(rest.len() - n));
        if n < rest.len() {
            assert(s[s.len() - n - 1] == rest[rest.len() - n - 1]);
        }
    } else {
        assert(split_at(s, '/') == seq![s]);
        assert(s.skip(0) =~= s);
        assert(base_name(s) == s);
        if s.contains('/') {
            let i = choose|i: int| 0 <= i < s.len() && s[i] == '/';
            assert(s[i] != '/');
        }
    }
}

/// A command is found to be read-only only if the program is `git`, under
/// that name or behind a slash, and the subcommand is one that reads, or
/// `branch` or `remote`.
pub proof fn law_only_reading_subcommands_are_safe(argv: &Vec<String>, r: Safety)
    requires
        call_ensures(safe_read_only, (argv,), r),
        r is Safe,
    ensures
        argv@.len() >= 2,
        argv@[0]@ == "git"@ || (argv@[0]@.len() > 3 && argv@[0]@.skip(argv@[0]@.len() - 3) == "git"@
            && argv@[0]@[argv@[0]@.len() - 4] == '/'),
        argv@[1]@ == "status"@ || argv@[1]@ == "diff"@ || argv@[1]@ == "log"@ || argv@[1]@ == "show"@
            || argv@[1]@ == "ls-files"@ || argv@[1]@ == "ls-tree"@ || argv@[1]@ == "rev-parse"@
            || argv@[1]@ == "describe"@ || argv@[1]@ == "shortlog"@ || argv@[1]@ == "blame"@
            || argv@[1]@ == "branch"@ || argv@[1]@ == "remote"@,
{
    let v = views(argv@);
    assert(v.len() == argv@.len());
    assert(r@ is Safe);
    assert(v[0] == argv@[0]@);
    lemma_base(v[0]);
    reveal_strlit("git");
    assert("git"@.len() == 3);
    assert(v.skip(1).len() == v.len() - 1);
    assert(v.skip(1)[0] == v[1]);
    assert(v[1] == argv@[1]@);
    if v[0].len() == 3 {
        assert(v[0].skip(0) =~= v[0]);
    }
}

/// Where a reading subcommand is safe, each option before the first `--` is
/// one that is known, and the paths are exactly the words behind it. Without
/// a `--` there are none.
pub proof fn law_reading_subcommands_tell_their_paths(
    argv: &Vec<String>,
    r: Safety,
    end: int,
)
    requires
        call_ensures(safe_read_only, (argv,), r),
        argv@.len() >= 2,
        super::reading_subcommand(argv@[1]@),
        2 <= end <= argv@.len(),
        forall|i: int| 2 <= i < end ==> (#[trigger] argv@[i])@ != "--"@,
        end < argv@.len() ==> argv@[end]@ == "--"@,
    ensures
        r matches Safety::Safe { paths } ==> {
            &&& forall|i: int|
                2 <= i < end && (#[trigger] argv@[i])@.len() > 0 && argv@[i]@[0] == '-'
                    ==> known_read_option(option_key(argv@[i]@))
            &&& views(paths@) == if end < argv@.len() {
                views(argv@).skip(end + 1)
            } else {
                Seq::empty()
            }
        },
        argv@[0]@ == "git"@ && (forall|i: int|
            2 <= i < end && (#[trigger] argv@[i])@.len() > 0 && argv@[i]@[0] == '-'
                ==> known_read_option(option_key(argv@[i]@))) && !super::is_option(argv@[1]@)
            ==> r is Safe,
{
    let v = views(argv@);
    assert(v.len() == argv@.len());
    assert(v[0] == argv@[0]@ && v[1] == argv@[1]@);
    let args = v.skip(1);
    assert(args[0] == v[1]);
    let rest = args.skip(1);
    assert(rest =~= v.skip(2));
    lemma_dash_dash(rest, 0);
    let d = dash_dash(rest, 0);
    assert(d == end - 2) by {
        if d < end - 2 {
            assert(rest[d] == argv@[d + 2]@);
        } else if d > end - 2 {
            assert(rest[end - 2] == argv@[end]@);
        }
    }
    if let Safety::Safe { paths } = r {
        assert forall|i: int|
            2 <= i < end && (#[trigger] argv@[i])@.len() > 0 && argv@[i]@[0]
                == '-' implies known_read_option(option_key(argv@[i]@)) by {
            assert(rest[i - 2] == argv@[i]@);
        }
        if end < argv@.len() {
            assert(rest.skip(d + 1) =~= v.skip(end + 1));
        }
    }
    if argv@[0]@ == "git"@ && (forall|i: int|
        2 <= i < end && (#[trigger] argv@[i])@.len() > 0 && argv@[i]@[0] == '-'
            ==> known_read_option(option_key(argv@[i]@))) && !super::is_option(argv@[1]@) {
        reveal_strlit("git");
        lemma_find_from("git"@, '/', 0);
        assert(find_from("git"@, '/', 0) == 3);
        assert(split_at("git"@, '/') == seq!["git"@]);
        assert(base_name(v[0]) == "git"@);
        assert(forall|i: int| 0 <= i < d ==> #[trigger] rest[i] == argv@[i + 2]@);
        assert(r@ is Safe);
    }
}

/// The key of an option is what stands before the first equals sign.
pub proof fn law_values_are_no_part_of_a_key(a: Seq<char>, b: Seq<char>)
    requires
        !a.contains('='),
    ensures
        option_key(a + "="@ + b) == a,
        option_key(a) == a,
{
    reveal_strlit("=");
    let s = a + "="@ + b;
    lemma_find_from(s, '=', 0);
    lemma_find_from(a, '=', 0);
    assert(s[a.len() as int] == '=');
    let at = find_from(s, '=', 0);
    if at < a.len() {
        assert(a[at] == '=');
    }
    assert(s.take(at) =~= a);
    let end = find_from(a, '=', 0);
    if end < a.len() {
        assert(a[end] == '=');
    }
    assert(a.take(end) =~= a);
}

/// `git branch` is safe only where every word behind it is an option that
/// lists, and `git remote` only where it lists, or shows something and has no
/// other option; neither has paths.
pub proof fn law_branches_and_remotes_are_only_listed(argv: &Vec<String>, r: Safety)
    requires
        call_ensures(safe_read_only, (argv,), r),
        argv@.len() >= 2,
        r is Safe,
    ensures
        argv@[1]@ == "branch"@ ==> r->paths@.len() == 0 && forall|i: int|
            2 <= i < argv@.len() ==> known_branch_option((#[trigger] argv@[i])@),
        argv@[1]@ == "remote"@ ==> r->paths@.len() == 0 && (argv@.len() == 2 || (argv@.len() == 3
            && (argv@[2]@ == "-v"@ || argv@[2]@ == "--verbose"@)) || ((argv@[2]@ == "show"@
            || argv@[2]@ == "get-url"@) && forall|i: int|
            3 <= i < argv@.len() && (#[trigger] argv@[i])@.len() > 0 ==> argv@[i]@[0] != '-')),
{
    let v = views(argv@);
    assert(v.len() == argv@.len());
    assert(forall|i: int| 0 <= i < v.len() ==> #[trigger] argv@[i]@ == v[i]);
    let args = v.skip(1);
    let rest = args.skip(1);
    assert(rest =~= v.skip(2));
    assert(args[0] == v[1]);
    assert(r@ is Safe);
    reveal_strlit("status");
    reveal_strlit("diff");
    reveal_strlit("log");
    reveal_strlit("show");
    reveal_strlit("ls-files");
    reveal_strlit("ls-tree");
    reveal_strlit("rev-parse");
    reveal_strlit("describe");
    reveal_strlit("shortlog");
    reveal_strlit("blame");
    reveal_strlit("branch");
    reveal_strlit("remote");
    assert("branch"@.len() == 6 && "branch"@[0] == 'b');
    assert("status"@.len() == 6 && "status"@[0] == 's');
    assert("remote"@.len() == 6 && "remote"@[0] == 'r');
    assert(views(r->paths@).len() == r->paths@.len());
    if argv@[1]@ == "branch"@ {
        assert forall|i: int| 2 <= i < argv@.len() implies known_branch_option(
            (#[trigger] argv@[i])@,
        ) by {
            assert(rest[i - 2] == argv@[i]@);
        }
    }
    if argv@[1]@ == "remote"@ && argv@.len() > 2 {
        assert(rest[0] == argv@[2]@);
        assert forall|i: int|
            3 <= i < argv@.len() && (#[trigger] argv@[i])@.len() > 0 && (argv@[2]@ == "show"@
                || argv@[2]@ == "get-url"@) implies argv@[i]@[0] != '-' by {
            assert(rest[i - 2] == argv@[i]@);
        }
    }
}

} // verus!
