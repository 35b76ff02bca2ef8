//! Which rules decide about which calls.
use vstd::prelude::*;
use vstd::string::*;

use super::{
    applies, chain, components_of, evaluate, evaluate_read, evaluate_write, is_component, judged,
    law_last_match_wins, law_no_match_is_pending, lies_under, path_components, Authorization,
    DecisionModel, Judgment, JudgmentModel, PermissionKind, RuleModel, RuleScope, ScopedRules,
    Target,
};
use crate::text::laws::law_pieces_add_up;
use crate::text::{lemma_find_from, split_at, views};

verus! {

/// Whether a rule is about commands and an argv starts with its words: there
/// is at least one, and each of them is the word of the argv at its place.
pub open spec fn starts_with_words(r: RuleModel, argv: Seq<Seq<char>>) -> bool {
    &&& r.kind is Command
    &&& 0 < r.args_prefix.len() <= argv.len()
    &&& forall|k: int|
        0 <= k < r.args_prefix.len() ==> #[trigger] r.args_prefix[k] == argv[k]
}

proof fn lemma_words(r: RuleModel, argv: Seq<Seq<char>>)
    ensures
        applies(r, PermissionKind::Command, Target::Argv(argv)) == starts_with_words(r, argv),
{
    let p = r.args_prefix;
    if p.len() <= argv.len() {
        if starts_with_words(r, argv) {
            assert(p =~= argv.subrange(0, p.len() as int));
        } else if p.len() > 0 && p.is_prefix_of(argv) {
            assert forall|k: int| 0 <= k < p.len() implies #[trigger] p[k] == argv[k] by {
                assert(argv.subrange(0, p.len() as int)[k] == argv[k]);
            }
        }
    }
}

/// A command rule of which a single word differs from the argv, or to which
/// the argv has no word, leaves the call to the user.
pub proof fn law_each_word_must_fit(
    scope: RuleScope,
    r: RuleModel,
    argv: Seq<Seq<char>>,
    k: int,
)
    requires
        r.kind is Command,
        0 <= k < r.args_prefix.len(),
        k >= argv.len() || r.args_prefix[k] != argv[k],
    ensures
        judged(seq![(scope, r)], PermissionKind::Command, Target::Argv(argv)) is Pending,
{
    lemma_words(r, argv);
    law_no_match_is_pending(seq![(scope, r)], PermissionKind::Command, Target::Argv(argv));
}

/// Of command rules, the last one with whose words the argv starts decides:
/// the call runs without asking where that rule allows it, and is denied where
/// it does not. The decision names the words and the scope of that rule.
pub proof fn law_last_fitting_words_decide(
    before: Seq<(RuleScope, RuleModel)>,
    rule: (RuleScope, RuleModel),
    after: Seq<(RuleScope, RuleModel)>,
    argv: Seq<Seq<char>>,
)
    requires
        starts_with_words(rule.1, argv),
        forall|i: int|
            0 <= i < after.len() ==> !starts_with_words((#[trigger] after[i]).1, argv),
    ensures
        decides(
            judged(before.push(rule) + after, PermissionKind::Command, Target::Argv(argv)),
            rule,
            rule.1.args_prefix,
        ),
{
    let target = Target::Argv(argv);
    lemma_words(rule.1, argv);
    assert forall|i: int| 0 <= i < after.len() implies !applies(
        (#[trigger] after[i]).1,
        PermissionKind::Command,
        target,
    ) by {
        lemma_words(after[i].1, argv);
    }
    law_last_match_wins(before, rule, after, PermissionKind::Command, target);
    super::lemma_deciding_match(before, rule, after, PermissionKind::Command, target);
}

/// Whether a judgment is what a rule says, and names its words.
pub open spec fn decides(
    j: JudgmentModel,
    rule: (RuleScope, RuleModel),
    words: Seq<Seq<char>>,
) -> bool {
    &&& rule.1.allow ==> j is AutoApprove && names(j->AutoApprove_0, rule, words)
    &&& !rule.1.allow ==> j is AutoDeny && names(j->AutoDeny_0, rule, words)
}

/// Whether a decision names a rule: its scope, what it says and its words, and
/// as the last of the rules that matched, the one that was adopted.
pub open spec fn names(
    d: DecisionModel,
    rule: (RuleScope, RuleModel),
    words: Seq<Seq<char>>,
) -> bool {
    &&& d.scope == rule.0
    &&& d.allowed == rule.1.allow
    &&& d.args_prefix == words
    &&& d.matches.len() > 0
    &&& d.matches.last().adopted
    &&& d.matches.last().scope == rule.0
    &&& d.matches.last().kind == rule.1.kind
    &&& d.matches.last().allow == rule.1.allow
    &&& forall|i: int|
        0 <= i < d.matches.len() - 1 ==> !(#[trigger] d.matches[i]).adopted
}

/// A command with the words of no command rule at its start is left to the user.
pub proof fn law_unfit_words_are_left_to_the_user(
    rules: Seq<(RuleScope, RuleModel)>,
    argv: Seq<Seq<char>>,
)
    requires
        forall|i: int|
            0 <= i < rules.len() ==> !starts_with_words((#[trigger] rules[i]).1, argv),
    ensures
        judged(rules, PermissionKind::Command, Target::Argv(argv)) is Pending,
{
    assert forall|i: int| 0 <= i < rules.len() implies !applies(
        (#[trigger] rules[i]).1,
        PermissionKind::Command,
        Target::Argv(argv),
    ) by {
        lemma_words(rules[i].1, argv);
    }
    law_no_match_is_pending(rules, PermissionKind::Command, Target::Argv(argv));
}

/// Whether a rule is about paths of that kind and holds a path of which each
/// component is the component of the other path at its place.
pub open spec fn holds_path(r: RuleModel, kind: PermissionKind, path: Seq<char>) -> bool {
    let base = path_components(r.path);
    let all = path_components(path);
    &&& r.kind == kind
    &&& r.path.len() > 0
    &&& base.len() <= all.len()
    &&& forall|k: int| 0 <= k < base.len() ==> #[trigger] base[k] == all[k]
}

proof fn lemma_path(r: RuleModel, kind: PermissionKind, path: Seq<char>)
    ensures
        applies(r, kind, Target::Path(path)) == holds_path(r, kind, path),
{
    let base = path_components(r.path);
    let all = path_components(path);
    if base.len() <= all.len() {
        if holds_path(r, kind, path) {
            assert(base =~= all.subrange(0, base.len() as int));
        } else if base.is_prefix_of(all) {
            assert forall|k: int| 0 <= k < base.len() implies #[trigger] base[k] == all[k] by {
                assert(all.subrange(0, base.len() as int)[k] == all[k]);
            }
        }
    }
}

/// Of read rules, or of write rules, the last one that holds the path decides;
/// a path that none holds is left to the user. A read decision names the path
/// of the rule.
pub proof fn law_last_fitting_path_decides(
    before: Seq<(RuleScope, RuleModel)>,
    rule: (RuleScope, RuleModel),
    after: Seq<(RuleScope, RuleModel)>,
    kind: PermissionKind,
    path: Seq<char>,
)
    requires
        !(kind is Command),
        holds_path(rule.1, kind, path),
        forall|i: int|
            0 <= i < after.len() ==> !holds_path((#[trigger] after[i]).1, kind, path),
    ensures
        ({
            let j = judged(before.push(rule) + after, kind, Target::Path(path));
            &&& kind is Read ==> decides(j, rule, seq![rule.1.path])
            &&& kind is Write ==> decides(j, rule, Seq::empty())
        }),
        judged(after, kind, Target::Path(path)) is Pending,
{
    let target = Target::Path(path);
    lemma_path(rule.1, kind, path);
    assert forall|i: int| 0 <= i < after.len() implies !applies(
        (#[trigger] after[i]).1,
        kind,
        target,
    ) by {
        lemma_path(after[i].1, kind, path);
    }
    law_last_match_wins(before, rule, after, kind, target);
    law_no_match_is_pending(after, kind, target);
    super::lemma_deciding_match(before, rule, after, kind, target);
}

/// Whether that can be the name of a file or of a directory.
pub open spec fn plain_name(name: Seq<char>) -> bool {
    &&& name.len() > 0
    &&& name != "."@
    &&& forall|i: int| 0 <= i < name.len() ==> #[trigger] name[i] != '/'
}

proof fn lemma_components_add(a: Seq<Seq<char>>, name: Seq<char>, n: int)
    requires
        0 <= n <= a.len(),
    ensures
        components_of(a + seq![name], n) == components_of(a, n),
    decreases n,
{
    if n > 0 {
        lemma_components_add(a, name, n - 1);
        assert((a + seq![name])[n - 1] == a[n - 1]);
    }
}

/// Behind a slash, a name is one more component of a path.
pub proof fn law_names_are_components(base: Seq<char>, name: Seq<char>)
    requires
        base.len() > 0,
        plain_name(name),
    ensures
        path_components(base + seq!['/'] + name) == path_components(base).push(name),
{
    let path = base + seq!['/'] + name;
    law_pieces_add_up(base, name, '/');
    lemma_find_from(name, '/', 0);
    assert(split_at(name, '/') == seq![name]);
    let a = split_at(base, '/');
    let pieces = split_at(path, '/');
    assert(pieces == a + seq![name]);
    crate::text::laws::law_split_texts_join_back(base, '/');
    let n = a.len() as int;
    lemma_components_add(a, name, n);
    assert(pieces[n] == name);
    assert(is_component(pieces, n));
    assert(components_of(pieces, n + 1) == components_of(a, n).push(name));
    assert(path[0] == base[0]);
    assert(path_components(path) =~= path_components(base).push(name));
}

/// What lies in a directory lies under it, and at any depth; what lies in it
/// under one name does not lie under another.
pub proof fn law_paths_match_on_segments(base: Seq<char>, name: Seq<char>, other: Seq<char>)
    requires
        base.len() > 0,
        plain_name(name),
        plain_name(other),
    ensures
        lies_under(base, base),
        lies_under(base + seq!['/'] + name, base),
        lies_under(base + seq!['/'] + name + seq!['/'] + other, base),
        lies_under(base + seq!['/'] + name, base + seq!['/'] + other) <==> name == other,
        !lies_under(base, base + seq!['/'] + name),
{
    let p = path_components(base);
    law_names_are_components(base, name);
    law_names_are_components(base, other);
    law_names_are_components(base + seq!['/'] + name, other);
    assert(p =~= p.subrange(0, p.len() as int));
    assert(p =~= p.push(name).subrange(0, p.len() as int));
    assert(p =~= p.push(name).push(other).subrange(0, p.len() as int));
    let x = p.push(name);
    let y = p.push(other);
    assert(x.subrange(0, y.len() as int) =~= x);
    if x == y {
        assert(x.last() == y.last());
    }
}

/// Of two files of rules, those of the second stand behind those of the first,
/// each with the scope of its file: so the second has the last word.
pub proof fn law_later_files_have_the_last_word(layers: Seq<ScopedRules<'_>>)
    requires
        layers.len() == 2,
    ensures
        ({
            let all = chain(layers);
            let a = layers[0].1@;
            let b = layers[1].1@;
            &&& all.len() == a.len() + b.len()
            &&& forall|i: int|
                0 <= i < a.len() ==> #[trigger] all[i] == (layers[0].0, a[i]@)
            &&& forall|i: int|
                0 <= i < b.len() ==> #[trigger] all[a.len() + i] == (layers[1].0, b[i]@)
        }),
{
    let first = layers.drop_last();
    assert(first.len() == 1 && first.last() == layers[0]);
    assert(first.drop_last() =~= Seq::empty());
    assert(chain(first.drop_last()) == Seq::<(RuleScope, RuleModel)>::empty());
    assert(chain(first).len() == layers[0].1@.len());
}

/// A command that is judged by two files of rules runs without asking exactly
/// where the last rule of both with whose words it starts allows it, those of
/// the second file standing behind those of the first.
pub proof fn law_judging_a_command(
    layers: &[ScopedRules<'_>],
    argv: &Vec<String>,
    authorization: &Authorization,
    r: Judgment,
)
    requires
        call_ensures(evaluate, (layers, argv, authorization), r),
    ensures
        ({
            let rules = chain(layers@);
            let fits = |i: int| 0 <= i < rules.len() && starts_with_words(rules[i].1, views(argv@));
            &&& r is AutoApprove <==> exists|i: int| #[trigger]
                fits(i) && rules[i].1.allow && forall|j: int| i < j ==> !#[trigger] fits(j)
            &&& r is AutoDeny <==> exists|i: int| #[trigger]
                fits(i) && !rules[i].1.allow && forall|j: int| i < j ==> !#[trigger] fits(j)
            &&& r is Pending <==> forall|i: int| !#[trigger] fits(i)
        }),
{
    let rules = chain(layers@);
    let words = views(argv@);
    let fits = |i: int| 0 <= i < rules.len() && starts_with_words(rules[i].1, words);
    lemma_judged_command(rules, words);
}

proof fn lemma_judged_command(rules: Seq<(RuleScope, RuleModel)>, argv: Seq<Seq<char>>)
    ensures
        ({
            let j = judged(rules, PermissionKind::Command, Target::Argv(argv));
            let fits = |i: int| 0 <= i < rules.len() && starts_with_words(rules[i].1, argv);
            &&& j is AutoApprove <==> exists|i: int| #[trigger]
                fits(i) && rules[i].1.allow && forall|k: int| i < k ==> !#[trigger] fits(k)
            &&& j is AutoDeny <==> exists|i: int| #[trigger]
                fits(i) && !rules[i].1.allow && forall|k: int| i < k ==> !#[trigger] fits(k)
            &&& j is Pending <==> forall|i: int| !#[trigger] fits(i)
        }),
{
    let fits = |i: int| 0 <= i < rules.len() && starts_with_words(rules[i].1, argv);
    let j = judged(rules, PermissionKind::Command, Target::Argv(argv));
    match lemma_last_fit(rules, argv) {
        Some(i) => {
            let before = rules.take(i);
            let after = rules.skip(i + 1);
            assert forall|k: int| 0 <= k < after.len() implies !starts_with_words(
                (#[trigger] after[k]).1,
                argv,
            ) by {
                assert(after[k] == rules[i + 1 + k]);
            }
            law_last_fitting_words_decide(before, rules[i], after, argv);
            assert(before.push(rules[i]) + after =~= rules);
            assert(fits(i));
            assert forall|k: int| i < k implies !#[trigger] fits(k) by {}
            assert forall|m: int| #[trigger] fits(m) && (forall|k: int| m < k ==> !#[trigger] fits(
                k,
            )) implies m == i by {
                if m < i {
                    assert(fits(i));
                }
            }
        },
        None => {
            assert forall|i: int| !#[trigger] fits(i) by {}
            law_unfit_words_are_left_to_the_user(rules, argv);
        },
    }
}

proof fn lemma_last_fit(rules: Seq<(RuleScope, RuleModel)>, argv: Seq<Seq<char>>) -> (r: Option<int>)
    ensures
        match r {
            Some(i) => 0 <= i < rules.len() && starts_with_words(rules[i].1, argv) && forall|k: int|
                i < k < rules.len() ==> !starts_with_words((#[trigger] rules[k]).1, argv),
            None => forall|k: int|
                0 <= k < rules.len() ==> !starts_with_words((#[trigger] rules[k]).1, argv),
        },
    decreases rules.len(),
{
    if rules.len() == 0 {
        None
    } else if starts_with_words(rules.last().1, argv) {
        Some(rules.len() - 1)
    } else {
        let rest = rules.drop_last();
        let r = lemma_last_fit(rest, argv);
        assert forall|k: int| 0 <= k < rest.len() implies rest[k] == #[trigger] rules[k] by {}
        r
    }
}

/// A path that is to be read or written is judged by the rules for that alone,
/// and by the components of the path.
pub proof fn law_judging_a_path(
    layers: &[ScopedRules<'_>],
    path: &str,
    authorization: &Authorization,
    read: Judgment,
    write: Judgment,
)
    requires
        call_ensures(evaluate_read, (layers, path, authorization), read),
        call_ensures(evaluate_write, (layers, path, authorization), write),
    ensures
        (forall|i: int|
            0 <= i < chain(layers@).len() ==> !holds_path(
                (#[trigger] chain(layers@)[i]).1,
                PermissionKind::Read,
                path@,
            )) ==> read is Pending,
        (forall|i: int|
            0 <= i < chain(layers@).len() ==> !holds_path(
                (#[trigger] chain(layers@)[i]).1,
                PermissionKind::Write,
                path@,
            )) ==> write is Pending,
        chain(layers@).len() > 0 && holds_path(
            chain(layers@).last().1,
            PermissionKind::Read,
            path@,
        ) ==> if chain(layers@).last().1.allow {
            read is AutoApprove
        } else {
            read is AutoDeny
        },
        chain(layers@).len() > 0 && holds_path(
            chain(layers@).last().1,
            PermissionKind::Write,
            path@,
        ) ==> if chain(layers@).last().1.allow {
            write is AutoApprove
        } else {
            write is AutoDeny
        },
{
    let rules = chain(layers@);
    lemma_last_path(rules, PermissionKind::Read, path@);
    lemma_last_path(rules, PermissionKind::Write, path@);
}

proof fn lemma_last_path(
    rules: Seq<(RuleScope, RuleModel)>,
    kind: PermissionKind,
    path: Seq<char>,
)
    requires
        !(kind is Command),
    ensures
        ({
            let j = judged(rules, kind, Target::Path(path));
            &&& (forall|i: int|
                0 <= i < rules.len() ==> !holds_path((#[trigger] rules[i]).1, kind, path)) ==> j
                is Pending
            &&& rules.len() > 0 && holds_path(rules.last().1, kind, path) ==> if rules.last().1.allow {
                j is AutoApprove
            } else {
                j is AutoDeny
            }
        }),
{
    if forall|i: int| 0 <= i < rules.len() ==> !holds_path((#[trigger] rules[i]).1, kind, path) {
        assert forall|i: int| 0 <= i < rules.len() implies !applies(
            (#[trigger] rules[i]).1,
            kind,
            Target::Path(path),
        ) by {
            lemma_path(rules[i].1, kind, path);
        }
        law_no_match_is_pending(rules, kind, Target::Path(path));
    }
    if rules.len() > 0 && holds_path(rules.last().1, kind, path) {
        let before = rules.drop_last();
        let after = Seq::<(RuleScope, RuleModel)>::empty();
        law_last_fitting_path_decides(before, rules.last(), after, kind, path);
        assert(before.push(rules.last()) + after =~= rules);
    }
}

} // verus!
