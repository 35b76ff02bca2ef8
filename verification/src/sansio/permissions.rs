//! Permission judgment for tool calls.
//!
//! A rule speaks of commands, reads or writes, and allows or denies. The last
//! rule that matches decides, over the rules of the workspace followed by
//! those of the session. Where none matches, the call is left pending.
use vstd::prelude::*;
use vstd::string::*;

use crate::plan::{ApprovedModel, ApprovedPlan};
use crate::model::deep;
use crate::sansio::deepseek::clone_texts;
use crate::text::{same, split, split_at, views};

pub mod judgments;

verus! {

broadcast use crate::model::group_deep;

/// How calls with side effects are authorized in an invocation.
#[derive(Debug, PartialEq, Eq)]
pub enum Authorization {
    /// Patches, and commands that no rule matches, require approval.
    PerTool,
    /// A plan is run that was approved as a whole.
    ApprovedPlan(ApprovedPlan),
}

/// An [`Authorization`] as a mathematical value.
#[verifier::ext_equal]
pub enum AuthorizationModel {
    PerTool,
    ApprovedPlan(ApprovedModel),
}

impl View for Authorization {
    type V = AuthorizationModel;

    open spec fn view(&self) -> AuthorizationModel {
        match self {
            Authorization::PerTool => AuthorizationModel::PerTool,
            Authorization::ApprovedPlan(p) => AuthorizationModel::ApprovedPlan(p@),
        }
    }
}

impl Clone for Authorization {
    fn clone(&self) -> (r: Self)
        ensures
            r@ == self@,
    {
        match self {
            Authorization::PerTool => Authorization::PerTool,
            Authorization::ApprovedPlan(p) => Authorization::ApprovedPlan(p.clone()),
        }
    }
}

impl Default for Authorization {
    fn default() -> (r: Self)
        ensures
            r == Authorization::PerTool,
    {
        Authorization::PerTool
    }
}

/// The kind of tool call that a rule governs.
#[derive(Debug, Clone, Copy, PartialEq, Eq, Structural)]
pub enum PermissionKind {
    /// A command, matched by the start of its argv.
    Command,
    /// A read-only call, matched by path.
    Read,
    /// A patch, matched by the path of each edit.
    Write,
}

/// The name of a kind.
pub open spec fn kind_text(k: PermissionKind) -> Seq<char> {
    match k {
        PermissionKind::Command => "command"@,
        PermissionKind::Read => "read"@,
        PermissionKind::Write => "write"@,
    }
}

impl PermissionKind {
    /// The name of the kind.
    pub fn as_str(self) -> (r: &'static str)
        ensures
            r@ == kind_text(self),
    {
        match self {
            PermissionKind::Command => "command",
            PermissionKind::Read => "read",
            PermissionKind::Write => "write",
        }
    }
}

/// A single permission rule.
#[derive(Debug, Clone, PartialEq, Eq)]
pub struct Rule {
    pub kind: PermissionKind,
    /// Whether the rule allows or denies.
    pub allow: bool,
    /// For commands: what the argv must start with.
    pub args_prefix: Vec<String>,
    /// For reads and writes: the path, which covers what lies below it.
    pub path: String,
}

/// A [`Rule`] as a mathematical value.
#[verifier::ext_equal]
pub struct RuleModel {
    pub kind: PermissionKind,
    pub allow: bool,
    pub args_prefix: Seq<Seq<char>>,
    pub path: Seq<char>,
}

impl View for Rule {
    type V = RuleModel;

    open spec fn view(&self) -> RuleModel {
        RuleModel {
            kind: self.kind,
            allow: self.allow,
            args_prefix: views(self.args_prefix@),
            path: self.path@,
        }
    }
}

/// A command rule.
pub open spec fn command_rule(allow: bool, args_prefix: Seq<Seq<char>>) -> RuleModel {
    RuleModel { kind: PermissionKind::Command, allow, args_prefix, path: Seq::empty() }
}

/// A rule for paths.
pub open spec fn path_rule(kind: PermissionKind, allow: bool, path: Seq<char>) -> RuleModel {
    RuleModel { kind, allow, args_prefix: Seq::empty(), path }
}

impl Rule {
    pub fn command(allow: bool, args_prefix: Vec<String>) -> (r: Self)
        ensures
            r@ == command_rule(allow, views(args_prefix@)),
    {
        Rule { kind: PermissionKind::Command, allow, args_prefix, path: String::new() }
    }

    pub fn read(allow: bool, path: String) -> (r: Self)
        ensures
            r@ == path_rule(PermissionKind::Read, allow, path@),
    {
        let r = Rule { kind: PermissionKind::Read, allow, args_prefix: Vec::new(), path };
        assert(views(r.args_prefix@) =~= Seq::empty());
        r
    }

    pub fn write(allow: bool, path: String) -> (r: Self)
        ensures
            r@ == path_rule(PermissionKind::Write, allow, path@),
    {
        let r = Rule { kind: PermissionKind::Write, allow, args_prefix: Vec::new(), path };
        assert(views(r.args_prefix@) =~= Seq::empty());
        r
    }
}

/// The file that a rule came from.
#[derive(Debug, Clone, Copy, PartialEq, Eq, Structural)]
pub enum RuleScope {
    Workspace,
    Session,
}

/// The name of a scope.
pub open spec fn scope_text(s: RuleScope) -> Seq<char> {
    match s {
        RuleScope::Workspace => "workspace"@,
        RuleScope::Session => "session"@,
    }
}

impl RuleScope {
    /// The name of the scope.
    pub fn as_str(self) -> (r: &'static str)
        ensures
            r@ == scope_text(self),
    {
        match self {
            RuleScope::Workspace => "workspace",
            RuleScope::Session => "session",
        }
    }
}

/// The rules of one file, with its scope.
pub type ScopedRules<'a> = (RuleScope, &'a [Rule]);

/// What the rules say of a call.
#[derive(Debug, Clone, PartialEq, Eq)]
pub enum Judgment {
    /// Run the call without asking.
    AutoApprove(AutoDecision),
    /// Refuse the call without asking.
    AutoDeny(AutoDecision),
    /// Ask.
    Pending,
}

/// A decision, and the matches that led to it.
#[derive(Debug, Clone, PartialEq, Eq)]
pub struct AutoDecision {
    /// The scope of the rule that decided.
    pub scope: RuleScope,
    /// The argv prefix of the rule that decided, where it is a command rule;
    /// its path, where it is a read rule.
    pub args_prefix: Vec<String>,
    /// What the rule decided.
    pub allowed: bool,
    /// Every rule that matched, in order.
    pub matches: Vec<RuleMatch>,
}

/// One rule that matched.
#[derive(Debug, Clone, PartialEq, Eq)]
pub struct RuleMatch {
    pub scope: RuleScope,
    pub kind: PermissionKind,
    pub allow: bool,
    pub args_prefix: Vec<String>,
    pub path: String,
    /// Whether this is the rule that decided: the last that matched.
    pub adopted: bool,
}

/// A [`RuleMatch`] as a mathematical value.
#[verifier::ext_equal]
pub struct MatchModel {
    pub scope: RuleScope,
    pub kind: PermissionKind,
    pub allow: bool,
    pub args_prefix: Seq<Seq<char>>,
    pub path: Seq<char>,
    pub adopted: bool,
}

impl View for RuleMatch {
    type V = MatchModel;

    open spec fn view(&self) -> MatchModel {
        MatchModel {
            scope: self.scope,
            kind: self.kind,
            allow: self.allow,
            args_prefix: views(self.args_prefix@),
            path: self.path@,
            adopted: self.adopted,
        }
    }
}

/// An [`AutoDecision`] as a mathematical value.
#[verifier::ext_equal]
pub struct DecisionModel {
    pub scope: RuleScope,
    pub args_prefix: Seq<Seq<char>>,
    pub allowed: bool,
    pub matches: Seq<MatchModel>,
}

impl View for AutoDecision {
    type V = DecisionModel;

    open spec fn view(&self) -> DecisionModel {
        DecisionModel {
            scope: self.scope,
            args_prefix: views(self.args_prefix@),
            allowed: self.allowed,
            matches: deep(self.matches@),
        }
    }
}

/// A [`Judgment`] as a mathematical value.
#[verifier::ext_equal]
pub enum JudgmentModel {
    AutoApprove(DecisionModel),
    AutoDeny(DecisionModel),
    Pending,
}

impl View for Judgment {
    type V = JudgmentModel;

    open spec fn view(&self) -> JudgmentModel {
        match self {
            Judgment::AutoApprove(d) => JudgmentModel::AutoApprove(d@),
            Judgment::AutoDeny(d) => JudgmentModel::AutoDeny(d@),
            Judgment::Pending => JudgmentModel::Pending,
        }
    }
}

/// What a call is about.
#[verifier::ext_equal]
pub enum Target {
    Argv(Seq<Seq<char>>),
    Path(Seq<char>),
}

/// Whether a piece of a path is one of its components.
pub open spec fn is_component(pieces: Seq<Seq<char>>, i: int) -> bool {
    pieces[i].len() > 0 && (pieces[i] != "."@ || i == 0)
}

/// The components among the first `n` pieces of a path.
pub open spec fn components_of(pieces: Seq<Seq<char>>, n: int) -> Seq<Seq<char>>
    decreases n,
{
    if n <= 0 {
        Seq::empty()
    } else if is_component(pieces, n - 1) {
        components_of(pieces, n - 1).push(pieces[n - 1])
    } else {
        components_of(pieces, n - 1)
    }
}

/// The components of a path: what stands between the slashes, without what is
/// empty, and without dots, except a dot at the very start. An absolute path
/// starts with the root.
pub open spec fn path_components(path: Seq<char>) -> Seq<Seq<char>> {
    let pieces = split_at(path, '/');
    let parts = components_of(pieces, pieces.len() as int);
    if path.len() > 0 && path[0] == '/' {
        seq!["/"@] + parts
    } else {
        parts
    }
}

/// Whether a path is another one, or lies below it.
pub open spec fn lies_under(path: Seq<char>, base: Seq<char>) -> bool {
    path_components(base).is_prefix_of(path_components(path))
}

/// Whether a rule matches a target, its kind aside.
pub open spec fn covers(r: RuleModel, target: Target) -> bool {
    match target {
        Target::Argv(argv) => r.args_prefix.len() > 0 && r.args_prefix.is_prefix_of(argv),
        Target::Path(path) => r.path.len() > 0 && lies_under(path, r.path),
    }
}

/// Whether a rule matches a call.
pub open spec fn applies(r: RuleModel, kind: PermissionKind, target: Target) -> bool {
    r.kind == kind && covers(r, target)
}

/// All rules, one file behind the other, each with its scope.
pub open spec fn chain(layers: Seq<ScopedRules<'_>>) -> Seq<(RuleScope, RuleModel)>
    decreases layers.len(),
{
    if layers.len() == 0 {
        Seq::empty()
    } else {
        chain(layers.drop_last()) + scoped(layers.last().0, deep(layers.last().1@))
    }
}

/// The rules of one file, each with its scope.
pub open spec fn scoped(scope: RuleScope, rules: Seq<RuleModel>) -> Seq<(RuleScope, RuleModel)> {
    rules.map_values(|r: RuleModel| (scope, r))
}

/// What is noted of a rule that matched.
pub open spec fn match_of(scope: RuleScope, r: RuleModel) -> MatchModel {
    MatchModel {
        scope,
        kind: r.kind,
        allow: r.allow,
        args_prefix: if r.kind is Command {
            r.args_prefix
        } else {
            Seq::empty()
        },
        path: if r.kind is Command {
            Seq::empty()
        } else {
            r.path
        },
        adopted: false,
    }
}

/// The rules that match, in order.
pub open spec fn matching(
    rules: Seq<(RuleScope, RuleModel)>,
    kind: PermissionKind,
    target: Target,
) -> Seq<MatchModel>
    decreases rules.len(),
{
    if rules.len() == 0 {
        Seq::empty()
    } else {
        let (scope, r) = rules.last();
        if applies(r, kind, target) {
            matching(rules.drop_last(), kind, target).push(match_of(scope, r))
        } else {
            matching(rules.drop_last(), kind, target)
        }
    }
}

/// What a decision holds of the rule that decided: the path of a read rule,
/// and the argv prefix of any other.
pub open spec fn deciding_words(m: MatchModel) -> Seq<Seq<char>> {
    if m.kind is Read {
        seq![m.path]
    } else {
        m.args_prefix
    }
}

/// What follows from the rules that match: the last of them decides.
pub open spec fn decided(matches: Seq<MatchModel>) -> JudgmentModel {
    if matches.len() == 0 {
        JudgmentModel::Pending
    } else {
        let last = matches.last();
        let d = DecisionModel {
            scope: last.scope,
            args_prefix: deciding_words(last),
            allowed: last.allow,
            matches: matches.update(
                matches.len() - 1,
                MatchModel { adopted: true, ..last },
            ),
        };
        if last.allow {
            JudgmentModel::AutoApprove(d)
        } else {
            JudgmentModel::AutoDeny(d)
        }
    }
}

/// What rules say of a call.
pub open spec fn judged(
    rules: Seq<(RuleScope, RuleModel)>,
    kind: PermissionKind,
    target: Target,
) -> JudgmentModel {
    decided(matching(rules, kind, target))
}

/// A match of one more rule at the end.
proof fn lemma_matching_add(
    a: Seq<(RuleScope, RuleModel)>,
    b: Seq<(RuleScope, RuleModel)>,
    kind: PermissionKind,
    target: Target,
)
    ensures
        matching(a + b, kind, target) == matching(a, kind, target) + matching(b, kind, target),
    decreases b.len(),
{
    if b.len() == 0 {
        assert(a + b =~= a);
        assert(matching(a, kind, target) + matching(b, kind, target) =~= matching(
            a,
            kind,
            target,
        ));
    } else {
        assert((a + b).drop_last() =~= a + b.drop_last());
        lemma_matching_add(a, b.drop_last(), kind, target);
        assert(matching(a + b, kind, target) =~= matching(a, kind, target) + matching(
            b,
            kind,
            target,
        ));
    }
}

/// The last rule that matches decides, whatever stands before it.
pub proof fn law_last_match_wins(
    before: Seq<(RuleScope, RuleModel)>,
    rule: (RuleScope, RuleModel),
    after: Seq<(RuleScope, RuleModel)>,
    kind: PermissionKind,
    target: Target,
)
    requires
        applies(rule.1, kind, target),
        forall|i: int| 0 <= i < after.len() ==> !applies((#[trigger] after[i]).1, kind, target),
    ensures
        match judged(before.push(rule) + after, kind, target) {
            JudgmentModel::AutoApprove(d) => rule.1.allow && d.allowed && d.scope == rule.0,
            JudgmentModel::AutoDeny(d) => !rule.1.allow && !d.allowed && d.scope == rule.0,
            JudgmentModel::Pending => false,
        },
{
    lemma_matching_add(before.push(rule), after, kind, target);
    lemma_no_match(after, kind, target);
    assert(before.push(rule).drop_last() =~= before);
    let first = matching(before.push(rule), kind, target);
    assert(first + Seq::<MatchModel>::empty() =~= first);
}

/// What a judgment notes of the rule that decides.
pub proof fn lemma_deciding_match(
    before: Seq<(RuleScope, RuleModel)>,
    rule: (RuleScope, RuleModel),
    after: Seq<(RuleScope, RuleModel)>,
    kind: PermissionKind,
    target: Target,
)
    requires
        applies(rule.1, kind, target),
        forall|i: int| 0 <= i < after.len() ==> !applies((#[trigger] after[i]).1, kind, target),
    ensures
        ({
            let m = matching(before.push(rule) + after, kind, target);
            &&& m.len() > 0
            &&& m.last() == match_of(rule.0, rule.1)
            &&& forall|i: int| 0 <= i < m.len() ==> !(#[trigger] m[i]).adopted
        }),
{
    lemma_matching_add(before.push(rule), after, kind, target);
    lemma_no_match(after, kind, target);
    assert(before.push(rule).drop_last() =~= before);
    let first = matching(before.push(rule), kind, target);
    assert(first + Seq::<MatchModel>::empty() =~= first);
    lemma_none_adopted(before.push(rule) + after, kind, target);
}

proof fn lemma_none_adopted(
    rules: Seq<(RuleScope, RuleModel)>,
    kind: PermissionKind,
    target: Target,
)
    ensures
        forall|i: int|
            0 <= i < matching(rules, kind, target).len() ==> !(#[trigger] matching(
                rules,
                kind,
                target,
            )[i]).adopted,
    decreases rules.len(),
{
    if rules.len() > 0 {
        lemma_none_adopted(rules.drop_last(), kind, target);
    }
}

/// Rules that do not match leave no match behind.
proof fn lemma_no_match(
    rules: Seq<(RuleScope, RuleModel)>,
    kind: PermissionKind,
    target: Target,
)
    requires
        forall|i: int| 0 <= i < rules.len() ==> !applies((#[trigger] rules[i]).1, kind, target),
    ensures
        matching(rules, kind, target) == Seq::<MatchModel>::empty(),
    decreases rules.len(),
{
    if rules.len() > 0 {
        let rest = rules.drop_last();
        assert forall|i: int| 0 <= i < rest.len() implies !applies(
            (#[trigger] rest[i]).1,
            kind,
            target,
        ) by {
            assert(rest[i] == rules[i]);
        }
        lemma_no_match(rest, kind, target);
    }
}

/// A call that no rule matches is left pending.
pub proof fn law_no_match_is_pending(
    rules: Seq<(RuleScope, RuleModel)>,
    kind: PermissionKind,
    target: Target,
)
    requires
        forall|i: int| 0 <= i < rules.len() ==> !applies((#[trigger] rules[i]).1, kind, target),
    ensures
        judged(rules, kind, target) == JudgmentModel::Pending,
{
    lemma_no_match(rules, kind, target);
}

/// A rule of another kind changes nothing, wherever it stands.
pub proof fn law_kinds_do_not_cross(
    before: Seq<(RuleScope, RuleModel)>,
    rule: (RuleScope, RuleModel),
    after: Seq<(RuleScope, RuleModel)>,
    kind: PermissionKind,
    target: Target,
)
    requires
        rule.1.kind != kind,
    ensures
        judged(before.push(rule) + after, kind, target) == judged(before + after, kind, target),
{
    lemma_matching_add(before.push(rule), after, kind, target);
    lemma_matching_add(before, after, kind, target);
    assert(before.push(rule).drop_last() =~= before);
}

fn argv_matches(rule: &Rule, argv: &Vec<String>) -> (r: bool)
    ensures
        r == covers(rule@, Target::Argv(views(argv@))),
{
    if rule.args_prefix.len() == 0 || rule.args_prefix.len() > argv.len() {
        return false;
    }
    let ghost p = views(rule.args_prefix@);
    let ghost a = views(argv@);
    let mut i: usize = 0;
    while i < rule.args_prefix.len()
        invariant
            i <= rule.args_prefix@.len() <= argv@.len(),
            p == views(rule.args_prefix@),
            a == views(argv@),
            forall|k: int| 0 <= k < i ==> #[trigger] p[k] == a[k],
        decreases rule.args_prefix@.len() - i,
    {
        assert(p[i as int] == rule.args_prefix@[i as int]@);
        assert(a[i as int] == argv@[i as int]@);
        if !same(rule.args_prefix[i].as_str(), argv[i].as_str()) {
            assert(a.subrange(0, p.len() as int)[i as int] != p[i as int]);
            return false;
        }
        i = i + 1;
    }
    assert(p =~= a.subrange(0, p.len() as int));
    true
}

/// The components of a path.
pub fn components(path: &str) -> (r: Vec<String>)
    ensures
        views(r@) == path_components(path@),
{
    let pieces = split(path, '/');
    let ghost all = views(pieces@);
    let mut out: Vec<String> = Vec::new();
    let absolute = !path.is_empty() && path.get_char(0) == '/';
    if absolute {
        out.push("/".to_owned());
    }
    let ghost root = views(out@);
    let mut i: usize = 0;
    assert(root + components_of(all, 0) =~= root);
    while i < pieces.len()
        invariant
            i <= pieces@.len(),
            all == views(pieces@),
            views(out@) == root + components_of(all, i as int),
        decreases pieces@.len() - i,
    {
        assert(all[i as int] == pieces@[i as int]@);
        let ghost before = views(out@);
        if !pieces[i].as_str().is_empty() && (i == 0 || !same(pieces[i].as_str(), ".")) {
            out.push(pieces[i].clone());
            assert(views(out@) =~= before.push(all[i as int]));
            assert(root + components_of(all, i + 1) =~= before.push(all[i as int]));
        }
        i = i + 1;
    }
    proof {
        if absolute {
            assert(root =~= seq!["/"@]);
        } else {
            assert(root =~= Seq::empty());
            assert(root + components_of(all, all.len() as int) =~= components_of(
                all,
                all.len() as int,
            ));
        }
    }
    out
}

/// Whether a path is another one, or lies below it, component by component.
pub fn path_lies_under(path: &str, base: &str) -> (r: bool)
    ensures
        r == lies_under(path@, base@),
{
    let p = components(path);
    let b = components(base);
    if b.len() > p.len() {
        return false;
    }
    let ghost pv = views(p@);
    let ghost bv = views(b@);
    let mut i: usize = 0;
    while i < b.len()
        invariant
            i <= b@.len() <= p@.len(),
            pv == views(p@),
            bv == views(b@),
            pv == path_components(path@),
            bv == path_components(base@),
            forall|k: int| 0 <= k < i ==> #[trigger] bv[k] == pv[k],
        decreases b@.len() - i,
    {
        assert(pv[i as int] == p@[i as int]@);
        assert(bv[i as int] == b@[i as int]@);
        if !same(b[i].as_str(), p[i].as_str()) {
            assert(pv.subrange(0, bv.len() as int)[i as int] != bv[i as int]);
            return false;
        }
        i = i + 1;
    }
    assert(bv =~= pv.subrange(0, bv.len() as int));
    true
}

fn path_matches(rule: &Rule, path: &str) -> (r: bool)
    ensures
        r == covers(rule@, Target::Path(path@)),
{
    !rule.path.as_str().is_empty() && path_lies_under(path, rule.path.as_str())
}

fn note(scope: RuleScope, rule: &Rule) -> (r: RuleMatch)
    ensures
        r@ == match_of(scope, rule@),
{
    let r = if rule.kind == PermissionKind::Command {
        RuleMatch {
            scope,
            kind: rule.kind,
            allow: rule.allow,
            args_prefix: clone_texts(&rule.args_prefix),
            path: String::new(),
            adopted: false,
        }
    } else {
        RuleMatch {
            scope,
            kind: rule.kind,
            allow: rule.allow,
            args_prefix: Vec::new(),
            path: rule.path.clone(),
            adopted: false,
        }
    };
    assert(views(Seq::<String>::empty()) =~= Seq::empty());
    r
}

/// What the matches lead to: the last of them decides.
fn finish_decision(matches: Vec<RuleMatch>) -> (r: Judgment)
    ensures
        r@ == decided(deep(matches@)),
{
    let mut matches = matches;
    let ghost all = deep(matches@);
    match matches.pop() {
        None => Judgment::Pending,
        Some(last) => {
            let mut last = last;
            let ghost l = last@;
            assert(all.last() == l);
            last.adopted = true;
            let scope = last.scope;
            let args_prefix = if last.kind == PermissionKind::Read {
                vec![last.path.clone()]
            } else {
                clone_texts(&last.args_prefix)
            };
            assert(views(args_prefix@) =~= deciding_words(l));
            let allowed = last.allow;
            matches.push(last);
            assert(deep(matches@) =~= all.update(all.len() - 1, MatchModel { adopted: true, ..l }));
            let decision = AutoDecision { scope, args_prefix, allowed, matches };
            if allowed {
                Judgment::AutoApprove(decision)
            } else {
                Judgment::AutoDeny(decision)
            }
        },
    }
}

/// What a call is about, in code.
enum Subject<'a> {
    Argv(&'a Vec<String>),
    Path(&'a str),
}

impl View for Subject<'_> {
    type V = Target;

    closed spec fn view(&self) -> Target {
        match self {
            Subject::Argv(argv) => Target::Argv(views(argv@)),
            Subject::Path(path) => Target::Path(path@),
        }
    }
}

fn judge(layers: &[ScopedRules<'_>], kind: PermissionKind, subject: Subject<'_>) -> (r: Judgment)
    ensures
        r@ == judged(chain(layers@), kind, subject@),
{
    let ghost target = subject@;
    let mut matches: Vec<RuleMatch> = Vec::new();
    let mut i: usize = 0;
    assert(layers@.take(0) =~= Seq::empty());
    while i < layers.len()
        invariant
            i <= layers@.len(),
            target == subject@,
            deep(matches@) == matching(chain(layers@.take(i as int)), kind, target),
        decreases layers@.len() - i,
    {
        let (scope, rules) = layers[i];
        let ghost base = chain(layers@.take(i as int));
        let ghost all = scoped(scope, deep(rules@));
        let mut k: usize = 0;
        assert(all.take(0) =~= Seq::empty());
        assert(base + all.take(0) =~= base);
        while k < rules.len()
            invariant
                k <= rules@.len(),
                target == subject@,
                all == scoped(scope, deep(rules@)),
                deep(matches@) == matching(base + all.take(k as int), kind, target),
            decreases rules@.len() - k,
        {
            let rule = &rules[k];
            proof {
                let now = base + all.take(k + 1);
                assert(now.drop_last() =~= base + all.take(k as int));
                assert(now.last() == (scope, rule@));
            }
            let hit = rule.kind == kind && match &subject {
                Subject::Argv(argv) => argv_matches(rule, argv),
                Subject::Path(path) => path_matches(rule, path),
            };
            assert(hit == applies(rule@, kind, target));
            if hit {
                matches.push(note(scope, rule));
            }
            k = k + 1;
        }
        proof {
            assert(all.take(all.len() as int) =~= all);
            assert(layers@.take(i + 1).drop_last() =~= layers@.take(i as int));
            assert(layers@.take(i + 1).last() == layers@[i as int]);
        }
        i = i + 1;
    }
    assert(layers@.take(layers@.len() as int) =~= layers@);
    finish_decision(matches)
}

/// What the rules say of a command.
pub fn evaluate(
    layers: &[ScopedRules<'_>],
    argv: &Vec<String>,
    _authorization: &Authorization,
) -> (r: Judgment)
    ensures
        r@ == judged(chain(layers@), PermissionKind::Command, Target::Argv(views(argv@))),
{
    judge(layers, PermissionKind::Command, Subject::Argv(argv))
}

/// What the rules say of a path that is to be read.
pub fn evaluate_read(
    layers: &[ScopedRules<'_>],
    path: &str,
    _authorization: &Authorization,
) -> (r: Judgment)
    ensures
        r@ == judged(chain(layers@), PermissionKind::Read, Target::Path(path@)),
{
    judge(layers, PermissionKind::Read, Subject::Path(path))
}

/// What the rules say of a path that is to be written.
pub fn evaluate_write(
    layers: &[ScopedRules<'_>],
    path: &str,
    _authorization: &Authorization,
) -> (r: Judgment)
    ensures
        r@ == judged(chain(layers@), PermissionKind::Write, Target::Path(path@)),
{
    judge(layers, PermissionKind::Write, Subject::Path(path))
}

} // verus!
