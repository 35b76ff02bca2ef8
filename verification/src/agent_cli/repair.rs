//! Puts a conversation in order before it goes to the model: behind every
//! assistant message that makes tool calls stand the answers to them, and no
//! answer stands anywhere else.
use vstd::prelude::*;
use vstd::string::*;

use super::wording::{tool_error_json, tool_error_text};
use crate::model::{deep, first_some, lemma_first_at, lemma_first_none};
use crate::sansio::deepseek::{CallModel, ChatMessage, MessageModel, ToolCall};
use crate::text::{list_contains, same, views};

verus! {

broadcast use crate::model::group_deep;

/// The answer made up for a call that was never answered.
#[derive(Debug, Clone, PartialEq, Eq)]
pub struct OrphanedToolCall {
    pub call_id: String,
    pub content: String,
}

/// An [`OrphanedToolCall`] as a mathematical value.
#[verifier::ext_equal]
pub struct OrphanModel {
    pub call_id: Seq<char>,
    pub content: Seq<char>,
}

impl View for OrphanedToolCall {
    type V = OrphanModel;

    open spec fn view(&self) -> OrphanModel {
        OrphanModel { call_id: self.call_id@, content: self.content@ }
    }
}

/// What the model is told of a call that was never answered.
pub open spec fn cancelled_text() -> Seq<char> {
    tool_error_text(
        "unanswered_tool_call"@,
        "this tool call was left unapproved and is cancelled before continuing"@,
    )
}

/// Whether a message answers the call with that id.
pub open spec fn answers(m: MessageModel, id: Seq<char>) -> bool {
    m matches MessageModel::Tool { tool_call_id, .. } && tool_call_id == id
}

/// The first answer in a conversation to the call with that id.
pub open spec fn first_answer(messages: Seq<MessageModel>, id: Seq<char>) -> Option<MessageModel> {
    first_some(
        messages.len() as int,
        |i: int|
            if answers(messages[i], id) {
                Some(messages[i])
            } else {
                None
            },
    )
}

/// How far a conversation has been put in order.
#[verifier::ext_equal]
pub struct RepairModel {
    /// The conversation so far.
    pub out: Seq<MessageModel>,
    /// The answers that were made up.
    pub orphans: Seq<OrphanModel>,
    /// The calls to which an answer has been placed.
    pub placed: Seq<Seq<char>>,
}

/// Places the answer to a call, unless it has one: the first that there is,
/// or else one that cancels the call.
pub open spec fn with_answer(all: Seq<MessageModel>, st: RepairModel, id: Seq<char>) -> RepairModel {
    if st.placed.contains(id) {
        st
    } else {
        match first_answer(all, id) {
            Some(m) => RepairModel { out: st.out.push(m), placed: st.placed.push(id), ..st },
            None => RepairModel {
                out: st.out.push(
                    MessageModel::Tool { tool_call_id: id, content: cancelled_text() },
                ),
                orphans: st.orphans.push(OrphanModel { call_id: id, content: cancelled_text() }),
                placed: st.placed.push(id),
            },
        }
    }
}

/// Places the answers to the calls, in order.
pub open spec fn with_answers(
    all: Seq<MessageModel>,
    st: RepairModel,
    calls: Seq<CallModel>,
) -> RepairModel
    decreases calls.len(),
{
    if calls.len() == 0 {
        st
    } else {
        with_answer(all, with_answers(all, st, calls.drop_last()), calls.last().id)
    }
}

/// Places a message: an assistant message with the answers to its calls, and
/// any other as it is. Answers are placed with the calls that they answer;
/// where they stood they are dropped.
pub open spec fn with_message(
    all: Seq<MessageModel>,
    st: RepairModel,
    m: MessageModel,
) -> RepairModel {
    match m {
        MessageModel::Assistant { tool_calls, .. } => with_answers(
            all,
            RepairModel { out: st.out.push(m), ..st },
            tool_calls,
        ),
        MessageModel::Tool { .. } => st,
        _ => RepairModel { out: st.out.push(m), ..st },
    }
}

/// The state after the first `n` messages.
pub open spec fn repaired_upto(all: Seq<MessageModel>, n: int) -> RepairModel
    decreases n,
{
    if n <= 0 {
        RepairModel { out: Seq::empty(), orphans: Seq::empty(), placed: Seq::empty() }
    } else {
        with_message(all, repaired_upto(all, n - 1), all[n - 1])
    }
}

/// A conversation put in order.
pub open spec fn repaired(all: Seq<MessageModel>) -> RepairModel {
    repaired_upto(all, all.len() as int)
}

fn find_answer(messages: &Vec<ChatMessage>, id: &str) -> (r: Option<usize>)
    ensures
        match r {
            Some(i) => i < messages@.len() && first_answer(deep(messages@), id@) == Some(
                messages@[i as int]@,
            ),
            None => first_answer(deep(messages@), id@) is None,
        },
{
    let ghost all = deep(messages@);
    let ghost f = |i: int|
        if answers(all[i], id@) {
            Some(all[i])
        } else {
            None
        };
    let mut i: usize = 0;
    while i < messages.len()
        invariant
            i <= messages@.len(),
            all == deep(messages@),
            f == (|i: int|
                if answers(all[i], id@) {
                    Some(all[i])
                } else {
                    None
                }),
            forall|j: int| 0 <= j < i ==> #[trigger] f(j) is None,
        decreases messages@.len() - i,
    {
        assert(all[i as int] == messages@[i as int]@);
        if let ChatMessage::Tool { tool_call_id, .. } = &messages[i] {
            if same(tool_call_id.as_str(), id) {
                proof {
                    lemma_first_at(all.len() as int, f, i as int);
                }
                return Some(i);
            }
        }
        i = i + 1;
    }
    proof {
        lemma_first_none(all.len() as int, f);
    }
    None
}

struct Repair {
    out: Vec<ChatMessage>,
    orphans: Vec<OrphanedToolCall>,
    placed: Vec<String>,
}

impl View for Repair {
    type V = RepairModel;

    closed spec fn view(&self) -> RepairModel {
        RepairModel {
            out: deep(self.out@),
            orphans: deep(self.orphans@),
            placed: views(self.placed@),
        }
    }
}

impl Repair {
    fn mark(&mut self, id: &str)
        ensures
            final(self)@ == (RepairModel { placed: old(self)@.placed.push(id@), ..old(self)@ }),
    {
        self.placed.push(id.to_owned());
        assert(views(self.placed@) =~= old(self)@.placed.push(id@));
    }

    fn answer(&mut self, messages: &Vec<ChatMessage>, id: &str)
        ensures
            final(self)@ == with_answer(deep(messages@), old(self)@, id@),
    {
        if list_contains(&self.placed, id) {
            return ;
        }
        match find_answer(messages, id) {
            Some(i) => {
                self.out.push(messages[i].clone());
            },
            None => {
                let content = tool_error_json(
                    "unanswered_tool_call",
                    "this tool call was left unapproved and is cancelled before continuing",
                );
                self.orphans.push(
                    OrphanedToolCall { call_id: id.to_owned(), content: content.clone() },
                );
                self.out.push(ChatMessage::Tool { tool_call_id: id.to_owned(), content });
            },
        }
        self.mark(id);
    }

    fn answer_all(&mut self, messages: &Vec<ChatMessage>, calls: &Vec<ToolCall>)
        ensures
            final(self)@ == with_answers(deep(messages@), old(self)@, deep(calls@)),
    {
        let ghost all = deep(calls@);
        let ghost start = self@;
        let mut i: usize = 0;
        assert(all.take(0) =~= Seq::empty());
        while i < calls.len()
            invariant
                i <= calls@.len(),
                all == deep(calls@),
                self@ == with_answers(deep(messages@), start, all.take(i as int)),
            decreases calls@.len() - i,
        {
            proof {
                assert(all.take(i + 1).drop_last() =~= all.take(i as int));
                assert(all.take(i + 1).last() == calls@[i as int]@);
            }
            self.answer(messages, calls[i].id.as_str());
            i = i + 1;
        }
        assert(all.take(all.len() as int) =~= all);
    }

    fn place(&mut self, messages: &Vec<ChatMessage>, m: &ChatMessage)
        ensures
            final(self)@ == with_message(deep(messages@), old(self)@, m@),
    {
        match m {
            ChatMessage::Assistant { tool_calls, .. } => {
                self.out.push(m.clone());
                self.answer_all(messages, tool_calls);
            },
            ChatMessage::Tool { .. } => {},
            _ => {
                self.out.push(m.clone());
            },
        }
    }
}

/// Puts a conversation in order. Returns it with the answers that had to be
/// made up.
///
/// An assistant message is followed by the answers to its calls, wherever
/// they stood before; a call that has none is cancelled. Second answers, and
/// answers to calls that nobody made, are dropped.
pub fn repair_messages(messages: &Vec<ChatMessage>) -> (r: (
    Vec<ChatMessage>,
    Vec<OrphanedToolCall>,
))
    ensures
        deep(r.0@) == repaired(deep(messages@)).out,
        deep(r.1@) == repaired(deep(messages@)).orphans,
{
    let ghost all = deep(messages@);
    let mut st = Repair { out: Vec::new(), orphans: Vec::new(), placed: Vec::new() };
    assert(views(st.placed@) =~= Seq::empty());
    let mut i: usize = 0;
    while i < messages.len()
        invariant
            i <= messages@.len(),
            all == deep(messages@),
            st@ == repaired_upto(all, i as int),
        decreases messages@.len() - i,
    {
        assert(all[i as int] == messages@[i as int]@);
        st.place(messages, &messages[i]);
        i = i + 1;
    }
    (st.out, st.orphans)
}

/// Whether each assistant message is followed by the answers to its calls, in
/// the order of the calls.
pub open spec fn all_answered(messages: Seq<MessageModel>) -> bool {
    forall|p: int| 0 <= p < messages.len() ==> answered_at(messages, p)
}

/// Whether the message at that place, if it makes calls, is followed by the
/// answers to them.
pub open spec fn answered_at(messages: Seq<MessageModel>, p: int) -> bool {
    messages[p] matches MessageModel::Assistant { tool_calls, .. } ==> {
        &&& p + tool_calls.len() < messages.len()
        &&& forall|q: int|
            0 <= q < tool_calls.len() ==> answers(
                #[trigger] messages[p + 1 + q],
                tool_calls[q].id,
            )
    }
}

/// Whether no call is answered twice.
pub open spec fn answered_once(messages: Seq<MessageModel>) -> bool {
    forall|i: int, j: int|
        0 <= i < j < messages.len() && (#[trigger] messages[i]) is Tool && (
        #[trigger] messages[j]) is Tool ==> messages[i]->tool_call_id != messages[j]->tool_call_id
}

/// Whether a message makes the call with that id.
pub open spec fn makes_call(m: MessageModel, id: Seq<char>) -> bool {
    m matches MessageModel::Assistant { tool_calls, .. } && exists|q: int|
        0 <= q < tool_calls.len() && (#[trigger] tool_calls[q]).id == id
}

/// Whether no two calls share an id.
pub open spec fn calls_distinct(messages: Seq<MessageModel>) -> bool {
    &&& forall|i: int, j: int, id: Seq<char>|
        0 <= i < j < messages.len() && #[trigger] makes_call(messages[i], id)
            ==> !#[trigger] makes_call(messages[j], id)
    &&& forall|p: int, a: int, b: int|
        0 <= p < messages.len() && messages[p] is Assistant && 0 <= a < b
            < messages[p]->tool_calls.len() ==> (#[trigger] messages[p]->tool_calls[a]).id != (
        #[trigger] messages[p]->tool_calls[b]).id
}

/// Whether the message at that place stands right behind an assistant message
/// and the answers to the calls of it, as one of them.
pub open spec fn behind_calls(messages: Seq<MessageModel>, i: int) -> bool {
    exists|p: int|
        0 <= p < i && (#[trigger] messages[p]) is Assistant && i - p
            <= messages[p]->tool_calls.len()
}

/// Whether every answer stands behind the message that makes the call.
pub open spec fn no_strays(messages: Seq<MessageModel>) -> bool {
    forall|i: int|
        0 <= i < messages.len() && (#[trigger] messages[i]) is Tool ==> behind_calls(messages, i)
}

/// The answer to a call: the first that there is, or else one that cancels
/// the call.
pub open spec fn answer_to(all: Seq<MessageModel>, id: Seq<char>) -> MessageModel {
    match first_answer(all, id) {
        Some(m) => m,
        None => MessageModel::Tool { tool_call_id: id, content: cancelled_text() },
    }
}

/// The answers to calls, in order.
pub open spec fn answers_to(all: Seq<MessageModel>, calls: Seq<CallModel>) -> Seq<MessageModel> {
    calls.map_values(|c: CallModel| answer_to(all, c.id))
}

/// The messages that are no answers, in order, each assistant message with the
/// answers to its calls behind it.
pub open spec fn in_order(all: Seq<MessageModel>, messages: Seq<MessageModel>) -> Seq<MessageModel>
    decreases messages.len(),
{
    if messages.len() == 0 {
        Seq::empty()
    } else {
        let before = in_order(all, messages.drop_last());
        match messages.last() {
            MessageModel::Tool { .. } => before,
            MessageModel::Assistant { tool_calls, .. } => before.push(messages.last()) + answers_to(
                all,
                tool_calls,
            ),
            _ => before.push(messages.last()),
        }
    }
}

/// The calls that messages make, in order.
pub open spec fn calls_in(messages: Seq<MessageModel>) -> Seq<CallModel>
    decreases messages.len(),
{
    if messages.len() == 0 {
        Seq::empty()
    } else {
        match messages.last() {
            MessageModel::Assistant { tool_calls, .. } => calls_in(messages.drop_last())
                + tool_calls,
            _ => calls_in(messages.drop_last()),
        }
    }
}

/// Those of the calls that have no answer, in order, each with the one that
/// is made up for it.
pub open spec fn unanswered(all: Seq<MessageModel>, calls: Seq<CallModel>) -> Seq<OrphanModel>
    decreases calls.len(),
{
    if calls.len() == 0 {
        Seq::empty()
    } else {
        let before = unanswered(all, calls.drop_last());
        if first_answer(all, calls.last().id) is None {
            before.push(OrphanModel { call_id: calls.last().id, content: cancelled_text() })
        } else {
            before
        }
    }
}

proof fn lemma_unanswered_add(all: Seq<MessageModel>, a: Seq<CallModel>, b: Seq<CallModel>)
    ensures
        unanswered(all, a + b) == unanswered(all, a) + unanswered(all, b),
    decreases b.len(),
{
    if b.len() == 0 {
        assert(a + b =~= a);
        assert(unanswered(all, a) + unanswered(all, b) =~= unanswered(all, a));
    } else {
        assert((a + b).drop_last() =~= a + b.drop_last());
        assert((a + b).last() == b.last());
        lemma_unanswered_add(all, a, b.drop_last());
        assert(unanswered(all, a + b) =~= unanswered(all, a) + unanswered(all, b));
    }
}

/// Whether the id is that of a call made before `n`.
spec fn known(messages: Seq<MessageModel>, n: int, id: Seq<char>) -> bool {
    exists|i: int| 0 <= i < n && #[trigger] makes_call(messages[i], id)
}

/// What was placed are ids that are known.
spec fn placed_known(messages: Seq<MessageModel>, n: int, st: RepairModel) -> bool {
    forall|id: Seq<char>| #[trigger] st.placed.contains(id) ==> known(messages, n, id)
}

proof fn lemma_answer_found(messages: Seq<MessageModel>, id: Seq<char>)
    ensures
        first_answer(messages, id) is Some ==> answers(first_answer(messages, id)->0, id),
{
    let f = |i: int|
        if answers(messages[i], id) {
            Some(messages[i])
        } else {
            None
        };
    if first_answer(messages, id) is Some {
        let k = crate::model::lemma_first_found(messages.len() as int, f);
    }
}

/// The answers to calls of which none was placed yet: one for each, in order.
proof fn lemma_with_answers(all: Seq<MessageModel>, st: RepairModel, calls: Seq<CallModel>)
    requires
        forall|q: int| 0 <= q < calls.len() ==> !st.placed.contains((#[trigger] calls[q]).id),
        forall|a: int, b: int|
            0 <= a < b < calls.len() ==> (#[trigger] calls[a]).id != (#[trigger] calls[b]).id,
    ensures
        ({
            let r = with_answers(all, st, calls);
            &&& r.out.len() == st.out.len() + calls.len()
            &&& forall|i: int| 0 <= i < st.out.len() ==> r.out[i] == #[trigger] st.out[i]
            &&& r.out == st.out + answers_to(all, calls)
            &&& r.orphans == st.orphans + unanswered(all, calls)
            &&& forall|q: int|
                0 <= q < calls.len() ==> answers(
                    #[trigger] r.out[st.out.len() + q],
                    calls[q].id,
                )
            &&& forall|id: Seq<char>| #[trigger]
                r.placed.contains(id) ==> st.placed.contains(id) || exists|q: int|
                    0 <= q < calls.len() && (#[trigger] calls[q]).id == id
        }),
    decreases calls.len(),
{
    if calls.len() > 0 {
        let before = calls.drop_last();
        assert forall|q: int| 0 <= q < before.len() implies !st.placed.contains(
            (#[trigger] before[q]).id,
        ) by {
            assert(before[q] == calls[q]);
        }
        assert forall|a: int, b: int| 0 <= a < b < before.len() implies (#[trigger] before[a]).id
            != (#[trigger] before[b]).id by {
            assert(before[a] == calls[a] && before[b] == calls[b]);
        }
        lemma_with_answers(all, st, before);
        let mid = with_answers(all, st, before);
        let n = calls.len() - 1;
        let id = calls.last().id;
        assert(calls[n].id == id);
        assert(!mid.placed.contains(id)) by {
            if mid.placed.contains(id) && !st.placed.contains(id) {
                let q = choose|q: int| 0 <= q < before.len() && (#[trigger] before[q]).id == id;
                assert(calls[q].id == calls[n].id);
            }
        }
        lemma_answer_found(all, id);
        let r = with_answers(all, st, calls);
        assert(answers_to(all, calls) =~= answers_to(all, before).push(answer_to(all, id)));
        assert(r.out =~= st.out + answers_to(all, calls));
        assert(r.orphans =~= st.orphans + unanswered(all, calls));
        assert forall|q: int| 0 <= q < calls.len() implies answers(
            #[trigger] r.out[st.out.len() + q],
            calls[q].id,
        ) by {
            if q < n {
                assert(r.out[st.out.len() + q] == mid.out[st.out.len() + q]);
                assert(before[q] == calls[q]);
            }
        }
        assert forall|x: Seq<char>| #[trigger] r.placed.contains(x) implies st.placed.contains(x)
            || exists|q: int| 0 <= q < calls.len() && (#[trigger] calls[q]).id == x by {
            let k = choose|k: int| 0 <= k < r.placed.len() && r.placed[k] == x;
            if k < mid.placed.len() {
                assert(mid.placed[k] == x);
                assert(mid.placed.contains(x));
                if !st.placed.contains(x) {
                    let q = choose|q: int| 0 <= q < before.len() && (#[trigger] before[q]).id == x;
                    assert(calls[q].id == x);
                }
            } else {
                assert(calls[n].id == x);
            }
        }
    } else {
        assert(answers_to(all, calls) =~= Seq::empty());
        assert(st.out + answers_to(all, calls) =~= st.out);
        assert(st.orphans + unanswered(all, calls) =~= st.orphans);
    }
}

proof fn lemma_all_answered(messages: Seq<MessageModel>, n: int)
    requires
        0 <= n <= messages.len(),
        calls_distinct(messages),
    ensures
        all_answered(repaired_upto(messages, n).out),
        no_strays(repaired_upto(messages, n).out),
        placed_known(messages, n, repaired_upto(messages, n)),
        repaired_upto(messages, n).out == in_order(messages, messages.take(n)),
        repaired_upto(messages, n).orphans == unanswered(messages, calls_in(messages.take(n))),
    decreases n,
{
    if n == 0 {
        assert(messages.take(0) =~= Seq::empty());
    } else {
        lemma_all_answered(messages, n - 1);
        let st = repaired_upto(messages, n - 1);
        let m = messages[n - 1];
        let r = repaired_upto(messages, n);
        assert(messages.take(n).drop_last() =~= messages.take(n - 1));
        assert(messages.take(n).last() == m);
        match m {
            MessageModel::Assistant { tool_calls, .. } => {
                assert forall|q: int| 0 <= q < tool_calls.len() implies !st.placed.contains(
                    (#[trigger] tool_calls[q]).id,
                ) by {
                    let id = tool_calls[q].id;
                    assert(makes_call(m, id));
                    if st.placed.contains(id) {
                        let i = choose|i: int|
                            0 <= i < n - 1 && #[trigger] makes_call(messages[i], id);
                        assert(makes_call(messages[n - 1], id));
                    }
                }
                assert forall|a: int, b: int| 0 <= a < b < tool_calls.len() implies (
                #[trigger] tool_calls[a]).id != (#[trigger] tool_calls[b]).id by {
                    assert(messages[n - 1]->tool_calls[a].id != messages[n - 1]->tool_calls[b].id);
                }
                let start = RepairModel { out: st.out.push(m), ..st };
                lemma_with_answers(messages, start, tool_calls);
                lemma_unanswered_add(messages, calls_in(messages.take(n - 1)), tool_calls);
                assert forall|p: int| 0 <= p < r.out.len() implies answered_at(r.out, p) by {
                    if p < st.out.len() {
                        assert(answered_at(st.out, p));
                        assert(start.out[p] == st.out[p]);
                        assert(r.out[p] == st.out[p]);
                        if st.out[p] is Assistant {
                            let calls = st.out[p]->tool_calls;
                            assert forall|q: int| 0 <= q < calls.len() implies answers(
                                #[trigger] r.out[p + 1 + q],
                                calls[q].id,
                            ) by {
                                assert(answers(st.out[p + 1 + q], calls[q].id));
                                assert(start.out[p + 1 + q] == st.out[p + 1 + q]);
                            }
                        }
                    } else if p == st.out.len() {
                        assert(start.out[p] == m);
                        assert forall|q: int| 0 <= q < tool_calls.len() implies answers(
                            #[trigger] r.out[p + 1 + q],
                            tool_calls[q].id,
                        ) by {
                            assert(answers(r.out[start.out.len() + q], tool_calls[q].id));
                        }
                    } else {
                        let q = p - start.out.len();
                        assert(answers(r.out[start.out.len() + q], tool_calls[q].id));
                    }
                }
                assert forall|i: int|
                    0 <= i < r.out.len() && (#[trigger] r.out[i]) is Tool implies behind_calls(
                    r.out,
                    i,
                ) by {
                    if i < st.out.len() {
                        assert(start.out[i] == st.out[i]);
                        assert(behind_calls(st.out, i));
                        let p = choose|p: int|
                            0 <= p < i && (#[trigger] st.out[p]) is Assistant && i - p
                                <= st.out[p]->tool_calls.len();
                        assert(start.out[p] == st.out[p]);
                        assert(r.out[p] == st.out[p]);
                    } else {
                        let p = st.out.len() as int;
                        assert(start.out[p] == m);
                        assert(r.out[p] == m);
                    }
                }
                assert forall|id: Seq<char>| #[trigger] r.placed.contains(id) implies known(
                    messages,
                    n,
                    id,
                ) by {
                    if st.placed.contains(id) {
                        let i = choose|i: int|
                            0 <= i < n - 1 && #[trigger] makes_call(messages[i], id);
                        assert(makes_call(messages[i], id));
                    } else {
                        assert(makes_call(messages[n - 1], id));
                    }
                }
            },
            MessageModel::Tool { .. } => {
                lemma_still_known(messages, n, st);
            },
            _ => {
                lemma_still_known(messages, n, st);
                assert forall|p: int| 0 <= p < r.out.len() implies answered_at(r.out, p) by {
                    if p < st.out.len() {
                        assert(answered_at(st.out, p));
                        assert(r.out[p] == st.out[p]);
                        if st.out[p] is Assistant {
                            let calls = st.out[p]->tool_calls;
                            assert forall|q: int| 0 <= q < calls.len() implies answers(
                                #[trigger] r.out[p + 1 + q],
                                calls[q].id,
                            ) by {
                                assert(answers(st.out[p + 1 + q], calls[q].id));
                            }
                        }
                    }
                }
                assert forall|i: int|
                    0 <= i < r.out.len() && (#[trigger] r.out[i]) is Tool implies behind_calls(
                    r.out,
                    i,
                ) by {
                    assert(r.out[i] == st.out[i]);
                    assert(behind_calls(st.out, i));
                    let p = choose|p: int|
                        0 <= p < i && (#[trigger] st.out[p]) is Assistant && i - p
                            <= st.out[p]->tool_calls.len();
                    assert(r.out[p] == st.out[p]);
                }
            },
        }
    }
}

proof fn lemma_still_known(messages: Seq<MessageModel>, n: int, st: RepairModel)
    requires
        placed_known(messages, n - 1, st),
    ensures
        placed_known(messages, n, st),
{
    assert forall|id: Seq<char>| #[trigger] st.placed.contains(id) implies known(
        messages,
        n,
        id,
    ) by {
        let i = choose|i: int| 0 <= i < n - 1 && #[trigger] makes_call(messages[i], id);
        assert(makes_call(messages[i], id));
    }
}

/// A conversation put in order has every call answered, right behind the
/// message that makes it, and holds no other answer: provided that no two
/// calls share an id.
pub proof fn law_repair_answers_every_call(messages: Seq<MessageModel>)
    requires
        calls_distinct(messages),
    ensures
        all_answered(repaired(messages).out),
        no_strays(repaired(messages).out),
{
    lemma_all_answered(messages, messages.len() as int);
}

/// A conversation put in order is made of the messages that are no answers, in
/// order, with the first recorded answer of each call, or else one that
/// cancels it, behind the message that makes the call; and the calls that are
/// cancelled are listed in order: provided that no two calls share an id.
pub proof fn law_repair_takes_first_answers(messages: Seq<MessageModel>)
    requires
        calls_distinct(messages),
    ensures
        repaired(messages).out == in_order(messages, messages),
        repaired(messages).orphans == unanswered(messages, calls_in(messages)),
{
    lemma_all_answered(messages, messages.len() as int);
    assert(messages.take(messages.len() as int) =~= messages);
}

/// Whether the answers in a conversation, in order, are to the ids.
spec fn answers_placed(st: RepairModel) -> bool {
    &&& answered_once(st.out)
    &&& forall|i: int|
        0 <= i < st.out.len() && (#[trigger] st.out[i]) is Tool ==> st.placed.contains(
            st.out[i]->tool_call_id,
        )
}

proof fn lemma_push_answer(st: RepairModel, r: RepairModel, m: MessageModel)
    requires
        answers_placed(st),
        m is Tool,
        !st.placed.contains(m->tool_call_id),
        r.out == st.out.push(m),
        r.placed == st.placed.push(m->tool_call_id),
    ensures
        answers_placed(r),
{
    assert(r.placed.last() == m->tool_call_id);
    assert forall|i: int| 0 <= i < r.out.len() && (#[trigger] r.out[i]) is Tool implies
        r.placed.contains(r.out[i]->tool_call_id) by {
        if i < st.out.len() {
            assert(r.out[i] == st.out[i]);
            assert(st.placed.contains(st.out[i]->tool_call_id));
            let k = choose|k: int|
                0 <= k < st.placed.len() && st.placed[k] == st.out[i]->tool_call_id;
            assert(r.placed[k] == st.out[i]->tool_call_id);
        }
    }
    assert forall|i: int, j: int|
        0 <= i < j < r.out.len() && (#[trigger] r.out[i]) is Tool && (
        #[trigger] r.out[j]) is Tool implies r.out[i]->tool_call_id != r.out[j]->tool_call_id by {
        assert(r.out[i] == st.out[i]);
        if j < st.out.len() {
            assert(r.out[j] == st.out[j]);
        }
    }
}

proof fn lemma_push_other(st: RepairModel, r: RepairModel, m: MessageModel)
    requires
        answers_placed(st),
        !(m is Tool),
        r.out == st.out.push(m),
        r.placed == st.placed,
    ensures
        answers_placed(r),
{
    assert forall|i: int| 0 <= i < r.out.len() && (#[trigger] r.out[i]) is Tool implies
        r.placed.contains(r.out[i]->tool_call_id) by {
        assert(r.out[i] == st.out[i]);
    }
    assert forall|i: int, j: int|
        0 <= i < j < r.out.len() && (#[trigger] r.out[i]) is Tool && (
        #[trigger] r.out[j]) is Tool implies r.out[i]->tool_call_id != r.out[j]->tool_call_id by {
        assert(r.out[i] == st.out[i] && r.out[j] == st.out[j]);
    }
}

proof fn lemma_answers_placed(all: Seq<MessageModel>, st: RepairModel, calls: Seq<CallModel>)
    requires
        answers_placed(st),
    ensures
        answers_placed(with_answers(all, st, calls)),
    decreases calls.len(),
{
    if calls.len() > 0 {
        lemma_answers_placed(all, st, calls.drop_last());
        let mid = with_answers(all, st, calls.drop_last());
        let id = calls.last().id;
        lemma_answer_found(all, id);
        if !mid.placed.contains(id) {
            let r = with_answers(all, st, calls);
            lemma_push_answer(mid, r, r.out.last());
        }
    }
}

proof fn lemma_answered_once(messages: Seq<MessageModel>, n: int)
    requires
        0 <= n <= messages.len(),
    ensures
        answers_placed(repaired_upto(messages, n)),
    decreases n,
{
    if n > 0 {
        lemma_answered_once(messages, n - 1);
        let st = repaired_upto(messages, n - 1);
        let m = messages[n - 1];
        match m {
            MessageModel::Assistant { tool_calls, .. } => {
                let start = RepairModel { out: st.out.push(m), ..st };
                lemma_push_other(st, start, m);
                lemma_answers_placed(messages, start, tool_calls);
            },
            MessageModel::Tool { .. } => {},
            _ => {
                lemma_push_other(st, repaired_upto(messages, n), m);
            },
        }
    }
}

/// In a conversation put in order no call is answered twice.
pub proof fn law_repair_answers_once(messages: Seq<MessageModel>)
    ensures
        answered_once(repaired(messages).out),
{
    lemma_answered_once(messages, messages.len() as int);
}

/// A conversation without its answers.
pub open spec fn without_answers(messages: Seq<MessageModel>) -> Seq<MessageModel>
    decreases messages.len(),
{
    if messages.len() == 0 {
        Seq::empty()
    } else if messages.last() is Tool {
        without_answers(messages.drop_last())
    } else {
        without_answers(messages.drop_last()).push(messages.last())
    }
}

proof fn lemma_without_answers_push(s: Seq<MessageModel>, m: MessageModel)
    ensures
        without_answers(s.push(m)) == if m is Tool {
            without_answers(s)
        } else {
            without_answers(s).push(m)
        },
{
    assert(s.push(m).drop_last() =~= s);
}

proof fn lemma_answers_keep_the_rest(all: Seq<MessageModel>, st: RepairModel, calls: Seq<CallModel>)
    ensures
        without_answers(with_answers(all, st, calls).out) == without_answers(st.out),
    decreases calls.len(),
{
    if calls.len() > 0 {
        lemma_answers_keep_the_rest(all, st, calls.drop_last());
        let mid = with_answers(all, st, calls.drop_last());
        let r = with_answers(all, st, calls);
        let id = calls.last().id;
        lemma_answer_found(all, id);
        if !mid.placed.contains(id) {
            lemma_without_answers_push(mid.out, r.out.last());
            assert(r.out == mid.out.push(r.out.last()));
        }
    }
}

proof fn lemma_keeps_the_rest(messages: Seq<MessageModel>, n: int)
    requires
        0 <= n <= messages.len(),
    ensures
        without_answers(repaired_upto(messages, n).out) == without_answers(messages.take(n)),
    decreases n,
{
    if n == 0 {
        assert(messages.take(0) =~= Seq::empty());
    } else {
        lemma_keeps_the_rest(messages, n - 1);
        let st = repaired_upto(messages, n - 1);
        let m = messages[n - 1];
        assert(messages.take(n) =~= messages.take(n - 1).push(m));
        lemma_without_answers_push(messages.take(n - 1), m);
        lemma_without_answers_push(st.out, m);
        if let MessageModel::Assistant { tool_calls, .. } = m {
            let start = RepairModel { out: st.out.push(m), ..st };
            lemma_answers_keep_the_rest(messages, start, tool_calls);
        }
    }
}

/// Putting a conversation in order moves, adds and drops nothing but answers.
pub proof fn law_repair_keeps_the_rest(messages: Seq<MessageModel>)
    ensures
        without_answers(repaired(messages).out) == without_answers(messages),
{
    lemma_keeps_the_rest(messages, messages.len() as int);
    assert(messages.take(messages.len() as int) =~= messages);
}

/// How far a conversation in order reaches once its first `n` messages have
/// been placed: an assistant message brings its answers with it.
spec fn reach(messages: Seq<MessageModel>, n: int) -> int
    decreases n,
{
    if n <= 0 {
        0
    } else {
        match messages[n - 1] {
            MessageModel::Assistant { tool_calls, .. } => n + tool_calls.len(),
            _ => if reach(messages, n - 1) < n {
                n
            } else {
                reach(messages, n - 1)
            },
        }
    }
}

/// The answers that stand before `e`.
spec fn answer_ids(messages: Seq<MessageModel>, st: RepairModel, e: int) -> bool {
    forall|id: Seq<char>| #[trigger]
        st.placed.contains(id) <==> exists|i: int| 0 <= i < e && answers(#[trigger] messages[i], id)
}

proof fn lemma_first_answer_is(messages: Seq<MessageModel>, i: int, id: Seq<char>)
    requires
        answered_once(messages),
        0 <= i < messages.len(),
        answers(messages[i], id),
    ensures
        first_answer(messages, id) == Some(messages[i]),
{
    let f = |i: int|
        if answers(messages[i], id) {
            Some(messages[i])
        } else {
            None
        };
    assert forall|j: int| 0 <= j < i implies #[trigger] f(j) is None by {
        if answers(messages[j], id) {
            assert(messages[j] is Tool && messages[i] is Tool);
        }
    }
    lemma_first_at(messages.len() as int, f, i);
}

proof fn lemma_add_answer(messages: Seq<MessageModel>, st: RepairModel, e: int, id: Seq<char>)
    requires
        answered_once(messages),
        0 <= e < messages.len(),
        st.out == messages.take(e),
        answer_ids(messages, st, e),
        answers(messages[e], id),
    ensures
        !st.placed.contains(id),
        messages.take(e).push(messages[e]) == messages.take(e + 1),
        forall|r: RepairModel|
            #![trigger answer_ids(messages, r, e + 1)]
            r.placed == st.placed.push(id) ==> answer_ids(messages, r, e + 1),
{
    assert(messages.take(e).push(messages[e]) =~= messages.take(e + 1));
    if st.placed.contains(id) {
        let i = choose|i: int| 0 <= i < e && answers(#[trigger] messages[i], id);
        assert(messages[i] is Tool && messages[e] is Tool);
    }
    let placed = st.placed.push(id);
    assert forall|x: Seq<char>| #[trigger] placed.contains(x) <==> exists|i: int|
        0 <= i < e + 1 && answers(#[trigger] messages[i], x) by {
        if placed.contains(x) {
            let k = choose|k: int| 0 <= k < placed.len() && placed[k] == x;
            if k < st.placed.len() {
                assert(st.placed[k] == x);
                assert(st.placed.contains(x));
                let i = choose|i: int| 0 <= i < e && answers(#[trigger] messages[i], x);
                assert(answers(messages[i], x));
            } else {
                assert(answers(messages[e], x));
            }
        }
        if exists|i: int| 0 <= i < e + 1 && answers(#[trigger] messages[i], x) {
            let i = choose|i: int| 0 <= i < e + 1 && answers(#[trigger] messages[i], x);
            if i < e {
                assert(st.placed.contains(x));
                let k = choose|k: int| 0 <= k < st.placed.len() && st.placed[k] == x;
                assert(placed[k] == x);
            } else {
                assert(placed[placed.len() - 1] == x);
            }
        }
    }
}

proof fn lemma_answers_stay(
    messages: Seq<MessageModel>,
    st: RepairModel,
    e: int,
    calls: Seq<CallModel>,
)
    requires
        answered_once(messages),
        0 <= e,
        e + calls.len() <= messages.len(),
        forall|q: int|
            0 <= q < calls.len() ==> answers(#[trigger] messages[e + q], calls[q].id),
        st.out == messages.take(e),
        st.orphans.len() == 0,
        answer_ids(messages, st, e),
    ensures
        ({
            let r = with_answers(messages, st, calls);
            &&& r.out == messages.take(e + calls.len())
            &&& r.orphans.len() == 0
            &&& answer_ids(messages, r, e + calls.len())
        }),
    decreases calls.len(),
{
    if calls.len() > 0 {
        let before = calls.drop_last();
        assert forall|q: int| 0 <= q < before.len() implies answers(
            #[trigger] messages[e + q],
            before[q].id,
        ) by {
            assert(before[q] == calls[q]);
        }
        lemma_answers_stay(messages, st, e, before);
        let mid = with_answers(messages, st, before);
        let n = calls.len() - 1;
        let id = calls.last().id;
        assert(answers(messages[e + n], calls[n].id));
        lemma_first_answer_is(messages, e + n, id);
        lemma_add_answer(messages, mid, e + n, id);
        let r = with_answers(messages, st, calls);
        assert(r.placed == mid.placed.push(id));
        assert(answer_ids(messages, r, e + n + 1));
    }
}

proof fn lemma_stays(messages: Seq<MessageModel>, n: int)
    requires
        0 <= n <= messages.len(),
        all_answered(messages),
        answered_once(messages),
        no_strays(messages),
    ensures
        n <= reach(messages, n) <= messages.len(),
        forall|p: int|
            0 <= p < n && (#[trigger] messages[p]) is Assistant ==> p + 1
                + messages[p]->tool_calls.len() <= reach(messages, n),
        forall|i: int| n <= i < reach(messages, n) ==> (#[trigger] messages[i]) is Tool,
        ({
            let st = repaired_upto(messages, n);
            &&& st.out == messages.take(reach(messages, n))
            &&& st.orphans.len() == 0
            &&& answer_ids(messages, st, reach(messages, n))
        }),
    decreases n,
{
    if n == 0 {
        assert(messages.take(0) =~= Seq::empty());
        let st = repaired_upto(messages, 0);
        assert forall|id: Seq<char>| #[trigger] st.placed.contains(id) <==> exists|i: int|
            0 <= i < 0 && answers(#[trigger] messages[i], id) by {}
    } else {
        lemma_stays(messages, n - 1);
        let st = repaired_upto(messages, n - 1);
        let r = repaired_upto(messages, n);
        let m = messages[n - 1];
        let e = reach(messages, n - 1);
        if e >= n {
            assert(messages[n - 1] is Tool);
            let id = m->tool_call_id;
            assert(answers(messages[n - 1], id));
            assert(st.placed.contains(id));
        } else {
            match m {
                MessageModel::Assistant { tool_calls, .. } => {
                    assert(answered_at(messages, n - 1));
                    let start = RepairModel { out: st.out.push(m), ..st };
                    assert(start.out =~= messages.take(n));
                    assert(answer_ids(messages, start, n)) by {
                        assert forall|id: Seq<char>| #[trigger]
                            start.placed.contains(id) <==> exists|i: int|
                                0 <= i < n && answers(#[trigger] messages[i], id) by {
                            if st.placed.contains(id) {
                                let i = choose|i: int|
                                    0 <= i < n - 1 && answers(#[trigger] messages[i], id);
                                assert(answers(messages[i], id));
                            }
                            if exists|i: int| 0 <= i < n && answers(#[trigger] messages[i], id) {
                                let i = choose|i: int|
                                    0 <= i < n && answers(#[trigger] messages[i], id);
                                assert(i < n - 1);
                            }
                        }
                    }
                    assert forall|q: int| 0 <= q < tool_calls.len() implies answers(
                        #[trigger] messages[n + q],
                        tool_calls[q].id,
                    ) by {
                        assert(answers(messages[n - 1 + 1 + q], tool_calls[q].id));
                    }
                    lemma_answers_stay(messages, start, n, tool_calls);
                    assert forall|i: int| n <= i < reach(messages, n) implies (
                    #[trigger] messages[i]) is Tool by {
                        assert(answers(messages[n + (i - n)], tool_calls[i - n].id));
                    }
                },
                MessageModel::Tool { .. } => {
                    assert(behind_calls(messages, n - 1));
                    let p = choose|p: int|
                        0 <= p < n - 1 && (#[trigger] messages[p]) is Assistant && n - 1 - p
                            <= messages[p]->tool_calls.len();
                    assert(p + 1 + messages[p]->tool_calls.len() <= e);
                },
                _ => {
                    assert(st.out.push(m) =~= messages.take(n));
                    assert forall|id: Seq<char>| #[trigger] r.placed.contains(id) <==> exists|
                        i: int,
                    | 0 <= i < n && answers(#[trigger] messages[i], id) by {
                        if st.placed.contains(id) {
                            let i = choose|i: int|
                                0 <= i < n - 1 && answers(#[trigger] messages[i], id);
                            assert(answers(messages[i], id));
                        }
                        if exists|i: int| 0 <= i < n && answers(#[trigger] messages[i], id) {
                            let i = choose|i: int|
                                0 <= i < n && answers(#[trigger] messages[i], id);
                            assert(i < n - 1);
                        }
                    }
                },
            }
        }
    }
}

/// A conversation in which every call is answered once, right behind the
/// message that makes it, and nothing else is, is left as it is.
pub proof fn law_complete_conversations_stay(messages: Seq<MessageModel>)
    requires
        all_answered(messages),
        answered_once(messages),
        no_strays(messages),
    ensures
        repaired(messages).out == messages,
        repaired(messages).orphans.len() == 0,
{
    let n = messages.len() as int;
    lemma_stays(messages, n);
    assert(messages.take(n) =~= messages);
}

/// What has been put in order once stays as it is: provided that no two calls
/// share an id.
pub proof fn law_repair_is_done_once(messages: Seq<MessageModel>)
    requires
        calls_distinct(messages),
    ensures
        repaired(repaired(messages).out).out == repaired(messages).out,
        repaired(repaired(messages).out).orphans.len() == 0,
{
    law_repair_answers_every_call(messages);
    law_repair_answers_once(messages);
    law_complete_conversations_stay(repaired(messages).out);
}

} // verus!
