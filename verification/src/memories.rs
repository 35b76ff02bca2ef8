//! What is remembered across conversations: one text for the user, one for the
//! workspace and one for the session.
use vstd::prelude::*;
use vstd::string::*;

use crate::model::maybe;
use crate::text::{trim, trim_end, trimmed, trimmed_end};

verus! {

pub const MEMORIES_FILENAME: &'static str = "memories.md";

/// A text with a memory behind it, unless that is blank.
pub open spec fn with_memory(out: Seq<char>, label: Seq<char>, text: Option<Seq<char>>) -> Seq<char> {
    match text {
        Some(t) => if trimmed(t).len() == 0 {
            out
        } else {
            (if out.len() == 0 {
                out
            } else {
                out + "\n\n---\n\n"@
            }) + ("# "@ + label + " memory\n\n"@) + trimmed_end(t)
        },
        None => out,
    }
}

/// All memories, from the broadest to the narrowest.
pub open spec fn memories(
    global: Option<Seq<char>>,
    project: Option<Seq<char>>,
    session: Option<Seq<char>>,
) -> Option<Seq<char>> {
    let out = with_memory(
        with_memory(with_memory(Seq::empty(), "Global"@, global), "Project"@, project),
        "Session"@,
        session,
    );
    if out.len() == 0 {
        None
    } else {
        Some(out)
    }
}

fn add_memory(out: String, label: &str, text: &Option<String>) -> (r: String)
    ensures
        r@ == with_memory(out@, label@, maybe(*text)),
{
    let mut out = out;
    if let Some(t) = text {
        if !trim(t.as_str()).as_str().is_empty() {
            if !out.as_str().is_empty() {
                out.append("\n\n---\n\n");
            }
            let mut head = "# ".to_owned();
            head.append(label);
            head.append(" memory\n\n");
            out.append(head.as_str());
            out.append(trim_end(t.as_str()).as_str());
        }
    }
    out
}

/// Puts the memories together into one message. A file that is not there has
/// no text; blank ones are left out.
pub fn load(
    global: &Option<String>,
    project: &Option<String>,
    session: &Option<String>,
) -> (r: Option<String>)
    ensures
        maybe(r) == memories(maybe(*global), maybe(*project), maybe(*session)),
{
    let empty = String::new();
    assert(empty@ =~= Seq::empty());
    let out = add_memory(empty, "Global", global);
    let out = add_memory(out, "Project", project);
    let out = add_memory(out, "Session", session);
    if out.as_str().is_empty() {
        None
    } else {
        Some(out)
    }
}

/// Memories come from the broadest to the narrowest, each under its name and
/// whole but for white space behind it. One that is blank or absent is left
/// out, and where all are there is no message.
pub proof fn law_memories_come_in_order(
    global: &Option<String>,
    project: &Option<String>,
    session: &Option<String>,
    r: Option<String>,
)
    requires
        call_ensures(load, (global, project, session), r),
    ensures
        ({
            let g = *global is Some && trimmed(global->0@).len() > 0;
            let p = *project is Some && trimmed(project->0@).len() > 0;
            let s = *session is Some && trimmed(session->0@).len() > 0;
            let gt = "# "@ + "Global"@ + " memory\n\n"@ + trimmed_end(global->0@);
            let pt = "# "@ + "Project"@ + " memory\n\n"@ + trimmed_end(project->0@);
            let st = "# "@ + "Session"@ + " memory\n\n"@ + trimmed_end(session->0@);
            let sep = "\n\n---\n\n"@;
            &&& r is None <==> !g && !p && !s
            &&& g && p && s ==> r->0@ == gt + sep + pt + sep + st
            &&& g && p && !s ==> r->0@ == gt + sep + pt
            &&& g && !p && s ==> r->0@ == gt + sep + st
            &&& !g && p && s ==> r->0@ == pt + sep + st
            &&& g && !p && !s ==> r->0@ == gt
            &&& !g && p && !s ==> r->0@ == pt
            &&& !g && !p && s ==> r->0@ == st
        }),
{
    let g = maybe(*global);
    let p = maybe(*project);
    let s = maybe(*session);
    let none = Seq::<char>::empty();
    reveal_strlit("# ");
    let a = with_memory(none, "Global"@, g);
    let b = with_memory(a, "Project"@, p);
    let c = with_memory(b, "Session"@, s);
    assert(maybe(r) is Some <==> r is Some);
    let gt = "# "@ + "Global"@ + " memory\n\n"@ + trimmed_end(global->0@);
    let pt = "# "@ + "Project"@ + " memory\n\n"@ + trimmed_end(project->0@);
    let st = "# "@ + "Session"@ + " memory\n\n"@ + trimmed_end(session->0@);
    let sep = "\n\n---\n\n"@;
    let hg = *global is Some && trimmed(global->0@).len() > 0;
    let hp = *project is Some && trimmed(project->0@).len() > 0;
    let hs = *session is Some && trimmed(session->0@).len() > 0;
    assert(a =~= if hg {
        gt
    } else {
        none
    });
    assert(b =~= if hp {
        if a.len() == 0 {
            pt
        } else {
            a + sep + pt
        }
    } else {
        a
    });
    assert(c =~= if hs {
        if b.len() == 0 {
            st
        } else {
            b + sep + st
        }
    } else {
        b
    });
}

} // verus!
