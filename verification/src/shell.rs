//! Commands as one line, as a shell would read it.
use vstd::prelude::*;
use vstd::string::*;

use crate::text::{chars_of, join, joined, views};

verus! {

/// How characters stand inside single quotes.
pub open spec fn shell_escaped(s: Seq<char>) -> Seq<char>
    decreases s.len(),
{
    if s.len() == 0 {
        Seq::empty()
    } else if s.last() == '\'' {
        shell_escaped(s.drop_last()) + "'\\''"@
    } else {
        shell_escaped(s.drop_last()).push(s.last())
    }
}

/// A text between single quotes, as a shell reads it.
pub open spec fn shell_quoted(s: Seq<char>) -> Seq<char> {
    (seq!['\''] + shell_escaped(s)).push('\'')
}

/// Puts a text between single quotes, whatever it holds.
pub fn shell_single_quote(s: &str) -> (r: String)
    ensures
        r@ == shell_quoted(s@),
{
    let v = chars_of(s);
    let mut out = String::new();
    out.push('\'');
    let mut i: usize = 0;
    assert(v@.take(0) =~= Seq::empty());
    assert(out@ =~= seq!['\''] + shell_escaped(v@.take(0)));
    while i < v.len()
        invariant
            i <= v@.len(),
            out@ == seq!['\''] + shell_escaped(v@.take(i as int)),
        decreases v@.len() - i,
    {
        let ghost before = shell_escaped(v@.take(i as int));
        proof {
            assert(v@.take(i + 1).drop_last() =~= v@.take(i as int));
            assert(v@.take(i + 1).last() == v@[i as int]);
        }
        if v[i] == '\'' {
            out.append("'\\''");
            assert(seq!['\''] + before + "'\\''"@ =~= seq!['\''] + (before + "'\\''"@));
        } else {
            out.push(v[i]);
            assert((seq!['\''] + before).push(v@[i as int]) =~= seq!['\''] + before.push(
                v@[i as int],
            ));
        }
        i = i + 1;
    }
    assert(v@.take(v@.len() as int) =~= v@);
    out.push('\'');
    out
}

/// Whether a character means something to a shell.
pub open spec fn shell_special(c: char) -> bool {
    c == ' ' || c == '\t' || c == '\n' || c == '|' || c == '&' || c == ';' || c == '(' || c == ')'
        || c == '$' || c == '`' || c == '>' || c == '<' || c == '\\' || c == '"' || c == '\''
        || c == '*' || c == '?' || c == '[' || c == ']' || c == '{' || c == '}' || c == '!'
        || c == '#' || c == '~' || c == '='
}

fn needs_shell_quote(c: char) -> (r: bool)
    ensures
        r == shell_special(c),
{
    c == ' ' || c == '\t' || c == '\n' || c == '|' || c == '&' || c == ';' || c == '(' || c == ')'
        || c == '$' || c == '`' || c == '>' || c == '<' || c == '\\' || c == '"' || c == '\''
        || c == '*' || c == '?' || c == '[' || c == ']' || c == '{' || c == '}' || c == '!'
        || c == '#' || c == '~' || c == '='
}

/// Whether a word has to be quoted for a shell.
pub open spec fn word_needs_quote(s: Seq<char>) -> bool {
    s.len() == 0 || exists|i: int| 0 <= i < s.len() && shell_special(#[trigger] s[i])
}

/// A word as it is shown on a command line.
pub open spec fn shell_word(s: Seq<char>) -> Seq<char> {
    if word_needs_quote(s) {
        shell_quoted(s)
    } else {
        s
    }
}

/// A command as one line, its words quoted where they need it.
pub open spec fn shell_line(argv: Seq<Seq<char>>) -> Seq<char> {
    joined(argv.map_values(|s: Seq<char>| shell_word(s)), " "@)
}

fn write_shell_word(s: &str) -> (r: String)
    ensures
        r@ == shell_word(s@),
{
    let v = chars_of(s);
    if v.len() == 0 {
        return shell_single_quote(s);
    }
    let mut i: usize = 0;
    while i < v.len()
        invariant
            i <= v@.len(),
            v@ == s@,
            forall|k: int| 0 <= k < i ==> !shell_special(#[trigger] v@[k]),
        decreases v@.len() - i,
    {
        if needs_shell_quote(v[i]) {
            return shell_single_quote(s);
        }
        i = i + 1;
    }
    s.to_owned()
}

/// Writes a command as one line for a reader, its words quoted where they
/// need it.
pub fn shell_escape_argv(argv: &Vec<String>) -> (r: String)
    ensures
        r@ == shell_line(views(argv@)),
{
    let mut parts: Vec<String> = Vec::new();
    let mut i: usize = 0;
    while i < argv.len()
        invariant
            i <= argv@.len(),
            parts@.len() == i,
            forall|k: int| 0 <= k < i ==> (#[trigger] parts@[k])@ == shell_word(argv@[k]@),
        decreases argv@.len() - i,
    {
        parts.push(write_shell_word(argv[i].as_str()));
        i = i + 1;
    }
    assert(views(parts@) =~= views(argv@).map_values(|s: Seq<char>| shell_word(s)));
    join(&parts, " ")
}

/// How a shell reads the next character.
pub enum ShellMode {
    Plain,
    /// Inside single quotes.
    Quoted,
    /// Behind a backslash.
    Escaped,
}

/// How far a shell has read a line: the words that are complete, the word
/// that is not, and how it goes on.
pub struct ShellState {
    pub words: Seq<Seq<char>>,
    pub word: Option<Seq<char>>,
    pub mode: ShellMode,
}

/// What has been read of a word, with one more character.
pub open spec fn longer(word: Option<Seq<char>>, c: char) -> Option<Seq<char>> {
    match word {
        Some(w) => Some(w.push(c)),
        None => Some(seq![c]),
    }
}

/// What has been read of a word, which has begun.
pub open spec fn begun(word: Option<Seq<char>>) -> Option<Seq<char>> {
    match word {
        Some(w) => Some(w),
        None => Some(Seq::empty()),
    }
}

/// A shell reads one more character: blanks part words, nothing has a meaning
/// inside single quotes, and a character behind a backslash stands for itself.
pub open spec fn shell_step(st: ShellState, c: char) -> ShellState {
    match st.mode {
        ShellMode::Plain => if c == ' ' || c == '\t' || c == '\n' {
            match st.word {
                Some(w) => ShellState { words: st.words.push(w), word: None, ..st },
                None => st,
            }
        } else if c == '\'' {
            ShellState { word: begun(st.word), mode: ShellMode::Quoted, ..st }
        } else if c == '\\' {
            ShellState { word: begun(st.word), mode: ShellMode::Escaped, ..st }
        } else {
            ShellState { word: longer(st.word, c), ..st }
        },
        ShellMode::Quoted => if c == '\'' {
            ShellState { mode: ShellMode::Plain, ..st }
        } else {
            ShellState { word: longer(st.word, c), ..st }
        },
        ShellMode::Escaped => ShellState {
            word: longer(st.word, c),
            mode: ShellMode::Plain,
            ..st
        },
    }
}

/// How far a shell is once it has read a text.
pub open spec fn shell_read(st: ShellState, s: Seq<char>) -> ShellState
    decreases s.len(),
{
    if s.len() == 0 {
        st
    } else {
        shell_step(shell_read(st, s.drop_last()), s.last())
    }
}

/// The words that a shell reads from a line.
pub open spec fn shell_words(line: Seq<char>) -> Seq<Seq<char>> {
    let st = shell_read(
        ShellState { words: Seq::empty(), word: None, mode: ShellMode::Plain },
        line,
    );
    match st.word {
        Some(w) => st.words.push(w),
        None => st.words,
    }
}

proof fn lemma_shell_read_add(st: ShellState, a: Seq<char>, b: Seq<char>)
    ensures
        shell_read(st, a + b) == shell_read(shell_read(st, a), b),
    decreases b.len(),
{
    if b.len() == 0 {
        assert(a + b =~= a);
    } else {
        assert((a + b).drop_last() =~= a + b.drop_last());
        assert((a + b).last() == b.last());
        lemma_shell_read_add(st, a, b.drop_last());
    }
}

proof fn lemma_shell_read_one(st: ShellState, c: char)
    ensures
        shell_read(st, seq![c]) == shell_step(st, c),
{
    assert(seq![c].drop_last() =~= Seq::empty());
    assert(shell_read(st, seq![c].drop_last()) == st);
}

/// Inside single quotes an escaped text is read as it was.
proof fn lemma_escaped_is_read(st: ShellState, w: Seq<char>, s: Seq<char>)
    requires
        st.mode is Quoted,
        st.word == Some(w),
    ensures
        shell_read(st, shell_escaped(s)) == (ShellState { word: Some(w + s), ..st }),
    decreases s.len(),
{
    if s.len() == 0 {
        assert(w + s =~= w);
    } else {
        let before = shell_escaped(s.drop_last());
        lemma_escaped_is_read(st, w, s.drop_last());
        let mid = ShellState { word: Some(w + s.drop_last()), ..st };
        assert((w + s.drop_last()).push(s.last()) =~= w + s);
        if s.last() == '\'' {
            reveal_strlit("'\\''");
            assert("'\\''"@ =~= seq!['\''] + seq!['\\'] + seq!['\''] + seq!['\'']);
            lemma_shell_read_add(st, before, "'\\''"@);
            lemma_shell_read_add(mid, seq!['\''] + seq!['\\'] + seq!['\''], seq!['\'']);
            lemma_shell_read_add(mid, seq!['\''] + seq!['\\'], seq!['\'']);
            lemma_shell_read_add(mid, seq!['\''], seq!['\\']);
            lemma_shell_read_one(mid, '\'');
            let open = shell_step(mid, '\'');
            lemma_shell_read_one(open, '\\');
            let behind = shell_step(open, '\\');
            lemma_shell_read_one(behind, '\'');
            let then = shell_step(behind, '\'');
            lemma_shell_read_one(then, '\'');
        } else {
            assert(before.push(s.last()).drop_last() =~= before);
        }
    }
}

/// A word that needs no quotes is read as it is.
proof fn lemma_plain_word_is_read(st: ShellState, s: Seq<char>)
    requires
        st.mode is Plain,
        st.word is None,
        s.len() > 0,
        forall|i: int| 0 <= i < s.len() ==> !shell_special(#[trigger] s[i]),
    ensures
        shell_read(st, s) == (ShellState { word: Some(s), ..st }),
    decreases s.len(),
{
    let before = s.drop_last();
    assert(!shell_special(s[s.len() - 1]));
    if before.len() == 0 {
        assert(shell_read(st, before) == st);
        assert(s =~= seq![s.last()]);
    } else {
        assert forall|i: int| 0 <= i < before.len() implies !shell_special(#[trigger] before[i]) by {
            assert(before[i] == s[i]);
        }
        lemma_plain_word_is_read(st, before);
        assert(before.push(s.last()) =~= s);
    }
}

proof fn lemma_word_is_read(st: ShellState, s: Seq<char>)
    requires
        st.mode is Plain,
        st.word is None,
    ensures
        shell_read(st, shell_word(s)) == (ShellState { word: Some(s), ..st }),
{
    if word_needs_quote(s) {
        let open = seq!['\''];
        let inner = shell_escaped(s);
        assert(shell_quoted(s) =~= open + inner + open);
        lemma_shell_read_add(st, open + inner, open);
        lemma_shell_read_add(st, open, inner);
        lemma_shell_read_one(st, '\'');
        let quoted = shell_step(st, '\'');
        lemma_escaped_is_read(quoted, Seq::empty(), s);
        assert(Seq::<char>::empty() + s =~= s);
        lemma_shell_read_one(ShellState { word: Some(s), ..quoted }, '\'');
    } else {
        lemma_plain_word_is_read(st, s);
    }
}

proof fn lemma_line_is_read(argv: Seq<Seq<char>>)
    requires
        argv.len() > 0,
    ensures
        shell_read(
            ShellState { words: Seq::empty(), word: None, mode: ShellMode::Plain },
            shell_line(argv),
        ) == (ShellState {
            words: argv.drop_last(),
            word: Some(argv.last()),
            mode: ShellMode::Plain,
        }),
    decreases argv.len(),
{
    let start = ShellState { words: Seq::empty(), word: None, mode: ShellMode::Plain };
    let words = argv.map_values(|s: Seq<char>| shell_word(s));
    if argv.len() == 1 {
        assert(argv.drop_last() =~= Seq::empty());
        assert(shell_line(argv) =~= shell_word(argv[0]));
        lemma_word_is_read(start, argv[0]);
    } else {
        let before = argv.drop_last();
        lemma_line_is_read(before);
        assert(words.drop_last() =~= before.map_values(|s: Seq<char>| shell_word(s)));
        assert(words.last() == shell_word(argv.last()));
        let line = shell_line(before);
        reveal_strlit(" ");
        assert(" "@ =~= seq![' ']);
        assert(shell_line(argv) =~= line + seq![' '] + shell_word(argv.last()));
        lemma_shell_read_add(start, line + seq![' '], shell_word(argv.last()));
        lemma_shell_read_add(start, line, seq![' ']);
        lemma_shell_read_one(shell_read(start, line), ' ');
        assert(before.drop_last().push(before.last()) =~= before);
        lemma_word_is_read(ShellState { words: before, ..start }, argv.last());
    }
}

/// A line shows one command only: a shell reads from it the words that it was
/// written for.
pub proof fn law_lines_read_back(argv: Seq<Seq<char>>)
    ensures
        shell_words(shell_line(argv)) == argv,
{
    if argv.len() == 0 {
        assert(argv =~= Seq::empty());
        assert(shell_line(argv) =~= Seq::empty());
    } else {
        lemma_line_is_read(argv);
        assert(argv.drop_last().push(argv.last()) =~= argv);
    }
}

/// A word that holds a character with a meaning to a shell, or none at all,
/// is shown between single quotes; any other word is shown as it is.
pub proof fn law_words_with_a_meaning_are_quoted(argv: &Vec<String>, r: String, i: int)
    requires
        call_ensures(shell_escape_argv, (argv,), r),
        argv@.len() == 1,
    ensures
        argv@[0]@.len() == 0 ==> r@ == seq!['\'', '\''],
        0 <= i < argv@[0]@.len() && " \t\n|&;()$`><\\\"'*?[]{}!#~="@.contains(argv@[0]@[i])
            ==> r@.len() >= 2 && r@[0] == '\'' && r@.last() == '\'',
        argv@[0]@.len() > 0 && (forall|k: int|
            0 <= k < argv@[0]@.len() ==> !" \t\n|&;()$`><\\\"'*?[]{}!#~="@.contains(
                #[trigger] argv@[0]@[k],
            )) ==> r@ == argv@[0]@,
{
    let s = argv@[0]@;
    let v = views(argv@);
    assert(v.len() == 1 && v[0] == s);
    let words = v.map_values(|s: Seq<char>| shell_word(s));
    assert(words.len() == 1 && words[0] == shell_word(s));
    assert(joined(words, " "@) == words[0]);
    if s.len() == 0 {
        assert(r@ =~= seq!['\'', '\'']);
    }
    if 0 <= i < s.len() {
        lemma_special(s[i]);
    }
    if forall|k: int|
        0 <= k < s.len() ==> !" \t\n|&;()$`><\\\"'*?[]{}!#~="@.contains(#[trigger] s[k]) {
        assert forall|k: int| 0 <= k < s.len() implies !shell_special(#[trigger] s[k]) by {
            lemma_special(s[k]);
        }
    }
}

proof fn lemma_special(c: char)
    ensures
        shell_special(c) <==> " \t\n|&;()$`><\\\"'*?[]{}!#~="@.contains(c),
{
    let all = " \t\n|&;()$`><\\\"'*?[]{}!#~="@;
    reveal_strlit(" \t\n|&;()$`><\\\"'*?[]{}!#~=");
    if shell_special(c) {
        assert(all[0] == ' ' && all[1] == '\t' && all[2] == '\n' && all[3] == '|' && all[4] == '&'
            && all[5] == ';' && all[6] == '(' && all[7] == ')' && all[8] == '$' && all[9] == '`'
            && all[10] == '>' && all[11] == '<' && all[12] == '\\' && all[13] == '"' && all[14]
            == '\'' && all[15] == '*' && all[16] == '?' && all[17] == '[' && all[18] == ']'
            && all[19] == '{' && all[20] == '}' && all[21] == '!' && all[22] == '#' && all[23]
            == '~' && all[24] == '=');
    }
    if all.contains(c) {
        let k = choose|k: int| 0 <= k < all.len() && all[k] == c;
        assert(all.len() == 25);
    }
}

/// A line that is written for a command is read by a shell as the words of
/// the command.
pub proof fn law_written_lines_are_read(argv: &Vec<String>, r: String)
    requires
        call_ensures(shell_escape_argv, (argv,), r),
    ensures
        shell_words(r@) == views(argv@),
{
    law_lines_read_back(views(argv@));
}

/// A text between single quotes is read by a shell as one word, whatever it
/// holds.
pub proof fn law_quoted_texts_are_one_word(s: &str, r: String)
    requires
        call_ensures(shell_single_quote, (s,), r),
    ensures
        shell_words(r@) == seq![s@],
        r@.len() >= 2 && r@[0] == '\'' && r@.last() == '\'',
{
    let st = ShellState { words: Seq::empty(), word: None, mode: ShellMode::Plain };
    let open = seq!['\''];
    let inner = shell_escaped(s@);
    lemma_shell_read_one(st, '\'');
    let quoted = ShellState { word: Some(Seq::empty()), mode: ShellMode::Quoted, ..st };
    assert(shell_read(st, open) == quoted);
    lemma_shell_read_add(st, open, inner);
    lemma_escaped_is_read(quoted, Seq::empty(), s@);
    assert(Seq::<char>::empty() + s@ =~= s@);
    assert(r@.drop_last() =~= open + inner);
    assert(r@.last() == '\'');
    assert(shell_words(r@) =~= seq![s@]);
}

} // verus!
