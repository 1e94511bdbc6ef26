//! The tools the agents work with: preparing an SQL query and reading its
//! result, and preparing a shell command and reading its outcome.
use vstd::prelude::*;
use vstd::utf8::{encode_utf8, is_char_boundary};
use crate::tasks::spec_parse_task;
use crate::text::{
    chars_of, join_seq, join_strings, matches_at_exec, split_seq, split_str, starts_with_seq, string_of,
};

verus! {

// ----------------------------------------------------------------------------
// SQL queries
// ----------------------------------------------------------------------------

/// A line that opens or closes a Markdown code fence.
pub open spec fn is_fence_line(line: Seq<char>) -> bool {
    starts_with_seq(line, "```"@)
}

/// The lines that are not code-fence lines, in order.
pub open spec fn unfenced(lines: Seq<Seq<char>>) -> Seq<Seq<char>>
    decreases lines.len(),
{
    if lines.len() == 0 {
        Seq::empty()
    } else {
        let rest = unfenced(lines.drop_last());
        if is_fence_line(lines.last()) {
            rest
        } else {
            rest.push(lines.last())
        }
    }
}

/// The query an agent wrote, with the code-fence lines that models wrap SQL
/// in taken out.
pub open spec fn spec_sanitize_query(query: Seq<char>) -> Seq<char> {
    join_seq(unfenced(split_seq(query, "\n"@)), "\n"@)
}

/// Every line whose UTF-8 encoding has three bytes or more has a character
/// boundary after its third byte, where a line is cut to look for a fence.
pub open spec fn lines_cut_cleanly(query: Seq<char>) -> bool {
    let lines = split_seq(query, "\n"@);
    forall|i: int|
        0 <= i < lines.len() ==> (#[trigger] encode_utf8(lines[i])).len() >= 3 ==> is_char_boundary(
            encode_utf8(lines[i]),
            3,
        )
}

/// Some line of the query is not a fence line.
pub open spec fn keeps_a_line(query: Seq<char>) -> bool {
    unfenced(split_seq(query, "\n"@)).len() > 0
}

/// The query without its code-fence lines, the remaining lines joined by
/// newlines.
pub fn sanitize_query(query: &str) -> (r: String)
    requires
        lines_cut_cleanly(query@),
        keeps_a_line(query@),
    ensures
        r@ == spec_sanitize_query(query@),
{
    proof {
        reveal_strlit("\n");
    }
    let lines = split_str(query, "\n");
    let fence = chars_of("```");
    let ghost lv = lines.deep_view();
    let mut kept: Vec<String> = Vec::new();
    let mut i: usize = 0;
    assert(lv.take(0) =~= Seq::<Seq<char>>::empty());
    while i < lines.len()
        invariant
            lv == lines.deep_view(),
            fence@ == "```"@,
            i <= lines@.len(),
            kept.deep_view() == unfenced(lv.take(i as int)),
        decreases lines@.len() - i,
    {
        let ghost before = kept.deep_view();
        assert(lv.take(i + 1).drop_last() =~= lv.take(i as int));
        assert(lv.take(i + 1).last() == lines@[i as int]@);
        let line = chars_of(lines[i].as_str());
        if !matches_at_exec(line.as_slice(), fence.as_slice(), 0) {
            let l = lines[i].clone();
            kept.push(l);
            assert(kept.deep_view() =~= before.push(lines@[i as int]@));
        }
        i = i + 1;
    }
    assert(lv.take(lines@.len() as int) =~= lv);
    join_strings(&kept, "\n")
}

/// The index of the first `(` in `s`, or `s.len()` when there is none.
pub open spec fn open_index(s: Seq<char>) -> int
    decreases s.len(),
{
    if s.len() == 0 {
        0
    } else if s[0] == '(' {
        0
    } else {
        1 + open_index(s.skip(1))
    }
}

/// The index of the last `)` in `s`, or `-1` when there is none.
pub open spec fn close_index(s: Seq<char>) -> int
    decreases s.len(),
{
    if s.len() == 0 {
        -1
    } else if s.last() == ')' {
        s.len() - 1
    } else {
        close_index(s.drop_last())
    }
}

/// The text shown for a database value: its debug text without the variant
/// name, that is what stands between the first `(` and the last `)`
/// (`Integer(5)` gives `5`, `String("a)b")` gives `"a)b"`), and nothing for
/// a value without parentheses (`Null`).
pub open spec fn spec_extract_value(debug: Seq<char>) -> Seq<char> {
    let i = open_index(debug);
    let j = close_index(debug);
    if i < j {
        debug.subrange(i + 1, j)
    } else {
        Seq::empty()
    }
}

/// The text shown for a database value, read from its debug text: the
/// value's text representation without its debug information.
pub fn extract_value(debug: &str) -> (r: String)
    ensures
        r@ == spec_extract_value(debug@),
{
    let d = chars_of(debug);
    let n = d.len();
    let mut i: usize = 0;
    assert(d@.skip(0) =~= d@);
    while i < n && d[i] != '('
        invariant
            n == d@.len(),
            i <= n,
            open_index(d@) == i + open_index(d@.skip(i as int)),
        decreases n - i,
    {
        assert(d@.skip(i as int).skip(1) =~= d@.skip(i + 1));
        i = i + 1;
    }
    assert(open_index(d@) == i);
    let mut j: usize = n;
    assert(d@.take(n as int) =~= d@);
    while j > 0 && d[j - 1] != ')'
        invariant
            n == d@.len(),
            j <= n,
            close_index(d@) == close_index(d@.take(j as int)),
        decreases j,
    {
        assert(d@.take(j as int).drop_last() =~= d@.take(j - 1));
        j = j - 1;
    }
    proof {
        if j > 0 {
            assert(d@.take(j as int).last() == ')');
        }
    }
    assert(close_index(d@) == j - 1);
    if j > 0 && i < j - 1 {
        let inner = d.as_slice().split_at(j - 1).0.split_at(i + 1).1;
        assert(inner@ =~= d@.subrange(i + 1, j - 1));
        string_of(inner)
    } else {
        proof {
            if j > 0 && i == j - 1 {
                assert(d@.subrange(i + 1, j - 1) =~= Seq::<char>::empty());
            }
        }
        String::new()
    }
}

/// The text of a result row: each field's shown value followed by `, `.
pub open spec fn row_text(fields: Seq<Seq<char>>) -> Seq<char>
    decreases fields.len(),
{
    if fields.len() == 0 {
        Seq::empty()
    } else {
        row_text(fields.drop_last()) + spec_extract_value(fields.last()) + ", "@
    }
}

/// Appends the text of one result row, given the debug texts of its fields.
pub fn append_row(result: &mut String, fields: &Vec<String>)
    ensures
        final(result)@ == old(result)@ + row_text(fields.deep_view()),
{
    let ghost fv = fields.deep_view();
    let mut i: usize = 0;
    assert(fv.take(0) =~= Seq::<Seq<char>>::empty());
    assert(result@ =~= old(result)@ + row_text(fv.take(0)));
    while i < fields.len()
        invariant
            fv == fields.deep_view(),
            i <= fields@.len(),
            result@ == old(result)@ + row_text(fv.take(i as int)),
        decreases fields@.len() - i,
    {
        assert(fv.take(i + 1).drop_last() =~= fv.take(i as int));
        assert(fv.take(i + 1).last() == fields@[i as int]@);
        let shown = extract_value(fields[i].as_str());
        result.append(shown.as_str());
        result.append(", ");
        i = i + 1;
        assert(result@ =~= old(result)@ + row_text(fv.take(i as int)));
    }
    assert(fv.take(fields@.len() as int) =~= fv);
}

proof fn lemma_open_index_after(p: Seq<char>, r: Seq<char>)
    requires
        forall|k: int| 0 <= k < p.len() ==> #[trigger] p[k] != '(',
    ensures
        open_index(p + r) == p.len() + open_index(r),
    decreases p.len(),
{
    if p.len() > 0 {
        assert((p + r)[0] == p[0]);
        assert((p + r).skip(1) =~= p.skip(1) + r);
        lemma_open_index_after(p.skip(1), r);
    } else {
        assert(p + r =~= r);
    }
}

/// The debug text `Name(text)` of a value, with no `(` in the name, shows
/// as `text`, whatever `text` holds (parentheses included).
pub proof fn lemma_extract_wrapped(name: Seq<char>, inner: Seq<char>)
    requires
        forall|k: int| 0 <= k < name.len() ==> #[trigger] name[k] != '(',
    ensures
        spec_extract_value(name + seq!['('] + inner + seq![')']) == inner,
{
    let tail = seq!['('] + inner + seq![')'];
    let all = name + seq!['('] + inner + seq![')'];
    assert(all =~= name + tail);
    lemma_open_index_after(name, tail);
    assert(tail[0] == '(');
    assert(open_index(tail) == 0);
    assert(all.last() == ')');
    assert(close_index(all) == all.len() - 1);
    assert(all.subrange(name.len() + 1int, all.len() - 1) =~= inner);
}

// ----------------------------------------------------------------------------
// Shell commands
// ----------------------------------------------------------------------------

/// The error that `shell_words::split` returns on an unmatched quote.
#[verifier::external_type_specification]
#[verifier::external_body]
pub struct ExShellParseError(shell_words::ParseError);

/// What `shell_words::split` returns for a command line: `None` when it
/// fails, otherwise the words, after the quote removal and escapes of the
/// POSIX shell that take pages to state.
pub uninterp spec fn shell_words_of(line: Seq<char>) -> Option<Seq<Seq<char>>>;

/// Calls `shell_words::split`; the contract claims that it succeeds exactly
/// when `shell_words_of` is `Some`, with those words, and nothing about what
/// the words are.
#[verifier::external_body]
fn shell_split(line: &str) -> (r: Result<Vec<String>, shell_words::ParseError>)
    ensures
        r is Ok <==> shell_words_of(line@) is Some,
        r matches Ok(words) ==> words.deep_view() == shell_words_of(line@).unwrap(),
{
    shell_words::split(line)
}

/// Formats a `shell_words::ParseError` with its `Display` impl, which
/// writes the fixed text `missing closing quote`.
#[verifier::external_body]
fn parse_error_text(e: &shell_words::ParseError) -> (r: String)
    ensures
        r@ == "missing closing quote"@,
{
    format!("{}", e)
}

/// What to do with a command line an agent proposed.
#[derive(Debug, PartialEq, Eq)]
pub enum BashPlan {
    /// The command asks for privileges; the text explains the refusal.
    Refused(String),
    /// The command line could not be split into words; the text says why.
    Unparsable(String),
    /// The command line holds no word at all.
    NoWords,
    /// Run the program (first word) with the arguments (other words).
    Run(String, Vec<String>),
}

/// The mathematical content of a [`BashPlan`].
pub enum BashPlanView {
    Refused(Seq<char>),
    Unparsable(Seq<char>),
    NoWords,
    Run(Seq<char>, Seq<Seq<char>>),
}

impl View for BashPlan {
    type V = BashPlanView;

    open spec fn view(&self) -> BashPlanView {
        match self {
            BashPlan::Refused(m) => BashPlanView::Refused(m@),
            BashPlan::Unparsable(m) => BashPlanView::Unparsable(m@),
            BashPlan::NoWords => BashPlanView::NoWords,
            BashPlan::Run(p, a) => BashPlanView::Run(p@, a.deep_view()),
        }
    }
}

/// The refusal of a command that mentions `sudo`.
pub open spec fn refusal_text(command: Seq<char>) -> Seq<char> {
    "Can't execute the following command due to permission : "@ + command
}

/// The plan for the words a command line was split into, or the reason it
/// could not be split.
pub open spec fn spec_plan_from_words(words: Result<Seq<Seq<char>>, Seq<char>>) -> BashPlanView {
    match words {
        Err(e) => BashPlanView::Unparsable(e),
        Ok(ws) => if ws.len() == 0 {
            BashPlanView::NoWords
        } else {
            BashPlanView::Run(ws[0], ws.skip(1))
        },
    }
}

/// The plan for a command line: refused when it mentions `sudo`, otherwise
/// what its split gives.
pub open spec fn spec_plan_bash_command(command: Seq<char>) -> BashPlanView {
    if crate::text::contains_seq(command, "sudo"@) {
        BashPlanView::Refused(refusal_text(command))
    } else {
        match shell_words_of(command) {
            None => BashPlanView::Unparsable("missing closing quote"@),
            Some(ws) => spec_plan_from_words(Ok(ws)),
        }
    }
}

/// The mathematical content of a split result.
pub open spec fn words_view(words: Result<Vec<String>, String>) -> Result<Seq<Seq<char>>, Seq<char>> {
    match words {
        Ok(ws) => Ok(ws.deep_view()),
        Err(e) => Err(e@),
    }
}

/// The plan for the words a command line was split into (or the error of
/// the split): the first word is the program, the others its arguments.
pub fn plan_from_words(words: Result<Vec<String>, String>) -> (r: BashPlan)
    ensures
        r@ == spec_plan_from_words(words_view(words)),
{
    match words {
        Err(e) => BashPlan::Unparsable(e),
        Ok(mut ws) => {
            if ws.len() == 0 {
                BashPlan::NoWords
            } else {
                let ghost before = ws.deep_view();
                let program = ws.remove(0);
                assert(ws.deep_view() =~= before.skip(1));
                BashPlan::Run(program, ws)
            }
        },
    }
}

/// Decides what to do with a command line an agent proposed.
pub fn plan_bash_command(agent_command: &str) -> (r: BashPlan)
    ensures
        r@ == spec_plan_bash_command(agent_command@),
{
    let cmd = chars_of(agent_command);
    if crate::text::contains_exec(cmd.as_slice(), chars_of("sudo").as_slice()) {
        let mut msg = String::from_str("Can't execute the following command due to permission : ");
        msg.append(agent_command);
        return BashPlan::Refused(msg);
    }
    match shell_split(agent_command) {
        Ok(words) => plan_from_words(Ok(words)),
        Err(e) => plan_from_words(Err(parse_error_text(&e))),
    }
}

/// The note returned when a command succeeded without printing anything.
pub open spec fn silent_success_text(command: Seq<char>) -> Seq<char> {
    "Successfully run the following comand :\n`"@ + command + "`"@
}

/// The answer of a finished command: its standard output when it succeeded
/// (or a note when that is empty), its standard error when it failed.
pub open spec fn spec_bash_outcome(
    command: Seq<char>,
    success: bool,
    stdout: Seq<char>,
    stderr: Seq<char>,
) -> Result<Seq<char>, Seq<char>> {
    if success {
        if stdout.len() > 0 {
            Ok(stdout)
        } else {
            Ok(silent_success_text(command))
        }
    } else {
        Err(stderr)
    }
}

/// The mathematical content of a text result.
pub open spec fn text_result_view(r: Result<String, String>) -> Result<Seq<char>, Seq<char>> {
    match r {
        Ok(s) => Ok(s@),
        Err(e) => Err(e@),
    }
}

/// The answer of a finished command, given its exit status and its output
/// streams (decoded as text).
pub fn bash_outcome(agent_command: &str, success: bool, stdout: String, stderr: String) -> (r:
    Result<String, String>)
    ensures
        text_result_view(r) == spec_bash_outcome(agent_command@, success, stdout@, stderr@),
{
    if success {
        if !stdout.as_str().is_empty() {
            Ok(stdout)
        } else {
            let mut msg = String::from_str("Successfully run the following comand :\n`");
            msg.append(agent_command);
            msg.append("`");
            Ok(msg)
        }
    } else {
        Err(stderr)
    }
}

// ----------------------------------------------------------------------------
// Choosing a tool
// ----------------------------------------------------------------------------

/// The tool an agent's answer is handed to.
#[derive(Debug, Clone, Copy, PartialEq, Eq, Structural)]
pub enum Tool {
    /// The answer is a shell command to run.
    Bash,
    /// The answer is an SQL query to run on the clients database.
    Sqlite3,
    /// The answer is text for the general-purpose agent's template.
    LlmCore,
    /// The agent has no tool.
    Unknown,
}

/// The tool of an agent, by its exact name: the command agent (named
/// `Bash` or `Execute_Command`) runs shell commands.
pub open spec fn spec_select_tool(agent_name: Seq<char>) -> Tool {
    if agent_name == "Bash"@ || agent_name == "Execute_Command"@ {
        Tool::Bash
    } else if agent_name == "Sqlite3"@ {
        Tool::Sqlite3
    } else if agent_name == "LLM_Core"@ {
        Tool::LlmCore
    } else {
        Tool::Unknown
    }
}

/// The tool of an agent, by its exact name.
pub fn select_tool(agent_name: &str) -> (t: Tool)
    ensures
        t == spec_select_tool(agent_name@),
{
    let name = String::from_str(agent_name);
    if name == String::from_str("Bash") || name == String::from_str("Execute_Command") {
        Tool::Bash
    } else if name == String::from_str("Sqlite3") {
        Tool::Sqlite3
    } else if name == String::from_str("LLM_Core") {
        Tool::LlmCore
    } else {
        Tool::Unknown
    }
}

/// The error reported for an agent without a tool.
pub fn unknown_agent_error() -> (r: String)
    ensures
        r@ == "Catch an unknow Agent, who hasn't access to a tool."@,
{
    String::from_str("Catch an unknow Agent, who hasn't access to a tool.")
}

/// Every agent a task of the plan can name has a tool.
pub proof fn lemma_task_agent_has_tool(task: Seq<char>)
    requires
        spec_parse_task(task) is Ok,
    ensures
        spec_select_tool(spec_parse_task(task)->Ok_0.0) != Tool::Unknown,
{
}

proof fn lemma_unfenced_all(lines: Seq<Seq<char>>)
    requires
        forall|i: int| 0 <= i < lines.len() ==> !is_fence_line(#[trigger] lines[i]),
    ensures
        unfenced(lines) == lines,
    decreases lines.len(),
{
    if lines.len() > 0 {
        let init = lines.drop_last();
        assert forall|i: int| 0 <= i < init.len() implies !is_fence_line(#[trigger] init[i]) by {
            assert(init[i] == lines[i]);
        }
        lemma_unfenced_all(init);
        assert(!is_fence_line(lines[lines.len() - 1]));
        assert(init.push(lines.last()) =~= lines);
    }
}

/// A query none of whose lines opens a code fence is sent as it was written.
pub proof fn lemma_sanitize_keeps_plain_query(query: Seq<char>)
    requires
        forall|i: int|
            0 <= i < split_seq(query, "\n"@).len() ==> !is_fence_line(
                #[trigger] split_seq(query, "\n"@)[i],
            ),
    ensures
        spec_sanitize_query(query) == query,
{
    reveal_strlit("\n");
    lemma_unfenced_all(split_seq(query, "\n"@));
    crate::text::lemma_join_split(query, "\n"@);
}

/// A row of one field shows that field's value followed by `, `, even when
/// the value shows as nothing (a NULL column keeps its separator).
pub proof fn lemma_row_text_single(field: Seq<char>)
    ensures
        row_text(seq![field]) == spec_extract_value(field) + ", "@,
{
    let one = seq![field];
    assert(one.drop_last() =~= Seq::<Seq<char>>::empty());
    assert(one.last() == field);
    assert(row_text(Seq::<Seq<char>>::empty()) == Seq::<char>::empty());
    assert(row_text(one) == row_text(one.drop_last()) + spec_extract_value(field) + ", "@);
    assert(Seq::<char>::empty() + spec_extract_value(field) =~= spec_extract_value(field));
}

/// The text of a row is the text of its first fields followed by the text
/// of the others.
pub proof fn lemma_row_text_append(a: Seq<Seq<char>>, b: Seq<Seq<char>>)
    ensures
        row_text(a + b) == row_text(a) + row_text(b),
    decreases b.len(),
{
    if b.len() == 0 {
        assert(a + b =~= a);
        assert(row_text(a) + Seq::<char>::empty() =~= row_text(a));
    } else {
        lemma_row_text_append(a, b.drop_last());
        assert((a + b).drop_last() =~= a + b.drop_last());
        assert((a + b).last() == b.last());
        assert(row_text(a) + (row_text(b.drop_last()) + spec_extract_value(b.last()) + ", "@)
            =~= row_text(a) + row_text(b.drop_last()) + spec_extract_value(b.last()) + ", "@);
    }
}

/// Every field of a row is followed by its own `, `: a row of `n` fields
/// is at least `2 n` characters long and, when it has a field, ends with
/// `, `.
pub proof fn lemma_row_text_separators(fields: Seq<Seq<char>>)
    ensures
        row_text(fields).len() >= 2 * fields.len(),
        fields.len() > 0 ==> row_text(fields).subrange(
            row_text(fields).len() - 2,
            row_text(fields).len() as int,
        ) == ", "@,
    decreases fields.len(),
{
    reveal_strlit(", ");
    if fields.len() > 0 {
        lemma_row_text_separators(fields.drop_last());
        let t = row_text(fields);
        let sep: Seq<char> = ", "@;
        assert(sep.len() == 2);
        assert(t == row_text(fields.drop_last()) + spec_extract_value(fields.last()) + sep);
        assert(t.subrange(t.len() - 2, t.len() as int) =~= sep);
    }
}

/// A command whose exit status is a failure always answers with an error
/// holding its standard error, whatever its standard output; a successful
/// one always answers with a success.
pub proof fn lemma_failed_command_is_error(
    command: Seq<char>,
    success: bool,
    stdout: Seq<char>,
    stderr: Seq<char>,
)
    ensures
        !success ==> spec_bash_outcome(command, success, stdout, stderr) == Err::<Seq<char>, Seq<char>>(
            stderr,
        ),
        success ==> spec_bash_outcome(command, success, stdout, stderr) is Ok,
        success && stdout.len() > 0 ==> spec_bash_outcome(command, success, stdout, stderr) == Ok::<
            Seq<char>,
            Seq<char>,
        >(stdout),
{
}

} // verus!
