//! Reading the manager's plan: splitting it into tasks and reading each task.
use vstd::prelude::*;
use crate::text::{
    all_white_space, all_white_space_exec, chars_of, concat_from, concat_seq, contains_exec,
    contains_seq, is_white_space, join_seq, lemma_split_count, split_chars, split_from, split_seq,
    split_str, starts_with_seq, trim_start_exec, trim_start_seq,
};

verus! {

/// A progress report sent towards the user interface.
#[derive(Debug, PartialEq, Eq)]
pub enum State {
    /// Work is still going on; the text describes the current stage.
    Update(String),
    /// The run is over; the text is its final answer or error.
    Done(String),
}

/// The mathematical content of a [`State`].
pub enum StateView {
    Update(Seq<char>),
    Done(Seq<char>),
}

impl View for State {
    type V = StateView;

    open spec fn view(&self) -> StateView {
        match self {
            State::Update(s) => StateView::Update(s@),
            State::Done(s) => StateView::Done(s@),
        }
    }
}

/// The text of an optional string.
pub open spec fn view_opt(o: Option<String>) -> Option<Seq<char>> {
    match o {
        Some(s) => Some(s@),
        None => None,
    }
}

/// What `str::to_uppercase` returns for a text: the full Unicode uppercase
/// mapping, which takes pages to state.
pub uninterp spec fn uppercase_of(s: Seq<char>) -> Seq<char>;

/// Calls `str::to_uppercase`; the contract names its result `uppercase_of`
/// of the argument's characters and claims nothing more about it.
#[verifier::external_body]
fn to_uppercase(s: &str) -> (r: String)
    ensures
        r@ == uppercase_of(s@),
{
    s.to_uppercase()
}

/// The agent named in a task header: the first of `Bash`,
/// `Execute_Command`, `LLM_Core`, `Sqlite3` (in that order) that occurs in
/// the header.
pub open spec fn spec_parse_agent(header: Seq<char>) -> Option<Seq<char>> {
    if contains_seq(header, "Bash"@) {
        Some("Bash"@)
    } else if contains_seq(header, "Execute_Command"@) {
        Some("Execute_Command"@)
    } else if contains_seq(header, "LLM_Core"@) {
        Some("LLM_Core"@)
    } else if contains_seq(header, "Sqlite3"@) {
        Some("Sqlite3"@)
    } else {
        None
    }
}

/// Whether a task asks for the previous step's answer: its uppercased line
/// contains `YES`.
pub open spec fn spec_need_previous_step(line: Seq<char>) -> bool {
    contains_seq(uppercase_of(line), "YES"@)
}

/// The reading of one task: three lines or more, the first naming an agent,
/// the second saying whether the previous answer is needed, the rest (joined
/// without separators) being the agent's prompt.
pub open spec fn spec_parse_task(task: Seq<char>) -> Result<(Seq<char>, bool, Seq<char>), Seq<char>> {
    let lines = split_seq(task, "\n"@);
    if lines.len() >= 3 {
        match spec_parse_agent(lines[0]) {
            Some(agent) => Ok((agent, spec_need_previous_step(lines[1]), concat_seq(lines.skip(2)))),
            None => Err("Unknow agent name"@),
        }
    } else {
        Err("Inconsistant format response from the Manager agent."@)
    }
}

/// The mathematical content of a task reading.
pub open spec fn task_view(r: Result<(String, bool, String), String>) -> Result<(Seq<char>, bool, Seq<char>), Seq<char>> {
    match r {
        Ok((a, n, p)) => Ok((a@, n, p@)),
        Err(e) => Err(e@),
    }
}

/// The pieces that are not only white space, without their leading white
/// space, in order.
pub open spec fn tasks_of(pieces: Seq<Seq<char>>) -> Seq<Seq<char>>
    decreases pieces.len(),
{
    if pieces.len() == 0 {
        Seq::empty()
    } else {
        let rest = tasks_of(pieces.drop_last());
        if all_white_space(pieces.last()) {
            rest
        } else {
            rest.push(trim_start_seq(pieces.last()))
        }
    }
}

/// The tasks of a manager answer: its pieces between `---` separators that
/// hold more than white space, left-trimmed.
pub open spec fn spec_parse_tasks(answer: Seq<char>) -> Seq<Seq<char>> {
    tasks_of(split_seq(answer, "---"@))
}

/// There are never more tasks than pieces.
pub proof fn lemma_tasks_of_len(pieces: Seq<Seq<char>>)
    ensures
        tasks_of(pieces).len() <= pieces.len(),
    decreases pieces.len(),
{
    if pieces.len() > 0 {
        lemma_tasks_of_len(pieces.drop_last());
    }
}

/// The agent named in a task header.
pub fn parse_agent(agent_name: &str) -> (r: Option<String>)
    ensures
        view_opt(r) == spec_parse_agent(agent_name@),
{
    let header = chars_of(agent_name);
    if contains_exec(header.as_slice(), chars_of("Bash").as_slice()) {
        return Some(String::from_str("Bash"));
    }
    if contains_exec(header.as_slice(), chars_of("Execute_Command").as_slice()) {
        return Some(String::from_str("Execute_Command"));
    }
    if contains_exec(header.as_slice(), chars_of("LLM_Core").as_slice()) {
        return Some(String::from_str("LLM_Core"));
    }
    if contains_exec(header.as_slice(), chars_of("Sqlite3").as_slice()) {
        return Some(String::from_str("Sqlite3"));
    }
    None
}

/// Whether a task line asks for the previous step's answer.
pub fn parse_need_previous_step(input: &str) -> (r: bool)
    ensures
        r == spec_need_previous_step(input@),
{
    let upper = to_uppercase(input);
    mentions_yes(upper.as_str())
}

/// Whether an uppercased line contains `YES`.
pub fn mentions_yes(upper: &str) -> (r: bool)
    ensures
        r == contains_seq(upper@, "YES"@),
{
    let up = chars_of(upper);
    contains_exec(up.as_slice(), chars_of("YES").as_slice())
}

/// Reads one task of the manager's plan.
pub fn parse_task(task: String) -> (r: Result<(String, bool, String), String>)
    ensures
        task_view(r) == spec_parse_task(task@),
{
    proof {
        reveal_strlit("\n");
    }
    let lines = split_str(task.as_str(), "\n");
    if lines.len() >= 3 {
        let ghost dv = lines.deep_view();
        assert(dv[0] == lines@[0]@);
        assert(dv[1] == lines@[1]@);
        match parse_agent(lines[0].as_str()) {
            Some(agent_name) => {
                let need_previous_step = parse_need_previous_step(lines[1].as_str());
                let task_prompt = concat_from(&lines, 2);
                Ok((agent_name, need_previous_step, task_prompt))
            },
            None => Err(String::from_str("Unknow agent name")),
        }
    } else {
        Err(String::from_str("Inconsistant format response from the Manager agent."))
    }
}

/// Splits the manager's answer into its tasks.
pub fn parse_tasks(manager_answer: String) -> (r: Vec<String>)
    ensures
        r.deep_view() == spec_parse_tasks(manager_answer@),
        3 * (r@.len() - 1) <= manager_answer@.len() <= usize::MAX,
{
    proof {
        reveal_strlit("---");
    }
    let answer = chars_of(manager_answer.as_str());
    let answer_len = answer.len();
    let sep = chars_of("---");
    let pieces = split_chars(answer.as_slice(), sep.as_slice());
    let ghost pv = pieces.deep_view();
    let mut r: Vec<String> = Vec::new();
    let mut i: usize = 0;
    assert(pv.take(0) =~= Seq::<Seq<char>>::empty());
    while i < pieces.len()
        invariant
            pv == pieces.deep_view(),
            i <= pieces@.len(),
            r.deep_view() == tasks_of(pv.take(i as int)),
        decreases pieces@.len() - i,
    {
        let ghost before = r.deep_view();
        assert(pv.take(i + 1).drop_last() =~= pv.take(i as int));
        assert(pv.take(i + 1).last() == pieces@[i as int]@);
        if !all_white_space_exec(pieces[i].as_str()) {
            let t = trim_start_exec(pieces[i].as_str());
            r.push(t);
            assert(r.deep_view() =~= before.push(t@));
        }
        i = i + 1;
    }
    assert(pv.take(pieces@.len() as int) =~= pv);
    proof {
        lemma_split_count(answer@, sep@, Seq::empty());
        lemma_tasks_of_len(pv);
        assert(sep@.len() == 3);
        assert((pv.len() - 1) * 3 <= answer@.len());
        assert(r@.len() == r.deep_view().len());
        assert(answer_len == answer@.len());
    }
    r
}

proof fn lemma_trim_start_shows_text(p: Seq<char>)
    requires
        !all_white_space(p),
    ensures
        trim_start_seq(p).len() > 0,
        !is_white_space(trim_start_seq(p)[0]),
    decreases p.len(),
{
    if p.len() > 0 && is_white_space(p[0]) {
        assert(!all_white_space(p.skip(1))) by {
            let k = choose|k: int| 0 <= k < p.len() && !is_white_space(#[trigger] p[k]);
            assert(k != 0);
            assert(p.skip(1)[k - 1] == p[k]);
        }
        lemma_trim_start_shows_text(p.skip(1));
    }
}

/// Every task of a plan is non-empty and starts with a character that is
/// not white space.
pub proof fn lemma_tasks_start_with_text(answer: Seq<char>)
    ensures
        forall|i: int|
            0 <= i < spec_parse_tasks(answer).len() ==> {
                &&& (#[trigger] spec_parse_tasks(answer)[i]).len() > 0
                &&& !is_white_space(spec_parse_tasks(answer)[i][0])
            },
{
    lemma_tasks_of_text(split_seq(answer, "---"@));
}

proof fn lemma_tasks_of_text(pieces: Seq<Seq<char>>)
    ensures
        forall|i: int|
            0 <= i < tasks_of(pieces).len() ==> {
                &&& (#[trigger] tasks_of(pieces)[i]).len() > 0
                &&& !is_white_space(tasks_of(pieces)[i][0])
            },
    decreases pieces.len(),
{
    if pieces.len() > 0 {
        let rest = tasks_of(pieces.drop_last());
        lemma_tasks_of_text(pieces.drop_last());
        if !all_white_space(pieces.last()) {
            lemma_trim_start_shows_text(pieces.last());
            let t = rest.push(trim_start_seq(pieces.last()));
            assert(tasks_of(pieces) == t);
            assert forall|i: int| 0 <= i < t.len() implies {
                &&& (#[trigger] t[i]).len() > 0
                &&& !is_white_space(t[i][0])
            } by {
                if i < rest.len() {
                    assert(t[i] == rest[i]);
                }
            }
        }
    }
}

proof fn lemma_split_across(t: Seq<char>, x: Seq<char>, sep: Seq<char>, cur: Seq<char>)
    requires
        sep.len() > 0,
        forall|k: int| 0 <= k < t.len() ==> #[trigger] t[k] != sep[0],
    ensures
        split_from(t + x, sep, cur) == split_from(x, sep, cur + t),
    decreases t.len(),
{
    if t.len() == 0 {
        assert(t + x =~= x);
        assert(cur + t =~= cur);
    } else {
        let s = t + x;
        assert(s[0] == t[0]);
        assert(!starts_with_seq(s, sep)) by {
            if starts_with_seq(s, sep) {
                assert(s.subrange(0, sep.len() as int)[0] == s[0]);
            }
        }
        assert(s.skip(1) =~= t.skip(1) + x);
        let t1 = t.skip(1);
        assert forall|k: int| 0 <= k < t1.len() implies #[trigger] t1[k] != sep[0] by {
            assert(t1[k] == t[k + 1]);
        }
        lemma_split_across(t1, x, sep, cur.push(t[0]));
        assert(cur.push(t[0]) + t1 =~= cur + t);
    }
}

proof fn lemma_split_join(ts: Seq<Seq<char>>, sep: Seq<char>)
    requires
        sep.len() > 0,
        ts.len() >= 1,
        forall|i: int, k: int| 0 <= i < ts.len() && 0 <= k < ts[i].len() ==> #[trigger] ts[i][k] != sep[0],
    ensures
        split_seq(join_seq(ts, sep), sep) == ts,
    decreases ts.len(),
{
    let t0 = ts[0];
    assert forall|k: int| 0 <= k < t0.len() implies #[trigger] t0[k] != sep[0] by {
        assert(ts[0][k] != sep[0]);
    }
    if ts.len() == 1 {
        lemma_split_across(t0, Seq::empty(), sep, Seq::empty());
        assert(t0 + Seq::<char>::empty() =~= t0);
        assert(Seq::<char>::empty() + t0 =~= t0);
        assert(split_seq(join_seq(ts, sep), sep) =~= ts);
    } else {
        let rest = ts.drop_first();
        assert forall|i: int, k: int| 0 <= i < rest.len() && 0 <= k < rest[i].len() implies #[trigger] rest[i][k] != sep[0] by {
            assert(rest[i] == ts[i + 1]);
        }
        lemma_split_join(rest, sep);
        let j = join_seq(rest, sep);
        assert(join_seq(ts, sep) == t0 + sep + j);
        assert(t0 + sep + j =~= t0 + (sep + j));
        lemma_split_across(t0, sep + j, sep, Seq::empty());
        assert(Seq::<char>::empty() + t0 =~= t0);
        let y = sep + j;
        assert(y.subrange(0, sep.len() as int) =~= sep);
        assert(starts_with_seq(y, sep));
        assert(y.skip(sep.len() as int) =~= j);
        assert(split_from(y, sep, t0) == seq![t0] + split_from(j, sep, Seq::empty()));
        assert(seq![t0] + rest =~= ts);
    }
}

proof fn lemma_tasks_of_identity(ts: Seq<Seq<char>>)
    requires
        forall|i: int|
            0 <= i < ts.len() ==> !all_white_space(#[trigger] ts[i]) && trim_start_seq(ts[i]) == ts[i],
    ensures
        tasks_of(ts) == ts,
    decreases ts.len(),
{
    if ts.len() > 0 {
        let init = ts.drop_last();
        assert forall|i: int| 0 <= i < init.len() implies !all_white_space(#[trigger] init[i])
            && trim_start_seq(init[i]) == init[i] by {
            assert(init[i] == ts[i]);
        }
        lemma_tasks_of_identity(init);
        assert(!all_white_space(ts[ts.len() - 1]));
        assert(init.push(ts.last()) =~= ts);
    }
}

/// Tasks that hold more than white space, start with no white space and
/// hold no `-`, joined by `---`, are read back as the same tasks.
pub proof fn lemma_parse_tasks_round_trip(ts: Seq<Seq<char>>)
    requires
        forall|i: int|
            0 <= i < ts.len() ==> !all_white_space(#[trigger] ts[i]) && trim_start_seq(ts[i]) == ts[i],
        forall|i: int, k: int| 0 <= i < ts.len() && 0 <= k < ts[i].len() ==> #[trigger] ts[i][k] != '-',
    ensures
        spec_parse_tasks(join_seq(ts, "---"@)) == ts,
{
    reveal_strlit("---");
    let sep: Seq<char> = "---"@;
    assert(sep[0] == '-');
    if ts.len() == 0 {
        let e = Seq::<char>::empty();
        assert(join_seq(ts, sep) == e);
        assert(split_seq(e, sep) == seq![e]);
        assert(all_white_space(e));
        assert(seq![e].drop_last() =~= Seq::<Seq<char>>::empty());
        assert(seq![e].last() == e);
        assert(tasks_of(Seq::<Seq<char>>::empty()) == Seq::<Seq<char>>::empty());
        assert(tasks_of(seq![e]) == tasks_of(Seq::<Seq<char>>::empty()));
        assert(tasks_of(seq![e]) =~= ts);
    } else {
        lemma_split_join(ts, sep);
        lemma_tasks_of_identity(ts);
    }
}

/// `s` with its newlines taken out.
pub open spec fn drop_newlines(s: Seq<char>) -> Seq<char>
    decreases s.len(),
{
    if s.len() == 0 {
        Seq::empty()
    } else if s[0] == '\n' {
        drop_newlines(s.skip(1))
    } else {
        seq![s[0]] + drop_newlines(s.skip(1))
    }
}

proof fn lemma_concat_front(a: Seq<char>, xs: Seq<Seq<char>>)
    ensures
        concat_seq(seq![a] + xs) == a + concat_seq(xs),
    decreases xs.len(),
{
    let all = seq![a] + xs;
    if xs.len() == 0 {
        assert(all =~= seq![a]);
        assert(seq![a].drop_last() =~= Seq::<Seq<char>>::empty());
        assert(concat_seq(seq![a]) == concat_seq(Seq::<Seq<char>>::empty()) + a);
        assert(Seq::<char>::empty() + a =~= a);
        assert(a + Seq::<char>::empty() =~= a);
    } else {
        lemma_concat_front(a, xs.drop_last());
        assert(all.drop_last() =~= seq![a] + xs.drop_last());
        assert(all.last() == xs.last());
        assert(concat_seq(all) == concat_seq(seq![a] + xs.drop_last()) + xs.last());
        assert(concat_seq(xs) == concat_seq(xs.drop_last()) + xs.last());
        assert(a + concat_seq(xs.drop_last()) + xs.last() =~= a + (concat_seq(xs.drop_last())
            + xs.last()));
    }
}

proof fn lemma_concat_split_newlines(s: Seq<char>, cur: Seq<char>)
    ensures
        concat_seq(split_from(s, "\n"@, cur)) == cur + drop_newlines(s),
    decreases s.len(),
{
    reveal_strlit("\n");
    let sep: Seq<char> = "\n"@;
    assert(sep =~= seq!['\n']);
    if s.len() == 0 {
        assert(split_from(s, sep, cur) == seq![cur]);
        lemma_concat_front(cur, Seq::empty());
        assert(seq![cur] + Seq::<Seq<char>>::empty() =~= seq![cur]);
        assert(concat_seq(Seq::<Seq<char>>::empty()) == Seq::<char>::empty());
        assert(cur + Seq::<char>::empty() =~= cur);
        assert(cur + drop_newlines(s) =~= cur);
    } else {
        assert(starts_with_seq(s, sep) <==> s[0] == '\n') by {
            if s[0] == '\n' {
                assert(s.subrange(0, 1) =~= sep);
            }
            if starts_with_seq(s, sep) {
                assert(s.subrange(0, 1)[0] == s[0]);
            }
        }
        if s[0] == '\n' {
            lemma_concat_split_newlines(s.skip(1), Seq::empty());
            assert(split_from(s, sep, cur) == seq![cur] + split_from(s.skip(1), sep, Seq::empty()));
            lemma_concat_front(cur, split_from(s.skip(1), sep, Seq::empty()));
            assert(Seq::<char>::empty() + drop_newlines(s.skip(1)) =~= drop_newlines(s.skip(1)));
        } else {
            lemma_concat_split_newlines(s.skip(1), cur.push(s[0]));
            assert(cur.push(s[0]) + drop_newlines(s.skip(1)) =~= cur + (seq![s[0]] + drop_newlines(
                s.skip(1),
            )));
        }
    }
}

/// A task written as a header line, a second line and the rest reads as:
/// the agent the header names; a need-previous flag that is whether the
/// uppercased second line contains `YES`, whatever follows; and the rest
/// with its newlines taken out as the prompt.
pub proof fn lemma_task_lines(header: Seq<char>, second: Seq<char>, rest: Seq<char>)
    requires
        forall|k: int| 0 <= k < header.len() ==> #[trigger] header[k] != '\n',
        forall|k: int| 0 <= k < second.len() ==> #[trigger] second[k] != '\n',
    ensures
        spec_parse_task(header + "\n"@ + second + "\n"@ + rest) == (match spec_parse_agent(header) {
            Some(agent) => Ok::<(Seq<char>, bool, Seq<char>), Seq<char>>(
                (agent, contains_seq(uppercase_of(second), "YES"@), drop_newlines(rest)),
            ),
            None => Err("Unknow agent name"@),
        }),
{
    reveal_strlit("\n");
    let sep: Seq<char> = "\n"@;
    assert(sep =~= seq!['\n']);
    let task = header + sep + second + sep + rest;
    let y = second + sep + rest;
    assert(task =~= header + (sep + y));
    lemma_split_across(header, sep + y, sep, Seq::empty());
    assert(Seq::<char>::empty() + header =~= header);
    assert((sep + y).subrange(0, 1) =~= sep);
    assert((sep + y).skip(1) =~= y);
    assert(split_from(sep + y, sep, header) == seq![header] + split_from(y, sep, Seq::empty()));
    assert(y =~= second + (sep + rest));
    lemma_split_across(second, sep + rest, sep, Seq::empty());
    assert(Seq::<char>::empty() + second =~= second);
    assert((sep + rest).subrange(0, 1) =~= sep);
    assert((sep + rest).skip(1) =~= rest);
    assert(split_from(sep + rest, sep, second) == seq![second] + split_from(rest, sep, Seq::empty()));
    let r = split_from(rest, sep, Seq::empty());
    crate::text::lemma_split_from_nonempty(rest, sep, Seq::empty());
    let lines = split_seq(task, sep);
    assert(lines == seq![header] + (seq![second] + r));
    assert(lines.len() >= 3);
    assert(lines[0] == header);
    assert(lines[1] == second);
    assert(lines.skip(2) =~= r);
    lemma_concat_split_newlines(rest, Seq::empty());
    assert(Seq::<char>::empty() + drop_newlines(rest) =~= drop_newlines(rest));
}

} // verus!
