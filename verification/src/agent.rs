//! The decisions of an agent run, as a state machine.
//!
//! A run asks the manager model to split the user's request into tasks, then
//! hands each task to the agent it names: the agent's template is filled,
//! the agent's model answers, and the answer goes to the agent's tool, whose
//! output becomes the data the next task may ask for.  The program around
//! this machine performs each request (reading a template, calling a model,
//! running a tool), sends the progress reports on, and feeds the outcome back
//! as the next event.
use vstd::prelude::*;
use crate::prompt::{fill_prompt, spec_fill_prompt};
use crate::tasks::{parse_task, parse_tasks, spec_parse_task, spec_parse_tasks, view_opt, State, StateView};
use crate::text::{decimal_seq, push_decimal};
use crate::tools::{spec_select_tool, text_result_view, Tool};

verus! {

/// Where a run stands.
#[derive(Debug, Clone, Copy, PartialEq, Eq, Structural)]
pub enum Phase {
    /// Waiting for the manager's template.
    ManagerTemplate,
    /// Waiting for the manager model's answer.
    ManagerReply,
    /// Waiting for the current task's agent template.
    TaskTemplate,
    /// Waiting for the current task's agent model answer.
    TaskReply,
    /// Waiting for the current task's tool output.
    ToolOutput,
    /// The run is over.
    Finished,
}

/// A run of the agents for one user request.
pub struct AgentRun {
    phase: Phase,
    user_prompt: String,
    tasks: Vec<String>,
    next: usize,
    answer: String,
    step: usize,
    agent: String,
    need_previous: bool,
    task_prompt: String,
}

/// The mathematical content of an [`AgentRun`].
pub struct AgentRunView {
    pub phase: Phase,
    /// The user's request.
    pub user_prompt: Seq<char>,
    /// The tasks of the manager's plan.
    pub tasks: Seq<Seq<char>>,
    /// The index of the task in progress (or of the next one to take).
    pub next: int,
    /// The answer so far: the last tool output, followed by what the current
    /// agent answered once it answered.
    pub answer: Seq<char>,
    /// The step number reported for the task in progress.
    pub step: int,
    /// The agent of the task in progress.
    pub agent: Seq<char>,
    /// Whether the task in progress asked for the previous answer.
    pub need_previous: bool,
    /// The prompt text of the task in progress.
    pub task_prompt: Seq<char>,
}

impl View for AgentRun {
    type V = AgentRunView;

    closed spec fn view(&self) -> AgentRunView {
        AgentRunView {
            phase: self.phase,
            user_prompt: self.user_prompt@,
            tasks: self.tasks.deep_view(),
            next: self.next as int,
            answer: self.answer@,
            step: self.step as int,
            agent: self.agent@,
            need_previous: self.need_previous,
            task_prompt: self.task_prompt@,
        }
    }
}

/// What the program must do next for a run.
#[derive(Debug, PartialEq, Eq)]
pub enum AgentRequest {
    /// Read the template of the named agent.
    LoadTemplate(String),
    /// Ask the model to answer the prompt.
    Generate(String),
    /// Hand the text (the agent's answer) to the tool of the named agent.
    RunTool(String, String),
    /// Nothing: the run is over.
    Stop,
}

/// The mathematical content of an [`AgentRequest`].
pub enum AgentRequestView {
    LoadTemplate(Seq<char>),
    Generate(Seq<char>),
    RunTool(Seq<char>, Seq<char>),
    Stop,
}

impl View for AgentRequest {
    type V = AgentRequestView;

    open spec fn view(&self) -> AgentRequestView {
        match self {
            AgentRequest::LoadTemplate(a) => AgentRequestView::LoadTemplate(a@),
            AgentRequest::Generate(p) => AgentRequestView::Generate(p@),
            AgentRequest::RunTool(a, t) => AgentRequestView::RunTool(a@, t@),
            AgentRequest::Stop => AgentRequestView::Stop,
        }
    }
}

/// The outcome of the last request.
pub enum AgentEvent {
    /// The template that was asked for, if it could be read.
    TemplateLoaded(Option<String>),
    /// The model's answer, or the text of its error.
    ModelReplied(Result<String, String>),
    /// The tool's output, or its error.
    ToolReturned(Result<String, String>),
}

/// The mathematical content of an [`AgentEvent`].
pub enum AgentEventView {
    TemplateLoaded(Option<Seq<char>>),
    ModelReplied(Result<Seq<char>, Seq<char>>),
    ToolReturned(Result<Seq<char>, Seq<char>>),
}

impl View for AgentEvent {
    type V = AgentEventView;

    open spec fn view(&self) -> AgentEventView {
        match self {
            AgentEvent::TemplateLoaded(t) => AgentEventView::TemplateLoaded(view_opt(*t)),
            AgentEvent::ModelReplied(r) => AgentEventView::ModelReplied(text_result_view(*r)),
            AgentEvent::ToolReturned(r) => AgentEventView::ToolReturned(text_result_view(*r)),
        }
    }
}

/// The progress reports of a step, then the request that follows them.
pub struct AgentStep {
    pub notes: Vec<State>,
    pub request: AgentRequest,
}

/// The mathematical content of reports.
pub open spec fn notes_view(notes: Seq<State>) -> Seq<StateView> {
    notes.map_values(|s: State| s@)
}

// ----------------------------------------------------------------------------
// The texts a run reports
// ----------------------------------------------------------------------------

/// Reported when the manager has answered.
pub open spec fn manager_done_text() -> Seq<char> {
    "The Manager Agent has completed his task.  |   Step : 1"@
}

/// Reported when the manager model failed.
pub open spec fn manager_error_text(error: Seq<char>) -> Seq<char> {
    "ERROR : The Manager Agent hasn't completed his task.\nFailed to get a response from ollama : "@
        + error
}

/// Reported when a task could not be read.
pub open spec fn parse_failure_text(answer: Seq<char>) -> Seq<char> {
    "Failed when try to parse an intermediate task. The last answer is :\n\n"@ + answer
}

/// Reported when a task's tool has finished.
pub open spec fn agent_done_text(agent: Seq<char>, step: int) -> Seq<char> {
    "The "@ + agent + " Agent has completed his task.  |   Step : "@ + decimal_seq(step as nat)
}

/// Reported when a task's model failed.
pub open spec fn agent_error_text(agent: Seq<char>, step: int, error: Seq<char>) -> Seq<char> {
    "ERROR : The "@ + agent + " Agent hasn't completed his task.  |   Step : "@ + decimal_seq(
        step as nat,
    ) + "\nFailed to get a response from ollama : "@ + error
}

/// Reported when a task's tool failed: the answer so far may be wrong.
pub open spec fn doubtful_answer_text(answer: Seq<char>) -> Seq<char> {
    "The following answer could be wrong, paid attention :\n"@ + answer
}

/// The prompt of the task in progress: the agent's filled template, followed
/// by the previous answer when the task asked for it and there is one.
pub open spec fn task_prompt_text(r: AgentRunView, template: Option<Seq<char>>) -> Seq<char> {
    let base = spec_fill_prompt(template, r.task_prompt);
    if r.need_previous && r.answer.len() > 0 {
        base + "\n[Data you need]\n"@ + r.answer
    } else {
        base
    }
}

// ----------------------------------------------------------------------------
// The transitions
// ----------------------------------------------------------------------------

/// The state of a run for a new user request.
pub open spec fn spec_start(user_prompt: Seq<char>) -> AgentRunView {
    AgentRunView {
        phase: Phase::ManagerTemplate,
        user_prompt,
        tasks: Seq::empty(),
        next: 0,
        answer: Seq::empty(),
        step: 2,
        agent: Seq::empty(),
        need_previous: false,
        task_prompt: Seq::empty(),
    }
}

/// Taking the task at `r.next`, after `notes`: the final answer when there
/// is no task left, a failure when the task cannot be read, otherwise a
/// request for the template of its agent.
pub open spec fn spec_take_task(r: AgentRunView, notes: Seq<StateView>) -> (
    AgentRunView,
    Seq<StateView>,
    AgentRequestView,
) {
    if r.next >= r.tasks.len() {
        (
            AgentRunView { phase: Phase::Finished, ..r },
            notes.push(StateView::Done(r.answer)),
            AgentRequestView::Stop,
        )
    } else {
        match spec_parse_task(r.tasks[r.next]) {
            Err(_) => (
                AgentRunView { phase: Phase::Finished, ..r },
                notes.push(StateView::Done(parse_failure_text(r.answer))),
                AgentRequestView::Stop,
            ),
            Ok((agent, need, prompt)) => (
                AgentRunView {
                    phase: Phase::TaskTemplate,
                    agent,
                    need_previous: need,
                    task_prompt: prompt,
                    ..r
                },
                notes,
                AgentRequestView::LoadTemplate(agent),
            ),
        }
    }
}

/// Whether a run in state `r` expects the event `e`.
pub open spec fn spec_accepts(r: AgentRunView, e: AgentEventView) -> bool {
    match r.phase {
        Phase::ManagerTemplate => e is TemplateLoaded,
        Phase::ManagerReply => e is ModelReplied,
        Phase::TaskTemplate => e is TemplateLoaded,
        Phase::TaskReply => e is ModelReplied,
        Phase::ToolOutput => e is ToolReturned,
        Phase::Finished => false,
    }
}

/// The next state, the reports and the request of a run in state `r` that
/// receives the event `e` it expects.
pub open spec fn spec_advance(r: AgentRunView, e: AgentEventView) -> (
    AgentRunView,
    Seq<StateView>,
    AgentRequestView,
) {
    match e {
        AgentEventView::TemplateLoaded(t) => if r.phase == Phase::ManagerTemplate {
            (
                AgentRunView { phase: Phase::ManagerReply, ..r },
                Seq::empty(),
                AgentRequestView::Generate(spec_fill_prompt(t, r.user_prompt)),
            )
        } else {
            (
                AgentRunView { phase: Phase::TaskReply, ..r },
                Seq::empty(),
                AgentRequestView::Generate(task_prompt_text(r, t)),
            )
        },
        AgentEventView::ModelReplied(reply) => if r.phase == Phase::ManagerReply {
            match reply {
                Err(error) => (
                    AgentRunView { phase: Phase::Finished, ..r },
                    seq![
                        StateView::Update(manager_done_text()),
                        StateView::Done(manager_error_text(error)),
                    ],
                    AgentRequestView::Stop,
                ),
                Ok(plan) => spec_take_task(
                    AgentRunView {
                        tasks: spec_parse_tasks(plan),
                        next: 0,
                        answer: Seq::empty(),
                        step: 2,
                        ..r
                    },
                    seq![StateView::Update(manager_done_text())],
                ),
            }
        } else {
            match reply {
                Err(error) => (
                    AgentRunView { phase: Phase::Finished, ..r },
                    seq![StateView::Done(agent_error_text(r.agent, r.step, error))],
                    AgentRequestView::Stop,
                ),
                Ok(text) => (
                    AgentRunView { phase: Phase::ToolOutput, answer: r.answer + text, ..r },
                    Seq::empty(),
                    AgentRequestView::RunTool(r.agent, text),
                ),
            }
        },
        AgentEventView::ToolReturned(output) => match output {
            Err(_) => (
                AgentRunView { phase: Phase::Finished, ..r },
                seq![StateView::Done(doubtful_answer_text(r.answer))],
                AgentRequestView::Stop,
            ),
            Ok(out) => spec_take_task(
                AgentRunView { answer: out, step: r.step + 1, next: r.next + 1, ..r },
                seq![StateView::Update(agent_done_text(r.agent, r.step))],
            ),
        },
    }
}

impl AgentRun {
    /// The invariant of a run: while a task is in progress it is one of the
    /// plan's tasks, read as its agent, need-previous flag and prompt, its
    /// step number is its index plus two, and its agent is one that has a
    /// tool.
    pub closed spec fn wf(&self) -> bool {
        let v = self@;
        &&& self.counters_wf()
        &&& (v.phase == Phase::TaskTemplate || v.phase == Phase::TaskReply || v.phase
            == Phase::ToolOutput) ==> {
            &&& v.next < v.tasks.len()
            &&& spec_select_tool(v.agent) != Tool::Unknown
            &&& spec_parse_task(v.tasks[v.next]) == Ok::<(Seq<char>, bool, Seq<char>), Seq<char>>(
                (v.agent, v.need_previous, v.task_prompt),
            )
        }
    }

    /// The step number is the task index plus two, and both stay small.
    closed spec fn counters_wf(&self) -> bool {
        let v = self@;
        &&& 3 * (v.tasks.len() - 1) <= usize::MAX
        &&& v.step == v.next + 2
        &&& 0 <= v.next <= v.tasks.len()
    }

    /// Starts a run for a user request: it reports that it is thinking and
    /// asks for the manager's template.
    pub fn start(user_prompt: String) -> (r: (AgentRun, AgentStep))
        ensures
            r.0.wf(),
            r.0@ == spec_start(user_prompt@),
            notes_view(r.1.notes@) == seq![StateView::Update("Thinking"@)],
            r.1.request@ == AgentRequestView::LoadTemplate("Manager"@),
    {
        let run = AgentRun {
            phase: Phase::ManagerTemplate,
            user_prompt,
            tasks: Vec::new(),
            next: 0,
            answer: String::new(),
            step: 2,
            agent: String::new(),
            need_previous: false,
            task_prompt: String::new(),
        };
        let mut notes: Vec<State> = Vec::new();
        notes.push(State::Update(String::from_str("Thinking")));
        assert(run@.tasks =~= Seq::<Seq<char>>::empty());
        assert(notes_view(notes@) =~= seq![StateView::Update("Thinking"@)]);
        (run, AgentStep { notes, request: AgentRequest::LoadTemplate(String::from_str("Manager")) })
    }

    /// Whether the run is over.
    pub fn is_finished(&self) -> (b: bool)
        ensures
            b == (self@.phase == Phase::Finished),
    {
        self.phase == Phase::Finished
    }

    /// Whether the run expects the event.
    pub fn accepts(&self, event: &AgentEvent) -> (b: bool)
        ensures
            b == spec_accepts(self@, event@),
    {
        match self.phase {
            Phase::ManagerTemplate | Phase::TaskTemplate => matches!(event, AgentEvent::TemplateLoaded(_)),
            Phase::ManagerReply | Phase::TaskReply => matches!(event, AgentEvent::ModelReplied(_)),
            Phase::ToolOutput => matches!(event, AgentEvent::ToolReturned(_)),
            Phase::Finished => false,
        }
    }

    fn take_task(&mut self, notes: Vec<State>) -> (s: AgentStep)
        requires
            old(self).counters_wf(),
        ensures
            final(self).wf(),
            (final(self)@, notes_view(s.notes@), s.request@) == spec_take_task(
                old(self)@,
                notes_view(notes@),
            ),
    {
        let mut notes = notes;
        let ghost nv = notes_view(notes@);
        if self.next >= self.tasks.len() {
            self.phase = Phase::Finished;
            notes.push(State::Done(self.answer.clone()));
            assert(notes_view(notes@) =~= nv.push(StateView::Done(old(self)@.answer)));
            return AgentStep { notes, request: AgentRequest::Stop };
        }
        let task = self.tasks[self.next].clone();
        assert(self.tasks.deep_view()[self.next as int] == task@);
        match parse_task(task) {
            Err(_) => {
                let mut msg = String::from_str(
                    "Failed when try to parse an intermediate task. The last answer is :\n\n",
                );
                msg.append(self.answer.as_str());
                self.phase = Phase::Finished;
                notes.push(State::Done(msg));
                assert(notes_view(notes@) =~= nv.push(
                    StateView::Done(parse_failure_text(old(self)@.answer)),
                ));
                AgentStep { notes, request: AgentRequest::Stop }
            },
            Ok((agent, need, prompt)) => {
                let request = AgentRequest::LoadTemplate(agent.clone());
                self.agent = agent;
                self.need_previous = need;
                self.task_prompt = prompt;
                self.phase = Phase::TaskTemplate;
                AgentStep { notes, request }
            },
        }
    }

    /// Feeds the outcome of the last request to the run; returns the reports
    /// to send and the next request.
    pub fn advance(&mut self, event: AgentEvent) -> (s: AgentStep)
        requires
            old(self).wf(),
            spec_accepts(old(self)@, event@),
        ensures
            final(self).wf(),
            (final(self)@, notes_view(s.notes@), s.request@) == spec_advance(old(self)@, event@),
    {
        match event {
            AgentEvent::TemplateLoaded(t) => {
                if self.phase == Phase::ManagerTemplate {
                    let prompt = fill_prompt(t, self.user_prompt.as_str());
                    self.phase = Phase::ManagerReply;
                    let notes: Vec<State> = Vec::new();
                    assert(notes_view(notes@) =~= Seq::<StateView>::empty());
                    AgentStep { notes, request: AgentRequest::Generate(prompt) }
                } else {
                    let mut prompt = fill_prompt(t, self.task_prompt.as_str());
                    if self.need_previous && !self.answer.as_str().is_empty() {
                        prompt.append("\n[Data you need]\n");
                        prompt.append(self.answer.as_str());
                    }
                    self.phase = Phase::TaskReply;
                    let notes: Vec<State> = Vec::new();
                    assert(notes_view(notes@) =~= Seq::<StateView>::empty());
                    AgentStep { notes, request: AgentRequest::Generate(prompt) }
                }
            },
            AgentEvent::ModelReplied(reply) => {
                if self.phase == Phase::ManagerReply {
                    let mut notes: Vec<State> = Vec::new();
                    notes.push(
                        State::Update(
                            String::from_str(
                                "The Manager Agent has completed his task.  |   Step : 1",
                            ),
                        ),
                    );
                    match reply {
                        Err(error) => {
                            let mut msg = String::from_str(
                                "ERROR : The Manager Agent hasn't completed his task.\nFailed to get a response from ollama : ",
                            );
                            msg.append(error.as_str());
                            notes.push(State::Done(msg));
                            self.phase = Phase::Finished;
                            assert(notes_view(notes@) =~= seq![
                                StateView::Update(manager_done_text()),
                                StateView::Done(manager_error_text(error@)),
                            ]);
                            AgentStep { notes, request: AgentRequest::Stop }
                        },
                        Ok(plan) => {
                            self.tasks = parse_tasks(plan);
                            self.next = 0;
                            self.answer = String::new();
                            self.step = 2;
                            assert(notes_view(notes@) =~= seq![
                                StateView::Update(manager_done_text()),
                            ]);
                            self.take_task(notes)
                        },
                    }
                } else {
                    match reply {
                        Err(error) => {
                            let mut msg = String::from_str("ERROR : The ");
                            msg.append(self.agent.as_str());
                            msg.append(" Agent hasn't completed his task.  |   Step : ");
                            push_decimal(&mut msg, self.step);
                            msg.append("\nFailed to get a response from ollama : ");
                            msg.append(error.as_str());
                            self.phase = Phase::Finished;
                            let mut notes: Vec<State> = Vec::new();
                            notes.push(State::Done(msg));
                            assert(notes_view(notes@) =~= seq![
                                StateView::Done(agent_error_text(old(self)@.agent, old(self)@.step, error@)),
                            ]);
                            AgentStep { notes, request: AgentRequest::Stop }
                        },
                        Ok(text) => {
                            self.answer.append(text.as_str());
                            self.phase = Phase::ToolOutput;
                            let notes: Vec<State> = Vec::new();
                    assert(notes_view(notes@) =~= Seq::<StateView>::empty());
                            AgentStep {
                                notes,
                                request: AgentRequest::RunTool(self.agent.clone(), text),
                            }
                        },
                    }
                }
            },
            AgentEvent::ToolReturned(output) => {
                match output {
                    Err(_) => {
                        let mut msg = String::from_str(
                            "The following answer could be wrong, paid attention :\n",
                        );
                        msg.append(self.answer.as_str());
                        self.phase = Phase::Finished;
                        let mut notes: Vec<State> = Vec::new();
                        notes.push(State::Done(msg));
                        assert(notes_view(notes@) =~= seq![
                            StateView::Done(doubtful_answer_text(old(self)@.answer)),
                        ]);
                        AgentStep { notes, request: AgentRequest::Stop }
                    },
                    Ok(out) => {
                        let mut msg = String::from_str("The ");
                        msg.append(self.agent.as_str());
                        msg.append(" Agent has completed his task.  |   Step : ");
                        push_decimal(&mut msg, self.step);
                        let mut notes: Vec<State> = Vec::new();
                        notes.push(State::Update(msg));
                        assert(notes_view(notes@) =~= seq![
                            StateView::Update(agent_done_text(old(self)@.agent, old(self)@.step)),
                        ]);
                        self.answer = out;
                        self.step = self.step + 1;
                        self.next = self.next + 1;
                        self.take_task(notes)
                    },
                }
            },
        }
    }
}

// ----------------------------------------------------------------------------
// Laws of a run
// ----------------------------------------------------------------------------

/// How many more events a run whose plan is known can take at most.
pub open spec fn events_left(r: AgentRunView) -> int {
    match r.phase {
        Phase::TaskTemplate => 3 * (r.tasks.len() - r.next),
        Phase::TaskReply => 3 * (r.tasks.len() - r.next) - 1,
        Phase::ToolOutput => 3 * (r.tasks.len() - r.next) - 2,
        _ => 0,
    }
}

/// In one step, a final report is sent exactly when the run ends, as the
/// last report of that step; every other report is a progress report.  The
/// manager's phases come first and are never returned to.
pub proof fn lemma_done_ends_the_run(r: AgentRunView, e: AgentEventView)
    requires
        spec_accepts(r, e),
    ensures
        ({
            let (next, notes, request) = spec_advance(r, e);
            &&& (request is Stop) <==> (next.phase == Phase::Finished)
            &&& (request is Stop) ==> notes.len() > 0
            &&& forall|i: int|
                0 <= i < notes.len() ==> ((#[trigger] notes[i] is Done) <==> (request is Stop && i
                    == notes.len() - 1))
            &&& r.phase == Phase::ManagerTemplate ==> next.phase == Phase::ManagerReply
                && notes.len() == 0
            &&& r.phase == Phase::ManagerReply ==> {
                &&& next.phase != Phase::ManagerTemplate
                &&& next.phase != Phase::ManagerReply
                &&& notes.len() >= 1
                &&& notes[0] == StateView::Update(manager_done_text())
                &&& next.phase == Phase::Finished ==> notes.len() >= 2
            }
            &&& (r.phase != Phase::ManagerTemplate && r.phase != Phase::ManagerReply) ==> (
            next.phase != Phase::ManagerTemplate && next.phase != Phase::ManagerReply)
        }),
{
    let (next, notes, request) = spec_advance(r, e);
    assert(forall|i: int|
        0 <= i < notes.len() ==> ((#[trigger] notes[i] is Done) <==> (request is Stop && i
            == notes.len() - 1)));
}

/// The state, the reports sent so far and the pending request of a run for
/// `user_prompt` after the events `events`.
pub open spec fn run_after(user_prompt: Seq<char>, events: Seq<AgentEventView>) -> (
    AgentRunView,
    Seq<StateView>,
    AgentRequestView,
)
    decreases events.len(),
{
    if events.len() == 0 {
        (
            spec_start(user_prompt),
            seq![StateView::Update("Thinking"@)],
            AgentRequestView::LoadTemplate("Manager"@),
        )
    } else {
        let (r, notes, _) = run_after(user_prompt, events.drop_last());
        let (r2, more, request) = spec_advance(r, events.last());
        (r2, notes + more, request)
    }
}

/// Each event was one the run expected when it came.
pub open spec fn events_accepted(user_prompt: Seq<char>, events: Seq<AgentEventView>) -> bool {
    forall|k: int|
        0 <= k < events.len() ==> spec_accepts(
            #[trigger] run_after(user_prompt, events.take(k)).0,
            events[k],
        )
}

/// What holds of a run after any sequence of expected events.
pub open spec fn run_reports_ok(run: (AgentRunView, Seq<StateView>, AgentRequestView)) -> bool {
    let (r, notes, request) = run;
    &&& notes.len() >= 1
    &&& notes[0] == StateView::Update("Thinking"@)
    &&& (request is Stop) <==> (r.phase == Phase::Finished)
    &&& forall|i: int|
        0 <= i < notes.len() ==> ((#[trigger] notes[i] is Done) <==> (request is Stop && i
            == notes.len() - 1))
    &&& (r.phase == Phase::ManagerTemplate || r.phase == Phase::ManagerReply) ==> notes.len() == 1
    &&& (r.phase != Phase::ManagerTemplate && r.phase != Phase::ManagerReply) ==> {
        &&& notes.len() >= 2
        &&& notes[1] == StateView::Update(manager_done_text())
    }
    &&& r.phase == Phase::Finished ==> notes.len() >= 3
}

proof fn lemma_run_invariant(user_prompt: Seq<char>, events: Seq<AgentEventView>)
    requires
        events_accepted(user_prompt, events),
    ensures
        run_reports_ok(run_after(user_prompt, events)),
    decreases events.len(),
{
    if events.len() > 0 {
        let init = events.drop_last();
        assert forall|k: int| 0 <= k < init.len() implies spec_accepts(
            #[trigger] run_after(user_prompt, init.take(k)).0,
            init[k],
        ) by {
            assert(init.take(k) =~= events.take(k));
            assert(spec_accepts(run_after(user_prompt, events.take(k)).0, events[k]));
        }
        lemma_run_invariant(user_prompt, init);
        let last = events.len() - 1;
        assert(events.take(last) =~= init);
        assert(spec_accepts(run_after(user_prompt, events.take(last)).0, events[last]));
        let (r, notes, request) = run_after(user_prompt, init);
        lemma_done_ends_the_run(r, events.last());
        let (r2, more, request2) = spec_advance(r, events.last());
        let all = notes + more;
        assert(run_after(user_prompt, events) == (r2, all, request2));
        assert(all[0] == notes[0]);
        assert(!(request is Stop));
        assert forall|i: int| 0 <= i < all.len() implies ((#[trigger] all[i] is Done) <==> (
        request2 is Stop && i == all.len() - 1)) by {
            if i < notes.len() {
                assert(all[i] == notes[i]);
            } else {
                assert(all[i] == more[i - notes.len()]);
            }
        }
        if r2.phase != Phase::ManagerTemplate && r2.phase != Phase::ManagerReply {
            if r.phase == Phase::ManagerReply {
                assert(all[1] == more[0]);
            } else {
                assert(all[1] == notes[1]);
            }
        }
    }
}

/// A whole run: once it is over, it has reported `Thinking`, then that the
/// manager has answered, then progress reports only, and exactly one final
/// report, which came last.
pub proof fn lemma_whole_run_reports(user_prompt: Seq<char>, events: Seq<AgentEventView>)
    requires
        events_accepted(user_prompt, events),
        run_after(user_prompt, events).2 is Stop,
    ensures
        ({
            let notes = run_after(user_prompt, events).1;
            &&& notes.len() >= 3
            &&& notes[0] == StateView::Update("Thinking"@)
            &&& notes[1] == StateView::Update(manager_done_text())
            &&& notes.last() is Done
            &&& forall|i: int| 0 <= i < notes.len() - 1 ==> #[trigger] notes[i] is Update
        }),
{
    lemma_run_invariant(user_prompt, events);
    let notes = run_after(user_prompt, events).1;
    assert forall|i: int| 0 <= i < notes.len() - 1 implies #[trigger] notes[i] is Update by {
        assert(!(notes[i] is Done));
    }
}

/// Every agent whose tool is asked for has one: the fallback for an agent
/// without a tool never serves a task of the plan.
pub proof fn lemma_tool_requests_name_a_tool(run: AgentRun, e: AgentEventView)
    requires
        run.wf(),
        spec_accepts(run@, e),
    ensures
        spec_advance(run@, e).2 matches AgentRequestView::RunTool(agent, _) ==> spec_select_tool(
            agent,
        ) != Tool::Unknown,
{
}

/// Once the plan is known, every event ends the run or brings it closer to
/// its end: a plan of `n` tasks takes at most `3 n` further events.
pub proof fn lemma_run_progresses(run: AgentRun, e: AgentEventView)
    requires
        run.wf(),
        spec_accepts(run@, e),
    ensures
        ({
            let next = spec_advance(run@, e).0;
            &&& next.phase == Phase::Finished || next.phase == Phase::ManagerReply
                || events_left(next) > 0
            &&& (run@.phase != Phase::ManagerTemplate && run@.phase != Phase::ManagerReply)
                ==> (next.phase == Phase::Finished || events_left(next) < events_left(run@))
            &&& run@.phase == Phase::ManagerReply ==> (next.phase == Phase::Finished
                || events_left(next) == 3 * next.tasks.len())
        }),
{
}

/// A task's agent gets its filled template and nothing more, unless the
/// task's second line asked for the previous step's result and there is
/// one: then that result follows under a `[Data you need]` heading.
pub proof fn lemma_previous_data_only_when_asked(run: AgentRun, template: Option<Seq<char>>)
    requires
        run.wf(),
        run@.phase == Phase::TaskTemplate,
    ensures
        spec_parse_task(run@.tasks[run@.next]) is Ok,
        ({
            let (agent, need, prompt) = spec_parse_task(run@.tasks[run@.next])->Ok_0;
            let request = spec_advance(run@, AgentEventView::TemplateLoaded(template)).2;
            &&& (!need || run@.answer.len() == 0) ==> request == AgentRequestView::Generate(
                spec_fill_prompt(template, prompt),
            )
            &&& (need && run@.answer.len() > 0) ==> request == AgentRequestView::Generate(
                spec_fill_prompt(template, prompt) + "\n[Data you need]\n"@ + run@.answer,
            )
        }),
{
}

/// The data a task may ask for is what the previous task's tool returned,
/// not what its agent answered: after a tool's output the run holds that
/// output, and when no task is left it is the final answer.
pub proof fn lemma_tool_output_is_next_data(run: AgentRun, out: Seq<char>)
    requires
        run.wf(),
        run@.phase == Phase::ToolOutput,
    ensures
        ({
            let (next, notes, request) = spec_advance(
                run@,
                AgentEventView::ToolReturned(Ok(out)),
            );
            &&& next.answer == out
            &&& next.next == run@.next + 1
            &&& notes[0] == StateView::Update(agent_done_text(run@.agent, run@.step))
            &&& run@.next + 1 == run@.tasks.len() ==> (request is Stop && notes.last()
                == StateView::Done(out))
        }),
{
}

} // verus!
