use data_station::agent::{AgentEvent, AgentRequest, AgentRun};
use data_station::tasks::State;

fn upd(s: &str) -> State {
    State::Update(s.to_string())
}

fn done(s: &str) -> State {
    State::Done(s.to_string())
}

#[test]
fn a_full_run() {
    let (mut run, step) = AgentRun::start("How many clients?".to_string());
    assert_eq!(step.notes, vec![upd("Thinking")]);
    assert_eq!(step.request, AgentRequest::LoadTemplate("Manager".to_string()));

    let step = run.advance(AgentEvent::TemplateLoaded(Some("Plan: {user_prompt}".to_string())));
    assert!(step.notes.is_empty());
    assert_eq!(step.request, AgentRequest::Generate("Plan: How many clients?".to_string()));

    let plan = "Sqlite3\nno\nCount clients\n---\nLLM_Core\nyes\nSay it nicely".to_string();
    let step = run.advance(AgentEvent::ModelReplied(Ok(plan)));
    assert_eq!(step.notes, vec![upd("The Manager Agent has completed his task.  |   Step : 1")]);
    assert_eq!(step.request, AgentRequest::LoadTemplate("Sqlite3".to_string()));

    let step = run.advance(AgentEvent::TemplateLoaded(Some("SQL for: {user_prompt}".to_string())));
    assert_eq!(step.request, AgentRequest::Generate("SQL for: Count clients".to_string()));

    let step = run.advance(AgentEvent::ModelReplied(Ok("SELECT COUNT(*) FROM clients;".to_string())));
    assert_eq!(
        step.request,
        AgentRequest::RunTool("Sqlite3".to_string(), "SELECT COUNT(*) FROM clients;".to_string())
    );

    let step = run.advance(AgentEvent::ToolReturned(Ok("12, ".to_string())));
    assert_eq!(step.notes, vec![upd("The Sqlite3 Agent has completed his task.  |   Step : 2")]);
    assert_eq!(step.request, AgentRequest::LoadTemplate("LLM_Core".to_string()));

    let step = run.advance(AgentEvent::TemplateLoaded(None));
    assert_eq!(
        step.request,
        AgentRequest::Generate("{user_prompt}\n[Data you need]\n12, ".to_string())
    );

    let step = run.advance(AgentEvent::ModelReplied(Ok("There are 12 clients.".to_string())));
    assert_eq!(
        step.request,
        AgentRequest::RunTool("LLM_Core".to_string(), "There are 12 clients.".to_string())
    );

    let step = run.advance(AgentEvent::ToolReturned(Ok("Twelve clients.".to_string())));
    assert_eq!(
        step.notes,
        vec![
            upd("The LLM_Core Agent has completed his task.  |   Step : 3"),
            done("Twelve clients."),
        ]
    );
    assert_eq!(step.request, AgentRequest::Stop);
    assert!(run.is_finished());
    assert!(!run.accepts(&AgentEvent::TemplateLoaded(None)));
}

#[test]
fn manager_failure() {
    let (mut run, _) = AgentRun::start("hi".to_string());
    run.advance(AgentEvent::TemplateLoaded(None));
    let step = run.advance(AgentEvent::ModelReplied(Err("connection refused".to_string())));
    assert_eq!(
        step.notes,
        vec![
            upd("The Manager Agent has completed his task.  |   Step : 1"),
            done("ERROR : The Manager Agent hasn't completed his task.\nFailed to get a response from ollama : connection refused"),
        ]
    );
    assert_eq!(step.request, AgentRequest::Stop);
}

#[test]
fn empty_plan_gives_empty_answer() {
    let (mut run, _) = AgentRun::start("hi".to_string());
    run.advance(AgentEvent::TemplateLoaded(None));
    let step = run.advance(AgentEvent::ModelReplied(Ok("   ".to_string())));
    assert_eq!(
        step.notes,
        vec![upd("The Manager Agent has completed his task.  |   Step : 1"), done("")]
    );
}

#[test]
fn unreadable_task() {
    let (mut run, _) = AgentRun::start("hi".to_string());
    run.advance(AgentEvent::TemplateLoaded(None));
    let step = run.advance(AgentEvent::ModelReplied(Ok("Python\nno\nx".to_string())));
    assert_eq!(
        step.notes,
        vec![
            upd("The Manager Agent has completed his task.  |   Step : 1"),
            done("Failed when try to parse an intermediate task. The last answer is :\n\n"),
        ]
    );
}

#[test]
fn agent_model_failure() {
    let (mut run, _) = AgentRun::start("hi".to_string());
    run.advance(AgentEvent::TemplateLoaded(None));
    run.advance(AgentEvent::ModelReplied(Ok("Bash\nno\nls".to_string())));
    let step = run.advance(AgentEvent::TemplateLoaded(Some("{user_prompt}".to_string())));
    assert_eq!(step.request, AgentRequest::Generate("ls".to_string()));
    let step = run.advance(AgentEvent::ModelReplied(Err("timeout".to_string())));
    assert_eq!(
        step.notes,
        vec![done("ERROR : The Bash Agent hasn't completed his task.  |   Step : 2\nFailed to get a response from ollama : timeout")]
    );
}

#[test]
fn tool_failure_reports_doubtful_answer() {
    let (mut run, _) = AgentRun::start("hi".to_string());
    run.advance(AgentEvent::TemplateLoaded(None));
    run.advance(AgentEvent::ModelReplied(Ok("Bash\nno\nls".to_string())));
    run.advance(AgentEvent::TemplateLoaded(None));
    run.advance(AgentEvent::ModelReplied(Ok("ls /nope".to_string())));
    let step = run.advance(AgentEvent::ToolReturned(Err("No such file".to_string())));
    assert_eq!(
        step.notes,
        vec![done("The following answer could be wrong, paid attention :\nls /nope")]
    );
    assert_eq!(step.request, AgentRequest::Stop);
}

#[test]
fn previous_data_only_when_asked_and_present() {
    let (mut run, _) = AgentRun::start("hi".to_string());
    run.advance(AgentEvent::TemplateLoaded(None));
    run.advance(AgentEvent::ModelReplied(Ok("Bash\nyes\nls".to_string())));
    // the first task asks for data but there is none yet
    let step = run.advance(AgentEvent::TemplateLoaded(Some("{user_prompt}".to_string())));
    assert_eq!(step.request, AgentRequest::Generate("ls".to_string()));
}

#[test]
fn runs_end_with_exactly_one_final_report() {
    let (mut run, mut step) = AgentRun::start("hi".to_string());
    let mut finals = 0;
    let mut events = 0;
    loop {
        for (i, n) in step.notes.iter().enumerate() {
            if let State::Done(_) = n {
                finals += 1;
                assert_eq!(i, step.notes.len() - 1);
            }
        }
        let event = match step.request {
            AgentRequest::Stop => break,
            AgentRequest::LoadTemplate(_) => AgentEvent::TemplateLoaded(None),
            AgentRequest::Generate(_) => {
                if run.accepts(&AgentEvent::ModelReplied(Ok(String::new()))) && events == 1 {
                    AgentEvent::ModelReplied(Ok("Bash\nno\na---LLM_Core\nno\nb---Sqlite3\nno\nc".to_string()))
                } else {
                    AgentEvent::ModelReplied(Ok("answer".to_string()))
                }
            }
            AgentRequest::RunTool(_, _) => AgentEvent::ToolReturned(Ok("out".to_string())),
        };
        events += 1;
        step = run.advance(event);
    }
    assert_eq!(finals, 1);
    assert!(events <= 2 + 3 * 3);
}

#[test]
fn execute_command_agent_runs_the_shell_tool() {
    let (mut run, _) = AgentRun::start("hi".to_string());
    run.advance(AgentEvent::TemplateLoaded(None));
    run.advance(AgentEvent::ModelReplied(Ok("Execute_Command\nno\nlist".to_string())));
    run.advance(AgentEvent::TemplateLoaded(None));
    let step = run.advance(AgentEvent::ModelReplied(Ok("ls".to_string())));
    assert_eq!(
        step.request,
        AgentRequest::RunTool("Execute_Command".to_string(), "ls".to_string())
    );
    assert_eq!(data_station::tools::select_tool("Execute_Command"), data_station::tools::Tool::Bash);
}

#[test]
fn whole_run_reports_in_order() {
    let (mut run, step) = AgentRun::start("hi".to_string());
    let mut reports = step.notes;
    reports.extend(run.advance(AgentEvent::TemplateLoaded(None)).notes);
    reports.extend(run.advance(AgentEvent::ModelReplied(Ok("Bash\nno\nls".to_string()))).notes);
    reports.extend(run.advance(AgentEvent::TemplateLoaded(None)).notes);
    reports.extend(run.advance(AgentEvent::ModelReplied(Ok("ls".to_string()))).notes);
    let last = run.advance(AgentEvent::ToolReturned(Ok("a b".to_string())));
    assert_eq!(last.request, AgentRequest::Stop);
    reports.extend(last.notes);
    assert_eq!(
        reports,
        vec![
            upd("Thinking"),
            upd("The Manager Agent has completed his task.  |   Step : 1"),
            upd("The Bash Agent has completed his task.  |   Step : 2"),
            done("a b"),
        ]
    );
}
