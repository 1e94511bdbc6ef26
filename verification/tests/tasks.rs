use data_station::tasks::{
    mentions_yes, parse_agent, parse_need_previous_step, parse_task, parse_tasks,
};

#[test]
fn parse_agent_finds_named_agent() {
    assert_eq!(parse_agent("Agent: Bash"), Some("Bash".to_string()));
    assert_eq!(parse_agent("use LLM_Core please"), Some("LLM_Core".to_string()));
    assert_eq!(parse_agent("Sqlite3"), Some("Sqlite3".to_string()));
    assert_eq!(parse_agent("Agent: Execute_Command"), Some("Execute_Command".to_string()));
    assert_eq!(parse_agent("Python"), None);
}

#[test]
fn parse_agent_prefers_bash_over_others() {
    assert_eq!(parse_agent("Sqlite3 then Bash"), Some("Bash".to_string()));
    assert_eq!(parse_agent("Sqlite3 or LLM_Core"), Some("LLM_Core".to_string()));
}

#[test]
fn need_previous_step_is_case_insensitive() {
    assert!(parse_need_previous_step("yes"));
    assert!(parse_need_previous_step("Need previous: Yes."));
    assert!(!parse_need_previous_step("no"));
    assert!(!parse_need_previous_step("y e s"));
}

#[test]
fn parse_task_reads_three_lines() {
    let r = parse_task("Agent: Sqlite3\nPrevious step: no\nSELECT *\nFROM clients;".to_string());
    assert_eq!(
        r,
        Ok(("Sqlite3".to_string(), false, "SELECT *FROM clients;".to_string()))
    );
}

#[test]
fn parse_task_needs_previous() {
    let r = parse_task("Bash\nYES\nls -la".to_string());
    assert_eq!(r, Ok(("Bash".to_string(), true, "ls -la".to_string())));
}

#[test]
fn parse_task_unknown_agent() {
    let r = parse_task("Python\nno\nprint(1)".to_string());
    assert_eq!(r, Err("Unknow agent name".to_string()));
}

#[test]
fn parse_task_too_few_lines() {
    let r = parse_task("Bash\nno".to_string());
    assert_eq!(r, Err("Inconsistant format response from the Manager agent.".to_string()));
    let r = parse_task(String::new());
    assert_eq!(r, Err("Inconsistant format response from the Manager agent.".to_string()));
}

#[test]
fn parse_task_third_line_may_be_empty() {
    let r = parse_task("LLM_Core\nno\n".to_string());
    assert_eq!(r, Ok(("LLM_Core".to_string(), false, String::new())));
}

#[test]
fn parse_tasks_splits_and_trims() {
    let tasks = parse_tasks("  Bash\nno\nls\n---\n \n---\nSqlite3\nyes\nSELECT 1\n".to_string());
    assert_eq!(
        tasks,
        vec!["Bash\nno\nls\n".to_string(), "Sqlite3\nyes\nSELECT 1\n".to_string()]
    );
}

#[test]
fn parse_tasks_empty_answer() {
    assert_eq!(parse_tasks(String::new()), Vec::<String>::new());
    assert_eq!(parse_tasks("------\t\n---".to_string()), Vec::<String>::new());
}

#[test]
fn parse_tasks_matches_std() {
    let samples = [
        "a---b",
        "----a",
        "a----",
        "\u{2003}x\u{a0}--- y ---\u{3000}",
        "no separator",
        "--",
    ];
    for s in samples {
        let expected: Vec<String> = s
            .split("---")
            .filter(|p| !p.trim().is_empty())
            .map(|p| p.trim_start().to_string())
            .collect();
        assert_eq!(parse_tasks(s.to_string()), expected, "{:?}", s);
    }
}

#[test]
fn parse_tasks_every_task_starts_with_text() {
    for t in parse_tasks(" a \n---\n\n b---c ".to_string()) {
        assert!(!t.is_empty());
        assert!(!t.chars().next().unwrap().is_whitespace());
    }
}

#[test]
fn mentions_yes_reads_uppercased_text() {
    assert!(mentions_yes("YES"));
    assert!(mentions_yes("EYESS"));
    assert!(!mentions_yes("yes"));
    assert!(!mentions_yes("YE S"));
}

#[test]
fn execute_command_task() {
    let r = parse_task("Execute_Command\nno\nls -la".to_string());
    assert_eq!(r, Ok(("Execute_Command".to_string(), false, "ls -la".to_string())));
}

#[test]
fn parse_tasks_round_trip() {
    let cases: Vec<Vec<String>> = vec![
        vec![],
        vec!["Bash\nno\nls".to_string()],
        vec!["Sqlite3\nno\nSELECT 1".to_string(), "LLM_Core\nyes\nsay it ".to_string()],
    ];
    for ts in cases {
        assert_eq!(parse_tasks(ts.join("---")), ts);
    }
}
