use data_station::prompt::{fill_prompt, prompt_path};
use data_station::tools::{
    append_row, bash_outcome, extract_value, plan_bash_command, sanitize_query, select_tool,
    unknown_agent_error, BashPlan, Tool,
};

#[test]
fn sanitize_removes_fences() {
    assert_eq!(sanitize_query("```sql\nSELECT *\nFROM t;\n```"), "SELECT *\nFROM t;");
}

#[test]
fn sanitize_keeps_plain_query() {
    let q = "SELECT name\nFROM clients\n\nWHERE id = 1;";
    assert_eq!(sanitize_query(q), q);
}

#[test]
fn sanitize_keeps_short_backtick_lines() {
    assert_eq!(sanitize_query("``\nSELECT 1"), "``\nSELECT 1");
}

#[test]
fn extract_value_reads_debug_text() {
    assert_eq!(extract_value("Integer(42)"), "42");
    assert_eq!(extract_value("String(\"Alice\")"), "\"Alice\"");
    assert_eq!(extract_value("Null"), "");
    assert_eq!(extract_value("Float(1.5)"), "1.5");
    assert_eq!(extract_value("Binary([1, 2])"), "[1, 2]");
    assert_eq!(extract_value("String(\"a (b) c\")"), "\"a (b) c\"");
}

#[test]
fn extract_value_keeps_whole_text() {
    assert_eq!(extract_value("String(\"a)b\")"), "\"a)b\"");
    assert_eq!(extract_value("String(\"(\")"), "\"(\"");
    assert_eq!(extract_value("String(\")))\")"), "\")))\"");
    assert_eq!(extract_value(&format!("{:?}", Some("x)y"))), "\"x)y\"");
}

#[test]
fn extract_value_unbalanced() {
    assert_eq!(extract_value("Name(abc"), "");
    assert_eq!(extract_value("()"), "");
    assert_eq!(extract_value("))(x"), "");
    assert_eq!(extract_value("((x))"), "(x)");
}

#[test]
fn append_row_formats_fields() {
    let mut result = String::from("1, ");
    append_row(&mut result, &vec!["Integer(2)".to_string(), "String(\"b\")".to_string()]);
    assert_eq!(result, "1, 2, \"b\", ");
    append_row(&mut result, &vec![]);
    assert_eq!(result, "1, 2, \"b\", ");
}

#[test]
fn bash_refuses_sudo() {
    assert_eq!(
        plan_bash_command("sudo rm -rf /"),
        BashPlan::Refused(
            "Can't execute the following command due to permission : sudo rm -rf /".to_string()
        )
    );
}

#[test]
fn bash_splits_words() {
    assert_eq!(
        plan_bash_command("ls -la 'my dir'"),
        BashPlan::Run("ls".to_string(), vec!["-la".to_string(), "my dir".to_string()])
    );
    assert_eq!(
        plan_bash_command("echo \"a  b\"\\ c"),
        BashPlan::Run("echo".to_string(), vec!["a  b c".to_string()])
    );
}

#[test]
fn bash_unmatched_quote() {
    assert_eq!(
        plan_bash_command("echo 'oops"),
        BashPlan::Unparsable("missing closing quote".to_string())
    );
}

#[test]
fn bash_empty_command() {
    assert_eq!(plan_bash_command("   "), BashPlan::NoWords);
    assert_eq!(plan_bash_command("# just a comment"), BashPlan::NoWords);
}

#[test]
fn bash_outcomes() {
    assert_eq!(
        bash_outcome("ls", true, "a\nb\n".to_string(), String::new()),
        Ok("a\nb\n".to_string())
    );
    assert_eq!(
        bash_outcome("touch x", true, String::new(), String::new()),
        Ok("Successfully run the following comand :\n`touch x`".to_string())
    );
    assert_eq!(
        bash_outcome("false", false, "out".to_string(), "err".to_string()),
        Err("err".to_string())
    );
}

#[test]
fn tools_by_agent_name() {
    assert_eq!(select_tool("Bash"), Tool::Bash);
    assert_eq!(select_tool("Execute_Command"), Tool::Bash);
    assert_eq!(select_tool("Sqlite3"), Tool::Sqlite3);
    assert_eq!(select_tool("LLM_Core"), Tool::LlmCore);
    assert_eq!(select_tool("bash"), Tool::Unknown);
    assert_eq!(
        unknown_agent_error(),
        "Catch an unknow Agent, who hasn't access to a tool."
    );
}

#[test]
fn prompt_templates() {
    assert_eq!(prompt_path("Manager"), "agents/Manager.txt");
    assert_eq!(
        fill_prompt(Some("Task: {user_prompt}\nAgain: {user_prompt}".to_string()), "list files"),
        "Task: list files\nAgain: list files"
    );
    assert_eq!(fill_prompt(None, "list files"), "{user_prompt}");
    assert_eq!(fill_prompt(Some("no marker".to_string()), "x"), "no marker");
    assert_eq!(fill_prompt(Some("{user_prompt}}".to_string()), "{user_prompt}"), "{user_prompt}}");
}
