use data_station::dispatch::{insert_file_content, plan_dispatch, Dispatch};

#[test]
fn dispatch_file_action() {
    assert_eq!(
        plan_dispatch("File_System\nnotes.txt read extra\nline one\nline two"),
        Dispatch::FileAction(
            "notes.txt".to_string(),
            "read".to_string(),
            "line oneline two".to_string()
        )
    );
    assert_eq!(plan_dispatch("File_System\nnotes.txt"), Dispatch::Tired);
}

#[test]
fn dispatch_other_agents() {
    assert_eq!(
        plan_dispatch("Sqlite3\nSELECT 1\n;"),
        Dispatch::Sqlite3("SELECT 1;".to_string())
    );
    assert_eq!(
        plan_dispatch("LLM_Core\nhello"),
        Dispatch::Ask("LLM_Core".to_string(), "hello".to_string())
    );
    assert_eq!(plan_dispatch("Alone"), Dispatch::Ask("Alone".to_string(), String::new()));
}

#[test]
fn file_content_is_inserted() {
    assert_eq!(
        insert_file_content("Summarise: {file_content}", "abc"),
        "Summarise: abc"
    );
}
