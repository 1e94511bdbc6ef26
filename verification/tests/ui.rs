use data_station::client::ClientLoop;
use data_station::tasks::State;
use data_station::ui::{
    current_model_message, default_model, model_after, read_command, unknown_command_message,
    UiCommand,
};

#[test]
fn commands_are_recognised() {
    assert_eq!(read_command("/exit\n"), UiCommand::Exit);
    assert_eq!(read_command("/quit\n"), UiCommand::Exit);
    assert_eq!(read_command("/help\n"), UiCommand::Help);
    assert_eq!(read_command("/model\n"), UiCommand::ShowModel);
    assert_eq!(read_command("/model llama3 extra\n"), UiCommand::SetModel("llama3".to_string()));
    assert_eq!(read_command("/model \n"), UiCommand::SetModel(String::new()));
    assert_eq!(read_command("/nope now\n"), UiCommand::Unknown("/nope".to_string()));
    assert_eq!(read_command("/exit now\n"), UiCommand::Exit);
}

#[test]
fn lines_and_prompts() {
    assert_eq!(read_command("\n"), UiCommand::Nothing);
    assert_eq!(read_command(""), UiCommand::Nothing);
    assert_eq!(read_command("list clients\n"), UiCommand::Prompt("list clients".to_string()));
    assert_eq!(read_command("no newline"), UiCommand::Prompt("no newlin".to_string()));
    assert_eq!(read_command("/"), UiCommand::Nothing);
}

#[test]
fn messages() {
    assert_eq!(current_model_message("gemma3:latest"), "Current model: gemma3:latest");
    assert_eq!(
        unknown_command_message("/nope"),
        "Unknown command : /nope.\nType '/help' for a list of commands."
    );
}

#[test]
fn relay_animates_progress() {
    let mut relay = ClientLoop::new();
    assert!(relay.is_running());
    let out = relay.relay(None);
    assert_eq!(out, State::Update("Thinking          ".to_string()));
    relay.sent(false, true);
    let out = relay.relay(Some(State::Update("Working".to_string())));
    assert_eq!(out, State::Update("Working.          ".to_string()));
    relay.sent(false, true);
    let out = relay.relay(None);
    assert_eq!(out, State::Update("Working..          ".to_string()));
    relay.sent(false, true);
    let out = relay.relay(None);
    assert_eq!(out, State::Update("Working...          ".to_string()));
    relay.sent(false, true);
    let out = relay.relay(None);
    assert_eq!(out, State::Update("Working          ".to_string()));
}

#[test]
fn relay_stops_after_delivered_final_report() {
    let mut relay = ClientLoop::new();
    let out = relay.relay(Some(State::Done("42".to_string())));
    assert_eq!(out, State::Done("42".to_string()));
    relay.sent(true, false);
    assert!(relay.is_running());
    relay.sent(true, true);
    assert!(!relay.is_running());
}

#[test]
fn model_choice_is_kept() {
    let mut model = default_model();
    assert_eq!(model, "gemma3:latest");
    model = model_after(model, &read_command("/model llama3\n"));
    assert_eq!(model, "llama3");
    model = model_after(model, &read_command("list clients\n"));
    assert_eq!(model, "llama3");
    model = model_after(model, &read_command("/model\n"));
    assert_eq!(model, "llama3");
}
