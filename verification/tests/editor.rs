use dialog_gen::editor::PodcastEditor;
use dialog_gen::ollama::{ChatResult, ChatStats, OllamaClient, TokenRate};
use dialog_gen::orchestrator::{DialogExchange, GeneratedDialog, GenerationMetadata};

fn editor() -> PodcastEditor {
    PodcastEditor::new(OllamaClient::new("http://localhost:11434", "mistral:7b"))
}

fn dialog(lines: &[(&str, &str)]) -> GeneratedDialog {
    GeneratedDialog {
        exchanges: lines
            .iter()
            .map(|(s, c)| DialogExchange { speaker: s.to_string(), content: c.to_string() })
            .collect(),
        metadata: GenerationMetadata {
            model: "mistral:7b".to_string(),
            turns: 2,
            temperature: Some("0.7".to_string()),
            total_prompt_tokens: 100,
            total_completion_tokens: 40,
            total_wall_time_ns: 5_000,
            avg_tokens_per_second: TokenRate { tokens: 40, nanos: 2_000 },
        },
    }
}

fn result(text: &str) -> ChatResult {
    ChatResult {
        content: text.to_string(),
        stats: ChatStats {
            prompt_tokens: 11,
            completion_tokens: 22,
            eval_duration_ns: 33,
            wall_time_ns: 44,
        },
    }
}

#[test]
fn editor_keeps_its_gateway() {
    assert_eq!(editor().ollama().model(), "mistral:7b");
}

#[test]
fn editor_instructions_ask_for_the_script_format() {
    let prompt = PodcastEditor::system_prompt();
    assert!(prompt.starts_with("You are an expert podcast editor with years of experience"));
    assert!(prompt.contains("\n- Listeners stay engaged and come back for more episodes\n"));
    assert!(prompt.contains("Preserve the speaker names and format (SPEAKER: dialog).\n"));
    assert!(prompt.ends_with("but improve the delivery."));
    assert_eq!(prompt.lines().count(), 13);
}

#[test]
fn edit_request_is_one_user_message_with_the_script() {
    let messages = editor().edit_request(&dialog(&[("Ann", "Hi."), ("Ben", "Ho.")]));
    assert_eq!(messages.len(), 1);
    assert_eq!(messages[0].role, "user");
    assert_eq!(messages[0].content, "Edit this podcast script:\n\nAnn: Hi.\n\nBen: Ho.");
}

#[test]
fn edit_request_for_an_empty_dialog_has_no_script() {
    let messages = editor().edit_request(&dialog(&[]));
    assert_eq!(messages[0].content, "Edit this podcast script:\n\n");
}

#[test]
fn edited_script_is_read_back() {
    let script = "Here is the edited script:\n\nANN: Morning!\n\nBEN: Is it, though?\n\n(end)";
    let exchanges = editor().parse_script(script);
    assert_eq!(exchanges.len(), 2);
    assert_eq!(exchanges[0].speaker, "ANN");
    assert_eq!(exchanges[0].content, "Morning!");
    assert_eq!(exchanges[1].speaker, "BEN");
    assert_eq!(exchanges[1].content, "Is it, though?");
}

#[test]
fn script_survives_writing_and_reading() {
    let draft = dialog(&[("Ann", "Hi."), ("Ben", "Is it 5:30?"), ("Ann", "Yes.")]);
    let exchanges = editor().parse_script(&draft.script());
    assert_eq!(exchanges.len(), 3);
    for i in 0..3 {
        assert_eq!(exchanges[i].speaker, draft.exchanges[i].speaker);
        assert_eq!(exchanges[i].content, draft.exchanges[i].content);
    }
}

#[test]
fn edited_dialog_adds_the_cost_of_editing() {
    let draft = dialog(&[("Ann", "Hi."), ("Ben", "Ho.")]);
    let r = result("Ann: Hello.\nnot a line\nBen: Hullo.\nAnn: Bye.");
    assert!(draft.metadata.room_for(&r.stats));
    let out = editor().edit(&draft, &r);
    assert_eq!(out.exchanges.len(), 3);
    assert_eq!(out.exchanges[2].content, "Bye.");
    assert_eq!(out.metadata.model, "mistral:7b (edited)");
    assert_eq!(out.metadata.turns, 3);
    assert_eq!(out.metadata.temperature, Some("0.7".to_string()));
    assert_eq!(out.metadata.total_prompt_tokens, 111);
    assert_eq!(out.metadata.total_completion_tokens, 62);
    assert_eq!(out.metadata.total_wall_time_ns, 5_044);
    assert_eq!(out.metadata.avg_tokens_per_second, TokenRate { tokens: 40, nanos: 2_000 });
}

#[test]
fn edited_dialog_may_be_empty() {
    let draft = dialog(&[("Ann", "Hi.")]);
    let out = editor().edit(&draft, &result("I cannot help with that."));
    assert!(out.exchanges.is_empty());
    assert_eq!(out.metadata.turns, 0);
}

#[test]
fn room_for_editing_cost_is_checked() {
    let mut draft = dialog(&[]);
    draft.metadata.total_prompt_tokens = u64::MAX - 11;
    assert!(draft.metadata.room_for(&result("x").stats));
    draft.metadata.total_prompt_tokens = u64::MAX - 10;
    assert!(!draft.metadata.room_for(&result("x").stats));
    draft.metadata.total_prompt_tokens = 0;
    draft.metadata.total_completion_tokens = u64::MAX - 21;
    assert!(!draft.metadata.room_for(&result("x").stats));
    draft.metadata.total_completion_tokens = 0;
    draft.metadata.total_wall_time_ns = u128::MAX - 43;
    assert!(!draft.metadata.room_for(&result("x").stats));
    draft.metadata.total_wall_time_ns = u128::MAX - 44;
    assert!(draft.metadata.room_for(&result("x").stats));
}
