use dialog_gen::config::{DialogConfig, DialogLine, Directions, Scene, Speaker};
use dialog_gen::error::DialogGenError;
use dialog_gen::ollama::{ChatResult, ChatStats, OllamaClient, TokenRate};
use dialog_gen::orchestrator::{DialogExchange, DialogOrchestrator, GeneratedDialog};

fn speaker(name: &str) -> Speaker {
    Speaker {
        name: name.to_string(),
        background: format!("{} is a baker.", name),
        personality: "Warm.".to_string(),
        motivations: "Peace.".to_string(),
        speaking_style: "Short words.".to_string(),
    }
}

fn line(speaker: &str, content: &str) -> DialogLine {
    DialogLine { speaker: speaker.to_string(), content: content.to_string() }
}

fn config(first: &str, second: &str, seed: Vec<DialogLine>, turns: usize) -> DialogConfig {
    DialogConfig {
        speaker1: speaker(first),
        speaker2: speaker(second),
        directions: Directions {
            scene_name: "Bakery".to_string(),
            setting: "Early morning.".to_string(),
            mood: "tense".to_string(),
            goal: "a truce".to_string(),
            notes: "Keep it light.".to_string(),
        },
        initial_lines: seed,
        scene: Scene { turns, model: None, temperature: None },
    }
}

fn engine(seed: Vec<DialogLine>, turns: usize) -> DialogOrchestrator {
    DialogOrchestrator::new(
        OllamaClient::new("http://localhost:11434/", "test-model"),
        config("Ann", "Ben", seed, turns),
    )
}

fn reply(text: &str, prompt: u64, completion: u64, eval_ns: u64, wall_ns: u128) -> ChatResult {
    ChatResult {
        content: text.to_string(),
        stats: ChatStats {
            prompt_tokens: prompt,
            completion_tokens: completion,
            eval_duration_ns: eval_ns,
            wall_time_ns: wall_ns,
        },
    }
}

fn plain(text: &str) -> ChatResult {
    reply(text, 0, 0, 0, 0)
}

fn run(engine: &DialogOrchestrator, replies: Vec<ChatResult>) -> GeneratedDialog {
    let mut g = engine.begin();
    let mut given = replies.into_iter();
    while let Some(prompt) = engine.next_prompt(&g) {
        assert_eq!(prompt.turn, g.turns_done());
        let result = given.next().expect("a reply for every turn");
        assert!(g.room_for(&result.stats));
        engine.accept(&mut g, &result);
    }
    assert!(given.next().is_none());
    engine.finish(g)
}

fn pairs(exchanges: &[DialogExchange]) -> Vec<(String, String)> {
    exchanges.iter().map(|e| (e.speaker.clone(), e.content.clone())).collect()
}

fn pair(speaker: &str, content: &str) -> (String, String) {
    (speaker.to_string(), content.to_string())
}

#[test]
fn two_turns_from_an_empty_seed() {
    let e = engine(Vec::new(), 2);
    let dialog = run(&e, vec![plain("Ben: I agree."), plain("Sure thing.")]);
    assert_eq!(pairs(&dialog.exchanges), vec![pair("Ben", "I agree."), pair("Ann", "Sure thing.")]);
}

#[test]
fn transcript_is_seed_followed_by_one_line_per_turn() {
    for turns in 0..6usize {
        let seed = vec![line("Ann", "Good morning."), line("Ben", "Is it?")];
        let e = engine(seed, turns);
        let replies = (0..turns).map(|i| plain(&format!("Line {}.", i))).collect();
        let dialog = run(&e, replies);
        assert_eq!(dialog.exchanges.len(), 2 + turns);
        assert_eq!(pairs(&dialog.exchanges[..2]), vec![pair("Ann", "Good morning."), pair("Ben", "Is it?")]);
        for i in 0..turns {
            assert_eq!(dialog.exchanges[2 + i].content, format!("Line {}.", i));
        }
        assert_eq!(dialog.metadata.turns, turns);
    }
}

#[test]
fn speakers_alternate() {
    let e = engine(vec![line("Ann", "Hi.")], 5);
    let dialog = run(&e, (0..5).map(|_| plain("Yes.")).collect());
    let names: Vec<&str> = dialog.exchanges.iter().map(|x| x.speaker.as_str()).collect();
    assert_eq!(names, vec!["Ann", "Ben", "Ann", "Ben", "Ann", "Ben"]);
    for i in 1..dialog.exchanges.len() - 1 {
        assert_ne!(dialog.exchanges[i].speaker, dialog.exchanges[i + 1].speaker);
    }
}

#[test]
fn first_turn_goes_to_the_speaker_who_did_not_speak_last() {
    let after_ann = run(&engine(vec![line("Ann", "Hi.")], 1), vec![plain("x")]);
    assert_eq!(after_ann.exchanges[1].speaker, "Ben");
    let after_ben = run(&engine(vec![line("Ann", "Hi."), line("Ben", "Ho.")], 1), vec![plain("x")]);
    assert_eq!(after_ben.exchanges[2].speaker, "Ann");
}

#[test]
fn second_speaker_begins_without_a_known_last_speaker() {
    let empty = run(&engine(Vec::new(), 1), vec![plain("x")]);
    assert_eq!(empty.exchanges[0].speaker, "Ben");
    let stranger = run(&engine(vec![line("Narrator", "Dawn.")], 1), vec![plain("x")]);
    assert_eq!(stranger.exchanges[1].speaker, "Ben");
    let case = run(&engine(vec![line("ANN", "Hi.")], 1), vec![plain("x")]);
    assert_eq!(case.exchanges[1].speaker, "Ben");
}

#[test]
fn next_speaker_is_found_by_name() {
    let e = engine(Vec::new(), 1);
    assert_eq!(e.get_next_speaker(Some("Ann")).name, "Ben");
    assert_eq!(e.get_next_speaker(Some("Ben")).name, "Ann");
    assert_eq!(e.get_next_speaker(Some("Cid")).name, "Ben");
    assert_eq!(e.get_next_speaker(None).name, "Ben");
}

#[test]
fn other_speaker_is_found_by_name() {
    let e = engine(Vec::new(), 1);
    assert_eq!(e.get_other_speaker(&speaker("Ann")).unwrap().name, "Ben");
    assert_eq!(e.get_other_speaker(&speaker("Ben")).unwrap().name, "Ann");
    assert!(e.get_other_speaker(&speaker("Cid")).is_none());
    assert!(e.get_other_speaker(&speaker("ann")).is_none());
}

#[test]
fn replies_are_sanitized_for_the_speaker_of_the_turn() {
    let e = engine(Vec::new(), 3);
    let dialog = run(
        &e,
        vec![plain("  BEN: \"Fine.\"  "), plain("Ben: Not mine."), plain("ben : Mine.\n\nMore.")],
    );
    assert_eq!(
        pairs(&dialog.exchanges),
        vec![pair("Ben", "Fine."), pair("Ann", "Ben: Not mine."), pair("Ben", "Mine.")]
    );
}

#[test]
fn empty_reply_is_kept_as_an_empty_line() {
    let dialog = run(&engine(Vec::new(), 1), vec![plain("   ")]);
    assert_eq!(pairs(&dialog.exchanges), vec![pair("Ben", "")]);
}

#[test]
fn no_prompt_is_given_once_the_turns_are_taken() {
    let e = engine(Vec::new(), 1);
    let mut g = e.begin();
    assert!(e.next_prompt(&g).is_some());
    e.accept(&mut g, &plain("x"));
    assert!(e.next_prompt(&g).is_none());
    assert_eq!(g.turns_done(), 1);
    let none = engine(vec![line("Ann", "Hi.")], 0);
    let g0 = none.begin();
    assert!(none.next_prompt(&g0).is_none());
    assert_eq!(pairs(g0.exchanges()), vec![pair("Ann", "Hi.")]);
}

#[test]
fn failed_call_ends_the_run_with_its_error() {
    let e = engine(vec![line("Ann", "Hi.")], 3);
    let g = e.begin();
    let g = e.advance(g, Ok(plain("Ben: Ho."))).unwrap();
    assert_eq!(pairs(g.exchanges()), vec![pair("Ann", "Hi."), pair("Ben", "Ho.")]);
    assert_eq!(g.turns_done(), 1);
    match e.advance(g, Err(DialogGenError::OllamaUnavailable("gone".to_string()))) {
        Err(DialogGenError::OllamaUnavailable(detail)) => assert_eq!(detail, "gone"),
        _ => panic!("the failure of a call must end the run"),
    }
    let g = e.begin();
    match e.advance(g, Err(DialogGenError::GenerationFailed("HTTP 500".to_string()))) {
        Err(DialogGenError::GenerationFailed(detail)) => assert_eq!(detail, "HTTP 500"),
        _ => panic!("the failure of a call must end the run"),
    }
}

#[test]
fn prompt_names_the_speaker_and_shows_the_transcript_from_its_side() {
    let e = engine(vec![line("Ann", "Hi."), line("Ben", "Ho."), line("Cid", "Hum.")], 2);
    let mut g = e.begin();
    let first = e.next_prompt(&g).unwrap();
    assert_eq!(first.turn, 0);
    assert_eq!(first.speaker, "Ben");
    let roles: Vec<&str> = first.messages.iter().map(|m| m.role.as_str()).collect();
    let texts: Vec<&str> = first.messages.iter().map(|m| m.content.as_str()).collect();
    assert_eq!(roles, vec!["user", "assistant", "user"]);
    assert_eq!(texts, vec!["Hi.", "Ho.", "Hum."]);
    e.accept(&mut g, &plain("Ha."));
    let second = e.next_prompt(&g).unwrap();
    assert_eq!(second.turn, 1);
    assert_eq!(second.speaker, "Ann");
    let roles: Vec<&str> = second.messages.iter().map(|m| m.role.as_str()).collect();
    assert_eq!(roles, vec!["assistant", "user", "user", "user"]);
    assert_eq!(second.messages[3].content, "Ha.");
}

#[test]
fn roles_for_the_two_speakers_are_complementary() {
    let e = engine(Vec::new(), 0);
    let transcript = vec![
        DialogExchange { speaker: "Ann".to_string(), content: "a".to_string() },
        DialogExchange { speaker: "Ben".to_string(), content: "b".to_string() },
        DialogExchange { speaker: "Ben".to_string(), content: "c".to_string() },
        DialogExchange { speaker: "Ann".to_string(), content: "d".to_string() },
    ];
    let for_ann = e.build_conversation_history(&speaker("Ann"), &transcript);
    let for_ben = e.build_conversation_history(&speaker("Ben"), &transcript);
    assert_eq!(for_ann.len(), 4);
    assert_eq!(for_ben.len(), 4);
    for i in 0..4 {
        assert_eq!(for_ann[i].content, transcript[i].content);
        assert_eq!(for_ben[i].content, transcript[i].content);
        assert!(for_ann[i].role == "assistant" || for_ann[i].role == "user");
        assert_eq!(for_ann[i].role == "assistant", for_ben[i].role == "user");
        assert_eq!(for_ann[i].role == "user", for_ben[i].role == "assistant");
    }
    assert_eq!(for_ann[0].role, "assistant");
    assert_eq!(for_ben[0].role, "user");
}

#[test]
fn history_of_an_empty_transcript_is_empty() {
    let e = engine(Vec::new(), 0);
    assert!(e.build_conversation_history(&speaker("Ann"), &[]).is_empty());
}

#[test]
fn system_prompt_is_built_from_the_profiles_and_the_scene() {
    let e = engine(Vec::new(), 1);
    let prompt = e.build_system_prompt(&speaker("Ann"), &speaker("Ben"));
    let expected = "You are Ann talking to Ben.\n\nAnn: Ann is a baker. Warm. Short words.\n\nScene: Bakery. Early morning.\nKeep it light.\n\nRESPOND WITH EXACTLY ONE SHORT SENTENCE. Either a statement OR a question, never both. No followup. Just react to what Ben said.";
    assert_eq!(prompt, expected);
    let g = e.begin();
    let first = e.next_prompt(&g).unwrap();
    assert_eq!(first.system_prompt, e.build_system_prompt(&speaker("Ben"), &speaker("Ann")));
}

#[test]
fn totals_are_the_sums_of_the_calls() {
    let e = engine(Vec::new(), 3);
    let dialog = run(
        &e,
        vec![
            reply("a", 10, 5, 1_000_000_000, 2_000_000_000),
            reply("b", 20, 7, 500_000_000, 1_500_000_000),
            reply("c", 30, 9, 0, 250),
        ],
    );
    assert_eq!(dialog.metadata.total_prompt_tokens, 60);
    assert_eq!(dialog.metadata.total_completion_tokens, 21);
    assert_eq!(dialog.metadata.total_wall_time_ns, 3_500_000_250);
    assert_eq!(dialog.metadata.avg_tokens_per_second, TokenRate { tokens: 21, nanos: 1_500_000_000 });
    assert!(!dialog.metadata.avg_tokens_per_second.is_zero());
    assert_eq!(dialog.metadata.model, "test-model");
    assert_eq!(dialog.metadata.turns, 3);
    assert_eq!(dialog.metadata.temperature, None);
}

#[test]
fn rate_is_zero_without_evaluation_time() {
    let dialog = run(&engine(Vec::new(), 2), vec![reply("a", 1, 5, 0, 9), reply("b", 1, 6, 0, 9)]);
    assert_eq!(dialog.metadata.avg_tokens_per_second, TokenRate { tokens: 11, nanos: 0 });
    assert!(dialog.metadata.avg_tokens_per_second.is_zero());
}

#[test]
fn room_for_statistics_is_checked_against_the_totals() {
    let e = engine(Vec::new(), 2);
    let mut g = e.begin();
    let big = reply("a", u64::MAX, 0, 0, 0);
    assert!(g.room_for(&big.stats));
    e.accept(&mut g, &big);
    assert!(!g.room_for(&reply("b", 1, 0, 0, 0).stats));
    assert!(g.room_for(&reply("b", 0, u64::MAX, u64::MAX, u128::MAX).stats));
    e.accept(&mut g, &reply("b", 0, u64::MAX, u64::MAX, u128::MAX));
    assert!(!g.room_for(&reply("c", 0, 1, 0, 0).stats));
    assert!(!g.room_for(&reply("c", 0, 0, 1, 0).stats));
    assert!(!g.room_for(&reply("c", 0, 0, 0, 1).stats));
    assert!(g.room_for(&reply("c", 0, 0, 0, 0).stats));
}

#[test]
fn script_of_a_dialog_lists_its_lines() {
    let dialog = run(&engine(vec![line("Ann", "Hi.")], 1), vec![plain("Ho.")]);
    assert_eq!(dialog.script(), "Ann: Hi.\n\nBen: Ho.\n\n");
    let empty = run(&engine(Vec::new(), 0), Vec::new());
    assert_eq!(empty.script(), "");
}

#[test]
fn engine_keeps_what_it_was_made_of() {
    let e = engine(vec![line("Ann", "Hi.")], 7);
    assert_eq!(e.config().scene.turns, 7);
    assert_eq!(e.config().speaker2.name, "Ben");
    assert_eq!(e.ollama().model(), "test-model");
    assert_eq!(e.ollama().base_url(), "http://localhost:11434");
}
