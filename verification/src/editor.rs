//! The editing pass: a finished transcript is handed to the model as one
//! script, and the script that comes back is read as the new transcript.

use crate::config::{line_views, option_text, read_dialog_lines};
use crate::ollama::{ChatMessage, ChatResult, ChatStats, OllamaClient};
use crate::orchestrator::{exchange_views, DialogExchange, GeneratedDialog, GenerationMetadata};
use crate::script::{script_lines, script_text, Utterance};
use crate::text::{chars_of, lines_of, string_of, trim, trimmed};
use vstd::prelude::*;
use vstd::string::StringExecFns;

verus! {

/// A speaker name of this many characters or more is taken for wrapped
/// prose when an edited script is read.
pub const SPEAKER_NAME_LIMIT: usize = 50;

/// The instructions for the model that edits a script.
pub open spec fn editor_system_prompt_text() -> Seq<char> {
    "You are an expert podcast editor with years of experience making conversations more engaging and natural-sounding.\n\nYour goal is to edit podcast scripts so that:\n- Listeners stay engaged and come back for more episodes\n- The conversation flows naturally with good pacing\n- Each speaker has a distinct, consistent voice\n- The dialog feels authentic, not scripted\n- Awkward phrasings are smoothed out\n- Repetitive content is trimmed or varied\n- The energy and momentum build appropriately\n\nEdit the following podcast script. Preserve the speaker names and format (SPEAKER: dialog).\nMake it tighter, more engaging, and more natural. Keep the same general content and meaning, but improve the delivery."@
}

/// What the model is asked to edit: the script of `transcript`, trimmed,
/// under a line that says what to do with it.
pub open spec fn edit_prompt_text(transcript: Seq<Utterance>) -> Seq<char> {
    "Edit this podcast script:\n\n"@ + trim(script_text(transcript))
}

impl GenerationMetadata {
    /// Whether the totals have room for the statistics `stats` of one
    /// more call.
    pub open spec fn has_room_for(&self, stats: ChatStats) -> bool {
        &&& self.total_prompt_tokens + stats.prompt_tokens <= u64::MAX
        &&& self.total_completion_tokens + stats.completion_tokens <= u64::MAX
        &&& self.total_wall_time_ns + stats.wall_time_ns <= u128::MAX
    }

    /// Decides [`GenerationMetadata::has_room_for`].
    pub fn room_for(&self, stats: &ChatStats) -> (room: bool)
        ensures
            room == self.has_room_for(*stats),
    {
        stats.prompt_tokens <= u64::MAX - self.total_prompt_tokens && stats.completion_tokens
            <= u64::MAX - self.total_completion_tokens && stats.wall_time_ns <= u128::MAX
            - self.total_wall_time_ns
    }
}

/// The editor of finished dialogs.
#[derive(Debug)]
pub struct PodcastEditor {
    ollama: OllamaClient,
}

impl PodcastEditor {
    /// The gateway settings of the editor.
    pub closed spec fn gateway(&self) -> OllamaClient {
        self.ollama
    }

    /// An editor that asks the model of `ollama`.
    pub fn new(ollama: OllamaClient) -> (editor: PodcastEditor)
        ensures
            editor.gateway() == ollama,
    {
        PodcastEditor { ollama }
    }

    /// The gateway settings of the editor.
    pub fn ollama(&self) -> (ollama: &OllamaClient)
        ensures
            *ollama == self.gateway(),
    {
        &self.ollama
    }

    /// The instructions for the model that edits a script.
    pub fn system_prompt() -> (prompt: &'static str)
        ensures
            prompt@ == editor_system_prompt_text(),
    {
        "You are an expert podcast editor with years of experience making conversations more engaging and natural-sounding.\n\nYour goal is to edit podcast scripts so that:\n- Listeners stay engaged and come back for more episodes\n- The conversation flows naturally with good pacing\n- Each speaker has a distinct, consistent voice\n- The dialog feels authentic, not scripted\n- Awkward phrasings are smoothed out\n- Repetitive content is trimmed or varied\n- The energy and momentum build appropriately\n\nEdit the following podcast script. Preserve the speaker names and format (SPEAKER: dialog).\nMake it tighter, more engaging, and more natural. Keep the same general content and meaning, but improve the delivery."
    }

    /// The messages that ask the model to edit `dialog`: one message of
    /// the user, with the script of the transcript.
    pub fn edit_request(&self, dialog: &GeneratedDialog) -> (messages: Vec<ChatMessage>)
        ensures
            messages@.len() == 1,
            messages@[0].role@ == "user"@,
            messages@[0].content@ == edit_prompt_text(exchange_views(dialog.exchanges@)),
    {
        let script = dialog.script();
        let body = string_of(&trimmed(&chars_of(script.as_str())));
        let content = String::from_str("Edit this podcast script:\n\n").concat(body.as_str());
        let mut messages: Vec<ChatMessage> = Vec::new();
        messages.push(ChatMessage { role: String::from_str("user"), content });
        messages
    }

    /// Reads an edited script back into exchanges: its dialog lines, in
    /// order, where a speaker name has fewer than [`SPEAKER_NAME_LIMIT`]
    /// characters. Other lines are passed over.
    pub fn parse_script(&self, script: &str) -> (exchanges: Vec<DialogExchange>)
        ensures
            exchange_views(exchanges@) == script_lines(script@, Some(SPEAKER_NAME_LIMIT)),
    {
        let lines = lines_of(&chars_of(script));
        let read = read_dialog_lines(&lines, Some(SPEAKER_NAME_LIMIT));
        let mut exchanges: Vec<DialogExchange> = Vec::new();
        let mut i: usize = 0;
        while i < read.len()
            invariant
                i <= read.len(),
                exchanges@.len() == i,
                forall|j: int| 0 <= j < i ==> (#[trigger] exchanges@[j])@ == read@[j]@,
            decreases read.len() - i,
        {
            exchanges.push(
                DialogExchange {
                    speaker: read[i].speaker.clone(),
                    content: read[i].content.clone(),
                },
            );
            i += 1;
        }
        assert(exchange_views(exchanges@) =~= line_views(read@));
        exchanges
    }

    /// The edited dialog: the exchanges of the script that the model
    /// returned in `result`, under the model name marked as edited, with
    /// as many turns as there are exchanges now, the cost of the editing
    /// call added to the totals, and the average rate of the dialog as it was.
    pub fn edit(&self, dialog: &GeneratedDialog, result: &ChatResult) -> (out: GeneratedDialog)
        requires
            dialog.metadata.has_room_for(result.stats),
        ensures
            exchange_views(out.exchanges@) == script_lines(
                result.content@,
                Some(SPEAKER_NAME_LIMIT),
            ),
            out.metadata.model@ == dialog.metadata.model@ + " (edited)"@,
            out.metadata.turns == out.exchanges@.len(),
            option_text(out.metadata.temperature) == option_text(dialog.metadata.temperature),
            out.metadata.total_prompt_tokens == dialog.metadata.total_prompt_tokens
                + result.stats.prompt_tokens,
            out.metadata.total_completion_tokens == dialog.metadata.total_completion_tokens
                + result.stats.completion_tokens,
            out.metadata.total_wall_time_ns == dialog.metadata.total_wall_time_ns
                + result.stats.wall_time_ns,
            out.metadata.avg_tokens_per_second == dialog.metadata.avg_tokens_per_second,
    {
        let exchanges = self.parse_script(result.content.as_str());
        let metadata = GenerationMetadata {
            model: dialog.metadata.model.clone().concat(" (edited)"),
            turns: exchanges.len(),
            temperature: match &dialog.metadata.temperature {
                Some(t) => Some(t.clone()),
                None => None,
            },
            total_prompt_tokens: dialog.metadata.total_prompt_tokens + result.stats.prompt_tokens,
            total_completion_tokens: dialog.metadata.total_completion_tokens
                + result.stats.completion_tokens,
            total_wall_time_ns: dialog.metadata.total_wall_time_ns + result.stats.wall_time_ns,
            avg_tokens_per_second: dialog.metadata.avg_tokens_per_second,
        };
        GeneratedDialog { exchanges, metadata }
    }
}

} // verus!
