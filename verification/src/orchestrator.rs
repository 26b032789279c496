//! The turn-taking engine: who speaks next, what the model is asked, and
//! how its reply joins the transcript.
//!
//! The engine does not call the model. It is a state machine: from a
//! [`Generation`] it gives the prompt of the next turn, and with the reply
//! to that prompt it moves on. The caller carries the prompt to the model
//! and the reply back.

use crate::config::{line_views, option_text, DialogConfig, Directions, Speaker};
use crate::error::DialogGenError;
use crate::ollama::{ChatMessage, ChatResult, ChatStats, OllamaClient, TokenRate};
use crate::sanitize::{clean, sanitize};
use crate::script::{script_text, Utterance};
use crate::text::{chars_of, string_of};
use vstd::prelude::*;
use vstd::string::StringExecFns;

verus! {

/// One of the two places in the speaker registry.
#[derive(Debug, Clone, Copy, PartialEq, Eq, Structural)]
pub enum Slot {
    First,
    Second,
}

/// One line of the transcript: who spoke, and what was said.
#[derive(Debug)]
pub struct DialogExchange {
    pub speaker: String,
    pub content: String,
}

impl Clone for DialogExchange {
    fn clone(&self) -> (copy: DialogExchange)
        ensures
            copy == *self,
    {
        DialogExchange { speaker: self.speaker.clone(), content: self.content.clone() }
    }
}

impl View for DialogExchange {
    type V = Utterance;

    open spec fn view(&self) -> Utterance {
        Utterance { speaker: self.speaker@, content: self.content@ }
    }
}

/// What a sequence of exchanges says.
pub open spec fn exchange_views(exchanges: Seq<DialogExchange>) -> Seq<Utterance> {
    Seq::new(exchanges.len(), |i: int| exchanges[i]@)
}

/// One message of a chat, as text.
pub struct MessageView {
    pub role: Seq<char>,
    pub content: Seq<char>,
}

impl View for ChatMessage {
    type V = MessageView;

    open spec fn view(&self) -> MessageView {
        MessageView { role: self.role@, content: self.content@ }
    }
}

/// What a sequence of messages says.
pub open spec fn message_views(messages: Seq<ChatMessage>) -> Seq<MessageView> {
    Seq::new(messages.len(), |i: int| messages[i]@)
}

/// What a run cost and how it was set up. The sampling temperature is
/// held as the scene file writes it, and the average rate as the tokens
/// and the time that it is the quotient of.
#[derive(Debug)]
pub struct GenerationMetadata {
    pub model: String,
    pub turns: usize,
    pub temperature: Option<String>,
    pub total_prompt_tokens: u64,
    pub total_completion_tokens: u64,
    pub total_wall_time_ns: u128,
    pub avg_tokens_per_second: TokenRate,
}

/// The finished transcript of a run with its metadata.
#[derive(Debug)]
pub struct GeneratedDialog {
    pub exchanges: Vec<DialogExchange>,
    pub metadata: GenerationMetadata,
}

impl GeneratedDialog {
    /// The transcript as a script.
    pub fn script(&self) -> (script: String)
        ensures
            script@ == script_text(exchange_views(self.exchanges@)),
    {
        let ghost all = exchange_views(self.exchanges@);
        let mut script = String::new();
        let mut i: usize = 0;
        assert(all.take(0) =~= Seq::<Utterance>::empty());
        while i < self.exchanges.len()
            invariant
                i <= self.exchanges.len(),
                all == exchange_views(self.exchanges@),
                script@ == script_text(all.take(i as int)),
            decreases self.exchanges.len() - i,
        {
            let ghost upto = all.take(i + 1);
            assert(upto.drop_last() =~= all.take(i as int));
            assert(upto.last() == self.exchanges@[i as int]@);
            let e = &self.exchanges[i];
            script = script.concat(e.speaker.as_str()).concat(": ").concat(
                e.content.as_str(),
            ).concat("

");
            i += 1;
        }
        assert(all.take(self.exchanges.len() as int) =~= all);
        script
    }
}

/// The role under which a line by `speaker` is shown to the model when
/// `current` is about to speak: its own lines as the assistant's, all
/// others as the user's.
pub open spec fn role_for(speaker: Seq<char>, current: Seq<char>) -> Seq<char> {
    if speaker == current {
        "assistant"@
    } else {
        "user"@
    }
}

/// The transcript as the speaker `current` sees it: every line in its
/// place, under the role that it has for this speaker.
pub open spec fn history_for(transcript: Seq<Utterance>, current: Seq<char>) -> Seq<MessageView> {
    Seq::new(
        transcript.len(),
        |i: int|
            MessageView {
                role: role_for(transcript[i].speaker, current),
                content: transcript[i].content,
            },
    )
}

/// The instructions that tell the model to speak as `speaker` to `other`
/// in the scene of `directions`, with one short sentence.
pub open spec fn system_prompt_text(speaker: Speaker, other: Speaker, directions: Directions) -> Seq<
    char,
> {
    "You are "@ + speaker.name@ + " talking to "@ + other.name@ + ".\n\n"@ + speaker.name@ + ": "@
        + speaker.background@ + " "@ + speaker.personality@ + " "@ + speaker.speaking_style@
        + "\n\nScene: "@ + directions.scene_name@ + ". "@ + directions.setting@ + "\n"@
        + directions.notes@
        + "\n\nRESPOND WITH EXACTLY ONE SHORT SENTENCE. Either a statement OR a question, never both. No followup. Just react to what "@
        + other.name@ + " said."@
}

impl DialogConfig {
    /// The speaker in `slot`.
    pub open spec fn speaker(&self, slot: Slot) -> Speaker {
        match slot {
            Slot::First => self.speaker1,
            Slot::Second => self.speaker2,
        }
    }

    /// The name of the speaker in `slot`.
    pub open spec fn name(&self, slot: Slot) -> Seq<char> {
        self.speaker(slot).name@
    }

    /// The opening lines.
    pub open spec fn seed(&self) -> Seq<Utterance> {
        line_views(self.initial_lines@)
    }

    /// Who speaks after a line by `last`: the second speaker after the
    /// first, the first after the second, and the second speaker where
    /// nobody has spoken or the name is neither's.
    pub open spec fn speaker_after(&self, last: Option<Seq<char>>) -> Slot {
        match last {
            Some(name) => if name == self.name(Slot::First) {
                Slot::Second
            } else if name == self.name(Slot::Second) {
                Slot::First
            } else {
                Slot::Second
            },
            None => Slot::Second,
        }
    }

    /// Who takes the first turn: the speaker after the last opening line.
    pub open spec fn first_speaker(&self) -> Slot {
        if self.seed().len() > 0 {
            self.speaker_after(Some(self.seed().last().speaker))
        } else {
            self.speaker_after(None)
        }
    }

    /// The place of the speaker that answers the speaker named `name`, if
    /// that is the name of one of the two.
    pub open spec fn other_of(&self, name: Seq<char>) -> Option<Slot> {
        if name == self.name(Slot::First) {
            Some(Slot::Second)
        } else if name == self.name(Slot::Second) {
            Some(Slot::First)
        } else {
            None
        }
    }

    /// The place of the speaker that answers the speaker in `slot`.
    pub open spec fn counterpart(&self, slot: Slot) -> Slot {
        self.other_of(self.name(slot))->0
    }

    /// Whether the two speakers can be told apart by their names.
    pub open spec fn has_distinct_speakers(&self) -> bool {
        self.name(Slot::First) != self.name(Slot::Second)
    }
}

/// The state of a run, as text and numbers: the transcript so far, who
/// speaks next, how many turns were taken, and what the calls cost.
pub struct GenerationView {
    pub transcript: Seq<Utterance>,
    pub current: Slot,
    pub turns_done: nat,
    pub prompt_tokens: nat,
    pub completion_tokens: nat,
    pub wall_time_ns: nat,
    pub eval_ns: nat,
}

impl DialogConfig {
    /// The state before the first turn: the opening lines, and nothing
    /// spent.
    pub open spec fn start(&self) -> GenerationView {
        GenerationView {
            transcript: self.seed(),
            current: self.first_speaker(),
            turns_done: 0,
            prompt_tokens: 0,
            completion_tokens: 0,
            wall_time_ns: 0,
            eval_ns: 0,
        }
    }

    /// The state after the turn that the model answered with `reply`: the
    /// sanitized reply joins the transcript under the name of the speaker
    /// whose turn it was, the cost of the call is added, and the other
    /// speaker is next.
    pub open spec fn step(&self, g: GenerationView, reply: ChatResult) -> GenerationView {
        GenerationView {
            transcript: g.transcript.push(
                Utterance {
                    speaker: self.name(g.current),
                    content: sanitize(reply.content@, self.name(g.current)),
                },
            ),
            current: self.counterpart(g.current),
            turns_done: g.turns_done + 1,
            prompt_tokens: g.prompt_tokens + reply.stats.prompt_tokens as nat,
            completion_tokens: g.completion_tokens + reply.stats.completion_tokens as nat,
            wall_time_ns: g.wall_time_ns + reply.stats.wall_time_ns as nat,
            eval_ns: g.eval_ns + reply.stats.eval_duration_ns as nat,
        }
    }

    /// The state after the turns that the model answered with `replies`,
    /// in this order.
    pub open spec fn run(&self, replies: Seq<ChatResult>) -> GenerationView
        decreases replies.len(),
    {
        if replies.len() == 0 {
            self.start()
        } else {
            self.step(self.run(replies.drop_last()), replies.last())
        }
    }

    /// The speaker of the turn with the number `turn`, counted from zero.
    pub open spec fn speaker_of_turn(&self, turn: nat) -> Slot
        decreases turn,
    {
        if turn == 0 {
            self.first_speaker()
        } else {
            self.counterpart(self.speaker_of_turn((turn - 1) as nat))
        }
    }
}

/// A run in progress: the transcript so far, who speaks next, how many
/// turns were taken, and what the calls have cost.
#[derive(Debug)]
pub struct Generation {
    exchanges: Vec<DialogExchange>,
    current: Slot,
    turns_done: usize,
    total_prompt_tokens: u64,
    total_completion_tokens: u64,
    total_wall_time_ns: u128,
    total_eval_ns: u64,
}

impl View for Generation {
    type V = GenerationView;

    closed spec fn view(&self) -> GenerationView {
        GenerationView {
            transcript: exchange_views(self.exchanges@),
            current: self.current,
            turns_done: self.turns_done as nat,
            prompt_tokens: self.total_prompt_tokens as nat,
            completion_tokens: self.total_completion_tokens as nat,
            wall_time_ns: self.total_wall_time_ns as nat,
            eval_ns: self.total_eval_ns as nat,
        }
    }
}

impl Generation {
    /// The transcript so far.
    pub fn exchanges(&self) -> (exchanges: &Vec<DialogExchange>)
        ensures
            exchange_views(exchanges@) == self@.transcript,
    {
        &self.exchanges
    }

    /// The number of turns taken.
    pub fn turns_done(&self) -> (n: usize)
        ensures
            n == self@.turns_done,
    {
        self.turns_done
    }

    /// Whether the totals have room for the statistics `stats` of one
    /// more call.
    pub open spec fn has_room_for(&self, stats: ChatStats) -> bool {
        &&& self@.prompt_tokens + stats.prompt_tokens <= u64::MAX
        &&& self@.completion_tokens + stats.completion_tokens <= u64::MAX
        &&& self@.wall_time_ns + stats.wall_time_ns <= u128::MAX
        &&& self@.eval_ns + stats.eval_duration_ns <= u64::MAX
    }

    /// Decides [`Generation::has_room_for`].
    pub fn room_for(&self, stats: &ChatStats) -> (room: bool)
        ensures
            room == self.has_room_for(*stats),
    {
        stats.prompt_tokens <= u64::MAX - self.total_prompt_tokens && stats.completion_tokens
            <= u64::MAX - self.total_completion_tokens && stats.wall_time_ns <= u128::MAX
            - self.total_wall_time_ns && stats.eval_duration_ns <= u64::MAX - self.total_eval_ns
    }
}

/// What the model is asked in one turn.
#[derive(Debug)]
pub struct TurnPrompt {
    /// The number of the turn, counted from zero.
    pub turn: usize,
    /// The name of the speaker whose turn it is.
    pub speaker: String,
    /// The instructions for the model.
    pub system_prompt: String,
    /// The transcript as this speaker sees it.
    pub messages: Vec<ChatMessage>,
}

/// The engine of one configured dialog.
#[derive(Debug)]
pub struct DialogOrchestrator {
    ollama: OllamaClient,
    config: DialogConfig,
}

impl DialogOrchestrator {
    /// The configuration of the run.
    pub closed spec fn configuration(&self) -> DialogConfig {
        self.config
    }

    /// The gateway settings of the run.
    pub closed spec fn gateway(&self) -> OllamaClient {
        self.ollama
    }

    /// An engine for the dialog that `config` describes, with the model of
    /// `ollama`.
    pub fn new(ollama: OllamaClient, config: DialogConfig) -> (orchestrator: DialogOrchestrator)
        ensures
            orchestrator.configuration() == config,
            orchestrator.gateway() == ollama,
    {
        DialogOrchestrator { ollama, config }
    }

    /// The configuration of the run.
    pub fn config(&self) -> (config: &DialogConfig)
        ensures
            *config == self.configuration(),
    {
        &self.config
    }

    /// The gateway settings of the run.
    pub fn ollama(&self) -> (ollama: &OllamaClient)
        ensures
            *ollama == self.gateway(),
    {
        &self.ollama
    }

    fn speaker_in(&self, slot: Slot) -> (speaker: &Speaker)
        ensures
            *speaker == self.config.speaker(slot),
    {
        match slot {
            Slot::First => &self.config.speaker1,
            Slot::Second => &self.config.speaker2,
        }
    }

    fn slot_after(&self, last_speaker: Option<&str>) -> (slot: Slot)
        ensures
            slot == self.config.speaker_after(
                match last_speaker {
                    Some(name) => Some(name@),
                    None => None,
                },
            ),
    {
        match last_speaker {
            Some(name) => {
                let n = String::from_str(name);
                if n == self.config.speaker1.name {
                    Slot::Second
                } else if n == self.config.speaker2.name {
                    Slot::First
                } else {
                    Slot::Second
                }
            },
            None => Slot::Second,
        }
    }

    fn slot_other(&self, name: &String) -> (slot: Option<Slot>)
        ensures
            slot == self.config.other_of(name@),
    {
        if *name == self.config.speaker1.name {
            Some(Slot::Second)
        } else if *name == self.config.speaker2.name {
            Some(Slot::First)
        } else {
            None
        }
    }

    /// The instructions that tell the model to speak as `speaker` to
    /// `other_speaker` in the configured scene.
    pub fn build_system_prompt(&self, speaker: &Speaker, other_speaker: &Speaker) -> (prompt:
        String)
        ensures
            prompt@ == system_prompt_text(
                *speaker,
                *other_speaker,
                self.configuration().directions,
            ),
    {
        let d = &self.config.directions;
        String::from_str("You are ").concat(speaker.name.as_str()).concat(" talking to ").concat(
            other_speaker.name.as_str(),
        ).concat(".\n\n").concat(speaker.name.as_str()).concat(": ").concat(
            speaker.background.as_str(),
        ).concat(" ").concat(speaker.personality.as_str()).concat(" ").concat(
            speaker.speaking_style.as_str(),
        ).concat("\n\nScene: ").concat(d.scene_name.as_str()).concat(". ").concat(
            d.setting.as_str(),
        ).concat("\n").concat(d.notes.as_str()).concat(
            "\n\nRESPOND WITH EXACTLY ONE SHORT SENTENCE. Either a statement OR a question, never both. No followup. Just react to what ",
        ).concat(other_speaker.name.as_str()).concat(" said.")
    }

    /// The speaker that answers `speaker`: the second for the name of the
    /// first, the first for the name of the second, and nobody for a name
    /// that is neither's.
    pub fn get_other_speaker(&self, speaker: &Speaker) -> (other: Option<&Speaker>)
        ensures
            match self.configuration().other_of(speaker.name@) {
                Some(slot) => other matches Some(o) && *o == self.configuration().speaker(slot),
                None => other is None,
            },
    {
        match self.slot_other(&speaker.name) {
            Some(slot) => Some(self.speaker_in(slot)),
            None => None,
        }
    }

    /// The conversation so far as `current_speaker` sees it: every
    /// exchange in its place, the speaker's own lines as the assistant's
    /// and all others as the user's.
    pub fn build_conversation_history(
        &self,
        current_speaker: &Speaker,
        exchanges: &[DialogExchange],
    ) -> (messages: Vec<ChatMessage>)
        ensures
            message_views(messages@) == history_for(
                exchange_views(exchanges@),
                current_speaker.name@,
            ),
    {
        let mut messages: Vec<ChatMessage> = Vec::new();
        let mut i: usize = 0;
        while i < exchanges.len()
            invariant
                i <= exchanges.len(),
                messages@.len() == i,
                forall|j: int|
                    0 <= j < i ==> (#[trigger] messages@[j]).role@ == role_for(
                        exchanges@[j].speaker@,
                        current_speaker.name@,
                    ) && messages@[j].content@ == exchanges@[j].content@,
            decreases exchanges.len() - i,
        {
            let role = if exchanges[i].speaker == current_speaker.name {
                String::from_str("assistant")
            } else {
                String::from_str("user")
            };
            messages.push(ChatMessage { role, content: exchanges[i].content.clone() });
            i += 1;
        }
        assert(message_views(messages@) =~= history_for(
            exchange_views(exchanges@),
            current_speaker.name@,
        ));
        messages
    }

    /// Who speaks after a line by `last_speaker`.
    pub fn get_next_speaker(&self, last_speaker: Option<&str>) -> (next: &Speaker)
        ensures
            *next == self.configuration().speaker(
                self.configuration().speaker_after(
                    match last_speaker {
                        Some(name) => Some(name@),
                        None => None,
                    },
                ),
            ),
    {
        self.speaker_in(self.slot_after(last_speaker))
    }

    /// The clean utterance that the raw reply `response` of the speaker
    /// `speaker_name` stands for.
    pub fn clean_response(&self, response: &str, speaker_name: &str) -> (cleaned: String)
        ensures
            cleaned@ == sanitize(response@, speaker_name@),
    {
        string_of(&clean(&chars_of(response), &chars_of(speaker_name)))
    }

    /// Begins a run: the transcript holds the opening lines, and the
    /// speaker after the last of them is next.
    pub fn begin(&self) -> (g: Generation)
        ensures
            g@ == self.configuration().start(),
    {
        let lines = &self.config.initial_lines;
        let mut exchanges: Vec<DialogExchange> = Vec::new();
        let mut i: usize = 0;
        while i < lines.len()
            invariant
                i <= lines.len(),
                exchanges@.len() == i,
                forall|j: int| 0 <= j < i ==> (#[trigger] exchanges@[j])@ == lines@[j]@,
            decreases lines.len() - i,
        {
            exchanges.push(
                DialogExchange {
                    speaker: lines[i].speaker.clone(),
                    content: lines[i].content.clone(),
                },
            );
            i += 1;
        }
        assert(exchange_views(exchanges@) =~= line_views(lines@));
        let current = if lines.len() > 0 {
            self.slot_after(Some(lines[lines.len() - 1].speaker.as_str()))
        } else {
            self.slot_after(None)
        };
        Generation {
            exchanges,
            current,
            turns_done: 0,
            total_prompt_tokens: 0,
            total_completion_tokens: 0,
            total_wall_time_ns: 0,
            total_eval_ns: 0,
        }
    }

    /// Whether the run `g` has turns left.
    pub open spec fn has_turn_left(&self, g: Generation) -> bool {
        g@.turns_done < self.configuration().scene.turns
    }

    /// What the model is asked next: nothing once the configured number of
    /// turns is taken; before that, the prompt for the speaker whose turn
    /// it is, with the transcript so far as that speaker sees it.
    pub fn next_prompt(&self, g: &Generation) -> (prompt: Option<TurnPrompt>)
        ensures
            prompt is Some <==> self.has_turn_left(*g),
            prompt matches Some(p) ==> {
                let config = self.configuration();
                &&& p.turn == g@.turns_done
                &&& p.speaker@ == config.name(g@.current)
                &&& p.system_prompt@ == system_prompt_text(
                    config.speaker(g@.current),
                    config.speaker(config.counterpart(g@.current)),
                    config.directions,
                )
                &&& message_views(p.messages@) == history_for(
                    g@.transcript,
                    config.name(g@.current),
                )
            },
    {
        if g.turns_done >= self.config.scene.turns {
            return None;
        }
        let speaker = self.speaker_in(g.current);
        let other = match self.slot_other(&speaker.name) {
            Some(slot) => self.speaker_in(slot),
            None => speaker,
        };
        let system_prompt = self.build_system_prompt(speaker, other);
        let messages = self.build_conversation_history(speaker, g.exchanges.as_slice());
        Some(TurnPrompt { turn: g.turns_done, speaker: speaker.name.clone(), system_prompt, messages })
    }

    /// Takes the reply to the prompt of the current turn: its sanitized
    /// text joins the transcript under the current speaker's name, its
    /// statistics are added to the totals, and the other speaker is next.
    pub fn accept(&self, g: &mut Generation, result: &ChatResult)
        requires
            self.has_turn_left(*old(g)),
            old(g).has_room_for(result.stats),
        ensures
            final(g)@ == self.configuration().step(old(g)@, *result),
    {
        let speaker = self.speaker_in(g.current);
        let cleaned = self.clean_response(result.content.as_str(), speaker.name.as_str());
        let next = match self.slot_other(&speaker.name) {
            Some(slot) => slot,
            None => g.current,
        };
        let exchange = DialogExchange { speaker: speaker.name.clone(), content: cleaned };
        assert(exchange_views(g.exchanges@.push(exchange)) =~= exchange_views(g.exchanges@).push(
            exchange@,
        ));
        g.exchanges.push(exchange);
        g.current = next;
        g.turns_done = g.turns_done + 1;
        g.total_prompt_tokens = g.total_prompt_tokens + result.stats.prompt_tokens;
        g.total_completion_tokens = g.total_completion_tokens + result.stats.completion_tokens;
        g.total_wall_time_ns = g.total_wall_time_ns + result.stats.wall_time_ns;
        g.total_eval_ns = g.total_eval_ns + result.stats.eval_duration_ns;
    }

    /// Moves a run on by what came of the model call of the current turn.
    /// A reply is taken as [`DialogOrchestrator::accept`] takes it. A
    /// failure ends the run: it is handed on as it is, and nothing of the
    /// transcript is returned.
    pub fn advance(&self, g: Generation, outcome: Result<ChatResult, DialogGenError>) -> (r: Result<
        Generation,
        DialogGenError,
    >)
        requires
            self.has_turn_left(g),
            outcome matches Ok(result) ==> g.has_room_for(result.stats),
        ensures
            match outcome {
                Ok(result) => r matches Ok(next) && next@ == self.configuration().step(g@, result),
                Err(e) => r == Err::<Generation, DialogGenError>(e),
            },
    {
        match outcome {
            Ok(result) => {
                let mut next = g;
                self.accept(&mut next, &result);
                Ok(next)
            },
            Err(e) => Err(e),
        }
    }

    /// Ends a run: the transcript, with the model, the configured number
    /// of turns, the totals, and the average rate as the completion tokens
    /// over the evaluation time of all calls.
    pub fn finish(&self, g: Generation) -> (dialog: GeneratedDialog)
        ensures
            exchange_views(dialog.exchanges@) == g@.transcript,
            dialog.metadata.model@ == self.gateway().model_name(),
            dialog.metadata.turns == self.configuration().scene.turns,
            option_text(dialog.metadata.temperature) == option_text(
                self.configuration().scene.temperature,
            ),
            dialog.metadata.total_prompt_tokens == g@.prompt_tokens,
            dialog.metadata.total_completion_tokens == g@.completion_tokens,
            dialog.metadata.total_wall_time_ns == g@.wall_time_ns,
            dialog.metadata.avg_tokens_per_second.tokens == g@.completion_tokens,
            dialog.metadata.avg_tokens_per_second.nanos == g@.eval_ns,
    {
        let metadata = GenerationMetadata {
            model: String::from_str(self.ollama.model()),
            turns: self.config.scene.turns,
            temperature: match &self.config.scene.temperature {
                Some(t) => Some(t.clone()),
                None => None,
            },
            total_prompt_tokens: g.total_prompt_tokens,
            total_completion_tokens: g.total_completion_tokens,
            total_wall_time_ns: g.total_wall_time_ns,
            avg_tokens_per_second: TokenRate {
                tokens: g.total_completion_tokens,
                nanos: g.total_eval_ns,
            },
        };
        GeneratedDialog { exchanges: g.exchanges, metadata }
    }
}

/// The prompt tokens that the calls `replies` report, added up.
pub open spec fn sum_prompt_tokens(replies: Seq<ChatResult>) -> nat
    decreases replies.len(),
{
    if replies.len() == 0 {
        0
    } else {
        sum_prompt_tokens(replies.drop_last()) + replies.last().stats.prompt_tokens as nat
    }
}

/// The completion tokens that the calls `replies` report, added up.
pub open spec fn sum_completion_tokens(replies: Seq<ChatResult>) -> nat
    decreases replies.len(),
{
    if replies.len() == 0 {
        0
    } else {
        sum_completion_tokens(replies.drop_last()) + replies.last().stats.completion_tokens as nat
    }
}

/// The evaluation times that the calls `replies` report, added up.
pub open spec fn sum_eval_ns(replies: Seq<ChatResult>) -> nat
    decreases replies.len(),
{
    if replies.len() == 0 {
        0
    } else {
        sum_eval_ns(replies.drop_last()) + replies.last().stats.eval_duration_ns as nat
    }
}

/// The measured times of the calls `replies`, added up.
pub open spec fn sum_wall_time_ns(replies: Seq<ChatResult>) -> nat
    decreases replies.len(),
{
    if replies.len() == 0 {
        0
    } else {
        sum_wall_time_ns(replies.drop_last()) + replies.last().stats.wall_time_ns as nat
    }
}

/// One more reply is one more step: the state after the replies
/// `replies` and then `reply` is the step with `reply` from the state
/// after `replies`.
pub proof fn lemma_run_step(config: DialogConfig, replies: Seq<ChatResult>, reply: ChatResult)
    ensures
        config.run(replies.push(reply)) == config.step(config.run(replies), reply),
{
    assert(replies.push(reply).drop_last() =~= replies);
}

/// After any number of turns the transcript begins with the opening
/// lines, unchanged, and holds one more line for each turn taken.
pub proof fn lemma_transcript_extends_seed(config: DialogConfig, replies: Seq<ChatResult>)
    ensures
        config.run(replies).turns_done == replies.len(),
        config.run(replies).transcript.len() == config.seed().len() + replies.len(),
        config.run(replies).transcript.take(config.seed().len() as int) == config.seed(),
    decreases replies.len(),
{
    let seed = config.seed();
    if replies.len() == 0 {
        assert(seed.take(seed.len() as int) =~= seed);
    } else {
        let before = config.run(replies.drop_last());
        lemma_transcript_extends_seed(config, replies.drop_last());
        assert(config.run(replies).transcript.take(seed.len() as int) =~= before.transcript.take(
            seed.len() as int,
        ));
    }
}

/// A turn leaves the lines before it as they are: the transcript after
/// fewer turns is the beginning of the transcript after more.
pub proof fn lemma_transcript_is_append_only(
    config: DialogConfig,
    replies: Seq<ChatResult>,
    turns: int,
)
    requires
        0 <= turns <= replies.len(),
    ensures
        config.run(replies.take(turns)).transcript == config.run(replies).transcript.take(
            config.seed().len() + turns,
        ),
    decreases replies.len(),
{
    lemma_transcript_extends_seed(config, replies);
    if turns == replies.len() {
        assert(replies.take(turns) =~= replies);
        let t = config.run(replies).transcript;
        assert(t.take(t.len() as int) =~= t);
    } else {
        let shorter = replies.drop_last();
        lemma_transcript_is_append_only(config, shorter, turns);
        lemma_transcript_extends_seed(config, shorter);
        assert(shorter.take(turns) =~= replies.take(turns));
        assert(config.run(shorter).transcript.take(config.seed().len() + turns)
            =~= config.run(replies).transcript.take(config.seed().len() + turns));
    }
}

/// The line of every turn is the sanitized reply of that turn, under the
/// name of the speaker whose turn it was; and after the turns the next
/// speaker in the alternation is up.
pub proof fn lemma_turn_lines(config: DialogConfig, replies: Seq<ChatResult>)
    ensures
        config.run(replies).current == config.speaker_of_turn(replies.len()),
        forall|k: int|
            0 <= k < replies.len() ==> {
                let line = #[trigger] config.run(replies).transcript[config.seed().len() + k];
                let name = config.name(config.speaker_of_turn(k as nat));
                line.speaker == name && line.content == sanitize(replies[k].content@, name)
            },
    decreases replies.len(),
{
    if replies.len() > 0 {
        let shorter = replies.drop_last();
        lemma_turn_lines(config, shorter);
        lemma_transcript_extends_seed(config, shorter);
        let before = config.run(shorter);
        let after = config.run(replies);
        assert forall|k: int| 0 <= k < replies.len() implies {
            let line = #[trigger] after.transcript[config.seed().len() + k];
            let name = config.name(config.speaker_of_turn(k as nat));
            line.speaker == name && line.content == sanitize(replies[k].content@, name)
        } by {
            if k < shorter.len() {
                assert(after.transcript[config.seed().len() + k]
                    == before.transcript[config.seed().len() + k]);
                assert(shorter[k] == replies[k]);
            }
        }
    }
}

/// Where the two speakers have different names, two turns in a row are
/// never taken under the same name.
pub proof fn lemma_speakers_alternate(config: DialogConfig, replies: Seq<ChatResult>, i: int)
    requires
        config.has_distinct_speakers(),
        config.seed().len() <= i,
        i + 1 < config.seed().len() + replies.len(),
    ensures
        config.run(replies).transcript[i].speaker != config.run(replies).transcript[i
            + 1].speaker,
{
    lemma_turn_lines(config, replies);
    let k = i - config.seed().len();
    let t = config.run(replies).transcript;
    assert(t[config.seed().len() + k].speaker == config.name(config.speaker_of_turn(k as nat)));
    assert(t[config.seed().len() + (k + 1)].speaker == config.name(
        config.speaker_of_turn((k + 1) as nat),
    ));
    assert(config.speaker_of_turn((k + 1) as nat) == config.counterpart(
        config.speaker_of_turn(k as nat),
    ));
}

/// Where the two speakers have different names, the first turn is taken
/// by the speaker who did not say the last opening line.
pub proof fn lemma_first_turn_answers_seed(config: DialogConfig)
    requires
        config.has_distinct_speakers(),
        config.seed().len() > 0,
    ensures
        config.name(config.first_speaker()) != config.seed().last().speaker,
{
}

/// Every line that a turn adds is said by one of the two speakers.
pub proof fn lemma_turns_are_by_speakers(config: DialogConfig, replies: Seq<ChatResult>, i: int)
    requires
        config.seed().len() <= i < config.seed().len() + replies.len(),
    ensures
        config.run(replies).transcript[i].speaker == config.name(Slot::First) || config.run(
            replies,
        ).transcript[i].speaker == config.name(Slot::Second),
{
    lemma_turn_lines(config, replies);
    let k = i - config.seed().len();
    assert(config.run(replies).transcript[config.seed().len() + k].speaker == config.name(
        config.speaker_of_turn(k as nat),
    ));
}

/// For two different names and a transcript whose lines are all said
/// under one of them, the transcript as the one speaker sees it and as
/// the other sees it have the same length and the same text in every
/// place, and opposite roles: where the one has the assistant, the other
/// has the user, and the other way round.
pub proof fn lemma_roles_are_complementary(transcript: Seq<Utterance>, a: Seq<char>, b: Seq<char>)
    requires
        a != b,
        forall|i: int|
            0 <= i < transcript.len() ==> (#[trigger] transcript[i]).speaker == a
                || transcript[i].speaker == b,
    ensures
        "assistant"@ != "user"@,
        history_for(transcript, a).len() == history_for(transcript, b).len(),
        forall|i: int|
            0 <= i < transcript.len() ==> {
                let for_a = #[trigger] history_for(transcript, a)[i];
                let for_b = history_for(transcript, b)[i];
                &&& for_a.content == for_b.content
                &&& for_a.role == "assistant"@ || for_a.role == "user"@
                &&& for_a.role == "assistant"@ <==> for_b.role == "user"@
                &&& for_a.role == "user"@ <==> for_b.role == "assistant"@
            },
{
    reveal_strlit("assistant");
    reveal_strlit("user");
    assert("assistant"@.len() != "user"@.len());
    assert forall|i: int| 0 <= i < transcript.len() implies {
        let for_a = #[trigger] history_for(transcript, a)[i];
        let for_b = history_for(transcript, b)[i];
        &&& for_a.content == for_b.content
        &&& for_a.role == "assistant"@ || for_a.role == "user"@
        &&& for_a.role == "assistant"@ <==> for_b.role == "user"@
        &&& for_a.role == "user"@ <==> for_b.role == "assistant"@
    } by {
        assert(transcript[i].speaker == a || transcript[i].speaker == b);
    }
}

/// The totals of a run are the sums of what its calls report.
pub proof fn lemma_totals_are_sums(config: DialogConfig, replies: Seq<ChatResult>)
    ensures
        config.run(replies).prompt_tokens == sum_prompt_tokens(replies),
        config.run(replies).completion_tokens == sum_completion_tokens(replies),
        config.run(replies).eval_ns == sum_eval_ns(replies),
        config.run(replies).wall_time_ns == sum_wall_time_ns(replies),
    decreases replies.len(),
{
    if replies.len() > 0 {
        lemma_totals_are_sums(config, replies.drop_last());
    }
}

} // verus!
