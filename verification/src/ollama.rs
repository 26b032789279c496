//! The model call gateway: what is asked of the chat endpoint, and what
//! its answer means. Sending the request is the caller's part.

use crate::decimal::decimal_text;
use crate::error::DialogGenError;
use crate::text::{chars_of, slice, string_of};
use vstd::prelude::*;
use vstd::string::StringExecFns;

verus! {

/// One message of a chat: who says it (`"system"`, `"user"` or
/// `"assistant"`), and what is said.
#[derive(Debug)]
pub struct ChatMessage {
    pub role: String,
    pub content: String,
}

impl Clone for ChatMessage {
    fn clone(&self) -> (copy: ChatMessage)
        ensures
            copy == *self,
    {
        ChatMessage { role: self.role.clone(), content: self.content.clone() }
    }
}

/// What one model call cost: the tokens read and written, the time the
/// model reports for writing them, and the time the call took as measured
/// by the caller, both in nanoseconds.
#[derive(Debug, Clone, Copy)]
pub struct ChatStats {
    pub prompt_tokens: u64,
    pub completion_tokens: u64,
    pub eval_duration_ns: u64,
    pub wall_time_ns: u128,
}

/// A rate of tokens per time, held exactly: `tokens` tokens in `nanos`
/// nanoseconds. With no time at all the rate counts as zero.
#[derive(Debug, Clone, Copy, PartialEq, Eq, Structural)]
pub struct TokenRate {
    pub tokens: u64,
    pub nanos: u64,
}

impl TokenRate {
    /// Whether the rate counts as zero because no time was reported.
    pub fn is_zero(&self) -> (zero: bool)
        ensures
            zero == (self.nanos == 0),
    {
        self.nanos == 0
    }
}

impl Default for ChatStats {
    fn default() -> (stats: ChatStats)
        ensures
            stats.prompt_tokens == 0,
            stats.completion_tokens == 0,
            stats.eval_duration_ns == 0,
            stats.wall_time_ns == 0,
    {
        ChatStats { prompt_tokens: 0, completion_tokens: 0, eval_duration_ns: 0, wall_time_ns: 0 }
    }
}

impl ChatStats {
    /// The rate at which the model wrote: the completion tokens over the
    /// evaluation time that it reported.
    pub fn tokens_per_second(&self) -> (rate: TokenRate)
        ensures
            rate.tokens == self.completion_tokens,
            rate.nanos == self.eval_duration_ns,
    {
        TokenRate { tokens: self.completion_tokens, nanos: self.eval_duration_ns }
    }

    /// The statistics of a call from the counters that the server
    /// reported, a missing counter counting as zero, and the measured time.
    pub fn from_counters(
        prompt_eval_count: Option<u64>,
        eval_count: Option<u64>,
        eval_duration: Option<u64>,
        wall_time_ns: u128,
    ) -> (stats: ChatStats)
        ensures
            stats.prompt_tokens == counter(prompt_eval_count),
            stats.completion_tokens == counter(eval_count),
            stats.eval_duration_ns == counter(eval_duration),
            stats.wall_time_ns == wall_time_ns,
    {
        ChatStats {
            prompt_tokens: count(prompt_eval_count),
            completion_tokens: count(eval_count),
            eval_duration_ns: count(eval_duration),
            wall_time_ns,
        }
    }
}

/// The value of a counter that the server may have left out.
pub open spec fn counter(reported: Option<u64>) -> u64 {
    match reported {
        Some(n) => n,
        None => 0,
    }
}

fn count(reported: Option<u64>) -> (n: u64)
    ensures
        n == counter(reported),
{
    match reported {
        Some(n) => n,
        None => 0,
    }
}

/// The generated text of one model call, with what the call cost.
#[derive(Debug)]
pub struct ChatResult {
    pub content: String,
    pub stats: ChatStats,
}

/// What is sent to the chat endpoint, but for the sampling options: the
/// model, the messages with the system prompt first, and the flag that
/// asks for the whole reply at once.
#[derive(Debug)]
pub struct ChatRequest {
    pub model: String,
    pub messages: Vec<ChatMessage>,
    pub stream: bool,
}

/// What the server's reply holds once it is decoded: the assistant's
/// message and the counters that the server chose to report.
#[derive(Debug)]
pub struct ChatReply {
    pub content: String,
    pub prompt_eval_count: Option<u64>,
    pub eval_count: Option<u64>,
    pub eval_duration: Option<u64>,
}

/// An HTTP status code: a number from 100 to 999.
#[derive(Debug, Clone, Copy)]
pub struct HttpStatus {
    code: u16,
}

/// The phrase that `StatusCode`'s `Display` writes after the number of
/// the status code `code`: the reason phrase that the `http` crate's
/// table gives for it, or a fixed phrase for a code that the table lacks.
pub uninterp spec fn status_reason(code: u16) -> Seq<char>;

/// A status code as it is shown: the number in decimal, a space, and
/// the reason phrase.
pub open spec fn status_text(code: u16) -> Seq<char> {
    decimal_text(code as nat) + seq![' '] + status_reason(code)
}

/// Formats a status code with `reqwest::StatusCode`'s `Display`. For a
/// number from 100 to 999 `StatusCode::from_u16` succeeds, and `Display`
/// writes the number in decimal, a space, and a phrase that depends on
/// the number alone; the phrase is known by the name [`status_reason`].
#[verifier::external_body]
fn status_display(code: u16) -> (text: String)
    requires
        100 <= code <= 999,
    ensures
        text@ == decimal_text(code as nat) + seq![' '] + status_reason(code),
{
    match reqwest::StatusCode::from_u16(code) {
        Ok(status) => status.to_string(),
        Err(_) => String::new(),
    }
}

impl HttpStatus {
    #[verifier::type_invariant]
    spec fn in_range(&self) -> bool {
        100 <= self.code <= 999
    }

    /// The number of the status.
    pub closed spec fn number(&self) -> u16 {
        self.code
    }

    /// The status with the number `code`, where that is a status code.
    pub fn new(code: u16) -> (status: Option<HttpStatus>)
        ensures
            status is Some <==> 100 <= code <= 999,
            status matches Some(s) ==> s.number() == code,
    {
        if 100 <= code && code <= 999 {
            Some(HttpStatus { code })
        } else {
            None
        }
    }

    /// The number of the status.
    pub fn code(&self) -> (code: u16)
        ensures
            code == self.number(),
            100 <= code <= 999,
    {
        proof {
            use_type_invariant(self);
        }
        self.code
    }

    /// Whether the status reports success: a number from 200 to 299.
    pub fn is_success(&self) -> (ok: bool)
        ensures
            ok == (200 <= self.number() < 300),
    {
        200 <= self.code && self.code < 300
    }

    /// The status as it is shown in messages.
    pub fn text(&self) -> (text: String)
        ensures
            text@ == status_text(self.number()),
    {
        proof {
            use_type_invariant(self);
        }
        status_display(self.code)
    }
}

/// What came of sending a chat request.
#[derive(Debug)]
pub enum Transport {
    /// The server could not be reached; holds what the transport said.
    Unreachable(String),
    /// The server answered with a status that is no success; holds the
    /// status and the body of the answer.
    Rejected(HttpStatus, String),
    /// The server answered with success, but its body could not be
    /// decoded; holds the reason.
    Malformed(String),
    /// The server answered with a reply.
    Delivered(ChatReply),
}

/// The detail of the failure for an answer with the status text `status`
/// and the body `body`.
pub open spec fn rejection_text(status: Seq<char>, body: Seq<char>) -> Seq<char> {
    "HTTP "@ + status + ": "@ + body
}

/// `s` without the characters `c` at its end.
pub open spec fn trim_end_matches(s: Seq<char>, c: char) -> Seq<char>
    decreases s.len(),
{
    if s.len() > 0 && s.last() == c {
        trim_end_matches(s.drop_last(), c)
    } else {
        s
    }
}

/// Where the model server is, and which model is asked.
#[derive(Debug)]
pub struct OllamaClient {
    base_url: String,
    model: String,
}

impl Clone for OllamaClient {
    fn clone(&self) -> (copy: OllamaClient)
        ensures
            copy == *self,
    {
        OllamaClient { base_url: self.base_url.clone(), model: self.model.clone() }
    }
}

impl OllamaClient {
    /// The address of the server, without a slash at its end.
    pub closed spec fn base(&self) -> Seq<char> {
        self.base_url@
    }

    /// The name of the model.
    pub closed spec fn model_name(&self) -> Seq<char> {
        self.model@
    }

    /// A client for the server at `base_url`, whose trailing slashes are
    /// dropped, and the model `model`.
    pub fn new(base_url: &str, model: &str) -> (client: OllamaClient)
        ensures
            client.base() == trim_end_matches(base_url@, '/'),
            client.model_name() == model@,
    {
        let url = chars_of(base_url);
        let mut end: usize = url.len();
        assert(url@.take(end as int) =~= url@);
        while end > 0 && url[end - 1] == '/'
            invariant
                end <= url.len(),
                trim_end_matches(url@, '/') == trim_end_matches(url@.take(end as int), '/'),
            decreases end,
        {
            assert(url@.take(end as int).drop_last() =~= url@.take(end - 1));
            end -= 1;
        }
        assert(url@.take(end as int) =~= url@.subrange(0, end as int));
        let kept = slice(&url, 0, end);
        OllamaClient { base_url: string_of(&kept), model: String::from_str(model) }
    }

    /// The name of the model.
    pub fn model(&self) -> (name: &str)
        ensures
            name@ == self.model_name(),
    {
        self.model.as_str()
    }

    /// The address of the server.
    pub fn base_url(&self) -> (url: &str)
        ensures
            url@ == self.base(),
    {
        self.base_url.as_str()
    }

    /// The address that lists the server's models; a server that answers
    /// there is up.
    pub fn tags_url(&self) -> (url: String)
        ensures
            url@ == self.base() + "/api/tags"@,
    {
        self.base_url.clone().concat("/api/tags")
    }

    /// Whether the server is up, given what came of asking it for its
    /// models: the status of its answer, or `None` where it could not be
    /// reached. It is up where it answered with success.
    pub fn health_check(answer: Option<HttpStatus>) -> (up: bool)
        ensures
            up == (answer matches Some(status) && 200 <= status.number() < 300),
    {
        match answer {
            Some(status) => status.is_success(),
            None => false,
        }
    }

    /// The address of the chat endpoint.
    pub fn chat_url(&self) -> (url: String)
        ensures
            url@ == self.base() + "/api/chat"@,
    {
        self.base_url.clone().concat("/api/chat")
    }

    /// The request for one model call: the system prompt as the first
    /// message, then the history in its order, for this client's model,
    /// with streaming switched off.
    pub fn chat_request(&self, system_prompt: &str, messages: &[ChatMessage]) -> (request:
        ChatRequest)
        ensures
            request.model@ == self.model_name(),
            !request.stream,
            request.messages@.len() == messages@.len() + 1,
            request.messages@[0].role@ == "system"@,
            request.messages@[0].content@ == system_prompt@,
            forall|i: int| 0 <= i < messages@.len() ==> request.messages@[i + 1] == messages@[i],
    {
        let mut all: Vec<ChatMessage> = Vec::new();
        all.push(
            ChatMessage {
                role: String::from_str("system"),
                content: String::from_str(system_prompt),
            },
        );
        let mut i: usize = 0;
        while i < messages.len()
            invariant
                i <= messages.len(),
                all@.len() == i + 1,
                all@[0].role@ == "system"@,
                all@[0].content@ == system_prompt@,
                forall|j: int| 0 <= j < i ==> all@[j + 1] == messages@[j],
            decreases messages.len() - i,
        {
            all.push(messages[i].clone());
            i += 1;
        }
        ChatRequest { model: self.model.clone(), messages: all, stream: false }
    }

    /// What a model call returns for what came of sending its request,
    /// where the call took `wall_time_ns` nanoseconds: the reply with its
    /// statistics where one was delivered; the failure to reach the server;
    /// or the failure to generate, with the status and the body of a
    /// rejected request, or the reason for which the body was not
    /// understood.
    pub fn chat(transport: Transport, wall_time_ns: u128) -> (r: Result<
        ChatResult,
        DialogGenError,
    >)
        ensures
            match transport {
                Transport::Unreachable(reason) => r matches Err(
                    DialogGenError::OllamaUnavailable(detail),
                ) && detail@ == reason@,
                Transport::Rejected(status, body) => r matches Err(
                    DialogGenError::GenerationFailed(detail),
                ) && detail@ == rejection_text(status_text(status.number()), body@),
                Transport::Malformed(reason) => r matches Err(
                    DialogGenError::GenerationFailed(detail),
                ) && detail@ == reason@,
                Transport::Delivered(reply) => r matches Ok(result) && result.content@
                    == reply.content@ && result.stats.prompt_tokens == counter(
                    reply.prompt_eval_count,
                ) && result.stats.completion_tokens == counter(reply.eval_count)
                    && result.stats.eval_duration_ns == counter(reply.eval_duration)
                    && result.stats.wall_time_ns == wall_time_ns,
            },
    {
        match transport {
            Transport::Unreachable(reason) => Err(DialogGenError::OllamaUnavailable(reason)),
            Transport::Rejected(status, body) => {
                let detail = String::from_str("HTTP ").concat(status.text().as_str()).concat(
                    ": ",
                ).concat(body.as_str());
                Err(DialogGenError::GenerationFailed(detail))
            },
            Transport::Malformed(reason) => Err(DialogGenError::GenerationFailed(reason)),
            Transport::Delivered(reply) => {
                let stats = ChatStats::from_counters(
                    reply.prompt_eval_count,
                    reply.eval_count,
                    reply.eval_duration,
                    wall_time_ns,
                );
                Ok(ChatResult { content: reply.content, stats })
            },
        }
    }
}

} // verus!
