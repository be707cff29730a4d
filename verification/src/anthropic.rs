//! The Anthropic Messages API.
//!
//! What is sent to `/v1/messages` for an [`LlmRequest`], and what is made of
//! the reply. Sending and receiving is left to an HTTP client.
//!
//! System messages are flattened into the top-level `system` field, joined by
//! blank lines. User and assistant messages pass through unchanged.

use crate::error::{labelled, Error, ErrorView, Result};
use crate::json::{
    array_items, is_number, is_number_text, json_string, lemma_array_items_of_push, quote,
};
use crate::llm::{
    messages_view, push_said, said, LlmRequest, LlmResponse, LlmRole, MessageView, RequestView,
    ResponseView,
};
use crate::text::{decimal, optional_text, push_decimal};
use vstd::prelude::*;
use vstd::slice::slice_subrange;
use vstd::string::StringExecFns;
use vstd::utf8::{decode_utf8, valid_utf8};

verus! {

/// The limit on the length of an answer where the request has none.
pub const DEFAULT_MAX_TOKENS: u32 = 1024;

/// How much of the body of a failed reply is shown, in bytes.
pub const PREVIEW_BYTES: usize = 512;

/// How long a request may take, in seconds.
pub const REQUEST_TIMEOUT_SECS: u64 = 120;

// ---------------------------------------------------------------------------
// The endpoint
// ---------------------------------------------------------------------------

/// Where requests go, and the key that they carry.
#[derive(Debug)]
pub struct AnthropicProvider {
    api_key: String,
    base_url: String,
}

/// What an [`AnthropicProvider`] holds.
pub struct ProviderView {
    pub api_key: Seq<char>,
    pub base_url: Seq<char>,
}

impl View for AnthropicProvider {
    type V = ProviderView;

    closed spec fn view(&self) -> ProviderView {
        ProviderView { api_key: self.api_key@, base_url: self.base_url@ }
    }
}

/// An HTTP header.
#[derive(Debug)]
pub struct Header {
    pub name: &'static str,
    pub value: String,
}

/// What an HTTP header holds.
pub struct HeaderView {
    pub name: Seq<char>,
    pub value: Seq<char>,
}

impl View for Header {
    type V = HeaderView;

    open spec fn view(&self) -> HeaderView {
        HeaderView { name: self.name@, value: self.value@ }
    }
}

impl AnthropicProvider {
    pub fn new(api_key: &str) -> (provider: Self)
        ensures
            provider@.api_key == api_key@,
            provider@.base_url == "https://api.anthropic.com/v1/messages"@,
    {
        AnthropicProvider {
            api_key: api_key.to_owned(),
            base_url: "https://api.anthropic.com/v1/messages".to_owned(),
        }
    }

    /// Overrides the API endpoint. Useful for integration tests against a local
    /// mock server.
    pub fn with_base_url(self, url: &str) -> (provider: Self)
        ensures
            provider@ == (ProviderView { base_url: url@, ..self@ }),
    {
        AnthropicProvider { api_key: self.api_key, base_url: url.to_owned() }
    }

    /// Where requests go.
    pub fn base_url(&self) -> (url: &str)
        ensures
            url@ == self@.base_url,
    {
        &self.base_url
    }

    /// The headers of a request, in order: the key, the version of the API, and
    /// the type of the body.
    pub fn headers(&self) -> (headers: Vec<Header>)
        ensures
            headers@.len() == 3,
            headers@[0]@ == (HeaderView { name: "x-api-key"@, value: self@.api_key }),
            headers@[1]@ == (HeaderView { name: "anthropic-version"@, value: "2023-06-01"@ }),
            headers@[2]@ == (HeaderView { name: "content-type"@, value: "application/json"@ }),
    {
        let mut headers: Vec<Header> = Vec::new();
        headers.push(Header { name: "x-api-key", value: self.api_key.clone() });
        headers.push(Header { name: "anthropic-version", value: "2023-06-01".to_owned() });
        headers.push(Header { name: "content-type", value: "application/json".to_owned() });
        headers
    }
}

// ---------------------------------------------------------------------------
// The request
// ---------------------------------------------------------------------------

/// The body of a request.
#[derive(Debug)]
pub struct AnthropicRequest {
    pub model: String,
    pub max_tokens: u32,
    pub messages: Vec<AnthropicMessage>,
    pub system: Option<String>,
    /// The sampling temperature, as in the request.
    pub temperature: Option<String>,
}

/// A message of a request.
#[derive(Debug)]
pub struct AnthropicMessage {
    pub role: &'static str,
    pub content: String,
}

/// What an [`AnthropicRequest`] holds.
pub struct BodyView {
    pub model: Seq<char>,
    pub max_tokens: u32,
    pub messages: Seq<SaidView>,
    pub system: Option<Seq<char>>,
    pub temperature: Option<Seq<char>>,
}

/// What an [`AnthropicMessage`] holds.
pub struct SaidView {
    pub role: Seq<char>,
    pub content: Seq<char>,
}

impl View for AnthropicMessage {
    type V = SaidView;

    open spec fn view(&self) -> SaidView {
        SaidView { role: self.role@, content: self.content@ }
    }
}

/// What a list of messages holds.
pub open spec fn said_view(messages: Seq<AnthropicMessage>) -> Seq<SaidView> {
    messages.map_values(|m: AnthropicMessage| m@)
}

impl View for AnthropicRequest {
    type V = BodyView;

    open spec fn view(&self) -> BodyView {
        BodyView {
            model: self.model@,
            max_tokens: self.max_tokens,
            messages: said_view(self.messages@),
            system: optional_text(self.system),
            temperature: optional_text(self.temperature),
        }
    }
}

/// The texts of the system messages, with a blank line in front of each that
/// follows some text.
pub open spec fn system_text(messages: Seq<MessageView>) -> Seq<char>
    decreases messages.len(),
{
    if messages.len() == 0 {
        Seq::empty()
    } else {
        let before = system_text(messages.drop_last());
        let last = messages.last();
        if last.role != LlmRole::System {
            before
        } else if before.len() == 0 {
            last.content
        } else {
            before + "\n\n"@ + last.content
        }
    }
}

/// The messages that are not system messages, in order.
pub open spec fn dialogue(messages: Seq<MessageView>) -> Seq<SaidView>
    decreases messages.len(),
{
    if messages.len() == 0 {
        Seq::empty()
    } else {
        let before = dialogue(messages.drop_last());
        let last = messages.last();
        if last.role == LlmRole::System {
            before
        } else {
            before.push(SaidView { role: last.role.name(), content: last.content })
        }
    }
}

/// The body that is sent for a request.
pub open spec fn body_of(request: RequestView) -> BodyView {
    let system = system_text(request.messages);
    BodyView {
        model: request.model,
        max_tokens: match request.max_tokens {
            Some(n) => n,
            None => DEFAULT_MAX_TOKENS,
        },
        messages: dialogue(request.messages),
        system: if system.len() == 0 {
            None
        } else {
            Some(system)
        },
        temperature: request.temperature,
    }
}

/// The body that is sent for a request.
pub fn build_request_body(request: &LlmRequest) -> (body: AnthropicRequest)
    ensures
        body@ == body_of(request@),
{
    let mut system = String::new();
    let mut messages: Vec<AnthropicMessage> = Vec::new();
    let ghost views = messages_view(request.messages@);
    let mut i: usize = 0;
    assert(views.take(0) =~= Seq::empty());
    while i < request.messages.len()
        invariant
            i <= request.messages@.len(),
            views == messages_view(request.messages@),
            system@ =~= system_text(views.take(i as int)),
            said_view(messages@) =~= dialogue(views.take(i as int)),
        decreases request.messages@.len() - i,
    {
        proof {
            assert(views.take(i + 1).drop_last() =~= views.take(i as int));
            assert(views.take(i + 1).last() == request.messages@[i as int]@);
        }
        let message = &request.messages[i];
        match message.role {
            LlmRole::System => {
                if system.as_str().unicode_len() > 0 {
                    system.append("\n\n");
                }
                system.append(&message.content);
            },
            LlmRole::User => {
                messages.push(AnthropicMessage { role: "user", content: message.content.clone() });
            },
            LlmRole::Assistant => {
                messages.push(
                    AnthropicMessage { role: "assistant", content: message.content.clone() },
                );
            },
        }
        i = i + 1;
    }
    assert(views.take(i as int) =~= views);
    let max_tokens: u32 = match request.max_tokens {
        Some(n) => n,
        None => DEFAULT_MAX_TOKENS,
    };
    let temperature: Option<String> = match &request.temperature {
        Some(text) => Some(text.clone()),
        None => None,
    };
    let hoisted: Option<String> = if system.as_str().unicode_len() == 0 {
        None
    } else {
        Some(system)
    };
    AnthropicRequest {
        model: request.model.clone(),
        max_tokens,
        messages,
        system: hoisted,
        temperature,
    }
}

/// The messages, each as JSON.
pub open spec fn said_texts(messages: Seq<SaidView>) -> Seq<Seq<char>> {
    messages.map_values(|m: SaidView| said(m.role, m.content))
}

/// A number as JSON, or the null value for a text that is no number.
pub open spec fn sent_number(text: Seq<char>) -> Seq<char> {
    if is_number_text(text) {
        text
    } else {
        "null"@
    }
}

/// A body as JSON: its fields in order, without blanks, and without the
/// optional fields that are not there.
pub open spec fn body_text(body: BodyView) -> Seq<char> {
    "{\"model\":"@ + json_string(body.model) + ",\"max_tokens\":"@ + decimal(body.max_tokens as nat)
        + ",\"messages\":["@ + array_items(said_texts(body.messages)) + "]"@ + (match body.system {
        Some(text) => ",\"system\":"@ + json_string(text),
        None => Seq::empty(),
    }) + (match body.temperature {
        Some(number) => ",\"temperature\":"@ + sent_number(number),
        None => Seq::empty(),
    }) + "}"@
}

impl AnthropicRequest {
    /// The body as JSON.
    pub fn to_json(&self) -> (text: String)
        ensures
            text@ == body_text(self@),
    {
        let mut out = "{\"model\":".to_owned();
        let model = quote(&self.model);
        out.append(&model);
        out.append(",\"max_tokens\":");
        push_decimal(&mut out, self.max_tokens as u128);
        out.append(",\"messages\":[");
        self.push_messages(&mut out);
        out.append("]");
        let ghost listed = out@;
        if let Some(text) = &self.system {
            let system = quote(text);
            out.append(",\"system\":");
            out.append(&system);
        }
        let ghost system: Seq<char> = match self@.system {
            Some(text) => ",\"system\":"@ + json_string(text),
            None => Seq::empty(),
        };
        assert(out@ =~= listed + system);
        if let Some(number) = &self.temperature {
            out.append(",\"temperature\":");
            if is_number(number) {
                out.append(number);
            } else {
                out.append("null");
            }
        }
        let ghost temperature: Seq<char> = match self@.temperature {
            Some(number) => ",\"temperature\":"@ + sent_number(number),
            None => Seq::empty(),
        };
        assert(out@ =~= listed + system + temperature);
        out.append("}");
        out
    }

    /// Appends the messages, each as JSON, with commas in between.
    fn push_messages(&self, out: &mut String)
        ensures
            final(out)@ == old(out)@ + array_items(said_texts(self@.messages)),
    {
        let ghost texts = said_texts(self@.messages);
        assert(texts.take(0) =~= Seq::empty());
        let mut i: usize = 0;
        while i < self.messages.len()
            invariant
                i <= self.messages@.len(),
                texts == said_texts(self@.messages),
                out@ =~= old(out)@ + array_items(texts.take(i as int)),
            decreases self.messages@.len() - i,
        {
            proof {
                assert(texts.take(i + 1) =~= texts.take(i as int).push(texts[i as int]));
                lemma_array_items_of_push(texts.take(i as int), texts[i as int]);
            }
            if i > 0 {
                out.append(",");
            }
            push_said(out, self.messages[i].role, &self.messages[i].content);
            i = i + 1;
        }
        assert(texts.take(i as int) =~= texts);
    }
}

// ---------------------------------------------------------------------------
// The reply
// ---------------------------------------------------------------------------

/// The body of a reply.
#[derive(Debug)]
pub struct AnthropicResponse {
    pub model: String,
    pub content: Vec<AnthropicContentBlock>,
    pub usage: AnthropicUsage,
}

/// A part of an answer.
#[derive(Debug)]
pub enum AnthropicContentBlock {
    Text { text: String },
}

/// How many tokens a request and its answer took.
#[derive(Debug, Clone, Copy)]
pub struct AnthropicUsage {
    pub input_tokens: u32,
    pub output_tokens: u32,
}

/// What a reply answers: the first text, and none where there is no part.
pub open spec fn answer_of(reply: AnthropicResponse) -> ResponseView {
    ResponseView {
        model: reply.model@,
        content: if reply.content@.len() == 0 {
            Seq::empty()
        } else {
            match reply.content@[0] {
                AnthropicContentBlock::Text { text } => text@,
            }
        },
        tokens_in: reply.usage.input_tokens,
        tokens_out: reply.usage.output_tokens,
    }
}

/// The answer in a reply whose body was decoded, or could not be.
pub fn parse_response(reply: std::result::Result<AnthropicResponse, String>) -> (outcome: Result<
    LlmResponse,
>)
    ensures
        match reply {
            Ok(raw) => outcome matches Ok(response) && response@ == answer_of(raw),
            Err(reason) => outcome matches Err(error) && error@ == ErrorView::Tool(
                "anthropic parse: "@ + reason@,
            ),
        },
{
    let raw: AnthropicResponse = match reply {
        Ok(raw) => raw,
        Err(reason) => {
            return Err(Error::Tool(labelled("anthropic parse: ", &reason)));
        },
    };
    let content: String = if raw.content.len() == 0 {
        String::new()
    } else {
        match &raw.content[0] {
            AnthropicContentBlock::Text { text } => text.clone(),
        }
    };
    Ok(
        LlmResponse {
            model: raw.model,
            content,
            tokens_in: raw.usage.input_tokens,
            tokens_out: raw.usage.output_tokens,
        },
    )
}

/// Where a request can break off.
#[derive(Debug, Clone, Copy)]
pub enum Stage {
    /// The HTTP client could not be made.
    Client,
    /// The request could not be sent.
    Send,
    /// The body of the reply could not be read.
    Body,
}

impl Stage {
    /// What the message of an error starts with.
    pub open spec fn label(self) -> Seq<char> {
        match self {
            Stage::Client => "reqwest client: "@,
            Stage::Send => "anthropic send: "@,
            Stage::Body => "anthropic body: "@,
        }
    }
}

/// The error of a request that broke off.
pub fn transport_error(stage: Stage, reason: &str) -> (error: Error)
    ensures
        error@ == ErrorView::Tool(stage.label() + reason@),
{
    let label: &str = match stage {
        Stage::Client => "reqwest client: ",
        Stage::Send => "anthropic send: ",
        Stage::Body => "anthropic body: ",
    };
    Error::Tool(labelled(label, reason))
}

/// Names what `String::from_utf8_lossy` makes of a byte string.
pub uninterp spec fn utf8_lossy(bytes: Seq<u8>) -> Seq<char>;

/// Calls `String::from_utf8_lossy`: the bytes as text, which depends on nothing
/// else. Bytes in UTF-8 give their text; else what is not UTF-8 is replaced, and
/// nothing more is claimed of the result.
#[verifier::external_body]
fn lossy_text(bytes: &[u8]) -> (text: String)
    ensures
        text@ == utf8_lossy(bytes@),
        valid_utf8(bytes@) ==> text@ == decode_utf8(bytes@),
{
    String::from_utf8_lossy(bytes).into_owned()
}

/// Whether a status code says that a request succeeded.
pub open spec fn is_success(code: u16) -> bool {
    200 <= code < 300
}

/// The first bytes of a body, up to the length of a preview.
pub open spec fn preview_bytes(body: Seq<u8>) -> Seq<u8> {
    if body.len() <= PREVIEW_BYTES {
        body
    } else {
        body.take(PREVIEW_BYTES as int)
    }
}

/// The message of a reply that says that a request failed.
pub open spec fn http_message(code: u16, preview: Seq<char>) -> Seq<char> {
    "anthropic http "@ + decimal(code as nat) + ": "@ + preview
}

/// The error of a reply that says that a request failed, given the text of the
/// start of its body.
pub fn http_error(code: u16, preview: &str) -> (error: Error)
    ensures
        error@ == ErrorView::Tool(http_message(code, preview@)),
{
    let mut message = "anthropic http ".to_owned();
    push_decimal(&mut message, code as u128);
    message.append(": ");
    message.append(preview);
    Error::Tool(message)
}

/// Lets a reply pass whose status code says that the request succeeded, so that
/// its body can be decoded; else reports the start of the body.
pub fn check_reply(code: u16, body: &[u8]) -> (outcome: Result<()>)
    ensures
        match outcome {
            Ok(_) => is_success(code),
            Err(error) => {
                &&& !is_success(code)
                &&& error@ == ErrorView::Tool(http_message(code, utf8_lossy(preview_bytes(body@))))
                &&& valid_utf8(preview_bytes(body@)) ==> error@ == ErrorView::Tool(
                    http_message(code, decode_utf8(preview_bytes(body@))),
                )
            },
        },
{
    if 200 <= code && code < 300 {
        return Ok(());
    }
    let shown: usize = if body.len() < PREVIEW_BYTES {
        body.len()
    } else {
        PREVIEW_BYTES
    };
    let start = slice_subrange(body, 0, shown);
    assert(start@ =~= preview_bytes(body@));
    let preview = lossy_text(start);
    Err(http_error(code, &preview))
}

// ---------------------------------------------------------------------------
// Laws
// ---------------------------------------------------------------------------

/// Without system messages the body has no system text, and every message
/// passes through unchanged.
pub proof fn law_dialogue_passes_through(request: RequestView)
    requires
        forall|i: int|
            0 <= i < request.messages.len() ==> (#[trigger] request.messages[i]).role
                != LlmRole::System,
    ensures
        body_of(request).system is None,
        body_of(request).messages == request.messages.map_values(
            |m: MessageView| SaidView { role: m.role.name(), content: m.content },
        ),
{
    lemma_dialogue_passes_through(request.messages);
}

proof fn lemma_dialogue_passes_through(messages: Seq<MessageView>)
    requires
        forall|i: int|
            0 <= i < messages.len() ==> (#[trigger] messages[i]).role != LlmRole::System,
    ensures
        system_text(messages) == Seq::<char>::empty(),
        dialogue(messages) == messages.map_values(
            |m: MessageView| SaidView { role: m.role.name(), content: m.content },
        ),
    decreases messages.len(),
{
    let pass = |m: MessageView| SaidView { role: m.role.name(), content: m.content };
    if messages.len() > 0 {
        lemma_dialogue_passes_through(messages.drop_last());
        assert(messages.last().role != LlmRole::System);
        assert(dialogue(messages) =~= messages.map_values(pass));
    } else {
        assert(dialogue(messages) =~= messages.map_values(pass));
    }
}

/// Whatever a system message says, it takes no part in the dialogue.
pub proof fn law_system_messages_are_hoisted(messages: Seq<MessageView>, content: Seq<char>)
    ensures
        ({
            let longer = messages.push(MessageView { role: LlmRole::System, content });
            &&& dialogue(longer) == dialogue(messages)
            &&& system_text(longer) == (if system_text(messages).len() == 0 {
                content
            } else {
                system_text(messages) + "\n\n"@ + content
            })
        }),
{
    let longer = messages.push(MessageView { role: LlmRole::System, content });
    assert(longer.drop_last() =~= messages);
}

/// A message of the user or of the model is added to the dialogue, with its role
/// and its content, behind all that was there, and leaves the system text as it
/// was. Without messages there is neither.
pub proof fn law_each_turn_joins_the_dialogue(messages: Seq<MessageView>, content: Seq<char>)
    ensures
        dialogue(messages.push(MessageView { role: LlmRole::User, content })) == dialogue(
            messages,
        ).push(SaidView { role: "user"@, content }),
        system_text(messages.push(MessageView { role: LlmRole::User, content })) == system_text(
            messages,
        ),
        dialogue(messages.push(MessageView { role: LlmRole::Assistant, content })) == dialogue(
            messages,
        ).push(SaidView { role: "assistant"@, content }),
        system_text(messages.push(MessageView { role: LlmRole::Assistant, content }))
            == system_text(messages),
        dialogue(Seq::<MessageView>::empty()) == Seq::<SaidView>::empty(),
        system_text(Seq::<MessageView>::empty()) == Seq::<char>::empty(),
{
    let asked = messages.push(MessageView { role: LlmRole::User, content });
    let answered = messages.push(MessageView { role: LlmRole::Assistant, content });
    assert(asked.drop_last() =~= messages);
    assert(answered.drop_last() =~= messages);
}

/// A turn of a dialogue.
pub open spec fn is_turn(message: MessageView) -> bool {
    message.role == LlmRole::User || message.role == LlmRole::Assistant
}

/// What is sent for a turn.
pub open spec fn turn_sent(message: MessageView) -> SaidView {
    SaidView {
        role: if message.role == LlmRole::User {
            "user"@
        } else {
            "assistant"@
        },
        content: message.content,
    }
}

proof fn lemma_dialogue_is_filtered(messages: Seq<MessageView>)
    ensures
        dialogue(messages) == messages.filter(|m: MessageView| is_turn(m)).map_values(
            |m: MessageView| turn_sent(m),
        ),
    decreases messages.len(),
{
    let keep = |m: MessageView| is_turn(m);
    let send = |m: MessageView| turn_sent(m);
    reveal(Seq::filter);
    if messages.len() > 0 {
        lemma_dialogue_is_filtered(messages.drop_last());
        let before = messages.drop_last().filter(keep);
        if is_turn(messages.last()) {
            assert(messages.filter(keep) == before.push(messages.last()));
            assert(before.push(messages.last()).map_values(send) =~= before.map_values(send).push(
                send(messages.last()),
            ));
        } else {
            assert(messages.filter(keep) == before);
        }
    } else {
        assert(messages.filter(keep).map_values(send) =~= Seq::empty());
    }
}

/// With or without system messages, the body has all messages but those of the
/// system, in order, each under the name of its role and with its content.
pub proof fn law_body_has_every_turn(request: RequestView)
    ensures
        body_of(request).messages == request.messages.filter(
            |m: MessageView| m.role != LlmRole::System,
        ).map_values(
            |m: MessageView|
                SaidView {
                    role: match m.role {
                        LlmRole::System => "system"@,
                        LlmRole::User => "user"@,
                        LlmRole::Assistant => "assistant"@,
                    },
                    content: m.content,
                },
        ),
{
    let keep = |m: MessageView| m.role != LlmRole::System;
    let send = |m: MessageView|
        SaidView {
            role: match m.role {
                LlmRole::System => "system"@,
                LlmRole::User => "user"@,
                LlmRole::Assistant => "assistant"@,
            },
            content: m.content,
        };
    lemma_dialogue_is_filtered(request.messages);
    assert(keep =~= |m: MessageView| is_turn(m));
    let turns = request.messages.filter(keep);
    lemma_filtered_fit(request.messages, keep);
    assert forall|i: int| 0 <= i < turns.len() implies send(#[trigger] turns[i]) == turn_sent(
        turns[i],
    ) by {
        assert(keep(turns[i]));
    }
    assert(turns.map_values(send) =~= turns.map_values(|m: MessageView| turn_sent(m)));
}

proof fn lemma_filtered_fit(messages: Seq<MessageView>, keep: spec_fn(MessageView) -> bool)
    ensures
        forall|i: int|
            0 <= i < messages.filter(keep).len() ==> keep(#[trigger] messages.filter(keep)[i]),
    decreases messages.len(),
{
    reveal(Seq::filter);
    if messages.len() > 0 {
        lemma_filtered_fit(messages.drop_last(), keep);
    }
}

/// The body has the model and the temperature of the request, and its limit, or
/// 1024 where it has none. It has a system text exactly where some system message
/// says something.
pub proof fn law_body_keeps_the_parameters(request: RequestView)
    ensures
        body_of(request).model == request.model,
        body_of(request).temperature == request.temperature,
        request.max_tokens matches Some(n) ==> body_of(request).max_tokens == n,
        request.max_tokens is None ==> body_of(request).max_tokens == 1024,
        body_of(request).system is Some <==> exists|i: int|
            {
                &&& 0 <= i < request.messages.len()
                &&& (#[trigger] request.messages[i]).role == LlmRole::System
                &&& request.messages[i].content.len() > 0
            },
        body_of(request).system matches Some(text) ==> text == system_text(request.messages),
{
    lemma_some_system_text(request.messages);
}

proof fn lemma_some_system_text(messages: Seq<MessageView>)
    ensures
        system_text(messages).len() > 0 <==> exists|i: int|
            {
                &&& 0 <= i < messages.len()
                &&& (#[trigger] messages[i]).role == LlmRole::System
                &&& messages[i].content.len() > 0
            },
    decreases messages.len(),
{
    if messages.len() > 0 {
        let before = messages.drop_last();
        lemma_some_system_text(before);
        if system_text(before).len() > 0 {
            let i = choose|i: int|
                {
                    &&& 0 <= i < before.len()
                    &&& (#[trigger] before[i]).role == LlmRole::System
                    &&& before[i].content.len() > 0
                };
            assert(messages[i] == before[i]);
        } else if system_text(messages).len() > 0 {
            assert(messages[messages.len() - 1] == messages.last());
        } else {
            assert forall|i: int|
                0 <= i < messages.len() && (
                #[trigger] messages[i]).role == LlmRole::System implies messages[i].content.len()
                == 0 by {
                if i < before.len() {
                    assert(before[i] == messages[i]);
                }
            }
        }
    }
}

/// Each system message that says something is part of the system text, whatever
/// else is said.
pub proof fn law_no_system_message_is_lost(messages: Seq<MessageView>, i: int)
    requires
        0 <= i < messages.len(),
        messages[i].role == LlmRole::System,
    ensures
        exists|start: int|
            {
                &&& 0 <= start <= start + messages[i].content.len() <= system_text(messages).len()
                &&& #[trigger] system_text(messages).subrange(
                    start,
                    start + messages[i].content.len(),
                ) == messages[i].content
            },
    decreases messages.len(),
{
    let text = system_text(messages);
    let content = messages[i].content;
    let before = system_text(messages.drop_last());
    if i == messages.len() - 1 {
        let start = text.len() - content.len();
        assert(text.subrange(start, start + content.len()) =~= content);
    } else {
        law_no_system_message_is_lost(messages.drop_last(), i);
        let start = choose|start: int|
            {
                &&& 0 <= start <= start + content.len() <= before.len()
                &&& #[trigger] before.subrange(start, start + content.len()) == content
            };
        if before.len() == 0 {
            assert(text.subrange(0, 0) =~= content);
        } else {
            assert(text.subrange(start, start + content.len()) =~= before.subrange(
                start,
                start + content.len(),
            ));
        }
    }
}

/// The JSON of a body holds its model, its limit and each of its messages, and
/// its system text and temperature where it has them, under their names and in
/// this order.
pub proof fn law_json_of_a_body_is_complete(body: BodyView)
    ensures
        body_text(body) == "{\"model\":"@ + json_string(body.model) + ",\"max_tokens\":"@ + decimal(
            body.max_tokens as nat,
        ) + ",\"messages\":["@ + array_items(said_texts(body.messages)) + "]"@ + (
        match body.system {
            Some(text) => ",\"system\":"@ + json_string(text),
            None => Seq::empty(),
        }) + (match body.temperature {
            Some(number) => ",\"temperature\":"@ + (if is_number_text(number) {
                number
            } else {
                "null"@
            }),
            None => Seq::empty(),
        }) + "}"@,
        said_texts(body.messages).len() == body.messages.len(),
        forall|i: int|
            0 <= i < body.messages.len() ==> #[trigger] said_texts(body.messages)[i]
                == "{\"role\":\""@ + body.messages[i].role + "\",\"content\":"@ + json_string(
                body.messages[i].content,
            ) + "}"@,
{
}

/// An answer has the model and the token counts of its reply, and the text of
/// the first part, or no text where there is no part.
pub proof fn law_answer_is_the_first_part(reply: AnthropicResponse)
    ensures
        answer_of(reply).model == reply.model@,
        answer_of(reply).tokens_in == reply.usage.input_tokens,
        answer_of(reply).tokens_out == reply.usage.output_tokens,
        reply.content@.len() == 0 ==> answer_of(reply).content == Seq::<char>::empty(),
        reply.content@.len() > 0 ==> answer_of(reply).content == reply.content@[0]->text@,
{
}

/// A request succeeded exactly where its status code is 200 to 299.
pub proof fn law_success_is_the_two_hundreds(code: u16)
    ensures
        is_success(code) <==> 200 <= code <= 299,
{
}

/// The preview is the beginning of the body: all of a short one, and 512 bytes of
/// a longer one. The message has the status code in front of it.
pub proof fn law_preview_is_the_beginning(body: Seq<u8>, code: u16, preview: Seq<char>)
    ensures
        preview_bytes(body).len() == (if body.len() < 512 {
            body.len()
        } else {
            512
        }),
        forall|i: int| 0 <= i < preview_bytes(body).len() ==> preview_bytes(body)[i] == body[i],
        http_message(code, preview) == "anthropic http "@ + decimal(code as nat) + ": "@ + preview,
{
}

/// The message of a request that broke off starts with where it did.
pub proof fn law_stage_labels()
    ensures
        Stage::Client.label() == "reqwest client: "@,
        Stage::Send.label() == "anthropic send: "@,
        Stage::Body.label() == "anthropic body: "@,
{
}

/// What a body is taken for is all that it holds.
pub proof fn law_body_view_keeps_every_field(body: AnthropicRequest)
    ensures
        body@.model == body.model@,
        body@.max_tokens == body.max_tokens,
        body@.messages.len() == body.messages@.len(),
        forall|i: int|
            0 <= i < body.messages@.len() ==> {
                &&& (#[trigger] body@.messages[i]).role == body.messages@[i].role@
                &&& body@.messages[i].content == body.messages@[i].content@
            },
        match body.system {
            Some(text) => body@.system == Some(text@),
            None => body@.system is None,
        },
        match body.temperature {
            Some(text) => body@.temperature == Some(text@),
            None => body@.temperature is None,
        },
{
}

/// The limits of a request.
pub proof fn law_limits()
    ensures
        DEFAULT_MAX_TOKENS == 1024,
        PREVIEW_BYTES == 512,
        REQUEST_TIMEOUT_SECS == 120,
{
}

} // verus!
