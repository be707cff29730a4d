//! Requests to language models, their responses, and the key under which a
//! response is cached.

use crate::json::{
    array_items, further_items, is_number, is_number_char, is_number_text, json_string,
    lemma_array_items_of_push, lemma_json_string_decodes, quote,
};
use crate::text::{
    decimal, hex, hex_text, law_hex_text_is_injective, lemma_decimal_injective, lemma_decimal_is_digits, lemma_utf8_injective,
    optional_text, push_decimal,
};
use vstd::prelude::*;
use vstd::string::StringExecFns;
use vstd::utf8::encode_utf8;

verus! {

/// Who says a message.
#[derive(Debug, Clone, Copy, PartialEq, Eq, Structural)]
pub enum LlmRole {
    System,
    User,
    Assistant,
}

/// One message of a conversation.
#[derive(Debug)]
pub struct LlmMessage {
    pub role: LlmRole,
    pub content: String,
}

/// What a language model is asked.
#[derive(Debug)]
pub struct LlmRequest {
    pub model: String,
    pub messages: Vec<LlmMessage>,
    /// The sampling temperature, as a JSON number. What is no number has no
    /// JSON number either, and stands under a name, such as `inf`.
    pub temperature: Option<String>,
    pub max_tokens: Option<u32>,
}

/// What a language model answered.
#[derive(Debug)]
pub struct LlmResponse {
    pub model: String,
    pub content: String,
    pub tokens_in: u32,
    pub tokens_out: u32,
}

/// What an [`LlmMessage`] holds.
pub struct MessageView {
    pub role: LlmRole,
    pub content: Seq<char>,
}

/// What an [`LlmRequest`] holds.
pub struct RequestView {
    pub model: Seq<char>,
    pub messages: Seq<MessageView>,
    pub temperature: Option<Seq<char>>,
    pub max_tokens: Option<u32>,
}

/// What an [`LlmResponse`] holds.
pub struct ResponseView {
    pub model: Seq<char>,
    pub content: Seq<char>,
    pub tokens_in: u32,
    pub tokens_out: u32,
}

/// What a list of messages holds.
pub open spec fn messages_view(messages: Seq<LlmMessage>) -> Seq<MessageView> {
    messages.map_values(|m: LlmMessage| m@)
}

impl View for LlmMessage {
    type V = MessageView;

    open spec fn view(&self) -> MessageView {
        MessageView { role: self.role, content: self.content@ }
    }
}

impl View for LlmRequest {
    type V = RequestView;

    open spec fn view(&self) -> RequestView {
        RequestView {
            model: self.model@,
            messages: messages_view(self.messages@),
            temperature: optional_text(self.temperature),
            max_tokens: self.max_tokens,
        }
    }
}

impl View for LlmResponse {
    type V = ResponseView;

    open spec fn view(&self) -> ResponseView {
        ResponseView {
            model: self.model@,
            content: self.content@,
            tokens_in: self.tokens_in,
            tokens_out: self.tokens_out,
        }
    }
}

impl Clone for LlmMessage {
    fn clone(&self) -> (copy: Self)
        ensures
            copy == *self,
    {
        LlmMessage { role: self.role, content: self.content.clone() }
    }
}

impl Clone for LlmRequest {
    fn clone(&self) -> (copy: Self)
        ensures
            copy@ == self@,
    {
        let mut messages: Vec<LlmMessage> = Vec::new();
        let mut i: usize = 0;
        while i < self.messages.len()
            invariant
                i <= self.messages@.len(),
                messages@ =~= self.messages@.take(i as int),
            decreases self.messages@.len() - i,
        {
            messages.push(self.messages[i].clone());
            i = i + 1;
        }
        assert(messages@ =~= self.messages@);
        let temperature: Option<String> = match &self.temperature {
            Some(text) => Some(text.clone()),
            None => None,
        };
        LlmRequest {
            model: self.model.clone(),
            messages,
            temperature,
            max_tokens: self.max_tokens,
        }
    }
}

impl Clone for LlmResponse {
    fn clone(&self) -> (copy: Self)
        ensures
            copy == *self,
    {
        LlmResponse {
            model: self.model.clone(),
            content: self.content.clone(),
            tokens_in: self.tokens_in,
            tokens_out: self.tokens_out,
        }
    }
}

impl LlmRole {
    /// The name of the role in a request.
    pub open spec fn name(self) -> Seq<char> {
        match self {
            LlmRole::System => "system"@,
            LlmRole::User => "user"@,
            LlmRole::Assistant => "assistant"@,
        }
    }

    /// The name of the role in a request.
    pub fn as_str(self) -> (text: &'static str)
        ensures
            text@ == self.name(),
    {
        match self {
            LlmRole::System => "system",
            LlmRole::User => "user",
            LlmRole::Assistant => "assistant",
        }
    }
}

impl LlmMessage {
    pub fn system(content: &str) -> (message: Self)
        ensures
            message@ == (MessageView { role: LlmRole::System, content: content@ }),
    {
        LlmMessage { role: LlmRole::System, content: content.to_owned() }
    }

    pub fn user(content: &str) -> (message: Self)
        ensures
            message@ == (MessageView { role: LlmRole::User, content: content@ }),
    {
        LlmMessage { role: LlmRole::User, content: content.to_owned() }
    }

    pub fn assistant(content: &str) -> (message: Self)
        ensures
            message@ == (MessageView { role: LlmRole::Assistant, content: content@ }),
    {
        LlmMessage { role: LlmRole::Assistant, content: content.to_owned() }
    }
}

// ---------------------------------------------------------------------------
// The serialized request
// ---------------------------------------------------------------------------

/// What somebody says, as JSON.
pub open spec fn said(role: Seq<char>, content: Seq<char>) -> Seq<char> {
    "{\"role\":\""@ + role + "\",\"content\":"@ + json_string(content) + "}"@
}

/// A message as JSON.
pub open spec fn message_text(message: MessageView) -> Seq<char> {
    said(message.role.name(), message.content)
}

/// The messages, each as JSON.
pub open spec fn message_texts(messages: Seq<MessageView>) -> Seq<Seq<char>> {
    messages.map_values(|message: MessageView| message_text(message))
}

/// An optional number as JSON. A text that is no number is written as a string:
/// it can be told from every number, and from none.
pub open spec fn optional_number(text: Option<Seq<char>>) -> Seq<char> {
    match text {
        Some(number) => if is_number_text(number) {
            number
        } else {
            json_string(number)
        },
        None => "null"@,
    }
}

/// An optional count as JSON.
pub open spec fn optional_count(count: Option<u32>) -> Seq<char> {
    match count {
        Some(n) => decimal(n as nat),
        None => "null"@,
    }
}

/// What follows the messages in the JSON of a request.
pub open spec fn parameters_text(request: RequestView) -> Seq<char> {
    ",\"temperature\":"@ + (optional_number(request.temperature) + (",\"max_tokens\":"@ + (
    optional_count(request.max_tokens) + "}"@)))
}

/// The request as JSON: its fields in order, without blanks.
pub open spec fn request_text(request: RequestView) -> Seq<char> {
    "{\"model\":"@ + (json_string(request.model) + (",\"messages\":["@ + (array_items(
        message_texts(request.messages),
    ) + ("]"@ + parameters_text(request)))))
}

/// Names what `sha2::Sha256` computes: the SHA-256 digest of a byte string.
pub uninterp spec fn sha256(data: Seq<u8>) -> Seq<u8>;

/// Calls `<sha2::Sha256 as sha2::Digest>::digest`: the SHA-256 digest of the
/// bytes, which depends on nothing else and has 32 bytes.
#[verifier::external_body]
fn sha256_digest(data: &[u8]) -> (digest: Vec<u8>)
    ensures
        digest@ == sha256(data@),
        digest@.len() == 32,
{
    <sha2::Sha256 as sha2::Digest>::digest(data).to_vec()
}

/// The key under which the answer to a request is cached.
pub open spec fn cache_key(request: RequestView) -> Seq<char> {
    hex_text(sha256(encode_utf8(request_text(request))))
}

/// Whether a character is one of `0` to `9` and `a` to `f`.
pub open spec fn is_hex_digit(c: char) -> bool {
    '0' <= c <= '9' || 'a' <= c <= 'f'
}

/// Appends what somebody says, as JSON.
pub(crate) fn push_said(out: &mut String, role: &str, content: &str)
    ensures
        final(out)@ == old(out)@ + said(role@, content@),
{
    let literal = quote(content);
    out.append("{\"role\":\"");
    out.append(role);
    out.append("\",\"content\":");
    out.append(&literal);
    out.append("}");
    assert(out@ =~= old(out)@ + said(role@, content@));
}

impl LlmRequest {
    /// A request without sampling parameters.
    pub fn new(model: &str, messages: Vec<LlmMessage>) -> (request: Self)
        ensures
            request@ == (RequestView {
                model: model@,
                messages: messages_view(messages@),
                temperature: None,
                max_tokens: None,
            }),
    {
        LlmRequest { model: model.to_owned(), messages, temperature: None, max_tokens: None }
    }

    /// The request as JSON.
    pub fn to_json(&self) -> (text: String)
        ensures
            text@ == request_text(self@),
    {
        let mut out = "{\"model\":".to_owned();
        let model = quote(&self.model);
        out.append(&model);
        out.append(",\"messages\":[");
        self.push_messages(&mut out);
        out.append("]");
        self.push_parameters(&mut out);
        proof {
            let items = array_items(message_texts(self@.messages));
            let end = "]"@ + parameters_text(self@);
            let list = items + end;
            lemma_regroup(
                "{\"model\":"@ + json_string(self@.model) + ",\"messages\":["@ + items,
                "]"@,
                parameters_text(self@),
            );
            lemma_regroup(
                "{\"model\":"@ + json_string(self@.model) + ",\"messages\":["@,
                items,
                end,
            );
            lemma_regroup("{\"model\":"@ + json_string(self@.model), ",\"messages\":["@, list);
            lemma_regroup("{\"model\":"@, json_string(self@.model), ",\"messages\":["@ + list);
        }
        out
    }

    /// Appends the messages, each as JSON, with commas in between.
    fn push_messages(&self, out: &mut String)
        ensures
            final(out)@ == old(out)@ + array_items(message_texts(self@.messages)),
    {
        let ghost texts = message_texts(self@.messages);
        assert(texts.take(0) =~= Seq::empty());
        let mut i: usize = 0;
        while i < self.messages.len()
            invariant
                i <= self.messages@.len(),
                texts == message_texts(self@.messages),
                out@ =~= old(out)@ + array_items(texts.take(i as int)),
            decreases self.messages@.len() - i,
        {
            proof {
                assert(texts.take(i + 1) =~= texts.take(i as int).push(texts[i as int]));
                lemma_array_items_of_push(texts.take(i as int), texts[i as int]);
            }
            if i > 0 {
                out.append(",");
            }
            push_said(out, self.messages[i].role.as_str(), &self.messages[i].content);
            i = i + 1;
        }
        assert(texts.take(i as int) =~= texts);
    }

    /// Appends what follows the messages.
    fn push_parameters(&self, out: &mut String)
        ensures
            final(out)@ == old(out)@ + parameters_text(self@),
    {
        let temperature: String = match &self.temperature {
            Some(text) => if is_number(text) {
                text.clone()
            } else {
                quote(text)
            },
            None => "null".to_owned(),
        };
        let mut limit = String::new();
        match self.max_tokens {
            Some(n) => {
                push_decimal(&mut limit, n as u128);
            },
            None => {
                limit.append("null");
            },
        }
        assert(temperature@ == optional_number(self@.temperature));
        assert(limit@ =~= optional_count(self@.max_tokens));
        out.append(",\"temperature\":");
        out.append(&temperature);
        out.append(",\"max_tokens\":");
        out.append(&limit);
        out.append("}");
        proof {
            let before = old(out)@;
            let end = limit@ + "}"@;
            lemma_regroup(
                before + ",\"temperature\":"@ + temperature@ + ",\"max_tokens\":"@,
                limit@,
                "}"@,
            );
            lemma_regroup(
                before + ",\"temperature\":"@ + temperature@,
                ",\"max_tokens\":"@,
                end,
            );
            lemma_regroup(
                before + ",\"temperature\":"@,
                temperature@,
                ",\"max_tokens\":"@ + end,
            );
            lemma_regroup(
                before,
                ",\"temperature\":"@,
                temperature@ + (",\"max_tokens\":"@ + end),
            );
        }
    }

    /// Stable SHA-256 of the serialized request, as 64 hexadecimal digits.
    /// Serves as the prompt-cache key: two requests with identical models,
    /// messages and parameters produce the same hash.
    pub fn prompt_hash(&self) -> (hash: String)
        ensures
            hash@ == cache_key(self@),
            hash@ == hex_text(sha256(encode_utf8(request_text(self@)))),
            hash@.len() == 64,
            forall|i: int| 0 <= i < hash@.len() ==> is_hex_digit(#[trigger] hash@[i]),
    {
        let text = self.to_json();
        let digest = sha256_digest(text.as_str().as_bytes());
        hex(&digest)
    }
}

// ---------------------------------------------------------------------------
// Laws of the cache key
// ---------------------------------------------------------------------------

/// Requests with identical models, messages and parameters have the same key.
pub proof fn law_equal_requests_share_a_key(a: RequestView, b: RequestView)
    requires
        a.model == b.model,
        a.messages == b.messages,
        a.temperature == b.temperature,
        a.max_tokens == b.max_tokens,
    ensures
        cache_key(a) == cache_key(b),
{
}

/// Three texts in a row are the same, whichever two are put together first.
proof fn lemma_regroup(a: Seq<char>, b: Seq<char>, c: Seq<char>)
    ensures
        a + b + c == a + (b + c),
{
    assert(a + b + c =~= a + (b + c));
}

/// Where two texts go on after the same beginning, what they go on with is the
/// same.
proof fn lemma_cancel(head: Seq<char>, x: Seq<char>, y: Seq<char>)
    requires
        head + x == head + y,
    ensures
        x == y,
{
    assert(x =~= (head + x).skip(head.len() as int));
    assert(y =~= (head + y).skip(head.len() as int));
}

/// A message in JSON tells its role and content, and where it ends.
proof fn lemma_message_decodes(a: MessageView, b: MessageView, x: Seq<char>, y: Seq<char>)
    requires
        message_text(a) + x == message_text(b) + y,
    ensures
        a == b,
        x == y,
{
    let open = "{\"role\":\""@;
    let middle = "\",\"content\":"@;
    let after_a = middle + json_string(a.content) + ("}"@ + x);
    let after_b = middle + json_string(b.content) + ("}"@ + y);
    let left = a.role.name() + after_a;
    let right = b.role.name() + after_b;
    assert(message_text(a) + x =~= open + left);
    assert(message_text(b) + y =~= open + right);
    lemma_cancel(open, left, right);
    assert(a.role == b.role) by {
        reveal_strlit("system");
        reveal_strlit("user");
        reveal_strlit("assistant");
        assert(left[0] == a.role.name()[0]);
        assert(right[0] == b.role.name()[0]);
    }
    lemma_cancel(a.role.name(), after_a, after_b);
    assert(after_a =~= middle + (json_string(a.content) + ("}"@ + x)));
    assert(after_b =~= middle + (json_string(b.content) + ("}"@ + y)));
    lemma_cancel(
        middle,
        json_string(a.content) + ("}"@ + x),
        json_string(b.content) + ("}"@ + y),
    );
    lemma_json_string_decodes(a.content, b.content, "}"@ + x, "}"@ + y);
    lemma_cancel("}"@, x, y);
}

/// The further messages of an array tell each message, and where the array
/// ends.
proof fn lemma_further_messages_decode(
    a: Seq<MessageView>,
    b: Seq<MessageView>,
    x: Seq<char>,
    y: Seq<char>,
)
    requires
        further_items(message_texts(a)) + ("]"@ + x) == further_items(message_texts(b)) + ("]"@ + y),
    ensures
        a == b,
        x == y,
    decreases a.len(),
{
    reveal_strlit(",");
    reveal_strlit("]");
    let p = "]"@ + x;
    let q = "]"@ + y;
    let left = further_items(message_texts(a)) + p;
    let right = further_items(message_texts(b)) + q;
    if a.len() == 0 || b.len() == 0 {
        if a.len() > 0 {
            assert(left[0] == ',' && right[0] == q[0]);
            assert(false);
        }
        if b.len() > 0 {
            assert(right[0] == ',' && left[0] == p[0]);
            assert(false);
        }
        assert(left =~= p && right =~= q);
        lemma_cancel("]"@, x, y);
        assert(a =~= b);
    } else {
        let rest_a = further_items(message_texts(a.skip(1))) + p;
        let rest_b = further_items(message_texts(b.skip(1))) + q;
        assert(message_texts(a).skip(1) =~= message_texts(a.skip(1)));
        assert(message_texts(b).skip(1) =~= message_texts(b.skip(1)));
        assert(left =~= ","@ + (message_text(a[0]) + rest_a));
        assert(right =~= ","@ + (message_text(b[0]) + rest_b));
        lemma_cancel(","@, message_text(a[0]) + rest_a, message_text(b[0]) + rest_b);
        lemma_message_decodes(a[0], b[0], rest_a, rest_b);
        lemma_further_messages_decode(a.skip(1), b.skip(1), x, y);
        assert(a =~= seq![a[0]] + a.skip(1));
        assert(b =~= seq![b[0]] + b.skip(1));
    }
}

/// The messages of an array tell each message, and where the array ends.
proof fn lemma_messages_decode(
    a: Seq<MessageView>,
    b: Seq<MessageView>,
    x: Seq<char>,
    y: Seq<char>,
)
    requires
        array_items(message_texts(a)) + ("]"@ + x) == array_items(message_texts(b)) + ("]"@ + y),
    ensures
        a == b,
        x == y,
{
    reveal_strlit("{\"role\":\"");
    reveal_strlit("]");
    let p = "]"@ + x;
    let q = "]"@ + y;
    let left = array_items(message_texts(a)) + p;
    let right = array_items(message_texts(b)) + q;
    if a.len() == 0 || b.len() == 0 {
        if a.len() > 0 {
            assert(left[0] == '{' && right[0] == q[0]);
            assert(false);
        }
        if b.len() > 0 {
            assert(right[0] == '{' && left[0] == p[0]);
            assert(false);
        }
        assert(left =~= p && right =~= q);
        lemma_cancel("]"@, x, y);
        assert(a =~= b);
    } else {
        let rest_a = further_items(message_texts(a.skip(1))) + p;
        let rest_b = further_items(message_texts(b.skip(1))) + q;
        assert(message_texts(a).skip(1) =~= message_texts(a.skip(1)));
        assert(message_texts(b).skip(1) =~= message_texts(b.skip(1)));
        assert(left =~= message_text(a[0]) + rest_a);
        assert(right =~= message_text(b[0]) + rest_b);
        lemma_message_decodes(a[0], b[0], rest_a, rest_b);
        lemma_further_messages_decode(a.skip(1), b.skip(1), x, y);
        assert(a =~= seq![a[0]] + a.skip(1));
        assert(b =~= seq![b[0]] + b.skip(1));
    }
}

/// Two texts without a comma that stand in front of one are the same if the
/// whole is.
proof fn lemma_up_to_comma(a: Seq<char>, b: Seq<char>, x: Seq<char>, y: Seq<char>)
    requires
        a + (seq![','] + x) == b + (seq![','] + y),
        forall|i: int| 0 <= i < a.len() ==> #[trigger] a[i] != ',',
        forall|i: int| 0 <= i < b.len() ==> #[trigger] b[i] != ',',
    ensures
        a == b,
        x == y,
{
    let left = a + (seq![','] + x);
    let right = b + (seq![','] + y);
    assert(left[a.len() as int] == ',');
    assert(right[b.len() as int] == ',');
    if a.len() < b.len() {
        assert(right[a.len() as int] == b[a.len() as int]);
    } else if b.len() < a.len() {
        assert(left[b.len() as int] == a[b.len() as int]);
    }
    assert(a =~= left.take(a.len() as int));
    assert(b =~= right.take(b.len() as int));
    assert(x =~= left.skip(a.len() as int + 1));
    assert(y =~= right.skip(b.len() as int + 1));
}

/// A request can be read back from its JSON: requests that differ anywhere, in
/// model, messages, temperature or limit, are hashed from different bytes.
pub proof fn law_different_requests_hash_different_bytes(a: RequestView, b: RequestView)
    requires
        a != b,
    ensures
        encode_utf8(request_text(a)) != encode_utf8(request_text(b)),
{
    if encode_utf8(request_text(a)) == encode_utf8(request_text(b)) {
        lemma_utf8_injective(request_text(a), request_text(b));
        lemma_request_decodes(a, b);
    }
}

proof fn lemma_request_decodes(a: RequestView, b: RequestView)
    requires
        request_text(a) == request_text(b),
    ensures
        a == b,
{
    let list_a = array_items(message_texts(a.messages)) + ("]"@ + parameters_text(a));
    let list_b = array_items(message_texts(b.messages)) + ("]"@ + parameters_text(b));
    let model_a = json_string(a.model) + (",\"messages\":["@ + list_a);
    let model_b = json_string(b.model) + (",\"messages\":["@ + list_b);
    lemma_cancel("{\"model\":"@, model_a, model_b);
    lemma_json_string_decodes(
        a.model,
        b.model,
        ",\"messages\":["@ + list_a,
        ",\"messages\":["@ + list_b,
    );
    lemma_cancel(",\"messages\":["@, list_a, list_b);
    lemma_messages_decode(a.messages, b.messages, parameters_text(a), parameters_text(b));
    lemma_parameters_decode(a, b);
}

proof fn lemma_parameters_decode(a: RequestView, b: RequestView)
    requires
        parameters_text(a) == parameters_text(b),
    ensures
        a.temperature == b.temperature,
        a.max_tokens == b.max_tokens,
{
    let limit_a = ",\"max_tokens\":"@ + (optional_count(a.max_tokens) + "}"@);
    let limit_b = ",\"max_tokens\":"@ + (optional_count(b.max_tokens) + "}"@);
    lemma_cancel(
        ",\"temperature\":"@,
        optional_number(a.temperature) + limit_a,
        optional_number(b.temperature) + limit_b,
    );
    assert(limit_a.len() > 0 && limit_a[0] == ',' && limit_b.len() > 0 && limit_b[0] == ',') by {
        reveal_strlit(",\"max_tokens\":");
    }
    lemma_optional_number_decodes(a.temperature, b.temperature, limit_a, limit_b);
    lemma_cancel(
        ",\"max_tokens\":"@,
        optional_count(a.max_tokens) + "}"@,
        optional_count(b.max_tokens) + "}"@,
    );
    lemma_optional_count_decodes(a.max_tokens, b.max_tokens);
}

/// The first character of an optional number tells whether it is none, a string
/// or a number; none and a number have no comma.
proof fn lemma_optional_number(text: Option<Seq<char>>)
    ensures
        optional_number(text).len() > 0,
        text is None <==> optional_number(text)[0] == 'n',
        text matches Some(t) ==> (is_number_text(t) <==> optional_number(text)[0] != '"'),
        !(text matches Some(t) && !is_number_text(t)) ==> forall|i: int|
            0 <= i < optional_number(text).len() ==> #[trigger] optional_number(text)[i] != ',',
{
    reveal_strlit("null");
    if let Some(t) = text {
        if is_number_text(t) {
            assert(is_number_char(t[0]));
        } else {
            assert(json_string(t)[0] == '"');
        }
    }
}

/// An optional number in front of a comma tells itself, and where it ends.
proof fn lemma_optional_number_decodes(
    a: Option<Seq<char>>,
    b: Option<Seq<char>>,
    x: Seq<char>,
    y: Seq<char>,
)
    requires
        optional_number(a) + x == optional_number(b) + y,
        x.len() > 0 && x[0] == ',',
        y.len() > 0 && y[0] == ',',
    ensures
        a == b,
        x == y,
{
    let p = optional_number(a);
    let q = optional_number(b);
    lemma_optional_number(a);
    lemma_optional_number(b);
    assert((p + x)[0] == p[0] && (q + y)[0] == q[0]);
    if p[0] == '"' {
        lemma_json_string_decodes(a->0, b->0, x, y);
    } else {
        assert(x =~= seq![','] + x.skip(1));
        assert(y =~= seq![','] + y.skip(1));
        lemma_up_to_comma(p, q, x.skip(1), y.skip(1));
    }
}

proof fn lemma_optional_count_decodes(a: Option<u32>, b: Option<u32>)
    requires
        optional_count(a) + "}"@ == optional_count(b) + "}"@,
    ensures
        a == b,
{
    let x = optional_count(a);
    let y = optional_count(b);
    assert((x + "}"@).len() == x.len() + "}"@.len());
    assert((y + "}"@).len() == y.len() + "}"@.len());
    assert(x =~= (x + "}"@).take(x.len() as int));
    assert(y =~= (y + "}"@).take(y.len() as int));
    reveal_strlit("null");
    if let Some(m) = a {
        lemma_decimal_is_digits(m as nat);
        assert('0' <= decimal(m as nat)[0] <= '9');
    }
    if let Some(n) = b {
        lemma_decimal_is_digits(n as nat);
        assert('0' <= decimal(n as nat)[0] <= '9');
    }
    if a is Some && b is Some {
        lemma_decimal_injective(a->0 as nat, b->0 as nat);
    }
}

/// Requests that differ anywhere, in model, in any message at any position, in
/// temperature or in limit, have keys that are the digests of different bytes:
/// those of the whole of their JSON. So the keys differ wherever the digests of
/// these bytes do.
pub proof fn law_different_requests_have_keys_of_different_bytes(a: RequestView, b: RequestView)
    requires
        ({
            ||| a.model != b.model
            ||| a.messages.len() != b.messages.len()
            ||| exists|i: int|
                0 <= i < a.messages.len() && (#[trigger] a.messages[i]) != b.messages[i]
            ||| a.temperature != b.temperature
            ||| a.max_tokens != b.max_tokens
        }),
    ensures
        exists|x: Seq<u8>, y: Seq<u8>|
            {
                &&& x != y
                &&& x == encode_utf8(request_text(a))
                &&& y == encode_utf8(request_text(b))
                &&& cache_key(a) == hex_text(#[trigger] sha256(x))
                &&& cache_key(b) == hex_text(#[trigger] sha256(y))
            },
        sha256(encode_utf8(request_text(a))) != sha256(encode_utf8(request_text(b))) ==> cache_key(
            a,
        ) != cache_key(b),
{
    law_different_requests_hash_different_bytes(a, b);
    let x = encode_utf8(request_text(a));
    let y = encode_utf8(request_text(b));
    assert(cache_key(a) == hex_text(sha256(x)));
    assert(cache_key(b) == hex_text(sha256(y)));
    if cache_key(a) == cache_key(b) {
        law_hex_text_is_injective(sha256(x), sha256(y));
    }
}

/// The JSON of a request holds its model, each of its messages, its temperature
/// and its limit, under their names and in this order.
pub proof fn law_json_of_a_request_is_complete(request: RequestView)
    ensures
        request_text(request) == "{\"model\":"@ + json_string(request.model) + ",\"messages\":["@
            + array_items(message_texts(request.messages)) + "]"@ + ",\"temperature\":"@ + (
        match request.temperature {
            None => "null"@,
            Some(number) => if is_number_text(number) {
                number
            } else {
                json_string(number)
            },
        }) + ",\"max_tokens\":"@ + (match request.max_tokens {
            None => "null"@,
            Some(n) => decimal(n as nat),
        }) + "}"@,
        message_texts(request.messages).len() == request.messages.len(),
        forall|i: int|
            0 <= i < request.messages.len() ==> #[trigger] message_texts(request.messages)[i]
                == "{\"role\":\""@ + (match request.messages[i].role {
                LlmRole::System => "system"@,
                LlmRole::User => "user"@,
                LlmRole::Assistant => "assistant"@,
            }) + "\",\"content\":"@ + json_string(request.messages[i].content) + "}"@,
{
    let model = json_string(request.model);
    let items = array_items(message_texts(request.messages));
    let temperature = optional_number(request.temperature);
    let limit = optional_count(request.max_tokens);
    let head = "{\"model\":"@ + model + ",\"messages\":["@ + items + "]"@;
    lemma_regroup(head + ",\"temperature\":"@ + temperature + ",\"max_tokens\":"@, limit, "}"@);
    lemma_regroup(
        head + ",\"temperature\":"@ + temperature,
        ",\"max_tokens\":"@,
        limit + "}"@,
    );
    lemma_regroup(
        head + ",\"temperature\":"@,
        temperature,
        ",\"max_tokens\":"@ + (limit + "}"@),
    );
    lemma_regroup(
        head,
        ",\"temperature\":"@,
        temperature + (",\"max_tokens\":"@ + (limit + "}"@)),
    );
    let rest = parameters_text(request);
    lemma_regroup("{\"model\":"@ + model + ",\"messages\":["@ + items, "]"@, rest);
    lemma_regroup("{\"model\":"@ + model + ",\"messages\":["@, items, "]"@ + rest);
    lemma_regroup("{\"model\":"@ + model, ",\"messages\":["@, items + ("]"@ + rest));
    lemma_regroup("{\"model\":"@, model, ",\"messages\":["@ + (items + ("]"@ + rest)));
}

/// What a request, a message and a response are taken for is all that they hold.
pub proof fn law_model_views_keep_every_field(
    request: LlmRequest,
    message: LlmMessage,
    response: LlmResponse,
)
    ensures
        request@.model == request.model@,
        request@.messages.len() == request.messages@.len(),
        forall|i: int|
            0 <= i < request.messages@.len() ==> {
                &&& (#[trigger] request@.messages[i]).role == request.messages@[i].role
                &&& request@.messages[i].content == request.messages@[i].content@
            },
        match request.temperature {
            Some(text) => request@.temperature == Some(text@),
            None => request@.temperature is None,
        },
        request@.max_tokens == request.max_tokens,
        message@.role == message.role,
        message@.content == message.content@,
        response@.model == response.model@,
        response@.content == response.content@,
        response@.tokens_in == response.tokens_in,
        response@.tokens_out == response.tokens_out,
{
}

} // verus!
