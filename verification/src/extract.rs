//! The prompt, model and streaming flag of a request body, by provider.

use vstd::prelude::*;

use crate::json;
use crate::json::{Json, JsonTree};
use crate::key;
use crate::key::CanonicalPrompt;
use crate::text;

verus! {

/// What a request body asks of a model.
#[derive(Debug)]
pub struct Extracted {
    pub prompt: CanonicalPrompt,
    pub model: String,
    pub stream: bool,
}

impl Clone for Extracted {
    fn clone(&self) -> (r: Extracted)
        ensures
            r == *self,
    {
        Extracted {
            prompt: self.prompt.clone(),
            model: self.model.clone(),
            stream: self.stream,
        }
    }
}

#[derive(Debug)]
pub enum ExtractOutcome {
    Found(Extracted),
    /// Body is structurally valid but has no extractable prompt — forward as-is, no cache.
    Skip(&'static str),
}

/// The provider whose request shape a body has.
#[derive(Debug, Clone, Copy, PartialEq, Eq, Structural)]
pub enum PromptExtractor {
    Openai,
    Anthropic,
    Cohere,
    Mistral,
    Bedrock,
    Vertex,
}

/// The view of an [`Extracted`].
#[verifier::ext_equal]
pub struct ExtractedView {
    pub prompt: Seq<char>,
    pub model: Seq<char>,
    pub stream: bool,
}

/// The view of an [`ExtractOutcome`].
#[verifier::ext_equal]
pub enum OutcomeView {
    Found(ExtractedView),
    Skip(Seq<char>),
}

impl View for Extracted {
    type V = ExtractedView;

    open spec fn view(&self) -> ExtractedView {
        ExtractedView { prompt: self.prompt@, model: self.model@, stream: self.stream }
    }
}

impl View for ExtractOutcome {
    type V = OutcomeView;

    open spec fn view(&self) -> OutcomeView {
        match self {
            ExtractOutcome::Found(e) => OutcomeView::Found(e@),
            ExtractOutcome::Skip(why) => OutcomeView::Skip(why@),
        }
    }
}

// ---------------------------------------------------------------------
// Messages
// ---------------------------------------------------------------------

/// How one entry of a message list holds its role and its text.
#[derive(Clone, Copy)]
pub enum MessageShape {
    /// `role` and `content`, both texts.
    Chat,
    /// `role`, and `content` as a text or as a list whose first entry has a `text`.
    Converse,
    /// `parts`, of which the first `text` counts; without a `role` it is the user's.
    Contents,
}

/// The first `text` that an entry of the list has.
pub open spec fn first_text(parts: Seq<JsonTree>) -> Option<Seq<char>>
    decreases parts.len(),
{
    if parts.len() == 0 {
        None
    } else if parts[0].text_field("text"@) is Some {
        parts[0].text_field("text"@)
    } else {
        first_text(parts.drop_first())
    }
}

/// The content of an entry that may be a text or a list of blocks.
pub open spec fn converse_content(m: JsonTree) -> Option<Seq<char>> {
    if m.text_field("content"@) is Some {
        m.text_field("content"@)
    } else {
        match m.items_field("content"@) {
            Some(blocks) => if blocks.len() > 0 {
                blocks[0].text_field("text"@)
            } else {
                None
            },
            None => None,
        }
    }
}

/// The role of an entry.
pub open spec fn message_role(shape: MessageShape, m: JsonTree) -> Option<Seq<char>> {
    match (shape, m.text_field("role"@)) {
        (_, Some(role)) => Some(role),
        (MessageShape::Contents, None) => Some("user"@),
        (_, None) => None,
    }
}

/// The text of an entry.
pub open spec fn message_content(shape: MessageShape, m: JsonTree) -> Option<Seq<char>> {
    match shape {
        MessageShape::Chat => m.text_field("content"@),
        MessageShape::Converse => converse_content(m),
        MessageShape::Contents => match m.items_field("parts"@) {
            Some(parts) => first_text(parts),
            None => None,
        },
    }
}

/// The role and the text of each entry that has both, in order.
pub open spec fn message_pairs(shape: MessageShape, items: Seq<JsonTree>) -> Seq<
    (Seq<char>, Seq<char>),
>
    decreases items.len(),
{
    if items.len() == 0 {
        seq![]
    } else {
        let before = message_pairs(shape, items.drop_last());
        match (message_role(shape, items.last()), message_content(shape, items.last())) {
            (Some(role), Some(content)) => before.push((role, content)),
            _ => before,
        }
    }
}

fn role_of<'a>(shape: MessageShape, m: &'a Json) -> (r: Option<&'a str>)
    ensures
        json::text_view(r) == message_role(shape, m@),
{
    match (shape, m.text_field("role")) {
        (_, Some(role)) => Some(role),
        (MessageShape::Contents, None) => Some("user"),
        (_, None) => None,
    }
}

fn find_text<'a>(parts: &'a Vec<Json>) -> (r: Option<&'a str>)
    ensures
        json::text_view(r) == first_text(json::trees(parts@)),
{
    let ghost all = json::trees(parts@);
    assert(all.skip(0) =~= all);
    let mut i: usize = 0;
    while i < parts.len()
        invariant
            i <= parts@.len(),
            all == json::trees(parts@),
            first_text(all) == first_text(all.skip(i as int)),
        decreases parts@.len() - i,
    {
        proof {
            assert(all.skip(i as int)[0] == parts@[i as int]@);
            assert(all.skip(i as int).drop_first() =~= all.skip(i + 1));
        }
        let t = parts[i].text_field("text");
        if t.is_some() {
            return t;
        }
        i += 1;
    }
    assert(all.skip(i as int).len() == 0);
    None
}

fn content_of<'a>(shape: MessageShape, m: &'a Json) -> (r: Option<&'a str>)
    ensures
        json::text_view(r) == message_content(shape, m@),
{
    match shape {
        MessageShape::Chat => m.text_field("content"),
        MessageShape::Converse => {
            let direct = m.text_field("content");
            if direct.is_some() {
                return direct;
            }
            match m.items_field("content") {
                Some(blocks) => if blocks.len() > 0 {
                    assert(json::trees(blocks@)[0] == blocks@[0]@);
                    blocks[0].text_field("text")
                } else {
                    None
                },
                None => None,
            }
        },
        MessageShape::Contents => match m.items_field("parts") {
            Some(parts) => find_text(parts),
            None => None,
        },
    }
}

fn pairs_of<'a>(shape: MessageShape, items: &'a Vec<Json>) -> (r: Vec<(&'a str, &'a str)>)
    ensures
        key::message_views(r@) == message_pairs(shape, json::trees(items@)),
{
    let mut out: Vec<(&'a str, &'a str)> = Vec::new();
    let ghost all = json::trees(items@);
    let mut i: usize = 0;
    assert(key::message_views(out@) =~= seq![]);
    while i < items.len()
        invariant
            i <= items@.len(),
            all == json::trees(items@),
            key::message_views(out@) == message_pairs(shape, all.take(i as int)),
        decreases items@.len() - i,
    {
        let ghost before = out@;
        proof {
            assert(all.take(i + 1).drop_last() =~= all.take(i as int));
            assert(all.take(i + 1).last() == items@[i as int]@);
        }
        match (role_of(shape, &items[i]), content_of(shape, &items[i])) {
            (Some(role), Some(content)) => {
                out.push((role, content));
                assert(key::message_views(out@) =~= key::message_views(before).push(
                    (role@, content@),
                ));
            },
            _ => {},
        }
        i += 1;
    }
    assert(all.take(i as int) =~= all);
    out
}

// ---------------------------------------------------------------------
// Providers
// ---------------------------------------------------------------------

/// The `stream` field, where it is a boolean; else false.
pub open spec fn stream_flag(body: JsonTree) -> bool {
    match body.get("stream"@) {
        Some(v) => v.boolean() == Some(true),
        None => false,
    }
}

/// A message list that is there and not empty.
pub open spec fn filled_list(body: JsonTree, name: Seq<char>) -> Option<Seq<JsonTree>> {
    match body.items_field(name) {
        Some(items) => if items.len() > 0 {
            Some(items)
        } else {
            None
        },
        None => None,
    }
}

/// What a body gives whose messages stand in a list: the reasons to skip it are
/// a missing model, a missing or empty list, and a list without any usable entry.
pub open spec fn list_outcome(
    body: JsonTree,
    shape: MessageShape,
    list: Seq<char>,
    stream: bool,
    no_model: Seq<char>,
    no_list: Seq<char>,
    no_text: Seq<char>,
) -> OutcomeView {
    match (body.text_field("model"@), filled_list(body, list)) {
        (None, _) => OutcomeView::Skip(no_model),
        (_, None) => OutcomeView::Skip(no_list),
        (Some(model), Some(items)) => {
            let pairs = message_pairs(shape, items);
            if pairs.len() == 0 {
                OutcomeView::Skip(no_text)
            } else {
                OutcomeView::Found(
                    ExtractedView { prompt: key::canonical_messages(pairs), model, stream },
                )
            }
        },
    }
}

/// OpenAI chat: `model`, `messages`, `stream`.
pub open spec fn openai_outcome(body: JsonTree) -> OutcomeView {
    list_outcome(
        body,
        MessageShape::Chat,
        "messages"@,
        stream_flag(body),
        "openai: missing `model`"@,
        "openai: empty or missing `messages`"@,
        "openai: no string-content messages"@,
    )
}

/// Anthropic messages: the same fields as OpenAI chat.
pub open spec fn anthropic_outcome(body: JsonTree) -> OutcomeView {
    list_outcome(
        body,
        MessageShape::Chat,
        "messages"@,
        stream_flag(body),
        "anthropic: missing `model`"@,
        "anthropic: empty or missing `messages`"@,
        "anthropic: no string-content messages"@,
    )
}

/// Vertex `generateContent`: `model` and `contents`; streaming is not a field.
pub open spec fn vertex_outcome(body: JsonTree) -> OutcomeView {
    list_outcome(
        body,
        MessageShape::Contents,
        "contents"@,
        false,
        "vertex: missing `model`"@,
        "vertex: missing `contents`"@,
        "vertex: no text parts"@,
    )
}

/// Cohere chat: `model`, `message`, `stream`.
pub open spec fn cohere_outcome(body: JsonTree) -> OutcomeView {
    match (body.text_field("model"@), body.text_field("message"@)) {
        (None, _) => OutcomeView::Skip("cohere: missing `model`"@),
        (_, None) => OutcomeView::Skip("cohere: missing `message`"@),
        (Some(model), Some(message)) => OutcomeView::Found(
            ExtractedView { prompt: text::collapsed(message), model, stream: stream_flag(body) },
        ),
    }
}

/// The model of a Bedrock body: `modelId`, else `model`.
pub open spec fn bedrock_model(body: JsonTree) -> Option<Seq<char>> {
    if body.text_field("modelId"@) is Some {
        body.text_field("modelId"@)
    } else {
        body.text_field("model"@)
    }
}

/// The prompt of a Bedrock body: the messages where any is usable, else
/// `inputText`, else `prompt`.
pub open spec fn bedrock_prompt(body: JsonTree) -> Option<Seq<char>> {
    let pairs = match body.items_field("messages"@) {
        Some(items) => message_pairs(MessageShape::Converse, items),
        None => seq![],
    };
    if pairs.len() > 0 {
        Some(key::canonical_messages(pairs))
    } else {
        match (body.text_field("inputText"@), body.text_field("prompt"@)) {
            (Some(t), _) => Some(text::collapsed(t)),
            (None, Some(t)) => Some(text::collapsed(t)),
            (None, None) => None,
        }
    }
}

/// Bedrock Converse and InvokeModel; streaming is selected by the endpoint.
pub open spec fn bedrock_outcome(body: JsonTree) -> OutcomeView {
    match (bedrock_model(body), bedrock_prompt(body)) {
        (None, _) => OutcomeView::Skip("bedrock: missing `modelId`"@),
        (_, None) => OutcomeView::Skip("bedrock: no extractable prompt field"@),
        (Some(model), Some(prompt)) => OutcomeView::Found(
            ExtractedView { prompt, model, stream: false },
        ),
    }
}

/// What a body gives under a provider.
pub open spec fn outcome(kind: PromptExtractor, body: JsonTree) -> OutcomeView {
    match kind {
        PromptExtractor::Openai => openai_outcome(body),
        PromptExtractor::Anthropic => anthropic_outcome(body),
        PromptExtractor::Cohere => cohere_outcome(body),
        PromptExtractor::Mistral => openai_outcome(body),
        PromptExtractor::Bedrock => bedrock_outcome(body),
        PromptExtractor::Vertex => vertex_outcome(body),
    }
}

impl PromptExtractor {
    /// Reads the prompt, the model and the streaming flag off a body.
    pub fn extract(&self, body: &Json) -> (r: ExtractOutcome)
        ensures
            r@ == outcome(*self, body@),
    {
        match self {
            PromptExtractor::Openai => extract_openai(body),
            PromptExtractor::Anthropic => extract_anthropic(body),
            PromptExtractor::Cohere => extract_cohere(body),
            PromptExtractor::Mistral => extract_mistral(body),
            PromptExtractor::Bedrock => extract_bedrock(body),
            PromptExtractor::Vertex => extract_vertex(body),
        }
    }
}

fn streams(body: &Json) -> (r: bool)
    ensures
        r == stream_flag(body@),
{
    match body.get("stream") {
        Some(v) => match v.as_bool() {
            Some(b) => b,
            None => false,
        },
        None => false,
    }
}

fn extract_list(
    body: &Json,
    shape: MessageShape,
    list: &str,
    stream: bool,
    no_model: &'static str,
    no_list: &'static str,
    no_text: &'static str,
) -> (r: ExtractOutcome)
    ensures
        r@ == list_outcome(body@, shape, list@, stream, no_model@, no_list@, no_text@),
{
    let model = match body.text_field("model") {
        Some(m) => m,
        None => return ExtractOutcome::Skip(no_model),
    };
    let items = match body.items_field(list) {
        Some(m) => m,
        None => return ExtractOutcome::Skip(no_list),
    };
    if items.len() == 0 {
        return ExtractOutcome::Skip(no_list);
    }
    let pairs = pairs_of(shape, items);
    assert(key::message_views(pairs@).len() == pairs@.len());
    if pairs.len() == 0 {
        return ExtractOutcome::Skip(no_text);
    }
    ExtractOutcome::Found(
        Extracted {
            prompt: CanonicalPrompt::from_messages(pairs.as_slice()),
            model: text::owned(model),
            stream,
        },
    )
}

fn extract_openai(body: &Json) -> (r: ExtractOutcome)
    ensures
        r@ == openai_outcome(body@),
{
    extract_list(
        body,
        MessageShape::Chat,
        "messages",
        streams(body),
        "openai: missing `model`",
        "openai: empty or missing `messages`",
        "openai: no string-content messages",
    )
}

fn extract_anthropic(body: &Json) -> (r: ExtractOutcome)
    ensures
        r@ == anthropic_outcome(body@),
{
    extract_list(
        body,
        MessageShape::Chat,
        "messages",
        streams(body),
        "anthropic: missing `model`",
        "anthropic: empty or missing `messages`",
        "anthropic: no string-content messages",
    )
}

fn extract_cohere(body: &Json) -> (r: ExtractOutcome)
    ensures
        r@ == cohere_outcome(body@),
{
    let model = match body.text_field("model") {
        Some(m) => m,
        None => return ExtractOutcome::Skip("cohere: missing `model`"),
    };
    let message = match body.text_field("message") {
        Some(m) => m,
        None => return ExtractOutcome::Skip("cohere: missing `message`"),
    };
    ExtractOutcome::Found(
        Extracted {
            prompt: CanonicalPrompt::from_text(message),
            model: text::owned(model),
            stream: streams(body),
        },
    )
}

/// Mistral chat is OpenAI-compatible.
fn extract_mistral(body: &Json) -> (r: ExtractOutcome)
    ensures
        r@ == openai_outcome(body@),
{
    extract_openai(body)
}

fn extract_bedrock(body: &Json) -> (r: ExtractOutcome)
    ensures
        r@ == bedrock_outcome(body@),
{
    let by_id = body.text_field("modelId");
    let found = if by_id.is_some() {
        by_id
    } else {
        body.text_field("model")
    };
    let model = match found {
        Some(m) => text::owned(m),
        None => return ExtractOutcome::Skip("bedrock: missing `modelId`"),
    };
    if let Some(items) = body.items_field("messages") {
        let pairs = pairs_of(MessageShape::Converse, items);
        assert(key::message_views(pairs@).len() == pairs@.len());
        if pairs.len() > 0 {
            return ExtractOutcome::Found(
                Extracted {
                    prompt: CanonicalPrompt::from_messages(pairs.as_slice()),
                    model,
                    stream: false,
                },
            );
        }
    }
    if let Some(prompt) = body.text_field("inputText") {
        return ExtractOutcome::Found(
            Extracted { prompt: CanonicalPrompt::from_text(prompt), model, stream: false },
        );
    }
    if let Some(prompt) = body.text_field("prompt") {
        return ExtractOutcome::Found(
            Extracted { prompt: CanonicalPrompt::from_text(prompt), model, stream: false },
        );
    }
    ExtractOutcome::Skip("bedrock: no extractable prompt field")
}

fn extract_vertex(body: &Json) -> (r: ExtractOutcome)
    ensures
        r@ == vertex_outcome(body@),
{
    extract_list(
        body,
        MessageShape::Contents,
        "contents",
        false,
        "vertex: missing `model`",
        "vertex: missing `contents`",
        "vertex: no text parts",
    )
}

// ---------------------------------------------------------------------
// Laws
// ---------------------------------------------------------------------

/// The messages of a list are read one by one, in order: those of two lists behind
/// each other are those of the one, and behind them those of the other.
pub proof fn messages_are_read_in_order(shape: MessageShape, a: Seq<JsonTree>, b: Seq<JsonTree>)
    ensures
        message_pairs(shape, a + b) == message_pairs(shape, a) + message_pairs(shape, b),
    decreases b.len(),
{
    if b.len() == 0 {
        assert(a + b =~= a);
        assert(message_pairs(shape, a) + message_pairs(shape, b) =~= message_pairs(shape, a));
    } else {
        messages_are_read_in_order(shape, a, b.drop_last());
        assert((a + b).drop_last() =~= a + b.drop_last());
        assert((a + b).last() == b.last());
        assert(message_pairs(shape, a + b) =~= message_pairs(shape, a) + message_pairs(shape, b));
    }
}

/// A chat message gives its role and its content, if both are texts, and nothing
/// otherwise.
pub proof fn chat_message_gives_role_and_content(m: JsonTree)
    ensures
        ({
            let read = message_pairs(MessageShape::Chat, seq![m]);
            match (m.text_field("role"@), m.text_field("content"@)) {
                (Some(role), Some(content)) => read == seq![(role, content)],
                _ => read.len() == 0,
            }
        }),
{
    lemma_one_message(MessageShape::Chat, m);
}

/// A Converse message gives its role and, where its content is a list, the text of
/// its first block.
pub proof fn converse_message_gives_first_block(m: JsonTree)
    ensures
        ({
            let read = message_pairs(MessageShape::Converse, seq![m]);
            match (m.text_field("role"@), m.text_field("content"@), m.items_field("content"@)) {
                (Some(role), Some(content), _) => read == seq![(role, content)],
                (Some(role), None, Some(blocks)) => if blocks.len() > 0
                    && blocks[0].text_field("text"@) is Some {
                    read == seq![(role, blocks[0].text_field("text"@)->0)]
                } else {
                    read.len() == 0
                },
                _ => read.len() == 0,
            }
        }),
{
    lemma_one_message(MessageShape::Converse, m);
}

/// An entry of Vertex contents gives its role, the user's where it names none, and
/// the text of the first of its parts that has one.
pub proof fn contents_entry_gives_first_text(m: JsonTree, parts: Seq<JsonTree>, n: int)
    requires
        m.items_field("parts"@) == Some(parts),
        0 <= n < parts.len(),
        parts[n].text_field("text"@) is Some,
        forall|j: int| 0 <= j < n ==> (#[trigger] parts[j]).text_field("text"@) is None,
    ensures
        message_pairs(MessageShape::Contents, seq![m]) == seq![
            (
                match m.text_field("role"@) {
                    Some(role) => role,
                    None => "user"@,
                },
                parts[n].text_field("text"@)->0,
            ),
        ],
{
    lemma_one_message(MessageShape::Contents, m);
    lemma_first_text(parts, n);
}

/// An entry of Vertex contents without any text gives nothing.
pub proof fn contents_entry_without_text(m: JsonTree)
    requires
        m.items_field("parts"@) matches Some(parts) ==> forall|j: int|
            0 <= j < parts.len() ==> (#[trigger] parts[j]).text_field("text"@) is None,
    ensures
        message_pairs(MessageShape::Contents, seq![m]).len() == 0,
{
    lemma_one_message(MessageShape::Contents, m);
    if let Some(parts) = m.items_field("parts"@) {
        lemma_no_text(parts);
    }
}

proof fn lemma_one_message(shape: MessageShape, m: JsonTree)
    ensures
        message_pairs(shape, seq![m]) == match (message_role(shape, m), message_content(shape, m)) {
            (Some(role), Some(content)) => seq![(role, content)],
            _ => seq![],
        },
{
    assert(seq![m].drop_last() =~= seq![]);
    assert(message_pairs(shape, seq![]) =~= seq![]);
    match (message_role(shape, m), message_content(shape, m)) {
        (Some(role), Some(content)) => {
            assert(message_pairs(shape, seq![m]) =~= seq![(role, content)]);
        },
        _ => {},
    }
}

proof fn lemma_first_text(parts: Seq<JsonTree>, n: int)
    requires
        0 <= n < parts.len(),
        parts[n].text_field("text"@) is Some,
        forall|j: int| 0 <= j < n ==> (#[trigger] parts[j]).text_field("text"@) is None,
    ensures
        first_text(parts) == parts[n].text_field("text"@),
    decreases n,
{
    if n > 0 {
        let rest = parts.drop_first();
        assert forall|j: int| 0 <= j < n - 1 implies (#[trigger] rest[j]).text_field(
            "text"@,
        ) is None by {
            assert(rest[j] == parts[j + 1]);
        }
        assert(rest[n - 1] == parts[n]);
        assert(parts[0].text_field("text"@) is None);
        lemma_first_text(rest, n - 1);
    }
}

proof fn lemma_no_text(parts: Seq<JsonTree>)
    requires
        forall|j: int| 0 <= j < parts.len() ==> (#[trigger] parts[j]).text_field("text"@) is None,
    ensures
        first_text(parts) is None,
    decreases parts.len(),
{
    if parts.len() > 0 {
        let rest = parts.drop_first();
        assert forall|j: int| 0 <= j < rest.len() implies (#[trigger] rest[j]).text_field(
            "text"@,
        ) is None by {
            assert(rest[j] == parts[j + 1]);
        }
        assert(parts[0].text_field("text"@) is None);
        lemma_no_text(rest);
    }
}

/// The whole of a conversation is the prompt: a chat body whose messages all have
/// a role and a content gives the canonical form of all of them, under the model
/// that it names.
pub proof fn chat_prompt_is_the_conversation(
    kind: PromptExtractor,
    body: JsonTree,
    model: Seq<char>,
    items: Seq<JsonTree>,
    messages: Seq<(Seq<char>, Seq<char>)>,
)
    requires
        kind == PromptExtractor::Openai || kind == PromptExtractor::Anthropic || kind
            == PromptExtractor::Mistral,
        body.text_field("model"@) == Some(model),
        body.items_field("messages"@) == Some(items),
        items.len() == messages.len(),
        items.len() > 0,
        forall|i: int|
            #![trigger items[i]]
            0 <= i < items.len() ==> items[i].text_field("role"@) == Some(messages[i].0)
                && items[i].text_field("content"@) == Some(messages[i].1),
    ensures
        outcome(kind, body) == OutcomeView::Found(
            ExtractedView {
                prompt: key::canonical_messages(messages),
                model,
                stream: body.get("stream"@) == Some(JsonTree::Bool(true)),
            },
        ),
{
    lemma_all_messages(items, messages);
}

proof fn lemma_all_messages(items: Seq<JsonTree>, messages: Seq<(Seq<char>, Seq<char>)>)
    requires
        items.len() == messages.len(),
        forall|i: int|
            #![trigger items[i]]
            0 <= i < items.len() ==> items[i].text_field("role"@) == Some(messages[i].0)
                && items[i].text_field("content"@) == Some(messages[i].1),
    ensures
        message_pairs(MessageShape::Chat, items) == messages,
    decreases items.len(),
{
    if items.len() == 0 {
        assert(message_pairs(MessageShape::Chat, items) =~= messages);
    } else {
        let (x, y) = (items.drop_last(), messages.drop_last());
        assert forall|i: int|
            #![trigger x[i]]
            0 <= i < x.len() implies x[i].text_field("role"@) == Some(y[i].0) && x[i].text_field(
            "content"@,
        ) == Some(y[i].1) by {
            assert(x[i] == items[i]);
        }
        lemma_all_messages(x, y);
        assert(items[items.len() - 1] == items.last());
        assert(y.push(messages.last()) =~= messages);
    }
}

/// A chat body has a prompt exactly if it names a model and one of its messages
/// has a role and a content; the prompt is then the canonical form of all the
/// messages that do.
pub proof fn chat_prompt_iff_messages(kind: PromptExtractor, body: JsonTree)
    requires
        kind == PromptExtractor::Openai || kind == PromptExtractor::Anthropic || kind
            == PromptExtractor::Mistral,
    ensures
        outcome(kind, body) is Found <==> {
            &&& body.text_field("model"@) is Some
            &&& body.items_field("messages"@) is Some
            &&& exists|i: int|
                {
                    &&& 0 <= i < body.items_field("messages"@)->0.len()
                    &&& (#[trigger] body.items_field("messages"@)->0[i]).text_field("role"@) is Some
                    &&& body.items_field("messages"@)->0[i].text_field("content"@) is Some
                }
        },
        outcome(kind, body) matches OutcomeView::Found(e) ==> {
            &&& body.text_field("model"@) == Some(e.model)
            &&& e.prompt == key::canonical_messages(
                message_pairs(MessageShape::Chat, body.items_field("messages"@)->0),
            )
            &&& e.stream == (body.get("stream"@) == Some(JsonTree::Bool(true)))
        },
{
    if let Some(items) = body.items_field("messages"@) {
        lemma_some_message(MessageShape::Chat, items);
    }
}

proof fn lemma_some_message(shape: MessageShape, items: Seq<JsonTree>)
    ensures
        message_pairs(shape, items).len() > 0 <==> exists|i: int|
            {
                &&& 0 <= i < items.len()
                &&& message_role(shape, #[trigger] items[i]) is Some
                &&& message_content(shape, items[i]) is Some
            },
    decreases items.len(),
{
    if items.len() > 0 {
        let rest = items.drop_last();
        lemma_some_message(shape, rest);
        let last = items.len() - 1;
        if message_role(shape, items[last]) is Some && message_content(shape, items[last]) is Some {
            assert(message_pairs(shape, items).len() > 0);
        } else if message_pairs(shape, rest).len() > 0 {
            let i = choose|i: int|
                {
                    &&& 0 <= i < rest.len()
                    &&& message_role(shape, #[trigger] rest[i]) is Some
                    &&& message_content(shape, rest[i]) is Some
                };
            assert(items[i] == rest[i]);
        } else {
            assert forall|i: int|
                0 <= i < items.len() && message_role(
                    shape,
                    #[trigger] items[i],
                ) is Some implies message_content(shape, items[i]) is None by {
                if i < last {
                    assert(rest[i] == items[i]);
                }
            }
        }
    }
}

/// The prompt of a Cohere body has the words of its message, whatever the model,
/// with single spaces between them. It is found exactly if both are there.
pub proof fn cohere_prompt_is_the_message(body: JsonTree)
    ensures
        outcome(PromptExtractor::Cohere, body) is Found <==> body.text_field("model"@) is Some
            && body.text_field("message"@) is Some,
        outcome(PromptExtractor::Cohere, body) matches OutcomeView::Found(e) ==> {
            &&& body.text_field("model"@) == Some(e.model)
            &&& text::words(e.prompt) == text::words(body.text_field("message"@)->0)
            &&& text::collapsed(e.prompt) == e.prompt
            &&& e.stream == (body.get("stream"@) == Some(JsonTree::Bool(true)))
        },
{
    if let Some(message) = body.text_field("message"@) {
        text::collapsed_keeps_words(message);
    }
}

/// Two Cohere bodies have the same prompt exactly if their messages have the same
/// words.
pub proof fn cohere_prompts_differ_with_the_message(
    a: JsonTree,
    b: JsonTree,
    m: Seq<char>,
    n: Seq<char>,
)
    requires
        a.text_field("model"@) is Some,
        b.text_field("model"@) is Some,
        a.text_field("message"@) == Some(m),
        b.text_field("message"@) == Some(n),
    ensures
        outcome(PromptExtractor::Cohere, a) is Found,
        outcome(PromptExtractor::Cohere, b) is Found,
        outcome(PromptExtractor::Cohere, a)->Found_0.prompt == outcome(
            PromptExtractor::Cohere,
            b,
        )->Found_0.prompt <==> text::words(m) == text::words(n),
{
    text::collapsed_tells_words_apart(m, n);
}

/// A Bedrock body gives the canonical form of its messages where one of them can
/// be read, else the words of its `inputText`, else those of its `prompt`. Its
/// model is `modelId`, else `model`, and it never streams.
pub proof fn bedrock_prompt_by_shape(body: JsonTree)
    ensures
        ({
            let found = outcome(PromptExtractor::Bedrock, body);
            let named = body.text_field("modelId"@) is Some || body.text_field("model"@) is Some;
            let read = match body.items_field("messages"@) {
                Some(items) => message_pairs(MessageShape::Converse, items),
                None => seq![],
            };
            let input = body.text_field("inputText"@);
            let prompt = body.text_field("prompt"@);
            &&& found is Found <==> named && (read.len() > 0 || input is Some || prompt is Some)
            &&& found matches OutcomeView::Found(e) ==> {
                &&& body.text_field("modelId"@) is Some ==> body.text_field("modelId"@) == Some(e.model)
                &&& body.text_field("modelId"@) is None ==> body.text_field("model"@) == Some(e.model)
                &&& !e.stream
                &&& read.len() > 0 ==> e.prompt == key::canonical_messages(read)
                &&& read.len() == 0 ==> text::collapsed(e.prompt) == e.prompt
                &&& read.len() == 0 && input is Some ==> text::words(e.prompt) == text::words(
                    input->0,
                )
                &&& read.len() == 0 && input is None ==> text::words(e.prompt) == text::words(
                    prompt->0,
                )
            }
        }),
{
    if let Some(t) = body.text_field("inputText"@) {
        text::collapsed_keeps_words(t);
    }
    if let Some(t) = body.text_field("prompt"@) {
        text::collapsed_keeps_words(t);
    }
}

/// A Vertex body has a prompt exactly if it names a model and its contents hold a
/// text; the prompt is then the canonical form of its contents, and it never
/// streams.
pub proof fn vertex_prompt_is_the_contents(body: JsonTree)
    ensures
        ({
            let found = outcome(PromptExtractor::Vertex, body);
            let read = match body.items_field("contents"@) {
                Some(items) => message_pairs(MessageShape::Contents, items),
                None => seq![],
            };
            &&& found is Found <==> body.text_field("model"@) is Some && read.len() > 0
            &&& found matches OutcomeView::Found(e) ==> {
                &&& body.text_field("model"@) == Some(e.model)
                &&& e.prompt == key::canonical_messages(read)
                &&& !e.stream
            }
        }),
{
}

/// A body that is skipped is skipped for what it lacks: the model first, else the
/// messages or the prompt.
pub proof fn skipped_for_what_is_missing(body: JsonTree)
    ensures
        body.text_field("model"@) is None ==> {
            &&& outcome(PromptExtractor::Openai, body) == OutcomeView::Skip(
                "openai: missing `model`"@,
            )
            &&& outcome(PromptExtractor::Anthropic, body) == OutcomeView::Skip(
                "anthropic: missing `model`"@,
            )
            &&& outcome(PromptExtractor::Cohere, body) == OutcomeView::Skip(
                "cohere: missing `model`"@,
            )
            &&& outcome(PromptExtractor::Vertex, body) == OutcomeView::Skip(
                "vertex: missing `model`"@,
            )
        },
        body.text_field("model"@) is None && body.text_field("modelId"@) is None ==> outcome(
            PromptExtractor::Bedrock,
            body,
        ) == OutcomeView::Skip("bedrock: missing `modelId`"@),
        body.text_field("model"@) is Some && body.text_field("message"@) is None ==> outcome(
            PromptExtractor::Cohere,
            body,
        ) == OutcomeView::Skip("cohere: missing `message`"@),
        body.text_field("model"@) is Some && body.items_field("messages"@) is None ==> {
            &&& outcome(PromptExtractor::Openai, body) == OutcomeView::Skip(
                "openai: empty or missing `messages`"@,
            )
            &&& outcome(PromptExtractor::Anthropic, body) == OutcomeView::Skip(
                "anthropic: empty or missing `messages`"@,
            )
        },
        body.text_field("model"@) is Some && body.items_field("contents"@) is None ==> outcome(
            PromptExtractor::Vertex,
            body,
        ) == OutcomeView::Skip("vertex: missing `contents`"@),
        outcome(PromptExtractor::Mistral, body) == outcome(PromptExtractor::Openai, body),
{
}

/// What is stated of an outcome is stated of the whole of it.
pub proof fn outcomes_are_seen_whole(e: Extracted, why: &'static str)
    ensures
        ExtractOutcome::Found(e)@ == OutcomeView::Found(e@),
        ExtractOutcome::Skip(why)@ == OutcomeView::Skip(why@),
        e@.prompt == e.prompt@,
        e@.model == e.model@,
        e@.stream == e.stream,
{
}

} // verus!
