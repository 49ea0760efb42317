//! Messages of a conversation, and what passes between them and the model.
use vstd::prelude::*;

use crate::json;
use crate::json::Json;
use crate::json::JsonView;
use crate::text;

verus! {

// ---------------------------------------------------------------------------
// Messages
// ---------------------------------------------------------------------------

/// One message of a conversation.
#[derive(Debug)]
pub struct ChatMessage {
    pub role: String,
    pub content: Option<Json>,
    pub tool_calls: Option<Json>,
    pub tool_call_id: Option<String>,
    pub name: Option<String>,
}

/// What a message holds.
#[verifier::ext_equal]
pub struct MessageView {
    pub role: Seq<char>,
    pub content: Option<JsonView>,
    pub tool_calls: Option<JsonView>,
    pub tool_call_id: Option<Seq<char>>,
    pub name: Option<Seq<char>>,
}

impl View for ChatMessage {
    type V = MessageView;

    open spec fn view(&self) -> MessageView {
        MessageView {
            role: self.role@,
            content: json::opt_view(self.content),
            tool_calls: json::opt_view(self.tool_calls),
            tool_call_id: json::opt_text(self.tool_call_id),
            name: json::opt_text(self.name),
        }
    }
}

fn copy_json(o: &Option<Json>) -> (r: Option<Json>)
    ensures
        json::opt_view(r) == json::opt_view(*o),
{
    match o {
        Some(j) => Some(j.copy()),
        None => None,
    }
}

impl Clone for ChatMessage {
    fn clone(&self) -> (r: ChatMessage)
        ensures
            r@ == self@,
    {
        ChatMessage {
            role: self.role.clone(),
            content: copy_json(&self.content),
            tool_calls: copy_json(&self.tool_calls),
            tool_call_id: text::copy_option(&self.tool_call_id),
            name: text::copy_option(&self.name),
        }
    }
}

/// A message that says a text in a role.
pub open spec fn says(role: Seq<char>, content: Seq<char>) -> MessageView {
    MessageView {
        role,
        content: Some(JsonView::Str(content)),
        tool_calls: None,
        tool_call_id: None,
        name: None,
    }
}

/// The message that carries a tool's result.
pub open spec fn tool_says(id: Seq<char>, name: Seq<char>, result: Seq<char>) -> MessageView {
    MessageView {
        role: "tool"@,
        content: Some(JsonView::Str(result)),
        tool_calls: None,
        tool_call_id: Some(id),
        name: Some(name),
    }
}

/// A message that says a text in a role.
pub fn message(role: &str, content: &str) -> (r: ChatMessage)
    ensures
        r@ == says(role@, content@),
        r.role@ == role@,
        r@.content == Some(JsonView::Str(content@)),
{
    ChatMessage {
        role: role.to_owned(),
        content: Some(Json::Str(content.to_owned())),
        tool_calls: None,
        tool_call_id: None,
        name: None,
    }
}

/// The message that carries a tool's result.
pub fn tool_message(id: &str, name: &str, result: &str) -> (r: ChatMessage)
    ensures
        r@ == tool_says(id@, name@, result@),
        r.role@ == "tool"@,
        r@.content == Some(JsonView::Str(result@)),
        r@.tool_call_id == Some(id@),
{
    ChatMessage {
        role: "tool".to_owned(),
        content: Some(Json::Str(result.to_owned())),
        tool_calls: None,
        tool_call_id: Some(id.to_owned()),
        name: Some(name.to_owned()),
    }
}

// ---------------------------------------------------------------------------
// The sliding window
// ---------------------------------------------------------------------------

/// The most messages that a conversation takes to the model at the start of a
/// turn.
pub const MAX_WINDOW: usize = 20;

/// The window of a conversation: all of it while it fits, else its first
/// message and the newest.
pub open spec fn window<A>(ms: Seq<A>) -> Seq<A> {
    if ms.len() <= MAX_WINDOW {
        ms
    } else {
        seq![ms[0]] + ms.skip(ms.len() - (MAX_WINDOW - 1))
    }
}

/// Cuts a conversation to its window.
pub fn trim_window(messages: &mut Vec<ChatMessage>)
    ensures
        final(messages)@ == window(old(messages)@),
{
    let n: usize = messages.len();
    if n <= MAX_WINDOW {
        return;
    }
    let ghost before = messages@;
    let newest = messages.split_off(n - (MAX_WINDOW - 1));
    proof {
        assert(newest@ == before.skip(n - (MAX_WINDOW - 1)));
    }
    messages.truncate(1);
    let mut rest = newest;
    messages.append(&mut rest);
    proof {
        assert(messages@ == window(before));
    }
}

/// A window fits, keeps the first message and the newest ones in their order,
/// and is its own window.
pub proof fn law_window_settles<A>(ms: Seq<A>)
    ensures
        window(ms).len() <= MAX_WINDOW,
        window(window(ms)) == window(ms),
        ms.len() > 0 ==> window(ms).len() > 0 && window(ms)[0] == ms[0],
        forall|k: int|
            0 <= k < window(ms).len() - 1 ==> #[trigger] window(ms)[window(ms).len() - 1 - k]
                == ms[ms.len() - 1 - k],
{
}

// ---------------------------------------------------------------------------
// What the model replies
// ---------------------------------------------------------------------------

/// A tool that the model asks for.
#[derive(Debug)]
pub struct ParsedToolCall {
    pub id: String,
    pub name: String,
    pub arguments: Json,
}

/// What a tool call holds.
pub struct CallView {
    pub id: Seq<char>,
    pub name: Seq<char>,
    pub arguments: JsonView,
}

impl View for ParsedToolCall {
    type V = CallView;

    open spec fn view(&self) -> CallView {
        CallView { id: self.id@, name: self.name@, arguments: self.arguments@ }
    }
}

/// The model's reply.
#[derive(Debug)]
pub struct ChatCompletion {
    pub content: Option<String>,
    pub reasoning: Option<String>,
    pub tool_calls: Vec<ParsedToolCall>,
}

/// What a reply holds.
#[verifier::ext_equal]
pub struct CompletionView {
    pub content: Option<Seq<char>>,
    pub reasoning: Option<Seq<char>>,
    pub tool_calls: Seq<CallView>,
}

impl View for ChatCompletion {
    type V = CompletionView;

    open spec fn view(&self) -> CompletionView {
        CompletionView {
            content: json::opt_text(self.content),
            reasoning: json::opt_text(self.reasoning),
            tool_calls: text::views(self.tool_calls@),
        }
    }
}

/// The arguments of a call: what their text holds, or null.
pub open spec fn call_arguments(s: Seq<char>) -> JsonView {
    match json::json_read(s) {
        Some(j) => j,
        None => JsonView::Null,
    }
}

/// The call that an element of a reply's list of calls describes.
pub open spec fn call_of(tc: JsonView) -> CallView {
    let f = tc.at("function"@);
    CallView {
        id: tc.str_or("id"@, ""@),
        name: f.str_or("name"@, ""@),
        arguments: call_arguments(f.str_or("arguments"@, "{}"@)),
    }
}

/// The calls that a reply's list of calls describes.
pub open spec fn calls_of(list: JsonView) -> Seq<CallView> {
    match list {
        JsonView::Array(v) => Seq::new(v.len(), |i: int| call_of(v[i])),
        _ => Seq::empty(),
    }
}

/// The reply that the body of a response holds.
pub open spec fn completion_of(body: JsonView) -> CompletionView {
    let msg = body.at("choices"@).nth(0).at("message"@);
    CompletionView {
        content: msg.str_at("content"@),
        reasoning: msg.str_at("reasoning"@),
        tool_calls: calls_of(msg.at("tool_calls"@)),
    }
}

fn read_call(tc: &Json) -> (r: ParsedToolCall)
    ensures
        r@ == call_of(tc@),
{
    let id = tc.text_or("id", "");
    let f = tc.at("function");
    let name = f.text_or("name", "");
    let args = f.text_or("arguments", "{}");
    let arguments = match Json::from_text(args.as_str()) {
        Some(j) => j,
        None => Json::Null,
    };
    ParsedToolCall { id, name, arguments }
}

/// The reply that the body of a response holds.
pub fn read_completion(body: &Json) -> (r: ChatCompletion)
    ensures
        r@ == completion_of(body@),
{
    broadcast use json::group_json_views;

    let choices = body.at("choices");
    let choice = choices.nth(0);
    let msg = choice.at("message");
    let mut tool_calls: Vec<ParsedToolCall> = Vec::new();
    let list = msg.at("tool_calls");
    proof {
        assert(text::views(tool_calls@) == Seq::<CallView>::empty());
    }
    if let Json::Array(v) = &list {
        let ghost want = calls_of(list@);
        let mut i: usize = 0;
        while i < v.len()
            invariant
                list@ == JsonView::Array(text::views(v@)),
                want == calls_of(list@),
                i <= v@.len(),
                text::views(tool_calls@) == want.take(i as int),
            decreases v@.len() - i,
        {
            let c = read_call(&v[i]);
            let ghost before = tool_calls@;
            tool_calls.push(c);
            proof {
                assert(text::views(tool_calls@) == text::views(before).push(c@));
                assert(want[i as int] == c@);
                assert(want.take(i + 1) == want.take(i as int).push(c@));
            }
            i = i + 1;
        }
        proof {
            assert(want.take(i as int) == want);
        }
    }
    ChatCompletion { content: msg.text_at("content"), reasoning: msg.text_at("reasoning"), tool_calls }
}

// ---------------------------------------------------------------------------
// The reply as a message
// ---------------------------------------------------------------------------

/// A call as a message carries it.
pub open spec fn call_json(c: CallView) -> JsonView {
    JsonView::Object(
        seq![
            (
                "function"@,
                JsonView::Object(
                    seq![
                        ("arguments"@, JsonView::Str(json::json_text(c.arguments))),
                        ("name"@, JsonView::Str(c.name)),
                    ],
                ),
            ),
            ("id"@, JsonView::Str(c.id)),
            ("type"@, JsonView::Str("function"@)),
        ],
    )
}

/// The message that a reply becomes.
pub open spec fn reply_message(c: CompletionView) -> MessageView {
    MessageView {
        role: "assistant"@,
        content: match c.content {
            Some(s) => Some(JsonView::Str(s)),
            None => None,
        },
        tool_calls: if c.tool_calls.len() == 0 {
            None
        } else {
            Some(JsonView::Array(Seq::new(c.tool_calls.len(), |i: int| call_json(c.tool_calls[i]))))
        },
        tool_call_id: None,
        name: None,
    }
}

fn json_of_call(c: &ParsedToolCall) -> (r: Json)
    ensures
        r@ == call_json(c@),
{
    broadcast use json::group_json_views;

    let mut inner: Vec<(String, Json)> = Vec::new();
    inner.push(("arguments".to_owned(), Json::Str(c.arguments.to_text())));
    inner.push(("name".to_owned(), Json::Str(c.name.clone())));
    let mut outer: Vec<(String, Json)> = Vec::new();
    proof {
        assert(json::pair_views(inner@) =~= call_json(c@)->Object_0[0].1->Object_0);
    }
    let f = Json::Object(inner);
    outer.push(("function".to_owned(), f));
    outer.push(("id".to_owned(), Json::Str(c.id.clone())));
    outer.push(("type".to_owned(), Json::Str("function".to_owned())));
    let r = Json::Object(outer);
    proof {
        assert(json::pair_views(outer@) =~= call_json(c@)->Object_0);
    }
    r
}

/// The message that a reply becomes.
pub fn message_of_reply(c: &ChatCompletion) -> (r: ChatMessage)
    ensures
        r@ == reply_message(c@),
        r.role@ == "assistant"@,
{
    broadcast use json::group_json_views;

    let content = match &c.content {
        Some(s) => Some(Json::Str(s.clone())),
        None => None,
    };
    let tool_calls = if c.tool_calls.len() == 0 {
        None
    } else {
        let ghost want = Seq::new(
            c@.tool_calls.len(),
            |i: int| call_json(c@.tool_calls[i]),
        );
        let mut v: Vec<Json> = Vec::new();
        let mut i: usize = 0;
        while i < c.tool_calls.len()
            invariant
                want == Seq::new(
                    text::views(c.tool_calls@).len(),
                    |i: int| call_json(text::views(c.tool_calls@)[i]),
                ),
                i <= c.tool_calls@.len(),
                text::views(v@) == want.take(i as int),
            decreases c.tool_calls@.len() - i,
        {
            let j = json_of_call(&c.tool_calls[i]);
            let ghost before = v@;
            v.push(j);
            proof {
                assert(text::views(v@) == text::views(before).push(j@));
                assert(want[i as int] == j@);
                assert(want.take(i + 1) == want.take(i as int).push(j@));
            }
            i = i + 1;
        }
        proof {
            assert(want.take(i as int) == want);
        }
        Some(Json::Array(v))
    };
    let r = ChatMessage {
        role: "assistant".to_owned(),
        content,
        tool_calls,
        tool_call_id: None,
        name: None,
    };
    proof {
        assert(r@ =~~= reply_message(c@));
    }
    r
}

// ---------------------------------------------------------------------------
// What the model is asked
// ---------------------------------------------------------------------------

/// The pair of an optional value; none where there is no value.
pub open spec fn optional_pair(key: Seq<char>, v: Option<JsonView>) -> Seq<(Seq<char>, JsonView)> {
    match v {
        Some(j) => seq![(key, j)],
        None => Seq::empty(),
    }
}

/// The JSON string of an optional text.
pub open spec fn text_json(o: Option<Seq<char>>) -> Option<JsonView> {
    match o {
        Some(s) => Some(JsonView::Str(s)),
        None => None,
    }
}

/// A message as a request carries it: what it does not have is left out.
pub open spec fn message_json(m: MessageView) -> JsonView {
    JsonView::Object(
        optional_pair("content"@, m.content) + optional_pair("name"@, text_json(m.name)) + seq![
            ("role"@, JsonView::Str(m.role)),
        ] + optional_pair("tool_call_id"@, text_json(m.tool_call_id)) + optional_pair(
            "tool_calls"@,
            m.tool_calls,
        ),
    )
}

/// The messages as a request carries them.
pub open spec fn messages_json(ms: Seq<MessageView>) -> JsonView {
    JsonView::Array(Seq::new(ms.len(), |i: int| message_json(ms[i])))
}

/// The body of a request to a model.
pub open spec fn request_json(
    model: Seq<char>,
    ms: Seq<MessageView>,
    tools: JsonView,
) -> JsonView {
    JsonView::Object(
        seq![
            ("messages"@, messages_json(ms)),
            ("model"@, JsonView::Str(model)),
            ("reasoning"@, JsonView::Object(seq![("exclude"@, JsonView::Bool(false))])),
            ("tools"@, tools),
        ],
    )
}

fn push_pair(pairs: &mut Vec<(String, Json)>, key: &str, v: Option<Json>)
    ensures
        json::pair_views(final(pairs)@) == json::pair_views(old(pairs)@) + optional_pair(
            key@,
            json::opt_view(v),
        ),
{
    let ghost before = pairs@;
    match v {
        Some(j) => {
            pairs.push((key.to_owned(), j));
            proof {
                assert(json::pair_views(pairs@) =~= json::pair_views(before) + seq![(key@, j@)]);
            }
        },
        None => {
            proof {
                assert(json::pair_views(before) + Seq::<(Seq<char>, JsonView)>::empty()
                    =~= json::pair_views(before));
            }
        },
    }
}

fn json_of_text(o: &Option<String>) -> (r: Option<Json>)
    ensures
        json::opt_view(r) == text_json(json::opt_text(*o)),
{
    match o {
        Some(s) => Some(Json::Str(s.clone())),
        None => None,
    }
}

/// A message as a request carries it.
pub fn json_of_message(m: &ChatMessage) -> (r: Json)
    ensures
        r@ == message_json(m@),
{
    broadcast use json::group_json_views;

    let mut p: Vec<(String, Json)> = Vec::new();
    proof {
        assert(json::pair_views(p@) =~= Seq::<(Seq<char>, JsonView)>::empty());
    }
    push_pair(&mut p, "content", copy_json(&m.content));
    push_pair(&mut p, "name", json_of_text(&m.name));
    push_pair(&mut p, "role", Some(Json::Str(m.role.clone())));
    push_pair(&mut p, "tool_call_id", json_of_text(&m.tool_call_id));
    push_pair(&mut p, "tool_calls", copy_json(&m.tool_calls));
    proof {
        assert(json::pair_views(p@) =~= message_json(m@)->Object_0);
    }
    Json::Object(p)
}

/// The body of a request to a model.
pub fn request_body(model: &str, ms: &Vec<ChatMessage>, tools: &Json) -> (r: Json)
    ensures
        r@ == request_json(model@, text::views(ms@), tools@),
{
    broadcast use json::group_json_views;

    let ghost want = messages_json(text::views(ms@))->Array_0;
    let mut v: Vec<Json> = Vec::new();
    let mut i: usize = 0;
    while i < ms.len()
        invariant
            want == messages_json(text::views(ms@))->Array_0,
            i <= ms@.len(),
            text::views(v@) == want.take(i as int),
        decreases ms@.len() - i,
    {
        let j = json_of_message(&ms[i]);
        let ghost before = v@;
        v.push(j);
        proof {
            assert(text::views(v@) == text::views(before).push(j@));
            assert(want[i as int] == j@);
            assert(want.take(i + 1) == want.take(i as int).push(j@));
        }
        i = i + 1;
    }
    proof {
        assert(want.take(i as int) == want);
    }
    let mut inner: Vec<(String, Json)> = Vec::new();
    inner.push(("exclude".to_owned(), Json::Bool(false)));
    let reasoning = Json::Object(inner);
    proof {
        assert(json::pair_views(inner@) =~= seq![("exclude"@, JsonView::Bool(false))]);
    }
    let mut p: Vec<(String, Json)> = Vec::new();
    p.push(("messages".to_owned(), Json::Array(v)));
    p.push(("model".to_owned(), Json::Str(model.to_owned())));
    p.push(("reasoning".to_owned(), reasoning));
    p.push(("tools".to_owned(), tools.copy()));
    proof {
        assert(json::pair_views(p@) =~= request_json(
            model@,
            text::views(ms@),
            tools@,
        )->Object_0);
    }
    Json::Object(p)
}

// ---------------------------------------------------------------------------
// What messages are for
// ---------------------------------------------------------------------------

/// A message says what it is to say, in its role and nothing else, and a tool's
/// message carries the result, the call's id and the tool's name.
pub proof fn law_messages_say_what_they_are_told(
    role: Seq<char>,
    content: Seq<char>,
    id: Seq<char>,
    name: Seq<char>,
)
    ensures
        says(role, content).role == role,
        says(role, content).content == Some(JsonView::Str(content)),
        says(role, content).tool_calls is None,
        says(role, content).tool_call_id is None,
        says(role, content).name is None,
        tool_says(id, name, content).role == "tool"@,
        tool_says(id, name, content).content == Some(JsonView::Str(content)),
        tool_says(id, name, content).tool_call_id == Some(id),
        tool_says(id, name, content).name == Some(name),
        tool_says(id, name, content).tool_calls is None,
{
}

/// A conversation of up to twenty messages is its own window; the window of a
/// longer one has twenty, the first of them and the nineteen newest.
pub proof fn law_window_holds_twenty<A>(ms: Seq<A>, k: int)
    ensures
        ms.len() <= 20 ==> window(ms) == ms,
        ms.len() > 20 ==> window(ms).len() == 20 && window(ms)[0] == ms[0],
        ms.len() > 20 && 0 <= k < 19 ==> window(ms)[19 - k] == ms[ms.len() - 1 - k],
{
}

/// The model's reply is read from the message of the first choice: its content,
/// its reasoning, and one call for each that it lists, in their order, each with
/// its id, its name and what its arguments read as.
pub proof fn law_reply_is_read(
    body: JsonView,
    choices: Seq<JsonView>,
    msg: JsonView,
    list: Seq<JsonView>,
    function: JsonView,
    i: int,
)
    requires
        body.get("choices"@) == Some(JsonView::Array(choices)),
        choices.len() > 0,
        choices[0].get("message"@) == Some(msg),
    ensures
        completion_of(body).content == msg.str_at("content"@),
        completion_of(body).reasoning == msg.str_at("reasoning"@),
        (msg.get("tool_calls"@) matches Some(l) ==> !(l is Array)) ==> completion_of(
            body,
        ).tool_calls.len() == 0,
        msg.get("tool_calls"@) == Some(JsonView::Array(list)) ==> completion_of(
            body,
        ).tool_calls.len() == list.len(),
        msg.get("tool_calls"@) == Some(JsonView::Array(list)) && 0 <= i < list.len() && list[i].get(
            "function"@,
        ) == Some(function) ==> ({
            let c = completion_of(body).tool_calls[i];
            &&& list[i].str_at("id"@) matches Some(id) ==> c.id == id
            &&& function.str_at("name"@) matches Some(name) ==> c.name == name
            &&& function.str_at("arguments"@) matches Some(s) ==> (json::json_read(s) matches Some(
                a,
            ) ==> c.arguments == a)
            &&& function.str_at("arguments"@) matches Some(s) ==> (json::json_read(s) is None
                ==> c.arguments is Null)
        }),
{
}

/// A reply becomes a message of the assistant that says the same and lists the
/// same calls: read again, each has the id and the name that it had, and the
/// text of its arguments.
pub proof fn law_reply_becomes_a_message(c: CompletionView, i: int)
    ensures
        reply_message(c).role == "assistant"@,
        c.content matches Some(s) ==> reply_message(c).content == Some(JsonView::Str(s)),
        c.content is None ==> reply_message(c).content is None,
        reply_message(c).tool_call_id is None,
        reply_message(c).name is None,
        c.tool_calls.len() == 0 <==> reply_message(c).tool_calls is None,
        c.tool_calls.len() > 0 ==> (reply_message(c).tool_calls matches Some(JsonView::Array(v))
            && v.len() == c.tool_calls.len()),
        0 <= i < c.tool_calls.len() ==> ({
            let j = reply_message(c).tool_calls->0.nth(i);
            &&& j.str_at("id"@) == Some(c.tool_calls[i].id)
            &&& j.str_at("type"@) == Some("function"@)
            &&& j.at("function"@).str_at("name"@) == Some(c.tool_calls[i].name)
            &&& j.at("function"@).str_at("arguments"@) == Some(
                json::json_text(c.tool_calls[i].arguments),
            )
            &&& call_of(j).id == c.tool_calls[i].id
            &&& call_of(j).name == c.tool_calls[i].name
        }),
{
    if 0 <= i < c.tool_calls.len() {
        let call = c.tool_calls[i];
        let j = call_json(call);
        reveal_strlit("function");
        reveal_strlit("id");
        reveal_strlit("type");
        reveal_strlit("arguments");
        reveal_strlit("name");
        assert("function"@.len() == 8 && "id"@.len() == 2 && "type"@.len() == 4);
        assert("arguments"@.len() == 9 && "name"@.len() == 4);
        let p = j->Object_0;
        json::law_objects_hold_their_pairs(p, 0, "function"@);
        json::law_objects_hold_their_pairs(p, 1, "id"@);
        json::law_objects_hold_their_pairs(p, 2, "type"@);
        let f = p[0].1->Object_0;
        json::law_objects_hold_their_pairs(f, 0, "arguments"@);
        json::law_objects_hold_their_pairs(f, 1, "name"@);
        assert(j.get("function"@) == Some(p[0].1));
        assert(reply_message(c).tool_calls->0.nth(i) == j);
    }
}

/// A message travels as it is: a request carries its role, and its content, its
/// name, the id of the call that it answers and its calls where it has them.
pub proof fn law_message_travels_whole(m: MessageView)
    ensures
        message_json(m).str_at("role"@) == Some(m.role),
        message_json(m).get("content"@) == m.content,
        message_json(m).str_at("name"@) == m.name,
        message_json(m).str_at("tool_call_id"@) == m.tool_call_id,
        message_json(m).get("tool_calls"@) == m.tool_calls,
{
    reveal_strlit("content");
    reveal_strlit("name");
    reveal_strlit("role");
    reveal_strlit("tool_call_id");
    reveal_strlit("tool_calls");
    let a = optional_pair("content"@, m.content);
    let b = optional_pair("name"@, text_json(m.name));
    let c = seq![("role"@, JsonView::Str(m.role))];
    let d = optional_pair("tool_call_id"@, text_json(m.tool_call_id));
    let e = optional_pair("tool_calls"@, m.tool_calls);
    assert("content"@.len() == 7 && "name"@.len() == 4 && "role"@.len() == 4);
    assert("tool_call_id"@.len() == 12 && "tool_calls"@.len() == 10);
    assert("name"@[0] != "role"@[0]);
    lemma_of_five(a, b, c, d, e, "role"@);
    lemma_of_five(a, b, c, d, e, "content"@);
    lemma_of_five(a, b, c, d, e, "name"@);
    lemma_of_five(a, b, c, d, e, "tool_call_id"@);
    lemma_of_five(a, b, c, d, e, "tool_calls"@);
    lemma_optional("content"@, m.content);
    lemma_optional("name"@, text_json(m.name));
    lemma_optional("role"@, Some(JsonView::Str(m.role)));
    lemma_optional("tool_call_id"@, text_json(m.tool_call_id));
    lemma_optional("tool_calls"@, m.tool_calls);
}

proof fn lemma_optional(key: Seq<char>, v: Option<JsonView>)
    ensures
        json::member(optional_pair(key, v), key) == v,
        forall|other: Seq<char>|
            other != key ==> #[trigger] json::member(optional_pair(key, v), other) is None,
{
    assert forall|other: Seq<char>| other != key implies #[trigger] json::member(
        optional_pair(key, v),
        other,
    ) is None by {
        reveal_with_fuel(json::member, 2);
        assert(v is Some ==> optional_pair(key, v).drop_last() =~= Seq::<
            (Seq<char>, JsonView),
        >::empty());
    }
}

proof fn lemma_of_five(
    a: Seq<(Seq<char>, JsonView)>,
    b: Seq<(Seq<char>, JsonView)>,
    c: Seq<(Seq<char>, JsonView)>,
    d: Seq<(Seq<char>, JsonView)>,
    e: Seq<(Seq<char>, JsonView)>,
    key: Seq<char>,
)
    ensures
        json::member(a + b + c + d + e, key) == match json::member(e, key) {
            Some(v) => Some(v),
            None => match json::member(d, key) {
                Some(v) => Some(v),
                None => match json::member(c, key) {
                    Some(v) => Some(v),
                    None => match json::member(b, key) {
                        Some(v) => Some(v),
                        None => json::member(a, key),
                    },
                },
            },
        },
{
    json::lemma_member_front(a, b, key);
    json::lemma_member_front(a + b, c, key);
    json::lemma_member_front(a + b + c, d, key);
    json::lemma_member_front(a + b + c + d, e, key);
}

/// A request names the model, offers the tools, and carries every message, in
/// the order of the conversation.
pub proof fn law_request_carries_the_conversation(
    model: Seq<char>,
    ms: Seq<MessageView>,
    tools: JsonView,
    i: int,
)
    ensures
        request_json(model, ms, tools).str_at("model"@) == Some(model),
        request_json(model, ms, tools).get("tools"@) == Some(tools),
        request_json(model, ms, tools).get("messages"@) matches Some(JsonView::Array(v)) && v.len()
            == ms.len(),
        0 <= i < ms.len() ==> request_json(model, ms, tools).at("messages"@).nth(i).str_at("role"@)
            == Some(ms[i].role) && request_json(model, ms, tools).at("messages"@).nth(i).get(
            "content"@,
        ) == ms[i].content,
        request_json(model, ms, tools).at("reasoning"@).get("exclude"@) == Some(
            JsonView::Bool(false),
        ),
{
    reveal_strlit("messages");
    reveal_strlit("model");
    reveal_strlit("reasoning");
    reveal_strlit("tools");
    assert("messages"@.len() == 8 && "model"@.len() == 5 && "reasoning"@.len() == 9);
    assert("tools"@.len() == 5);
    assert("model"@[0] != "tools"@[0]);
    let p = request_json(model, ms, tools)->Object_0;
    json::law_objects_hold_their_pairs(p, 0, "messages"@);
    json::law_objects_hold_their_pairs(p, 1, "model"@);
    json::law_objects_hold_their_pairs(p, 2, "reasoning"@);
    json::law_objects_hold_their_pairs(p, 3, "tools"@);
    json::law_objects_hold_their_pairs(p[2].1->Object_0, 0, "exclude"@);
    if 0 <= i < ms.len() {
        law_message_travels_whole(ms[i]);
    }
}

/// A reply that lacks something lacks just that: without a first choice nothing is
/// said and nothing is called; a call without an id, a name or arguments has an empty
/// id, an empty name, or the arguments of an empty object.
pub proof fn law_what_a_reply_lacks_is_left_out(body: JsonView, tc: JsonView)
    ensures
        body.at("choices"@).nth(0) == JsonView::Null ==> completion_of(body).content is None
            && completion_of(body).reasoning is None && completion_of(body).tool_calls.len() == 0,
        tc.str_at("id"@) is None ==> call_of(tc).id.len() == 0,
        tc.at("function"@).str_at("name"@) is None ==> call_of(tc).name.len() == 0,
        tc.at("function"@).str_at("arguments"@) is None ==> call_of(tc).arguments
            == match json::json_read("{}"@) {
            Some(j) => j,
            None => JsonView::Null,
        },
{
    reveal_strlit("");
}

/// What is said of a message, a call and a reply is said of their fields.
pub proof fn law_messages_carry_what_is_said_of_them(
    m: ChatMessage,
    p: ParsedToolCall,
    c: ChatCompletion,
    i: int,
)
    ensures
        m@.role == m.role@,
        m.content matches Some(j) ==> m@.content == Some(j@),
        m.content is None ==> m@.content is None,
        m.tool_calls matches Some(j) ==> m@.tool_calls == Some(j@),
        m.tool_calls is None ==> m@.tool_calls is None,
        m.tool_call_id matches Some(s) ==> m@.tool_call_id == Some(s@),
        m.tool_call_id is None ==> m@.tool_call_id is None,
        m.name matches Some(s) ==> m@.name == Some(s@),
        m.name is None ==> m@.name is None,
        p@.id == p.id@,
        p@.name == p.name@,
        p@.arguments == p.arguments@,
        c.content matches Some(s) ==> c@.content == Some(s@),
        c.content is None ==> c@.content is None,
        c.reasoning matches Some(s) ==> c@.reasoning == Some(s@),
        c.reasoning is None ==> c@.reasoning is None,
        c@.tool_calls.len() == c.tool_calls@.len(),
        0 <= i < c.tool_calls@.len() ==> c@.tool_calls[i] == c.tool_calls@[i]@,
{
}

}
