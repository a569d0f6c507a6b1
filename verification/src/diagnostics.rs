//! The diagnosis: the request that carries the captured text to the
//! chat-completion endpoint, and the reading of the answer, which arrives as
//! a stream of events.

use crate::capture::TerminalCapture;
use crate::error::DiagnosisError;
use crate::json::{
    array_value, as_text, bool_value, element, json_members, json_parsed, json_text, json_tree,
    json_trees, member, object_value, parse, text_value, to_text, JsonTree,
};
use crate::model::DiagnosticModel;
use crate::text::{join, same_text, trim, trim_text};
use vstd::map::*;
use vstd::prelude::*;
use vstd::string::*;

verus! {

/// The instruction that tells the model what it is here for, and to answer
/// in plain text that suits a terminal.
pub open spec fn persona() -> Seq<char> {
    "you are a helpful assistant, you get commands outputs and you diagnose what was the issue and given a solution, do not send markdown text"@
}

/// The one message of the user: the captured lines, then the note, if any,
/// on a line of its own.
pub open spec fn user_message(lines: Seq<Seq<char>>, note: Option<String>) -> Seq<char> {
    join(lines, "\n"@) + "\n"@ + match note {
        Some(text) => text@,
        None => Seq::empty(),
    }
}

/// One message of the request: who speaks, and what.
pub open spec fn message_tree(role: Seq<char>, content: Seq<char>) -> JsonTree {
    JsonTree::Object(map!["role"@ => JsonTree::Text(role), "content"@ => JsonTree::Text(content)])
}

/// The document that is sent: the model, the persona as the system's message
/// followed by the user's message, and the wish for a streamed answer.
pub open spec fn request_tree(model: Seq<char>, user: Seq<char>) -> JsonTree {
    JsonTree::Object(
        map![
            "model"@ => JsonTree::Text(model),
            "messages"@ => JsonTree::Array(
                seq![message_tree("system"@, persona()), message_tree("user"@, user)],
            ),
            "stream"@ => JsonTree::Bool(true),
        ],
    )
}

/// One event of the answer's stream.
#[derive(Debug, PartialEq, Eq)]
pub enum StreamEvent {
    /// The connection stands.
    Open,
    /// A message, with its payload.
    Message(String),
    /// The endpoint refused the request with this HTTP status.
    Refused(u16),
    /// The stream broke for the reason given, without an HTTP status.
    Broken(String),
}

/// What an event calls for.
#[derive(Debug, PartialEq, Eq)]
pub enum StreamAction {
    /// Nothing.
    Idle,
    /// This text is written to the terminal at once.
    Render(String),
    /// The answer is complete; nothing more is read.
    Finish,
    /// The diagnosis ends with this failure; nothing more is read.
    Fail(DiagnosisError),
}

/// What an event calls for, over plain text.
pub enum Reaction {
    Idle,
    Render(Seq<char>),
    Finish,
    Fail(DiagnosisError),
}

impl View for StreamAction {
    type V = Reaction;

    open spec fn view(&self) -> Reaction {
        match self {
            StreamAction::Idle => Reaction::Idle,
            StreamAction::Render(text) => Reaction::Render(text@),
            StreamAction::Finish => Reaction::Finish,
            StreamAction::Fail(error) => Reaction::Fail(*error),
        }
    }
}

/// The first choice of a message's document.
pub open spec fn first_choice(document: JsonTree) -> JsonTree {
    document.member("choices"@).element(0)
}

/// Whether the document is the finish signal: whether its first choice gives
/// `stop` as the reason why it finished.
pub open spec fn is_stop(document: JsonTree) -> bool {
    first_choice(document).member("finish_reason"@) == JsonTree::Text("stop"@)
}

/// The content of the document's increment.
pub open spec fn delta_content(document: JsonTree) -> JsonTree {
    first_choice(document).member("delta"@).member("content"@)
}

/// What a message with this document calls for.  The finish signal ends the
/// answer.  Otherwise the increment's content must be a string; what is
/// rendered is its JSON text without the quotes around it.  A document
/// without such a content is malformed.
pub open spec fn document_reaction(document: JsonTree) -> Reaction {
    if is_stop(document) {
        Reaction::Finish
    } else if delta_content(document) is Text {
        Reaction::Render(trim(json_text(delta_content(document)), '"'))
    } else {
        Reaction::Fail(DiagnosisError::Protocol)
    }
}

/// What an event calls for.  A payload that is no JSON document is
/// malformed.  A refusal fails with its status, a break with its reason.
pub open spec fn reaction(event: StreamEvent) -> Reaction {
    match event {
        StreamEvent::Open => Reaction::Idle,
        StreamEvent::Message(payload) => match json_parsed(payload@) {
            Some(document) => document_reaction(document),
            None => Reaction::Fail(DiagnosisError::Protocol),
        },
        StreamEvent::Refused(status) => Reaction::Fail(DiagnosisError::RemoteService(status)),
        StreamEvent::Broken(reason) => Reaction::Fail(DiagnosisError::Transport(reason)),
    }
}

/// What the events render, read in their order up to the first that
/// finishes or fails.
pub open spec fn rendered(events: Seq<StreamEvent>) -> Seq<char>
    decreases events.len(),
{
    if events.len() == 0 {
        Seq::empty()
    } else {
        match reaction(events.first()) {
            Reaction::Idle => rendered(events.drop_first()),
            Reaction::Render(text) => text + rendered(events.drop_first()),
            Reaction::Finish => Seq::empty(),
            Reaction::Fail(_) => Seq::empty(),
        }
    }
}

/// The failure with which the reading of the events ends, if it ends with
/// one: that of the first event that fails, unless the answer finished
/// before.
pub open spec fn failure(events: Seq<StreamEvent>) -> Option<DiagnosisError>
    decreases events.len(),
{
    if events.len() == 0 {
        None
    } else {
        match reaction(events.first()) {
            Reaction::Idle => failure(events.drop_first()),
            Reaction::Render(_) => failure(events.drop_first()),
            Reaction::Finish => None,
            Reaction::Fail(error) => Some(error),
        }
    }
}

/// Nothing that follows the finish signal, or a failure, is read: it neither
/// renders anything nor changes how the reading ends.
pub proof fn lemma_nothing_after_end(
    before: Seq<StreamEvent>,
    last: StreamEvent,
    after: Seq<StreamEvent>,
)
    requires
        reaction(last) is Finish || reaction(last) is Fail,
    ensures
        rendered(before + seq![last] + after) == rendered(before + seq![last]),
        failure(before + seq![last] + after) == failure(before + seq![last]),
    decreases before.len(),
{
    let long = before + seq![last] + after;
    let short = before + seq![last];
    if before.len() == 0 {
        assert(long.first() == last);
        assert(short.first() == last);
    } else {
        assert(long.first() == before.first());
        assert(short.first() == before.first());
        assert(long.drop_first() =~= before.drop_first() + seq![last] + after);
        assert(short.drop_first() =~= before.drop_first() + seq![last]);
        lemma_nothing_after_end(before.drop_first(), last, after);
    }
}

/// The text that each of the events renders.
pub open spec fn fragments_of(events: Seq<StreamEvent>) -> Seq<Seq<char>> {
    events.map_values(|event: StreamEvent| reaction(event)->Render_0)
}

/// Events that only render, followed by the finish signal, render their
/// fragments one after the other, with nothing between them and nothing
/// after them, and end without a failure.
pub proof fn lemma_fragments_then_stop(fragments: Seq<StreamEvent>, stop: StreamEvent)
    requires
        forall|i: int| 0 <= i < fragments.len() ==> reaction(#[trigger] fragments[i]) is Render,
        reaction(stop) is Finish,
    ensures
        rendered(fragments + seq![stop]) == join(fragments_of(fragments), Seq::empty()),
        failure(fragments + seq![stop]) is None,
    decreases fragments.len(),
{
    let all = fragments + seq![stop];
    if fragments.len() == 0 {
        assert(all.first() == stop);
    } else {
        let fewer = fragments.drop_last();
        let newest = fragments.last();
        lemma_rendered_push(fewer, newest, stop);
        lemma_fragments_then_stop(fewer, stop);
        assert(fewer + seq![newest] =~= fragments);
        assert(fragments_of(fragments).drop_last() =~= fragments_of(fewer));
        if fewer.len() == 0 {
            assert((fewer + seq![stop]).first() == stop);
            assert(rendered(all) =~= fragments_of(fragments)[0]);
        } else {
            assert(rendered(all) =~= join(fragments_of(fewer), Seq::empty()) + Seq::<char>::empty()
                + fragments_of(fragments).last());
        }
    }
}

/// One more fragment before the finish signal adds its text at the end.
proof fn lemma_rendered_push(fragments: Seq<StreamEvent>, newest: StreamEvent, stop: StreamEvent)
    requires
        forall|i: int| 0 <= i < fragments.len() ==> reaction(#[trigger] fragments[i]) is Render,
        reaction(newest) is Render,
        reaction(stop) is Finish,
    ensures
        rendered(fragments + seq![newest] + seq![stop]) == rendered(fragments + seq![stop])
            + reaction(newest)->Render_0,
        failure(fragments + seq![newest] + seq![stop]) is None,
    decreases fragments.len(),
{
    let long = fragments + seq![newest] + seq![stop];
    let short = fragments + seq![stop];
    if fragments.len() == 0 {
        assert(long.first() == newest);
        assert(long.drop_first() =~= seq![stop]);
        assert(seq![stop].first() == stop);
        assert(short.first() == stop);
        assert(rendered(long) =~= rendered(short) + reaction(newest)->Render_0);
        assert(failure(seq![stop]) is None);
    } else {
        assert(long.first() == fragments[0]);
        assert(short.first() == fragments[0]);
        assert(long.drop_first() =~= fragments.drop_first() + seq![newest] + seq![stop]);
        assert(short.drop_first() =~= fragments.drop_first() + seq![stop]);
        assert forall|i: int| 0 <= i < fragments.drop_first().len() implies reaction(
            #[trigger] fragments.drop_first()[i],
        ) is Render by {
            assert(fragments.drop_first()[i] == fragments[i + 1]);
        }
        lemma_rendered_push(fragments.drop_first(), newest, stop);
        assert(rendered(long) =~= rendered(short) + reaction(newest)->Render_0);
    }
}

/// What is needed to ask for a diagnosis of a capture.
#[derive(Debug)]
pub struct Diagnostics<'a> {
    pub token: String,
    pub capture: &'a TerminalCapture,
    pub model: DiagnosticModel,
}

fn persona_text() -> (text: &'static str)
    ensures
        text@ == persona(),
{
    "you are a helpful assistant, you get commands outputs and you diagnose what was the issue and given a solution, do not send markdown text"
}

fn message_value(role: &str, content: String) -> (value: serde_json::Value)
    ensures
        json_tree(value) == message_tree(role@, content@),
{
    let mut entries: Vec<(String, serde_json::Value)> = Vec::new();
    entries.push((String::from_str("role"), text_value(String::from_str(role))));
    entries.push((String::from_str("content"), text_value(content)));
    proof {
        reveal_strlit("role");
        reveal_strlit("content");
        reveal_with_fuel(json_members, 3);
        assert("role"@.len() == 4 && "content"@.len() == 7);
        assert(json_members(entries@) =~= map![
            "role"@ => JsonTree::Text(role@),
            "content"@ => JsonTree::Text(content@),
        ]);
    }
    object_value(entries)
}

impl<'a> Diagnostics<'a> {
    /// The address of the chat-completion endpoint.
    pub fn endpoint() -> (url: &'static str)
        ensures
            url@ == "https://api.openai.com/v1/chat/completions"@,
    {
        "https://api.openai.com/v1/chat/completions"
    }

    /// Puts together what a diagnosis needs.
    pub fn new(token: String, model: DiagnosticModel, capture: &'a TerminalCapture) -> (diagnostics:
        Self)
        ensures
            diagnostics.token == token,
            diagnostics.model == model,
            diagnostics.capture == capture,
    {
        Self { token, model, capture }
    }

    /// The user's message: the captured lines, then the note.
    pub fn user_text(&self, note: &Option<String>) -> (text: String)
        ensures
            text@ == user_message(self.capture@, *note),
    {
        let mut text = self.capture.text();
        text.append("\n");
        match note {
            Some(extra) => {
                text.append(extra.as_str());
            },
            None => {
                assert(text@ + Seq::<char>::empty() =~= text@);
            },
        }
        text
    }

    /// The body of the request, as JSON text.
    pub fn request_body(&self, note: &Option<String>) -> (body: String)
        ensures
            body@ == json_text(
                request_tree(self.model.name_spec(), user_message(self.capture@, *note)),
            ),
    {
        let system = message_value("system", String::from_str(persona_text()));
        let user = message_value("user", self.user_text(note));
        let mut messages: Vec<serde_json::Value> = Vec::new();
        messages.push(system);
        messages.push(user);
        proof {
            assert(json_trees(messages@) =~= seq![
                message_tree("system"@, persona()),
                message_tree("user"@, user_message(self.capture@, *note)),
            ]);
        }
        let mut entries: Vec<(String, serde_json::Value)> = Vec::new();
        entries.push((String::from_str("model"), text_value(self.model.name())));
        entries.push((String::from_str("messages"), array_value(messages)));
        entries.push((String::from_str("stream"), bool_value(true)));
        proof {
            reveal_strlit("model");
            reveal_strlit("messages");
            reveal_strlit("stream");
            reveal_with_fuel(json_members, 4);
            assert("model"@.len() == 5 && "messages"@.len() == 8 && "stream"@.len() == 6);
            assert(json_members(entries@) =~= map![
                "model"@ => JsonTree::Text(self.model.name_spec()),
                "messages"@ => JsonTree::Array(
                    seq![
                        message_tree("system"@, persona()),
                        message_tree("user"@, user_message(self.capture@, *note)),
                    ],
                ),
                "stream"@ => JsonTree::Bool(true),
            ]);
        }
        to_text(&object_value(entries))
    }

    /// Decides what a message calls for, once its payload was read as the
    /// JSON document `document`.
    pub fn on_document(document: &serde_json::Value) -> (action: StreamAction)
        ensures
            action@ == document_reaction(json_tree(*document)),
    {
        let choice = element(member(document, "choices"), 0);
        let stop = match as_text(member(choice, "finish_reason")) {
            Some(reason) => same_text(reason, "stop"),
            None => false,
        };
        if stop {
            return StreamAction::Finish;
        }
        let content = member(member(choice, "delta"), "content");
        match as_text(content) {
            Some(_) => StreamAction::Render(trim_text(to_text(content).as_str(), '"')),
            None => StreamAction::Fail(DiagnosisError::Protocol),
        }
    }

    /// Decides what an event of the stream calls for.
    pub fn on_event(event: &StreamEvent) -> (action: StreamAction)
        ensures
            action@ == reaction(*event),
    {
        match event {
            StreamEvent::Open => StreamAction::Idle,
            StreamEvent::Message(payload) => match parse(payload.as_str()) {
                Ok(document) => Self::on_document(&document),
                Err(_) => StreamAction::Fail(DiagnosisError::Protocol),
            },
            StreamEvent::Refused(status) => StreamAction::Fail(
                DiagnosisError::RemoteService(*status),
            ),
            StreamEvent::Broken(reason) => StreamAction::Fail(
                DiagnosisError::Transport(reason.clone()),
            ),
        }
    }

    /// Reads the events in their order and writes to `screen` what they
    /// render, fragment by fragment, up to the finish signal, the first
    /// failure, or the end of the events.
    pub fn write_to_screen(events: &Vec<StreamEvent>, screen: &mut String) -> (result: Result<
        (),
        DiagnosisError,
    >)
        ensures
            final(screen)@ == old(screen)@ + rendered(events@),
            match result {
                Ok(_) => failure(events@) is None,
                Err(error) => failure(events@) == Some(error),
            },
    {
        let mut at: usize = 0;
        proof {
            assert(events@.skip(0) =~= events@);
            assert(screen@ + rendered(events@) =~= old(screen)@ + rendered(events@));
        }
        while at < events.len()
            invariant
                at <= events.len(),
                screen@ + rendered(events@.skip(at as int)) == old(screen)@ + rendered(events@),
                failure(events@.skip(at as int)) == failure(events@),
            decreases events.len() - at,
        {
            let ghost rest = events@.skip(at as int);
            proof {
                assert(rest.first() == events@[at as int]);
                assert(rest.drop_first() =~= events@.skip(at as int + 1));
            }
            let ghost shown = screen@;
            match Self::on_event(&events[at]) {
                StreamAction::Idle => {},
                StreamAction::Render(text) => {
                    screen.append(text.as_str());
                    proof {
                        assert(screen@ + rendered(rest.drop_first()) =~= shown + rendered(rest));
                    }
                },
                StreamAction::Finish => {
                    proof {
                        assert(screen@ + Seq::<char>::empty() =~= screen@);
                    }
                    return Ok(());
                },
                StreamAction::Fail(error) => {
                    proof {
                        assert(screen@ + Seq::<char>::empty() =~= screen@);
                    }
                    return Err(error);
                },
            }
            at = at + 1;
        }
        proof {
            assert(events@.skip(at as int) =~= Seq::<StreamEvent>::empty());
            assert(screen@ + Seq::<char>::empty() =~= screen@);
        }
        Ok(())
    }
}

} // verus!
