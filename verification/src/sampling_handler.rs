//! What the server does with a sampling call of an extension: ask the
//! operator first, and only on approval let the provider complete.
//!
//! The waiting and the provider's work happen outside this library. Here is
//! the part that decides: a handler goes through its states one event at a
//! time, and each step names the action that is owed next.

use vstd::prelude::*;
use crate::channel::waiter_channel;
use crate::approval::{begin_approval, registers_fresh, ApprovalError};
use crate::state::AppState;

verus! {

/// Who speaks in a message of a conversation.
#[derive(Clone, Copy, Debug, PartialEq, Eq, Structural)]
pub enum Role {
    User,
    Assistant,
}

/// What a message holds, as far as a reply depends on it.
#[derive(Debug)]
pub enum MessageContent {
    Text(String),
    Image { data: String, mime_type: String },
    Other,
}

/// What the provider gave: the model that answered, and the pieces of its
/// answer in their order.
#[derive(Debug)]
pub struct Completion {
    pub model: String,
    pub content: Vec<MessageContent>,
}

/// The piece of an answer that a reply carries: the first, if there is one.
pub open spec fn first_piece(content: Seq<MessageContent>) -> Option<MessageContent> {
    if content.len() > 0 {
        Some(content[0])
    } else {
        None
    }
}

/// The reply owed to the extension after a completion.
#[derive(Debug)]
pub struct Reply {
    pub model: String,
    pub stop_reason: Option<String>,
    pub role: Role,
    pub content: MessageContent,
}

/// Why a sampling call failed.
#[derive(Clone, Copy, Debug, PartialEq, Eq, Structural)]
pub enum HandlerError {
    /// Registration, the decision channel, the provider or the order of
    /// events failed.
    UnexpectedResponse,
    /// The operator rejected the request.
    Rejected,
}

/// Where a sampling call stands.
#[derive(Clone, Copy, Debug, PartialEq, Eq, Structural)]
pub enum HandlerState {
    AwaitingDecision,
    AwaitingProvider,
    AwaitingCompletion,
    Finished,
}

/// What happened outside since the last step.
#[derive(Debug)]
pub enum HandlerEvent {
    /// The decision channel gave a verdict or was closed.
    Decision(Result<bool, ApprovalError>),
    /// The provider was looked up: whether one is configured.
    Provider(bool),
    /// The provider returned: its completion, or nothing where it failed.
    Completion(Option<Completion>),
}

/// What is owed after a step.
#[derive(Debug)]
pub enum HandlerAction {
    /// Look up the provider.
    AcquireProvider,
    /// Ask the provider for a completion.
    Complete,
    /// Answer the extension.
    Reply(Reply),
    /// Fail the call.
    Fail(HandlerError),
}

/// Reads `rmcp::model::CreateMessageResult::STOP_REASON_END_TURN`, the stop
/// reason of a turn that ended by itself, which is the text `endTurn`.
#[verifier::external_body]
fn end_turn_reason() -> (reason: String)
    ensures
        reason@ == "endTurn"@,
{
    rmcp::model::CreateMessageResult::STOP_REASON_END_TURN.to_string()
}

/// `reply` is the reply owed for `completion`: the provider's model, the
/// assistant's role, a turn that ended by itself, and the first piece of the
/// answer where it is a text or an image, an empty text where it is anything
/// else or the answer has no piece. Later pieces are left out.
pub open spec fn is_reply_to(reply: Reply, completion: Completion) -> bool {
    &&& reply.model == completion.model
    &&& reply.role == Role::Assistant
    &&& reply.stop_reason matches Some(reason) && reason@ == "endTurn"@
    &&& match first_piece(completion.content@) {
        Some(MessageContent::Text(text)) => reply.content == MessageContent::Text(text),
        Some(MessageContent::Image { data, mime_type }) => reply.content
            == (MessageContent::Image { data, mime_type }),
        _ => reply.content matches MessageContent::Text(text) && text@ == Seq::<char>::empty(),
    }
}

/// One step from `state` on `event` leads to `next` and owes `action`.
///
/// The provider is looked up only after an approval and asked only where one
/// is configured. A rejection fails the call as `Rejected`; a closed channel,
/// a missing or failing provider and an event out of turn fail it as
/// `UnexpectedResponse`.
pub open spec fn steps(
    state: HandlerState,
    event: HandlerEvent,
    next: HandlerState,
    action: HandlerAction,
) -> bool {
    match (state, event) {
        (HandlerState::AwaitingDecision, HandlerEvent::Decision(Ok(true))) => {
            next == HandlerState::AwaitingProvider && action is AcquireProvider
        },
        (HandlerState::AwaitingDecision, HandlerEvent::Decision(Ok(false))) => {
            next == HandlerState::Finished && action == HandlerAction::Fail(HandlerError::Rejected)
        },
        (HandlerState::AwaitingProvider, HandlerEvent::Provider(true)) => {
            next == HandlerState::AwaitingCompletion && action is Complete
        },
        (HandlerState::AwaitingCompletion, HandlerEvent::Completion(Some(completion))) => {
            &&& next == HandlerState::Finished
            &&& action matches HandlerAction::Reply(reply)
            &&& is_reply_to(reply, completion)
        },
        _ => {
            next == HandlerState::Finished && action == HandlerAction::Fail(
                HandlerError::UnexpectedResponse,
            )
        },
    }
}

/// The reply owed for `completion`.
pub fn reply_to(completion: Completion) -> (reply: Reply)
    ensures
        is_reply_to(reply, completion),
{
    let mut pieces = completion.content;
    let first = if pieces.len() > 0 {
        Some(pieces.remove(0))
    } else {
        None
    };
    let content = match first {
        Some(MessageContent::Text(text)) => MessageContent::Text(text),
        Some(MessageContent::Image { data, mime_type }) => MessageContent::Image {
            data,
            mime_type,
        },
        _ => MessageContent::Text(String::new()),
    };
    Reply {
        model: completion.model,
        stop_reason: Some(end_turn_reason()),
        role: Role::Assistant,
        content,
    }
}

/// Takes one step.
pub fn step(state: HandlerState, event: HandlerEvent) -> (taken: (HandlerState, HandlerAction))
    ensures
        steps(state, event, taken.0, taken.1),
{
    match (state, event) {
        (HandlerState::AwaitingDecision, HandlerEvent::Decision(Ok(true))) => (
            HandlerState::AwaitingProvider,
            HandlerAction::AcquireProvider,
        ),
        (HandlerState::AwaitingDecision, HandlerEvent::Decision(Ok(false))) => (
            HandlerState::Finished,
            HandlerAction::Fail(HandlerError::Rejected),
        ),
        (HandlerState::AwaitingProvider, HandlerEvent::Provider(true)) => (
            HandlerState::AwaitingCompletion,
            HandlerAction::Complete,
        ),
        (HandlerState::AwaitingCompletion, HandlerEvent::Completion(Some(completion))) => (
            HandlerState::Finished,
            HandlerAction::Reply(reply_to(completion)),
        ),
        _ => (HandlerState::Finished, HandlerAction::Fail(HandlerError::UnexpectedResponse)),
    }
}

/// The system prompt handed to the provider: the one of the request, or a
/// plain default where the request has none.
pub fn system_prompt_or_default(system_prompt: Option<String>) -> (prompt: String)
    ensures
        prompt@ == match system_prompt {
            Some(given) => given@,
            None => "You are a helpful assistant"@,
        },
{
    match system_prompt {
        Some(given) => given,
        None => "You are a helpful assistant".to_owned(),
    }
}

impl HandlerError {
    /// The reason given to the extension, where the error carries one.
    pub fn reason(&self) -> (reason: Option<String>)
        ensures
            *self == HandlerError::UnexpectedResponse ==> reason.is_none(),
            *self == HandlerError::Rejected ==> (reason matches Some(text) && text@
                == "User rejected sampling request"@),
    {
        match self {
            HandlerError::UnexpectedResponse => None,
            HandlerError::Rejected => Some("User rejected sampling request".to_owned()),
        }
    }
}

/// The handler of one extension's sampling calls.
#[derive(Debug)]
pub struct ServerSamplingHandler {
    extension_name: String,
}

impl ServerSamplingHandler {
    /// A handler for the extension `extension_name`.
    pub fn new(extension_name: String) -> (handler: Self)
        ensures
            handler.extension_name() == extension_name,
    {
        ServerSamplingHandler { extension_name }
    }

    /// The extension this handler answers.
    pub closed spec fn extension_name(&self) -> String {
        self.extension_name
    }

    /// Starts a sampling call: registers a request of this handler's
    /// extension with the payload `params` under a fresh identifier. On
    /// success that request has become pending and the call awaits the
    /// decision. The call fails only where the identifier drawn is that of a
    /// pending request, and then nothing has changed; so it succeeds wherever
    /// nothing is pending.
    pub fn handle_create_message(
        &self,
        state: &mut AppState,
        params: rmcp::model::CreateMessageRequestParams,
    ) -> (started: Result<(HandlerState, tokio::sync::oneshot::Receiver<bool>), HandlerError>)
        requires
            old(state).wf(),
        ensures
            final(state).wf(),
            (forall|id: Seq<char>| !old(state)@.filed.dom().contains(id)) ==> started is Ok,
            started matches Ok(call) ==> {
                &&& call.0 == HandlerState::AwaitingDecision
                &&& registers_fresh(
                    old(state)@,
                    final(state)@,
                    self.extension_name(),
                    params,
                    waiter_channel(call.1),
                )
            },
            started matches Err(error) ==> {
                &&& error == HandlerError::UnexpectedResponse
                &&& exists|id: Seq<char>| old(state)@.filed.dom().contains(id)
                &&& *final(state) == *old(state)
            },
    {
        match begin_approval(state, self.extension_name.clone(), params) {
            Ok(receiver) => Ok((HandlerState::AwaitingDecision, receiver)),
            Err(_) => Err(HandlerError::UnexpectedResponse),
        }
    }
}

} // verus!
