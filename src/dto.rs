use vstd::prelude::*;

verus! {

/// One entry of a conversation transcript.
#[derive(Clone, PartialEq, Eq, Debug)]
pub enum Message {
    System(String),
    User(String),
    Function { name: String, content: String },
    Assistant(AssistantMessage),
}

/// A reply of the model: a final answer or a request to call a function.
#[derive(Clone, PartialEq, Eq, Debug)]
pub enum AssistantMessage {
    Content(String),
    FunctionCall(FunctionCall),
}

/// A function invocation requested by the model.
#[derive(Clone, PartialEq, Eq, Debug)]
pub struct FunctionCall {
    pub name: String,
    pub content: Option<String>,
    pub args: String,
}

impl Message {
    pub fn is_system(&self) -> (r: bool)
        ensures
            r == (*self is System),
    {
        if let Message::System(_) = self {
            true
        } else {
            false
        }
    }

    /// A copy of this entry, equal to it.
    pub fn duplicate(&self) -> (r: Message)
        ensures
            r == *self,
    {
        match self {
            Message::System(text) => Message::System(text.clone()),
            Message::User(text) => Message::User(text.clone()),
            Message::Function { name, content } => Message::Function {
                name: name.clone(),
                content: content.clone(),
            },
            Message::Assistant(reply) => Message::Assistant(reply.duplicate()),
        }
    }
}

impl AssistantMessage {
    /// A copy of this reply, equal to it.
    pub fn duplicate(&self) -> (r: AssistantMessage)
        ensures
            r == *self,
    {
        match self {
            AssistantMessage::Content(text) => AssistantMessage::Content(text.clone()),
            AssistantMessage::FunctionCall(fc) => AssistantMessage::FunctionCall(fc.duplicate()),
        }
    }
}

impl FunctionCall {
    /// A copy of this call, equal to it.
    pub fn duplicate(&self) -> (r: FunctionCall)
        ensures
            r == *self,
    {
        let content = match &self.content {
            Some(text) => Some(text.clone()),
            None => None,
        };
        FunctionCall { name: self.name.clone(), content, args: self.args.clone() }
    }
}

/// A copy of a transcript, entry for entry.
pub fn copy_messages(messages: &[Message]) -> (r: Vec<Message>)
    ensures
        r@ == messages@,
{
    let mut r: Vec<Message> = Vec::new();
    let mut i: usize = 0;
    while i < messages.len()
        invariant
            i <= messages@.len(),
            r@ == messages@.subrange(0, i as int),
        decreases messages@.len() - i,
    {
        r.push(messages[i].duplicate());
        i = i + 1;
        assert(r@ =~= messages@.subrange(0, i as int));
    }
    assert(r@ =~= messages@);
    r
}

/// The role of a record on the provider's wire.
#[derive(Clone, Copy, PartialEq, Eq, Debug)]
pub enum WireRole {
    System,
    User,
    Assistant,
    Function,
}

/// A function call as the provider's wire carries it.
#[derive(Clone, PartialEq, Eq, Debug)]
pub struct WireFunctionCall {
    pub name: String,
    pub arguments: String,
}

/// A message record as the provider's wire carries it.
#[derive(Clone, PartialEq, Eq, Debug)]
pub struct WireMessage {
    pub role: WireRole,
    pub content: Option<String>,
    pub name: Option<String>,
    pub function_call: Option<WireFunctionCall>,
}

/// The wire record of an assistant reply.
pub open spec fn reply_wire(reply: AssistantMessage) -> WireMessage {
    match reply {
        AssistantMessage::Content(text) => WireMessage {
            role: WireRole::Assistant,
            content: Some(text),
            name: None,
            function_call: None,
        },
        AssistantMessage::FunctionCall(fc) => WireMessage {
            role: WireRole::Assistant,
            content: None,
            name: None,
            function_call: Some(WireFunctionCall { name: fc.name, arguments: fc.args }),
        },
    }
}

/// The wire record of a transcript entry.
pub open spec fn message_wire(message: Message) -> WireMessage {
    match message {
        Message::System(text) => WireMessage {
            role: WireRole::System,
            content: Some(text),
            name: None,
            function_call: None,
        },
        Message::User(text) => WireMessage {
            role: WireRole::User,
            content: Some(text),
            name: None,
            function_call: None,
        },
        Message::Function { name, content } => WireMessage {
            role: WireRole::Function,
            content: Some(content),
            name: Some(name),
            function_call: None,
        },
        Message::Assistant(reply) => reply_wire(reply),
    }
}

impl AssistantMessage {
    pub fn into_wire(self) -> (r: WireMessage)
        ensures
            r == reply_wire(self),
    {
        match self {
            AssistantMessage::Content(text) => WireMessage {
                role: WireRole::Assistant,
                content: Some(text),
                name: None,
                function_call: None,
            },
            AssistantMessage::FunctionCall(fc) => WireMessage {
                role: WireRole::Assistant,
                content: None,
                name: None,
                function_call: Some(WireFunctionCall { name: fc.name, arguments: fc.args }),
            },
        }
    }
}

impl Message {
    pub fn into_wire(self) -> (r: WireMessage)
        ensures
            r == message_wire(self),
    {
        match self {
            Message::System(text) => WireMessage {
                role: WireRole::System,
                content: Some(text),
                name: None,
                function_call: None,
            },
            Message::User(text) => WireMessage {
                role: WireRole::User,
                content: Some(text),
                name: None,
                function_call: None,
            },
            Message::Function { name, content } => WireMessage {
                role: WireRole::Function,
                content: Some(content),
                name: Some(name),
                function_call: None,
            },
            Message::Assistant(reply) => reply.into_wire(),
        }
    }
}

/// Why a provider response could not be read as an assistant reply.
#[derive(Clone, PartialEq, Eq, Debug)]
pub enum InvalidResponse {
    /// The response came with a role other than assistant.
    UnexpectedRole(WireRole),
    /// The response carried neither content nor a function call.
    Empty,
}

/// The reply that a provider response stands for, or why it stands for none.
pub open spec fn decoded(response: WireMessage) -> Result<AssistantMessage, InvalidResponse> {
    if response.role != WireRole::Assistant {
        Err(InvalidResponse::UnexpectedRole(response.role))
    } else {
        match response.function_call {
            Some(call) => Ok(
                AssistantMessage::FunctionCall(
                    FunctionCall { name: call.name, content: response.content, args: call.arguments },
                ),
            ),
            None => match response.content {
                Some(text) => Ok(AssistantMessage::Content(text)),
                None => Err(InvalidResponse::Empty),
            },
        }
    }
}

/// Reads a provider response as an assistant reply.
pub fn decode_response(response: WireMessage) -> (r: Result<AssistantMessage, InvalidResponse>)
    ensures
        r == decoded(response),
{
    match response.role {
        WireRole::Assistant => {},
        role => {
            return Err(InvalidResponse::UnexpectedRole(role));
        },
    }
    match response.function_call {
        Some(call) => Ok(
            AssistantMessage::FunctionCall(
                FunctionCall { name: call.name, content: response.content, args: call.arguments },
            ),
        ),
        None => match response.content {
            Some(text) => Ok(AssistantMessage::Content(text)),
            None => Err(InvalidResponse::Empty),
        },
    }
}

} // verus!
