//! A request for a message, as far as it decides how it is served.

use vstd::prelude::*;
use vstd::string::*;

use crate::json::Json;
use crate::prompt::Message;

verus! {

/// A request for a message.
#[derive(Debug)]
pub struct MessagesRequest {
    pub model: Option<String>,
    pub messages: Option<Vec<Message>>,
    pub system: Option<Json>,
    pub max_tokens: Option<u32>,
    pub stream: Option<bool>,
}

/// The model where a request names none.
pub const DEFAULT_MODEL: &'static str = "cursor-auto";

impl MessagesRequest {
    /// The model of the request.
    pub open spec fn model_view(self) -> Seq<char> {
        match self.model {
            Some(model) => model@,
            None => DEFAULT_MODEL@,
        }
    }

    /// The messages of the request; none where it has no list.
    pub open spec fn messages_view(self) -> Seq<Message> {
        match self.messages {
            Some(messages) => messages@,
            None => seq![],
        }
    }

    /// The model of the request.
    pub fn model(&self) -> (model: &str)
        ensures
            model@ == self.model_view(),
    {
        match &self.model {
            Some(model) => model.as_str(),
            None => DEFAULT_MODEL,
        }
    }

    /// The messages of the request; none where it has no list.
    pub fn messages(&self) -> (messages: &[Message])
        ensures
            messages@ == self.messages_view(),
    {
        match &self.messages {
            Some(messages) => messages.as_slice(),
            None => {
                let none: &[Message] = &[];
                none
            },
        }
    }

    /// The reply is to be streamed.
    pub open spec fn streams(self) -> bool {
        self.stream != Some(false)
    }

    /// Whether the reply is to be streamed, which it is unless the request says otherwise.
    pub fn wants_stream(&self) -> (yes: bool)
        ensures
            yes == self.streams(),
            yes == (self.stream != Some(false)),
    {
        match self.stream {
            Some(stream) => stream,
            None => true,
        }
    }
}

// Laws
/// A request is served under the model that it names, with all its messages, and as a stream
/// unless it says that it wants none; only what it leaves out has a default.
pub proof fn law_request_is_served_as_asked(request: MessagesRequest)
    ensures
        request.model matches Some(model) ==> request.model_view() == model@,
        request.model is None ==> request.model_view() == "cursor-auto"@,
        request.messages matches Some(messages) ==> request.messages_view() == messages@,
        request.messages is None ==> request.messages_view().len() == 0,
        request.stream == Some(false) ==> !request.streams(),
        request.stream == Some(true) || request.stream is None ==> request.streams(),
{
}

} // verus!
