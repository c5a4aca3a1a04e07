//! Requests sent to the service, and what a client line asks for.

use vstd::prelude::*;

use crate::words::words_view;

verus! {

/// The kind of a request.
#[derive(Clone, Copy, Debug, PartialEq, Eq, Structural)]
pub enum RequestType {
    Illegal,
    Ping,
    SetValue,
    Get,
    Del,
}

/// A request: its kind, the keys it names and the value it carries.
#[derive(Debug)]
pub struct RedisRequest {
    pub key: Option<Vec<String>>,
    pub value: Option<String>,
    pub request_type: RequestType,
}

/// The mathematical content of a [`RedisRequest`].
pub struct RequestView {
    pub key: Option<Seq<Seq<char>>>,
    pub value: Option<Seq<char>>,
    pub request_type: RequestType,
}

impl View for RedisRequest {
    type V = RequestView;

    open spec fn view(&self) -> RequestView {
        RequestView {
            key: match self.key {
                Some(k) => Some(words_view(k@)),
                None => None,
            },
            value: match self.value {
                Some(v) => Some(v@),
                None => None,
            },
            request_type: self.request_type,
        }
    }
}

/// What a line typed at the client asks for: a request to send, or leaving.
#[derive(Debug)]
pub enum ClientCommand {
    Send(RedisRequest),
    Exit,
}

/// The mathematical content of a [`ClientCommand`].
pub enum ClientCommandView {
    Send(RequestView),
    Exit,
}

impl View for ClientCommand {
    type V = ClientCommandView;

    open spec fn view(&self) -> ClientCommandView {
        match self {
            ClientCommand::Send(r) => ClientCommandView::Send(r@),
            ClientCommand::Exit => ClientCommandView::Exit,
        }
    }
}

/// A request with no key and no value.
pub open spec fn bare_request(t: RequestType) -> RequestView {
    RequestView { key: None, value: None, request_type: t }
}

/// The request that sets `key` to `value`.
pub open spec fn set_request(key: Seq<char>, value: Seq<char>) -> RequestView {
    RequestView { key: Some(seq![key]), value: Some(value), request_type: RequestType::SetValue }
}

/// The request that reads `key`.
pub open spec fn get_request(key: Seq<char>) -> RequestView {
    RequestView { key: Some(seq![key]), value: None, request_type: RequestType::Get }
}

/// The request that deletes every key of `keys`.
pub open spec fn del_request(keys: Seq<Seq<char>>) -> RequestView {
    RequestView { key: Some(keys), value: None, request_type: RequestType::Del }
}

} // verus!
