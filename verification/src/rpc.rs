use vstd::prelude::*;

use crate::msgpack::{copy_values, same_values, spec_as_str, spec_as_u64, MsgModel, MsgValue};
use crate::redraw::{arg_str, arg_u64};
use crate::text::{decimal, decimal_text};

verus! {

/// One message of Neovim's MessagePack-RPC channel.
#[derive(Debug, Clone, PartialEq)]
pub enum RpcMessage {
    Request { id: u64, method: String, params: Vec<MsgValue> },
    Response { id: u64, error: MsgValue, result: MsgValue },
    Notification { method: String, params: Vec<MsgValue> },
}

/// A value that is not an RPC message; `message` says why.
#[derive(Debug, Clone, PartialEq, Eq)]
pub struct RpcError {
    pub message: String,
}

/// `items` (the elements of an array value) form a well-formed message:
/// `[0, id, method, params]`, `[1, id, error, result]` or
/// `[2, method, params]`.
pub open spec fn rpc_items_ok(items: Seq<MsgValue>) -> bool {
    match arg_u64(items, 0) {
        Some(kind) => if kind == 0 {
            &&& arg_u64(items, 1) is Some
            &&& arg_str(items, 2) is Some
            &&& 3 < items.len()
            &&& items[3] is Array
        } else if kind == 1 {
            arg_u64(items, 1) is Some && 3 < items.len()
        } else if kind == 2 {
            &&& arg_str(items, 1) is Some
            &&& 2 < items.len()
            &&& items[2] is Array
        } else {
            false
        },
        None => false,
    }
}

pub open spec fn rpc_ok(value: MsgValue) -> bool {
    match value {
        MsgValue::Array(items) => rpc_items_ok(items@),
        _ => false,
    }
}

/// `message` is what the well-formed array `items` says.
pub open spec fn rpc_items_decode(items: Seq<MsgValue>, message: RpcMessage) -> bool {
    match message {
        RpcMessage::Request { id, method, params } => {
            &&& arg_u64(items, 0) == Some(0u64)
            &&& arg_u64(items, 1) == Some(id)
            &&& arg_str(items, 2) == Some(method@)
            &&& same_values(params@, items[3]->Array_0@)
        },
        RpcMessage::Response { id, error, result } => {
            &&& arg_u64(items, 0) == Some(1u64)
            &&& arg_u64(items, 1) == Some(id)
            &&& error.model() == items[2].model()
            &&& result.model() == items[3].model()
        },
        RpcMessage::Notification { method, params } => {
            &&& arg_u64(items, 0) == Some(2u64)
            &&& arg_str(items, 1) == Some(method@)
            &&& same_values(params@, items[2]->Array_0@)
        },
    }
}

pub open spec fn rpc_decodes(value: MsgValue, message: RpcMessage) -> bool {
    match value {
        MsgValue::Array(items) => rpc_items_decode(items@, message),
        _ => false,
    }
}

fn rpc_error(message: &str) -> (e: RpcError)
    ensures
        e.message@ == message@,
{
    RpcError { message: String::from_str(message) }
}

fn id_at(items: &Vec<MsgValue>, index: usize, error: &str) -> (r: Result<u64, RpcError>)
    ensures
        match r {
            Ok(n) => arg_u64(items@, index as int) == Some(n),
            Err(e) => arg_u64(items@, index as int) is None && e.message@ == error@,
        },
{
    if index < items.len() {
        if let Some(n) = items[index].as_u64() {
            return Ok(n);
        }
    }
    Err(rpc_error(error))
}

fn string_at(items: &Vec<MsgValue>, index: usize, error: &str) -> (r: Result<String, RpcError>)
    ensures
        match r {
            Ok(s) => arg_str(items@, index as int) == Some(s@),
            Err(e) => arg_str(items@, index as int) is None && e.message@ == error@,
        },
{
    if index < items.len() {
        if let Some(s) = items[index].as_str() {
            return Ok(s.to_owned());
        }
    }
    Err(rpc_error(error))
}

fn array_at(items: &Vec<MsgValue>, index: usize, error: &str) -> (r: Result<
    Vec<MsgValue>,
    RpcError,
>)
    ensures
        match r {
            Ok(v) => index < items@.len() && items@[index as int] is Array && same_values(
                v@,
                items@[index as int]->Array_0@,
            ),
            Err(e) => !(index < items@.len() && items@[index as int] is Array) && e.message@
                == error@,
        },
{
    if index < items.len() {
        if let Some(values) = items[index].as_array() {
            return Ok(copy_values(values));
        }
    }
    Err(rpc_error(error))
}

/// Why `items` is not a well-formed message: the first field that is
/// wrong, checked in order.
pub open spec fn rpc_items_error(items: Seq<MsgValue>) -> Seq<char> {
    match arg_u64(items, 0) {
        None => "RPC message type must be an unsigned integer"@,
        Some(kind) => if kind == 0 {
            if arg_u64(items, 1) is None {
                "request id must be an unsigned integer"@
            } else if arg_str(items, 2) is None {
                "request method must be a UTF-8 string"@
            } else {
                "request params must be an array"@
            }
        } else if kind == 1 {
            if arg_u64(items, 1) is None {
                "response id must be an unsigned integer"@
            } else if items.len() <= 2 {
                "missing response error"@
            } else {
                "missing response result"@
            }
        } else if kind == 2 {
            if arg_str(items, 1) is None {
                "notification method must be a UTF-8 string"@
            } else {
                "notification params must be an array"@
            }
        } else {
            "unknown RPC message type "@ + decimal_text(kind as nat)
        },
    }
}

/// Why `value` is not a well-formed message.
pub open spec fn rpc_error_text(value: MsgValue) -> Seq<char> {
    match value {
        MsgValue::Array(items) => rpc_items_error(items@),
        _ => "RPC message must be an array"@,
    }
}

/// Reads an RPC message out of a MessagePack value.
pub fn decode_rpc_message(value: MsgValue) -> (r: Result<RpcMessage, RpcError>)
    ensures
        r is Ok <==> rpc_ok(value),
        r matches Ok(message) ==> rpc_decodes(value, message),
        r matches Err(e) ==> e.message@ == rpc_error_text(value),
{
    let items = match value.as_array() {
        Some(items) => items,
        None => {
            return Err(rpc_error("RPC message must be an array"));
        },
    };
    let kind = match id_at(items, 0, "RPC message type must be an unsigned integer") {
        Ok(kind) => kind,
        Err(e) => {
            return Err(e);
        },
    };
    if kind == 0 {
        let id = match id_at(items, 1, "request id must be an unsigned integer") {
            Ok(id) => id,
            Err(e) => {
                return Err(e);
            },
        };
        let method = match string_at(items, 2, "request method must be a UTF-8 string") {
            Ok(method) => method,
            Err(e) => {
                return Err(e);
            },
        };
        match array_at(items, 3, "request params must be an array") {
            Ok(params) => Ok(RpcMessage::Request { id, method, params }),
            Err(e) => Err(e),
        }
    } else if kind == 1 {
        let id = match id_at(items, 1, "response id must be an unsigned integer") {
            Ok(id) => id,
            Err(e) => {
                return Err(e);
            },
        };
        if items.len() <= 2 {
            return Err(rpc_error("missing response error"));
        }
        if items.len() <= 3 {
            return Err(rpc_error("missing response result"));
        }
        Ok(RpcMessage::Response { id, error: items[2].clone(), result: items[3].clone() })
    } else if kind == 2 {
        let method = match string_at(items, 1, "notification method must be a UTF-8 string") {
            Ok(method) => method,
            Err(e) => {
                return Err(e);
            },
        };
        match array_at(items, 2, "notification params must be an array") {
            Ok(params) => Ok(RpcMessage::Notification { method, params }),
            Err(e) => Err(e),
        }
    } else {
        let mut message = String::from_str("unknown RPC message type ");
        message.append(decimal(kind).as_str());
        Err(RpcError { message })
    }
}

/// `value` is the request `[0, id, method, params]`.
pub open spec fn is_request_value(
    value: MsgValue,
    id: u64,
    method: Seq<char>,
    params: Seq<MsgValue>,
) -> bool {
    match value {
        MsgValue::Array(items) => {
            &&& items@.len() == 4
            &&& items@[0] == MsgValue::Integer(0)
            &&& items@[1] == MsgValue::Integer(id as i128)
            &&& spec_as_str(items@[2]) == Some(method)
            &&& items@[3] is Array
            &&& items@[3]->Array_0@ == params
        },
        _ => false,
    }
}

/// `value` is the notification `[2, method, params]`.
pub open spec fn is_notification_value(
    value: MsgValue,
    method: Seq<char>,
    params: Seq<MsgValue>,
) -> bool {
    match value {
        MsgValue::Array(items) => {
            &&& items@.len() == 3
            &&& items@[0] == MsgValue::Integer(2)
            &&& spec_as_str(items@[1]) == Some(method)
            &&& items@[2] is Array
            &&& items@[2]->Array_0@ == params
        },
        _ => false,
    }
}

/// The request `[0, id, method, params]`.
pub fn request_message(id: u64, method: &str, params: Vec<MsgValue>) -> (r: MsgValue)
    ensures
        is_request_value(r, id, method@, params@),
{
    let mut items: Vec<MsgValue> = Vec::new();
    items.push(MsgValue::Integer(0));
    items.push(MsgValue::from_u64(id));
    items.push(MsgValue::from_str(method));
    items.push(MsgValue::Array(params));
    let r = MsgValue::Array(items);
    assert(r->Array_0@[3]->Array_0@ == params@);
    r
}

/// The notification `[2, method, params]`.
pub fn notification_message(method: &str, params: Vec<MsgValue>) -> (r: MsgValue)
    ensures
        is_notification_value(r, method@, params@),
{
    let mut items: Vec<MsgValue> = Vec::new();
    items.push(MsgValue::Integer(2));
    items.push(MsgValue::from_str(method));
    items.push(MsgValue::Array(params));
    MsgValue::Array(items)
}

/// The text of the error Mado answers a request from Neovim with.
pub open spec fn unserved_request_text(method: Seq<char>) -> Seq<char> {
    "Mado does not implement Neovim RPC request '"@ + method + "'"@
}

/// `value` is the response `[1, id, error, nil]` whose error is the text
/// refusing a request for `method`.
pub open spec fn is_refusal_value(value: MsgValue, id: u64, method: Seq<char>) -> bool {
    match value {
        MsgValue::Array(items) => {
            &&& items@.len() == 4
            &&& items@[0] == MsgValue::Integer(1)
            &&& items@[1] == MsgValue::Integer(id as i128)
            &&& spec_as_str(items@[2]) == Some(unserved_request_text(method))
            &&& items@[3] == MsgValue::Nil
        },
        _ => false,
    }
}

/// The response `[1, id, error, nil]` that refuses the request `id` for
/// `method`: Mado serves no requests from Neovim.
pub fn refusal_response(id: u64, method: &String) -> (r: MsgValue)
    ensures
        is_refusal_value(r, id, method@),
{
    let mut text = String::from_str("Mado does not implement Neovim RPC request '");
    text.append(method.as_str());
    text.append("'");
    let mut items: Vec<MsgValue> = Vec::new();
    items.push(MsgValue::Integer(1));
    items.push(MsgValue::from_u64(id));
    items.push(MsgValue::Str(text));
    items.push(MsgValue::Nil);
    MsgValue::Array(items)
}

/// The outcome of a request: its result when the error is nil, the error
/// otherwise.
pub fn response_outcome(error: MsgValue, result: MsgValue) -> (r: Result<MsgValue, MsgValue>)
    ensures
        error is Nil ==> r == Ok::<MsgValue, MsgValue>(result),
        !(error is Nil) ==> r == Err::<MsgValue, MsgValue>(error),
{
    if error.is_nil() {
        Ok(result)
    } else {
        Err(error)
    }
}

/// What the reader of Neovim's output does with one message.
#[derive(Debug)]
pub enum ReaderAction {
    /// Hand the response to the request `id` that waits for it.
    Deliver { id: u64, error: MsgValue, result: MsgValue },
    /// Pass the notification on to the user interface.
    Forward { method: String, params: Vec<MsgValue> },
    /// Send `response` back: Neovim asked for something Mado does not serve.
    Reply { response: MsgValue },
}

/// Decides what to do with a message read from Neovim.
pub fn route_message(message: RpcMessage) -> (r: ReaderAction)
    ensures
        match message {
            RpcMessage::Response { id, error, result } => r == ReaderAction::Deliver {
                id,
                error,
                result,
            },
            RpcMessage::Notification { method, params } => r == ReaderAction::Forward {
                method,
                params,
            },
            RpcMessage::Request { id, method, .. } => r matches ReaderAction::Reply { response }
                && is_refusal_value(response, id, method@),
        },
{
    match message {
        RpcMessage::Response { id, error, result } => ReaderAction::Deliver { id, error, result },
        RpcMessage::Notification { method, params } => ReaderAction::Forward { method, params },
        RpcMessage::Request { id, method, .. } => ReaderAction::Reply {
            response: refusal_response(id, &method),
        },
    }
}

/// "response for unknown request id `id`".
pub fn unknown_response_text(id: u64) -> (r: String)
    ensures
        r@ == "response for unknown request id "@ + crate::text::decimal_text(id as nat),
{
    let mut text = String::from_str("response for unknown request id ");
    text.append(decimal(id).as_str());
    text
}

/// A request that Mado writes reads back as that request.
pub proof fn lemma_request_reads_back(
    value: MsgValue,
    id: u64,
    method: Seq<char>,
    params: Seq<MsgValue>,
    message: RpcMessage,
)
    requires
        is_request_value(value, id, method, params),
        rpc_decodes(value, message),
    ensures
        rpc_ok(value),
        message is Request,
        message->Request_id == id,
        message->Request_method@ == method,
        same_values(message->Request_params@, params),
{
    let items = value->Array_0@;
    assert(spec_as_u64(items[0]) == Some(0u64));
    assert(spec_as_u64(items[1]) == Some(id));
}

/// The refusal Mado answers a request with reads back as the response to
/// that request, with the refusal text as its error and nil as its result.
pub proof fn lemma_refusal_reads_back(value: MsgValue, id: u64, method: Seq<char>, message: RpcMessage)
    requires
        is_refusal_value(value, id, method),
        rpc_decodes(value, message),
    ensures
        rpc_ok(value),
        message is Response,
        message->Response_id == id,
        message->Response_error.model() == MsgModel::Str(unserved_request_text(method)),
        message->Response_result.model() == MsgModel::Nil,
{
    let items = value->Array_0@;
    assert(spec_as_u64(items[0]) == Some(1u64));
    assert(spec_as_u64(items[1]) == Some(id));
}

/// A notification that Mado writes reads back as that notification.
pub proof fn lemma_notification_reads_back(
    value: MsgValue,
    method: Seq<char>,
    params: Seq<MsgValue>,
    message: RpcMessage,
)
    requires
        is_notification_value(value, method, params),
        rpc_decodes(value, message),
    ensures
        rpc_ok(value),
        message is Notification,
        message->Notification_method@ == method,
        same_values(message->Notification_params@, params),
{
    let items = value->Array_0@;
    assert(spec_as_u64(items[0]) == Some(2u64));
}

} // verus!
