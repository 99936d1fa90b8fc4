use sonic_rs::{JsonType, JsonValueTrait};
use vstd::prelude::*;

use crate::extractor::{
    account_data_id, account_update_extractor, blockhash_extractor, blockhash_of_text,
    decoded_account_data, encoding_of_name,
};
use crate::types::AccountEncoding;

verus! {

/// What a JSON document holds under a path of object keys.
pub enum JsonLeaf {
    /// Nothing: the document is not valid JSON up to there, or has no such key.
    Missing,
    Null,
    Bool(Option<bool>),
    /// A number, with its value when it is an unsigned 64-bit integer.
    Number(Option<u64>),
    Str(Option<String>),
    /// An array, with the text of each element that is a string.
    Array(Vec<Option<String>>),
    Object,
}

/// The model of a [`JsonLeaf`].
pub enum LeafView {
    Missing,
    Null,
    Bool(Option<bool>),
    Number(Option<u64>),
    Str(Option<Seq<char>>),
    Array(Seq<Option<Seq<char>>>),
    Object,
}

pub open spec fn text_view(s: Option<String>) -> Option<Seq<char>> {
    match s {
        Some(t) => Some(t@),
        None => None,
    }
}

pub open spec fn leaf_view(l: JsonLeaf) -> LeafView {
    match l {
        JsonLeaf::Missing => LeafView::Missing,
        JsonLeaf::Null => LeafView::Null,
        JsonLeaf::Bool(b) => LeafView::Bool(b),
        JsonLeaf::Number(n) => LeafView::Number(n),
        JsonLeaf::Str(s) => LeafView::Str(text_view(s)),
        JsonLeaf::Array(items) => LeafView::Array(items@.map_values(|i: Option<String>| text_view(i))),
        JsonLeaf::Object => LeafView::Object,
    }
}

/// What the JSON document `doc` holds under the keys `path`.
pub uninterp spec fn json_leaf_of(doc: Seq<u8>, path: Seq<Seq<char>>) -> LeafView;

pub open spec fn keys_view(path: Seq<&'static str>) -> Seq<Seq<char>> {
    path.map_values(|k: &'static str| k@)
}

/// Relies on `sonic_rs::get_from_slice` and the type and scalar accessors of
/// the `LazyValue` it returns: the value under `path`, or an error when the
/// document is not valid JSON up to it or has no such key.
#[verifier::external_body]
fn json_at(doc: &[u8], path: &Vec<&'static str>) -> (r: JsonLeaf)
    ensures
        leaf_view(r) == json_leaf_of(doc@, keys_view(path@)),
{
    let Ok(v) = sonic_rs::get_from_slice(doc, path.iter()) else {
        return JsonLeaf::Missing;
    };
    let text = |e: &sonic_rs::LazyValue| e.as_str().map(|s| s.to_string());
    match v.get_type() {
        JsonType::Null => JsonLeaf::Null,
        JsonType::Boolean => JsonLeaf::Bool(v.as_bool()),
        JsonType::Number => JsonLeaf::Number(v.as_u64()),
        JsonType::String => JsonLeaf::Str(text(&v)),
        JsonType::Object => JsonLeaf::Object,
        JsonType::Array => {
            let items = v.into_array_iter().into_iter().flatten();
            JsonLeaf::Array(items.map(|i| i.ok().and_then(|e| text(&e))).collect())
        },
    }
}

/// A message read from a subscription socket.
#[derive(Clone, Copy, Debug, PartialEq, Eq, Structural)]
pub enum WsMessage {
    /// `{"result": <remote id>, "id": <local id>}`: a subscription was accepted.
    Ack { id: u64, result: u64 },
    /// A notification for subscription `subscription`.
    Notification { subscription: u64 },
    /// Anything else.
    Other,
}

pub open spec fn ws_message_of(doc: Seq<u8>) -> WsMessage {
    match (json_leaf_of(doc, seq!["result"@]), json_leaf_of(doc, seq!["id"@])) {
        (LeafView::Number(Some(result)), LeafView::Number(Some(id))) => WsMessage::Ack { id, result },
        _ => match json_leaf_of(doc, seq!["params"@, "subscription"@]) {
            LeafView::Number(Some(subscription)) => WsMessage::Notification { subscription },
            _ => WsMessage::Other,
        },
    }
}

/// Tells acks of subscriptions from notifications.
pub fn classify_ws_message(doc: &[u8]) -> (r: WsMessage)
    ensures
        r == ws_message_of(doc@),
{
    let result_path = vec!["result"];
    let id_path = vec!["id"];
    let sub_path = vec!["params", "subscription"];
    proof {
        assert(keys_view(result_path@) =~= seq!["result"@]);
        assert(keys_view(id_path@) =~= seq!["id"@]);
        assert(keys_view(sub_path@) =~= seq!["params"@, "subscription"@]);
    }
    let result = json_at(doc, &result_path);
    let id = json_at(doc, &id_path);
    if let JsonLeaf::Number(Some(result)) = result {
        if let JsonLeaf::Number(Some(id)) = id {
            return WsMessage::Ack { id, result };
        }
    }
    match json_at(doc, &sub_path) {
        JsonLeaf::Number(Some(subscription)) => WsMessage::Notification { subscription },
        _ => WsMessage::Other,
    }
}

/// The request id carried by an account notification: the account data and
/// its encoding sit under `params.result.value.data`.
pub open spec fn account_update_of(doc: Seq<u8>) -> Option<u64> {
    match json_leaf_of(doc, seq!["params"@, "result"@, "value"@, "data"@]) {
        LeafView::Array(items) => if items.len() >= 2 {
            match (items[0], items[1]) {
                (Some(data), Some(name)) => match encoding_of_name(name) {
                    Some(e) => match decoded_account_data(data, e) {
                        Some(b) => account_data_id(b),
                        None => None,
                    },
                    None => None,
                },
                _ => None,
            }
        } else {
            None
        },
        _ => None,
    }
}

/// Reads the request id out of an account notification.
pub fn account_update(doc: &[u8]) -> (r: Option<u64>)
    ensures
        r == account_update_of(doc@),
{
    proof {
        assert(keys_view(seq!["params", "result", "value", "data"]) =~= seq![
            "params"@,
            "result"@,
            "value"@,
            "data"@,
        ]);
    }
    let items = match json_at(doc, &vec!["params", "result", "value", "data"]) {
        JsonLeaf::Array(items) => items,
        _ => return None,
    };
    if items.len() < 2 {
        return None;
    }
    let (data, name) = match (&items[0], &items[1]) {
        (Some(data), Some(name)) => (data, name),
        _ => return None,
    };
    let encoding: AccountEncoding = AccountEncoding::from_name(name.as_str())?;
    account_update_extractor(data.as_str(), encoding)
}

/// Whether a signature notification reports success: `err` under
/// `params.result.value` is null.
pub open spec fn signature_status_of(doc: Seq<u8>) -> Option<bool> {
    match json_leaf_of(doc, seq!["params"@, "result"@, "value"@, "err"@]) {
        LeafView::Missing => None,
        LeafView::Null => Some(true),
        _ => Some(false),
    }
}

/// Reads the outcome of a signature notification.
pub fn signature_status(doc: &[u8]) -> (r: Option<bool>)
    ensures
        r == signature_status_of(doc@),
{
    proof {
        assert(keys_view(seq!["params", "result", "value", "err"]) =~= seq![
            "params"@,
            "result"@,
            "value"@,
            "err"@,
        ]);
    }
    match json_at(doc, &vec!["params", "result", "value", "err"]) {
        JsonLeaf::Missing => None,
        JsonLeaf::Null => Some(true),
        _ => Some(false),
    }
}

/// Whether a JSON-RPC reply carries a `result` at all.
pub fn has_result(doc: &[u8]) -> (r: bool)
    ensures
        r == !(json_leaf_of(doc@, seq!["result"@]) is Missing),
{
    let path = vec!["result"];
    proof {
        assert(keys_view(path@) =~= seq!["result"@]);
    }
    match json_at(doc, &path) {
        JsonLeaf::Missing => false,
        _ => true,
    }
}

/// Whether the reply to `sendTransaction` is a signature, i.e. the
/// transaction was accepted.
pub fn signature_response(doc: &[u8]) -> (r: Option<bool>)
    ensures
        r == Some(json_leaf_of(doc@, seq!["result"@]) matches LeafView::Str(Some(_))),
{
    let path = vec!["result"];
    proof {
        assert(keys_view(path@) =~= seq!["result"@]);
    }
    match json_at(doc, &path) {
        JsonLeaf::Str(Some(_)) => Some(true),
        _ => Some(false),
    }
}

/// Whether the reply to an account read holds an object under
/// `result.value`; nothing when it has no `value`.
pub open spec fn value_response_of(doc: Seq<u8>) -> Option<bool> {
    match json_leaf_of(doc, seq!["result"@, "value"@]) {
        LeafView::Missing => None,
        LeafView::Object => Some(true),
        _ => Some(false),
    }
}

/// Reads the reply to an account read.
pub fn value_response(doc: &[u8]) -> (r: Option<bool>)
    ensures
        r == value_response_of(doc@),
{
    proof {
        assert(keys_view(seq!["result", "value"]) =~= seq!["result"@, "value"@]);
    }
    match json_at(doc, &vec!["result", "value"]) {
        JsonLeaf::Missing => None,
        JsonLeaf::Object => Some(true),
        _ => Some(false),
    }
}

/// The blockhash under `result.value.blockhash` of a `getLatestBlockhash`
/// reply.
pub open spec fn blockhash_response_of(doc: Seq<u8>) -> Option<Seq<u8>> {
    match json_leaf_of(doc, seq!["result"@, "value"@, "blockhash"@]) {
        LeafView::Str(Some(t)) => blockhash_of_text(t),
        _ => None,
    }
}

/// Reads the blockhash of a `getLatestBlockhash` reply.
pub fn blockhash_response(doc: &[u8]) -> (r: Option<[u8; 32]>)
    ensures
        r matches Some(h) ==> blockhash_response_of(doc@) == Some(h@),
        r is None ==> blockhash_response_of(doc@) is None,
{
    proof {
        assert(keys_view(seq!["result", "value", "blockhash"]) =~= seq![
            "result"@,
            "value"@,
            "blockhash"@,
        ]);
    }
    match json_at(doc, &vec!["result", "value", "blockhash"]) {
        JsonLeaf::Str(Some(t)) => blockhash_extractor(t.as_str()),
        _ => None,
    }
}

} // verus!
