//! The JSON-RPC 1.0 exchange with a node: what is sent for a call, and what
//! the answer to it means.

use crate::error::{Field, RpcError, RpcErrorView};
use crate::json::{members_of, values_of, Json, JsonView, Number};
use vstd::prelude::*;
use vstd::string::*;

verus! {

/// One call to the node: the method and its positional arguments.
#[derive(Debug, PartialEq, Eq)]
pub struct Request {
    pub method: String,
    pub params: Vec<Json>,
}

/// What a [`Request`] holds, as a mathematical value.
pub struct RequestView {
    pub method: Seq<char>,
    pub params: Seq<JsonView>,
}

impl View for Request {
    type V = RequestView;

    open spec fn view(&self) -> RequestView {
        RequestView { method: self.method@, params: values_of(self.params@) }
    }
}

impl RequestView {
    /// The call that asks for the chain information.
    pub open spec fn get_latest_height() -> RequestView {
        RequestView { method: "getblockchaininfo"@, params: seq![] }
    }

    /// The call that asks for the hash of the block at `height`.
    pub open spec fn get_block_hash(height: u64) -> RequestView {
        RequestView {
            method: "getblockhash"@,
            params: seq![JsonView::Number(Number::PosInt(height))],
        }
    }

    /// The call that asks for the block with the given hash, with every
    /// transaction decoded in full (verbosity 2).
    pub open spec fn get_block(block_hash: Seq<char>) -> RequestView {
        RequestView {
            method: "getblock"@,
            params: seq![JsonView::String(block_hash), JsonView::Number(Number::PosInt(2))],
        }
    }

    /// The body of the HTTP request that makes the call.
    pub open spec fn body(self) -> JsonView {
        JsonView::Object(
            seq![
                ("jsonrpc"@, JsonView::String("1.0"@)),
                ("id"@, JsonView::String("1"@)),
                ("method"@, JsonView::String(self.method)),
                ("params"@, JsonView::Array(self.params)),
            ],
        )
    }
}

impl Request {
    /// The call that asks for the chain information.
    pub fn get_latest_height() -> (request: Request)
        ensures
            request@ == RequestView::get_latest_height(),
    {
        let request = Request { method: String::from_str("getblockchaininfo"), params: Vec::new() };
        assert(request@.params =~= seq![]);
        request
    }

    /// The call that asks for the hash of the block at `height`.
    pub fn get_block_hash(height: u64) -> (request: Request)
        ensures
            request@ == RequestView::get_block_hash(height),
    {
        let mut params: Vec<Json> = Vec::new();
        params.push(Json::Number(Number::PosInt(height)));
        let request = Request { method: String::from_str("getblockhash"), params };
        assert(request@.params =~= RequestView::get_block_hash(height).params);
        request
    }

    /// The call that asks for the block with the given hash, with every
    /// transaction decoded in full (verbosity 2).
    pub fn get_block(block_hash: &str) -> (request: Request)
        ensures
            request@ == RequestView::get_block(block_hash@),
    {
        let mut params: Vec<Json> = Vec::new();
        params.push(Json::String(block_hash.to_owned()));
        params.push(Json::Number(Number::PosInt(2)));
        let request = Request { method: String::from_str("getblock"), params };
        assert(request@.params =~= RequestView::get_block(block_hash@).params);
        request
    }

    /// The body of the HTTP request that makes the call.
    pub fn body(&self) -> (body: Json)
        ensures
            body@ == self@.body(),
    {
        let mut params: Vec<Json> = Vec::new();
        let mut i: usize = 0;
        while i < self.params.len()
            invariant
                i <= self.params.len(),
                params.len() == i,
                forall|j: int| 0 <= j < i ==> params@[j]@ == self.params@[j]@,
            decreases self.params.len() - i,
        {
            params.push(self.params[i].clone());
            i += 1;
        }
        assert(values_of(params@) =~= values_of(self.params@));
        let mut members: Vec<(String, Json)> = Vec::new();
        members.push((String::from_str("jsonrpc"), Json::String(String::from_str("1.0"))));
        members.push((String::from_str("id"), Json::String(String::from_str("1"))));
        members.push((String::from_str("method"), Json::String(self.method.clone())));
        members.push((String::from_str("params"), Json::Array(params)));
        let body = Json::Object(members);
        proof {
            let written = members_of(members@);
            let wanted = self@.body()->Object_0;
            assert(written.len() == wanted.len());
            assert(written[0] == wanted[0]);
            assert(written[1] == wanted[1]);
            assert(written[2] == wanted[2]);
            assert(written[3] == wanted[3]);
            assert(written =~= wanted);
        }
        body
    }
}

/// What the answer to a call means: the failure that the node reports in an
/// `error` object, with its `message` or `unknown` where it gives none, and
/// else the `result` as it stands (null where the answer has none).
pub open spec fn outcome_of(response: JsonView) -> Result<JsonView, RpcErrorView> {
    match response.get("error"@) {
        Some(JsonView::Object(error)) => Err(
            RpcErrorView::Rejected(
                match JsonView::Object(error).get("message"@) {
                    Some(JsonView::String(message)) => message,
                    _ => "unknown"@,
                },
            ),
        ),
        _ => Ok(response.field("result"@)),
    }
}

/// The chain height that a `getblockchaininfo` result reports in `blocks`.
pub open spec fn latest_height_in(result: JsonView) -> Result<u64, RpcErrorView> {
    match result.field("blocks"@).as_u64() {
        Some(height) => Ok(height),
        None => Err(RpcErrorView::Malformed(Field::BlockHeight)),
    }
}

/// The hash that a `getblockhash` result is.
pub open spec fn block_hash_in(result: JsonView) -> Result<Seq<char>, RpcErrorView> {
    match result.as_str() {
        Some(hash) => Ok(hash),
        None => Err(RpcErrorView::Malformed(Field::BlockHash)),
    }
}

/// Reads the answer to a call.
pub fn read_response(response: &Json) -> (outcome: Result<Json, RpcError>)
    ensures
        match outcome {
            Ok(result) => outcome_of(response@) == Ok::<JsonView, RpcErrorView>(result@),
            Err(error) => outcome_of(response@) == Err::<JsonView, RpcErrorView>(error@),
        },
{
    match response.get("error") {
        Some(error) => {
            if error.is_object() {
                let message = match error.get("message") {
                    Some(value) => match value.as_str() {
                        Some(text) => text.to_owned(),
                        None => String::from_str("unknown"),
                    },
                    None => String::from_str("unknown"),
                };
                return Err(RpcError::Rejected(message));
            }
        },
        None => {},
    }
    Ok(response.field("result"))
}

/// Reads the chain height from the result of `getblockchaininfo`.
pub fn read_latest_height(result: &Json) -> (outcome: Result<u64, RpcError>)
    ensures
        match outcome {
            Ok(height) => latest_height_in(result@) == Ok::<u64, RpcErrorView>(height),
            Err(error) => latest_height_in(result@) == Err::<u64, RpcErrorView>(error@),
        },
{
    let height = match result.get("blocks") {
        Some(blocks) => blocks.as_u64(),
        None => None,
    };
    match height {
        Some(height) => Ok(height),
        None => Err(RpcError::Malformed(Field::BlockHeight)),
    }
}

/// Reads the block hash from the result of `getblockhash`.
pub fn read_block_hash(result: &Json) -> (outcome: Result<String, RpcError>)
    ensures
        match outcome {
            Ok(hash) => block_hash_in(result@) == Ok::<Seq<char>, RpcErrorView>(hash@),
            Err(error) => block_hash_in(result@) == Err::<Seq<char>, RpcErrorView>(error@),
        },
{
    match result.as_str() {
        Some(hash) => Ok(hash.to_owned()),
        None => Err(RpcError::Malformed(Field::BlockHash)),
    }
}

} // verus!
