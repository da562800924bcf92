use btc_coinjoin_analyse::{
    read_block_hash, read_latest_height, read_response, Field, Json, Number, Request, RpcError,
};

fn text(value: &str) -> Json {
    Json::String(value.to_string())
}

fn number(value: u64) -> Json {
    Json::Number(Number::PosInt(value))
}

fn object(members: Vec<(&str, Json)>) -> Json {
    Json::Object(members.into_iter().map(|(name, value)| (name.to_string(), value)).collect())
}

#[test]
fn get_finds_a_member_of_an_object() {
    let value = object(vec![("a", number(1)), ("b", number(2))]);
    assert_eq!(value.get("a"), Some(&number(1)));
    assert_eq!(value.get("b"), Some(&number(2)));
    assert_eq!(value.get("c"), None);
}

#[test]
fn get_finds_a_member_that_is_null() {
    let value = object(vec![("a", Json::Null)]);
    assert_eq!(value.get("a"), Some(&Json::Null));
}

#[test]
fn get_takes_the_last_member_of_a_repeated_name() {
    let value = object(vec![("a", number(1)), ("b", number(2)), ("a", number(3))]);
    assert_eq!(value.get("a"), Some(&number(3)));
}

#[test]
fn get_finds_nothing_in_what_is_no_object() {
    assert_eq!(Json::Null.get("a"), None);
    assert_eq!(text("a").get("a"), None);
    assert_eq!(Json::Array(vec![text("a")]).get("a"), None);
    assert_eq!(number(7).get("a"), None);
    assert_eq!(Json::Bool(true).get("a"), None);
}

#[test]
fn get_tells_names_apart_by_every_character() {
    let value = object(vec![("txid", number(1))]);
    assert_eq!(value.get("txi"), None);
    assert_eq!(value.get("txid "), None);
    assert_eq!(value.get("Txid"), None);
    assert_eq!(value.get(""), None);
}

#[test]
fn field_is_null_where_there_is_no_member() {
    let value = object(vec![("a", number(1))]);
    assert_eq!(value.field("a"), number(1));
    assert_eq!(value.field("b"), Json::Null);
    assert_eq!(text("x").field("a"), Json::Null);
}

#[test]
fn as_str_reads_strings_only() {
    assert_eq!(text("abc").as_str(), Some("abc"));
    assert_eq!(text("").as_str(), Some(""));
    assert_eq!(number(1).as_str(), None);
    assert_eq!(Json::Null.as_str(), None);
    assert_eq!(Json::Array(vec![]).as_str(), None);
}

#[test]
fn as_array_reads_arrays_only() {
    let items = vec![number(1), text("a")];
    assert_eq!(Json::Array(items.clone()).as_array(), Some(&items));
    assert_eq!(Json::Array(vec![]).as_array(), Some(&vec![]));
    assert_eq!(object(vec![]).as_array(), None);
    assert_eq!(text("[]").as_array(), None);
}

#[test]
fn as_u64_reads_non_negative_integers_only() {
    assert_eq!(number(0).as_u64(), Some(0));
    assert_eq!(number(u64::MAX).as_u64(), Some(u64::MAX));
    assert_eq!(Json::Number(Number::NegInt(-1)).as_u64(), None);
    assert_eq!(Json::Number(Number::NegInt(i64::MIN)).as_u64(), None);
    assert_eq!(Json::Number(Number::NegInt(7)).as_u64(), Some(7));
    assert_eq!(Json::Number(Number::Binary64(0x3ff8_0000_0000_0000)).as_u64(), None);
    assert_eq!(text("5").as_u64(), None);
    assert_eq!(Json::Null.as_u64(), None);
}

#[test]
fn is_object_tells_objects_from_the_rest() {
    assert!(object(vec![]).is_object());
    assert!(!Json::Array(vec![]).is_object());
    assert!(!Json::Null.is_object());
}

#[test]
fn clone_copies_a_value_all_the_way_down() {
    let value = object(vec![
        ("a", Json::Array(vec![number(1), object(vec![("b", text("c"))]), Json::Null])),
        ("d", Json::Bool(false)),
        ("e", Json::Number(Number::NegInt(-5))),
    ]);
    assert_eq!(value.clone(), value);
}

#[test]
fn request_body_is_a_json_rpc_1_0_request() {
    let request = Request { method: "getblock".to_string(), params: vec![text("00ab"), number(2)] };
    assert_eq!(
        request.body(),
        object(vec![
            ("jsonrpc", text("1.0")),
            ("id", text("1")),
            ("method", text("getblock")),
            ("params", Json::Array(vec![text("00ab"), number(2)])),
        ])
    );
}

#[test]
fn request_body_without_arguments_has_an_empty_array() {
    let request = Request::get_latest_height();
    assert_eq!(request.body().get("params"), Some(&Json::Array(vec![])));
    assert_eq!(request.body().get("method"), Some(&text("getblockchaininfo")));
}

#[test]
fn get_latest_height_asks_for_the_chain_information() {
    let request = Request::get_latest_height();
    assert_eq!(request.method, "getblockchaininfo");
    assert_eq!(request.params, Vec::<Json>::new());
}

#[test]
fn get_block_hash_asks_with_the_height() {
    let request = Request::get_block_hash(840_000);
    assert_eq!(request.method, "getblockhash");
    assert_eq!(request.params, vec![number(840_000)]);
}

#[test]
fn get_block_asks_with_the_hash_and_verbosity_two() {
    let request = Request::get_block("00ab");
    assert_eq!(request.method, "getblock");
    assert_eq!(request.params, vec![text("00ab"), number(2)]);
}

#[test]
fn read_response_gives_the_result() {
    let result = object(vec![("blocks", number(5))]);
    let response =
        object(vec![("result", result.clone()), ("error", Json::Null), ("id", text("1"))]);
    assert_eq!(read_response(&response), Ok(result));
}

#[test]
fn read_response_gives_the_result_in_any_shape() {
    assert_eq!(read_response(&object(vec![("result", text("00ab"))])), Ok(text("00ab")));
    assert_eq!(read_response(&object(vec![("result", number(7))])), Ok(number(7)));
    assert_eq!(read_response(&object(vec![("result", Json::Null)])), Ok(Json::Null));
    assert_eq!(
        read_response(&object(vec![("result", Json::Array(vec![Json::Bool(true)]))])),
        Ok(Json::Array(vec![Json::Bool(true)]))
    );
}

#[test]
fn read_response_gives_null_where_there_is_no_result() {
    assert_eq!(read_response(&object(vec![("id", text("1"))])), Ok(Json::Null));
    assert_eq!(read_response(&text("pong")), Ok(Json::Null));
    assert_eq!(read_response(&Json::Array(vec![])), Ok(Json::Null));
}

#[test]
fn read_response_fails_with_the_message_of_the_node() {
    let error = object(vec![
        ("code", Json::Number(Number::NegInt(-8))),
        ("message", text("Block height out of range")),
    ]);
    let response = object(vec![("result", Json::Null), ("error", error), ("id", text("1"))]);
    assert_eq!(
        read_response(&response),
        Err(RpcError::Rejected("Block height out of range".to_string()))
    );
}

#[test]
fn read_response_fails_even_where_a_result_stands_beside_the_error() {
    let error = object(vec![("message", text("no"))]);
    let response = object(vec![("result", number(1)), ("error", error)]);
    assert_eq!(read_response(&response), Err(RpcError::Rejected("no".to_string())));
}

#[test]
fn read_response_says_unknown_where_the_error_has_no_message() {
    let response = object(vec![("error", object(vec![("code", number(1))]))]);
    assert_eq!(read_response(&response), Err(RpcError::Rejected("unknown".to_string())));
    let response = object(vec![("error", object(vec![]))]);
    assert_eq!(read_response(&response), Err(RpcError::Rejected("unknown".to_string())));
}

#[test]
fn read_response_says_unknown_where_the_message_is_no_string() {
    let response = object(vec![("error", object(vec![("message", number(404))]))]);
    assert_eq!(read_response(&response), Err(RpcError::Rejected("unknown".to_string())));
}

#[test]
fn read_response_passes_over_an_error_that_is_no_object() {
    let response = object(vec![("result", number(1)), ("error", Json::Null)]);
    assert_eq!(read_response(&response), Ok(number(1)));
    let response = object(vec![("result", number(1)), ("error", text("broken"))]);
    assert_eq!(read_response(&response), Ok(number(1)));
}

#[test]
fn read_latest_height_reads_blocks() {
    let result = object(vec![("chain", text("main")), ("blocks", number(840_000))]);
    assert_eq!(read_latest_height(&result), Ok(840_000));
    assert_eq!(read_latest_height(&object(vec![("blocks", number(0))])), Ok(0));
}

#[test]
fn read_latest_height_fails_where_blocks_is_absent_or_no_height() {
    let failure = Err(RpcError::Malformed(Field::BlockHeight));
    assert_eq!(read_latest_height(&object(vec![("chain", text("main"))])), failure);
    assert_eq!(read_latest_height(&object(vec![("blocks", text("5"))])), failure);
    assert_eq!(
        read_latest_height(&object(vec![("blocks", Json::Number(Number::NegInt(-1)))])),
        failure
    );
    let five_as_binary64 = Json::Number(Number::Binary64(0x4014_0000_0000_0000));
    assert_eq!(read_latest_height(&object(vec![("blocks", five_as_binary64)])), failure);
    assert_eq!(read_latest_height(&Json::Null), failure);
    assert_eq!(read_latest_height(&number(5)), failure);
}

#[test]
fn read_block_hash_reads_a_string() {
    assert_eq!(read_block_hash(&text("00ab")), Ok("00ab".to_string()));
    assert_eq!(read_block_hash(&text("")), Ok(String::new()));
}

#[test]
fn read_block_hash_fails_on_what_is_no_string() {
    let failure = Err(RpcError::Malformed(Field::BlockHash));
    assert_eq!(read_block_hash(&Json::Null), failure);
    assert_eq!(read_block_hash(&number(1)), failure);
    assert_eq!(read_block_hash(&object(vec![("hash", text("00ab"))])), failure);
}

#[test]
fn message_of_a_transport_failure_is_its_reason() {
    let error = RpcError::Transport("connection refused".to_string());
    assert_eq!(error.message(), "connection refused");
}

#[test]
fn message_of_a_rejected_call_carries_the_message_of_the_node() {
    let error = RpcError::Rejected("Block not found".to_string());
    assert_eq!(error.message(), "RPC error: Block not found");
    assert_eq!(RpcError::Rejected("unknown".to_string()).message(), "RPC error: unknown");
}

#[test]
fn message_of_a_malformed_answer_names_the_field() {
    assert_eq!(RpcError::Malformed(Field::BlockHeight).message(), "Failed to parse block height");
    assert_eq!(RpcError::Malformed(Field::BlockHash).message(), "Failed to parse block hash");
    assert_eq!(RpcError::Malformed(Field::Transactions).message(), "Failed to parse transactions");
    assert_eq!(RpcError::Malformed(Field::Txid).message(), "Failed to parse txid");
    assert_eq!(RpcError::Malformed(Field::Vin).message(), "Failed to parse vin");
    assert_eq!(RpcError::Malformed(Field::Vout).message(), "Failed to parse vout");
}

#[test]
fn label_names_each_field() {
    assert_eq!(Field::BlockHeight.label(), "block height");
    assert_eq!(Field::Vout.label(), "vout");
}

#[test]
fn clone_of_an_error_is_the_same_error() {
    let error = RpcError::Rejected("no".to_string());
    assert_eq!(error.clone(), error);
    let error = RpcError::Transport("timeout".to_string());
    assert_eq!(error.clone(), error);
    let error = RpcError::Malformed(Field::Vin);
    assert_eq!(error.clone(), error);
}
