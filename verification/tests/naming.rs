use jsonrpsee_ts::naming::{builder_fn_name, schema_type_name, to_snake_case, RpcConfig};

#[test]
fn snake_case_splits_at_capitals() {
    assert_eq!(to_snake_case("StateRpc"), "state_rpc");
    assert_eq!(to_snake_case("stateRpc"), "state_rpc");
    assert_eq!(to_snake_case("HTTPServer"), "h_t_t_p_server");
    assert_eq!(to_snake_case(""), "");
    assert_eq!(to_snake_case("already_snake"), "already_snake");
    assert_eq!(to_snake_case("Ünicode"), "Ünicode");
}

#[test]
fn snake_case_is_idempotent() {
    for s in ["StateRpc", "A", "aB_C", "x9Y"] {
        let once = to_snake_case(s);
        assert_eq!(to_snake_case(&once), once);
    }
}

#[test]
fn generated_item_names() {
    assert_eq!(schema_type_name("StateRpc"), "StateRpcSchema");
    assert_eq!(builder_fn_name("StateRpc"), "__jsonrpsee_ts_build_state_rpc_schema");
}

#[test]
fn namespace_prefixes_method_names() {
    let cfg = RpcConfig::from_arguments(Some("state".to_string()), None);
    assert_eq!(cfg.namespace_separator, "_");
    assert_eq!(cfg.rpc_method_name("getKeys"), "state_getKeys");

    let dotted = RpcConfig::from_arguments(Some("state".to_string()), Some(".".to_string()));
    assert_eq!(dotted.rpc_method_name("getKeys"), "state.getKeys");

    let plain = RpcConfig::from_arguments(None, None);
    assert_eq!(plain.rpc_method_name("getKeys"), "getKeys");
}
