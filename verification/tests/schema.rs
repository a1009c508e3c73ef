use jsonrpsee_ts::schema::{ts_type_name, void_type, Method, Param, ParamKind, Schema};
use jsonrpsee_ts::schema::{is_ts_identifier, ts_property_name};

#[test]
fn renders_array_and_map_params() {
    let schema = Schema::new()
        .request(
            Method::new("state_getKeys", "Array<string>")
                .param(Param::new("storage_key", "string"))
                .param(Param::new("hash", "string").optional()),
        )
        .request(
            Method::new("state_query", "number")
                .with_param_kind(ParamKind::Object)
                .param(Param::new("type", "number"))
                .param(Param::new("include-proofs", "boolean").optional()),
        );

    assert_eq!(
        schema.render_inline(),
        "{\n  requests: [\n    { method: 'state_getKeys'; params: [storage_key: string, hash?: string]; return: Array<string> },\n    { method: 'state_query'; params: { type: number; 'include-proofs'?: boolean }; return: number },\n  ];\n  subscriptions: [];\n}"
    );
}

#[test]
fn empty_schema_renders_empty_lists() {
    assert_eq!(
        Schema::new().render_inline(),
        "{\n  requests: [];\n  subscriptions: [];\n}"
    );
}

#[test]
fn type_alias_wraps_inline_text() {
    let schema = Schema::new().subscription(Method::new("sub", "void"));
    assert_eq!(
        schema.render_type_alias("S"),
        format!("type S = {};", schema.render_inline())
    );
    assert_eq!(
        schema.render_type_alias("S"),
        "type S = {\n  requests: [];\n  subscriptions: [\n    { method: 'sub'; params: []; return: void },\n  ];\n};"
    );
}

#[test]
fn to_string_matches_render_inline() {
    let schema = Schema::new().request(Method::new("m", "number"));
    assert_eq!(schema.to_string(), schema.render_inline());
}

#[test]
fn method_renders_as_schema_entry() {
    let m = Method::new("ns_call", "string")
        .param(Param::new("a", "number"))
        .param(Param::new("b", "boolean").optional());
    assert_eq!(
        m.to_string(),
        "{ method: 'ns_call'; params: [a: number, b?: boolean]; return: string }"
    );
    let empty_map = Method::new("x", "void").with_param_kind(ParamKind::Object);
    assert_eq!(
        empty_map.to_string(),
        "{ method: 'x'; params: {  }; return: void }"
    );
}

#[test]
fn array_params_keep_names_unquoted() {
    let m = Method::new("x", "void").param(Param::new("include-proofs", "boolean"));
    assert_eq!(
        m.to_string(),
        "{ method: 'x'; params: [include-proofs: boolean]; return: void }"
    );
}

#[test]
fn merge_keeps_order_of_both_schemas() {
    let a = Schema::new()
        .request(Method::new("a1", "number"))
        .subscription(Method::new("as", "number"));
    let b = Schema::new()
        .request(Method::new("b1", "string"))
        .subscription(Method::new("bs", "string"));
    let merged = a.clone().merge(b.clone());
    let expected = Schema::new()
        .request(Method::new("a1", "number"))
        .request(Method::new("b1", "string"))
        .subscription(Method::new("as", "number"))
        .subscription(Method::new("bs", "string"));
    assert!(merged == expected);
    assert_eq!(
        merged.render_inline(),
        "{\n  requests: [\n    { method: 'a1'; params: []; return: number },\n    { method: 'b1'; params: []; return: string },\n  ];\n  subscriptions: [\n    { method: 'as'; params: []; return: number },\n    { method: 'bs'; params: []; return: string },\n  ];\n}"
    );
}

#[test]
fn merge_with_empty_changes_nothing() {
    let a = Schema::new().request(Method::new("a", "number").param(Param::new("p", "string")));
    assert!(a.clone().merge(Schema::new()) == a);
    assert!(Schema::new().merge(a.clone()) == a);
    assert!(Schema::default() == Schema::new());
}

#[test]
fn equality_compares_contents() {
    assert!(Param::new("a", "b") == Param::new("a", "b"));
    assert!(Param::new("a", "b") != Param::new("a", "b").optional());
    assert!(Method::new("m", "r") != Method::new("m", "r").with_param_kind(ParamKind::Object));
    assert!(
        Method::new("m", "r").param(Param::new("a", "b"))
            != Method::new("m", "r").param(Param::new("a", "c"))
    );
    assert!(Schema::new().request(Method::new("m", "r")) != Schema::new().subscription(Method::new("m", "r")));
}

#[test]
fn property_names_are_quoted_unless_identifiers() {
    assert_eq!(ts_property_name("type"), "type");
    assert_eq!(ts_property_name("$a_1"), "$a_1");
    assert_eq!(ts_property_name("include-proofs"), "'include-proofs'");
    assert_eq!(ts_property_name("1abc"), "'1abc'");
    assert_eq!(ts_property_name(""), "''");
}

#[test]
fn identifier_check_follows_typescript_rules() {
    assert!(is_ts_identifier("_"));
    assert!(is_ts_identifier("$"));
    assert!(is_ts_identifier("camelCase9"));
    assert!(!is_ts_identifier(""));
    assert!(!is_ts_identifier("9lives"));
    assert!(!is_ts_identifier("a b"));
    assert!(!is_ts_identifier("é"));
}

#[test]
fn void_type_is_void() {
    assert_eq!(void_type(), "void");
}

#[test]
fn ts_type_name_asks_ts_rs() {
    let cfg = ts_rs::Config::default();
    assert_eq!(ts_type_name::<String>(&cfg), "string");
    assert_eq!(ts_type_name::<Vec<bool>>(&cfg), "Array<boolean>");
    assert_eq!(ts_type_name::<u16>(&cfg), "number");
}

#[test]
fn builds_rpckit_schema_as_generated_builder_does() {
    let schema = Schema::new()
        .request(
            Method::new("state_getKeys", "Array<StorageKeyOutput>")
                .with_param_kind(ParamKind::Array)
                .param(Param::new("storage_key", "StorageKeyOutput"))
                .param(Param::new("hash", "HashOutput").optional()),
        )
        .request(
            Method::new("state_inspect", "QueryResult<HashOutput>")
                .with_param_kind(ParamKind::Object)
                .param(Param::new("type", "number"))
                .param(Param::new("filter", "QueryFilter").optional()),
        )
        .request(
            Method::new("state_notify", &void_type())
                .with_param_kind(ParamKind::Array)
                .param(Param::new("message", "string")),
        )
        .subscription(
            Method::new("state_subscribeStorage", "Array<HashOutput>")
                .param(Param::new("keys", "Array<StorageKeyOutput>").optional()),
        )
        .subscription(
            Method::new("state_subscribeSync", "QueryResult<HashOutput>")
                .param(Param::new("keys", "Array<StorageKeyOutput>").optional()),
        );

    assert_eq!(
        schema.render_inline(),
        "{\n  requests: [\n    { method: 'state_getKeys'; params: [storage_key: StorageKeyOutput, hash?: HashOutput]; return: Array<StorageKeyOutput> },\n    { method: 'state_inspect'; params: { type: number; filter?: QueryFilter }; return: QueryResult<HashOutput> },\n    { method: 'state_notify'; params: [message: string]; return: void },\n  ];\n  subscriptions: [\n    { method: 'state_subscribeStorage'; params: [keys?: Array<StorageKeyOutput>]; return: Array<HashOutput> },\n    { method: 'state_subscribeSync'; params: [keys?: Array<StorageKeyOutput>]; return: QueryResult<HashOutput> },\n  ];\n}"
    );
}

#[test]
fn appending_a_request_adds_one_line() {
    let one = Schema::new().request(Method::new("a", "number"));
    let two = one.clone().request(Method::new("b", "string"));
    assert_eq!(
        two.render_inline(),
        one.render_inline().replace(
            "number },\n",
            "number },\n    { method: 'b'; params: []; return: string },\n"
        )
    );
}

#[test]
fn parameters_render_in_tuples_and_objects() {
    let p = Param::new("include-proofs", "boolean").optional();
    assert_eq!(p.render_array(), "include-proofs?: boolean");
    assert_eq!(p.render_map(), "'include-proofs'?: boolean");
    let q = Param::new("hash", "string");
    assert_eq!(q.render_array(), "hash: string");
    assert_eq!(q.render_map(), q.render_array());
}

#[test]
fn params_render_by_kind() {
    let m = Method::new("m", "void")
        .param(Param::new("a", "number"))
        .param(Param::new("b c", "string").optional());
    assert_eq!(m.render_params(), "[a: number, b c?: string]");
    let o = m.clone().with_param_kind(ParamKind::Object);
    assert_eq!(o.render_params(), "{ a: number; 'b c'?: string }");
    assert_eq!(Method::new("m", "void").render_params(), "[]");
    assert_eq!(
        Method::new("m", "void").with_param_kind(ParamKind::Object).render_params(),
        "{  }"
    );
}

#[test]
fn entry_lists_render_one_line_per_entry() {
    let s = Schema::new();
    let entries = vec![Method::new("a", "number"), Method::new("b", "string")];
    assert_eq!(
        s.render_entries(&entries, 4),
        "[\n      { method: 'a'; params: []; return: number },\n      { method: 'b'; params: []; return: string },\n    ]"
    );
    assert_eq!(s.render_entries(&[], 2), "[]");
}
