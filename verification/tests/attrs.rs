use jsonrpsee_ts::attrs::{
    argument_value_len, check_trait, classify_item, entries_of_kind, find_argument,
    needs_ts_bound, option_type_arg, param_kind_from_ident, param_name, plan_entry,
    success_type_arg, EntryKind, ReturnKind, SchemaError, TokenClass, TypeShape,
};
use jsonrpsee_ts::naming::RpcConfig;
use jsonrpsee_ts::schema::ParamKind;
use TokenClass::{Close, Comma, Open, Other};

fn labels(v: &[&str]) -> Vec<String> {
    v.iter().map(|s| s.to_string()).collect()
}

#[test]
fn find_argument_finds_single_label() {
    let l = labels(&["name", "param_kind", "item"]);
    assert!(matches!(find_argument(&l, "item"), Ok(Some(2))));
    assert!(matches!(find_argument(&l, "namespace"), Ok(None)));
    assert!(matches!(find_argument(&[].to_vec(), "x"), Ok(None)));
}

#[test]
fn find_argument_refuses_duplicates() {
    let l = labels(&["name", "item", "name"]);
    match find_argument(&l, "name") {
        Err(e) => assert_eq!(e.message(), "duplicate `name` argument"),
        other => panic!("expected a duplicate error, got {other:?}"),
    }
}

#[test]
fn param_kind_values() {
    assert!(matches!(param_kind_from_ident("array"), Ok(ParamKind::Array)));
    assert!(matches!(param_kind_from_ident("map"), Ok(ParamKind::Object)));
    match param_kind_from_ident("Map") {
        Err(e) => assert_eq!(e.message(), "param_kind must be either `array` or `map`"),
        other => panic!("unexpected {other:?}"),
    }
}

#[test]
fn argument_value_stops_at_top_level_comma() {
    // `= Vec<(A, B)>, next = x`
    assert_eq!(argument_value_len(&vec![Other, Other, Open, Other, Close, Comma, Other]), 5);
    // `= Map<A, B>, x`
    assert_eq!(
        argument_value_len(&vec![Other, Other, Open, Other, Comma, Other, Close, Comma, Other]),
        7
    );
    // `= "a" => "b"` (the `>` of `=>` never goes below depth zero)
    assert_eq!(argument_value_len(&vec![Other, Other, Other, Close, Other]), 5);
    assert_eq!(argument_value_len(&vec![Close, Comma, Other]), 1);
    assert_eq!(argument_value_len(&vec![]), 0);
    assert_eq!(argument_value_len(&vec![Comma]), 0);
}

fn shape(seg: Option<&str>, args: Option<Vec<bool>>) -> TypeShape {
    TypeShape { last_segment: seg.map(|s| s.to_string()), generic_args: args }
}

#[test]
fn success_type_of_result_types() {
    assert_eq!(success_type_arg(&shape(Some("Result"), Some(vec![true, true]))), Some(0));
    assert_eq!(success_type_arg(&shape(Some("RpcResult"), Some(vec![true]))), Some(0));
    assert_eq!(success_type_arg(&shape(Some("Result"), Some(vec![false, true]))), Some(1));
    assert_eq!(success_type_arg(&shape(Some("Result"), Some(vec![false]))), None);
    assert_eq!(success_type_arg(&shape(Some("Result"), None)), None);
    assert_eq!(success_type_arg(&shape(Some("Vec"), Some(vec![true]))), None);
    assert_eq!(success_type_arg(&shape(None, None)), None);
}

#[test]
fn option_type_of_parameters() {
    assert_eq!(option_type_arg(&shape(Some("Option"), Some(vec![true]))), Some(0));
    assert_eq!(option_type_arg(&shape(Some("Result"), Some(vec![true]))), None);
    assert_eq!(option_type_arg(&shape(Some("Option"), None)), None);
    assert_eq!(option_type_arg(&shape(Some("Option"), Some(vec![false]))), None);
}

#[test]
fn trait_items_classified() {
    assert!(matches!(classify_item(true, true, false), Ok(EntryKind::Request)));
    assert!(matches!(classify_item(true, true, true), Ok(EntryKind::Request)));
    assert!(matches!(classify_item(true, false, true), Ok(EntryKind::Subscription)));
    assert!(matches!(classify_item(true, false, false), Err(SchemaError::UnmarkedMethod)));
    assert!(matches!(classify_item(false, true, true), Err(SchemaError::NonMethodItem)));
}

#[test]
fn error_messages() {
    assert_eq!(
        SchemaError::NoEntries.message(),
        "RPC trait must contain at least one method or subscription"
    );
    assert_eq!(
        SchemaError::MissingMethodName.message(),
        "#[method(...)] requires name = \"...\""
    );
    assert_eq!(
        SchemaError::MissingRpcAttribute.message(),
        "#[export_schema] must be placed on a trait that also has #[rpc(...)]"
    );
}

fn state() -> RpcConfig {
    RpcConfig::from_arguments(Some("state".to_string()), None)
}

#[test]
fn plan_of_a_request() {
    let plan = plan_entry(EntryKind::Request, &state(), Some("getKeys".to_string()), None, false, true)
        .unwrap();
    assert_eq!(plan.kind, EntryKind::Request);
    assert_eq!(plan.name, "state_getKeys");
    assert_eq!(plan.param_kind, ParamKind::Array);
    assert_eq!(plan.ret, ReturnKind::FnReturn);

    let notify = plan_entry(
        EntryKind::Request,
        &state(),
        Some("notify".to_string()),
        Some(ParamKind::Object),
        false,
        false,
    )
    .unwrap();
    assert_eq!(notify.param_kind, ParamKind::Object);
    assert_eq!(notify.ret, ReturnKind::Void);
}

#[test]
fn plan_of_a_subscription_returns_its_item() {
    let plan = plan_entry(
        EntryKind::Subscription,
        &state(),
        Some("subscribeStorage".to_string()),
        None,
        true,
        true,
    )
    .unwrap();
    assert_eq!(plan.name, "state_subscribeStorage");
    assert_eq!(plan.ret, ReturnKind::Item);
}

#[test]
fn plan_refuses_missing_name_or_item() {
    match plan_entry(EntryKind::Request, &state(), None, None, false, true) {
        Err(e) => assert_eq!(e.message(), "#[method(...)] requires name = \"...\""),
        Ok(_) => panic!("a method without name was accepted"),
    }
    assert!(matches!(
        plan_entry(EntryKind::Subscription, &state(), None, None, false, false),
        Err(SchemaError::MissingSubscriptionName)
    ));
    match plan_entry(EntryKind::Subscription, &state(), Some("s".to_string()), None, false, false) {
        Err(e) => assert_eq!(e.message(), "#[subscription(...)] requires item = Type"),
        Ok(_) => panic!("a subscription without item was accepted"),
    }
}

#[test]
fn parameter_keys_follow_renames() {
    assert_eq!(param_name("kind", Some("type".to_string())), "type");
    assert_eq!(param_name("kind", None), "kind");
}

#[test]
fn trait_checks_in_order() {
    assert!(matches!(check_trait(true, false), Err(SchemaError::LifetimeGenerics)));
    assert!(matches!(check_trait(true, true), Err(SchemaError::LifetimeGenerics)));
    assert!(matches!(check_trait(false, false), Err(SchemaError::MissingRpcAttribute)));
    assert!(matches!(check_trait(false, true), Ok(())));
    assert_eq!(
        SchemaError::LifetimeGenerics.message(),
        "#[export_schema] does not support lifetime generics"
    );
}

#[test]
fn ts_bound_added_only_when_missing() {
    assert!(needs_ts_bound(&vec![]));
    assert!(needs_ts_bound(&vec![false, false]));
    assert!(!needs_ts_bound(&vec![false, true]));
}

#[test]
fn entries_split_by_kind_in_order() {
    let kinds = vec![
        EntryKind::Request,
        EntryKind::Subscription,
        EntryKind::Request,
        EntryKind::Subscription,
        EntryKind::Request,
    ];
    assert_eq!(entries_of_kind(&kinds, EntryKind::Request), vec![0, 2, 4]);
    assert_eq!(entries_of_kind(&kinds, EntryKind::Subscription), vec![1, 3]);
    assert_eq!(entries_of_kind(&vec![], EntryKind::Request), Vec::<usize>::new());
}
