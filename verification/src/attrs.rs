//! The decisions the schema generator takes while reading an RPC trait:
//! which attribute argument applies, how far an argument's value runs,
//! which generic argument of a `Result` or an `Option` is meant, and which
//! kind of entry a trait method makes. The syntax trees themselves are read
//! elsewhere; here they arrive as plain values.
use vstd::prelude::*;

use crate::naming::{opt_text, rpc_method_text, RpcConfig};
use crate::schema::ParamKind;

verus! {

broadcast use vstd::string::group_string_axioms;

/// The ways in which an RPC trait can be refused.
#[derive(Clone, Debug)]
pub enum SchemaError {
    /// `#[export_schema]` was given arguments.
    UnexpectedArguments,
    /// The trait has lifetime generics.
    LifetimeGenerics,
    /// The trait has no `#[rpc(...)]` attribute.
    MissingRpcAttribute,
    /// The trait holds an item that is no method.
    NonMethodItem,
    /// A method has neither `#[method(...)]` nor `#[subscription(...)]`.
    UnmarkedMethod,
    /// The trait has no method and no subscription.
    NoEntries,
    /// `#[method(...)]` without `name`.
    MissingMethodName,
    /// `#[subscription(...)]` without `name`.
    MissingSubscriptionName,
    /// `#[subscription(...)]` without `item`.
    MissingSubscriptionItem,
    /// A parameter whose pattern is no plain identifier.
    UnnamedParameter,
    /// `param_kind` other than `array` or `map`.
    InvalidParamKind,
    /// The same argument label given twice.
    DuplicateArgument(String),
}

/// The message reported for an error.
pub open spec fn error_text(e: SchemaError) -> Seq<char> {
    match e {
        SchemaError::UnexpectedArguments => "#[export_schema] does not take arguments"@,
        SchemaError::LifetimeGenerics => "#[export_schema] does not support lifetime generics"@,
        SchemaError::MissingRpcAttribute =>
            "#[export_schema] must be placed on a trait that also has #[rpc(...)]"@,
        SchemaError::NonMethodItem =>
            "#[export_schema] only supports RPC traits that contain methods"@,
        SchemaError::UnmarkedMethod =>
            "RPC trait methods must have either #[method(...)] or #[subscription(...)]"@,
        SchemaError::NoEntries => "RPC trait must contain at least one method or subscription"@,
        SchemaError::MissingMethodName => "#[method(...)] requires name = \"...\""@,
        SchemaError::MissingSubscriptionName => "#[subscription(...)] requires name = \"...\""@,
        SchemaError::MissingSubscriptionItem => "#[subscription(...)] requires item = Type"@,
        SchemaError::UnnamedParameter => "RPC method parameters must be named identifiers"@,
        SchemaError::InvalidParamKind => "param_kind must be either `array` or `map`"@,
        SchemaError::DuplicateArgument(label) => "duplicate `"@ + label@ + "` argument"@,
    }
}

/// Each refusal is reported with its fixed message; a duplicated argument
/// names its label between backticks.
pub proof fn law_error_messages(label: String)
    ensures
        error_text(SchemaError::UnexpectedArguments) == "#[export_schema] does not take arguments"@,
        error_text(SchemaError::LifetimeGenerics)
            == "#[export_schema] does not support lifetime generics"@,
        error_text(SchemaError::MissingRpcAttribute)
            == "#[export_schema] must be placed on a trait that also has #[rpc(...)]"@,
        error_text(SchemaError::NonMethodItem)
            == "#[export_schema] only supports RPC traits that contain methods"@,
        error_text(SchemaError::UnmarkedMethod)
            == "RPC trait methods must have either #[method(...)] or #[subscription(...)]"@,
        error_text(SchemaError::NoEntries)
            == "RPC trait must contain at least one method or subscription"@,
        error_text(SchemaError::MissingMethodName) == "#[method(...)] requires name = \"...\""@,
        error_text(SchemaError::MissingSubscriptionName)
            == "#[subscription(...)] requires name = \"...\""@,
        error_text(SchemaError::MissingSubscriptionItem)
            == "#[subscription(...)] requires item = Type"@,
        error_text(SchemaError::UnnamedParameter)
            == "RPC method parameters must be named identifiers"@,
        error_text(SchemaError::InvalidParamKind) == "param_kind must be either `array` or `map`"@,
        error_text(SchemaError::DuplicateArgument(label)) == "duplicate `"@ + label@ + "` argument"@,
{
}

impl SchemaError {
    /// The message reported for this error.
    pub fn message(&self) -> (r: String)
        ensures
            r@ == error_text(*self),
    {
        match self {
            SchemaError::UnexpectedArguments => "#[export_schema] does not take arguments".to_string(),
            SchemaError::LifetimeGenerics => "#[export_schema] does not support lifetime generics".to_string(),
            SchemaError::MissingRpcAttribute =>
                "#[export_schema] must be placed on a trait that also has #[rpc(...)]".to_string(),
            SchemaError::NonMethodItem =>
                "#[export_schema] only supports RPC traits that contain methods".to_string(),
            SchemaError::UnmarkedMethod =>
                "RPC trait methods must have either #[method(...)] or #[subscription(...)]".to_string(),
            SchemaError::NoEntries =>
                "RPC trait must contain at least one method or subscription".to_string(),
            SchemaError::MissingMethodName => "#[method(...)] requires name = \"...\"".to_string(),
            SchemaError::MissingSubscriptionName =>
                "#[subscription(...)] requires name = \"...\"".to_string(),
            SchemaError::MissingSubscriptionItem =>
                "#[subscription(...)] requires item = Type".to_string(),
            SchemaError::UnnamedParameter =>
                "RPC method parameters must be named identifiers".to_string(),
            SchemaError::InvalidParamKind => "param_kind must be either `array` or `map`".to_string(),
            SchemaError::DuplicateArgument(label) => {
                let mut r = "duplicate `".to_string();
                r.append(label.as_str());
                r.append("` argument");
                r
            },
        }
    }
}

// ---------------------------------------------------------------------------
// Attribute arguments

/// Finds the argument labelled `label` among the labels of an attribute's
/// arguments: its index when it occurs once, `None` when it does not occur,
/// and an error when it occurs more than once.
pub fn find_argument(labels: &Vec<String>, label: &str) -> (r: Result<Option<usize>, SchemaError>)
    ensures
        match r {
            Ok(None) => forall|i: int| 0 <= i < labels@.len() ==> labels@[i]@ != label@,
            Ok(Some(i)) => {
                &&& i < labels@.len()
                &&& labels@[i as int]@ == label@
                &&& forall|j: int| 0 <= j < labels@.len() && j != i ==> labels@[j]@ != label@
            },
            Err(e) => {
                &&& e matches SchemaError::DuplicateArgument(l) && l@ == label@
                &&& exists|i: int, j: int|
                    0 <= i < j < labels@.len() && labels@[i]@ == label@ && labels@[j]@ == label@
            },
        },
{
    let wanted = label.to_string();
    let n = labels.len();
    let mut found: Option<usize> = None;
    let mut i: usize = 0;
    while i < n
        invariant
            n == labels@.len(),
            i <= n,
            wanted@ == label@,
            match found {
                None => forall|j: int| 0 <= j < i ==> labels@[j]@ != label@,
                Some(k) => {
                    &&& k < i
                    &&& labels@[k as int]@ == label@
                    &&& forall|j: int| 0 <= j < i && j != k ==> labels@[j]@ != label@
                },
            },
        decreases n - i,
    {
        if labels[i] == wanted {
            match found {
                Some(k) => {
                    assert(labels@[k as int]@ == label@ && labels@[i as int]@ == label@);
                    return Err(SchemaError::DuplicateArgument(wanted));
                },
                None => {
                    found = Some(i);
                },
            }
        }
        i = i + 1;
    }
    Ok(found)
}

/// Reads the value of a `param_kind` argument: `array` or `map`.
pub fn param_kind_from_ident(ident: &str) -> (r: Result<ParamKind, SchemaError>)
    ensures
        r == (if ident@ == "array"@ {
            Ok(ParamKind::Array)
        } else if ident@ == "map"@ {
            Ok(ParamKind::Object)
        } else {
            Err(SchemaError::InvalidParamKind)
        }),
{
    let s = ident.to_string();
    if s == "array".to_string() {
        Ok(ParamKind::Array)
    } else if s == "map".to_string() {
        Ok(ParamKind::Object)
    } else {
        Err(SchemaError::InvalidParamKind)
    }
}

// ---------------------------------------------------------------------------
// The extent of an argument's value

/// What the scanner of an argument's value tells apart among token trees.
#[derive(Clone, Copy, Debug, PartialEq, Eq, Structural)]
pub enum TokenClass {
    /// A `,` punctuation.
    Comma,
    /// A `<` punctuation.
    Open,
    /// A `>` punctuation.
    Close,
    /// Any other token tree.
    Other,
}

/// The angle-bracket depth after one more token, at depth `scope`: one
/// deeper after `<`, one shallower (but never below zero) after `>`.
pub open spec fn next_scope(scope: nat, t: TokenClass) -> nat {
    match t {
        TokenClass::Open => scope + 1,
        TokenClass::Close => if scope > 0 {
            (scope - 1) as nat
        } else {
            0
        },
        _ => scope,
    }
}

/// How many of `tokens` belong to the value when scanning starts at depth
/// `scope`: all of them up to the first comma outside angle brackets.
pub open spec fn value_len(tokens: Seq<TokenClass>, scope: nat) -> nat
    decreases tokens.len(),
{
    if tokens.len() == 0 {
        0
    } else if scope == 0 && tokens[0] == TokenClass::Comma {
        0
    } else {
        1 + value_len(tokens.drop_first(), next_scope(scope, tokens[0]))
    }
}

/// How many of the token trees after an argument's label make up its
/// value: up to, not including, the first comma that is not inside angle
/// brackets (`Vec<(A, B)>`-style generics keep their commas).
pub fn argument_value_len(tokens: &Vec<TokenClass>) -> (r: usize)
    ensures
        r == value_len(tokens@, 0),
{
    let n = tokens.len();
    let mut scope: usize = 0;
    let mut i: usize = 0;
    assert(tokens@.skip(0) =~= tokens@);
    while i < n
        invariant
            n == tokens@.len(),
            i <= n,
            scope <= i,
            value_len(tokens@, 0) == i + value_len(tokens@.skip(i as int), scope as nat),
        decreases n - i,
    {
        let t = tokens[i];
        assert(tokens@.skip(i as int)[0] == t);
        if scope == 0 && t == TokenClass::Comma {
            return i;
        }
        match t {
            TokenClass::Open => {
                scope = scope + 1;
            },
            TokenClass::Close => {
                if scope > 0 {
                    scope = scope - 1;
                }
            },
            _ => {},
        }
        assert(tokens@.skip(i as int).drop_first() =~= tokens@.skip(i + 1));
        i = i + 1;
    }
    assert(tokens@.skip(n as int).len() == 0);
    n
}

/// The value's extent never passes the end of the tokens; what follows it,
/// if anything, is a comma outside all angle brackets.
pub proof fn law_value_stops_at_top_level_comma(tokens: Seq<TokenClass>, scope: nat)
    ensures
        value_len(tokens, scope) <= tokens.len(),
        value_len(tokens, scope) < tokens.len() ==> tokens[value_len(tokens, scope) as int]
            == TokenClass::Comma,
    decreases tokens.len(),
{
    if tokens.len() > 0 && !(scope == 0 && tokens[0] == TokenClass::Comma) {
        law_value_stops_at_top_level_comma(tokens.drop_first(), next_scope(scope, tokens[0]));
        let k: int = value_len(tokens.drop_first(), next_scope(scope, tokens[0])) as int;
        if k < tokens.drop_first().len() {
            assert(tokens[k + 1] == tokens.drop_first()[k]);
        }
    }
}

/// Without angle brackets, the value is everything up to the first comma.
pub proof fn law_value_without_brackets(tokens: Seq<TokenClass>, k: int)
    requires
        0 <= k <= tokens.len(),
        forall|i: int| 0 <= i < k ==> #[trigger] tokens[i] == TokenClass::Other,
        k == tokens.len() || tokens[k] == TokenClass::Comma,
    ensures
        value_len(tokens, 0) == k,
    decreases k,
{
    if k > 0 {
        assert(tokens[0] == TokenClass::Other);
        let rest = tokens.drop_first();
        assert forall|i: int| 0 <= i < k - 1 implies #[trigger] rest[i] == TokenClass::Other by {
            assert(rest[i] == tokens[i + 1]);
        }
        if k < tokens.len() {
            assert(rest[k - 1] == tokens[k]);
        }
        law_value_without_brackets(rest, k - 1);
    }
}

/// How many tokens of class `c` there are in `t`.
pub open spec fn count_class(t: Seq<TokenClass>, c: TokenClass) -> nat
    decreases t.len(),
{
    if t.len() == 0 {
        0
    } else {
        (if t[0] == c {
            1nat
        } else {
            0nat
        }) + count_class(t.drop_first(), c)
    }
}

/// The depth reached after the first `k` tokens of `t`, counting `<` up and
/// `>` down from `depth`.
pub open spec fn depth_before(t: Seq<TokenClass>, depth: nat, k: int) -> int {
    depth + count_class(t.take(k), TokenClass::Open) - count_class(t.take(k), TokenClass::Close)
}

proof fn lemma_count_take_step(t: Seq<TokenClass>, k: int, c: TokenClass)
    requires
        t.len() > 0,
        0 <= k < t.len(),
    ensures
        count_class(t.take(k + 1), c) == (if t[0] == c {
            1nat
        } else {
            0nat
        }) + count_class(t.drop_first().take(k), c),
{
    assert(t.take(k + 1).drop_first() =~= t.drop_first().take(k));
    assert(t.take(k + 1)[0] == t[0]);
}

/// While inside angle brackets, every token belongs to the value, commas
/// included: when scanning from `depth` never reaches depth zero before a
/// token of `t` (counting each `<` as one level deeper and each `>` as one
/// level shallower), all of `t` is consumed, and the scan goes on after it
/// at the depth those counts give. So the value of `X<Y<Z>, W>` is all of
/// it.
pub proof fn law_value_inside_brackets(
    t: Seq<TokenClass>,
    rest: Seq<TokenClass>,
    depth: nat,
)
    requires
        forall|k: int| 0 <= k < t.len() ==> depth_before(t, depth, k) >= 1,
    ensures
        depth_before(t, depth, t.len() as int) >= 0,
        value_len(t + rest, depth) == t.len() + value_len(
            rest,
            depth_before(t, depth, t.len() as int) as nat,
        ),
    decreases t.len(),
{
    if t.len() == 0 {
        assert(t + rest =~= rest);
        assert(t.take(0) =~= Seq::<TokenClass>::empty());
    } else {
        assert(t.take(0) =~= Seq::<TokenClass>::empty());
        assert(depth_before(t, depth, 0) >= 1);
        let c = t[0];
        let d2 = next_scope(depth, c);
        let t2 = t.drop_first();
        assert((t + rest)[0] == c);
        assert((t + rest).drop_first() =~= t2 + rest);
        assert(d2 == depth + (if c == TokenClass::Open { 1int } else { 0 }) - (if c
            == TokenClass::Close {
            1int
        } else {
            0
        }));
        assert forall|k: int| 0 <= k < t2.len() implies depth_before(t2, d2, k) >= 1 by {
            lemma_count_take_step(t, k, TokenClass::Open);
            lemma_count_take_step(t, k, TokenClass::Close);
            assert(depth_before(t, depth, k + 1) >= 1);
        }
        law_value_inside_brackets(t2, rest, d2);
        lemma_count_take_step(t, t2.len() as int, TokenClass::Open);
        lemma_count_take_step(t, t2.len() as int, TokenClass::Close);
        assert(t.take(t.len() as int) =~= t);
        assert(t2.take(t2.len() as int) =~= t2);
    }
}

/// A `>` read at depth `d` of one or more lowers the depth by exactly one:
/// it is part of the value, and the scan goes on at depth `d - 1`.
pub proof fn law_close_lowers_depth_by_one(rest: Seq<TokenClass>, d: nat)
    requires
        d >= 1,
    ensures
        value_len(seq![TokenClass::Close] + rest, d) == 1 + value_len(rest, (d - 1) as nat),
{
    assert((seq![TokenClass::Close] + rest).drop_first() =~= rest);
}

// ---------------------------------------------------------------------------
// Generic arguments of `Result<..>`, `RpcResult<..>` and `Option<..>`

/// What the generator reads of a type: the identifier of the last segment
/// of its path (none when it is no path type or the path is empty), and,
/// when that segment has angle-bracketed arguments, for each of them
/// whether it is a type (rather than a lifetime, a constant, ...).
pub struct TypeShape {
    pub last_segment: Option<String>,
    pub generic_args: Option<Vec<bool>>,
}

/// The index of the first `true` of `flags`.
pub open spec fn first_true(flags: Seq<bool>) -> Option<nat>
    decreases flags.len(),
{
    if flags.len() == 0 {
        None
    } else if flags[0] {
        Some(0)
    } else {
        match first_true(flags.drop_first()) {
            Some(i) => Some(i + 1),
            None => None,
        }
    }
}

/// The index of the first type argument of a path type whose last segment
/// is one of `names`; none when the type is no such path type or has no
/// type argument.
pub open spec fn generic_type_arg(shape: TypeShape, is_name: spec_fn(Seq<char>) -> bool) -> Option<nat> {
    match (shape.last_segment, shape.generic_args) {
        (Some(seg), Some(args)) => if is_name(seg@) {
            first_true(args@)
        } else {
            None
        },
        _ => None,
    }
}

/// `Result` or `RpcResult`.
pub open spec fn is_result_name(s: Seq<char>) -> bool {
    s == "Result"@ || s == "RpcResult"@
}

/// `Option`.
pub open spec fn is_option_name(s: Seq<char>) -> bool {
    s == "Option"@
}

/// The view of an optional index.
pub open spec fn opt_index(r: Option<usize>) -> Option<nat> {
    match r {
        Some(i) => Some(i as nat),
        None => None,
    }
}

/// The index of the first `true` in `flags`.
fn first_type_arg(flags: &Vec<bool>) -> (r: Option<usize>)
    ensures
        opt_index(r) == first_true(flags@),
{
    let n = flags.len();
    let mut i: usize = 0;
    assert(flags@.skip(0) =~= flags@);
    while i < n
        invariant
            n == flags@.len(),
            i <= n,
            first_true(flags@) == match first_true(flags@.skip(i as int)) {
                Some(k) => Some((k + i) as nat),
                None => None,
            },
        decreases n - i,
    {
        assert(flags@.skip(i as int)[0] == flags@[i as int]);
        if flags[i] {
            return Some(i);
        }
        assert(flags@.skip(i as int).drop_first() =~= flags@.skip(i + 1));
        i = i + 1;
    }
    assert(flags@.skip(n as int).len() == 0);
    None
}

/// Whether the last segment is one of the wanted names.
fn segment_is(shape: &TypeShape, first: &str, second: &str) -> (r: bool)
    ensures
        r == (shape.last_segment matches Some(seg) && (seg@ == first@ || seg@ == second@)),
{
    match &shape.last_segment {
        Some(seg) => *seg == first.to_string() || *seg == second.to_string(),
        None => false,
    }
}

/// Which generic argument of a method's return type is its success type:
/// the first type argument of `Result<..>` or `RpcResult<..>`. `None`
/// means the return type is used as it is.
pub fn success_type_arg(shape: &TypeShape) -> (r: Option<usize>)
    ensures
        opt_index(r) == generic_type_arg(*shape, |s: Seq<char>| is_result_name(s)),
{
    if segment_is(shape, "Result", "RpcResult") {
        match &shape.generic_args {
            Some(args) => first_type_arg(args),
            None => None,
        }
    } else {
        None
    }
}

/// Which generic argument of a parameter's type is wrapped in `Option<..>`:
/// the first type argument of `Option<..>`. `None` means the parameter is
/// required and keeps its type.
pub fn option_type_arg(shape: &TypeShape) -> (r: Option<usize>)
    ensures
        opt_index(r) == generic_type_arg(*shape, |s: Seq<char>| is_option_name(s)),
{
    if segment_is(shape, "Option", "Option") {
        match &shape.generic_args {
            Some(args) => first_type_arg(args),
            None => None,
        }
    } else {
        None
    }
}

/// `first_true` finds the first `true`: its index holds `true` and every
/// index before it `false`; it finds none only when there is no `true`.
pub proof fn law_first_true(flags: Seq<bool>)
    ensures
        first_true(flags) matches Some(i) ==> i < flags.len() && flags[i as int] && forall|j: int|
            0 <= j < i ==> !flags[j],
        first_true(flags) is None ==> forall|j: int| 0 <= j < flags.len() ==> !flags[j],
    decreases flags.len(),
{
    if flags.len() > 0 && !flags[0] {
        law_first_true(flags.drop_first());
        assert forall|j: int| 0 < j < flags.len() implies flags[j] == flags.drop_first()[j - 1] by {}
    }
}

/// A parameter is optional only when the last segment of its type is
/// exactly `Option`: for every other name (`Vec`, `Result`, ...) it stays
/// required with its type. An `Option<..>` with a type argument is always
/// unwrapped, to its first type argument.
pub proof fn law_only_option_is_optional(shape: TypeShape)
    ensures
        generic_type_arg(shape, |s: Seq<char>| is_option_name(s)) is Some ==> (shape.last_segment matches Some(
            seg,
        ) && seg@ == "Option"@),
        (shape.last_segment matches Some(seg) && seg@ != "Option"@) ==> generic_type_arg(
            shape,
            |s: Seq<char>| is_option_name(s),
        ) is None,
        (shape.last_segment matches Some(seg) && seg@ == "Option"@) ==> generic_type_arg(
            shape,
            |s: Seq<char>| is_option_name(s),
        ) == (match shape.generic_args {
            Some(args) => first_true(args@),
            None => None,
        }),
{
}

/// A return type is replaced by a generic argument only when the last
/// segment of its path is exactly `Result` or `RpcResult`: any other type
/// (`Option<T>`, `Vec<T>`, ...) is returned as it is. A `Result<..>` or
/// `RpcResult<..>` with a type argument returns its first type argument.
pub proof fn law_only_results_unwrap(shape: TypeShape)
    ensures
        generic_type_arg(shape, |s: Seq<char>| is_result_name(s)) is Some ==> (shape.last_segment matches Some(
            seg,
        ) && (seg@ == "Result"@ || seg@ == "RpcResult"@)),
        (shape.last_segment matches Some(seg) && seg@ != "Result"@ && seg@ != "RpcResult"@)
            ==> generic_type_arg(shape, |s: Seq<char>| is_result_name(s)) is None,
        (shape.last_segment matches Some(seg) && (seg@ == "Result"@ || seg@ == "RpcResult"@))
            ==> generic_type_arg(shape, |s: Seq<char>| is_result_name(s)) == (match shape.generic_args {
            Some(args) => first_true(args@),
            None => None,
        }),
{
}

// ---------------------------------------------------------------------------
// Trait items

/// Whether a trait method makes a request entry or a subscription entry.
#[derive(Clone, Copy, Debug, PartialEq, Eq, Structural)]
pub enum EntryKind {
    Request,
    Subscription,
}

/// What a trait item makes: an item that is no method is refused; a method
/// with `#[method(...)]` makes a request (that attribute wins over
/// `#[subscription(...)]`); one with only `#[subscription(...)]` a
/// subscription; one with neither is refused.
pub fn classify_item(is_method: bool, has_method_attr: bool, has_subscription_attr: bool) -> (r:
    Result<EntryKind, SchemaError>)
    ensures
        r == (if !is_method {
            Err(SchemaError::NonMethodItem)
        } else if has_method_attr {
            Ok(EntryKind::Request)
        } else if has_subscription_attr {
            Ok(EntryKind::Subscription)
        } else {
            Err(SchemaError::UnmarkedMethod)
        }),
{
    if !is_method {
        Err(SchemaError::NonMethodItem)
    } else if has_method_attr {
        Ok(EntryKind::Request)
    } else if has_subscription_attr {
        Ok(EntryKind::Subscription)
    } else {
        Err(SchemaError::UnmarkedMethod)
    }
}

/// Which type a schema entry returns.
#[derive(Clone, Copy, Debug, PartialEq, Eq, Structural)]
pub enum ReturnKind {
    /// `void`: a method whose fn declares no return type.
    Void,
    /// The success type of the return type the fn declares.
    FnReturn,
    /// The `item = T` type of a subscription, whatever the fn declares.
    Item,
}

/// What a trait method's attribute makes of it.
pub struct EntryPlan {
    pub kind: EntryKind,
    /// The RPC name: the attribute's `name`, namespaced.
    pub name: String,
    pub param_kind: ParamKind,
    pub ret: ReturnKind,
}

/// Plans the schema entry of a trait method from what its attribute gives:
/// the `name` (required), the `param_kind` (`array` by default), whether a
/// subscription has its (required) `item`, and whether the fn declares a
/// return type. A request returns its fn's success type, or `void` without
/// one; a subscription returns its `item`.
pub fn plan_entry(
    kind: EntryKind,
    cfg: &RpcConfig,
    name: Option<String>,
    param_kind: Option<ParamKind>,
    has_item: bool,
    has_return: bool,
) -> (r: Result<EntryPlan, SchemaError>)
    ensures
        r is Err <==> (name is None || (kind == EntryKind::Subscription && !has_item)),
        r matches Err(e) ==> e == (if name is None {
            if kind == EntryKind::Request {
                SchemaError::MissingMethodName
            } else {
                SchemaError::MissingSubscriptionName
            }
        } else {
            SchemaError::MissingSubscriptionItem
        }),
        r matches Ok(p) ==> {
            &&& p.kind == kind
            &&& p.name@ == rpc_method_text(
                opt_text(cfg.namespace),
                cfg.namespace_separator@,
                name->0@,
            )
            &&& p.param_kind == (match param_kind {
                Some(k) => k,
                None => ParamKind::Array,
            })
            &&& p.ret == (if kind == EntryKind::Subscription {
                ReturnKind::Item
            } else if has_return {
                ReturnKind::FnReturn
            } else {
                ReturnKind::Void
            })
        },
{
    let name = match name {
        Some(name) => name,
        None => {
            return match kind {
                EntryKind::Request => Err(SchemaError::MissingMethodName),
                EntryKind::Subscription => Err(SchemaError::MissingSubscriptionName),
            };
        },
    };
    let ret = match kind {
        EntryKind::Subscription => {
            if !has_item {
                return Err(SchemaError::MissingSubscriptionItem);
            }
            ReturnKind::Item
        },
        EntryKind::Request => if has_return {
            ReturnKind::FnReturn
        } else {
            ReturnKind::Void
        },
    };
    let param_kind = match param_kind {
        Some(k) => k,
        None => ParamKind::Array,
    };
    Ok(EntryPlan { kind, name: cfg.rpc_method_name(name.as_str()), param_kind, ret })
}

/// The key of a parameter: its `#[argument(rename = "...")]` where given,
/// else the name of its binding.
pub fn param_name(ident: &str, rename: Option<String>) -> (r: String)
    ensures
        r@ == (match rename {
            Some(n) => n@,
            None => ident@,
        }),
{
    match rename {
        Some(n) => n,
        None => ident.to_string(),
    }
}

/// The checks on the trait itself, in this order: no lifetime generics,
/// then an `#[rpc(...)]` attribute.
pub fn check_trait(has_lifetimes: bool, has_rpc_attr: bool) -> (r: Result<(), SchemaError>)
    ensures
        r == (if has_lifetimes {
            Err(SchemaError::LifetimeGenerics)
        } else if !has_rpc_attr {
            Err(SchemaError::MissingRpcAttribute)
        } else {
            Ok(())
        }),
{
    if has_lifetimes {
        Err(SchemaError::LifetimeGenerics)
    } else if !has_rpc_attr {
        Err(SchemaError::MissingRpcAttribute)
    } else {
        Ok(())
    }
}

/// Whether a type parameter gains the bound `::ts_rs::TS`: when none of its
/// bounds (`is_ts[i]`: bound `i` is a trait bound whose path is `TS`)
/// already is `TS`.
pub fn needs_ts_bound(is_ts: &Vec<bool>) -> (r: bool)
    ensures
        r == (forall|i: int| 0 <= i < is_ts@.len() ==> !is_ts@[i]),
{
    let n = is_ts.len();
    let mut i: usize = 0;
    while i < n
        invariant
            n == is_ts@.len(),
            i <= n,
            forall|j: int| 0 <= j < i ==> !is_ts@[j],
        decreases n - i,
    {
        if is_ts[i] {
            return false;
        }
        i = i + 1;
    }
    true
}

/// The indices, in increasing order, of the entries of the given kind.
pub open spec fn indices_of_kind(kinds: Seq<EntryKind>, kind: EntryKind) -> Seq<usize>
    decreases kinds.len(),
{
    if kinds.len() == 0 {
        Seq::empty()
    } else {
        let rest = indices_of_kind(kinds.drop_last(), kind);
        if kinds.last() == kind {
            rest.push((kinds.len() - 1) as usize)
        } else {
            rest
        }
    }
}

/// The entries of one kind, in the order of the trait: the schema lists
/// requests and subscriptions each in the order they are declared.
pub fn entries_of_kind(kinds: &Vec<EntryKind>, kind: EntryKind) -> (r: Vec<usize>)
    ensures
        r@ == indices_of_kind(kinds@, kind),
{
    let n = kinds.len();
    let mut r: Vec<usize> = Vec::new();
    let mut i: usize = 0;
    while i < n
        invariant
            n == kinds@.len(),
            i <= n,
            r@ == indices_of_kind(kinds@.take(i as int), kind),
        decreases n - i,
    {
        assert(kinds@.take(i + 1).drop_last() =~= kinds@.take(i as int));
        assert(kinds@.take(i + 1).last() == kinds@[i as int]);
        if kinds[i] == kind {
            r.push(i);
        }
        i = i + 1;
    }
    assert(kinds@.take(n as int) =~= kinds@);
    r
}

/// The indices of the entries of a kind are exactly the positions holding
/// that kind, each once and in increasing order.
pub proof fn law_indices_of_kind(kinds: Seq<EntryKind>, kind: EntryKind)
    requires
        kinds.len() <= usize::MAX,
    ensures
        forall|j: int|
            0 <= j < indices_of_kind(kinds, kind).len() ==> (#[trigger] indices_of_kind(
                kinds,
                kind,
            )[j]) < kinds.len() && kinds[indices_of_kind(kinds, kind)[j] as int] == kind,
        forall|j: int, k: int|
            0 <= j < k < indices_of_kind(kinds, kind).len() ==> #[trigger] indices_of_kind(
                kinds,
                kind,
            )[j] < #[trigger] indices_of_kind(kinds, kind)[k],
        forall|i: int|
            0 <= i < kinds.len() && kinds[i] == kind ==> #[trigger] indices_of_kind(
                kinds,
                kind,
            ).contains(i as usize),
    decreases kinds.len(),
{
    if kinds.len() > 0 {
        let init = kinds.drop_last();
        law_indices_of_kind(init, kind);
        let rest = indices_of_kind(init, kind);
        let all = indices_of_kind(kinds, kind);
        let last = (kinds.len() - 1) as usize;
        assert(last as int == kinds.len() - 1);
        assert forall|j: int| 0 <= j < rest.len() implies #[trigger] rest[j] < last
            && kinds[rest[j] as int] == kind by {
            assert(init[rest[j] as int] == kinds[rest[j] as int]);
        }
        if kinds.last() == kind {
            assert(all == rest.push(last));
            assert forall|j: int| 0 <= j < all.len() implies (#[trigger] all[j]) < kinds.len()
                && kinds[all[j] as int] == kind by {
                if j < rest.len() {
                    assert(all[j] == rest[j]);
                }
            }
            assert forall|j: int, k: int| 0 <= j < k < all.len() implies #[trigger] all[j]
                < #[trigger] all[k] by {
                assert(all[j] == rest[j]);
                if k < rest.len() {
                    assert(all[k] == rest[k]);
                }
            }
        } else {
            assert(all == rest);
        }
        assert forall|i: int| 0 <= i < kinds.len() && kinds[i] == kind implies #[trigger] all.contains(
            i as usize,
        ) by {
            if i < kinds.len() - 1 {
                assert(init[i] == kinds[i]);
                assert(rest.contains(i as usize));
                let w = choose|w: int| 0 <= w < rest.len() && rest[w] == i as usize;
                if kinds.last() == kind {
                    assert(all[w] == rest[w]);
                }
                assert(all[w] == i as usize);
            } else {
                assert(all[all.len() - 1] == i as usize);
            }
        }
    }
}

} // verus!
