//! Names that the schema generator derives: snake-case identifiers, the
//! names of the generated items, and namespaced RPC method names.
use vstd::prelude::*;

use crate::text::push_char;

verus! {

broadcast use vstd::string::group_string_axioms;

/// An ASCII upper-case letter.
pub open spec fn is_upper(c: char) -> bool {
    'A' <= c && c <= 'Z'
}

/// The ASCII lower-case form of `c`; other characters are unchanged.
pub open spec fn lower(c: char) -> char {
    if is_upper(c) {
        ((c as u32) + 32) as char
    } else {
        c
    }
}

/// What one character of the input becomes: an upper-case letter turns
/// into its lower-case form, preceded by `_` unless it comes first.
pub open spec fn snake_piece(c: char, first: bool) -> Seq<char> {
    if is_upper(c) {
        if first {
            seq![lower(c)]
        } else {
            seq!['_', lower(c)]
        }
    } else {
        seq![c]
    }
}

/// `s` in snake case: each upper-case ASCII letter lowered, with `_` in
/// front of each one but a leading one.
pub open spec fn snake_case(s: Seq<char>) -> Seq<char>
    decreases s.len(),
{
    if s.len() == 0 {
        Seq::empty()
    } else {
        snake_case(s.drop_last()) + snake_piece(s.last(), s.len() == 1)
    }
}

/// `c` lowered when it is an upper-case ASCII letter.
fn to_ascii_lower(c: char) -> (r: char)
    ensures
        r == lower(c),
{
    if 'A' <= c && c <= 'Z' {
        let b: u8 = c as u8;
        (b + 32) as char
    } else {
        c
    }
}

/// Converts a `CamelCase` identifier into `snake_case`.
pub fn to_snake_case(input: &str) -> (r: String)
    ensures
        r@ == snake_case(input@),
{
    let mut output = String::new();
    let mut first = true;
    for ch in it: input.chars()
        invariant
            it.seq() == input@,
            first == (it.index() == 0),
            output@ == snake_case(input@.take(it.index() as int)),
    {
        let ghost idx = it.index() as int;
        assert(ch == input@[idx]);
        assert(input@.take(idx + 1).drop_last() =~= input@.take(idx));
        if 'A' <= ch && ch <= 'Z' {
            if !first {
                push_char(&mut output, '_');
            }
            push_char(&mut output, to_ascii_lower(ch));
        } else {
            push_char(&mut output, ch);
        }
        first = false;
        assert(output@ =~= snake_case(input@.take(idx + 1)));
    }
    assert(input@.take(input@.len() as int) =~= input@);
    output
}

/// The name of the generated schema type of a trait: `<Trait>Schema`.
pub open spec fn schema_type_text(trait_name: Seq<char>) -> Seq<char> {
    trait_name + "Schema"@
}

/// The name of the generated builder function of a trait:
/// `__jsonrpsee_ts_build_<trait_in_snake_case>_schema`.
pub open spec fn builder_fn_text(trait_name: Seq<char>) -> Seq<char> {
    "__jsonrpsee_ts_build_"@ + snake_case(trait_name) + "_schema"@
}

/// The name of the schema type generated for the trait `trait_name`.
pub fn schema_type_name(trait_name: &str) -> (r: String)
    ensures
        r@ == schema_type_text(trait_name@),
{
    let mut r = trait_name.to_string();
    r.append("Schema");
    r
}

/// The name of the builder function generated for the trait `trait_name`.
pub fn builder_fn_name(trait_name: &str) -> (r: String)
    ensures
        r@ == builder_fn_text(trait_name@),
{
    let snake = to_snake_case(trait_name);
    let mut r = String::new();
    r.append("__jsonrpsee_ts_build_");
    r.append(snake.as_str());
    r.append("_schema");
    r
}

/// The `namespace` and `namespace_separator` of an `#[rpc(...)]` attribute.
pub struct RpcConfig {
    pub namespace: Option<String>,
    pub namespace_separator: String,
}

/// The name under which `jsonrpsee` serves `method`: prefixed by the
/// namespace and separator when there is a namespace.
pub open spec fn rpc_method_text(namespace: Option<Seq<char>>, separator: Seq<char>, method: Seq<char>) -> Seq<char> {
    match namespace {
        Some(ns) => ns + separator + method,
        None => method,
    }
}

/// The view of an optional string.
pub open spec fn opt_text(s: Option<String>) -> Option<Seq<char>> {
    match s {
        Some(s) => Some(s@),
        None => None,
    }
}

impl RpcConfig {
    /// The configuration of an `#[rpc(...)]` attribute from its optional
    /// `namespace` and `namespace_separator` values; the separator is `_`
    /// where none is given.
    pub fn from_arguments(namespace: Option<String>, namespace_separator: Option<String>) -> (r: Self)
        ensures
            opt_text(r.namespace) == opt_text(namespace),
            r.namespace_separator@ == (match namespace_separator {
                Some(sep) => sep@,
                None => "_"@,
            }),
    {
        let namespace_separator = match namespace_separator {
            Some(sep) => sep,
            None => "_".to_string(),
        };
        RpcConfig { namespace, namespace_separator }
    }

    /// The RPC name of `method`: `<namespace><separator><method>`, or
    /// `method` alone without a namespace.
    pub fn rpc_method_name(&self, method: &str) -> (r: String)
        ensures
            r@ == rpc_method_text(opt_text(self.namespace), self.namespace_separator@, method@),
    {
        match &self.namespace {
            Some(namespace) => {
                let mut r = namespace.clone();
                r.append(self.namespace_separator.as_str());
                r.append(method);
                r
            },
            None => method.to_string(),
        }
    }
}

// ---------------------------------------------------------------------------
// Laws

/// With a namespace, the RPC name is always the namespace, then the
/// separator, then the whole method name, whatever characters the method
/// name holds; without one it is the method name alone.
pub proof fn law_namespace_prefix(ns: Seq<char>, sep: Seq<char>, method: Seq<char>)
    ensures
        rpc_method_text(Some(ns), sep, method).len() == ns.len() + sep.len() + method.len(),
        rpc_method_text(Some(ns), sep, method).take(ns.len() as int) == ns,
        rpc_method_text(Some(ns), sep, method).subrange(ns.len() as int, (ns.len() + sep.len()) as int)
            == sep,
        rpc_method_text(Some(ns), sep, method).skip((ns.len() + sep.len()) as int) == method,
        rpc_method_text(None, sep, method) == method,
{
    let r = rpc_method_text(Some(ns), sep, method);
    assert(r.take(ns.len() as int) =~= ns);
    assert(r.subrange(ns.len() as int, (ns.len() + sep.len()) as int) =~= sep);
    assert(r.skip((ns.len() + sep.len()) as int) =~= method);
}

/// Converting to snake case goes character by character: a leading
/// upper-case letter becomes its lower-case form; any later one becomes `_`
/// and its lower-case form; every other character stays as it is. The
/// lower-case form of `A`..`Z` is `a`..`z`, 32 code points on.
pub proof fn law_snake_case_steps(s: Seq<char>, c: char)
    ensures
        snake_case(Seq::empty()) == Seq::<char>::empty(),
        snake_case(seq![c]) == (if 'A' <= c && c <= 'Z' {
            seq![lower(c)]
        } else {
            seq![c]
        }),
        s.len() > 0 ==> snake_case(s.push(c)) == snake_case(s) + (if 'A' <= c && c <= 'Z' {
            seq!['_', lower(c)]
        } else {
            seq![c]
        }),
        'A' <= c && c <= 'Z' ==> 'a' <= lower(c) && lower(c) <= 'z' && lower(c) as u32 == (c as u32)
            + 32,
        !('A' <= c && c <= 'Z') ==> lower(c) == c,
{
    assert(seq![c].drop_last() =~= Seq::<char>::empty());
    assert(s.push(c).drop_last() =~= s);
}

/// The generated schema type is the trait's name followed by `Schema`; the
/// builder function is `__jsonrpsee_ts_build_`, the trait's name in snake
/// case, then `_schema`.
pub proof fn law_generated_names(trait_name: Seq<char>)
    ensures
        schema_type_text(trait_name) == trait_name + "Schema"@,
        builder_fn_text(trait_name) == "__jsonrpsee_ts_build_"@ + snake_case(trait_name) + "_schema"@,
{
}

/// Snake case holds no upper-case ASCII letter.
pub proof fn law_snake_case_no_upper(s: Seq<char>)
    ensures
        forall|i: int| 0 <= i < snake_case(s).len() ==> !is_upper(#[trigger] snake_case(s)[i]),
    decreases s.len(),
{
    if s.len() > 0 {
        law_snake_case_no_upper(s.drop_last());
        let c = s.last();
        if is_upper(c) {
            assert(!is_upper(lower(c)));
        }
        let a = snake_case(s.drop_last());
        let b = snake_piece(c, s.len() == 1);
        assert forall|i: int| 0 <= i < snake_case(s).len() implies !is_upper(
            #[trigger] snake_case(s)[i],
        ) by {
            if i < a.len() {
                assert(snake_case(s)[i] == a[i]);
            } else {
                assert(snake_case(s)[i] == b[i - a.len()]);
            }
        }
    }
}

/// A text without upper-case ASCII letters is its own snake case.
pub proof fn law_snake_case_keeps_lower(s: Seq<char>)
    requires
        forall|i: int| 0 <= i < s.len() ==> !is_upper(#[trigger] s[i]),
    ensures
        snake_case(s) == s,
    decreases s.len(),
{
    if s.len() > 0 {
        law_snake_case_keeps_lower(s.drop_last());
        assert(!is_upper(s[s.len() - 1]));
        assert(snake_case(s) =~= s);
    }
}

/// Converting to snake case twice gives what converting once gives.
pub proof fn law_snake_case_idempotent(s: Seq<char>)
    ensures
        snake_case(snake_case(s)) == snake_case(s),
{
    law_snake_case_no_upper(s);
    law_snake_case_keeps_lower(snake_case(s));
}

} // verus!
