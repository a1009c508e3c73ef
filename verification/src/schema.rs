//! The in-memory rpckit schema: parameters, methods and the schema itself,
//! and their rendering as TypeScript.
use vstd::prelude::*;

use crate::text::{
    join, join_strings, lemma_join_concat, lemma_join_push, push_char, repeat_spaces, spaces, texts,
};
use vstd::std_specs::cmp::PartialEqSpecImpl;

verus! {

broadcast use vstd::string::group_string_axioms;

/// Parameter encoding mode mirroring `jsonrpsee`'s `param_kind`.
#[derive(Clone, Copy, Debug, PartialEq, Eq, Structural)]
pub enum ParamKind {
    /// Positional parameters, rendered as a tuple.
    Array,
    /// Named parameters (`param_kind = map`), rendered as an object type.
    Object,
}

// ---------------------------------------------------------------------------
// Abstract values

/// What a [`Param`] holds.
pub struct ParamView {
    pub ident: Seq<char>,
    pub optional: bool,
    pub ts_ident: Seq<char>,
}

/// What a [`Method`] holds.
pub struct MethodView {
    pub name: Seq<char>,
    pub params: Seq<ParamView>,
    pub param_kind: ParamKind,
    pub return_ts_ident: Seq<char>,
}

/// What a [`Schema`] holds: its request entries and its subscription
/// entries, each in the order they were added.
pub struct SchemaView {
    pub requests: Seq<MethodView>,
    pub subscriptions: Seq<MethodView>,
}

// ---------------------------------------------------------------------------
// The TypeScript text, as a function of the abstract values

/// A character that may start a TypeScript identifier (ASCII subset).
pub open spec fn is_ident_start(c: char) -> bool {
    c == '_' || c == '$' || ('a' <= c && c <= 'z') || ('A' <= c && c <= 'Z')
}

/// A character that may continue a TypeScript identifier (ASCII subset).
pub open spec fn is_ident_continue(c: char) -> bool {
    is_ident_start(c) || ('0' <= c && c <= '9')
}

/// `name` can stand unquoted as a TypeScript property name.
pub open spec fn is_identifier(name: Seq<char>) -> bool {
    &&& name.len() > 0
    &&& is_ident_start(name[0])
    &&& forall|i: int| 1 <= i < name.len() ==> is_ident_continue(#[trigger] name[i])
}

/// `name` as a property key: as it is when it is an identifier, else in
/// single quotes.
pub open spec fn property_name(name: Seq<char>) -> Seq<char> {
    if is_identifier(name) {
        name
    } else {
        seq!['\''] + name + seq!['\'']
    }
}

/// `?` for an optional parameter, nothing for a required one.
pub open spec fn optional_mark(optional: bool) -> Seq<char> {
    if optional {
        seq!['?']
    } else {
        Seq::empty()
    }
}

/// A parameter inside a tuple: `ident?: type`.
pub open spec fn array_param_text(p: ParamView) -> Seq<char> {
    p.ident + optional_mark(p.optional) + ": "@ + p.ts_ident
}

/// A parameter inside an object type: `key?: type`, the key quoted where
/// it is no identifier.
pub open spec fn map_param_text(p: ParamView) -> Seq<char> {
    property_name(p.ident) + optional_mark(p.optional) + ": "@ + p.ts_ident
}

/// The `params` type of a method: a tuple `[a, b]` or an object `{ a; b }`.
pub open spec fn params_text(params: Seq<ParamView>, kind: ParamKind) -> Seq<char> {
    match kind {
        ParamKind::Array => "["@ + join(params.map_values(|p: ParamView| array_param_text(p)), ", "@)
            + "]"@,
        ParamKind::Object => "{ "@ + join(params.map_values(|p: ParamView| map_param_text(p)), "; "@)
            + " }"@,
    }
}

/// One schema entry: `{ method: 'name'; params: ...; return: ... }`.
pub open spec fn method_text(m: MethodView) -> Seq<char> {
    "{ method: '"@ + m.name + "'; params: "@ + params_text(m.params, m.param_kind) + "; return: "@
        + m.return_ts_ident + " }"@
}

/// One line of an entry list: indented, followed by a comma.
pub open spec fn entry_line(m: MethodView, indent: nat) -> Seq<char> {
    spaces(indent + 2) + method_text(m) + ","@
}

/// The lines of an entry list, joined by newlines.
pub open spec fn entry_lines(entries: Seq<MethodView>, indent: nat) -> Seq<char> {
    join(entries.map_values(|m: MethodView| entry_line(m, indent)), "\n"@)
}

/// An entry list: `[]` when empty, else one entry per line, closed at
/// `indent`.
pub open spec fn entries_text(entries: Seq<MethodView>, indent: nat) -> Seq<char> {
    if entries.len() == 0 {
        "[]"@
    } else {
        "[\n"@ + entry_lines(entries, indent) + "\n"@ + spaces(indent) + "]"@
    }
}

/// The schema as an inline TypeScript object type.
pub open spec fn inline_text(s: SchemaView) -> Seq<char> {
    "{\n  requests: "@ + entries_text(s.requests, 2) + ";\n  subscriptions: "@ + entries_text(
        s.subscriptions,
        2,
    ) + ";\n}"@
}

/// `type <ident> = <inline>;`.
pub open spec fn type_alias_text(s: SchemaView, ident: Seq<char>) -> Seq<char> {
    "type "@ + ident + " = "@ + inline_text(s) + ";"@
}

/// The schema with no entries.
pub open spec fn empty_schema() -> SchemaView {
    SchemaView { requests: Seq::empty(), subscriptions: Seq::empty() }
}

/// `a` followed by `b`, list by list.
pub open spec fn merged(a: SchemaView, b: SchemaView) -> SchemaView {
    SchemaView { requests: a.requests + b.requests, subscriptions: a.subscriptions + b.subscriptions }
}

// ---------------------------------------------------------------------------
// Free functions

/// Return the TypeScript name for a `ts-rs` type.
///
/// Calls `<T as ts_rs::TS>::name(cfg)`. What it returns depends on the impl
/// of `TS` for `T`, which the library does not see: nothing is stated of it.
#[verifier::external_body]
pub fn ts_type_name<T: ts_rs::TS>(cfg: &ts_rs::Config) -> String {
    T::name(cfg)
}

/// Return the TypeScript `void` type used for methods without a return value.
pub fn void_type() -> (r: String)
    ensures
        r@ == "void"@,
{
    "void".to_string()
}

/// `name` as a TypeScript property key, quoted where it is no identifier.
pub fn ts_property_name(name: &str) -> (r: String)
    ensures
        r@ == property_name(name@),
{
    if is_ts_identifier(name) {
        name.to_string()
    } else {
        let mut r = String::new();
        push_char(&mut r, '\'');
        r.append(name);
        push_char(&mut r, '\'');
        assert(r@ =~= seq!['\''] + name@ + seq!['\'']);
        r
    }
}

/// Whether `name` is a TypeScript identifier (ASCII letters, digits, `_`
/// and `$`, not starting with a digit).
pub fn is_ts_identifier(name: &str) -> (r: bool)
    ensures
        r == is_identifier(name@),
{
    let mut ok = true;
    let mut first = true;
    for ch in it: name.chars()
        invariant
            it.seq() == name@,
            first == (it.index() == 0),
            ok == (it.index() == 0 || (is_ident_start(name@[0]) && forall|i: int|
                1 <= i < it.index() ==> is_ident_continue(#[trigger] name@[i]))),
    {
        assert(ch == name@[it.index() as int]);
        if first {
            ok = ch == '_' || ch == '$' || ('a' <= ch && ch <= 'z') || ('A' <= ch && ch <= 'Z');
            first = false;
        } else if ok {
            ok = ch == '_' || ch == '$' || ('a' <= ch && ch <= 'z') || ('A' <= ch && ch <= 'Z') || (
            '0' <= ch && ch <= '9');
        }
    }
    !first && ok
}

// ---------------------------------------------------------------------------
// Param

/// A single rpckit parameter entry.
#[derive(Clone, Debug)]
pub struct Param {
    ident: String,
    optional: bool,
    ts_ident: String,
}

impl View for Param {
    type V = ParamView;

    closed spec fn view(&self) -> ParamView {
        ParamView { ident: self.ident@, optional: self.optional, ts_ident: self.ts_ident@ }
    }
}

impl Param {
    /// Create a required parameter.
    pub fn new(ident: &str, ts_ident: &str) -> (r: Self)
        ensures
            r@ == (ParamView { ident: ident@, optional: false, ts_ident: ts_ident@ }),
    {
        Self { ident: ident.to_string(), optional: false, ts_ident: ts_ident.to_string() }
    }

    /// Mark this parameter as optional.
    pub fn optional(self) -> (r: Self)
        ensures
            r@ == (ParamView { optional: true, ..self@ }),
    {
        let mut s = self;
        s.optional = true;
        s
    }

    /// `ident?: type`, as inside a tuple.
    pub fn render_array(&self) -> (r: String)
        ensures
            r@ == array_param_text(self@),
    {
        let mut rendered = self.ident.clone();
        if self.optional {
            push_char(&mut rendered, '?');
        }
        rendered.append(": ");
        rendered.append(self.ts_ident.as_str());
        assert(rendered@ =~= array_param_text(self@));
        rendered
    }

    /// `key?: type`, as inside an object type.
    pub fn render_map(&self) -> (r: String)
        ensures
            r@ == map_param_text(self@),
    {
        let mut rendered = ts_property_name(self.ident.as_str());
        if self.optional {
            push_char(&mut rendered, '?');
        }
        rendered.append(": ");
        rendered.append(self.ts_ident.as_str());
        assert(rendered@ =~= map_param_text(self@));
        rendered
    }
}

// ---------------------------------------------------------------------------
// Method

/// A single rpckit schema entry.
#[derive(Clone, Debug)]
pub struct Method {
    name: String,
    params: Vec<Param>,
    param_kind: ParamKind,
    return_ts_ident: String,
}

/// The abstract values of a vector of parameters.
pub open spec fn param_views(params: Seq<Param>) -> Seq<ParamView> {
    params.map_values(|p: Param| p@)
}

impl View for Method {
    type V = MethodView;

    closed spec fn view(&self) -> MethodView {
        MethodView {
            name: self.name@,
            params: param_views(self.params@),
            param_kind: self.param_kind,
            return_ts_ident: self.return_ts_ident@,
        }
    }
}

impl Method {
    /// Create a new schema entry with array-style params by default.
    pub fn new(name: &str, return_ts_ident: &str) -> (r: Self)
        ensures
            r@ == (MethodView {
                name: name@,
                params: Seq::empty(),
                param_kind: ParamKind::Array,
                return_ts_ident: return_ts_ident@,
            }),
    {
        let r = Self {
            name: name.to_string(),
            params: Vec::new(),
            param_kind: ParamKind::Array,
            return_ts_ident: return_ts_ident.to_string(),
        };
        assert(param_views(r.params@) =~= Seq::empty());
        r
    }

    /// Set the parameter encoding mode.
    pub fn with_param_kind(self, param_kind: ParamKind) -> (r: Self)
        ensures
            r@ == (MethodView { param_kind, ..self@ }),
    {
        let mut s = self;
        s.param_kind = param_kind;
        s
    }

    /// Append one parameter.
    pub fn param(self, param: Param) -> (r: Self)
        ensures
            r@ == (MethodView { params: self@.params.push(param@), ..self@ }),
    {
        let mut s = self;
        s.params.push(param);
        assert(param_views(s.params@) =~= param_views(self.params@).push(param@));
        s
    }

    /// The `params` type: a tuple or an object type, by the encoding mode.
    pub fn render_params(&self) -> (r: String)
        ensures
            r@ == params_text(self@.params, self@.param_kind),
    {
        let n = self.params.len();
        let mut parts: Vec<String> = Vec::new();
        let mut i: usize = 0;
        let is_array = match self.param_kind {
            ParamKind::Array => true,
            ParamKind::Object => false,
        };
        while i < n
            invariant
                n == self.params.len(),
                i <= n,
                parts@.len() == i,
                is_array == (self.param_kind == ParamKind::Array),
                forall|j: int|
                    0 <= j < i ==> (#[trigger] parts@[j])@ == (if is_array {
                        array_param_text(self.params@[j]@)
                    } else {
                        map_param_text(self.params@[j]@)
                    }),
            decreases n - i,
        {
            let part = if is_array {
                self.params[i].render_array()
            } else {
                self.params[i].render_map()
            };
            parts.push(part);
            i = i + 1;
        }
        let ghost views = param_views(self.params@);
        if is_array {
            let joined = join_strings(&parts, ", ");
            assert(texts(parts@) =~= views.map_values(|p: ParamView| array_param_text(p)));
            let mut r = String::new();
            r.append("[");
            r.append(joined.as_str());
            r.append("]");
            r
        } else {
            let joined = join_strings(&parts, "; ");
            assert(texts(parts@) =~= views.map_values(|p: ParamView| map_param_text(p)));
            let mut r = String::new();
            r.append("{ ");
            r.append(joined.as_str());
            r.append(" }");
            r
        }
    }

    /// The entry as TypeScript: `{ method: 'name'; params: ...; return: ... }`.
    pub fn to_string(&self) -> (r: String)
        ensures
            r@ == method_text(self@),
    {
        let params = self.render_params();
        let mut r = String::new();
        r.append("{ method: '");
        r.append(self.name.as_str());
        r.append("'; params: ");
        r.append(params.as_str());
        r.append("; return: ");
        r.append(self.return_ts_ident.as_str());
        r.append(" }");
        r
    }
}

// ---------------------------------------------------------------------------
// Schema

/// In-memory rpckit schema builder used by the generated macro output.
#[derive(Clone, Debug)]
pub struct Schema {
    requests: Vec<Method>,
    subscriptions: Vec<Method>,
}

/// The abstract values of a vector of methods.
pub open spec fn method_views(methods: Seq<Method>) -> Seq<MethodView> {
    methods.map_values(|m: Method| m@)
}

impl View for Schema {
    type V = SchemaView;

    closed spec fn view(&self) -> SchemaView {
        SchemaView {
            requests: method_views(self.requests@),
            subscriptions: method_views(self.subscriptions@),
        }
    }
}

impl Default for Schema {
    fn default() -> (r: Self)
        ensures
            r@ == empty_schema(),
    {
        Self::new()
    }
}

impl Schema {
    /// Create an empty schema.
    pub fn new() -> (r: Self)
        ensures
            r@ == empty_schema(),
    {
        let r = Self { requests: Vec::new(), subscriptions: Vec::new() };
        assert(method_views(r.requests@) =~= Seq::empty());
        assert(method_views(r.subscriptions@) =~= Seq::empty());
        r
    }

    /// Append a request entry.
    pub fn request(self, method: Method) -> (r: Self)
        ensures
            r@ == (SchemaView { requests: self@.requests.push(method@), ..self@ }),
    {
        let mut s = self;
        s.requests.push(method);
        assert(method_views(s.requests@) =~= method_views(self.requests@).push(method@));
        s
    }

    /// Append a subscription entry.
    pub fn subscription(self, subscription: Method) -> (r: Self)
        ensures
            r@ == (SchemaView { subscriptions: self@.subscriptions.push(subscription@), ..self@ }),
    {
        let mut s = self;
        s.subscriptions.push(subscription);
        assert(method_views(s.subscriptions@) =~= method_views(self.subscriptions@).push(
            subscription@,
        ));
        s
    }

    /// Merge two schemas together: the entries of `self`, then those of
    /// `other`.
    pub fn merge(self, other: Self) -> (r: Self)
        ensures
            r@ == merged(self@, other@),
    {
        let mut s = self;
        let mut o = other;
        s.requests.append(&mut o.requests);
        s.subscriptions.append(&mut o.subscriptions);
        assert(method_views(s.requests@) =~= method_views(self.requests@) + method_views(
            other.requests@,
        ));
        assert(method_views(s.subscriptions@) =~= method_views(self.subscriptions@) + method_views(
            other.subscriptions@,
        ));
        s
    }

    /// Render the schema body as an inline TypeScript object.
    pub fn render_inline(&self) -> (r: String)
        ensures
            r@ == inline_text(self@),
    {
        let requests = self.render_entries(self.requests.as_slice(), 2);
        let subscriptions = self.render_entries(self.subscriptions.as_slice(), 2);
        let mut r = String::new();
        r.append("{\n  requests: ");
        r.append(requests.as_str());
        r.append(";\n  subscriptions: ");
        r.append(subscriptions.as_str());
        r.append(";\n}");
        r
    }

    /// Render `type <ident> = ...`.
    pub fn render_type_alias(&self, ident: &str) -> (r: String)
        ensures
            r@ == type_alias_text(self@, ident@),
    {
        let inline = self.render_inline();
        let mut r = String::new();
        r.append("type ");
        r.append(ident);
        r.append(" = ");
        r.append(inline.as_str());
        r.append(";");
        r
    }

    /// The schema as TypeScript: the same text as [`Schema::render_inline`].
    pub fn to_string(&self) -> (r: String)
        ensures
            r@ == inline_text(self@),
    {
        self.render_inline()
    }

    /// An entry list, one entry per line, closed at `indent`.
    pub fn render_entries(&self, entries: &[Method], indent: usize) -> (r: String)
        requires
            indent + 2 <= usize::MAX,
        ensures
            r@ == entries_text(method_views(entries@), indent as nat),
    {
        if entries.len() == 0 {
            return "[]".to_string();
        }
        let padding = repeat_spaces(indent);
        let inner_padding = repeat_spaces(indent + 2);
        let n = entries.len();
        let mut lines: Vec<String> = Vec::new();
        let mut i: usize = 0;
        while i < n
            invariant
                n == entries@.len(),
                i <= n,
                lines@.len() == i,
                inner_padding@ == spaces((indent + 2) as nat),
                forall|j: int|
                    0 <= j < i ==> (#[trigger] lines@[j])@ == entry_line(
                        entries@[j]@,
                        indent as nat,
                    ),
            decreases n - i,
        {
            let mut line = inner_padding.clone();
            let entry = entries[i].to_string();
            line.append(entry.as_str());
            line.append(",");
            lines.push(line);
            i = i + 1;
        }
        let rendered_entries = join_strings(&lines, "\n");
        assert(texts(lines@) =~= method_views(entries@).map_values(
            |m: MethodView| entry_line(m, indent as nat),
        ));
        let mut r = String::new();
        r.append("[\n");
        r.append(rendered_entries.as_str());
        r.append("\n");
        r.append(padding.as_str());
        r.append("]");
        r
    }
}

// ---------------------------------------------------------------------------
// Equality: two values are equal when their abstract values are.

impl PartialEq for Param {
    fn eq(&self, other: &Self) -> (r: bool) {
        self.ident == other.ident && self.optional == other.optional && self.ts_ident
            == other.ts_ident
    }
}

impl PartialEqSpecImpl for Param {
    open spec fn obeys_eq_spec() -> bool {
        true
    }

    open spec fn eq_spec(&self, other: &Self) -> bool {
        self@ == other@
    }
}

impl Eq for Param {
}

/// Element-wise equality of two parameter lists.
fn params_eq(a: &Vec<Param>, b: &Vec<Param>) -> (r: bool)
    ensures
        r == (param_views(a@) == param_views(b@)),
{
    if a.len() != b.len() {
        assert(param_views(a@).len() != param_views(b@).len());
        return false;
    }
    let n = a.len();
    let mut i: usize = 0;
    while i < n
        invariant
            n == a.len(),
            n == b.len(),
            i <= n,
            forall|j: int| 0 <= j < i ==> a@[j]@ == b@[j]@,
        decreases n - i,
    {
        if !(a[i] == b[i]) {
            assert(param_views(a@)[i as int] != param_views(b@)[i as int]);
            return false;
        }
        i = i + 1;
    }
    assert(param_views(a@) =~= param_views(b@));
    true
}

impl PartialEq for Method {
    fn eq(&self, other: &Self) -> (r: bool) {
        self.name == other.name && params_eq(&self.params, &other.params) && self.param_kind
            == other.param_kind && self.return_ts_ident == other.return_ts_ident
    }
}

impl PartialEqSpecImpl for Method {
    open spec fn obeys_eq_spec() -> bool {
        true
    }

    open spec fn eq_spec(&self, other: &Self) -> bool {
        self@ == other@
    }
}

impl Eq for Method {
}

/// Element-wise equality of two method lists.
fn methods_eq(a: &Vec<Method>, b: &Vec<Method>) -> (r: bool)
    ensures
        r == (method_views(a@) == method_views(b@)),
{
    if a.len() != b.len() {
        assert(method_views(a@).len() != method_views(b@).len());
        return false;
    }
    let n = a.len();
    let mut i: usize = 0;
    while i < n
        invariant
            n == a.len(),
            n == b.len(),
            i <= n,
            forall|j: int| 0 <= j < i ==> a@[j]@ == b@[j]@,
        decreases n - i,
    {
        if !(a[i] == b[i]) {
            assert(method_views(a@)[i as int] != method_views(b@)[i as int]);
            return false;
        }
        i = i + 1;
    }
    assert(method_views(a@) =~= method_views(b@));
    true
}

impl PartialEq for Schema {
    fn eq(&self, other: &Self) -> (r: bool) {
        methods_eq(&self.requests, &other.requests) && methods_eq(
            &self.subscriptions,
            &other.subscriptions,
        )
    }
}

impl PartialEqSpecImpl for Schema {
    open spec fn obeys_eq_spec() -> bool {
        true
    }

    open spec fn eq_spec(&self, other: &Self) -> bool {
        self@ == other@
    }
}

impl Eq for Schema {
}

// ---------------------------------------------------------------------------
// Laws

/// Merging with an empty schema, on either side, leaves a schema unchanged.
pub proof fn law_merge_empty(s: SchemaView)
    ensures
        merged(empty_schema(), s) == s,
        merged(s, empty_schema()) == s,
{
    assert(merged(empty_schema(), s).requests =~= s.requests);
    assert(merged(empty_schema(), s).subscriptions =~= s.subscriptions);
    assert(merged(s, empty_schema()).requests =~= s.requests);
    assert(merged(s, empty_schema()).subscriptions =~= s.subscriptions);
}

/// Merging is associative.
pub proof fn law_merge_associative(a: SchemaView, b: SchemaView, c: SchemaView)
    ensures
        merged(merged(a, b), c) == merged(a, merged(b, c)),
{
    assert(merged(merged(a, b), c).requests =~= merged(a, merged(b, c)).requests);
    assert(merged(merged(a, b), c).subscriptions =~= merged(a, merged(b, c)).subscriptions);
}

/// The entry lines of two non-empty lists laid one after the other are the
/// lines of the first list, a newline, then the lines of the second: a
/// merged schema renders the entries of its first part before those of its
/// second.
pub proof fn law_entry_lines_concat(a: Seq<MethodView>, b: Seq<MethodView>, indent: nat)
    requires
        a.len() > 0,
        b.len() > 0,
    ensures
        entry_lines(a + b, indent) == entry_lines(a, indent) + "\n"@ + entry_lines(b, indent),
{
    let f = |m: MethodView| entry_line(m, indent);
    assert((a + b).map_values(f) =~= a.map_values(f) + b.map_values(f));
    lemma_join_concat(a.map_values(f), b.map_values(f), "\n"@);
}

/// Appending a request to a schema that has requests adds exactly one line,
/// the new entry's, at the end of the rendered request list.
pub proof fn law_request_adds_last_line(s: SchemaView, m: MethodView)
    requires
        s.requests.len() > 0,
    ensures
        entry_lines(s.requests.push(m), 2) == entry_lines(s.requests, 2) + "\n"@ + entry_line(m, 2),
{
    let f = |e: MethodView| entry_line(e, 2);
    assert(s.requests.push(m).map_values(f) =~= s.requests.map_values(f).push(entry_line(m, 2)));
    lemma_join_push(s.requests.map_values(f), "\n"@, entry_line(m, 2));
}

/// The `params` text of a method without parameters is `[]` for a tuple and
/// `{  }` for an object type; with one parameter it is that parameter's
/// text between the brackets.
pub proof fn law_params_first(p: ParamView)
    ensures
        params_text(Seq::empty(), ParamKind::Array) == "[]"@,
        params_text(Seq::empty(), ParamKind::Object) == "{  }"@,
        params_text(seq![p], ParamKind::Array) == "["@ + array_param_text(p) + "]"@,
        params_text(seq![p], ParamKind::Object) == "{ "@ + map_param_text(p) + " }"@,
{
    reveal_strlit("[");
    reveal_strlit("]");
    reveal_strlit("[]");
    reveal_strlit("{ ");
    reveal_strlit(" }");
    reveal_strlit("{  }");
    let e: Seq<ParamView> = Seq::empty();
    assert(e.map_values(|q: ParamView| array_param_text(q)) =~= Seq::empty());
    assert(e.map_values(|q: ParamView| map_param_text(q)) =~= Seq::empty());
    assert("["@ + Seq::<char>::empty() + "]"@ =~= "[]"@);
    assert("{ "@ + Seq::<char>::empty() + " }"@ =~= "{  }"@);
    assert(seq![p].map_values(|q: ParamView| array_param_text(q)) =~= seq![array_param_text(p)]);
    assert(seq![p].map_values(|q: ParamView| map_param_text(q)) =~= seq![map_param_text(p)]);
}

/// Appending a parameter to a method that has parameters puts exactly the
/// kind's separator (`, ` in a tuple, `; ` in an object type) and the new
/// parameter's text before the closing bracket; nothing before it changes.
pub proof fn law_params_push(params: Seq<ParamView>, p: ParamView)
    requires
        params.len() > 0,
    ensures
        params_text(params.push(p), ParamKind::Array) == params_text(params, ParamKind::Array).drop_last()
            + ", "@ + array_param_text(p) + "]"@,
        params_text(params.push(p), ParamKind::Object) == params_text(
            params,
            ParamKind::Object,
        ).take(params_text(params, ParamKind::Object).len() - 2) + "; "@ + map_param_text(p)
            + " }"@,
{
    reveal_strlit("]");
    reveal_strlit(" }");
    let fa = |q: ParamView| array_param_text(q);
    let fm = |q: ParamView| map_param_text(q);
    let ja = join(params.map_values(fa), ", "@);
    let jm = join(params.map_values(fm), "; "@);
    assert(params.push(p).map_values(fa) =~= params.map_values(fa).push(array_param_text(p)));
    assert(params.push(p).map_values(fm) =~= params.map_values(fm).push(map_param_text(p)));
    lemma_join_push(params.map_values(fa), ", "@, array_param_text(p));
    lemma_join_push(params.map_values(fm), "; "@, map_param_text(p));
    assert(("["@ + ja + "]"@).drop_last() =~= "["@ + ja);
    let t = "{ "@ + jm + " }"@;
    assert(t.take(t.len() - 2) =~= "{ "@ + jm);
    assert("["@ + (ja + ", "@ + array_param_text(p)) + "]"@ =~= "["@ + ja + ", "@
        + array_param_text(p) + "]"@);
    assert("{ "@ + (jm + "; "@ + map_param_text(p)) + " }"@ =~= "{ "@ + jm + "; "@
        + map_param_text(p) + " }"@);
}

/// An empty entry list is `[]`; a list of one entry puts it on its own line,
/// indented two spaces more than the list and followed by a comma, with the
/// closing bracket on the next line at the list's indent.
pub proof fn law_entries_first(m: MethodView, indent: nat)
    ensures
        entries_text(Seq::empty(), indent) == "[]"@,
        entries_text(seq![m], indent) == "[\n"@ + spaces(indent + 2) + method_text(m) + ","@ + "\n"@
            + spaces(indent) + "]"@,
{
    let f = |e: MethodView| entry_line(e, indent);
    assert(seq![m].map_values(f) =~= seq![entry_line(m, indent)]);
}

/// Appending an entry to a non-empty list adds exactly one line, that
/// entry's (indented, followed by a comma), after the last line and before
/// the closing bracket; nothing else changes.
pub proof fn law_entries_push(e: Seq<MethodView>, m: MethodView, indent: nat)
    requires
        e.len() > 0,
    ensures
        entries_text(e.push(m), indent) == entries_text(e, indent).take(
            entries_text(e, indent).len() - indent - 2,
        ) + "\n"@ + spaces(indent + 2) + method_text(m) + ","@ + "\n"@ + spaces(indent) + "]"@,
{
    reveal_strlit("\n");
    reveal_strlit("]");
    let f = |x: MethodView| entry_line(x, indent);
    assert(e.push(m).map_values(f) =~= e.map_values(f).push(entry_line(m, indent)));
    lemma_join_push(e.map_values(f), "\n"@, entry_line(m, indent));
    let head = "[\n"@ + entry_lines(e, indent);
    let t = head + "\n"@ + spaces(indent) + "]"@;
    assert(t.take(t.len() - indent - 2) =~= head);
    assert("[\n"@ + (entry_lines(e, indent) + "\n"@ + entry_line(m, indent)) + "\n"@ + spaces(
        indent,
    ) + "]"@ =~= head + "\n"@ + spaces(indent + 2) + method_text(m) + ","@ + "\n"@ + spaces(indent)
        + "]"@);
}

/// An entry shows its quoted name, its `params` type and its return type,
/// in that order, separated by `; `, between `{ ` and ` }`.
pub proof fn law_method_layout(m: MethodView)
    ensures
        method_text(m) == "{ method: '"@ + m.name + "'; params: "@ + params_text(m.params, m.param_kind)
            + "; return: "@ + m.return_ts_ident + " }"@,
{
}

/// The inline schema lists the requests, then the subscriptions, each list
/// indented by two; the type alias wraps exactly the inline text.
pub proof fn law_schema_layout(s: SchemaView, ident: Seq<char>)
    ensures
        inline_text(s) == "{\n  requests: "@ + entries_text(s.requests, 2) + ";\n  subscriptions: "@
            + entries_text(s.subscriptions, 2) + ";\n}"@,
        type_alias_text(s, ident) == "type "@ + ident + " = "@ + inline_text(s) + ";"@,
{
}

/// Merging keeps every entry of both schemas: first all of `a`'s, in their
/// order, then all of `b`'s, in theirs, for requests and subscriptions
/// alike.
pub proof fn law_merge_order(a: SchemaView, b: SchemaView)
    ensures
        merged(a, b).requests.len() == a.requests.len() + b.requests.len(),
        forall|i: int| 0 <= i < a.requests.len() ==> merged(a, b).requests[i] == a.requests[i],
        forall|j: int|
            0 <= j < b.requests.len() ==> merged(a, b).requests[a.requests.len() + j] == b.requests[j],
        merged(a, b).subscriptions.len() == a.subscriptions.len() + b.subscriptions.len(),
        forall|i: int|
            0 <= i < a.subscriptions.len() ==> merged(a, b).subscriptions[i] == a.subscriptions[i],
        forall|j: int|
            0 <= j < b.subscriptions.len() ==> merged(a, b).subscriptions[a.subscriptions.len() + j]
                == b.subscriptions[j],
{
}

/// A property key is the name itself when the name is an identifier, and
/// the name between single quotes otherwise.
pub proof fn law_property_name(name: Seq<char>)
    ensures
        is_identifier(name) ==> property_name(name) == name,
        !is_identifier(name) ==> property_name(name) == seq!['\''] + name + seq!['\''],
        is_identifier(name) <==> (name.len() > 0 && (name[0] == '_' || name[0] == '$' || ('a'
            <= name[0] && name[0] <= 'z') || ('A' <= name[0] && name[0] <= 'Z')) && forall|i: int|
            1 <= i < name.len() ==> (name[i] == '_' || name[i] == '$' || ('a' <= name[i]
                && name[i] <= 'z') || ('A' <= name[i] && name[i] <= 'Z') || ('0' <= name[i]
                && name[i] <= '9'))),
{
}

/// A parameter whose name is an identifier renders the same in an object
/// type as in a tuple.
pub proof fn law_map_matches_array_for_identifiers(p: ParamView)
    requires
        is_identifier(p.ident),
    ensures
        map_param_text(p) == array_param_text(p),
{
}

/// An optional parameter is rendered with `?` right after its name, in a
/// tuple and in an object type alike; a required one without it.
pub proof fn law_optional_mark(ident: Seq<char>, ts_ident: Seq<char>)
    ensures
        array_param_text(ParamView { ident, optional: true, ts_ident }) == ident + "?: "@ + ts_ident,
        array_param_text(ParamView { ident, optional: false, ts_ident }) == ident + ": "@ + ts_ident,
        map_param_text(ParamView { ident, optional: true, ts_ident }) == property_name(ident)
            + "?: "@ + ts_ident,
        map_param_text(ParamView { ident, optional: false, ts_ident }) == property_name(ident)
            + ": "@ + ts_ident,
{
    reveal_strlit("?: ");
    reveal_strlit(": ");
    assert(seq!['?'] + ": "@ =~= "?: "@);
    assert(ident + seq!['?'] + ": "@ + ts_ident =~= ident + "?: "@ + ts_ident);
    assert(property_name(ident) + seq!['?'] + ": "@ + ts_ident =~= property_name(ident) + "?: "@
        + ts_ident);
    assert(ident + Seq::<char>::empty() + ": "@ + ts_ident =~= ident + ": "@ + ts_ident);
    assert(property_name(ident) + Seq::<char>::empty() + ": "@ + ts_ident =~= property_name(ident)
        + ": "@ + ts_ident);
}

} // verus!
