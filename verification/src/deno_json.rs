//! Reading a `deno.json` configuration: the jsr and npm packages it depends
//! on, and the warnings its TypeScript options call for.
use crate::text::same_text;
use deno_semver::jsr::JsrPackageReqReference;
use deno_semver::npm::NpmPackageReqReference;
use vstd::prelude::*;

verus! {

/// A JSON value, as far as configuration reading looks into it: numbers
/// are never read, so they carry no value here.
pub enum JsonValue {
    Null,
    Bool(bool),
    Number,
    String(String),
    Array(Vec<JsonValue>),
    /// The entries of an object, each key once.
    Object(Vec<(String, JsonValue)>),
}

/// The parts of a `deno.json` file that name dependencies.
pub struct ConfigJson {
    pub imports: Option<JsonValue>,
    pub scopes: Option<JsonValue>,
    pub compiler_options: Option<JsonValue>,
}

/// The registry a package comes from.
#[derive(Debug, Copy, Clone, PartialEq, Eq, Structural)]
pub enum PackageKind {
    Jsr,
    Npm,
}

/// A package a configuration depends on: its registry, its name, and its
/// version constraint as written and in normal form. Two constraints are the
/// same constraint when their normal forms agree.
pub struct DepPackageReq {
    pub kind: PackageKind,
    pub name: String,
    pub version_req: String,
    pub version_req_normalized: String,
}

pub struct DepPackageReqView {
    pub kind: PackageKind,
    pub name: Seq<char>,
    pub version_req: Seq<char>,
    pub version_req_normalized: Seq<char>,
}

impl View for DepPackageReq {
    type V = DepPackageReqView;

    open spec fn view(&self) -> DepPackageReqView {
        DepPackageReqView {
            kind: self.kind,
            name: self.name@,
            version_req: self.version_req@,
            version_req_normalized: self.version_req_normalized@,
        }
    }
}

/// What identifies a dependency in a set of them: registry, name and the
/// normal form of the version constraint.
pub open spec fn dep_key(d: DepPackageReqView) -> (PackageKind, Seq<char>, Seq<char>) {
    (d.kind, d.name, d.version_req_normalized)
}

/// The package request that a `jsr:` specifier names, as `deno_semver`
/// parses it: name, version constraint as written, and in normal form.
pub uninterp spec fn jsr_req_reference(specifier: Seq<char>) -> Option<(Seq<char>, Seq<char>, Seq<char>)>;

/// The package request that an `npm:` specifier names, as `deno_semver`
/// parses it: name, version constraint as written, and in normal form.
pub uninterp spec fn npm_req_reference(specifier: Seq<char>) -> Option<(Seq<char>, Seq<char>, Seq<char>)>;

/// A parsed package request: name, constraint as written, normal form.
struct ParsedReq {
    name: String,
    version_req: String,
    version_req_normalized: String,
}

/// `JsrPackageReqReference::from_str` of `deno_semver`, keeping the request
/// without its sub path; its result is named `jsr_req_reference`.
#[verifier::external_body]
fn parse_jsr_req(specifier: &str) -> (r: Option<ParsedReq>)
    ensures
        r matches Some(p) ==> jsr_req_reference(specifier@) == Some(
            (p.name@, p.version_req@, p.version_req_normalized@),
        ),
        r is None <==> jsr_req_reference(specifier@) is None,
{
    match JsrPackageReqReference::from_str(specifier) {
        Ok(reference) => {
            let req = reference.into_inner().req;
            Some(ParsedReq {
                version_req: req.version_req.to_string(),
                version_req_normalized: req.version_req.to_string_normalized(),
                name: req.name,
            })
        },
        Err(_) => None,
    }
}

/// `NpmPackageReqReference::from_str` of `deno_semver`, keeping the request
/// without its sub path; its result is named `npm_req_reference`.
#[verifier::external_body]
fn parse_npm_req(specifier: &str) -> (r: Option<ParsedReq>)
    ensures
        r matches Some(p) ==> npm_req_reference(specifier@) == Some(
            (p.name@, p.version_req@, p.version_req_normalized@),
        ),
        r is None <==> npm_req_reference(specifier@) is None,
{
    match NpmPackageReqReference::from_str(specifier) {
        Ok(reference) => {
            let req = reference.into_inner().req;
            Some(ParsedReq {
                version_req: req.version_req.to_string(),
                version_req_normalized: req.version_req.to_string_normalized(),
                name: req.name,
            })
        },
        Err(_) => None,
    }
}

/// The dependency a specifier names: a `jsr:` one first, else an `npm:` one.
pub open spec fn dep_req_of(value: Seq<char>) -> Option<DepPackageReqView> {
    match jsr_req_reference(value) {
        Some((name, version_req, version_req_normalized)) => Some(
            DepPackageReqView { kind: PackageKind::Jsr, name, version_req, version_req_normalized },
        ),
        None => match npm_req_reference(value) {
            Some((name, version_req, version_req_normalized)) => Some(
                DepPackageReqView { kind: PackageKind::Npm, name, version_req, version_req_normalized },
            ),
            None => None,
        },
    }
}

/// The dependency a specifier names, if it is a `jsr:` or `npm:` one.
pub fn value_to_dep_req(value: &str) -> (r: Option<DepPackageReq>)
    ensures
        r matches Some(d) ==> dep_req_of(value@) == Some(d@),
        r is None <==> dep_req_of(value@) is None,
{
    match parse_jsr_req(value) {
        Some(p) => Some(DepPackageReq {
            kind: PackageKind::Jsr,
            name: p.name,
            version_req: p.version_req,
            version_req_normalized: p.version_req_normalized,
        }),
        None => match parse_npm_req(value) {
            Some(p) => Some(DepPackageReq {
                kind: PackageKind::Npm,
                name: p.name,
                version_req: p.version_req,
                version_req_normalized: p.version_req_normalized,
            }),
            None => None,
        },
    }
}

/// The string values among an object's entries, in order.
pub open spec fn string_values(entries: Seq<(String, JsonValue)>) -> Seq<Seq<char>>
    decreases entries.len(),
{
    if entries.len() == 0 {
        Seq::empty()
    } else {
        let rest = string_values(entries.drop_last());
        match entries.last().1 {
            JsonValue::String(s) => rest.push(s@),
            _ => rest,
        }
    }
}

/// The string values of an object; nothing for anything else.
pub open spec fn imports_strings(value: Option<JsonValue>) -> Seq<Seq<char>> {
    match value {
        Some(JsonValue::Object(entries)) => string_values(entries@),
        _ => Seq::empty(),
    }
}

/// The string values of each object among an object's entries, in order.
pub open spec fn nested_string_values(entries: Seq<(String, JsonValue)>) -> Seq<Seq<char>>
    decreases entries.len(),
{
    if entries.len() == 0 {
        Seq::empty()
    } else {
        nested_string_values(entries.drop_last()) + imports_strings(Some(entries.last().1))
    }
}

/// The string values of each object inside an object; nothing otherwise.
pub open spec fn scope_strings(value: Option<JsonValue>) -> Seq<Seq<char>> {
    match value {
        Some(JsonValue::Object(entries)) => nested_string_values(entries@),
        _ => Seq::empty(),
    }
}

/// The string values of an import map's entries.
pub fn imports_values(value: Option<&JsonValue>) -> (r: Vec<String>)
    ensures
        r.deep_view() == imports_strings(match value { Some(v) => Some(*v), None => None }),
{
    let entries = match value {
        Some(JsonValue::Object(entries)) => entries,
        _ => {
            let r: Vec<String> = Vec::new();
            assert(r.deep_view() =~= Seq::<Seq<char>>::empty());
            return r;
        },
    };
    let mut items: Vec<String> = Vec::new();
    let mut i: usize = 0;
    while i < entries.len()
        invariant
            i <= entries@.len(),
            items.deep_view() == string_values(entries@.take(i as int)),
        decreases entries@.len() - i,
    {
        let ghost before = items.deep_view();
        assert(entries@.take(i + 1).drop_last() =~= entries@.take(i as int));
        match &entries[i].1 {
            JsonValue::String(s) => {
                items.push(s.clone());
                assert(items.deep_view() =~= before.push(s@));
            },
            _ => {},
        }
        i = i + 1;
    }
    assert(entries@.take(entries@.len() as int) =~= entries@);
    items
}

/// The string values of every scope of an import map.
pub fn scope_values(value: Option<&JsonValue>) -> (r: Vec<String>)
    ensures
        r.deep_view() == scope_strings(match value { Some(v) => Some(*v), None => None }),
{
    let entries = match value {
        Some(JsonValue::Object(entries)) => entries,
        _ => {
            let r: Vec<String> = Vec::new();
            assert(r.deep_view() =~= Seq::<Seq<char>>::empty());
            return r;
        },
    };
    let mut items: Vec<String> = Vec::new();
    let mut i: usize = 0;
    while i < entries.len()
        invariant
            i <= entries@.len(),
            items.deep_view() == nested_string_values(entries@.take(i as int)),
        decreases entries@.len() - i,
    {
        let ghost before = items.deep_view();
        assert(entries@.take(i + 1).drop_last() =~= entries@.take(i as int));
        let mut inner = imports_values(Some(&entries[i].1));
        items.append(&mut inner);
        assert(items.deep_view() =~= before + imports_strings(Some(entries@[i as int].1)));
        i = i + 1;
    }
    assert(entries@.take(entries@.len() as int) =~= entries@);
    items
}

/// Whether a dependency with this key is among `deps`.
pub open spec fn has_key(deps: Seq<DepPackageReqView>, key: (PackageKind, Seq<char>, Seq<char>)) -> bool {
    exists|i: int| 0 <= i < deps.len() && dep_key(#[trigger] deps[i]) == key
}

/// The set of dependencies that the specifiers name, built by inserting
/// them in order: a dependency equal to one already present is not added.
pub open spec fn insert_deps(acc: Seq<DepPackageReqView>, values: Seq<Seq<char>>) -> Seq<DepPackageReqView>
    decreases values.len(),
{
    if values.len() == 0 {
        acc
    } else {
        let before = insert_deps(acc, values.drop_last());
        match dep_req_of(values.last()) {
            Some(d) => if has_key(before, dep_key(d)) {
                before
            } else {
                before.push(d)
            },
            None => before,
        }
    }
}

/// Adds a dependency unless an equal one is already there.
fn insert_dep(deps: &mut Vec<DepPackageReq>, d: DepPackageReq)
    ensures
        final(deps)@.map_values(|x: DepPackageReq| x@) == if has_key(
            old(deps)@.map_values(|x: DepPackageReq| x@),
            dep_key(d@),
        ) {
            old(deps)@.map_values(|x: DepPackageReq| x@)
        } else {
            old(deps)@.map_values(|x: DepPackageReq| x@).push(d@)
        },
{
    let ghost old_view = deps@.map_values(|x: DepPackageReq| x@);
    let mut i: usize = 0;
    while i < deps.len()
        invariant
            i <= deps@.len(),
            old_view == deps@.map_values(|x: DepPackageReq| x@),
            forall|k: int| 0 <= k < i ==> dep_key(#[trigger] old_view[k]) != dep_key(d@),
        decreases deps@.len() - i,
    {
        let e = &deps[i];
        if e.kind == d.kind && same_text(e.name.as_str(), d.name.as_str()) && same_text(
            e.version_req_normalized.as_str(),
            d.version_req_normalized.as_str(),
        ) {
            assert(dep_key(old_view[i as int]) == dep_key(d@));
            return;
        }
        i = i + 1;
    }
    let ghost dv = d@;
    deps.push(d);
    assert(deps@.map_values(|x: DepPackageReq| x@) =~= old_view.push(dv));
}

/// The dependencies that the specifiers name, each once.
pub fn values_to_set(values: &Vec<String>) -> (r: Vec<DepPackageReq>)
    ensures
        r@.map_values(|x: DepPackageReq| x@) == insert_deps(Seq::empty(), values.deep_view()),
{
    let mut entries: Vec<DepPackageReq> = Vec::new();
    let mut i: usize = 0;
    assert(entries@.map_values(|x: DepPackageReq| x@) =~= Seq::<DepPackageReqView>::empty());
    while i < values.len()
        invariant
            i <= values@.len(),
            entries@.map_values(|x: DepPackageReq| x@) == insert_deps(
                Seq::empty(),
                values.deep_view().take(i as int),
            ),
        decreases values@.len() - i,
    {
        assert(values.deep_view().take(i + 1).drop_last() =~= values.deep_view().take(i as int));
        assert(values.deep_view().take(i + 1).last() == values@[i as int]@);
        match value_to_dep_req(values[i].as_str()) {
            Some(dep_req) => {
                insert_dep(&mut entries, dep_req);
            },
            None => {},
        }
        i = i + 1;
    }
    assert(values.deep_view().take(values@.len() as int) =~= values.deep_view());
    entries
}

/// The value under `key` in an object's entries: the first entry with it.
pub open spec fn lookup(entries: Seq<(String, JsonValue)>, key: Seq<char>) -> Option<JsonValue>
    decreases entries.len(),
{
    if entries.len() == 0 {
        None
    } else if entries[0].0@ == key {
        Some(entries[0].1)
    } else {
        lookup(entries.drop_first(), key)
    }
}

/// Looks a key up among an object's entries.
pub fn json_get<'a>(entries: &'a Vec<(String, JsonValue)>, key: &str) -> (r: Option<&'a JsonValue>)
    ensures
        r matches Some(v) ==> lookup(entries@, key@) == Some(*v),
        r is None <==> lookup(entries@, key@) is None,
{
    let mut i: usize = 0;
    assert(entries@.skip(0) =~= entries@);
    while i < entries.len()
        invariant
            i <= entries@.len(),
            lookup(entries@, key@) == lookup(entries@.skip(i as int), key@),
        decreases entries@.len() - i,
    {
        assert(entries@.skip(i as int).drop_first() =~= entries@.skip(i + 1));
        if same_text(entries[i].0.as_str(), key) {
            return Some(&entries[i].1);
        }
        i = i + 1;
    }
    None
}

/// The string a value holds, as a sequence of at most one specifier.
pub open spec fn string_of(value: Option<JsonValue>) -> Seq<Seq<char>> {
    match value {
        Some(JsonValue::String(s)) => seq![s@],
        _ => Seq::empty(),
    }
}

/// The strings among an array's items, in order.
pub open spec fn array_strings(items: Seq<JsonValue>) -> Seq<Seq<char>>
    decreases items.len(),
{
    if items.len() == 0 {
        Seq::empty()
    } else {
        let rest = array_strings(items.drop_last());
        match items.last() {
            JsonValue::String(s) => rest.push(s@),
            _ => rest,
        }
    }
}

/// The specifiers the compiler options name: `jsxImportSource`,
/// `jsxImportSourceTypes`, then the strings of `types`.
pub open spec fn compiler_option_strings(compiler_options: Option<JsonValue>) -> Seq<Seq<char>> {
    match compiler_options {
        Some(JsonValue::Object(entries)) => {
            string_of(lookup(entries@, "jsxImportSource"@)) + string_of(
                lookup(entries@, "jsxImportSourceTypes"@),
            ) + match lookup(entries@, "types"@) {
                Some(JsonValue::Array(items)) => array_strings(items@),
                _ => Seq::empty(),
            }
        },
        _ => Seq::empty(),
    }
}

/// Every specifier in a configuration that may name a dependency, in the
/// order they are taken up.
pub open spec fn config_specifiers(config: ConfigJson) -> Seq<Seq<char>> {
    imports_strings(config.imports) + scope_strings(config.scopes) + compiler_option_strings(
        config.compiler_options,
    )
}

fn push_string(out: &mut Vec<String>, value: Option<&JsonValue>)
    ensures
        final(out).deep_view() == old(out).deep_view() + string_of(
            match value { Some(v) => Some(*v), None => None },
        ),
{
    match value {
        Some(JsonValue::String(s)) => {
            let ghost before = out.deep_view();
            out.push(s.clone());
            assert(out.deep_view() =~= before + seq![s@]);
        },
        _ => {
            assert(out.deep_view() =~= out.deep_view() + Seq::<Seq<char>>::empty());
        },
    }
}

fn push_array_strings(out: &mut Vec<String>, items: &Vec<JsonValue>)
    ensures
        final(out).deep_view() == old(out).deep_view() + array_strings(items@),
{
    let ghost start = out.deep_view();
    let mut i: usize = 0;
    assert(start + array_strings(items@.take(0)) =~= start);
    while i < items.len()
        invariant
            i <= items@.len(),
            out.deep_view() == start + array_strings(items@.take(i as int)),
        decreases items@.len() - i,
    {
        assert(items@.take(i + 1).drop_last() =~= items@.take(i as int));
        let ghost before = out.deep_view();
        match &items[i] {
            JsonValue::String(s) => {
                out.push(s.clone());
                assert(out.deep_view() =~= before.push(s@));
                assert(start + array_strings(items@.take(i + 1)) =~= (start + array_strings(items@.take(i as int))).push(s@));
            },
            _ => {},
        }
        i = i + 1;
    }
    assert(items@.take(items@.len() as int) =~= items@);
}

/// The jsr and npm packages a configuration depends on, each once: those
/// its import map and scopes name, its JSX import sources and its types.
pub fn deno_json_deps(config: &ConfigJson) -> (r: Vec<DepPackageReq>)
    ensures
        r@.map_values(|x: DepPackageReq| x@) == insert_deps(Seq::empty(), config_specifiers(*config)),
        keys_distinct(r@.map_values(|x: DepPackageReq| x@)),
        forall|s: Seq<char>|
            named_by_config(*config, s) && (#[trigger] dep_req_of(s)) is Some ==> has_key(
                r@.map_values(|x: DepPackageReq| x@),
                dep_key(dep_req_of(s).unwrap()),
            ),
        forall|i: int|
            0 <= i < r@.len() ==> named_dep(*config, #[trigger] dep_views(r@)[i]),
{
    let mut values = imports_values(config.imports.as_ref());
    let mut scoped = scope_values(config.scopes.as_ref());
    values.append(&mut scoped);
    match &config.compiler_options {
        Some(JsonValue::Object(compiler_options)) => {
            push_string(&mut values, json_get(compiler_options, "jsxImportSource"));
            push_string(&mut values, json_get(compiler_options, "jsxImportSourceTypes"));
            match json_get(compiler_options, "types") {
                Some(JsonValue::Array(types)) => {
                    push_array_strings(&mut values, types);
                },
                _ => {},
            }
        },
        _ => {},
    }
    assert(values.deep_view() =~= config_specifiers(*config));
    let r = values_to_set(&values);
    proof {
        lemma_config_deps(*config);
    }
    r
}

/// The values of dependencies.
pub open spec fn dep_views(deps: Seq<DepPackageReq>) -> Seq<DepPackageReqView> {
    deps.map_values(|x: DepPackageReq| x@)
}

/// The dependency is the one that a specifier the configuration names
/// stands for.
pub open spec fn named_dep(config: ConfigJson, d: DepPackageReqView) -> bool {
    exists|s: Seq<char>| named_by_config(config, s) && #[trigger] dep_req_of(s) == Some(d)
}

/// The dependencies of a configuration form a set of exactly the
/// dependencies its specifiers name: no two are equal, each is named by a
/// specifier where the configuration names dependencies, and every
/// dependency such a specifier names is there.
pub proof fn lemma_config_deps(config: ConfigJson)
    ensures
        ({
            let out = insert_deps(Seq::empty(), config_specifiers(config));
            &&& keys_distinct(out)
            &&& forall|s: Seq<char>|
                named_by_config(config, s) && (#[trigger] dep_req_of(s)) is Some ==> has_key(
                    out,
                    dep_key(dep_req_of(s).unwrap()),
                )
            &&& forall|i: int| 0 <= i < out.len() ==> named_dep(config, #[trigger] out[i])
        }),
{
    let values = config_specifiers(config);
    lemma_insert_deps_is_set(values);
    let out = insert_deps(Seq::empty(), values);
    assert forall|i: int| 0 <= i < out.len() implies named_dep(config, #[trigger] out[i]) by {
        let j = choose|j: int| 0 <= j < values.len() && dep_req_of(values[j]) == Some(out[i]);
        lemma_collected_is_named(config, j);
        assert(named_by_config(config, values[j]));
    }
    assert forall|s: Seq<char>|
        named_by_config(config, s) && (#[trigger] dep_req_of(s)) is Some implies has_key(
        out,
        dep_key(dep_req_of(s).unwrap()),
    ) by {
        lemma_named_is_collected(config, s);
        let j = choose|j: int| 0 <= j < values.len() && values[j] == s;
        assert(dep_req_of(values[j]) is Some);
    }
}

/// No two dependencies share a key.
pub open spec fn keys_distinct(deps: Seq<DepPackageReqView>) -> bool {
    forall|i: int, j: int| 0 <= i < j < deps.len() ==> dep_key(#[trigger] deps[i]) != dep_key(#[trigger] deps[j])
}

/// The dependencies form a set: no two are equal, each is named by one of
/// the specifiers, and every dependency a specifier names is there.
pub proof fn lemma_insert_deps_is_set(values: Seq<Seq<char>>)
    ensures
        keys_distinct(insert_deps(Seq::empty(), values)),
        forall|i: int| 0 <= i < insert_deps(Seq::empty(), values).len() ==> exists|j: int|
            0 <= j < values.len() && dep_req_of(values[j]) == Some(
                #[trigger] insert_deps(Seq::empty(), values)[i],
            ),
        forall|j: int| 0 <= j < values.len() && (#[trigger] dep_req_of(values[j])) is Some ==> has_key(
            insert_deps(Seq::empty(), values),
            dep_key(dep_req_of(values[j]).unwrap()),
        ),
    decreases values.len(),
{
    if values.len() > 0 {
        let init = values.drop_last();
        lemma_insert_deps_is_set(init);
        let before = insert_deps(Seq::empty(), init);
        let after = insert_deps(Seq::empty(), values);
        assert forall|i: int| 0 <= i < after.len() implies exists|j: int|
            0 <= j < values.len() && dep_req_of(values[j]) == Some(#[trigger] after[i]) by {
            if i < before.len() {
                let j = choose|j: int| 0 <= j < init.len() && dep_req_of(init[j]) == Some(before[i]);
                assert(values[j] == init[j]);
            } else {
                assert(values[values.len() - 1] == values.last());
            }
        }
        assert forall|j: int| 0 <= j < values.len() && (#[trigger] dep_req_of(values[j])) is Some implies has_key(
            after,
            dep_key(dep_req_of(values[j]).unwrap()),
        ) by {
            if j < init.len() {
                assert(values[j] == init[j]);
                let k = choose|k: int| 0 <= k < before.len() && dep_key(#[trigger] before[k]) == dep_key(
                    dep_req_of(init[j]).unwrap(),
                );
                assert(after[k] == before[k]);
            } else {
                assert(values[j] == values.last());
                if !has_key(before, dep_key(dep_req_of(values.last()).unwrap())) {
                    assert(after[before.len() as int] == dep_req_of(values.last()).unwrap());
                }
            }
        }
    }
}

/// The TypeScript options used for emitting, with a rendering of the
/// options that were ignored, if any.
pub struct TsConfigForEmit {
    pub ts_config: JsonValue,
    pub maybe_ignored_options: Option<String>,
}

/// A warning about the TypeScript options.
pub enum TsConfigWarning {
    /// Some options were ignored; the rendering says which.
    IgnoredOptions(String),
    /// `experimentalDecorators` is on, which is deprecated.
    ExperimentalDecoratorsDeprecated,
}

/// Whether the options turn `experimentalDecorators` on.
pub open spec fn experimental_decorators_on(ts_config: JsonValue) -> bool {
    match ts_config {
        JsonValue::Object(entries) => lookup(entries@, "experimentalDecorators"@) == Some(JsonValue::Bool(true)),
        _ => false,
    }
}

/// The warnings the TypeScript options call for, in the order to log them:
/// the ignored options, then the deprecation of `experimentalDecorators`
/// when the options turn it on.
pub fn check_warn_tsconfig(ts_config: &TsConfigForEmit) -> (r: Vec<TsConfigWarning>)
    ensures
        ({
            let n: int = if ts_config.maybe_ignored_options is Some { 1 } else { 0 };
            &&& r.len() == n + if experimental_decorators_on(ts_config.ts_config) { 1int } else { 0 }
            &&& ts_config.maybe_ignored_options matches Some(s) ==> (r[0] matches TsConfigWarning::IgnoredOptions(t) && t@ == s@)
            &&& experimental_decorators_on(ts_config.ts_config) ==> r[n] is ExperimentalDecoratorsDeprecated
        }),
{
    let mut warnings: Vec<TsConfigWarning> = Vec::new();
    match &ts_config.maybe_ignored_options {
        Some(ignored_options) => {
            warnings.push(TsConfigWarning::IgnoredOptions(ignored_options.clone()));
        },
        None => {},
    }
    let entries = match &ts_config.ts_config {
        JsonValue::Object(entries) => entries,
        _ => {
            return warnings;
        },
    };
    match json_get(entries, "experimentalDecorators") {
        Some(JsonValue::Bool(true)) => {
            warnings.push(TsConfigWarning::ExperimentalDecoratorsDeprecated);
        },
        _ => {},
    }
    warnings
}

/// The string a JSON value holds, if it is a string.
pub open spec fn json_string(v: JsonValue) -> Option<Seq<char>> {
    match v {
        JsonValue::String(x) => Some(x@),
        _ => None,
    }
}

/// The entries of a value that is an object; none for anything else.
pub open spec fn object_entries(v: Option<JsonValue>) -> Seq<(String, JsonValue)> {
    match v {
        Some(JsonValue::Object(e)) => e@,
        _ => Seq::empty(),
    }
}

/// The items of a value that is an array; none for anything else.
pub open spec fn array_items(v: Option<JsonValue>) -> Seq<JsonValue> {
    match v {
        Some(JsonValue::Array(items)) => items@,
        _ => Seq::empty(),
    }
}

/// Whether the configuration holds `s` as a specifier where dependencies
/// are named: as the value of an import, as the value of an import of a
/// scope, as `compilerOptions.jsxImportSource` or `jsxImportSourceTypes`,
/// or as an item of `compilerOptions.types`.
pub open spec fn named_by_config(config: ConfigJson, s: Seq<char>) -> bool {
    let imports = object_entries(config.imports);
    let scopes = object_entries(config.scopes);
    let options = object_entries(config.compiler_options);
    ||| exists|j: int| 0 <= j < imports.len() && json_string(#[trigger] imports[j].1) == Some(s)
    ||| exists|j: int, k: int|
        0 <= j < scopes.len() && 0 <= k < object_entries(Some(scopes[j].1)).len() && json_string(
            #[trigger] object_entries(Some(#[trigger] scopes[j].1))[k].1,
        ) == Some(s)
    ||| lookup(options, "jsxImportSource"@) matches Some(v) && json_string(v) == Some(s)
    ||| lookup(options, "jsxImportSourceTypes"@) matches Some(v) && json_string(v) == Some(s)
    ||| exists|j: int|
        0 <= j < array_items(lookup(options, "types"@)).len() && json_string(
            #[trigger] array_items(lookup(options, "types"@))[j],
        ) == Some(s)
}

proof fn lemma_string_values_has(entries: Seq<(String, JsonValue)>, j: int)
    requires
        0 <= j < entries.len(),
        json_string(entries[j].1) is Some,
    ensures
        string_values(entries).contains(json_string(entries[j].1).unwrap()),
    decreases entries.len(),
{
    let init = entries.drop_last();
    if j < entries.len() - 1 {
        assert(init[j] == entries[j]);
        lemma_string_values_has(init, j);
        let k = choose|k: int| 0 <= k < string_values(init).len() && string_values(init)[k] == json_string(entries[j].1).unwrap();
        match entries.last().1 {
            JsonValue::String(x) => {
                assert(string_values(entries)[k] == string_values(init)[k]);
            },
            _ => {},
        }
    } else {
        match entries.last().1 {
            JsonValue::String(x) => {
                let n = string_values(init).len() as int;
                assert(string_values(entries)[n] == x@);
            },
            _ => {},
        }
    }
}

proof fn lemma_nested_values_has(entries: Seq<(String, JsonValue)>, j: int, k: int)
    requires
        0 <= j < entries.len(),
        0 <= k < object_entries(Some(entries[j].1)).len(),
        json_string(object_entries(Some(entries[j].1))[k].1) is Some,
    ensures
        nested_string_values(entries).contains(json_string(object_entries(Some(entries[j].1))[k].1).unwrap()),
    decreases entries.len(),
{
    let init = entries.drop_last();
    let s = json_string(object_entries(Some(entries[j].1))[k].1).unwrap();
    let last = imports_strings(Some(entries.last().1));
    if j < entries.len() - 1 {
        assert(init[j] == entries[j]);
        lemma_nested_values_has(init, j, k);
        let i = choose|i: int| 0 <= i < nested_string_values(init).len() && nested_string_values(init)[i] == s;
        assert(nested_string_values(entries)[i] == s);
    } else {
        assert(object_entries(Some(entries[j].1)) == object_entries(Some(entries.last().1)));
        match entries.last().1 {
            JsonValue::Object(inner) => {
                lemma_string_values_has(inner@, k);
                let i = choose|i: int| 0 <= i < last.len() && last[i] == s;
                assert(nested_string_values(entries)[nested_string_values(init).len() + i] == s);
            },
            _ => {},
        }
    }
}

proof fn lemma_array_strings_has(items: Seq<JsonValue>, j: int)
    requires
        0 <= j < items.len(),
        json_string(items[j]) is Some,
    ensures
        array_strings(items).contains(json_string(items[j]).unwrap()),
    decreases items.len(),
{
    let init = items.drop_last();
    if j < items.len() - 1 {
        assert(init[j] == items[j]);
        lemma_array_strings_has(init, j);
        let k = choose|k: int| 0 <= k < array_strings(init).len() && array_strings(init)[k] == json_string(items[j]).unwrap();
        assert(array_strings(items)[k] == array_strings(init)[k]);
    } else {
        match items.last() {
            JsonValue::String(x) => {
                assert(array_strings(items)[array_strings(init).len() as int] == x@);
            },
            _ => {},
        }
    }
}

/// Every specifier the configuration names where dependencies are named is
/// among the specifiers that are taken up.
pub proof fn lemma_named_is_collected(config: ConfigJson, s: Seq<char>)
    requires
        named_by_config(config, s),
    ensures
        config_specifiers(config).contains(s),
{
    let a = imports_strings(config.imports);
    let b = scope_strings(config.scopes);
    let c = compiler_option_strings(config.compiler_options);
    let all = config_specifiers(config);
    assert(all == a + b + c);
    let imports = object_entries(config.imports);
    let scopes = object_entries(config.scopes);
    let options = object_entries(config.compiler_options);
    if exists|j: int| 0 <= j < imports.len() && json_string(#[trigger] imports[j].1) == Some(s) {
        let j = choose|j: int| 0 <= j < imports.len() && json_string(#[trigger] imports[j].1) == Some(s);
        lemma_string_values_has(imports, j);
        assert(a == string_values(imports));
        let i = choose|i: int| 0 <= i < a.len() && a[i] == s;
        assert(all[i] == s);
    } else if exists|j: int, k: int|
        0 <= j < scopes.len() && 0 <= k < object_entries(Some(scopes[j].1)).len() && json_string(
            #[trigger] object_entries(Some(#[trigger] scopes[j].1))[k].1,
        ) == Some(s) {
        let (j, k) = choose|j: int, k: int|
            0 <= j < scopes.len() && 0 <= k < object_entries(Some(scopes[j].1)).len() && json_string(
                #[trigger] object_entries(Some(#[trigger] scopes[j].1))[k].1,
            ) == Some(s);
        lemma_nested_values_has(scopes, j, k);
        assert(b == nested_string_values(scopes));
        let i = choose|i: int| 0 <= i < b.len() && b[i] == s;
        assert(all[a.len() + i] == s);
    } else {
        match config.compiler_options {
            Some(JsonValue::Object(e)) => {
                assert(options == e@);
                let x = string_of(lookup(e@, "jsxImportSource"@));
                let y = string_of(lookup(e@, "jsxImportSourceTypes"@));
                let z = match lookup(e@, "types"@) {
                    Some(JsonValue::Array(items)) => array_strings(items@),
                    _ => Seq::empty(),
                };
                assert(c == x + y + z);
                if lookup(options, "jsxImportSource"@) matches Some(v) && json_string(v) == Some(s) {
                    assert(x[0] == s);
                    assert(all[(a.len() + b.len()) as int] == s);
                } else if lookup(options, "jsxImportSourceTypes"@) matches Some(v) && json_string(v) == Some(s) {
                    assert(y[0] == s);
                    assert(all[(a.len() + b.len() + x.len()) as int] == s);
                } else {
                    let items = array_items(lookup(options, "types"@));
                    let j = choose|j: int| 0 <= j < items.len() && json_string(#[trigger] items[j]) == Some(s);
                    lemma_array_strings_has(items, j);
                    assert(z == array_strings(items));
                    let i = choose|i: int| 0 <= i < z.len() && z[i] == s;
                    assert(all[a.len() + b.len() + x.len() + y.len() + i] == s);
                }
            },
            _ => {
                assert(options.len() == 0);
                assert(lookup(options, "jsxImportSource"@) is None);
                assert(lookup(options, "jsxImportSourceTypes"@) is None);
                assert(lookup(options, "types"@) is None);
            },
        }
    }
}

proof fn lemma_string_values_from(entries: Seq<(String, JsonValue)>, i: int)
    requires
        0 <= i < string_values(entries).len(),
    ensures
        exists|j: int| 0 <= j < entries.len() && json_string(#[trigger] entries[j].1) == Some(string_values(entries)[i]),
    decreases entries.len(),
{
    let init = entries.drop_last();
    let n = entries.len() - 1;
    if i < string_values(init).len() {
        lemma_string_values_from(init, i);
        let j = choose|j: int| 0 <= j < init.len() && json_string(#[trigger] init[j].1) == Some(string_values(init)[i]);
        match entries.last().1 {
            JsonValue::String(x) => {},
            _ => {},
        }
        assert(string_values(entries)[i] == string_values(init)[i]);
        assert(entries[j] == init[j]);
    } else {
        match entries.last().1 {
            JsonValue::String(x) => {
                assert(json_string(entries[n].1) == Some(string_values(entries)[i]));
            },
            _ => {},
        }
    }
}

proof fn lemma_nested_values_from(entries: Seq<(String, JsonValue)>, i: int)
    requires
        0 <= i < nested_string_values(entries).len(),
    ensures
        exists|j: int, k: int|
            0 <= j < entries.len() && 0 <= k < object_entries(Some(entries[j].1)).len() && json_string(
                #[trigger] object_entries(Some(#[trigger] entries[j].1))[k].1,
            ) == Some(nested_string_values(entries)[i]),
    decreases entries.len(),
{
    let init = entries.drop_last();
    let n = entries.len() - 1;
    let last = imports_strings(Some(entries.last().1));
    let v = nested_string_values(entries)[i];
    if i < nested_string_values(init).len() {
        lemma_nested_values_from(init, i);
        let (j, k) = choose|j: int, k: int|
            0 <= j < init.len() && 0 <= k < object_entries(Some(init[j].1)).len() && json_string(
                #[trigger] object_entries(Some(#[trigger] init[j].1))[k].1,
            ) == Some(nested_string_values(init)[i]);
        assert(entries[j] == init[j]);
        assert(v == nested_string_values(init)[i]);
        assert(json_string(object_entries(Some(entries[j].1))[k].1) == Some(v));
    } else {
        let m = i - nested_string_values(init).len();
        assert(v == last[m]);
        match entries.last().1 {
            JsonValue::Object(inner) => {
                lemma_string_values_from(inner@, m);
                let k = choose|k: int| 0 <= k < inner@.len() && json_string(#[trigger] inner@[k].1) == Some(string_values(inner@)[m]);
                assert(object_entries(Some(entries[n].1)) == inner@);
                assert(json_string(object_entries(Some(entries[n].1))[k].1) == Some(v));
            },
            _ => {},
        }
    }
}

proof fn lemma_array_strings_from(items: Seq<JsonValue>, i: int)
    requires
        0 <= i < array_strings(items).len(),
    ensures
        exists|j: int| 0 <= j < items.len() && json_string(#[trigger] items[j]) == Some(array_strings(items)[i]),
    decreases items.len(),
{
    let init = items.drop_last();
    let n = items.len() - 1;
    if i < array_strings(init).len() {
        lemma_array_strings_from(init, i);
        let j = choose|j: int| 0 <= j < init.len() && json_string(#[trigger] init[j]) == Some(array_strings(init)[i]);
        match items.last() {
            JsonValue::String(x) => {},
            _ => {},
        }
        assert(array_strings(items)[i] == array_strings(init)[i]);
        assert(items[j] == init[j]);
    } else {
        match items.last() {
            JsonValue::String(x) => {
                assert(json_string(items[n]) == Some(array_strings(items)[i]));
            },
            _ => {},
        }
    }
}

/// Every specifier that is taken up is one the configuration names where
/// dependencies are named.
pub proof fn lemma_collected_is_named(config: ConfigJson, i: int)
    requires
        0 <= i < config_specifiers(config).len(),
    ensures
        named_by_config(config, config_specifiers(config)[i]),
{
    let a = imports_strings(config.imports);
    let b = scope_strings(config.scopes);
    let c = compiler_option_strings(config.compiler_options);
    let all = config_specifiers(config);
    let s = all[i];
    assert(all == a + b + c);
    let imports = object_entries(config.imports);
    let scopes = object_entries(config.scopes);
    let options = object_entries(config.compiler_options);
    assert(a == string_values(imports));
    assert(b == nested_string_values(scopes));
    if i < a.len() {
        lemma_string_values_from(imports, i);
        assert(s == a[i]);
    } else if i < a.len() + b.len() {
        lemma_nested_values_from(scopes, i - a.len());
        assert(s == b[i - a.len()]);
    } else {
        let m = i - a.len() - b.len();
        assert(s == c[m]);
        match config.compiler_options {
            Some(JsonValue::Object(e)) => {
                assert(options == e@);
                let x = string_of(lookup(e@, "jsxImportSource"@));
                let y = string_of(lookup(e@, "jsxImportSourceTypes"@));
                let z = match lookup(e@, "types"@) {
                    Some(JsonValue::Array(items)) => array_strings(items@),
                    _ => Seq::empty(),
                };
                assert(c == x + y + z);
                if m < x.len() {
                    assert(s == x[m]);
                } else if m < x.len() + y.len() {
                    assert(s == y[m - x.len()]);
                } else {
                    let items = array_items(lookup(options, "types"@));
                    assert(z == array_strings(items));
                    lemma_array_strings_from(items, m - x.len() - y.len());
                    assert(s == z[m - x.len() - y.len()]);
                }
            },
            _ => {
                assert(c.len() == 0);
            },
        }
    }
}

} // verus!
