use vstd::prelude::*;

use crate::json::{get, lookup, str_eq, Json, Member};
use crate::schema::{is_declared, is_required, property_names, Definition, ObjectSchema, Property, SchemaDocument, SchemaNode};

verus! {

/// How deep a document may nest before validation reports `DepthExceeded`.
pub const DEFAULT_MAX_DEPTH: usize = 64;

/// One step of a JSON-pointer-style path: an object key or an array index.
pub enum PathSegment {
    Key(String),
    Index(usize),
}

/// What a violation is about.
pub enum ViolationKind {
    NotAString,
    NotAnArray,
    NotAnObject,
    /// The named required field is absent.
    MissingRequired(String),
    /// The named field is not declared (strict mode only).
    UnknownField(String),
    /// A reference to a definition that the schema lacks.
    UnknownDefinition(String),
    /// The document nests deeper than the validator's limit.
    DepthExceeded,
}

/// A structural mismatch between a document and the schema, and where it is.
pub struct Violation {
    pub path: Vec<PathSegment>,
    pub kind: ViolationKind,
}

/// A schema whose reference cannot be resolved.
pub struct SchemaCompileError {
    /// The definition holding the reference, or `None` for the root object.
    pub definition: Option<String>,
    /// The property whose node holds the reference.
    pub property: String,
    /// The name that no definition has.
    pub target: String,
}

/// Index of the first definition named `name`, or -1 when there is none.
pub open spec fn find_def(defs: Seq<Definition>, name: Seq<char>) -> int
    decreases defs.len(),
{
    if defs.len() == 0 {
        -1
    } else if defs[0].name@ == name {
        0
    } else {
        let r = find_def(defs.drop_first(), name);
        if r < 0 { -1 } else { r + 1 }
    }
}

proof fn lemma_find_def_bounds(defs: Seq<Definition>, name: Seq<char>)
    ensures
        -1 <= find_def(defs, name) < defs.len(),
        find_def(defs, name) >= 0 ==> defs[find_def(defs, name)].name@ == name,
        find_def(defs, name) < 0 ==> forall|i: int| 0 <= i < defs.len() ==> defs[i].name@ != name,
        find_def(defs, name) >= 0 ==> forall|i: int| 0 <= i < find_def(defs, name) ==> defs[i].name@ != name,
    decreases defs.len(),
{
    if defs.len() > 0 && defs[0].name@ != name {
        lemma_find_def_bounds(defs.drop_first(), name);
        assert forall|i: int| 1 <= i < defs.len() implies defs[i] == defs.drop_first()[i - 1] by {}
    }
}

/// A definition that no earlier one shadows is the one a reference finds.
pub proof fn lemma_def_of_index(defs: Seq<Definition>, i: int, name: Seq<char>)
    requires
        0 <= i < defs.len(),
        defs[i].name@ == name,
        forall|j: int| 0 <= j < i ==> defs[j].name@ != name,
    ensures
        def_of(defs, name) == Some(defs[i].object),
{
    lemma_find_def_bounds(defs, name);
}

/// The object of the first definition named `name`, if any.
pub open spec fn def_of(defs: Seq<Definition>, name: Seq<char>) -> Option<ObjectSchema> {
    let i = find_def(defs, name);
    if 0 <= i < defs.len() {
        Some(defs[i].object)
    } else {
        None
    }
}

/// Every reference in `n` names a definition of `defs`.
pub open spec fn node_resolves(defs: Seq<Definition>, n: SchemaNode) -> bool
    decreases n,
{
    match n {
        SchemaNode::Text => true,
        SchemaNode::Ref(d) => def_of(defs, d@) is Some,
        SchemaNode::ArrayOf(inner) => node_resolves(defs, *inner),
    }
}

/// Every reference in the properties of `o` names a definition of `defs`.
pub open spec fn object_resolves(defs: Seq<Definition>, o: ObjectSchema) -> bool {
    forall|i: int| 0 <= i < o.properties@.len() ==> node_resolves(defs, #[trigger] o.properties@[i].node)
}

/// Every reference of the document names one of its definitions.
pub open spec fn refs_resolve(d: SchemaDocument) -> bool {
    &&& object_resolves(d.definitions@, d.root)
    &&& forall|i: int|
        0 <= i < d.definitions@.len() ==> object_resolves(d.definitions@, #[trigger] d.definitions@[i].object)
}

/// `v` matches node `n`, nesting no deeper than `depth` below it.
pub open spec fn conforms(defs: Seq<Definition>, n: SchemaNode, v: Json, depth: nat, strict: bool) -> bool
    decreases depth, 2nat, 0nat,
{
    match n {
        SchemaNode::Text => v is Str,
        SchemaNode::Ref(d) => match def_of(defs, d@) {
            Some(o) => object_conforms(defs, o, v, depth, strict),
            None => false,
        },
        SchemaNode::ArrayOf(inner) => match v {
            Json::Array(a) => elements_conform(defs, *inner, a@, depth, strict),
            _ => false,
        },
    }
}

/// Each element of `a` matches `n`, one level below `depth`.
pub open spec fn elements_conform(
    defs: Seq<Definition>,
    n: SchemaNode,
    a: Seq<Json>,
    depth: nat,
    strict: bool,
) -> bool
    decreases depth, 1nat, a.len(),
{
    if a.len() == 0 {
        true
    } else {
        &&& depth > 0
        &&& elements_conform(defs, n, a.subrange(0, a.len() - 1), depth, strict)
        &&& conforms(defs, n, a[a.len() - 1], (depth - 1) as nat, strict)
    }
}

/// Each declared property present in `ms` matches its node, one level below `depth`.
pub open spec fn properties_conform(
    defs: Seq<Definition>,
    ps: Seq<Property>,
    ms: Seq<Member>,
    depth: nat,
    strict: bool,
) -> bool
    decreases depth, 1nat, ps.len(),
{
    if ps.len() == 0 {
        true
    } else {
        &&& properties_conform(defs, ps.subrange(0, ps.len() - 1), ms, depth, strict)
        &&& match lookup(ms, ps[ps.len() - 1].name@) {
            None => true,
            Some(x) => depth > 0 && conforms(defs, ps[ps.len() - 1].node, x, (depth - 1) as nat, strict),
        }
    }
}

/// Every required field of `o` is present in `ms`.
pub open spec fn required_present(o: ObjectSchema, ms: Seq<Member>) -> bool {
    forall|i: int| 0 <= i < o.required@.len() ==> (lookup(ms, #[trigger] o.required@[i]@) is Some)
}

/// Every key of `ms` is declared by `o`.
pub open spec fn keys_declared(o: ObjectSchema, ms: Seq<Member>) -> bool {
    forall|i: int| 0 <= i < ms.len() ==> is_declared(o, #[trigger] ms[i].key@)
}

/// `v` is an object that matches `o`, nesting no deeper than `depth` below it.
/// Undeclared fields are accepted unless `strict` holds.
pub open spec fn object_conforms(
    defs: Seq<Definition>,
    o: ObjectSchema,
    v: Json,
    depth: nat,
    strict: bool,
) -> bool
    decreases depth, 1nat, o.properties@.len() + 1,
{
    match v {
        Json::Object(ms) => {
            &&& required_present(o, ms@)
            &&& properties_conform(defs, o.properties@, ms@, depth, strict)
            &&& (strict ==> keys_declared(o, ms@))
        },
        _ => false,
    }
}

} // verus!

verus! {

/// The first definition named `name`.
pub fn find_definition<'a>(defs: &'a Vec<Definition>, name: &str) -> (r: Option<&'a Definition>)
    ensures
        match def_of(defs@, name@) {
            Some(o) => r is Some && r->Some_0.object == o,
            None => r is None,
        },
{
    proof { lemma_find_def_bounds(defs@, name@); }
    let mut i: usize = 0;
    while i < defs.len()
        invariant
            0 <= i <= defs.len(),
            forall|j: int| 0 <= j < i ==> defs@[j].name@ != name@,
            -1 <= find_def(defs@, name@) < defs@.len(),
            find_def(defs@, name@) >= 0 ==> defs@[find_def(defs@, name@)].name@ == name@,
            find_def(defs@, name@) >= 0 ==> forall|j: int|
                0 <= j < find_def(defs@, name@) ==> defs@[j].name@ != name@,
            find_def(defs@, name@) < 0 ==> forall|j: int| 0 <= j < defs@.len() ==> defs@[j].name@ != name@,
        decreases defs.len() - i,
    {
        if str_eq(defs[i].name.as_str(), name) {
            return Some(&defs[i]);
        }
        i += 1;
    }
    None
}

/// Some declared field of `o` named `prop` holds a reference that does not resolve.
pub open spec fn unresolved_property(defs: Seq<Definition>, o: ObjectSchema, prop: Seq<char>) -> bool {
    exists|i: int|
        0 <= i < o.properties@.len() && #[trigger] o.properties@[i].name@ == prop && !node_resolves(
            defs,
            o.properties@[i].node,
        )
}

/// A reference in `n` that names no definition, if there is one.
pub fn first_unresolved(defs: &Vec<Definition>, n: &SchemaNode) -> (r: Option<String>)
    ensures
        r is None <==> node_resolves(defs@, *n),
        r matches Some(t) ==> def_of(defs@, t@) is None,
    decreases n,
{
    match n {
        SchemaNode::Text => None,
        SchemaNode::Ref(d) => match find_definition(defs, d.as_str()) {
            Some(_) => None,
            None => Some(d.clone()),
        },
        SchemaNode::ArrayOf(inner) => first_unresolved(defs, inner),
    }
}

fn check_object_refs(defs: &Vec<Definition>, o: &ObjectSchema, owner: &Option<String>) -> (r: Result<(), SchemaCompileError>)
    ensures
        r is Ok <==> object_resolves(defs@, *o),
        r matches Err(e) ==> {
            &&& def_of(defs@, e.target@) is None
            &&& unresolved_property(defs@, *o, e.property@)
            &&& match (e.definition, *owner) {
                (Some(a), Some(b)) => a@ == b@,
                (None, None) => true,
                _ => false,
            }
        },
{
    let mut i: usize = 0;
    while i < o.properties.len()
        invariant
            0 <= i <= o.properties@.len(),
            forall|j: int| 0 <= j < i ==> node_resolves(defs@, #[trigger] o.properties@[j].node),
        decreases o.properties.len() - i,
    {
        match first_unresolved(defs, &o.properties[i].node) {
            Some(target) => {
                let definition = match owner {
                    Some(name) => Some(name.clone()),
                    None => None,
                };
                return Err(SchemaCompileError {
                    definition,
                    property: o.properties[i].name.clone(),
                    target,
                });
            },
            None => {},
        }
        i += 1;
    }
    Ok(())
}

/// `k` is a declared property of `o`.
pub fn declares(o: &ObjectSchema, k: &str) -> (r: bool)
    ensures
        r == is_declared(*o, k@),
{
    let mut i: usize = 0;
    while i < o.properties.len()
        invariant
            0 <= i <= o.properties@.len(),
            forall|j: int| 0 <= j < i ==> o.properties@[j].name@ != k@,
        decreases o.properties.len() - i,
    {
        if str_eq(o.properties[i].name.as_str(), k) {
            assert(property_names(*o)[i as int] == k@);
            return true;
        }
        i += 1;
    }
    assert forall|j: int| 0 <= j < property_names(*o).len() implies property_names(*o)[j] != k@ by {
        assert(property_names(*o)[j] == o.properties@[j].name@);
    }
    false
}

/// Some violation from index `from` on, at `path`, reports the required field `k` missing.
pub open spec fn reports_missing(vs: Seq<Violation>, from: int, path: Seq<PathSegment>, k: Seq<char>) -> bool {
    exists|i: int|
        from <= i < vs.len() && vs[i].path@ == path && (#[trigger] vs[i].kind matches ViolationKind::MissingRequired(s) && s@ == k)
}

/// Some violation from index `from` on, at `path`, reports the field `k` as undeclared.
pub open spec fn reports_unknown(vs: Seq<Violation>, from: int, path: Seq<PathSegment>, k: Seq<char>) -> bool {
    exists|i: int|
        from <= i < vs.len() && vs[i].path@ == path && (#[trigger] vs[i].kind matches ViolationKind::UnknownField(s) && s@ == k)
}

/// Some member of `ms` has the key `k`.
pub open spec fn key_in(ms: Seq<Member>, k: Seq<char>) -> bool {
    exists|j: int| 0 <= j < ms.len() && #[trigger] ms[j].key@ == k
}

fn copy_path(path: &Vec<PathSegment>) -> (r: Vec<PathSegment>)
    ensures
        r@ == path@,
{
    let mut r: Vec<PathSegment> = Vec::new();
    let mut i: usize = 0;
    while i < path.len()
        invariant
            0 <= i <= path@.len(),
            r@ == path@.subrange(0, i as int),
        decreases path.len() - i,
    {
        let seg = match &path[i] {
            PathSegment::Key(k) => PathSegment::Key(k.clone()),
            PathSegment::Index(n) => PathSegment::Index(*n),
        };
        r.push(seg);
        assert(r@ =~= path@.subrange(0, i + 1));
        i += 1;
    }
    assert(r@ =~= path@);
    r
}

fn violation(path: &Vec<PathSegment>, kind: ViolationKind) -> (r: Violation)
    ensures
        r.path@ == path@,
        r.kind == kind,
{
    Violation { path: copy_path(path), kind }
}

fn child_path(path: &Vec<PathSegment>, seg: PathSegment) -> (r: Vec<PathSegment>)
    ensures
        r@ == path@.push(seg),
{
    let mut p = copy_path(path);
    p.push(seg);
    p
}

/// `new` extends `old`, leaving its first entries unchanged.
pub open spec fn kept(old: Seq<Violation>, new: Seq<Violation>) -> bool {
    &&& new.len() >= old.len()
    &&& forall|i: int| 0 <= i < old.len() ==> new[i] == old[i]
}

/// Every violation from index `from` on lies at `path` or below it.
pub open spec fn at_or_below(vs: Seq<Violation>, from: int, path: Seq<PathSegment>) -> bool {
    forall|i: int| from <= i < vs.len() ==> (#[trigger] vs[i]).path@.len() >= path.len()
}

/// Appends to `out` the violations of `v` against node `n`; none exactly when it conforms.
fn check_node(
    defs: &Vec<Definition>,
    n: &SchemaNode,
    v: &Json,
    depth: usize,
    strict: bool,
    path: &Vec<PathSegment>,
    out: &mut Vec<Violation>,
)
    ensures
        kept(old(out)@, final(out)@),
        at_or_below(final(out)@, old(out)@.len() as int, path@),
        final(out)@.len() == old(out)@.len() <==> conforms(defs@, *n, *v, depth as nat, strict),
    decreases depth, 1nat,
{
    match n {
        SchemaNode::Text => {
            match v {
                Json::Str(_) => {},
                _ => out.push(violation(path, ViolationKind::NotAString)),
            }
        },
        SchemaNode::Ref(d) => match find_definition(defs, d.as_str()) {
            Some(def) => check_object(defs, &def.object, v, depth, strict, path, out),
            None => out.push(violation(path, ViolationKind::UnknownDefinition(d.clone()))),
        },
        SchemaNode::ArrayOf(inner) => match v {
            Json::Array(a) => {
                if a.len() > 0 && depth == 0 {
                    out.push(violation(path, ViolationKind::DepthExceeded));
                    return;
                }
                let ghost start = old(out)@.len();
                let ghost snap = old(out)@;
                let mut i: usize = 0;
                while i < a.len()
                    invariant
                        0 <= i <= a@.len(),
                        a@.len() > 0 ==> depth > 0,
                        start == snap.len(),
                        kept(snap, out@),
                        at_or_below(out@, start as int, path@),
                        out@.len() == start <==> elements_conform(
                            defs@,
                            **inner,
                            a@.subrange(0, i as int),
                            depth as nat,
                            strict,
                        ),
                    decreases a.len() - i,
                {
                    let child = child_path(path, PathSegment::Index(i));
                    check_node(defs, inner, &a[i], depth - 1, strict, &child, out);
                    assert(a@.subrange(0, i + 1).subrange(0, i as int) =~= a@.subrange(0, i as int));
                    i += 1;
                }
                assert(a@.subrange(0, a@.len() as int) =~= a@);
            },
            _ => out.push(violation(path, ViolationKind::NotAnArray)),
        },
    }
}

/// Appends to `out` the violations of `v` against object `o`; none exactly when
/// it conforms. At `path` itself it reports each absent required field and, in
/// strict mode, each undeclared key; what lies deeper has a longer path.
fn check_object(
    defs: &Vec<Definition>,
    o: &ObjectSchema,
    v: &Json,
    depth: usize,
    strict: bool,
    path: &Vec<PathSegment>,
    out: &mut Vec<Violation>,
)
    ensures
        kept(old(out)@, final(out)@),
        forall|i: int|
            old(out)@.len() <= i < final(out)@.len() ==> (#[trigger] final(out)@[i]).path@ == path@
                || final(out)@[i].path@.len() > path@.len(),
        final(out)@.len() == old(out)@.len() <==> object_conforms(defs@, *o, *v, depth as nat, strict),
        forall|k: Seq<char>|
            #[trigger] reports_missing(final(out)@, old(out)@.len() as int, path@, k) <==> (v matches Json::Object(
                ms,
            ) && is_required(*o, k) && lookup(ms@, k) is None),
        forall|k: Seq<char>|
            #[trigger] reports_unknown(final(out)@, old(out)@.len() as int, path@, k) <==> (strict
                && (v matches Json::Object(ms) && key_in(ms@, k) && !is_declared(*o, k))),
    decreases depth, 0nat,
{
    let ghost s0 = old(out)@.len() as int;
    let ghost snap0 = old(out)@;
    let ms = match v {
        Json::Object(ms) => ms,
        _ => {
            out.push(violation(path, ViolationKind::NotAnObject));
            assert forall|k: Seq<char>| !reports_missing(out@, s0, path@, k) by {
                if reports_missing(out@, s0, path@, k) {
                    let i = choose|i: int|
                        s0 <= i < out@.len() && out@[i].path@ == path@ && (#[trigger] out@[i].kind matches ViolationKind::MissingRequired(s) && s@ == k);
                }
            }
            assert forall|k: Seq<char>| !reports_unknown(out@, s0, path@, k) by {
                if reports_unknown(out@, s0, path@, k) {
                    let i = choose|i: int|
                        s0 <= i < out@.len() && out@[i].path@ == path@ && (#[trigger] out@[i].kind matches ViolationKind::UnknownField(s) && s@ == k);
                }
            }
            return;
        },
    };
    let mut i: usize = 0;
    while i < o.required.len()
        invariant
            0 <= i <= o.required@.len(),
            s0 == snap0.len(),
            kept(snap0, out@),
            out@.len() == s0 <==> forall|j: int| 0 <= j < i ==> (lookup(ms@, #[trigger] o.required@[j]@) is Some),
            forall|x: int|
                s0 <= x < out@.len() ==> (#[trigger] out@[x]).path@ == path@ && (out@[x].kind matches ViolationKind::MissingRequired(
                    s,
                ) && is_required(*o, s@) && lookup(ms@, s@) is None),
            forall|j: int|
                0 <= j < i ==> lookup(ms@, #[trigger] o.required@[j]@) is None ==> reports_missing(
                    out@,
                    s0,
                    path@,
                    o.required@[j]@,
                ),
        decreases o.required.len() - i,
    {
        let ghost before = out@;
        if get(ms, o.required[i].as_str()).is_none() {
            out.push(violation(path, ViolationKind::MissingRequired(o.required[i].clone())));
            assert(out@[out@.len() - 1].kind matches ViolationKind::MissingRequired(s) && s@ == o.required@[i as int]@);
            assert(is_required(*o, o.required@[i as int]@));
        }
        assert forall|j: int|
            0 <= j < i + 1 && lookup(ms@, #[trigger] o.required@[j]@) is None implies reports_missing(
                out@,
                s0,
                path@,
                o.required@[j]@,
            ) by {
            if j < i && lookup(ms@, o.required@[j]@) is None {
                let x = choose|x: int|
                    s0 <= x < before.len() && before[x].path@ == path@ && (#[trigger] before[x].kind matches ViolationKind::MissingRequired(s) && s@ == o.required@[j]@);
                assert(out@[x] == before[x]);
            }
            if j == i && lookup(ms@, o.required@[j]@) is None {
                assert(out@[out@.len() - 1].kind matches ViolationKind::MissingRequired(s) && s@ == o.required@[j]@);
            }
        }
        i += 1;
    }
    let ghost s1 = out@.len() as int;
    let ghost snap1 = out@;
    let mut i: usize = 0;
    while i < o.properties.len()
        invariant
            0 <= i <= o.properties@.len(),
            s1 == snap1.len(),
            kept(snap1, out@),
            forall|x: int|
                s1 <= x < out@.len() ==> (#[trigger] out@[x]).path@.len() > path@.len() || (out@[x].path@
                    == path@ && out@[x].kind is DepthExceeded),
            out@.len() == s1 <==> properties_conform(
                defs@,
                o.properties@.subrange(0, i as int),
                ms@,
                depth as nat,
                strict,
            ),
        decreases o.properties.len() - i,
    {
        let p = &o.properties[i];
        match get(ms, p.name.as_str()) {
            Some(x) => {
                if depth == 0 {
                    out.push(violation(path, ViolationKind::DepthExceeded));
                } else {
                    let child = child_path(path, PathSegment::Key(p.name.clone()));
                    check_node(defs, &p.node, x, depth - 1, strict, &child, out);
                }
            },
            None => {},
        }
        assert(o.properties@.subrange(0, i + 1).subrange(0, i as int) =~= o.properties@.subrange(0, i as int));
        i += 1;
    }
    assert(o.properties@.subrange(0, o.properties@.len() as int) =~= o.properties@);
    let ghost s2 = out@.len() as int;
    let ghost snap2 = out@;
    if strict {
        let mut i: usize = 0;
        while i < ms.len()
            invariant
                0 <= i <= ms@.len(),
                s2 == snap2.len(),
                kept(snap2, out@),
                strict,
                out@.len() == s2 <==> forall|j: int| 0 <= j < i ==> is_declared(*o, #[trigger] ms@[j].key@),
                forall|x: int|
                    s2 <= x < out@.len() ==> (#[trigger] out@[x]).path@ == path@ && (out@[x].kind matches ViolationKind::UnknownField(
                        s,
                    ) && key_in(ms@, s@) && !is_declared(*o, s@)),
                forall|j: int|
                    0 <= j < i ==> !is_declared(*o, #[trigger] ms@[j].key@) ==> reports_unknown(
                        out@,
                        s2,
                        path@,
                        ms@[j].key@,
                    ),
            decreases ms.len() - i,
        {
            let ghost before = out@;
            if !declares(o, ms[i].key.as_str()) {
                out.push(violation(path, ViolationKind::UnknownField(ms[i].key.clone())));
                assert(out@[out@.len() - 1].kind matches ViolationKind::UnknownField(s) && s@ == ms@[i as int].key@);
                assert(key_in(ms@, ms@[i as int].key@));
            }
            assert forall|j: int|
                0 <= j < i + 1 && !is_declared(*o, #[trigger] ms@[j].key@) implies reports_unknown(
                    out@,
                    s2,
                    path@,
                    ms@[j].key@,
                ) by {
                if j < i && !is_declared(*o, ms@[j].key@) {
                    let x = choose|x: int|
                        s2 <= x < before.len() && before[x].path@ == path@ && (#[trigger] before[x].kind matches ViolationKind::UnknownField(s) && s@ == ms@[j].key@);
                    assert(out@[x] == before[x]);
                }
                if j == i && !is_declared(*o, ms@[j].key@) {
                    assert(out@[out@.len() - 1].kind matches ViolationKind::UnknownField(s) && s@ == ms@[j].key@);
                }
            }
            i += 1;
        }
    }
    proof {
        let f = out@;
        assert forall|k: Seq<char>|
            #[trigger] reports_missing(f, s0, path@, k) <==> (is_required(*o, k) && lookup(ms@, k) is None) by {
            if reports_missing(f, s0, path@, k) {
                let x = choose|x: int|
                    s0 <= x < f.len() && f[x].path@ == path@ && (#[trigger] f[x].kind matches ViolationKind::MissingRequired(s) && s@ == k);
                if x < s1 {
                    assert(f[x] == snap1[x]);
                } else if x < s2 {
                    assert(f[x] == snap2[x]);
                }
            }
            if is_required(*o, k) && lookup(ms@, k) is None {
                let j = choose|j: int| 0 <= j < o.required@.len() && #[trigger] o.required@[j]@ == k;
                assert(lookup(ms@, o.required@[j]@) is None);
                let x = choose|x: int|
                    s0 <= x < snap1.len() && snap1[x].path@ == path@ && (#[trigger] snap1[x].kind matches ViolationKind::MissingRequired(s) && s@ == k);
                assert(f[x] == snap1[x]);
            }
        }
        assert forall|k: Seq<char>|
            #[trigger] reports_unknown(f, s0, path@, k) <==> (strict && key_in(ms@, k) && !is_declared(*o, k)) by {
            if reports_unknown(f, s0, path@, k) {
                let x = choose|x: int|
                    s0 <= x < f.len() && f[x].path@ == path@ && (#[trigger] f[x].kind matches ViolationKind::UnknownField(s) && s@ == k);
                if x < s1 {
                    assert(f[x] == snap1[x]);
                } else if x < s2 {
                    assert(f[x] == snap2[x]);
                }
            }
            if strict && key_in(ms@, k) && !is_declared(*o, k) {
                let j = choose|j: int| 0 <= j < ms@.len() && #[trigger] ms@[j].key@ == k;
                assert(!is_declared(*o, ms@[j].key@));
                let x = choose|x: int|
                    s2 <= x < f.len() && f[x].path@ == path@ && (#[trigger] f[x].kind matches ViolationKind::UnknownField(s) && s@ == k);
            }
        }
        assert forall|i: int| s0 <= i < f.len() implies (#[trigger] f[i]).path@ == path@ || f[i].path@.len() > path@.len() by {
            if i < s1 {
                assert(f[i] == snap1[i]);
            } else if i < s2 {
                assert(f[i] == snap2[i]);
            }
        }
    }
}

} // verus!

verus! {

/// A schema checked to be well formed, ready to validate documents.
pub struct Validator {
    pub schema: SchemaDocument,
    pub max_depth: usize,
    pub strict: bool,
}

impl Validator {
    /// Checks that every reference of `schema` names one of its definitions.
    /// The validator accepts undeclared fields and nests to `DEFAULT_MAX_DEPTH`.
    pub fn compile(schema: SchemaDocument) -> (r: Result<Validator, SchemaCompileError>)
        ensures
            r is Ok <==> refs_resolve(schema),
            r matches Ok(v) ==> v.schema == schema && v.max_depth == DEFAULT_MAX_DEPTH && !v.strict,
            r matches Err(e) ==> def_of(schema.definitions@, e.target@) is None && match e.definition {
                None => unresolved_property(schema.definitions@, schema.root, e.property@),
                Some(d) => exists|j: int|
                    0 <= j < schema.definitions@.len() && #[trigger] schema.definitions@[j].name@ == d@
                        && unresolved_property(schema.definitions@, schema.definitions@[j].object, e.property@),
            },
    {
        check_object_refs(&schema.definitions, &schema.root, &None)?;
        let mut i: usize = 0;
        while i < schema.definitions.len()
            invariant
                0 <= i <= schema.definitions@.len(),
                object_resolves(schema.definitions@, schema.root),
                forall|j: int|
                    0 <= j < i ==> object_resolves(schema.definitions@, #[trigger] schema.definitions@[j].object),
            decreases schema.definitions.len() - i,
        {
            let owner = Some(schema.definitions[i].name.clone());
            check_object_refs(&schema.definitions, &schema.definitions[i].object, &owner)?;
            i += 1;
        }
        Ok(Validator { schema, max_depth: DEFAULT_MAX_DEPTH, strict: false })
    }

    /// The same validator with another nesting limit.
    pub fn with_max_depth(self, max_depth: usize) -> (r: Validator)
        ensures
            r.schema == self.schema,
            r.strict == self.strict,
            r.max_depth == max_depth,
    {
        Validator { schema: self.schema, max_depth, strict: self.strict }
    }

    /// The same validator, rejecting undeclared fields when `strict` holds.
    pub fn with_strict(self, strict: bool) -> (r: Validator)
        ensures
            r.schema == self.schema,
            r.strict == strict,
            r.max_depth == self.max_depth,
    {
        Validator { schema: self.schema, max_depth: self.max_depth, strict }
    }

    /// Every violation of `doc` against the root object of the schema; the
    /// list is empty exactly when the document conforms. At the root (the
    /// empty path) it reports each absent required field and, in strict mode,
    /// each undeclared key.
    pub fn validate(&self, doc: &Json) -> (r: Vec<Violation>)
        ensures
            r@.len() == 0 <==> object_conforms(
                self.schema.definitions@,
                self.schema.root,
                *doc,
                self.max_depth as nat,
                self.strict,
            ),
            forall|k: Seq<char>|
                #[trigger] reports_missing(r@, 0, Seq::empty(), k) <==> (doc matches Json::Object(ms)
                    && is_required(self.schema.root, k) && lookup(ms@, k) is None),
            forall|k: Seq<char>|
                #[trigger] reports_unknown(r@, 0, Seq::empty(), k) <==> (self.strict && (
                doc matches Json::Object(ms) && key_in(ms@, k) && !is_declared(self.schema.root, k))),
    {
        let mut out: Vec<Violation> = Vec::new();
        let path: Vec<PathSegment> = Vec::new();
        assert(path@ == Seq::<PathSegment>::empty());
        check_object(&self.schema.definitions, &self.schema.root, doc, self.max_depth, self.strict, &path, &mut out);
        out
    }

    /// Whether `doc` conforms to the schema.
    pub fn is_valid(&self, doc: &Json) -> (r: bool)
        ensures
            r == object_conforms(
                self.schema.definitions@,
                self.schema.root,
                *doc,
                self.max_depth as nat,
                self.strict,
            ),
    {
        self.validate(doc).len() == 0
    }
}

} // verus!
