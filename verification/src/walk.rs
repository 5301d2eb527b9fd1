//! Walking a description: references, request and response contents,
//! operations with their parameters, and the paths that hold them.
use vstd::prelude::*;
use crate::types::extends;
use crate::error::{Error, ErrorV, invalid, unsupported_msg};
use crate::method::{Method, RawMethod, raw_method_name};
use crate::model::{
    ContentEntry, Named, ParameterObject, ParameterFormat, ParameterLocation, RefOr, ResponseObject,
    ResponseEntry, StatusCode,
};
use crate::names::{ApiPath, Ident, TypePath, is_identifier};
use crate::route_path::{RoutePath, SegmentView, route_text};
use crate::text::{decimal, push_decimal, str_eq, views};
use crate::typebuild::build_spec;
use crate::typebuild::build_type_recursive;
use crate::types::{EntryV, Field, FieldMetadata, FieldV, fields_view, ref_view, TypeLookup};

verus! {

/// The first entry of `lookup` named `key`.
pub open spec fn lookup_named<T>(lookup: Seq<Named<T>>, key: Seq<char>) -> Option<RefOr<T>>
    decreases lookup.len(),
{
    if lookup.len() == 0 {
        None
    } else if lookup[0].name@ == key {
        Some(lookup[0].value)
    } else {
        lookup_named(lookup.subrange(1, lookup.len() as int), key)
    }
}

/// The message given for a chain of references that does not end.
pub open spec fn cycle_msg() -> Seq<char> {
    "reference cycle"@
}

/// Follows references through `lookup`, at most `fuel` of them.
pub open spec fn deref_spec<T>(r: RefOr<T>, lookup: Seq<Named<T>>, fuel: nat) -> Result<T, ErrorV>
    decreases fuel,
{
    match r {
        RefOr::Item(x) => Ok(x),
        RefOr::Reference(k) => match lookup_named(lookup, k@) {
            None => Err(ErrorV::BadReference(k@)),
            Some(next) => if fuel == 0 {
                Err(ErrorV::Unsupported(cycle_msg()))
            } else {
                deref_spec(next, lookup, (fuel - 1) as nat)
            },
        },
    }
}

fn find_named<'a, T>(lookup: &'a Vec<Named<T>>, key: &String) -> (r: Option<&'a RefOr<T>>)
    ensures
        match lookup_named(lookup@, key@) {
            Some(v) => r matches Some(x) && *x == v,
            None => r is None,
        },
{
    let mut i: usize = 0;
    assert(lookup@.skip(0) =~= lookup@);
    while i < lookup.len()
        invariant
            i <= lookup@.len(),
            lookup_named(lookup@, key@) == lookup_named(lookup@.skip(i as int), key@),
        decreases lookup@.len() - i,
    {
        assert(lookup@.skip(i as int)[0] == lookup@[i as int]);
        assert(lookup@.skip(i as int).subrange(1, lookup@.len() - i) =~= lookup@.skip(i + 1));
        if lookup[i].name == *key {
            return Some(&lookup[i].value);
        }
        i = i + 1;
    }
    assert(lookup@.skip(i as int) =~= Seq::<Named<T>>::empty());
    None
}

/// Fetches the target of a reference through `lookup` (a map of the
/// components). A chain longer than the lookup must repeat a key and is
/// refused.
pub fn dereference<'a, T>(refr: &'a RefOr<T>, lookup: &'a Vec<Named<T>>) -> (r: Result<&'a T, Error>)
    ensures
        match deref_spec(*refr, lookup@, lookup@.len()) {
            Ok(x) => r matches Ok(y) && *y == x,
            Err(e) => r matches Err(y) && y@ == e,
        },
{
    let mut cur = refr;
    let mut fuel: usize = lookup.len();
    loop
        invariant
            fuel <= lookup@.len(),
            deref_spec(*cur, lookup@, fuel as nat) == deref_spec(*refr, lookup@, lookup@.len()),
        decreases fuel,
    {
        match cur {
            RefOr::Item(x) => {
                return Ok(x);
            },
            RefOr::Reference(k) => {
                match find_named(lookup, k) {
                    None => {
                        return Err(Error::BadReference(k.clone()));
                    },
                    Some(next) => {
                        if fuel == 0 {
                            return Err(unsupported_msg("reference cycle"));
                        }
                        cur = next;
                        fuel = fuel - 1;
                    },
                }
            },
        }
    }
}

/// A path item given in place; a reference is refused.
pub open spec fn unwrap_ref_spec<T>(r: RefOr<T>) -> Result<T, ErrorV> {
    match r {
        RefOr::Item(x) => Ok(x),
        RefOr::Reference(k) => Err(ErrorV::BadReference(k@)),
    }
}

/// Unwrap the reference, or fail.
pub fn unwrap_ref<T>(item: &RefOr<T>) -> (r: Result<&T, Error>)
    ensures
        match unwrap_ref_spec(*item) {
            Ok(x) => r matches Ok(y) && *y == x,
            Err(e) => r matches Err(y) && y@ == e,
        },
{
    match item {
        RefOr::Item(x) => Ok(x),
        RefOr::Reference(reference) => Err(Error::BadReference(reference.clone())),
    }
}

/// What walking a `content` map found at `path` gives: the location of
/// the body's type, if the single `application/json` entry has a schema,
/// and the definitions recorded.
pub open spec fn contents_spec(content: Seq<ContentEntry>, path: Seq<Seq<char>>) -> Result<
    (Option<Seq<Seq<char>>>, Seq<EntryV>),
    ErrorV,
> {
    if content.len() > 1 {
        Err(ErrorV::Unsupported("Can't have more than one content type"@))
    } else if content.len() == 0 {
        Ok((None, Seq::empty()))
    } else if content[0].content_type@ != "application/json"@ {
        Err(ErrorV::Unsupported("Content other than application/json not supported"@))
    } else {
        match content[0].media.schema {
            None => Ok((None, Seq::empty())),
            Some(s) => match build_spec(s, path) {
                Ok((t, es)) => Ok((Some(path), es.push((path, t)))),
                Err(e) => Err(e),
            },
        }
    }
}

/// Walks a `content` map, building and recording the body's type at `path`.
pub fn walk_contents(content: &Vec<ContentEntry>, path: &ApiPath, type_index: &mut TypeLookup) -> (r:
    Result<Option<TypePath>, Error>)
    ensures
        extends(old(type_index)@, final(type_index)@),
        match contents_spec(content@, path@) {
            Ok((p, es)) => r matches Ok(x) && crate::method::opt_path(x) == p && final(type_index)@ == old(type_index)@ + es,
            Err(e) => r matches Err(x) && x@ == e,
        },
{
    if content.len() > 1 {
        return Err(unsupported_msg("Can't have more than one content type"));
    }
    if content.len() == 0 {
        assert(type_index@ =~= type_index@ + Seq::<EntryV>::empty());
        return Ok(None);
    }
    let entry = &content[0];
    if !str_eq(entry.content_type.as_str(), "application/json") {
        return Err(unsupported_msg("Content other than application/json not supported"));
    }
    match &entry.media.schema {
        None => {
            assert(type_index@ =~= type_index@ + Seq::<EntryV>::empty());
            Ok(None)
        },
        Some(schema) => {
            let typ = build_type_recursive(schema, path, type_index)?;
            let tp = path.duplicate().into_type_path();
            type_index.insert(tp, typ);
            Ok(Some(path.duplicate().into_type_path()))
        },
    }
}

/// A response as the routes keep it: the location of its body's type,
/// if any, and its description.
pub struct RouteResponse {
    pub type_path: Option<TypePath>,
    pub description: String,
}

pub struct RespV {
    pub type_path: Option<Seq<Seq<char>>>,
    pub description: Seq<char>,
}

impl View for RouteResponse {
    type V = RespV;

    open spec fn view(&self) -> RespV {
        RespV { type_path: crate::method::opt_path(self.type_path), description: self.description@ }
    }
}

/// What walking a response found at `path` gives.
pub open spec fn response_spec(resp: ResponseObject, path: Seq<Seq<char>>) -> Result<
    (RespV, Seq<EntryV>),
    ErrorV,
> {
    if resp.has_headers() {
        Err(ErrorV::Unsupported("response headers not supported"@))
    } else if resp.has_links() {
        Err(ErrorV::Unsupported("response links not supported"@))
    } else {
        match contents_spec(resp.content@, path) {
            Ok((p, es)) => Ok((RespV { type_path: p, description: resp.description@ }, es)),
            Err(e) => Err(e),
        }
    }
}

pub fn walk_response(resp: &ResponseObject, path: &ApiPath, type_index: &mut TypeLookup) -> (r: Result<
    RouteResponse,
    Error,
>)
    ensures
        extends(old(type_index)@, final(type_index)@),
        match response_spec(*resp, path@) {
            Ok((v, es)) => r matches Ok(x) && x@ == v && final(type_index)@ == old(type_index)@
                + es,
            Err(e) => r matches Err(x) && x@ == e,
        },
{
    if resp.has_headers() {
        return Err(unsupported_msg("response headers not supported"));
    }
    if resp.has_links() {
        return Err(unsupported_msg("response links not supported"));
    }
    let type_path = walk_contents(&resp.content, path, type_index)?;
    Ok(RouteResponse { type_path, description: resp.description.clone() })
}

/// A response with its status code.
pub struct CodeResponse {
    pub code: u16,
    pub response: RouteResponse,
}

/// The responses of an operation: those with a code, in order, and the
/// default one.
pub struct ResponsesObject {
    pub with_codes: Vec<CodeResponse>,
    pub default: Option<RouteResponse>,
}

pub struct ResponsesV {
    pub with_codes: Seq<(u16, RespV)>,
    pub default: Option<RespV>,
}

pub open spec fn opt_resp(r: Option<RouteResponse>) -> Option<RespV> {
    match r {
        Some(x) => Some(x@),
        None => None,
    }
}

impl View for ResponsesObject {
    type V = ResponsesV;

    open spec fn view(&self) -> ResponsesV {
        ResponsesV {
            with_codes: self.with_codes@.map_values(|c: CodeResponse| (c.code, c.response@)),
            default: opt_resp(self.default),
        }
    }
}

/// A valid HTTP status code.
pub open spec fn known_status(v: u16) -> bool {
    100 <= v <= 999
}

/// `http::StatusCode::from_u16`: the status code, where `v` is in
/// `100..=999`. The claim is the range check that its source makes.
#[verifier::external_body]
fn status_from_u16(v: u16) -> (r: Option<u16>)
    ensures
        r == (if known_status(v) {
            Some(v)
        } else {
            None::<u16>
        }),
{
    match http::StatusCode::from_u16(v) {
        Ok(_) => Some(v),
        Err(_) => None,
    }
}

/// Walks the coded responses `rs` of an operation at `path`, after the
/// responses `acc` and definitions `es` already found.
pub open spec fn coded_spec(
    rs: Seq<ResponseEntry>,
    path: Seq<Seq<char>>,
    lookup: Seq<Named<ResponseObject>>,
    acc: Seq<(u16, RespV)>,
    es: Seq<EntryV>,
) -> Result<(Seq<(u16, RespV)>, Seq<EntryV>), ErrorV>
    decreases rs.len(),
{
    if rs.len() == 0 {
        Ok((acc, es))
    } else {
        match rs[0].code {
            StatusCode::Range(v) => Err(
                ErrorV::Validation(
                    "Status code ranges not supported '"@ + decimal(v as nat) + "'"@,
                ),
            ),
            StatusCode::Code(v) => if !known_status(v) {
                Err(ErrorV::Validation("Unknown status code '"@ + decimal(v as nat) + "'"@))
            } else {
                match deref_spec(rs[0].response, lookup, lookup.len()) {
                    Err(e) => Err(e),
                    Ok(resp) => match response_spec(resp, path.push(decimal(v as nat))) {
                        Err(e) => Err(e),
                        Ok((rv, inner)) => coded_spec(
                            rs.subrange(1, rs.len() as int),
                            path,
                            lookup,
                            acc.push((v, rv)),
                            es + inner,
                        ),
                    },
                }
            },
        }
    }
}

/// What walking the responses of an operation at `path` gives.
pub open spec fn responses_spec(
    rs: crate::model::ResponsesObject,
    path: Seq<Seq<char>>,
    lookup: Seq<Named<ResponseObject>>,
) -> Result<(ResponsesV, Seq<EntryV>), ErrorV> {
    match coded_spec(rs.responses@, path, lookup, Seq::empty(), Seq::empty()) {
        Err(e) => Err(e),
        Ok((coded, es)) => match rs.default {
            None => Ok((ResponsesV { with_codes: coded, default: None }, es)),
            Some(d) => match deref_spec(d, lookup, lookup.len()) {
                Err(e) => Err(e),
                Ok(resp) => match response_spec(resp, path.push("default"@)) {
                    Err(e) => Err(e),
                    Ok((rv, inner)) => Ok(
                        (ResponsesV { with_codes: coded, default: Some(rv) }, es + inner),
                    ),
                },
            },
        },
    }
}

fn status_error(pre: &str, v: u16) -> (e: Error)
    ensures
        e@ == ErrorV::Validation(pre@ + decimal(v as nat) + "'"@),
{
    let mut m = String::from_str(pre);
    push_decimal(&mut m, v as u64);
    m.append("'");
    Error::Validation(m)
}

pub fn walk_responses(
    resps: &crate::model::ResponsesObject,
    path: &ApiPath,
    type_index: &mut TypeLookup,
    lookup: &Vec<Named<ResponseObject>>,
) -> (r: Result<ResponsesObject, Error>)
    ensures
        extends(old(type_index)@, final(type_index)@),
        match responses_spec(*resps, path@, lookup@) {
            Ok((v, es)) => r matches Ok(x) && x@ == v && final(type_index)@ == old(type_index)@
                + es,
            Err(e) => r matches Err(x) && x@ == e,
        },
{
    let ghost start = type_index@;
    let ghost whole = coded_spec(resps.responses@, path@, lookup@, Seq::empty(), Seq::empty());
    let mut with_codes: Vec<CodeResponse> = Vec::new();
    let mut i: usize = 0;
    assert(resps.responses@.skip(0) =~= resps.responses@);
    assert(with_codes@.map_values(|c: CodeResponse| (c.code, c.response@)) =~= Seq::<
        (u16, RespV),
    >::empty());
    assert(type_index@.subrange(start.len() as int, type_index@.len() as int) =~= Seq::<
        EntryV,
    >::empty());
    while i < resps.responses.len()
        invariant
            extends(old(type_index)@, type_index@),
            i <= resps.responses@.len(),
            whole == coded_spec(resps.responses@, path@, lookup@, Seq::empty(), Seq::empty()),
            start.len() <= type_index@.len(),
            type_index@.subrange(0, start.len() as int) == start,
            coded_spec(
                resps.responses@.skip(i as int),
                path@,
                lookup@,
                with_codes@.map_values(|c: CodeResponse| (c.code, c.response@)),
                type_index@.subrange(start.len() as int, type_index@.len() as int),
            ) == whole,
        decreases resps.responses@.len() - i,
    {
        let ghost rest = resps.responses@.skip(i as int);
        let ghost acc0 = with_codes@.map_values(|c: CodeResponse| (c.code, c.response@));
        let ghost es0 = type_index@.subrange(start.len() as int, type_index@.len() as int);
        let ghost mid = type_index@;
        assert(rest[0] == resps.responses@[i as int]);
        assert(rest.subrange(1, rest.len() as int) =~= resps.responses@.skip(i + 1));
        let entry = &resps.responses[i];
        let v = match entry.code {
            StatusCode::Code(v) => v,
            StatusCode::Range(v) => {
                return Err(status_error("Status code ranges not supported '", v));
            },
        };
        let code = match status_from_u16(v) {
            Some(c) => c,
            None => {
                return Err(status_error("Unknown status code '", v));
            },
        };
        let resp = dereference(&entry.response, lookup)?;
        let mut key = String::new();
        push_decimal(&mut key, code as u64);
        let p = path.duplicate().push(key.as_str());
        let rv = walk_response(resp, &p, type_index)?;
        proof {
            let inner = type_index@.subrange(mid.len() as int, type_index@.len() as int);
            let bs = response_spec(*resp, p@);
            assert(bs is Ok);
            assert(type_index@ =~= mid + bs->Ok_0.1);
            assert(inner =~= bs->Ok_0.1);
            assert(coded_spec(rest, path@, lookup@, acc0, es0) == coded_spec(
                resps.responses@.skip(i + 1),
                path@,
                lookup@,
                acc0.push((code, rv@)),
                es0 + inner,
            ));
            assert(type_index@.subrange(0, start.len() as int) =~= start);
            assert(type_index@.subrange(start.len() as int, type_index@.len() as int) =~= es0
                + inner);
        }
        with_codes.push(CodeResponse { code, response: rv });
        assert(with_codes@.map_values(|c: CodeResponse| (c.code, c.response@)) =~= acc0.push(
            (code, with_codes@.last().response@),
        ));
        i = i + 1;
    }
    assert(resps.responses@.skip(i as int) =~= Seq::<ResponseEntry>::empty());
    let ghost mid = type_index@;
    let ghost es0 = type_index@.subrange(start.len() as int, type_index@.len() as int);
    assert(type_index@ =~= start + es0);
    let default = match &resps.default {
        None => None,
        Some(d) => {
            let resp = dereference(d, lookup)?;
            let p = path.duplicate().push("default");
            let rv = walk_response(resp, &p, type_index)?;
            proof {
                let inner = type_index@.subrange(mid.len() as int, type_index@.len() as int);
                let bs = response_spec(*resp, p@);
                assert(bs is Ok);
                assert(type_index@ =~= mid + bs->Ok_0.1);
                assert(inner =~= bs->Ok_0.1);
                assert(type_index@ =~= start + (es0 + inner));
            }
            Some(rv)
        },
    };
    Ok(ResponsesObject { with_codes, default })
}

} // verus!

verus! {

/// Path or query parameters gathered into one struct type: the location
/// of that type and its fields.
pub struct ParamGroup {
    pub type_path: TypePath,
    pub fields: Vec<Field>,
}

pub struct GroupV {
    pub path: Seq<Seq<char>>,
    pub fields: Seq<FieldV>,
}

impl View for ParamGroup {
    type V = GroupV;

    open spec fn view(&self) -> GroupV {
        GroupV { path: self.type_path@, fields: fields_view(self.fields@) }
    }
}

pub open spec fn opt_group(g: Option<ParamGroup>) -> Option<GroupV> {
    match g {
        Some(x) => Some(x@),
        None => None,
    }
}

/// Where the walk stands among the parameters of an operation.
pub struct ParamState {
    /// Path parameters named in the path but not declared yet.
    pub expected: Seq<Seq<char>>,
    /// ParameterObject names declared so far.
    pub seen: Seq<Seq<char>>,
    pub path_fields: Seq<FieldV>,
    pub query_fields: Seq<FieldV>,
    pub entries: Seq<EntryV>,
}

/// The first position of `x` in `s`.
pub open spec fn first_index(s: Seq<Seq<char>>, x: Seq<char>) -> Option<int>
    decreases s.len(),
{
    if s.len() == 0 {
        None
    } else if s[0] == x {
        Some(0)
    } else {
        match first_index(s.subrange(1, s.len() as int), x) {
            Some(k) => Some(k + 1),
            None => None,
        }
    }
}

pub proof fn lemma_first_index(s: Seq<Seq<char>>, x: Seq<char>)
    ensures
        first_index(s, x) matches Some(k) ==> 0 <= k < s.len() && s[k] == x,
        first_index(s, x) is None ==> !s.contains(x),
    decreases s.len(),
{
    if s.len() > 0 {
        lemma_first_index(s.subrange(1, s.len() as int), x);
        if s[0] != x && first_index(s, x) is None {
            assert forall|i: int| 0 <= i < s.len() implies s[i] != x by {
                if i > 0 {
                    assert(s.subrange(1, s.len() as int)[i - 1] == s[i]);
                }
            }
        }
    }
}

/// `s` with its `k`-th element replaced by the last one, and the last
/// dropped (`IndexSet::remove`).
pub open spec fn swap_remove(s: Seq<Seq<char>>, k: int) -> Seq<Seq<char>> {
    s.update(k, s.last()).drop_last()
}

/// Declares one parameter, in the path (`in_path`) or the query.
pub open spec fn add_param(
    p: ParameterObject,
    op_path: Seq<Seq<char>>,
    loc: Seq<char>,
    st: ParamState,
    in_path: bool,
) -> Result<ParamState, ErrorV> {
    let name = p.name@;
    if st.seen.contains(name) {
        Err(ErrorV::Validation("Duplicated parameter '"@ + name + "'"@))
    } else {
        let p2 = op_path.push(loc).push(name);
        if !is_identifier(name) {
            Err(ErrorV::Validation("Bad identifier '"@ + name + "' (not a valid Rust identifier)"@))
        } else {
            let f = FieldV { name, description: None, required: p.required, path: p2 };
            match p.format {
                ParameterFormat::Content => Err(ErrorV::Unsupported(""@)),
                ParameterFormat::Schema(s) => match build_spec(s, p2) {
                    Err(e) => Err(e),
                    Ok((t, es)) => Ok(
                        ParamState {
                            expected: st.expected,
                            seen: st.seen.push(name),
                            path_fields: if in_path {
                                st.path_fields.push(f)
                            } else {
                                st.path_fields
                            },
                            query_fields: if in_path {
                                st.query_fields
                            } else {
                                st.query_fields.push(f)
                            },
                            entries: st.entries + es.push((p2, t)),
                        },
                    ),
                },
            }
        }
    }
}

/// Walks one (dereferenced) parameter.
pub open spec fn param_step(p: ParameterObject, op_path: Seq<Seq<char>>, st: ParamState) -> Result<
    ParamState,
    ErrorV,
> {
    let name = p.name@;
    match p.location {
        ParameterLocation::Path => match first_index(st.expected, name) {
            None => Err(ErrorV::Validation("path parameter '"@ + name + "' not found in path"@)),
            Some(k) => if !p.required {
                Err(ErrorV::Validation("Path parameter '"@ + name + "' must be 'required'"@))
            } else {
                add_param(
                    p,
                    op_path,
                    "path"@,
                    ParamState { expected: swap_remove(st.expected, k), ..st },
                    true,
                )
            },
        },
        ParameterLocation::Query => add_param(p, op_path, "query"@, st, false),
        ParameterLocation::Header => Err(ErrorV::Unsupported(""@)),
        ParameterLocation::Cookie => Err(ErrorV::Unsupported(""@)),
    }
}

/// Walks the parameters `ps` of an operation in order.
pub open spec fn params_spec(
    ps: Seq<RefOr<ParameterObject>>,
    lookup: Seq<Named<ParameterObject>>,
    op_path: Seq<Seq<char>>,
    st: ParamState,
) -> Result<ParamState, ErrorV>
    decreases ps.len(),
{
    if ps.len() == 0 {
        Ok(st)
    } else {
        match deref_spec(ps[0], lookup, lookup.len()) {
            Err(e) => Err(e),
            Ok(p) => match param_step(p, op_path, st) {
                Err(e) => Err(e),
                Ok(st2) => params_spec(ps.subrange(1, ps.len() as int), lookup, op_path, st2),
            },
        }
    }
}

fn index_of(s: &Vec<String>, x: &String) -> (r: Option<usize>)
    ensures
        match first_index(views(s@), x@) {
            Some(k) => r matches Some(i) && i as int == k,
            None => r is None,
        },
{
    let mut i: usize = 0;
    assert(views(s@).skip(0) =~= views(s@));
    while i < s.len()
        invariant
            i <= s@.len(),
            first_index(views(s@), x@) == match first_index(views(s@).skip(i as int), x@) {
                Some(k) => Some(k + i),
                None => None,
            },
        decreases s@.len() - i,
    {
        let ghost rest = views(s@).skip(i as int);
        assert(rest[0] == s@[i as int]@);
        assert(rest.subrange(1, rest.len() as int) =~= views(s@).skip(i + 1));
        if s[i] == *x {
            return Some(i);
        }
        i = i + 1;
    }
    None
}

#[verifier::external_type_specification]
#[verifier::external_body]
#[verifier::reject_recursive_types(T)]
#[verifier::reject_recursive_types(S)]
pub struct ExIndexSet<T, S>(indexmap::IndexSet<T, S>);

/// The names an `indexmap::IndexSet` of strings holds, in the order they
/// were first inserted.
pub uninterp spec fn set_names(s: indexmap::IndexSet<String>) -> Seq<Seq<char>>;

/// `indexmap::IndexSet::new`: an empty set.
#[verifier::external_body]
fn empty_name_set() -> (r: indexmap::IndexSet<String>)
    ensures
        set_names(r) == Seq::<Seq<char>>::empty(),
{
    indexmap::IndexSet::new()
}

/// `indexmap::IndexSet::insert`: where no equal name is held yet, the
/// name is added after the others and the result is `true`; otherwise the
/// set stays as it was and the result is `false`.
#[verifier::external_body]
fn insert_name(s: &mut indexmap::IndexSet<String>, name: String) -> (r: bool)
    ensures
        r == !set_names(*old(s)).contains(name@),
        set_names(*final(s)) == (if r {
            set_names(*old(s)).push(name@)
        } else {
            set_names(*old(s))
        }),
{
    s.insert(name)
}

/// What the parameter walk keeps for the exec side.
pub struct ParamsOut {
    pub expected: Vec<String>,
    /// The names of the parameters walked so far.
    pub seen: indexmap::IndexSet<String>,
    pub path_fields: Vec<Field>,
    pub query_fields: Vec<Field>,
}

pub open spec fn out_state(o: ParamsOut, entries: Seq<EntryV>) -> ParamState {
    ParamState {
        expected: views(o.expected@),
        seen: set_names(o.seen),
        path_fields: fields_view(o.path_fields@),
        query_fields: fields_view(o.query_fields@),
        entries,
    }
}

fn walk_parameter(
    p: &ParameterObject,
    op_path: &ApiPath,
    out: &mut ParamsOut,
    type_index: &mut TypeLookup,
) -> (r: Result<(), Error>)
    ensures
        extends(old(type_index)@, final(type_index)@),
        match param_step(*p, op_path@, out_state(*old(out), Seq::empty())) {
            Ok(st) => r is Ok && old(type_index)@.len() <= final(type_index)@.len() && out_state(*final(out), final(type_index)@.subrange(
                old(type_index)@.len() as int,
                final(type_index)@.len() as int,
            )) == st && final(type_index)@.subrange(0, old(type_index)@.len() as int) == old(
                type_index,
            )@,
            Err(e) => r matches Err(x) && x@ == e,
        },
{
    let in_path = match p.location {
        ParameterLocation::Path => true,
        ParameterLocation::Query => false,
        ParameterLocation::Header => {
            return Err(unsupported_msg(""));
        },
        ParameterLocation::Cookie => {
            return Err(unsupported_msg(""));
        },
    };
    let ghost exp0 = views(out.expected@);
    if in_path {
        match index_of(&out.expected, &p.name) {
            None => {
                return Err(invalid("path parameter '", p.name.as_str(), "' not found in path"));
            },
            Some(k) => {
                proof {
                    lemma_first_index(exp0, p.name@);
                    assert(exp0 == views(out.expected@));
                    assert(first_index(exp0, p.name@) is Some);
                    assert(k as int == first_index(exp0, p.name@)->Some_0);
                }
                out.expected.swap_remove(k);
                assert(views(out.expected@) =~= swap_remove(exp0, k as int));
            },
        }
        if !p.required {
            return Err(invalid("Path parameter '", p.name.as_str(), "' must be 'required'"));
        }
    }
    if !insert_name(&mut out.seen, p.name.clone()) {
        return Err(invalid("Duplicated parameter '", p.name.as_str(), "'"));
    }
    let loc = if in_path {
        "path"
    } else {
        "query"
    };
    let p2 = op_path.duplicate().push(loc).push(p.name.as_str());
    let name = Ident::from_str(p.name.as_str())?;
    let meta = FieldMetadata::new().with_required(p.required);
    let field = Field { name, meta, path: p2.duplicate().into_type_path() };
    let ghost fv = field@;
    let ghost pf0 = fields_view(out.path_fields@);
    let ghost qf0 = fields_view(out.query_fields@);
    if in_path {
        out.path_fields.push(field);
        assert(fields_view(out.path_fields@) =~= pf0.push(fv));
    } else {
        out.query_fields.push(field);
        assert(fields_view(out.query_fields@) =~= qf0.push(fv));
    }
    let ghost start = type_index@;
    match &p.format {
        ParameterFormat::Schema(schema) => {
            let typ = build_type_recursive(schema, &p2, type_index)?;
            let ghost tv = ref_view(typ);
            let ghost mid = type_index@;
            type_index.insert(p2.into_type_path(), typ);
            proof {
                let bs = build_spec(*schema, p2@);
                assert(bs is Ok);
                assert(mid == start + bs->Ok_0.1);
                assert(type_index@.subrange(start.len() as int, type_index@.len() as int)
                    =~= Seq::<EntryV>::empty() + bs->Ok_0.1.push((p2@, tv)));
                assert(type_index@.subrange(0, start.len() as int) =~= start);
                let st0 = out_state(*old(out), Seq::empty());
                let st1 = if in_path {
                    ParamState { expected: swap_remove(st0.expected, first_index(st0.expected, p.name@)->Some_0), ..st0 }
                } else {
                    st0
                };
                assert(in_path ==> first_index(st0.expected, p.name@) is Some);
                assert(exp0 == st0.expected);
                assert(!in_path ==> views(out.expected@) == exp0);
                assert(in_path ==> views(out.expected@) == swap_remove(exp0, first_index(exp0, p.name@)->Some_0));
                assert(views(out.expected@) == st1.expected);
                assert(!st1.seen.contains(p.name@));
                assert(is_identifier(p.name@));
                assert(set_names(out.seen) == st1.seen.push(p.name@));
                let f = FieldV { name: p.name@, description: None, required: p.required, path: p2@ };
                assert(fv == f);
                assert(add_param(*p, op_path@, if in_path { "path"@ } else { "query"@ }, st1, in_path)
                    == Ok::<_, ErrorV>(out_state(*out, type_index@.subrange(start.len() as int, type_index@.len() as int))));
            }
            Ok(())
        },
        ParameterFormat::Content => Err(unsupported_msg("")),
    }
}

} // verus!

verus! {

/// The parameters after the walk, where every declared path parameter
/// was found in the path.
#[verifier::loop_isolation(false)]
fn walk_parameters(
    params: &Vec<RefOr<ParameterObject>>,
    lookup: &Vec<Named<ParameterObject>>,
    op_path: &ApiPath,
    expected: Vec<String>,
    type_index: &mut TypeLookup,
) -> (r: Result<ParamsOut, Error>)
    ensures
        extends(old(type_index)@, final(type_index)@),
        match params_spec(
            params@,
            lookup@,
            op_path@,
            ParamState {
                expected: views(expected@),
                seen: Seq::empty(),
                path_fields: Seq::empty(),
                query_fields: Seq::empty(),
                entries: Seq::empty(),
            },
        ) {
            Ok(st) => r matches Ok(o) && old(type_index)@.len() <= final(type_index)@.len()
                && out_state(o, final(type_index)@.subrange(
                old(type_index)@.len() as int,
                final(type_index)@.len() as int,
            )) == st && final(type_index)@.subrange(0, old(type_index)@.len() as int) == old(
                type_index,
            )@,
            Err(e) => r matches Err(x) && x@ == e,
        },
{
    let ghost start = type_index@;
    let ghost st0 = ParamState {
        expected: views(expected@),
        seen: Seq::empty(),
        path_fields: Seq::empty(),
        query_fields: Seq::empty(),
        entries: Seq::empty(),
    };
    let ghost whole = params_spec(params@, lookup@, op_path@, st0);
    let mut out = ParamsOut {
        expected,
        seen: empty_name_set(),
        path_fields: Vec::new(),
        query_fields: Vec::new(),
    };
    assert(out_state(out, Seq::empty()) =~= st0) by {
        assert(fields_view(out.path_fields@) =~= Seq::<FieldV>::empty());
        assert(fields_view(out.query_fields@) =~= Seq::<FieldV>::empty());
    }
    assert(params@.skip(0) =~= params@);
    assert(type_index@.subrange(start.len() as int, type_index@.len() as int) =~= Seq::<
        EntryV,
    >::empty());
    let mut i: usize = 0;
    while i < params.len()
        invariant
            i <= params@.len(),
            whole == params_spec(params@, lookup@, op_path@, st0),
            start.len() <= type_index@.len(),
            type_index@.subrange(0, start.len() as int) == start,
            params_spec(
                params@.skip(i as int),
                lookup@,
                op_path@,
                out_state(out, type_index@.subrange(start.len() as int, type_index@.len() as int)),
            ) == whole,
        decreases params@.len() - i,
    {
        let ghost rest = params@.skip(i as int);
        let ghost es0 = type_index@.subrange(start.len() as int, type_index@.len() as int);
        let ghost mid = type_index@;
        let ghost stb = out_state(out, es0);
        assert(rest[0] == params@[i as int]);
        assert(rest.subrange(1, rest.len() as int) =~= params@.skip(i + 1));
        let param = match dereference(&params[i], lookup) {
            Ok(x) => x,
            Err(e) => {
                assert(params_spec(rest, lookup@, op_path@, stb) == Err::<ParamState, _>(e@));
                return Err(e);
            },
        };
        let ghost out0 = out;
        proof {
            lemma_param_step_entries(*param, op_path@, out_state(out0, Seq::empty()), es0);
            assert(out_state(out0, Seq::empty()) == ParamState { entries: Seq::empty(), ..stb });
            assert(ParamState { entries: es0, ..out_state(out0, Seq::empty()) } == stb);
        }
        match walk_parameter(param, op_path, &mut out, type_index) {
            Ok(()) => {},
            Err(e) => {
                assert(params_spec(rest, lookup@, op_path@, stb) == Err::<ParamState, _>(e@));
                return Err(e);
            },
        }
        proof {
            let inner = type_index@.subrange(mid.len() as int, type_index@.len() as int);
            let ps = param_step(*param, op_path@, out_state(out0, Seq::empty()));
            assert(ps is Ok);
            let st2 = ps->Ok_0;
            assert(out_state(out, inner) == st2);
            assert(type_index@.subrange(0, mid.len() as int) == mid);
            assert(type_index@ =~= mid + inner);
            assert(type_index@.subrange(0, start.len() as int) =~= start);
            assert(type_index@.subrange(start.len() as int, type_index@.len() as int) =~= es0
                + inner);
            lemma_param_step_entries(*param, op_path@, out_state(out0, Seq::empty()), es0);
            assert(out_state(out, es0 + inner) == ParamState { entries: es0 + inner, ..st2 });
        }
        i = i + 1;
    }
    assert(params@.skip(i as int) =~= Seq::<RefOr<ParameterObject>>::empty());
    Ok(out)
}

/// A parameter step does not look at the definitions found before it.
proof fn lemma_param_step_entries(p: ParameterObject, op_path: Seq<Seq<char>>, st: ParamState, es: Seq<EntryV>)
    requires
        st.entries == Seq::<EntryV>::empty(),
    ensures
        match param_step(p, op_path, st) {
            Ok(st2) => param_step(p, op_path, ParamState { entries: es, ..st }) == Ok::<_, ErrorV>(
                ParamState { entries: es + st2.entries, ..st2 },
            ),
            Err(e) => param_step(p, op_path, ParamState { entries: es, ..st }) == Err::<ParamState, _>(e),
        },
{
    match param_step(p, op_path, st) {
        Ok(st2) => {
            assert(es + st2.entries =~= es + (Seq::<EntryV>::empty() + st2.entries));
            match p.format {
                ParameterFormat::Schema(s) => {
                    let name = p.name@;
                    let loc = if p.location is Path { "path"@ } else { "query"@ };
                    let bs = build_spec(s, op_path.push(loc).push(name));
                    if bs is Ok {
                        let e2 = bs->Ok_0.1.push((op_path.push(loc).push(name), bs->Ok_0.0));
                        assert(st2.entries =~= Seq::<EntryV>::empty() + e2);
                        assert(es + e2 =~= es + st2.entries);
                    }
                },
                _ => {},
            }
        },
        Err(e) => {},
    }
}

} // verus!

verus! {

/// A route: one operation on one path, with everything needed to
/// generate code for it.
pub struct Route {
    pub summary: Option<String>,
    pub description: Option<String>,
    pub operation_id: Ident,
    pub method: Method,
    pub path: RoutePath,
    pub path_params: Option<ParamGroup>,
    pub query_params: Option<ParamGroup>,
    pub responses: ResponsesObject,
}

pub struct RouteV {
    pub summary: Option<Seq<char>>,
    pub description: Option<Seq<char>>,
    pub operation_id: Seq<char>,
    pub method: RawMethod,
    pub body: Option<Seq<Seq<char>>>,
    pub path: Seq<SegmentView>,
    pub path_params: Option<GroupV>,
    pub query_params: Option<GroupV>,
    pub responses: ResponsesV,
}

impl View for Route {
    type V = RouteV;

    open spec fn view(&self) -> RouteV {
        RouteV {
            summary: crate::types::opt_str(self.summary),
            description: crate::types::opt_str(self.description),
            operation_id: self.operation_id@,
            method: self.method.raw(),
            body: self.method.body_spec(),
            path: self.path@,
            path_params: opt_group(self.path_params),
            query_params: opt_group(self.query_params),
            responses: self.responses@,
        }
    }
}

/// `{"a", "b"}`: how a set of names is shown in messages.
pub open spec fn debug_set(names: Seq<Seq<char>>) -> Seq<char> {
    seq!['{'] + debug_items(names) + seq!['}']
}

/// The names, each in double quotes, separated by `, `.
pub open spec fn debug_items(names: Seq<Seq<char>>) -> Seq<char>
    decreases names.len(),
{
    if names.len() == 0 {
        Seq::empty()
    } else if names.len() == 1 {
        seq!['"'] + names[0] + seq!['"']
    } else {
        debug_items(names.drop_last()) + seq![',', ' ', '"'] + names.last() + seq!['"']
    }
}

fn push_debug_items(s: &mut String, names: &Vec<String>)
    ensures
        final(s)@ == old(s)@ + debug_items(views(names@)),
{
    let ghost start = s@;
    let mut i: usize = 0;
    while i < names.len()
        invariant
            i <= names@.len(),
            s@ == start + debug_items(views(names@).take(i as int)),
        decreases names@.len() - i,
    {
        let ghost before = s@;
        assert(views(names@).take(i + 1).drop_last() =~= views(names@).take(i as int));
        assert(views(names@).take(i + 1).last() == names@[i as int]@);
        if i > 0 {
            crate::text::push_char(s, ',');
            crate::text::push_char(s, ' ');
        }
        crate::text::push_char(s, '"');
        s.append(names[i].as_str());
        crate::text::push_char(s, '"');
        if i > 0 {
            assert(s@ =~= before + (seq![',', ' ', '"'] + names@[i as int]@ + seq!['"']));
        } else {
            assert(views(names@).take(1) =~= seq![names@[0]@]);
            assert(s@ =~= before + (seq!['"'] + names@[i as int]@ + seq!['"']));
        }
        i = i + 1;
    }
    assert(views(names@).take(names@.len() as int) =~= views(names@));
}

/// The metadata of the struct that gathers an operation's parameters.
pub open spec fn private_meta() -> crate::types::MetaV {
    crate::types::MetaV {
        title: None,
        description: None,
        nullable: false,
        visibility: crate::types::Visibility::Private,
    }
}

/// The struct type that gathers the parameters `fields`, at `op_path.loc`
/// (none where there are no parameters), and its index entry.
pub open spec fn group_spec(fields: Seq<FieldV>, op_path: Seq<Seq<char>>, loc: Seq<char>) -> (
    Option<GroupV>,
    Seq<EntryV>,
) {
    if fields.len() == 0 {
        (None, Seq::empty())
    } else {
        let tp = op_path.push(loc);
        (
            Some(GroupV { path: tp, fields }),
            seq![
                (
                    tp,
                    crate::types::RefOrV::Item(
                        crate::types::TypeV {
                            meta: private_meta(),
                            inner: crate::types::InnerV::Struct(fields),
                        },
                    ),
                ),
            ],
        )
    }
}

fn type_from_params(fields: Vec<Field>, op_path: &ApiPath, loc: &str, type_index: &mut TypeLookup) -> (r:
    Option<ParamGroup>)
    ensures
        extends(old(type_index)@, final(type_index)@),
        opt_group(r) == group_spec(fields_view(fields@), op_path@, loc@).0,
        final(type_index)@ == old(type_index)@ + group_spec(fields_view(fields@), op_path@, loc@).1,
{
    if fields.len() == 0 {
        assert(type_index@ =~= type_index@ + Seq::<EntryV>::empty());
        return None;
    }
    let meta = crate::types::TypeMetadata::new().with_visibility(crate::types::Visibility::Private);
    let typ = crate::types::TypeInner::Struct(crate::types::clone_fields(&fields)).with_meta(meta);
    let type_path = op_path.duplicate().push(loc).into_type_path();
    let ghost before = type_index@;
    type_index.insert(type_path.duplicate(), RefOr::Item(typ));
    assert(type_index@ =~= before + group_spec(fields_view(fields@), op_path@, loc@).1);
    Some(ParamGroup { type_path, fields })
}

/// What walking the request body of an operation at `path` gives.
pub open spec fn body_spec(
    rb: Option<RefOr<crate::model::RequestBodyObject>>,
    path: Seq<Seq<char>>,
    lookup: Seq<Named<crate::model::RequestBodyObject>>,
) -> Result<(Option<Seq<Seq<char>>>, Seq<EntryV>), ErrorV> {
    match rb {
        None => Ok((None, Seq::empty())),
        Some(r) => match deref_spec(r, lookup, lookup.len()) {
            Err(e) => Err(e),
            Ok(b) => contents_spec(b.content@, path),
        },
    }
}

/// The components' lookups (empty where the description has none).
pub open spec fn param_lookup(c: Option<crate::model::ComponentsObject>) -> Seq<Named<ParameterObject>> {
    match c {
        Some(x) => x.parameters@,
        None => Seq::empty(),
    }
}

pub open spec fn body_lookup(c: Option<crate::model::ComponentsObject>) -> Seq<
    Named<crate::model::RequestBodyObject>,
> {
    match c {
        Some(x) => x.request_bodies@,
        None => Seq::empty(),
    }
}

pub open spec fn response_lookup(c: Option<crate::model::ComponentsObject>) -> Seq<Named<ResponseObject>> {
    match c {
        Some(x) => x.responses@,
        None => Seq::empty(),
    }
}

pub open spec fn schema_lookup(c: Option<crate::model::ComponentsObject>) -> Seq<
    Named<crate::model::SchemaObject>,
> {
    match c {
        Some(x) => x.schemas@,
        None => Seq::empty(),
    }
}

/// What remains of walking an operation once its parameters are done:
/// the parameter structs, the body, the method check and the responses.
/// The definitions given are those recorded after the parameters' own.
pub open spec fn op_tail_spec(
    op: crate::model::OperationObject,
    method: RawMethod,
    op_path: Seq<Seq<char>>,
    route: Seq<SegmentView>,
    path_fields: Seq<FieldV>,
    query_fields: Seq<FieldV>,
    blookup: Seq<Named<crate::model::RequestBodyObject>>,
    rlookup: Seq<Named<ResponseObject>>,
) -> Result<(RouteV, Seq<EntryV>), ErrorV> {
    let pg = group_spec(path_fields, op_path, "path"@);
    let qg = group_spec(query_fields, op_path, "query"@);
    match body_spec(op.request_body, op_path.push("request_body"@), blookup) {
        Err(e) => Err(e),
        Ok((body, be)) => if crate::method::cannot_have_body(method) && body is Some {
            Err(
                ErrorV::Validation(
                    "Method '"@ + raw_method_name(method) + "' canoot have a body"@,
                ),
            )
        } else {
            match responses_spec(op.responses, op_path, rlookup) {
                Err(e) => Err(e),
                Ok((rv, re)) => Ok(
                    (
                        RouteV {
                            summary: crate::types::opt_str(op.summary),
                            description: crate::types::opt_str(op.description),
                            operation_id: op_path.last(),
                            method,
                            body,
                            path: route,
                            path_params: pg.0,
                            query_params: qg.0,
                            responses: rv,
                        },
                        pg.1 + qg.1 + be + re,
                    ),
                ),
            }
        },
    }
}

/// What walking the operation `op`, found under `method` at `path`, of
/// the route with segments `route` gives: the route and the definitions
/// recorded, in order (parameters, their structs, body, responses).
/// The walk of an operation's parameters, for the operation id `id`.
pub open spec fn op_params_spec(
    op: crate::model::OperationObject,
    id: Seq<char>,
    path: Seq<Seq<char>>,
    route: Seq<SegmentView>,
    comps: Option<crate::model::ComponentsObject>,
) -> Result<ParamState, ErrorV> {
    params_spec(
        op.parameters@,
        param_lookup(comps),
        path.push(id),
        ParamState {
            expected: crate::route_path::params_in(route),
            seen: Seq::empty(),
            path_fields: Seq::empty(),
            query_fields: Seq::empty(),
            entries: Seq::empty(),
        },
    )
}

pub open spec fn op_spec(
    op: crate::model::OperationObject,
    method: RawMethod,
    path: Seq<Seq<char>>,
    route: Seq<SegmentView>,
    comps: Option<crate::model::ComponentsObject>,
) -> Result<(RouteV, Seq<EntryV>), ErrorV> {
    if op.has_security() {
        Err(ErrorV::Unsupported("Security not supported"@))
    } else {
        match op.operation_id {
            None => Err(
                ErrorV::Validation("Missing operationId for '"@ + route_text(route) + "'"@),
            ),
            Some(id) => if !is_identifier(id@) {
                Err(
                    ErrorV::Validation(
                        "Bad identifier '"@ + id@ + "' (not a valid Rust identifier)"@,
                    ),
                )
            } else {
                let op_path = path.push(id@);
                let st0 = ParamState {
                    expected: crate::route_path::params_in(route),
                    seen: Seq::empty(),
                    path_fields: Seq::empty(),
                    query_fields: Seq::empty(),
                    entries: Seq::empty(),
                };
                match params_spec(op.parameters@, param_lookup(comps), op_path, st0) {
                    Err(e) => Err(e),
                    Ok(st) => if st.expected.len() > 0 {
                        Err(
                            ErrorV::Validation(
                                "Not enough path parameters specified (Missing: "@ + debug_set(
                                    st.expected,
                                ) + ")"@,
                            ),
                        )
                    } else {
                        match op_tail_spec(
                            op,
                            method,
                            op_path,
                            route,
                            st.path_fields,
                            st.query_fields,
                            body_lookup(comps),
                            response_lookup(comps),
                        ) {
                            Err(e) => Err(e),
                            Ok((rv, es)) => Ok((rv, st.entries + es)),
                        }
                    },
                }
            },
        }
    }
}

} // verus!

verus! {

/// Walks one operation: checks its id and parameters, builds and records
/// the types of its parameters, body and responses.
pub fn walk_operation(
    op: &crate::model::OperationObject,
    method: RawMethod,
    path: ApiPath,
    route_path: &RoutePath,
    type_index: &mut TypeLookup,
    comps: &Option<crate::model::ComponentsObject>,
) -> (r: Result<Route, Error>)
    ensures
        extends(old(type_index)@, final(type_index)@),
        match op_spec(*op, method, path@, route_path@, *comps) {
            Ok((rv, es)) => r matches Ok(x) && x@ == rv && final(type_index)@ == old(type_index)@
                + es,
            Err(e) => r matches Err(x) && x@ == e,
        },
        op.spec_has_security() || !(op.operation_id matches Some(id) && is_identifier(id@))
            ==> final(type_index)@ == old(type_index)@,
        op.operation_id matches Some(id) ==> (!op.spec_has_security() && is_identifier(id@) ==> (
        match op_params_spec(*op, id@, path@, route_path@, *comps) {
            Ok(st) => st.expected.len() > 0 ==> final(type_index)@ == old(type_index)@ + st.entries,
            Err(_) => true,
        })),
{
    if op.has_security() {
        return Err(unsupported_msg("Security not supported"));
    }
    let (operation_id, op_path) = match &op.operation_id {
        Some(id) => {
            let opid = Ident::from_str(id.as_str())?;
            (opid, path.push(id.as_str()))
        },
        None => {
            let rt = route_path.to_string();
            return Err(invalid("Missing operationId for '", rt.as_str(), "'"));
        },
    };
    let empty_params: Vec<Named<ParameterObject>> = Vec::new();
    let empty_bodies: Vec<Named<crate::model::RequestBodyObject>> = Vec::new();
    let empty_responses: Vec<Named<ResponseObject>> = Vec::new();
    let (plookup, blookup, rlookup) = match comps {
        Some(c) => (&c.parameters, &c.request_bodies, &c.responses),
        None => (&empty_params, &empty_bodies, &empty_responses),
    };
    assert(plookup@ == param_lookup(*comps));
    assert(blookup@ == body_lookup(*comps));
    assert(rlookup@ == response_lookup(*comps));
    let ghost start = type_index@;
    let expected = route_path.path_args();
    assert(views(expected@) == expected@.map_values(|s: String| s@));
    let ghost st0 = ParamState {
        expected: views(expected@),
        seen: Seq::empty(),
        path_fields: Seq::empty(),
        query_fields: Seq::empty(),
        entries: Seq::empty(),
    };
    assert(st0.expected == crate::route_path::params_in(route_path@));
    let ghost exp_v = views(expected@);
    let wp = walk_parameters(&op.parameters, plookup, &op_path, expected, type_index);
    let params = match wp {
        Ok(x) => x,
        Err(e) => {
            return Err(e);
        },
    };
    assert(st0.expected == exp_v);
    assert(params_spec(op.parameters@, plookup@, op_path@, st0) is Ok);
    assert(start.len() <= type_index@.len());
    let ghost after_params = type_index@;
    let ghost pes = after_params.subrange(start.len() as int, after_params.len() as int);
    assert(after_params =~= start + pes);
    if params.expected.len() > 0 {
        let mut m = String::from_str("Not enough path parameters specified (Missing: ");
        crate::text::push_char(&mut m, '{');
        push_debug_items(&mut m, &params.expected);
        crate::text::push_char(&mut m, '}');
        m.append(")");
        assert(m@ =~= "Not enough path parameters specified (Missing: "@ + debug_set(
            views(params.expected@),
        ) + ")"@);
        return Err(Error::Validation(m));
    }
    let route = finish_operation(op, method, &op_path, route_path, params.path_fields, params.query_fields, type_index, blookup, rlookup)?;
    proof {
        let ts = op_tail_spec(
            *op,
            method,
            op_path@,
            route_path@,
            fields_view(params.path_fields@),
            fields_view(params.query_fields@),
            body_lookup(*comps),
            response_lookup(*comps),
        );
        assert(ts is Ok);
        assert(type_index@ =~= old(type_index)@ + (pes + ts->Ok_0.1));
    }
    Ok(route)
}

/// The rest of `walk_operation`, once the parameters are walked.
fn finish_operation(
    op: &crate::model::OperationObject,
    method: RawMethod,
    op_path: &ApiPath,
    route_path: &RoutePath,
    path_fields: Vec<Field>,
    query_fields: Vec<Field>,
    type_index: &mut TypeLookup,
    blookup: &Vec<Named<crate::model::RequestBodyObject>>,
    rlookup: &Vec<Named<ResponseObject>>,
) -> (r: Result<Route, Error>)
    requires
        op_path@.len() > 0,
        op.operation_id matches Some(id) && id@ == op_path@.last() && is_identifier(id@),
    ensures
        extends(old(type_index)@, final(type_index)@),
        match op_tail_spec(
            *op,
            method,
            op_path@,
            route_path@,
            fields_view(path_fields@),
            fields_view(query_fields@),
            blookup@,
            rlookup@,
        ) {
            Ok((rv, es)) => r matches Ok(x) && x@ == rv && final(type_index)@ == old(type_index)@
                + es,
            Err(e) => r matches Err(x) && x@ == e,
        },
{
    let ghost start = type_index@;
    let ghost pg = group_spec(fields_view(path_fields@), op_path@, "path"@);
    let ghost qg = group_spec(fields_view(query_fields@), op_path@, "query"@);
    let path_params = type_from_params(path_fields, op_path, "path", type_index);
    let query_params = type_from_params(query_fields, op_path, "query", type_index);
    let ghost after_groups = type_index@;
    assert(after_groups =~= start + (pg.1 + qg.1));
    let body_path = match &op.request_body {
        None => {
            assert(type_index@ =~= type_index@ + Seq::<EntryV>::empty());
            None
        },
        Some(rb) => {
            let p = op_path.duplicate().push("request_body");
            let reqbody = dereference(rb, blookup)?;
            walk_contents(&reqbody.content, &p, type_index)?
        },
    };
    let ghost after_body = type_index@;
    let method = Method::from_raw(method, body_path)?;
    let responses = walk_responses(&op.responses, op_path, type_index, rlookup)?;
    let operation_id = match &op.operation_id {
        Some(id) => Ident::from_str(id.as_str()),
        None => {
            assert(false);
            Err(unsupported_msg(""))
        },
    };
    let operation_id = match operation_id {
        Ok(x) => x,
        Err(e) => {
            assert(false);
            return Err(e);
        },
    };
    proof {
        let bs = body_spec(op.request_body, op_path@.push("request_body"@), blookup@);
        assert(bs is Ok);
        let rs = responses_spec(op.responses, op_path@, rlookup@);
        assert(rs is Ok);
        assert(type_index@ =~= old(type_index)@ + (pg.1 + qg.1 + bs->Ok_0.1 + rs->Ok_0.1));
    }
    Ok(
        Route {
            summary: crate::types::clone_opt_str(&op.summary),
            description: crate::types::clone_opt_str(&op.description),
            operation_id,
            method,
            path: route_path.duplicate(),
            path_params,
            query_params,
            responses,
        },
    )
}

/// The names of a group of parameters (none where there is no group).
pub open spec fn group_names(g: Option<GroupV>) -> Seq<Seq<char>> {
    match g {
        Some(x) => crate::typebuild::field_names(x.fields),
        None => Seq::empty(),
    }
}

/// What stays true while the parameters of an operation are walked: the
/// path parameters still expected and those declared make up the
/// parameters of the path; the declared ones are named once each, are
/// required, and are among the names seen.
pub open spec fn path_params_kept(st: ParamState, wanted: Set<Seq<char>>) -> bool {
    &&& st.expected.to_set() + crate::typebuild::field_names(st.path_fields).to_set() == wanted
    &&& crate::model::no_repeats(crate::typebuild::field_names(st.path_fields))
    &&& forall|i: int| 0 <= i < st.path_fields.len() ==> (#[trigger] st.path_fields[i]).required
    &&& forall|x: Seq<char>| crate::typebuild::field_names(st.path_fields).contains(x) ==> #[trigger] st.seen.contains(x)
}

proof fn lemma_swap_remove_set(s: Seq<Seq<char>>, k: int)
    requires
        0 <= k < s.len(),
    ensures
        swap_remove(s, k).to_set().insert(s[k]) == s.to_set(),
{
    let r = swap_remove(s, k);
    assert forall|x: Seq<char>| r.to_set().insert(s[k]).contains(x) <==> s.to_set().contains(x) by {
        if s.contains(x) && x != s[k] {
            let i = choose|i: int| 0 <= i < s.len() && s[i] == x;
            if i == s.len() - 1 {
                assert(r[k] == x);
            } else {
                assert(r[i] == x);
            }
        }
        if r.contains(x) {
            let i = choose|i: int| 0 <= i < r.len() && r[i] == x;
            if i == k {
                assert(s[s.len() - 1] == x);
            } else {
                assert(s[i] == x);
            }
        }
    }
    assert(r.to_set().insert(s[k]) =~= s.to_set());
}

proof fn lemma_add_path_field(st: ParamState, next: ParamState, f: FieldV, wanted: Set<Seq<char>>, k: int)
    requires
        path_params_kept(st, wanted),
        0 <= k < st.expected.len(),
        st.expected[k] == f.name,
        !st.seen.contains(f.name),
        f.required,
        next.expected == swap_remove(st.expected, k),
        next.seen == st.seen.push(f.name),
        next.path_fields == st.path_fields.push(f),
    ensures
        path_params_kept(next, wanted),
{
    let names = crate::typebuild::field_names(st.path_fields);
    let names2 = crate::typebuild::field_names(next.path_fields);
    assert(names2 =~= names.push(f.name));
    lemma_swap_remove_set(st.expected, k);
    names.lemma_push_to_set_commute(f.name);
    assert(names2.to_set() =~= names.to_set().insert(f.name));
    assert(swap_remove(st.expected, k).to_set() + names2.to_set() =~= st.expected.to_set()
        + names.to_set());
    assert(!names.contains(f.name)) by {
        if names.contains(f.name) {
            assert(st.seen.contains(f.name));
        }
    }
    assert forall|i: int, j: int|
        0 <= i < names2.len() && 0 <= j < names2.len() && i != j implies names2[i] != names2[j] by {
        if i < names.len() && j < names.len() {
        } else if i < names.len() {
            assert(names2[i] == names[i]);
        } else if j < names.len() {
            assert(names2[j] == names[j]);
        }
    }
    let fs2 = next.path_fields;
    assert forall|i: int| 0 <= i < fs2.len() implies (#[trigger] fs2[i]).required by {
        if i < st.path_fields.len() {
            assert(fs2[i] == st.path_fields[i]);
        }
    }
    let seen2 = next.seen;
    assert forall|x: Seq<char>| names2.contains(x) implies #[trigger] seen2.contains(x) by {
        let i = choose|i: int| 0 <= i < names2.len() && names2[i] == x;
        if i < names.len() {
            assert(names[i] == x);
            assert(names.contains(x));
            assert(st.seen.contains(x));
            let j = choose|j: int| 0 <= j < st.seen.len() && st.seen[j] == x;
            assert(seen2[j] == x);
        } else {
            assert(seen2[st.seen.len() as int] == x);
        }
    }
}

proof fn lemma_params_keep(
    ps: Seq<RefOr<ParameterObject>>,
    lookup: Seq<Named<ParameterObject>>,
    op_path: Seq<Seq<char>>,
    st: ParamState,
    wanted: Set<Seq<char>>,
)
    requires
        params_spec(ps, lookup, op_path, st) is Ok,
        path_params_kept(st, wanted),
    ensures
        path_params_kept(params_spec(ps, lookup, op_path, st)->Ok_0, wanted),
    decreases ps.len(),
{
    if ps.len() > 0 {
        let p = deref_spec(ps[0], lookup, lookup.len())->Ok_0;
        let st2 = param_step(p, op_path, st)->Ok_0;
        match p.location {
            ParameterLocation::Path => {
                let k = first_index(st.expected, p.name@)->Some_0;
                lemma_first_index(st.expected, p.name@);
                let p2 = op_path.push("path"@).push(p.name@);
                let f = FieldV { name: p.name@, description: None, required: p.required, path: p2 };
                assert(st2.path_fields == st.path_fields.push(f));
                lemma_add_path_field(st, st2, f, wanted, k);
            },
            ParameterLocation::Query => {
                let names = crate::typebuild::field_names(st2.path_fields);
                assert forall|x: Seq<char>| names.contains(x) implies #[trigger] st2.seen.contains(x) by {
                    assert(crate::typebuild::field_names(st.path_fields).contains(x));
                    assert(st.seen.contains(x));
                    let j = choose|j: int| 0 <= j < st.seen.len() && st.seen[j] == x;
                    assert(st2.seen[j] == x);
                }
            },
            _ => {},
        }
        lemma_params_keep(ps.subrange(1, ps.len() as int), lookup, op_path, st2, wanted);
    }
}

/// A route's path parameters are exactly the parameters its path names:
/// each is declared once, as a required path parameter, and no other
/// parameter is a path parameter.
pub proof fn law_path_params_match_path(
    op: crate::model::OperationObject,
    method: RawMethod,
    path: Seq<Seq<char>>,
    route: Seq<SegmentView>,
    comps: Option<crate::model::ComponentsObject>,
)
    requires
        op_spec(op, method, path, route, comps) is Ok,
    ensures
        ({
            let rv = op_spec(op, method, path, route, comps)->Ok_0.0;
            &&& rv.path == route
            &&& group_names(rv.path_params).to_set() == crate::route_path::params_in(route).to_set()
            &&& crate::model::no_repeats(group_names(rv.path_params))
            &&& rv.path_params matches Some(g) ==> forall|i: int|
                0 <= i < g.fields.len() ==> (#[trigger] g.fields[i]).required
        }),
{
    let id = op.operation_id->Some_0;
    let op_path = path.push(id@);
    let wanted = crate::route_path::params_in(route).to_set();
    let st0 = ParamState {
        expected: crate::route_path::params_in(route),
        seen: Seq::empty(),
        path_fields: Seq::empty(),
        query_fields: Seq::empty(),
        entries: Seq::empty(),
    };
    assert(crate::typebuild::field_names(st0.path_fields) =~= Seq::<Seq<char>>::empty());
    assert(st0.expected.to_set() + crate::typebuild::field_names(st0.path_fields).to_set() =~= wanted);
    lemma_params_keep(op.parameters@, param_lookup(comps), op_path, st0, wanted);
    let st = params_spec(op.parameters@, param_lookup(comps), op_path, st0)->Ok_0;
    assert(st.expected.len() == 0);
    assert(st.expected.to_set() =~= Set::<Seq<char>>::empty());
    let rv = op_spec(op, method, path, route, comps)->Ok_0.0;
    if st.path_fields.len() == 0 {
        assert(crate::typebuild::field_names(st.path_fields) =~= Seq::<Seq<char>>::empty());
        assert(group_names(rv.path_params) =~= Seq::<Seq<char>>::empty());
    } else {
        assert(group_names(rv.path_params) == crate::typebuild::field_names(st.path_fields));
    }
    assert(group_names(rv.path_params).to_set() =~= wanted);
}

/// Declaring a parameter adds one field, named after it and recorded under
/// `<operation>.path.<name>` or `<operation>.query.<name>`, to the path
/// fields or the query fields according to where the parameter is; the
/// field is required exactly when the parameter is. The other list stays
/// as it was, and the name counts as declared from then on.
pub proof fn law_parameter_field(p: ParameterObject, op_path: Seq<Seq<char>>, st: ParamState)
    requires
        param_step(p, op_path, st) is Ok,
    ensures
        ({
            let st2 = param_step(p, op_path, st)->Ok_0;
            let in_path = p.location is Path;
            let added = if in_path { st2.path_fields } else { st2.query_fields };
            let kept = if in_path { st2.query_fields } else { st2.path_fields };
            let before = if in_path { st.path_fields } else { st.query_fields };
            let before_kept = if in_path { st.query_fields } else { st.path_fields };
            &&& p.location is Path || p.location is Query
            &&& added.len() == before.len() + 1
            &&& added.take(before.len() as int) == before
            &&& added.last().name == p.name@
            &&& added.last().required == p.required
            &&& added.last().path == op_path.push(if in_path { "path"@ } else { "query"@ }).push(p.name@)
            &&& kept == before_kept
            &&& !st.seen.contains(p.name@)
            &&& st2.seen == st.seen.push(p.name@)
        }),
{
    let st2 = param_step(p, op_path, st)->Ok_0;
    if p.location is Path {
        assert(st2.path_fields.take(st.path_fields.len() as int) =~= st.path_fields);
    } else {
        assert(st2.query_fields.take(st.query_fields.len() as int) =~= st.query_fields);
    }
}

} // verus!
