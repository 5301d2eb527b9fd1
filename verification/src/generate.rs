//! Everything the generator writes for a description: the types, a
//! response enum per route, the API trait, the request handlers, the
//! server's routing table and the client.
use vstd::prelude::*;
use crate::case::{snake_case, snake_of, upper_camel_case, upper_camel_of};
use crate::error::{concat3, Error, ErrorV, unsupported_msg};
use crate::gen_routes::{client_spec, dispatch_spec, return_spec, signature_spec};
use crate::gen_types::{bad_name_msg, generate_rust_types, types_spec};
use crate::method::verb_name;
use crate::describe::{description_json, json_of_description, parse_description, yaml_description};
use crate::model::OpenApi;
use crate::names::{is_type_name, TypeName};
use crate::plan::{
    ApiPlan, ApiPlanV, ClientPlan, clients_view, ClientV, DispatchPlan, dispatchers_view, DispV,
    InterfacePlan, ResourcePlan, resources_view, ResourceV, responses_view, RetV, ReturnPlan,
    service_view, ServiceRoute, SignaturePlan, sigs_view, SigV,
};
use crate::routes::{api_spec, path_routes_view, PathRoutes, PathRoutesV, routes_view, walk_api};
use crate::walk::{Route, RouteV};

verus! {

/// The routes of all paths, one path after the other.
pub open spec fn all_routes(rs: Seq<PathRoutesV>) -> Seq<RouteV>
    decreases rs.len(),
{
    if rs.len() == 0 {
        Seq::empty()
    } else {
        all_routes(rs.drop_last()) + rs.last().1
    }
}

pub open spec fn routes_of_refs(v: Seq<&Route>) -> Seq<RouteV> {
    v.map_values(|r: &Route| r@)
}

/// The routes of all paths, one path after the other.
pub fn flat_routes<'a>(routes: &'a Vec<PathRoutes>) -> (r: Vec<&'a Route>)
    ensures
        routes_of_refs(r@) == all_routes(path_routes_view(routes@)),
{
    let ghost rv = path_routes_view(routes@);
    let mut out: Vec<&Route> = Vec::new();
    let mut i: usize = 0;
    assert(routes_of_refs(out@) =~= all_routes(rv.take(0)));
    while i < routes.len()
        invariant
            i <= routes@.len(),
            rv == path_routes_view(routes@),
            routes_of_refs(out@) == all_routes(rv.take(i as int)),
        decreases routes@.len() - i,
    {
        let pr = &routes[i];
        let ghost base = routes_of_refs(out@);
        let ghost prv = routes_view(pr.routes@);
        let mut j: usize = 0;
        assert(base + prv.take(0) =~= base);
        while j < pr.routes.len()
            invariant
                j <= pr.routes@.len(),
                prv == routes_view(pr.routes@),
                routes_of_refs(out@) == base + prv.take(j as int),
            decreases pr.routes@.len() - j,
        {
            let ghost before = routes_of_refs(out@);
            out.push(&pr.routes[j]);
            assert(routes_of_refs(out@) =~= before.push(pr.routes@[j as int]@));
            assert(base + prv.take(j + 1) =~= (base + prv.take(j as int)).push(prv[j as int]));
            j = j + 1;
        }
        assert(prv.take(j as int) =~= prv);
        assert(rv.take(i + 1).drop_last() =~= rv.take(i as int));
        assert(rv.take(i + 1).last() == (pr.path@, prv));
        i = i + 1;
    }
    assert(rv.take(i as int) =~= rv);
    out
}

/// The response enums of the routes `rs`, after those in `acc`.
pub open spec fn returns_spec(rs: Seq<RouteV>, acc: Seq<RetV>) -> Result<Seq<RetV>, ErrorV>
    decreases rs.len(),
{
    if rs.len() == 0 {
        Ok(acc)
    } else {
        match return_spec(rs[0]) {
            Err(e) => Err(e),
            Ok(x) => returns_spec(rs.subrange(1, rs.len() as int), acc.push(x)),
        }
    }
}

/// The trait methods of the routes `rs`, after those in `acc`.
pub open spec fn sigs_spec(rs: Seq<RouteV>, acc: Seq<SigV>) -> Result<Seq<SigV>, ErrorV>
    decreases rs.len(),
{
    if rs.len() == 0 {
        Ok(acc)
    } else {
        match signature_spec(rs[0]) {
            Err(e) => Err(e),
            Ok(x) => sigs_spec(rs.subrange(1, rs.len() as int), acc.push(x)),
        }
    }
}

/// The handlers of the routes `rs`, after those in `acc`.
pub open spec fn dispatchers_spec(rs: Seq<RouteV>, trait_name: Seq<char>, acc: Seq<DispV>) -> Result<
    Seq<DispV>,
    ErrorV,
>
    decreases rs.len(),
{
    if rs.len() == 0 {
        Ok(acc)
    } else {
        match dispatch_spec(rs[0], trait_name) {
            Err(e) => Err(e),
            Ok(x) => dispatchers_spec(rs.subrange(1, rs.len() as int), trait_name, acc.push(x)),
        }
    }
}

/// The client methods of the routes `rs`, after those in `acc`.
pub open spec fn clients_spec(rs: Seq<RouteV>, acc: Seq<ClientV>) -> Result<Seq<ClientV>, ErrorV>
    decreases rs.len(),
{
    if rs.len() == 0 {
        Ok(acc)
    } else {
        match client_spec(rs[0]) {
            Err(e) => Err(e),
            Ok(x) => clients_spec(rs.subrange(1, rs.len() as int), acc.push(x)),
        }
    }
}

/// The server's routing table: for each path, each route's method in
/// snake case and its handler.
pub open spec fn resources_spec(rs: Seq<PathRoutesV>) -> Seq<ResourceV> {
    rs.map_values(
        |p: PathRoutesV|
            (p.0, p.1.map_values(|r: RouteV| (snake_of(verb_name(r.method)), r.operation_id))),
    )
}

/// The documentation of the API trait.
pub open spec fn interface_doc(title: Seq<char>) -> Seq<char> {
    "Api generated from '"@ + title + "' spec"@
}

/// The name of the API trait: the title in UpperCamelCase followed by
/// `Api`, which must be a valid type name.
pub open spec fn trait_name_spec(title: Seq<char>) -> Result<Seq<char>, ErrorV> {
    let n = upper_camel_of(title) + "Api"@;
    if is_type_name(n) {
        Ok(n)
    } else {
        Err(ErrorV::Unsupported(bad_name_msg()))
    }
}

/// The response enums of all routes.
pub fn generate_return_types(routes: &Vec<PathRoutes>) -> (r: Result<Vec<ReturnPlan>, Error>)
    ensures
        match returns_spec(all_routes(path_routes_view(routes@)), Seq::empty()) {
            Ok(x) => r matches Ok(v) && responses_view(v@) == x,
            Err(e) => r matches Err(v) && v@ == e,
        },
{
    let flat = flat_routes(routes);
    let ghost fv = routes_of_refs(flat@);
    let ghost whole = returns_spec(fv, Seq::empty());
    let mut out: Vec<ReturnPlan> = Vec::new();
    let mut i: usize = 0;
    assert(fv.skip(0) =~= fv);
    assert(responses_view(out@) =~= Seq::<RetV>::empty());
    while i < flat.len()
        invariant
            i <= flat@.len(),
            fv == routes_of_refs(flat@),
            fv == all_routes(path_routes_view(routes@)),
            whole == returns_spec(fv, Seq::empty()),
            returns_spec(fv.skip(i as int), responses_view(out@)) == whole,
        decreases flat@.len() - i,
    {
        let ghost rest = fv.skip(i as int);
        assert(rest[0] == flat@[i as int]@);
        assert(rest.subrange(1, rest.len() as int) =~= fv.skip(i + 1));
        let p = flat[i].generate_return_type()?;
        let ghost before = responses_view(out@);
        out.push(p);
        assert(responses_view(out@) =~= before.push(p@));
        i = i + 1;
    }
    assert(fv.skip(i as int) =~= Seq::<RouteV>::empty());
    Ok(out)
}

/// The API trait: documented with the title, called `trait_name`, with a
/// method for each route.
pub fn generate_rust_interface(routes: &Vec<PathRoutes>, title: &str, trait_name: &TypeName) -> (r:
    Result<InterfacePlan, Error>)
    ensures
        match sigs_spec(all_routes(path_routes_view(routes@)), Seq::empty()) {
            Ok(x) => r matches Ok(v) && v.doc@ == interface_doc(title@) && v.name@
                == trait_name@ && sigs_view(v.methods@) == x,
            Err(e) => r matches Err(v) && v@ == e,
        },
{
    let flat = flat_routes(routes);
    let ghost fv = routes_of_refs(flat@);
    let ghost whole = sigs_spec(fv, Seq::empty());
    let mut out: Vec<SignaturePlan> = Vec::new();
    let mut i: usize = 0;
    assert(fv.skip(0) =~= fv);
    assert(sigs_view(out@) =~= Seq::<SigV>::empty());
    while i < flat.len()
        invariant
            i <= flat@.len(),
            fv == routes_of_refs(flat@),
            fv == all_routes(path_routes_view(routes@)),
            whole == sigs_spec(fv, Seq::empty()),
            sigs_spec(fv.skip(i as int), sigs_view(out@)) == whole,
        decreases flat@.len() - i,
    {
        let ghost rest = fv.skip(i as int);
        assert(rest[0] == flat@[i as int]@);
        assert(rest.subrange(1, rest.len() as int) =~= fv.skip(i + 1));
        let p = flat[i].generate_api_signature()?;
        let ghost before = sigs_view(out@);
        out.push(p);
        assert(sigs_view(out@) =~= before.push(p@));
        i = i + 1;
    }
    assert(fv.skip(i as int) =~= Seq::<RouteV>::empty());
    Ok(
        InterfacePlan {
            doc: concat3("Api generated from '", title, "' spec"),
            name: trait_name.duplicate(),
            methods: out,
        },
    )
}

/// The request handlers of all routes, for an implementation of
/// `trait_name`.
pub fn generate_rust_dispatchers(routes: &Vec<PathRoutes>, trait_name: &TypeName) -> (r: Result<
    Vec<DispatchPlan>,
    Error,
>)
    ensures
        match dispatchers_spec(all_routes(path_routes_view(routes@)), trait_name@, Seq::empty()) {
            Ok(x) => r matches Ok(v) && dispatchers_view(v@) == x,
            Err(e) => r matches Err(v) && v@ == e,
        },
{
    let flat = flat_routes(routes);
    let ghost fv = routes_of_refs(flat@);
    let ghost whole = dispatchers_spec(fv, trait_name@, Seq::empty());
    let mut out: Vec<DispatchPlan> = Vec::new();
    let mut i: usize = 0;
    assert(fv.skip(0) =~= fv);
    assert(dispatchers_view(out@) =~= Seq::<DispV>::empty());
    while i < flat.len()
        invariant
            i <= flat@.len(),
            fv == routes_of_refs(flat@),
            fv == all_routes(path_routes_view(routes@)),
            whole == dispatchers_spec(fv, trait_name@, Seq::empty()),
            dispatchers_spec(fv.skip(i as int), trait_name@, dispatchers_view(out@)) == whole,
        decreases flat@.len() - i,
    {
        let ghost rest = fv.skip(i as int);
        assert(rest[0] == flat@[i as int]@);
        assert(rest.subrange(1, rest.len() as int) =~= fv.skip(i + 1));
        let p = flat[i].generate_dispatcher(trait_name)?;
        let ghost before = dispatchers_view(out@);
        out.push(p);
        assert(dispatchers_view(out@) =~= before.push(p@));
        i = i + 1;
    }
    assert(fv.skip(i as int) =~= Seq::<RouteV>::empty());
    Ok(out)
}

/// The server's routing table.
pub fn generate_rust_server(routes: &Vec<PathRoutes>) -> (r: Vec<ResourcePlan>)
    ensures
        resources_view(r@) == resources_spec(path_routes_view(routes@)),
{
    let ghost rv = path_routes_view(routes@);
    let mut out: Vec<ResourcePlan> = Vec::new();
    let mut i: usize = 0;
    while i < routes.len()
        invariant
            i <= routes@.len(),
            rv == path_routes_view(routes@),
            resources_view(out@) == resources_spec(rv).take(i as int),
        decreases routes@.len() - i,
    {
        let pr = &routes[i];
        let ghost prv = routes_view(pr.routes@);
        let ghost want = prv.map_values(|r: RouteV| (snake_of(verb_name(r.method)), r.operation_id));
        let mut service: Vec<ServiceRoute> = Vec::new();
        let mut j: usize = 0;
        while j < pr.routes.len()
            invariant
                j <= pr.routes@.len(),
                prv == routes_view(pr.routes@),
                want == prv.map_values(|r: RouteV| (snake_of(verb_name(r.method)), r.operation_id)),
                service_view(service@) == want.take(j as int),
            decreases pr.routes@.len() - j,
        {
            let route = &pr.routes[j];
            let m = snake_case(route.method.verb());
            let ghost before = service_view(service@);
            let ghost item = (m@, route.operation_id@);
            assert(prv[j as int] == route@);
            assert(want[j as int] == item);
            service.push(ServiceRoute { method: m, handler: route.operation_id.duplicate() });
            assert(service_view(service@) =~= before.push(item));
            assert(want.take(j + 1) =~= want.take(j as int).push(item));
            j = j + 1;
        }
        assert(want.take(j as int) =~= want);
        let ghost before = resources_view(out@);
        let ghost item = (pr.path@, want);
        assert(rv[i as int] == (pr.path@, prv));
        assert(resources_spec(rv)[i as int] == item);
        out.push(ResourcePlan { path: pr.path.clone(), routes: service });
        assert(resources_view(out@) =~= before.push(item));
        assert(resources_spec(rv).take(i + 1) =~= resources_spec(rv).take(i as int).push(item));
        i = i + 1;
    }
    assert(resources_spec(rv).take(i as int) =~= resources_spec(rv));
    out
}

/// The client methods of all routes.
pub fn generate_rust_client(routes: &Vec<PathRoutes>) -> (r: Result<Vec<ClientPlan>, Error>)
    ensures
        match clients_spec(all_routes(path_routes_view(routes@)), Seq::empty()) {
            Ok(x) => r matches Ok(v) && clients_view(v@) == x,
            Err(e) => r matches Err(v) && v@ == e,
        },
{
    let flat = flat_routes(routes);
    let ghost fv = routes_of_refs(flat@);
    let ghost whole = clients_spec(fv, Seq::empty());
    let mut out: Vec<ClientPlan> = Vec::new();
    let mut i: usize = 0;
    assert(fv.skip(0) =~= fv);
    assert(clients_view(out@) =~= Seq::<ClientV>::empty());
    while i < flat.len()
        invariant
            i <= flat@.len(),
            fv == routes_of_refs(flat@),
            fv == all_routes(path_routes_view(routes@)),
            whole == clients_spec(fv, Seq::empty()),
            clients_spec(fv.skip(i as int), clients_view(out@)) == whole,
        decreases flat@.len() - i,
    {
        let ghost rest = fv.skip(i as int);
        assert(rest[0] == flat@[i as int]@);
        assert(rest.subrange(1, rest.len() as int) =~= fv.skip(i + 1));
        let p = flat[i].generate_client_impl()?;
        let ghost before = clients_view(out@);
        out.push(p);
        assert(clients_view(out@) =~= before.push(p@));
        i = i + 1;
    }
    assert(fv.skip(i as int) =~= Seq::<RouteV>::empty());
    Ok(out)
}

/// The name of the API trait for a description.
pub fn api_trait_name(api: &OpenApi) -> (r: Result<TypeName, Error>)
    ensures
        match trait_name_spec(api.title@) {
            Ok(n) => r matches Ok(t) && t@ == n,
            Err(e) => r matches Err(x) && x@ == e,
        },
{
    let mut name = upper_camel_case(api.title.as_str());
    name.append("Api");
    match TypeName::from_str(name.as_str()) {
        Ok(t) => Ok(t),
        Err(_) => Err(unsupported_msg("called `Result::unwrap()` on an `Err` value")),
    }
}

/// What the generator writes for the description `api`, in the order it
/// is worked out: the trait's name, the walk of the description, the
/// types, the response enums, the trait, the handlers, the routing table
/// and the client. The first failure stops it.
pub open spec fn plan_spec(api: OpenApi) -> Result<ApiPlanV, ErrorV> {
    match trait_name_spec(api.title@) {
        Err(e) => Err(e),
        Ok(tn) => match api_spec(api) {
            Err(e) => Err(e),
            Ok((es, rs)) => match types_spec(es) {
                Err(e) => Err(e),
                Ok(ts) => {
                    let all = all_routes(rs);
                    match returns_spec(all, Seq::empty()) {
                        Err(e) => Err(e),
                        Ok(rets) => match sigs_spec(all, Seq::empty()) {
                            Err(e) => Err(e),
                            Ok(sigs) => match dispatchers_spec(all, tn, Seq::empty()) {
                                Err(e) => Err(e),
                                Ok(ds) => match clients_spec(all, Seq::empty()) {
                                    Err(e) => Err(e),
                                    Ok(cs) => Ok(
                                        ApiPlanV {
                                            trait_name: tn,
                                            types: ts,
                                            responses: rets,
                                            interface: (interface_doc(api.title@), tn, sigs),
                                            dispatchers: ds,
                                            resources: resources_spec(rs),
                                            client: cs,
                                        },
                                    ),
                                },
                            },
                        },
                    }
                },
            },
        },
    }
}

/// Works out everything the generator writes for the description `api`.
pub fn generate_plan(api: &OpenApi) -> (r: Result<ApiPlan, Error>)
    ensures
        match plan_spec(*api) {
            Ok(x) => r matches Ok(v) && v@ == x,
            Err(e) => r matches Err(v) && v@ == e,
        },
{
    let trait_name = api_trait_name(api)?;
    let (type_lookup, routes) = walk_api(api)?;
    let types = generate_rust_types(&type_lookup)?;
    let responses = generate_return_types(&routes)?;
    let interface = generate_rust_interface(&routes, api.title.as_str(), &trait_name)?;
    let dispatchers = generate_rust_dispatchers(&routes, &trait_name)?;
    let resources = generate_rust_server(&routes);
    let client = generate_rust_client(&routes)?;
    Ok(ApiPlan { trait_name, types, responses, interface, dispatchers, resources, client })
}

/// The plan for a description read from YAML, with the JSON copy of the
/// description that the generated server serves.
pub struct SourcePlan {
    pub plan: ApiPlan,
    pub json_spec: String,
}

/// Works out everything the generator writes for the description in the
/// YAML text `text`: the plan, and the description as JSON.
pub fn generate_from_yaml_source(text: &str) -> (r: Result<SourcePlan, Error>)
    ensures
        match yaml_description(text@) {
            None => r matches Err(Error::Yaml(_)),
            Some(api) => match plan_spec(api) {
                Err(e) => r matches Err(v) && v@ == e,
                Ok(x) => match description_json(text@) {
                    Some(j) => r matches Ok(v) && v.plan@ == x && v.json_spec@ == j,
                    None => r matches Err(Error::BadCodegen(m)) && m@ == "Bad api serialization"@,
                },
            },
        },
{
    let api = match parse_description(text) {
        Ok(api) => api,
        Err(m) => {
            return Err(Error::Yaml(m));
        },
    };
    let plan = generate_plan(&api)?;
    match json_of_description(text) {
        Some(json_spec) => Ok(SourcePlan { plan, json_spec }),
        None => Err(Error::BadCodegen(String::from_str("Bad api serialization"))),
    }
}

proof fn lemma_returns(rs: Seq<RouteV>, acc: Seq<RetV>)
    requires
        returns_spec(rs, acc) is Ok,
    ensures
        ({
            let v = returns_spec(rs, acc)->Ok_0;
            &&& v.len() == acc.len() + rs.len()
            &&& forall|j: int| 0 <= j < acc.len() ==> v[j] == acc[j]
            &&& forall|i: int|
                0 <= i < rs.len() ==> return_spec(#[trigger] rs[i]) == Ok::<RetV, ErrorV>(
                    v[acc.len() + i],
                )
        }),
    decreases rs.len(),
{
    if rs.len() > 0 {
        let x = return_spec(rs[0])->Ok_0;
        let t = rs.subrange(1, rs.len() as int);
        lemma_returns(t, acc.push(x));
        let v = returns_spec(rs, acc)->Ok_0;
        assert forall|i: int| 0 <= i < rs.len() implies return_spec(#[trigger] rs[i]) == Ok::<
            RetV,
            ErrorV,
        >(v[acc.len() + i]) by {
            if i > 0 {
                assert(t[i - 1] == rs[i]);
            }
        }
    }
}

proof fn lemma_sigs(rs: Seq<RouteV>, acc: Seq<SigV>)
    requires
        sigs_spec(rs, acc) is Ok,
    ensures
        ({
            let v = sigs_spec(rs, acc)->Ok_0;
            &&& v.len() == acc.len() + rs.len()
            &&& forall|j: int| 0 <= j < acc.len() ==> v[j] == acc[j]
            &&& forall|i: int|
                0 <= i < rs.len() ==> signature_spec(#[trigger] rs[i]) == Ok::<SigV, ErrorV>(
                    v[acc.len() + i],
                )
        }),
    decreases rs.len(),
{
    if rs.len() > 0 {
        let x = signature_spec(rs[0])->Ok_0;
        let t = rs.subrange(1, rs.len() as int);
        lemma_sigs(t, acc.push(x));
        let v = sigs_spec(rs, acc)->Ok_0;
        assert forall|i: int| 0 <= i < rs.len() implies signature_spec(#[trigger] rs[i]) == Ok::<
            SigV,
            ErrorV,
        >(v[acc.len() + i]) by {
            if i > 0 {
                assert(t[i - 1] == rs[i]);
            }
        }
    }
}

proof fn lemma_dispatchers(rs: Seq<RouteV>, trait_name: Seq<char>, acc: Seq<DispV>)
    requires
        dispatchers_spec(rs, trait_name, acc) is Ok,
    ensures
        ({
            let v = dispatchers_spec(rs, trait_name, acc)->Ok_0;
            &&& v.len() == acc.len() + rs.len()
            &&& forall|j: int| 0 <= j < acc.len() ==> v[j] == acc[j]
            &&& forall|i: int|
                0 <= i < rs.len() ==> dispatch_spec(#[trigger] rs[i], trait_name) == Ok::<DispV, ErrorV>(
                    v[acc.len() + i],
                )
        }),
    decreases rs.len(),
{
    if rs.len() > 0 {
        let x = dispatch_spec(rs[0], trait_name)->Ok_0;
        let t = rs.subrange(1, rs.len() as int);
        lemma_dispatchers(t, trait_name, acc.push(x));
        let v = dispatchers_spec(rs, trait_name, acc)->Ok_0;
        assert forall|i: int| 0 <= i < rs.len() implies dispatch_spec(#[trigger] rs[i], trait_name) == Ok::<
            DispV,
            ErrorV,
        >(v[acc.len() + i]) by {
            if i > 0 {
                assert(t[i - 1] == rs[i]);
            }
        }
    }
}

proof fn lemma_clients(rs: Seq<RouteV>, acc: Seq<ClientV>)
    requires
        clients_spec(rs, acc) is Ok,
    ensures
        ({
            let v = clients_spec(rs, acc)->Ok_0;
            &&& v.len() == acc.len() + rs.len()
            &&& forall|j: int| 0 <= j < acc.len() ==> v[j] == acc[j]
            &&& forall|i: int|
                0 <= i < rs.len() ==> client_spec(#[trigger] rs[i]) == Ok::<ClientV, ErrorV>(
                    v[acc.len() + i],
                )
        }),
    decreases rs.len(),
{
    if rs.len() > 0 {
        let x = client_spec(rs[0])->Ok_0;
        let t = rs.subrange(1, rs.len() as int);
        lemma_clients(t, acc.push(x));
        let v = clients_spec(rs, acc)->Ok_0;
        assert forall|i: int| 0 <= i < rs.len() implies client_spec(#[trigger] rs[i]) == Ok::<
            ClientV,
            ErrorV,
        >(v[acc.len() + i]) by {
            if i > 0 {
                assert(t[i - 1] == rs[i]);
            }
        }
    }
}

/// For a description the generator accepts, the response enums, the
/// trait's methods, the handlers and the client methods follow the routes
/// in the same order: the i-th of each is for the i-th route, is named by
/// its operation id, and uses the same response type; each handler serves
/// the generated trait.
pub proof fn law_plan_routes_agree(api: OpenApi)
    requires
        plan_spec(api) is Ok,
    ensures
        ({
            let p = plan_spec(api)->Ok_0;
            let routes = all_routes(api_spec(api)->Ok_0.1);
            &&& p.responses.len() == routes.len()
            &&& p.interface.2.len() == routes.len()
            &&& p.dispatchers.len() == routes.len()
            &&& p.client.len() == routes.len()
            &&& forall|i: int|
                0 <= i < routes.len() ==> {
                    &&& p.interface.2[i].name == #[trigger] routes[i].operation_id
                    &&& p.dispatchers[i].name == routes[i].operation_id
                    &&& p.client[i].name == routes[i].operation_id
                    &&& p.dispatchers[i].trait_name == p.trait_name
                    &&& p.interface.2[i].return_type == p.dispatchers[i].return_type
                    &&& p.client[i].result == p.dispatchers[i].return_type
                    &&& p.responses[i].def.name == p.dispatchers[i].return_type
                }
        }),
{
    let tn = trait_name_spec(api.title@)->Ok_0;
    let rs = api_spec(api)->Ok_0.1;
    let all = all_routes(rs);
    lemma_returns(all, Seq::empty());
    lemma_sigs(all, Seq::empty());
    lemma_dispatchers(all, tn, Seq::empty());
    lemma_clients(all, Seq::empty());
    let p = plan_spec(api)->Ok_0;
    assert forall|i: int| 0 <= i < all.len() implies {
        &&& p.interface.2[i].name == #[trigger] all[i].operation_id
        &&& p.dispatchers[i].name == all[i].operation_id
        &&& p.client[i].name == all[i].operation_id
        &&& p.dispatchers[i].trait_name == p.trait_name
        &&& p.interface.2[i].return_type == p.dispatchers[i].return_type
        &&& p.client[i].result == p.dispatchers[i].return_type
        &&& p.responses[i].def.name == p.dispatchers[i].return_type
    } by {
        assert(signature_spec(all[i]) == Ok::<SigV, ErrorV>(p.interface.2[0 + i]));
        assert(dispatch_spec(all[i], tn) == Ok::<DispV, ErrorV>(p.dispatchers[0 + i]));
        assert(client_spec(all[i]) == Ok::<ClientV, ErrorV>(p.client[0 + i]));
        assert(return_spec(all[i]) == Ok::<RetV, ErrorV>(p.responses[0 + i]));
    }
}

} // verus!
