//! The code written for each route: its response enum, its method in the
//! API trait, its request handler, its place in the server and its
//! client method.
use vstd::prelude::*;
use crate::case::{upper_camel_case, upper_camel_of};
use crate::error::{Error, ErrorV, unsupported_msg};
use crate::gen_types::{
    bad_name_msg, canon, canon_exec, enum_spec, generate_enum_def, lemma_decimal_digits,
    lemma_variant_defs, variant_def_spec, variant_defs_spec,
    opt_path_clone, Variant, VariantV, variants_of,
};
use crate::names::{Ident, is_identifier, is_type_name, TypeName};
use crate::plan::{
    ArmV, arms_view, DispatchPlan, DispV, ExtractPlan, ExtV, idents_view, opt_extract, opt_name,
    Param, params_view, ParamV, ResponseArm, RetV, ReturnPlan, SignaturePlan, SigV, ClientPlan,
    ClientV,
};
use crate::method::{Method, verb_name};
use crate::route_path::route_text;
use crate::text::{decimal, is_alpha, is_word_char, push_decimal};
use crate::types::{FieldV, fields_view, MetaV, opt_str, TypeMetadata, Visibility};
use crate::walk::{GroupV, known_status, opt_group, ParamGroup, RespV, Route, RouteV};

verus! {

/// The standard reason phrase of an HTTP status code, as `http` gives it.
pub uninterp spec fn reason_phrase(code: u16) -> Option<Seq<char>>;

/// `http::StatusCode::canonical_reason`: the standard reason phrase of the
/// status code (`OK`, `Not Found`, ...), where it has one. A number
/// outside `100..=999` is no status code and has none. The claim is that
/// the phrase depends on the code alone.
#[verifier::external_body]
fn canonical_reason(code: u16) -> (r: Option<String>)
    ensures
        opt_str(r) == reason_phrase(code),
        !(100 <= code <= 999) ==> r is None,
{
    match http::StatusCode::from_u16(code) {
        Ok(c) => c.canonical_reason().map(String::from),
        Err(_) => None,
    }
}

/// The name of the response variant for the status code `code`, given
/// its reason phrase in UpperCamelCase (where it has one): that name where
/// it is an identifier, else `Status` and the code.
pub open spec fn variant_name_of(code: u16, camel_reason: Option<Seq<char>>) -> Seq<char> {
    match camel_reason {
        Some(c) => if is_identifier(c) {
            c
        } else {
            "Status"@ + decimal(code as nat)
        },
        None => "Status"@ + decimal(code as nat),
    }
}

/// The name of the response variant for a status code: its reason phrase
/// in UpperCamelCase where that is an identifier, else `Status` and the
/// code.
pub open spec fn status_variant_name(code: u16) -> Seq<char> {
    match reason_phrase(code) {
        Some(r) => variant_name_of(code, Some(upper_camel_of(r))),
        None => variant_name_of(code, None),
    }
}

/// The name of the response variant for the status code `code`, given its
/// reason phrase in UpperCamelCase, where it has one.
pub fn variant_name_from(code: u16, camel_reason: Option<&str>) -> (r: Ident)
    ensures
        r@ == variant_name_of(
            code,
            match camel_reason {
                Some(c) => Some(c@),
                None => None,
            },
        ),
{
    if let Some(camel) = camel_reason {
        if let Ok(id) = Ident::from_str(camel) {
            return id;
        }
    }
    let mut s = String::from_str("Status");
    push_decimal(&mut s, code as u64);
    proof {
        lemma_decimal_digits(code as nat);
        reveal_strlit("Status");
        assert("Status"@ =~= seq!['S', 't', 'a', 't', 'u', 's']);
        assert(is_alpha(s@[0]));
        assert forall|j: int| 0 <= j < s@.len() implies is_word_char(#[trigger] s@[j]) by {
            if j >= 6 {
                assert(s@[j] == decimal(code as nat)[j - 6]);
            }
        }
    }
    Ident::from_valid(s)
}

/// The name of the response variant for the status code `code`.
pub fn variant_from_status_code(code: u16) -> (r: Ident)
    ensures
        r@ == status_variant_name(code),
{
    match canonical_reason(code) {
        Some(reason) => {
            let camel = upper_camel_case(reason.as_str());
            variant_name_from(code, Some(camel.as_str()))
        },
        None => variant_name_from(code, None),
    }
}

/// The name of a route's response type: its operation id in
/// UpperCamelCase, which must be a valid type name.
pub open spec fn return_name(opid: Seq<char>) -> Result<Seq<char>, ErrorV> {
    let c = upper_camel_of(opid);
    if is_type_name(c) {
        Ok(c)
    } else {
        Err(ErrorV::Unsupported(bad_name_msg()))
    }
}

fn return_type_name(opid: &Ident) -> (r: Result<TypeName, Error>)
    ensures
        match return_name(opid@) {
            Ok(n) => r matches Ok(t) && t@ == n,
            Err(e) => r matches Err(x) && x@ == e,
        },
{
    let camel = upper_camel_case(opid.as_str());
    match TypeName::from_str(camel.as_str()) {
        Ok(t) => Ok(t),
        Err(_) => Err(unsupported_msg("called `Result::unwrap()` on an `Err` value")),
    }
}

/// The parameters made from the fields `fs`, after those in `acc`: each
/// field's name, and its type named after the type's location.
pub open spec fn params_spec(fs: Seq<FieldV>, acc: Seq<ParamV>) -> Result<Seq<ParamV>, ErrorV>
    decreases fs.len(),
{
    if fs.len() == 0 {
        Ok(acc)
    } else {
        match canon(fs[0].path) {
            Err(e) => Err(e),
            Ok(n) => params_spec(fs.subrange(1, fs.len() as int), acc.push((fs[0].name, n))),
        }
    }
}

/// The parameters of a group of path or query parameters, if any.
pub open spec fn group_params(g: Option<GroupV>) -> Result<Seq<ParamV>, ErrorV> {
    match g {
        None => Ok(Seq::empty()),
        Some(x) => params_spec(x.fields, Seq::empty()),
    }
}

#[verifier::loop_isolation(false)]
fn group_param_list(g: &Option<ParamGroup>) -> (r: Result<Vec<Param>, Error>)
    ensures
        match group_params(opt_group(*g)) {
            Ok(x) => r matches Ok(v) && params_view(v@) == x,
            Err(e) => r matches Err(v) && v@ == e,
        },
{
    let mut out: Vec<Param> = Vec::new();
    assert(params_view(out@) =~= Seq::<ParamV>::empty());
    match g {
        None => Ok(out),
        Some(group) => {
            let ghost fv = fields_view(group.fields@);
            let ghost whole = params_spec(fv, Seq::empty());
            let mut i: usize = 0;
            assert(fv.skip(0) =~= fv);
            while i < group.fields.len()
                invariant
                    i <= group.fields@.len(),
                    fv == fields_view(group.fields@),
                    whole == params_spec(fv, Seq::empty()),
                    params_spec(fv.skip(i as int), params_view(out@)) == whole,
                decreases group.fields@.len() - i,
            {
                let ghost rest = fv.skip(i as int);
                assert(rest[0] == group.fields@[i as int]@);
                assert(rest.subrange(1, rest.len() as int) =~= fv.skip(i + 1));
                let f = &group.fields[i];
                let ty = canon_exec(&f.path)?;
                let ghost before = params_view(out@);
                out.push(Param { name: f.name.duplicate(), ty });
                assert(params_view(out@) =~= before.push((f.name@, ty@)));
                i = i + 1;
            }
            assert(fv.skip(i as int) =~= Seq::<FieldV>::empty());
            Ok(out)
        },
    }
}

/// The name of a type given by its location, if there is one.
pub open spec fn body_name(b: Option<Seq<Seq<char>>>) -> Result<Option<Seq<char>>, ErrorV> {
    match b {
        None => Ok(None),
        Some(p) => match canon(p) {
            Ok(n) => Ok(Some(n)),
            Err(e) => Err(e),
        },
    }
}

fn body_type_name(m: &Method) -> (r: Result<Option<TypeName>, Error>)
    ensures
        match body_name(m.body_spec()) {
            Ok(x) => r matches Ok(v) && opt_name(v) == x,
            Err(e) => r matches Err(v) && v@ == e,
        },
{
    match m.body_type() {
        None => Ok(None),
        Some(p) => Ok(Some(canon_exec(p)?)),
    }
}

/// The method of the API trait for a route: named by its operation id,
/// taking its path and then its query parameters and its body, returning
/// its response type, documented by its summary.
pub open spec fn signature_spec(r: RouteV) -> Result<SigV, ErrorV> {
    match return_name(r.operation_id) {
        Err(e) => Err(e),
        Ok(ret) => match group_params(r.path_params) {
            Err(e) => Err(e),
            Ok(pp) => match group_params(r.query_params) {
                Err(e) => Err(e),
                Ok(qp) => match body_name(r.body) {
                    Err(e) => Err(e),
                    Ok(b) => Ok(
                        SigV {
                            doc: r.summary,
                            name: r.operation_id,
                            params: pp + qp,
                            body: b,
                            return_type: ret,
                        },
                    ),
                },
            },
        },
    }
}

/// The variants of a response enum for the responses with a status code:
/// each named after its code, documented by the response's description
/// and holding its body.
pub open spec fn code_variants(cs: Seq<(u16, RespV)>) -> Seq<VariantV> {
    Seq::new(
        cs.len(),
        |i: int|
            VariantV {
                name: status_variant_name(cs[i].0),
                description: Some(cs[i].1.description),
                type_path: cs[i].1.type_path,
                rename: None,
            },
    )
}

/// The `Default` variant for the default response, if there is one.
pub open spec fn default_variant(d: Option<RespV>) -> Option<VariantV> {
    match d {
        Some(x) => Some(
            VariantV {
                name: "Default"@,
                description: Some(x.description),
                type_path: x.type_path,
                rename: None,
            },
        ),
        None => None,
    }
}

/// Metadata with nothing set: public, not nullable.
pub open spec fn plain_meta() -> MetaV {
    MetaV { title: None, description: None, nullable: false, visibility: Visibility::Public }
}

/// The response enum of a route, with the status code of each variant.
pub open spec fn return_spec(r: RouteV) -> Result<RetV, ErrorV> {
    match return_name(r.operation_id) {
        Err(e) => Err(e),
        Ok(n) => match enum_spec(
            n,
            plain_meta(),
            code_variants(r.responses.with_codes),
            default_variant(r.responses.default),
            false,
        ) {
            Err(e) => Err(e),
            Ok(en) => Ok(
                RetV {
                    def: en,
                    codes: r.responses.with_codes.map_values(|c: (u16, RespV)| c.0),
                },
            ),
        },
    }
}

fn default_ident() -> (r: Ident)
    ensures
        r@ == "Default"@,
{
    proof {
        reveal_strlit("Default");
        assert("Default"@ =~= seq!['D', 'e', 'f', 'a', 'u', 'l', 't']);
    }
    Ident::from_valid(String::from_str("Default"))
}

impl Route {
    pub fn operation_id(&self) -> (r: &Ident)
        ensures
            r@ == self@.operation_id,
    {
        &self.operation_id
    }

    pub fn method(&self) -> (r: &Method)
        ensures
            r.raw() == self@.method,
            r.body_spec() == self@.body,
    {
        &self.method
    }

    /// The name of the route's response type.
    pub fn return_ty_name(&self) -> (r: Result<TypeName, Error>)
        ensures
            match return_name(self@.operation_id) {
                Ok(n) => r matches Ok(t) && t@ == n,
                Err(e) => r matches Err(x) && x@ == e,
            },
    {
        return_type_name(&self.operation_id)
    }

    /// The method of the API trait that serves this route.
    pub fn generate_api_signature(&self) -> (r: Result<SignaturePlan, Error>)
        ensures
            match signature_spec(self@) {
                Ok(x) => r matches Ok(v) && v@ == x,
                Err(e) => r matches Err(v) && v@ == e,
            },
    {
        let return_type = return_type_name(&self.operation_id)?;
        let mut params = group_param_list(&self.path_params)?;
        let mut queries = group_param_list(&self.query_params)?;
        let ghost pp = params_view(params@);
        let ghost qp = params_view(queries@);
        let body = body_type_name(&self.method)?;
        params.append(&mut queries);
        assert(params_view(params@) =~= pp + qp);
        Ok(
            SignaturePlan {
                doc: crate::types::clone_opt_str(&self.summary),
                name: self.operation_id.duplicate(),
                params,
                body,
                return_type,
            },
        )
    }

    /// The response enum of this route: a variant for each response with
    /// a status code and a `Default` variant for the default response.
    pub fn generate_return_type(&self) -> (r: Result<ReturnPlan, Error>)
        ensures
            match return_spec(self@) {
                Ok(x) => r matches Ok(v) && v@ == x,
                Err(e) => r matches Err(v) && v@ == e,
            },
    {
        let name = return_type_name(&self.operation_id)?;
        let ghost cs = self@.responses.with_codes;
        let mut variants: Vec<Variant> = Vec::new();
        let mut codes: Vec<u16> = Vec::new();
        let mut i: usize = 0;
        while i < self.responses.with_codes.len()
            invariant
                i <= self.responses.with_codes@.len(),
                cs == self@.responses.with_codes,
                cs.len() == self.responses.with_codes@.len(),
                variants_of(variants@) == code_variants(cs).take(i as int),
                codes@ == cs.map_values(|c: (u16, RespV)| c.0).take(i as int),
            decreases self.responses.with_codes@.len() - i,
        {
            let c = &self.responses.with_codes[i];
            assert(cs[i as int] == (c.code, c.response@));
            let v = Variant::new(variant_from_status_code(c.code)).description(
                c.response.description.clone(),
            ).type_path(opt_path_clone(&c.response.type_path));
            let ghost before = variants_of(variants@);
            variants.push(v);
            codes.push(c.code);
            assert(v@ == code_variants(cs)[i as int]);
            assert(variants_of(variants@) =~= before.push(v@));
            assert(variants_of(variants@) =~= code_variants(cs).take(i + 1));
            assert(codes@ =~= cs.map_values(|c: (u16, RespV)| c.0).take(i + 1));
            i = i + 1;
        }
        assert(code_variants(cs).take(i as int) =~= code_variants(cs));
        assert(cs.map_values(|c: (u16, RespV)| c.0).take(i as int) =~= cs.map_values(
            |c: (u16, RespV)| c.0,
        ));
        let dflt = match &self.responses.default {
            None => None,
            Some(d) => Some(
                Variant::new(default_ident()).description(d.description.clone()).type_path(
                    opt_path_clone(&d.type_path),
                ),
            ),
        };
        let def = match &dflt {
            Some(v) => generate_enum_def(&name, &TypeMetadata::new(), &variants, Some(v), false)?,
            None => generate_enum_def(&name, &TypeMetadata::new(), &variants, None, false)?,
        };
        Ok(ReturnPlan { def, codes })
    }
}

/// What a handler extracts for a group of path or query parameters: the
/// struct named after the group's location, and the field names.
pub open spec fn extract_spec(g: Option<GroupV>) -> Result<Option<ExtV>, ErrorV> {
    match g {
        None => Ok(None),
        Some(x) => match canon(x.path) {
            Err(e) => Err(e),
            Ok(n) => Ok(Some((n, x.fields.map_values(|f: FieldV| f.name)))),
        },
    }
}

/// The handler for a route: it extracts the path and query parameters and
/// the body, and calls the method of the trait `trait_name` of the same
/// name.
pub open spec fn dispatch_spec(r: RouteV, trait_name: Seq<char>) -> Result<DispV, ErrorV> {
    match extract_spec(r.path_params) {
        Err(e) => Err(e),
        Ok(pe) => match extract_spec(r.query_params) {
            Err(e) => Err(e),
            Ok(qe) => match body_name(r.body) {
                Err(e) => Err(e),
                Ok(b) => match return_name(r.operation_id) {
                    Err(e) => Err(e),
                    Ok(ret) => Ok(
                        DispV {
                            name: r.operation_id,
                            trait_name,
                            path: pe,
                            query: qe,
                            body: b,
                            return_type: ret,
                        },
                    ),
                },
            },
        },
    }
}

fn extract_plan(g: &Option<ParamGroup>) -> (r: Result<Option<ExtractPlan>, Error>)
    ensures
        match extract_spec(opt_group(*g)) {
            Ok(x) => r matches Ok(v) && opt_extract(v) == x,
            Err(e) => r matches Err(v) && v@ == e,
        },
{
    match g {
        None => Ok(None),
        Some(group) => {
            let ty = canon_exec(&group.type_path)?;
            let ghost fv = fields_view(group.fields@);
            let mut fields: Vec<Ident> = Vec::new();
            let mut i: usize = 0;
            while i < group.fields.len()
                invariant
                    i <= group.fields@.len(),
                    fv == fields_view(group.fields@),
                    idents_view(fields@) == fv.map_values(|f: FieldV| f.name).take(i as int),
                decreases group.fields@.len() - i,
            {
                let ghost before = idents_view(fields@);
                fields.push(group.fields[i].name.duplicate());
                assert(idents_view(fields@) =~= before.push(group.fields@[i as int].name@));
                assert(idents_view(fields@) =~= fv.map_values(|f: FieldV| f.name).take(i + 1));
                i = i + 1;
            }
            assert(fv.map_values(|f: FieldV| f.name).take(i as int) =~= fv.map_values(
                |f: FieldV| f.name,
            ));
            Ok(Some(ExtractPlan { ty, fields }))
        },
    }
}

/// The client's reading of the responses `cs`, after the arms `acc`: each
/// code gives its variant, holding the decoded body where there is one.
pub open spec fn arms_spec(cs: Seq<(u16, RespV)>, acc: Seq<ArmV>) -> Result<Seq<ArmV>, ErrorV>
    decreases cs.len(),
{
    if cs.len() == 0 {
        Ok(acc)
    } else {
        match body_name(cs[0].1.type_path) {
            Err(e) => Err(e),
            Ok(b) => arms_spec(
                cs.subrange(1, cs.len() as int),
                acc.push((cs[0].0, status_variant_name(cs[0].0), b)),
            ),
        }
    }
}

/// How the client reads a status that no response lists: `None` without a
/// default response, else into `Default`, with the body's type name where
/// the default response has a body.
pub open spec fn default_arm_spec(d: Option<RespV>) -> Result<Option<Option<Seq<char>>>, ErrorV> {
    match d {
        None => Ok(None),
        Some(x) => match body_name(x.type_path) {
            Err(e) => Err(e),
            Ok(b) => Ok(Some(b)),
        },
    }
}

/// The status code a `Default` response is sent with: its own code where
/// that is a valid HTTP status, else 500 (Internal Server Error).
pub fn default_status_code(code: u16) -> (r: u16)
    ensures
        r == (if known_status(code) {
            code
        } else {
            500u16
        }),
{
    if 100 <= code && code <= 999 {
        code
    } else {
        500
    }
}

/// The client method for a route: named by its operation id, taking the
/// path and query parameters and the body, sending the method to the
/// path template (with the query encoded from the query struct), and
/// reading each known status code into its variant.
pub open spec fn client_spec(r: RouteV) -> Result<ClientV, ErrorV> {
    match return_name(r.operation_id) {
        Err(e) => Err(e),
        Ok(ret) => match group_params(r.path_params) {
            Err(e) => Err(e),
            Ok(pp) => match group_params(r.query_params) {
                Err(e) => Err(e),
                Ok(qp) => match body_name(
                    match r.query_params {
                        Some(q) => Some(q.path),
                        None => None,
                    },
                ) {
                    Err(e) => Err(e),
                    Ok(qt) => match body_name(r.body) {
                        Err(e) => Err(e),
                        Ok(b) => match arms_spec(r.responses.with_codes, Seq::empty()) {
                            Err(e) => Err(e),
                            Ok(arms) => match default_arm_spec(r.responses.default) {
                                Err(e) => Err(e),
                                Ok(default) => Ok(
                                    ClientV {
                                        name: r.operation_id,
                                        result: ret,
                                        path_params: pp,
                                        query_params: qp,
                                        query_type: qt,
                                        body: b,
                                        method: verb_name(r.method),
                                        path_template: route_text(r.path),
                                        arms,
                                        default,
                                    },
                                ),
                            },
                        },
                    },
                },
            },
        },
    }
}

impl Route {
    /// The handler for this route, for an implementation of `trait_name`.
    pub fn generate_dispatcher(&self, trait_name: &TypeName) -> (r: Result<DispatchPlan, Error>)
        ensures
            match dispatch_spec(self@, trait_name@) {
                Ok(x) => r matches Ok(v) && v@ == x,
                Err(e) => r matches Err(v) && v@ == e,
            },
    {
        let path = extract_plan(&self.path_params)?;
        let query = extract_plan(&self.query_params)?;
        let body = body_type_name(&self.method)?;
        let return_type = return_type_name(&self.operation_id)?;
        Ok(
            DispatchPlan {
                name: self.operation_id.duplicate(),
                trait_name: trait_name.duplicate(),
                path,
                query,
                body,
                return_type,
            },
        )
    }

    /// The client method for this route.
    #[verifier::loop_isolation(false)]
    pub fn generate_client_impl(&self) -> (r: Result<ClientPlan, Error>)
        ensures
            match client_spec(self@) {
                Ok(x) => r matches Ok(v) && v@ == x,
                Err(e) => r matches Err(v) && v@ == e,
            },
    {
        let result = return_type_name(&self.operation_id)?;
        let path_params = group_param_list(&self.path_params)?;
        let query_params = group_param_list(&self.query_params)?;
        let query_type = match &self.query_params {
            None => None,
            Some(q) => Some(canon_exec(&q.type_path)?),
        };
        let body = body_type_name(&self.method)?;
        let ghost cs = self@.responses.with_codes;
        let ghost whole = arms_spec(cs, Seq::empty());
        let mut arms: Vec<ResponseArm> = Vec::new();
        let mut i: usize = 0;
        assert(cs.skip(0) =~= cs);
        assert(arms_view(arms@) =~= Seq::<ArmV>::empty());
        while i < self.responses.with_codes.len()
            invariant
                i <= self.responses.with_codes@.len(),
                cs == self@.responses.with_codes,
                cs.len() == self.responses.with_codes@.len(),
                whole == arms_spec(cs, Seq::empty()),
                arms_spec(cs.skip(i as int), arms_view(arms@)) == whole,
            decreases self.responses.with_codes@.len() - i,
        {
            let ghost rest = cs.skip(i as int);
            let c = &self.responses.with_codes[i];
            assert(rest[0] == (c.code, c.response@));
            assert(rest.subrange(1, rest.len() as int) =~= cs.skip(i + 1));
            let b = match &c.response.type_path {
                None => None,
                Some(p) => Some(canon_exec(p)?),
            };
            let variant = variant_from_status_code(c.code);
            let ghost before = arms_view(arms@);
            arms.push(ResponseArm { code: c.code, variant, body: b });
            assert(arms_view(arms@) =~= before.push((c.code, status_variant_name(c.code), opt_name(b))));
            i = i + 1;
        }
        assert(cs.skip(i as int) =~= Seq::<(u16, RespV)>::empty());
        let default = match &self.responses.default {
            None => None,
            Some(d) => Some(
                match &d.type_path {
                    None => None,
                    Some(p) => Some(canon_exec(p)?),
                },
            ),
        };
        Ok(
            ClientPlan {
                name: self.operation_id.duplicate(),
                result,
                path_params,
                query_params,
                query_type,
                body,
                method: String::from_str(self.method.verb()),
                path_template: self.path.to_string(),
                arms,
                default,
            },
        )
    }
}

/// The names of the fields an extraction takes apart, in order.
pub open spec fn extracted_names(e: Option<ExtV>) -> Seq<Seq<char>> {
    match e {
        Some(x) => x.1,
        None => Seq::empty(),
    }
}

/// The names of a signature's parameters, in order.
pub open spec fn param_names(ps: Seq<ParamV>) -> Seq<Seq<char>> {
    ps.map_values(|p: ParamV| p.0)
}

proof fn lemma_param_names(fs: Seq<FieldV>, acc: Seq<ParamV>)
    requires
        params_spec(fs, acc) is Ok,
    ensures
        param_names(params_spec(fs, acc)->Ok_0) == param_names(acc) + fs.map_values(
            |f: FieldV| f.name,
        ),
    decreases fs.len(),
{
    if fs.len() == 0 {
        assert(param_names(acc) + fs.map_values(|f: FieldV| f.name) =~= param_names(acc));
    } else {
        let n = canon(fs[0].path)->Ok_0;
        let rest = fs.subrange(1, fs.len() as int);
        let acc2 = acc.push((fs[0].name, n));
        lemma_param_names(rest, acc2);
        assert(param_names(acc2) =~= param_names(acc).push(fs[0].name));
        assert(param_names(acc2) + rest.map_values(|f: FieldV| f.name) =~= param_names(acc)
            + fs.map_values(|f: FieldV| f.name));
    }
}

proof fn lemma_group_names(g: Option<GroupV>)
    requires
        group_params(g) is Ok,
        extract_spec(g) is Ok,
    ensures
        param_names(group_params(g)->Ok_0) == extracted_names(extract_spec(g)->Ok_0),
{
    match g {
        None => {
            assert(param_names(Seq::<ParamV>::empty()) =~= Seq::<Seq<char>>::empty());
        },
        Some(x) => {
            lemma_param_names(x.fields, Seq::empty());
            assert(param_names(Seq::<ParamV>::empty()) + x.fields.map_values(|f: FieldV| f.name)
                =~= x.fields.map_values(|f: FieldV| f.name));
        },
    }
}

/// A route's handler calls the trait's method of the same name with the
/// arguments the method declares: the path fields and then the query
/// fields, in the signature's order and under its names, and the body of
/// the signature's type; both speak of the same response type.
pub proof fn law_handler_follows_signature(r: RouteV, trait_name: Seq<char>)
    requires
        signature_spec(r) is Ok,
        dispatch_spec(r, trait_name) is Ok,
    ensures
        ({
            let s = signature_spec(r)->Ok_0;
            let d = dispatch_spec(r, trait_name)->Ok_0;
            &&& d.name == s.name
            &&& d.trait_name == trait_name
            &&& d.body == s.body
            &&& d.return_type == s.return_type
            &&& extracted_names(d.path) + extracted_names(d.query) == param_names(s.params)
        }),
{
    lemma_group_names(r.path_params);
    lemma_group_names(r.query_params);
    let pp = group_params(r.path_params)->Ok_0;
    let qp = group_params(r.query_params)->Ok_0;
    assert(param_names(pp + qp) =~= param_names(pp) + param_names(qp));
}

/// The response enum of a route has one variant per listed status code, in
/// order, named after the code's reason phrase and holding the type of that
/// response's body where it has one; the codes are listed alongside. Where
/// the route has a default response, the enum has a `Default` variant that
/// holds the default response's body type where it has a body (and no body
/// otherwise); without one, it has none.
pub proof fn law_response_enum(r: RouteV)
    requires
        return_spec(r) is Ok,
    ensures
        ({
            let rv = return_spec(r)->Ok_0;
            let cs = r.responses.with_codes;
            &&& rv.def.name == return_name(r.operation_id)->Ok_0
            &&& rv.codes.len() == cs.len()
            &&& rv.def.variants.len() == cs.len()
            &&& forall|i: int| 0 <= i < cs.len() ==> {
                &&& #[trigger] rv.codes[i] == cs[i].0
                &&& rv.def.variants[i].name == status_variant_name(cs[i].0)
                &&& rv.def.variants[i].doc == Some(cs[i].1.description)
                &&& rv.def.variants[i].ty == match cs[i].1.type_path {
                    Some(p) => Some(canon(p)->Ok_0),
                    None => None,
                }
            }
            &&& match r.responses.default {
                None => rv.def.default is None,
                Some(d) => rv.def.default matches Some(dv) && dv.body == match d.type_path {
                    Some(p) => Some(canon(p)->Ok_0),
                    None => None,
                },
            }
        }),
{
    let cs = r.responses.with_codes;
    let vs = code_variants(cs);
    lemma_variant_defs(vs, Seq::empty());
    let rv = return_spec(r)->Ok_0;
    assert(rv.def.variants == variant_defs_spec(vs, Seq::empty())->Ok_0);
    assert forall|i: int| 0 <= i < cs.len() implies {
        &&& #[trigger] rv.codes[i] == cs[i].0
        &&& rv.def.variants[i].name == status_variant_name(cs[i].0)
        &&& rv.def.variants[i].doc == Some(cs[i].1.description)
        &&& rv.def.variants[i].ty == match cs[i].1.type_path {
            Some(p) => Some(canon(p)->Ok_0),
            None => None,
        }
    } by {
        assert(variant_def_spec(vs[i]) is Ok);
        assert(rv.def.variants[0 + i] == variant_def_spec(vs[i])->Ok_0);
    }
}

} // verus!
