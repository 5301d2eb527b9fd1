//! Identifiers, type names, and the paths that locate a definition
//! inside the API description.
use vstd::prelude::*;
use crate::case::{upper_camel_case, upper_camel_of};
use crate::error::{Error, invalid};
use crate::text::{
    all_alnum, all_word_chars, alnum, alpha, chars_of, has_prefix, is_alnum, is_alpha, is_word_char,
    join, join_strings, str_eq, string_of_range, views, word_char,
};

verus! {

/// `^([[:alpha:]]|_)([[:alnum:]]|_)*$`: a valid Rust identifier, in any case.
pub open spec fn is_identifier(s: Seq<char>) -> bool {
    &&& s.len() > 0
    &&& (is_alpha(s[0]) || s[0] == '_')
    &&& all_word_chars(s)
}

/// Decides `is_identifier`.
pub fn check_identifier(cs: &Vec<char>) -> (r: bool)
    ensures
        r == is_identifier(cs@),
{
    if cs.len() == 0 {
        return false;
    }
    if !(alpha(cs[0]) || cs[0] == '_') {
        return false;
    }
    let mut i: usize = 1;
    while i < cs.len()
        invariant
            1 <= i <= cs@.len(),
            is_word_char(cs@[0]),
            forall|j: int| 0 <= j < i ==> is_word_char(#[trigger] cs@[j]),
        decreases cs@.len() - i,
    {
        if !word_char(cs[i]) {
            return false;
        }
        i = i + 1;
    }
    true
}

/// A string which is a valid identifier.
pub struct Ident {
    name: String,
}

impl View for Ident {
    type V = Seq<char>;

    closed spec fn view(&self) -> Seq<char> {
        self.name@
    }
}

impl Ident {
    /// Checks that `val` is an identifier.
    pub fn from_str(val: &str) -> (r: Result<Ident, Error>)
        ensures
            r is Ok <==> is_identifier(val@),
            r matches Ok(id) ==> id@ == val@,
            r matches Err(e) ==> e matches Error::Validation(m) && m@ == "Bad identifier '"@
                + val@ + "' (not a valid Rust identifier)"@,
    {
        let cs = chars_of(val);
        if check_identifier(&cs) {
            Ok(Ident { name: String::from_str(val) })
        } else {
            Err(invalid("Bad identifier '", val, "' (not a valid Rust identifier)"))
        }
    }

    /// An identifier from a string already known to be one.
    pub fn from_valid(val: String) -> (r: Ident)
        requires
            is_identifier(val@),
        ensures
            r@ == val@,
    {
        Ident { name: val }
    }

    pub fn as_str(&self) -> (r: &str)
        ensures
            r@ == self@,
    {
        self.name.as_str()
    }

    pub fn to_string(&self) -> (r: String)
        ensures
            r@ == self@,
    {
        self.name.clone()
    }

    pub fn same(&self, other: &Ident) -> (r: bool)
        ensures
            r == (self@ == other@),
    {
        self.name == other.name
    }

    pub fn duplicate(&self) -> (r: Ident)
        ensures
            r@ == self@,
    {
        Ident { name: self.name.clone() }
    }
}

/// A valid name for a type: one that is already in UpperCamelCase.
pub open spec fn is_type_name(s: Seq<char>) -> bool {
    upper_camel_of(s) == s
}

/// A string which is a valid name for a type (ClassCase).
pub struct TypeName {
    name: String,
}

impl View for TypeName {
    type V = Seq<char>;

    closed spec fn view(&self) -> Seq<char> {
        self.name@
    }
}

impl TypeName {
    /// Checks that `val` is its own UpperCamelCase form.
    pub fn from_str(val: &str) -> (r: Result<TypeName, Error>)
        ensures
            r is Ok <==> is_type_name(val@),
            r matches Ok(t) ==> t@ == val@,
            r matches Err(e) ==> e matches Error::Validation(m) && m@ == "Bad type name '"@
                + val@ + "', must be ClassCase"@,
    {
        let camel = upper_camel_case(val);
        if str_eq(val, camel.as_str()) {
            Ok(TypeName { name: camel })
        } else {
            Err(invalid("Bad type name '", val, "', must be ClassCase"))
        }
    }

    pub fn as_str(&self) -> (r: &str)
        ensures
            r@ == self@,
    {
        self.name.as_str()
    }

    pub fn duplicate(&self) -> (r: TypeName)
        ensures
            r@ == self@,
    {
        TypeName { name: self.name.clone() }
    }
}

/// The strings of `v`, copied.
pub fn copy_strings(v: &Vec<String>) -> (r: Vec<String>)
    ensures
        views(r@) == views(v@),
{
    let mut r: Vec<String> = Vec::new();
    let mut i: usize = 0;
    while i < v.len()
        invariant
            i <= v@.len(),
            views(r@) == views(v@.take(i as int)),
        decreases v@.len() - i,
    {
        r.push(v[i].clone());
        assert(views(v@.take(i + 1)) =~= views(v@.take(i as int)).push(v@[i as int]@));
        assert(views(r@) =~= views(v@.take(i as int)).push(v@[i as int]@));
        i = i + 1;
    }
    assert(v@.take(v@.len() as int) =~= v@);
    r
}

/// A location inside the API description, as the list of keys that
/// lead to it.
pub struct ApiPath {
    parts: Vec<String>,
}

impl View for ApiPath {
    type V = Seq<Seq<char>>;

    closed spec fn view(&self) -> Seq<Seq<char>> {
        views(self.parts@)
    }
}

impl ApiPath {
    /// The empty location (the root of the description).
    pub fn root() -> (r: ApiPath)
        ensures
            r@ == Seq::<Seq<char>>::empty(),
    {
        let r = ApiPath { parts: Vec::new() };
        assert(r@ =~= Seq::<Seq<char>>::empty());
        r
    }

    /// The location one key further down.
    pub fn push(self, s: &str) -> (r: ApiPath)
        ensures
            r@ == self@.push(s@),
    {
        let mut parts = self.parts;
        let ghost old_parts = parts@;
        let item = String::from_str(s);
        parts.push(item);
        let r = ApiPath { parts };
        assert(r@ =~= self@.push(s@));
        r
    }

    pub fn duplicate(&self) -> (r: ApiPath)
        ensures
            r@ == self@,
    {
        ApiPath { parts: copy_strings(&self.parts) }
    }

    /// The keys joined by `.`, for messages.
    pub fn to_string(&self) -> (r: String)
        ensures
            r@ == join(self@, "."@),
    {
        let r = join_strings(&self.parts, 0, ".");
        assert(self.parts@.skip(0) =~= self.parts@);
        r
    }

    /// The location of a type defined here.
    pub fn into_type_path(self) -> (r: TypePath)
        ensures
            r@ == self@,
    {
        TypePath { parts: self.parts }
    }
}

/// `p` with a leading `components`, `schemas` removed.
pub open spec fn strip_schemas(p: Seq<Seq<char>>) -> Seq<Seq<char>> {
    if p.len() >= 2 && p[0] == "components"@ && p[1] == "schemas"@ {
        p.skip(2)
    } else {
        p
    }
}

/// The words that name the type at `p`.
pub open spec fn canonical_source(p: Seq<Seq<char>>) -> Seq<char> {
    join(strip_schemas(p), " "@)
}

/// The name of the type defined at `p`.
pub open spec fn canonical_name(p: Seq<Seq<char>>) -> Seq<char> {
    upper_camel_of(canonical_source(p))
}

/// The name of the type at `p` is a valid type name.
pub open spec fn has_canonical_name(p: Seq<Seq<char>>) -> bool {
    is_type_name(canonical_name(p))
}

/// The text that follows `#/components/schemas/` in a reference.
pub open spec fn schema_ref_prefix() -> Seq<char> {
    "#/components/schemas/"@
}

/// `refr` is `#/components/schemas/` followed by one or more
/// `[[:alnum:]]` characters.
pub open spec fn is_schema_ref(refr: Seq<char>) -> bool {
    let n = schema_ref_prefix().len();
    &&& refr.len() > n
    &&& has_prefix(refr, schema_ref_prefix())
    &&& all_alnum(refr.skip(n as int))
}

/// The location named by a schema reference.
pub open spec fn schema_ref_path(refr: Seq<char>) -> Seq<Seq<char>> {
    seq!["components"@, "schemas"@, refr.skip(schema_ref_prefix().len() as int)]
}

/// `cs` starts with `pre`.
pub fn starts_with(cs: &Vec<char>, pre: &Vec<char>) -> (r: bool)
    ensures
        r == has_prefix(cs@, pre@),
{
    if pre.len() > cs.len() {
        return false;
    }
    let mut i: usize = 0;
    while i < pre.len()
        invariant
            pre@.len() <= cs@.len(),
            i <= pre@.len(),
            forall|j: int| 0 <= j < i ==> cs@[j] == pre@[j],
        decreases pre@.len() - i,
    {
        if cs[i] != pre[i] {
            assert(cs@.take(pre@.len() as int)[i as int] != pre@[i as int]);
            return false;
        }
        i = i + 1;
    }
    assert(cs@.take(pre@.len() as int) =~= pre@);
    true
}

/// Every character of `cs` from `n` on is `[[:alnum:]]`.
pub fn alnum_from(cs: &Vec<char>, n: usize) -> (r: bool)
    requires
        n <= cs@.len(),
    ensures
        r == all_alnum(cs@.skip(n as int)),
{
    let mut k: usize = n;
    while k < cs.len()
        invariant
            n <= k <= cs@.len(),
            forall|j: int| n <= j < k ==> is_alnum(#[trigger] cs@[j]),
        decreases cs@.len() - k,
    {
        if !alnum(cs[k]) {
            assert(!is_alnum(cs@.skip(n as int)[k - n]));
            return false;
        }
        k = k + 1;
    }
    assert forall|j: int| 0 <= j < cs@.skip(n as int).len() implies is_alnum(
        #[trigger] cs@.skip(n as int)[j],
    ) by {
        assert(cs@.skip(n as int)[j] == cs@[n + j]);
    }
    true
}

/// The location where a type is defined; a key into the type index.
pub struct TypePath {
    parts: Vec<String>,
}

impl View for TypePath {
    type V = Seq<Seq<char>>;

    closed spec fn view(&self) -> Seq<Seq<char>> {
        views(self.parts@)
    }
}

impl TypePath {
    pub fn duplicate(&self) -> (r: TypePath)
        ensures
            r@ == self@,
    {
        TypePath { parts: copy_strings(&self.parts) }
    }

    /// The keys that lead to the location.
    pub fn keys(&self) -> (r: &Vec<String>)
        ensures
            views(r@) == self@,
    {
        &self.parts
    }

    pub fn into_api_path(self) -> (r: ApiPath)
        ensures
            r@ == self@,
    {
        ApiPath { parts: self.parts }
    }

    pub fn same(&self, other: &TypePath) -> (r: bool)
        ensures
            r == (self@ == other@),
    {
        if self.parts.len() != other.parts.len() {
            assert(self@.len() != other@.len());
            return false;
        }
        let mut i: usize = 0;
        while i < self.parts.len()
            invariant
                self.parts@.len() == other.parts@.len(),
                i <= self.parts@.len(),
                forall|j: int| 0 <= j < i ==> #[trigger] self@[j] == other@[j],
            decreases self.parts@.len() - i,
        {
            if !(self.parts[i] == other.parts[i]) {
                assert(self@[i as int] != other@[i as int]);
                return false;
            }
            i = i + 1;
        }
        assert(self@ =~= other@);
        true
    }

    /// The location that a `#/components/schemas/<name>` reference names.
    pub fn from_reference(refr: &str) -> (r: Result<TypePath, Error>)
        ensures
            r is Ok <==> is_schema_ref(refr@),
            r matches Ok(p) ==> p@ == schema_ref_path(refr@),
            r matches Err(e) ==> e matches Error::BadReference(m) && m@ == refr@,
    {
        let cs = chars_of(refr);
        let pre = chars_of("#/components/schemas/");
        let n = pre.len();
        if cs.len() <= n {
            return Err(Error::BadReference(String::from_str(refr)));
        }
        if !starts_with(&cs, &pre) {
            return Err(Error::BadReference(String::from_str(refr)));
        }
        if !alnum_from(&cs, n) {
            return Err(Error::BadReference(String::from_str(refr)));
        }
        let name = string_of_range(&cs, n, cs.len());
        let mut parts: Vec<String> = Vec::new();
        parts.push(String::from_str("components"));
        parts.push(String::from_str("schemas"));
        parts.push(name);
        let r = TypePath { parts };
        assert(cs@.subrange(n as int, cs@.len() as int) =~= refr@.skip(n as int));
        assert(r@ =~= schema_ref_path(refr@));
        Ok(r)
    }

    /// The name of the type defined here, where the name is a valid type
    /// name; `None` where it is not.
    pub fn try_canonicalize(&self) -> (r: Option<TypeName>)
        ensures
            r is Some <==> has_canonical_name(self@),
            r matches Some(t) ==> t@ == canonical_name(self@),
    {
        let strip = self.parts.len() >= 2 && str_eq(self.parts[0].as_str(), "components")
            && str_eq(self.parts[1].as_str(), "schemas");
        let from: usize = if strip {
            2
        } else {
            0
        };
        let joined = join_strings(&self.parts, from, " ");
        proof {
            assert(views(self.parts@.skip(from as int)) =~= strip_schemas(self@));
        }
        let camel = upper_camel_case(joined.as_str());
        match TypeName::from_str(camel.as_str()) {
            Ok(t) => Some(t),
            Err(_) => None,
        }
    }

    /// The name of the type defined here.
    pub fn canonicalize(&self) -> (r: TypeName)
        requires
            has_canonical_name(self@),
        ensures
            r@ == canonical_name(self@),
    {
        match self.try_canonicalize() {
            Some(t) => t,
            None => {
                assert(false);
                TypeName { name: String::new() }
            },
        }
    }
}

/// A location under `components.schemas` names the same type as the rest
/// of its path: the leading `components`, `schemas` is left out of the name.
pub proof fn law_canonical_skips_schemas(rest: Seq<Seq<char>>)
    requires
        !(rest.len() >= 2 && rest[0] == "components"@ && rest[1] == "schemas"@),
    ensures
        canonical_name(seq!["components"@, "schemas"@] + rest) == canonical_name(rest),
        has_canonical_name(seq!["components"@, "schemas"@] + rest) == has_canonical_name(rest),
{
    let p = seq!["components"@, "schemas"@] + rest;
    assert(p[0] == "components"@ && p[1] == "schemas"@);
    assert(p.skip(2) =~= rest);
    assert(strip_schemas(p) == rest);
}

/// A reference to a component schema names the type that the schema
/// defines (recorded at `components.schemas.<name>`): both are the schema's
/// name in UpperCamelCase.
pub proof fn law_reference_names_its_schema(refr: Seq<char>, name: Seq<char>)
    requires
        refr == schema_ref_prefix() + name,
    ensures
        canonical_name(schema_ref_path(refr)) == canonical_name(
            seq!["components"@, "schemas"@, name],
        ),
        canonical_name(seq!["components"@, "schemas"@, name]) == upper_camel_of(name),
{
    let p = seq!["components"@, "schemas"@, name];
    assert(refr.skip(schema_ref_prefix().len() as int) =~= name);
    assert(schema_ref_path(refr) =~= p);
    assert(strip_schemas(p) =~= seq![name]);
    assert(join(seq![name], " "@) == name);
}

} // verus!
