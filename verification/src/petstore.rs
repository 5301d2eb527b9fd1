//! The example pet store served through the generated interface: a list
//! of pets kept in memory, whose connection may fail.
//!
//! Whether the connection fails is decided outside (at random); each
//! operation takes that outcome and does the rest.
use vstd::prelude::*;
use crate::types::{clone_opt_str, opt_str};

verus! {

/// The pattern that every name is checked against when no filter is given.
pub open spec fn any_name_pattern() -> Seq<char> {
    ".?"@
}

/// `regex::Regex::new` accepts the pattern.
pub uninterp spec fn regex_valid(pattern: Seq<char>) -> bool;

/// The regex made from the pattern matches somewhere in the text.
pub uninterp spec fn regex_matches(pattern: Seq<char>, text: Seq<char>) -> bool;

#[verifier::external_type_specification]
#[verifier::external_body]
pub struct ExRegex(regex::Regex);

/// A compiled filter and the pattern it was compiled from.
pub struct NameFilter {
    pattern: String,
    compiled: regex::Regex,
}

impl View for NameFilter {
    type V = Seq<char>;

    closed spec fn view(&self) -> Seq<char> {
        self.pattern@
    }
}

/// `regex::Regex::new`: compiles the pattern, or refuses it. The claim is
/// that whether it is accepted depends on the pattern alone.
#[verifier::external_body]
fn compile_filter(pattern: &str) -> (r: Option<NameFilter>)
    ensures
        r is Some <==> regex_valid(pattern@),
        r matches Some(f) ==> f@ == pattern@,
{
    match regex::Regex::new(pattern) {
        Ok(compiled) => Some(NameFilter { pattern: pattern.to_string(), compiled }),
        Err(_) => None,
    }
}

/// `regex::Regex::is_match`: whether the filter matches somewhere in the
/// text. The claim is that the answer depends on the pattern and the text
/// alone.
#[verifier::external_body]
fn filter_matches(f: &NameFilter, text: &str) -> (r: bool)
    ensures
        r == regex_matches(f@, text@),
{
    f.compiled.is_match(text)
}

/// A pet of the store.
pub struct Pet {
    pub id: i64,
    pub name: String,
    pub tag: Option<String>,
}

pub struct PetV {
    pub id: i64,
    pub name: Seq<char>,
    pub tag: Option<Seq<char>>,
}

impl View for Pet {
    type V = PetV;

    open spec fn view(&self) -> PetV {
        PetV { id: self.id, name: self.name@, tag: opt_str(self.tag) }
    }
}

pub open spec fn pets_view(v: Seq<Pet>) -> Seq<PetV> {
    v.map_values(|p: Pet| p@)
}

/// A pet to be added: it gets its id from the store.
pub struct NewPet {
    pub name: String,
    pub tag: Option<String>,
}

impl Pet {
    pub fn new(id: i64, name: String, tag: Option<String>) -> (r: Pet)
        ensures
            r@ == (PetV { id, name: name@, tag: opt_str(tag) }),
    {
        Pet { id, name, tag }
    }

    pub fn duplicate(&self) -> (r: Pet)
        ensures
            r@ == self@,
    {
        Pet { id: self.id, name: self.name.clone(), tag: clone_opt_str(&self.tag) }
    }
}

/// What can go wrong inside the store.
#[derive(Clone, Copy, PartialEq, Eq, Structural)]
pub enum InternalError {
    BadConnection,
    ParseFailure,
    ServerHasExploded,
}

/// Why a pet could not be fetched.
#[derive(Clone, Copy, PartialEq, Eq, Structural)]
pub enum GetPetError {
    NotFound,
    Internal(InternalError),
}

/// The store: its pets, each with its position as id.
pub struct Api {
    database: Vec<Pet>,
}

impl View for Api {
    type V = Seq<PetV>;

    closed spec fn view(&self) -> Seq<PetV> {
        pets_view(self.database@)
    }
}

/// How many pets a limit lets through: a limit is taken as an unsigned
/// count, as far as there are pets.
pub open spec fn taken(limit: i64, len: nat) -> nat {
    if (limit as usize) as nat >= len {
        len
    } else {
        (limit as usize) as nat
    }
}

/// The pets among `pets` whose name the pattern matches, in order.
pub open spec fn matching(pets: Seq<PetV>, pattern: Seq<char>) -> Seq<PetV>
    decreases pets.len(),
{
    if pets.len() == 0 {
        Seq::empty()
    } else {
        let rest = matching(pets.drop_last(), pattern);
        if regex_matches(pattern, pets.last().name) {
            rest.push(pets.last())
        } else {
            rest
        }
    }
}

impl Api {
    /// An empty store.
    pub fn new() -> (r: Api)
        ensures
            r@ == Seq::<PetV>::empty(),
    {
        let r = Api { database: Vec::new() };
        assert(r@ =~= Seq::<PetV>::empty());
        r
    }

    /// How many pets there are.
    pub fn len(&self) -> (r: usize)
        ensures
            r == self@.len(),
    {
        self.database.len()
    }

    /// The pet at position `id`, unless the connection failed.
    pub fn lookup_pet(&self, id: usize, connection_failed: bool) -> (r: Result<
        Option<Pet>,
        InternalError,
    >)
        ensures
            connection_failed ==> r == Err::<Option<Pet>, InternalError>(InternalError::BadConnection),
            !connection_failed ==> (r matches Ok(found) && match found {
                Some(p) => id < self@.len() && p@ == self@[id as int],
                None => id >= self@.len(),
            }),
    {
        if connection_failed {
            Err(InternalError::BadConnection)
        } else if id < self.database.len() {
            Ok(Some(self.database[id].duplicate()))
        } else {
            Ok(None)
        }
    }

    /// Adds a pet, with the next position as its id, unless the
    /// connection failed; gives the id.
    pub fn add_pet(&mut self, new_pet: NewPet, connection_failed: bool) -> (r: Result<
        usize,
        InternalError,
    >)
        requires
            old(self)@.len() < i64::MAX,
        ensures
            connection_failed ==> r == Err::<usize, InternalError>(InternalError::BadConnection)
                && final(self)@ == old(self)@,
            !connection_failed ==> r == Ok::<usize, InternalError>(old(self)@.len() as usize)
                && final(self)@ == with_added(old(self)@, new_pet.name@, opt_str(new_pet.tag)),
    {
        if connection_failed {
            Err(InternalError::BadConnection)
        } else {
            let id = self.database.len();
            let new = Pet::new(id as i64, new_pet.name, new_pet.tag);
            let ghost before = self@;
            self.database.push(new);
            assert(self@ =~= before.push(new@));
            Ok(id)
        }
    }

    /// Fails where the server has exploded.
    pub fn server_health_check(&self, exploded: bool) -> (r: Result<(), InternalError>)
        ensures
            r == (if exploded {
                Err(InternalError::ServerHasExploded)
            } else {
                Ok::<(), InternalError>(())
            }),
    {
        if exploded {
            Err(InternalError::ServerHasExploded)
        } else {
            Ok(())
        }
    }

    /// The first `limit` pets whose name the filter matches (every pet
    /// where no filter is given). `None` where the filter is not a valid
    /// pattern.
    pub fn get_all_pets(&self, filter: Option<String>, limit: i64) -> (r: Option<Vec<Pet>>)
        ensures
            ({
                let pattern = match filter {
                    Some(f) => f@,
                    None => any_name_pattern(),
                };
                &&& r is Some <==> regex_valid(pattern)
                &&& r matches Some(v) ==> pets_view(v@) == matching(
                    self@.take(taken(limit, self@.len()) as int),
                    pattern,
                )
            }),
    {
        let compiled = match &filter {
            Some(f) => compile_filter(f.as_str()),
            None => compile_filter(".?"),
        };
        let re = match compiled {
            Some(re) => re,
            None => {
                return None;
            },
        };
        let n: usize = limit as usize;
        let count = if n >= self.database.len() {
            self.database.len()
        } else {
            n
        };
        let ghost pets = self@;
        let mut out: Vec<Pet> = Vec::new();
        let mut i: usize = 0;
        while i < count
            invariant
                i <= count,
                count <= self.database@.len(),
                pets == self@,
                pets == pets_view(self.database@),
                pets_view(out@) == matching(pets.take(i as int), re@),
            decreases count - i,
        {
            let ghost before = pets_view(out@);
            assert(pets.take(i + 1).drop_last() =~= pets.take(i as int));
            assert(pets.take(i + 1).last() == self.database@[i as int]@);
            if filter_matches(&re, self.database[i].name.as_str()) {
                let p = self.database[i].duplicate();
                out.push(p);
                assert(pets_view(out@) =~= before.push(p@));
            }
            i = i + 1;
        }
        proof {
            reveal_strlit(".?");
        }
        Some(out)
    }

    /// Adds a pet, with the number of pets as its id, unless the server
    /// has exploded.
    pub fn create_pet(&mut self, new_pet: NewPet, exploded: bool) -> (r: Result<(), InternalError>)
        requires
            old(self)@.len() < i64::MAX,
        ensures
            exploded ==> r == Err::<(), InternalError>(InternalError::ServerHasExploded)
                && final(self)@ == old(self)@,
            !exploded ==> r == Ok::<(), InternalError>(()) && final(self)@ == with_added(
                old(self)@,
                new_pet.name@,
                opt_str(new_pet.tag),
            ),
    {
        self.server_health_check(exploded)?;
        let id = self.database.len();
        let new = Pet::new(id as i64, new_pet.name, new_pet.tag);
        let ghost before = self@;
        self.database.push(new);
        assert(self@ =~= before.push(new@));
        Ok(())
    }

    /// The pet with the id `pet_id` (taken as an unsigned position).
    pub fn get_pet(&self, pet_id: i64, connection_failed: bool) -> (r: Result<Pet, GetPetError>)
        ensures
            connection_failed ==> r == Err::<Pet, GetPetError>(
                GetPetError::Internal(InternalError::BadConnection),
            ),
            !connection_failed ==> match r {
                Ok(p) => (pet_id as usize) < self@.len() && p@ == self@[(pet_id as usize) as int],
                Err(e) => e == GetPetError::NotFound && (pet_id as usize) >= self@.len(),
            },
    {
        match self.lookup_pet(pet_id as usize, connection_failed) {
            Err(e) => Err(GetPetError::Internal(e)),
            Ok(Some(p)) => Ok(p),
            Ok(None) => Err(GetPetError::NotFound),
        }
    }
}

/// Each pet's id is its position in the store.
pub open spec fn ids_are_positions(pets: Seq<PetV>) -> bool {
    forall|i: int| 0 <= i < pets.len() ==> #[trigger] pets[i].id == i
}

/// The pets after adding one as `add_pet` and `create_pet` do.
pub open spec fn with_added(pets: Seq<PetV>, name: Seq<char>, tag: Option<Seq<char>>) -> Seq<PetV> {
    pets.push(PetV { id: pets.len() as i64, name, tag })
}

/// Every pet's id is its position: true of the empty store, and kept by
/// adding a pet.
pub proof fn law_ids_are_positions(pets: Seq<PetV>, name: Seq<char>, tag: Option<Seq<char>>)
    requires
        ids_are_positions(pets),
        pets.len() < i64::MAX,
    ensures
        ids_are_positions(Seq::empty()),
        ids_are_positions(with_added(pets, name, tag)),
{
}

/// A pet that was added is read back at the id it was given, and the pets
/// that were there stay as they were.
pub proof fn law_read_after_add(pets: Seq<PetV>, name: Seq<char>, tag: Option<Seq<char>>)
    requires
        pets.len() < i64::MAX,
    ensures
        with_added(pets, name, tag).len() == pets.len() + 1,
        with_added(pets, name, tag)[pets.len() as int] == (PetV {
            id: pets.len() as i64,
            name,
            tag,
        }),
        forall|i: int| 0 <= i < pets.len() ==> #[trigger] with_added(pets, name, tag)[i] == pets[i],
{
}

} // verus!
