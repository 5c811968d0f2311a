use vstd::prelude::*;
use vstd::string::*;

verus! {

/// A stored creature record.
#[derive(Clone, Debug, PartialEq, Eq)]
pub struct Pokemon {
    pub id: u128,
    pub name: String,
    pub type_: String,
    pub level: u8,
    pub hp: u16,
}

/// The fields a client supplies when creating a record; the store assigns the id.
#[derive(Clone, Debug, PartialEq, Eq)]
pub struct PokemonInput {
    pub name: String,
    pub type_: String,
    pub level: u8,
    pub hp: u16,
}

/// The part of the provider's answer that the store reads.
#[derive(Clone, Debug, PartialEq, Eq)]
pub struct PokeAPIResponse {
    pub name: String,
    pub types: Vec<PokeType>,
}

/// One entry of the provider's type list.
#[derive(Clone, Debug, PartialEq, Eq)]
pub struct PokeType {
    pub poke_type: TypeName,
}

/// The name of a type as the provider reports it.
#[derive(Clone, Debug, PartialEq, Eq)]
pub struct TypeName {
    pub name: String,
}

/// The query of a batch fetch: identifiers separated by commas.
#[derive(Clone, Debug, PartialEq, Eq)]
pub struct FetchAllQuery {
    pub names: String,
}

/// The level given to every record built from a provider response.
pub const DEFAULT_LEVEL: u8 = 1;

/// The hit points given to every record built from a provider response.
pub const DEFAULT_HP: u16 = 100;

/// The kind of a provider response: its first reported type, or `"unknown"`.
pub open spec fn kind_of(resp: PokeAPIResponse) -> Seq<char> {
    if resp.types@.len() > 0 {
        resp.types@[0].poke_type.name@
    } else {
        "unknown"@
    }
}

/// `p` is the record that normalizing `resp` under the id `id` yields.
pub open spec fn is_normalized(p: Pokemon, resp: PokeAPIResponse, id: u128) -> bool {
    &&& p.id == id
    &&& p.name@ == resp.name@
    &&& p.type_@ == kind_of(resp)
    &&& p.level == DEFAULT_LEVEL
    &&& p.hp == DEFAULT_HP
}

/// `p` is the record that creating `input` under the id `id` yields.
pub open spec fn is_created(p: Pokemon, input: PokemonInput, id: u128) -> bool {
    &&& p.id == id
    &&& p.name == input.name
    &&& p.type_ == input.type_
    &&& p.level == input.level
    &&& p.hp == input.hp
}

impl Pokemon {
    /// Builds a record from a client's input under the given id.
    pub fn from_input(input: PokemonInput, id: u128) -> (r: Pokemon)
        ensures
            is_created(r, input, id),
    {
        Pokemon { id, name: input.name, type_: input.type_, level: input.level, hp: input.hp }
    }

    /// A field-by-field copy of the record.
    pub fn duplicate(&self) -> (r: Pokemon)
        ensures
            r == *self,
    {
        Pokemon {
            id: self.id,
            name: self.name.clone(),
            type_: self.type_.clone(),
            level: self.level,
            hp: self.hp,
        }
    }
}

/// Turns a provider response into a record with the given id: the provider's
/// name, its first type (or `"unknown"` when it reports none), and the default
/// level and hit points.
pub fn normalize(resp: &PokeAPIResponse, id: u128) -> (r: Pokemon)
    ensures
        is_normalized(r, *resp, id),
{
    let type_ = if resp.types.len() > 0 {
        resp.types[0].poke_type.name.clone()
    } else {
        String::from_str("unknown")
    };
    Pokemon { id, name: resp.name.clone(), type_, level: DEFAULT_LEVEL, hp: DEFAULT_HP }
}

} // verus!
