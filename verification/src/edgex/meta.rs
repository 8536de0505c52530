//! The venue's ids of the contracts.
//!
//! A channel is named after the id of a contract. The ids can be configured; by default they are
//! read from the venue's metadata, so that they follow when the venue changes them.

use vstd::prelude::*;

use crate::by_symbol::BySymbol;
use crate::json::Json;
use crate::symbol::{Dex, Symbol};

verus! {

/// How many levels of nesting are searched.
pub const MAX_NESTING: usize = 13;

/// The texts of `ids`.
pub open spec fn texts(ids: Map<Symbol, String>) -> Map<Symbol, Seq<char>> {
    ids.map_values(|s: String| s@)
}

/// The text of a text or of a number.
pub open spec fn text_like(value: Option<Json>) -> Option<Seq<char>> {
    match value {
        Some(Json::Text(s)) => Some(s@),
        Some(Json::Number(s)) => Some(s@),
        _ => None,
    }
}

/// `ids` with the contract that the object `value` itself describes, where it is one of an
/// instrument.
pub open spec fn noted_here(ids: Map<Symbol, Seq<char>>, value: Json) -> Map<Symbol, Seq<char>> {
    match (text_like(value.member("contractId"@)), text_like(value.member("contractName"@))) {
        (Some(id), Some(name)) => match Symbol::called(Dex::EdgeX, name) {
            Some(symbol) => ids.insert(symbol, id),
            None => ids,
        },
        _ => ids,
    }
}

/// `ids` with the contracts that `value` and, up to `nesting` levels down, the values in it
/// describe. One that is met later takes the place of an earlier one.
pub open spec fn noted(ids: Map<Symbol, Seq<char>>, value: Json, nesting: nat) -> Map<
    Symbol,
    Seq<char>,
>
    decreases 2 * nesting, 0nat,
{
    if nesting == 0 {
        ids
    } else {
        match value {
            Json::Object(members) => noted_members(
                noted_here(ids, value),
                members@,
                members@.len(),
                (nesting - 1) as nat,
            ),
            Json::Array(items) => noted_items(
                ids,
                items@,
                items@.len(),
                (nesting - 1) as nat,
            ),
            _ => ids,
        }
    }
}

/// `ids` with the contracts in the first `n` of `members`.
pub open spec fn noted_members(
    ids: Map<Symbol, Seq<char>>,
    members: Seq<(String, Json)>,
    n: nat,
    nesting: nat,
) -> Map<Symbol, Seq<char>>
    decreases 2 * nesting + 1, n,
{
    if n == 0 {
        ids
    } else {
        noted(noted_members(ids, members, (n - 1) as nat, nesting), members[n - 1].1, nesting)
    }
}

/// `ids` with the contracts in the first `n` of `items`.
pub open spec fn noted_items(
    ids: Map<Symbol, Seq<char>>,
    items: Seq<Json>,
    n: nat,
    nesting: nat,
) -> Map<Symbol, Seq<char>>
    decreases 2 * nesting + 1, n,
{
    if n == 0 {
        ids
    } else {
        noted(noted_items(ids, items, (n - 1) as nat, nesting), items[n - 1], nesting)
    }
}

/// The text of a text or of a number.
fn as_text_like(value: Option<&Json>) -> (r: Option<&String>)
    ensures
        r matches Some(s) ==> text_like(
            match value {
                Some(v) => Some(*v),
                None => None,
            },
        ) == Some(s@),
        r is None ==> text_like(
            match value {
                Some(v) => Some(*v),
                None => None,
            },
        ) is None,
{
    match value {
        Some(Json::Text(s)) => Some(s),
        Some(Json::Number(s)) => Some(s),
        _ => None,
    }
}

fn walk(value: &Json, nesting: usize, ids: &mut BySymbol<String>)
    ensures
        texts(final(ids)@) == noted(texts(old(ids)@), *value, nesting as nat),
    decreases nesting,
{
    if nesting == 0 {
        return;
    }
    match value {
        Json::Object(members) => {
            let id = as_text_like(value.get("contractId"));
            let name = as_text_like(value.get("contractName"));
            if let (Some(id), Some(name)) = (id, name) {
                if let Some(symbol) = Symbol::from_dex_symbol(Dex::EdgeX, name.as_str()) {
                    let id = id.clone();
                    ids.set(symbol, id);
                    proof {
                        assert(texts(ids@) =~= texts(old(ids)@).insert(symbol, id@));
                    }
                }
            }
            let ghost start = texts(ids@);
            let n: usize = members.len();
            let mut i: usize = 0;
            while i < n
                invariant
                    i <= n,
                    n == members@.len(),
                    nesting > 0,
                    texts(ids@) == noted_members(start, members@, i as nat, (nesting - 1) as nat),
                decreases n - i,
            {
                walk(&members[i].1, nesting - 1, ids);
                i += 1;
            }
        },
        Json::Array(items) => {
            let ghost start = texts(ids@);
            let n: usize = items.len();
            let mut i: usize = 0;
            while i < n
                invariant
                    i <= n,
                    n == items@.len(),
                    nesting > 0,
                    texts(ids@) == noted_items(start, items@, i as nat, (nesting - 1) as nat),
                decreases n - i,
            {
                walk(&items[i], nesting - 1, ids);
                i += 1;
            }
        },
        _ => {},
    }
}

/// The ids of the instruments' contracts in the venue's metadata, wherever in `body` they stand.
pub fn extract_contract_ids(body: &Json) -> (r: BySymbol<String>)
    ensures
        texts(r@) == noted(Map::empty(), *body, MAX_NESTING as nat),
{
    let mut ids: BySymbol<String> = BySymbol::new();
    proof {
        assert(texts(ids@) =~= Map::empty());
    }
    walk(body, MAX_NESTING, &mut ids);
    ids
}

/// An object with an id and the name of an instrument of ours notes the id under the instrument; one
/// without either notes nothing. All else stays as it was.
pub proof fn law_contract_is_noted_under_its_name(
    ids: Map<Symbol, Seq<char>>,
    value: Json,
    other: Symbol,
)
    ensures
        ({
            let after = noted_here(ids, value);
            let id = text_like(value.member("contractId"@));
            let name = text_like(value.member("contractName"@));
            let symbol = match name {
                Some(text) => Symbol::called(Dex::EdgeX, text),
                None => None,
            };
            &&& id is Some && symbol is Some ==> after.contains_key(symbol.unwrap()) && Some(
                after[symbol.unwrap()],
            ) == id
            &&& id is None || symbol is None ==> after == ids
            &&& symbol != Some(other) ==> (after.contains_key(other) <==> ids.contains_key(other))
                && (ids.contains_key(other) ==> after[other] == ids[other])
        }),
{
}

/// The contracts of a list are noted as those of its parts, one after the other, so that the last one
/// of an instrument counts and none is left out, however long the list is.
pub proof fn law_contracts_are_noted_in_turn(
    ids: Map<Symbol, Seq<char>>,
    first: Seq<Json>,
    second: Seq<Json>,
    nesting: nat,
)
    ensures
        noted_items(ids, first + second, (first + second).len(), nesting) == noted_items(
            noted_items(ids, first, first.len(), nesting),
            second,
            second.len(),
            nesting,
        ),
{
    lemma_items(ids, first, second, second.len(), nesting);
}

proof fn lemma_items_of_prefix(
    ids: Map<Symbol, Seq<char>>,
    first: Seq<Json>,
    second: Seq<Json>,
    n: nat,
    nesting: nat,
)
    requires
        n <= first.len(),
    ensures
        noted_items(ids, first + second, n, nesting) == noted_items(ids, first, n, nesting),
    decreases n,
{
    if n > 0 {
        lemma_items_of_prefix(ids, first, second, (n - 1) as nat, nesting);
        assert((first + second)[n - 1] == first[n - 1]);
    }
}

proof fn lemma_items(
    ids: Map<Symbol, Seq<char>>,
    first: Seq<Json>,
    second: Seq<Json>,
    n: nat,
    nesting: nat,
)
    requires
        n <= second.len(),
    ensures
        noted_items(ids, first + second, first.len() + n, nesting) == noted_items(
            noted_items(ids, first, first.len(), nesting),
            second,
            n,
            nesting,
        ),
    decreases n,
{
    if n == 0 {
        lemma_items_of_prefix(ids, first, second, first.len(), nesting);
    } else {
        lemma_items(ids, first, second, (n - 1) as nat, nesting);
        assert((first + second)[first.len() + n - 1] == second[n - 1]);
    }
}

/// A list of one value notes what the value notes; a list notes what its items note; a table notes
/// what it describes itself and then what its members' values note.
pub proof fn law_contracts_are_searched_inside(
    ids: Map<Symbol, Seq<char>>,
    value: Json,
    items: Vec<Json>,
    members: Vec<(String, Json)>,
    nesting: nat,
)
    ensures
        noted_items(ids, seq![value], 1, nesting) == noted(ids, value, nesting),
        noted(ids, Json::Array(items), nesting + 1) == noted_items(
            ids,
            items@,
            items@.len(),
            nesting,
        ),
        noted(ids, Json::Object(members), nesting + 1) == noted_items(
            noted_here(ids, Json::Object(members)),
            members@.map_values(|m: (String, Json)| m.1),
            members@.len(),
            nesting,
        ),
{
    reveal_with_fuel(noted_items, 2);
    lemma_members(noted_here(ids, Json::Object(members)), members@, members@.len(), nesting);
}

proof fn lemma_members(
    ids: Map<Symbol, Seq<char>>,
    members: Seq<(String, Json)>,
    n: nat,
    nesting: nat,
)
    requires
        n <= members.len(),
    ensures
        noted_members(ids, members, n, nesting) == noted_items(
            ids,
            members.map_values(|m: (String, Json)| m.1),
            n,
            nesting,
        ),
    decreases n,
{
    if n > 0 {
        lemma_members(ids, members, (n - 1) as nat, nesting);
    }
}

} // verus!
