//! The ledger as a TOML document: one table `players`, in it one table for
//! each key, in that the player's `username`, `credits` and `cuties`.

use crate::document::{
    as_integer, as_table, as_text, empty_document, integer_value, new_table, parse_document,
    parsed_document, render_document, rendered_document, table_get, table_insert, table_keys,
    table_model, table_value, text_value, value_model, Node,
};
use crate::failure::Failure;
use crate::ledger::{Ledger, Player, PlayerView};
use vstd::prelude::*;

verus! {

/// The key of the table that holds the players.
pub open spec fn players_key() -> Seq<char> {
    "players"@
}

/// The key of a player's name.
pub open spec fn username_key() -> Seq<char> {
    "username"@
}

/// The key of a player's credits.
pub open spec fn credits_key() -> Seq<char> {
    "credits"@
}

/// The key of a player's second currency.
pub open spec fn cuties_key() -> Seq<char> {
    "cuties"@
}

proof fn lemma_keys_differ()
    ensures
        username_key() != credits_key(),
        username_key() != cuties_key(),
        credits_key() != cuties_key(),
{
    reveal_strlit("username");
    reveal_strlit("credits");
    reveal_strlit("cuties");
    assert(username_key().len() == 8);
    assert(credits_key().len() == 7);
    assert(cuties_key().len() == 6);
}

// ---------------------------------------------------------------------------
// Reading
// ---------------------------------------------------------------------------

/// The amount that `node` holds: an integer that is not negative and that a
/// `usize` holds.
pub open spec fn decoded_amount(node: Node) -> Option<nat> {
    match node {
        Node::Integer(n) => if 0 <= n && n <= usize::MAX {
            Some(n as nat)
        } else {
            None
        },
        _ => None,
    }
}

/// The player that `node` holds: a table with a text under `username` and
/// an amount under each of `credits` and `cuties`. Whatever else the table
/// holds is passed over.
pub open spec fn decoded_player(node: Node) -> Option<PlayerView> {
    match node {
        Node::Table(fields) => {
            if fields.contains_key(username_key()) && fields.contains_key(credits_key())
                && fields.contains_key(cuties_key()) {
                match (
                    fields[username_key()],
                    decoded_amount(fields[credits_key()]),
                    decoded_amount(fields[cuties_key()]),
                ) {
                    (Node::Text(username), Some(credits), Some(cuties)) => Some(
                        PlayerView { username, credits, cuties },
                    ),
                    _ => None,
                }
            } else {
                None
            }
        },
        _ => None,
    }
}

/// Whether every entry of a table holds a player.
pub open spec fn all_players(entries: Map<Seq<char>, Node>) -> bool {
    forall|key: Seq<char>| #[trigger]
        entries.contains_key(key) ==> decoded_player(entries[key]) is Some
}

/// The ledger that `document` holds: under `players` a table each of whose
/// entries holds a player. Whatever else the document holds is passed over.
pub open spec fn decoded_ledger(document: Map<Seq<char>, Node>) -> Option<
    Map<Seq<char>, PlayerView>,
> {
    if document.contains_key(players_key()) {
        match document[players_key()] {
            Node::Table(entries) => if all_players(entries) {
                Some(
                    Map::new(
                        |key: Seq<char>| entries.contains_key(key),
                        |key: Seq<char>| decoded_player(entries[key]).unwrap(),
                    ),
                )
            } else {
                None
            },
            _ => None,
        }
    } else {
        None
    }
}

fn decode_amount(value: &toml::Value) -> (amount: Option<usize>)
    ensures
        match amount {
            Some(a) => decoded_amount(value_model(*value)) == Some(a as nat),
            None => decoded_amount(value_model(*value)) is None,
        },
{
    match as_integer(value) {
        Some(n) => {
            if n < 0 {
                None
            } else if n as u64 > usize::MAX as u64 {
                None
            } else {
                Some(n as usize)
            }
        },
        None => None,
    }
}

fn decode_player(value: &toml::Value) -> (player: Option<Player>)
    ensures
        match player {
            Some(p) => decoded_player(value_model(*value)) == Some(p@),
            None => decoded_player(value_model(*value)) is None,
        },
{
    let fields = match as_table(value) {
        Some(fields) => fields,
        None => {
            return None;
        },
    };
    let username = match table_get(fields, "username") {
        Some(found) => match as_text(found) {
            Some(text) => text.to_owned(),
            None => {
                return None;
            },
        },
        None => {
            return None;
        },
    };
    let credits = match table_get(fields, "credits") {
        Some(found) => match decode_amount(found) {
            Some(amount) => amount,
            None => {
                return None;
            },
        },
        None => {
            return None;
        },
    };
    let cuties = match table_get(fields, "cuties") {
        Some(found) => match decode_amount(found) {
            Some(amount) => amount,
            None => {
                return None;
            },
        },
        None => {
            return None;
        },
    };
    Some(Player { username, credits, cuties })
}

// ---------------------------------------------------------------------------
// Writing
// ---------------------------------------------------------------------------

/// Whether a document can hold the ledger `l`: a TOML integer is a signed
/// one of 64 bits, so no amount may be above `i64::MAX`.
pub open spec fn encodable(l: Map<Seq<char>, PlayerView>) -> bool {
    forall|key: Seq<char>| #[trigger]
        l.contains_key(key) ==> l[key].credits <= i64::MAX && l[key].cuties <= i64::MAX
}

/// The table that holds the player `p`.
pub open spec fn player_node(p: PlayerView) -> Node {
    Node::Table(
        empty_document().insert(username_key(), Node::Text(p.username)).insert(
            credits_key(),
            Node::Integer(p.credits as i64),
        ).insert(cuties_key(), Node::Integer(p.cuties as i64)),
    )
}

/// The table that holds the players of `l`, each under its key.
pub open spec fn players_node(l: Map<Seq<char>, PlayerView>) -> Node {
    Node::Table(
        Map::new(|key: Seq<char>| l.contains_key(key), |key: Seq<char>| player_node(l[key])),
    )
}

/// The document that holds the ledger `l`.
pub open spec fn encoded_ledger(l: Map<Seq<char>, PlayerView>) -> Map<Seq<char>, Node> {
    empty_document().insert(players_key(), players_node(l))
}

/// A player's table holds that player again.
pub proof fn lemma_player_round_trip(p: PlayerView)
    requires
        p.credits <= i64::MAX,
        p.cuties <= i64::MAX,
        p.credits <= usize::MAX,
        p.cuties <= usize::MAX,
    ensures
        decoded_player(player_node(p)) == Some(p),
{
    lemma_keys_differ();
}

/// Round trip, on documents: the document that is written for a ledger holds
/// that ledger again, whatever records it has, as long as their amounts are
/// ones that the document can hold.
pub proof fn lemma_document_round_trip(ledger: Ledger)
    requires
        encodable(ledger@),
    ensures
        decoded_ledger(encoded_ledger(ledger@)) == Some(ledger@),
{
    let l = ledger@;
    ledger.lemma_amounts_fit();
    let entries = Map::new(
        |key: Seq<char>| l.contains_key(key),
        |key: Seq<char>| player_node(l[key]),
    );
    assert forall|key: Seq<char>| #[trigger] entries.contains_key(key) implies decoded_player(
        entries[key],
    ) == Some(l[key]) by {
        lemma_player_round_trip(l[key]);
    }
    assert(all_players(entries));
    let back = decoded_ledger(encoded_ledger(l)).unwrap();
    assert(back =~= l);
}

fn encode_amount(amount: usize) -> (value: Option<toml::Value>)
    ensures
        match value {
            Some(v) => amount <= i64::MAX && value_model(v) == Node::Integer(amount as i64),
            None => amount > i64::MAX,
        },
{
    if amount as u64 > i64::MAX as u64 {
        None
    } else {
        Some(integer_value(amount as i64))
    }
}

fn encode_player(player: &Player) -> (value: Option<toml::Value>)
    ensures
        match value {
            Some(v) => player.credits <= i64::MAX && player.cuties <= i64::MAX && value_model(v)
                == player_node(player@),
            None => player.credits > i64::MAX || player.cuties > i64::MAX,
        },
{
    let credits = match encode_amount(player.credits) {
        Some(v) => v,
        None => {
            return None;
        },
    };
    let cuties = match encode_amount(player.cuties) {
        Some(v) => v,
        None => {
            return None;
        },
    };
    let mut fields = new_table();
    table_insert(&mut fields, "username".to_owned(), text_value(player.username.clone()));
    table_insert(&mut fields, "credits".to_owned(), credits);
    table_insert(&mut fields, "cuties".to_owned(), cuties);
    Some(table_value(fields))
}

impl Ledger {
    /// Reads the ledger that a document holds.
    pub fn from_document(document: &toml::Table) -> (outcome: Result<Ledger, Failure>)
        ensures
            match outcome {
                Ok(ledger) => decoded_ledger(table_model(*document)) == Some(ledger@),
                Err(failure) => failure == Failure::StoreCorrupt && decoded_ledger(
                    table_model(*document),
                ) is None,
            },
    {
        let entries = match table_get(document, "players") {
            Some(found) => match as_table(found) {
                Some(entries) => entries,
                None => {
                    return Err(Failure::StoreCorrupt);
                },
            },
            None => {
                return Err(Failure::StoreCorrupt);
            },
        };
        let ghost model = table_model(*entries);
        let keys = table_keys(entries);
        let mut ledger = Ledger::new();
        let mut i: usize = 0;
        while i < keys.len()
            invariant
                i <= keys.len(),
                model == table_model(*entries),
                table_model(*document).contains_key(players_key()),
                table_model(*document)[players_key()] == Node::Table(model),
                forall|k: int| 0 <= k < keys.len() ==> model.contains_key(#[trigger] keys[k]@),
                forall|key: Seq<char>| #[trigger]
                    model.contains_key(key) ==> exists|k: int|
                        0 <= k < keys.len() && #[trigger] keys[k]@ == key,
                forall|key: Seq<char>| #[trigger]
                    ledger@.contains_key(key) <==> exists|k: int|
                        0 <= k < i && #[trigger] keys[k]@ == key,
                forall|key: Seq<char>| #[trigger]
                    ledger@.contains_key(key) ==> decoded_player(model[key]) == Some(ledger@[key]),
            decreases keys.len() - i,
        {
            let key = keys[i].clone();
            let player = match table_get(entries, key.as_str()) {
                Some(found) => match decode_player(found) {
                    Some(player) => player,
                    None => {
                        proof {
                            assert(model.contains_key(key@));
                            assert(!all_players(model));
                        }
                        return Err(Failure::StoreCorrupt);
                    },
                },
                None => {
                    proof {
                        assert(model.contains_key(keys[i as int]@));
                    }
                    return Err(Failure::StoreCorrupt);
                },
            };
            let ghost before = ledger@;
            ledger.insert(key, player);
            proof {
                assert forall|key: Seq<char>| #[trigger] ledger@.contains_key(key) <==> exists|
                    k: int,
                | 0 <= k < i + 1 && #[trigger] keys[k]@ == key by {
                    if ledger@.contains_key(key) {
                        if before.contains_key(key) {
                            let k = choose|k: int| 0 <= k < i && #[trigger] keys[k]@ == key;
                            assert(0 <= k < i + 1 && keys[k]@ == key);
                        } else {
                            assert(keys[i as int]@ == key);
                        }
                    }
                    if exists|k: int| 0 <= k < i + 1 && #[trigger] keys[k]@ == key {
                        let k = choose|k: int| 0 <= k < i + 1 && #[trigger] keys[k]@ == key;
                        if k < i {
                            assert(before.contains_key(key));
                        }
                    }
                }
            }
            i += 1;
        }
        proof {
            assert forall|key: Seq<char>| #[trigger]
                model.contains_key(key) implies ledger@.contains_key(key) by {
                let k = choose|k: int| 0 <= k < keys.len() && #[trigger] keys[k]@ == key;
                assert(0 <= k < i && keys[k]@ == key);
            }
            assert(all_players(model));
            assert forall|key: Seq<char>| #[trigger]
                ledger@.contains_key(key) implies model.contains_key(key) by {
                let k = choose|k: int| 0 <= k < i && #[trigger] keys[k]@ == key;
                assert(model.contains_key(keys[k]@));
            }
            let read = Map::new(
                |key: Seq<char>| model.contains_key(key),
                |key: Seq<char>| decoded_player(model[key]).unwrap(),
            );
            assert(read =~= ledger@);
        }
        Ok(ledger)
    }

    /// Writes the ledger as a document, where a document can hold it.
    pub fn to_document(&self) -> (document: Option<toml::Table>)
        ensures
            match document {
                Some(table) => encodable(self@) && table_model(table) == encoded_ledger(self@),
                None => !encodable(self@),
            },
    {
        let keys = self.keys();
        let mut entries = new_table();
        let mut i: usize = 0;
        while i < keys.len()
            invariant
                i <= keys.len(),
                forall|k: int| 0 <= k < keys.len() ==> self@.contains_key(#[trigger] keys[k]@),
                forall|key: Seq<char>| #[trigger]
                    self@.contains_key(key) ==> exists|k: int|
                        0 <= k < keys.len() && #[trigger] keys[k]@ == key,
                forall|key: Seq<char>| #[trigger]
                    table_model(entries).contains_key(key) <==> exists|k: int|
                        0 <= k < i && #[trigger] keys[k]@ == key,
                forall|key: Seq<char>| #[trigger]
                    table_model(entries).contains_key(key) ==> table_model(entries)[key]
                        == player_node(self@[key]) && self@[key].credits <= i64::MAX
                        && self@[key].cuties <= i64::MAX,
            decreases keys.len() - i,
        {
            let key = keys[i].clone();
            let value = match self.get(key.as_str()) {
                Some(player) => match encode_player(player) {
                    Some(value) => value,
                    None => {
                        return None;
                    },
                },
                None => {
                    proof {
                        assert(self@.contains_key(keys[i as int]@));
                    }
                    return None;
                },
            };
            let ghost before = table_model(entries);
            table_insert(&mut entries, key, value);
            proof {
                assert forall|key: Seq<char>| #[trigger]
                    table_model(entries).contains_key(key) <==> exists|k: int|
                        0 <= k < i + 1 && #[trigger] keys[k]@ == key by {
                    if table_model(entries).contains_key(key) {
                        if before.contains_key(key) {
                            let k = choose|k: int| 0 <= k < i && #[trigger] keys[k]@ == key;
                            assert(0 <= k < i + 1 && keys[k]@ == key);
                        } else {
                            assert(keys[i as int]@ == key);
                        }
                    }
                    if exists|k: int| 0 <= k < i + 1 && #[trigger] keys[k]@ == key {
                        let k = choose|k: int| 0 <= k < i + 1 && #[trigger] keys[k]@ == key;
                        if k < i {
                            assert(before.contains_key(key));
                        }
                    }
                }
            }
            i += 1;
        }
        proof {
            assert forall|key: Seq<char>| #[trigger] self@.contains_key(key) implies table_model(
                entries,
            ).contains_key(key) by {
                let k = choose|k: int| 0 <= k < keys.len() && #[trigger] keys[k]@ == key;
                assert(0 <= k < i && keys[k]@ == key);
            }
            assert forall|key: Seq<char>| #[trigger]
                table_model(entries).contains_key(key) implies self@.contains_key(key) by {
                let k = choose|k: int| 0 <= k < i && #[trigger] keys[k]@ == key;
                assert(self@.contains_key(keys[k]@));
            }
            assert(table_model(entries) =~= Map::new(
                |key: Seq<char>| self@.contains_key(key),
                |key: Seq<char>| player_node(self@[key]),
            ));
        }
        let mut document = new_table();
        table_insert(&mut document, "players".to_owned(), table_value(entries));
        Some(document)
    }

    /// Reads the ledger that a TOML text holds.
    pub fn from_toml(text: &str) -> (outcome: Result<Ledger, Failure>)
        ensures
            match outcome {
                Ok(ledger) => read_ledger(text@) == Some(ledger@),
                Err(failure) => failure == Failure::StoreCorrupt && read_ledger(text@) is None,
            },
    {
        match parse_document(text) {
            Ok(document) => Ledger::from_document(&document),
            Err(_) => Err(Failure::StoreCorrupt),
        }
    }

    /// Writes the ledger as TOML text, where there is such a text.
    pub fn to_toml(&self) -> (text: Option<String>)
        ensures
            match text {
                Some(t) => written_ledger(self@) == Some(t@),
                None => written_ledger(self@) is None,
            },
    {
        match self.to_document() {
            Some(document) => match render_document(&document) {
                Ok(text) => Some(text),
                Err(_) => None,
            },
            None => None,
        }
    }
}

/// The ledger that `text` holds: the text is a TOML document, and the
/// document holds a ledger.
pub open spec fn read_ledger(text: Seq<char>) -> Option<Map<Seq<char>, PlayerView>> {
    match parsed_document(text) {
        Some(document) => decoded_ledger(document),
        None => None,
    }
}

/// The TOML text for the ledger `l`: the text written for its document,
/// where a document can hold it.
pub open spec fn written_ledger(l: Map<Seq<char>, PlayerView>) -> Option<Seq<char>> {
    if encodable(l) {
        rendered_document(encoded_ledger(l))
    } else {
        None
    }
}

} // verus!
