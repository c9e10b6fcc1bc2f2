//! Player records and the ledger that holds them, one for each key.

use crate::text::same_text;
use vstd::prelude::*;

verus! {

/// One participant's record.
#[derive(Clone, Debug, PartialEq, Eq)]
pub struct Player {
    /// The name shown for the participant.
    pub username: String,
    /// What the participant has earned by working. Nothing ever lowers it.
    pub credits: usize,
    /// A second currency, kept but not yet earned or spent by anything.
    pub cuties: usize,
}

/// A player record as plain values.
pub struct PlayerView {
    pub username: Seq<char>,
    pub credits: nat,
    pub cuties: nat,
}

impl View for Player {
    type V = PlayerView;

    open spec fn view(&self) -> PlayerView {
        PlayerView {
            username: self.username@,
            credits: self.credits as nat,
            cuties: self.cuties as nat,
        }
    }
}

/// The record `p` with `units` more credits.
pub open spec fn with_more_credits(p: PlayerView, units: nat) -> PlayerView {
    PlayerView { username: p.username, credits: p.credits + units, cuties: p.cuties }
}

/// The ledger `l` after the player under `key` has earned `units` credits.
/// A key that stands for no player earns nothing.
pub open spec fn credited(l: Map<Seq<char>, PlayerView>, key: Seq<char>, units: nat) -> Map<
    Seq<char>,
    PlayerView,
> {
    if l.contains_key(key) {
        l.insert(key, with_more_credits(l[key], units))
    } else {
        l
    }
}

struct Entry {
    key: String,
    player: Player,
}

spec fn distinct_keys(entries: Seq<Entry>) -> bool {
    forall|i: int, j: int| 0 <= i < j < entries.len() ==> entries[i].key@ != entries[j].key@
}

spec fn key_at(entries: Seq<Entry>, key: Seq<char>, i: int) -> bool {
    0 <= i < entries.len() && entries[i].key@ == key
}

spec fn slot_of(entries: Seq<Entry>, key: Seq<char>) -> int {
    choose|i: int| key_at(entries, key, i)
}

spec fn model_of(entries: Seq<Entry>) -> Map<Seq<char>, PlayerView> {
    Map::new(
        |key: Seq<char>| exists|i: int| key_at(entries, key, i),
        |key: Seq<char>| entries[slot_of(entries, key)].player@,
    )
}

proof fn lemma_lookup(entries: Seq<Entry>, i: int)
    requires
        distinct_keys(entries),
        0 <= i < entries.len(),
    ensures
        model_of(entries).contains_key(entries[i].key@),
        model_of(entries)[entries[i].key@] == entries[i].player@,
{
    let key = entries[i].key@;
    assert(key_at(entries, key, i));
    let j = slot_of(entries, key);
    assert(key_at(entries, key, j));
    assert(i == j);
}

proof fn lemma_missing(entries: Seq<Entry>, key: Seq<char>)
    requires
        forall|i: int| !key_at(entries, key, i),
    ensures
        !model_of(entries).contains_key(key),
{
}

proof fn lemma_replace(entries: Seq<Entry>, i: int, entry: Entry)
    requires
        distinct_keys(entries),
        0 <= i < entries.len(),
        entry.key@ == entries[i].key@,
    ensures
        distinct_keys(entries.update(i, entry)),
        model_of(entries.update(i, entry)) == model_of(entries).insert(entry.key@, entry.player@),
{
    let after = entries.update(i, entry);
    let wanted = model_of(entries).insert(entry.key@, entry.player@);
    assert(distinct_keys(after));
    assert forall|key: Seq<char>| model_of(after).contains_key(key) <==> wanted.contains_key(
        key,
    ) by {
        if model_of(after).contains_key(key) {
            let j = choose|j: int| key_at(after, key, j);
            assert(key_at(entries, key, j));
        }
        if model_of(entries).contains_key(key) {
            let j = choose|j: int| key_at(entries, key, j);
            assert(key_at(after, key, j));
        }
        if key == entry.key@ {
            assert(key_at(after, key, i));
        }
    }
    assert forall|key: Seq<char>| model_of(after).contains_key(key) implies model_of(after)[key]
        == wanted[key] by {
        let j = choose|j: int| key_at(after, key, j);
        lemma_lookup(after, j);
        if j != i {
            lemma_lookup(entries, j);
        }
    }
    assert(model_of(after) =~= wanted);
}

proof fn lemma_append(entries: Seq<Entry>, entry: Entry)
    requires
        distinct_keys(entries),
        forall|i: int| !key_at(entries, entry.key@, i),
    ensures
        distinct_keys(entries.push(entry)),
        model_of(entries.push(entry)) == model_of(entries).insert(entry.key@, entry.player@),
{
    let after = entries.push(entry);
    let wanted = model_of(entries).insert(entry.key@, entry.player@);
    assert forall|i: int, j: int| 0 <= i < j < after.len() implies after[i].key@
        != after[j].key@ by {
        if j == entries.len() {
            assert(!key_at(entries, entry.key@, i));
        }
    }
    assert forall|key: Seq<char>| model_of(after).contains_key(key) <==> wanted.contains_key(
        key,
    ) by {
        if model_of(after).contains_key(key) {
            let j = choose|j: int| key_at(after, key, j);
            if j < entries.len() {
                assert(key_at(entries, key, j));
            }
        }
        if model_of(entries).contains_key(key) {
            let j = choose|j: int| key_at(entries, key, j);
            assert(key_at(after, key, j));
        }
        if key == entry.key@ {
            assert(key_at(after, key, entries.len() as int));
        }
    }
    assert forall|key: Seq<char>| model_of(after).contains_key(key) implies model_of(after)[key]
        == wanted[key] by {
        let j = choose|j: int| key_at(after, key, j);
        lemma_lookup(after, j);
        if j < entries.len() {
            lemma_lookup(entries, j);
        }
    }
    assert(model_of(after) =~= wanted);
}

proof fn lemma_size(entries: Seq<Entry>)
    requires
        distinct_keys(entries),
    ensures
        model_of(entries).dom().finite(),
        model_of(entries).dom().len() == entries.len(),
    decreases entries.len(),
{
    if entries.len() == 0 {
        assert(model_of(entries).dom() =~= Set::<Seq<char>>::empty());
    } else {
        let front = entries.drop_last();
        let entry = entries.last();
        assert(distinct_keys(front));
        lemma_size(front);
        assert forall|i: int| !key_at(front, entry.key@, i) by {
            if 0 <= i < front.len() {
                assert(entries[i].key@ != entries[entries.len() - 1].key@);
            }
        }
        lemma_append(front, entry);
        lemma_missing(front, entry.key@);
        assert(front.push(entry) =~= entries);
        assert(model_of(entries).dom() =~= model_of(front).dom().insert(entry.key@));
    }
}

/// The player records, each under the key of its participant. A key stands
/// for at most one record. The order in which records were put in means
/// nothing.
pub struct Ledger {
    entries: Vec<Entry>,
}

impl View for Ledger {
    type V = Map<Seq<char>, PlayerView>;

    closed spec fn view(&self) -> Map<Seq<char>, PlayerView> {
        model_of(self.entries@)
    }
}

impl Ledger {
    #[verifier::type_invariant]
    spec fn well_formed(self) -> bool {
        distinct_keys(self.entries@)
    }

    /// A ledger without records.
    pub fn new() -> (ledger: Ledger)
        ensures
            ledger@ == Map::<Seq<char>, PlayerView>::empty(),
    {
        let ledger = Ledger { entries: Vec::new() };
        assert(ledger@ =~= Map::<Seq<char>, PlayerView>::empty());
        ledger
    }

    fn position(&self, key: &str) -> (found: Option<usize>)
        ensures
            match found {
                Some(i) => key_at(self.entries@, key@, i as int),
                None => forall|i: int| !key_at(self.entries@, key@, i),
            },
    {
        let mut i: usize = 0;
        while i < self.entries.len()
            invariant
                i <= self.entries.len(),
                forall|k: int| 0 <= k < i ==> !key_at(self.entries@, key@, k),
            decreases self.entries.len() - i,
        {
            if same_text(self.entries[i].key.as_str(), key) {
                return Some(i);
            }
            i += 1;
        }
        None
    }

    /// Every amount in a ledger is one that a `usize` holds.
    pub proof fn lemma_amounts_fit(self)
        ensures
            forall|key: Seq<char>| #[trigger]
                self@.contains_key(key) ==> self@[key].credits <= usize::MAX && self@[key].cuties
                    <= usize::MAX,
    {
    }

    /// The number of records.
    pub fn len(&self) -> (n: usize)
        ensures
            self@.dom().finite(),
            n == self@.dom().len(),
    {
        proof {
            use_type_invariant(self);
            lemma_size(self.entries@);
        }
        self.entries.len()
    }

    /// Whether `key` stands for a record.
    pub fn contains(&self, key: &str) -> (present: bool)
        ensures
            present == self@.contains_key(key@),
    {
        self.position(key).is_some()
    }

    /// The record that `key` stands for.
    pub fn get(&self, key: &str) -> (found: Option<&Player>)
        ensures
            match found {
                Some(player) => self@.contains_key(key@) && player@ == self@[key@],
                None => !self@.contains_key(key@),
            },
    {
        proof {
            use_type_invariant(self);
        }
        match self.position(key) {
            Some(i) => {
                proof {
                    lemma_lookup(self.entries@, i as int);
                }
                Some(&self.entries[i].player)
            },
            None => None,
        }
    }

    /// The credits of the player that `key` stands for.
    pub fn credits_of(&self, key: &str) -> (credits: Option<usize>)
        ensures
            match credits {
                Some(c) => self@.contains_key(key@) && c == self@[key@].credits,
                None => !self@.contains_key(key@),
            },
    {
        match self.get(key) {
            Some(player) => Some(player.credits),
            None => None,
        }
    }

    /// The keys of all records, each once.
    pub fn keys(&self) -> (keys: Vec<String>)
        ensures
            forall|i: int| 0 <= i < keys.len() ==> self@.contains_key(#[trigger] keys[i]@),
            forall|key: Seq<char>| #[trigger]
                self@.contains_key(key) ==> exists|i: int|
                    0 <= i < keys.len() && #[trigger] keys[i]@ == key,
            forall|i: int, j: int|
                0 <= i < j < keys.len() ==> #[trigger] keys[i]@ != #[trigger] keys[j]@,
    {
        proof {
            use_type_invariant(self);
        }
        let mut keys: Vec<String> = Vec::new();
        let mut i: usize = 0;
        while i < self.entries.len()
            invariant
                i <= self.entries.len(),
                keys.len() == i,
                forall|k: int| 0 <= k < i ==> #[trigger] keys[k]@ == self.entries[k].key@,
            decreases self.entries.len() - i,
        {
            keys.push(self.entries[i].key.clone());
            i += 1;
        }
        proof {
            assert forall|k: int| 0 <= k < keys.len() implies self@.contains_key(
                #[trigger] keys[k]@,
            ) by {
                lemma_lookup(self.entries@, k);
            }
            assert forall|key: Seq<char>| #[trigger] self@.contains_key(key) implies exists|i: int|
                0 <= i < keys.len() && #[trigger] keys[i]@ == key by {
                let j = choose|j: int| key_at(self.entries@, key, j);
                assert(keys[j]@ == key);
            }
        }
        keys
    }

    /// Puts `player` under `key`, in place of the record that stood there, if
    /// one did, and returns that record.
    pub fn insert(&mut self, key: String, player: Player) -> (previous: Option<Player>)
        ensures
            final(self)@ == old(self)@.insert(key@, player@),
            match previous {
                Some(p) => old(self)@.contains_key(key@) && p@ == old(self)@[key@],
                None => !old(self)@.contains_key(key@),
            },
    {
        proof {
            use_type_invariant(&*self);
        }
        let found = self.position(key.as_str());
        let mut entries: Vec<Entry> = Vec::new();
        core::mem::swap(&mut self.entries, &mut entries);
        let ghost before = entries@;
        let mut entry = Entry { key, player };
        let previous = match found {
            Some(i) => {
                proof {
                    lemma_lookup(before, i as int);
                    lemma_replace(before, i as int, entry);
                }
                core::mem::swap(&mut entries[i], &mut entry);
                Some(entry.player)
            },
            None => {
                proof {
                    lemma_missing(before, entry.key@);
                    lemma_append(before, entry);
                }
                entries.push(entry);
                None
            },
        };
        core::mem::swap(&mut self.entries, &mut entries);
        previous
    }

    /// One unit of work: the player that `key` stands for earns one credit.
    /// A key that stands for no player earns nothing.
    pub fn tick(&mut self, key: &str)
        requires
            old(self)@.contains_key(key@) ==> old(self)@[key@].credits < usize::MAX,
        ensures
            final(self)@ == credited(old(self)@, key@, 1),
    {
        proof {
            use_type_invariant(&*self);
        }
        match self.position(key) {
            Some(i) => {
                let mut entries: Vec<Entry> = Vec::new();
                core::mem::swap(&mut self.entries, &mut entries);
                let ghost before = entries@;
                proof {
                    lemma_lookup(before, i as int);
                }
                entries[i].player.credits += 1;
                proof {
                    assert(entries@ =~= before.update(i as int, entries@[i as int]));
                    lemma_replace(before, i as int, entries@[i as int]);
                    assert(entries@[i as int].player@ == with_more_credits(
                        before[i as int].player@,
                        1,
                    ));
                }
                core::mem::swap(&mut self.entries, &mut entries);
            },
            None => {
                proof {
                    lemma_missing(self.entries@, key@);
                }
            },
        }
    }
}

} // verus!
