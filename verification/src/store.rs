//! The store: the one text that holds the ledger between calls. It is read
//! whole and written whole; registration alone appends to it.

use vstd::prelude::*;
use vstd::string::*;

use crate::codec::{read_ledger, written_ledger};
use crate::failure::Failure;
use crate::ledger::{credited, Ledger, Player, PlayerView};
use crate::production::{effective_units, plan_work, production_report, report_text};
use crate::text::{
    contains, is_substring, lowercase_of, occurs_at, to_lowercase, to_uppercase, trim, trimmed,
    uppercase_of,
};

verus! {

/// The question for the name of a new player.
pub const REGISTRATION_PROMPT: &'static str = "Enter new user: ";

// ---------------------------------------------------------------------------
// What the store holds after each operation
// ---------------------------------------------------------------------------

/// The store's text after the ledger `l` was saved over `contents`: the text
/// written for `l`, whatever stood there. Where there is no such text, the
/// store is left as it was.
pub open spec fn saved(contents: Seq<char>, l: Map<Seq<char>, PlayerView>) -> Seq<char> {
    match written_ledger(l) {
        Some(text) => text,
        None => contents,
    }
}

/// The key under which the answer to the question for a name is registered:
/// the answer trimmed, in lower case.
pub open spec fn registration_key(answer: Seq<char>) -> Seq<char> {
    lowercase_of(trimmed(answer))
}

/// The record that a new player starts with: the key in upper case as the
/// name, and nothing earned.
pub open spec fn new_player(key: Seq<char>) -> PlayerView {
    PlayerView { username: uppercase_of(key), credits: 0, cuties: 0 }
}

/// The ledger that holds the new player under `key` and nobody else.
pub open spec fn new_entry(key: Seq<char>) -> Map<Seq<char>, PlayerView> {
    Map::<Seq<char>, PlayerView>::empty().insert(key, new_player(key))
}

/// The text that registration appends for `key`: the one written for the
/// ledger of the new player alone.
pub open spec fn registration_fragment(key: Seq<char>) -> Option<Seq<char>> {
    written_ledger(new_entry(key))
}

/// The store's text after the answer `answer` was registered: as it was
/// where the key already stands somewhere in it (or where there is nothing
/// to append), else with the fragment for the key behind it.
pub open spec fn registered(contents: Seq<char>, answer: Seq<char>) -> Seq<char> {
    let key = registration_key(answer);
    match registration_fragment(key) {
        Some(fragment) => if is_substring(key, contents) {
            contents
        } else {
            contents + fragment
        },
        None => contents,
    }
}

/// How a registration ended.
#[derive(Debug, PartialEq, Eq)]
pub enum Registration {
    /// The key already stands somewhere in the store's text. Nothing was
    /// appended.
    Conflict { key: String },
    /// The fragment was appended to the store's text.
    Appended { key: String, fragment: String },
}

/// How a production ended.
#[derive(Debug, PartialEq, Eq)]
pub enum Production {
    /// The work was done and saved: the player's new total and its report.
    Done { total: usize, report: String },
    /// The store holds no record under the key. Nothing was changed.
    UnknownPlayer,
    /// The player's credits would have left the range of `usize`. Nothing
    /// was changed.
    Overflow,
}

/// The text of the store.
pub struct Store {
    contents: String,
}

impl View for Store {
    type V = Seq<char>;

    closed spec fn view(&self) -> Seq<char> {
        self.contents@
    }
}

impl Store {
    /// The store that holds `contents`.
    pub fn new(contents: String) -> (store: Store)
        ensures
            store@ == contents@,
    {
        Store { contents }
    }

    /// The store's text.
    pub fn contents(&self) -> (text: &str)
        ensures
            text@ == self@,
    {
        self.contents.as_str()
    }

    /// Reads the ledger that the store holds.
    pub fn load(&self) -> (outcome: Result<Ledger, Failure>)
        ensures
            match outcome {
                Ok(ledger) => read_ledger(self@) == Some(ledger@),
                Err(failure) => failure == Failure::StoreCorrupt && read_ledger(self@) is None,
            },
    {
        Ledger::from_toml(self.contents.as_str())
    }

    /// Writes the ledger over whatever the store holds. Nothing of the old
    /// text is kept or merged.
    pub fn save(&mut self, ledger: &Ledger) -> (outcome: Result<(), Failure>)
        ensures
            final(self)@ == saved(old(self)@, ledger@),
            match outcome {
                Ok(_) => written_ledger(ledger@) == Some(final(self)@),
                Err(failure) => failure == Failure::StoreUnwritable && written_ledger(ledger@)
                    is None,
            },
    {
        match ledger.to_toml() {
            Some(text) => {
                self.contents = text;
                Ok(())
            },
            None => Err(Failure::StoreUnwritable),
        }
    }

    /// Appends `fragment` behind what the store holds, as it is.
    pub fn append_raw(&mut self, fragment: &str)
        ensures
            final(self)@ == old(self)@ + fragment@,
    {
        self.contents.append(fragment);
    }

    /// Whether `name` stands somewhere in the store's text. This looks at
    /// the text as it is, not at the ledger in it.
    pub fn mentions(&self, name: &str) -> (found: bool)
        ensures
            found == is_substring(name@, self@),
    {
        contains(self.contents.as_str(), name)
    }

    /// Registers the player named in `answer`, the answer to the question
    /// for a name. Returns nothing where there is no text to append.
    pub fn register(&mut self, answer: &str) -> (outcome: Option<Registration>)
        ensures
            final(self)@ == registered(old(self)@, answer@),
            match registration_fragment(registration_key(answer@)) {
                Some(fragment) => if is_substring(registration_key(answer@), old(self)@) {
                    outcome matches Some(Registration::Conflict { key }) && key@
                        == registration_key(answer@)
                } else {
                    outcome matches Some(Registration::Appended { key, fragment: appended })
                        && key@ == registration_key(answer@) && appended@ == fragment
                },
                None => outcome is None,
            },
    {
        let key = to_lowercase(trim(answer));
        let mut ledger = Ledger::new();
        let player = Player { username: to_uppercase(key.as_str()), credits: 0, cuties: 0 };
        ledger.insert(key.clone(), player);
        let fragment = match ledger.to_toml() {
            Some(fragment) => fragment,
            None => {
                return None;
            },
        };
        if self.mentions(key.as_str()) {
            Some(Registration::Conflict { key })
        } else {
            self.append_raw(fragment.as_str());
            Some(Registration::Appended { key, fragment })
        }
    }

    /// One whole production: reads the ledger, works off a request of
    /// `amount` units for the player under `user`, and writes the ledger
    /// back.
    pub fn produce(&mut self, user: &str, amount: usize) -> (outcome: Result<Production, Failure>)
        ensures
            match read_ledger(old(self)@) {
                None => outcome matches Err(failure) && failure == Failure::StoreCorrupt
                    && final(self)@ == old(self)@,
                Some(before) => if !before.contains_key(user@) {
                    outcome matches Ok(Production::UnknownPlayer) && final(self)@ == old(self)@
                } else if before[user@].credits + effective_units(amount as nat) > usize::MAX {
                    outcome matches Ok(Production::Overflow) && final(self)@ == old(self)@
                } else {
                    let after = credited(before, user@, effective_units(amount as nat));
                    match written_ledger(after) {
                        None => outcome matches Err(failure) && failure
                            == Failure::StoreUnwritable && final(self)@ == old(self)@,
                        Some(text) => outcome matches Ok(Production::Done { total, report })
                            && total == after[user@].credits && report@ == report_text(
                            total as nat,
                        ) && final(self)@ == text,
                    }
                },
            },
    {
        let mut ledger = match self.load() {
            Ok(ledger) => ledger,
            Err(failure) => {
                return Err(failure);
            },
        };
        let credits = match ledger.credits_of(user) {
            Some(credits) => credits,
            None => {
                return Ok(Production::UnknownPlayer);
            },
        };
        let plan = plan_work(amount);
        if credits > usize::MAX - plan.units {
            return Ok(Production::Overflow);
        }
        ledger.accrue(user, amount);
        let total = match ledger.credits_of(user) {
            Some(total) => total,
            None => {
                return Ok(Production::UnknownPlayer);
            },
        };
        let report = production_report(total);
        match self.save(&ledger) {
            Ok(_) => Ok(Production::Done { total, report }),
            Err(failure) => Err(failure),
        }
    }
}

// ---------------------------------------------------------------------------
// Laws
// ---------------------------------------------------------------------------

/// What stands in a text stands in every text that ends with it.
pub proof fn lemma_substring_of_tail(needle: Seq<char>, head: Seq<char>, tail: Seq<char>)
    requires
        is_substring(needle, tail),
    ensures
        is_substring(needle, head + tail),
{
    let at = choose|at: int| occurs_at(needle, tail, at);
    let whole = head + tail;
    assert(whole.subrange(head.len() + at, head.len() + at + needle.len()) =~= tail.subrange(
        at,
        at + needle.len(),
    ));
    assert(occurs_at(needle, whole, head.len() + at));
}

/// What stands in a text stands in every text that starts with it.
pub proof fn lemma_substring_of_head(needle: Seq<char>, head: Seq<char>, tail: Seq<char>)
    requires
        is_substring(needle, head),
    ensures
        is_substring(needle, head + tail),
{
    let at = choose|at: int| occurs_at(needle, head, at);
    let whole = head + tail;
    assert(whole.subrange(at, at + needle.len()) =~= head.subrange(at, at + needle.len()));
    assert(occurs_at(needle, whole, at));
}

/// Registering a name that already stands in the store's text appends
/// nothing: the store stays as it was.
pub proof fn lemma_duplicate_registration(contents: Seq<char>, answer: Seq<char>)
    requires
        is_substring(registration_key(answer), contents),
    ensures
        registered(contents, answer) == contents,
{
}

/// A name that was found once is found ever after: registrations only
/// append, so whatever is registered later, the name still stands in the
/// text and is not appended a second time.
pub proof fn lemma_registration_keeps_names(
    contents: Seq<char>,
    answer: Seq<char>,
    later: Seq<char>,
)
    requires
        is_substring(registration_key(answer), contents),
    ensures
        is_substring(registration_key(answer), registered(contents, later)),
        registered(registered(contents, later), answer) == registered(contents, later),
{
    let key = registration_key(later);
    match registration_fragment(key) {
        Some(fragment) => {
            if !is_substring(key, contents) {
                lemma_substring_of_head(registration_key(answer), contents, fragment);
            }
        },
        None => {},
    }
}

/// Where the appended fragment shows the key, registering the same answer a
/// second time appends nothing.
pub proof fn lemma_registration_twice(contents: Seq<char>, answer: Seq<char>)
    ensures
        (registration_fragment(registration_key(answer)) matches Some(fragment) ==> is_substring(
            registration_key(answer),
            fragment,
        )) ==> registered(registered(contents, answer), answer) == registered(contents, answer),
{
    let key = registration_key(answer);
    match registration_fragment(key) {
        Some(fragment) => {
            if is_substring(key, fragment) && !is_substring(key, contents) {
                lemma_substring_of_tail(key, contents, fragment);
            }
        },
        None => {},
    }
}

/// The later save wins: after two saves the store holds the text of the
/// second ledger, whatever the first save wrote.
pub proof fn lemma_later_save_wins(contents: Seq<char>, first: Ledger, second: Ledger)
    ensures
        written_ledger(second@) is Some ==> saved(saved(contents, first@), second@) == saved(
            contents,
            second@,
        ),
        written_ledger(second@) is Some ==> written_ledger(second@) == Some(
            saved(saved(contents, first@), second@),
        ),
{
}

/// Lost update: two cycles read the same ledger `base`, each credits its
/// own player and saves. The store then holds the second cycle's ledger,
/// and in that ledger the first cycle's player has what `base` gave: the
/// first cycle's gain is gone.
pub proof fn lemma_lost_update(
    contents: Seq<char>,
    base: Map<Seq<char>, PlayerView>,
    first_key: Seq<char>,
    first_units: nat,
    second_key: Seq<char>,
    second_units: nat,
)
    requires
        first_key != second_key,
        base.contains_key(first_key),
    ensures
        ({
            let first = credited(base, first_key, first_units);
            let second = credited(base, second_key, second_units);
            &&& written_ledger(second) is Some ==> written_ledger(second) == Some(
                saved(saved(contents, first), second),
            )
            &&& second.contains_key(first_key)
            &&& second[first_key] == base[first_key]
        }),
{
}

} // verus!
