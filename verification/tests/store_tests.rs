use tycoon::failure::Failure;
use tycoon::ledger::{Ledger, Player};
use tycoon::session::{Action, Announcement, Session};
use tycoon::store::{Production, Registration, Store, REGISTRATION_PROMPT};
use tycoon::intake::intake;

const ALICE_AT_ZERO: &str = "[players.alice]\ncredits = 0\ncuties = 0\nusername = \"ALICE\"\n";

fn store_of(text: &str) -> Store {
    Store::new(String::from(text))
}

fn alice_and_bob(alice: usize, bob: usize) -> Store {
    store_of(&format!(
        "[players.alice]\nusername = \"ALICE\"\ncredits = {}\ncuties = 0\n\n[players.bob]\nusername = \"BOB\"\ncredits = {}\ncuties = 3\n",
        alice, bob
    ))
}

fn loaded(store: &Store) -> Ledger {
    match store.load() {
        Ok(ledger) => ledger,
        Err(failure) => panic!("not loaded: {:?}", failure),
    }
}

#[test]
fn registering_alice_in_an_empty_store_leaves_one_entry_with_no_credits() {
    let mut store = store_of("");
    let outcome = store.register("alice");
    assert_eq!(
        outcome,
        Some(Registration::Appended {
            key: String::from("alice"),
            fragment: String::from(ALICE_AT_ZERO),
        })
    );
    assert_eq!(store.contents(), ALICE_AT_ZERO);
    let ledger = loaded(&store);
    assert_eq!(ledger.len(), 1);
    assert_eq!(ledger.credits_of("alice"), Some(0));
    assert_eq!(
        ledger.get("alice"),
        Some(&Player { username: String::from("ALICE"), credits: 0, cuties: 0 })
    );
}

#[test]
fn the_name_is_trimmed_and_lowered_for_the_key_and_raised_for_the_record() {
    let mut store = store_of("");
    let outcome = store.register("  Alice \n");
    assert_eq!(
        outcome,
        Some(Registration::Appended {
            key: String::from("alice"),
            fragment: String::from(ALICE_AT_ZERO),
        })
    );
}

#[test]
fn registering_a_name_twice_appends_once() {
    let mut store = store_of("");
    store.register("alice");
    let after_first = String::from(store.contents());
    let outcome = store.register("alice");
    assert_eq!(outcome, Some(Registration::Conflict { key: String::from("alice") }));
    assert_eq!(store.contents(), after_first);
    let outcome = store.register(" ALICE ");
    assert_eq!(outcome, Some(Registration::Conflict { key: String::from("alice") }));
    assert_eq!(store.contents(), after_first);
}

#[test]
fn a_name_that_stands_anywhere_in_the_text_is_a_conflict() {
    let mut store = alice_and_bob(1, 2);
    let before = String::from(store.contents());
    for name in ["ali", "players", "username", "credits", "cuties", "bob", "= 1", ""] {
        let outcome = store.register(name);
        assert_eq!(outcome, Some(Registration::Conflict { key: String::from(name) }));
        assert_eq!(store.contents(), before);
    }
}

#[test]
fn a_name_that_differs_only_in_case_from_a_shown_name_is_no_conflict() {
    let mut store = store_of("# ALICE was here\n");
    let outcome = store.register("Alice");
    assert!(matches!(outcome, Some(Registration::Appended { .. })));
}

#[test]
fn a_second_player_is_appended_behind_the_first() {
    let mut store = store_of("");
    store.register("alice");
    let outcome = store.register("bob");
    let fragment = "[players.bob]\ncredits = 0\ncuties = 0\nusername = \"BOB\"\n";
    assert_eq!(
        outcome,
        Some(Registration::Appended { key: String::from("bob"), fragment: String::from(fragment) })
    );
    assert_eq!(store.contents(), format!("{}{}", ALICE_AT_ZERO, fragment));
    let ledger = loaded(&store);
    assert_eq!(ledger.len(), 2);
    assert_eq!(ledger.credits_of("bob"), Some(0));
}

#[test]
fn no_answer_to_the_question_for_a_name_registers_the_sentinel() {
    let mut store = store_of("");
    let answer = intake(None);
    let outcome = store.register(answer.as_str());
    assert!(matches!(outcome, Some(Registration::Appended { ref key, .. }) if key == "noop"));
    assert_eq!(loaded(&store).get("noop").map(|p| p.username.clone()), Some(String::from("NOOP")));
    assert_eq!(REGISTRATION_PROMPT, "Enter new user: ");
}

#[test]
fn append_raw_and_mentions_work_on_the_text_as_it_is() {
    let mut store = store_of("abc");
    assert!(store.mentions("bc"));
    assert!(!store.mentions("cd"));
    store.append_raw("def");
    assert_eq!(store.contents(), "abcdef");
    assert!(store.mentions("cd"));
    store.append_raw("");
    assert_eq!(store.contents(), "abcdef");
}

#[test]
fn save_overwrites_whatever_the_store_holds() {
    let mut store = store_of("this is no ledger at all");
    let mut ledger = Ledger::new();
    ledger.insert(
        String::from("alice"),
        Player { username: String::from("ALICE"), credits: 0, cuties: 0 },
    );
    assert_eq!(store.save(&ledger), Ok(()));
    assert_eq!(store.contents(), ALICE_AT_ZERO);
}

#[test]
fn save_leaves_the_store_alone_where_the_ledger_has_no_text() {
    let mut store = store_of("kept");
    let mut ledger = Ledger::new();
    ledger.insert(
        String::from("alice"),
        Player { username: String::from("ALICE"), credits: usize::MAX, cuties: 0 },
    );
    assert_eq!(store.save(&ledger), Err(Failure::StoreUnwritable));
    assert_eq!(store.contents(), "kept");
}

#[test]
fn load_refuses_a_text_that_is_no_ledger() {
    assert!(matches!(store_of("").load(), Err(Failure::StoreCorrupt)));
    assert!(matches!(store_of("players = 1").load(), Err(Failure::StoreCorrupt)));
    assert!(matches!(store_of("[players").load(), Err(Failure::StoreCorrupt)));
}

#[test]
fn producing_three_from_nothing_gives_three() {
    let mut store = store_of(ALICE_AT_ZERO);
    let outcome = store.produce("alice", 3);
    assert_eq!(
        outcome,
        Ok(Production::Done {
            total: 3,
            report: String::from("Produced credit! New count: **3**"),
        })
    );
    assert_eq!(loaded(&store).credits_of("alice"), Some(3));
    assert_eq!(
        store.contents(),
        "[players.alice]\ncredits = 3\ncuties = 0\nusername = \"ALICE\"\n"
    );
}

#[test]
fn producing_sixty_at_ten_stays_at_ten() {
    let mut store = alice_and_bob(10, 0);
    let outcome = store.produce("alice", 60);
    assert_eq!(
        outcome,
        Ok(Production::Done {
            total: 10,
            report: String::from("Produced credit! New count: **10**"),
        })
    );
    assert_eq!(loaded(&store).credits_of("alice"), Some(10));
}

#[test]
fn producing_at_the_limit_and_just_above_it() {
    let mut store = alice_and_bob(10, 0);
    assert!(matches!(store.produce("alice", 50), Ok(Production::Done { total: 60, .. })));
    assert!(matches!(store.produce("alice", 51), Ok(Production::Done { total: 60, .. })));
    assert!(matches!(store.produce("alice", 1), Ok(Production::Done { total: 61, .. })));
    assert_eq!(loaded(&store).credits_of("bob"), Some(0));
}

#[test]
fn producing_for_an_unknown_player_changes_nothing() {
    let mut store = alice_and_bob(10, 0);
    let before = String::from(store.contents());
    assert_eq!(store.produce("carol", 3), Ok(Production::UnknownPlayer));
    assert_eq!(store.contents(), before);
}

#[test]
fn producing_on_a_corrupt_store_fails_and_changes_nothing() {
    let mut store = store_of("[players.alice]\nusername = \"ALICE\"\n");
    let before = String::from(store.contents());
    assert_eq!(store.produce("alice", 3), Err(Failure::StoreCorrupt));
    assert_eq!(store.contents(), before);
    let mut empty = store_of("");
    assert_eq!(empty.produce("alice", 3), Err(Failure::StoreCorrupt));
    assert_eq!(empty.contents(), "");
}

#[test]
fn producing_past_what_the_store_can_hold_fails_and_changes_nothing() {
    let mut store = alice_and_bob(9_223_372_036_854_775_800, 0);
    let before = String::from(store.contents());
    assert_eq!(store.produce("alice", 8), Err(Failure::StoreUnwritable));
    assert_eq!(store.contents(), before);
    assert!(matches!(
        store.produce("alice", 7),
        Ok(Production::Done { total: 9_223_372_036_854_775_807, .. })
    ));
}

#[test]
fn of_two_interleaved_cycles_the_later_save_wins() {
    let mut store = alice_and_bob(10, 20);
    let mut first = loaded(&store);
    let mut second = loaded(&store);
    first.accrue("alice", 5);
    assert_eq!(store.save(&first), Ok(()));
    assert_eq!(loaded(&store).credits_of("alice"), Some(15));
    second.accrue("bob", 7);
    assert_eq!(store.save(&second), Ok(()));
    let end = loaded(&store);
    assert_eq!(end.credits_of("bob"), Some(27));
    assert_eq!(end.credits_of("alice"), Some(10));
    assert_eq!(Some(String::from(store.contents())), second.to_toml());
}

#[test]
fn a_registration_between_load_and_save_is_lost_too() {
    let mut store = alice_and_bob(10, 20);
    let mut cycle = loaded(&store);
    assert!(matches!(store.register("carol"), Some(Registration::Appended { .. })));
    assert!(loaded(&store).contains("carol"));
    cycle.accrue("alice", 1);
    assert_eq!(store.save(&cycle), Ok(()));
    let end = loaded(&store);
    assert!(!end.contains("carol"));
    assert_eq!(end.credits_of("alice"), Some(11));
}

#[test]
fn a_timeout_or_an_exit_leaves_the_store_alone() {
    let store = alice_and_bob(10, 20);
    let before = String::from(store.contents());
    let mut session = Session::start("Alice", Some(String::from("db.toml"))).ok().unwrap();
    assert_eq!(session.on_reply(None), Some(Action::Announce(Announcement::TimedOut)));
    let mut other = Session::start("Alice", Some(String::from("db.toml"))).ok().unwrap();
    assert_eq!(other.on_reply(Some("quit")), Some(Action::Announce(Announcement::Exited)));
    assert_eq!(store.contents(), before);
}
