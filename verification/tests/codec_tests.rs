use tycoon::failure::Failure;
use tycoon::ledger::{Ledger, Player};

fn player(name: &str, credits: usize, cuties: usize) -> Player {
    Player { username: String::from(name), credits, cuties }
}

fn ledger_of(records: &[(&str, Player)]) -> Ledger {
    let mut ledger = Ledger::new();
    for (key, record) in records {
        ledger.insert(String::from(*key), record.clone());
    }
    ledger
}

fn same_records(left: &Ledger, right: &Ledger) -> bool {
    left.len() == right.len() && left.keys().iter().all(|key| left.get(key) == right.get(key))
}

fn read(text: &str) -> Ledger {
    match Ledger::from_toml(text) {
        Ok(ledger) => ledger,
        Err(failure) => panic!("not read: {:?}", failure),
    }
}

fn refused(text: &str) -> bool {
    matches!(Ledger::from_toml(text), Err(Failure::StoreCorrupt))
}

#[test]
fn one_player_is_written_as_one_table() {
    let ledger = ledger_of(&[("alice", player("ALICE", 0, 0))]);
    assert_eq!(
        ledger.to_toml(),
        Some(String::from("[players.alice]\ncredits = 0\ncuties = 0\nusername = \"ALICE\"\n"))
    );
}

#[test]
fn players_are_written_in_the_order_of_their_keys() {
    let ledger = ledger_of(&[("bob", player("BOB", 7, 1)), ("alice", player("ALICE", 3, 0))]);
    assert_eq!(
        ledger.to_toml(),
        Some(String::from(
            "[players.alice]\ncredits = 3\ncuties = 0\nusername = \"ALICE\"\n\n[players.bob]\ncredits = 7\ncuties = 1\nusername = \"BOB\"\n"
        ))
    );
}

#[test]
fn what_is_written_is_read_back_as_it_was() {
    let ledgers = [
        ledger_of(&[]),
        ledger_of(&[("alice", player("ALICE", 0, 0))]),
        ledger_of(&[("bob", player("BOB", 7, 1)), ("alice", player("ALICE", 3, 0))]),
        ledger_of(&[
            ("a b", player("A \"quoted\" name\n", 1, 2)),
            ("", player("", 0, 0)),
            ("\u{e9}t\u{e9}", player("\u{c9}T\u{c9}", 9_223_372_036_854_775_807, 5)),
            ("players", player("username", 50, 51)),
        ]),
    ];
    for ledger in ledgers.iter() {
        let text = ledger.to_toml().unwrap();
        let back = read(&text);
        assert!(same_records(ledger, &back));
        assert_eq!(back.to_toml(), Some(text));
    }
}

#[test]
fn a_document_is_read_back_as_it_was() {
    let ledger = ledger_of(&[("bob", player("BOB", 7, 1)), ("alice", player("ALICE", 3, 0))]);
    let document = ledger.to_document().unwrap();
    let back = Ledger::from_document(&document).unwrap_or_else(|_| Ledger::new());
    assert!(same_records(&ledger, &back));
}

#[test]
fn the_document_has_the_players_table() {
    let ledger = ledger_of(&[("alice", player("ALICE", 3, 4))]);
    let document = ledger.to_document().unwrap();
    assert_eq!(document.len(), 1);
    let entry = document["players"]["alice"].as_table().unwrap();
    assert_eq!(entry.len(), 3);
    assert_eq!(entry["username"].as_str(), Some("ALICE"));
    assert_eq!(entry["credits"].as_integer(), Some(3));
    assert_eq!(entry["cuties"].as_integer(), Some(4));
}

#[test]
fn a_document_built_by_hand_is_read() {
    let mut alice = toml::Table::new();
    alice.insert(String::from("username"), toml::Value::String(String::from("ALICE")));
    alice.insert(String::from("credits"), toml::Value::Integer(12));
    alice.insert(String::from("cuties"), toml::Value::Integer(1));
    alice.insert(String::from("mood"), toml::Value::Boolean(true));
    let mut players = toml::Table::new();
    players.insert(String::from("alice"), toml::Value::Table(alice));
    let mut document = toml::Table::new();
    document.insert(String::from("players"), toml::Value::Table(players));
    document.insert(String::from("version"), toml::Value::Integer(3));
    let ledger = Ledger::from_document(&document).unwrap_or_else(|_| Ledger::new());
    assert_eq!(ledger.len(), 1);
    assert_eq!(ledger.get("alice"), Some(&player("ALICE", 12, 1)));
}

#[test]
fn a_document_without_players_is_refused() {
    let mut document = toml::Table::new();
    assert!(matches!(Ledger::from_document(&document), Err(Failure::StoreCorrupt)));
    document.insert(String::from("players"), toml::Value::Integer(3));
    assert!(matches!(Ledger::from_document(&document), Err(Failure::StoreCorrupt)));
}

#[test]
fn the_store_format_is_read() {
    let ledger = read(
        "[players.alice]\nusername = \"ALICE\"\ncredits = 10\ncuties = 2\n\n[players.bob]\nusername = \"BOB\"\ncredits = 0\ncuties = 0\n",
    );
    assert_eq!(ledger.len(), 2);
    assert_eq!(ledger.get("alice"), Some(&player("ALICE", 10, 2)));
    assert_eq!(ledger.get("bob"), Some(&player("BOB", 0, 0)));
}

#[test]
fn other_ways_of_writing_the_same_tables_are_read() {
    let ledger = read("players = { alice = { username = 'ALICE', credits = 1, cuties = 2 } }\n");
    assert_eq!(ledger.get("alice"), Some(&player("ALICE", 1, 2)));
    let ledger = read("players.alice.username = \"A\"\nplayers.alice.credits = 0x10\nplayers.alice.cuties = 1_000\n");
    assert_eq!(ledger.get("alice"), Some(&player("A", 16, 1000)));
}

#[test]
fn what_else_the_text_holds_is_passed_over() {
    let ledger = read(
        "title = \"game\"\n\n[players.alice]\nusername = \"ALICE\"\ncredits = 10\ncuties = 2\nlevel = 3.5\n\n[other]\nx = 1\n",
    );
    assert_eq!(ledger.len(), 1);
    assert_eq!(ledger.get("alice"), Some(&player("ALICE", 10, 2)));
}

#[test]
fn an_empty_players_table_is_an_empty_ledger() {
    assert_eq!(read("[players]\n").len(), 0);
    assert_eq!(read("players = {}\n").len(), 0);
    assert_eq!(Ledger::new().to_toml(), Some(String::from("[players]\n")));
}

#[test]
fn a_text_that_is_no_document_is_refused() {
    assert!(refused("[players.alice\n"));
    assert!(refused("players = \n"));
    assert!(refused("[players.alice]\nusername = \"A\"\ncredits = 1\ncuties = 2\n[players.alice]\nusername = \"A\"\ncredits = 1\ncuties = 2\n"));
}

#[test]
fn a_text_without_the_players_table_is_refused() {
    assert!(refused(""));
    assert!(refused("title = \"game\"\n"));
    assert!(refused("players = 3\n"));
    assert!(refused("players = \"alice\"\n"));
    assert!(refused("[[players]]\nusername = \"A\"\ncredits = 1\ncuties = 2\n"));
}

#[test]
fn a_player_that_lacks_a_field_is_refused() {
    assert!(refused("[players.alice]\ncredits = 1\ncuties = 2\n"));
    assert!(refused("[players.alice]\nusername = \"A\"\ncuties = 2\n"));
    assert!(refused("[players.alice]\nusername = \"A\"\ncredits = 1\n"));
    assert!(refused("[players]\nalice = 3\n"));
    assert!(refused("[players.alice]\nusername = \"A\"\ncredits = 1\ncuties = 2\n\n[players.bob]\nusername = \"B\"\n"));
}

#[test]
fn a_field_of_the_wrong_kind_is_refused() {
    assert!(refused("[players.alice]\nusername = 3\ncredits = 1\ncuties = 2\n"));
    assert!(refused("[players.alice]\nusername = \"A\"\ncredits = \"1\"\ncuties = 2\n"));
    assert!(refused("[players.alice]\nusername = \"A\"\ncredits = 1.0\ncuties = 2\n"));
    assert!(refused("[players.alice]\nusername = \"A\"\ncredits = 1\ncuties = true\n"));
}

#[test]
fn a_negative_amount_is_refused() {
    assert!(refused("[players.alice]\nusername = \"A\"\ncredits = -1\ncuties = 2\n"));
    assert!(refused("[players.alice]\nusername = \"A\"\ncredits = 1\ncuties = -2\n"));
}

#[test]
fn an_amount_above_what_a_document_holds_has_no_text() {
    let ledger = ledger_of(&[("alice", player("ALICE", 9_223_372_036_854_775_808, 0))]);
    assert_eq!(ledger.to_toml(), None);
    assert!(ledger.to_document().is_none());
    let ledger = ledger_of(&[("alice", player("ALICE", 0, usize::MAX))]);
    assert_eq!(ledger.to_toml(), None);
    let ledger = ledger_of(&[("alice", player("ALICE", 9_223_372_036_854_775_807, 9_223_372_036_854_775_807))]);
    assert!(ledger.to_toml().is_some());
}
