use cluedo::cards::{Card, Room, Suggestion, Suspect, Weapon};
use cluedo::cards::{all_rooms, all_suspects, all_weapons, card_catalog};
use cluedo::game::{GameError, GameState, Player};
use cluedo::resolve::Refutation;

fn catalog_len() -> usize {
    card_catalog().len()
}

fn solution_vector(s: &Suggestion) -> Vec<Card> {
    vec![Card::Suspect(s.suspect), Card::Weapon(s.weapon), Card::Room(s.room)]
}

fn state_with_players(names: &[&str]) -> GameState {
    let mut state = GameState::new();
    for name in names {
        assert!(state.create_player(name).is_ok());
    }
    state
}

#[test]
fn catalog_has_21_distinct_cards() {
    let cards = card_catalog();
    assert_eq!(cards.len(), 21);
    assert_eq!(all_suspects().len(), 6);
    assert_eq!(all_weapons().len(), 6);
    assert_eq!(all_rooms().len(), 9);
    for i in 0..cards.len() {
        for j in 0..cards.len() {
            if i != j {
                assert_ne!(cards[i], cards[j]);
            }
        }
    }
}

#[test]
fn create_player_registers_and_rejects_duplicates() {
    let mut state = GameState::new();
    assert!(state.create_player("Alice").is_ok());
    assert_eq!(state.create_player("Alice"), Err(GameError::DuplicatePlayer));
    assert_eq!(state.get_players().len(), 1);
    assert_eq!(state.get_players()[0].name, "Alice");
}

#[test]
fn player_names_are_case_sensitive() {
    let mut state = GameState::new();
    assert!(state.create_player("alice").is_ok());
    assert!(state.create_player("Alice").is_ok());
    assert_eq!(state.get_players().len(), 2);
}

#[test]
fn delete_player_removes_and_reports_unknown() {
    let mut state = state_with_players(&["Alice", "Bob"]);
    assert_eq!(state.delete_player("Carol"), Err(GameError::UnknownPlayer));
    assert!(state.delete_player("Alice").is_ok());
    assert_eq!(state.get_players().len(), 1);
    assert_eq!(state.get_players()[0].name, "Bob");
    assert_eq!(state.delete_player("Alice"), Err(GameError::UnknownPlayer));
}

#[test]
fn get_players_keeps_insertion_order() {
    let state = state_with_players(&["Carol", "Alice", "Bob"]);
    let names: Vec<&str> = state.get_players().iter().map(|p| p.name.as_str()).collect();
    assert_eq!(names, vec!["Carol", "Alice", "Bob"]);
}

#[test]
fn get_player_finds_by_name() {
    let mut state = state_with_players(&["Alice", "Bob"]);
    assert!(state.create_game().is_ok());
    let p = state.get_player("Bob").expect("Bob is registered");
    assert_eq!(p.name, "Bob");
    assert_eq!(p.cards.len(), 9);
    assert!(matches!(state.get_player("Carol"), Err(GameError::UnknownPlayer)));
}

#[test]
fn create_game_needs_two_players() {
    let mut state = GameState::new();
    assert_eq!(state.create_game(), Err(GameError::InsufficientPlayers));
    assert!(state.create_player("Alice").is_ok());
    assert_eq!(state.create_game(), Err(GameError::InsufficientPlayers));
    assert!(state.solution.is_none());
}

#[test]
fn create_game_rejects_second_start() {
    let mut state = state_with_players(&["Alice", "Bob"]);
    assert!(state.create_game().is_ok());
    assert_eq!(state.create_game(), Err(GameError::GameAlreadyActive));
}

#[test]
fn two_players_get_nine_cards_each() {
    let mut state = state_with_players(&["Alice", "Bob"]);
    assert!(state.create_game().is_ok());
    let sizes: Vec<usize> = state.get_players().iter().map(|p| p.cards.len()).collect();
    assert_eq!(sizes, vec![9, 9]);
}

#[test]
fn three_players_get_six_cards_each() {
    let mut state = state_with_players(&["Alice", "Bob", "Carol"]);
    assert!(state.create_game().is_ok());
    let sizes: Vec<usize> = state.get_players().iter().map(|p| p.cards.len()).collect();
    assert_eq!(sizes, vec![6, 6, 6]);
    assert_eq!(sizes.iter().sum::<usize>(), 18);
}

#[test]
fn four_players_get_surplus_in_roster_order() {
    let mut state = state_with_players(&["Alice", "Bob", "Carol", "Dave"]);
    assert!(state.create_game().is_ok());
    let sizes: Vec<usize> = state.get_players().iter().map(|p| p.cards.len()).collect();
    assert_eq!(sizes, vec![5, 5, 4, 4]);
}

#[test]
fn hand_sizes_differ_by_at_most_one() {
    for n in 2..=6usize {
        let names: Vec<String> = (0..n).map(|i| format!("player{}", i)).collect();
        let mut state = GameState::new();
        for name in &names {
            assert!(state.create_player(name).is_ok());
        }
        assert!(state.create_game().is_ok());
        let sizes: Vec<usize> = state.get_players().iter().map(|p| p.cards.len()).collect();
        let lo = *sizes.iter().min().unwrap();
        let hi = *sizes.iter().max().unwrap();
        assert!(hi - lo <= 1);
        assert_eq!(sizes.iter().sum::<usize>(), 18);
    }
}

#[test]
fn deal_partitions_the_catalog() {
    let mut state = state_with_players(&["Alice", "Bob", "Carol"]);
    assert!(state.create_game().is_ok());
    let solution = state.solution.clone().expect("game is active");
    let mut seen: Vec<Card> = Vec::new();
    for p in state.get_players() {
        seen.extend(p.cards.iter().cloned());
    }
    assert_eq!(seen.len(), 18);
    seen.extend(solution_vector(&solution));
    for c in card_catalog() {
        let count = seen.iter().filter(|x| **x == c).count();
        assert_eq!(count, 1);
    }
    assert_eq!(seen.len(), catalog_len());
}

#[test]
fn no_hand_holds_a_solution_card() {
    let mut state = state_with_players(&["Alice", "Bob"]);
    assert!(state.create_game().is_ok());
    let solution = state.solution.clone().expect("game is active");
    for p in state.get_players() {
        for c in &p.cards {
            for s in solution_vector(&solution) {
                assert_ne!(*c, s);
            }
        }
    }
}

#[test]
fn delete_game_resets_and_reports_inactive() {
    let mut state = state_with_players(&["Alice", "Bob"]);
    assert_eq!(state.delete_game(), Err(GameError::GameNotActive));
    assert!(state.create_game().is_ok());
    assert!(state.delete_game().is_ok());
    assert_eq!(state.get_players().len(), 0);
    assert!(state.solution.is_none());
}

#[test]
fn reset_then_same_roster_deals_a_fresh_valid_game() {
    let mut state = state_with_players(&["Alice", "Bob", "Carol"]);
    assert!(state.create_game().is_ok());
    assert!(state.delete_game().is_ok());
    for name in ["Alice", "Bob", "Carol"] {
        assert!(state.create_player(name).is_ok());
    }
    assert!(state.create_game().is_ok());
    let solution = state.solution.clone().expect("game is active");
    let sizes: Vec<usize> = state.get_players().iter().map(|p| p.cards.len()).collect();
    assert_eq!(sizes, vec![6, 6, 6]);
    let mut seen: Vec<Card> = Vec::new();
    for p in state.get_players() {
        seen.extend(p.cards.iter().cloned());
    }
    seen.extend(solution_vector(&solution));
    for c in card_catalog() {
        assert_eq!(seen.iter().filter(|x| **x == c).count(), 1);
    }
}

fn fixed_state() -> GameState {
    // Alice suggests; the turn order after Alice is Bob, then Carol.
    GameState {
        players: vec![
            Player { name: "Alice".to_string(), cards: vec![Card::Suspect(Suspect::Green)] },
            Player { name: "Bob".to_string(), cards: vec![Card::Weapon(Weapon::Rope)] },
            Player {
                name: "Carol".to_string(),
                cards: vec![Card::Suspect(Suspect::Plum), Card::Room(Room::Kitchen)],
            },
        ],
        solution: Some(Suggestion {
            suspect: Suspect::Scarlett,
            weapon: Weapon::Dagger,
            room: Room::Study,
        }),
    }
}

#[test]
fn refute_returns_first_qualifying_player_in_turn_order() {
    let state = fixed_state();
    // Both Bob (Rope) and Carol (Kitchen) could refute; Bob comes first.
    let suggestion =
        Suggestion { suspect: Suspect::Orchid, weapon: Weapon::Rope, room: Room::Kitchen };
    match state.suggest(&suggestion, "Alice") {
        Refutation::Refuted { player, card } => {
            assert_eq!(player, "Bob");
            assert_eq!(card, Card::Weapon(Weapon::Rope));
        },
        Refutation::Unrefuted => panic!("Bob holds the rope"),
    }
}

#[test]
fn refute_wraps_around_the_roster() {
    let state = fixed_state();
    // Carol suggests; order is Alice, then Bob. Only Bob can refute.
    let suggestion =
        Suggestion { suspect: Suspect::Orchid, weapon: Weapon::Rope, room: Room::Lounge };
    match state.suggest(&suggestion, "Carol") {
        Refutation::Refuted { player, card } => {
            assert_eq!(player, "Bob");
            assert_eq!(card, Card::Weapon(Weapon::Rope));
        },
        Refutation::Unrefuted => panic!("Bob holds the rope"),
    }
}

#[test]
fn refute_never_selects_the_suggester() {
    let state = fixed_state();
    // Only Alice's own hand matches her suggestion: unrefuted.
    let suggestion =
        Suggestion { suspect: Suspect::Green, weapon: Weapon::Candlestick, room: Room::Hall };
    assert!(matches!(state.suggest(&suggestion, "Alice"), Refutation::Unrefuted));
    // The same suggestion from Bob is refuted by Alice.
    match state.suggest(&suggestion, "Bob") {
        Refutation::Refuted { player, card } => {
            assert_eq!(player, "Alice");
            assert_eq!(card, Card::Suspect(Suspect::Green));
        },
        Refutation::Unrefuted => panic!("Alice holds Green"),
    }
}

#[test]
fn unrefuted_iff_no_other_hand_intersects() {
    let state = fixed_state();
    // Nobody holds Scarlett, the dagger or the study.
    let suggestion =
        Suggestion { suspect: Suspect::Scarlett, weapon: Weapon::Dagger, room: Room::Study };
    assert!(matches!(state.suggest(&suggestion, "Alice"), Refutation::Unrefuted));
    // Carol holds the kitchen, so the same triple with the kitchen is refuted.
    let suggestion =
        Suggestion { suspect: Suspect::Scarlett, weapon: Weapon::Dagger, room: Room::Kitchen };
    assert!(matches!(state.suggest(&suggestion, "Alice"), Refutation::Refuted { .. }));
}

#[test]
fn suggesting_the_solution_is_unrefuted_after_a_real_deal() {
    let mut state = state_with_players(&["Alice", "Bob", "Carol"]);
    assert!(state.create_game().is_ok());
    let solution = state.solution.clone().expect("game is active");
    assert!(matches!(state.suggest(&solution, "Alice"), Refutation::Unrefuted));
}

#[test]
fn a_dealt_card_refutes_its_suggestion() {
    let mut state = state_with_players(&["Alice", "Bob"]);
    assert!(state.create_game().is_ok());
    let solution = state.solution.clone().expect("game is active");
    // Build a suggestion around one of Bob's actual cards; Alice suggests it.
    let bob_card = state.get_player("Bob").unwrap().cards[0];
    let mut suggestion = solution.clone();
    match bob_card {
        Card::Suspect(s) => suggestion.suspect = s,
        Card::Weapon(w) => suggestion.weapon = w,
        Card::Room(r) => suggestion.room = r,
    }
    match state.suggest(&suggestion, "Alice") {
        Refutation::Refuted { player, card } => {
            assert_eq!(player, "Bob");
            assert_eq!(card, bob_card);
        },
        Refutation::Unrefuted => panic!("Bob holds a matching card"),
    }
}

#[test]
fn accuse_is_correct_only_for_the_exact_triple() {
    let state = fixed_state();
    let solution = state.solution.clone().expect("game is active");
    assert!(state.accuse(&solution));
    let mut wrong = solution.clone();
    wrong.weapon = Weapon::Wrench;
    assert!(!state.accuse(&wrong));
    let mut wrong = solution.clone();
    wrong.suspect = Suspect::Plum;
    assert!(!state.accuse(&wrong));
    let mut wrong = solution;
    wrong.room = Room::Ballroom;
    assert!(!state.accuse(&wrong));
}

#[test]
fn accuse_after_a_real_deal() {
    let mut state = state_with_players(&["Alice", "Bob"]);
    assert!(state.create_game().is_ok());
    let solution = state.solution.clone().expect("game is active");
    assert!(state.accuse(&solution));
    let mut wrong = solution;
    wrong.weapon =
        if wrong.weapon == Weapon::Rope { Weapon::Candlestick } else { Weapon::Rope };
    assert!(!state.accuse(&wrong));
}
