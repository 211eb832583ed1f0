//! The game state: the player roster, the optional solution, and the
//! lifecycle operations that do not deal cards.

use vstd::prelude::*;
use vstd::multiset::Multiset;
use crate::cards::{Card, Suggestion, full_deck, solution_cards};

verus! {

/// A registered player: a unique name and the hand dealt to them.
#[derive(Debug, Clone)]
pub struct Player {
    pub name: String,
    pub cards: Vec<Card>,
}

/// The expected, recoverable failures of the game operations.
#[derive(Clone, Copy, Debug, PartialEq, Eq, Structural)]
pub enum GameError {
    DuplicatePlayer,
    UnknownPlayer,
    GameAlreadyActive,
    GameNotActive,
    InsufficientPlayers,
}

/// One game: the roster in insertion order and, once a game has started, the
/// hidden solution.
#[derive(Debug)]
pub struct GameState {
    pub players: Vec<Player>,
    pub solution: Option<Suggestion>,
}

/// All players carry pairwise distinct names.
pub open spec fn names_unique(ps: Seq<Player>) -> bool {
    forall|i: int, j: int|
        0 <= i < ps.len() && 0 <= j < ps.len() && i != j ==> ps[i].name@ != ps[j].name@
}

/// Some player carries this name.
pub open spec fn roster_has(ps: Seq<Player>, name: Seq<char>) -> bool {
    exists|i: int| 0 <= i < ps.len() && ps[i].name@ == name
}

/// The index of the player carrying this name (unique when names are unique).
pub open spec fn index_of_name(ps: Seq<Player>, name: Seq<char>) -> int {
    choose|i: int| 0 <= i < ps.len() && ps[i].name@ == name
}

/// All cards held across all hands, as one multiset.
pub open spec fn hands_multiset(ps: Seq<Player>) -> Multiset<Card>
    decreases ps.len(),
{
    if ps.len() == 0 {
        Multiset::empty()
    } else {
        ps[0].cards@.to_multiset().add(hands_multiset(ps.drop_first()))
    }
}

/// A sequence with no elements converts to the empty multiset.
pub proof fn lemma_empty_seq_to_multiset(s: Seq<Card>)
    requires
        s.len() == 0,
    ensures
        s.to_multiset() == Multiset::<Card>::empty(),
{
    broadcast use vstd::seq_lib::group_to_multiset_ensures;
    broadcast use vstd::multiset::group_multiset_axioms;

    assert forall|a: Card| s.to_multiset().count(a) == 0 by {
        if s.to_multiset().count(a) > 0 {
            assert(s.contains(a));
        }
    };
    assert(s.to_multiset() =~= Multiset::<Card>::empty());
}

/// Appending a player adds exactly their hand to the held cards.
pub proof fn lemma_hands_multiset_push(ps: Seq<Player>, pl: Player)
    ensures
        hands_multiset(ps.push(pl)) == hands_multiset(ps).add(pl.cards@.to_multiset()),
    decreases ps.len(),
{
    broadcast use vstd::multiset::group_multiset_axioms;

    if ps.len() == 0 {
        assert(ps.push(pl)[0] == pl);
        assert(ps.push(pl).drop_first() =~= ps);
        assert(hands_multiset(ps.push(pl)) =~= hands_multiset(ps).add(pl.cards@.to_multiset()));
    } else {
        assert(ps.push(pl)[0] == ps[0]);
        assert(ps.push(pl).drop_first() =~= ps.drop_first().push(pl));
        lemma_hands_multiset_push(ps.drop_first(), pl);
        assert(hands_multiset(ps.push(pl)) =~= hands_multiset(ps).add(pl.cards@.to_multiset()));
    }
}

/// Removing a player removes exactly their hand from the held cards.
pub proof fn lemma_hands_multiset_remove(ps: Seq<Player>, i: int)
    requires
        0 <= i < ps.len(),
    ensures
        hands_multiset(ps) == hands_multiset(ps.remove(i)).add(ps[i].cards@.to_multiset()),
    decreases ps.len(),
{
    broadcast use vstd::multiset::group_multiset_axioms;

    if i == 0 {
        assert(ps.remove(0) =~= ps.drop_first());
        assert(hands_multiset(ps) =~= hands_multiset(ps.remove(0)).add(ps[0].cards@.to_multiset()));
    } else {
        assert(ps.remove(i)[0] == ps[0]);
        assert(ps.remove(i).drop_first() =~= ps.drop_first().remove(i - 1));
        assert(ps.drop_first()[i - 1] == ps[i]);
        lemma_hands_multiset_remove(ps.drop_first(), i - 1);
        assert(hands_multiset(ps) =~= hands_multiset(ps.remove(i)).add(ps[i].cards@.to_multiset()));
    }
}

/// Replacing one player's hand by the same hand plus one card inserts that
/// card into the held cards.
pub proof fn lemma_hands_multiset_give(ps: Seq<Player>, i: int, pl2: Player, c: Card)
    requires
        0 <= i < ps.len(),
        pl2.cards@ == ps[i].cards@.push(c),
    ensures
        hands_multiset(ps.update(i, pl2)) == hands_multiset(ps).insert(c),
    decreases ps.len(),
{
    broadcast use vstd::multiset::group_multiset_axioms;
    broadcast use vstd::seq_lib::group_to_multiset_ensures;

    if i == 0 {
        assert(ps.update(0, pl2)[0] == pl2);
        assert(ps.update(0, pl2).drop_first() =~= ps.drop_first());
        assert(pl2.cards@.to_multiset() == ps[0].cards@.to_multiset().insert(c));
        assert(hands_multiset(ps.update(0, pl2)) =~= hands_multiset(ps).insert(c));
    } else {
        assert(ps.update(i, pl2)[0] == ps[0]);
        assert(ps.update(i, pl2).drop_first() =~= ps.drop_first().update(i - 1, pl2));
        assert(ps.drop_first()[i - 1] == ps[i]);
        lemma_hands_multiset_give(ps.drop_first(), i - 1, pl2, c);
        assert(hands_multiset(ps.update(i, pl2)) =~= hands_multiset(ps).insert(c));
    }
}

/// When every hand is empty, no cards are held.
pub proof fn lemma_hands_multiset_all_empty(ps: Seq<Player>)
    requires
        forall|i: int| 0 <= i < ps.len() ==> ps[i].cards@.len() == 0,
    ensures
        hands_multiset(ps) == Multiset::<Card>::empty(),
    decreases ps.len(),
{
    broadcast use vstd::multiset::group_multiset_axioms;

    if ps.len() == 0 {
    } else {
        lemma_empty_seq_to_multiset(ps[0].cards@);
        assert(forall|i: int|
            0 <= i < ps.drop_first().len() ==> ps.drop_first()[i].cards@.len() == 0);
        lemma_hands_multiset_all_empty(ps.drop_first());
        assert(hands_multiset(ps) =~= Multiset::<Card>::empty());
    }
}

impl Player {
    /// A fresh player with the given name and no cards.
    pub fn new(name: &str) -> (r: Player)
        ensures
            r.name@ == name@,
            r.cards@.len() == 0,
    {
        Player { name: name.to_owned(), cards: Vec::<Card>::new() }
    }
}

impl GameState {
    /// The state invariant: names are unique; before a game starts no cards
    /// are held; once a game is active the held cards together with the
    /// solution never exceed the catalog (each card at most once, solution
    /// cards held by nobody).
    pub open spec fn wf(self) -> bool {
        &&& names_unique(self.players@)
        &&& match self.solution {
            Option::None => forall|i: int|
                0 <= i < self.players@.len() ==> self.players@[i].cards@.len() == 0,
            Option::Some(sol) => hands_multiset(self.players@).add(solution_cards(sol)).subset_of(
                full_deck().to_multiset(),
            ),
        }
    }

    /// The empty initial state: no players, no solution.
    pub fn new() -> (r: GameState)
        ensures
            r.players@.len() == 0,
            r.solution is None,
            r.wf(),
    {
        GameState { players: Vec::new(), solution: None }
    }

    /// Registers a new player; fails, leaving the state unchanged, exactly
    /// when the name is already taken.
    pub fn create_player(&mut self, name: &str) -> (r: Result<(), GameError>)
        requires
            old(self).wf(),
        ensures
            final(self).wf(),
            r is Ok <==> !roster_has(old(self).players@, name@),
            match r {
                Result::Ok(()) => {
                    &&& final(self).players@.len() == old(self).players@.len() + 1
                    &&& final(self).players@.drop_last() == old(self).players@
                    &&& final(self).players@.last().name@ == name@
                    &&& final(self).players@.last().cards@.len() == 0
                    &&& final(self).solution == old(self).solution
                },
                Result::Err(e) => e == GameError::DuplicatePlayer && *final(self) == *old(self),
            },
    {
        let key = name.to_owned();
        match find_player_index(&self.players, &key) {
            Some(_) => Err(GameError::DuplicatePlayer),
            None => {
                let pl = Player::new(name);
                proof {
                    lemma_hands_multiset_push(self.players@, pl);
                    lemma_empty_seq_to_multiset(pl.cards@);
                    broadcast use vstd::multiset::group_multiset_axioms;
                }
                self.players.push(pl);
                proof {
                    assert(self.players@.drop_last() =~= old(self).players@);
                    assert(hands_multiset(self.players@) =~= hands_multiset(
                        old(self).players@,
                    ));
                }
                Ok(())
            },
        }
    }

    /// Removes the player with this name; fails, leaving the state unchanged,
    /// exactly when no player carries it. Removing a player mid-game discards
    /// their cards.
    pub fn delete_player(&mut self, name: &str) -> (r: Result<(), GameError>)
        requires
            old(self).wf(),
        ensures
            final(self).wf(),
            r is Ok <==> roster_has(old(self).players@, name@),
            match r {
                Result::Ok(()) => exists|i: int|
                    {
                        &&& 0 <= i < old(self).players@.len()
                        &&& old(self).players@[i].name@ == name@
                        &&& final(self).players@ == old(self).players@.remove(i)
                        &&& final(self).solution == old(self).solution
                    },
                Result::Err(e) => e == GameError::UnknownPlayer && *final(self) == *old(self),
            },
    {
        let key = name.to_owned();
        match find_player_index(&self.players, &key) {
            Some(i) => {
                proof {
                    lemma_hands_multiset_remove(self.players@, i as int);
                    broadcast use vstd::multiset::group_multiset_axioms;
                }
                self.players.remove(i);
                proof {
                    let pre = old(self).players@;
                    let post = self.players@;
                    assert forall|a: int, b: int|
                        0 <= a < post.len() && 0 <= b < post.len() && a != b implies post[a].name@
                        != post[b].name@ by {
                        let a0: int = if a < i as int { a } else { a + 1 };
                        let b0: int = if b < i as int { b } else { b + 1 };
                        assert(post[a] == pre[a0]);
                        assert(post[b] == pre[b0]);
                    };
                    if let Option::Some(sol) = self.solution {
                        assert forall|c: Card|
                            hands_multiset(post).add(solution_cards(sol)).count(c) <= full_deck()
                                .to_multiset().count(c) by {
                            broadcast use vstd::multiset::group_multiset_axioms;

                            assert(hands_multiset(pre).add(solution_cards(sol)).count(c)
                                <= full_deck().to_multiset().count(c));
                        };
                    }
                }
                Ok(())
            },
            None => Err(GameError::UnknownPlayer),
        }
    }

    /// The roster, in insertion order.
    pub fn get_players(&self) -> (r: &Vec<Player>)
        ensures
            r@ == self.players@,
    {
        &self.players
    }

    /// The player with this name, hand included; fails exactly when no player
    /// carries it.
    pub fn get_player(&self, name: &str) -> (r: Result<&Player, GameError>)
        ensures
            r is Ok <==> roster_has(self.players@, name@),
            match r {
                Result::Ok(p) => {
                    &&& p.name@ == name@
                    &&& exists|i: int| 0 <= i < self.players@.len() && self.players@[i] == *p
                },
                Result::Err(e) => e == GameError::UnknownPlayer,
            },
    {
        let key = name.to_owned();
        match find_player_index(&self.players, &key) {
            Some(i) => Ok(&self.players[i]),
            None => Err(GameError::UnknownPlayer),
        }
    }

    /// Ends the active game, clearing the roster and the solution back to the
    /// initial empty state; fails, leaving the state unchanged, exactly when
    /// no game is active.
    pub fn delete_game(&mut self) -> (r: Result<(), GameError>)
        requires
            old(self).wf(),
        ensures
            final(self).wf(),
            r is Ok <==> old(self).solution is Some,
            match r {
                Result::Ok(()) => final(self).players@.len() == 0 && final(self).solution
                    is None,
                Result::Err(e) => e == GameError::GameNotActive && *final(self) == *old(self),
            },
    {
        match self.solution {
            Some(_) => {
                self.players = Vec::new();
                self.solution = None;
                Ok(())
            },
            None => Err(GameError::GameNotActive),
        }
    }
}

/// After `delete_game` the state is empty, and `create_player`'s contract
/// pins the state reached by re-adding names to it: a roster of fresh players
/// carrying those names, with no cards and no solution. This lemma states
/// that any such state — for at least two pairwise distinct names —
/// satisfies `create_game`'s success condition again, so a structurally
/// valid fresh deal is owed by `create_game`'s contract, independent of
/// anything an earlier game did.
pub proof fn lemma_restart_after_reset(s: GameState, names: Seq<Seq<char>>)
    requires
        s.solution is None,
        s.players@.len() == names.len(),
        forall|i: int| 0 <= i < names.len() ==> s.players@[i].name@ == names[i],
        forall|i: int| 0 <= i < s.players@.len() ==> s.players@[i].cards@.len() == 0,
        forall|i: int, j: int|
            0 <= i < names.len() && 0 <= j < names.len() && i != j ==> names[i] != names[j],
        names.len() >= 2,
    ensures
        s.wf(),
        s.solution is None && s.players@.len() >= 2,
{
    assert forall|a: int, b: int|
        0 <= a < s.players@.len() && 0 <= b < s.players@.len() && a != b implies s.players@[a].name@
        != s.players@[b].name@ by {
        assert(s.players@[a].name@ == names[a]);
        assert(s.players@[b].name@ == names[b]);
    };
}

/// The position of the first player carrying this name, if any.
pub fn find_player_index(players: &Vec<Player>, name: &String) -> (r: Option<usize>)
    ensures
        match r {
            Option::Some(i) => {
                &&& i < players@.len()
                &&& players@[i as int].name@ == name@
            },
            Option::None => forall|j: int| 0 <= j < players@.len() ==> players@[j].name@ != name@,
        },
        r is Some <==> roster_has(players@, name@),
{
    let mut i: usize = 0;
    while i < players.len()
        invariant
            i <= players@.len(),
            forall|j: int| 0 <= j < i ==> players@[j].name@ != name@,
        decreases players@.len() - i,
    {
        let p: &Player = &players[i];
        if p.name == *name {
            return Some(i);
        }
        i += 1;
    }
    None
}

} // verus!
