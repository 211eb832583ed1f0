//! Choosing a solution and dealing the remaining cards.

use vstd::prelude::*;
use vstd::pervasive::unreached;
use rand::seq::{IndexedRandom, SliceRandom};
use crate::cards::{
    Card,
    Suggestion,
    full_deck,
    solution_cards,
    matches_suggestion,
    all_suspects,
    all_weapons,
    all_rooms,
    card_catalog,
    lemma_full_deck_no_duplicates,
    lemma_full_deck_has_suspect,
    lemma_full_deck_has_weapon,
    lemma_full_deck_has_room,
};
use crate::game::{
    GameState,
    GameError,
    hands_multiset,
    lemma_hands_multiset_give,
    lemma_hands_multiset_all_empty,
    lemma_empty_seq_to_multiset,
};

verus! {

/// Relies on rand::seq::IndexedRandom::choose, driven by rand::rng's
/// thread-local generator: it returns None exactly when the slice is empty,
/// and otherwise a uniformly sampled element of the slice.
#[verifier::external_body]
fn choose_uniform<T: Copy>(v: &Vec<T>) -> (r: Option<T>)
    ensures
        r is Some <==> v@.len() > 0,
        r matches Some(x) ==> v@.contains(x),
{
    let mut rng = rand::rng();
    v.as_slice().choose(&mut rng).copied()
}

/// Relies on rand::seq::SliceRandom::shuffle, driven by rand::rng's
/// thread-local generator: it permutes the slice in place, so the elements are
/// rearranged but none is added or removed.
#[verifier::external_body]
fn shuffle_cards(cards: &mut Vec<Card>)
    ensures
        final(cards)@.to_multiset() == old(cards)@.to_multiset(),
        final(cards)@.len() == old(cards)@.len(),
{
    let mut rng = rand::rng();
    cards.as_mut_slice().shuffle(&mut rng);
}

/// Draws a uniformly random solution triple: one suspect, one weapon, one
/// room, independently. The catalogs are never empty, so each draw succeeds.
fn draw_solution() -> (r: Suggestion) {
    let suspects = all_suspects();
    let weapons = all_weapons();
    let rooms = all_rooms();
    let suspect = match choose_uniform(&suspects) {
        Some(s) => s,
        None => unreached(),
    };
    let weapon = match choose_uniform(&weapons) {
        Some(w) => w,
        None => unreached(),
    };
    let room = match choose_uniform(&rooms) {
        Some(r) => r,
        None => unreached(),
    };
    Suggestion { suspect, weapon, room }
}

/// Removes the first occurrence of a card that is known to be in the deck.
fn remove_first(deck: &mut Vec<Card>, c: Card)
    requires
        old(deck)@.contains(c),
    ensures
        final(deck)@.len() == old(deck)@.len() - 1,
        final(deck)@.to_multiset() == old(deck)@.to_multiset().remove(c),
{
    let mut i: usize = 0;
    while i < deck.len()
        invariant
            deck@ == old(deck)@,
            i <= deck@.len(),
            forall|j: int| 0 <= j < i ==> deck@[j] != c,
        decreases deck@.len() - i,
    {
        if deck[i] == c {
            deck.remove(i);
            proof {
                broadcast use vstd::seq_lib::group_to_multiset_ensures;
            }
            return ;
        }
        i += 1;
    }
    proof {
        let w: int = choose|w: int| 0 <= w < deck@.len() && deck@[w] == c;
        assert(deck@[w] != c);
    }
}

/// Builds the 18-card residual deck: the full catalog with the three solution
/// cards removed.
fn residual_deck(solution: &Suggestion) -> (r: Vec<Card>)
    ensures
        r@.len() == 18,
        r@.to_multiset().add(solution_cards(*solution)) == full_deck().to_multiset(),
        forall|c: Card| matches_suggestion(c, *solution) ==> !r@.contains(c),
{
    let suspect_card = Card::Suspect(solution.suspect);
    let weapon_card = Card::Weapon(solution.weapon);
    let room_card = Card::Room(solution.room);
    let mut deck = card_catalog();
    proof {
        broadcast use vstd::multiset::group_multiset_axioms;
        broadcast use vstd::seq_lib::group_to_multiset_ensures;

        lemma_full_deck_no_duplicates();
        lemma_full_deck_has_suspect(solution.suspect);
        lemma_full_deck_has_weapon(solution.weapon);
        lemma_full_deck_has_room(solution.room);
        full_deck().lemma_multiset_has_no_duplicates();
        assert(full_deck().to_multiset().count(suspect_card) == 1);
        assert(full_deck().to_multiset().count(weapon_card) == 1);
        assert(full_deck().to_multiset().count(room_card) == 1);
    }
    remove_first(&mut deck, suspect_card);
    proof {
        broadcast use vstd::multiset::group_multiset_axioms;
        broadcast use vstd::seq_lib::group_to_multiset_ensures;

        assert(deck@.to_multiset().count(weapon_card) == 1);
        assert(deck@.contains(weapon_card));
    }
    remove_first(&mut deck, weapon_card);
    proof {
        broadcast use vstd::multiset::group_multiset_axioms;
        broadcast use vstd::seq_lib::group_to_multiset_ensures;

        assert(deck@.to_multiset().count(room_card) == 1);
        assert(deck@.contains(room_card));
    }
    remove_first(&mut deck, room_card);
    proof {
        broadcast use vstd::multiset::group_multiset_axioms;
        broadcast use vstd::seq_lib::group_to_multiset_ensures;

        assert(deck@.to_multiset().add(solution_cards(*solution)) =~= full_deck().to_multiset());
        assert forall|c: Card| matches_suggestion(c, *solution) implies !deck@.contains(c) by {
            assert(deck@.to_multiset().count(c) == 0);
        };
    }
    deck
}

/// The number of cards player `i` receives when `total` cards are dealt
/// round-robin to `n` players: the first `total % n` players in roster order
/// get one card above the shared base.
pub open spec fn deal_size(total: int, n: int, i: int) -> int {
    total / n + if i < total % n {
        1int
    } else {
        0int
    }
}

/// Round-robin dealing is fair: any two players' shares differ by at most
/// one card, and only the first `total % n` players hold the larger share.
pub proof fn lemma_deal_sizes_fair(total: int, n: int, i: int, j: int)
    requires
        1 <= n,
        0 <= i < n,
        0 <= j < n,
    ensures
        deal_size(total, n, i) - deal_size(total, n, j) <= 1,
        deal_size(total, n, i) > deal_size(total, n, j) ==> i < total % n && j >= total % n,
{
}

impl GameState {
    /// Moves one card into player `p`'s hand, leaving everything else as it
    /// was.
    fn give_card(&mut self, p: usize, c: Card)
        requires
            p < old(self).players@.len(),
        ensures
            final(self).solution == old(self).solution,
            final(self).players@.len() == old(self).players@.len(),
            final(self).players@[p as int].name == old(self).players@[p as int].name,
            final(self).players@[p as int].cards@ == old(self).players@[p as int].cards@.push(c),
            forall|i: int|
                0 <= i < old(self).players@.len() && i != p ==> final(self).players@[i] == old(
                    self,
                ).players@[i],
            hands_multiset(final(self).players@) == hands_multiset(old(self).players@).insert(c),
    {
        let mut pl = self.players.remove(p);
        pl.cards.push(c);
        self.players.insert(p, pl);
        proof {
            assert(self.players@ =~= old(self).players@.update(
                p as int,
                self.players@[p as int],
            ));
            lemma_hands_multiset_give(
                old(self).players@,
                p as int,
                self.players@[p as int],
                c,
            );
        }
    }

    /// Deals the whole deck round-robin over the roster: `total / n` full
    /// rounds of one card per player, then one extra card to each of the
    /// first `total % n` players.
    fn deal_hands(&mut self, deck: &Vec<Card>)
        requires
            old(self).players@.len() >= 1,
            forall|i: int| 0 <= i < old(self).players@.len() ==> old(self).players@[i].cards@.len() == 0,
        ensures
            final(self).solution == old(self).solution,
            final(self).players@.len() == old(self).players@.len(),
            forall|i: int|
                0 <= i < final(self).players@.len() ==> final(self).players@[i].name == old(
                    self,
                ).players@[i].name,
            forall|i: int|
                0 <= i < final(self).players@.len() ==> final(self).players@[i].cards@.len()
                    == deal_size(deck@.len() as int, old(self).players@.len() as int, i),
            hands_multiset(final(self).players@) == deck@.to_multiset(),
    {
        broadcast use vstd::seq_lib::group_to_multiset_ensures;

        let ghost orig = *old(self);
        let n = self.players.len();
        let total = deck.len();
        let base = total / n;
        let extra = total % n;
        proof {
            vstd::arithmetic::div_mod::lemma_fundamental_div_mod(total as int, n as int);
            lemma_empty_seq_to_multiset(deck@.take(0));
            lemma_hands_multiset_all_empty(self.players@);
        }
        let mut idx: usize = 0;
        let mut round: usize = 0;
        while round < base
            invariant
                n == orig.players@.len(),
                1 <= n,
                total == deck@.len(),
                base == total as int / n as int,
                extra == total as int % n as int,
                total == base * n + extra,
                extra < n,
                round <= base,
                idx == round * n,
                self.solution == orig.solution,
                self.players@.len() == n,
                forall|i: int| 0 <= i < n ==> self.players@[i].name == orig.players@[i].name,
                forall|i: int| 0 <= i < n ==> self.players@[i].cards@.len() == round,
                hands_multiset(self.players@) == deck@.take(idx as int).to_multiset(),
            decreases base - round,
        {
            let mut p: usize = 0;
            while p < n
                invariant
                    n == orig.players@.len(),
                    1 <= n,
                    total == deck@.len(),
                    total == base * n + extra,
                    0 <= extra,
                    round < base,
                    p <= n,
                    idx == round * n + p,
                    self.solution == orig.solution,
                    self.players@.len() == n,
                    forall|i: int| 0 <= i < n ==> self.players@[i].name == orig.players@[i].name,
                    forall|i: int| 0 <= i < p ==> self.players@[i].cards@.len() == round + 1,
                    forall|i: int| p <= i < n ==> self.players@[i].cards@.len() == round,
                    hands_multiset(self.players@) == deck@.take(idx as int).to_multiset(),
                decreases n - p,
            {
                proof {
                    broadcast use vstd::seq_lib::group_to_multiset_ensures;

                    assert(round * n + p < base * n + extra) by (nonlinear_arith)
                        requires
                            round + 1 <= base,
                            0 <= p < n,
                            0 <= round,
                            0 <= extra,
                    ;
                    assert(deck@.take(idx + 1) =~= deck@.take(idx as int).push(deck@[idx as int]));
                    assert(deck@.take(idx as int).push(deck@[idx as int]).to_multiset() == deck@.take(
                        idx as int,
                    ).to_multiset().insert(deck@[idx as int]));
                }
                let c = deck[idx];
                self.give_card(p, c);
                idx += 1;
                p += 1;
            }
            proof {
                assert((round + 1) * n == round * n + n) by (nonlinear_arith);
            }
            round += 1;
        }
        let mut p: usize = 0;
        while p < extra
            invariant
                n == orig.players@.len(),
                1 <= n,
                total == deck@.len(),
                total == base * n + extra,
                extra < n,
                p <= extra,
                idx == base * n + p,
                self.solution == orig.solution,
                self.players@.len() == n,
                forall|i: int| 0 <= i < n ==> self.players@[i].name == orig.players@[i].name,
                forall|i: int| 0 <= i < p ==> self.players@[i].cards@.len() == base + 1,
                forall|i: int| p <= i < n ==> self.players@[i].cards@.len() == base,
                hands_multiset(self.players@) == deck@.take(idx as int).to_multiset(),
            decreases extra - p,
        {
            proof {
                broadcast use vstd::seq_lib::group_to_multiset_ensures;

                assert(deck@.take(idx + 1) =~= deck@.take(idx as int).push(deck@[idx as int]));
                assert(deck@.take(idx as int).push(deck@[idx as int]).to_multiset() == deck@.take(
                    idx as int,
                ).to_multiset().insert(deck@[idx as int]));
            }
            let c = deck[idx];
            self.give_card(p, c);
            idx += 1;
            p += 1;
        }
        proof {
            assert(deck@.take(idx as int) =~= deck@);
        }
    }

    /// Starts a game: draws a solution, shuffles the residual deck and deals
    /// it round-robin. Fails, leaving the state unchanged, exactly when a
    /// game is already active or fewer than two players are registered. On
    /// success the hands and the solution partition the 21-card catalog, no
    /// hand holds a solution card, and hand sizes follow the round-robin
    /// shares.
    pub fn create_game(&mut self) -> (r: Result<(), GameError>)
        requires
            old(self).wf(),
        ensures
            final(self).wf(),
            r is Ok <==> (old(self).solution is None && old(self).players@.len() >= 2),
            match r {
                Result::Ok(()) => {
                    &&& final(self).solution is Some
                    &&& final(self).players@.len() == old(self).players@.len()
                    &&& forall|i: int|
                        0 <= i < final(self).players@.len()
                            ==> (#[trigger] final(self).players@[i]).name
                            == old(self).players@[i].name
                    &&& forall|i: int|
                        0 <= i < final(self).players@.len()
                            ==> (#[trigger] final(self).players@[i]).cards@.len() == deal_size(
                            18,
                            old(self).players@.len() as int,
                            i,
                        )
                    &&& hands_multiset(final(self).players@).add(
                        solution_cards(final(self).solution->0),
                    ) == full_deck().to_multiset()
                    &&& hands_multiset(final(self).players@).len() == 18
                    &&& forall|c: Card|
                        matches_suggestion(c, final(self).solution->0) ==> !hands_multiset(
                            final(self).players@,
                        ).contains(c)
                },
                Result::Err(e) => {
                    &&& *final(self) == *old(self)
                    &&& (e == GameError::GameAlreadyActive <==> old(self).solution is Some)
                    &&& (e == GameError::InsufficientPlayers <==> old(self).solution is None
                        && old(self).players@.len() < 2)
                },
            },
    {
        match self.solution {
            Some(_) => {
                return Err(GameError::GameAlreadyActive);
            },
            None => {},
        }
        if self.players.len() < 2 {
            return Err(GameError::InsufficientPlayers);
        }
        let solution = draw_solution();
        let mut deck = residual_deck(&solution);
        proof {
            broadcast use vstd::seq_lib::group_to_multiset_ensures;
        }
        shuffle_cards(&mut deck);
        self.deal_hands(&deck);
        self.solution = Some(solution);
        proof {
            broadcast use vstd::multiset::group_multiset_axioms;
            broadcast use vstd::seq_lib::group_to_multiset_ensures;

            assert(hands_multiset(self.players@).add(solution_cards(solution)) == full_deck()
                .to_multiset());
            assert(hands_multiset(self.players@).add(solution_cards(solution)).subset_of(
                full_deck().to_multiset(),
            ));
            assert forall|c: Card| matches_suggestion(c, solution) implies !hands_multiset(
                self.players@,
            ).contains(c) by {
                assert(hands_multiset(self.players@).count(c) == 0);
            };
            assert forall|a: int, b: int|
                0 <= a < self.players@.len() && 0 <= b < self.players@.len() && a != b implies self
                .players@[a].name@ != self.players@[b].name@ by {
                assert(old(self).players@[a].name@ != old(self).players@[b].name@);
            };
        }
        Ok(())
    }
}

} // verus!
