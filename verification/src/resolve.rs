//! Resolving suggestions: refutation in turn order, and the accusation check.

use vstd::prelude::*;
use vstd::pervasive::unreached;
use crate::cards::{Card, Suggestion, matches_suggestion};
use crate::game::{GameState, Player, names_unique, roster_has, index_of_name, find_player_index};

verus! {

/// The outcome of a suggestion: either the first player in turn order who
/// holds a matching card, together with the card they reveal, or the signal
/// that nobody can refute.
#[derive(Debug, Clone)]
pub enum Refutation {
    Refuted { player: String, card: Card },
    Unrefuted,
}

/// Whether this player holds at least one of the suggestion's three cards.
pub open spec fn hand_refutes(p: Player, s: Suggestion) -> bool {
    exists|i: int| 0 <= i < p.cards@.len() && matches_suggestion(p.cards@[i], s)
}

/// The refutation candidates in turn order: the players after position `si`,
/// wrapping around, with the player at `si` excluded.
pub open spec fn turn_order(ps: Seq<Player>, si: int) -> Seq<Player> {
    ps.subrange(si + 1, ps.len() as int) + ps.subrange(0, si)
}

/// One card of this hand that matches the suggestion, if there is one; the
/// hand scan reveals the first match it finds.
fn hand_matching_card(p: &Player, s: &Suggestion) -> (r: Option<Card>)
    ensures
        r is Some <==> hand_refutes(*p, *s),
        r matches Some(c) ==> p.cards@.contains(c) && matches_suggestion(c, *s),
{
    let mut i: usize = 0;
    while i < p.cards.len()
        invariant
            i <= p.cards@.len(),
            forall|j: int| 0 <= j < i ==> !matches_suggestion(p.cards@[j], *s),
        decreases p.cards@.len() - i,
    {
        let c = p.cards[i];
        if c == Card::Suspect(s.suspect) || c == Card::Weapon(s.weapon) || c == Card::Room(s.room) {
            return Some(c);
        }
        i += 1;
    }
    None
}

impl GameState {
    /// Resolves a suggestion: walks the roster in turn order starting right
    /// after the suggesting player, wrapping around and excluding the
    /// suggester, and reports the first player holding a card that matches
    /// the suggestion, together with one such card; reports `Unrefuted`
    /// exactly when no other player holds any of the three cards.
    pub fn suggest(&self, suggestion: &Suggestion, suggester: &str) -> (r: Refutation)
        requires
            names_unique(self.players@),
            roster_has(self.players@, suggester@),
        ensures
            ({
                let ps = self.players@;
                let si = index_of_name(ps, suggester@);
                let ord = turn_order(ps, si);
                match r {
                    Refutation::Unrefuted => forall|k: int|
                        0 <= k < ord.len() ==> !hand_refutes(ord[k], *suggestion),
                    Refutation::Refuted { player, card } => {
                        &&& player@ != suggester@
                        &&& matches_suggestion(card, *suggestion)
                        &&& exists|k: int|
                            {
                                &&& 0 <= k < ord.len()
                                &&& ord[k].name@ == player@
                                &&& ord[k].cards@.contains(card)
                                &&& forall|k2: int|
                                    0 <= k2 < k ==> !hand_refutes(ord[k2], *suggestion)
                            }
                    },
                }
            }),
            ({
                let ps = self.players@;
                let si = index_of_name(ps, suggester@);
                r is Unrefuted <==> forall|j: int|
                    0 <= j < ps.len() && j != si ==> !hand_refutes(ps[j], *suggestion)
            }),
    {
        let ghost ps = self.players@;
        let key = suggester.to_owned();
        let si = match find_player_index(&self.players, &key) {
            Some(i) => i,
            None => unreached(),
        };
        proof {
            let ci: int = index_of_name(ps, suggester@);
            assert(0 <= ci < ps.len() && ps[ci].name@ == suggester@);
            assert(si as int == ci);
        }
        let n = self.players.len();
        let mut j = si + 1;
        while j < n
            invariant
                ps == self.players@,
                names_unique(ps),
                n == ps.len(),
                si < n,
                si as int == index_of_name(ps, suggester@),
                ps[si as int].name@ == suggester@,
                si + 1 <= j <= n,
                forall|j2: int| si < j2 < j ==> !hand_refutes(ps[j2], *suggestion),
            decreases n - j,
        {
            let p: &Player = &self.players[j];
            if let Some(card) = hand_matching_card(p, suggestion) {
                proof {
                    let ord = turn_order(ps, si as int);
                    let k: int = j as int - si as int - 1;
                    assert(ord[k] == ps[j as int]);
                    assert forall|k2: int| 0 <= k2 < k implies !hand_refutes(
                        ord[k2],
                        *suggestion,
                    ) by {
                        assert(ord[k2] == ps[si + 1 + k2]);
                    };
                    let w: int = choose|w: int| 0 <= w < p.cards@.len() && p.cards@[w] == card;
                    assert(hand_refutes(ps[j as int], *suggestion));
                }
                return Refutation::Refuted { player: p.name.clone(), card };
            }
            j += 1;
        }
        let mut j: usize = 0;
        while j < si
            invariant
                ps == self.players@,
                names_unique(ps),
                n == ps.len(),
                si < n,
                si as int == index_of_name(ps, suggester@),
                ps[si as int].name@ == suggester@,
                j <= si,
                forall|j2: int| si < j2 < n ==> !hand_refutes(ps[j2], *suggestion),
                forall|j2: int| 0 <= j2 < j ==> !hand_refutes(ps[j2], *suggestion),
            decreases si - j,
        {
            let p: &Player = &self.players[j];
            if let Some(card) = hand_matching_card(p, suggestion) {
                proof {
                    let ord = turn_order(ps, si as int);
                    let k: int = n as int - 1 - si as int + j as int;
                    assert(ord[k] == ps[j as int]);
                    assert forall|k2: int| 0 <= k2 < k implies !hand_refutes(
                        ord[k2],
                        *suggestion,
                    ) by {
                        if k2 < n - 1 - si {
                            assert(ord[k2] == ps[si + 1 + k2]);
                        } else {
                            assert(ord[k2] == ps[k2 - (n - 1 - si)]);
                        }
                    };
                    let w: int = choose|w: int| 0 <= w < p.cards@.len() && p.cards@[w] == card;
                    assert(hand_refutes(ps[j as int], *suggestion));
                }
                return Refutation::Refuted { player: p.name.clone(), card };
            }
            j += 1;
        }
        proof {
            let ord = turn_order(ps, si as int);
            assert forall|k: int| 0 <= k < ord.len() implies !hand_refutes(
                ord[k],
                *suggestion,
            ) by {
                if k < n - 1 - si {
                    assert(ord[k] == ps[si as int + 1 + k]);
                } else {
                    assert(ord[k] == ps[k - (n - 1 - si)]);
                }
            };
        }
        Refutation::Unrefuted
    }

    /// Checks an accusation: it is correct exactly when the triple equals the
    /// stored solution in all three fields.
    pub fn accuse(&self, suggestion: &Suggestion) -> (r: bool)
        requires
            self.solution is Some,
        ensures
            r <==> *suggestion == self.solution->0,
    {
        match self.solution {
            Some(sol) => sol == *suggestion,
            None => unreached(),
        }
    }
}

/// Two suggestion triples that differ in even one field are different, so an
/// accusation with any single field wrong is incorrect.
pub proof fn lemma_single_field_mismatch(a: Suggestion, b: Suggestion)
    requires
        a.suspect != b.suspect || a.weapon != b.weapon || a.room != b.room,
    ensures
        a != b,
{
}

} // verus!
