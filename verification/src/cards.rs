//! The fixed card catalog: six suspects, six weapons, nine rooms.

use vstd::prelude::*;

verus! {

/// One of the six suspect cards.
#[derive(Clone, Copy, Debug, PartialEq, Eq, Structural)]
pub enum Suspect {
    Plum,
    Green,
    Mustard,
    Peacock,
    Scarlett,
    Orchid,
}

/// One of the six weapon cards.
#[derive(Clone, Copy, Debug, PartialEq, Eq, Structural)]
pub enum Weapon {
    Candlestick,
    LeadPipe,
    Dagger,
    Rope,
    Revolver,
    Wrench,
}

/// One of the nine room cards.
#[derive(Clone, Copy, Debug, PartialEq, Eq, Structural)]
pub enum Room {
    Kitchen,
    Hall,
    Lounge,
    Ballroom,
    Conservatory,
    DiningRoom,
    Library,
    BilliardRoom,
    Study,
}

/// A card is a suspect, a weapon or a room; equality is structural.
#[derive(Clone, Copy, Debug, PartialEq, Eq, Structural)]
pub enum Card {
    Suspect(Suspect),
    Weapon(Weapon),
    Room(Room),
}

/// An ordered (suspect, weapon, room) triple: both the hidden solution and a
/// player's guess have this shape.
#[derive(Clone, Copy, Debug, PartialEq, Eq, Structural)]
pub struct Suggestion {
    pub suspect: Suspect,
    pub weapon: Weapon,
    pub room: Room,
}

/// Whether a card is one of the three cards named by a suggestion.
pub open spec fn matches_suggestion(c: Card, s: Suggestion) -> bool {
    ||| c == Card::Suspect(s.suspect)
    ||| c == Card::Weapon(s.weapon)
    ||| c == Card::Room(s.room)
}

/// The three cards of a solution triple, as a multiset.
pub open spec fn solution_cards(s: Suggestion) -> vstd::multiset::Multiset<Card> {
    vstd::multiset::Multiset::empty().insert(Card::Suspect(s.suspect)).insert(
        Card::Weapon(s.weapon),
    ).insert(Card::Room(s.room))
}

/// The six suspects, in catalog order.
pub open spec fn suspect_seq() -> Seq<Suspect> {
    seq![
        Suspect::Plum,
        Suspect::Green,
        Suspect::Mustard,
        Suspect::Peacock,
        Suspect::Scarlett,
        Suspect::Orchid,
    ]
}

/// The six weapons, in catalog order.
pub open spec fn weapon_seq() -> Seq<Weapon> {
    seq![
        Weapon::Candlestick,
        Weapon::LeadPipe,
        Weapon::Dagger,
        Weapon::Rope,
        Weapon::Revolver,
        Weapon::Wrench,
    ]
}

/// The nine rooms, in catalog order.
pub open spec fn room_seq() -> Seq<Room> {
    seq![
        Room::Kitchen,
        Room::Hall,
        Room::Lounge,
        Room::Ballroom,
        Room::Conservatory,
        Room::DiningRoom,
        Room::Library,
        Room::BilliardRoom,
        Room::Study,
    ]
}

/// The full 21-card deck: all suspects, then all weapons, then all rooms.
pub open spec fn full_deck() -> Seq<Card> {
    seq![
        Card::Suspect(Suspect::Plum),
        Card::Suspect(Suspect::Green),
        Card::Suspect(Suspect::Mustard),
        Card::Suspect(Suspect::Peacock),
        Card::Suspect(Suspect::Scarlett),
        Card::Suspect(Suspect::Orchid),
        Card::Weapon(Weapon::Candlestick),
        Card::Weapon(Weapon::LeadPipe),
        Card::Weapon(Weapon::Dagger),
        Card::Weapon(Weapon::Rope),
        Card::Weapon(Weapon::Revolver),
        Card::Weapon(Weapon::Wrench),
        Card::Room(Room::Kitchen),
        Card::Room(Room::Hall),
        Card::Room(Room::Lounge),
        Card::Room(Room::Ballroom),
        Card::Room(Room::Conservatory),
        Card::Room(Room::DiningRoom),
        Card::Room(Room::Library),
        Card::Room(Room::BilliardRoom),
        Card::Room(Room::Study),
    ]
}

/// The full deck holds 21 pairwise distinct cards.
pub proof fn lemma_full_deck_no_duplicates()
    ensures
        full_deck().len() == 21,
        full_deck().no_duplicates(),
{
    assert(full_deck().no_duplicates()) by {
        reveal_with_fuel(Seq::no_duplicates, 1);
        assert forall|i: int, j: int|
            0 <= i < full_deck().len() && 0 <= j < full_deck().len() && i != j implies full_deck()[i]
            != full_deck()[j] by {};
    };
}

/// Every suspect's card is in the full deck.
pub proof fn lemma_full_deck_has_suspect(s: Suspect)
    ensures
        full_deck().contains(Card::Suspect(s)),
{
    match s {
        Suspect::Plum => assert(full_deck()[0] == Card::Suspect(s)),
        Suspect::Green => assert(full_deck()[1] == Card::Suspect(s)),
        Suspect::Mustard => assert(full_deck()[2] == Card::Suspect(s)),
        Suspect::Peacock => assert(full_deck()[3] == Card::Suspect(s)),
        Suspect::Scarlett => assert(full_deck()[4] == Card::Suspect(s)),
        Suspect::Orchid => assert(full_deck()[5] == Card::Suspect(s)),
    }
}

/// Every weapon's card is in the full deck.
pub proof fn lemma_full_deck_has_weapon(w: Weapon)
    ensures
        full_deck().contains(Card::Weapon(w)),
{
    match w {
        Weapon::Candlestick => assert(full_deck()[6] == Card::Weapon(w)),
        Weapon::LeadPipe => assert(full_deck()[7] == Card::Weapon(w)),
        Weapon::Dagger => assert(full_deck()[8] == Card::Weapon(w)),
        Weapon::Rope => assert(full_deck()[9] == Card::Weapon(w)),
        Weapon::Revolver => assert(full_deck()[10] == Card::Weapon(w)),
        Weapon::Wrench => assert(full_deck()[11] == Card::Weapon(w)),
    }
}

/// Every room's card is in the full deck.
pub proof fn lemma_full_deck_has_room(r: Room)
    ensures
        full_deck().contains(Card::Room(r)),
{
    match r {
        Room::Kitchen => assert(full_deck()[12] == Card::Room(r)),
        Room::Hall => assert(full_deck()[13] == Card::Room(r)),
        Room::Lounge => assert(full_deck()[14] == Card::Room(r)),
        Room::Ballroom => assert(full_deck()[15] == Card::Room(r)),
        Room::Conservatory => assert(full_deck()[16] == Card::Room(r)),
        Room::DiningRoom => assert(full_deck()[17] == Card::Room(r)),
        Room::Library => assert(full_deck()[18] == Card::Room(r)),
        Room::BilliardRoom => assert(full_deck()[19] == Card::Room(r)),
        Room::Study => assert(full_deck()[20] == Card::Room(r)),
    }
}

/// The six suspects as a vector, in catalog order.
pub fn all_suspects() -> (r: Vec<Suspect>)
    ensures
        r@ == suspect_seq(),
{
    let mut v: Vec<Suspect> = Vec::new();
    v.push(Suspect::Plum);
    v.push(Suspect::Green);
    v.push(Suspect::Mustard);
    v.push(Suspect::Peacock);
    v.push(Suspect::Scarlett);
    v.push(Suspect::Orchid);
    proof {
        assert(v@ =~= suspect_seq());
    }
    v
}

/// The six weapons as a vector, in catalog order.
pub fn all_weapons() -> (r: Vec<Weapon>)
    ensures
        r@ == weapon_seq(),
{
    let mut v: Vec<Weapon> = Vec::new();
    v.push(Weapon::Candlestick);
    v.push(Weapon::LeadPipe);
    v.push(Weapon::Dagger);
    v.push(Weapon::Rope);
    v.push(Weapon::Revolver);
    v.push(Weapon::Wrench);
    proof {
        assert(v@ =~= weapon_seq());
    }
    v
}

/// The nine rooms as a vector, in catalog order.
pub fn all_rooms() -> (r: Vec<Room>)
    ensures
        r@ == room_seq(),
{
    let mut v: Vec<Room> = Vec::new();
    v.push(Room::Kitchen);
    v.push(Room::Hall);
    v.push(Room::Lounge);
    v.push(Room::Ballroom);
    v.push(Room::Conservatory);
    v.push(Room::DiningRoom);
    v.push(Room::Library);
    v.push(Room::BilliardRoom);
    v.push(Room::Study);
    proof {
        assert(v@ =~= room_seq());
    }
    v
}

/// The full 21-card deck as a vector.
pub fn card_catalog() -> (r: Vec<Card>)
    ensures
        r@ == full_deck(),
{
    let mut v: Vec<Card> = Vec::new();
    v.push(Card::Suspect(Suspect::Plum));
    v.push(Card::Suspect(Suspect::Green));
    v.push(Card::Suspect(Suspect::Mustard));
    v.push(Card::Suspect(Suspect::Peacock));
    v.push(Card::Suspect(Suspect::Scarlett));
    v.push(Card::Suspect(Suspect::Orchid));
    v.push(Card::Weapon(Weapon::Candlestick));
    v.push(Card::Weapon(Weapon::LeadPipe));
    v.push(Card::Weapon(Weapon::Dagger));
    v.push(Card::Weapon(Weapon::Rope));
    v.push(Card::Weapon(Weapon::Revolver));
    v.push(Card::Weapon(Weapon::Wrench));
    v.push(Card::Room(Room::Kitchen));
    v.push(Card::Room(Room::Hall));
    v.push(Card::Room(Room::Lounge));
    v.push(Card::Room(Room::Ballroom));
    v.push(Card::Room(Room::Conservatory));
    v.push(Card::Room(Room::DiningRoom));
    v.push(Card::Room(Room::Library));
    v.push(Card::Room(Room::BilliardRoom));
    v.push(Card::Room(Room::Study));
    proof {
        assert(v@ =~= full_deck());
    }
    v
}

} // verus!
