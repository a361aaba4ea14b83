use vstd::prelude::*;

use crate::card::Card;
use crate::hand::Hand;
use crate::pot::Pot;

verus! {

/// A player's stable identity across rounds: a small unique integer.
#[derive(Debug, PartialEq, Eq, Hash, Clone, Copy, Structural)]
pub struct PlayerId(pub u8);

/// The two mutually exclusive participation states a player can be in.
/// Betting operations exist only on `Player<Active>`; a folded player can
/// only be dealt back in when a new round starts.
pub trait PlayerState {}

/// Still contesting the round; tracks the chips already committed to the
/// pot during the current stage.
#[derive(Debug, Clone, Copy, PartialEq, Eq, Structural)]
pub struct Active {
    pub chips_bet_in_stage: u32,
}

/// Out of the round; carries no betting state.
#[derive(Debug, Clone, Copy)]
pub struct Folded {}

impl PlayerState for Active {}

impl PlayerState for Folded {}

/// A seated player: identity, hole cards, chip balance, and the state tag
/// that says whether they are still in the round.
#[derive(Debug, Clone, Copy)]
pub struct Player<S: PlayerState> {
    pub id: PlayerId,
    pub hand: Hand,
    pub chips: u32,
    pub state: S,
}

/// The folded twin of an active player: same identity, hand and chips, no
/// betting state.
pub open spec fn spec_fold(p: Player<Active>) -> Player<Folded> {
    Player { id: p.id, hand: p.hand, chips: p.chips, state: Folded {  } }
}

/// The active twin of a folded player, freshly dealt `hand` and owing
/// nothing to the current stage.
pub open spec fn spec_deal_in(p: Player<Folded>, hand: Hand) -> Player<Active> {
    Player { id: p.id, hand, chips: p.chips, state: Active { chips_bet_in_stage: 0 } }
}

/// The player after a successful bet of `amount`: the chips move out of the
/// balance and into the stage's committed total.
pub open spec fn spec_bet(p: Player<Active>, amount: int) -> Player<Active> {
    Player {
        id: p.id,
        hand: p.hand,
        chips: (p.chips - amount) as u32,
        state: Active { chips_bet_in_stage: (p.state.chips_bet_in_stage + amount) as u32 },
    }
}

/// Total chips held by a roster of players.
pub open spec fn sum_chips<S: PlayerState>(s: Seq<Player<S>>) -> int
    decreases s.len(),
{
    if s.len() == 0 {
        0
    } else {
        sum_chips(s.drop_last()) + s.last().chips
    }
}

pub proof fn lemma_sum_chips_nonneg<S: PlayerState>(s: Seq<Player<S>>)
    ensures
        sum_chips(s) >= 0,
    decreases s.len(),
{
    if s.len() > 0 {
        lemma_sum_chips_nonneg(s.drop_last());
    }
}

/// No single player holds more than the roster's total.
pub proof fn lemma_sum_chips_bound<S: PlayerState>(s: Seq<Player<S>>, i: int)
    requires
        0 <= i < s.len(),
    ensures
        s[i].chips <= sum_chips(s),
    decreases s.len(),
{
    if i == s.len() - 1 {
        lemma_sum_chips_nonneg(s.drop_last());
    } else {
        lemma_sum_chips_bound(s.drop_last(), i);
    }
}

pub proof fn lemma_sum_chips_push<S: PlayerState>(s: Seq<Player<S>>, p: Player<S>)
    ensures
        sum_chips(s.push(p)) == sum_chips(s) + p.chips,
{
    assert(s.push(p).drop_last() =~= s);
}

pub proof fn lemma_sum_chips_concat<S: PlayerState>(a: Seq<Player<S>>, b: Seq<Player<S>>)
    ensures
        sum_chips(a + b) == sum_chips(a) + sum_chips(b),
    decreases b.len(),
{
    if b.len() == 0 {
        assert(a + b =~= a);
    } else {
        assert((a + b).drop_last() =~= a + b.drop_last());
        lemma_sum_chips_concat(a, b.drop_last());
    }
}

pub proof fn lemma_sum_chips_remove<S: PlayerState>(s: Seq<Player<S>>, i: int)
    requires
        0 <= i < s.len(),
    ensures
        sum_chips(s.remove(i)) == sum_chips(s) - s[i].chips,
    decreases s.len(),
{
    if i == s.len() - 1 {
        assert(s.remove(i) =~= s.drop_last());
    } else {
        assert(s.remove(i).drop_last() =~= s.drop_last().remove(i));
        lemma_sum_chips_remove(s.drop_last(), i);
    }
}

pub proof fn lemma_sum_chips_update<S: PlayerState>(s: Seq<Player<S>>, i: int, p: Player<S>)
    requires
        0 <= i < s.len(),
    ensures
        sum_chips(s.update(i, p)) == sum_chips(s) - s[i].chips + p.chips,
    decreases s.len(),
{
    if i == s.len() - 1 {
        assert(s.update(i, p).drop_last() =~= s.drop_last());
    } else {
        assert(s.update(i, p).drop_last() =~= s.drop_last().update(i, p));
        lemma_sum_chips_update(s.drop_last(), i, p);
    }
}

/// The cards held in a roster's hands, as a multiset: together with the
/// deck they account for every card dealt out.
pub open spec fn dealt_cards(s: Seq<Player<Active>>) -> vstd::multiset::Multiset<Card>
    decreases s.len(),
{
    if s.len() == 0 {
        vstd::multiset::Multiset::empty()
    } else {
        dealt_cards(s.drop_last()).insert(s.last().hand.cards@[0]).insert(s.last().hand.cards@[1])
    }
}

pub proof fn lemma_dealt_cards_push(s: Seq<Player<Active>>, p: Player<Active>)
    ensures
        dealt_cards(s.push(p)) == dealt_cards(s).insert(p.hand.cards@[0]).insert(
            p.hand.cards@[1],
        ),
{
    assert(s.push(p).drop_last() =~= s);
}

/// The identities seated in a roster, as a multiset: order and
/// participation state aside, these are the people at the table.
pub open spec fn ids_multiset<S: PlayerState>(s: Seq<Player<S>>) -> vstd::multiset::Multiset<
    PlayerId,
>
    decreases s.len(),
{
    if s.len() == 0 {
        vstd::multiset::Multiset::empty()
    } else {
        ids_multiset(s.drop_last()).insert(s.last().id)
    }
}

pub proof fn lemma_ids_push<S: PlayerState>(s: Seq<Player<S>>, p: Player<S>)
    ensures
        ids_multiset(s.push(p)) == ids_multiset(s).insert(p.id),
{
    assert(s.push(p).drop_last() =~= s);
}

pub proof fn lemma_ids_remove<S: PlayerState>(s: Seq<Player<S>>, i: int)
    requires
        0 <= i < s.len(),
    ensures
        ids_multiset(s) == ids_multiset(s.remove(i)).insert(s[i].id),
    decreases s.len(),
{
    if i == s.len() - 1 {
        assert(s.remove(i) =~= s.drop_last());
    } else {
        assert(s.remove(i).drop_last() =~= s.drop_last().remove(i));
        lemma_ids_remove(s.drop_last(), i);
        assert(ids_multiset(s.drop_last().remove(i)).insert(s[i].id).insert(s.last().id)
            =~= ids_multiset(s.drop_last().remove(i)).insert(s.last().id).insert(s[i].id));
    }
}

pub proof fn lemma_ids_update<S: PlayerState>(s: Seq<Player<S>>, i: int, p: Player<S>)
    requires
        0 <= i < s.len(),
        p.id == s[i].id,
    ensures
        ids_multiset(s.update(i, p)) == ids_multiset(s),
    decreases s.len(),
{
    if i == s.len() - 1 {
        assert(s.update(i, p).drop_last() =~= s.drop_last());
    } else {
        assert(s.update(i, p).drop_last() =~= s.drop_last().update(i, p));
        lemma_ids_update(s.drop_last(), i, p);
    }
}

pub proof fn lemma_ids_concat<S: PlayerState>(a: Seq<Player<S>>, b: Seq<Player<S>>)
    ensures
        ids_multiset(a + b) == ids_multiset(a).add(ids_multiset(b)),
    decreases b.len(),
{
    if b.len() == 0 {
        assert(a + b =~= a);
        assert(ids_multiset(a).add(vstd::multiset::Multiset::empty()) =~= ids_multiset(a));
    } else {
        assert((a + b).drop_last() =~= a + b.drop_last());
        lemma_ids_concat(a, b.drop_last());
        assert(ids_multiset(a).add(ids_multiset(b.drop_last())).insert(b.last().id)
            =~= ids_multiset(a).add(ids_multiset(b.drop_last()).insert(b.last().id)));
    }
}

/// Two rosters seating the same identity at every position seat the same
/// people, whatever their participation states.
pub proof fn lemma_ids_pointwise<S: PlayerState, T: PlayerState>(
    a: Seq<Player<S>>,
    b: Seq<Player<T>>,
)
    requires
        a.len() == b.len(),
        forall|i: int| 0 <= i < a.len() ==> a[i].id == b[i].id,
    ensures
        ids_multiset(a) == ids_multiset(b),
    decreases a.len(),
{
    if a.len() > 0 {
        lemma_ids_pointwise(a.drop_last(), b.drop_last());
    }
}

/// The same player with the stage's committed total cleared, as every
/// player starts a fresh betting stage.
pub open spec fn spec_stage_reset(p: Player<Active>) -> Player<Active> {
    Player { id: p.id, hand: p.hand, chips: p.chips, state: Active { chips_bet_in_stage: 0 } }
}

/// Two rosters whose players hold the same chips position by position hold
/// the same total, whatever their participation states.
pub proof fn lemma_sum_chips_pointwise<S: PlayerState, T: PlayerState>(
    a: Seq<Player<S>>,
    b: Seq<Player<T>>,
)
    requires
        a.len() == b.len(),
        forall|i: int| 0 <= i < a.len() ==> a[i].chips == b[i].chips,
    ensures
        sum_chips(a) == sum_chips(b),
    decreases a.len(),
{
    if a.len() > 0 {
        lemma_sum_chips_pointwise(a.drop_last(), b.drop_last());
    }
}

/// Copies a roster as it stands.
pub fn copy_players<S: PlayerState + Copy>(players: &Vec<Player<S>>) -> (r: Vec<Player<S>>)
    ensures
        r@ == players@,
{
    let mut fresh: Vec<Player<S>> = Vec::new();
    let mut i: usize = 0;
    while i < players.len()
        invariant
            players@.len() == players.len(),
            i <= players@.len(),
            fresh@.len() == i,
            forall|j: int| 0 <= j < i ==> fresh@[j] == players@[j],
        decreases players@.len() - i,
    {
        fresh.push(players[i]);
        i = i + 1;
    }
    proof {
        assert(fresh@ =~= players@);
    }
    fresh
}

/// Copies a roster with every committed-this-stage total cleared, ready for
/// a fresh betting stage. Chips, identities and hands are untouched.
pub fn reset_stage_bets(players: &Vec<Player<Active>>) -> (r: Vec<Player<Active>>)
    ensures
        r@.len() == players@.len(),
        forall|i: int| 0 <= i < players@.len() ==> r@[i] == spec_stage_reset(players@[i]),
        sum_chips(r@) == sum_chips(players@),
{
    let mut fresh: Vec<Player<Active>> = Vec::new();
    let mut i: usize = 0;
    while i < players.len()
        invariant
            players@.len() == players.len(),
            i <= players@.len(),
            fresh@.len() == i,
            forall|j: int| 0 <= j < i ==> fresh@[j] == spec_stage_reset(players@[j]),
        decreases players@.len() - i,
    {
        let p = players[i];
        fresh.push(Player { id: p.id, hand: p.hand, chips: p.chips, state: Active { chips_bet_in_stage: 0 } });
        i = i + 1;
    }
    proof {
        lemma_sum_chips_pointwise(fresh@, players@);
    }
    fresh
}

/// Why a bet was rejected; a rejected bet leaves player and pot untouched.
#[derive(Debug, Clone, Copy, PartialEq, Eq, Structural)]
pub enum BetError {
    /// The amount fell short of what the player still owes this stage.
    BelowMinimum,
    /// The player does not hold that many chips.
    InsufficientChips,
}

impl Player<Active> {
    /// What this player still owes to match the stage's call threshold,
    /// given what they already committed this stage.
    pub open spec fn owed(&self, pot: Pot) -> int {
        if pot.minimum_bet > self.state.chips_bet_in_stage {
            pot.minimum_bet - self.state.chips_bet_in_stage
        } else {
            0
        }
    }

    pub fn new(id: PlayerId, hand: Hand, chips: u32) -> (p: Player<Active>)
        ensures
            p.id == id,
            p.hand == hand,
            p.chips == chips,
            p.state.chips_bet_in_stage == 0,
    {
        Player { id, hand, chips, state: Active { chips_bet_in_stage: 0 } }
    }

    /// Leave the round; identity, hand and chips carry over.
    pub fn fold(self) -> (p: Player<Folded>)
        ensures
            p == spec_fold(self),
    {
        Player { id: self.id, hand: self.hand, chips: self.chips, state: Folded {  } }
    }

    /// Moves `amount` chips from this player into the pot, raising the call
    /// threshold when the amount exceeds it. The bet is rejected, and
    /// nothing moves, when the amount falls short of what the player still
    /// owes this stage or exceeds their balance.
    pub fn bet(&mut self, amount: u32, pot: &mut Pot) -> (r: Result<(), BetError>)
        requires
            old(self).chips + old(pot).chips <= u32::MAX,
            old(self).state.chips_bet_in_stage + old(self).chips <= u32::MAX,
        ensures
            r is Ok <==> old(self).owed(*old(pot)) <= amount <= old(self).chips,
            amount < old(self).owed(*old(pot)) ==> r == Err::<(), BetError>(BetError::BelowMinimum),
            old(self).owed(*old(pot)) <= amount && old(self).chips < amount ==> r == Err::<
                (),
                BetError,
            >(BetError::InsufficientChips),
            r is Err ==> *final(self) == *old(self) && *final(pot) == *old(pot),
            r is Ok ==> {
                &&& final(self).id == old(self).id
                &&& final(self).hand == old(self).hand
                &&& final(self).chips == old(self).chips - amount
                &&& final(self).state.chips_bet_in_stage == old(self).state.chips_bet_in_stage
                    + amount
                &&& final(pot).chips == old(pot).chips + amount
                &&& final(pot).minimum_bet == (if amount > old(pot).minimum_bet {
                    amount
                } else {
                    old(pot).minimum_bet
                })
            },
    {
        let owed = if pot.minimum_bet > self.state.chips_bet_in_stage {
            pot.minimum_bet - self.state.chips_bet_in_stage
        } else {
            0
        };
        if amount < owed {
            return Err(BetError::BelowMinimum);
        }
        if self.chips < amount {
            return Err(BetError::InsufficientChips);
        }
        if amount > pot.minimum_bet {
            pot.minimum_bet = amount;
        }
        self.chips = self.chips - amount;
        self.state.chips_bet_in_stage = self.state.chips_bet_in_stage + amount;
        pot.chips = pot.chips + amount;
        Ok(())
    }
}

impl Player<Folded> {
    pub fn new(id: PlayerId, hand: Hand, chips: u32) -> (p: Player<Folded>)
        ensures
            p.id == id,
            p.hand == hand,
            p.chips == chips,
    {
        Player { id, hand, chips, state: Folded {  } }
    }

    /// Rejoin for a new round with a fresh hand; identity and chips carry
    /// over, and nothing is owed yet.
    pub fn deal_in(self, hand: Hand) -> (p: Player<Active>)
        ensures
            p == spec_deal_in(self, hand),
    {
        Player { id: self.id, hand, chips: self.chips, state: Active { chips_bet_in_stage: 0 } }
    }
}

} // verus!
