//! Turns: the order in which the characters act, and the controller that
//! says whose turn it is and what the acting character may do.

use crate::combat::{acts_first, initiative_of};
use crate::roster::{Character, Roster};
use vstd::prelude::*;

verus! {

/// Whether a character takes part in combat: it does once it has an
/// initiative.
pub open spec fn takes_part(character: Character) -> bool {
    character.initiative is Some
}

/// Whether the character at place `a` acts before the one at place `b`:
/// the higher initiative goes first, and of two with the same initiative
/// the one that comes first in the roster.
pub open spec fn precedes(characters: Seq<Character>, a: int, b: int) -> bool {
    initiative_of(characters[a]) > initiative_of(characters[b]) || (initiative_of(characters[a])
        == initiative_of(characters[b]) && a < b)
}

/// `order` is the turn order of the characters: it holds the place of
/// every character that takes part, and of no other, and each acts before
/// all that follow it.
pub open spec fn is_turn_order(characters: Seq<Character>, order: Seq<usize>) -> bool {
    &&& forall|p: int|
        0 <= p < order.len() ==> (#[trigger] order[p]) < characters.len() && takes_part(
            characters[order[p] as int],
        )
    &&& forall|who: int|
        0 <= who < characters.len() && takes_part(#[trigger] characters[who]) ==> exists|p: int|
            0 <= p < order.len() && #[trigger] order[p] == who
    &&& forall|p: int, q: int|
        0 <= p < q < order.len() ==> precedes(
            characters,
            (#[trigger] order[p]) as int,
            (#[trigger] order[q]) as int,
        )
}

/// The turn order of a roster.
pub fn turn_order(roster: &Roster) -> (order: Vec<usize>)
    ensures
        is_turn_order(roster@, order@),
{
    let mut order: Vec<usize> = Vec::new();
    let mut i: usize = 0;
    while i < roster.characters.len()
        invariant
            i <= roster@.len(),
            forall|p: int|
                0 <= p < order@.len() ==> (#[trigger] order@[p]) < i && takes_part(
                    roster@[order@[p] as int],
                ),
            forall|who: int|
                0 <= who < i && takes_part(#[trigger] roster@[who]) ==> exists|p: int|
                    0 <= p < order@.len() && #[trigger] order@[p] == who,
            forall|p: int, q: int|
                0 <= p < q < order@.len() ==> precedes(
                    roster@,
                    (#[trigger] order@[p]) as int,
                    (#[trigger] order@[q]) as int,
                ),
        decreases roster@.len() - i,
    {
        let value = match &roster.characters[i].initiative {
            Some(initiative) => Some(initiative.value),
            None => None,
        };
        if let Some(value) = value {
            let mut at: usize = 0;
            while at < order.len() && held(roster, order[at]) >= value
                invariant
                    at <= order@.len(),
                    i < roster@.len(),
                    forall|p: int| 0 <= p < order@.len() ==> (#[trigger] order@[p]) < i,
                    forall|p: int|
                        0 <= p < at ==> initiative_of(roster@[(#[trigger] order@[p]) as int])
                            >= value,
                decreases order@.len() - at,
            {
                at += 1;
            }
            let ghost before = order@;
            order.insert(at, i);
            proof {
                assert forall|who: int|
                    0 <= who < i + 1 && takes_part(#[trigger] roster@[who]) implies exists|p: int|
                    0 <= p < order@.len() && #[trigger] order@[p] == who by {
                    if who == i {
                        assert(order@[at as int] == who);
                    } else {
                        let p = choose|p: int| 0 <= p < before.len() && #[trigger] before[p] == who;
                        if p < at {
                            assert(order@[p] == who);
                        } else {
                            assert(order@[p + 1] == who);
                        }
                    }
                }
                assert forall|p: int, q: int| 0 <= p < q < order@.len() implies precedes(
                    roster@,
                    (#[trigger] order@[p]) as int,
                    (#[trigger] order@[q]) as int,
                ) by {
                    if q < at {
                        assert(order@[p] == before[p] && order@[q] == before[q]);
                    } else if q == at {
                        assert(order@[p] == before[p]);
                    } else if p == at {
                        assert(order@[q] == before[q - 1]);
                        if at < q - 1 {
                            assert(precedes(roster@, before[at as int] as int, before[q - 1] as int));
                        }
                    } else if p < at {
                        assert(order@[p] == before[p] && order@[q] == before[q - 1]);
                    } else {
                        assert(order@[p] == before[p - 1] && order@[q] == before[q - 1]);
                    }
                }
            }
        }
        i += 1;
    }
    order
}

/// The initiative that the character at a place holds, zero if it has none
/// or if there is no such place.
fn held(roster: &Roster, who: usize) -> (value: u8)
    ensures
        who < roster@.len() ==> value == initiative_of(roster@[who as int]),
{
    if who < roster.characters.len() {
        match &roster.characters[who].initiative {
            Some(initiative) => initiative.value,
            None => 0,
        }
    } else {
        0
    }
}

/// Where the head of the turn order has an initiative above zero, it is
/// the character that acts first: of those with the highest initiative, the
/// first in the roster.
pub proof fn lemma_head_acts_first(characters: Seq<Character>, order: Seq<usize>)
    requires
        is_turn_order(characters, order),
        order.len() > 0,
        initiative_of(characters[order[0] as int]) > 0,
    ensures
        acts_first(characters, order[0] as int),
{
    let head = order[0] as int;
    assert forall|j: int| 0 <= j < characters.len() implies initiative_of(#[trigger] characters[j])
        <= initiative_of(characters[head]) && (j < head ==> initiative_of(characters[j])
        < initiative_of(characters[head])) by {
        if takes_part(characters[j]) {
            let q = choose|q: int| 0 <= q < order.len() && #[trigger] order[q] == j;
            if q > 0 {
                assert(precedes(characters, order[0] as int, order[q] as int));
            }
        }
    }
}

/// In a turn order no character comes twice.
pub proof fn lemma_order_has_no_repeats(characters: Seq<Character>, order: Seq<usize>, p: int, q: int)
    requires
        is_turn_order(characters, order),
        0 <= p < order.len(),
        0 <= q < order.len(),
        order[p] == order[q],
    ensures
        p == q,
{
    if p < q {
        assert(precedes(characters, order[p] as int, order[q] as int));
    } else if q < p {
        assert(precedes(characters, order[q] as int, order[p] as int));
    }
}

/// Each place acts before all that follow it.
pub open spec fn is_ranked(characters: Seq<Character>, order: Seq<usize>) -> bool {
    forall|p: int, q: int|
        0 <= p < q < order.len() ==> precedes(
            characters,
            (#[trigger] order[p]) as int,
            (#[trigger] order[q]) as int,
        )
}

/// Two ranked sequences of the same places are the same sequence.
proof fn lemma_ranked_alike(characters: Seq<Character>, a: Seq<usize>, b: Seq<usize>)
    requires
        is_ranked(characters, a),
        is_ranked(characters, b),
        forall|x: usize| a.contains(x) <==> b.contains(x),
    ensures
        a == b,
    decreases a.len(),
{
    if a.len() == 0 {
        if b.len() > 0 {
            assert(b.contains(b[0]));
            assert(a.contains(b[0]));
        }
        assert(a =~= b);
    } else {
        assert(a.contains(a[0]));
        assert(b.contains(a[0]));
        let q = choose|q: int| 0 <= q < b.len() && b[q] == a[0];
        assert(b.contains(b[0]));
        assert(a.contains(b[0]));
        let p = choose|p: int| 0 <= p < a.len() && a[p] == b[0];
        if q > 0 {
            assert(precedes(characters, b[0] as int, b[q] as int));
            if p > 0 {
                assert(precedes(characters, a[0] as int, a[p] as int));
            }
        }
        assert(a[0] == b[0]);
        let a_rest = a.drop_first();
        let b_rest = b.drop_first();
        assert forall|x: usize| a_rest.contains(x) <==> b_rest.contains(x) by {
            if a_rest.contains(x) {
                let i = choose|i: int| 0 <= i < a_rest.len() && a_rest[i] == x;
                assert(a[i + 1] == x);
                assert(precedes(characters, a[0] as int, a[i + 1] as int));
                assert(a.contains(x));
                assert(b.contains(x));
                let j = choose|j: int| 0 <= j < b.len() && b[j] == x;
                assert(b_rest[j - 1] == x);
            }
            if b_rest.contains(x) {
                let i = choose|i: int| 0 <= i < b_rest.len() && b_rest[i] == x;
                assert(b[i + 1] == x);
                assert(precedes(characters, b[0] as int, b[i + 1] as int));
                assert(b.contains(x));
                assert(a.contains(x));
                let j = choose|j: int| 0 <= j < a.len() && a[j] == x;
                assert(a_rest[j - 1] == x);
            }
        }
        assert forall|p: int, q: int| 0 <= p < q < a_rest.len() implies precedes(
            characters,
            (#[trigger] a_rest[p]) as int,
            (#[trigger] a_rest[q]) as int,
        ) by {
            assert(precedes(characters, a[p + 1] as int, a[q + 1] as int));
        }
        assert forall|p: int, q: int| 0 <= p < q < b_rest.len() implies precedes(
            characters,
            (#[trigger] b_rest[p]) as int,
            (#[trigger] b_rest[q]) as int,
        ) by {
            assert(precedes(characters, b[p + 1] as int, b[q + 1] as int));
        }
        lemma_ranked_alike(characters, a_rest, b_rest);
        assert(a =~= seq![a[0]] + a_rest);
        assert(b =~= seq![b[0]] + b_rest);
    }
}

/// A roster has one turn order and no other.
pub proof fn lemma_turn_order_is_unique(characters: Seq<Character>, a: Seq<usize>, b: Seq<usize>)
    requires
        is_turn_order(characters, a),
        is_turn_order(characters, b),
    ensures
        a == b,
{
    assert forall|x: usize| a.contains(x) <==> b.contains(x) by {
        if a.contains(x) {
            let i = choose|i: int| 0 <= i < a.len() && a[i] == x;
            assert(takes_part(characters[a[i] as int]));
            let j = choose|j: int| 0 <= j < b.len() && #[trigger] b[j] == x as int;
            assert(b[j] == x);
        }
        if b.contains(x) {
            let i = choose|i: int| 0 <= i < b.len() && b[i] == x;
            assert(takes_part(characters[b[i] as int]));
            let j = choose|j: int| 0 <= j < a.len() && #[trigger] a[j] == x as int;
            assert(a[j] == x);
        }
    }
    lemma_ranked_alike(characters, a, b);
}

/// What the acting character can be told to do.
#[derive(Debug, Clone, Copy, PartialEq, Eq, Hash, Structural)]
pub enum Action {
    Move,
    ExtraMove,
    Attack,
    Switch,
    GetUp,
    EndTurn,
}

/// Where the turn loop stands.
#[derive(Debug, Clone, Copy, PartialEq, Eq, Structural)]
pub enum TurnState {
    /// Combat is being set up, and nobody acts yet.
    Setup,
    /// It is the turn of the character at this place of the roster.
    ActorTurn(usize),
    /// Combat is over.
    Ended,
}

/// The place in the order that has the turn after `turns` more turns. The
/// order wraps around.
pub open spec fn cursor_after(cursor: int, turns: int, len: int) -> int {
    (cursor + turns) % len
}

/// The turn loop of one combat.
#[derive(Debug)]
pub struct TurnController {
    /// The places of the characters that take part, in the order in which
    /// they act.
    pub order: Vec<usize>,
    /// The place in `order` of the character whose turn it is.
    pub cursor: usize,
    pub state: TurnState,
}

impl TurnController {
    /// While somebody acts, it is the character under the cursor.
    pub open spec fn wf(&self) -> bool {
        self.state matches TurnState::ActorTurn(actor) ==> self.cursor < self.order@.len()
            && self.order@[self.cursor as int] == actor
    }

    /// Whether an action is open to the acting character. While somebody
    /// acts, that is to move and to end the turn; otherwise nothing.
    pub open spec fn enabled(&self, action: Action) -> bool {
        self.state is ActorTurn && (action == Action::Move || action == Action::EndTurn)
    }

    /// The place in the order that has the turn next: the one after the
    /// cursor, and the first where the cursor stands at the end.
    pub open spec fn next_cursor(&self) -> int {
        if self.cursor + 1 < self.order@.len() {
            self.cursor + 1
        } else {
            0
        }
    }

    /// The controller once the acting character has ended its turn.
    pub open spec fn turn_ended(&self) -> (TurnState, int) {
        if self.state is ActorTurn && self.order@.len() > 0 {
            (TurnState::ActorTurn(self.order@[self.next_cursor()]), self.next_cursor())
        } else {
            (self.state, self.cursor as int)
        }
    }

    /// A controller for a combat that is still being set up.
    pub fn new() -> (controller: Self)
        ensures
            controller.state == TurnState::Setup,
            controller.order@.len() == 0,
            controller.cursor == 0,
            controller.wf(),
    {
        TurnController { order: Vec::new(), cursor: 0, state: TurnState::Setup }
    }

    /// Ends the setup: works out the turn order and gives the first turn to
    /// the character that heads it. Where nobody has an initiative above
    /// zero, nobody is given the turn and the setup goes on. A controller
    /// that has left the setup is not changed.
    pub fn start(&mut self, roster: &Roster)
        ensures
            old(self).wf() ==> final(self).wf(),
            old(self).state != TurnState::Setup ==> *final(self) == *old(self),
            old(self).state == TurnState::Setup ==> {
                &&& is_turn_order(roster@, final(self).order@)
                &&& final(self).cursor == 0
                &&& match final(self).state {
                    TurnState::ActorTurn(actor) => acts_first(roster@, actor as int),
                    TurnState::Setup => forall|j: int|
                        0 <= j < roster@.len() ==> initiative_of(#[trigger] roster@[j]) == 0,
                    TurnState::Ended => false,
                }
            },
    {
        match self.state {
            TurnState::Setup => {
                let order = turn_order(roster);
                let leads = order.len() > 0 && held(roster, order[0]) > 0;
                proof {
                    if leads {
                        lemma_head_acts_first(roster@, order@);
                    } else {
                        assert forall|j: int| 0 <= j < roster@.len() implies initiative_of(
                            #[trigger] roster@[j],
                        ) == 0 by {
                            if takes_part(roster@[j]) {
                                let q = choose|q: int|
                                    0 <= q < order@.len() && #[trigger] order@[q] == j;
                                if q > 0 {
                                    assert(precedes(roster@, order@[0] as int, order@[q] as int));
                                }
                            }
                        }
                    }
                }
                self.state = if leads {
                    TurnState::ActorTurn(order[0])
                } else {
                    TurnState::Setup
                };
                self.cursor = 0;
                self.order = order;
            },
            _ => {},
        }
    }

    /// The character whose turn it is.
    pub fn current_actor(&self) -> (actor: Option<usize>)
        ensures
            actor == match self.state {
                TurnState::ActorTurn(actor) => Some(actor),
                _ => None::<usize>,
            },
    {
        match self.state {
            TurnState::ActorTurn(actor) => Some(actor),
            _ => None,
        }
    }

    pub fn is_enabled(&self, action: Action) -> (enabled: bool)
        ensures
            enabled == self.enabled(action),
    {
        match self.state {
            TurnState::ActorTurn(_) => match action {
                Action::Move => true,
                Action::EndTurn => true,
                _ => false,
            },
            _ => false,
        }
    }

    /// Ends the turn of the acting character and gives the turn to the next
    /// in the order, and after the last to the first again. While nobody
    /// acts, nothing changes.
    pub fn end_turn(&mut self)
        ensures
            old(self).wf() ==> final(self).wf(),
            final(self).order == old(self).order,
            final(self).state == old(self).turn_ended().0,
            final(self).cursor == old(self).turn_ended().1,
    {
        let len = self.order.len();
        match self.state {
            TurnState::ActorTurn(_) => {
                if len > 0 {
                    let next = if self.cursor < len - 1 {
                        self.cursor + 1
                    } else {
                        0
                    };
                    self.cursor = next;
                    self.state = TurnState::ActorTurn(self.order[next]);
                }
            },
            _ => {},
        }
    }

    /// Takes an action of the acting character. An action that is not open
    /// is refused and changes nothing. To end the turn gives the turn to
    /// the next character; to move changes nothing of the turn loop.
    pub fn press(&mut self, action: Action) -> (accepted: bool)
        ensures
            old(self).wf() ==> final(self).wf(),
            accepted == old(self).enabled(action),
            final(self).order == old(self).order,
            accepted && action == Action::EndTurn ==> final(self).state == old(self).turn_ended().0
                && final(self).cursor == old(self).turn_ended().1,
            !(accepted && action == Action::EndTurn) ==> final(self).state == old(self).state
                && final(self).cursor == old(self).cursor,
    {
        if !self.is_enabled(action) {
            return false;
        }
        match action {
            Action::EndTurn => {
                self.end_turn();
            },
            _ => {},
        }
        true
    }

    /// Ends the combat, whoever's turn it is.
    pub fn finish(&mut self)
        ensures
            final(self).state == TurnState::Ended,
            final(self).order == old(self).order,
            final(self).cursor == old(self).cursor,
            final(self).wf(),
    {
        self.state = TurnState::Ended;
    }
}

/// The portrait of the character whose turn it is, by its place in the
/// atlas; none while nobody acts.
pub fn show_initiative(turn: &TurnController, roster: &Roster) -> (portrait: Option<usize>)
    ensures
        portrait == match turn.state {
            TurnState::ActorTurn(actor) => if actor < roster@.len() {
                Some(roster@[actor as int].portrait.index)
            } else {
                None
            },
            _ => None,
        },
{
    match turn.state {
        TurnState::ActorTurn(actor) => match roster.get(actor) {
            Some(character) => Some(character.portrait.index),
            None => None,
        },
        _ => None,
    }
}

/// For a controller that is well formed, the place that has the turn next
/// is the one that a single turn leads to.
pub proof fn lemma_next_is_one_turn(controller: TurnController)
    requires
        controller.wf(),
        controller.state is ActorTurn,
    ensures
        controller.next_cursor() == cursor_after(
            controller.cursor as int,
            1,
            controller.order@.len() as int,
        ),
{
    let len = controller.order@.len() as int;
    if controller.cursor + 1 < len {
        vstd::arithmetic::div_mod::lemma_small_mod((controller.cursor + 1) as nat, len as nat);
    } else {
        vstd::arithmetic::div_mod::lemma_mod_self_0(len);
    }
}

/// The turn passes down the order one place at a time: after `a` turns and
/// then `b` more, the cursor stands where it stands after `a + b` turns.
pub proof fn lemma_turns_add_up(cursor: int, a: int, b: int, len: int)
    requires
        0 <= cursor < len,
        0 <= a,
        0 <= b,
    ensures
        cursor_after(cursor_after(cursor, a, len), b, len) == cursor_after(cursor, a + b, len),
        0 <= cursor_after(cursor, a, len) < len,
{
    vstd::arithmetic::div_mod::lemma_add_mod_noop(cursor + a, b, len);
    vstd::arithmetic::div_mod::lemma_add_mod_noop((cursor + a) % len, b, len);
    vstd::arithmetic::div_mod::lemma_mod_twice(cursor + a, len);
}

/// The order wraps: after as many turns as there are characters in it, the
/// turn is back where it was.
pub proof fn lemma_full_round(cursor: int, len: int)
    requires
        0 <= cursor < len,
    ensures
        cursor_after(cursor, len, len) == cursor,
{
    vstd::arithmetic::div_mod::lemma_mod_add_multiples_vanish(cursor, len);
    vstd::arithmetic::div_mod::lemma_small_mod(cursor as nat, len as nat);
}

/// Within one round every place of the order has the turn, each at its own
/// time: two different numbers of turns, both less than a round, lead to
/// different places.
pub proof fn lemma_round_visits_all(cursor: int, a: int, b: int, len: int)
    requires
        0 <= cursor < len,
        0 <= a < b < len,
    ensures
        cursor_after(cursor, a, len) != cursor_after(cursor, b, len),
{
    let x = cursor + a;
    let y = cursor + b;
    if x < len {
        vstd::arithmetic::div_mod::lemma_small_mod(x as nat, len as nat);
    } else {
        vstd::arithmetic::div_mod::lemma_mod_add_multiples_vanish(x - len, len);
        vstd::arithmetic::div_mod::lemma_small_mod((x - len) as nat, len as nat);
    }
    if y < len {
        vstd::arithmetic::div_mod::lemma_small_mod(y as nat, len as nat);
    } else {
        vstd::arithmetic::div_mod::lemma_mod_add_multiples_vanish(y - len, len);
        vstd::arithmetic::div_mod::lemma_small_mod((y - len) as nat, len as nat);
    }
}

} // verus!
