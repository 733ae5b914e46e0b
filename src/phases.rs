use vstd::prelude::*;

use crate::card::{is_corporation, Card, CardType};
use crate::chain::reverts_all;
use crate::commands::{
    pile_size, reverts, undone, Applied, CannotExecute, DrawCards, Guard, ResourceKind,
};
use crate::conservation::{all_cards, lemma_draw_conserves_cards, lemma_holdings_kept};
use crate::game_state::{GameState, GameStateView, Phase};
use crate::player::{ActionState, Inventory, PlayerView};

verus! {

/// Undoing `b` and then `a` takes `fin` back through `mid` to `start`.
pub proof fn lemma_reverts_concat(
    a: Seq<Applied>,
    b: Seq<Applied>,
    start: GameStateView,
    mid: GameStateView,
    fin: GameStateView,
)
    requires
        reverts_all(a, mid, start),
        reverts_all(b, fin, mid),
    ensures
        reverts_all(a + b, fin, start),
    decreases b.len(),
{
    if b.len() == 0 {
        assert(a + b =~= a);
    } else {
        let u = undone(b.last(), fin);
        lemma_reverts_concat(a, b.drop_last(), start, mid, u);
        assert((a + b).drop_last() =~= a + b.drop_last());
        assert((a + b).last() == b.last());
    }
}

/// Where dealt cards go: the hand for corporations, the research queue for projects.
pub open spec fn destination(p: PlayerView, corporation: bool) -> Seq<usize> {
    if corporation {
        p.hand
    } else {
        p.research_queue
    }
}

pub open spec fn with_destination(p: PlayerView, corporation: bool, d: Seq<usize>) -> PlayerView {
    if corporation {
        PlayerView { hand: d, ..p }
    } else {
        PlayerView { research_queue: d, ..p }
    }
}

/// `after` differs from `before` at most in its players and in the
/// corporation pile, or the project pile.
pub open spec fn only_dealt(before: GameStateView, after: GameStateView, corporation: bool) -> bool {
    if corporation {
        after == GameStateView {
            players: after.players,
            corporation_draw: after.corporation_draw,
            corporation_discard: after.corporation_discard,
            ..before
        }
    } else {
        after == GameStateView {
            players: after.players,
            project_draw: after.project_draw,
            project_discard: after.project_discard,
            ..before
        }
    }
}

/// Every player of `before` received `count` more cards at the destination
/// and nothing else changed for them.
pub open spec fn each_dealt(before: GameStateView, after: GameStateView, count: nat, corporation: bool) -> bool {
    &&& after.players.len() == before.players.len()
    &&& forall|j: int|
        0 <= j < before.players.len() ==> {
            let p = before.players[j];
            let q = #[trigger] after.players[j];
            &&& q == with_destination(p, corporation, destination(q, corporation))
            &&& destination(q, corporation).len() == destination(p, corporation).len() + count
            &&& destination(q, corporation).take(destination(p, corporation).len() as int)
                == destination(p, corporation)
        }
}

/// Draws `count` cards for every player in seat order, as one unit.
pub fn deal_each(state: &mut GameState, count: usize, corporation: bool) -> (r: Result<Vec<Applied>, CannotExecute>)
    ensures
        r is Err <==> pile_size(old(state)@, corporation) < count * old(state)@.players.len(),
        r is Err ==> r == Err::<Vec<Applied>, CannotExecute>(CannotExecute::DeckExhausted)
            && final(state)@ == old(state)@,
        all_cards(final(state)@) == all_cards(old(state)@),
        r is Ok ==> reverts_all(r->Ok_0@, final(state)@, old(state)@) && each_dealt(
            old(state)@,
            final(state)@,
            count as nat,
            corporation,
        ) && only_dealt(old(state)@, final(state)@, corporation) && pile_size(final(state)@, corporation)
            + count * old(state)@.players.len() == pile_size(old(state)@, corporation),
{
    let ghost s0 = state@;
    let n = state.players.len();
    let mut recs: Vec<Applied> = Vec::new();
    let mut i: usize = 0;
    let card_type = if corporation {
        CardType::Corporation
    } else {
        CardType::Project
    };
    while i < n
        invariant
            i <= n == s0.players.len(),
            s0 == old(state)@,
            card_type == CardType::Corporation <==> corporation,
            all_cards(state@) == all_cards(s0),
            reverts_all(recs@, state@, s0),
            only_dealt(s0, state@, corporation),
            state@.players.len() == n,
            pile_size(state@, corporation) + count * i == pile_size(s0, corporation),
            forall|j: int| i <= j < n ==> #[trigger] state@.players[j] == s0.players[j],
            forall|j: int|
                0 <= j < i ==> {
                    let p = s0.players[j];
                    let q = #[trigger] state@.players[j];
                    &&& q == with_destination(p, corporation, destination(q, corporation))
                    &&& destination(q, corporation).len() == destination(p, corporation).len() + count
                    &&& destination(q, corporation).take(destination(p, corporation).len() as int)
                        == destination(p, corporation)
                },
        decreases n - i,
    {
        let ghost mid = state@;
        let cmd = DrawCards { player_id: i, count, card_type };
        match cmd.apply(state) {
            Ok(a) => {
                let ghost prev = recs@;
                recs.push(a);
                proof {
                    assert(recs@.drop_last() == prev);
                    assert(count * (i + 1) == count * i + count) by (nonlinear_arith);
                    lemma_draw_conserves_cards(mid, state@, i, count, corporation);
                }
            },
            Err(e) => {
                proof {
                    assert(count * i + count <= count * n) by (nonlinear_arith)
                        requires
                            i < n,
                    ;
                }
                crate::chain::rollback(state, recs);
                return Err(e);
            },
        }
        i = i + 1;
    }
    Ok(recs)
}

/// A player's inventory after production: megacredits grow by their
/// production plus the terraform rating, steel, titanium and plants by their
/// production; the energy held turns into heat and energy is refilled to its
/// production; heat grows by its production too.
pub open spec fn produced(p: PlayerView, player: usize) -> Result<Inventory, CannotExecute> {
    let inv = p.inventory;
    let pr = p.production;
    let mc = inv.megacredits + pr.megacredits + p.tf_rating;
    if mc < 0 {
        Err(
            CannotExecute::InsufficientResource {
                player,
                resource: ResourceKind::MegaCredits,
                needed: (-(pr.megacredits + p.tf_rating)) as i64,
                available: inv.megacredits as i64,
            },
        )
    } else if mc > u32::MAX {
        Err(CannotExecute::ResourceOverflow { player, resource: ResourceKind::MegaCredits })
    } else if inv.steel + pr.steel > u32::MAX {
        Err(CannotExecute::ResourceOverflow { player, resource: ResourceKind::Steel })
    } else if inv.titanium + pr.titanium > u32::MAX {
        Err(CannotExecute::ResourceOverflow { player, resource: ResourceKind::Titanium })
    } else if inv.plants + pr.plants > u32::MAX {
        Err(CannotExecute::ResourceOverflow { player, resource: ResourceKind::Plants })
    } else if inv.heat + pr.heat + inv.energy > u32::MAX {
        Err(CannotExecute::ResourceOverflow { player, resource: ResourceKind::Heat })
    } else {
        Ok(
            Inventory {
                megacredits: mc as u32,
                steel: (inv.steel + pr.steel) as u32,
                titanium: (inv.titanium + pr.titanium) as u32,
                plants: (inv.plants + pr.plants) as u32,
                energy: pr.energy,
                heat: (inv.heat + pr.heat + inv.energy) as u32,
            },
        )
    }
}

/// The first production failure among the first `k` players.
pub open spec fn production_error(players: Seq<PlayerView>, k: int) -> Option<CannotExecute>
    decreases k,
{
    if k <= 0 {
        None
    } else {
        match production_error(players, k - 1) {
            Some(e) => Some(e),
            None => match produced(players[k - 1], (k - 1) as usize) {
                Err(e) => Some(e),
                Ok(_) => None,
            },
        }
    }
}

fn produce(state: &GameState, i: usize) -> (r: Result<Inventory, CannotExecute>)
    requires
        i < state@.players.len(),
    ensures
        r == produced(state@.players[i as int], i),
{
    let p = &state.players[i];
    let inv = p.inventory;
    let pr = p.production;
    let mc: i64 = inv.megacredits as i64 + pr.megacredits as i64 + p.tf_rating as i64;
    if mc < 0 {
        return Err(
            CannotExecute::InsufficientResource {
                player: i,
                resource: ResourceKind::MegaCredits,
                needed: -(pr.megacredits as i64 + p.tf_rating as i64),
                available: inv.megacredits as i64,
            },
        );
    }
    if mc > u32::MAX as i64 {
        return Err(CannotExecute::ResourceOverflow { player: i, resource: ResourceKind::MegaCredits });
    }
    let steel: u64 = inv.steel as u64 + pr.steel as u64;
    if steel > u32::MAX as u64 {
        return Err(CannotExecute::ResourceOverflow { player: i, resource: ResourceKind::Steel });
    }
    let titanium: u64 = inv.titanium as u64 + pr.titanium as u64;
    if titanium > u32::MAX as u64 {
        return Err(CannotExecute::ResourceOverflow { player: i, resource: ResourceKind::Titanium });
    }
    let plants: u64 = inv.plants as u64 + pr.plants as u64;
    if plants > u32::MAX as u64 {
        return Err(CannotExecute::ResourceOverflow { player: i, resource: ResourceKind::Plants });
    }
    let heat: u64 = inv.heat as u64 + pr.heat as u64 + inv.energy as u64;
    if heat > u32::MAX as u64 {
        return Err(CannotExecute::ResourceOverflow { player: i, resource: ResourceKind::Heat });
    }
    Ok(
        Inventory {
            megacredits: mc as u32,
            steel: steel as u32,
            titanium: titanium as u32,
            plants: plants as u32,
            energy: pr.energy,
            heat: heat as u32,
        },
    )
}

/// Runs production for every player as one unit.
pub fn produce_all(state: &mut GameState) -> (r: Result<Vec<Applied>, CannotExecute>)
    ensures
        r is Err <==> production_error(old(state)@.players, old(state)@.players.len() as int) is Some,
        r is Err ==> r == Err::<Vec<Applied>, CannotExecute>(
            production_error(old(state)@.players, old(state)@.players.len() as int)->Some_0,
        ) && final(state)@ == old(state)@,
        all_cards(final(state)@) == all_cards(old(state)@),
        r is Ok ==> reverts_all(r->Ok_0@, final(state)@, old(state)@) && final(state)@ == (GameStateView {
            players: final(state)@.players,
            ..old(state)@
        }) && final(state)@.players.len() == old(state)@.players.len() && forall|j: int|
            0 <= j < old(state)@.players.len() ==> #[trigger] final(state)@.players[j] == (PlayerView {
                inventory: produced(old(state)@.players[j], j as usize)->Ok_0,
                ..old(state)@.players[j]
            }),
{
    let ghost s0 = state@;
    let n = state.players.len();
    let mut recs: Vec<Applied> = Vec::new();
    let mut i: usize = 0;
    while i < n
        invariant
            i <= n == s0.players.len(),
            s0 == old(state)@,
            reverts_all(recs@, state@, s0),
            all_cards(state@) == all_cards(s0),
            state@ == (GameStateView { players: state@.players, ..s0 }),
            state@.players.len() == n,
            production_error(s0.players, i as int) is None,
            forall|j: int| i <= j < n ==> #[trigger] state@.players[j] == s0.players[j],
            forall|j: int|
                0 <= j < i ==> produced(s0.players[j], j as usize) is Ok && #[trigger] state@.players[j]
                    == (PlayerView { inventory: produced(s0.players[j], j as usize)->Ok_0, ..s0.players[j] }),
        decreases n - i,
    {
        match produce(state, i) {
            Ok(inv) => {
                let before = state.players[i].inventory;
                let ghost prev = recs@;
                let ghost mid = state@;
                state.players[i].inventory = inv;
                let a = Applied::Stock { player: i, before };
                proof {
                    assert(state@.players =~= mid.players.update(
                        i as int,
                        PlayerView { inventory: inv, ..mid.players[i as int] },
                    ));
                    assert(undone(a, state@).players =~= mid.players);
                    lemma_holdings_kept(mid, state@, i as int);
                }
                recs.push(a);
                assert(recs@.drop_last() == prev);
            },
            Err(e) => {
                proof {
                    let k = i as int + 1;
                    assert(production_error(s0.players, k) == Some(e));
                    lemma_production_error_stays(s0.players, k, n as int);
                }
                crate::chain::rollback(state, recs);
                return Err(e);
            },
        }
        i = i + 1;
    }
    Ok(recs)
}

proof fn lemma_production_error_stays(players: Seq<PlayerView>, k: int, m: int)
    requires
        0 <= k <= m,
        production_error(players, k) is Some,
    ensures
        production_error(players, m) == production_error(players, k),
    decreases m - k,
{
    if k < m {
        lemma_production_error_stays(players, k, m - 1);
    }
}

/// Sets the turn order fields and one seat's action state, returning the
/// record that restores them.
pub fn set_turn(
    state: &mut GameState,
    phase: Phase,
    generation: u32,
    start_player: usize,
    active_player: usize,
    seat: usize,
    action_state: ActionState,
) -> (r: Applied)
    requires
        seat < old(state)@.players.len(),
    ensures
        reverts(r, final(state)@, old(state)@),
        all_cards(final(state)@) == all_cards(old(state)@),
        final(state)@ == (GameStateView {
            phase,
            generation,
            start_player,
            active_player,
            ..old(state)@.with_player(
                seat as int,
                PlayerView { action_state, ..old(state)@.players[seat as int] },
            )
        }),
{
    let ghost s0 = state@;
    let r = Applied::Turn {
        phase: state.phase,
        generation: state.generation,
        start_player: state.start_player,
        active_player: state.active_player,
        seat,
        action_state: state.players[seat].action_state,
    };
    state.phase = phase;
    state.generation = generation;
    state.start_player = start_player;
    state.active_player = active_player;
    state.players[seat].action_state = action_state;
    proof {
        assert(state@.players =~= s0.with_player(
            seat as int,
            PlayerView { action_state, ..s0.players[seat as int] },
        ).players);
        assert(undone(r, state@).players =~= s0.players);
        lemma_holdings_kept(s0, state@, seat as int);
    }
    r
}

/// The first condition for entering the action phase that `s` fails: every
/// player has chosen a corporation, holds no corporation card and has an
/// empty research queue.
pub open spec fn guard_failure(s: GameStateView, catalog: Seq<Card>) -> Option<Guard> {
    if exists|j: int| 0 <= j < s.players.len() && (#[trigger] s.players[j]).corporation is None {
        Some(Guard::CorporationNotChosen)
    } else if exists|j: int, k: int|
        0 <= j < s.players.len() && 0 <= k < s.players[j].hand.len() && is_corporation(
            catalog,
            #[trigger] s.players[j].hand[k],
        ) {
        Some(Guard::CorporationInHand)
    } else if exists|j: int| 0 <= j < s.players.len() && (#[trigger] s.players[j]).research_queue.len() > 0 {
        Some(Guard::ResearchPending)
    } else {
        None
    }
}

fn holds_corporation(hand: &Vec<usize>, catalog: &Vec<Card>) -> (r: bool)
    ensures
        r == exists|k: int| 0 <= k < hand@.len() && is_corporation(catalog@, #[trigger] hand@[k]),
{
    let mut k: usize = 0;
    while k < hand.len()
        invariant
            k <= hand@.len(),
            forall|m: int| 0 <= m < k ==> !is_corporation(catalog@, #[trigger] hand@[m]),
        decreases hand.len() - k,
    {
        let c = hand[k];
        if c < catalog.len() && catalog[c].card_type == CardType::Corporation {
            assert(is_corporation(catalog@, hand@[k as int]));
            return true;
        }
        k = k + 1;
    }
    false
}

/// Checks the conditions for entering the action phase.
pub fn check_guards(state: &GameState, catalog: &Vec<Card>) -> (r: Option<Guard>)
    ensures
        r == guard_failure(state@, catalog@),
{
    let n = state.players.len();
    let mut i: usize = 0;
    while i < n
        invariant
            i <= n == state@.players.len(),
            forall|j: int| 0 <= j < i ==> (#[trigger] state@.players[j]).corporation is Some,
        decreases n - i,
    {
        if state.players[i].corporation.is_none() {
            assert(state@.players[i as int].corporation is None);
            return Some(Guard::CorporationNotChosen);
        }
        i = i + 1;
    }
    let mut i: usize = 0;
    while i < n
        invariant
            i <= n == state@.players.len(),
            forall|j: int| 0 <= j < n ==> (#[trigger] state@.players[j]).corporation is Some,
            forall|j: int, k: int|
                0 <= j < i && 0 <= k < state@.players[j].hand.len() ==> !is_corporation(
                    catalog@,
                    #[trigger] state@.players[j].hand[k],
                ),
        decreases n - i,
    {
        if holds_corporation(&state.players[i].hand, catalog) {
            proof {
                let k = choose|k: int|
                    0 <= k < state@.players[i as int].hand.len() && is_corporation(
                        catalog@,
                        #[trigger] state@.players[i as int].hand[k],
                    );
                assert(is_corporation(catalog@, state@.players[i as int].hand[k]));
            }
            return Some(Guard::CorporationInHand);
        }
        i = i + 1;
    }
    let mut i: usize = 0;
    while i < n
        invariant
            i <= n == state@.players.len(),
            forall|j: int| 0 <= j < n ==> (#[trigger] state@.players[j]).corporation is Some,
            forall|j: int, k: int|
                0 <= j < n && 0 <= k < state@.players[j].hand.len() ==> !is_corporation(
                    catalog@,
                    #[trigger] state@.players[j].hand[k],
                ),
            forall|j: int| 0 <= j < i ==> (#[trigger] state@.players[j]).research_queue.len() == 0,
        decreases n - i,
    {
        if state.players[i].research_queue.len() > 0 {
            assert(state@.players[i as int].research_queue.len() > 0);
            return Some(Guard::ResearchPending);
        }
        i = i + 1;
    }
    None
}

} // verus!
