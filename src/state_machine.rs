use vstd::prelude::*;

use crate::card::{find_card, first_named, Card, CardType, Resource};
use crate::chain::{apply_chain, reverts_all, rollback, run_chain, undoable_all, undone_all};
use crate::commands::{
    choose_corporation_spec, dealt_to, discard_research_spec, effect, id_views, mod_production_spec,
    mod_resources_spec, pile_size, play_card_spec, research_spec, undone, unselected,
    unselected_cards, Applied, CannotExecute, CmdWrapper, DiscardResearch, DrawCards, ModProduction,
    ModResources,
};
use crate::conservation::{all_cards, lemma_draw_conserves_cards, no_duplicates};
use crate::game_state::{GameState, GameStateView, Phase};
use crate::phases::{
    check_guards, deal_each, guard_failure, lemma_reverts_concat, produce_all, produced,
    production_error, set_turn,
};
use crate::player::{ActionState, PlayerView};

verus! {

/// Playing a card, or choosing a corporation, applies its resource deltas and
/// then its production deltas after `first` moved the card.
pub open spec fn card_action(first: Result<GameStateView, CannotExecute>, player: usize, card: Card) -> Result<
    GameStateView,
    CannotExecute,
> {
    match first {
        Err(e) => Err(e),
        Ok(t) => match mod_resources_spec(t, player, card.resources@) {
            Err(e) => Err(e),
            Ok(u) => mod_production_spec(u, player, card.production@),
        },
    }
}

/// The identifiers of `cards`, skipping indices outside the catalog.
pub open spec fn ids_of(cards: Seq<usize>, catalog: Seq<Card>) -> Seq<Seq<char>>
    decreases cards.len(),
{
    if cards.len() == 0 {
        Seq::empty()
    } else {
        ids_of(cards.drop_last(), catalog) + if cards.last() < catalog.len() {
            seq![catalog[cards.last() as int].id@]
        } else {
            Seq::empty()
        }
    }
}

/// Researching: the named cards are bought, then every other card of the
/// research queue, as it stood before, is discarded.
pub open spec fn research_action(s: GameStateView, catalog: Seq<Card>, player: usize, ids: Seq<Seq<char>>) -> Result<
    GameStateView,
    CannotExecute,
> {
    if player >= s.players.len() {
        Err(CannotExecute::UnknownPlayer { player })
    } else {
        match research_spec(s, catalog, player, ids) {
            Err(e) => Err(e),
            Ok(t) => discard_research_spec(
                t,
                catalog,
                player,
                ids_of(unselected(s.players[player as int].research_queue, catalog, ids), catalog),
            ),
        }
    }
}

/// The result of a player's command as the state machine runs it: a card
/// played or a corporation chosen carries its deltas along, a research
/// discards the rest of the queue, and any other command runs alone.
pub open spec fn action_spec(cmd: CmdWrapper, s: GameStateView, catalog: Seq<Card>) -> Option<
    Result<GameStateView, CannotExecute>,
> {
    match cmd {
        CmdWrapper::PlayCard(c) => Some(
            match first_named(catalog, c.card_id@) {
                None => Err(CannotExecute::CardNotFound { player: c.owner_id }),
                Some(k) => card_action(
                    play_card_spec(s, catalog, c.owner_id, c.card_id@),
                    c.owner_id,
                    catalog[k as int],
                ),
            },
        ),
        CmdWrapper::ChooseCorporation(c) => Some(
            match first_named(catalog, c.card_id@) {
                None => Err(CannotExecute::CardNotFound { player: c.player_id }),
                Some(k) => card_action(
                    choose_corporation_spec(s, catalog, c.player_id, c.card_id@),
                    c.player_id,
                    catalog[k as int],
                ),
            },
        ),
        CmdWrapper::ResearchCards(c) => Some(
            research_action(s, catalog, c.player_id, id_views(c.card_ids@)),
        ),
        _ => effect(cmd, s, catalog),
    }
}

/// What a `DrawCards` command run by the state machine did: an unknown
/// player or a pile too small for the draw is refused; otherwise the cards
/// were dealt.
pub open spec fn drawn(c: DrawCards, r: Result<(), CannotExecute>, before: GameStateView, after: GameStateView) -> bool {
    let corporation = c.card_type == CardType::Corporation;
    if c.player_id >= before.players.len() {
        r == Err::<(), CannotExecute>(CannotExecute::UnknownPlayer { player: c.player_id })
    } else if c.count > pile_size(before, corporation) {
        r == Err::<(), CannotExecute>(CannotExecute::DeckExhausted)
    } else {
        r is Ok && dealt_to(before, after, c.player_id, c.count, corporation)
    }
}

/// The match after setup: every player got two corporations in hand and ten
/// projects in the research queue, and the phase is `Setup`.
pub open spec fn set_up(before: GameStateView, after: GameStateView) -> bool {
    &&& after.players.len() == before.players.len()
    &&& forall|j: int|
        0 <= j < before.players.len() ==> {
            let p = before.players[j];
            let q = #[trigger] after.players[j];
            &&& q == PlayerView { hand: q.hand, research_queue: q.research_queue, ..p }
            &&& q.hand.len() == p.hand.len() + 2
            &&& q.hand.take(p.hand.len() as int) == p.hand
            &&& q.research_queue.len() == p.research_queue.len() + 10
            &&& q.research_queue.take(p.research_queue.len() as int) == p.research_queue
        }
    &&& after == GameStateView {
        phase: Phase::Setup,
        players: after.players,
        project_draw: after.project_draw,
        project_discard: after.project_discard,
        corporation_draw: after.corporation_draw,
        corporation_discard: after.corporation_discard,
        ..before
    }
    &&& pile_size(after, true) + 2 * before.players.len() == pile_size(before, true)
    &&& pile_size(after, false) + 10 * before.players.len() == pile_size(before, false)
}

/// The match once the action phase starts: the start player acts first, with
/// two actions.
pub open spec fn action_started(s: GameStateView) -> GameStateView {
    GameStateView {
        phase: Phase::Action,
        active_player: s.start_player,
        ..s.with_player(
            s.start_player as int,
            PlayerView { action_state: ActionState::Acting(2), ..s.players[s.start_player as int] },
        )
    }
}

/// Every player's inventory after production.
pub open spec fn after_production(s: GameStateView) -> GameStateView {
    GameStateView {
        players: s.players.map(
            |j: int, p: PlayerView| PlayerView { inventory: produced(p, j as usize)->Ok_0, ..p },
        ),
        ..s
    }
}

/// The match entering the research phase of the next generation: every player
/// got four projects in the research queue, the generation counter moved on
/// and the next seat starts.
pub open spec fn next_generation(before: GameStateView, after: GameStateView) -> bool {
    &&& after.players.len() == before.players.len()
    &&& forall|j: int|
        0 <= j < before.players.len() ==> {
            let p = before.players[j];
            let q = #[trigger] after.players[j];
            &&& q == PlayerView { research_queue: q.research_queue, ..p }
            &&& q.research_queue.len() == p.research_queue.len() + 4
            &&& q.research_queue.take(p.research_queue.len() as int) == p.research_queue
        }
    &&& after == GameStateView {
        phase: Phase::Research,
        generation: (before.generation + 1) as u32,
        start_player: ((before.start_player + 1) % before.players.len() as int) as usize,
        players: after.players,
        project_draw: after.project_draw,
        project_discard: after.project_discard,
        ..before
    }
    &&& pile_size(after, false) + 4 * before.players.len() == pile_size(before, false)
}

/// Success or the error alone.
pub open spec fn status<T>(r: Result<T, CannotExecute>) -> Result<(), CannotExecute> {
    match r {
        Ok(_) => Ok(()),
        Err(e) => Err(e),
    }
}

/// Leaving `Init`: the opening cards are dealt, if the piles hold enough.
pub open spec fn setup_outcome(before: GameStateView, r: Result<(), CannotExecute>, after: GameStateView) -> bool {
    let n = before.players.len();
    if pile_size(before, true) < 2 * n || pile_size(before, false) < 10 * n {
        r == Err::<(), CannotExecute>(CannotExecute::DeckExhausted)
    } else {
        r is Ok && set_up(before, after)
    }
}

/// Leaving `Setup` or `Research`: the action phase starts if its guards hold.
pub open spec fn action_outcome(
    before: GameStateView,
    catalog: Seq<Card>,
    r: Result<(), CannotExecute>,
    after: GameStateView,
) -> bool {
    match guard_failure(before, catalog) {
        Some(g) => r == Err::<(), CannotExecute>(CannotExecute::PhaseGuardViolation { guard: g }),
        None => r is Ok && after == action_started(before),
    }
}

/// Leaving `Production`: the next generation's research phase starts.
pub open spec fn research_outcome(before: GameStateView, r: Result<(), CannotExecute>, after: GameStateView) -> bool {
    if before.generation == u32::MAX {
        r == Err::<(), CannotExecute>(CannotExecute::GenerationLimit)
    } else if pile_size(before, false) < 4 * before.players.len() {
        r == Err::<(), CannotExecute>(CannotExecute::DeckExhausted)
    } else {
        r is Ok && next_generation(before, after)
    }
}

/// Leaving `Action`: production runs, then the next research phase starts.
pub open spec fn production_outcome(before: GameStateView, r: Result<(), CannotExecute>, after: GameStateView) -> bool {
    let n = before.players.len();
    if production_error(before.players, n as int) is Some {
        r == Err::<(), CannotExecute>(production_error(before.players, n as int)->Some_0)
    } else {
        research_outcome(after_production(before), r, after)
    }
}

/// What `advance_phase` does from each phase.
pub open spec fn advanced(
    before: GameStateView,
    catalog: Seq<Card>,
    r: Result<(), CannotExecute>,
    after: GameStateView,
) -> bool {
    match before.phase {
        Phase::Init => setup_outcome(before, r, after),
        Phase::Setup | Phase::Research => action_outcome(before, catalog, r, after),
        Phase::Action => production_outcome(before, r, after),
        Phase::Production => research_outcome(before, r, after),
    }
}

fn copy_resources(v: &Vec<Resource>) -> (r: Vec<Resource>)
    ensures
        r@ == v@,
{
    let mut r: Vec<Resource> = Vec::new();
    let mut i: usize = 0;
    while i < v.len()
        invariant
            i <= v@.len(),
            r@ == v@.take(i as int),
        decreases v.len() - i,
    {
        r.push(v[i]);
        i = i + 1;
        assert(r@ =~= v@.take(i as int));
    }
    assert(v@.take(i as int) =~= v@);
    r
}

/// The identifiers of `cards`, skipping indices outside the catalog.
fn card_ids_of(cards: &Vec<usize>, catalog: &Vec<Card>) -> (r: Vec<String>)
    ensures
        id_views(r@) == ids_of(cards@, catalog@),
{
    let mut r: Vec<String> = Vec::new();
    let mut i: usize = 0;
    while i < cards.len()
        invariant
            i <= cards@.len(),
            id_views(r@) == ids_of(cards@.take(i as int), catalog@),
        decreases cards.len() - i,
    {
        assert(cards@.take(i + 1).drop_last() =~= cards@.take(i as int));
        let c = cards[i];
        if c < catalog.len() {
            let id = catalog[c].id.clone();
            r.push(id);
        }
        i = i + 1;
        assert(id_views(r@) =~= ids_of(cards@.take(i as int), catalog@));
    }
    assert(cards@.take(i as int) =~= cards@);
    r
}

/// Deals the opening cards: two corporations and ten projects per player.
fn setup_phase(state: &mut GameState) -> (r: Result<Vec<Applied>, CannotExecute>)
    requires
        old(state)@.seats_valid(),
    ensures
        final(state)@.seats_valid(),
        all_cards(final(state)@) == all_cards(old(state)@),
        r is Err ==> final(state)@ == old(state)@,
        r is Ok ==> reverts_all(r->Ok_0@, final(state)@, old(state)@),
        setup_outcome(old(state)@, status(r), final(state)@),
{
    let ghost s0 = state@;
    let mut recs = match deal_each(state, 2, true) {
        Ok(recs) => recs,
        Err(e) => {
            return Err(e);
        },
    };
    let ghost s1 = state@;
    let mut more = match deal_each(state, 10, false) {
        Ok(more) => more,
        Err(e) => {
            rollback(state, recs);
            return Err(e);
        },
    };
    let ghost s2 = state@;
    proof {
        lemma_reverts_concat(recs@, more@, s0, s1, s2);
    }
    recs.append(&mut more);
    let seat = state.start_player;
    let action_state = state.players[seat].action_state;
    let turn = set_turn(
        state,
        Phase::Setup,
        state.generation,
        state.start_player,
        state.active_player,
        seat,
        action_state,
    );
    let ghost prev = recs@;
    recs.push(turn);
    proof {
        assert(recs@.drop_last() == prev);
        assert(state@.players =~= s2.players);
        assert forall|j: int| 0 <= j < s0.players.len() implies {
            let p = s0.players[j];
            let q = #[trigger] state@.players[j];
            &&& q == PlayerView { hand: q.hand, research_queue: q.research_queue, ..p }
            &&& q.hand.len() == p.hand.len() + 2
            &&& q.hand.take(p.hand.len() as int) == p.hand
            &&& q.research_queue.len() == p.research_queue.len() + 10
            &&& q.research_queue.take(p.research_queue.len() as int) == p.research_queue
        } by {
            assert(s1.players[j] == s1.players[j]);
            assert(s2.players[j] == s2.players[j]);
        }
    }
    Ok(recs)
}

/// Starts the action phase if every player is ready for it.
fn transition_to_action(state: &mut GameState, catalog: &Vec<Card>) -> (r: Result<Vec<Applied>, CannotExecute>)
    requires
        old(state)@.seats_valid(),
    ensures
        final(state)@.seats_valid(),
        all_cards(final(state)@) == all_cards(old(state)@),
        r is Err ==> final(state)@ == old(state)@,
        r is Ok ==> reverts_all(r->Ok_0@, final(state)@, old(state)@),
        action_outcome(old(state)@, catalog@, status(r), final(state)@),
{
    match check_guards(state, catalog) {
        Some(g) => {
            return Err(CannotExecute::PhaseGuardViolation { guard: g });
        },
        None => {},
    }
    let ghost s0 = state@;
    let start = state.start_player;
    let turn = set_turn(state, Phase::Action, state.generation, start, start, start, ActionState::Acting(2));
    let ghost t = turn;
    let mut recs: Vec<Applied> = Vec::new();
    recs.push(turn);
    proof {
        assert(recs@.drop_last() =~= Seq::<Applied>::empty());
        assert(recs@.last() == t);
        assert(undoable_all(recs@.drop_last(), undone(t, state@)));
        assert(undone_all(recs@.drop_last(), undone(t, state@)) == s0);
    }
    Ok(recs)
}

/// Moves to the next generation: every player draws four projects, the
/// generation counter moves on and the next seat starts.
fn research_phase(state: &mut GameState) -> (r: Result<Vec<Applied>, CannotExecute>)
    requires
        old(state)@.seats_valid(),
    ensures
        final(state)@.seats_valid(),
        all_cards(final(state)@) == all_cards(old(state)@),
        r is Err ==> final(state)@ == old(state)@,
        r is Ok ==> reverts_all(r->Ok_0@, final(state)@, old(state)@),
        research_outcome(old(state)@, status(r), final(state)@),
{
    let ghost s0 = state@;
    if state.generation == u32::MAX {
        return Err(CannotExecute::GenerationLimit);
    }
    let mut recs = match deal_each(state, 4, false) {
        Ok(recs) => recs,
        Err(e) => {
            return Err(e);
        },
    };
    let ghost s1 = state@;
    let n = state.players.len();
    let next = (state.start_player + 1) % n;
    let action_state = state.players[0].action_state;
    let turn = set_turn(
        state,
        Phase::Research,
        state.generation + 1,
        next,
        state.active_player,
        0,
        action_state,
    );
    let ghost prev = recs@;
    recs.push(turn);
    proof {
        assert(recs@.drop_last() == prev);
        assert(state@.players =~= s1.players);
        assert forall|j: int| 0 <= j < s0.players.len() implies {
            let p = s0.players[j];
            let q = #[trigger] state@.players[j];
            &&& q == PlayerView { research_queue: q.research_queue, ..p }
            &&& q.research_queue.len() == p.research_queue.len() + 4
            &&& q.research_queue.take(p.research_queue.len() as int) == p.research_queue
        } by {
            assert(s1.players[j] == s1.players[j]);
        }
    }
    Ok(recs)
}

/// Runs production for every player, then moves to the next generation's
/// research phase, all as one unit.
fn production_phase(state: &mut GameState) -> (r: Result<Vec<Applied>, CannotExecute>)
    requires
        old(state)@.seats_valid(),
    ensures
        final(state)@.seats_valid(),
        all_cards(final(state)@) == all_cards(old(state)@),
        r is Err ==> final(state)@ == old(state)@,
        r is Ok ==> reverts_all(r->Ok_0@, final(state)@, old(state)@),
        production_outcome(old(state)@, status(r), final(state)@),
{
    let ghost s0 = state@;
    let mut recs = match produce_all(state) {
        Ok(recs) => recs,
        Err(e) => {
            return Err(e);
        },
    };
    let ghost s1 = state@;
    proof {
        assert(s1.players =~= after_production(s0).players);
        assert(s1 == after_production(s0));
    }
    let mut more = match research_phase(state) {
        Ok(more) => more,
        Err(e) => {
            rollback(state, recs);
            return Err(e);
        },
    };
    proof {
        lemma_reverts_concat(recs@, more@, s0, s1, state@);
    }
    recs.append(&mut more);
    Ok(recs)
}

/// The match session: the one game state, the card catalog it refers to, and
/// the ledger of applied units through which every change is made and undone.
pub struct StateMachine {
    state: GameState,
    cards: Vec<Card>,
    record: Vec<Vec<Applied>>,
    past: Ghost<Seq<GameStateView>>,
}

impl View for StateMachine {
    type V = GameStateView;

    closed spec fn view(&self) -> GameStateView {
        self.state@
    }
}

impl StateMachine {
    /// The catalog that cards in the state index into.
    pub closed spec fn catalog(&self) -> Seq<Card> {
        self.cards@
    }

    /// The states the match went through, one per unit of the ledger, ending
    /// with the current one.
    pub closed spec fn history(&self) -> Seq<GameStateView> {
        self.past@
    }

    /// Each unit of the ledger undoes exactly into the state before it, and the
    /// start and active seats exist.
    pub closed spec fn wf(&self) -> bool {
        &&& self.past@.len() == self.record@.len() + 1
        &&& self.past@.last() == self.state@
        &&& forall|i: int|
            0 <= i < self.record@.len() ==> reverts_all(
                #[trigger] self.record@[i]@,
                self.past@[i + 1],
                self.past@[i],
            )
        &&& forall|i: int| 0 <= i < self.past@.len() ==> (#[trigger] self.past@[i]).seats_valid()
        &&& forall|i: int|
            0 <= i < self.past@.len() ==> all_cards(#[trigger] self.past@[i]) == all_cards(self.state@)
    }

    pub fn new(state: GameState, cards: Vec<Card>) -> (r: StateMachine)
        requires
            state@.seats_valid(),
        ensures
            r.wf(),
            r@ == state@,
            r.catalog() == cards@,
            r.history() == seq![state@],
    {
        let ghost h = seq![state@];
        StateMachine { state, cards, record: Vec::new(), past: Ghost(h) }
    }

    pub fn get_state(&self) -> (r: &GameState)
        ensures
            r@ == self@,
    {
        &self.state
    }

    pub fn cards(&self) -> (r: &Vec<Card>)
        ensures
            r@ == self.catalog(),
    {
        &self.cards
    }

    /// Records a unit that took the state from the last recorded state to the current one.
    fn commit(&mut self, unit: Vec<Applied>)
        requires
            old(self).past@.len() == old(self).record@.len() + 1,
            forall|i: int|
                0 <= i < old(self).record@.len() ==> reverts_all(
                    #[trigger] old(self).record@[i]@,
                    old(self).past@[i + 1],
                    old(self).past@[i],
                ),
            forall|i: int| 0 <= i < old(self).past@.len() ==> (#[trigger] old(self).past@[i]).seats_valid(),
            forall|i: int|
                0 <= i < old(self).past@.len() ==> all_cards(#[trigger] old(self).past@[i]) == all_cards(
                    old(self).state@,
                ),
            old(self).state@.seats_valid(),
            reverts_all(unit@, old(self).state@, old(self).past@.last()),
            all_cards(old(self).state@) == all_cards(old(self).past@.last()),
        ensures
            final(self).wf(),
            final(self).state@ == old(self).state@,
            final(self).cards@ == old(self).cards@,
            final(self).past@ == old(self).past@.push(old(self).state@),
    {
        let ghost s = self.state@;
        let ghost before = self.record@;
        self.record.push(unit);
        let ghost h = self.past@.push(s);
        self.past = Ghost(h);
        assert forall|i: int| 0 <= i < self.record@.len() implies reverts_all(
            #[trigger] self.record@[i]@,
            self.past@[i + 1],
            self.past@[i],
        ) by {
            if i < before.len() {
                assert(self.record@[i] == before[i]);
            }
        }
    }

    /// Runs a player's command as one unit of the ledger: playing a card, or
    /// choosing a corporation, also applies the card's resource and production
    /// deltas; researching also discards the rest of the research queue.
    pub fn apply(&mut self, command: CmdWrapper) -> (r: Result<(), CannotExecute>)
        requires
            old(self).wf(),
        ensures
            final(self).wf(),
            all_cards(final(self)@) == all_cards(old(self)@),
            no_duplicates(old(self)@) ==> no_duplicates(final(self)@),
            final(self).catalog() == old(self).catalog(),
            r is Err ==> final(self)@ == old(self)@ && final(self).history() == old(self).history(),
            r is Ok ==> final(self).history() == old(self).history().push(final(self)@),
            command matches CmdWrapper::DrawCards(c) ==> drawn(c, r, old(self)@, final(self)@),
            action_spec(command, old(self)@, old(self).catalog()) is Some ==> match action_spec(
                command,
                old(self)@,
                old(self).catalog(),
            )->Some_0 {
                Ok(t) => r is Ok && final(self)@ == t,
                Err(e) => r == Err::<(), CannotExecute>(e),
            },
    {
        let ghost s0 = self.state@;
        let ghost cat = self.cards@;
        let ghost expected = action_spec(command, s0, cat);
        let mut cmds: Vec<CmdWrapper> = Vec::new();
        match command {
            CmdWrapper::PlayCard(c) => {
                let player = c.owner_id;
                let k = match find_card(&self.cards, &c.card_id) {
                    Some(k) => k,
                    None => {
                        return Err(CannotExecute::CardNotFound { player });
                    },
                };
                let rescs = copy_resources(&self.cards[k].resources);
                let prod = copy_resources(&self.cards[k].production);
                cmds.push(CmdWrapper::PlayCard(c));
                cmds.push(CmdWrapper::ModResources(ModResources { player_id: player, rescs }));
                cmds.push(CmdWrapper::ModProduction(ModProduction { player_id: player, rescs: prod }));
                proof {
                    reveal_with_fuel(run_chain, 4);
                    assert(cmds@.drop_last().drop_last().drop_last() =~= Seq::<CmdWrapper>::empty());
                }
            },
            CmdWrapper::ChooseCorporation(c) => {
                let player = c.player_id;
                let k = match find_card(&self.cards, &c.card_id) {
                    Some(k) => k,
                    None => {
                        return Err(CannotExecute::CardNotFound { player });
                    },
                };
                let rescs = copy_resources(&self.cards[k].resources);
                let prod = copy_resources(&self.cards[k].production);
                cmds.push(CmdWrapper::ChooseCorporation(c));
                cmds.push(CmdWrapper::ModResources(ModResources { player_id: player, rescs }));
                cmds.push(CmdWrapper::ModProduction(ModProduction { player_id: player, rescs: prod }));
                proof {
                    reveal_with_fuel(run_chain, 4);
                    assert(cmds@.drop_last().drop_last().drop_last() =~= Seq::<CmdWrapper>::empty());
                }
            },
            CmdWrapper::ResearchCards(c) => {
                let player = c.player_id;
                if player >= self.state.players.len() {
                    return Err(CannotExecute::UnknownPlayer { player });
                }
                let rest = unselected_cards(&self.state.players[player].research_queue, &self.cards, &c.card_ids);
                let discard_ids = card_ids_of(&rest, &self.cards);
                cmds.push(CmdWrapper::ResearchCards(c));
                cmds.push(CmdWrapper::DiscardResearch(DiscardResearch { player_id: player, card_ids: discard_ids }));
                proof {
                    reveal_with_fuel(run_chain, 3);
                    assert(cmds@.drop_last().drop_last() =~= Seq::<CmdWrapper>::empty());
                }
            },
            CmdWrapper::DrawCards(c) => {
                return match c.apply(&mut self.state) {
                    Ok(a) => {
                        let ghost t = a;
                        let mut unit: Vec<Applied> = Vec::new();
                        unit.push(a);
                        proof {
                            assert(unit@.drop_last() =~= Seq::<Applied>::empty());
                            assert(unit@.last() == t);
                            assert(undoable_all(unit@.drop_last(), undone(t, self.state@)));
                            assert(undone_all(unit@.drop_last(), undone(t, self.state@)) == s0);
                            assert(reverts_all(unit@, self.state@, s0));
                            lemma_draw_conserves_cards(
                                s0,
                                self.state@,
                                c.player_id,
                                c.count,
                                c.card_type == CardType::Corporation,
                            );
                        }
                        self.commit(unit);
                        Ok(())
                    },
                    Err(e) => Err(e),
                };
            },
            other => {
                cmds.push(other);
                proof {
                    reveal_with_fuel(run_chain, 2);
                    assert(cmds@.drop_last() =~= Seq::<CmdWrapper>::empty());
                }
            },
        }
        match apply_chain(&mut self.state, &self.cards, &cmds) {
            Ok(unit) => {
                self.commit(unit);
                Ok(())
            },
            Err(e) => Err(e),
        }
    }

    /// Takes back the most recent unit of the ledger, restoring the state it
    /// was applied to. Returns false, changing nothing, when the ledger is empty.
    pub fn undo(&mut self) -> (r: bool)
        requires
            old(self).wf(),
        ensures
            final(self).wf(),
            all_cards(final(self)@) == all_cards(old(self)@),
            no_duplicates(old(self)@) ==> no_duplicates(final(self)@),
            final(self).catalog() == old(self).catalog(),
            r <==> old(self).history().len() > 1,
            r ==> final(self).history() == old(self).history().drop_last() && final(self)@ == old(
                self,
            ).history()[old(self).history().len() - 2],
            !r ==> final(self)@ == old(self)@ && final(self).history() == old(self).history(),
    {
        match self.record.pop() {
            None => false,
            Some(unit) => {
                let ghost n = self.record@.len() as int;
                assert(reverts_all(unit@, self.past@[n + 1], self.past@[n]));
                rollback(&mut self.state, unit);
                let ghost h = self.past@.drop_last();
                self.past = Ghost(h);
                assert forall|i: int| 0 <= i < self.record@.len() implies reverts_all(
                    #[trigger] self.record@[i]@,
                    self.past@[i + 1],
                    self.past@[i],
                ) by {
                    assert(self.record@[i] == old(self).record@[i]);
                }
                true
            },
        }
    }

    /// Moves the match to its next phase as one unit of the ledger:
    /// `Init` deals the opening cards and enters `Setup`; `Setup` and
    /// `Research` enter `Action` once every player is ready; `Action` runs
    /// production and goes on into the next generation's `Research`;
    /// `Production` enters the next generation's `Research`.
    pub fn advance_phase(&mut self) -> (r: Result<(), CannotExecute>)
        requires
            old(self).wf(),
        ensures
            final(self).wf(),
            all_cards(final(self)@) == all_cards(old(self)@),
            no_duplicates(old(self)@) ==> no_duplicates(final(self)@),
            final(self).catalog() == old(self).catalog(),
            r is Err ==> final(self)@ == old(self)@ && final(self).history() == old(self).history(),
            r is Ok ==> final(self).history() == old(self).history().push(final(self)@),
            advanced(old(self)@, old(self).catalog(), r, final(self)@),
    {
        let res = match self.state.phase {
            Phase::Init => setup_phase(&mut self.state),
            Phase::Setup => transition_to_action(&mut self.state, &self.cards),
            Phase::Research => transition_to_action(&mut self.state, &self.cards),
            Phase::Action => production_phase(&mut self.state),
            Phase::Production => research_phase(&mut self.state),
        };
        match res {
            Ok(unit) => {
                self.commit(unit);
                Ok(())
            },
            Err(e) => Err(e),
        }
    }
}

} // verus!
