use terraforming_mars::card::{
    BoolOrRef, Card, CardType, Deck, GlobalRequirements, HoldableResource, Interactions,
    NumberOrRef, Requirements, Resource, Tags, TerraformingEffect, Text,
};
use terraforming_mars::card_pile::CardPile;
use terraforming_mars::chain::apply_chain;
use terraforming_mars::commands::{
    CannotExecute, ChooseCorporation, CmdWrapper, DiscardResearch, DrawCards, Guard,
    ModProduction, ModResources, PlayCard, ResearchCards, ResourceKind, Unmet,
};
use terraforming_mars::game_state::{GameState, OwnedCard, Phase};
use terraforming_mars::player::{ActionState, Player};
use terraforming_mars::state_machine::StateMachine;

fn open_bounds() -> GlobalRequirements {
    GlobalRequirements {
        min_temperature: -30,
        max_temperature: 8,
        min_oxygen: 0,
        max_oxygen: 14,
        min_ocean: 0,
        max_ocean: 9,
    }
}

fn card(id: &str, cost: u32, card_type: CardType, tags: Vec<Tags>, local: Vec<Tags>) -> Card {
    Card {
        name: format!("Card {}", id),
        id: id.to_string(),
        cost,
        card_type,
        deck: Deck::Basic,
        requirements: Requirements { global: open_bounds(), local },
        tags,
        production: vec![],
        resources: vec![],
        resources_on_card: HoldableResource::Nothing,
        terraforming_effect: TerraformingEffect {
            temperature: NumberOrRef::Number(0),
            oxygen: NumberOrRef::Number(0),
            ocean: NumberOrRef::Number(0),
            tr: NumberOrRef::Number(0),
            vp: NumberOrRef::Number(0),
        },
        interactions: Interactions {
            tile_placement: BoolOrRef::No,
            num_actions_or_effect: NumberOrRef::Number(0),
            depends_on_opponents: BoolOrRef::No,
            affects_opponents: BoolOrRef::No,
            holds_resources: HoldableResource::Nothing,
        },
        text: Text {
            action_or_ongoing_effect_text: String::new(),
            onetime_effect_text: String::new(),
        },
    }
}

fn corporation(id: &str, megacredits: i32) -> Card {
    let mut c = card(id, 0, CardType::Corporation, vec![], vec![]);
    c.resources = vec![Resource::MegaCredits(megacredits)];
    c.production = vec![Resource::Steel(1)];
    c
}

/// Six corporations (ids corp0..corp5) and forty projects (ids proj0..proj39), all Basic.
fn basic_catalog() -> Vec<Card> {
    let mut cards = Vec::new();
    for i in 0..6 {
        cards.push(corporation(&format!("corp{}", i), 50));
    }
    for i in 0..40 {
        cards.push(card(&format!("proj{}", i), 5, CardType::Automation, vec![Tags::Science], vec![]));
    }
    cards
}

/// A bare state with `n` players and empty piles.
fn bare_state(n: usize) -> GameState {
    let mut state = GameState::new(&Vec::new(), &vec![Deck::Basic], n);
    state.start_player = 0;
    state.active_player = 0;
    state
}

fn snapshot(state: &GameState) -> String {
    format!("{:?}", state)
}

#[test]
fn reshuffle_when_draw_pile_is_empty() {
    let mut pile = CardPile { draw_pile: vec![], discard_pile: vec![4, 7, 9] };
    let c = pile.draw_card().unwrap();
    assert!([4, 7, 9].contains(&c));
    assert_eq!(pile.draw_pile.len(), 2);
    assert!(pile.discard_pile.is_empty());
    let mut all = pile.draw_pile.clone();
    all.push(c);
    all.sort();
    assert_eq!(all, vec![4, 7, 9]);
}

#[test]
fn drawing_from_empty_piles_is_deck_exhausted() {
    let mut pile = CardPile { draw_pile: vec![], discard_pile: vec![] };
    assert_eq!(pile.draw_card(), Err(CannotExecute::DeckExhausted));
    let mut pile = CardPile { draw_pile: vec![1], discard_pile: vec![2] };
    assert_eq!(pile.draw_cards(3), Err(CannotExecute::DeckExhausted));
    assert_eq!(pile.draw_pile, vec![1]);
    assert_eq!(pile.discard_pile, vec![2]);
}

#[test]
fn draw_cards_takes_from_the_top_in_order() {
    let mut pile = CardPile { draw_pile: vec![1, 2, 3, 4], discard_pile: vec![9] };
    assert_eq!(pile.draw_cards(3), Ok(vec![4, 3, 2]));
    assert_eq!(pile.draw_pile, vec![1]);
    assert_eq!(pile.discard_pile, vec![9]);
}

#[test]
fn pile_conservation_over_draws_and_discards() {
    let mut pile = CardPile::new((0..12).collect());
    let mut held = Vec::new();
    held.extend(pile.draw_cards(5).unwrap());
    let mut back = vec![held.pop().unwrap(), held.pop().unwrap()];
    pile.discard_cards(&mut back);
    held.extend(pile.draw_cards(8).unwrap());
    pile.discard(held.pop().unwrap());
    held.push(pile.draw_card().unwrap());
    let mut all: Vec<usize> = pile.draw_pile.clone();
    all.extend(pile.discard_pile.iter());
    all.extend(held.iter());
    assert_eq!(all.len(), 12);
    all.sort();
    assert_eq!(all, (0..12).collect::<Vec<usize>>());
}

#[test]
fn chain_with_failing_last_command_changes_nothing() {
    let catalog = basic_catalog();
    let mut state = bare_state(2);
    state.players[0].hand.push(6);
    let before = snapshot(&state);
    let cmds = vec![
        CmdWrapper::ModResources(ModResources { player_id: 0, rescs: vec![Resource::MegaCredits(5)] }),
        CmdWrapper::ModProduction(ModProduction { player_id: 0, rescs: vec![Resource::Heat(2)] }),
        CmdWrapper::PlayCard(PlayCard { owner_id: 0, card_id: "proj1".to_string(), target_id: None }),
    ];
    let r = apply_chain(&mut state, &catalog, &cmds);
    assert_eq!(r.err(), Some(CannotExecute::CardNotFound { player: 0 }));
    assert_eq!(snapshot(&state), before);
}

#[test]
fn chain_of_successful_commands_applies_all() {
    let catalog = basic_catalog();
    let mut state = bare_state(2);
    state.players[0].hand.push(6);
    let cmds = vec![
        CmdWrapper::ModResources(ModResources { player_id: 0, rescs: vec![Resource::MegaCredits(5)] }),
        CmdWrapper::ModProduction(ModProduction { player_id: 0, rescs: vec![Resource::Heat(2)] }),
        CmdWrapper::PlayCard(PlayCard { owner_id: 0, card_id: "proj0".to_string(), target_id: None }),
    ];
    let records = apply_chain(&mut state, &catalog, &cmds).unwrap();
    assert_eq!(records.len(), 3);
    assert_eq!(state.players[0].inventory.megacredits, 0);
    assert_eq!(state.players[0].production.heat, 3);
    assert!(state.players[0].hand.is_empty());
    assert_eq!(state.cards_in_play, vec![OwnedCard { card: 6, owner: 0 }]);
}

#[test]
fn undo_records_restore_the_state() {
    let catalog = basic_catalog();
    let mut state = bare_state(1);
    state.project_pile = CardPile { draw_pile: vec![6, 7, 8], discard_pile: vec![] };
    let before = snapshot(&state);
    let cmds = vec![
        CmdWrapper::DrawCards(DrawCards { player_id: 0, count: 2, card_type: CardType::Project }),
        CmdWrapper::ModResources(ModResources { player_id: 0, rescs: vec![Resource::MegaCredits(9)] }),
        CmdWrapper::ResearchCards(ResearchCards { player_id: 0, card_ids: vec!["proj2".to_string()] }),
        CmdWrapper::DiscardResearch(DiscardResearch { player_id: 0, card_ids: vec!["proj1".to_string()] }),
    ];
    let mut records = apply_chain(&mut state, &catalog, &cmds).unwrap();
    assert_eq!(state.players[0].hand, vec![8]);
    assert!(state.players[0].research_queue.is_empty());
    assert_eq!(state.project_pile.discard_pile, vec![7]);
    assert_eq!(state.players[0].inventory.megacredits, 6);
    while let Some(a) = records.pop() {
        a.undo(&mut state);
    }
    assert_eq!(snapshot(&state), before);
}

#[test]
fn inventory_cannot_go_below_zero() {
    let mut state = bare_state(1);
    state.players[0].inventory.steel = 2;
    let cmd = ModResources { player_id: 0, rescs: vec![Resource::Heat(4), Resource::Steel(-3)] };
    let r = cmd.apply(&mut state);
    assert_eq!(
        r.err(),
        Some(CannotExecute::InsufficientResource {
            player: 0,
            resource: ResourceKind::Steel,
            needed: 3,
            available: 2
        })
    );
    assert_eq!(state.players[0].inventory.steel, 2);
    assert_eq!(state.players[0].inventory.heat, 0);
}

#[test]
fn special_deltas_are_skipped() {
    let mut state = bare_state(1);
    let cmd = ModResources { player_id: 0, rescs: vec![Resource::Special, Resource::Plants(3)] };
    assert!(cmd.apply(&mut state).is_ok());
    assert_eq!(state.players[0].inventory.plants, 3);
}

#[test]
fn megacredit_production_floors_at_minus_five() {
    let mut state = bare_state(1);
    assert_eq!(state.players[0].production.megacredits, 1);
    let ok = ModProduction { player_id: 0, rescs: vec![Resource::MegaCredits(-6)] };
    assert!(ok.apply(&mut state).is_ok());
    assert_eq!(state.players[0].production.megacredits, -5);

    let mut state = bare_state(1);
    let too_far = ModProduction { player_id: 0, rescs: vec![Resource::MegaCredits(-7)] };
    let r = too_far.apply(&mut state);
    assert_eq!(
        r.err(),
        Some(CannotExecute::InsufficientResource {
            player: 0,
            resource: ResourceKind::MegaCredits,
            needed: 7,
            available: 6
        })
    );
    assert_eq!(state.players[0].production.megacredits, 1);
}

#[test]
fn other_production_floors_at_zero() {
    let mut state = bare_state(1);
    let cmd = ModProduction { player_id: 0, rescs: vec![Resource::Energy(-2)] };
    assert!(matches!(
        cmd.apply(&mut state),
        Err(CannotExecute::InsufficientResource { resource: ResourceKind::Energy, .. })
    ));
    assert_eq!(state.players[0].production.energy, 1);
}

#[test]
fn inventory_overflow_is_refused() {
    let mut state = bare_state(1);
    state.players[0].inventory.heat = u32::MAX;
    let cmd = ModResources { player_id: 0, rescs: vec![Resource::Heat(1)] };
    assert_eq!(
        cmd.apply(&mut state).err(),
        Some(CannotExecute::ResourceOverflow { player: 0, resource: ResourceKind::Heat })
    );
}

/// Catalog for the tag tests: three owned cards and three candidates.
fn tag_catalog() -> Vec<Card> {
    vec![
        card("S1", 0, CardType::Automation, vec![Tags::Science], vec![]),
        card("S2", 0, CardType::Automation, vec![Tags::Science], vec![]),
        card("B1", 0, CardType::Automation, vec![Tags::Building], vec![]),
        card("NeedsTwo", 0, CardType::Automation, vec![], vec![Tags::Science, Tags::Science]),
        card("NeedsThree", 0, CardType::Automation, vec![], vec![Tags::Science, Tags::Science, Tags::Science]),
        card("NeedsPlant", 0, CardType::Automation, vec![], vec![Tags::Plant]),
    ]
}

fn tag_state() -> GameState {
    let mut state = bare_state(2);
    state.cards_in_play = vec![
        OwnedCard { card: 0, owner: 0 },
        OwnedCard { card: 1, owner: 0 },
        OwnedCard { card: 2, owner: 0 },
    ];
    state.players[0].hand = vec![3, 4, 5];
    state.players[1].hand = vec![3];
    state
}

#[test]
fn owned_tags_satisfy_requirement() {
    let catalog = tag_catalog();
    let mut state = tag_state();
    let cmd = PlayCard { owner_id: 0, card_id: "NeedsTwo".to_string(), target_id: None };
    assert!(cmd.apply(&mut state, &catalog).is_ok());
    assert_eq!(state.players[0].hand, vec![4, 5]);
    assert_eq!(state.cards_in_play.len(), 4);
}

#[test]
fn each_owned_tag_answers_for_one_requirement() {
    let catalog = tag_catalog();
    let mut state = tag_state();
    let before = snapshot(&state);
    let cmd = PlayCard { owner_id: 0, card_id: "NeedsThree".to_string(), target_id: None };
    assert_eq!(
        cmd.apply(&mut state, &catalog).err(),
        Some(CannotExecute::RequirementsNotMet {
            unmet: Unmet::MissingTag { player: 0, tag: Tags::Science }
        })
    );
    assert_eq!(snapshot(&state), before);
}

#[test]
fn other_players_tags_do_not_count() {
    let catalog = tag_catalog();
    let mut state = tag_state();
    let cmd = PlayCard { owner_id: 1, card_id: "NeedsTwo".to_string(), target_id: None };
    assert_eq!(
        cmd.apply(&mut state, &catalog).err(),
        Some(CannotExecute::RequirementsNotMet {
            unmet: Unmet::MissingTag { player: 1, tag: Tags::Science }
        })
    );
}

#[test]
fn global_bounds_are_checked() {
    let mut catalog = tag_catalog();
    catalog[5].requirements.local = vec![];
    catalog[5].requirements.global.min_temperature = -10;
    let mut state = tag_state();
    let cmd = PlayCard { owner_id: 0, card_id: "NeedsPlant".to_string(), target_id: None };
    assert_eq!(
        cmd.apply(&mut state, &catalog).err(),
        Some(CannotExecute::RequirementsNotMet {
            unmet: Unmet::Temperature { min: -10, max: 8, actual: -30 }
        })
    );
    state.temperature = -10;
    assert!(cmd.apply(&mut state, &catalog).is_ok());
}

#[test]
fn play_card_errors() {
    let catalog = basic_catalog();
    let mut state = bare_state(1);
    state.players[0].hand = vec![6];
    let missing = PlayCard { owner_id: 0, card_id: "proj3".to_string(), target_id: None };
    assert_eq!(missing.apply(&mut state, &catalog).err(), Some(CannotExecute::CardNotFound { player: 0 }));
    let poor = PlayCard { owner_id: 0, card_id: "proj0".to_string(), target_id: None };
    assert_eq!(
        poor.apply(&mut state, &catalog).err(),
        Some(CannotExecute::InsufficientFunds { player: 0, cost: 5, megacredits: 0 })
    );
    let nobody = PlayCard { owner_id: 4, card_id: "proj0".to_string(), target_id: None };
    assert_eq!(nobody.apply(&mut state, &catalog).err(), Some(CannotExecute::UnknownPlayer { player: 4 }));
}

#[test]
fn research_errors() {
    let catalog = basic_catalog();
    let mut state = bare_state(1);
    state.players[0].research_queue = vec![6, 7];
    let unknown = ResearchCards { player_id: 0, card_ids: vec!["proj5".to_string()] };
    assert_eq!(unknown.apply(&mut state, &catalog).err(), Some(CannotExecute::IdSetMismatch { player: 0 }));
    let poor = ResearchCards { player_id: 0, card_ids: vec!["proj0".to_string(), "proj1".to_string()] };
    assert_eq!(
        poor.apply(&mut state, &catalog).err(),
        Some(CannotExecute::InsufficientFunds { player: 0, cost: 6, megacredits: 0 })
    );
    state.players[0].inventory.megacredits = 6;
    assert!(poor.apply(&mut state, &catalog).is_ok());
    assert_eq!(state.players[0].hand, vec![6, 7]);
    assert_eq!(state.players[0].inventory.megacredits, 0);
}

#[test]
fn choose_corporation_only_in_setup() {
    let catalog = basic_catalog();
    let mut state = bare_state(1);
    state.players[0].hand = vec![0, 1];
    let cmd = ChooseCorporation { player_id: 0, card_id: "corp1".to_string() };
    assert_eq!(cmd.apply(&mut state, &catalog).err(), Some(CannotExecute::WrongPhase));
    state.phase = Phase::Setup;
    assert!(cmd.apply(&mut state, &catalog).is_ok());
    assert_eq!(state.players[0].corporation, Some(1));
    assert!(state.players[0].hand.is_empty());
    assert_eq!(state.corporation_pile.discard_pile, vec![0]);
}

#[test]
fn choosing_again_discards_the_earlier_corporation() {
    let catalog = basic_catalog();
    let mut state = bare_state(1);
    state.phase = Phase::Setup;
    state.players[0].corporation = Some(2);
    state.players[0].hand = vec![0, 1];
    let cmd = ChooseCorporation { player_id: 0, card_id: "corp0".to_string() };
    assert!(cmd.apply(&mut state, &catalog).is_ok());
    assert_eq!(state.players[0].corporation, Some(0));
    assert_eq!(state.corporation_pile.discard_pile, vec![1, 2]);
}

#[test]
fn action_phase_guards() {
    let catalog = basic_catalog();
    let mut state = bare_state(1);
    state.phase = Phase::Setup;
    state.players[0].hand = vec![0];
    let mut machine = StateMachine::new(state, catalog);
    assert_eq!(
        machine.advance_phase(),
        Err(CannotExecute::PhaseGuardViolation { guard: Guard::CorporationNotChosen })
    );
    assert_eq!(machine.get_state().phase, Phase::Setup);

    let mut state = bare_state(1);
    state.phase = Phase::Research;
    state.players[0].corporation = Some(0);
    state.players[0].hand = vec![1];
    let mut machine = StateMachine::new(state, basic_catalog());
    assert_eq!(
        machine.advance_phase(),
        Err(CannotExecute::PhaseGuardViolation { guard: Guard::CorporationInHand })
    );

    let mut state = bare_state(1);
    state.phase = Phase::Research;
    state.players[0].corporation = Some(0);
    state.players[0].research_queue = vec![7];
    let mut machine = StateMachine::new(state, basic_catalog());
    assert_eq!(
        machine.advance_phase(),
        Err(CannotExecute::PhaseGuardViolation { guard: Guard::ResearchPending })
    );
}

#[test]
fn end_to_end_two_player_match() {
    let catalog = basic_catalog();
    let state = GameState::new(&catalog, &vec![Deck::Basic], 2);
    assert_eq!(state.corporation_pile.draw_pile.len(), 6);
    assert_eq!(state.project_pile.draw_pile.len(), 40);
    let mut machine = StateMachine::new(state, catalog);
    assert_eq!(machine.get_state().phase, Phase::Init);

    machine.advance_phase().unwrap();
    assert_eq!(machine.get_state().phase, Phase::Setup);
    for p in machine.get_state().players.iter() {
        assert_eq!(p.hand.len(), 2);
        assert_eq!(p.research_queue.len(), 10);
    }

    for player_id in 0..2 {
        let first = machine.get_state().players[player_id].hand[0];
        let corp_id = machine.cards()[first].id.clone();
        machine
            .apply(CmdWrapper::ChooseCorporation(ChooseCorporation { player_id, card_id: corp_id }))
            .unwrap();
        assert_eq!(machine.get_state().players[player_id].inventory.megacredits, 50);
        let ids: Vec<String> = machine.get_state().players[player_id]
            .research_queue
            .iter()
            .map(|c| machine.cards()[*c].id.clone())
            .collect();
        let half: Vec<String> = ids[5..].to_vec();
        machine
            .apply(CmdWrapper::ResearchCards(ResearchCards { player_id, card_ids: half }))
            .unwrap();
        let p = &machine.get_state().players[player_id];
        assert_eq!(p.hand.len(), 5);
        assert!(p.research_queue.is_empty());
        assert_eq!(p.inventory.megacredits, 35);
    }

    let start = machine.get_state().start_player;
    machine.advance_phase().unwrap();
    assert_eq!(machine.get_state().phase, Phase::Action);
    assert_eq!(machine.get_state().active_player, start);
    assert_eq!(machine.get_state().players[start].action_state, ActionState::Acting(2));

    machine.advance_phase().unwrap();
    let s = machine.get_state();
    assert_eq!(s.phase, Phase::Research);
    assert_eq!(s.generation, 1);
    assert_eq!(s.start_player, (start + 1) % 2);
    for p in s.players.iter() {
        assert_eq!(p.research_queue.len(), 4);
    }
}

#[test]
fn production_formulas() {
    let mut state = bare_state(1);
    state.phase = Phase::Action;
    state.project_pile = CardPile { draw_pile: vec![1, 2, 3, 4], discard_pile: vec![] };
    {
        let p: &mut Player = &mut state.players[0];
        p.inventory.megacredits = 10;
        p.inventory.energy = 3;
        p.inventory.heat = 2;
        p.production.megacredits = -2;
        p.production.energy = 4;
        p.production.heat = 5;
    }
    let mut machine = StateMachine::new(state, basic_catalog());
    machine.advance_phase().unwrap();
    let inv = machine.get_state().players[0].inventory;
    assert_eq!(inv.megacredits, 10 - 2 + 20);
    assert_eq!(inv.steel, 1);
    assert_eq!(inv.titanium, 1);
    assert_eq!(inv.plants, 1);
    assert_eq!(inv.energy, 4);
    assert_eq!(inv.heat, 2 + 5 + 3);
    assert_eq!(machine.get_state().players[0].research_queue, vec![4, 3, 2, 1]);
}

#[test]
fn failed_research_draw_rolls_back_production() {
    let mut state = bare_state(2);
    state.phase = Phase::Action;
    state.project_pile = CardPile { draw_pile: vec![1, 2, 3], discard_pile: vec![] };
    let before = snapshot(&state);
    let mut machine = StateMachine::new(state, basic_catalog());
    assert_eq!(machine.advance_phase(), Err(CannotExecute::DeckExhausted));
    assert_eq!(snapshot(machine.get_state()), before);
}

#[test]
fn ledger_undo_restores_previous_state() {
    let catalog = basic_catalog();
    let state = GameState::new(&catalog, &vec![Deck::Basic], 2);
    let before = snapshot(&state);
    let mut machine = StateMachine::new(state, catalog);
    assert!(!machine.undo());
    machine.advance_phase().unwrap();
    let after_setup = snapshot(machine.get_state());
    let first = machine.get_state().players[0].hand[0];
    let corp_id = machine.cards()[first].id.clone();
    machine
        .apply(CmdWrapper::ChooseCorporation(ChooseCorporation { player_id: 0, card_id: corp_id }))
        .unwrap();
    assert!(machine.undo());
    assert_eq!(snapshot(machine.get_state()), after_setup);
    assert!(machine.undo());
    assert_eq!(snapshot(machine.get_state()), before);
    assert!(!machine.undo());
}

fn every_card(state: &GameState) -> Vec<usize> {
    let mut all: Vec<usize> = Vec::new();
    all.extend(state.project_pile.draw_pile.iter());
    all.extend(state.project_pile.discard_pile.iter());
    all.extend(state.corporation_pile.draw_pile.iter());
    all.extend(state.corporation_pile.discard_pile.iter());
    all.extend(state.cards_in_play.iter().map(|o| o.card));
    for p in state.players.iter() {
        all.extend(p.hand.iter());
        all.extend(p.research_queue.iter());
        all.extend(p.corporation.iter());
    }
    all.sort();
    all
}

#[test]
fn cards_are_conserved_across_a_generation() {
    let catalog = basic_catalog();
    let state = GameState::new(&catalog, &vec![Deck::Basic], 2);
    let expected: Vec<usize> = (0..46).collect();
    assert_eq!(every_card(&state), expected);
    let mut machine = StateMachine::new(state, catalog);
    machine.advance_phase().unwrap();
    assert_eq!(every_card(machine.get_state()), expected);
    for player_id in 0..2 {
        let first = machine.get_state().players[player_id].hand[0];
        let corp_id = machine.cards()[first].id.clone();
        machine
            .apply(CmdWrapper::ChooseCorporation(ChooseCorporation { player_id, card_id: corp_id }))
            .unwrap();
        let ids: Vec<String> = machine.get_state().players[player_id]
            .research_queue
            .iter()
            .take(3)
            .map(|c| machine.cards()[*c].id.clone())
            .collect();
        machine.apply(CmdWrapper::ResearchCards(ResearchCards { player_id, card_ids: ids })).unwrap();
        assert_eq!(every_card(machine.get_state()), expected);
    }
    machine.advance_phase().unwrap();
    let active = machine.get_state().active_player;
    let first = machine.get_state().players[active].hand[0];
    let id = machine.cards()[first].id.clone();
    machine
        .apply(CmdWrapper::PlayCard(PlayCard { owner_id: active, card_id: id, target_id: None }))
        .unwrap();
    assert_eq!(machine.get_state().cards_in_play.len(), 1);
    machine.advance_phase().unwrap();
    assert_eq!(every_card(machine.get_state()), expected);
    assert!(machine.undo());
    assert_eq!(every_card(machine.get_state()), expected);
}
