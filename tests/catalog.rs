use terraforming_mars::card::{
    find_card, BoolOrRef, CSVCard, Card, CardType, Deck, HoldableResource, NumberOrRef, Resource,
    Tags,
};
use terraforming_mars::game_state::{GameState, Phase};
use terraforming_mars::player::{ActionState, Player};
use terraforming_mars::text::{chars_of, is_word, parse_i32, parse_u32, parse_usize};

fn chars(s: &str) -> Vec<char> {
    s.chars().collect()
}

#[test]
fn parse_i32_reads_signed_numerals() {
    assert_eq!(parse_i32(&chars("42")), Some(42));
    assert_eq!(parse_i32(&chars("+7")), Some(7));
    assert_eq!(parse_i32(&chars("-15")), Some(-15));
    assert_eq!(parse_i32(&chars("-2147483648")), Some(i32::MIN));
    assert_eq!(parse_i32(&chars("2147483647")), Some(i32::MAX));
    assert_eq!(parse_i32(&chars("2147483648")), None);
    assert_eq!(parse_i32(&chars("")), None);
    assert_eq!(parse_i32(&chars("-")), None);
    assert_eq!(parse_i32(&chars("1a")), None);
    assert_eq!(parse_i32(&chars("Ref")), None);
}

#[test]
fn unsigned_parsers_refuse_minus() {
    assert_eq!(parse_usize(&chars("3")), Some(3));
    assert_eq!(parse_usize(&chars("-0")), None);
    assert_eq!(parse_u32(&chars("4294967295")), Some(u32::MAX));
    assert_eq!(parse_u32(&chars("4294967296")), None);
    assert_eq!(parse_u32(&chars("+12")), Some(12));
}

#[test]
fn chars_and_words() {
    assert_eq!(chars_of("Mars"), vec!['M', 'a', 'r', 's']);
    assert!(is_word(&chars("Ref"), "Ref"));
    assert!(!is_word(&chars("Refs"), "Ref"));
    assert!(!is_word(&chars("ref"), "Ref"));
}

#[test]
fn tag_cells() {
    assert_eq!(Tags::from_string(&"2".to_string(), Tags::Science), vec![Tags::Science, Tags::Science]);
    assert_eq!(Tags::from_string(&"0".to_string(), Tags::Plant), Vec::<Tags>::new());
    assert_eq!(Tags::from_string(&"Ref".to_string(), Tags::City), vec![Tags::Special]);
}

#[test]
fn resource_cells() {
    assert_eq!(
        Resource::from_string(&"-2".to_string(), Resource::Steel(0)),
        Some(Resource::Steel(-2))
    );
    assert_eq!(
        Resource::from_string(&"3".to_string(), Resource::MegaCredits(0)),
        Some(Resource::MegaCredits(3))
    );
    assert_eq!(Resource::from_string(&"Ref".to_string(), Resource::Heat(0)), Some(Resource::Special));
    assert_eq!(Resource::from_string(&"No".to_string(), Resource::Heat(0)), None);
    assert_eq!(Resource::from_string(&"Floaters".to_string(), Resource::Energy(0)), None);
}

#[test]
fn named_cells() {
    assert_eq!(CardType::from_text(&"Corporation".to_string()), CardType::Corporation);
    assert_eq!(CardType::from_text(&"Automation".to_string()), CardType::Automation);
    assert_eq!(CardType::from_text(&"Whatever".to_string()), CardType::Active);
    assert_eq!(Deck::from_text(&"Venus".to_string()), Deck::Venus);
    assert_eq!(Deck::from_text(&"".to_string()), Deck::Basic);
    assert_eq!(HoldableResource::from_text(&"Microbes".to_string()), HoldableResource::Microbes);
    assert_eq!(HoldableResource::from_text(&"Floaters".to_string()), HoldableResource::Unparsed);
    assert_eq!(HoldableResource::from_text(&"No".to_string()), HoldableResource::Nothing);
    assert_eq!(NumberOrRef::from_text(&"-3".to_string()), NumberOrRef::Number(-3));
    assert_eq!(NumberOrRef::from_text(&"2*".to_string()), NumberOrRef::Ref);
    assert_eq!(BoolOrRef::from_text(&"Ref".to_string()), BoolOrRef::Ref);
    assert_eq!(BoolOrRef::from_text(&"Yes".to_string()), BoolOrRef::No);
}

fn row() -> CSVCard {
    let s = |v: &str| v.to_string();
    CSVCard {
        card_name: s("Research Outpost"),
        id: s(""),
        cost: s("18"),
        card_type: s("Active"),
        deck: s("Basic"),
        req_global_temperature: -30,
        req_global_oxygen: 0,
        req_global_ocean: 0,
        req_global_venus: 0,
        req_global_max_temperature: 8,
        req_global_max_oxygen: 14,
        req_global_max_ocean: 9,
        req_global_max_venus: 30,
        req_local_science: 2,
        req_local_building: 0,
        req_local_space: 0,
        req_local_microbe: 0,
        req_local_plant: 0,
        req_local_animal: 0,
        req_local_city: s("0"),
        req_local_earth: 0,
        req_local_jovian: 1,
        req_local_energy: 0,
        req_local_venus: 0,
        req_local_other: s("Ref"),
        tag_science: s("1"),
        tag_building: s("1"),
        tag_space: s("0"),
        tag_microbe: s("0"),
        tag_plant: s("0"),
        tag_animal: s("0"),
        tag_city: s("Ref"),
        tag_earth: s("0"),
        tag_jovian: s("0"),
        tag_energy: s("0"),
        tag_venus: s("0"),
        tag_event: s("0"),
        prod_megacredit: s("-1"),
        prod_steel: s("0"),
        prod_titanium: s("0"),
        prod_plant: s("0"),
        prod_energy: s("2"),
        prod_heat: s("Ref"),
        inv_megacredit: s("0"),
        inv_steel: s("0"),
        inv_titanium: s("0"),
        inv_plant: s("3"),
        inv_energy: s("0"),
        inv_heat: s("0"),
        other_resources_on_cards: s("No"),
        temperature: s("0"),
        oxygen: s("1"),
        ocean: s("0"),
        venus: s("0"),
        tr: s("0"),
        vp: s("1"),
        tile_colony_placement: s("Ref"),
        num_actions_and_or_effect: s("Ref"),
        depends_on_opponents: s("No"),
        affects_opponents: s("No"),
        holds_resources: s("Science"),
        action_or_on_going_effect_text: s("When you play a card, draw one."),
        one_time_effect_text: s(""),
    }
}

#[test]
fn spreadsheet_row_becomes_card() {
    let card = Card::from_csv(row());
    assert_eq!(card.name, "Research Outpost");
    assert_eq!(card.id, "Research Outpost");
    assert_eq!(card.cost, 18);
    assert_eq!(card.card_type, CardType::Active);
    assert_eq!(card.deck, Deck::Basic);
    assert_eq!(
        card.requirements.local,
        vec![Tags::Science, Tags::Science, Tags::Jovian, Tags::Special]
    );
    assert_eq!(card.tags, vec![Tags::Science, Tags::Building, Tags::Special]);
    assert_eq!(
        card.production,
        vec![
            Resource::MegaCredits(-1),
            Resource::Steel(0),
            Resource::Titanium(0),
            Resource::Plants(0),
            Resource::Energy(2),
            Resource::Special
        ]
    );
    assert_eq!(card.resources[3], Resource::Plants(3));
    assert_eq!(card.resources.len(), 6);
    assert_eq!(card.interactions.holds_resources, HoldableResource::Science);
    assert_eq!(card.terraforming_effect.vp, NumberOrRef::Number(1));
    assert_eq!(card.interactions.tile_placement, BoolOrRef::Ref);
}

#[test]
fn row_with_id_and_unreadable_cost() {
    let mut r = row();
    r.id = "042".to_string();
    r.cost = "Ref".to_string();
    let card = Card::from_csv(r);
    assert_eq!(card.id, "042");
    assert_eq!(card.cost, 0);
}

#[test]
fn find_card_by_id() {
    let mut a = Card::from_csv(row());
    a.id = "7".to_string();
    let mut b = a.clone();
    b.id = "9".to_string();
    let catalog = vec![a, b];
    assert_eq!(find_card(&catalog, &"9".to_string()), Some(1));
    assert_eq!(find_card(&catalog, &"8".to_string()), None);
}

#[test]
fn new_player_defaults() {
    let p = Player::new(3);
    assert_eq!(p.id, 3);
    assert_eq!(p.tf_rating, 20);
    assert_eq!(p.action_state, ActionState::Waiting);
    assert_eq!(p.corporation, None);
    assert_eq!(p.inventory.megacredits, 0);
    assert_eq!(p.production.megacredits, 1);
    assert_eq!(p.production.heat, 1);
    assert!(p.hand.is_empty() && p.research_queue.is_empty());
}

#[test]
fn player_receives_cards() {
    let mut p = Player::new(0);
    let mut projects = vec![4, 5];
    p.enqueue_research(&mut projects);
    assert!(projects.is_empty());
    let mut more = vec![6];
    p.enqueue_research(&mut more);
    assert_eq!(p.research_queue, vec![4, 5, 6]);
    let mut corps = vec![1, 2];
    p.draft_corporations(&mut corps);
    assert_eq!(p.hand, vec![1, 2]);
    assert!(corps.is_empty());
}

#[test]
fn new_game_state_splits_the_decks() {
    let base = Card::from_csv(row());
    let mut corp = base.clone();
    corp.card_type = CardType::Corporation;
    let mut venus = base.clone();
    venus.deck = Deck::Venus;
    let catalog = vec![base.clone(), corp.clone(), venus, base, corp];
    let mut state = GameState::new(&catalog, &vec![Deck::Basic], 3);
    assert_eq!(state.phase, Phase::Init);
    assert_eq!(state.generation, 0);
    assert_eq!(state.temperature, -30);
    assert_eq!(state.tiles.len(), 61);
    assert!(state.start_player < 3);
    assert_eq!(state.active_player, state.start_player);
    let mut projects = state.project_pile.draw_pile.clone();
    projects.sort();
    assert_eq!(projects, vec![0, 3]);
    let mut corporations = state.corporation_pile.draw_pile.clone();
    corporations.sort();
    assert_eq!(corporations, vec![1, 4]);
    assert_eq!(state.players.len(), 3);
    assert_eq!(state.get_player(2).id, 2);
    state.get_player_mut(1).tf_rating = 25;
    assert_eq!(state.players[1].tf_rating, 25);
    state.add_player();
    assert_eq!(state.players[3].id, 3);
}

#[test]
fn unreadable_row_is_refused() {
    let mut r = row();
    r.tag_space = "two".to_string();
    assert!(Card::try_from_csv(r).is_none());
    let mut r = row();
    r.prod_steel = "lots".to_string();
    assert!(Card::try_from_csv(r).is_none());
    let mut r = row();
    r.inv_heat = "No".to_string();
    assert!(Card::try_from_csv(r).is_none());
    let card = Card::try_from_csv(row()).unwrap();
    assert_eq!(card.tags, vec![Tags::Science, Tags::Building, Tags::Special]);
}
