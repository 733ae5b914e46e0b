use vstd::multiset::Multiset;
use vstd::prelude::*;

use crate::card::{Card, CardType, Deck};
use crate::card_pile::CardPile;
use crate::conservation::{all_cards, no_duplicates, players_cards, player_cards};
use crate::player::{initial_player, Player, PlayerView};

verus! {

#[derive(Clone, Copy, Debug, PartialEq, Eq, Structural)]
pub enum Phase {
    Init,
    Setup,
    Research,
    Action,
    Production,
}

#[derive(Clone, Copy, Debug, PartialEq, Eq, Structural)]
pub enum TileType {
    Empty,
    City,
    Greenery,
    Ocean,
}

/// A placement bonus printed on a board space.
#[derive(Clone, Copy, Debug, PartialEq, Eq, Structural)]
pub enum Resources {
    Steel,
    Titanium,
    Card,
    Plant,
}

#[derive(Debug)]
pub struct Tile {
    pub x: u32,
    pub z: u32,
    pub tile_type: TileType,
    pub name: String,
    pub resources: Vec<Resources>,
    pub reserved: TileType,
}

#[derive(Debug)]
pub struct SpecialTile {
    pub tile_type: TileType,
    pub name: String,
    pub resources: Vec<Resources>,
    pub reserved: TileType,
}

/// A card in play together with the seat that owns it.
#[derive(Clone, Copy, Debug, PartialEq, Eq, Structural)]
pub struct OwnedCard {
    pub card: usize,
    pub owner: usize,
}

#[derive(Clone, Copy, Debug, PartialEq, Eq, Structural)]
pub enum Awards {
    Landlord,
    Banker,
    Scientist,
    Thermalist,
    Miner,
}

#[derive(Clone, Copy, Debug, PartialEq, Eq, Structural)]
pub struct Award {
    pub name: Awards,
    pub owner: Option<usize>,
}

#[derive(Clone, Copy, Debug, PartialEq, Eq, Structural)]
pub enum Milestones {
    Terraformer,
    Mayor,
    Gardener,
    Builder,
    Planner,
}

#[derive(Clone, Copy, Debug, PartialEq, Eq, Structural)]
pub struct Milestone {
    pub name: Milestones,
    pub owner: Option<usize>,
}

/// Everything that changes during a match. Cards are catalog indices.
#[derive(Debug)]
pub struct GameState {
    pub phase: Phase,
    pub generation: u32,
    pub start_player: usize,
    pub active_player: usize,
    pub oxygen: u32,
    pub temperature: i32,
    pub oceans_placed: u32,
    pub tiles: Vec<Tile>,
    pub special_tiles: Vec<SpecialTile>,
    pub milestones: Vec<Milestone>,
    pub awards: Vec<Award>,
    pub cards_in_play: Vec<OwnedCard>,
    pub players: Vec<Player>,
    pub project_pile: CardPile,
    pub corporation_pile: CardPile,
}

pub ghost struct GameStateView {
    pub phase: Phase,
    pub generation: u32,
    pub start_player: usize,
    pub active_player: usize,
    pub oxygen: u32,
    pub temperature: i32,
    pub oceans_placed: u32,
    pub tiles: Seq<Tile>,
    pub special_tiles: Seq<SpecialTile>,
    pub milestones: Seq<Milestone>,
    pub awards: Seq<Award>,
    pub cards_in_play: Seq<OwnedCard>,
    pub players: Seq<PlayerView>,
    pub project_draw: Seq<usize>,
    pub project_discard: Seq<usize>,
    pub corporation_draw: Seq<usize>,
    pub corporation_discard: Seq<usize>,
}

impl View for GameState {
    type V = GameStateView;

    open spec fn view(&self) -> GameStateView {
        GameStateView {
            phase: self.phase,
            generation: self.generation,
            start_player: self.start_player,
            active_player: self.active_player,
            oxygen: self.oxygen,
            temperature: self.temperature,
            oceans_placed: self.oceans_placed,
            tiles: self.tiles@,
            special_tiles: self.special_tiles@,
            milestones: self.milestones@,
            awards: self.awards@,
            cards_in_play: self.cards_in_play@,
            players: self.players@.map_values(|p: Player| p@),
            project_draw: self.project_pile.draw_pile@,
            project_discard: self.project_pile.discard_pile@,
            corporation_draw: self.corporation_pile.draw_pile@,
            corporation_discard: self.corporation_pile.discard_pile@,
        }
    }
}

impl GameStateView {
    /// The start and active seats exist.
    pub open spec fn seats_valid(self) -> bool {
        &&& self.start_player < self.players.len()
        &&& self.active_player < self.players.len()
    }

    /// `other` seats as many players as `self`, with the same start and active seats.
    pub open spec fn same_seats(self, other: GameStateView) -> bool {
        &&& self.players.len() == other.players.len()
        &&& self.start_player == other.start_player
        &&& self.active_player == other.active_player
    }

    pub open spec fn with_player(self, p: int, pv: PlayerView) -> GameStateView {
        GameStateView { players: self.players.update(p, pv), ..self }
    }
}

/// Card `i` belongs to one of the decks in play, and is a corporation exactly
/// when `corporations` holds.
pub open spec fn dealt(catalog: Seq<Card>, decks: Seq<Deck>, corporations: bool, i: int) -> bool {
    &&& decks.contains(catalog[i].deck)
    &&& (catalog[i].card_type == CardType::Corporation) == corporations
}

/// The catalog indices below `k` of the cards that `dealt` selects, ascending.
pub open spec fn dealt_cards(catalog: Seq<Card>, decks: Seq<Deck>, corporations: bool, k: int) -> Seq<
    usize,
>
    decreases k,
{
    if k <= 0 {
        Seq::empty()
    } else if dealt(catalog, decks, corporations, k - 1) {
        dealt_cards(catalog, decks, corporations, k - 1).push((k - 1) as usize)
    } else {
        dealt_cards(catalog, decks, corporations, k - 1)
    }
}

proof fn lemma_dealt_counts(catalog: Seq<Card>, decks: Seq<Deck>, corporations: bool, k: int)
    requires
        0 <= k <= usize::MAX,
    ensures
        forall|c: usize|
            #[trigger] dealt_cards(catalog, decks, corporations, k).to_multiset().count(c) == if c < k
                && dealt(catalog, decks, corporations, c as int) {
                1nat
            } else {
                0nat
            },
    decreases k,
{
    broadcast use vstd::seq_lib::group_to_multiset_ensures, vstd::multiset::group_multiset_axioms;

    if k == 0 {
        assert(dealt_cards(catalog, decks, corporations, 0).to_multiset() =~= Multiset::empty());
    } else {
        lemma_dealt_counts(catalog, decks, corporations, k - 1);
        let prev = dealt_cards(catalog, decks, corporations, k - 1);
        let last = (k - 1) as usize;
        if dealt(catalog, decks, corporations, k - 1) {
            assert(dealt_cards(catalog, decks, corporations, k) == prev.push(last));
            assert(prev.push(last).to_multiset() =~= prev.to_multiset().insert(last));
        } else {
            assert(dealt_cards(catalog, decks, corporations, k) == prev);
        }
    }
}

/// Relies on rand's `random::<u32>` (the thread-local generator); any value may come back.
#[verifier::external_body]
fn random_u32() -> u32 {
    rand::random::<u32>()
}

fn contains_deck(decks: &Vec<Deck>, d: Deck) -> (r: bool)
    ensures
        r == decks@.contains(d),
{
    let mut i: usize = 0;
    while i < decks.len()
        invariant
            i <= decks.len(),
            forall|j: int| 0 <= j < i ==> decks@[j] != d,
        decreases decks.len() - i,
    {
        if decks[i] == d {
            return true;
        }
        i = i + 1;
    }
    false
}

/// The catalog indices of the cards of the decks in play, corporations or
/// not as asked, ascending.
fn deal(catalog: &Vec<Card>, decks: &Vec<Deck>, corporations: bool) -> (r: Vec<usize>)
    ensures
        r@ == dealt_cards(catalog@, decks@, corporations, catalog@.len() as int),
{
    let mut r: Vec<usize> = Vec::new();
    let mut i: usize = 0;
    while i < catalog.len()
        invariant
            i <= catalog.len(),
            r@ == dealt_cards(catalog@, decks@, corporations, i as int),
        decreases catalog.len() - i,
    {
        let is_corporation = catalog[i].card_type == CardType::Corporation;
        if contains_deck(decks, catalog[i].deck) && is_corporation == corporations {
            r.push(i);
        }
        i = i + 1;
    }
    r
}

fn tile(x: u32, z: u32, name: &str, resources: Vec<Resources>, reserved: TileType) -> (r: Tile)
    ensures
        r.x == x && r.z == z && r.name@ == name@ && r.resources == resources,
        r.tile_type == TileType::Empty && r.reserved == reserved,
{
    Tile { x, z, tile_type: TileType::Empty, name: name.to_owned(), resources, reserved }
}

/// The spaces of the Tharsis map, all empty.
fn tharsis() -> (r: Vec<Tile>)
    ensures
        r@.len() == 61,
{
    vec![
        tile(0, 4, "", vec![Resources::Steel, Resources::Steel], TileType::Empty),
        tile(0, 5, "", vec![Resources::Steel, Resources::Steel], TileType::Ocean),
        tile(0, 6, "", vec![], TileType::Empty),
        tile(0, 7, "", vec![Resources::Card], TileType::Ocean),
        tile(0, 8, "", vec![], TileType::Ocean),
        tile(1, 3, "", vec![], TileType::Empty),
        tile(1, 4, "Tharsis Tholus", vec![Resources::Steel], TileType::Empty),
        tile(1, 5, "", vec![], TileType::Empty),
        tile(1, 6, "", vec![], TileType::Empty),
        tile(1, 7, "", vec![], TileType::Empty),
        tile(1, 8, "", vec![Resources::Card, Resources::Card], TileType::Ocean),
        tile(2, 2, "Ascraeus Mons", vec![Resources::Card], TileType::Empty),
        tile(2, 3, "", vec![], TileType::Empty),
        tile(2, 4, "", vec![], TileType::Empty),
        tile(2, 5, "", vec![], TileType::Empty),
        tile(2, 6, "", vec![], TileType::Empty),
        tile(2, 7, "", vec![], TileType::Empty),
        tile(2, 8, "", vec![Resources::Steel], TileType::Empty),
        tile(3, 1, "Pavonis Mons", vec![Resources::Plant, Resources::Titanium], TileType::Empty),
        tile(3, 2, "", vec![Resources::Plant], TileType::Empty),
        tile(3, 3, "", vec![Resources::Plant], TileType::Empty),
        tile(3, 4, "", vec![Resources::Plant], TileType::Empty),
        tile(3, 5, "", vec![Resources::Plant, Resources::Plant], TileType::Empty),
        tile(3, 6, "", vec![Resources::Plant], TileType::Empty),
        tile(3, 7, "", vec![Resources::Plant], TileType::Empty),
        tile(3, 8, "", vec![Resources::Plant, Resources::Plant], TileType::Ocean),
        tile(4, 0, "Arsia Mons", vec![Resources::Plant, Resources::Plant], TileType::Empty),
        tile(4, 1, "", vec![Resources::Plant, Resources::Plant], TileType::Empty),
        tile(4, 2, "Noctis City", vec![Resources::Plant, Resources::Plant], TileType::City),
        tile(4, 3, "", vec![Resources::Plant, Resources::Plant], TileType::Ocean),
        tile(4, 4, "", vec![Resources::Plant, Resources::Plant], TileType::Ocean),
        tile(4, 5, "", vec![Resources::Plant, Resources::Plant], TileType::Ocean),
        tile(4, 6, "", vec![Resources::Plant, Resources::Plant], TileType::Empty),
        tile(4, 7, "", vec![Resources::Plant, Resources::Plant], TileType::Empty),
        tile(4, 8, "", vec![Resources::Plant, Resources::Plant], TileType::Empty),
        tile(5, 0, "", vec![Resources::Plant], TileType::Empty),
        tile(5, 1, "", vec![Resources::Plant, Resources::Plant], TileType::Empty),
        tile(5, 2, "", vec![Resources::Plant], TileType::Empty),
        tile(5, 3, "", vec![Resources::Plant], TileType::Empty),
        tile(5, 4, "", vec![Resources::Plant], TileType::Empty),
        tile(5, 5, "", vec![Resources::Plant], TileType::Ocean),
        tile(5, 6, "", vec![Resources::Plant], TileType::Ocean),
        tile(5, 7, "", vec![Resources::Plant], TileType::Ocean),
        tile(6, 0, "", vec![], TileType::Empty),
        tile(6, 1, "", vec![], TileType::Empty),
        tile(6, 2, "", vec![], TileType::Empty),
        tile(6, 3, "", vec![], TileType::Empty),
        tile(6, 4, "", vec![], TileType::Empty),
        tile(6, 5, "", vec![Resources::Steel], TileType::Empty),
        tile(6, 6, "", vec![], TileType::Empty),
        tile(7, 0, "", vec![Resources::Steel, Resources::Steel], TileType::Empty),
        tile(7, 1, "", vec![], TileType::Empty),
        tile(7, 2, "", vec![Resources::Card], TileType::Empty),
        tile(7, 3, "", vec![Resources::Card], TileType::Empty),
        tile(7, 4, "", vec![], TileType::Empty),
        tile(7, 5, "", vec![Resources::Titanium], TileType::Empty),
        tile(8, 0, "", vec![Resources::Steel], TileType::Empty),
        tile(8, 1, "", vec![Resources::Steel, Resources::Steel], TileType::Empty),
        tile(8, 2, "", vec![], TileType::Empty),
        tile(8, 3, "", vec![], TileType::Empty),
        tile(8, 4, "", vec![Resources::Titanium, Resources::Titanium], TileType::Ocean),
    ]
}

fn special_tiles() -> (r: Vec<SpecialTile>)
    ensures
        r@.len() == 2,
{
    vec![
        SpecialTile {
            name: "Phobos Space Haven".to_owned(),
            tile_type: TileType::Empty,
            resources: Vec::new(),
            reserved: TileType::City,
        },
        SpecialTile {
            name: "Ganymede Colony".to_owned(),
            tile_type: TileType::Empty,
            resources: Vec::new(),
            reserved: TileType::City,
        },
    ]
}

impl GameState {
    /// Seats one more player, numbered after the existing ones.
    pub fn add_player(&mut self)
        ensures
            final(self)@ == (GameStateView {
                players: old(self)@.players.push(initial_player(old(self)@.players.len() as usize)),
                ..old(self)@
            }),
    {
        let p = Player::new(self.players.len());
        self.players.push(p);
        assert(self@.players =~= old(self)@.players.push(initial_player(old(self)@.players.len() as usize)));
    }

    pub fn get_player(&self, id: usize) -> (r: &Player)
        requires
            id < self.players@.len(),
        ensures
            *r == self.players@[id as int],
    {
        &self.players[id]
    }

    pub fn get_player_mut(&mut self, id: usize) -> (r: &mut Player)
        requires
            id < old(self).players@.len(),
        ensures
            *r == old(self).players@[id as int],
            final(self).players@ == old(self).players@.update(id as int, *final(r)),
            final(self).phase == old(self).phase,
    {
        &mut self.players[id]
    }

    /// A match at generation 0 in phase `Init`: the cards of `used_decks` are
    /// split into a shuffled corporation pile and a shuffled project pile,
    /// `player_count` fresh players are seated and a random seat starts.
    pub fn new(cards: &Vec<Card>, used_decks: &Vec<Deck>, player_count: usize) -> (r: GameState)
        requires
            player_count > 0,
        ensures
            r@.phase == Phase::Init,
            r@.generation == 0,
            r@.start_player < player_count,
            r@.active_player == r@.start_player,
            r@.oxygen == 0 && r@.temperature == -30 && r@.oceans_placed == 0,
            r@.cards_in_play.len() == 0,
            r@.players.len() == player_count,
            forall|i: int| 0 <= i < player_count ==> #[trigger] r@.players[i] == initial_player(i as usize),
            r@.project_draw.to_multiset() == dealt_cards(cards@, used_decks@, false, cards@.len() as int).to_multiset(),
            r@.project_draw.len() == dealt_cards(cards@, used_decks@, false, cards@.len() as int).len(),
            r@.corporation_draw.to_multiset() == dealt_cards(cards@, used_decks@, true, cards@.len() as int).to_multiset(),
            r@.corporation_draw.len() == dealt_cards(cards@, used_decks@, true, cards@.len() as int).len(),
            r@.project_discard.len() == 0,
            r@.corporation_discard.len() == 0,
            r@.tiles.len() == 61,
            no_duplicates(r@),
    {
        let projects = deal(cards, used_decks, false);
        let corporations = deal(cards, used_decks, true);
        let start_player = (random_u32() as usize) % player_count;
        let mut state = GameState {
            phase: Phase::Init,
            generation: 0,
            start_player,
            active_player: start_player,
            oxygen: 0,
            temperature: -30,
            oceans_placed: 0,
            tiles: tharsis(),
            special_tiles: special_tiles(),
            milestones: vec![
                Milestone { name: Milestones::Terraformer, owner: None },
                Milestone { name: Milestones::Mayor, owner: None },
                Milestone { name: Milestones::Gardener, owner: None },
                Milestone { name: Milestones::Builder, owner: None },
                Milestone { name: Milestones::Planner, owner: None },
            ],
            awards: vec![
                Award { name: Awards::Landlord, owner: None },
                Award { name: Awards::Banker, owner: None },
                Award { name: Awards::Scientist, owner: None },
                Award { name: Awards::Thermalist, owner: None },
                Award { name: Awards::Miner, owner: None },
            ],
            cards_in_play: Vec::new(),
            players: Vec::new(),
            project_pile: CardPile::new(projects),
            corporation_pile: CardPile::new(corporations),
        };
        proof {
            broadcast use vstd::multiset::group_multiset_axioms, vstd::seq_lib::group_to_multiset_ensures;

            assert(state@.project_discard.to_multiset() =~= Multiset::empty());
            assert(state@.corporation_discard.to_multiset() =~= Multiset::empty());
            assert(state@.cards_in_play.map_values(|o: OwnedCard| o.card) =~= Seq::<usize>::empty());
            assert(players_cards(state@.players) =~= Multiset::empty());
            assert(all_cards(state@) =~= state@.project_draw.to_multiset().add(
                state@.corporation_draw.to_multiset(),
            ));
        }
        let mut i: usize = 0;
        while i < player_count
            invariant
                i <= player_count,
                state@.players.len() == i,
                forall|j: int| 0 <= j < i ==> #[trigger] state@.players[j] == initial_player(j as usize),
                state@.phase == Phase::Init,
                state@.generation == 0,
                state@.start_player < player_count,
                state@.active_player == state@.start_player,
                state@.oxygen == 0 && state@.temperature == -30 && state@.oceans_placed == 0,
                state@.cards_in_play.len() == 0,
                state@.project_draw.to_multiset() == dealt_cards(cards@, used_decks@, false, cards@.len() as int).to_multiset(),
                state@.project_draw.len() == dealt_cards(cards@, used_decks@, false, cards@.len() as int).len(),
                state@.corporation_draw.to_multiset() == dealt_cards(cards@, used_decks@, true, cards@.len() as int).to_multiset(),
                state@.corporation_draw.len() == dealt_cards(cards@, used_decks@, true, cards@.len() as int).len(),
                state@.project_discard.len() == 0,
                state@.corporation_discard.len() == 0,
                state@.tiles.len() == 61,
                players_cards(state@.players) =~= Multiset::empty(),
                all_cards(state@) == state@.project_draw.to_multiset().add(state@.corporation_draw.to_multiset()),
            decreases player_count - i,
        {
            let ghost before = state@.players;
            state.add_player();
            proof {
                broadcast use vstd::multiset::group_multiset_axioms, vstd::seq_lib::group_to_multiset_ensures;

                assert(Seq::<usize>::empty().to_multiset() =~= Multiset::empty());
                assert(crate::commands::slot_cards(None) =~= Seq::<usize>::empty());
                assert(state@.players.drop_last() =~= before);
                assert(player_cards(initial_player(i)) =~= Multiset::empty());
            }
            i = i + 1;
        }
        let total = cards.len();
        proof {
            broadcast use vstd::multiset::group_multiset_axioms;

            let n = total as int;
            lemma_dealt_counts(cards@, used_decks@, false, n);
            lemma_dealt_counts(cards@, used_decks@, true, n);
        }
        state
    }
}

} // verus!
