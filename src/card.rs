use vstd::prelude::*;

use crate::text::{
    chars_of, is_word, parse_i32, parse_u32, parse_usize, parsed_i32, parsed_u32, parsed_usize,
};

verus! {

/// A tag printed on a card; the tags of a player's cards in play satisfy other
/// cards' local requirements.
#[derive(Clone, Copy, Debug, PartialEq, Eq, Structural)]
pub enum Tags {
    Science,
    Building,
    Space,
    Microbe,
    Plant,
    Animal,
    City,
    Earth,
    Jovian,
    Energy,
    Event,
    Special,
}

/// A signed amount of one kind of resource. `Special` stands for an effect the
/// engine cannot interpret; it is skipped wherever deltas are applied.
#[derive(Clone, Copy, Debug, PartialEq, Eq, Structural)]
pub enum Resource {
    MegaCredits(i32),
    Steel(i32),
    Titanium(i32),
    Plants(i32),
    Energy(i32),
    Heat(i32),
    Special,
}

#[derive(Clone, Copy, Debug, PartialEq, Eq, Structural)]
pub enum CardType {
    Active,
    Automation,
    Corporation,
    Event,
    Prelude,
    Project,
}

#[derive(Clone, Copy, Debug, PartialEq, Eq, Structural)]
pub enum Deck {
    Basic,
    Colonies,
    Corporate,
    Prelude,
    Promo,
    Venus,
}

#[derive(Clone, Copy, Debug, PartialEq, Eq, Structural)]
pub enum HoldableResource {
    Animals,
    Science,
    Microbes,
    Unparsed,
    Nothing,
}

#[derive(Clone, Copy, Debug, PartialEq, Eq, Structural)]
pub enum NumberOrRef {
    Number(i32),
    Ref,
}

#[derive(Clone, Copy, Debug, PartialEq, Eq, Structural)]
pub enum BoolOrRef {
    No,
    Ref,
}

/// Inclusive bounds on the global board parameters under which a card may be played.
#[derive(Clone, Copy, Debug, PartialEq, Eq, Structural)]
pub struct GlobalRequirements {
    pub min_temperature: i32,
    pub max_temperature: i32,
    pub min_oxygen: u32,
    pub max_oxygen: u32,
    pub min_ocean: u32,
    pub max_ocean: u32,
}

#[derive(Clone, Debug)]
pub struct Requirements {
    pub global: GlobalRequirements,
    /// Tags the player must own among their cards in play, one instance each.
    pub local: Vec<Tags>,
}

#[derive(Clone, Copy, Debug, PartialEq, Eq, Structural)]
pub struct TerraformingEffect {
    pub temperature: NumberOrRef,
    pub oxygen: NumberOrRef,
    pub ocean: NumberOrRef,
    pub tr: NumberOrRef,
    pub vp: NumberOrRef,
}

#[derive(Clone, Copy, Debug, PartialEq, Eq, Structural)]
pub struct Interactions {
    pub tile_placement: BoolOrRef,
    pub num_actions_or_effect: NumberOrRef,
    pub depends_on_opponents: BoolOrRef,
    pub affects_opponents: BoolOrRef,
    pub holds_resources: HoldableResource,
}

#[derive(Clone, Debug)]
pub struct Text {
    pub action_or_ongoing_effect_text: String,
    pub onetime_effect_text: String,
}

/// One entry of the card catalog. Catalog entries are never mutated during a
/// match; every container of the game refers to them by their catalog index.
#[derive(Clone, Debug)]
pub struct Card {
    pub name: String,
    pub id: String,
    pub cost: u32,
    pub card_type: CardType,
    pub deck: Deck,
    pub requirements: Requirements,
    pub tags: Vec<Tags>,
    pub production: Vec<Resource>,
    pub resources: Vec<Resource>,
    pub resources_on_card: HoldableResource,
    pub terraforming_effect: TerraformingEffect,
    pub interactions: Interactions,
    pub text: Text,
}

/// Card `c` exists in the catalog and carries the identifier `id`.
pub open spec fn has_id(catalog: Seq<Card>, c: usize, id: Seq<char>) -> bool {
    c < catalog.len() && catalog[c as int].id@ == id
}

/// Card `c` exists in the catalog and is a corporation.
pub open spec fn is_corporation(catalog: Seq<Card>, c: usize) -> bool {
    c < catalog.len() && catalog[c as int].card_type == CardType::Corporation
}

/// Tells whether catalog entry `c` carries the identifier `id`; indices outside
/// the catalog carry none.
pub fn card_has_id(catalog: &Vec<Card>, c: usize, id: &String) -> (r: bool)
    ensures
        r == has_id(catalog@, c, id@),
{
    c < catalog.len() && catalog[c].id == *id
}

/// `c` is the first catalog index whose card carries `id`.
pub open spec fn is_first_named(catalog: Seq<Card>, id: Seq<char>, c: usize) -> bool {
    has_id(catalog, c, id) && forall|j: usize| j < c ==> !has_id(catalog, j, id)
}

/// The first catalog index whose card carries `id`, if any does.
pub open spec fn first_named(catalog: Seq<Card>, id: Seq<char>) -> Option<usize> {
    if exists|c: usize| has_id(catalog, c, id) {
        Some(choose|c: usize| is_first_named(catalog, id, c))
    } else {
        None
    }
}

proof fn lemma_first_named(catalog: Seq<Card>, id: Seq<char>, c: usize)
    requires
        is_first_named(catalog, id, c),
    ensures
        first_named(catalog, id) == Some(c),
{
    let d = choose|d: usize| is_first_named(catalog, id, d);
    assert(is_first_named(catalog, id, d));
    if d < c {
        assert(!has_id(catalog, d, id));
    } else if c < d {
        assert(!has_id(catalog, c, id));
    }
}

/// The catalog index of the first card whose identifier is `id`.
pub fn find_card(catalog: &Vec<Card>, id: &String) -> (r: Option<usize>)
    ensures
        r == first_named(catalog@, id@),
        r is Some ==> has_id(catalog@, r->Some_0, id@),
{
    let mut i: usize = 0;
    while i < catalog.len()
        invariant
            i <= catalog.len(),
            forall|j: usize| j < i ==> !has_id(catalog@, j, id@),
        decreases catalog.len() - i,
    {
        if card_has_id(catalog, i, id) {
            proof {
                lemma_first_named(catalog@, id@, i);
            }
            return Some(i);
        }
        i = i + 1;
    }
    assert(forall|j: usize| !has_id(catalog@, j, id@)) by {
        assert(forall|j: usize| j >= catalog@.len() ==> !has_id(catalog@, j, id@));
    }
    None
}

// ---------------------------------------------------------------------------
// Reading catalog fields from their spreadsheet text
// ---------------------------------------------------------------------------

/// The tags a tag-count cell stands for: a count of `tag`, or one `Special`
/// for "Ref"; `None` for any other text.
pub open spec fn tags_cell(number: Seq<char>, tag: Tags) -> Option<Seq<Tags>> {
    match parsed_usize(number) {
        Some(n) => Some(Seq::new(n as nat, |i: int| tag)),
        None => if number == "Ref"@ {
            Some(seq![Tags::Special])
        } else {
            None
        },
    }
}

/// The delta a resource cell stands for, given the kind it is of: a number,
/// an effect the engine cannot read for "Ref", nothing for "No" and
/// "Floaters"; `None` for any other text.
pub open spec fn resource_cell(number: Seq<char>, resource: Resource) -> Option<Option<Resource>> {
    match parsed_i32(number) {
        Some(v) => Some(
            match resource {
                Resource::MegaCredits(_) => Some(Resource::MegaCredits(v)),
                Resource::Steel(_) => Some(Resource::Steel(v)),
                Resource::Titanium(_) => Some(Resource::Titanium(v)),
                Resource::Plants(_) => Some(Resource::Plants(v)),
                Resource::Energy(_) => Some(Resource::Energy(v)),
                Resource::Heat(_) => Some(Resource::Heat(v)),
                Resource::Special => None,
            },
        ),
        None => if number == "Ref"@ {
            Some(Some(Resource::Special))
        } else if number == "No"@ || number == "Floaters"@ {
            Some(None)
        } else {
            None
        },
    }
}

impl Tags {
    /// The tags that a tag-count cell reading `number` stands for.
    pub fn from_string(number: &String, tag: Tags) -> (r: Vec<Tags>)
        requires
            tags_cell(number@, tag) is Some,
        ensures
            r@ == tags_cell(number@, tag)->Some_0,
    {
        let text = chars_of(number.as_str());
        match parse_usize(&text) {
            Some(n) => {
                let mut r: Vec<Tags> = Vec::new();
                let mut i: usize = 0;
                while i < n
                    invariant
                        i <= n,
                        r@ == Seq::new(i as nat, |k: int| tag),
                    decreases n - i,
                {
                    r.push(tag);
                    i = i + 1;
                    assert(r@ =~= Seq::new(i as nat, |k: int| tag));
                }
                r
            },
            None => {
                proof {
                    reveal_strlit("Ref");
                }
                vec![Tags::Special]
            },
        }
    }
}

impl Resource {
    /// The delta that a resource cell reading `number` stands for, of the kind of `resource`.
    pub fn from_string(number: &String, resource: Resource) -> (r: Option<Resource>)
        requires
            resource_cell(number@, resource) is Some,
        ensures
            r == resource_cell(number@, resource)->Some_0,
    {
        let text = chars_of(number.as_str());
        match parse_i32(&text) {
            Some(count) => match resource {
                Resource::MegaCredits(_) => Some(Resource::MegaCredits(count)),
                Resource::Steel(_) => Some(Resource::Steel(count)),
                Resource::Titanium(_) => Some(Resource::Titanium(count)),
                Resource::Plants(_) => Some(Resource::Plants(count)),
                Resource::Energy(_) => Some(Resource::Energy(count)),
                Resource::Heat(_) => Some(Resource::Heat(count)),
                Resource::Special => None,
            },
            None => {
                if is_word(&text, "Ref") {
                    Some(Resource::Special)
                } else {
                    None
                }
            },
        }
    }
}

/// The card type a cell names; unknown names read as `Active`.
pub open spec fn card_type_named(s: Seq<char>) -> CardType {
    if s == "Automation"@ {
        CardType::Automation
    } else if s == "Corporation"@ {
        CardType::Corporation
    } else if s == "Event"@ {
        CardType::Event
    } else if s == "Prelude"@ {
        CardType::Prelude
    } else {
        CardType::Active
    }
}

/// The deck a cell names; unknown names read as `Basic`.
pub open spec fn deck_named(s: Seq<char>) -> Deck {
    if s == "Colonies"@ {
        Deck::Colonies
    } else if s == "Corporate"@ {
        Deck::Corporate
    } else if s == "Prelude"@ {
        Deck::Prelude
    } else if s == "Promo"@ {
        Deck::Promo
    } else if s == "Venus"@ {
        Deck::Venus
    } else {
        Deck::Basic
    }
}

/// The resource a card can hold, as a cell names it; unknown names read as `Nothing`.
pub open spec fn holdable_named(s: Seq<char>) -> HoldableResource {
    if s == "Animals"@ {
        HoldableResource::Animals
    } else if s == "Science"@ {
        HoldableResource::Science
    } else if s == "Microbes"@ {
        HoldableResource::Microbes
    } else if s == "Ref"@ || s == "Floaters"@ {
        HoldableResource::Unparsed
    } else {
        HoldableResource::Nothing
    }
}

/// A number cell; anything that is not an `i32` reads as `Ref`.
pub open spec fn number_or_ref_named(s: Seq<char>) -> NumberOrRef {
    match parsed_i32(s) {
        Some(v) => NumberOrRef::Number(v),
        None => NumberOrRef::Ref,
    }
}

/// A yes/no cell; only "Ref" reads as `Ref`.
pub open spec fn bool_or_ref_named(s: Seq<char>) -> BoolOrRef {
    if s == "Ref"@ {
        BoolOrRef::Ref
    } else {
        BoolOrRef::No
    }
}

impl CardType {
    pub fn from_text(card_type: &String) -> (r: CardType)
        ensures
            r == card_type_named(card_type@),
    {
        let t = chars_of(card_type.as_str());
        if is_word(&t, "Automation") {
            CardType::Automation
        } else if is_word(&t, "Corporation") {
            CardType::Corporation
        } else if is_word(&t, "Event") {
            CardType::Event
        } else if is_word(&t, "Prelude") {
            CardType::Prelude
        } else {
            CardType::Active
        }
    }
}

impl Deck {
    pub fn from_text(deck: &String) -> (r: Deck)
        ensures
            r == deck_named(deck@),
    {
        let t = chars_of(deck.as_str());
        if is_word(&t, "Colonies") {
            Deck::Colonies
        } else if is_word(&t, "Corporate") {
            Deck::Corporate
        } else if is_word(&t, "Prelude") {
            Deck::Prelude
        } else if is_word(&t, "Promo") {
            Deck::Promo
        } else if is_word(&t, "Venus") {
            Deck::Venus
        } else {
            Deck::Basic
        }
    }
}

impl HoldableResource {
    pub fn from_text(resource: &String) -> (r: HoldableResource)
        ensures
            r == holdable_named(resource@),
    {
        let t = chars_of(resource.as_str());
        if is_word(&t, "Animals") {
            HoldableResource::Animals
        } else if is_word(&t, "Science") {
            HoldableResource::Science
        } else if is_word(&t, "Microbes") {
            HoldableResource::Microbes
        } else if is_word(&t, "Ref") || is_word(&t, "Floaters") {
            HoldableResource::Unparsed
        } else {
            HoldableResource::Nothing
        }
    }
}

impl NumberOrRef {
    pub fn from_text(number: &String) -> (r: NumberOrRef)
        ensures
            r == number_or_ref_named(number@),
    {
        let t = chars_of(number.as_str());
        match parse_i32(&t) {
            Some(v) => NumberOrRef::Number(v),
            None => NumberOrRef::Ref,
        }
    }
}

impl BoolOrRef {
    pub fn from_text(val: &String) -> (r: BoolOrRef)
        ensures
            r == bool_or_ref_named(val@),
    {
        let t = chars_of(val.as_str());
        if is_word(&t, "Ref") {
            BoolOrRef::Ref
        } else {
            BoolOrRef::No
        }
    }
}

// ---------------------------------------------------------------------------
// Spreadsheet rows
// ---------------------------------------------------------------------------

/// `n` copies of `t`.
pub open spec fn repeated(t: Tags, n: nat) -> Seq<Tags> {
    Seq::new(n, |i: int| t)
}

fn repeat_tag(t: Tags, n: usize) -> (r: Vec<Tags>)
    ensures
        r@ == repeated(t, n as nat),
{
    let mut r: Vec<Tags> = Vec::new();
    let mut i: usize = 0;
    while i < n
        invariant
            i <= n,
            r@ == repeated(t, i as nat),
        decreases n - i,
    {
        r.push(t);
        i = i + 1;
        assert(r@ =~= repeated(t, i as nat));
    }
    r
}

/// One row of the card spreadsheet, every cell as it was read.
#[derive(Clone, Debug)]
pub struct CSVCard {
    pub card_name: String,
    pub id: String,
    pub cost: String,
    pub card_type: String,
    pub deck: String,
    pub req_global_temperature: i32,
    pub req_global_oxygen: u32,
    pub req_global_ocean: u32,
    pub req_global_venus: i32,
    pub req_global_max_temperature: i32,
    pub req_global_max_oxygen: u32,
    pub req_global_max_ocean: u32,
    pub req_global_max_venus: i32,
    pub req_local_science: u32,
    pub req_local_building: u32,
    pub req_local_space: u32,
    pub req_local_microbe: u32,
    pub req_local_plant: u32,
    pub req_local_animal: u32,
    pub req_local_city: String,
    pub req_local_earth: u32,
    pub req_local_jovian: u32,
    pub req_local_energy: u32,
    pub req_local_venus: u32,
    pub req_local_other: String,
    pub tag_science: String,
    pub tag_building: String,
    pub tag_space: String,
    pub tag_microbe: String,
    pub tag_plant: String,
    pub tag_animal: String,
    pub tag_city: String,
    pub tag_earth: String,
    pub tag_jovian: String,
    pub tag_energy: String,
    pub tag_venus: String,
    pub tag_event: String,
    pub prod_megacredit: String,
    pub prod_steel: String,
    pub prod_titanium: String,
    pub prod_plant: String,
    pub prod_energy: String,
    pub prod_heat: String,
    pub inv_megacredit: String,
    pub inv_steel: String,
    pub inv_titanium: String,
    pub inv_plant: String,
    pub inv_energy: String,
    pub inv_heat: String,
    pub other_resources_on_cards: String,
    pub temperature: String,
    pub oxygen: String,
    pub ocean: String,
    pub venus: String,
    pub tr: String,
    pub vp: String,
    pub tile_colony_placement: String,
    pub num_actions_and_or_effect: String,
    pub depends_on_opponents: String,
    pub affects_opponents: String,
    pub holds_resources: String,
    pub action_or_on_going_effect_text: String,
    pub one_time_effect_text: String,
}

/// Every tag and resource cell of the row holds text the importer reads.
pub open spec fn csv_readable(c: CSVCard) -> bool {
    &&& tags_cell(c.req_local_city@, Tags::City) is Some
    &&& tags_cell(c.tag_science@, Tags::Science) is Some
    &&& tags_cell(c.tag_building@, Tags::Building) is Some
    &&& tags_cell(c.tag_space@, Tags::Space) is Some
    &&& tags_cell(c.tag_microbe@, Tags::Microbe) is Some
    &&& tags_cell(c.tag_plant@, Tags::Plant) is Some
    &&& tags_cell(c.tag_animal@, Tags::Animal) is Some
    &&& tags_cell(c.tag_city@, Tags::City) is Some
    &&& tags_cell(c.tag_earth@, Tags::Earth) is Some
    &&& tags_cell(c.tag_jovian@, Tags::Jovian) is Some
    &&& tags_cell(c.tag_energy@, Tags::Energy) is Some
    &&& tags_cell(c.tag_event@, Tags::Event) is Some
    &&& resource_cell(c.prod_megacredit@, Resource::MegaCredits(0)) matches Some(Some(_))
    &&& resource_cell(c.prod_steel@, Resource::Steel(0)) matches Some(Some(_))
    &&& resource_cell(c.prod_titanium@, Resource::Titanium(0)) matches Some(Some(_))
    &&& resource_cell(c.prod_plant@, Resource::Plants(0)) matches Some(Some(_))
    &&& resource_cell(c.prod_energy@, Resource::Energy(0)) matches Some(Some(_))
    &&& resource_cell(c.prod_heat@, Resource::Heat(0)) matches Some(Some(_))
    &&& resource_cell(c.inv_megacredit@, Resource::MegaCredits(0)) matches Some(Some(_))
    &&& resource_cell(c.inv_steel@, Resource::Steel(0)) matches Some(Some(_))
    &&& resource_cell(c.inv_titanium@, Resource::Titanium(0)) matches Some(Some(_))
    &&& resource_cell(c.inv_plant@, Resource::Plants(0)) matches Some(Some(_))
    &&& resource_cell(c.inv_energy@, Resource::Energy(0)) matches Some(Some(_))
    &&& resource_cell(c.inv_heat@, Resource::Heat(0)) matches Some(Some(_))
}

/// The tags a row requires the player to own.
pub open spec fn csv_local_requirements(c: CSVCard) -> Seq<Tags> {
    repeated(Tags::Science, c.req_local_science as nat) + repeated(Tags::Building, c.req_local_building as nat) + repeated(Tags::Space, c.req_local_space as nat) + repeated(Tags::Microbe, c.req_local_microbe as nat) + repeated(Tags::Plant, c.req_local_plant as nat) + repeated(Tags::Animal, c.req_local_animal as nat) + tags_cell(c.req_local_city@, Tags::City)->Some_0 + repeated(Tags::Earth, c.req_local_earth as nat) + repeated(Tags::Jovian, c.req_local_jovian as nat) + repeated(Tags::Energy, c.req_local_energy as nat) + if c.req_local_other@ == "Ref"@ { seq![Tags::Special] } else { Seq::empty() }
}

/// The tags printed on the card of a row.
pub open spec fn csv_tags(c: CSVCard) -> Seq<Tags> {
    tags_cell(c.tag_science@, Tags::Science)->Some_0 + tags_cell(c.tag_building@, Tags::Building)->Some_0 + tags_cell(c.tag_space@, Tags::Space)->Some_0 + tags_cell(c.tag_microbe@, Tags::Microbe)->Some_0 + tags_cell(c.tag_plant@, Tags::Plant)->Some_0 + tags_cell(c.tag_animal@, Tags::Animal)->Some_0 + tags_cell(c.tag_city@, Tags::City)->Some_0 + tags_cell(c.tag_earth@, Tags::Earth)->Some_0 + tags_cell(c.tag_jovian@, Tags::Jovian)->Some_0 + tags_cell(c.tag_energy@, Tags::Energy)->Some_0 + tags_cell(c.tag_event@, Tags::Event)->Some_0
}

/// The production deltas of a row, one per resource kind.
pub open spec fn csv_production(c: CSVCard) -> Seq<Resource> {
    seq![resource_cell(c.prod_megacredit@, Resource::MegaCredits(0))->Some_0->Some_0, resource_cell(c.prod_steel@, Resource::Steel(0))->Some_0->Some_0, resource_cell(c.prod_titanium@, Resource::Titanium(0))->Some_0->Some_0, resource_cell(c.prod_plant@, Resource::Plants(0))->Some_0->Some_0, resource_cell(c.prod_energy@, Resource::Energy(0))->Some_0->Some_0, resource_cell(c.prod_heat@, Resource::Heat(0))->Some_0->Some_0]
}

/// The resources deltas of a row, one per resource kind.
pub open spec fn csv_resources(c: CSVCard) -> Seq<Resource> {
    seq![resource_cell(c.inv_megacredit@, Resource::MegaCredits(0))->Some_0->Some_0, resource_cell(c.inv_steel@, Resource::Steel(0))->Some_0->Some_0, resource_cell(c.inv_titanium@, Resource::Titanium(0))->Some_0->Some_0, resource_cell(c.inv_plant@, Resource::Plants(0))->Some_0->Some_0, resource_cell(c.inv_energy@, Resource::Energy(0))->Some_0->Some_0, resource_cell(c.inv_heat@, Resource::Heat(0))->Some_0->Some_0]
}

/// The cost a row gives: its number, or 0 when the cell holds none.
pub open spec fn csv_cost(c: CSVCard) -> u32 {
    match parsed_u32(c.cost@) {
        Some(v) => v,
        None => 0,
    }
}

impl Card {
    /// The catalog entry a spreadsheet row describes. A row without an
    /// identifier is known by its name.
    pub fn from_csv(csv_card: CSVCard) -> (r: Card)
        requires
            csv_readable(csv_card),
        ensures
            r.name@ == csv_card.card_name@,
            r.id@ == if csv_card.id@.len() == 0 {
                csv_card.card_name@
            } else {
                csv_card.id@
            },
            r.cost == csv_cost(csv_card),
            r.card_type == card_type_named(csv_card.card_type@),
            r.deck == deck_named(csv_card.deck@),
            r.requirements.global == (GlobalRequirements {
                min_temperature: csv_card.req_global_temperature,
                max_temperature: csv_card.req_global_max_temperature,
                min_oxygen: csv_card.req_global_oxygen,
                max_oxygen: csv_card.req_global_max_oxygen,
                min_ocean: csv_card.req_global_ocean,
                max_ocean: csv_card.req_global_max_ocean,
            }),
            r.requirements.local@ == csv_local_requirements(csv_card),
            r.tags@ == csv_tags(csv_card),
            r.production@ == csv_production(csv_card),
            r.resources@ == csv_resources(csv_card),
            r.resources_on_card == holdable_named(csv_card.other_resources_on_cards@),
            r.terraforming_effect == (TerraformingEffect {
                temperature: number_or_ref_named(csv_card.temperature@),
                oxygen: number_or_ref_named(csv_card.oxygen@),
                ocean: number_or_ref_named(csv_card.ocean@),
                tr: number_or_ref_named(csv_card.tr@),
                vp: number_or_ref_named(csv_card.vp@),
            }),
            r.interactions == (Interactions {
                tile_placement: bool_or_ref_named(csv_card.tile_colony_placement@),
                num_actions_or_effect: number_or_ref_named(csv_card.num_actions_and_or_effect@),
                depends_on_opponents: bool_or_ref_named(csv_card.depends_on_opponents@),
                affects_opponents: bool_or_ref_named(csv_card.affects_opponents@),
                holds_resources: holdable_named(csv_card.holds_resources@),
            }),
            r.text.action_or_ongoing_effect_text@ == csv_card.action_or_on_going_effect_text@,
            r.text.onetime_effect_text@ == csv_card.one_time_effect_text@,
    {
        let c = csv_card;
        let cost_text = chars_of(c.cost.as_str());
        let cost = match parse_u32(&cost_text) {
            Some(n) => n,
            None => 0,
        };
        let card_type = CardType::from_text(&c.card_type);
        let deck = Deck::from_text(&c.deck);
        let mut local: Vec<Tags> = Vec::new();
        local.append(&mut repeat_tag(Tags::Science, c.req_local_science as usize));
        local.append(&mut repeat_tag(Tags::Building, c.req_local_building as usize));
        local.append(&mut repeat_tag(Tags::Space, c.req_local_space as usize));
        local.append(&mut repeat_tag(Tags::Microbe, c.req_local_microbe as usize));
        local.append(&mut repeat_tag(Tags::Plant, c.req_local_plant as usize));
        local.append(&mut repeat_tag(Tags::Animal, c.req_local_animal as usize));
        local.append(&mut Tags::from_string(&c.req_local_city, Tags::City));
        local.append(&mut repeat_tag(Tags::Earth, c.req_local_earth as usize));
        local.append(&mut repeat_tag(Tags::Jovian, c.req_local_jovian as usize));
        local.append(&mut repeat_tag(Tags::Energy, c.req_local_energy as usize));
        let other_text = chars_of(c.req_local_other.as_str());
        if is_word(&other_text, "Ref") {
            local.push(Tags::Special);
        }
        let mut tags: Vec<Tags> = Vec::new();
        tags.append(&mut Tags::from_string(&c.tag_science, Tags::Science));
        tags.append(&mut Tags::from_string(&c.tag_building, Tags::Building));
        tags.append(&mut Tags::from_string(&c.tag_space, Tags::Space));
        tags.append(&mut Tags::from_string(&c.tag_microbe, Tags::Microbe));
        tags.append(&mut Tags::from_string(&c.tag_plant, Tags::Plant));
        tags.append(&mut Tags::from_string(&c.tag_animal, Tags::Animal));
        tags.append(&mut Tags::from_string(&c.tag_city, Tags::City));
        tags.append(&mut Tags::from_string(&c.tag_earth, Tags::Earth));
        tags.append(&mut Tags::from_string(&c.tag_jovian, Tags::Jovian));
        tags.append(&mut Tags::from_string(&c.tag_energy, Tags::Energy));
        tags.append(&mut Tags::from_string(&c.tag_event, Tags::Event));
        let mut production: Vec<Resource> = Vec::new();
        match Resource::from_string(&c.prod_megacredit, Resource::MegaCredits(0)) {
            Some(r) => production.push(r),
            None => {},
        }
        match Resource::from_string(&c.prod_steel, Resource::Steel(0)) {
            Some(r) => production.push(r),
            None => {},
        }
        match Resource::from_string(&c.prod_titanium, Resource::Titanium(0)) {
            Some(r) => production.push(r),
            None => {},
        }
        match Resource::from_string(&c.prod_plant, Resource::Plants(0)) {
            Some(r) => production.push(r),
            None => {},
        }
        match Resource::from_string(&c.prod_energy, Resource::Energy(0)) {
            Some(r) => production.push(r),
            None => {},
        }
        match Resource::from_string(&c.prod_heat, Resource::Heat(0)) {
            Some(r) => production.push(r),
            None => {},
        }
        let mut resources: Vec<Resource> = Vec::new();
        match Resource::from_string(&c.inv_megacredit, Resource::MegaCredits(0)) {
            Some(r) => resources.push(r),
            None => {},
        }
        match Resource::from_string(&c.inv_steel, Resource::Steel(0)) {
            Some(r) => resources.push(r),
            None => {},
        }
        match Resource::from_string(&c.inv_titanium, Resource::Titanium(0)) {
            Some(r) => resources.push(r),
            None => {},
        }
        match Resource::from_string(&c.inv_plant, Resource::Plants(0)) {
            Some(r) => resources.push(r),
            None => {},
        }
        match Resource::from_string(&c.inv_energy, Resource::Energy(0)) {
            Some(r) => resources.push(r),
            None => {},
        }
        match Resource::from_string(&c.inv_heat, Resource::Heat(0)) {
            Some(r) => resources.push(r),
            None => {},
        }
        proof {
            assert(local@ =~= csv_local_requirements(c));
            assert(tags@ =~= csv_tags(c));
            assert(production@ =~= csv_production(c));
            assert(resources@ =~= csv_resources(c));
        }
        let id = if c.id.as_str().is_empty() {
            c.card_name.clone()
        } else {
            c.id
        };
        Card {
            name: c.card_name,
            id,
            cost,
            card_type,
            deck,
            requirements: Requirements {
                global: GlobalRequirements {
                    min_temperature: c.req_global_temperature,
                    max_temperature: c.req_global_max_temperature,
                    min_oxygen: c.req_global_oxygen,
                    max_oxygen: c.req_global_max_oxygen,
                    min_ocean: c.req_global_ocean,
                    max_ocean: c.req_global_max_ocean,
                },
                local,
            },
            tags,
            production,
            resources,
            resources_on_card: HoldableResource::from_text(&c.other_resources_on_cards),
            terraforming_effect: TerraformingEffect {
                temperature: NumberOrRef::from_text(&c.temperature),
                oxygen: NumberOrRef::from_text(&c.oxygen),
                ocean: NumberOrRef::from_text(&c.ocean),
                tr: NumberOrRef::from_text(&c.tr),
                vp: NumberOrRef::from_text(&c.vp),
            },
            interactions: Interactions {
                tile_placement: BoolOrRef::from_text(&c.tile_colony_placement),
                num_actions_or_effect: NumberOrRef::from_text(&c.num_actions_and_or_effect),
                depends_on_opponents: BoolOrRef::from_text(&c.depends_on_opponents),
                affects_opponents: BoolOrRef::from_text(&c.affects_opponents),
                holds_resources: HoldableResource::from_text(&c.holds_resources),
            },
            text: Text {
                action_or_ongoing_effect_text: c.action_or_on_going_effect_text,
                onetime_effect_text: c.one_time_effect_text,
            },
        }
    }
}

fn tags_cell_readable(number: &String, tag: Tags) -> (r: bool)
    ensures
        r == tags_cell(number@, tag) is Some,
{
    let text = chars_of(number.as_str());
    match parse_usize(&text) {
        Some(_) => true,
        None => is_word(&text, "Ref"),
    }
}

fn resource_cell_readable(number: &String, resource: Resource) -> (r: bool)
    ensures
        r == resource_cell(number@, resource) matches Some(Some(_)),
{
    let text = chars_of(number.as_str());
    match parse_i32(&text) {
        Some(_) => match resource {
            Resource::Special => false,
            _ => true,
        },
        None => is_word(&text, "Ref"),
    }
}

impl Card {
    /// The catalog entry a spreadsheet row describes, or `None` when one of
    /// its tag or resource cells holds text the importer cannot read.
    pub fn try_from_csv(csv_card: CSVCard) -> (r: Option<Card>)
        ensures
            r is Some <==> csv_readable(csv_card),
            r is Some ==> r->Some_0.id@ == if csv_card.id@.len() == 0 {
                csv_card.card_name@
            } else {
                csv_card.id@
            } && r->Some_0.cost == csv_cost(csv_card) && r->Some_0.card_type == card_type_named(
                csv_card.card_type@,
            ) && r->Some_0.requirements.local@ == csv_local_requirements(csv_card)
                && r->Some_0.tags@ == csv_tags(csv_card) && r->Some_0.production@ == csv_production(
                csv_card,
            ) && r->Some_0.resources@ == csv_resources(csv_card),
    {
        let c = &csv_card;
        let readable = tags_cell_readable(&c.req_local_city, Tags::City)
            && tags_cell_readable(&c.tag_science, Tags::Science)
            && tags_cell_readable(&c.tag_building, Tags::Building)
            && tags_cell_readable(&c.tag_space, Tags::Space)
            && tags_cell_readable(&c.tag_microbe, Tags::Microbe)
            && tags_cell_readable(&c.tag_plant, Tags::Plant)
            && tags_cell_readable(&c.tag_animal, Tags::Animal)
            && tags_cell_readable(&c.tag_city, Tags::City)
            && tags_cell_readable(&c.tag_earth, Tags::Earth)
            && tags_cell_readable(&c.tag_jovian, Tags::Jovian)
            && tags_cell_readable(&c.tag_energy, Tags::Energy)
            && tags_cell_readable(&c.tag_event, Tags::Event)
            && resource_cell_readable(&c.prod_megacredit, Resource::MegaCredits(0))
            && resource_cell_readable(&c.prod_steel, Resource::Steel(0))
            && resource_cell_readable(&c.prod_titanium, Resource::Titanium(0))
            && resource_cell_readable(&c.prod_plant, Resource::Plants(0))
            && resource_cell_readable(&c.prod_energy, Resource::Energy(0))
            && resource_cell_readable(&c.prod_heat, Resource::Heat(0))
            && resource_cell_readable(&c.inv_megacredit, Resource::MegaCredits(0))
            && resource_cell_readable(&c.inv_steel, Resource::Steel(0))
            && resource_cell_readable(&c.inv_titanium, Resource::Titanium(0))
            && resource_cell_readable(&c.inv_plant, Resource::Plants(0))
            && resource_cell_readable(&c.inv_energy, Resource::Energy(0))
            && resource_cell_readable(&c.inv_heat, Resource::Heat(0));
        if readable {
            Some(Card::from_csv(csv_card))
        } else {
            None
        }
    }
}

} // verus!
