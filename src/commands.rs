use vstd::prelude::*;

use crate::card::{has_id, Card, CardType, GlobalRequirements, Resource, Tags};
use crate::card_pile::CardPile;
use crate::conservation::{all_cards, lemma_command_conserves_cards, lemma_draw_conserves_cards};
use crate::game_state::{GameState, GameStateView, OwnedCard, Phase};
use crate::player::{ActionState, Inventory, PlayerView, Production};

verus! {

broadcast use vstd::seq_lib::group_to_multiset_ensures;

/// The six kinds of resource a player stores and produces.
#[derive(Clone, Copy, Debug, PartialEq, Eq, Structural)]
pub enum ResourceKind {
    MegaCredits,
    Steel,
    Titanium,
    Plants,
    Energy,
    Heat,
}

/// The requirement of a card that the board or the player failed.
#[derive(Clone, Copy, Debug, PartialEq, Eq, Structural)]
pub enum Unmet {
    Temperature { min: i32, max: i32, actual: i32 },
    Oxygen { min: u32, max: u32, actual: u32 },
    Oceans { min: u32, max: u32, actual: u32 },
    MissingTag { player: usize, tag: Tags },
}

/// The condition of a phase transition that does not hold.
#[derive(Clone, Copy, Debug, PartialEq, Eq, Structural)]
pub enum Guard {
    CorporationNotChosen,
    CorporationInHand,
    ResearchPending,
}

/// Why a command, a chain or a phase transition was refused. The game state is
/// left as it was whenever one of these is returned.
#[derive(Clone, Copy, Debug, PartialEq, Eq, Structural)]
pub enum CannotExecute {
    UnknownPlayer { player: usize },
    CardNotFound { player: usize },
    InsufficientFunds { player: usize, cost: u128, megacredits: u32 },
    InsufficientResource { player: usize, resource: ResourceKind, needed: i64, available: i64 },
    ResourceOverflow { player: usize, resource: ResourceKind },
    RequirementsNotMet { unmet: Unmet },
    IdSetMismatch { player: usize },
    WrongPhase,
    PhaseGuardViolation { guard: Guard },
    DeckExhausted,
    GenerationLimit,
}

// ---------------------------------------------------------------------------
// Looking cards up by identifier
// ---------------------------------------------------------------------------

pub open spec fn has_match(cards: Seq<usize>, catalog: Seq<Card>, id: Seq<char>) -> bool {
    exists|i: int| 0 <= i < cards.len() && has_id(catalog, #[trigger] cards[i], id)
}

/// `i` is the first position of `cards` holding the card named `id`.
pub open spec fn is_first_match(cards: Seq<usize>, catalog: Seq<Card>, id: Seq<char>, i: int) -> bool {
    &&& 0 <= i < cards.len()
    &&& has_id(catalog, cards[i], id)
    &&& forall|j: int| 0 <= j < i ==> !has_id(catalog, #[trigger] cards[j], id)
}

pub open spec fn first_match(cards: Seq<usize>, catalog: Seq<Card>, id: Seq<char>) -> int {
    choose|i: int| is_first_match(cards, catalog, id, i)
}

proof fn lemma_first_match(cards: Seq<usize>, catalog: Seq<Card>, id: Seq<char>, i: int)
    requires
        is_first_match(cards, catalog, id, i),
    ensures
        first_match(cards, catalog, id) == i,
        has_match(cards, catalog, id),
{
    let j = first_match(cards, catalog, id);
    assert(is_first_match(cards, catalog, id, j));
    if j < i {
        assert(!has_id(catalog, cards[j], id));
    } else if i < j {
        assert(!has_id(catalog, cards[i], id));
    }
}

/// The first position of `cards` holding the card named `id`.
fn position(cards: &Vec<usize>, catalog: &Vec<Card>, id: &String) -> (r: Option<usize>)
    ensures
        match r {
            Some(i) => is_first_match(cards@, catalog@, id@, i as int) && first_match(
                cards@,
                catalog@,
                id@,
            ) == i,
            None => !has_match(cards@, catalog@, id@),
        },
{
    let mut i: usize = 0;
    while i < cards.len()
        invariant
            i <= cards.len(),
            forall|j: int| 0 <= j < i ==> !has_id(catalog@, #[trigger] cards@[j], id@),
        decreases cards.len() - i,
    {
        if crate::card::card_has_id(catalog, cards[i], id) {
            proof {
                lemma_first_match(cards@, catalog@, id@, i as int);
            }
            return Some(i);
        }
        i = i + 1;
    }
    None
}

/// Card `c` is named by one of `ids`.
pub open spec fn listed(catalog: Seq<Card>, ids: Seq<Seq<char>>, c: usize) -> bool {
    exists|k: int| 0 <= k < ids.len() && has_id(catalog, c, #[trigger] ids[k])
}

pub open spec fn id_views(ids: Seq<String>) -> Seq<Seq<char>> {
    ids.map_values(|s: String| s@)
}

fn is_listed(catalog: &Vec<Card>, ids: &Vec<String>, c: usize) -> (r: bool)
    ensures
        r == listed(catalog@, id_views(ids@), c),
{
    let mut k: usize = 0;
    while k < ids.len()
        invariant
            k <= ids.len(),
            forall|j: int| 0 <= j < k ==> !has_id(catalog@, c, #[trigger] id_views(ids@)[j]),
        decreases ids.len() - k,
    {
        if crate::card::card_has_id(catalog, c, &ids[k]) {
            assert(has_id(catalog@, c, id_views(ids@)[k as int]));
            return true;
        }
        k = k + 1;
    }
    false
}

// ---------------------------------------------------------------------------
// Requirements
// ---------------------------------------------------------------------------

pub open spec fn tag_count(tags: Seq<Tags>, t: Tags) -> nat
    decreases tags.len(),
{
    if tags.len() == 0 {
        0
    } else {
        tag_count(tags.drop_last(), t) + if tags.last() == t {
            1nat
        } else {
            0nat
        }
    }
}

pub open spec fn card_tags(catalog: Seq<Card>, c: usize) -> Seq<Tags> {
    if c < catalog.len() {
        catalog[c as int].tags@
    } else {
        Seq::empty()
    }
}

/// The tags of the cards in play that `player` owns, in play order.
pub open spec fn owned_tags(in_play: Seq<OwnedCard>, catalog: Seq<Card>, player: usize) -> Seq<Tags>
    decreases in_play.len(),
{
    if in_play.len() == 0 {
        Seq::empty()
    } else {
        owned_tags(in_play.drop_last(), catalog, player) + if in_play.last().owner == player {
            card_tags(catalog, in_play.last().card)
        } else {
            Seq::empty()
        }
    }
}

/// Required tag `i` finds no owned instance left: the earlier required
/// instances of the same tag have used up every owned one.
pub open spec fn exhausted(owned: Seq<Tags>, required: Seq<Tags>, i: int) -> bool {
    tag_count(required.take(i), required[i]) >= tag_count(owned, required[i])
}

/// The first required tag, among the first `k`, that finds no owned instance.
pub open spec fn missing_tag(owned: Seq<Tags>, required: Seq<Tags>, k: int) -> Option<Tags>
    decreases k,
{
    if k <= 0 {
        None
    } else {
        match missing_tag(owned, required, k - 1) {
            Some(t) => Some(t),
            None => if exhausted(owned, required, k - 1) {
                Some(required[k - 1])
            } else {
                None
            },
        }
    }
}

proof fn lemma_missing_tag_stays(owned: Seq<Tags>, required: Seq<Tags>, k: int, m: int)
    requires
        0 <= k <= m,
        missing_tag(owned, required, k) is Some,
    ensures
        missing_tag(owned, required, m) == missing_tag(owned, required, k),
    decreases m - k,
{
    if k < m {
        lemma_missing_tag_stays(owned, required, k, m - 1);
    }
}

proof fn lemma_count_prefix(s: Seq<Tags>, k: int, t: Tags)
    requires
        0 <= k <= s.len(),
    ensures
        tag_count(s.take(k), t) <= tag_count(s, t),
    decreases s.len() - k,
{
    if k < s.len() {
        lemma_count_prefix(s, k + 1, t);
        assert(s.take(k + 1).drop_last() =~= s.take(k));
    } else {
        assert(s.take(k) =~= s);
    }
}

proof fn lemma_missing_none(owned: Seq<Tags>, required: Seq<Tags>, k: int)
    requires
        0 <= k <= required.len(),
    ensures
        missing_tag(owned, required, k) is None <==> forall|i: int|
            0 <= i < k ==> !exhausted(owned, required, i),
    decreases k,
{
    if k > 0 {
        lemma_missing_none(owned, required, k - 1);
    }
}

proof fn lemma_prefix_covered(owned: Seq<Tags>, required: Seq<Tags>, k: int)
    requires
        0 <= k <= required.len(),
        forall|i: int| 0 <= i < k ==> !exhausted(owned, required, i),
    ensures
        forall|t: Tags| tag_count(required.take(k), t) <= tag_count(owned, t),
    decreases k,
{
    if k > 0 {
        lemma_prefix_covered(owned, required, k - 1);
        assert(required.take(k).drop_last() =~= required.take(k - 1));
        assert(!exhausted(owned, required, k - 1));
    }
}

/// Taking one owned instance for each required tag, in turn, succeeds
/// exactly when the player owns, for every tag, at least as many instances
/// as are required: the tag check is multiset inclusion.
pub proof fn lemma_tags_cover(owned: Seq<Tags>, required: Seq<Tags>)
    ensures
        missing_tag(owned, required, required.len() as int) is None <==> forall|t: Tags|
            tag_count(required, t) <= tag_count(owned, t),
{
    let n = required.len() as int;
    lemma_missing_none(owned, required, n);
    if missing_tag(owned, required, n) is None {
        lemma_prefix_covered(owned, required, n);
        assert(required.take(n) =~= required);
    }
    if forall|t: Tags| tag_count(required, t) <= tag_count(owned, t) {
        assert forall|i: int| 0 <= i < n implies !exhausted(owned, required, i) by {
            assert(required.take(i + 1).drop_last() =~= required.take(i));
            lemma_count_prefix(required, i + 1, required[i]);
        }
    }
}

/// The first global bound of `g` that the board violates.
pub open spec fn global_unmet(s: GameStateView, g: GlobalRequirements) -> Option<Unmet> {
    if s.temperature < g.min_temperature || s.temperature > g.max_temperature {
        Some(
            Unmet::Temperature {
                min: g.min_temperature,
                max: g.max_temperature,
                actual: s.temperature,
            },
        )
    } else if s.oxygen < g.min_oxygen || s.oxygen > g.max_oxygen {
        Some(Unmet::Oxygen { min: g.min_oxygen, max: g.max_oxygen, actual: s.oxygen })
    } else if s.oceans_placed < g.min_ocean || s.oceans_placed > g.max_ocean {
        Some(Unmet::Oceans { min: g.min_ocean, max: g.max_ocean, actual: s.oceans_placed })
    } else {
        None
    }
}

/// The first requirement of `card` that `player` fails in `s`.
pub open spec fn unmet(s: GameStateView, catalog: Seq<Card>, player: usize, card: Card) -> Option<Unmet> {
    match global_unmet(s, card.requirements.global) {
        Some(u) => Some(u),
        None => {
            let owned = owned_tags(s.cards_in_play, catalog, player);
            let req = card.requirements.local@;
            match missing_tag(owned, req, req.len() as int) {
                Some(t) => Some(Unmet::MissingTag { player, tag: t }),
                None => None,
            }
        },
    }
}

/// How many of the first `upto` entries of `tags` are `t`.
fn count_tag(tags: &Vec<Tags>, upto: usize, t: Tags) -> (r: usize)
    requires
        upto <= tags@.len(),
    ensures
        r == tag_count(tags@.take(upto as int), t),
{
    let mut n: usize = 0;
    let mut i: usize = 0;
    while i < upto
        invariant
            i <= upto <= tags@.len(),
            n == tag_count(tags@.take(i as int), t),
            n <= i,
        decreases upto - i,
    {
        assert(tags@.take(i + 1).drop_last() =~= tags@.take(i as int));
        if tags[i] == t {
            n = n + 1;
        }
        i = i + 1;
    }
    n
}

/// The tags of the cards in play that `player` owns.
fn collect_owned_tags(in_play: &Vec<OwnedCard>, catalog: &Vec<Card>, player: usize) -> (r: Vec<Tags>)
    ensures
        r@ == owned_tags(in_play@, catalog@, player),
{
    let mut r: Vec<Tags> = Vec::new();
    let mut i: usize = 0;
    while i < in_play.len()
        invariant
            i <= in_play@.len(),
            r@ == owned_tags(in_play@.take(i as int), catalog@, player),
        decreases in_play.len() - i,
    {
        assert(in_play@.take(i + 1).drop_last() =~= in_play@.take(i as int));
        let oc = in_play[i];
        if oc.owner == player && oc.card < catalog.len() {
            let tags = &catalog[oc.card].tags;
            let ghost before = r@;
            let mut k: usize = 0;
            while k < tags.len()
                invariant
                    k <= tags@.len(),
                    r@ == before + tags@.take(k as int),
                decreases tags.len() - k,
            {
                r.push(tags[k]);
                k = k + 1;
                assert(r@ =~= before + tags@.take(k as int));
            }
            assert(tags@.take(k as int) =~= tags@);
        } else {
            assert(r@ =~= r@ + card_tags(catalog@, oc.card) || oc.owner != player);
        }
        i = i + 1;
        assert(r@ =~= owned_tags(in_play@.take(i as int), catalog@, player));
    }
    assert(in_play@.take(i as int) =~= in_play@);
    r
}

/// The first requirement of catalog card `c` that `player` fails: the global
/// bounds first, then each required tag in turn, every owned tag instance
/// answering for one required instance only.
fn check_requirements(state: &GameState, catalog: &Vec<Card>, c: usize, player: usize) -> (r: Option<Unmet>)
    requires
        c < catalog@.len(),
    ensures
        r == unmet(state@, catalog@, player, catalog@[c as int]),
{
    let g = catalog[c].requirements.global;
    if state.temperature < g.min_temperature || state.temperature > g.max_temperature {
        return Some(
            Unmet::Temperature {
                min: g.min_temperature,
                max: g.max_temperature,
                actual: state.temperature,
            },
        );
    }
    if state.oxygen < g.min_oxygen || state.oxygen > g.max_oxygen {
        return Some(Unmet::Oxygen { min: g.min_oxygen, max: g.max_oxygen, actual: state.oxygen });
    }
    if state.oceans_placed < g.min_ocean || state.oceans_placed > g.max_ocean {
        return Some(
            Unmet::Oceans { min: g.min_ocean, max: g.max_ocean, actual: state.oceans_placed },
        );
    }
    let owned = collect_owned_tags(&state.cards_in_play, catalog, player);
    let required = &catalog[c].requirements.local;
    let mut i: usize = 0;
    while i < required.len()
        invariant
            i <= required@.len(),
            missing_tag(owned@, required@, i as int) == None::<Tags>,
            c < catalog@.len(),
            g == catalog@[c as int].requirements.global,
            global_unmet(state@, g) is None,
            owned@ == owned_tags(state@.cards_in_play, catalog@, player),
            required@ == catalog@[c as int].requirements.local@,
        decreases required.len() - i,
    {
        let t = required[i];
        let before = count_tag(required, i, t);
        let available = count_tag(&owned, owned.len(), t);
        proof {
            assert(owned@.take(owned@.len() as int) =~= owned@);
        }
        if before >= available {
            proof {
                assert(missing_tag(owned@, required@, i + 1) == Some(t));
                lemma_missing_tag_stays(owned@, required@, i + 1, required@.len() as int);
            }
            return Some(Unmet::MissingTag { player, tag: t });
        }
        i = i + 1;
    }
    None
}

// ---------------------------------------------------------------------------
// Resource and production deltas
// ---------------------------------------------------------------------------

/// Adds `d` to a non-negative stock of `kind`.
pub open spec fn shifted_stock(v: u32, d: i32, player: usize, kind: ResourceKind) -> Result<u32, CannotExecute> {
    if (v as int) + (d as int) < 0 {
        Err(
            CannotExecute::InsufficientResource {
                player,
                resource: kind,
                needed: (-(d as int)) as i64,
                available: v as i64,
            },
        )
    } else if (v as int) + (d as int) > u32::MAX as int {
        Err(CannotExecute::ResourceOverflow { player, resource: kind })
    } else {
        Ok(((v as int) + (d as int)) as u32)
    }
}

/// Adds `d` to a megacredit production rate, which may not fall below -5.
pub open spec fn shifted_credit_rate(v: i32, d: i32, player: usize) -> Result<i32, CannotExecute> {
    if (v as int) + (d as int) < -5 {
        Err(
            CannotExecute::InsufficientResource {
                player,
                resource: ResourceKind::MegaCredits,
                needed: (-(d as int)) as i64,
                available: ((v as int) + 5) as i64,
            },
        )
    } else if (v as int) + (d as int) > i32::MAX as int {
        Err(CannotExecute::ResourceOverflow { player, resource: ResourceKind::MegaCredits })
    } else {
        Ok(((v as int) + (d as int)) as i32)
    }
}

pub open spec fn stock_after(inv: Inventory, r: Resource, player: usize) -> Result<Inventory, CannotExecute> {
    match r {
        Resource::MegaCredits(d) => match shifted_stock(inv.megacredits, d, player, ResourceKind::MegaCredits) {
            Ok(v) => Ok(Inventory { megacredits: v, ..inv }),
            Err(e) => Err(e),
        },
        Resource::Steel(d) => match shifted_stock(inv.steel, d, player, ResourceKind::Steel) {
            Ok(v) => Ok(Inventory { steel: v, ..inv }),
            Err(e) => Err(e),
        },
        Resource::Titanium(d) => match shifted_stock(inv.titanium, d, player, ResourceKind::Titanium) {
            Ok(v) => Ok(Inventory { titanium: v, ..inv }),
            Err(e) => Err(e),
        },
        Resource::Plants(d) => match shifted_stock(inv.plants, d, player, ResourceKind::Plants) {
            Ok(v) => Ok(Inventory { plants: v, ..inv }),
            Err(e) => Err(e),
        },
        Resource::Energy(d) => match shifted_stock(inv.energy, d, player, ResourceKind::Energy) {
            Ok(v) => Ok(Inventory { energy: v, ..inv }),
            Err(e) => Err(e),
        },
        Resource::Heat(d) => match shifted_stock(inv.heat, d, player, ResourceKind::Heat) {
            Ok(v) => Ok(Inventory { heat: v, ..inv }),
            Err(e) => Err(e),
        },
        Resource::Special => Ok(inv),
    }
}

/// The inventory after the deltas `ds`, applied in order; the first one that
/// breaks a bound decides the error.
pub open spec fn stock_after_all(inv: Inventory, ds: Seq<Resource>, player: usize) -> Result<Inventory, CannotExecute>
    decreases ds.len(),
{
    if ds.len() == 0 {
        Ok(inv)
    } else {
        match stock_after_all(inv, ds.drop_last(), player) {
            Ok(i) => stock_after(i, ds.last(), player),
            Err(e) => Err(e),
        }
    }
}

pub open spec fn rates_after(pr: Production, r: Resource, player: usize) -> Result<Production, CannotExecute> {
    match r {
        Resource::MegaCredits(d) => match shifted_credit_rate(pr.megacredits, d, player) {
            Ok(v) => Ok(Production { megacredits: v, ..pr }),
            Err(e) => Err(e),
        },
        Resource::Steel(d) => match shifted_stock(pr.steel, d, player, ResourceKind::Steel) {
            Ok(v) => Ok(Production { steel: v, ..pr }),
            Err(e) => Err(e),
        },
        Resource::Titanium(d) => match shifted_stock(pr.titanium, d, player, ResourceKind::Titanium) {
            Ok(v) => Ok(Production { titanium: v, ..pr }),
            Err(e) => Err(e),
        },
        Resource::Plants(d) => match shifted_stock(pr.plants, d, player, ResourceKind::Plants) {
            Ok(v) => Ok(Production { plants: v, ..pr }),
            Err(e) => Err(e),
        },
        Resource::Energy(d) => match shifted_stock(pr.energy, d, player, ResourceKind::Energy) {
            Ok(v) => Ok(Production { energy: v, ..pr }),
            Err(e) => Err(e),
        },
        Resource::Heat(d) => match shifted_stock(pr.heat, d, player, ResourceKind::Heat) {
            Ok(v) => Ok(Production { heat: v, ..pr }),
            Err(e) => Err(e),
        },
        Resource::Special => Ok(pr),
    }
}

pub open spec fn rates_after_all(pr: Production, ds: Seq<Resource>, player: usize) -> Result<Production, CannotExecute>
    decreases ds.len(),
{
    if ds.len() == 0 {
        Ok(pr)
    } else {
        match rates_after_all(pr, ds.drop_last(), player) {
            Ok(p) => rates_after(p, ds.last(), player),
            Err(e) => Err(e),
        }
    }
}

fn shift_stock(v: u32, d: i32, player: usize, kind: ResourceKind) -> (r: Result<u32, CannotExecute>)
    ensures
        r == shifted_stock(v, d, player, kind),
{
    let n: i64 = v as i64 + d as i64;
    if n < 0 {
        Err(
            CannotExecute::InsufficientResource {
                player,
                resource: kind,
                needed: -(d as i64),
                available: v as i64,
            },
        )
    } else if n > u32::MAX as i64 {
        Err(CannotExecute::ResourceOverflow { player, resource: kind })
    } else {
        Ok(n as u32)
    }
}

fn shift_credit_rate(v: i32, d: i32, player: usize) -> (r: Result<i32, CannotExecute>)
    ensures
        r == shifted_credit_rate(v, d, player),
{
    let n: i64 = v as i64 + d as i64;
    if n < -5 {
        Err(
            CannotExecute::InsufficientResource {
                player,
                resource: ResourceKind::MegaCredits,
                needed: -(d as i64),
                available: v as i64 + 5,
            },
        )
    } else if n > i32::MAX as i64 {
        Err(CannotExecute::ResourceOverflow { player, resource: ResourceKind::MegaCredits })
    } else {
        Ok(n as i32)
    }
}

fn apply_stock(inv: Inventory, r: Resource, player: usize) -> (out: Result<Inventory, CannotExecute>)
    ensures
        out == stock_after(inv, r, player),
{
    match r {
        Resource::MegaCredits(d) => match shift_stock(inv.megacredits, d, player, ResourceKind::MegaCredits) {
            Ok(v) => Ok(Inventory { megacredits: v, ..inv }),
            Err(e) => Err(e),
        },
        Resource::Steel(d) => match shift_stock(inv.steel, d, player, ResourceKind::Steel) {
            Ok(v) => Ok(Inventory { steel: v, ..inv }),
            Err(e) => Err(e),
        },
        Resource::Titanium(d) => match shift_stock(inv.titanium, d, player, ResourceKind::Titanium) {
            Ok(v) => Ok(Inventory { titanium: v, ..inv }),
            Err(e) => Err(e),
        },
        Resource::Plants(d) => match shift_stock(inv.plants, d, player, ResourceKind::Plants) {
            Ok(v) => Ok(Inventory { plants: v, ..inv }),
            Err(e) => Err(e),
        },
        Resource::Energy(d) => match shift_stock(inv.energy, d, player, ResourceKind::Energy) {
            Ok(v) => Ok(Inventory { energy: v, ..inv }),
            Err(e) => Err(e),
        },
        Resource::Heat(d) => match shift_stock(inv.heat, d, player, ResourceKind::Heat) {
            Ok(v) => Ok(Inventory { heat: v, ..inv }),
            Err(e) => Err(e),
        },
        Resource::Special => Ok(inv),
    }
}

fn apply_rate(pr: Production, r: Resource, player: usize) -> (out: Result<Production, CannotExecute>)
    ensures
        out == rates_after(pr, r, player),
{
    match r {
        Resource::MegaCredits(d) => match shift_credit_rate(pr.megacredits, d, player) {
            Ok(v) => Ok(Production { megacredits: v, ..pr }),
            Err(e) => Err(e),
        },
        Resource::Steel(d) => match shift_stock(pr.steel, d, player, ResourceKind::Steel) {
            Ok(v) => Ok(Production { steel: v, ..pr }),
            Err(e) => Err(e),
        },
        Resource::Titanium(d) => match shift_stock(pr.titanium, d, player, ResourceKind::Titanium) {
            Ok(v) => Ok(Production { titanium: v, ..pr }),
            Err(e) => Err(e),
        },
        Resource::Plants(d) => match shift_stock(pr.plants, d, player, ResourceKind::Plants) {
            Ok(v) => Ok(Production { plants: v, ..pr }),
            Err(e) => Err(e),
        },
        Resource::Energy(d) => match shift_stock(pr.energy, d, player, ResourceKind::Energy) {
            Ok(v) => Ok(Production { energy: v, ..pr }),
            Err(e) => Err(e),
        },
        Resource::Heat(d) => match shift_stock(pr.heat, d, player, ResourceKind::Heat) {
            Ok(v) => Ok(Production { heat: v, ..pr }),
            Err(e) => Err(e),
        },
        Resource::Special => Ok(pr),
    }
}

/// Applies the deltas `ds` in order to a copy of `inv`.
fn mod_inventory(inv: Inventory, ds: &Vec<Resource>, player: usize) -> (r: Result<Inventory, CannotExecute>)
    ensures
        r == stock_after_all(inv, ds@, player),
{
    let mut cur = inv;
    let mut i: usize = 0;
    while i < ds.len()
        invariant
            i <= ds@.len(),
            stock_after_all(inv, ds@.take(i as int), player) == Ok::<Inventory, CannotExecute>(cur),
        decreases ds.len() - i,
    {
        assert(ds@.take(i + 1).drop_last() =~= ds@.take(i as int));
        match apply_stock(cur, ds[i], player) {
            Ok(next) => {
                cur = next;
            },
            Err(e) => {
                proof {
                    lemma_stock_error_stays(inv, ds@, player, i + 1);
                }
                return Err(e);
            },
        }
        i = i + 1;
    }
    assert(ds@.take(i as int) =~= ds@);
    Ok(cur)
}

proof fn lemma_stock_error_stays(inv: Inventory, ds: Seq<Resource>, player: usize, k: int)
    requires
        0 <= k <= ds.len(),
        stock_after_all(inv, ds.take(k), player) is Err,
    ensures
        stock_after_all(inv, ds, player) == stock_after_all(inv, ds.take(k), player),
    decreases ds.len() - k,
{
    if k < ds.len() {
        assert(ds.take(k + 1).drop_last() =~= ds.take(k));
        lemma_stock_error_stays(inv, ds, player, k + 1);
    } else {
        assert(ds.take(k) =~= ds);
    }
}

/// Applies the deltas `ds` in order to a copy of `pr`.
fn mod_production(pr: Production, ds: &Vec<Resource>, player: usize) -> (r: Result<Production, CannotExecute>)
    ensures
        r == rates_after_all(pr, ds@, player),
{
    let mut cur = pr;
    let mut i: usize = 0;
    while i < ds.len()
        invariant
            i <= ds@.len(),
            rates_after_all(pr, ds@.take(i as int), player) == Ok::<Production, CannotExecute>(cur),
        decreases ds.len() - i,
    {
        assert(ds@.take(i + 1).drop_last() =~= ds@.take(i as int));
        match apply_rate(cur, ds[i], player) {
            Ok(next) => {
                cur = next;
            },
            Err(e) => {
                proof {
                    lemma_rate_error_stays(pr, ds@, player, i + 1);
                }
                return Err(e);
            },
        }
        i = i + 1;
    }
    assert(ds@.take(i as int) =~= ds@);
    Ok(cur)
}

proof fn lemma_rate_error_stays(pr: Production, ds: Seq<Resource>, player: usize, k: int)
    requires
        0 <= k <= ds.len(),
        rates_after_all(pr, ds.take(k), player) is Err,
    ensures
        rates_after_all(pr, ds, player) == rates_after_all(pr, ds.take(k), player),
    decreases ds.len() - k,
{
    if k < ds.len() {
        assert(ds.take(k + 1).drop_last() =~= ds.take(k));
        lemma_rate_error_stays(pr, ds, player, k + 1);
    } else {
        assert(ds.take(k) =~= ds);
    }
}

// ---------------------------------------------------------------------------
// What an applied command leaves behind for its undo
// ---------------------------------------------------------------------------

/// The record of one applied mutation, holding exactly what is needed to
/// restore the state it was applied to.
#[derive(Debug)]
pub enum Applied {
    Drew {
        player: usize,
        corporation: bool,
        held: usize,
        draw_before: Vec<usize>,
        discard_before: Vec<usize>,
    },
    Played { owner: usize, index: usize, cost: u32 },
    ChoseCorporation {
        player: usize,
        hand_before: Vec<usize>,
        corporation_before: Option<usize>,
        discarded: usize,
    },
    Researched { player: usize, queue_before: Vec<usize>, held: usize, paid: u32 },
    DiscardedResearch { player: usize, queue_before: Vec<usize>, discarded: usize },
    Stock { player: usize, before: Inventory },
    Rates { player: usize, before: Production },
    Turn {
        phase: Phase,
        generation: u32,
        start_player: usize,
        active_player: usize,
        seat: usize,
        action_state: ActionState,
    },
}

/// The record `a` can be undone in state `s` without going out of bounds.
pub open spec fn undoable(a: Applied, s: GameStateView) -> bool {
    match a {
        Applied::Drew { player, corporation, held, .. } => player < s.players.len() && held <= if corporation {
            s.players[player as int].hand.len()
        } else {
            s.players[player as int].research_queue.len()
        },
        Applied::Played { owner, index, cost } => {
            &&& owner < s.players.len()
            &&& s.cards_in_play.len() > 0
            &&& index <= s.players[owner as int].hand.len()
            &&& s.players[owner as int].inventory.megacredits + cost <= u32::MAX
        },
        Applied::ChoseCorporation { player, discarded, .. } => player < s.players.len() && discarded
            <= s.corporation_discard.len(),
        Applied::Researched { player, held, paid, .. } => {
            &&& player < s.players.len()
            &&& held <= s.players[player as int].hand.len()
            &&& s.players[player as int].inventory.megacredits + paid <= u32::MAX
        },
        Applied::DiscardedResearch { player, discarded, .. } => player < s.players.len() && discarded
            <= s.project_discard.len(),
        Applied::Stock { player, .. } => player < s.players.len(),
        Applied::Rates { player, .. } => player < s.players.len(),
        Applied::Turn { seat, .. } => seat < s.players.len(),
    }
}

/// The state that undoing `a` in `s` gives.
pub open spec fn undone(a: Applied, s: GameStateView) -> GameStateView {
    match a {
        Applied::Drew { player, corporation, held, draw_before, discard_before } => {
            let p = s.players[player as int];
            if corporation {
                GameStateView {
                    corporation_draw: draw_before@,
                    corporation_discard: discard_before@,
                    ..s.with_player(player as int, PlayerView { hand: p.hand.take(held as int), ..p })
                }
            } else {
                GameStateView {
                    project_draw: draw_before@,
                    project_discard: discard_before@,
                    ..s.with_player(
                        player as int,
                        PlayerView { research_queue: p.research_queue.take(held as int), ..p },
                    )
                }
            }
        },
        Applied::Played { owner, index, cost } => {
            let p = s.players[owner as int];
            let c = s.cards_in_play.last().card;
            GameStateView {
                cards_in_play: s.cards_in_play.drop_last(),
                ..s.with_player(
                    owner as int,
                    PlayerView {
                        hand: p.hand.insert(index as int, c),
                        inventory: Inventory {
                            megacredits: (p.inventory.megacredits + cost) as u32,
                            ..p.inventory
                        },
                        ..p
                    },
                )
            }
        },
        Applied::ChoseCorporation { player, hand_before, corporation_before, discarded } => {
            let p = s.players[player as int];
            GameStateView {
                corporation_discard: s.corporation_discard.take(discarded as int),
                ..s.with_player(
                    player as int,
                    PlayerView { hand: hand_before@, corporation: corporation_before, ..p },
                )
            }
        },
        Applied::Researched { player, queue_before, held, paid } => {
            let p = s.players[player as int];
            s.with_player(
                player as int,
                PlayerView {
                    hand: p.hand.take(held as int),
                    research_queue: queue_before@,
                    inventory: Inventory {
                        megacredits: (p.inventory.megacredits + paid) as u32,
                        ..p.inventory
                    },
                    ..p
                },
            )
        },
        Applied::DiscardedResearch { player, queue_before, discarded } => {
            let p = s.players[player as int];
            GameStateView {
                project_discard: s.project_discard.take(discarded as int),
                ..s.with_player(player as int, PlayerView { research_queue: queue_before@, ..p })
            }
        },
        Applied::Stock { player, before } => {
            let p = s.players[player as int];
            s.with_player(player as int, PlayerView { inventory: before, ..p })
        },
        Applied::Rates { player, before } => {
            let p = s.players[player as int];
            s.with_player(player as int, PlayerView { production: before, ..p })
        },
        Applied::Turn { phase, generation, start_player, active_player, seat, action_state } => {
            let p = s.players[seat as int];
            GameStateView {
                phase,
                generation,
                start_player,
                active_player,
                ..s.with_player(seat as int, PlayerView { action_state, ..p })
            }
        },
    }
}

/// Undoing `a` in `after` is possible and gives back `before`.
pub open spec fn reverts(a: Applied, after: GameStateView, before: GameStateView) -> bool {
    undoable(a, after) && undone(a, after) == before
}

/// What a deterministic command did: on success the state is `expected`'s and
/// the record undoes it; on failure the error is `expected`'s and nothing changed.
pub open spec fn outcome(
    r: Result<Applied, CannotExecute>,
    before: GameStateView,
    after: GameStateView,
    expected: Result<GameStateView, CannotExecute>,
) -> bool {
    match expected {
        Ok(t) => r is Ok && after == t && reverts(r->Ok_0, after, before),
        Err(e) => r == Err::<Applied, CannotExecute>(e) && after == before,
    }
}

fn copy_cards(v: &Vec<usize>) -> (r: Vec<usize>)
    ensures
        r@ == v@,
{
    let mut r: Vec<usize> = Vec::new();
    let mut i: usize = 0;
    while i < v.len()
        invariant
            i <= v@.len(),
            r@ == v@.take(i as int),
        decreases v.len() - i,
    {
        r.push(v[i]);
        i = i + 1;
        assert(r@ =~= v@.take(i as int));
    }
    assert(v@.take(i as int) =~= v@);
    r
}

impl Applied {
    /// Restores the state this record was made from.
    pub fn undo(self, state: &mut GameState)
        requires
            undoable(self, old(state)@),
        ensures
            final(state)@ == undone(self, old(state)@),
    {
        let ghost s = old(state)@;
        match self {
            Applied::Drew { player, corporation, held, draw_before, discard_before } => {
                if corporation {
                    state.players[player].hand.truncate(held);
                    state.corporation_pile = CardPile { draw_pile: draw_before, discard_pile: discard_before };
                } else {
                    state.players[player].research_queue.truncate(held);
                    state.project_pile = CardPile { draw_pile: draw_before, discard_pile: discard_before };
                }
                assert(state@.players =~= undone(self, s).players);
            },
            Applied::Played { owner, index, cost } => {
                let oc = state.cards_in_play.pop().unwrap();
                state.players[owner].hand.insert(index, oc.card);
                state.players[owner].inventory.megacredits = state.players[owner].inventory.megacredits + cost;
                assert(state@.players =~= undone(self, s).players);
            },
            Applied::ChoseCorporation { player, hand_before, corporation_before, discarded } => {
                state.corporation_pile.discard_pile.truncate(discarded);
                state.players[player].hand = hand_before;
                state.players[player].corporation = corporation_before;
                assert(state@.players =~= undone(self, s).players);
            },
            Applied::Researched { player, queue_before, held, paid } => {
                state.players[player].hand.truncate(held);
                state.players[player].research_queue = queue_before;
                state.players[player].inventory.megacredits = state.players[player].inventory.megacredits + paid;
                assert(state@.players =~= undone(self, s).players);
            },
            Applied::DiscardedResearch { player, queue_before, discarded } => {
                state.project_pile.discard_pile.truncate(discarded);
                state.players[player].research_queue = queue_before;
                assert(state@.players =~= undone(self, s).players);
            },
            Applied::Stock { player, before } => {
                state.players[player].inventory = before;
                assert(state@.players =~= undone(self, s).players);
            },
            Applied::Rates { player, before } => {
                state.players[player].production = before;
                assert(state@.players =~= undone(self, s).players);
            },
            Applied::Turn { phase, generation, start_player, active_player, seat, action_state } => {
                state.phase = phase;
                state.generation = generation;
                state.start_player = start_player;
                state.active_player = active_player;
                state.players[seat].action_state = action_state;
                assert(state@.players =~= undone(self, s).players);
            },
        }
    }
}

// ---------------------------------------------------------------------------
// Commands
// ---------------------------------------------------------------------------

/// The size of the corporation pile, or of the project pile.
pub open spec fn pile_size(s: GameStateView, corporation: bool) -> nat {
    if corporation {
        s.corporation_draw.len() + s.corporation_discard.len()
    } else {
        s.project_draw.len() + s.project_discard.len()
    }
}

/// `after` is `before` with `count` cards drawn from the corporation pile onto
/// `player`'s hand, or from the project pile onto their research queue: the
/// destination keeps what it held and gains `count` cards, which the pile no
/// longer holds; without a reshuffle they come off the top of the draw stack,
/// the topmost first.
pub open spec fn dealt_to(
    before: GameStateView,
    after: GameStateView,
    player: usize,
    count: usize,
    corporation: bool,
) -> bool {
    let p = before.players[player as int];
    let q = after.players[player as int];
    let old_dest = if corporation {
        p.hand
    } else {
        p.research_queue
    };
    let new_dest = if corporation {
        q.hand
    } else {
        q.research_queue
    };
    let drawn = new_dest.skip(old_dest.len() as int);
    let od = if corporation {
        before.corporation_draw
    } else {
        before.project_draw
    };
    let odis = if corporation {
        before.corporation_discard
    } else {
        before.project_discard
    };
    let nd = if corporation {
        after.corporation_draw
    } else {
        after.project_draw
    };
    let ndis = if corporation {
        after.corporation_discard
    } else {
        after.project_discard
    };
    &&& new_dest.len() == old_dest.len() + count
    &&& pile_size(after, corporation) + count == pile_size(before, corporation)
    &&& new_dest.take(old_dest.len() as int) == old_dest
    &&& nd.to_multiset().add(ndis.to_multiset()).add(drawn.to_multiset()) == od.to_multiset().add(
        odis.to_multiset(),
    )
    &&& count <= od.len() ==> nd == od.take(od.len() - count) && ndis == odis && forall|j: int|
        0 <= j < count ==> #[trigger] drawn[j] == od[od.len() - 1 - j]
    &&& after == if corporation {
        GameStateView {
            corporation_draw: nd,
            corporation_discard: ndis,
            ..before.with_player(player as int, PlayerView { hand: q.hand, ..p })
        }
    } else {
        GameStateView {
            project_draw: nd,
            project_discard: ndis,
            ..before.with_player(player as int, PlayerView { research_queue: q.research_queue, ..p })
        }
    }
}

/// Draws `count` cards for a player: corporations onto the hand, projects
/// onto the research queue.
#[derive(Debug)]
pub struct DrawCards {
    pub player_id: usize,
    pub count: usize,
    pub card_type: CardType,
}

/// What applying `c` did: an unknown player or a pile too small for the
/// draw is refused with nothing changed; otherwise the cards were dealt and
/// the record undoes the draw.
pub open spec fn draw_outcome(
    c: DrawCards,
    r: Result<Applied, CannotExecute>,
    before: GameStateView,
    after: GameStateView,
) -> bool {
    let corporation = c.card_type == CardType::Corporation;
    if c.player_id >= before.players.len() {
        r == Err::<Applied, CannotExecute>(CannotExecute::UnknownPlayer { player: c.player_id })
            && after == before
    } else if c.count > pile_size(before, corporation) {
        r == Err::<Applied, CannotExecute>(CannotExecute::DeckExhausted) && after == before
    } else {
        r is Ok && reverts(r->Ok_0, after, before) && dealt_to(
            before,
            after,
            c.player_id,
            c.count,
            corporation,
        )
    }
}

impl DrawCards {
    pub fn apply(&self, state: &mut GameState) -> (r: Result<Applied, CannotExecute>)
        ensures
            draw_outcome(*self, r, old(state)@, final(state)@),
    {
        let p = self.player_id;
        if p >= state.players.len() {
            return Err(CannotExecute::UnknownPlayer { player: p });
        }
        let ghost s = old(state)@;
        if self.card_type == CardType::Corporation {
            let draw_before = copy_cards(&state.corporation_pile.draw_pile);
            let discard_before = copy_cards(&state.corporation_pile.discard_pile);
            let held = state.players[p].hand.len();
            let mut cards = match state.corporation_pile.draw_cards(self.count) {
                Ok(cards) => cards,
                Err(e) => {
                    assert(state@.players =~= s.players);
                    return Err(e);
                },
            };
            let ghost drawn = cards@;
            state.players[p].draft_corporations(&mut cards);
            proof {
                let q = state@.players[p as int];
                assert(q.hand.skip(held as int) =~= drawn);
                assert(q.hand.take(held as int) =~= s.players[p as int].hand);
                assert(state@.players =~= s.with_player(
                    p as int,
                    PlayerView { hand: q.hand, ..s.players[p as int] },
                ).players);
                assert(state@.players.update(p as int, PlayerView { hand: q.hand.take(held as int), ..q }) =~= s.players);
            }
            Ok(Applied::Drew { player: p, corporation: true, held, draw_before, discard_before })
        } else {
            let draw_before = copy_cards(&state.project_pile.draw_pile);
            let discard_before = copy_cards(&state.project_pile.discard_pile);
            let held = state.players[p].research_queue.len();
            let mut cards = match state.project_pile.draw_cards(self.count) {
                Ok(cards) => cards,
                Err(e) => {
                    assert(state@.players =~= s.players);
                    return Err(e);
                },
            };
            let ghost drawn = cards@;
            state.players[p].enqueue_research(&mut cards);
            proof {
                let q = state@.players[p as int];
                assert(q.research_queue.skip(held as int) =~= drawn);
                assert(q.research_queue.take(held as int) =~= s.players[p as int].research_queue);
                assert(state@.players =~= s.with_player(
                    p as int,
                    PlayerView { research_queue: q.research_queue, ..s.players[p as int] },
                ).players);
                assert(state@.players.update(
                    p as int,
                    PlayerView { research_queue: q.research_queue.take(held as int), ..q },
                ) =~= s.players);
            }
            Ok(Applied::Drew { player: p, corporation: false, held, draw_before, discard_before })
        }
    }
}

/// What playing the card named `id` from `owner`'s hand does: the first such
/// card leaves the hand, its cost is paid, and it enters play under `owner`.
pub open spec fn play_card_spec(s: GameStateView, catalog: Seq<Card>, owner: usize, id: Seq<char>) -> Result<
    GameStateView,
    CannotExecute,
> {
    if owner >= s.players.len() {
        Err(CannotExecute::UnknownPlayer { player: owner })
    } else {
        let p = s.players[owner as int];
        if !has_match(p.hand, catalog, id) {
            Err(CannotExecute::CardNotFound { player: owner })
        } else {
            let i = first_match(p.hand, catalog, id);
            let c = p.hand[i];
            let cost = catalog[c as int].cost;
            if p.inventory.megacredits < cost {
                Err(
                    CannotExecute::InsufficientFunds {
                        player: owner,
                        cost: cost as u128,
                        megacredits: p.inventory.megacredits,
                    },
                )
            } else {
                match unmet(s, catalog, owner, catalog[c as int]) {
                    Some(u) => Err(CannotExecute::RequirementsNotMet { unmet: u }),
                    None => Ok(
                        GameStateView {
                            cards_in_play: s.cards_in_play.push(OwnedCard { card: c, owner }),
                            ..s.with_player(
                                owner as int,
                                PlayerView {
                                    hand: p.hand.remove(i),
                                    inventory: Inventory {
                                        megacredits: (p.inventory.megacredits - cost) as u32,
                                        ..p.inventory
                                    },
                                    ..p
                                },
                            )
                        },
                    ),
                }
            }
        }
    }
}

/// Plays a card from the owner's hand. `target_id` names the player a card
/// effect aims at; no effect the engine runs uses it.
#[derive(Debug)]
pub struct PlayCard {
    pub owner_id: usize,
    pub card_id: String,
    pub target_id: Option<usize>,
}

impl PlayCard {
    pub fn apply(&self, state: &mut GameState, catalog: &Vec<Card>) -> (r: Result<Applied, CannotExecute>)
        ensures
            outcome(
                r,
                old(state)@,
                final(state)@,
                play_card_spec(old(state)@, catalog@, self.owner_id, self.card_id@),
            ),
    {
        let p = self.owner_id;
        if p >= state.players.len() {
            return Err(CannotExecute::UnknownPlayer { player: p });
        }
        let ghost s = old(state)@;
        let i = match position(&state.players[p].hand, catalog, &self.card_id) {
            Some(i) => i,
            None => {
                return Err(CannotExecute::CardNotFound { player: p });
            },
        };
        let c = state.players[p].hand[i];
        let cost = catalog[c].cost;
        let megacredits = state.players[p].inventory.megacredits;
        if megacredits < cost {
            return Err(
                CannotExecute::InsufficientFunds { player: p, cost: cost as u128, megacredits },
            );
        }
        match check_requirements(state, catalog, c, p) {
            Some(u) => {
                return Err(CannotExecute::RequirementsNotMet { unmet: u });
            },
            None => {},
        }
        state.players[p].hand.remove(i);
        state.players[p].inventory.megacredits = megacredits - cost;
        state.cards_in_play.push(OwnedCard { card: c, owner: p });
        proof {
            let t = play_card_spec(s, catalog@, p, self.card_id@)->Ok_0;
            assert(state@.players =~= t.players);
            let q = state@.players[p as int];
            assert(q.hand.insert(i as int, c) =~= s.players[p as int].hand);
            assert(state@.players.update(p as int, undone(Applied::Played { owner: p, index: i, cost }, state@).players[p as int]) =~= s.players);
            assert(undone(Applied::Played { owner: p, index: i, cost }, state@).players =~= s.players);
            assert(state@.cards_in_play.drop_last() =~= s.cards_in_play);
        }
        Ok(Applied::Played { owner: p, index: i, cost })
    }
}

/// The card an optional slot holds, as a sequence of zero or one cards.
pub open spec fn slot_cards(c: Option<usize>) -> Seq<usize> {
    match c {
        Some(x) => seq![x],
        None => Seq::empty(),
    }
}

/// What choosing the corporation named `id` does: the first such card of the
/// hand becomes the player's corporation; the rest of the hand, and a
/// corporation chosen before, go to the corporation discard stack.
pub open spec fn choose_corporation_spec(s: GameStateView, catalog: Seq<Card>, player: usize, id: Seq<char>) -> Result<
    GameStateView,
    CannotExecute,
> {
    if s.phase != Phase::Setup {
        Err(CannotExecute::WrongPhase)
    } else if player >= s.players.len() {
        Err(CannotExecute::UnknownPlayer { player })
    } else {
        let p = s.players[player as int];
        if !has_match(p.hand, catalog, id) {
            Err(CannotExecute::CardNotFound { player })
        } else {
            let i = first_match(p.hand, catalog, id);
            Ok(
                GameStateView {
                    corporation_discard: s.corporation_discard + p.hand.remove(i) + slot_cards(
                        p.corporation,
                    ),
                    ..s.with_player(
                        player as int,
                        PlayerView { hand: Seq::empty(), corporation: Some(p.hand[i]), ..p },
                    )
                },
            )
        }
    }
}

#[derive(Debug)]
pub struct ChooseCorporation {
    pub player_id: usize,
    pub card_id: String,
}

impl ChooseCorporation {
    pub fn apply(&self, state: &mut GameState, catalog: &Vec<Card>) -> (r: Result<Applied, CannotExecute>)
        ensures
            outcome(
                r,
                old(state)@,
                final(state)@,
                choose_corporation_spec(old(state)@, catalog@, self.player_id, self.card_id@),
            ),
    {
        if state.phase != Phase::Setup {
            return Err(CannotExecute::WrongPhase);
        }
        let p = self.player_id;
        if p >= state.players.len() {
            return Err(CannotExecute::UnknownPlayer { player: p });
        }
        let ghost s = old(state)@;
        let i = match position(&state.players[p].hand, catalog, &self.card_id) {
            Some(i) => i,
            None => {
                return Err(CannotExecute::CardNotFound { player: p });
            },
        };
        let mut hand: Vec<usize> = Vec::new();
        std::mem::swap(&mut hand, &mut state.players[p].hand);
        let mut rejected = copy_cards(&hand);
        let chosen = rejected.remove(i);
        let discarded = state.corporation_pile.discard_pile.len();
        let corporation_before = state.players[p].corporation;
        state.corporation_pile.discard_cards(&mut rejected);
        match corporation_before {
            Some(previous) => state.corporation_pile.discard(previous),
            None => {},
        }
        state.players[p].corporation = Some(chosen);
        let rec = Applied::ChoseCorporation { player: p, hand_before: hand, corporation_before, discarded };
        proof {
            let t = choose_corporation_spec(s, catalog@, p, self.card_id@)->Ok_0;
            assert(state@.players =~= t.players);
            assert(state@.corporation_discard =~= t.corporation_discard);
            assert(state@.corporation_discard.take(discarded as int) =~= s.corporation_discard);
            assert(undone(rec, state@).players =~= s.players);
        }
        Ok(rec)
    }
}

/// The cards of `queue` that `ids` name, in queue order.
pub open spec fn selected(queue: Seq<usize>, catalog: Seq<Card>, ids: Seq<Seq<char>>) -> Seq<usize> {
    queue.filter(|c: usize| listed(catalog, ids, c))
}

/// The cards of `queue` that `ids` do not name, in queue order.
pub open spec fn unselected(queue: Seq<usize>, catalog: Seq<Card>, ids: Seq<Seq<char>>) -> Seq<usize> {
    queue.filter(|c: usize| !listed(catalog, ids, c))
}

/// Splits `queue` into the cards that `ids` name and the others.
fn partition(queue: &Vec<usize>, catalog: &Vec<Card>, ids: &Vec<String>) -> (r: (Vec<usize>, Vec<usize>))
    ensures
        r.0@ == selected(queue@, catalog@, id_views(ids@)),
        r.1@ == unselected(queue@, catalog@, id_views(ids@)),
{
    let mut chosen: Vec<usize> = Vec::new();
    let mut rest: Vec<usize> = Vec::new();
    let mut i: usize = 0;
    while i < queue.len()
        invariant
            i <= queue@.len(),
            chosen@ == selected(queue@.take(i as int), catalog@, id_views(ids@)),
            rest@ == unselected(queue@.take(i as int), catalog@, id_views(ids@)),
        decreases queue.len() - i,
    {
        proof {
            reveal(Seq::filter);
            assert(queue@.take(i + 1).drop_last() =~= queue@.take(i as int));
        }
        let c = queue[i];
        if is_listed(catalog, ids, c) {
            chosen.push(c);
        } else {
            rest.push(c);
        }
        i = i + 1;
    }
    assert(queue@.take(i as int) =~= queue@);
    (chosen, rest)
}

/// The cards of `queue` that `ids` do not name, in queue order.
pub fn unselected_cards(queue: &Vec<usize>, catalog: &Vec<Card>, ids: &Vec<String>) -> (r: Vec<usize>)
    ensures
        r@ == unselected(queue@, catalog@, id_views(ids@)),
{
    let (_, rest) = partition(queue, catalog, ids);
    rest
}

/// What buying the research-queue cards named by `ids` does: each costs 3
/// megacredits; the bought cards join the hand in queue order and the others
/// stay queued.
pub open spec fn research_spec(s: GameStateView, catalog: Seq<Card>, player: usize, ids: Seq<Seq<char>>) -> Result<
    GameStateView,
    CannotExecute,
> {
    if player >= s.players.len() {
        Err(CannotExecute::UnknownPlayer { player })
    } else {
        let p = s.players[player as int];
        let chosen = selected(p.research_queue, catalog, ids);
        if chosen.len() != ids.len() {
            Err(CannotExecute::IdSetMismatch { player })
        } else if p.inventory.megacredits < 3 * ids.len() {
            Err(
                CannotExecute::InsufficientFunds {
                    player,
                    cost: (3 * ids.len()) as u128,
                    megacredits: p.inventory.megacredits,
                },
            )
        } else {
            Ok(
                s.with_player(
                    player as int,
                    PlayerView {
                        hand: p.hand + chosen,
                        research_queue: unselected(p.research_queue, catalog, ids),
                        inventory: Inventory {
                            megacredits: (p.inventory.megacredits - 3 * ids.len()) as u32,
                            ..p.inventory
                        },
                        ..p
                    },
                ),
            )
        }
    }
}

#[derive(Debug)]
pub struct ResearchCards {
    pub player_id: usize,
    pub card_ids: Vec<String>,
}

impl ResearchCards {
    pub fn apply(&self, state: &mut GameState, catalog: &Vec<Card>) -> (r: Result<Applied, CannotExecute>)
        ensures
            outcome(
                r,
                old(state)@,
                final(state)@,
                research_spec(old(state)@, catalog@, self.player_id, id_views(self.card_ids@)),
            ),
    {
        let p = self.player_id;
        if p >= state.players.len() {
            return Err(CannotExecute::UnknownPlayer { player: p });
        }
        let ghost s = old(state)@;
        let (mut chosen, rest) = partition(&state.players[p].research_queue, catalog, &self.card_ids);
        if chosen.len() != self.card_ids.len() {
            return Err(CannotExecute::IdSetMismatch { player: p });
        }
        let cost: u128 = 3 * (self.card_ids.len() as u128);
        let megacredits = state.players[p].inventory.megacredits;
        if (megacredits as u128) < cost {
            return Err(CannotExecute::InsufficientFunds { player: p, cost, megacredits });
        }
        let paid = cost as u32;
        let held = state.players[p].hand.len();
        let mut queue_before = rest;
        std::mem::swap(&mut queue_before, &mut state.players[p].research_queue);
        state.players[p].hand.append(&mut chosen);
        state.players[p].inventory.megacredits = megacredits - paid;
        let rec = Applied::Researched { player: p, queue_before, held, paid };
        proof {
            let t = research_spec(s, catalog@, p, id_views(self.card_ids@))->Ok_0;
            assert(state@.players =~= t.players);
            assert(state@.players[p as int].hand.take(held as int) =~= s.players[p as int].hand);
            assert(undone(rec, state@).players =~= s.players);
        }
        Ok(rec)
    }
}

/// What discarding the research-queue cards named by `ids` does: they go to
/// the project discard stack in queue order and the others stay queued.
pub open spec fn discard_research_spec(s: GameStateView, catalog: Seq<Card>, player: usize, ids: Seq<Seq<char>>) -> Result<
    GameStateView,
    CannotExecute,
> {
    if player >= s.players.len() {
        Err(CannotExecute::UnknownPlayer { player })
    } else {
        let p = s.players[player as int];
        let chosen = selected(p.research_queue, catalog, ids);
        if chosen.len() != ids.len() {
            Err(CannotExecute::IdSetMismatch { player })
        } else {
            Ok(
                GameStateView {
                    project_discard: s.project_discard + chosen,
                    ..s.with_player(
                        player as int,
                        PlayerView {
                            research_queue: unselected(p.research_queue, catalog, ids),
                            ..p
                        },
                    )
                },
            )
        }
    }
}

#[derive(Debug)]
pub struct DiscardResearch {
    pub player_id: usize,
    pub card_ids: Vec<String>,
}

impl DiscardResearch {
    pub fn apply(&self, state: &mut GameState, catalog: &Vec<Card>) -> (r: Result<Applied, CannotExecute>)
        ensures
            outcome(
                r,
                old(state)@,
                final(state)@,
                discard_research_spec(old(state)@, catalog@, self.player_id, id_views(self.card_ids@)),
            ),
    {
        let p = self.player_id;
        if p >= state.players.len() {
            return Err(CannotExecute::UnknownPlayer { player: p });
        }
        let ghost s = old(state)@;
        let (mut chosen, rest) = partition(&state.players[p].research_queue, catalog, &self.card_ids);
        if chosen.len() != self.card_ids.len() {
            return Err(CannotExecute::IdSetMismatch { player: p });
        }
        let discarded = state.project_pile.discard_pile.len();
        let mut queue_before = rest;
        std::mem::swap(&mut queue_before, &mut state.players[p].research_queue);
        state.project_pile.discard_cards(&mut chosen);
        let rec = Applied::DiscardedResearch { player: p, queue_before, discarded };
        proof {
            let t = discard_research_spec(s, catalog@, p, id_views(self.card_ids@))->Ok_0;
            assert(state@.players =~= t.players);
            assert(state@.project_discard.take(discarded as int) =~= s.project_discard);
            assert(undone(rec, state@).players =~= s.players);
        }
        Ok(rec)
    }
}

/// What adding the deltas `ds` to `player`'s inventory does.
pub open spec fn mod_resources_spec(s: GameStateView, player: usize, ds: Seq<Resource>) -> Result<
    GameStateView,
    CannotExecute,
> {
    if player >= s.players.len() {
        Err(CannotExecute::UnknownPlayer { player })
    } else {
        let p = s.players[player as int];
        match stock_after_all(p.inventory, ds, player) {
            Ok(inv) => Ok(s.with_player(player as int, PlayerView { inventory: inv, ..p })),
            Err(e) => Err(e),
        }
    }
}

/// Adds signed deltas to a player's inventory, all or none.
#[derive(Debug)]
pub struct ModResources {
    pub player_id: usize,
    pub rescs: Vec<Resource>,
}

impl ModResources {
    pub fn apply(&self, state: &mut GameState) -> (r: Result<Applied, CannotExecute>)
        ensures
            outcome(r, old(state)@, final(state)@, mod_resources_spec(old(state)@, self.player_id, self.rescs@)),
    {
        let p = self.player_id;
        if p >= state.players.len() {
            return Err(CannotExecute::UnknownPlayer { player: p });
        }
        let ghost s = old(state)@;
        let before = state.players[p].inventory;
        let after = match mod_inventory(before, &self.rescs, p) {
            Ok(inv) => inv,
            Err(e) => {
                return Err(e);
            },
        };
        state.players[p].inventory = after;
        let rec = Applied::Stock { player: p, before };
        proof {
            assert(state@.players =~= mod_resources_spec(s, p, self.rescs@)->Ok_0.players);
            assert(undone(rec, state@).players =~= s.players);
        }
        Ok(rec)
    }
}

/// What adding the deltas `ds` to `player`'s production rates does.
pub open spec fn mod_production_spec(s: GameStateView, player: usize, ds: Seq<Resource>) -> Result<
    GameStateView,
    CannotExecute,
> {
    if player >= s.players.len() {
        Err(CannotExecute::UnknownPlayer { player })
    } else {
        let p = s.players[player as int];
        match rates_after_all(p.production, ds, player) {
            Ok(pr) => Ok(s.with_player(player as int, PlayerView { production: pr, ..p })),
            Err(e) => Err(e),
        }
    }
}

/// Adds signed deltas to a player's production rates, all or none.
#[derive(Debug)]
pub struct ModProduction {
    pub player_id: usize,
    pub rescs: Vec<Resource>,
}

impl ModProduction {
    pub fn apply(&self, state: &mut GameState) -> (r: Result<Applied, CannotExecute>)
        ensures
            outcome(r, old(state)@, final(state)@, mod_production_spec(old(state)@, self.player_id, self.rescs@)),
    {
        let p = self.player_id;
        if p >= state.players.len() {
            return Err(CannotExecute::UnknownPlayer { player: p });
        }
        let ghost s = old(state)@;
        let before = state.players[p].production;
        let after = match mod_production(before, &self.rescs, p) {
            Ok(pr) => pr,
            Err(e) => {
                return Err(e);
            },
        };
        state.players[p].production = after;
        let rec = Applied::Rates { player: p, before };
        proof {
            assert(state@.players =~= mod_production_spec(s, p, self.rescs@)->Ok_0.players);
            assert(undone(rec, state@).players =~= s.players);
        }
        Ok(rec)
    }
}

/// One command of any kind, as it arrives from a player.
#[derive(Debug)]
pub enum CmdWrapper {
    ModResources(ModResources),
    ModProduction(ModProduction),
    DrawCards(DrawCards),
    PlayCard(PlayCard),
    ResearchCards(ResearchCards),
    DiscardResearch(DiscardResearch),
    ChooseCorporation(ChooseCorporation),
}

/// The result of applying `cmd` in `s`, for every command but `DrawCards`,
/// whose result depends on a shuffle.
pub open spec fn effect(cmd: CmdWrapper, s: GameStateView, catalog: Seq<Card>) -> Option<
    Result<GameStateView, CannotExecute>,
> {
    match cmd {
        CmdWrapper::ModResources(c) => Some(mod_resources_spec(s, c.player_id, c.rescs@)),
        CmdWrapper::ModProduction(c) => Some(mod_production_spec(s, c.player_id, c.rescs@)),
        CmdWrapper::DrawCards(_) => None,
        CmdWrapper::PlayCard(c) => Some(play_card_spec(s, catalog, c.owner_id, c.card_id@)),
        CmdWrapper::ResearchCards(c) => Some(research_spec(s, catalog, c.player_id, id_views(c.card_ids@))),
        CmdWrapper::DiscardResearch(c) => Some(
            discard_research_spec(s, catalog, c.player_id, id_views(c.card_ids@)),
        ),
        CmdWrapper::ChooseCorporation(c) => Some(
            choose_corporation_spec(s, catalog, c.player_id, c.card_id@),
        ),
    }
}

impl CmdWrapper {
    /// Applies the command alone; on failure nothing changes, on success the
    /// returned record undoes it.
    pub fn apply(&self, state: &mut GameState, catalog: &Vec<Card>) -> (r: Result<Applied, CannotExecute>)
        ensures
            r is Err ==> final(state)@ == old(state)@,
            r is Ok ==> reverts(r->Ok_0, final(state)@, old(state)@),
            r is Ok ==> all_cards(final(state)@) == all_cards(old(state)@),
            final(state)@.same_seats(old(state)@),
            *self matches CmdWrapper::DrawCards(c) ==> draw_outcome(c, r, old(state)@, final(state)@),
            effect(*self, old(state)@, catalog@) is Some ==> outcome(
                r,
                old(state)@,
                final(state)@,
                effect(*self, old(state)@, catalog@)->Some_0,
            ),
    {
        let ghost s0 = state@;
        let r = match self {
            CmdWrapper::ModResources(c) => c.apply(state),
            CmdWrapper::ModProduction(c) => c.apply(state),
            CmdWrapper::DrawCards(c) => c.apply(state),
            CmdWrapper::PlayCard(c) => c.apply(state, catalog),
            CmdWrapper::ResearchCards(c) => c.apply(state, catalog),
            CmdWrapper::DiscardResearch(c) => c.apply(state, catalog),
            CmdWrapper::ChooseCorporation(c) => c.apply(state, catalog),
        };
        proof {
            if r is Ok {
                match self {
                    CmdWrapper::DrawCards(c) => {
                        lemma_draw_conserves_cards(
                            s0,
                            state@,
                            c.player_id,
                            c.count,
                            c.card_type == CardType::Corporation,
                        );
                    },
                    _ => {
                        lemma_command_conserves_cards(*self, s0, catalog@, state@);
                    },
                }
            }
        }
        r
    }
}

/// How much of `kind` an inventory holds.
pub open spec fn stock_of(inv: Inventory, kind: ResourceKind) -> u32 {
    match kind {
        ResourceKind::MegaCredits => inv.megacredits,
        ResourceKind::Steel => inv.steel,
        ResourceKind::Titanium => inv.titanium,
        ResourceKind::Plants => inv.plants,
        ResourceKind::Energy => inv.energy,
        ResourceKind::Heat => inv.heat,
    }
}

/// A delta of `amount` on `kind`.
pub open spec fn delta_of(kind: ResourceKind, amount: i32) -> Resource {
    match kind {
        ResourceKind::MegaCredits => Resource::MegaCredits(amount),
        ResourceKind::Steel => Resource::Steel(amount),
        ResourceKind::Titanium => Resource::Titanium(amount),
        ResourceKind::Plants => Resource::Plants(amount),
        ResourceKind::Energy => Resource::Energy(amount),
        ResourceKind::Heat => Resource::Heat(amount),
    }
}

/// A delta that would take a stock below zero is refused with
/// `InsufficientResource`, naming the resource, what was asked and what was
/// held; `ModResources` then leaves the state as it was.
pub proof fn lemma_inventory_floor(s: GameStateView, player: usize, kind: ResourceKind, amount: i32)
    requires
        player < s.players.len(),
        stock_of(s.players[player as int].inventory, kind) + amount < 0,
    ensures
        mod_resources_spec(s, player, seq![delta_of(kind, amount)]) == Err::<GameStateView, CannotExecute>(
            CannotExecute::InsufficientResource {
                player,
                resource: kind,
                needed: (-(amount as int)) as i64,
                available: stock_of(s.players[player as int].inventory, kind) as i64,
            },
        ),
{
    let ds = seq![delta_of(kind, amount)];
    let inv = s.players[player as int].inventory;
    assert(ds.drop_last() =~= Seq::<Resource>::empty());
    assert(stock_after_all(inv, ds.drop_last(), player) == Ok::<Inventory, CannotExecute>(inv));
    assert(ds.last() == delta_of(kind, amount));
    assert(stock_after_all(inv, ds, player) == stock_after(inv, delta_of(kind, amount), player));
}

/// Megacredit production may be lowered to exactly -5, and not to -6.
pub proof fn lemma_credit_production_floor(s: GameStateView, player: usize, amount: i32)
    requires
        player < s.players.len(),
    ensures
        s.players[player as int].production.megacredits + amount == -5 ==> mod_production_spec(
            s,
            player,
            seq![Resource::MegaCredits(amount)],
        ) is Ok && mod_production_spec(s, player, seq![Resource::MegaCredits(amount)])->Ok_0.players[player as int].production.megacredits
            == -5,
        s.players[player as int].production.megacredits + amount == -6 ==> mod_production_spec(
            s,
            player,
            seq![Resource::MegaCredits(amount)],
        ) is Err,
{
    let ds = seq![Resource::MegaCredits(amount)];
    let pr = s.players[player as int].production;
    assert(ds.drop_last() =~= Seq::<Resource>::empty());
    assert(rates_after_all(pr, ds.drop_last(), player) == Ok::<Production, CannotExecute>(pr));
    assert(ds.last() == Resource::MegaCredits(amount));
    assert(rates_after_all(pr, ds, player) == rates_after(pr, Resource::MegaCredits(amount), player));
}

} // verus!
