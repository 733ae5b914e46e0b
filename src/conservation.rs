use vstd::multiset::Multiset;
use vstd::prelude::*;

use crate::card::{has_id, Card};
use crate::chain::run_chain;
use crate::commands::{
    dealt_to, effect, first_match, has_match, id_views, is_first_match, selected, slot_cards,
    unselected, CannotExecute, CmdWrapper,
};
use crate::game_state::{GameStateView, OwnedCard};
use crate::player::PlayerView;

verus! {

broadcast use vstd::seq_lib::group_to_multiset_ensures, vstd::seq_lib::lemma_multiset_commutative,
    vstd::multiset::group_multiset_axioms;

/// The cards a player holds: hand, research queue and corporation.
pub open spec fn player_cards(p: PlayerView) -> Multiset<usize> {
    p.hand.to_multiset().add(p.research_queue.to_multiset()).add(slot_cards(p.corporation).to_multiset())
}

pub open spec fn players_cards(ps: Seq<PlayerView>) -> Multiset<usize>
    decreases ps.len(),
{
    if ps.len() == 0 {
        Multiset::empty()
    } else {
        players_cards(ps.drop_last()).add(player_cards(ps.last()))
    }
}

pub open spec fn in_play_cards(cs: Seq<OwnedCard>) -> Multiset<usize> {
    cs.map_values(|o: OwnedCard| o.card).to_multiset()
}

/// The cards in the piles and in play.
pub open spec fn board_cards(s: GameStateView) -> Multiset<usize> {
    s.project_draw.to_multiset().add(s.project_discard.to_multiset()).add(
        s.corporation_draw.to_multiset(),
    ).add(s.corporation_discard.to_multiset()).add(in_play_cards(s.cards_in_play))
}

/// Every card of the match, wherever it is: both piles' stacks, the cards in
/// play, and what the players hold.
pub open spec fn all_cards(s: GameStateView) -> Multiset<usize> {
    board_cards(s).add(players_cards(s.players))
}

/// No card is in two places, nor twice in one.
pub open spec fn no_duplicates(s: GameStateView) -> bool {
    forall|c: usize| #[trigger] all_cards(s).count(c) <= 1
}

proof fn lemma_players_update(ps: Seq<PlayerView>, j: int, q: PlayerView)
    requires
        0 <= j < ps.len(),
    ensures
        forall|c: usize|
            #[trigger] players_cards(ps.update(j, q)).count(c) + player_cards(ps[j]).count(c)
                == players_cards(ps).count(c) + player_cards(q).count(c),
    decreases ps.len(),
{
    let u = ps.update(j, q);
    assert(players_cards(u) == players_cards(u.drop_last()).add(player_cards(u.last())));
    assert(players_cards(ps) == players_cards(ps.drop_last()).add(player_cards(ps.last())));
    if j == ps.len() - 1 {
        assert(u.drop_last() =~= ps.drop_last());
        assert(u.last() == q);
    } else {
        lemma_players_update(ps.drop_last(), j, q);
        assert(u.drop_last() =~= ps.drop_last().update(j, q));
        assert(u.last() == ps.last());
        assert(ps.drop_last()[j] == ps[j]);
    }
}

proof fn lemma_selection_splits(q: Seq<usize>, catalog: Seq<Card>, ids: Seq<Seq<char>>)
    ensures
        forall|c: usize|
            #[trigger] q.to_multiset().count(c) == selected(q, catalog, ids).to_multiset().count(c)
                + unselected(q, catalog, ids).to_multiset().count(c),
    decreases q.len(),
{
    reveal(Seq::filter);
    if q.len() > 0 {
        lemma_selection_splits(q.drop_last(), catalog, ids);
        assert(q =~= q.drop_last().push(q.last()));
    }
}

/// Player `j` of `s` becomes `q` in `t`, and the cards the piles and play
/// gained are exactly those the player gave up.
proof fn lemma_swap_player(s: GameStateView, t: GameStateView, j: int, q: PlayerView)
    requires
        0 <= j < s.players.len(),
        t.players == s.players.update(j, q),
        forall|c: usize|
            #[trigger] board_cards(t).count(c) + player_cards(q).count(c) == board_cards(s).count(c)
                + player_cards(s.players[j]).count(c),
    ensures
        all_cards(t) =~= all_cards(s),
{
    lemma_players_update(s.players, j, q);
    assert forall|c: usize| #[trigger] all_cards(t).count(c) == all_cards(s).count(c) by {
        assert(players_cards(t.players).count(c) + player_cards(s.players[j]).count(c)
            == players_cards(s.players).count(c) + player_cards(q).count(c));
        assert(board_cards(t).count(c) + player_cards(q).count(c) == board_cards(s).count(c)
            + player_cards(s.players[j]).count(c));
    }
    assert(all_cards(t) =~= all_cards(s));
}

proof fn lemma_first_match_exists(cards: Seq<usize>, catalog: Seq<Card>, id: Seq<char>)
    requires
        has_match(cards, catalog, id),
    ensures
        is_first_match(cards, catalog, id, first_match(cards, catalog, id)),
    decreases cards.len(),
{
    let d = cards.drop_last();
    if has_match(d, catalog, id) {
        lemma_first_match_exists(d, catalog, id);
        let i = first_match(d, catalog, id);
        assert(d[i] == cards[i]);
        assert forall|j: int| 0 <= j < i implies !has_id(catalog, #[trigger] cards[j], id) by {
            assert(d[j] == cards[j]);
        }
        assert(is_first_match(cards, catalog, id, i));
    } else {
        let i = cards.len() - 1;
        let w = choose|w: int| 0 <= w < cards.len() && has_id(catalog, #[trigger] cards[w], id);
        if w < i {
            assert(d[w] == cards[w]);
        }
        assert forall|j: int| 0 <= j < i implies !has_id(catalog, #[trigger] cards[j], id) by {
            assert(d[j] == cards[j]);
        }
        assert(is_first_match(cards, catalog, id, i));
    }
}

/// Changing anything of a player but the cards they hold keeps every card of
/// the match.
pub proof fn lemma_holdings_kept(s: GameStateView, t: GameStateView, j: int)
    requires
        0 <= j < s.players.len(),
        t.players == s.players.update(j, t.players[j]),
        board_cards(t) == board_cards(s),
        t.players[j].hand == s.players[j].hand,
        t.players[j].research_queue == s.players[j].research_queue,
        t.players[j].corporation == s.players[j].corporation,
    ensures
        all_cards(t) == all_cards(s),
{
    lemma_swap_player(s, t, j, t.players[j]);
}

/// Every command that succeeds keeps every card of the match: it only moves
/// cards between the piles, the players and play.
pub proof fn lemma_command_conserves_cards(cmd: CmdWrapper, s: GameStateView, catalog: Seq<Card>, t: GameStateView)
    requires
        effect(cmd, s, catalog) == Some(Ok::<GameStateView, CannotExecute>(t)),
    ensures
        all_cards(t) == all_cards(s),
        no_duplicates(s) ==> no_duplicates(t),
{
    match cmd {
        CmdWrapper::ModResources(c) => {
            lemma_swap_player(s, t, c.player_id as int, t.players[c.player_id as int]);
        },
        CmdWrapper::ModProduction(c) => {
            lemma_swap_player(s, t, c.player_id as int, t.players[c.player_id as int]);
        },
        CmdWrapper::DrawCards(_) => {},
        CmdWrapper::PlayCard(c) => {
            let j = c.owner_id as int;
            let p = s.players[j];
            lemma_first_match_exists(p.hand, catalog, c.card_id@);
            let i = first_match(p.hand, catalog, c.card_id@);
            let card = p.hand[i];
            assert(t.cards_in_play.map_values(|o: OwnedCard| o.card) =~= s.cards_in_play.map_values(
                |o: OwnedCard| o.card,
            ).push(card));
            lemma_swap_player(s, t, j, t.players[j]);
        },
        CmdWrapper::ChooseCorporation(c) => {
            let j = c.player_id as int;
            let p = s.players[j];
            lemma_first_match_exists(p.hand, catalog, c.card_id@);
            let i = first_match(p.hand, catalog, c.card_id@);
            let rest = p.hand.remove(i);
            assert(p.hand.to_multiset() =~= rest.to_multiset().insert(p.hand[i]));
            assert(t.corporation_discard.to_multiset() =~= s.corporation_discard.to_multiset().add(
                rest.to_multiset(),
            ).add(slot_cards(p.corporation).to_multiset()));
            assert(slot_cards(t.players[j].corporation).to_multiset() =~= Multiset::empty().insert(
                p.hand[i],
            ));
            lemma_swap_player(s, t, j, t.players[j]);
        },
        CmdWrapper::ResearchCards(c) => {
            let j = c.player_id as int;
            let p = s.players[j];
            let ids = id_views(c.card_ids@);
            lemma_selection_splits(p.research_queue, catalog, ids);
            let q = t.players[j];
            assert forall|x: usize|
                #[trigger] board_cards(t).count(x) + player_cards(q).count(x) == board_cards(s).count(x)
                    + player_cards(p).count(x) by {
                assert(q.hand.to_multiset() =~= p.hand.to_multiset().add(
                    selected(p.research_queue, catalog, ids).to_multiset(),
                ));
            }
            lemma_swap_player(s, t, j, q);
        },
        CmdWrapper::DiscardResearch(c) => {
            let j = c.player_id as int;
            let p = s.players[j];
            let ids = id_views(c.card_ids@);
            lemma_selection_splits(p.research_queue, catalog, ids);
            let q = t.players[j];
            assert forall|x: usize|
                #[trigger] board_cards(t).count(x) + player_cards(q).count(x) == board_cards(s).count(x)
                    + player_cards(p).count(x) by {
                assert(t.project_discard.to_multiset() =~= s.project_discard.to_multiset().add(
                    selected(p.research_queue, catalog, ids).to_multiset(),
                ));
            }
            lemma_swap_player(s, t, j, q);
        },
    }
    assert(all_cards(t) =~= all_cards(s));
}

/// Drawing cards keeps every card of the match.
pub proof fn lemma_draw_conserves_cards(
    before: GameStateView,
    after: GameStateView,
    player: usize,
    count: usize,
    corporation: bool,
)
    requires
        player < before.players.len(),
        dealt_to(before, after, player, count, corporation),
    ensures
        all_cards(after) == all_cards(before),
        no_duplicates(before) ==> no_duplicates(after),
{
    let p = before.players[player as int];
    let q = after.players[player as int];
    let drawn = if corporation {
        q.hand.skip(p.hand.len() as int)
    } else {
        q.research_queue.skip(p.research_queue.len() as int)
    };
    if corporation {
        assert(q.hand =~= p.hand + drawn);
    } else {
        assert(q.research_queue =~= p.research_queue + drawn);
    }
    assert forall|c: usize|
        #[trigger] board_cards(after).count(c) + player_cards(q).count(c) == board_cards(before).count(c)
            + player_cards(p).count(c) by {
        if corporation {
            assert(after.corporation_draw.to_multiset().add(after.corporation_discard.to_multiset()).add(
                drawn.to_multiset(),
            ).count(c) == before.corporation_draw.to_multiset().add(
                before.corporation_discard.to_multiset(),
            ).count(c));
        } else {
            assert(after.project_draw.to_multiset().add(after.project_discard.to_multiset()).add(
                drawn.to_multiset(),
            ).count(c) == before.project_draw.to_multiset().add(before.project_discard.to_multiset()).count(
                c,
            ));
        }
    }
    lemma_swap_player(before, after, player as int, q);
    assert(all_cards(after) =~= all_cards(before));
}

/// A chain of commands that succeeds keeps every card of the match.
pub proof fn lemma_chain_conserves_cards(cmds: Seq<CmdWrapper>, s: GameStateView, catalog: Seq<Card>, t: GameStateView)
    requires
        run_chain(cmds, s, catalog) == Some(Ok::<GameStateView, CannotExecute>(t)),
    ensures
        all_cards(t) == all_cards(s),
        no_duplicates(s) ==> no_duplicates(t),
    decreases cmds.len(),
{
    if cmds.len() > 0 {
        let mid = run_chain(cmds.drop_last(), s, catalog)->Some_0->Ok_0;
        lemma_chain_conserves_cards(cmds.drop_last(), s, catalog, mid);
        lemma_command_conserves_cards(cmds.last(), mid, catalog, t);
    }
}

} // verus!
