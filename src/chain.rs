use vstd::prelude::*;

use crate::card::Card;
use crate::conservation::all_cards;
use crate::commands::{effect, undoable, undone, Applied, CannotExecute, CmdWrapper};
use crate::game_state::{GameState, GameStateView};

verus! {

/// The records `recs` can be undone one after another, the last first,
/// starting in state `s`.
pub open spec fn undoable_all(recs: Seq<Applied>, s: GameStateView) -> bool
    decreases recs.len(),
{
    recs.len() == 0 || (undoable(recs.last(), s) && undoable_all(
        recs.drop_last(),
        undone(recs.last(), s),
    ))
}

/// The state that undoing `recs`, the last first, gives in `s`.
pub open spec fn undone_all(recs: Seq<Applied>, s: GameStateView) -> GameStateView
    decreases recs.len(),
{
    if recs.len() == 0 {
        s
    } else {
        undone_all(recs.drop_last(), undone(recs.last(), s))
    }
}

/// Undoing `recs` in `after` is possible and gives back `before`.
pub open spec fn reverts_all(recs: Seq<Applied>, after: GameStateView, before: GameStateView) -> bool {
    undoable_all(recs, after) && undone_all(recs, after) == before
}

/// The result of applying `cmds` in order from `s`, stopping at the first
/// failure; `None` where a draw makes it depend on a shuffle.
pub open spec fn run_chain(cmds: Seq<CmdWrapper>, s: GameStateView, catalog: Seq<Card>) -> Option<
    Result<GameStateView, CannotExecute>,
>
    decreases cmds.len(),
{
    if cmds.len() == 0 {
        Some(Ok(s))
    } else {
        match run_chain(cmds.drop_last(), s, catalog) {
            Some(Ok(t)) => effect(cmds.last(), t, catalog),
            other => other,
        }
    }
}

proof fn lemma_run_chain_stops(cmds: Seq<CmdWrapper>, s: GameStateView, catalog: Seq<Card>, k: int)
    requires
        0 <= k <= cmds.len(),
        !(run_chain(cmds.take(k), s, catalog) is Some && run_chain(cmds.take(k), s, catalog)->Some_0 is Ok),
    ensures
        run_chain(cmds, s, catalog) == run_chain(cmds.take(k), s, catalog),
    decreases cmds.len() - k,
{
    if k < cmds.len() {
        assert(cmds.take(k + 1).drop_last() =~= cmds.take(k));
        lemma_run_chain_stops(cmds, s, catalog, k + 1);
    } else {
        assert(cmds.take(k) =~= cmds);
    }
}

/// Undoes `recs`, the last first.
pub fn rollback(state: &mut GameState, recs: Vec<Applied>)
    requires
        undoable_all(recs@, old(state)@),
    ensures
        final(state)@ == undone_all(recs@, old(state)@),
{
    let mut recs = recs;
    let ghost target = undone_all(recs@, state@);
    while recs.len() > 0
        invariant
            undoable_all(recs@, state@),
            undone_all(recs@, state@) == target,
        decreases recs.len(),
    {
        let ghost before = recs@;
        let a = recs.pop().unwrap();
        assert(recs@ == before.drop_last());
        a.undo(state);
    }
}

/// Applies `cmds` in order as one unit. If one fails, those already applied
/// are undone, the last first, and its error is returned: the state is then
/// as it was. On success the records undo the whole unit.
pub fn apply_chain(state: &mut GameState, catalog: &Vec<Card>, cmds: &Vec<CmdWrapper>) -> (r: Result<
    Vec<Applied>,
    CannotExecute,
>)
    ensures
        r is Err ==> final(state)@ == old(state)@,
        r is Ok ==> reverts_all(r->Ok_0@, final(state)@, old(state)@),
        all_cards(final(state)@) == all_cards(old(state)@),
        final(state)@.same_seats(old(state)@),
        run_chain(cmds@, old(state)@, catalog@) is Some ==> match run_chain(
            cmds@,
            old(state)@,
            catalog@,
        )->Some_0 {
            Ok(t) => r is Ok && final(state)@ == t,
            Err(e) => r == Err::<Vec<Applied>, CannotExecute>(e),
        },
{
    let ghost s0 = state@;
    let mut recs: Vec<Applied> = Vec::new();
    let mut i: usize = 0;
    while i < cmds.len()
        invariant
            i <= cmds@.len(),
            s0 == old(state)@,
            state@.same_seats(s0),
            all_cards(state@) == all_cards(s0),
            reverts_all(recs@, state@, s0),
            run_chain(cmds@.take(i as int), s0, catalog@) is Some ==> run_chain(
                cmds@.take(i as int),
                s0,
                catalog@,
            )->Some_0 == Ok::<GameStateView, CannotExecute>(state@),
        decreases cmds.len() - i,
    {
        proof {
            assert(cmds@.take(i + 1).drop_last() =~= cmds@.take(i as int));
        }
        let ghost mid = state@;
        match cmds[i].apply(state, catalog) {
            Ok(a) => {
                let ghost prev = recs@;
                recs.push(a);
                assert(recs@.drop_last() == prev);
            },
            Err(e) => {
                proof {
                    lemma_run_chain_stops(cmds@, s0, catalog@, i + 1);
                }
                rollback(state, recs);
                return Err(e);
            },
        }
        i = i + 1;
    }
    assert(cmds@.take(i as int) =~= cmds@);
    Ok(recs)
}

} // verus!
