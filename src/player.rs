use vstd::prelude::*;

verus! {

#[derive(Clone, Copy, Debug, PartialEq, Eq, Structural)]
pub enum ActionState {
    Acting(u8),
    Waiting,
    Passed,
}

/// What a player holds; every counter is non-negative.
#[derive(Clone, Copy, Debug, PartialEq, Eq, Structural)]
pub struct Inventory {
    pub megacredits: u32,
    pub steel: u32,
    pub titanium: u32,
    pub plants: u32,
    pub energy: u32,
    pub heat: u32,
}

/// Per-generation production rates. Megacredit production may go down to -5.
#[derive(Clone, Copy, Debug, PartialEq, Eq, Structural)]
pub struct Production {
    pub megacredits: i32,
    pub steel: u32,
    pub titanium: u32,
    pub plants: u32,
    pub energy: u32,
    pub heat: u32,
}

/// One seat at the table. Cards are catalog indices.
#[derive(Debug)]
pub struct Player {
    pub id: usize,
    pub tf_rating: i32,
    pub action_state: ActionState,
    pub corporation: Option<usize>,
    pub inventory: Inventory,
    pub production: Production,
    pub hand: Vec<usize>,
    pub research_queue: Vec<usize>,
}

pub ghost struct PlayerView {
    pub id: usize,
    pub tf_rating: i32,
    pub action_state: ActionState,
    pub corporation: Option<usize>,
    pub inventory: Inventory,
    pub production: Production,
    pub hand: Seq<usize>,
    pub research_queue: Seq<usize>,
}

impl View for Player {
    type V = PlayerView;

    open spec fn view(&self) -> PlayerView {
        PlayerView {
            id: self.id,
            tf_rating: self.tf_rating,
            action_state: self.action_state,
            corporation: self.corporation,
            inventory: self.inventory,
            production: self.production,
            hand: self.hand@,
            research_queue: self.research_queue@,
        }
    }
}

/// A fresh seat: rating 20, nothing held, every production rate at 1.
pub open spec fn initial_player(id: usize) -> PlayerView {
    PlayerView {
        id,
        tf_rating: 20,
        action_state: ActionState::Waiting,
        corporation: None,
        inventory: Inventory { megacredits: 0, steel: 0, titanium: 0, plants: 0, energy: 0, heat: 0 },
        production: Production { megacredits: 1, steel: 1, titanium: 1, plants: 1, energy: 1, heat: 1 },
        hand: Seq::empty(),
        research_queue: Seq::empty(),
    }
}

impl Player {
    /// Moves `projects` to the end of the research queue.
    pub fn enqueue_research(&mut self, projects: &mut Vec<usize>)
        ensures
            final(self)@ == (PlayerView {
                research_queue: old(self)@.research_queue + old(projects)@,
                ..old(self)@
            }),
            final(projects)@.len() == 0,
    {
        self.research_queue.append(projects);
    }

    /// Moves `corporations` to the end of the hand.
    pub fn draft_corporations(&mut self, corporations: &mut Vec<usize>)
        ensures
            final(self)@ == (PlayerView { hand: old(self)@.hand + old(corporations)@, ..old(self)@ }),
            final(corporations)@.len() == 0,
    {
        self.hand.append(corporations);
    }

    pub fn new(id: usize) -> (r: Player)
        ensures
            r@ == initial_player(id),
    {
        Player {
            id,
            tf_rating: 20,
            action_state: ActionState::Waiting,
            corporation: None,
            inventory: Inventory {
                megacredits: 0,
                steel: 0,
                titanium: 0,
                plants: 0,
                energy: 0,
                heat: 0,
            },
            production: Production {
                megacredits: 1,
                steel: 1,
                titanium: 1,
                plants: 1,
                energy: 1,
                heat: 1,
            },
            hand: Vec::new(),
            research_queue: Vec::new(),
        }
    }
}


} // verus!
