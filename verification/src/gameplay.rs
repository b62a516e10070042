//! Client game flow decisions, stated over plain values: which game
//! states count as in-game, which chunks the client asks for when the
//! simulation starts, what the chest-inventory window does each frame,
//! and how the opened interface reacts to input. The engine reads these
//! decisions and performs them; nothing here touches the engine.

use vstd::prelude::*;

use crate::coords::{DD, DDD};
use crate::networking::{chunk_to_request, AnimationKind, FunctorType, PlayerCommand};
use crate::world::GameWorld;

verus! {

/// The client's top-level game state.
#[derive(Copy, Clone, PartialEq, Eq, Structural, Debug, Hash)]
pub enum ShikataganaiGameState {
    MainMenu,
    PreSimulation,
    Simulation,
    Paused,
    InterfaceOpened,
}

/// Whether the world simulation is live: in the simulation itself,
/// paused over it, or with an interface window opened over it.
pub fn in_game(current_state: ShikataganaiGameState) -> (r: bool)
    ensures
        r == (current_state is Simulation || current_state is Paused
            || current_state is InterfaceOpened),
{
    match current_state {
        ShikataganaiGameState::Simulation
        | ShikataganaiGameState::Paused
        | ShikataganaiGameState::InterfaceOpened => true,
        _ => false,
    }
}

/// Whether game input reaches the world: only in the simulation and
/// while paused, not with an interface window opened.
pub fn in_game_input_enabled(current_state: ShikataganaiGameState) -> (r: bool)
    ensures
        r == (current_state is Simulation || current_state is Paused),
{
    match current_state {
        ShikataganaiGameState::Simulation | ShikataganaiGameState::Paused => true,
        _ => false,
    }
}

/// The chunks the client asks for when the simulation starts: the
/// 11 x 11 square of chunk coordinates around the origin, row by row.
pub fn initial_chunk_requests() -> (r: Vec<DD>)
    ensures
        r@.len() == 121,
        forall|k: int|
            0 <= k < 121 ==> #[trigger] r@[k] == (((k / 11) - 5) as i32, ((k % 11) - 5) as i32),
{
    let mut r: Vec<DD> = Vec::new();
    let mut i: i32 = -5;
    while i <= 5
        invariant
            -5 <= i <= 6,
            r@.len() == (i + 5) * 11,
            forall|k: int|
                0 <= k < r@.len() ==> #[trigger] r@[k] == (((k / 11) - 5) as i32, ((k % 11)
                    - 5) as i32),
        decreases 6 - i,
    {
        let mut j: i32 = -5;
        while j <= 5
            invariant
                -5 <= i <= 5,
                -5 <= j <= 6,
                r@.len() == (i + 5) * 11 + (j + 5),
                forall|k: int|
                    0 <= k < r@.len() ==> #[trigger] r@[k] == (((k / 11) - 5) as i32, ((k % 11)
                        - 5) as i32),
            decreases 6 - j,
        {
            r.push((i, j));
            proof {
                let k = r@.len() - 1;
                vstd::arithmetic::div_mod::lemma_fundamental_div_mod_converse(
                    k,
                    11,
                    i + 5,
                    j + 5,
                );
            }
            j = j + 1;
        }
        i = i + 1;
    }
    r
}

/// The slot of a five-wide inventory grid at column `x`, row `y`.
pub fn inventory_slot_index(x: usize, y: usize) -> (r: usize)
    requires
        x < 5,
        y < 2,
    ensures
        r == y * 5 + x,
        r < 10,
{
    y * 5 + x
}

/// The chest whose inventory window is open: the bits of its entity.
#[derive(Copy, Clone, PartialEq, Eq, Structural, Debug)]
pub struct InventoryOpened(pub u64);

/// What the pointer holds while rearranging inventory items.
#[derive(Copy, Clone, PartialEq, Eq, Structural, Debug)]
pub enum InventoryItemMovementStatus {
    Nothing,
    HoldingItemFrom(usize),
}

impl Default for InventoryItemMovementStatus {
    /// The pointer starts out holding nothing.
    fn default() -> (r: Self)
        ensures
            r is Nothing,
    {
        InventoryItemMovementStatus::Nothing
    }
}

/// What the chest-inventory window does on one frame.
#[derive(Copy, Clone, PartialEq, Eq, Structural, Debug)]
pub enum ChestInventoryAction {
    /// The chest's contents are here: draw the grid.
    ShowGrid,
    /// The contents are not here and not yet asked for: send the
    /// request and mark the chest as requested.
    Request,
    /// Nothing to do: no chest is open, or its contents are already
    /// on their way.
    Idle,
}

/// The chest-inventory window's decision for one frame: with a chest
/// open, draw its contents when they are here, request them once when
/// they are not, and otherwise wait.
pub fn chest_inventory(inventory_open: bool, has_inventory: bool, requested: bool) -> (r:
    ChestInventoryAction)
    ensures
        r == (if !inventory_open {
            ChestInventoryAction::Idle
        } else if has_inventory {
            ChestInventoryAction::ShowGrid
        } else if requested {
            ChestInventoryAction::Idle
        } else {
            ChestInventoryAction::Request
        }),
{
    if !inventory_open {
        ChestInventoryAction::Idle
    } else if has_inventory {
        ChestInventoryAction::ShowGrid
    } else if requested {
        ChestInventoryAction::Idle
    } else {
        ChestInventoryAction::Request
    }
}

/// The command that fetches an opened chest's contents.
pub fn request_inventory_command(location: DDD) -> (r: PlayerCommand)
    ensures
        (r matches PlayerCommand::RequestFunctor { location: l, functor: f } && l == location && f
            == FunctorType::InternalInventory),
{
    PlayerCommand::RequestFunctor { location, functor: FunctorType::InternalInventory }
}

/// How the opened interface reacts to input: on escape the chest closes,
/// the closing animation is announced to the server, and the game
/// returns to the simulation; otherwise nothing happens.
pub fn interface_input(escape_pressed: bool, chest_location: DDD) -> (r: Option<
    (PlayerCommand, ShikataganaiGameState),
>)
    ensures
        escape_pressed ==> (r matches Some((cmd, state)) && (cmd matches
            PlayerCommand::AnimationStart { location: l, animation: a } && l == chest_location && a
            == AnimationKind::ChestClose) && state == ShikataganaiGameState::Simulation),
        !escape_pressed ==> r is None,
{
    if escape_pressed {
        Some(
            (
                PlayerCommand::AnimationStart {
                    location: chest_location,
                    animation: AnimationKind::ChestClose,
                },
                ShikataganaiGameState::Simulation,
            ),
        )
    } else {
        None
    }
}

/// The commands that fetch the chunks the world does not hold yet, in
/// request order: for each coordinate of the batch the world lacks, its
/// chunk request.
pub fn chunk_requests(world: &GameWorld, wanted: &Vec<DD>) -> (r: Vec<PlayerCommand>)
    ensures
        r@.len() <= wanted@.len(),
        forall|k: int|
            0 <= k < r@.len() ==> ((#[trigger] r@[k]) matches PlayerCommand::RequestChunk {
                chunk_coord,
            } && !world.spec_has_chunk(chunk_coord) && wanted@.contains(chunk_coord)),
        forall|k: int|
            0 <= k < wanted@.len() && !world.spec_has_chunk(#[trigger] wanted@[k]) ==> exists|
                j: int,
            |
                0 <= j < r@.len() && ((#[trigger] r@[j]) matches PlayerCommand::RequestChunk {
                    chunk_coord,
                } && chunk_coord == wanted@[k]),
{
    let mut r: Vec<PlayerCommand> = Vec::new();
    let n = wanted.len();
    let mut k: usize = 0;
    while k < n
        invariant
            n == wanted@.len(),
            k <= n,
            r@.len() <= k,
            forall|j: int|
                0 <= j < r@.len() ==> ((#[trigger] r@[j]) matches PlayerCommand::RequestChunk {
                    chunk_coord,
                } && !world.spec_has_chunk(chunk_coord) && wanted@.contains(chunk_coord)),
            forall|k2: int|
                0 <= k2 < k && !world.spec_has_chunk(#[trigger] wanted@[k2]) ==> exists|j: int|
                    0 <= j < r@.len() && ((#[trigger] r@[j]) matches PlayerCommand::RequestChunk {
                        chunk_coord,
                    } && chunk_coord == wanted@[k2]),
        decreases n - k,
    {
        let ch = wanted[k];
        let ghost old_r = r@;
        match chunk_to_request(world, ch) {
            Some(cmd) => {
                r.push(cmd);
            },
            None => {},
        }
        proof {
            assert(wanted@.contains(wanted@[k as int]));
            assert forall|k2: int|
                0 <= k2 < k + 1 && !world.spec_has_chunk(#[trigger] wanted@[k2]) implies exists|
                j: int,
            |
                0 <= j < r@.len() && ((#[trigger] r@[j]) matches PlayerCommand::RequestChunk {
                    chunk_coord,
                } && chunk_coord == wanted@[k2]) by {
                if k2 < k {
                    let j = choose|j: int|
                        0 <= j < old_r.len() && ((#[trigger] old_r[j]) matches
                            PlayerCommand::RequestChunk { chunk_coord } && chunk_coord
                            == wanted@[k2]);
                    assert(r@[j] == old_r[j]);
                } else {
                    assert((r@[r@.len() - 1] matches PlayerCommand::RequestChunk { chunk_coord }
                        && chunk_coord == wanted@[k2]));
                }
            }
        }
        k = k + 1;
    }
    r
}

} // verus!
