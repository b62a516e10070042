use shikataganai::blocks::{Block, BlockId};
use shikataganai::gameplay::{
    chest_inventory, chunk_requests, in_game, in_game_input_enabled, initial_chunk_requests,
    interface_input, inventory_slot_index, request_inventory_command, ChestInventoryAction,
    InventoryItemMovementStatus, ShikataganaiGameState,
};
use shikataganai::networking::{AnimationKind, FunctorType, PlayerCommand};
use shikataganai::settings::{
    AmbientOcclusion, FullScreen, PresentModeChoice, Settings, VSync, WindowModeChoice,
};
use shikataganai::world::{Chunk, GameWorld};

#[test]
fn in_game_covers_simulation_pause_and_interface() {
    assert!(!in_game(ShikataganaiGameState::MainMenu));
    assert!(!in_game(ShikataganaiGameState::PreSimulation));
    assert!(in_game(ShikataganaiGameState::Simulation));
    assert!(in_game(ShikataganaiGameState::Paused));
    assert!(in_game(ShikataganaiGameState::InterfaceOpened));
}

#[test]
fn input_is_disabled_while_an_interface_is_open() {
    assert!(!in_game_input_enabled(ShikataganaiGameState::MainMenu));
    assert!(!in_game_input_enabled(ShikataganaiGameState::PreSimulation));
    assert!(in_game_input_enabled(ShikataganaiGameState::Simulation));
    assert!(in_game_input_enabled(ShikataganaiGameState::Paused));
    assert!(!in_game_input_enabled(ShikataganaiGameState::InterfaceOpened));
}

#[test]
fn initial_requests_cover_the_square_around_the_origin() {
    let requests = initial_chunk_requests();
    assert_eq!(requests.len(), 121);
    assert_eq!(requests[0], (-5, -5));
    assert_eq!(requests[10], (-5, 5));
    assert_eq!(requests[60], (0, 0));
    assert_eq!(requests[120], (5, 5));
    for i in -5..=5 {
        for j in -5..=5 {
            assert!(requests.contains(&(i, j)));
        }
    }
}

#[test]
fn slots_are_numbered_row_by_row() {
    assert_eq!(inventory_slot_index(0, 0), 0);
    assert_eq!(inventory_slot_index(4, 0), 4);
    assert_eq!(inventory_slot_index(0, 1), 5);
    assert_eq!(inventory_slot_index(4, 1), 9);
}

#[test]
fn chest_window_draws_requests_or_waits() {
    assert_eq!(chest_inventory(false, false, false), ChestInventoryAction::Idle);
    assert_eq!(chest_inventory(true, true, false), ChestInventoryAction::ShowGrid);
    assert_eq!(chest_inventory(true, true, true), ChestInventoryAction::ShowGrid);
    assert_eq!(chest_inventory(true, false, true), ChestInventoryAction::Idle);
    assert_eq!(chest_inventory(true, false, false), ChestInventoryAction::Request);
}

#[test]
fn the_inventory_request_names_the_chest() {
    match request_inventory_command((4, 5, 6)) {
        PlayerCommand::RequestFunctor { location, functor } => {
            assert_eq!(location, (4, 5, 6));
            assert_eq!(functor, FunctorType::InternalInventory);
        }
        _ => panic!("expected an inventory request"),
    }
}

#[test]
fn escape_closes_the_chest_and_resumes() {
    match interface_input(true, (7, 8, 9)) {
        Some((PlayerCommand::AnimationStart { location, animation }, state)) => {
            assert_eq!(location, (7, 8, 9));
            assert_eq!(animation, AnimationKind::ChestClose);
            assert_eq!(state, ShikataganaiGameState::Simulation);
        }
        _ => panic!("expected the closing transition"),
    }
    assert!(interface_input(false, (7, 8, 9)).is_none());
}

#[test]
fn the_pointer_starts_holding_nothing() {
    assert_eq!(InventoryItemMovementStatus::default(), InventoryItemMovementStatus::Nothing);
}

#[test]
fn only_missing_chunks_of_the_batch_are_requested() {
    let mut world = GameWorld::new();
    world.add_chunk(Chunk::new_filled((0, 0), Block::new(BlockId::Air)));
    let wanted = vec![(0, 0), (1, 0), (0, 1)];
    let commands = chunk_requests(&world, &wanted);
    assert_eq!(commands.len(), 2);
    match &commands[0] {
        PlayerCommand::RequestChunk { chunk_coord } => assert_eq!(*chunk_coord, (1, 0)),
        _ => panic!("expected a chunk request"),
    }
    match &commands[1] {
        PlayerCommand::RequestChunk { chunk_coord } => assert_eq!(*chunk_coord, (0, 1)),
        _ => panic!("expected a chunk request"),
    }
}

#[test]
fn vsync_picks_the_presentation_mode() {
    assert_eq!(VSync(true).as_present_mode(), PresentModeChoice::Fifo);
    assert_eq!(VSync(false).as_present_mode(), PresentModeChoice::Immediate);
}

#[test]
fn fullscreen_picks_the_window_mode() {
    assert_eq!(FullScreen(true).as_mode(), WindowModeChoice::BorderlessFullscreen);
    assert_eq!(FullScreen(false).as_mode(), WindowModeChoice::Windowed);
}

#[test]
fn default_settings_match_a_fresh_install() {
    let s = Settings::default();
    assert_eq!(s.width, 2560);
    assert_eq!(s.height, 1440);
    assert!(s.vsync);
    assert!(!s.fullscreen);
    assert!(s.ambient_occlusion);
    assert!(AmbientOcclusion(s.ambient_occlusion).0);
}
