use shikataganai::blocks::{Block, BlockId, BlockRenderInfo};
use shikataganai::meshing::{
    extract_chunk_faces, extract_chunks, remesh_action, remesh_targets, selection_uniform_bytes,
    selection_uniform_contents, RemeshAction, RemeshEvent, Selection,
};
use shikataganai::world::{Chunk, GameWorld, LightLevel};

fn world_with_origin_chunk() -> GameWorld {
    let mut world = GameWorld::new();
    world.add_chunk(Chunk::new_filled((0, 0), Block::new(BlockId::Air)));
    world
}

#[test]
fn an_empty_chunk_has_no_faces() {
    let world = world_with_origin_chunk();
    assert!(extract_chunk_faces(&world, (0, 0)).is_empty());
}

#[test]
fn a_missing_chunk_has_no_faces() {
    let world = GameWorld::new();
    assert!(extract_chunk_faces(&world, (3, 3)).is_empty());
}

#[test]
fn a_lone_block_shows_all_six_faces() {
    let mut world = world_with_origin_chunk();
    world.set((1, 1, 1), Block::new(BlockId::Dirt));
    let faces = extract_chunk_faces(&world, (0, 0));
    assert_eq!(faces.len(), 6);
    let mut directions: Vec<u8> = faces.iter().map(|f| f.direction).collect();
    directions.sort();
    assert_eq!(directions, vec![0, 1, 2, 3, 4, 5]);
    for f in &faces {
        assert_eq!(f.position, (1, 1, 1));
        assert_eq!(f.block, BlockId::Dirt);
        assert_eq!((f.heaven, f.hearth), (0, 0));
    }
}

#[test]
fn touching_blocks_hide_their_shared_faces() {
    let mut world = world_with_origin_chunk();
    world.set((1, 1, 1), Block::new(BlockId::Dirt));
    world.set((2, 1, 1), Block::new(BlockId::Grass));
    let faces = extract_chunk_faces(&world, (0, 0));
    assert_eq!(faces.len(), 10);
    assert!(!faces
        .iter()
        .any(|f| f.position == (1, 1, 1) && f.direction == 0));
    assert!(!faces
        .iter()
        .any(|f| f.position == (2, 1, 1) && f.direction == 1));
}

#[test]
fn faces_carry_the_light_of_the_cell_they_look_into() {
    let mut world = world_with_origin_chunk();
    world.set((1, 1, 1), Block::new(BlockId::Dirt));
    world.set_light((2, 1, 1), LightLevel { heaven: 7, hearth: 3 });
    let faces = extract_chunk_faces(&world, (0, 0));
    let toward_lit: Vec<_> = faces
        .iter()
        .filter(|f| f.position == (1, 1, 1) && f.direction == 0)
        .collect();
    assert_eq!(toward_lit.len(), 1);
    assert_eq!((toward_lit[0].heaven, toward_lit[0].hearth), (7, 3));
    let toward_dark: Vec<_> = faces
        .iter()
        .filter(|f| f.position == (1, 1, 1) && f.direction == 1)
        .collect();
    assert_eq!((toward_dark[0].heaven, toward_dark[0].hearth), (0, 0));
}

#[test]
fn a_face_toward_a_missing_chunk_is_emitted() {
    let mut world = world_with_origin_chunk();
    world.set((15, 1, 1), Block::new(BlockId::Dirt));
    let faces = extract_chunk_faces(&world, (0, 0));
    assert!(faces
        .iter()
        .any(|f| f.position == (15, 1, 1) && f.direction == 0));
}

#[test]
fn mesh_rendered_and_invisible_blocks_get_no_faces() {
    let mut world = world_with_origin_chunk();
    world.set((1, 1, 1), Block::new(BlockId::Stair));
    assert!(extract_chunk_faces(&world, (0, 0)).is_empty());
}

#[test]
fn remesh_targets_are_deduplicated_and_held() {
    let mut world = world_with_origin_chunk();
    world.add_chunk(Chunk::new_filled((2, 2), Block::new(BlockId::Air)));
    let events = vec![
        RemeshEvent::Remesh((0, 0)),
        RemeshEvent::Remesh((1, 1)),
        RemeshEvent::Remesh((0, 0)),
        RemeshEvent::Remesh((2, 2)),
        RemeshEvent::Remesh((0, 0)),
    ];
    let targets = remesh_targets(&events, &world);
    assert_eq!(targets, vec![(0, 0), (2, 2)]);
}

#[test]
fn extract_chunks_pairs_each_target_with_its_faces() {
    let mut world = world_with_origin_chunk();
    world.add_chunk(Chunk::new_filled((1, 0), Block::new(BlockId::Air)));
    world.set((1, 1, 1), Block::new(BlockId::Dirt));
    let events = vec![
        RemeshEvent::Remesh((0, 0)),
        RemeshEvent::Remesh((1, 0)),
        RemeshEvent::Remesh((0, 0)),
        RemeshEvent::Remesh((9, 9)),
    ];
    let meshes = extract_chunks(&world, &events);
    assert_eq!(meshes.len(), 2);
    assert_eq!(meshes[0].0, (0, 0));
    assert_eq!(meshes[0].1.len(), 6);
    assert_eq!(meshes[1].0, (1, 0));
    assert!(meshes[1].1.is_empty());
}

#[test]
fn remesh_actions_follow_the_decision_table() {
    let mesh = BlockRenderInfo::AsMesh;
    assert_eq!(remesh_action(BlockRenderInfo::AsBlock, 0, false, true), RemeshAction::Nothing);
    assert_eq!(remesh_action(BlockRenderInfo::Nothing, 5, true, true), RemeshAction::Nothing);
    assert_eq!(remesh_action(mesh, 0, false, true), RemeshAction::SpawnMesh);
    assert_eq!(remesh_action(mesh, 0, false, false), RemeshAction::Nothing);
    assert_eq!(remesh_action(mesh, 7, true, false), RemeshAction::MoveMesh);
    assert_eq!(remesh_action(mesh, 7, false, true), RemeshAction::ReattachMesh);
    assert_eq!(remesh_action(mesh, 7, false, false), RemeshAction::Nothing);
}

#[test]
fn cleared_selection_is_all_sentinels() {
    let contents = selection_uniform_contents(&None);
    assert_eq!(contents, [-9999, -9999, -9999, 0, -9999, -9999, -9999, 0]);
}

#[test]
fn selection_contents_hold_cube_then_face() {
    let sel = Selection { cube: (1, 2, 3), face: (4, 5, 6) };
    let contents = selection_uniform_contents(&Some(sel));
    assert_eq!(contents, [1, 2, 3, 0, 4, 5, 6, 0]);
}

#[test]
fn selection_bytes_are_the_words_in_order() {
    let sel = Selection { cube: (1, 2, 3), face: (4, 5, 6) };
    let bytes = selection_uniform_bytes(&Some(sel));
    assert_eq!(bytes.len(), 32);
    let mut expected = Vec::new();
    for w in [1i32, 2, 3, 0, 4, 5, 6, 0] {
        expected.extend_from_slice(&w.to_le_bytes());
    }
    assert_eq!(bytes, expected);
}
