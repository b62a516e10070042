use shikataganai::blocks::{Block, BlockId, BlockRenderInfo};
use shikataganai::coords::{
    chunk_index, chunk_key, chunk_of, floor_div_16, immediate_neighbours, sub_ddd,
};

#[test]
fn floor_division_rounds_toward_negative_infinity() {
    assert_eq!(floor_div_16(0), 0);
    assert_eq!(floor_div_16(15), 0);
    assert_eq!(floor_div_16(16), 1);
    assert_eq!(floor_div_16(31), 1);
    assert_eq!(floor_div_16(-1), -1);
    assert_eq!(floor_div_16(-16), -1);
    assert_eq!(floor_div_16(-17), -2);
    assert_eq!(floor_div_16(i32::MAX), 0x7ff_ffff);
    assert_eq!(floor_div_16(i32::MIN), -0x800_0000);
}

#[test]
fn chunk_of_splits_by_x_and_z() {
    assert_eq!(chunk_of((0, 0, 0)), (0, 0));
    assert_eq!(chunk_of((15, 255, 15)), (0, 0));
    assert_eq!(chunk_of((16, 0, -16)), (1, -1));
    assert_eq!(chunk_of((-1, 5, 17)), (-1, 1));
}

#[test]
fn chunk_keys_pack_both_coordinates() {
    assert_eq!(chunk_key((0, 0)), 0);
    assert_eq!(chunk_key((1, 0)), 1u64 << 32);
    assert_eq!(chunk_key((0, 1)), 1);
    assert_eq!(chunk_key((0, -1)), 0xffff_ffff);
    assert_eq!(chunk_key((-1, -1)), u64::MAX);
    assert_ne!(chunk_key((2, 3)), chunk_key((3, 2)));
}

#[test]
fn chunk_index_orders_x_then_y_then_z() {
    assert_eq!(chunk_index((0, 0, 0)), 0);
    assert_eq!(chunk_index((0, 0, 1)), 1);
    assert_eq!(chunk_index((0, 1, 0)), 16);
    assert_eq!(chunk_index((1, 0, 0)), 4096);
    assert_eq!(chunk_index((15, 255, 15)), 65535);
    assert_eq!(chunk_index((17, 2, -3)), 4096 + 32 + 13);
}

#[test]
fn neighbours_come_in_axis_order() {
    let ns = immediate_neighbours((10, 20, 30));
    assert_eq!(
        ns,
        vec![
            (11, 20, 30),
            (9, 20, 30),
            (10, 21, 30),
            (10, 19, 30),
            (10, 20, 31),
            (10, 20, 29),
        ]
    );
}

#[test]
fn sub_ddd_subtracts_componentwise() {
    assert_eq!(sub_ddd((5, 7, 9), (1, 2, 3)), (4, 5, 6));
    assert_eq!(sub_ddd((0, 0, 0), (1, -1, 0)), (-1, 1, 0));
}

#[test]
fn block_table_fixes_visibility_and_passability() {
    assert!(!BlockId::Air.visible());
    assert!(BlockId::Air.passable());
    assert!(BlockId::Dirt.visible());
    assert!(!BlockId::Dirt.passable());
    assert!(BlockId::Grass.visible());
    assert!(BlockId::Cobble.visible());
    assert!(!BlockId::Stair.visible());
    assert!(!BlockId::Stair.passable());
    assert!(BlockId::LightEmitter.visible());
}

#[test]
fn block_table_fixes_render_info() {
    assert_eq!(BlockId::Air.render_info(), BlockRenderInfo::Nothing);
    assert_eq!(BlockId::Dirt.render_info(), BlockRenderInfo::AsBlock);
    assert_eq!(BlockId::Grass.render_info(), BlockRenderInfo::AsBlock);
    assert_eq!(BlockId::Cobble.render_info(), BlockRenderInfo::AsBlock);
    assert_eq!(BlockId::Stair.render_info(), BlockRenderInfo::AsMesh);
    assert_eq!(BlockId::LightEmitter.render_info(), BlockRenderInfo::AsBlock);
}

#[test]
fn block_ids_are_ranked_in_table_order() {
    assert_eq!(BlockId::Air.index(), 0);
    assert_eq!(BlockId::Dirt.index(), 1);
    assert_eq!(BlockId::Grass.index(), 2);
    assert_eq!(BlockId::Cobble.index(), 3);
    assert_eq!(BlockId::Stair.index(), 4);
    assert_eq!(BlockId::LightEmitter.index(), 5);
}

#[test]
fn new_block_is_bare() {
    let b = Block::new(BlockId::Cobble);
    assert_eq!(b.block, BlockId::Cobble);
    assert_eq!(b.meta.v, 0);
    assert_eq!(b.entity, 0);
}
