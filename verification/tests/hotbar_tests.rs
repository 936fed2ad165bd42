use voxel_terrain::ui::Hotbar;
use voxel_terrain::world::Block;

#[test]
fn new_hotbar_selects_grass() {
    let h = Hotbar::new();
    assert_eq!(h.selected_index(), 0);
    assert_eq!(h.current_block(), Block::Grass);
}

#[test]
fn set_selected_picks_each_slot() {
    let mut h = Hotbar::new();
    let expected = [Block::Grass, Block::Dirt, Block::Stone, Block::Air, Block::Air];
    for (i, b) in expected.iter().enumerate() {
        h.set_selected(i);
        assert_eq!(h.selected_index(), i);
        assert_eq!(h.current_block(), *b);
    }
}

#[test]
fn set_selected_out_of_range_is_ignored() {
    let mut h = Hotbar::new();
    h.set_selected(2);
    h.set_selected(5);
    assert_eq!(h.selected_index(), 2);
    h.set_selected(usize::MAX);
    assert_eq!(h.selected_index(), 2);
    assert_eq!(h.current_block(), Block::Stone);
}
