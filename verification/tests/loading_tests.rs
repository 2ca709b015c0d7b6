use digger_core::{
    check_map_asset_loading, detect_assets_loaded, get_group_load_state, mark_map_generated,
    neighbors, LoadState, LoadingAssets, MainStates, MapStates, SquareDirection, TilePos,
    TilemapSize,
};

#[test]
fn group_state_loading_dominates_loaded() {
    let states = vec![Some(LoadState::Loaded), Some(LoadState::Loading)];
    assert_eq!(get_group_load_state(&states), LoadState::Loading);
}

#[test]
fn group_state_failure_dominates() {
    let states = vec![Some(LoadState::Loaded), Some(LoadState::Failed)];
    assert_eq!(get_group_load_state(&states), LoadState::Failed);
    let states = vec![Some(LoadState::Loading), Some(LoadState::Failed)];
    assert_eq!(get_group_load_state(&states), LoadState::Failed);
}

#[test]
fn group_state_loaded_only_when_all_loaded() {
    let states = vec![Some(LoadState::Loaded), Some(LoadState::Loaded)];
    assert_eq!(get_group_load_state(&states), LoadState::Loaded);
    assert_eq!(get_group_load_state(&Vec::new()), LoadState::Loaded);
}

#[test]
fn group_state_unknown_handle_means_not_loaded() {
    let states = vec![Some(LoadState::Loaded), None, Some(LoadState::Failed)];
    assert_eq!(get_group_load_state(&states), LoadState::NotLoaded);
    let states = vec![Some(LoadState::NotLoaded)];
    assert_eq!(get_group_load_state(&states), LoadState::NotLoaded);
}

#[test]
fn registered_handles_accumulate() {
    let mut pending = LoadingAssets::new();
    pending.register(11);
    pending.register(42);
    assert_eq!(pending.assets, vec![11, 42]);
}

#[test]
fn main_gate_unlocks_once_and_never_goes_back() {
    let loaded = vec![Some(LoadState::Loaded)];
    let loading = vec![Some(LoadState::Loading)];
    assert_eq!(detect_assets_loaded(MainStates::Loading, &loading), MainStates::Loading);
    assert_eq!(detect_assets_loaded(MainStates::Loading, &loaded), MainStates::InGame);
    assert_eq!(detect_assets_loaded(MainStates::InGame, &loading), MainStates::InGame);
    assert_eq!(detect_assets_loaded(MainStates::InGame, &loaded), MainStates::InGame);
}

#[test]
fn map_gate_moves_strictly_forward() {
    let loaded = vec![Some(LoadState::Loaded)];
    let failed = vec![Some(LoadState::Failed)];
    assert_eq!(check_map_asset_loading(MapStates::LoadingAssets, &failed), MapStates::LoadingAssets);
    assert_eq!(check_map_asset_loading(MapStates::LoadingAssets, &loaded), MapStates::Ready);
    assert_eq!(mark_map_generated(MapStates::LoadingAssets), MapStates::LoadingAssets);
    assert_eq!(mark_map_generated(MapStates::Ready), MapStates::Generated);
    assert_eq!(check_map_asset_loading(MapStates::Generated, &loaded), MapStates::Generated);
    assert_eq!(mark_map_generated(MapStates::Generated), MapStates::Generated);
}

#[test]
fn neighbor_enumeration_filters_the_map_edge() {
    let size = TilemapSize { x: 3, y: 3 };
    let corner = neighbors(&TilePos { x: 0, y: 0 }, &size, false);
    assert_eq!(
        corner,
        vec![
            (SquareDirection::North, TilePos { x: 0, y: 1 }),
            (SquareDirection::East, TilePos { x: 1, y: 0 }),
        ]
    );
    let interior = neighbors(&TilePos { x: 1, y: 1 }, &size, true);
    assert_eq!(interior.len(), 8);
    let corner_diag = neighbors(&TilePos { x: 0, y: 0 }, &size, true);
    assert_eq!(corner_diag.len(), 3);
    assert!(corner_diag.contains(&(SquareDirection::NorthEast, TilePos { x: 1, y: 1 })));
}
