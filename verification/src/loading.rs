//! The load-state aggregator: one composite status over a group of asset
//! handles, and the forward-only gates it drives.

use vstd::prelude::*;

verus! {

/// Load status of a single asset as the loader reports it.
#[derive(Clone, Copy, Debug, PartialEq, Eq, Structural)]
pub enum LoadState {
    NotLoaded,
    Loading,
    Loaded,
    Failed,
}

/// The pending asset handles registered during startup, each the loader's
/// identity for one asset.
#[derive(Clone, Debug)]
pub struct LoadingAssets {
    pub assets: Vec<u64>,
}

impl LoadingAssets {
    pub fn new() -> (r: LoadingAssets)
        ensures
            r.assets@ == Seq::<u64>::empty(),
    {
        LoadingAssets { assets: Vec::new() }
    }

    /// Register one more handle to wait for.
    pub fn register(&mut self, handle: u64)
        ensures
            final(self).assets@ == old(self).assets@.push(handle),
    {
        self.assets.push(handle);
    }
}

/// The map's own two pending assets, as loader handle identities: the tile
/// atlas texture and the tile-definition pack.
#[derive(Clone, Copy, Debug, PartialEq, Eq, Structural)]
pub struct MapAssets {
    pub texture: u64,
    pub tile_info: u64,
}

/// The aggregate status of a group, each handle's status given as the
/// loader reports it (`None` for a handle the loader does not know).
/// Scanning front to back: an unknown or not-loaded handle ends the scan as
/// `NotLoaded` and a failed one as `Failed`; otherwise the group is
/// `Loading` when anything is still in progress, else `Loaded`.
pub open spec fn spec_group_load_state(states: Seq<Option<LoadState>>) -> LoadState
    decreases states.len(),
{
    if states.len() == 0 {
        LoadState::Loaded
    } else {
        match states[0] {
            Option::None => LoadState::NotLoaded,
            Option::Some(s) => match s {
                LoadState::NotLoaded => LoadState::NotLoaded,
                LoadState::Failed => LoadState::Failed,
                LoadState::Loaded => spec_group_load_state(states.skip(1)),
                LoadState::Loading => match spec_group_load_state(states.skip(1)) {
                    LoadState::Failed => LoadState::Failed,
                    LoadState::NotLoaded => LoadState::NotLoaded,
                    _ => LoadState::Loading,
                },
            },
        }
    }
}

/// Law: the aggregate is `Loaded` exactly when every handle in the group
/// reports `Loaded` — so an empty group counts as loaded, and one handle
/// that is unknown, failed, or in progress keeps the whole group unloaded.
pub proof fn lemma_group_loaded_iff_all_loaded(states: Seq<Option<LoadState>>)
    ensures
        (spec_group_load_state(states) == LoadState::Loaded) <==> (forall|i: int|
            0 <= i < states.len() ==> #[trigger] states[i] == Some(LoadState::Loaded)),
    decreases states.len(),
{
    if states.len() > 0 {
        lemma_group_loaded_iff_all_loaded(states.skip(1));
        if states[0] == Some(LoadState::Loaded) {
            assert forall|i: int|
                0 <= i < states.len() && spec_group_load_state(states) == LoadState::Loaded implies
            #[trigger] states[i] == Some(LoadState::Loaded) by {
                if i > 0 {
                    assert(states.skip(1)[i - 1] == states[i]);
                }
            }
            if forall|i: int| 0 <= i < states.len() ==> #[trigger] states[i] == Some(
                LoadState::Loaded,
            ) {
                assert forall|i: int| 0 <= i < states.skip(1).len() implies #[trigger] states.skip(
                    1,
                )[i] == Some(LoadState::Loaded) by {
                    assert(states.skip(1)[i] == states[i + 1]);
                }
            }
        }
    }
}

/// Reduce a group's reported statuses to one composite status, failure and
/// unknown handles dominating.
pub fn get_group_load_state(states: &Vec<Option<LoadState>>) -> (r: LoadState)
    ensures
        r == spec_group_load_state(states@),
{
    let ghost all = states@;
    let mut load_state = LoadState::Loaded;
    let mut i: usize = 0;
    proof {
        assert(all.skip(0) =~= all);
    }
    while i < states.len()
        invariant
            i <= all.len(),
            all == states@,
            load_state == LoadState::Loaded || load_state == LoadState::Loading,
            load_state == LoadState::Loaded ==> spec_group_load_state(all)
                == spec_group_load_state(all.skip(i as int)),
            load_state == LoadState::Loading ==> spec_group_load_state(all) == (
            match spec_group_load_state(all.skip(i as int)) {
                LoadState::Failed => LoadState::Failed,
                LoadState::NotLoaded => LoadState::NotLoaded,
                _ => LoadState::Loading,
            }),
        decreases all.len() - i,
    {
        proof {
            assert(all.skip(i as int)[0] == all[i as int]);
            assert(all.skip(i as int).skip(1) =~= all.skip(i as int + 1));
        }
        match &states[i] {
            Some(state) => match state {
                LoadState::Loaded => {},
                LoadState::Loading => {
                    load_state = LoadState::Loading;
                },
                LoadState::Failed => {
                    return LoadState::Failed;
                },
                LoadState::NotLoaded => {
                    return LoadState::NotLoaded;
                },
            },
            None => {
                return LoadState::NotLoaded;
            },
        }
        i = i + 1;
    }
    proof {
        assert(all.skip(all.len() as int) =~= Seq::<Option<LoadState>>::empty());
    }
    load_state
}

/// The game's outermost gate: waiting on assets, then in play. It never
/// returns to waiting.
#[derive(Hash, Clone, Copy, Debug, PartialEq, Eq, Structural)]
pub enum MainStates {
    Loading,
    InGame,
}

impl Default for MainStates {
    fn default() -> (r: MainStates)
        ensures
            r == MainStates::Loading,
    {
        MainStates::Loading
    }
}

/// What the top-level gate becomes once it sees a group status: it unlocks
/// play exactly when everything is loaded, and never returns to loading.
pub open spec fn spec_detect_assets_loaded(state: MainStates, states: Seq<Option<LoadState>>) -> MainStates {
    if state == MainStates::Loading && spec_group_load_state(states) == LoadState::Loaded {
        MainStates::InGame
    } else {
        state
    }
}

/// Advance the top-level gate from the group's reported statuses.
pub fn detect_assets_loaded(state: MainStates, states: &Vec<Option<LoadState>>) -> (r: MainStates)
    ensures
        r == spec_detect_assets_loaded(state, states@),
{
    match get_group_load_state(states) {
        LoadState::Loaded => {
            if state == MainStates::Loading {
                MainStates::InGame
            } else {
                state
            }
        },
        _ => state,
    }
}

/// Map subsystem flow: waiting on its assets, ready to generate, generated.
/// Each step moves forward only.
#[derive(Hash, Clone, Copy, Debug, PartialEq, Eq, Structural)]
pub enum MapStates {
    LoadingAssets,
    Ready,
    Generated,
}

impl Default for MapStates {
    fn default() -> (r: MapStates)
        ensures
            r == MapStates::LoadingAssets,
    {
        MapStates::LoadingAssets
    }
}

/// What the map gate becomes once it sees its assets' group status: ready
/// for generation exactly when everything is loaded, never back.
pub open spec fn spec_check_map_asset_loading(state: MapStates, states: Seq<Option<LoadState>>) -> MapStates {
    if state == MapStates::LoadingAssets && spec_group_load_state(states) == LoadState::Loaded {
        MapStates::Ready
    } else {
        state
    }
}

/// Advance the map gate from its assets' reported statuses.
pub fn check_map_asset_loading(state: MapStates, states: &Vec<Option<LoadState>>) -> (r: MapStates)
    ensures
        r == spec_check_map_asset_loading(state, states@),
{
    match get_group_load_state(states) {
        LoadState::Loaded => {
            if state == MapStates::LoadingAssets {
                MapStates::Ready
            } else {
                state
            }
        },
        _ => state,
    }
}

/// Record that the map was generated; only a gate that was ready advances.
pub fn mark_map_generated(state: MapStates) -> (r: MapStates)
    ensures
        r == if state == MapStates::Ready {
            MapStates::Generated
        } else {
            state
        },
{
    if state == MapStates::Ready {
        MapStates::Generated
    } else {
        state
    }
}

/// How far along each gate is; transitions never decrease it.
pub open spec fn spec_main_rank(state: MainStates) -> int {
    match state {
        MainStates::Loading => 0,
        MainStates::InGame => 1,
    }
}

pub open spec fn spec_map_rank(state: MapStates) -> int {
    match state {
        MapStates::LoadingAssets => 0,
        MapStates::Ready => 1,
        MapStates::Generated => 2,
    }
}

/// Law: both gates only ever move forward — no reported statuses, and no
/// generation step, can take a gate back to an earlier state.
pub proof fn lemma_gates_forward_only(main: MainStates, map: MapStates, states: Seq<Option<LoadState>>)
    ensures
        spec_main_rank(spec_detect_assets_loaded(main, states)) >= spec_main_rank(main),
        spec_map_rank(spec_check_map_asset_loading(map, states)) >= spec_map_rank(map),
        spec_map_rank(
            if map == MapStates::Ready {
                MapStates::Generated
            } else {
                map
            },
        ) >= spec_map_rank(map),
{
}

} // verus!
