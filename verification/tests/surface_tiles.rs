use std::collections::HashMap;

use netrender::surface_tiles::SurfaceTileState;
use netrender::surface_tiles::SurfaceTiles;
use netrender::surface_tiles::MAX_SURFACE_TILE_STATES;

/// A cache made for one tile size.
#[derive(Debug, PartialEq)]
struct TileCache {
    tile_size: u32,
}

type Scenes = HashMap<(i32, i32), u8>;

#[test]
fn invalidating_a_surface_drops_only_its_retained_tile_state() {
    let state = || SurfaceTileState {
        tile_cache: TileCache { tile_size: 64 },
        tile_scenes: Scenes::new(),
        last_used: 1,
    };
    let mut surfaces = SurfaceTiles::default();
    surfaces.map.insert(7, state());
    surfaces.map.insert(9, state());

    assert!(surfaces.invalidate(7));
    assert!(!surfaces.map.contains_key(&7));
    assert!(surfaces.map.contains_key(&9));
    assert!(!surfaces.invalidate(7));
}

#[test]
fn a_surface_keeps_its_state_when_it_is_used_again() {
    let mut surfaces: SurfaceTiles<u32, u8> = SurfaceTiles::default();
    assert_eq!(surfaces.touch(7, || (64, 1)), None);
    assert_eq!(surfaces.touch(7, || (32, 2)), None);
    let state = &surfaces.map[&7];
    assert_eq!((state.tile_cache, state.tile_scenes, state.last_used), (64, 1, 2));
    assert_eq!(surfaces.clock, 2);
}

#[test]
fn the_least_recently_used_surface_gives_way() {
    let mut surfaces: SurfaceTiles<u32, ()> = SurfaceTiles::default();
    for surface in 0..MAX_SURFACE_TILE_STATES as u64 {
        assert_eq!(surfaces.touch(surface, || (16, ())), None);
    }
    // Surface 0 is used again, so surface 1 is the oldest.
    assert_eq!(surfaces.touch(0, || (16, ())), None);
    assert_eq!(surfaces.touch(1000, || (16, ())), Some(1));
    assert_eq!(surfaces.map.len(), MAX_SURFACE_TILE_STATES);
    assert!(surfaces.map.contains_key(&0));
    assert!(surfaces.map.contains_key(&1000));
    assert!(!surfaces.map.contains_key(&1));
    assert_eq!(surfaces.touch(1, || (16, ())), Some(2));
}

#[test]
fn clearing_drops_all_but_the_clock() {
    let mut surfaces: SurfaceTiles<u32, ()> = SurfaceTiles::default();
    surfaces.touch(3, || (16, ()));
    surfaces.clear();
    assert!(surfaces.map.is_empty());
    assert_eq!(surfaces.clock, 1);
}
