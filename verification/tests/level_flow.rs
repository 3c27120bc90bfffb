use rcs_flight::dust::{
    chunk_of, chunks_to_despawn, chunks_to_spawn, space_dust, spawn_chunk, ChunkCoords,
    CHUNK_SIZE, MAX_ALPHA, MAX_SIDE, MIN_ALPHA, MIN_SIDE, PARTICLES_PER_CHUNK,
};
use rcs_flight::loading::{
    display_loading_screen, level_selection, unload_current_level, update_loading_data, Level,
    LoadingData, LoadingState,
};

fn chunk(x: i32, y: i32) -> ChunkCoords {
    ChunkCoords { x, y }
}

#[test]
fn level_is_ready_after_the_target_of_quiet_frames() {
    let mut data = LoadingData::new(3);
    let mut state = unload_current_level();
    assert_eq!(state, LoadingState::LevelLoading);
    state = update_loading_data(&mut data, state, false, true);
    assert_eq!((state, data.confirmation_frames_count), (LoadingState::LevelLoading, 1));
    state = update_loading_data(&mut data, state, false, true);
    assert_eq!((state, data.confirmation_frames_count), (LoadingState::LevelLoading, 2));
    state = update_loading_data(&mut data, state, false, true);
    assert_eq!((state, data.confirmation_frames_count), (LoadingState::LevelReady, 3));
    state = update_loading_data(&mut data, state, false, true);
    assert_eq!((state, data.confirmation_frames_count), (LoadingState::LevelReady, 4));
    assert_eq!(data.confirmation_frames_target, 3);
}

#[test]
fn pending_assets_or_pipelines_start_the_count_over() {
    let mut data = LoadingData::new(3);
    let mut state = LoadingState::LevelLoading;
    state = update_loading_data(&mut data, state, false, true);
    state = update_loading_data(&mut data, state, false, true);
    assert_eq!(data.confirmation_frames_count, 2);
    state = update_loading_data(&mut data, state, true, true);
    assert_eq!((state, data.confirmation_frames_count), (LoadingState::LevelLoading, 0));
    state = update_loading_data(&mut data, state, false, true);
    state = update_loading_data(&mut data, state, false, false);
    assert_eq!((state, data.confirmation_frames_count), (LoadingState::LevelLoading, 0));
    data.confirmation_frames_count = usize::MAX;
    state = update_loading_data(&mut data, state, true, false);
    assert_eq!((state, data.confirmation_frames_count), (LoadingState::LevelLoading, 0));
}

#[test]
fn levels_are_selected_only_while_ready() {
    assert_eq!(LoadingState::default(), LoadingState::LevelReady);
    assert_eq!(level_selection(LoadingState::LevelReady, true, false), Some(Level::One));
    assert_eq!(level_selection(LoadingState::LevelReady, false, true), Some(Level::Two));
    assert_eq!(level_selection(LoadingState::LevelReady, true, true), Some(Level::One));
    assert_eq!(level_selection(LoadingState::LevelReady, false, false), None);
    assert_eq!(level_selection(LoadingState::LevelLoading, true, true), None);
}

#[test]
fn loading_screen_shows_while_loading() {
    assert!(display_loading_screen(LoadingState::LevelLoading));
    assert!(!display_loading_screen(LoadingState::LevelReady));
}

#[test]
fn chunk_of_a_point_is_rounded_down() {
    assert_eq!(chunk_of(0, 0), chunk(0, 0));
    assert_eq!(chunk_of(CHUNK_SIZE - 1, CHUNK_SIZE), chunk(0, 1));
    assert_eq!(chunk_of(-1, -CHUNK_SIZE), chunk(-1, -1));
    assert_eq!(chunk_of(-CHUNK_SIZE - 1, 5 * CHUNK_SIZE / 2), chunk(-2, 2));
    assert_eq!(chunk_of(i64::MAX, i64::MIN), chunk(i32::MAX, i32::MIN));
    assert_eq!(chunk_of(2_147_483_647 * CHUNK_SIZE, 0), chunk(i32::MAX, 0));
    assert_eq!(chunk_of(-2_147_483_648 * CHUNK_SIZE, 0), chunk(i32::MIN, 0));
    assert_eq!(chunk_of(-2_147_483_647 * CHUNK_SIZE - 1, 0), chunk(i32::MIN, 0));
}

#[test]
fn missing_neighbours_are_spawned_row_by_row() {
    let all = chunks_to_spawn(chunk(10, -5), &vec![]);
    assert_eq!(
        all,
        vec![
            chunk(9, -6),
            chunk(10, -6),
            chunk(11, -6),
            chunk(9, -5),
            chunk(10, -5),
            chunk(11, -5),
            chunk(9, -4),
            chunk(10, -4),
            chunk(11, -4),
        ]
    );
    let some = chunks_to_spawn(
        chunk(0, 0),
        &vec![chunk(0, 0), chunk(1, 1), chunk(-1, 0), chunk(5, 5), chunk(0, -1)],
    );
    assert_eq!(some, vec![chunk(-1, -1), chunk(1, -1), chunk(1, 0), chunk(-1, 1), chunk(0, 1)]);
}

#[test]
fn distant_chunks_are_despawned() {
    let loaded = vec![chunk(0, 0), chunk(2, 0), chunk(1, 1), chunk(-1, -2), chunk(i32::MIN, i32::MAX)];
    assert_eq!(
        chunks_to_despawn(chunk(0, 0), &loaded),
        vec![chunk(2, 0), chunk(-1, -2), chunk(i32::MIN, i32::MAX)]
    );
    assert_eq!(chunks_to_despawn(chunk(i32::MAX, i32::MIN), &loaded), loaded);
    assert_eq!(chunks_to_despawn(chunk(1, 0), &loaded), vec![chunk(-1, -2), chunk(i32::MIN, i32::MAX)]);
}

#[test]
fn dust_follows_the_player() {
    let loaded = vec![chunk(0, 0), chunk(1, 0), chunk(0, 1), chunk(1, 1), chunk(-1, 0)];
    let plan = space_dust(3 * CHUNK_SIZE / 2, CHUNK_SIZE / 2, &loaded);
    assert_eq!(
        plan.spawn,
        vec![chunk(0, -1), chunk(1, -1), chunk(2, -1), chunk(2, 0), chunk(2, 1)]
    );
    assert_eq!(plan.despawn, vec![chunk(-1, 0)]);
}

#[test]
fn new_chunk_has_its_particles_inside() {
    let layout = spawn_chunk(chunk(-2, 3));
    assert_eq!(layout.coords, chunk(-2, 3));
    assert_eq!((layout.origin_x, layout.origin_y), (-2 * CHUNK_SIZE, 3 * CHUNK_SIZE));
    assert_eq!(PARTICLES_PER_CHUNK, 500);
    assert_eq!(layout.particles.len(), 500);
    for p in &layout.particles {
        assert!(0 <= p.x && p.x < CHUNK_SIZE);
        assert!(0 <= p.y && p.y < CHUNK_SIZE);
        assert!(MIN_ALPHA <= p.alpha && p.alpha < MAX_ALPHA);
        assert!(MIN_SIDE <= p.width && p.width < MAX_SIDE);
        assert!(MIN_SIDE <= p.height && p.height < MAX_SIDE);
    }
}

#[test]
fn particles_of_a_chunk_are_spread_out() {
    // Five hundred draws from a range of over a thousand million steps do
    // not all fall on the ends of the range, nor on one value.
    let layout = spawn_chunk(chunk(0, 0));
    let first = layout.particles[0];
    assert!(layout.particles.iter().any(|p| p.x != first.x));
    assert!(layout.particles.iter().any(|p| p.y != first.y));
    assert!(layout.particles.iter().any(|p| p.alpha != first.alpha));
    assert!(layout.particles.iter().any(|p| p.width != first.width));
    assert!(layout.particles.iter().any(|p| p.height != first.height));
    assert!(layout.particles.iter().any(|p| p.x != 0));
    assert!(layout.particles.iter().any(|p| p.alpha != MIN_ALPHA));
    assert!(layout.particles.iter().any(|p| p.x != p.y));
}

#[test]
fn chunks_at_the_rim_of_the_grid_have_a_corner() {
    let layout = spawn_chunk(chunk(i32::MAX, i32::MIN));
    assert_eq!(layout.origin_x, 2_147_483_647 * CHUNK_SIZE);
    assert_eq!(layout.origin_y, -2_147_483_648 * CHUNK_SIZE);
}
