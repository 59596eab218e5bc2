use std::collections::{HashMap, HashSet};

use flow_ngin::context::{MouseButton, MouseButtonState, MouseState, PhysicalPosition};
use flow_ngin::gpu::{BindGroupHandle, BufferHandle, ModelHandle};
use flow_ngin::pick::{
    id_at, is_ambiguous, map_flows, padded_extent, pick_index, read_id, resolve,
};
use flow_ngin::render::{CustomRender, Flat, Instanced, Render};

fn instanced(id: u32) -> Instanced {
    Instanced {
        instance: BufferHandle { index: 0 },
        model: ModelHandle { index: 0 },
        amount: 1,
        id,
    }
}

fn flat(id: u32) -> Flat {
    Flat {
        vertex: BufferHandle { index: 0 },
        index: BufferHandle { index: 1 },
        group: BindGroupHandle { index: 0 },
        amount: 6,
        id,
    }
}

fn set(flows: &[usize]) -> HashSet<usize> {
    flows.iter().copied().collect()
}

#[test]
fn shared_ids_are_owned_by_every_flow_that_draws_them() {
    let flow_a = Render::Defaults(vec![instanced(1), instanced(2)]);
    let flow_b = Render::Default(instanced(2));
    let translation = map_flows(&vec![flow_a, flow_b]);
    assert_eq!(resolve(&translation, 2), Some((2, set(&[0, 1]))));
    assert_eq!(resolve(&translation, 1), Some((1, set(&[0]))));
    assert_eq!(resolve(&translation, 3), None);
    assert!(is_ambiguous(&resolve(&translation, 2).unwrap().1));
    assert!(!is_ambiguous(&resolve(&translation, 1).unwrap().1));
}

#[test]
fn map_ids_walks_the_whole_render_tree() {
    let render = Render::Composed(vec![
        Render::Default(instanced(1)),
        Render::Empty,
        Render::Composed(vec![
            Render::Transparent(instanced(2)),
            Render::Transparents(vec![instanced(3), instanced(4)]),
            Render::Custom(CustomRender { index: 0 }),
        ]),
        Render::GUI(flat(5)),
        Render::Terrain(flat(6)),
        Render::Defaults(vec![instanced(1)]),
    ]);
    let mut map: HashMap<u32, HashSet<usize>> = HashMap::new();
    map.insert(6, set(&[9]));
    map.insert(7, set(&[9]));
    render.map_ids(4, &mut map);
    let mut ids: Vec<u32> = map.keys().copied().collect();
    ids.sort();
    assert_eq!(ids, vec![1, 2, 3, 4, 5, 6, 7]);
    assert_eq!(map[&1], set(&[4]));
    assert_eq!(map[&5], set(&[4]));
    assert_eq!(map[&6], set(&[4, 9]));
    assert_eq!(map[&7], set(&[9]));
}

#[test]
fn an_empty_forest_owns_nothing() {
    let translation = map_flows(&Vec::new());
    assert!(translation.is_empty());
    assert_eq!(resolve(&translation, 0), None);
}

#[test]
fn renders_are_batched_by_pipeline() {
    let render = Render::Composed(vec![
        Render::Default(instanced(1)),
        Render::Transparent(instanced(2)),
        Render::GUI(flat(3)),
        Render::Composed(vec![
            Render::Terrain(flat(4)),
            Render::Defaults(vec![instanced(5), instanced(6)]),
            Render::Custom(CustomRender { index: 7 }),
        ]),
        Render::Transparents(vec![instanced(8)]),
        Render::Custom(CustomRender { index: 9 }),
    ]);
    let mut basics = vec![instanced(0)];
    let mut trans = Vec::new();
    let mut guis = Vec::new();
    let mut terrain = Vec::new();
    let mut customs = Vec::new();
    render.set_pipelines(&mut basics, &mut trans, &mut guis, &mut terrain, &mut customs);
    assert_eq!(basics, vec![instanced(0), instanced(1), instanced(5), instanced(6)]);
    assert_eq!(trans, vec![instanced(2), instanced(8)]);
    assert_eq!(guis, vec![flat(3)]);
    assert_eq!(terrain, vec![flat(4)]);
    assert_eq!(customs, vec![CustomRender { index: 7 }, CustomRender { index: 9 }]);
}

#[test]
fn pick_batches_hold_all_instanced_and_all_flat_objects() {
    let render = Render::Composed(vec![
        Render::Transparent(instanced(2)),
        Render::Default(instanced(1)),
        Render::Terrain(flat(4)),
        Render::Custom(CustomRender { index: 7 }),
        Render::GUI(flat(3)),
        Render::Transparents(vec![instanced(8)]),
    ]);
    let mut basics = Vec::new();
    let mut flats = vec![flat(0)];
    render.set_pick_pipelines(&mut basics, &mut flats);
    assert_eq!(basics, vec![instanced(2), instanced(1), instanced(8)]);
    assert_eq!(flats, vec![flat(0), flat(4), flat(3)]);
}

#[test]
fn pick_target_is_padded_to_the_next_multiple_of_256() {
    assert_eq!(padded_extent(800), Some(1024));
    assert_eq!(padded_extent(1), Some(256));
    assert_eq!(padded_extent(0), Some(256));
    assert_eq!(padded_extent(256), Some(512));
    assert_eq!(padded_extent(255), Some(256));
    assert_eq!(padded_extent(u32::MAX - 255), None);
    assert_eq!(padded_extent(u32::MAX), None);
    assert_eq!(padded_extent(u32::MAX - 256), Some(u32::MAX - 255));
}

#[test]
fn pick_index_counts_four_bytes_per_pixel() {
    assert_eq!(pick_index(0, 0, 256), Some(0));
    assert_eq!(pick_index(3, 0, 256), Some(12));
    assert_eq!(pick_index(3, 2, 256), Some(2060));
    assert_eq!(pick_index(0, usize::MAX, 2), None);
    assert_eq!(pick_index(usize::MAX, 1, 1), None);
    assert_eq!(pick_index(usize::MAX / 2, 0, 1), None);
}

#[test]
fn ids_are_read_lowest_byte_first() {
    let data: Vec<u8> = vec![0, 0, 0, 0, 0x78, 0x56, 0x34, 0x12, 1, 0, 0, 0];
    assert_eq!(read_id(&data, 4), 0x1234_5678);
    assert_eq!(read_id(&data, 8), 1);
    assert_eq!(id_at(&data, 1, 0, 3), Some(0x1234_5678));
    assert_eq!(id_at(&data, 2, 0, 3), Some(1));
    assert_eq!(id_at(&data, 0, 1, 3), None);
    assert_eq!(id_at(&data, 0, 1, 2), Some(1));
    assert_eq!(id_at(&data[..3], 0, 0, 1), None);
    assert_eq!(id_at(&[0xff, 0xff, 0xff, 0xff], 0, 0, 1), Some(u32::MAX));
}

#[test]
fn picking_the_selection_again_clears_it() {
    let mut mouse = MouseState::new();
    assert_eq!(mouse.selection, None);
    mouse.toggle(5);
    assert_eq!(mouse.selection, Some(5));
    mouse.toggle(6);
    assert_eq!(mouse.selection, Some(6));
    mouse.toggle(6);
    assert_eq!(mouse.selection, None);
}

#[test]
fn only_the_left_button_picks() {
    let mut mouse = MouseState::new();
    assert!(mouse.on_button(MouseButton::Left, true));
    assert_eq!(mouse.pressed, MouseButtonState::Left);
    assert!(!mouse.on_button(MouseButton::Left, false));
    assert_eq!(mouse.pressed, MouseButtonState::Released);
    assert!(!mouse.on_button(MouseButton::Right, true));
    assert_eq!(mouse.pressed, MouseButtonState::Right);
    assert!(!mouse.on_button(MouseButton::Other, true));
    assert_eq!(mouse.pressed, MouseButtonState::Right);
    assert!(!mouse.on_button(MouseButton::Other, false));
    assert_eq!(mouse.pressed, MouseButtonState::Released);
    assert_eq!(mouse.coords, PhysicalPosition { x: 0.0f64.to_bits(), y: 0.0f64.to_bits() });
    assert_eq!(mouse.selection, None);
}

#[test]
fn a_second_pick_waits_for_the_first_to_complete() {
    let mut gate = flow_ngin::pick::PickGate::new();
    assert!(gate.request());
    assert!(!gate.request());
    assert!(!gate.request());
    gate.complete();
    assert!(gate.request());
    gate.complete();
    gate.complete();
    assert!(gate.request());
}

#[test]
fn an_id_is_written_lowest_byte_first_and_read_back() {
    let buf = flow_ngin::pick::id_uniform(0x1234_5678);
    assert_eq!(buf, [0x78, 0x56, 0x34, 0x12, 0, 0, 0, 0, 0, 0, 0, 0, 0, 0, 0, 0]);
    assert_eq!(read_id(&buf, 0), 0x1234_5678);
    let ids: [u32; 6] = [0, 1, 255, 256, 0x00ff_ff00, u32::MAX];
    for id in ids {
        assert_eq!(read_id(&flow_ngin::pick::id_uniform(id), 0), id);
        assert_eq!(id_at(&flow_ngin::pick::id_uniform(id), 0, 0, 4), Some(id));
    }
}
