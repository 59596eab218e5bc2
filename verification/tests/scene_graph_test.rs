use cgmath::{InnerSpace, One, Rotation3};
use flow_ngin::data_structures::instance::{Instance, Quaternion, Scalar, Vector3};
use flow_ngin::data_structures::animation::ModelAnimation;
use flow_ngin::data_structures::scene_graph::{
    keyframe_index, mk_flat_scene_graph, ContainerNode, ModelNode, SceneNode,
};
use flow_ngin::gpu::{BufferCommand, BufferHandle, FrontFace, ModelHandle};
use flow_ngin::render::Instanced;

fn scalar(value: f32) -> Scalar {
    Scalar::from_bits(value.to_bits())
}

fn number(scalar: Scalar) -> f32 {
    f32::from_bits(scalar.to_bits())
}

fn vector(x: f32, y: f32, z: f32) -> Vector3 {
    Vector3::new(scalar(x), scalar(y), scalar(z))
}

fn to_cg_vector(v: Vector3) -> cgmath::Vector3<f32> {
    cgmath::Vector3::new(number(v.x), number(v.y), number(v.z))
}

fn from_cg_vector(v: cgmath::Vector3<f32>) -> Vector3 {
    vector(v.x, v.y, v.z)
}

fn to_cg_quaternion(q: Quaternion) -> cgmath::Quaternion<f32> {
    cgmath::Quaternion::new(number(q.s), number(q.v.x), number(q.v.y), number(q.v.z))
}

fn from_cg_quaternion(q: cgmath::Quaternion<f32>) -> Quaternion {
    Quaternion::new(scalar(q.s), scalar(q.v.x), scalar(q.v.y), scalar(q.v.z))
}

fn at(x: f32, y: f32, z: f32) -> Instance {
    Instance::from(vector(x, y, z))
}

/// Parent-child composition of two transforms.
fn compose(parent: &Instance, child: &Instance) -> Instance {
    let parent_position = to_cg_vector(parent.position);
    let parent_rotation = to_cg_quaternion(parent.rotation);
    let parent_scale = to_cg_vector(parent.scale);
    let child_position = to_cg_vector(child.position);
    let child_rotation = to_cg_quaternion(child.rotation);
    let child_scale = to_cg_vector(child.scale);
    let new_rotation = parent_rotation * child_rotation;
    let new_scale = cgmath::Vector3::new(
        parent_scale.x * child_scale.x,
        parent_scale.y * child_scale.y,
        parent_scale.z * child_scale.z,
    );
    let scaled_child_position = cgmath::Vector3::new(
        parent_scale.x * child_position.x,
        parent_scale.y * child_position.y,
        parent_scale.z * child_position.z,
    );
    let new_position = parent_position + (parent_rotation * scaled_child_position);
    Instance {
        position: from_cg_vector(new_position),
        rotation: from_cg_quaternion(new_rotation),
        scale: from_cg_vector(new_scale),
    }
}

/// Whether a transform turns triangles over: its scale has a negative product.
fn mirrored(world: &Instance) -> bool {
    let scale = to_cg_vector(world.scale);
    scale.x * scale.y * scale.z < 0.0
}

fn close(a: Vector3, b: Vector3) -> bool {
    (to_cg_vector(a) - to_cg_vector(b)).magnitude() < 1e-5
}

fn container(amount: u32) -> SceneNode {
    SceneNode::Container(ContainerNode::new(amount, Vec::new()))
}

fn model(amount: u32, buffer: usize, mesh: usize) -> SceneNode {
    SceneNode::Model(ModelNode::from_model(
        amount,
        BufferHandle { index: buffer },
        ModelHandle { index: mesh },
        Vec::new(),
    ))
}

/// A container over a model node over a model node, each with `amount` instances.
fn three_levels(amount: u32) -> SceneNode {
    let mut middle = model(amount, 1, 1);
    middle.add_child(model(amount, 2, 2));
    let mut root = container(amount);
    root.add_child(middle);
    root
}

fn lengths(node: &SceneNode, into: &mut Vec<usize>) {
    into.push(node.instance_count());
    for child in node.get_children() {
        lengths(child, into);
    }
}

fn all_lengths(node: &SceneNode) -> Vec<usize> {
    let mut into = Vec::new();
    lengths(node, &mut into);
    into
}

#[test]
fn new_nodes_start_at_the_identity() {
    let node = container(3);
    assert_eq!(node.instance_count(), 3);
    assert_eq!(node.get_children().len(), 0);
    assert_eq!(node.get_world_transforms(), vec![Instance::new(); 3]);
    assert_eq!(node.get_local_transform(2), Some(Instance::new()));
    assert_eq!(node.get_local_transform(3), None);
    let node = model(2, 7, 9);
    assert_eq!(node.instance_count(), 2);
    assert_eq!(
        node.get_render(),
        vec![Instanced {
            instance: BufferHandle { index: 7 },
            model: ModelHandle { index: 9 },
            amount: 2,
            id: 0
        }]
    );
}

#[test]
fn child_world_position_adds_parent_position() {
    let mut root = container(1);
    root.set_local_transform(0, at(10.0, 0.0, 0.0));
    let mut child = model(1, 0, 0);
    child.set_local_transform(0, at(1.0, 0.0, 0.0));
    root.add_child(child);
    let skipped = root.update_world_transform_all(&compose);
    assert!(!skipped);
    let child_world = root.get_children()[0].get_world_transforms()[0];
    assert_eq!(child_world.position, vector(11.0, 0.0, 0.0));
    assert_eq!(root.get_world_transforms()[0].position, vector(10.0, 0.0, 0.0));
    assert_eq!(
        root.get_children()[0].get_local_transform(0).unwrap().position,
        vector(1.0, 0.0, 0.0)
    );
}

#[test]
fn parent_rotation_and_scale_move_the_child_offset_only() {
    let quarter_turn = cgmath::Quaternion::from_angle_z(cgmath::Deg(90.0));
    let mut root = container(1);
    root.set_local_transform(
        0,
        Instance {
            position: vector(1.0, 2.0, 3.0),
            rotation: from_cg_quaternion(quarter_turn),
            scale: vector(2.0, 2.0, 2.0),
        },
    );
    let mut child = container(1);
    child.set_local_transform(0, at(1.0, 0.0, 0.0));
    root.add_child(child);
    root.update_world_transform_all(&compose);
    let world = root.get_children()[0].get_world_transforms()[0];
    assert!(close(world.position, vector(1.0, 4.0, 3.0)));
    assert_eq!(world.scale, vector(2.0, 2.0, 2.0));
    assert!(
        (to_cg_quaternion(world.rotation) - quarter_turn * cgmath::Quaternion::one()).magnitude()
            < 1e-6
    );
}

#[test]
fn identity_is_neutral_for_composition() {
    let instance = Instance {
        position: vector(1.5, -2.0, 4.0),
        rotation: from_cg_quaternion(cgmath::Quaternion::from_angle_y(cgmath::Deg(30.0))),
        scale: vector(2.0, 3.0, 0.5),
    };
    let left = compose(&Instance::new(), &instance);
    let right = compose(&instance, &Instance::new());
    assert!(close(left.position, instance.position));
    assert!(close(right.position, instance.position));
    assert!(close(left.scale, instance.scale));
    assert!(close(right.scale, instance.scale));
    let rotation = to_cg_quaternion(instance.rotation);
    assert!((to_cg_quaternion(left.rotation) - rotation).magnitude() < 1e-6);
    assert!((to_cg_quaternion(right.rotation) - rotation).magnitude() < 1e-6);
}

#[test]
fn too_many_parent_transforms_change_nothing() {
    let mut root = three_levels(2);
    root.set_local_transform(0, at(1.0, 0.0, 0.0));
    root.update_world_transform_all(&compose);
    let before = root.get_world_transforms();
    let below = root.get_children()[0].get_world_transforms();
    let parents = vec![at(5.0, 5.0, 5.0); 3];
    let skipped = root.update_world_transforms(&parents, 0..2, &compose);
    assert!(skipped);
    assert_eq!(root.get_world_transforms(), before);
    assert_eq!(root.get_children()[0].get_world_transforms(), below);
}

#[test]
fn range_out_of_bounds_changes_nothing() {
    let mut root = container(2);
    let before = root.get_world_transforms();
    let parents = vec![at(5.0, 5.0, 5.0); 2];
    assert!(root.update_world_transforms(&parents, 1..3, &compose));
    assert_eq!(root.get_world_transforms(), before);
    let (start, end): (usize, usize) = (2, 1);
    assert!(root.update_world_transforms(&parents, start..end, &compose));
    assert_eq!(root.get_world_transforms(), before);
}

#[test]
fn range_selects_the_slots_to_update() {
    let mut root = container(3);
    root.set_local_transform(0, at(1.0, 0.0, 0.0));
    root.set_local_transform(1, at(2.0, 0.0, 0.0));
    root.set_local_transform(2, at(3.0, 0.0, 0.0));
    let parents = vec![at(10.0, 0.0, 0.0), at(20.0, 0.0, 0.0)];
    let skipped = root.update_world_transforms(&parents, 1..3, &compose);
    assert!(!skipped);
    let worlds = root.get_world_transforms();
    assert_eq!(worlds[0], Instance::new());
    assert_eq!(worlds[1].position, vector(12.0, 0.0, 0.0));
    assert_eq!(worlds[2].position, vector(23.0, 0.0, 0.0));
}

#[test]
fn fewer_parents_than_the_range_update_the_first_slots() {
    let mut root = container(3);
    root.set_local_transform(0, at(1.0, 0.0, 0.0));
    root.set_local_transform(1, at(2.0, 0.0, 0.0));
    let parents = vec![at(10.0, 0.0, 0.0)];
    assert!(!root.update_world_transforms(&parents, 0..3, &compose));
    let worlds = root.get_world_transforms();
    assert_eq!(worlds[0].position, vector(11.0, 0.0, 0.0));
    assert_eq!(worlds[1], Instance::new());
    assert_eq!(worlds[2], Instance::new());
}

#[test]
fn a_child_with_fewer_instances_is_skipped() {
    let mut root = container(2);
    root.add_child(container(1));
    root.set_local_transform(0, at(4.0, 0.0, 0.0));
    let skipped = root.update_world_transform_all(&compose);
    assert!(skipped);
    assert_eq!(root.get_world_transforms()[0].position, vector(4.0, 0.0, 0.0));
    assert_eq!(root.get_children()[0].get_world_transforms(), vec![Instance::new()]);
}

#[test]
fn add_instance_keeps_every_node_aligned() {
    let mut root = three_levels(2);
    assert_eq!(all_lengths(&root), vec![2, 2, 2]);
    let count = root.add_instance(at(1.0, 2.0, 3.0));
    assert_eq!(count, 3);
    assert_eq!(all_lengths(&root), vec![3, 3, 3]);
    assert_eq!(root.get_local_transform(2), Some(at(1.0, 2.0, 3.0)));
    assert_eq!(root.get_world_transforms()[2], at(1.0, 2.0, 3.0));
    let middle = &root.get_children()[0];
    assert_eq!(middle.get_local_transform(2), Some(Instance::new()));
    assert_eq!(middle.get_children()[0].get_local_transform(2), Some(Instance::new()));
}

#[test]
fn add_instances_appends_in_order() {
    let mut root = three_levels(1);
    let count = root.add_instances(vec![at(1.0, 0.0, 0.0), at(2.0, 0.0, 0.0)]);
    assert_eq!(count, 3);
    assert_eq!(all_lengths(&root), vec![3, 3, 3]);
    assert_eq!(root.get_local_transform(1), Some(at(1.0, 0.0, 0.0)));
    assert_eq!(root.get_local_transform(2), Some(at(2.0, 0.0, 0.0)));
    assert_eq!(root.add_instances(Vec::new()), 3);
    assert_eq!(all_lengths(&root), vec![3, 3, 3]);
}

#[test]
fn remove_instance_cascades() {
    let mut root = three_levels(3);
    root.set_local_transform(0, at(1.0, 0.0, 0.0));
    root.set_local_transform(1, at(2.0, 0.0, 0.0));
    root.set_local_transform(2, at(3.0, 0.0, 0.0));
    assert_eq!(root.remove_instance(1), 2);
    assert_eq!(all_lengths(&root), vec![2, 2, 2]);
    assert_eq!(root.get_local_transform(0), Some(at(1.0, 0.0, 0.0)));
    assert_eq!(root.get_local_transform(1), Some(at(3.0, 0.0, 0.0)));
    assert_eq!(root.remove_instance(5), 2);
    assert_eq!(all_lengths(&root), vec![2, 2, 2]);
}

#[test]
fn clone_instance_cascades() {
    let mut root = three_levels(2);
    root.set_local_transform(1, at(7.0, 0.0, 0.0));
    assert_eq!(root.clone_instance(1), 3);
    assert_eq!(all_lengths(&root), vec![3, 3, 3]);
    assert_eq!(root.get_local_transform(2), Some(at(7.0, 0.0, 0.0)));
    assert_eq!(root.clone_instance(9), 3);
    assert_eq!(all_lengths(&root), vec![3, 3, 3]);
}

#[test]
fn set_local_transform_ignores_missing_slots() {
    let mut node = container(1);
    node.set_local_transform(1, at(1.0, 1.0, 1.0));
    assert_eq!(node.get_local_transform(0), Some(Instance::new()));
    assert_eq!(node.instance_count(), 1);
}

#[test]
fn set_local_transform_all_maps_every_local() {
    let mut node = container(2);
    node.set_local_transform(1, at(1.0, 0.0, 0.0));
    node.set_local_transform_all(&|local: &Instance| Instance {
        scale: vector(2.0, 2.0, 2.0),
        ..*local
    });
    assert_eq!(node.get_local_transform(0).unwrap().scale, vector(2.0, 2.0, 2.0));
    assert_eq!(node.get_local_transform(1).unwrap().position, vector(1.0, 0.0, 0.0));
    assert_eq!(node.get_world_transforms(), vec![Instance::new(); 2]);
}

#[test]
fn buffer_is_reallocated_once_after_add_instance() {
    let mut node = model(1, 4, 0);
    let commands = node.write_to_buffers(&mirrored);
    assert_eq!(commands.len(), 1);
    assert!(matches!(&commands[0], BufferCommand::Write { buffer, contents }
        if *buffer == BufferHandle { index: 4 } && contents.len() == 1));
    node.add_instance(at(1.0, 0.0, 0.0));
    let commands = node.write_to_buffers(&mirrored);
    assert_eq!(commands.len(), 1);
    assert!(matches!(&commands[0], BufferCommand::Recreate { buffer, contents }
        if *buffer == BufferHandle { index: 4 }
            && *contents == vec![Instance::new(), at(1.0, 0.0, 0.0)]));
    let commands = node.write_to_buffers(&mirrored);
    assert!(matches!(&commands[0], BufferCommand::Write { buffer, contents }
        if *buffer == BufferHandle { index: 4 } && contents.len() == 2));
    let commands = node.write_to_buffers(&mirrored);
    assert!(matches!(&commands[0], BufferCommand::Write { .. }));
}

#[test]
fn buffers_are_written_parents_first() {
    let mut root = three_levels(1);
    root.add_instance(Instance::new());
    let commands = root.write_to_buffers(&mirrored);
    assert_eq!(commands.len(), 2);
    assert!(matches!(&commands[0], BufferCommand::Recreate { buffer, .. }
        if *buffer == BufferHandle { index: 1 }));
    assert!(matches!(&commands[1], BufferCommand::Recreate { buffer, .. }
        if *buffer == BufferHandle { index: 2 }));
    let commands = root.write_to_buffers(&mirrored);
    assert!(matches!(&commands[0], BufferCommand::Write { buffer, .. }
        if *buffer == BufferHandle { index: 1 }));
    assert!(matches!(&commands[1], BufferCommand::Write { buffer, .. }
        if *buffer == BufferHandle { index: 2 }));
}

#[test]
fn remove_and_clone_mark_the_buffer() {
    let mut node = model(2, 0, 0);
    node.remove_instance(0);
    assert!(matches!(&node.write_to_buffers(&mirrored)[0], BufferCommand::Recreate { contents, .. }
        if contents.len() == 1));
    node.clone_instance(0);
    assert!(matches!(&node.write_to_buffers(&mirrored)[0], BufferCommand::Recreate { contents, .. }
        if contents.len() == 2));
    node.remove_instance(2);
    assert!(matches!(&node.write_to_buffers(&mirrored)[0], BufferCommand::Write { .. }));
}

#[test]
fn a_container_asks_for_no_buffer_traffic() {
    let mut node = container(2);
    node.add_instance(Instance::new());
    assert!(node.write_to_buffers(&mirrored).is_empty());
    assert!(node.get_render().is_empty());
}

#[test]
fn winding_follows_the_first_world_transform() {
    let mut root = container(2);
    root.add_child(model(2, 0, 0));
    root.set_local_transform(
        0,
        Instance { scale: vector(-1.0, 1.0, 1.0), ..Instance::new() },
    );
    root.update_world_transform_all(&compose);
    root.write_to_buffers(&mirrored);
    let copy = root.to_clickable(3);
    let faces = front_faces(&copy);
    assert_eq!(faces, vec![FrontFace::Cw]);
    root.set_local_transform(0, Instance::new());
    root.set_local_transform(
        1,
        Instance { scale: vector(-1.0, 1.0, 1.0), ..Instance::new() },
    );
    root.update_world_transform_all(&compose);
    root.write_to_buffers(&mirrored);
    assert_eq!(front_faces(&root), vec![FrontFace::Ccw]);
}

fn front_faces(node: &SceneNode) -> Vec<FrontFace> {
    let mut faces = Vec::new();
    if let Some(drawable) = node.get_drawable() {
        faces.push(drawable.front_face);
    }
    for child in node.get_children() {
        faces.extend(front_faces(child));
    }
    faces
}

#[test]
fn to_clickable_sets_the_id_of_every_model_node() {
    let mut root = three_levels(2);
    root.set_local_transform(1, at(1.0, 0.0, 0.0));
    let copy = root.to_clickable(42);
    assert_eq!(all_lengths(&copy), vec![2, 2, 2]);
    assert_eq!(copy.get_local_transform(1), Some(at(1.0, 0.0, 0.0)));
    let ids: Vec<u32> = copy.get_render().iter().map(|instanced| instanced.id).collect();
    assert_eq!(ids, vec![42, 42]);
    let ids: Vec<u32> = root.get_render().iter().map(|instanced| instanced.id).collect();
    assert_eq!(ids, vec![0, 0]);
}

#[test]
fn flat_scene_graph_has_one_model_node_per_model() {
    let root = mk_flat_scene_graph(
        3,
        vec![
            (BufferHandle { index: 10 }, ModelHandle { index: 20 }),
            (BufferHandle { index: 11 }, ModelHandle { index: 21 }),
        ],
    );
    assert_eq!(all_lengths(&root), vec![3, 3, 3]);
    assert_eq!(
        root.get_render(),
        vec![
            Instanced {
                instance: BufferHandle { index: 10 },
                model: ModelHandle { index: 20 },
                amount: 3,
                id: 0
            },
            Instanced {
                instance: BufferHandle { index: 11 },
                model: ModelHandle { index: 21 },
                amount: 3,
                id: 0
            },
        ]
    );
}

#[test]
fn remove_child_takes_the_child_out() {
    let mut root = container(1);
    root.add_child(model(1, 1, 1));
    root.add_child(model(1, 2, 2));
    assert!(root.remove_child(2).is_none());
    let child = root.remove_child(0).unwrap();
    assert_eq!(child.get_render()[0].instance, BufferHandle { index: 1 });
    assert_eq!(root.get_children().len(), 1);
    assert_eq!(root.get_render()[0].instance, BufferHandle { index: 2 });
    root.get_children_mut().clear();
    assert!(root.get_children().is_empty());
}

#[test]
fn alignment_can_be_checked() {
    let mut root = three_levels(2);
    assert!(root.is_aligned());
    root.add_instance(Instance::new());
    assert!(root.is_aligned());
    root.get_children_mut()[0].add_instance(Instance::new());
    assert!(!root.is_aligned());
    assert!(root.get_children()[0].is_aligned());
    let mut root = container(1);
    root.add_child(container(0));
    assert!(!root.is_aligned());
    root.add_instance(Instance::new());
    assert_eq!(all_lengths(&root), vec![2, 1]);
}

fn scalars(values: &[f32]) -> Vec<Scalar> {
    values.iter().map(|value| scalar(*value)).collect()
}

fn animation(positions: &[f32], timestamps: &[f32]) -> ModelAnimation {
    ModelAnimation {
        name: "walk".to_string(),
        instances: positions.iter().map(|x| at(*x, 0.0, 0.0)).collect(),
        timestamps: scalars(timestamps),
    }
}

fn after(now: f32) -> impl Fn(&Scalar) -> bool {
    move |timestamp: &Scalar| number(*timestamp) > now
}

#[test]
fn the_keyframe_to_show_is_the_first_that_lies_ahead() {
    let timestamps = scalars(&[0.0, 1.0, 2.0]);
    assert_eq!(keyframe_index(&timestamps, &after(-1.0)), 0);
    assert_eq!(keyframe_index(&timestamps, &after(0.0)), 1);
    assert_eq!(keyframe_index(&timestamps, &after(0.5)), 1);
    assert_eq!(keyframe_index(&timestamps, &after(1.5)), 2);
    assert_eq!(keyframe_index(&timestamps, &after(2.0)), 2);
    assert_eq!(keyframe_index(&timestamps, &after(9.0)), 2);
    assert_eq!(keyframe_index(&Vec::new(), &after(9.0)), 0);
    assert_eq!(keyframe_index(&scalars(&[3.0]), &after(9.0)), 0);
}

#[test]
fn animate_shows_the_keyframe_in_every_node() {
    let mut root = SceneNode::Container(ContainerNode::new(
        2,
        vec![animation(&[10.0, 11.0, 12.0], &[0.0, 1.0, 2.0])],
    ));
    root.add_child(SceneNode::Container(ContainerNode::new(
        2,
        vec![animation(&[20.0, 21.0], &[0.0, 5.0])],
    )));
    root.add_child(container(2));
    root.add_child(SceneNode::Container(ContainerNode::new(
        0,
        vec![animation(&[30.0], &[0.0])],
    )));
    root.add_child(SceneNode::Container(ContainerNode::new(
        1,
        vec![animation(&[], &[0.0, 1.0])],
    )));
    root.animate(0, &after(1.5));
    assert_eq!(root.get_local_transform(0), Some(at(12.0, 0.0, 0.0)));
    assert_eq!(root.get_local_transform(1), Some(Instance::new()));
    assert_eq!(root.get_world_transforms(), vec![Instance::new(); 2]);
    assert_eq!(root.get_children()[0].get_local_transform(0), Some(at(21.0, 0.0, 0.0)));
    assert_eq!(root.get_children()[1].get_local_transform(0), Some(Instance::new()));
    assert_eq!(root.get_children()[2].instance_count(), 0);
    assert_eq!(root.get_children()[3].get_local_transform(0), Some(Instance::new()));
    root.animate(1, &after(1.5));
    assert_eq!(root.get_local_transform(0), Some(at(12.0, 0.0, 0.0)));
    root.animate(0, &after(0.5));
    assert_eq!(root.get_local_transform(0), Some(at(11.0, 0.0, 0.0)));
    assert_eq!(root.get_children()[0].get_local_transform(0), Some(at(21.0, 0.0, 0.0)));
}

fn near(local: &Instance, target: &Instance) -> bool {
    close(local.position, target.position)
}

fn halfway(local: &Instance, target: &Instance) -> Instance {
    let middle = (to_cg_vector(local.position) + to_cg_vector(target.position)) * 0.5;
    Instance { position: from_cg_vector(middle), ..*local }
}

#[test]
fn step_towards_moves_the_node_that_the_path_leads_to() {
    let mut root = three_levels(2);
    let target = at(4.0, 0.0, 0.0);
    assert_eq!(root.step_towards(&[0, 0], 1, &target, &near, &halfway), Some(false));
    let leaf = &root.get_children()[0].get_children()[0];
    assert_eq!(leaf.get_local_transform(1), Some(at(2.0, 0.0, 0.0)));
    assert_eq!(leaf.get_local_transform(0), Some(Instance::new()));
    assert_eq!(root.get_local_transform(1), Some(Instance::new()));
    assert_eq!(root.step_towards(&[], 0, &Instance::new(), &near, &halfway), Some(true));
    assert_eq!(root.get_local_transform(0), Some(Instance::new()));
    assert_eq!(root.step_towards(&[1], 0, &target, &near, &halfway), None);
    assert_eq!(root.step_towards(&[0, 0, 0], 0, &target, &near, &halfway), None);
    assert_eq!(root.step_towards(&[0], 2, &target, &near, &halfway), None);
    assert_eq!(all_lengths(&root), vec![2, 2, 2]);
}

#[test]
fn animate_with_tells_whether_all_have_arrived() {
    let mut root = three_levels(1);
    let target = at(4.0, 0.0, 0.0);
    let here = Instance::new();
    let to_root: [usize; 0] = [];
    let to_middle: [usize; 1] = [0];
    let to_nowhere: [usize; 1] = [5];
    let current: [&[usize]; 3] = [&to_root, &to_middle, &to_nowhere];
    assert!(!root.animate_with(&current, &[&here, &target, &target], 0, &near, &halfway));
    assert_eq!(root.get_local_transform(0), Some(here));
    assert_eq!(root.get_children()[0].get_local_transform(0), Some(at(2.0, 0.0, 0.0)));
    assert!(!root.animate_with(&current, &[&here, &target], 0, &near, &halfway));
    assert_eq!(root.get_children()[0].get_local_transform(0), Some(at(3.0, 0.0, 0.0)));
    assert!(root.animate_with(&current, &[&here], 0, &near, &halfway));
    assert!(root.animate_with(&current[2..], &[&target], 0, &near, &halfway));
    assert!(root.animate_with(&[], &[], 0, &near, &halfway));
    let arrived = at(3.0, 0.0, 0.0);
    assert!(root.animate_with(&current, &[&here, &arrived, &target], 0, &near, &halfway));
    assert_eq!(root.get_children()[0].get_local_transform(0), Some(at(3.0, 0.0, 0.0)));
}
