//! From the description of a scene to its scene graph.
//!
//! An asset describes a scene as a tree of nodes, each with its place among
//! the nodes of the asset, a transform, perhaps a mesh, and the animation clips
//! that target it. This module builds the scene graph of such a tree.

use vstd::prelude::*;
use std::collections::HashMap;
use super::{ContainerNode, Drawable, ModelNode, SceneNode};
use crate::data_structures::animation::{
    animation_views, clip_views, merge_clips, mergeable, merged, AnimationClip, ModelAnimation,
};
use crate::data_structures::instance::Instance;
use crate::gpu::{BufferHandle, FrontFace, InstanceBuffer, ModelHandle};

verus! {

/// What an asset says of one node of a scene.
pub struct NodeDescription {
    /// The place of the node among the nodes of the asset.
    pub index: usize,
    /// The model of the node's mesh and the instance buffer made for it, which
    /// holds one instance record; `None` for a node without a mesh.
    pub mesh: Option<(BufferHandle, ModelHandle)>,
    /// The transform of the node relative to its parent.
    pub transform: Instance,
    /// The nodes below.
    pub children: Vec<NodeDescription>,
}

/// What a node draws that was made for the mesh `mesh` with one instance.
pub open spec fn drawable_of(mesh: Option<(BufferHandle, ModelHandle)>) -> Option<Drawable> {
    match mesh {
        Some((buffer, model)) => Some(
            Drawable {
                model,
                instance_buffer: InstanceBuffer { handle: buffer, capacity: 1 },
                buffer_size_needs_change: false,
                front_face: FrontFace::Ccw,
                id: 0,
            },
        ),
        None => None,
    }
}

/// Whether a scene graph can be built for `node`: for it and for every node
/// below, `anims` holds clips, and they can be merged.
pub open spec fn describable(node: NodeDescription, anims: Map<usize, Vec<AnimationClip>>) -> bool
    decreases node,
{
    &&& anims.dom().contains(node.index)
    &&& mergeable(clip_views(anims[node.index]@))
    &&& forall|c: int|
        0 <= c < node.children@.len() ==> describable(#[trigger] node.children@[c], anims)
}

/// Whether `scene` is the scene graph of `node`: a model node where `node` has
/// a mesh and a container where it has none, with one instance whose local
/// transform is that of `node`, with the animations that the clips of `node`
/// merge into, and with the scene graph of each node below as its children.
pub open spec fn described(
    node: NodeDescription,
    scene: SceneNode,
    anims: Map<usize, Vec<AnimationClip>>,
) -> bool
    decreases node,
{
    &&& scene.instances() == seq![(node.transform, Instance::identity())]
    &&& animation_views(scene.animations()) == merged(clip_views(anims[node.index]@))
    &&& scene.drawable() == drawable_of(node.mesh)
    &&& scene.children().len() == node.children@.len()
    &&& forall|c: int|
        #![trigger node.children@[c]]
        #![trigger scene.children()[c]]
        0 <= c < node.children@.len() ==> described(node.children@[c], scene.children()[c], anims)
}

/// Builds the scene graph of `node`. `anims` holds the animation clips of the
/// asset by the node that they target.
///
/// Gives `None` where some node has no clips or clips that cannot be merged.
pub fn to_scene_node(node: &NodeDescription, anims: &HashMap<usize, Vec<AnimationClip>>) -> (scene:
    Option<SceneNode>)
    ensures
        scene is Some <==> describable(*node, anims@),
        scene matches Some(built) ==> described(*node, built, anims@),
    decreases node,
{
    broadcast use vstd::std_specs::hash::group_hash_axioms;

    let animations: Vec<ModelAnimation> = match anims.get(&node.index) {
        Some(clips) => match merge_clips(clips) {
            Some(merged) => merged.animations,
            None => {
                return None;
            },
        },
        None => {
            return None;
        },
    };
    let mut scene_node = match node.mesh {
        Some((buffer, model)) => SceneNode::Model(
            ModelNode::from_model(1, buffer, model, animations),
        ),
        None => SceneNode::Container(ContainerNode::new(1, animations)),
    };
    scene_node.set_local_transform(0, node.transform);
    let n = node.children.len();
    let mut c: usize = 0;
    while c < n
        invariant
            c <= n,
            n == node.children@.len(),
            scene_node.instances() == seq![(node.transform, Instance::identity())],
            animation_views(scene_node.animations()) == merged(clip_views(anims@[node.index]@)),
            scene_node.drawable() == drawable_of(node.mesh),
            scene_node.children().len() == c,
            forall|j: int|
                0 <= j < c ==> describable(#[trigger] node.children@[j], anims@) && described(
                    node.children@[j],
                    scene_node.children()[j],
                    anims@,
                ),
        decreases n - c,
    {
        match to_scene_node(&node.children[c], anims) {
            Some(child_node) => scene_node.add_child(child_node),
            None => {
                return None;
            },
        }
        c += 1;
    }
    Some(scene_node)
}

/// The root of the scene graphs `models` of an asset: the scene graph itself
/// where there is one, and else a container without instances above them all.
pub fn scene_root(models: Vec<SceneNode>) -> (root_node: SceneNode)
    ensures
        models@.len() == 1 ==> root_node == models@[0],
        models@.len() != 1 ==> {
            &&& root_node.drawable() is None
            &&& root_node.instances() == Seq::<(Instance, Instance)>::empty()
            &&& root_node.animations() == Seq::<ModelAnimation>::empty()
            &&& root_node.children() == models@
        },
{
    let mut models = models;
    if models.len() == 1 {
        models.remove(0)
    } else {
        let mut root_node = ContainerNode::new(0, Vec::new());
        root_node.children = models;
        SceneNode::Container(root_node)
    }
}

} // verus!
