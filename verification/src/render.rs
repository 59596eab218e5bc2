//! Render composition and pipeline batching.
//!
//! This module defines the [`Render`] enum, which is used by scene nodes to specify
//! how they should be rendered. The engine uses `Render` to sort objects into batches
//! for different pipelines (basic, transparent, GUI, terrain, picking, etc.) and to
//! support custom per-object render passes.
//!
//! # Key types
//!
//! - [`Render`] is the primary enum describing render operations
//! - [`Instanced`] contains data for instanced rendering (model + instance buffer)
//! - [`Flat`] contains data for flat (2D / GUI) rendering (vertex + index buffers)

use vstd::prelude::*;
use std::collections::{HashMap, HashSet};
use crate::data_structures::scene_graph::SceneNode;
use crate::gpu::{BindGroupHandle, BufferHandle, ModelHandle};
use crate::util::extend_copied;

verus! {

/// Data for instanced object rendering: a model, instance buffer, and pick ID.
///
/// Used for 3D objects rendered with GPU instancing. The instance buffer contains
/// per-instance transformation data and other per-instance attributes.
#[derive(Clone, Copy, Debug, PartialEq, Eq, Structural)]
pub struct Instanced {
    pub instance: BufferHandle,
    pub model: ModelHandle,
    pub amount: usize,
    pub id: u32,
}

/// Data for flat (2D / GUI) object rendering: vertex and index buffers with a bind group.
///
/// Used for 2D GUI elements, terrain, or other flat geometry. The bind group
/// contains textures and samplers for the rendered objects.
#[derive(Clone, Copy, Debug, PartialEq, Eq, Structural)]
pub struct Flat {
    pub vertex: BufferHandle,
    pub index: BufferHandle,
    pub group: BindGroupHandle,
    pub amount: usize,
    pub id: u32,
}

/// Names a render closure that the caller holds, for custom rendering.
#[derive(Clone, Copy, Debug, PartialEq, Eq, Structural)]
pub struct CustomRender {
    pub index: usize,
}

/// Specifies how a scene object should be rendered.
///
/// `Render` is an enum that allows flexible composition of render operations.
/// It can represent a single instanced object, a batch of objects, transparent
/// objects, GUI elements, terrain, a composite of multiple renders, or a custom
/// render closure for special effects.
///
/// # Variants
///
/// - `Empty` renders nothing
/// - `Default(Instanced)` renders a single opaque instanced object
/// - `Defaults(Vec<Instanced>)` renders a batch of opaque instanced objects
/// - `Transparent(Instanced)` renders a single transparent instanced object
/// - `Transparents(Vec<Instanced>)` renders a batch of transparent objects
/// - `GUI(Flat)` renders 2D elements (flat geometry)
/// - `Terrain(Flat)` renders terrain mesh
/// - `Composed(Vec<Render>)` recursively renders composition of multiple renders
/// - `Custom(CustomRender)` has the caller invoke a closure of its own
pub enum Render {
    Empty,
    Default(Instanced),
    Defaults(Vec<Instanced>),
    Transparent(Instanced),
    Transparents(Vec<Instanced>),
    GUI(Flat),
    Terrain(Flat),
    Composed(Vec<Render>),
    Custom(CustomRender),
}

/// The pick ids of a batch of instanced objects, in order.
pub open spec fn instanced_ids(batch: Seq<Instanced>) -> Seq<u32> {
    Seq::new(batch.len(), |i: int| batch[i].id)
}

impl Render {
    /// The pick ids of the drawables of the render tree, in order.
    pub open spec fn ids(self) -> Seq<u32>
        decreases self, 0nat,
    {
        match self {
            Render::Default(instanced) => seq![instanced.id],
            Render::Defaults(batch) => instanced_ids(batch@),
            Render::Transparent(instanced) => seq![instanced.id],
            Render::Transparents(batch) => instanced_ids(batch@),
            Render::GUI(flat) => seq![flat.id],
            Render::Terrain(flat) => seq![flat.id],
            Render::Composed(renders) => Self::ids_of(renders@, renders@.len()),
            Render::Empty => Seq::empty(),
            Render::Custom(_) => Seq::empty(),
        }
    }

    /// The pick ids of the drawables of the first `upto` of `renders`.
    pub open spec fn ids_of(renders: Seq<Render>, upto: nat) -> Seq<u32>
        decreases renders, upto,
    {
        if upto == 0 || upto > renders.len() {
            Seq::empty()
        } else {
            Self::ids_of(renders, (upto - 1) as nat) + renders[upto - 1].ids()
        }
    }
}

/// For each id of a pick map, the flows that own it.
pub open spec fn owners(map: Map<u32, HashSet<usize>>) -> Map<u32, Set<usize>> {
    Map::new(|id: u32| map.dom().contains(id), |id: u32| map[id]@)
}

/// The flows that own `id`: none where the map does not hold it.
pub open spec fn owners_of(owners: Map<u32, Set<usize>>, id: u32) -> Set<usize> {
    if owners.dom().contains(id) {
        owners[id]
    } else {
        Set::empty()
    }
}

/// The owners once the flow `flow_id` is recorded as an owner of each of `ids`.
pub open spec fn recorded(owners: Map<u32, Set<usize>>, ids: Seq<u32>, flow_id: usize) -> Map<
    u32,
    Set<usize>,
> {
    Map::new(
        |id: u32| owners.dom().contains(id) || ids.contains(id),
        |id: u32|
            if ids.contains(id) {
                owners_of(owners, id).insert(flow_id)
            } else {
                owners[id]
            },
    )
}

/// Records the flow `flow_id` as an owner of `id`.
fn record(id: u32, flow_id: usize, map: &mut HashMap<u32, HashSet<usize>>)
    ensures
        owners(final(map)@) == recorded(owners(old(map)@), seq![id], flow_id),
{
    broadcast use vstd::std_specs::hash::group_hash_axioms;

    let flows = map.entry(id).or_insert(HashSet::new());
    flows.insert(flow_id);
    proof {
        assert(seq![id].contains(id)) by {
            assert(seq![id][0] == id);
        }
    }
}

/// Recording for no id changes nothing.
pub proof fn lemma_recorded_nothing(owners: Map<u32, Set<usize>>, flow_id: usize)
    ensures
        recorded(owners, Seq::empty(), flow_id) == owners,
{
}

/// Recording for `first` and then for `second` is recording for both lists
/// one after the other.
pub proof fn lemma_recorded_twice(
    owners: Map<u32, Set<usize>>,
    first: Seq<u32>,
    second: Seq<u32>,
    flow_id: usize,
)
    ensures
        recorded(recorded(owners, first, flow_id), second, flow_id) == recorded(
            owners,
            first + second,
            flow_id,
        ),
{
    let both = first + second;
    assert forall|id: u32| both.contains(id) <==> first.contains(id) || second.contains(id) by {
        if first.contains(id) {
            let i = choose|i: int| 0 <= i < first.len() && first[i] == id;
            assert(both[i] == id);
        }
        if second.contains(id) {
            let i = choose|i: int| 0 <= i < second.len() && second[i] == id;
            assert(both[first.len() + i] == id);
        }
    }
    let once = recorded(owners, first, flow_id);
    assert forall|id: u32| #[trigger]
        recorded(once, second, flow_id).dom().contains(id) implies recorded(
        once,
        second,
        flow_id,
    )[id] == recorded(owners, both, flow_id)[id] by {
    }
}

impl Render {
    /// Map object IDs to flow IDs for picking and selection.
    ///
    /// Walks the render tree and records in `map`, for the pick id of every
    /// drawable, that the flow `flow_id` owns it. Owners that the map already
    /// holds for an id stay.
    pub fn map_ids(&self, flow_id: usize, map: &mut HashMap<u32, HashSet<usize>>)
        ensures
            owners(final(map)@) == recorded(owners(old(map)@), self.ids(), flow_id),
        decreases self,
    {
        match self {
            Render::Default(instanced) => record(instanced.id, flow_id, map),
            Render::Defaults(batch) => record_batch(batch, flow_id, map),
            Render::Transparents(batch) => record_batch(batch, flow_id, map),
            Render::Transparent(instanced) => record(instanced.id, flow_id, map),
            Render::GUI(flat) => record(flat.id, flow_id, map),
            Render::Terrain(flat) => record(flat.id, flow_id, map),
            Render::Composed(renders) => {
                let n = renders.len();
                let mut i: usize = 0;
                proof {
                    lemma_recorded_nothing(owners(map@), flow_id);
                }
                while i < n
                    invariant
                        i <= n,
                        n == renders@.len(),
                        *self == Render::Composed(*renders),
                        owners(map@) == recorded(
                            owners(old(map)@),
                            Self::ids_of(renders@, i as nat),
                            flow_id,
                        ),
                    decreases n - i,
                {
                    proof {
                        assert(decreases_to!(*self => self->Composed_0));
                    }
                    renders[i].map_ids(flow_id, map);
                    proof {
                        lemma_recorded_twice(
                            owners(old(map)@),
                            Self::ids_of(renders@, i as nat),
                            renders@[i as int].ids(),
                            flow_id,
                        );
                    }
                    i += 1;
                }
            },
            Render::Empty => {
                proof {
                    lemma_recorded_nothing(owners(map@), flow_id);
                }
            },
            Render::Custom(_) => {
                proof {
                    lemma_recorded_nothing(owners(map@), flow_id);
                }
            },
        }
    }
}

/// Records the flow `flow_id` as an owner of the pick id of each object of `batch`.
fn record_batch(batch: &Vec<Instanced>, flow_id: usize, map: &mut HashMap<u32, HashSet<usize>>)
    ensures
        owners(final(map)@) == recorded(owners(old(map)@), instanced_ids(batch@), flow_id),
{
    let n = batch.len();
    let mut i: usize = 0;
    proof {
        lemma_recorded_nothing(owners(map@), flow_id);
    }
    while i < n
        invariant
            i <= n,
            n == batch@.len(),
            owners(map@) == recorded(
                owners(old(map)@),
                instanced_ids(batch@).take(i as int),
                flow_id,
            ),
        decreases n - i,
    {
        record(batch[i].id, flow_id, map);
        proof {
            lemma_recorded_twice(
                owners(old(map)@),
                instanced_ids(batch@).take(i as int),
                seq![batch@[i as int].id],
                flow_id,
            );
            assert(instanced_ids(batch@).take(i as int) + seq![batch@[i as int].id]
                =~= instanced_ids(batch@).take(i + 1));
        }
        i += 1;
    }
    proof {
        assert(instanced_ids(batch@).take(n as int) =~= instanced_ids(batch@));
    }
}

impl Render {
    /// The instanced objects of the render tree, in order: the opaque ones
    /// where `opaque` is set, the transparent ones where `transparent` is set.
    pub open spec fn instanced(self, opaque: bool, transparent: bool) -> Seq<Instanced>
        decreases self, 0nat,
    {
        match self {
            Render::Default(instanced) => if opaque {
                seq![instanced]
            } else {
                Seq::empty()
            },
            Render::Defaults(batch) => if opaque {
                batch@
            } else {
                Seq::empty()
            },
            Render::Transparent(instanced) => if transparent {
                seq![instanced]
            } else {
                Seq::empty()
            },
            Render::Transparents(batch) => if transparent {
                batch@
            } else {
                Seq::empty()
            },
            Render::Composed(renders) => Self::instanced_of(
                renders@,
                renders@.len(),
                opaque,
                transparent,
            ),
            _ => Seq::empty(),
        }
    }

    /// The instanced objects of the first `upto` of `renders`.
    pub open spec fn instanced_of(
        renders: Seq<Render>,
        upto: nat,
        opaque: bool,
        transparent: bool,
    ) -> Seq<Instanced>
        decreases renders, upto,
    {
        if upto == 0 || upto > renders.len() {
            Seq::empty()
        } else {
            Self::instanced_of(renders, (upto - 1) as nat, opaque, transparent) + renders[upto
                - 1].instanced(opaque, transparent)
        }
    }

    /// The flat objects of the render tree, in order: the GUI elements where
    /// `gui` is set, the terrain where `terrain` is set.
    pub open spec fn flats(self, gui: bool, terrain: bool) -> Seq<Flat>
        decreases self, 0nat,
    {
        match self {
            Render::GUI(flat) => if gui {
                seq![flat]
            } else {
                Seq::empty()
            },
            Render::Terrain(flat) => if terrain {
                seq![flat]
            } else {
                Seq::empty()
            },
            Render::Composed(renders) => Self::flats_of(renders@, renders@.len(), gui, terrain),
            _ => Seq::empty(),
        }
    }

    /// The flat objects of the first `upto` of `renders`.
    pub open spec fn flats_of(renders: Seq<Render>, upto: nat, gui: bool, terrain: bool) -> Seq<
        Flat,
    >
        decreases renders, upto,
    {
        if upto == 0 || upto > renders.len() {
            Seq::empty()
        } else {
            Self::flats_of(renders, (upto - 1) as nat, gui, terrain) + renders[upto - 1].flats(
                gui,
                terrain,
            )
        }
    }

    /// The custom renders of the render tree, in order.
    pub open spec fn customs(self) -> Seq<CustomRender>
        decreases self, 0nat,
    {
        match self {
            Render::Custom(custom) => seq![custom],
            Render::Composed(renders) => Self::customs_of(renders@, renders@.len()),
            _ => Seq::empty(),
        }
    }

    /// The custom renders of the first `upto` of `renders`.
    pub open spec fn customs_of(renders: Seq<Render>, upto: nat) -> Seq<CustomRender>
        decreases renders, upto,
    {
        if upto == 0 || upto > renders.len() {
            Seq::empty()
        } else {
            Self::customs_of(renders, (upto - 1) as nat) + renders[upto - 1].customs()
        }
    }

    /// Sorts the objects of the render tree into one batch per pipeline, each
    /// in the order of the tree, behind what the batches already hold. The
    /// custom renders go to `customs`, for the caller to invoke in that order.
    pub fn set_pipelines(
        self,
        basics: &mut Vec<Instanced>,
        trans: &mut Vec<Instanced>,
        guis: &mut Vec<Flat>,
        terrain: &mut Vec<Flat>,
        customs: &mut Vec<CustomRender>,
    )
        ensures
            final(basics)@ == old(basics)@ + self.instanced(true, false),
            final(trans)@ == old(trans)@ + self.instanced(false, true),
            final(guis)@ == old(guis)@ + self.flats(true, false),
            final(terrain)@ == old(terrain)@ + self.flats(false, true),
            final(customs)@ == old(customs)@ + self.customs(),
    {
        self.batch_into(basics, trans, guis, terrain, customs);
    }

    fn batch_into(
        &self,
        basics: &mut Vec<Instanced>,
        trans: &mut Vec<Instanced>,
        guis: &mut Vec<Flat>,
        terrain: &mut Vec<Flat>,
        customs: &mut Vec<CustomRender>,
    )
        ensures
            final(basics)@ == old(basics)@ + self.instanced(true, false),
            final(trans)@ == old(trans)@ + self.instanced(false, true),
            final(guis)@ == old(guis)@ + self.flats(true, false),
            final(terrain)@ == old(terrain)@ + self.flats(false, true),
            final(customs)@ == old(customs)@ + self.customs(),
        decreases self,
    {
        match self {
            Render::Default(instanced) => basics.push(*instanced),
            Render::Defaults(batch) => extend_copied(basics, batch),
            Render::Transparent(instanced) => trans.push(*instanced),
            Render::Transparents(batch) => extend_copied(trans, batch),
            Render::GUI(flat) => guis.push(*flat),
            Render::Terrain(flat) => terrain.push(*flat),
            Render::Composed(renders) => {
                let n = renders.len();
                let mut i: usize = 0;
                while i < n
                    invariant
                        i <= n,
                        n == renders@.len(),
                        *self == Render::Composed(*renders),
                        basics@ == old(basics)@ + Self::instanced_of(
                            renders@,
                            i as nat,
                            true,
                            false,
                        ),
                        trans@ == old(trans)@ + Self::instanced_of(renders@, i as nat, false, true),
                        guis@ == old(guis)@ + Self::flats_of(renders@, i as nat, true, false),
                        terrain@ == old(terrain)@ + Self::flats_of(renders@, i as nat, false, true),
                        customs@ == old(customs)@ + Self::customs_of(renders@, i as nat),
                    decreases n - i,
                {
                    proof {
                        assert(decreases_to!(*self => self->Composed_0));
                    }
                    renders[i].batch_into(basics, trans, guis, terrain, customs);
                    i += 1;
                }
            },
            Render::Custom(custom) => customs.push(*custom),
            Render::Empty => (),
        }
    }

    /// Sorts the objects of the render tree into the two batches of the pick
    /// pass, each in the order of the tree, behind what the batches already
    /// hold: all instanced objects, and all flat objects. Custom renders take
    /// no part in picking.
    pub fn set_pick_pipelines(self, basics: &mut Vec<Instanced>, flats: &mut Vec<Flat>)
        ensures
            final(basics)@ == old(basics)@ + self.instanced(true, true),
            final(flats)@ == old(flats)@ + self.flats(true, true),
    {
        self.pick_batch_into(basics, flats);
    }

    fn pick_batch_into(&self, basics: &mut Vec<Instanced>, flats: &mut Vec<Flat>)
        ensures
            final(basics)@ == old(basics)@ + self.instanced(true, true),
            final(flats)@ == old(flats)@ + self.flats(true, true),
        decreases self,
    {
        match self {
            Render::Default(instanced) => basics.push(*instanced),
            Render::Defaults(batch) => extend_copied(basics, batch),
            Render::Transparent(instanced) => basics.push(*instanced),
            Render::Transparents(batch) => extend_copied(basics, batch),
            Render::GUI(flat) => flats.push(*flat),
            Render::Terrain(flat) => flats.push(*flat),
            Render::Composed(renders) => {
                let n = renders.len();
                let mut i: usize = 0;
                while i < n
                    invariant
                        i <= n,
                        n == renders@.len(),
                        *self == Render::Composed(*renders),
                        basics@ == old(basics)@ + Self::instanced_of(renders@, i as nat, true, true),
                        flats@ == old(flats)@ + Self::flats_of(renders@, i as nat, true, true),
                    decreases n - i,
                {
                    proof {
                        assert(decreases_to!(*self => self->Composed_0));
                    }
                    renders[i].pick_batch_into(basics, flats);
                    i += 1;
                }
            },
            // Picking is not supported for custom renders
            Render::Custom(_) => (),
            Render::Empty => (),
        }
    }

    /// The render description of a scene graph: its drawables as one batch of
    /// opaque instanced objects.
    pub fn from_scene_node(sn: &SceneNode) -> (render: Render)
        ensures
            render matches Render::Defaults(batch) && batch@ == sn.render(),
    {
        Render::Defaults(sn.get_render())
    }
}

} // verus!
