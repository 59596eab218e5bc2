//! Object picking and selection.
//!
//! Picking renders every object with its id into an offscreen target and reads
//! the id under the mouse cursor. This module holds what is decided around that
//! render pass:
//!
//! 1. The size of the pick target for a given surface
//! 2. The map from each pick id to the flows that own it (determined by the render tree)
//! 3. Where in the target's bytes the id under the cursor stands, and its value
//! 4. The flows that own the id that was read, which are the ones to notify
//!
//! Especially step 4 makes sure that only those flows are invoked that were responsible for selected object.

use vstd::prelude::*;
use std::collections::{HashMap, HashSet};
use crate::render::{owners, recorded, Render};

verus! {

/// The row alignment of the pick target, in pixels.
pub const PICK_ALIGNMENT: u32 = 256;

/// The number of bytes that one pixel of the pick target takes: one `u32` id.
pub const BYTES_PER_PIXEL: usize = 4;

/// The number of bytes of the uniform that the pick shaders read an id from.
pub const ID_UNIFORM_SIZE: usize = 16;

/// The side of the pick target for a surface side of `extent` pixels: the next
/// multiple of the row alignment above `extent`.
pub open spec fn padded(extent: u32) -> int {
    extent + (PICK_ALIGNMENT - extent % PICK_ALIGNMENT)
}

/// The side of the pick target for a surface side of `extent` pixels, or
/// `None` where it does not fit the type.
pub fn padded_extent(extent: u32) -> (side: Option<u32>)
    ensures
        side is Some <==> padded(extent) <= u32::MAX,
        side matches Some(s) ==> s == padded(extent) && s % PICK_ALIGNMENT == 0 && s > extent,
{
    let offset = PICK_ALIGNMENT - extent % PICK_ALIGNMENT;
    extent.checked_add(offset)
}

/// For each pick id of a forest of render trees, one tree per flow, the flows
/// whose tree holds a drawable with that id. A flow goes by the place of its
/// tree in the forest.
pub open spec fn flow_owners(forest: Seq<Render>) -> Map<u32, Set<usize>> {
    Map::new(
        |id: u32|
            exists|flow: int| 0 <= flow < forest.len() && (#[trigger] forest[flow]).ids().contains(id),
        |id: u32|
            Set::new(|flow: usize| flow < forest.len() && forest[flow as int].ids().contains(id)),
    )
}

/// A flow owns an id if and only if its render tree holds a drawable with that
/// id. Ids that several flows draw with are owned by all of them: no flow
/// takes an id from another.
pub proof fn lemma_owner_iff_drawn(forest: Seq<Render>, id: u32, flow: usize)
    ensures
        flow_owners(forest).dom().contains(id) && flow_owners(forest)[id].contains(flow) <==> flow
            < forest.len() && forest[flow as int].ids().contains(id),
{
}

/// Builds the map from pick ids to their owners for one pick attempt.
///
/// `forest` holds the render tree of each flow, in the order of the flows.
/// Ids that several flows draw with are owned by all of them.
pub fn map_flows(forest: &Vec<Render>) -> (translation: HashMap<u32, HashSet<usize>>)
    ensures
        owners(translation@) == flow_owners(forest@),
{
    let mut translation: HashMap<u32, HashSet<usize>> = HashMap::new();
    let n = forest.len();
    let mut idx: usize = 0;
    while idx < n
        invariant
            idx <= n,
            n == forest@.len(),
            owners(translation@) == flow_owners(forest@.take(idx as int)),
        decreases n - idx,
    {
        forest[idx].map_ids(idx, &mut translation);
        proof {
            lemma_flow_owners_step(forest@, idx as int);
        }
        idx += 1;
    }
    proof {
        assert(forest@.take(n as int) =~= forest@);
    }
    translation
}

/// The owners of a forest with one more tree are those of the forest with the
/// flow of the new tree recorded for each of its ids.
proof fn lemma_flow_owners_step(forest: Seq<Render>, len: int)
    requires
        0 <= len < forest.len(),
        len <= usize::MAX,
    ensures
        recorded(flow_owners(forest.take(len)), forest[len].ids(), len as usize) == flow_owners(
            forest.take(len + 1),
        ),
{
    let before = forest.take(len);
    let after = forest.take(len + 1);
    let ids = forest[len].ids();
    let step = recorded(flow_owners(before), ids, len as usize);
    assert forall|id: u32| step.dom().contains(id) <==> flow_owners(after).dom().contains(id) by {
        if ids.contains(id) {
            assert(after[len].ids().contains(id));
        }
    }
    assert forall|id: u32| #[trigger] step.dom().contains(id) implies step[id] =~= flow_owners(
        after,
    )[id] by {
    }
}

/// The bytes of the uniform that the pick shaders read the id `id` from: the
/// four bytes of the id, lowest byte first, and zeros behind them.
pub open spec fn id_bytes(id: u32) -> Seq<u8> {
    Seq::new(
        ID_UNIFORM_SIZE as nat,
        |i: int|
            if i == 0 {
                (id % 0x100) as u8
            } else if i == 1 {
                (id / 0x100 % 0x100) as u8
            } else if i == 2 {
                (id / 0x1_0000 % 0x100) as u8
            } else if i == 3 {
                (id / 0x100_0000) as u8
            } else {
                0u8
            },
    )
}

/// The bytes of the uniform that an object is drawn with into the pick
/// target, so that its pixels hold `id`.
pub fn id_uniform(id: u32) -> (buf: [u8; 16])
    ensures
        buf@ == id_bytes(id),
{
    // cutting the significant bits is intended in this conversion
    let r = (id & 0xff) as u8;
    let g = ((id >> 8) & 0xff) as u8;
    let b = ((id >> 16) & 0xff) as u8;
    let a = (id >> 24) as u8;
    proof {
        assert(id & 0xff == id % 0x100) by (bit_vector);
        assert((id >> 8) & 0xff == id / 0x100 % 0x100) by (bit_vector);
        assert((id >> 16) & 0xff == id / 0x1_0000 % 0x100) by (bit_vector);
        assert(id >> 24 == id / 0x100_0000) by (bit_vector);
    }
    // Current browsers don't support downscaling Uniform Buffers so the full 16B are provided
    let buf: [u8; 16] = [r, g, b, a, 0, 0, 0, 0, 0, 0, 0, 0, 0, 0, 0, 0];
    buf
}

/// Where the id of the pixel in column `x` of row `y` starts in the bytes of
/// a pick target that is `width` pixels wide.
pub open spec fn pixel_offset(x: usize, y: usize, width: u32) -> int {
    (y * width + x) * BYTES_PER_PIXEL
}

/// Where the id of the pixel in column `x` of row `y` starts in the bytes of
/// a pick target that is `width` pixels wide, or `None` where that does not
/// fit the type.
pub fn pick_index(x: usize, y: usize, width: u32) -> (index: Option<usize>)
    ensures
        index is Some <==> pixel_offset(x, y, width) <= usize::MAX,
        index matches Some(i) ==> i == pixel_offset(x, y, width),
{
    let row = match y.checked_mul(width as usize) {
        Some(row) => row,
        None => {
            proof {
                assert((y * width + x) * BYTES_PER_PIXEL >= y * width) by (nonlinear_arith)
                    requires
                        y * width >= 0,
                        x >= 0,
                        BYTES_PER_PIXEL == 4,
                ;
            }
            return None;
        },
    };
    let pixel = match row.checked_add(x) {
        Some(pixel) => pixel,
        None => {
            return None;
        },
    };
    pixel.checked_mul(BYTES_PER_PIXEL)
}

/// The id that four bytes of the pick target stand for, lowest byte first.
pub open spec fn id_of(r: u8, g: u8, b: u8, a: u8) -> int {
    r + g * 0x100 + b * 0x1_0000 + a * 0x100_0000
}

/// Reads the id that starts at `pick_index` in the bytes of the pick target.
pub fn read_id(data: &[u8], pick_index: usize) -> (id: u32)
    requires
        pick_index + 3 < data@.len(),
    ensures
        id == id_of(
            data@[pick_index as int],
            data@[pick_index + 1],
            data@[pick_index + 2],
            data@[pick_index + 3],
        ),
{
    let r = data[pick_index];
    let g = data[pick_index + 1];
    let b = data[pick_index + 2];
    let a = data[pick_index + 3];
    let rgba_u32 = (r as u32) | (g as u32) << 8 | (b as u32) << 16 | (a as u32) << 24;
    proof {
        assert((r as u32) | (g as u32) << 8 | (b as u32) << 16 | (a as u32) << 24 == (r as u32) + (
        g as u32) * 0x100 + (b as u32) * 0x1_0000 + (a as u32) * 0x100_0000) by (bit_vector);
    }
    rgba_u32
}

/// Reads the id under the pixel in column `x` of row `y` from the bytes of a
/// pick target that is `width` pixels wide. Gives `None` where the pixel lies
/// outside the bytes.
pub fn id_at(data: &[u8], x: usize, y: usize, width: u32) -> (id: Option<u32>)
    ensures
        id is Some <==> pixel_offset(x, y, width) + 3 < data@.len(),
        id matches Some(value) ==> value == id_of(
            data@[pixel_offset(x, y, width)],
            data@[pixel_offset(x, y, width) + 1],
            data@[pixel_offset(x, y, width) + 2],
            data@[pixel_offset(x, y, width) + 3],
        ),
{
    let len = data.len();
    match pick_index(x, y, width) {
        Some(index) => {
            if len >= 4 && index < len - 3 {
                Some(read_id(data, index))
            } else {
                None
            }
        },
        None => None,
    }
}

/// An id that was written as the uniform of an object is read back from the
/// pixels of the object: reading undoes writing.
pub proof fn lemma_id_round_trip(id: u32)
    ensures
        id_of(id_bytes(id)[0], id_bytes(id)[1], id_bytes(id)[2], id_bytes(id)[3]) == id,
{
}

/// Looks up the id that was read back from the pick target.
///
/// Gives `None` where no flow owns the id: nothing that can be picked is under
/// the cursor. Else gives the id with all flows that own it.
pub fn resolve(translation: &HashMap<u32, HashSet<usize>>, id: u32) -> (picked: Option<
    (u32, HashSet<usize>),
>)
    ensures
        picked is Some <==> owners(translation@).dom().contains(id),
        picked matches Some((pick_id, flow_ids)) ==> pick_id == id && flow_ids@ == owners(
            translation@,
        )[id],
{
    broadcast use vstd::std_specs::hash::group_hash_axioms;

    match translation.get(&id) {
        Some(flow_ids) => Some((id, copy_flows(flow_ids))),
        None => None,
    }
}

/// Whether more than one flow owns a picked id.
pub fn is_ambiguous(flow_ids: &HashSet<usize>) -> (ambiguous: bool)
    ensures
        ambiguous == (flow_ids@.len() > 1),
{
    broadcast use vstd::std_specs::hash::group_hash_axioms;

    flow_ids.len() > 1
}

/// A copy of a set of flows.
fn copy_flows(flows: &HashSet<usize>) -> (copy: HashSet<usize>)
    ensures
        copy@ == flows@,
{
    broadcast use vstd::std_specs::hash::group_hash_axioms;

    let mut copy: HashSet<usize> = HashSet::new();
    for flow in it: flows.iter()
        invariant
            copy@ == it.seq().take(it.index()).unref().to_set(),
            it.seq().unref().to_set() == flows@,
            it.index() == it.seq().len() ==> copy@ == flows@,
    {
        copy.insert(*flow);
        proof {
            lemma_take_one_more(it.seq(), it.index());
        }
    }
    copy
}

/// Taking one more item of a list of references adds what it refers to.
proof fn lemma_take_one_more(items: Seq<&usize>, len: int)
    requires
        0 <= len < items.len(),
    ensures
        items.take(len + 1).unref().to_set() == items.take(len).unref().to_set().insert(
            *items[len],
        ),
        len + 1 == items.len() ==> items.take(len + 1) == items,
{
    let before = items.take(len).unref();
    let after = items.take(len + 1).unref();
    assert(after =~= before.push(*items[len]));
    assert forall|x: usize| after.to_set().contains(x) <==> before.to_set().insert(
        *items[len],
    ).contains(x) by {
        if after.contains(x) {
            let k = choose|k: int| 0 <= k < after.len() && after[k] == x;
        }
        if before.contains(x) {
            let k = choose|k: int| 0 <= k < before.len() && before[k] == x;
            assert(after[k] == x);
        }
        if x == *items[len] {
            assert(after[len] == x);
        }
    }
}

/// Serialises pick attempts. A pick takes a round trip to the GPU; while one is
/// in flight, a further request is dropped.
#[derive(Clone, Copy, Debug, PartialEq, Eq, Structural)]
pub struct PickGate {
    pub in_flight: bool,
}

impl PickGate {
    /// A gate with no pick in flight.
    pub fn new() -> (gate: PickGate)
        ensures
            !gate.in_flight,
    {
        PickGate { in_flight: false }
    }

    /// Asks to start a pick. Returns whether it may start: none is in flight.
    /// A request that may not start is to be dropped with a warning.
    pub fn request(&mut self) -> (start: bool)
        ensures
            start == !old(self).in_flight,
            final(self).in_flight,
    {
        let start = !self.in_flight;
        self.in_flight = true;
        start
    }

    /// Takes note that the pick in flight has delivered its result.
    pub fn complete(&mut self)
        ensures
            !final(self).in_flight,
    {
        self.in_flight = false;
    }
}

} // verus!
