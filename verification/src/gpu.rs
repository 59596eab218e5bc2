//! Names for what lives on the GPU.
//!
//! The scene graph and the render description never touch a GPU resource. They
//! carry handles, which the renderer resolves, and they describe the buffer
//! traffic that the renderer has to carry out.

use vstd::prelude::*;
use crate::data_structures::instance::Instance;

verus! {

/// Names a model: a set of meshes with their materials.
#[derive(Clone, Copy, Debug, PartialEq, Eq, Hash, Structural)]
pub struct ModelHandle {
    pub index: usize,
}

/// Names a GPU buffer.
#[derive(Clone, Copy, Debug, PartialEq, Eq, Hash, Structural)]
pub struct BufferHandle {
    pub index: usize,
}

/// Names a bind group: the textures and samplers of a flat object.
#[derive(Clone, Copy, Debug, PartialEq, Eq, Hash, Structural)]
pub struct BindGroupHandle {
    pub index: usize,
}

/// The instance buffer of a model node: where it lives and how many instance
/// records it was allocated for.
#[derive(Clone, Copy, Debug, PartialEq, Eq, Hash, Structural)]
pub struct InstanceBuffer {
    pub handle: BufferHandle,
    pub capacity: usize,
}

/// Which winding order counts as the front of a triangle.
#[derive(Clone, Copy, Debug, PartialEq, Eq, Hash, Structural)]
pub enum FrontFace {
    /// Counter-clockwise, for transforms that keep orientation.
    Ccw,
    /// Clockwise, for transforms that mirror.
    Cw,
}

/// One piece of buffer traffic that the renderer has to carry out.
#[derive(Clone, Debug)]
pub enum BufferCommand {
    /// Allocate the buffer anew, sized for `contents`, and fill it.
    Recreate { buffer: BufferHandle, contents: Vec<Instance> },
    /// Write `contents` into the buffer as it is, from its start.
    Write { buffer: BufferHandle, contents: Vec<Instance> },
}

/// One piece of buffer traffic, with its contents as a sequence.
pub enum BufferCommandView {
    Recreate { buffer: BufferHandle, contents: Seq<Instance> },
    Write { buffer: BufferHandle, contents: Seq<Instance> },
}

impl View for BufferCommand {
    type V = BufferCommandView;

    open spec fn view(&self) -> BufferCommandView {
        match *self {
            BufferCommand::Recreate { buffer, contents } => BufferCommandView::Recreate {
                buffer,
                contents: contents@,
            },
            BufferCommand::Write { buffer, contents } => BufferCommandView::Write {
                buffer,
                contents: contents@,
            },
        }
    }
}

/// The views of a list of commands, in order.
pub open spec fn command_views(commands: Seq<BufferCommand>) -> Seq<BufferCommandView> {
    Seq::new(commands.len(), |i: int| commands[i]@)
}

} // verus!
