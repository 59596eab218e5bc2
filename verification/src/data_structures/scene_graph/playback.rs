//! Playing animations on a scene graph.
//!
//! To play an animation is to set local transforms: to the keyframe that is
//! due, or one step towards a transform to reach. What is due and how far a
//! step goes depends on time and on arithmetic on transforms, which the caller
//! provides as functions.

use vstd::prelude::*;
use super::{min, SceneNode};
use crate::data_structures::animation::ModelAnimation;
use crate::data_structures::instance::{Instance, Scalar};

verus! {

/// Whether `index` is the keyframe to show among keyframes at the times
/// `timestamps` once the first `passed` of these times have passed and the
/// next one, if there is one, lies ahead; `future(time, answer)` tells whether
/// `answer` may be given to the question whether `time` lies ahead.
///
/// It is the keyframe whose time lies ahead; the last keyframe where no time
/// lies ahead; and keyframe 0 where there is no timestamp.
pub open spec fn shows_after(
    timestamps: Seq<Scalar>,
    passed: int,
    index: int,
    future: spec_fn(Scalar, bool) -> bool,
) -> bool {
    &&& 0 <= passed <= timestamps.len()
    &&& forall|j: int| 0 <= j < passed ==> future(#[trigger] timestamps[j], false)
    &&& passed < timestamps.len() ==> future(timestamps[passed], true)
    &&& index == (if passed < timestamps.len() {
        passed
    } else if timestamps.len() > 0 {
        timestamps.len() - 1
    } else {
        0
    })
}

/// Whether `index` may be the keyframe to show among keyframes at the times
/// `timestamps`: it is after some number of times have passed.
pub open spec fn shows(
    timestamps: Seq<Scalar>,
    index: int,
    future: spec_fn(Scalar, bool) -> bool,
) -> bool {
    exists|passed: int| shows_after(timestamps, passed, index, future)
}

/// Finds the keyframe to show among keyframes at the times `timestamps`.
/// `future` tells whether a time lies ahead.
pub fn keyframe_index<F: Fn(&Scalar) -> bool>(timestamps: &Vec<Scalar>, future: &F) -> (index: usize)
    requires
        forall|time: &Scalar| future.requires((time,)),
    ensures
        shows(timestamps@, index as int, |time: Scalar, answer: bool| future.ensures((&time,), answer)),
{
    let ghost ahead = |time: Scalar, answer: bool| future.ensures((&time,), answer);
    let n = timestamps.len();
    let mut current_keyframe_index: usize = 0;
    let mut i: usize = 0;
    while i < n
        invariant
            i <= n,
            n == timestamps@.len(),
            forall|time: &Scalar| future.requires((time,)),
            ahead == (|time: Scalar, answer: bool| future.ensures((&time,), answer)),
            forall|j: int| 0 <= j < i ==> future.ensures((&#[trigger] timestamps@[j],), false),
            current_keyframe_index == (if i < n {
                i as int
            } else if n > 0 {
                n - 1
            } else {
                0
            }),
        decreases n - i,
    {
        // keyframe lies ahead
        if future(&timestamps[i]) {
            proof {
                assert(shows_after(timestamps@, i as int, current_keyframe_index as int, ahead));
            }
            return current_keyframe_index;
        }
        if current_keyframe_index < n - 1 {
            current_keyframe_index += 1;
        }
        i += 1;
    }
    proof {
        assert(shows_after(timestamps@, n as int, current_keyframe_index as int, ahead));
    }
    current_keyframe_index
}

impl SceneNode {
    /// Whether `after` is `before` with the animation at `anim_idx` played:
    /// in every node of the subtree that has such an animation, the local
    /// transform of the first instance is the keyframe to show. A node without
    /// such an animation, without an instance, or whose animation lacks the
    /// keyframe to show, keeps its instances.
    pub open spec fn animated(
        before: SceneNode,
        after: SceneNode,
        anim_idx: int,
        future: spec_fn(Scalar, bool) -> bool,
    ) -> bool
        decreases before,
    {
        &&& after.animations() == before.animations()
        &&& after.drawable() == before.drawable()
        &&& if 0 <= anim_idx < before.animations().len() {
            exists|index: int|
                #![trigger shows(before.animations()[anim_idx].timestamps@, index, future)]
                shows(before.animations()[anim_idx].timestamps@, index, future)
                    && after.instances() == Self::shown(
                    before.instances(),
                    before.animations()[anim_idx],
                    index,
                )
        } else {
            after.instances() == before.instances()
        }
        &&& after.children().len() == before.children().len()
        &&& forall|c: int|
            #![trigger before.children()[c]]
            #![trigger after.children()[c]]
            0 <= c < before.children().len() ==> Self::animated(
                before.children()[c],
                after.children()[c],
                anim_idx,
                future,
            )
    }

    /// The instances of a node once keyframe `index` of `animation` is shown:
    /// the keyframe is the local transform of the first instance. They stay
    /// where there is no such keyframe or no instance.
    pub open spec fn shown(
        instances: Seq<(Instance, Instance)>,
        animation: ModelAnimation,
        index: int,
    ) -> Seq<(Instance, Instance)> {
        if 0 <= index < animation.instances@.len() && instances.len() > 0 {
            instances.update(0, (animation.instances@[index], instances[0].1))
        } else {
            instances
        }
    }

    /// Plays the animation at `anim_idx` in every node of the subtree: sets the
    /// local transform of the first instance to the keyframe that is due.
    /// `future` tells whether the time of a keyframe lies ahead.
    pub fn animate<F: Fn(&Scalar) -> bool>(&mut self, anim_idx: usize, future: &F)
        requires
            forall|time: &Scalar| future.requires((time,)),
        ensures
            Self::animated(
                *old(self),
                *final(self),
                anim_idx as int,
                |time: Scalar, answer: bool| future.ensures((&time,), answer),
            ),
    {
        let ghost ahead = |time: Scalar, answer: bool| future.ensures((&time,), answer);
        self.animate_graph(anim_idx, future, Ghost(ahead));
    }

    fn animate_graph<F: Fn(&Scalar) -> bool>(
        &mut self,
        anim_idx: usize,
        future: &F,
        Ghost(ahead): Ghost<spec_fn(Scalar, bool) -> bool>,
    )
        requires
            forall|time: &Scalar| future.requires((time,)),
            ahead == (|time: Scalar, answer: bool| future.ensures((&time,), answer)),
        ensures
            Self::animated(*old(self), *final(self), anim_idx as int, ahead),
        decreases *old(self),
    {
        let animations = self.get_animation();
        // pick desired animation
        let ref_pos: Option<Instance> = if anim_idx < animations.len() {
            let animation = &animations[anim_idx];
            let current_keyframe_index = keyframe_index(&animation.timestamps, future);
            if current_keyframe_index < animation.instances.len() {
                Some(animation.instances[current_keyframe_index])
            } else {
                None
            }
        } else {
            None
        };
        // Update locals with current animation
        match ref_pos {
            Some(ref_pos) => self.set_local_transform(0, ref_pos),
            None => {},
        }
        let children = self.get_children_mut();
        let n = children.len();
        let mut c: usize = 0;
        while c < n
            invariant
                c <= n,
                n == children@.len(),
                n == old(self).children().len(),
                forall|time: &Scalar| future.requires((time,)),
                ahead == (|time: Scalar, answer: bool| future.ensures((&time,), answer)),
                forall|j: int|
                    0 <= j < c ==> Self::animated(
                        #[trigger] old(self).children()[j],
                        children@[j],
                        anim_idx as int,
                        ahead,
                    ),
                forall|j: int| c <= j < n ==> #[trigger] children@[j] == old(self).children()[j],
            decreases n - c,
        {
            let child = &mut children[c];
            child.animate_graph(anim_idx, future, Ghost(ahead));
            c += 1;
        }
    }
}

/// The paths that a list of slices holds, as sequences.
pub open spec fn paths(current: Seq<&[usize]>) -> Seq<Seq<usize>> {
    Seq::new(current.len(), |i: int| current[i]@)
}

impl SceneNode {
    /// Whether `after` is `before` with one step taken towards `reference` by
    /// the local transform of slot `idx` of the node that `path` leads to from
    /// `before`, each entry of `path` giving the place of a child.
    ///
    /// `close(local, reference, answer)` tells whether `answer` may be given to
    /// the question whether `local` is close enough to `reference`, and
    /// `steps(local, reference, next)` whether `next` may come out of a step from
    /// `local` towards `reference`. A local transform that is close enough
    /// stays. `reached` holds the answer; it is `None`, and nothing changes,
    /// where `path` leads to no node or the node has no slot `idx`.
    pub open spec fn stepped(
        before: SceneNode,
        after: SceneNode,
        path: Seq<usize>,
        idx: int,
        reference: Instance,
        close: spec_fn(Instance, Instance, bool) -> bool,
        steps: spec_fn(Instance, Instance, Instance) -> bool,
        reached: Option<bool>,
    ) -> bool
        decreases path.len(),
    {
        if path.len() == 0 {
            if 0 <= idx < before.instances().len() {
                let local = before.instances()[idx].0;
                &&& reached matches Some(close_enough)
                &&& close(local, reference, close_enough)
                &&& if close_enough {
                    after == before
                } else {
                    &&& after.same_but_instances(before)
                    &&& exists|next: Instance|
                        #![trigger steps(local, reference, next)]
                        steps(local, reference, next) && after.instances()
                            == before.instances().update(idx, (next, before.instances()[idx].1))
                }
            } else {
                reached is None && after == before
            }
        } else if path[0] < before.children().len() {
            &&& after.same_but_children(before)
            &&& after.children().len() == before.children().len()
            &&& forall|c: int|
                0 <= c < before.children().len() && c != path[0] ==> #[trigger] after.children()[c]
                    == before.children()[c]
            &&& Self::stepped(
                before.children()[path[0] as int],
                after.children()[path[0] as int],
                path.skip(1),
                idx,
                reference,
                close,
                steps,
                reached,
            )
        } else {
            reached is None && after == before
        }
    }

    /// Takes one step towards `reference` with the local transform of slot
    /// `idx` of the node that `path` leads to, unless it is close enough.
    ///
    /// Returns whether it was close enough, or `None` where there is no such
    /// node or no such slot.
    pub fn step_towards<C: Fn(&Instance, &Instance) -> bool, S: Fn(&Instance, &Instance) -> Instance>(
        &mut self,
        path: &[usize],
        idx: usize,
        reference: &Instance,
        close: &C,
        step: &S,
    ) -> (reached: Option<bool>)
        requires
            forall|local: &Instance, target: &Instance| close.requires((local, target)),
            forall|local: &Instance, target: &Instance| step.requires((local, target)),
        ensures
            Self::stepped(
                *old(self),
                *final(self),
                path@,
                idx as int,
                *reference,
                |local: Instance, target: Instance, answer: bool|
                    close.ensures((&local, &target), answer),
                |local: Instance, target: Instance, next: Instance|
                    step.ensures((&local, &target), next),
                reached,
            ),
    {
        let ghost closes = |local: Instance, target: Instance, answer: bool|
            close.ensures((&local, &target), answer);
        let ghost steps = |local: Instance, target: Instance, next: Instance|
            step.ensures((&local, &target), next);
        proof {
            assert(path@.skip(0) =~= path@);
        }
        self.step_from(path, 0, idx, reference, close, step, Ghost(closes), Ghost(steps))
    }

    fn step_from<C: Fn(&Instance, &Instance) -> bool, S: Fn(&Instance, &Instance) -> Instance>(
        &mut self,
        path: &[usize],
        depth: usize,
        idx: usize,
        reference: &Instance,
        close: &C,
        step: &S,
        Ghost(closes): Ghost<spec_fn(Instance, Instance, bool) -> bool>,
        Ghost(steps): Ghost<spec_fn(Instance, Instance, Instance) -> bool>,
    ) -> (reached: Option<bool>)
        requires
            depth <= path@.len(),
            forall|local: &Instance, target: &Instance| close.requires((local, target)),
            forall|local: &Instance, target: &Instance| step.requires((local, target)),
            closes == (|local: Instance, target: Instance, answer: bool|
                close.ensures((&local, &target), answer)),
            steps == (|local: Instance, target: Instance, next: Instance|
                step.ensures((&local, &target), next)),
        ensures
            Self::stepped(
                *old(self),
                *final(self),
                path@.skip(depth as int),
                idx as int,
                *reference,
                closes,
                steps,
                reached,
            ),
        decreases path@.len() - depth,
    {
        if depth == path.len() {
            match self.get_local_transform(idx) {
                Some(local_transform) => {
                    let lt_epsilon = close(&local_transform, reference);
                    if !lt_epsilon {
                        let new_transform = step(&local_transform, reference);
                        self.set_local_transform(idx, new_transform);
                        proof {
                            assert(steps(local_transform, *reference, new_transform));
                        }
                    }
                    Some(lt_epsilon)
                },
                None => None,
            }
        } else {
            let place = path[depth];
            proof {
                assert(path@.skip(depth as int).skip(1) =~= path@.skip(depth + 1));
            }
            if place < self.get_children().len() {
                let children = self.get_children_mut();
                let child = &mut children[place];
                child.step_from(
                    path,
                    depth + 1,
                    idx,
                    reference,
                    close,
                    step,
                    Ghost(closes),
                    Ghost(steps),
                )
            } else {
                None
            }
        }
    }

    /// Whether `after` is `before` with one step taken for each of the first
    /// `upto` pairs of a path and a transform to reach, one after the other, as
    /// [`SceneNode::stepped`] says. `all_reached` tells whether each local
    /// transform that a path has led to was close enough.
    pub open spec fn animated_with(
        before: SceneNode,
        after: SceneNode,
        current: Seq<Seq<usize>>,
        reference: Seq<Instance>,
        idx: int,
        close: spec_fn(Instance, Instance, bool) -> bool,
        steps: spec_fn(Instance, Instance, Instance) -> bool,
        upto: nat,
        all_reached: bool,
    ) -> bool
        decreases upto,
    {
        if upto == 0 {
            after == before && all_reached
        } else {
            exists|between: SceneNode, so_far: bool, reached: Option<bool>|
                {
                    &&& #[trigger] Self::last_step(between, so_far, reached)
                    &&& Self::animated_with(
                        before,
                        between,
                        current,
                        reference,
                        idx,
                        close,
                        steps,
                        (upto - 1) as nat,
                        so_far,
                    )
                    &&& Self::stepped(
                        between,
                        after,
                        current[upto - 1],
                        idx,
                        reference[upto - 1],
                        close,
                        steps,
                        reached,
                    )
                    &&& all_reached == (so_far && reached != Some(false))
                }
        }
    }

    /// Names what the last of a run of steps started from and gave: the
    /// scene graph `between` before it, whether all was close enough until then,
    /// and whether it was at the last step. It holds of all values.
    pub open spec fn last_step(between: SceneNode, so_far: bool, reached: Option<bool>) -> bool {
        true
    }

    /// This function animates a single frame with interpolation between the current position of
    /// the scene graph and the position given in the animation list.
    ///
    /// `current` is a mapping between scene graph nodes and the passed animation positions:
    /// the path to each node to animate, from this node down
    /// `reference` is the desired position of each of them
    /// `idx` is the index of the instance to animate
    /// `close` tells whether a position is close enough to the desired one
    /// `step` gives the position one step nearer to the desired one
    ///
    /// Returns whether every position was close enough.
    pub fn animate_with<
        C: Fn(&Instance, &Instance) -> bool,
        S: Fn(&Instance, &Instance) -> Instance,
    >(
        &mut self,
        current: &[&[usize]],
        reference: &[&Instance],
        idx: usize,
        close: &C,
        step: &S,
    ) -> (all_reached: bool)
        requires
            forall|local: &Instance, target: &Instance| close.requires((local, target)),
            forall|local: &Instance, target: &Instance| step.requires((local, target)),
        ensures
            Self::animated_with(
                *old(self),
                *final(self),
                paths(current@),
                reference@.unref(),
                idx as int,
                |local: Instance, target: Instance, answer: bool|
                    close.ensures((&local, &target), answer),
                |local: Instance, target: Instance, next: Instance|
                    step.ensures((&local, &target), next),
                min(current@.len() as int, reference@.len() as int) as nat,
                all_reached,
            ),
    {
        let ghost closes = |local: Instance, target: Instance, answer: bool|
            close.ensures((&local, &target), answer);
        let ghost steps = |local: Instance, target: Instance, next: Instance|
            step.ensures((&local, &target), next);
        let n = if current.len() <= reference.len() {
            current.len()
        } else {
            reference.len()
        };
        let mut all_lts = true;
        let mut i: usize = 0;
        while i < n
            invariant
                i <= n,
                n == min(current@.len() as int, reference@.len() as int),
                forall|local: &Instance, target: &Instance| close.requires((local, target)),
                forall|local: &Instance, target: &Instance| step.requires((local, target)),
                closes == (|local: Instance, target: Instance, answer: bool|
                    close.ensures((&local, &target), answer)),
                steps == (|local: Instance, target: Instance, next: Instance|
                    step.ensures((&local, &target), next)),
                Self::animated_with(
                    *old(self),
                    *self,
                    paths(current@),
                    reference@.unref(),
                    idx as int,
                    closes,
                    steps,
                    i as nat,
                    all_lts,
                ),
            decreases n - i,
        {
            let ghost between = *self;
            let ghost so_far = all_lts;
            proof {
                assert(current@[i as int]@.skip(0) =~= current@[i as int]@);
            }
            let lt_epsilon = self.step_from(
                current[i],
                0,
                idx,
                reference[i],
                close,
                step,
                Ghost(closes),
                Ghost(steps),
            );
            match lt_epsilon {
                Some(reached) => {
                    all_lts = all_lts && reached;
                },
                None => {},
            }
            proof {
                assert(Self::last_step(between, so_far, lt_epsilon));
            }
            i += 1;
        }
        all_lts
    }
}

} // verus!
