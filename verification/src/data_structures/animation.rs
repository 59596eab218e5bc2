//! Animation clips and their merge into keyframe transforms.
//!
//! An asset describes an animation as a list of clips, each carrying one
//! channel: the translations, the rotations or the scales of a node over
//! time. A node plays a [`ModelAnimation`], which holds one whole transform
//! per keyframe. [`merge`] turns the first form into the second.

use vstd::prelude::*;
use crate::data_structures::instance::{Instance, Quaternion, Scalar, Vector3};
use crate::util::{copied, extend_copied};

verus! {

/// The samples of one channel.
#[derive(Clone, Debug)]
pub enum Keyframes {
    Translation(Vec<Vector3>),
    Rotation(Vec<Quaternion>),
    Scale(Vec<Vector3>),
}

/// One channel of one animation.
#[derive(Clone, Debug)]
pub struct AnimationClip {
    pub name: String,
    pub keyframes: Keyframes,
    pub timestamps: Vec<Scalar>,
}

/// The merged form of an animation: one transform per keyframe.
#[derive(Clone, Debug, Default)]
pub struct ModelAnimation {
    pub name: String,
    pub instances: Vec<Instance>,
    pub timestamps: Vec<Scalar>,
}

/// What [`try_merge`] hands back: the animations, and for each of them whether
/// its channels had to be padded to a common length.
#[derive(Clone, Debug, Default)]
pub struct Merged {
    pub animations: Vec<ModelAnimation>,
    pub padded: Vec<bool>,
}

/// The samples of one channel, as a sequence.
pub enum KeyframesView {
    Translation(Seq<Vector3>),
    Rotation(Seq<Quaternion>),
    Scale(Seq<Vector3>),
}

/// One channel of one animation, as sequences.
pub struct AnimationClipView {
    pub name: Seq<char>,
    pub keyframes: KeyframesView,
    pub timestamps: Seq<Scalar>,
}

/// A merged animation, as sequences.
pub struct ModelAnimationView {
    pub name: Seq<char>,
    pub instances: Seq<Instance>,
    pub timestamps: Seq<Scalar>,
}

impl View for Keyframes {
    type V = KeyframesView;

    open spec fn view(&self) -> KeyframesView {
        match *self {
            Keyframes::Translation(t) => KeyframesView::Translation(t@),
            Keyframes::Rotation(r) => KeyframesView::Rotation(r@),
            Keyframes::Scale(s) => KeyframesView::Scale(s@),
        }
    }
}

impl View for AnimationClip {
    type V = AnimationClipView;

    open spec fn view(&self) -> AnimationClipView {
        AnimationClipView {
            name: self.name@,
            keyframes: self.keyframes@,
            timestamps: self.timestamps@,
        }
    }
}

impl View for ModelAnimation {
    type V = ModelAnimationView;

    open spec fn view(&self) -> ModelAnimationView {
        ModelAnimationView {
            name: self.name@,
            instances: self.instances@,
            timestamps: self.timestamps@,
        }
    }
}

/// The views of a list of clips, in order.
pub open spec fn clip_views(clips: Seq<AnimationClip>) -> Seq<AnimationClipView> {
    Seq::new(clips.len(), |i: int| clips[i]@)
}

/// The views of a list of animations, in order.
pub open spec fn animation_views(animations: Seq<ModelAnimation>) -> Seq<ModelAnimationView> {
    Seq::new(animations.len(), |i: int| animations[i]@)
}

impl AnimationClipView {
    /// The translation samples that this clip contributes.
    pub open spec fn translations(self) -> Seq<Vector3> {
        match self.keyframes {
            KeyframesView::Translation(t) => t,
            _ => Seq::empty(),
        }
    }

    /// The rotation samples that this clip contributes.
    pub open spec fn rotations(self) -> Seq<Quaternion> {
        match self.keyframes {
            KeyframesView::Rotation(r) => r,
            _ => Seq::empty(),
        }
    }

    /// The scale samples that this clip contributes.
    pub open spec fn scales(self) -> Seq<Vector3> {
        match self.keyframes {
            KeyframesView::Scale(s) => s,
            _ => Seq::empty(),
        }
    }
}

/// All translation samples of a group of clips, in clip order.
pub open spec fn group_translations(group: Seq<AnimationClipView>) -> Seq<Vector3>
    decreases group.len(),
{
    if group.len() == 0 {
        Seq::empty()
    } else {
        group_translations(group.drop_last()) + group.last().translations()
    }
}

/// All rotation samples of a group of clips, in clip order.
pub open spec fn group_rotations(group: Seq<AnimationClipView>) -> Seq<Quaternion>
    decreases group.len(),
{
    if group.len() == 0 {
        Seq::empty()
    } else {
        group_rotations(group.drop_last()) + group.last().rotations()
    }
}

/// All scale samples of a group of clips, in clip order.
pub open spec fn group_scales(group: Seq<AnimationClipView>) -> Seq<Vector3>
    decreases group.len(),
{
    if group.len() == 0 {
        Seq::empty()
    } else {
        group_scales(group.drop_last()) + group.last().scales()
    }
}

/// The timestamps of a group: those of its first clip that has more of them
/// than every clip before it and at least as many as every clip after it.
pub open spec fn group_timestamps(group: Seq<AnimationClipView>) -> Seq<Scalar>
    decreases group.len(),
{
    if group.len() == 0 {
        Seq::empty()
    } else {
        let before = group_timestamps(group.drop_last());
        if group.last().timestamps.len() > before.len() {
            group.last().timestamps
        } else {
            before
        }
    }
}

/// The greatest of three numbers.
pub open spec fn max3(a: nat, b: nat, c: nat) -> nat {
    if a >= b && a >= c {
        a
    } else if b >= c {
        b
    } else {
        c
    }
}

/// The number of keyframes of a group: the length of its longest channel.
pub open spec fn group_len(group: Seq<AnimationClipView>) -> nat {
    max3(
        group_translations(group).len(),
        group_rotations(group).len(),
        group_scales(group).len(),
    )
}

/// A channel held at its first sample up to `len` samples: the samples it has,
/// followed by as many copies of the first as are needed. A channel without
/// samples has nothing to hold.
pub open spec fn hold_first<T>(channel: Seq<T>, len: nat) -> Seq<T> {
    Seq::new(len, |i: int| if i < channel.len() { channel[i] } else { channel[0] })
}

/// Whether the channels of a group differ in length.
pub open spec fn group_uneven(group: Seq<AnimationClipView>) -> bool {
    ||| group_translations(group).len() != group_rotations(group).len()
    ||| group_rotations(group).len() != group_scales(group).len()
}

/// Whether a group can be brought to a common length: no channel is empty
/// while another channel has samples.
pub open spec fn group_complete(group: Seq<AnimationClipView>) -> bool {
    group_len(group) > 0 ==> {
        &&& group_translations(group).len() > 0
        &&& group_rotations(group).len() > 0
        &&& group_scales(group).len() > 0
    }
}

/// The animation made of three channels, each held at its first sample up to
/// the length of the longest.
pub open spec fn assemble(
    name: Seq<char>,
    translations: Seq<Vector3>,
    rotations: Seq<Quaternion>,
    scales: Seq<Vector3>,
    timestamps: Seq<Scalar>,
) -> ModelAnimationView {
    let len = max3(translations.len(), rotations.len(), scales.len());
    ModelAnimationView {
        name,
        instances: Seq::new(
            len,
            |i: int|
                Instance {
                    position: hold_first(translations, len)[i],
                    rotation: hold_first(rotations, len)[i],
                    scale: hold_first(scales, len)[i],
                },
        ),
        timestamps,
    }
}

/// The animation that a group of equally named clips merges into.
pub open spec fn group_animation(group: Seq<AnimationClipView>) -> ModelAnimationView {
    assemble(
        group[0].name,
        group_translations(group),
        group_rotations(group),
        group_scales(group),
        group_timestamps(group),
    )
}

/// The length of the run of equally named clips that `clips` starts with.
pub open spec fn leading_run(clips: Seq<AnimationClipView>) -> nat
    decreases clips.len(),
{
    if clips.len() == 0 {
        0
    } else if clips.len() == 1 || clips[1].name != clips[0].name {
        1
    } else {
        1 + leading_run(clips.drop_first())
    }
}

/// The groups of a clip list: its maximal runs of adjacent clips with one name.
pub open spec fn groups(clips: Seq<AnimationClipView>) -> Seq<Seq<AnimationClipView>>
    decreases clips.len(),
    via groups_decreases
{
    if clips.len() == 0 {
        Seq::empty()
    } else {
        let run = leading_run(clips) as int;
        seq![clips.take(run)] + groups(clips.skip(run))
    }
}

#[via_fn]
proof fn groups_decreases(clips: Seq<AnimationClipView>) {
    if clips.len() != 0 {
        lemma_leading_run_bounds(clips);
    }
}

/// The leading run of a clip list that is not empty has at least one clip and
/// no more clips than the list.
pub proof fn lemma_leading_run_bounds(clips: Seq<AnimationClipView>)
    requires
        clips.len() > 0,
    ensures
        1 <= leading_run(clips) <= clips.len(),
    decreases clips.len(),
{
    if clips.len() == 1 || clips[1].name != clips[0].name {
    } else {
        lemma_leading_run_bounds(clips.drop_first());
    }
}

/// Whether a clip list can be merged: it is not empty and each of its groups is complete.
pub open spec fn mergeable(clips: Seq<AnimationClipView>) -> bool {
    &&& clips.len() > 0
    &&& forall|k: int| 0 <= k < groups(clips).len() ==> group_complete(#[trigger] groups(clips)[k])
}

/// The animations that a clip list merges into: one per group, in order.
pub open spec fn merged(clips: Seq<AnimationClipView>) -> Seq<ModelAnimationView> {
    Seq::new(groups(clips).len(), |k: int| group_animation(groups(clips)[k]))
}

/// For each group of a clip list, whether its channels differ in length.
pub open spec fn padded(clips: Seq<AnimationClipView>) -> Seq<bool> {
    Seq::new(groups(clips).len(), |k: int| group_uneven(groups(clips)[k]))
}

/// Intermediate state when converting between `AnimationClip` and `ModelAnimation`.
struct ModelState {
    animations: Vec<ModelAnimation>,
    padded: Vec<bool>,
    trans: Vec<Vector3>,
    rots: Vec<Quaternion>,
    scals: Vec<Vector3>,
    timestamps: Vec<Scalar>,
    current_clip: String,
}

impl ModelState {
    /// Whether the state holds exactly what the clips `group` have brought.
    spec fn holds(self, group: Seq<AnimationClipView>) -> bool {
        &&& self.trans@ == group_translations(group)
        &&& self.rots@ == group_rotations(group)
        &&& self.scals@ == group_scales(group)
        &&& self.timestamps@ == group_timestamps(group)
    }

    /// Whether the channels that the state has gathered can be brought to a
    /// common length: none is empty while another has samples.
    spec fn complete(self) -> bool {
        max3(self.trans@.len(), self.rots@.len(), self.scals@.len()) > 0 ==> {
            &&& self.trans@.len() > 0
            &&& self.rots@.len() > 0
            &&& self.scals@.len() > 0
        }
    }

    /// Whether the channels that the state has gathered differ in length.
    spec fn uneven(self) -> bool {
        ||| self.trans@.len() != self.rots@.len()
        ||| self.rots@.len() != self.scals@.len()
    }

    /// Starts the group of `clip`: no samples yet, under the name of `clip`.
    fn reset(&mut self, clip: &AnimationClip)
        ensures
            final(self).animations == old(self).animations,
            final(self).padded == old(self).padded,
            final(self).trans@ == Seq::<Vector3>::empty(),
            final(self).rots@ == Seq::<Quaternion>::empty(),
            final(self).scals@ == Seq::<Vector3>::empty(),
            final(self).timestamps@ == Seq::<Scalar>::empty(),
            final(self).current_clip@ == clip.name@,
    {
        self.timestamps = Vec::new();
        self.trans = Vec::new();
        self.rots = Vec::new();
        self.scals = Vec::new();
        self.current_clip = clip.name.clone();
    }
}

/// Appends the first item of `channel` to it until it holds `len` items.
fn pad_with_first<T: Copy>(channel: &mut Vec<T>, len: usize)
    requires
        0 < old(channel)@.len() <= len,
    ensures
        final(channel)@ == hold_first(old(channel)@, len as nat),
{
    let first = channel[0];
    while channel.len() < len
        invariant
            0 < old(channel)@.len() <= channel@.len() <= len,
            first == old(channel)@[0],
            channel@ == hold_first(old(channel)@, channel@.len()),
        decreases len - channel@.len(),
    {
        channel.push(first);
    }
}

/// Closes the group that `state` has gathered: pads its channels to a common
/// length and builds the animation. Gives `None` where a channel is empty while
/// another has samples, and else the animation and whether it was padded.
fn save_current_anim(state: &mut ModelState) -> (saved: Option<(ModelAnimation, bool)>)
    ensures
        final(state).animations == old(state).animations,
        final(state).padded == old(state).padded,
        final(state).current_clip == old(state).current_clip,
        saved is Some <==> old(state).complete(),
        saved matches Some((animation, uneven)) ==> {
            &&& animation@ == assemble(
                old(state).current_clip@,
                old(state).trans@,
                old(state).rots@,
                old(state).scals@,
                old(state).timestamps@,
            )
            &&& uneven == old(state).uneven()
        },
{
    let t_len = state.trans.len();
    let r_len = state.rots.len();
    let s_len = state.scals.len();
    let max_len = if t_len >= r_len && t_len >= s_len {
        t_len
    } else if r_len >= s_len {
        r_len
    } else {
        s_len
    };
    let uneven = t_len != r_len || r_len != s_len;
    if max_len > 0 {
        if t_len == 0 || r_len == 0 || s_len == 0 {
            return None;
        }
        // Use first frame as default (this is important as child nodes have offsets)
        pad_with_first(&mut state.trans, max_len);
        pad_with_first(&mut state.rots, max_len);
        pad_with_first(&mut state.scals, max_len);
    }
    let mut instances: Vec<Instance> = Vec::with_capacity(max_len);
    let mut i: usize = 0;
    while i < max_len
        invariant
            i <= max_len,
            state.trans@.len() == max_len,
            state.rots@.len() == max_len,
            state.scals@.len() == max_len,
            instances@.len() == i,
            forall|k: int|
                0 <= k < i ==> #[trigger] instances@[k] == (Instance {
                    position: state.trans@[k],
                    rotation: state.rots@[k],
                    scale: state.scals@[k],
                }),
        decreases max_len - i,
    {
        let instance = Instance {
            position: state.trans[i],
            rotation: state.rots[i],
            scale: state.scals[i],
        };
        instances.push(instance);
        i += 1;
    }
    let animation = ModelAnimation {
        name: state.current_clip.clone(),
        instances,
        timestamps: copied(&state.timestamps),
    };
    proof {
        let expected = assemble(
            old(state).current_clip@,
            old(state).trans@,
            old(state).rots@,
            old(state).scals@,
            old(state).timestamps@,
        );
        assert(animation@.instances =~= expected.instances);
    }
    Some((animation, uneven))
}

/// A run of equally named clips that ends where the list ends or the name
/// changes is the leading run.
proof fn lemma_leading_run_is(clips: Seq<AnimationClipView>, len: int)
    requires
        0 < len <= clips.len(),
        forall|j: int| 0 <= j < len ==> (#[trigger] clips[j]).name == clips[0].name,
        len == clips.len() || clips[len].name != clips[0].name,
    ensures
        leading_run(clips) == len,
    decreases clips.len(),
{
    if clips.len() == 1 || clips[1].name != clips[0].name {
    } else {
        let rest = clips.drop_first();
        lemma_leading_run_is(rest, len - 1);
    }
}

/// The groups of a list whose first `start` clips form the groups `done` and
/// whose next group ends at `end`.
proof fn lemma_groups_step(
    clips: Seq<AnimationClipView>,
    done: Seq<Seq<AnimationClipView>>,
    start: int,
    end: int,
)
    requires
        0 <= start < end <= clips.len(),
        groups(clips) == done + groups(clips.skip(start)),
        forall|j: int| start <= j < end ==> (#[trigger] clips[j]).name == clips[start].name,
        end == clips.len() || clips[end].name != clips[start].name,
    ensures
        groups(clips) == done.push(clips.subrange(start, end)) + groups(clips.skip(end)),
{
    let tail = clips.skip(start);
    lemma_leading_run_is(tail, end - start);
    assert(tail.take(end - start) =~= clips.subrange(start, end));
    assert(tail.skip(end - start) =~= clips.skip(end));
}

/// What a group gathers when one more clip joins it.
proof fn lemma_group_grows(clips: Seq<AnimationClipView>, start: int, end: int)
    requires
        0 <= start <= end < clips.len(),
    ensures
        group_translations(clips.subrange(start, end + 1)) == group_translations(
            clips.subrange(start, end),
        ) + clips[end].translations(),
        group_rotations(clips.subrange(start, end + 1)) == group_rotations(
            clips.subrange(start, end),
        ) + clips[end].rotations(),
        group_scales(clips.subrange(start, end + 1)) == group_scales(clips.subrange(start, end))
            + clips[end].scales(),
        group_timestamps(clips.subrange(start, end + 1)) == (if clips[end].timestamps.len()
            > group_timestamps(clips.subrange(start, end)).len() {
            clips[end].timestamps
        } else {
            group_timestamps(clips.subrange(start, end))
        }),
{
    let longer = clips.subrange(start, end + 1);
    assert(longer.drop_last() =~= clips.subrange(start, end));
}

/// Clips that all have one name merge into exactly one animation of that
/// name. It has as many instances as the longest channel has samples.
pub proof fn lemma_one_name_one_animation(clips: Seq<AnimationClipView>)
    requires
        clips.len() > 0,
        forall|j: int| 0 <= j < clips.len() ==> (#[trigger] clips[j]).name == clips[0].name,
    ensures
        groups(clips) == seq![clips],
        merged(clips).len() == 1,
        merged(clips)[0] == group_animation(clips),
        merged(clips)[0].name == clips[0].name,
        merged(clips)[0].instances.len() == group_len(clips),
{
    lemma_leading_run_is(clips, clips.len() as int);
    assert(clips.take(clips.len() as int) =~= clips);
    assert(groups(clips.skip(clips.len() as int)) =~= Seq::<Seq<AnimationClipView>>::empty());
}

/// Merges keyframes with the same name to have all transformations in one place.
///
/// Clips are taken in order; a new animation begins wherever the name differs
/// from that of the clip before. Within an animation the channels are brought
/// to the length of the longest by holding their first sample.
///
/// Gives `None` where the list is empty or a channel of some animation is empty
/// while another has samples.
pub fn try_merge(clips: Vec<AnimationClip>) -> (result: Option<Merged>)
    ensures
        result is Some <==> mergeable(clip_views(clips@)),
        result matches Some(merge) ==> {
            &&& animation_views(merge.animations@) == merged(clip_views(clips@))
            &&& merge.padded@ == padded(clip_views(clips@))
        },
{
    merge_clips(&clips)
}

/// Merges the clips as [`try_merge`] does, and leaves them with the caller.
pub fn merge_clips(clips: &Vec<AnimationClip>) -> (result: Option<Merged>)
    ensures
        result is Some <==> mergeable(clip_views(clips@)),
        result matches Some(merge) ==> {
            &&& animation_views(merge.animations@) == merged(clip_views(clips@))
            &&& merge.padded@ == padded(clip_views(clips@))
        },
{
    let n = clips.len();
    if n == 0 {
        return None;
    }
    let ghost views = clip_views(clips@);
    let mut state = ModelState {
        animations: Vec::new(),
        padded: Vec::new(),
        trans: Vec::new(),
        rots: Vec::new(),
        scals: Vec::new(),
        timestamps: Vec::new(),
        current_clip: clips[0].name.clone(),
    };
    let ghost mut done: Seq<Seq<AnimationClipView>> = Seq::empty();
    let ghost mut start: int = 0;
    let mut i: usize = 0;
    proof {
        assert(views.skip(0) =~= views);
    }
    while i < n
        invariant
            0 <= start <= i <= n,
            start < n,
            n == clips@.len(),
            views == clip_views(clips@),
            start == i ==> i == 0,
            groups(views) == done + groups(views.skip(start)),
            forall|j: int| start <= j < i ==> (#[trigger] views[j]).name == views[start].name,
            state.current_clip@ == views[start].name,
            state.holds(views.subrange(start, i as int)),
            state.animations@.len() == done.len(),
            state.padded@.len() == done.len(),
            forall|k: int|
                0 <= k < done.len() ==> {
                    &&& group_complete(#[trigger] done[k])
                    &&& state.animations@[k]@ == group_animation(done[k])
                    &&& state.padded@[k] == group_uneven(done[k])
                },
        decreases n - i,
    {
        let clip = &clips[i];
        if !(clip.name == state.current_clip) {
            proof {
                lemma_groups_step(views, done, start, i as int);
            }
            match save_current_anim(&mut state) {
                None => {
                    proof {
                        let k = done.len() as int;
                        assert(groups(views)[k] == views.subrange(start, i as int));
                    }
                    return None;
                },
                Some((animation, uneven)) => {
                    state.animations.push(animation);
                    state.padded.push(uneven);
                },
            }
            state.reset(clip);
            proof {
                done = done.push(views.subrange(start, i as int));
                start = i as int;
            }
        }
        match &clip.keyframes {
            Keyframes::Translation(translations) => extend_copied(&mut state.trans, translations),
            Keyframes::Rotation(rotations) => extend_copied(&mut state.rots, rotations),
            Keyframes::Scale(scalations) => extend_copied(&mut state.scals, scalations),
        }
        // in case some tracks have fewer steps than others we want to have the largest set of timestamps for smooth animations
        if clip.timestamps.len() > state.timestamps.len() {
            state.timestamps = copied(&clip.timestamps);
        }
        proof {
            lemma_group_grows(views, start, i as int);
        }
        i += 1;
    }
    proof {
        lemma_groups_step(views, done, start, n as int);
    }
    match save_current_anim(&mut state) {
        None => {
            proof {
                let k = done.len() as int;
                assert(!group_complete(groups(views)[k]));
            }
            None
        },
        Some((animation, uneven)) => {
            state.animations.push(animation);
            state.padded.push(uneven);
            Some(Merged { animations: state.animations, padded: state.padded })
        },
    }
}

/// Merges keyframes with the same name to have all transformations in one place.
///
/// The list must be one that [`try_merge`] accepts.
pub fn merge(clips: Vec<AnimationClip>) -> (animations: Vec<ModelAnimation>)
    requires
        mergeable(clip_views(clips@)),
    ensures
        animation_views(animations@) == merged(clip_views(clips@)),
{
    match try_merge(clips) {
        Some(merge) => merge.animations,
        None => Vec::new(),
    }
}

} // verus!
