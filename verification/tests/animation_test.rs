use flow_ngin::data_structures::animation::{merge, try_merge, AnimationClip, Keyframes};
use flow_ngin::data_structures::instance::{Instance, Quaternion, Scalar, Vector3};

fn scalar(value: f32) -> Scalar {
    Scalar::from_bits(value.to_bits())
}

fn vector(x: f32, y: f32, z: f32) -> Vector3 {
    Vector3::new(scalar(x), scalar(y), scalar(z))
}

fn turn(w: f32, z: f32) -> Quaternion {
    Quaternion::new(scalar(w), scalar(0.0), scalar(0.0), scalar(z))
}

fn times(values: &[f32]) -> Vec<Scalar> {
    values.iter().map(|value| scalar(*value)).collect()
}

fn translation(name: &str, samples: Vec<Vector3>, timestamps: &[f32]) -> AnimationClip {
    AnimationClip {
        name: name.to_string(),
        keyframes: Keyframes::Translation(samples),
        timestamps: times(timestamps),
    }
}

fn rotation(name: &str, samples: Vec<Quaternion>, timestamps: &[f32]) -> AnimationClip {
    AnimationClip {
        name: name.to_string(),
        keyframes: Keyframes::Rotation(samples),
        timestamps: times(timestamps),
    }
}

fn scale(name: &str, samples: Vec<Vector3>, timestamps: &[f32]) -> AnimationClip {
    AnimationClip {
        name: name.to_string(),
        keyframes: Keyframes::Scale(samples),
        timestamps: times(timestamps),
    }
}

#[test]
fn three_channels_merge_into_one_animation() {
    let clips = vec![
        translation("walk", vec![vector(0.0, 0.0, 0.0), vector(1.0, 0.0, 0.0)], &[0.0, 1.0]),
        rotation("walk", vec![turn(1.0, 0.0), turn(0.0, 1.0)], &[0.0, 1.0]),
        scale("walk", vec![vector(1.0, 1.0, 1.0), vector(2.0, 2.0, 2.0)], &[0.0, 1.0]),
    ];
    let animations = merge(clips);
    assert_eq!(animations.len(), 1);
    assert_eq!(animations[0].name, "walk");
    assert_eq!(
        animations[0].instances,
        vec![
            Instance {
                position: vector(0.0, 0.0, 0.0),
                rotation: turn(1.0, 0.0),
                scale: vector(1.0, 1.0, 1.0)
            },
            Instance {
                position: vector(1.0, 0.0, 0.0),
                rotation: turn(0.0, 1.0),
                scale: vector(2.0, 2.0, 2.0)
            },
        ]
    );
    assert_eq!(animations[0].timestamps, times(&[0.0, 1.0]));
}

#[test]
fn short_channels_are_padded_with_their_first_sample() {
    let clips = vec![
        translation(
            "walk",
            vec![vector(0.0, 0.0, 0.0), vector(1.0, 0.0, 0.0), vector(2.0, 0.0, 0.0)],
            &[0.0, 1.0, 2.0],
        ),
        rotation("walk", vec![turn(0.5, 0.5)], &[0.0]),
        scale("walk", vec![vector(3.0, 3.0, 3.0), vector(4.0, 4.0, 4.0)], &[0.0, 1.0]),
    ];
    let merged = try_merge(clips).unwrap();
    assert_eq!(merged.padded, vec![true]);
    let animation = &merged.animations[0];
    assert_eq!(animation.instances.len(), 3);
    let rotations: Vec<Quaternion> = animation.instances.iter().map(|i| i.rotation).collect();
    assert_eq!(rotations, vec![turn(0.5, 0.5); 3]);
    let scales: Vec<Vector3> = animation.instances.iter().map(|i| i.scale).collect();
    assert_eq!(
        scales,
        vec![vector(3.0, 3.0, 3.0), vector(4.0, 4.0, 4.0), vector(3.0, 3.0, 3.0)]
    );
    let positions: Vec<Vector3> = animation.instances.iter().map(|i| i.position).collect();
    assert_eq!(
        positions,
        vec![vector(0.0, 0.0, 0.0), vector(1.0, 0.0, 0.0), vector(2.0, 0.0, 0.0)]
    );
    assert_eq!(animation.timestamps, times(&[0.0, 1.0, 2.0]));
}

#[test]
fn even_channels_are_not_reported_as_padded() {
    let clips = vec![
        translation("walk", vec![vector(0.0, 0.0, 0.0)], &[0.0]),
        rotation("walk", vec![turn(1.0, 0.0)], &[0.0]),
        scale("walk", vec![vector(1.0, 1.0, 1.0)], &[0.0]),
    ];
    assert_eq!(try_merge(clips).unwrap().padded, vec![false]);
}

#[test]
fn a_change_of_name_starts_a_new_animation() {
    let clips = vec![
        translation("walk", vec![vector(1.0, 0.0, 0.0)], &[0.0]),
        rotation("walk", vec![turn(1.0, 0.0)], &[0.0]),
        scale("walk", vec![vector(1.0, 1.0, 1.0)], &[0.0]),
        translation("run", vec![vector(2.0, 0.0, 0.0), vector(3.0, 0.0, 0.0)], &[0.0, 0.5]),
        rotation("run", vec![turn(0.0, 1.0)], &[0.0]),
        scale("run", vec![vector(2.0, 2.0, 2.0)], &[0.0]),
    ];
    let merged = try_merge(clips).unwrap();
    assert_eq!(merged.padded, vec![false, true]);
    let animations = merged.animations;
    assert_eq!(animations.len(), 2);
    assert_eq!(animations[0].name, "walk");
    assert_eq!(animations[0].instances.len(), 1);
    assert_eq!(animations[0].instances[0].position, vector(1.0, 0.0, 0.0));
    assert_eq!(animations[0].timestamps, times(&[0.0]));
    assert_eq!(animations[1].name, "run");
    assert_eq!(animations[1].instances.len(), 2);
    assert_eq!(animations[1].instances[1].position, vector(3.0, 0.0, 0.0));
    assert_eq!(animations[1].instances[1].rotation, turn(0.0, 1.0));
    assert_eq!(animations[1].timestamps, times(&[0.0, 0.5]));
}

#[test]
fn clips_of_one_name_that_are_apart_give_two_animations() {
    let clips = vec![
        translation("walk", Vec::new(), &[]),
        translation("run", Vec::new(), &[]),
        translation("walk", Vec::new(), &[]),
    ];
    let animations = merge(clips);
    let names: Vec<&str> = animations.iter().map(|a| a.name.as_str()).collect();
    assert_eq!(names, vec!["walk", "run", "walk"]);
    assert!(animations.iter().all(|a| a.instances.is_empty()));
}

#[test]
fn samples_of_one_channel_accumulate_over_clips() {
    let clips = vec![
        translation("walk", vec![vector(1.0, 0.0, 0.0)], &[0.0]),
        translation("walk", vec![vector(2.0, 0.0, 0.0)], &[0.0, 1.0]),
        rotation("walk", vec![turn(1.0, 0.0), turn(0.0, 1.0)], &[5.0, 6.0]),
        scale("walk", vec![vector(1.0, 1.0, 1.0), vector(1.0, 1.0, 1.0)], &[]),
    ];
    let animations = merge(clips);
    assert_eq!(animations.len(), 1);
    let positions: Vec<Vector3> = animations[0].instances.iter().map(|i| i.position).collect();
    assert_eq!(positions, vec![vector(1.0, 0.0, 0.0), vector(2.0, 0.0, 0.0)]);
    // The first clip with the most timestamps provides them.
    assert_eq!(animations[0].timestamps, times(&[0.0, 1.0]));
}

#[test]
fn an_empty_clip_list_cannot_be_merged() {
    assert!(try_merge(Vec::new()).is_none());
}

#[test]
fn a_missing_channel_cannot_be_padded() {
    let clips = vec![
        translation("walk", vec![vector(1.0, 0.0, 0.0)], &[0.0]),
        rotation("walk", vec![turn(1.0, 0.0)], &[0.0]),
    ];
    assert!(try_merge(clips).is_none());
    let clips = vec![
        translation("walk", vec![vector(1.0, 0.0, 0.0)], &[0.0]),
        rotation("walk", vec![turn(1.0, 0.0)], &[0.0]),
        scale("walk", vec![vector(1.0, 1.0, 1.0)], &[0.0]),
        scale("run", vec![vector(1.0, 1.0, 1.0)], &[0.0]),
    ];
    assert!(try_merge(clips).is_none());
}
