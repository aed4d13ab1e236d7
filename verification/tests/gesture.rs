use devil_arm::gesture::{Gestures, Pose};
use devil_arm::model::{decide, Decision, Output};
use devil_arm::pio_pwm::{PioStep, PwmPio};
use devil_arm::servo::{Servo, ServoBuilder};

fn servo() -> Servo {
    let mut servo = ServoBuilder::new(PwmPio::attach(125_000_000))
        .set_max_degree_rotation(180)
        .set_min_pulse_width(500_000)
        .set_max_pulse_width(2_500_000)
        .build()
        .unwrap();
    servo.take_steps();
    servo
}

fn hand() -> Gestures {
    Gestures::new(servo(), servo(), servo())
}

// counts of 41 per microsecond
const AT_0: u32 = 20_500;
const AT_90: u32 = 61_500;
const AT_180: u32 = 102_500;

#[test]
fn output_indices() {
    assert_eq!(Output::COUNT, 2);
    assert_eq!(Output::from_index(0), Output::Flex);
    assert_eq!(Output::from_index(1), Output::Relax);
    assert_eq!(Output::from_index(2), Output::Unknown);
    assert_eq!(Output::from_index(usize::MAX), Output::Unknown);
    assert_eq!(Output::Flex.index(), 0);
    assert_eq!(Output::Relax.index(), 1);
    assert_eq!(Output::Unknown.index(), 2);
}

#[test]
fn output_labels() {
    assert_eq!(Output::from_str("flex"), Some(Output::Flex));
    assert_eq!(Output::from_str("relax"), Some(Output::Relax));
    assert_eq!(Output::from_str("Flex"), None);
    assert_eq!(Output::from_str("unknown"), None);
    assert_eq!(Output::from_str(""), None);
    assert_eq!(Output::from_str("flex "), None);
}

#[test]
fn decide_picks_the_greatest_score() {
    assert_eq!(
        decide(&vec![10, 3]),
        Some(Decision { gesture: Output::Flex, index: 0, score: 10 })
    );
    assert_eq!(
        decide(&vec![3, 10]),
        Some(Decision { gesture: Output::Relax, index: 1, score: 10 })
    );
}

#[test]
fn decide_on_equal_scores_picks_the_last() {
    assert_eq!(decide(&vec![5, 5]), Some(Decision { gesture: Output::Relax, index: 1, score: 5 }));
    assert_eq!(
        decide(&vec![7, 2, 7, 1]),
        Some(Decision { gesture: Output::Unknown, index: 2, score: 7 })
    );
}

#[test]
fn decide_without_scores_is_none() {
    assert_eq!(decide(&vec![]), None);
}

#[test]
fn decide_maps_a_score_beyond_the_gestures_to_unknown() {
    assert_eq!(
        decide(&vec![1, 2, 3]),
        Some(Decision { gesture: Output::Unknown, index: 2, score: 3 })
    );
}

#[test]
fn decide_is_repeatable_on_probabilities() {
    let probabilities = [0.25f32, 0.75f32];
    let scores: Vec<u32> = probabilities.iter().map(|p| p.to_bits()).collect();
    let first = decide(&scores);
    let second = decide(&scores);
    assert_eq!(first, second);
    assert_eq!(first.unwrap().gesture, Output::Relax);
    assert_eq!(f32::from_bits(first.unwrap().score), 0.75);
}

#[test]
fn decide_favours_the_dominant_probability() {
    let scores: Vec<u32> = [0.999f32, 0.001f32].iter().map(|p| p.to_bits()).collect();
    assert_eq!(decide(&scores).unwrap().gesture, Output::Flex);
}

#[test]
fn start_and_stop_switch_all_three() {
    let mut hand = hand();
    hand.start();
    hand.stop();
    let (thumb, fingers, arm) = hand.take_steps();
    let expected = vec![PioStep::SetEnable(true), PioStep::SetEnable(false)];
    assert_eq!(thumb, expected);
    assert_eq!(fingers, expected);
    assert_eq!(arm, expected);
}

#[test]
fn thumbs_up_pose() {
    let mut hand = hand();
    hand.thumbs_up();
    let (thumb, fingers, arm) = hand.take_steps();
    assert_eq!(thumb, vec![PioStep::PushTx(AT_0)]);
    assert_eq!(fingers, vec![PioStep::PushTx(AT_180)]);
    assert_eq!(arm, vec![PioStep::PushTx(AT_180)]);
}

#[test]
fn pinch_pose() {
    let mut hand = hand();
    hand.pinch();
    let (thumb, fingers, arm) = hand.take_steps();
    assert_eq!(thumb, vec![PioStep::PushTx(AT_90)]);
    assert_eq!(fingers, vec![PioStep::PushTx(AT_90)]);
    assert_eq!(arm, vec![PioStep::PushTx(AT_180)]);
}

#[test]
fn strike_turns_each_servo() {
    let mut hand = hand();
    hand.strike(Pose { thumb: 180, fingers: 0, arm: 90 });
    let (thumb, fingers, arm) = hand.take_steps();
    assert_eq!(thumb, vec![PioStep::PushTx(AT_180)]);
    assert_eq!(fingers, vec![PioStep::PushTx(AT_0)]);
    assert_eq!(arm, vec![PioStep::PushTx(AT_90)]);
}

#[test]
fn apply_flex_closes_and_relax_opens() {
    let mut hand = hand();
    hand.apply(Output::Flex);
    let (thumb, fingers, arm) = hand.take_steps();
    assert_eq!(thumb, vec![PioStep::PushTx(AT_90)]);
    assert_eq!(fingers, vec![PioStep::PushTx(AT_90)]);
    assert_eq!(arm, vec![PioStep::PushTx(AT_180)]);
    hand.apply(Output::Relax);
    let (thumb, fingers, arm) = hand.take_steps();
    assert_eq!(thumb, vec![PioStep::PushTx(AT_0)]);
    assert_eq!(fingers, vec![PioStep::PushTx(AT_0)]);
    assert_eq!(arm, vec![PioStep::PushTx(AT_180)]);
}

#[test]
fn apply_unknown_holds_the_last_pose() {
    let mut hand = hand();
    hand.apply(Output::Flex);
    hand.take_steps();
    hand.apply(Output::Unknown);
    let (thumb, fingers, arm) = hand.take_steps();
    assert!(thumb.is_empty());
    assert!(fingers.is_empty());
    assert!(arm.is_empty());
}

#[test]
fn actuate_decides_and_poses() {
    let mut hand = hand();
    let decision = hand.actuate(&vec![1, 9]).unwrap();
    assert_eq!(decision.gesture, Output::Relax);
    let (thumb, _, arm) = hand.take_steps();
    assert_eq!(thumb, vec![PioStep::PushTx(AT_0)]);
    assert_eq!(arm, vec![PioStep::PushTx(AT_180)]);
    assert_eq!(hand.actuate(&vec![]), None);
    let (thumb, fingers, arm) = hand.take_steps();
    assert!(thumb.is_empty() && fingers.is_empty() && arm.is_empty());
}
