use rabbitagent::rotation::{rotation_step, RotationAction, RotationEvent, RotationPhase, RotationState};

fn run(events: Vec<RotationEvent>) -> (RotationState, Vec<RotationAction>) {
    let (mut state, first) = RotationState::start();
    let mut actions = vec![first];
    for e in events {
        let (s, a) = rotation_step(state, e);
        state = s;
        actions.push(a);
    }
    (state, actions)
}

#[test]
fn due_keys_are_generated_then_archived() {
    let (state, actions) = run(vec![
        RotationEvent::Listed(vec![7, 8]),
        RotationEvent::Due(true),
        RotationEvent::Generated,
        RotationEvent::Archived,
        RotationEvent::Due(false),
    ]);
    assert_eq!(
        actions,
        vec![
            RotationAction::ListKeys,
            RotationAction::AskPolicy(7),
            RotationAction::Generate(7),
            RotationAction::Archive(7),
            RotationAction::AskPolicy(8),
            RotationAction::Finish,
        ]
    );
    assert_eq!(state.rotated, vec![7]);
    assert_eq!(state.phase, RotationPhase::Done);
}

#[test]
fn no_keys_finishes_at_once() {
    let (state, actions) = run(vec![RotationEvent::Listed(vec![])]);
    assert_eq!(actions, vec![RotationAction::ListKeys, RotationAction::Finish]);
    assert!(state.rotated.is_empty());
}

#[test]
fn a_failed_generation_aborts_before_archiving() {
    let (state, actions) = run(vec![
        RotationEvent::Listed(vec![1]),
        RotationEvent::Due(true),
        RotationEvent::Failed,
        RotationEvent::Archived,
    ]);
    assert_eq!(actions[3], RotationAction::Abort);
    assert_eq!(actions[4], RotationAction::Abort);
    assert_eq!(state.phase, RotationPhase::Aborted);
    assert!(state.rotated.is_empty());
}

#[test]
fn an_archive_report_out_of_turn_aborts() {
    let (_, actions) = run(vec![RotationEvent::Listed(vec![1]), RotationEvent::Archived]);
    assert_eq!(actions[2], RotationAction::Abort);
}
