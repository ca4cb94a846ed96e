use tileworld::errors::SimError;
use tileworld::schedule::Schedule;
use tileworld::schedule::SystemId;
use tileworld::schedule::conflicts_at;

#[test]
fn the_standard_schedule_is_five_singleton_stages() {
    let s = Schedule::standard();
    assert_eq!(
        s.stages,
        vec![
            vec![SystemId::InputCapture],
            vec![SystemId::CommandApply],
            vec![SystemId::Motion],
            vec![SystemId::ViewFollow],
            vec![SystemId::Render],
        ]
    );
}

#[test]
fn two_position_writers_conflict() {
    assert!(conflicts_at(SystemId::Motion, SystemId::ViewFollow));
}

#[test]
fn a_writer_conflicts_with_a_reader() {
    // motion writes positions, render reads them
    assert!(conflicts_at(SystemId::Motion, SystemId::Render));
    // command apply writes the velocity motion reads
    assert!(conflicts_at(SystemId::CommandApply, SystemId::Motion));
}

#[test]
fn command_buffer_access_conflicts() {
    assert!(conflicts_at(SystemId::InputCapture, SystemId::CommandApply));
}

#[test]
fn disjoint_systems_share_a_stage() {
    // input capture touches only the command buffer; motion does not
    assert!(!conflicts_at(SystemId::InputCapture, SystemId::Motion));
    let s = Schedule::new(vec![
        vec![SystemId::InputCapture, SystemId::Motion],
        vec![SystemId::Render],
    ]);
    assert!(s.is_ok());
}

#[test]
fn a_conflicting_stage_is_refused() {
    let s = Schedule::new(vec![vec![SystemId::Motion, SystemId::ViewFollow]]);
    assert_eq!(s.err(), Some(SimError::ConflictingStage));
}
