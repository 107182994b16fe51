use motion_desk::protocol::{CMD_STOP, CMD_WAKEUP};
use motion_desk::motion::{move_prelude, relative_target, MoveStep, Mover, MOVE_MAX_TICKS, STEP_HEIGHT};
use motion_desk::position::Height;

#[test]
fn mover_targets_clamped_height() {
    assert_eq!(Mover::new(11000).target(), 4700);
    assert_eq!(Mover::new(20000).target(), 6500);
    assert_eq!(Mover::new(0).target(), 0);
}

#[test]
fn first_reading_never_finishes() {
    let mut m = Mover::new(11000);
    // The first reading may come before the desk accelerates.
    assert_eq!(m.on_position(0), MoveStep::WriteTarget(4700));
    assert!(!m.is_done());
}

#[test]
fn still_desk_finishes_after_second_write() {
    let mut m = Mover::new(11000);
    assert_eq!(m.on_position(0), MoveStep::WriteTarget(4700));
    assert_eq!(m.on_position(0), MoveStep::Finish(CMD_STOP));
    assert!(m.is_done());
    assert_eq!(m.on_position(100), MoveStep::Finish(CMD_STOP));
}

#[test]
fn moving_desk_keeps_writing() {
    let mut m = Mover::new(9000);
    for _ in 0..10 {
        assert_eq!(m.on_position(50), MoveStep::WriteTarget(2700));
    }
    assert_eq!(m.on_position(0), MoveStep::Finish(CMD_STOP));
}

#[test]
fn move_is_bounded() {
    let mut m = Mover::new(12000);
    let mut writes = 1u32;
    loop {
        match m.on_position(-30) {
            MoveStep::WriteTarget(t) => {
                assert_eq!(t, 5700);
                writes += 1;
            }
            MoveStep::Finish(c) => {
                assert_eq!(c, CMD_STOP);
                break;
            }
        }
    }
    assert_eq!(writes, MOVE_MAX_TICKS);
}

#[test]
fn relative_targets() {
    let h = Height { raw: 1500, speed: 0 };
    assert_eq!(relative_target(&h, STEP_HEIGHT), 8000);
    assert_eq!(relative_target(&h, -STEP_HEIGHT), 7600);
}

#[test]
fn move_starts_with_wake_up_and_stop() {
    assert_eq!(move_prelude(), [CMD_WAKEUP, CMD_STOP]);
}
