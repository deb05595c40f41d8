use vk_compute_bench::actions::{Action, Fill, Location, Outcome, RunError};
use vk_compute_bench::host::{Direction, HostRun, REPEATS};

fn drive(run: &mut HostRun) -> Vec<Action> {
    let mut trace = Vec::new();
    while !run.is_finished() {
        trace.push(run.action());
        assert_eq!(run.advance(Outcome::Done), Ok(()));
    }
    trace
}

#[test]
fn writes_follow_their_script() {
    let mut expected = vec![
        Action::CreateBuffer { slot: 0, size: 400 },
        Action::AllocateMemory { slot: 0, location: Location::CpuToGpu },
        Action::BindMemory { slot: 0 },
        Action::Generate { slot: 0, fill: Fill::Ramp { count: 100 } },
        Action::StartClock,
    ];
    for _ in 0..10 {
        expected.push(Action::Upload { slot: 0, floats: 100 });
    }
    expected.push(Action::StopClock);
    expected.push(Action::DestroyBuffer { slot: 0 });
    expected.push(Action::FreeMemory { slot: 0 });
    let mut run = HostRun::new(Direction::Write, 100);
    assert_eq!(drive(&mut run), expected);
    assert_eq!(run.action(), Action::Finished);
}

#[test]
fn reads_follow_their_script() {
    let mut expected = vec![
        Action::CreateBuffer { slot: 0, size: 400 },
        Action::AllocateMemory { slot: 0, location: Location::GpuToCpu },
        Action::BindMemory { slot: 0 },
        Action::Generate { slot: 0, fill: Fill::Ramp { count: 100 } },
        Action::Upload { slot: 0, floats: 100 },
        Action::StartClock,
    ];
    for _ in 0..10 {
        expected.push(Action::Download { slot: 0, floats: 100 });
    }
    expected.push(Action::StopClock);
    expected.push(Action::DestroyBuffer { slot: 0 });
    expected.push(Action::FreeMemory { slot: 0 });
    let mut run = HostRun::new(Direction::Read, 100);
    assert_eq!(drive(&mut run), expected);
}

#[test]
fn ten_copies_are_measured() {
    for direction in [Direction::Write, Direction::Read] {
        let trace = drive(&mut HostRun::new(direction, 8));
        let start = trace.iter().position(|a| *a == Action::StartClock).unwrap();
        let stop = trace.iter().position(|a| *a == Action::StopClock).unwrap();
        assert_eq!(stop - start - 1, REPEATS);
    }
}

#[test]
fn no_memory_ends_the_copies() {
    let mut run = HostRun::new(Direction::Write, 8);
    assert_eq!(run.advance(Outcome::NoMemory), Err(RunError::OutOfTurn));
    assert_eq!(run.advance(Outcome::Done), Ok(()));
    let before = run;
    assert_eq!(run.advance(Outcome::NoMemory), Err(RunError::OutOfMemory));
    assert_eq!(run, before);
}

#[test]
fn copies_refuse_outcomes_out_of_turn() {
    let mut run = HostRun::new(Direction::Read, 8);
    let stamps = Outcome::Timestamps { start: 1, stop: 2 };
    assert_eq!(run.advance(stamps), Err(RunError::OutOfTurn));
    drive(&mut run);
    assert_eq!(run.advance(Outcome::Done), Err(RunError::OutOfTurn));
    assert_eq!(run.advance(Outcome::NoMemory), Err(RunError::OutOfTurn));
}
