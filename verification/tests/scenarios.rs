use lockstep::command::Command;
use lockstep::engine::{confirm_model, run, Verdict};
use lockstep::queue::Queue;
use lockstep::queue_commands::{into_steps, QueueCommand, QueueGet, QueueStep};
use lockstep::queue_property::{prop_i32, prop_unit, run_queue, QueueProperty};
use lockstep::search::{falsify, shrink_failure, Property, Shrink};

fn pushes_then_reset(count: i32) -> Vec<QueueCommand<i32>> {
    let mut commands: Vec<QueueCommand<i32>> = (1..=count).map(QueueCommand::Push).collect();
    commands.push(QueueCommand::Reset);
    commands
}

#[test]
fn two_pushes_and_a_get_pass() {
    let commands = vec![QueueCommand::Push(1), QueueCommand::Push(2), QueueCommand::Get];
    assert!(prop_i32(commands.clone()));
    match run_queue(&commands) {
        Verdict::Passed { actual, model } => {
            assert_eq!(model, 1);
            assert_eq!(actual.len(), 1);
        }
        Verdict::Failed { .. } => panic!("the run must pass"),
    }
}

#[test]
fn get_on_empty_queue_passes_and_records_nothing() {
    let commands: Vec<QueueCommand<i32>> = vec![QueueCommand::Get];
    assert!(prop_i32(commands.clone()));
    match run_queue(&commands) {
        Verdict::Passed { actual, model } => {
            assert_eq!(model, 0);
            assert_eq!(actual.len(), 0);
        }
        Verdict::Failed { .. } => panic!("the run must pass"),
    }
    let mut get = QueueGet { actual_result: Some(9) };
    let queue: Queue<i32> = Queue::new();
    assert!(get.pre(&queue, &0));
    let queue = get.actual(queue);
    assert_eq!(get.actual_result, None);
    assert_eq!(queue.len(), 0);
    assert_eq!(Command::<Queue<i32>, usize>::model(&get, 0), 0);
}

#[test]
fn get_records_the_item_taken() {
    let mut queue = Queue::new();
    queue.push(4);
    queue.push(8);
    let mut get = QueueGet { actual_result: None };
    let queue = get.actual(queue);
    assert_eq!(get.actual_result, Some(8));
    assert_eq!(queue.len(), 1);
}

#[test]
fn six_pushes_and_a_reset_fail() {
    let commands = pushes_then_reset(6);
    assert!(!prop_i32(commands.clone()));
    match run_queue(&commands) {
        Verdict::Failed { at, command, actual_old, actual_new, model_old, model_new } => {
            assert_eq!(at, 6);
            assert!(matches!(command, QueueStep::Reset(_)));
            assert_eq!(actual_old.len(), 6);
            assert_eq!(actual_new.len(), 1);
            assert_eq!(model_old, 6);
            assert_eq!(model_new, 0);
        }
        Verdict::Passed { .. } => panic!("the run must fail"),
    }
}

#[test]
fn five_pushes_and_a_reset_pass() {
    assert!(prop_i32(pushes_then_reset(5)));
}

#[test]
fn failing_run_shrinks_to_six_pushes_and_a_reset() {
    let mut commands = vec![QueueCommand::Get, QueueCommand::Push(40), QueueCommand::Reset];
    commands.extend(pushes_then_reset(9));
    commands.push(QueueCommand::Push(-3));
    commands.push(QueueCommand::Get);
    assert!(!prop_i32(commands.clone()));
    let smallest = shrink_failure(&QueueProperty {}, commands);
    let mut expected = vec![QueueCommand::Push(0); 6];
    expected.push(QueueCommand::Reset);
    assert_eq!(smallest, expected);
}

#[test]
fn minimal_failure_comes_back_unchanged() {
    let mut minimal = vec![QueueCommand::Push(0); 6];
    minimal.push(QueueCommand::Reset);
    let again = shrink_failure(&QueueProperty {}, minimal.clone());
    assert_eq!(again, minimal);
}

#[test]
fn payloads_shrink_in_place() {
    let commands = pushes_then_reset(6);
    let found = falsify(&QueueProperty {}, commands.clone()).expect("the run fails");
    assert_eq!(found.len(), commands.len());
    for (at, command) in found.iter().enumerate() {
        if at < 6 {
            assert_eq!(*command, QueueCommand::Push(0));
        } else {
            assert_eq!(*command, QueueCommand::Reset);
        }
    }
}

#[test]
fn passing_run_is_not_shrunk() {
    let commands = vec![QueueCommand::Push(5), QueueCommand::Get, QueueCommand::Reset];
    assert_eq!(falsify(&QueueProperty {}, commands), None);
}

#[test]
fn push_shrinks_its_payload_only() {
    assert_eq!(
        QueueCommand::Push(5).shrink(),
        vec![QueueCommand::Push(0), QueueCommand::Push(3), QueueCommand::Push(4)]
    );
    assert_eq!(
        QueueCommand::Push(-4).shrink(),
        vec![
            QueueCommand::Push(0),
            QueueCommand::Push(4),
            QueueCommand::Push(-2),
            QueueCommand::Push(-3)
        ]
    );
    assert_eq!(QueueCommand::Push(0).shrink(), vec![]);
    assert_eq!(QueueCommand::Push(()).shrink(), vec![]);
}

#[test]
fn get_and_reset_have_no_simpler_variant() {
    assert_eq!(QueueCommand::<i32>::Get.shrink(), vec![]);
    assert_eq!(QueueCommand::<i32>::Reset.shrink(), vec![]);
}

#[test]
fn integers_shrink_towards_zero() {
    assert_eq!(7i32.shrink(), vec![0, 4, 6]);
    assert_eq!((-1i32).shrink(), vec![0]);
    assert_eq!(0i32.shrink(), Vec::<i32>::new());
    assert_eq!(i32::MAX.shrink()[0], 0);
}

#[test]
fn unit_commands_run_too() {
    assert!(prop_unit(vec![QueueCommand::Push(()), QueueCommand::Get, QueueCommand::Get]));
    let mut commands = vec![QueueCommand::Push(()); 6];
    commands.push(QueueCommand::Reset);
    assert!(!prop_unit(commands.clone()));
    assert!(!Property::check(&QueueProperty {}, &commands));
}

#[test]
fn loop_stops_at_first_failure() {
    let mut commands = pushes_then_reset(6);
    commands.push(QueueCommand::Push(1));
    commands.push(QueueCommand::Reset);
    match run(into_steps(&commands), Queue::new(), 0usize) {
        Verdict::Failed { at, actual_new, .. } => {
            assert_eq!(at, 6);
            assert_eq!(actual_new.len(), 1);
        }
        Verdict::Passed { .. } => panic!("the run must fail"),
    }
}

#[test]
fn run_starts_from_the_given_states() {
    let mut queue = Queue::new();
    queue.push(1);
    let commands = vec![QueueCommand::Push(2)];
    assert!(confirm_model(into_steps(&commands), queue.clone(), 1usize));
    assert!(!confirm_model(into_steps(&commands), queue, 0usize));
}

#[test]
fn final_count_is_the_count_of_the_commands() {
    let commands = vec![
        QueueCommand::Get,
        QueueCommand::Push(3),
        QueueCommand::Push(4),
        QueueCommand::Get,
        QueueCommand::Push(5),
        QueueCommand::Push(6),
        QueueCommand::Reset,
        QueueCommand::Push(7),
    ];
    match run_queue(&commands) {
        Verdict::Passed { actual, model } => {
            assert_eq!(model, 1);
            assert_eq!(actual.len(), 1);
        }
        Verdict::Failed { .. } => panic!("the run must pass"),
    }
}

#[test]
fn second_reset_changes_nothing_only_on_short_queues() {
    let mut short: Queue<i32> = Queue::new();
    for value in 0..5 {
        short.push(value);
    }
    short.reset();
    let once = short.len();
    short.reset();
    assert_eq!(short.len(), once);

    let mut long: Queue<i32> = Queue::new();
    for value in 0..6 {
        long.push(value);
    }
    long.reset();
    let once = long.len();
    long.reset();
    assert_eq!(once, 1);
    assert_eq!(long.len(), 0);
}

#[test]
fn search_result_is_stable() {
    let mut commands = pushes_then_reset(12);
    commands.insert(3, QueueCommand::Get);
    let first = shrink_failure(&QueueProperty {}, commands);
    let second = shrink_failure(&QueueProperty {}, first.clone());
    assert_eq!(first, second);
    assert!(!prop_i32(first));
}

#[test]
fn commands_become_steps_in_order() {
    let commands = vec![QueueCommand::Push(9), QueueCommand::Get, QueueCommand::Reset];
    let ready = into_steps(&commands);
    assert_eq!(ready.len(), 3);
    assert!(matches!(ready[0], QueueStep::Push(push) if push.input_value == 9));
    assert!(matches!(ready[1], QueueStep::Get(get) if get.actual_result.is_none()));
    assert!(matches!(ready[2], QueueStep::Reset(_)));
    assert!(matches!(QueueCommand::Push(2).into(), QueueStep::Push(push) if push.input_value == 2));
}
