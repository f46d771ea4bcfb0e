use lockstep::generate::{kind_of_draw, CommandKind};
use lockstep::queue_commands::QueueCommand;
use quickcheck::StdGen;
use rand::{SeedableRng, StdRng};

fn generator(seed: usize) -> StdGen<StdRng> {
    let seed = [seed, 7, 11];
    StdGen::new(StdRng::from_seed(&seed[..]), 100)
}

#[test]
fn draws_stand_for_the_three_operations() {
    assert_eq!(kind_of_draw(0), CommandKind::Get);
    assert_eq!(kind_of_draw(1), CommandKind::Push);
    assert_eq!(kind_of_draw(2), CommandKind::Reset);
}

#[test]
fn every_operation_is_generated() {
    let mut g = generator(1);
    let mut gets = 0;
    let mut pushes = 0;
    let mut resets = 0;
    for _ in 0..300 {
        match QueueCommand::<i32>::arbitrary(&mut g) {
            QueueCommand::Get => gets += 1,
            QueueCommand::Push(_) => pushes += 1,
            QueueCommand::Reset => resets += 1,
        }
    }
    assert_eq!(gets + pushes + resets, 300);
    assert!(gets > 0 && pushes > 0 && resets > 0);
}

#[test]
fn payloads_vary() {
    let mut g = generator(2);
    let mut payloads: Vec<i32> = Vec::new();
    for _ in 0..300 {
        if let QueueCommand::Push(value) = QueueCommand::<i32>::arbitrary(&mut g) {
            payloads.push(value);
        }
    }
    let first = payloads[0];
    assert!(payloads.iter().any(|value| *value != first));
}

#[test]
fn same_seed_gives_same_commands() {
    let mut one = generator(3);
    let mut two = generator(3);
    for _ in 0..50 {
        assert_eq!(
            QueueCommand::<i32>::arbitrary(&mut one),
            QueueCommand::<i32>::arbitrary(&mut two)
        );
    }
}

#[test]
fn unit_commands_are_generated() {
    let mut g = generator(4);
    let mut pushes = 0;
    for _ in 0..100 {
        if QueueCommand::<()>::arbitrary(&mut g) == QueueCommand::Push(()) {
            pushes += 1;
        }
    }
    assert!(pushes > 0 && pushes < 100);
}

#[test]
fn kind_tells_the_operation() {
    assert_eq!(QueueCommand::Push(3).kind(), CommandKind::Push);
    assert_eq!(QueueCommand::<i32>::Get.kind(), CommandKind::Get);
    assert_eq!(QueueCommand::<i32>::Reset.kind(), CommandKind::Reset);
}
