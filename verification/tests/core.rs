use rand::{Rng, SeedableRng};
use waremax::error::SimError;
use waremax::ids::{IdGenerator, RobotId, TaskId};
use waremax::rng::SimRng;
use waremax::text::decimal_string;

#[test]
fn test_id_generation() {
    let mut gen = IdGenerator::<RobotId>::new();
    assert_eq!(gen.next(), RobotId(0));
    assert_eq!(gen.next(), RobotId(1));
    assert_eq!(gen.next(), RobotId(2));
}

#[test]
fn test_id_equality() {
    let id1 = RobotId(42);
    let id2 = RobotId(42);
    let id3 = RobotId(43);
    assert_eq!(id1, id2);
    assert_ne!(id1, id3);
}

#[test]
fn generator_starting_from_and_peek() {
    let mut gen = IdGenerator::<TaskId>::starting_from(7);
    assert_eq!(gen.peek(), 7);
    assert_eq!(gen.next(), TaskId(7));
    assert_eq!(gen.peek(), 8);
    let copy = gen.clone();
    assert_eq!(copy.peek(), 8);
    assert_eq!(IdGenerator::<TaskId>::default().peek(), 0);
}

#[test]
fn id_new_and_as_u32() {
    assert_eq!(RobotId::new(5), RobotId(5));
    assert_eq!(RobotId(9).as_u32(), 9);
}

#[test]
fn not_found_messages() {
    assert_eq!(SimError::robot_not_found(3).message(), "Entity not found: Robot with id 3");
    assert_eq!(SimError::node_not_found(12).message(), "Entity not found: Node with id 12");
    assert_eq!(SimError::edge_not_found(0).message(), "Entity not found: Edge with id 0");
    assert_eq!(SimError::station_not_found(4).message(), "Entity not found: Station with id 4");
    assert_eq!(SimError::task_not_found(5).message(), "Entity not found: Task with id 5");
    assert_eq!(SimError::order_not_found(6).message(), "Entity not found: Order with id 6");
    assert_eq!(SimError::sku_not_found(4294967295).message(), "Entity not found: SKU with id 4294967295");
}

#[test]
fn other_error_messages() {
    assert_eq!(SimError::Config("bad".to_string()).message(), "Configuration error: bad");
    assert_eq!(SimError::NoPath { from: 1, to: 20 }.message(), "Routing error: no path from 1 to 20");
    assert_eq!(SimError::CapacityExceeded("x".to_string()).message(), "Capacity exceeded: x");
    let io = SimError::Io(std::io::Error::new(std::io::ErrorKind::Other, "disk"));
    assert_eq!(io.message(), "IO error: disk");
}

#[test]
fn decimal_formatting() {
    assert_eq!(decimal_string(0), "0");
    assert_eq!(decimal_string(10), "10");
    assert_eq!(decimal_string(1234567890), "1234567890");
    assert_eq!(decimal_string(u64::MAX), "18446744073709551615");
}

#[test]
fn rng_is_deterministic_and_in_range() {
    let mut a = SimRng::new(42);
    let mut b = SimRng::new(42);
    for _ in 0..100 {
        let x = a.gen_range(3..17);
        assert!(x >= 3 && x < 17);
        assert_eq!(x, b.gen_range(3..17));
    }
}

#[test]
fn rng_choose_and_shuffle() {
    let mut rng = SimRng::new(7);
    let empty: [u32; 0] = [];
    assert!(rng.choose_element(&empty).is_none());
    let items = [10u32, 20, 30];
    let picked = *rng.choose_element(&items).unwrap();
    assert!(items.contains(&picked));
    let mut v = vec![1u32, 2, 3, 4, 5, 6];
    rng.shuffle(&mut v);
    let mut sorted = v.clone();
    sorted.sort();
    assert_eq!(sorted, vec![1, 2, 3, 4, 5, 6]);
}

#[test]
fn test_determinism() {
    let mut rng1 = SimRng::new(42);
    let mut rng2 = SimRng::new(42);

    for _ in 0..100 {
        assert_eq!(rng1.rng.gen::<f64>(), rng2.rng.gen::<f64>());
    }
}

#[test]
fn generator_counts_up_over_many_calls() {
    let mut gen = IdGenerator::<TaskId>::starting_from(40);
    for k in 0..25u32 {
        assert_eq!(gen.peek(), 40 + k);
        assert_eq!(gen.peek(), 40 + k);
        assert_eq!(gen.next(), TaskId(40 + k));
    }
    assert_eq!(gen.peek(), 65);
}

#[test]
fn rng_holds_the_generator_seeded_from_its_seed() {

    let expected = rand_chacha::ChaCha8Rng::seed_from_u64(5);
    assert!(SimRng::new(5).rng == expected);
    assert!(SimRng::new(5).rng == SimRng::new(5).rng);
    assert!(SimRng::new(6).rng != expected);
}
