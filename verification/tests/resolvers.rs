use waremax::ids::{NodeId, RobotId};
use waremax::resolution::{
    create_deadlock_resolver, DeadlockContext, DeadlockResolution, DeadlockResolverChoice,
    WaitAndRetryResolver,
};

#[test]
fn test_wait_and_retry() {
    let resolver = WaitAndRetryResolver::new(2.5f64.to_bits());

    let ctx = DeadlockContext::new(vec![RobotId(1), RobotId(2)]);

    let resolution = resolver.resolve(&ctx);
    match resolution {
        DeadlockResolution::WaitAndRetry { duration_bits } => {
            assert_eq!(f64::from_bits(duration_bits), 2.5);
        }
        _ => panic!("Expected WaitAndRetry resolution"),
    }
}

#[test]
fn test_create_resolver() {
    assert_eq!(create_deadlock_resolver("youngest_backs_up").name(), "youngest_backs_up");
    assert_eq!(create_deadlock_resolver("lowest_priority_aborts").name(), "lowest_priority_aborts");
    assert_eq!(create_deadlock_resolver("wait_and_retry").name(), "wait_and_retry");
    assert_eq!(create_deadlock_resolver("tiered").name(), "tiered");
    assert_eq!(create_deadlock_resolver("unknown").name(), "youngest_backs_up"); // Default
}

#[test]
fn wait_and_retry_defaults_to_one_second() {
    let resolver = WaitAndRetryResolver::default();
    assert_eq!(f64::from_bits(resolver.wait_duration_bits), 1.0);
    assert_eq!(resolver.name(), "wait_and_retry");
    match create_deadlock_resolver("wait_and_retry") {
        DeadlockResolverChoice::WaitAndRetry(w) => assert_eq!(f64::from_bits(w.wait_duration_bits), 1.0),
        _ => panic!("Expected the wait-and-retry resolver"),
    }
}

#[test]
fn chosen_resolvers_decide_as_their_kind() {
    let ctx = DeadlockContext::new(vec![RobotId(1), RobotId(5), RobotId(3)])
        .with_previous(RobotId(3), Some(NodeId(12)))
        .with_priority(RobotId(1), 9)
        .with_priority(RobotId(5), 2);
    assert_eq!(
        create_deadlock_resolver("youngest_backs_up").resolve(&ctx),
        DeadlockResolution::AbortTask { robot: RobotId(5) }
    );
    assert_eq!(
        create_deadlock_resolver("lowest_priority_aborts").resolve(&ctx),
        DeadlockResolution::AbortTask { robot: RobotId(1) }
    );
    assert_eq!(
        create_deadlock_resolver("tiered").resolve(&ctx),
        DeadlockResolution::BackUp { robot: RobotId(3), to_node: NodeId(12) }
    );
    assert_eq!(
        create_deadlock_resolver("wait_and_retry").resolve(&ctx),
        DeadlockResolution::WaitAndRetry { duration_bits: 1.0f64.to_bits() }
    );
    assert_eq!(create_deadlock_resolver("Tiered").name(), "youngest_backs_up");
}
