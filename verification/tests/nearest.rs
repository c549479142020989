use waremax::entities::StationType;
use waremax::ids::{RobotId, StationId};
use waremax::policies::{AuctionPolicy, NearestRobotPolicy, NearestStationPolicy, WorkloadBalancedPolicy};

/// The order key of a non-negative distance.
fn key(d: f64) -> u64 {
    d.to_bits()
}

#[test]
fn test_nearest_station_selects_closest() {
    // Task at x=0; stations at x=10, x=5 and x=20.
    let stations = [
        (StationId(0), StationType::Pick, true, key(10.0)),
        (StationId(1), StationType::Pick, true, key(5.0)),
        (StationId(2), StationType::Pick, true, key(20.0)),
    ];
    let policy = NearestStationPolicy::default();

    // Should select station 1 at node 2 (x=5), closest to task at x=0
    assert_eq!(policy.assign(&stations), Some(StationId(1)));
}

#[test]
fn nearest_station_skips_full_and_other_types() {
    let stations = [
        (StationId(0), StationType::Drop, true, key(1.0)),
        (StationId(1), StationType::Pick, false, key(2.0)),
        (StationId(2), StationType::Pick, true, key(7.5)),
        (StationId(3), StationType::Pick, true, key(7.5)),
    ];
    assert_eq!(NearestStationPolicy::for_pick().assign(&stations), Some(StationId(2)));
    assert_eq!(NearestStationPolicy::new(StationType::Inbound).assign(&stations), None);
}

#[test]
fn nearest_robot_takes_first_of_the_closest() {
    let policy = NearestRobotPolicy::new();
    assert_eq!(policy.allocate(&[]), None);
    let candidates = [(RobotId(3), key(4.0)), (RobotId(1), key(2.5)), (RobotId(2), key(2.5))];
    assert_eq!(policy.allocate(&candidates), Some(RobotId(1)));
}

#[test]
fn auction_and_workload_pick_lowest_key() {
    let auction = AuctionPolicy::default();
    assert_eq!(auction.name(), "auction");
    assert_eq!(f64::from_bits(auction.travel_weight_bits()), 1.0);
    assert_eq!(f64::from_bits(auction.queue_weight_bits()), 0.5);
    // Bids: distance * 1.0 + queue * 0.5 * 100.
    let bids = [(RobotId(0), key(10.0 + 2.0 * 50.0)), (RobotId(1), key(30.0)), (RobotId(2), key(30.0 + 0.0))];
    assert_eq!(auction.allocate(&bids), Some(RobotId(1)));
    let custom = AuctionPolicy::new(2f64.to_bits(), 0f64.to_bits());
    assert_eq!(f64::from_bits(custom.travel_weight_bits()), 2.0);
    let workload = WorkloadBalancedPolicy::default();
    assert_eq!(workload.allocate(&[(RobotId(5), key(1.0)), (RobotId(6), key(0.5))]), Some(RobotId(6)));
    assert_eq!(workload.allocate(&[]), None);
}
