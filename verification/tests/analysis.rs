use waremax::analysis::{
    most_common_phase, count_by_class, generate_recommendations, truncate_str, AnomalyKind, BottleneckClass, BottleneckKind, DelayCategory, OrderPhase, RCAReporter, Recommendation, ReportFormat,
};

#[test]
fn test_delay_category_properties() {
    assert!(DelayCategory::RobotAssignment.is_waste());
    assert!(DelayCategory::CongestionWait.is_waste());
    assert!(!DelayCategory::TravelToPickup.is_waste());
    assert!(!DelayCategory::StationService.is_waste());
}

#[test]
fn test_format_parsing() {
    assert_eq!(ReportFormat::from_str("text"), Some(ReportFormat::Text));
    assert_eq!(ReportFormat::from_str("JSON"), Some(ReportFormat::Json));
    assert_eq!(ReportFormat::from_str("compact"), Some(ReportFormat::Compact));
    assert_eq!(ReportFormat::from_str("invalid"), None);
}

#[test]
fn format_aliases_and_case() {
    assert_eq!(ReportFormat::from_str("TxT"), Some(ReportFormat::Text));
    assert_eq!(ReportFormat::from_str("Summary"), Some(ReportFormat::Compact));
    assert_eq!(ReportFormat::from_str(""), None);
    assert_eq!(ReportFormat::from_str("texts"), None);
    assert_eq!(ReportFormat::default(), ReportFormat::Text);
}

#[test]
fn categories_names_and_phases() {
    let all = DelayCategory::all();
    assert_eq!(all.len(), 9);
    assert_eq!(all[0], DelayCategory::RobotAssignment);
    assert_eq!(all[8], DelayCategory::FailureRecovery);
    assert_eq!(DelayCategory::StationQueue.name(), "Station Queue Wait");
    assert_eq!(OrderPhase::from_delay_category(&DelayCategory::CongestionWait), OrderPhase::TravelToStation);
    assert_eq!(OrderPhase::from_delay_category(&DelayCategory::FailureRecovery), OrderPhase::Detour);
    assert_eq!(OrderPhase::QueueWait.name(), "Queue Wait");
    assert_eq!(OrderPhase::all().len(), 6);
    let waste: Vec<_> = all.iter().filter(|c| c.is_waste()).collect();
    assert_eq!(waste.len(), 6);
}

#[test]
fn reporter_settings() {
    let r = RCAReporter::new();
    assert_eq!(r.format(), ReportFormat::Text);
    assert!(r.include_recommendations());
    assert!(r.include_anomalies());
    assert_eq!(r.max_bottlenecks(), 10);
    assert_eq!(r.max_anomalies(), 10);
    let r = r
        .with_format(ReportFormat::Json)
        .with_recommendations(false)
        .with_anomalies(false)
        .with_max_bottlenecks(3)
        .with_max_anomalies(4);
    assert_eq!(r.format(), ReportFormat::Json);
    assert!(!r.include_recommendations());
    assert!(!r.include_anomalies());
    assert_eq!(r.max_bottlenecks(), 3);
    assert_eq!(r.max_anomalies(), 4);
}

#[test]
fn report_header_and_footer() {
    let r = RCAReporter::default();
    let rule = "=".repeat(70);
    assert_eq!(
        r.text_header(),
        format!("\n{}\n                     ROOT CAUSE ANALYSIS REPORT\n{}\n\n", rule, rule)
    );
    assert_eq!(r.text_footer(), format!("\n{}\n                         END OF REPORT\n{}\n", rule, rule));
}

#[test]
fn report_recommendations() {
    let r = RCAReporter::new();
    let recs = vec![Recommendation {
        priority: 1,
        category: "Traffic".to_string(),
        text: "Add alternate routes".to_string(),
        expected_impact: "Reduce congestion by 20%".to_string(),
    }];
    let expected = format!(
        "RECOMMENDATIONS\n{}\n\n  [Priority 1] Traffic\n    Action: Add alternate routes\n    Impact: Reduce congestion by 20%\n\n",
        "-".repeat(70)
    );
    assert_eq!(r.text_recommendations(&recs), expected);
}

#[test]
fn truncation() {
    assert_eq!(truncate_str("Travel to Pickup", 20), "Travel to Pickup");
    assert_eq!(truncate_str("Robot Assignment Wait", 20), "Robot Assignment ...");
    assert_eq!(truncate_str("abcdef", 6), "abcdef");
    assert_eq!(truncate_str("abcdefg", 6), "abc...");
}

#[test]
fn recommendations_take_three_bottlenecks_then_waste_then_slow_orders() {
    let bottlenecks = vec![
        (BottleneckKind::CongestedNode, "Reroute around node 4".to_string()),
        (BottleneckKind::OverloadedStation, "Add a picker".to_string()),
        (BottleneckKind::InsufficientRobots, "Add 2 robots".to_string()),
        (BottleneckKind::ChargingContention, "Add chargers".to_string()),
    ];
    let ranked = vec![
        DelayCategory::TravelToPickup,
        DelayCategory::StationQueue,
        DelayCategory::CongestionWait,
    ];
    let recs = generate_recommendations(&bottlenecks, &ranked, true, 3, true, OrderPhase::QueueWait);
    assert_eq!(recs.len(), 5);
    let priorities: Vec<u32> = recs.iter().map(|r| r.priority).collect();
    assert_eq!(priorities, vec![1, 2, 3, 4, 5]);
    assert_eq!(recs[0].category, "Traffic Flow");
    assert_eq!(recs[0].text, "Reroute around node 4");
    assert_eq!(recs[0].expected_impact, "Reduce congestion delays by 20-40%");
    assert_eq!(recs[1].category, "Station Capacity");
    assert_eq!(recs[2].category, "Fleet Sizing");
    assert_eq!(recs[2].expected_impact, "Improve throughput by 20-40%");
    assert_eq!(recs[3].category, "Waste Reduction");
    assert_eq!(recs[3].text, "Add parallel capacity at busy stations or improve load balancing");
    assert_eq!(recs[3].expected_impact, "Reduce waste time by 20-30%");
    assert_eq!(recs[4].category, "Order Fulfillment");
    assert_eq!(recs[4].text, "Investigate slow orders. Most impacted phase: Queue Wait");
    assert_eq!(recs[4].expected_impact, "Improve cycle time consistency by 15-25%");
}

#[test]
fn recommendations_skip_what_is_not_called_for() {
    let none: Vec<(BottleneckKind, String)> = Vec::new();
    // Waste is high but no category is waste; slow share high but no slow order.
    let recs = generate_recommendations(&none, &[DelayCategory::StationService], true, 0, true, OrderPhase::Service);
    assert!(recs.is_empty());
    // Waste is low: nothing against waste even with waste categories.
    let recs = generate_recommendations(&none, &[DelayCategory::RobotAssignment], false, 2, true, OrderPhase::Detour);
    assert_eq!(recs.len(), 1);
    assert_eq!(recs[0].priority, 1);
    assert_eq!(recs[0].text, "Investigate slow orders. Most impacted phase: Detour");
    let one = vec![(BottleneckKind::UnderutilizedRobots, "Fewer robots".to_string())];
    let recs = generate_recommendations(&one, &[DelayCategory::FailureRecovery], true, 2, false, OrderPhase::Detour);
    assert_eq!(recs.len(), 2);
    assert_eq!(recs[0].category, "Fleet Optimization");
    assert_eq!(recs[1].priority, 2);
    assert_eq!(recs[1].text, "Review and optimize operational processes");
}

#[test]
fn bottleneck_and_anomaly_kinds() {
    assert_eq!(BottleneckKind::CongestedEdge.name(), "Congested Edge");
    assert_eq!(BottleneckKind::InsufficientRobots.name(), "Insufficient Robots");
    assert_eq!(BottleneckKind::ChargingContention.class(), BottleneckClass::Station);
    assert_eq!(AnomalyKind::ThroughputDrop.name(), "Throughput Drop");
    assert_eq!(AnomalyKind::SlowOrder.name(), "Slow Order");
    let kinds = [
        BottleneckKind::CongestedNode,
        BottleneckKind::OverloadedStation,
        BottleneckKind::CongestedEdge,
        BottleneckKind::UnderutilizedRobots,
        BottleneckKind::ChargingContention,
        BottleneckKind::UnderutilizedStation,
    ];
    assert_eq!(count_by_class(&kinds), (2, 3, 1));
    assert_eq!(count_by_class(&[]), (0, 0, 0));
}

#[test]
fn assembled_report_keeps_sections_in_order() {
    let reporter = RCAReporter::new();
    let recs = vec![Recommendation {
        priority: 1,
        category: "Fleet Sizing".to_string(),
        text: "Add robots".to_string(),
        expected_impact: "More throughput".to_string(),
    }];
    let text = reporter.assemble_text("S|", "D|", "B|", "C|", "A|", 2, &recs);
    let expected = format!(
        "{}S|D|B|C|A|{}{}",
        reporter.text_header(),
        reporter.text_recommendations(&recs),
        reporter.text_footer()
    );
    assert_eq!(text, expected);
    // No anomaly: the anomalies section is left out; so are empty recommendations.
    let text = reporter.assemble_text("S|", "D|", "B|", "C|", "A|", 0, &[]);
    assert_eq!(text, format!("{}S|D|B|C|{}", reporter.text_header(), reporter.text_footer()));
    // Switched off: neither section appears.
    let quiet = RCAReporter::new().with_anomalies(false).with_recommendations(false);
    let text = quiet.assemble_text("S|", "D|", "B|", "C|", "A|", 3, &recs);
    assert_eq!(text, format!("{}S|D|B|C|{}", quiet.text_header(), quiet.text_footer()));
}

#[test]
fn most_common_phase_breaks_ties_by_execution_order() {
    assert_eq!(most_common_phase(&[]), OrderPhase::Assignment);
    let phases = [
        OrderPhase::Service,
        OrderPhase::QueueWait,
        OrderPhase::Service,
        OrderPhase::QueueWait,
        OrderPhase::Detour,
    ];
    assert_eq!(most_common_phase(&phases), OrderPhase::QueueWait);
    assert_eq!(most_common_phase(&phases[..3]), OrderPhase::Service);
    assert_eq!(most_common_phase(&[OrderPhase::Detour]), OrderPhase::Detour);
}
