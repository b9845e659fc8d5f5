use kaos::flunk::{arm, disarm, flunk_message};

#[test]
fn kaostest() {
    let scenario = fail::FailScenario::setup();
    arm("potato").unwrap();
    println!("potato");
    scenario.teardown();
}

#[test]
fn armed_point_is_listed_with_its_action() {
    let scenario = fail::FailScenario::setup();
    arm("carrot").unwrap();
    assert!(fail::list().contains(&("carrot".to_string(), "panic".to_string())));
    disarm("carrot").unwrap();
    assert!(fail::list().contains(&("carrot".to_string(), "off".to_string())));
    scenario.teardown();
    assert!(fail::list().is_empty());
}

#[test]
fn flunk_message_names_the_point() {
    assert_eq!(flunk_message("fail-when-three-elems"), "KAOS: Flunking at \"fail-when-three-elems\"");
}

#[test]
fn arming_succeeds_for_every_name() {
    let scenario = fail::FailScenario::setup();
    assert_eq!(arm(""), Ok(()));
    assert_eq!(arm("a point with spaces -> and (marks) 50%"), Ok(()));
    assert_eq!(disarm("never-armed"), Ok(()));
    assert_eq!(disarm(""), Ok(()));
    assert!(fail::list().contains(&("".to_string(), "off".to_string())));
    scenario.teardown();
}
