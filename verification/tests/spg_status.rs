use fluvio_control::spg_status::{SpuGroupStatus, SpuGroupStatusResolution};

#[test]
fn test_spugroup_status_default_is_init() {
    let status = SpuGroupStatus::default();
    assert_eq!(status.resolution, SpuGroupStatusResolution::Init);
    assert_eq!(status.reason, None);
}

#[test]
fn test_spugroup_status_invalid_has_reason() {
    let status = SpuGroupStatus::invalid("conflict with id 5".to_string());
    assert_eq!(status.resolution, SpuGroupStatusResolution::Invalid);
    assert_eq!(status.reason, Some("conflict with id 5".to_string()));
}

#[test]
fn status_test_spugroup_status_reserved() {
    let status = SpuGroupStatus::reserved();
    assert_eq!(status.resolution, SpuGroupStatusResolution::Reserved);
    assert_eq!(status.reason, None);
}

#[test]
fn test_is_already_valid_returns_true_for_reserved() {
    assert!(SpuGroupStatus::reserved().is_already_valid());
}

#[test]
fn test_is_already_valid_returns_false_for_init() {
    assert!(!SpuGroupStatus::default().is_already_valid());
}

#[test]
fn test_is_already_valid_returns_false_for_invalid() {
    assert!(!SpuGroupStatus::invalid("x".to_string()).is_already_valid());
}

#[test]
fn resolutions_have_their_names() {
    assert_eq!(SpuGroupStatusResolution::Init.text(), "Init");
    assert_eq!(SpuGroupStatusResolution::Invalid.text(), "Invalid");
    assert_eq!(SpuGroupStatusResolution::Reserved.text(), "Reserved");
    assert_eq!(SpuGroupStatus::invalid("x".to_string()).text(), "Invalid");
    assert_eq!(SpuGroupStatusResolution::default(), SpuGroupStatusResolution::Init);
}
