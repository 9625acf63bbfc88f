use hw_inventory::error::PlatformError;
use hw_inventory::platform::check_platform;

#[test]
fn linux_is_supported() {
    assert_eq!(check_platform("linux"), Ok(()));
}

#[test]
fn other_systems_are_not_supported() {
    let expected = PlatformError::Unsupported("This application only supports Linux".to_string());
    assert_eq!(check_platform("windows"), Err(expected.clone()));
    assert_eq!(check_platform("macos"), Err(expected.clone()));
    assert_eq!(check_platform(""), Err(expected.clone()));
    assert_eq!(check_platform("Linux"), Err(expected));
}
