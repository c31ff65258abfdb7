use std::time::SystemTime;

use wbdl::Date;

#[test]
pub fn date_now() {
    let now = Date::now();
    println!("{:?}", now.unwrap());
}

#[test]
pub fn mapping() {
    let pre = Some(Date::unix_epoch());
    let post = pre.map(|val| val.to_string()).map(Date::try_from).unwrap();
    assert_eq!(pre.unwrap(), post.unwrap())
}

#[test]
pub fn equals() {
    let first = Date::unix_epoch();
    let second = Date::unix_epoch();
    assert_eq!(first, second);
    assert!(!(first > second));
    assert!(!(first < second));
}

#[test]
pub fn not_equals() {
    let first = Date::unix_epoch();
    let second = Date::now().unwrap();
    assert_ne!(first, second);
    assert!(!(first > second));
    assert!(first < second);
}

#[test]
pub fn bigger() {
    let first = Date::unix_epoch();
    let second = Date::unix_epoch().add_second();
    assert_ne!(first, second);
    assert!(first < second);
    assert!(!(first > second));
}

#[test]
pub fn smaller() {
    let first = Date::unix_epoch().add_second();
    let second = Date::unix_epoch();
    assert_ne!(first, second);
    assert!(!(first < second));
    assert!(first > second);
}

#[test]
pub fn unix_epoch() {
    let first = Date::unix_epoch();
    let second = Date::try_from_system_time(SystemTime::UNIX_EPOCH).unwrap();
    assert_eq!(first, second)
}
