//! Newtype and enum behaviour of the registry's domain types.

use orchestra::types::{CodebaseName, ProjectName, ProjectType, TaskId};

#[test]
fn newtype_display() {
    assert_eq!(CodebaseName::from("foo").to_string(), "foo");
    assert_eq!(ProjectName::from("bar").to_string(), "bar");
    assert_eq!(TaskId::from("t-01").to_string(), "t-01");
}

#[test]
fn newtype_equality() {
    let a = CodebaseName::from("x");
    let b = CodebaseName::from(String::from("x"));
    assert_eq!(a, b);
}

#[test]
fn project_type_display() {
    assert_eq!(ProjectType::Mobile.to_string(), "mobile");
    assert_eq!(ProjectType::Ml.to_string(), "ml");
}

#[test]
fn project_type_default_is_backend() {
    assert_eq!(ProjectType::default(), ProjectType::Backend);
}
