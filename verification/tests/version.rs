use chuni_dump::proto::{Command, Version};
use chuni_dump::recruit::Group;

#[test]
fn version_unpacks_major_minor_patch() {
    assert_eq!(Version::from_packed(1002003), Version { major: 1, minor: 2, patch: 3 });
}

#[test]
fn version_zero_is_all_zero() {
    assert_eq!(Version::from_packed(0), Version { major: 0, minor: 0, patch: 0 });
}

#[test]
fn version_accepts_every_integer() {
    assert_eq!(
        Version::from_packed(u32::MAX),
        Version { major: 4294, minor: 967, patch: 295 }
    );
    assert_eq!(Version::from_packed(999_999), Version { major: 0, minor: 999, patch: 999 });
}

#[test]
fn version_text_pads_minor_and_patch() {
    assert_eq!(Version { major: 1, minor: 2, patch: 3 }.to_text(), "1.02.03");
    assert_eq!(Version { major: 0, minor: 0, patch: 0 }.to_text(), "0.00.00");
    assert_eq!(Version { major: 12, minor: 34, patch: 567 }.to_text(), "12.34.567");
    assert_eq!(Version { major: 65535, minor: 10, patch: 9 }.to_text(), "65535.10.09");
}

#[test]
fn command_from_known_and_unknown_identifiers() {
    assert_eq!(Command::from(11), Command::Recruit);
    assert_eq!(Command::from(12), Command::RecruitEnd);
    assert_eq!(Command::from(999), Command::Unknown(999));
    assert_eq!(Command::from(0), Command::Unknown(0));
}

#[test]
fn command_code_gives_the_identifier_back() {
    for v in [0u32, 10, 11, 12, 13, 999, u32::MAX] {
        assert_eq!(Command::from(v).code(), v);
    }
}

#[test]
fn group_from_known_and_unknown_values() {
    assert_eq!(Group::from(1), Group::A);
    assert_eq!(Group::from(2), Group::B);
    assert_eq!(Group::from(3), Group::C);
    assert_eq!(Group::from(4), Group::D);
    assert_eq!(Group::from(0), Group::Unknown(0));
    assert_eq!(Group::from(5), Group::Unknown(5));
}

#[test]
fn group_code_gives_the_value_back() {
    for v in [0u32, 1, 2, 3, 4, 5, 77, u32::MAX] {
        assert_eq!(Group::from(v).code(), v);
    }
}
