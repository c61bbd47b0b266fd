use safe_cargo::policy::{Action, Filter, Operation, Profile, Rule};

#[test]
fn serialize_each_filter_kind() {
    assert_eq!(Filter::Literal("/ws/Cargo.lock".to_string()).text(), "literal \"/ws/Cargo.lock\"");
    assert_eq!(Filter::Prefix("/usr/lib/".to_string()).text(), "prefix \"/usr/lib/\"");
    assert_eq!(Filter::Regex("/Cargo\\.(toml|lock)$".to_string()).text(), "regex #\"/Cargo\\.(toml|lock)$\"");
    assert_eq!(Filter::RemoteIp("*:443".to_string()).text(), "remote ip \"*:443\"");
    assert_eq!(
        Filter::RemoteUnixSocket("/var/run/sock".to_string()).text(),
        "remote unix-socket (path-literal \"/var/run/sock\")"
    );
}

#[test]
fn serialize_operation_tokens() {
    assert_eq!(Operation::Default.token(), "default");
    assert_eq!(Operation::FileAll.token(), "file*");
    assert_eq!(Operation::FileReadAll.token(), "file-read*");
    assert_eq!(Operation::FileWriteAll.token(), "file-write*");
    assert_eq!(Operation::FileReadMetadata.token(), "file-read-metadata");
    assert_eq!(Operation::FileIoctl.token(), "file-ioctl");
    assert_eq!(Operation::IpcAll.token(), "ipc*");
    assert_eq!(Operation::IpcPosixShmReadData.token(), "ipc-posix-shm-read-data");
    assert_eq!(Operation::MachAll.token(), "mach*");
    assert_eq!(Operation::MachLookup.token(), "mach-lookup");
    assert_eq!(Operation::NetworkAll.token(), "network*");
    assert_eq!(Operation::NetworkOutbound.token(), "network-outbound");
    assert_eq!(Operation::ProcessAll.token(), "process*");
    assert_eq!(Operation::ProcessFork.token(), "process-fork");
    assert_eq!(Operation::Signal.token(), "signal");
    assert_eq!(Operation::SysctlAll.token(), "sysctl*");
    assert_eq!(Operation::SysctlRead.token(), "sysctl-read");
    assert_eq!(Operation::SystemAll.token(), "system*");
    assert_eq!(Operation::UserPreferenceRead.token(), "user-preference-read");
    assert_eq!(Action::Allow.token(), "allow");
    assert_eq!(Action::Deny.token(), "deny");
}

#[test]
fn serialize_rule_without_filters() {
    let rule = Rule { action: Action::Deny, operation: Operation::Default, filters: vec![] };
    assert_eq!(rule.text(), "(deny default)");
}

#[test]
fn serialize_rule_with_one_filter() {
    let rule = Rule {
        action: Action::Allow,
        operation: Operation::FileReadAll,
        filters: vec![Filter::Prefix("/ws".to_string())],
    };
    assert_eq!(rule.text(), "(allow file-read*\n  (prefix \"/ws\")\n)");
}

#[test]
fn serialize_rule_with_multiple_filters() {
    let rule = Rule {
        action: Action::Allow,
        operation: Operation::FileAll,
        filters: vec![Filter::Prefix("/a".to_string()), Filter::Prefix("/b".to_string())],
    };
    assert_eq!(rule.text(), "(allow file*\n  (prefix \"/a\")\n  (prefix \"/b\")\n)");
}

#[test]
fn serialize_empty_profile() {
    let profile = Profile { rules: vec![] };
    assert_eq!(profile.to_text(), "(version 1)\n");
}

#[test]
fn serialize_profile_mixed_rules() {
    let profile = Profile {
        rules: vec![
            Rule { action: Action::Deny, operation: Operation::Default, filters: vec![] },
            Rule {
                action: Action::Allow,
                operation: Operation::FileAll,
                filters: vec![
                    Filter::Prefix("/a".to_string()),
                    Filter::Prefix("/b".to_string()),
                ],
            },
        ],
    };
    assert_eq!(
        profile.to_text(),
        "(version 1)\n(deny default)\n(allow file*\n  (prefix \"/a\")\n  (prefix \"/b\")\n)\n"
    );
}
