use safe_cargo::assemble::{SandboxEnv, assemble_profile, split_path_list};

fn example_env() -> SandboxEnv {
    SandboxEnv {
        workspace: Some("/ws/project".to_string()),
        sandbox_dir: "/ws/project/target/cargo-safe".to_string(),
        home: Some("/home/u".to_string()),
        path_var: Some("/usr/bin".to_string()),
        temp_dir: "/tmp".to_string(),
    }
}

const HEADER: &str = "(version 1)\n";

const BASELINE: &str = "(deny default)\n\
(allow process*)\n\
(allow sysctl-read)\n\
(allow mach-lookup)\n\
(allow ipc-posix-shm-read-data)\n\
(allow user-preference-read)\n\
(allow file-read-metadata\n  (prefix \"/\")\n)\n\
(allow file-ioctl\n  (literal \"/dev/dtracehelper\")\n  (literal \"/dev/null\")\n  (literal \"/dev/tty\")\n)\n\
(allow file*\n  (literal \"/dev/dtracehelper\")\n  (literal \"/dev/null\")\n  (literal \"/dev/tty\")\n)\n";

const SYSTEM_AND_NETWORK: &str = "(allow file-read*\n  \
(literal \"/\")\n  \
(literal \"/dev/random\")\n  \
(literal \"/dev/urandom\")\n  \
(prefix \"/private/etc/\")\n  \
(prefix \"/private/var/db/timezone/\")\n  \
(prefix \"/usr/share/zoneinfo/\")\n  \
(prefix \"/Library/Developer/\")\n  \
(prefix \"/Applications/Xcode.app/\")\n  \
(prefix \"/System/Library/\")\n  \
(prefix \"/usr/lib/\")\n  \
(prefix \"/usr/share/\")\n  \
(prefix \"/Library/Preferences/\")\n  \
(regex #\"/\\.CFUserTextEncoding$\")\n  \
(regex #\"/Cargo\\.(toml|lock)$\")\n\
)\n\
(allow network-outbound\n  \
(remote ip \"*:80\")\n  \
(remote ip \"*:443\")\n  \
(remote unix-socket (path-literal \"/private/var/run/mDNSResponder\"))\n\
)\n";

const PATH_RULE: &str = "(allow file-read*\n  (prefix \"/usr/bin\")\n)\n";

const WORKSPACE_RULES: &str = "(allow file-write*\n  (literal \"/ws/project/Cargo.lock\")\n)\n\
(allow file-read*\n  (prefix \"/ws/project\")\n)\n";

const HOME_RULES: &str = "(allow file-read*\n  (prefix \"/home/u/.rustup/\")\n)\n\
(deny file-read-metadata\n  (prefix \"/home/u/.ssh/\")\n)\n";

const TEMP_RULES: &str = "(allow file-read*\n  (prefix \"/tmp\")\n)\n\
(allow file-write*\n  (prefix \"/tmp\")\n)\n";

const SANDBOX_RULE: &str = "(allow file-write*\n  \
(prefix \"/ws/project/target/cargo-safe/cargo\")\n  \
(prefix \"/ws/project/target/cargo-safe/target\")\n\
)\n";

fn expected_full() -> String {
    let mut s = String::new();
    s.push_str(HEADER);
    s.push_str(BASELINE);
    s.push_str(PATH_RULE);
    s.push_str(SYSTEM_AND_NETWORK);
    s.push_str(WORKSPACE_RULES);
    s.push_str(HOME_RULES);
    s.push_str(TEMP_RULES);
    s.push_str(SANDBOX_RULE);
    s
}

#[test]
fn full_profile_end_to_end() {
    let text = assemble_profile(&example_env()).to_text();
    assert_eq!(text, expected_full());
}

#[test]
fn default_deny_comes_first() {
    let text = assemble_profile(&example_env()).to_text();
    assert!(text.starts_with("(version 1)\n(deny default)\n"));

    let bare = SandboxEnv {
        workspace: None,
        sandbox_dir: "/sb".to_string(),
        home: None,
        path_var: None,
        temp_dir: "/tmp".to_string(),
    };
    let text = assemble_profile(&bare).to_text();
    assert!(text.starts_with("(version 1)\n(deny default)\n"));
}

#[test]
fn identical_inputs_identical_output() {
    let first = assemble_profile(&example_env()).to_text();
    let second = assemble_profile(&example_env()).to_text();
    assert_eq!(first, second);
}

#[test]
fn missing_home_omits_home_rules() {
    let mut env = example_env();
    env.home = None;
    let text = assemble_profile(&env).to_text();

    let mut expected = String::new();
    expected.push_str(HEADER);
    expected.push_str(BASELINE);
    expected.push_str(PATH_RULE);
    expected.push_str(SYSTEM_AND_NETWORK);
    expected.push_str(WORKSPACE_RULES);
    expected.push_str(TEMP_RULES);
    expected.push_str(SANDBOX_RULE);
    assert_eq!(text, expected);
    assert!(!text.contains(".rustup"));
    assert!(!text.contains(".ssh"));
}

#[test]
fn missing_path_omits_path_rule() {
    let mut env = example_env();
    env.path_var = None;
    let text = assemble_profile(&env).to_text();

    let mut expected = String::new();
    expected.push_str(HEADER);
    expected.push_str(BASELINE);
    expected.push_str(SYSTEM_AND_NETWORK);
    expected.push_str(WORKSPACE_RULES);
    expected.push_str(HOME_RULES);
    expected.push_str(TEMP_RULES);
    expected.push_str(SANDBOX_RULE);
    assert_eq!(text, expected);
}

#[test]
fn missing_workspace_omits_workspace_rules() {
    let mut env = example_env();
    env.workspace = None;
    let text = assemble_profile(&env).to_text();
    assert!(!text.contains("Cargo.lock"));
    assert!(!text.contains("(prefix \"/ws/project\")"));
    assert!(text.contains(TEMP_RULES));
}

#[test]
fn workspace_rules_scoping() {
    let text = assemble_profile(&example_env()).to_text();
    // The write rule targets exactly the lock file, as a literal.
    assert!(text.contains("(allow file-write*\n  (literal \"/ws/project/Cargo.lock\")\n)"));
    // The read rule targets the whole tree, as a prefix.
    assert!(text.contains("(allow file-read*\n  (prefix \"/ws/project\")\n)"));
    // Never swapped: no prefix-scoped write on the tree, no literal-scoped
    // read of only the lock file.
    assert!(!text.contains("(allow file-write*\n  (prefix \"/ws/project\")\n)"));
    assert!(!text.contains("(allow file-read*\n  (literal \"/ws/project/Cargo.lock\")\n)"));
}

#[test]
fn temp_rules_use_canonical_path() {
    // The temp directory handed to the assembler is the canonical form; a
    // differing symlink alias must not appear in the emitted filters.
    let mut env = example_env();
    env.temp_dir = "/private/tmp".to_string();
    let text = assemble_profile(&env).to_text();
    assert!(text.contains("(allow file-read*\n  (prefix \"/private/tmp\")\n)"));
    assert!(text.contains("(allow file-write*\n  (prefix \"/private/tmp\")\n)"));
    assert!(!text.contains("(prefix \"/tmp\")"));
}

#[test]
fn path_with_multiple_entries() {
    let mut env = example_env();
    env.path_var = Some("/usr/bin:/bin:/usr/local/bin".to_string());
    let text = assemble_profile(&env).to_text();
    assert!(text.contains(
        "(allow file-read*\n  (prefix \"/usr/bin\")\n  (prefix \"/bin\")\n  (prefix \"/usr/local/bin\")\n)"
    ));
}

#[test]
fn sandbox_write_rules_are_scoped() {
    let text = assemble_profile(&example_env()).to_text();
    assert!(text.contains(
        "(allow file-write*\n  (prefix \"/ws/project/target/cargo-safe/cargo\")\n  (prefix \"/ws/project/target/cargo-safe/target\")\n)"
    ));
}

#[test]
fn split_path_list_pieces() {
    assert_eq!(split_path_list("/usr/bin:/bin"), vec!["/usr/bin", "/bin"]);
    assert_eq!(split_path_list(""), vec![""]);
    assert_eq!(split_path_list("a::b"), vec!["a", "", "b"]);
    assert_eq!(split_path_list(":a:"), vec!["", "a", ""]);
    assert_eq!(split_path_list("/only"), vec!["/only"]);
}
