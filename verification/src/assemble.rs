//! Deriving the concrete least-privilege rule set from the caller's
//! environment.
//!
//! The assembler is a pure function from an explicit environment snapshot
//! ([`SandboxEnv`]) to a [`Profile`].  The caller resolves the workspace and
//! staging paths, reads `PATH` and `HOME`, and canonicalizes the OS temp
//! directory (following symlinks) before building the snapshot; a failure to
//! canonicalize aborts assembly on the caller's side, while a missing `PATH`
//! or `HOME`, or a path that cannot be represented as text, merely narrows
//! the resulting policy.

use vstd::prelude::*;

use crate::policy::{
    Action,
    Filter,
    FilterModel,
    Operation,
    Profile,
    Rule,
    RuleModel,
    profile_text,
};

verus! {

/// The environment snapshot the assembler works from.
///
/// `workspace` is the project root, absent when its path cannot be
/// represented as text; `sandbox_dir` is the writable staging area owned by
/// the wrapper; `home` and `path_var` are the values of `HOME` and `PATH`
/// when set; `temp_dir` is the canonical (symlink-resolved) OS temp
/// directory.
pub struct SandboxEnv {
    pub workspace: Option<String>,
    pub sandbox_dir: String,
    pub home: Option<String>,
    pub path_var: Option<String>,
    pub temp_dir: String,
}

/// Mathematical model of a [`SandboxEnv`].
pub struct EnvModel {
    pub workspace: Option<Seq<char>>,
    pub sandbox_dir: Seq<char>,
    pub home: Option<Seq<char>>,
    pub path_var: Option<Seq<char>>,
    pub temp_dir: Seq<char>,
}

impl View for SandboxEnv {
    type V = EnvModel;

    open spec fn view(&self) -> EnvModel {
        EnvModel {
            workspace: match self.workspace {
                Some(w) => Some(w@),
                None => None,
            },
            sandbox_dir: self.sandbox_dir@,
            home: match self.home {
                Some(h) => Some(h@),
                None => None,
            },
            path_var: match self.path_var {
                Some(p) => Some(p@),
                None => None,
            },
            temp_dir: self.temp_dir@,
        }
    }
}

/// Splitting a string on `:`, as the `PATH` variable is split into its
/// entries.  The result always has at least one piece; empty pieces are
/// kept, as in the platform's own treatment of `PATH`.
pub open spec fn split_colon(s: Seq<char>) -> Seq<Seq<char>>
    decreases s.len(),
{
    if s.len() == 0 {
        seq![Seq::<char>::empty()]
    } else if s[0] == ':' {
        seq![Seq::<char>::empty()] + split_colon(s.drop_first())
    } else {
        let rest = split_colon(s.drop_first());
        seq![seq![s[0]] + rest[0]] + rest.drop_first()
    }
}

/// A string without a colon splits into itself alone.
proof fn lemma_split_colon_no_colon(s: Seq<char>)
    requires
        forall|k: int| 0 <= k < s.len() ==> s[k] != ':',
    ensures
        split_colon(s) == seq![s],
    decreases s.len(),
{
    if s.len() == 0 {
        assert(split_colon(s) =~~= seq![s]);
    } else {
        lemma_split_colon_no_colon(s.drop_first());
        assert(seq![s.drop_first()].drop_first() =~= Seq::<Seq<char>>::empty());
        assert(seq![s[0]] + s.drop_first() =~= s);
        assert(split_colon(s) =~~= seq![s]);
    }
}

/// Splitting at the first colon: the piece before it, then the split of the
/// remainder.
proof fn lemma_split_colon_first(s: Seq<char>, i: int)
    requires
        0 <= i < s.len(),
        s[i] == ':',
        forall|k: int| 0 <= k < i ==> s[k] != ':',
    ensures
        split_colon(s) == seq![s.take(i)] + split_colon(s.skip(i + 1)),
    decreases i,
{
    if i == 0 {
        assert(s.drop_first() =~= s.skip(1));
        assert(s.take(0) =~= Seq::<char>::empty());
        assert(split_colon(s) =~~= seq![s.take(0)] + split_colon(s.skip(1)));
    } else {
        let t = s.drop_first();
        assert(t[i - 1] == ':');
        lemma_split_colon_first(t, i - 1);
        assert(t.skip(i) =~= s.skip(i + 1));
        let rest = split_colon(t);
        assert(rest == seq![t.take(i - 1)] + split_colon(t.skip(i)));
        assert(rest[0] == t.take(i - 1));
        assert(rest.drop_first() =~= split_colon(t.skip(i)));
        assert(seq![s[0]] + t.take(i - 1) =~= s.take(i));
        assert(split_colon(s) =~~= seq![s.take(i)] + split_colon(s.skip(i + 1)));
    }
}

/// Splits a `PATH`-style value into its colon-separated entries.
pub fn split_path_list(s: &str) -> (r: Vec<String>)
    ensures
        r.deep_view() == split_colon(s@),
{
    let n = s.unicode_len();
    let mut pieces: Vec<String> = Vec::new();
    let mut start: usize = 0;
    let mut i: usize = 0;
    proof {
        assert(pieces.deep_view() =~~= Seq::<Seq<char>>::empty());
        assert(s@.skip(0) =~= s@);
        assert(Seq::<Seq<char>>::empty() + split_colon(s@) =~= split_colon(s@));
    }
    while i < n
        invariant
            start <= i <= n,
            n == s@.len(),
            forall|k: int| start <= k < i ==> s@[k] != ':',
            split_colon(s@) == pieces.deep_view() + split_colon(s@.skip(start as int)),
        decreases n - i,
    {
        let c = s.get_char(i);
        if c == ':' {
            let ghost before = pieces.deep_view();
            let piece = s.substring_char(start, i);
            pieces.push(String::from_str(piece));
            proof {
                let tail = s@.skip(start as int);
                assert(tail[i - start as int] == ':');
                assert(forall|k: int| 0 <= k < i - start as int ==> tail[k] != ':');
                lemma_split_colon_first(tail, i - start as int);
                assert(tail.take(i - start as int) =~= s@.subrange(start as int, i as int));
                assert(tail.skip(i - start as int + 1) =~= s@.skip(i + 1 as int));
                assert(pieces.deep_view() =~~= before.push(piece@));
                assert(before.push(piece@) + split_colon(s@.skip(i + 1 as int)) =~= before + (seq![
                    piece@,
                ] + split_colon(s@.skip(i + 1 as int))));
                assert(split_colon(s@) == pieces.deep_view() + split_colon(s@.skip(i + 1 as int)));
            }
            start = i + 1;
        }
        i = i + 1;
    }
    let ghost before = pieces.deep_view();
    let piece = s.substring_char(start, n);
    pieces.push(String::from_str(piece));
    proof {
        let tail = s@.skip(start as int);
        assert(forall|k: int| 0 <= k < tail.len() ==> tail[k] != ':');
        lemma_split_colon_no_colon(tail);
        assert(piece@ =~= tail);
        assert(pieces.deep_view() =~~= before.push(tail));
        assert(before.push(tail) =~= before + seq![tail]);
        assert(pieces.deep_view() == split_colon(s@));
    }
    pieces
}

/// The rule that establishes default-deny semantics.
pub open spec fn deny_default_rule() -> RuleModel {
    RuleModel { action: Action::Deny, operation: Operation::Default, filters: Seq::empty() }
}

/// The device files needed for tracing, null and tty support.
pub open spec fn device_filters() -> Seq<FilterModel> {
    seq![
        FilterModel::Literal("/dev/dtracehelper"@),
        FilterModel::Literal("/dev/null"@),
        FilterModel::Literal("/dev/tty"@),
    ]
}

/// The fixed opening of every profile: default deny, the unconditional
/// operations any build tool needs, metadata reads on the whole filesystem,
/// and ioctl plus read/write on the device files.
pub open spec fn baseline_rules() -> Seq<RuleModel> {
    seq![
        deny_default_rule(),
        RuleModel { action: Action::Allow, operation: Operation::ProcessAll, filters: Seq::empty() },
        RuleModel { action: Action::Allow, operation: Operation::SysctlRead, filters: Seq::empty() },
        RuleModel { action: Action::Allow, operation: Operation::MachLookup, filters: Seq::empty() },
        RuleModel {
            action: Action::Allow,
            operation: Operation::IpcPosixShmReadData,
            filters: Seq::empty(),
        },
        RuleModel {
            action: Action::Allow,
            operation: Operation::UserPreferenceRead,
            filters: Seq::empty(),
        },
        RuleModel {
            action: Action::Allow,
            operation: Operation::FileReadMetadata,
            filters: seq![FilterModel::Prefix("/"@)],
        },
        RuleModel {
            action: Action::Allow,
            operation: Operation::FileIoctl,
            filters: device_filters(),
        },
        RuleModel { action: Action::Allow, operation: Operation::FileAll, filters: device_filters() },
    ]
}

/// One read rule per `PATH` value: every listed directory as a prefix
/// filter.  No rule when `PATH` is absent.
pub open spec fn path_rules(pv: Option<Seq<char>>) -> Seq<RuleModel> {
    match pv {
        None => Seq::empty(),
        Some(p) => seq![
            RuleModel {
                action: Action::Allow,
                operation: Operation::FileReadAll,
                filters: split_colon(p).map_values(|d: Seq<char>| FilterModel::Prefix(d)),
            },
        ],
    }
}

/// The system directories, files and patterns the toolchain and OS
/// frameworks are read from.
pub open spec fn system_read_filters() -> Seq<FilterModel> {
    seq![
        FilterModel::Literal("/"@),
        FilterModel::Literal("/dev/random"@),
        FilterModel::Literal("/dev/urandom"@),
        FilterModel::Prefix("/private/etc/"@),
        FilterModel::Prefix("/private/var/db/timezone/"@),
        FilterModel::Prefix("/usr/share/zoneinfo/"@),
        FilterModel::Prefix("/Library/Developer/"@),
        FilterModel::Prefix("/Applications/Xcode.app/"@),
        FilterModel::Prefix("/System/Library/"@),
        FilterModel::Prefix("/usr/lib/"@),
        FilterModel::Prefix("/usr/share/"@),
        FilterModel::Prefix("/Library/Preferences/"@),
        FilterModel::Regex("/\\.CFUserTextEncoding$"@),
        FilterModel::Regex("/Cargo\\.(toml|lock)$"@),
    ]
}

/// The single rule granting read access to the fixed system locations.
pub open spec fn system_read_rules() -> Seq<RuleModel> {
    seq![
        RuleModel {
            action: Action::Allow,
            operation: Operation::FileReadAll,
            filters: system_read_filters(),
        },
    ]
}

/// Outbound network access restricted to ports 80 and 443 on any host, plus
/// the local DNS-resolution socket.
pub open spec fn network_rules() -> Seq<RuleModel> {
    seq![
        RuleModel {
            action: Action::Allow,
            operation: Operation::NetworkOutbound,
            filters: seq![
                FilterModel::RemoteIp("*:80"@),
                FilterModel::RemoteIp("*:443"@),
                FilterModel::RemoteUnixSocket("/private/var/run/mDNSResponder"@),
            ],
        },
    ]
}

/// Write access to exactly the dependency-lock file at the workspace root.
pub open spec fn workspace_write_rule(w: Seq<char>) -> RuleModel {
    RuleModel {
        action: Action::Allow,
        operation: Operation::FileWriteAll,
        filters: seq![FilterModel::Literal(w + "/Cargo.lock"@)],
    }
}

/// Read access to the whole workspace tree.
pub open spec fn workspace_read_rule(w: Seq<char>) -> RuleModel {
    RuleModel {
        action: Action::Allow,
        operation: Operation::FileReadAll,
        filters: seq![FilterModel::Prefix(w)],
    }
}

/// The workspace rules: write on the lock file, then read on the tree.
/// Nothing when the workspace path is not representable as text.
pub open spec fn workspace_rules(ws: Option<Seq<char>>) -> Seq<RuleModel> {
    match ws {
        None => Seq::empty(),
        Some(w) => seq![workspace_write_rule(w), workspace_read_rule(w)],
    }
}

/// Read access to the toolchain installation under the home directory.
pub open spec fn toolchain_read_rule(h: Seq<char>) -> RuleModel {
    RuleModel {
        action: Action::Allow,
        operation: Operation::FileReadAll,
        filters: seq![FilterModel::Prefix(h + "/.rustup/"@)],
    }
}

/// Defense in depth: no metadata reads under the credentials directory,
/// blocking enumeration of key material despite the blanket metadata grant.
pub open spec fn ssh_metadata_deny_rule(h: Seq<char>) -> RuleModel {
    RuleModel {
        action: Action::Deny,
        operation: Operation::FileReadMetadata,
        filters: seq![FilterModel::Prefix(h + "/.ssh/"@)],
    }
}

/// The home rules: toolchain read, then the credentials-metadata deny.
/// Nothing when no home directory is known.
pub open spec fn home_rules(home: Option<Seq<char>>) -> Seq<RuleModel> {
    match home {
        None => Seq::empty(),
        Some(h) => seq![toolchain_read_rule(h), ssh_metadata_deny_rule(h)],
    }
}

/// Read access to the canonical temp directory.
pub open spec fn temp_read_rule(t: Seq<char>) -> RuleModel {
    RuleModel {
        action: Action::Allow,
        operation: Operation::FileReadAll,
        filters: seq![FilterModel::Prefix(t)],
    }
}

/// Write access to the canonical temp directory.
pub open spec fn temp_write_rule(t: Seq<char>) -> RuleModel {
    RuleModel {
        action: Action::Allow,
        operation: Operation::FileWriteAll,
        filters: seq![FilterModel::Prefix(t)],
    }
}

/// The temp-directory rules: read, then write, both on the canonical path.
pub open spec fn temp_rules(t: Seq<char>) -> Seq<RuleModel> {
    seq![temp_read_rule(t), temp_write_rule(t)]
}

/// Write access to the wrapper's own cache and output areas under the
/// staging directory, so the tool's output never touches the workspace.
pub open spec fn sandbox_rules(sb: Seq<char>) -> Seq<RuleModel> {
    seq![
        RuleModel {
            action: Action::Allow,
            operation: Operation::FileWriteAll,
            filters: seq![
                FilterModel::Prefix(sb + "/cargo"@),
                FilterModel::Prefix(sb + "/target"@),
            ],
        },
    ]
}

/// The complete rule set for an environment snapshot, in emission order.
pub open spec fn assembled_rules(e: EnvModel) -> Seq<RuleModel> {
    baseline_rules() + path_rules(e.path_var) + system_read_rules() + network_rules()
        + workspace_rules(e.workspace) + home_rules(e.home) + temp_rules(e.temp_dir)
        + sandbox_rules(e.sandbox_dir)
}

/// A rule with no filters, applying to every resource under the operation.
fn make_rule0(action: Action, operation: Operation) -> (r: Rule)
    ensures
        r@ == (RuleModel { action: action, operation: operation, filters: Seq::empty() }),
{
    let r = Rule { action, operation, filters: Vec::new() };
    proof {
        assert(r@.filters =~= Seq::<FilterModel>::empty());
    }
    r
}

/// A rule with a single filter.
fn make_rule1(action: Action, operation: Operation, f: Filter) -> (r: Rule)
    ensures
        r@ == (RuleModel { action: action, operation: operation, filters: seq![f@] }),
{
    let ghost fv = f@;
    let mut filters: Vec<Filter> = Vec::new();
    filters.push(f);
    let r = Rule { action, operation, filters };
    proof {
        assert(r@.filters =~= seq![fv]);
    }
    r
}

/// A rule over an already-built filter list.
fn make_rule(action: Action, operation: Operation, filters: Vec<Filter>) -> (r: Rule)
    ensures
        r@ == (RuleModel {
            action: action,
            operation: operation,
            filters: filters@.map_values(|f: Filter| f@),
        }),
{
    Rule { action, operation, filters }
}

/// The device-file filters as a vector.
fn device_filter_vec() -> (v: Vec<Filter>)
    ensures
        v@.map_values(|f: Filter| f@) == device_filters(),
{
    let mut v: Vec<Filter> = Vec::new();
    v.push(Filter::Literal(String::from_str("/dev/dtracehelper")));
    v.push(Filter::Literal(String::from_str("/dev/null")));
    v.push(Filter::Literal(String::from_str("/dev/tty")));
    proof {
        assert(v@.map_values(|f: Filter| f@) =~= device_filters());
    }
    v
}

/// The system-read filters as a vector.
fn system_read_filter_vec() -> (v: Vec<Filter>)
    ensures
        v@.map_values(|f: Filter| f@) == system_read_filters(),
{
    let mut v: Vec<Filter> = Vec::new();
    v.push(Filter::Literal(String::from_str("/")));
    v.push(Filter::Literal(String::from_str("/dev/random")));
    v.push(Filter::Literal(String::from_str("/dev/urandom")));
    v.push(Filter::Prefix(String::from_str("/private/etc/")));
    v.push(Filter::Prefix(String::from_str("/private/var/db/timezone/")));
    v.push(Filter::Prefix(String::from_str("/usr/share/zoneinfo/")));
    v.push(Filter::Prefix(String::from_str("/Library/Developer/")));
    v.push(Filter::Prefix(String::from_str("/Applications/Xcode.app/")));
    v.push(Filter::Prefix(String::from_str("/System/Library/")));
    v.push(Filter::Prefix(String::from_str("/usr/lib/")));
    v.push(Filter::Prefix(String::from_str("/usr/share/")));
    v.push(Filter::Prefix(String::from_str("/Library/Preferences/")));
    v.push(Filter::Regex(String::from_str("/\\.CFUserTextEncoding$")));
    v.push(Filter::Regex(String::from_str("/Cargo\\.(toml|lock)$")));
    proof {
        assert(v@.map_values(|f: Filter| f@) =~= system_read_filters());
    }
    v
}

/// Derives the least-privilege rule set for one build-tool invocation from
/// the given environment snapshot.  The result is a pure function of the
/// snapshot: two calls on equal snapshots yield equal profiles.
pub fn assemble_profile(env: &SandboxEnv) -> (p: Profile)
    ensures
        p@ == assembled_rules(env@),
{
    let ghost e = env@;
    let ghost g1 = baseline_rules();
    let ghost g2 = g1 + path_rules(e.path_var);
    let ghost g3 = g2 + system_read_rules();
    let ghost g4 = g3 + network_rules();
    let ghost g5 = g4 + workspace_rules(e.workspace);
    let ghost g6 = g5 + home_rules(e.home);
    let ghost g7 = g6 + temp_rules(e.temp_dir);
    let ghost g8 = g7 + sandbox_rules(e.sandbox_dir);

    let mut rules: Vec<Rule> = Vec::new();
    rules.push(make_rule0(Action::Deny, Operation::Default));
    rules.push(make_rule0(Action::Allow, Operation::ProcessAll));
    rules.push(make_rule0(Action::Allow, Operation::SysctlRead));
    rules.push(make_rule0(Action::Allow, Operation::MachLookup));
    rules.push(make_rule0(Action::Allow, Operation::IpcPosixShmReadData));
    rules.push(make_rule0(Action::Allow, Operation::UserPreferenceRead));
    rules.push(
        make_rule1(
            Action::Allow,
            Operation::FileReadMetadata,
            Filter::Prefix(String::from_str("/")),
        ),
    );
    rules.push(make_rule(Action::Allow, Operation::FileIoctl, device_filter_vec()));
    rules.push(make_rule(Action::Allow, Operation::FileAll, device_filter_vec()));
    proof {
        assert(rules@.map_values(|r: Rule| r@) =~= g1);
    }

    match &env.path_var {
        Some(p) => {
            let dirs = split_path_list(p.as_str());
            let mut fs: Vec<Filter> = Vec::new();
            let mut i: usize = 0;
            proof {
                assert(fs@.map_values(|f: Filter| f@) =~= split_colon(p@).take(0).map_values(
                    |d: Seq<char>| FilterModel::Prefix(d),
                ));
            }
            while i < dirs.len()
                invariant
                    i <= dirs.len(),
                    dirs.deep_view() == split_colon(p@),
                    fs@.map_values(|f: Filter| f@) == split_colon(p@).take(i as int).map_values(
                        |d: Seq<char>| FilterModel::Prefix(d),
                    ),
                decreases dirs.len() - i,
            {
                let ghost prevmap = fs@.map_values(|f: Filter| f@);
                let d = dirs[i].clone();
                let ghost dv = d@;
                fs.push(Filter::Prefix(d));
                proof {
                    assert(dv == dirs@[i as int]@);
                    assert(dirs@[i as int]@ == dirs.deep_view()[i as int]);
                    assert(dv == split_colon(p@)[i as int]);
                    assert(fs@.map_values(|f: Filter| f@) =~= prevmap.push(
                        FilterModel::Prefix(dv),
                    ));
                    assert(split_colon(p@).take(i as int + 1).map_values(
                        |d2: Seq<char>| FilterModel::Prefix(d2),
                    ) =~= split_colon(p@).take(i as int).map_values(
                        |d2: Seq<char>| FilterModel::Prefix(d2),
                    ).push(FilterModel::Prefix(split_colon(p@)[i as int])));
                }
                i = i + 1;
            }
            proof {
                assert(split_colon(p@).take(dirs.len() as int) =~= split_colon(p@));
            }
            rules.push(make_rule(Action::Allow, Operation::FileReadAll, fs));
            proof {
                assert(e.path_var == Some(p@));
                assert(rules@.map_values(|r: Rule| r@) =~= g2);
            }
        },
        None => {
            proof {
                assert(e.path_var is None);
                assert(rules@.map_values(|r: Rule| r@) =~= g2);
            }
        },
    }

    rules.push(make_rule(Action::Allow, Operation::FileReadAll, system_read_filter_vec()));
    proof {
        assert(rules@.map_values(|r: Rule| r@) =~= g3);
    }

    let mut net: Vec<Filter> = Vec::new();
    net.push(Filter::RemoteIp(String::from_str("*:80")));
    net.push(Filter::RemoteIp(String::from_str("*:443")));
    net.push(Filter::RemoteUnixSocket(String::from_str("/private/var/run/mDNSResponder")));
    proof {
        assert(net@.map_values(|f: Filter| f@) =~= seq![
            FilterModel::RemoteIp("*:80"@),
            FilterModel::RemoteIp("*:443"@),
            FilterModel::RemoteUnixSocket("/private/var/run/mDNSResponder"@),
        ]);
    }
    rules.push(make_rule(Action::Allow, Operation::NetworkOutbound, net));
    proof {
        assert(rules@.map_values(|r: Rule| r@) =~= g4);
    }

    match &env.workspace {
        Some(w) => {
            let mut lock = w.clone();
            lock.append("/Cargo.lock");
            rules.push(make_rule1(Action::Allow, Operation::FileWriteAll, Filter::Literal(lock)));
            rules.push(make_rule1(Action::Allow, Operation::FileReadAll, Filter::Prefix(w.clone())));
            proof {
                assert(e.workspace == Some(w@));
                assert(rules@.map_values(|r: Rule| r@) =~= g5);
            }
        },
        None => {
            proof {
                assert(e.workspace is None);
                assert(rules@.map_values(|r: Rule| r@) =~= g5);
            }
        },
    }

    match &env.home {
        Some(h) => {
            let mut rustup = h.clone();
            rustup.append("/.rustup/");
            rules.push(make_rule1(Action::Allow, Operation::FileReadAll, Filter::Prefix(rustup)));
            let mut ssh = h.clone();
            ssh.append("/.ssh/");
            rules.push(make_rule1(Action::Deny, Operation::FileReadMetadata, Filter::Prefix(ssh)));
            proof {
                assert(e.home == Some(h@));
                assert(rules@.map_values(|r: Rule| r@) =~= g6);
            }
        },
        None => {
            proof {
                assert(e.home is None);
                assert(rules@.map_values(|r: Rule| r@) =~= g6);
            }
        },
    }

    rules.push(
        make_rule1(Action::Allow, Operation::FileReadAll, Filter::Prefix(env.temp_dir.clone())),
    );
    rules.push(
        make_rule1(Action::Allow, Operation::FileWriteAll, Filter::Prefix(env.temp_dir.clone())),
    );
    proof {
        assert(rules@.map_values(|r: Rule| r@) =~= g7);
    }

    let mut sb: Vec<Filter> = Vec::new();
    let mut cargo_dir = env.sandbox_dir.clone();
    cargo_dir.append("/cargo");
    sb.push(Filter::Prefix(cargo_dir));
    let mut target_dir = env.sandbox_dir.clone();
    target_dir.append("/target");
    sb.push(Filter::Prefix(target_dir));
    proof {
        assert(sb@.map_values(|f: Filter| f@) =~= seq![
            FilterModel::Prefix(e.sandbox_dir + "/cargo"@),
            FilterModel::Prefix(e.sandbox_dir + "/target"@),
        ]);
    }
    rules.push(make_rule(Action::Allow, Operation::FileWriteAll, sb));
    proof {
        assert(rules@.map_values(|r: Rule| r@) =~= g8);
        assert(assembled_rules(e) == g8);
    }

    Profile { rules }
}

/// Law: every assembled profile begins with a deny on the default
/// (catch-all) operation, whatever the environment.
pub proof fn lemma_default_deny_first(e: EnvModel)
    ensures
        assembled_rules(e).len() > 0,
        assembled_rules(e)[0] == deny_default_rule(),
{
    assert(baseline_rules()[0] == deny_default_rule());
    assert(assembled_rules(e)[0] == baseline_rules()[0]);
}

/// Law: assembly is deterministic; identical environment snapshots give
/// byte-identical serialized profiles.
pub proof fn lemma_assembly_deterministic(e1: EnvModel, e2: EnvModel)
    requires
        e1 == e2,
    ensures
        profile_text(assembled_rules(e1)) == profile_text(assembled_rules(e2)),
{
}

/// Law: without a home directory the profile lacks exactly the
/// toolchain-read rule and the credentials-metadata deny; every other rule
/// group is kept unchanged, in the same order, as supplying a home
/// directory to the otherwise identical environment shows.
pub proof fn lemma_home_degradation(e: EnvModel, h: Seq<char>)
    requires
        e.home is None,
    ensures
        ({
            let pre = baseline_rules() + path_rules(e.path_var) + system_read_rules()
                + network_rules() + workspace_rules(e.workspace);
            let post = temp_rules(e.temp_dir) + sandbox_rules(e.sandbox_dir);
            &&& assembled_rules(e) == pre + post
            &&& assembled_rules(EnvModel { home: Some(h), ..e }) == pre + seq![
                toolchain_read_rule(h),
                ssh_metadata_deny_rule(h),
            ] + post
        }),
{
    let pre = baseline_rules() + path_rules(e.path_var) + system_read_rules() + network_rules()
        + workspace_rules(e.workspace);
    let post = temp_rules(e.temp_dir) + sandbox_rules(e.sandbox_dir);
    assert(home_rules(e.home) == Seq::<RuleModel>::empty());
    assert(assembled_rules(e) =~= pre + post);
    let e2 = EnvModel { home: Some(h), ..e };
    assert(home_rules(e2.home) == seq![toolchain_read_rule(h), ssh_metadata_deny_rule(h)]);
    assert(assembled_rules(e2) =~= pre + seq![toolchain_read_rule(h), ssh_metadata_deny_rule(h)]
        + post);
}

/// Law: when the workspace path is known, the assembled rules hold, at
/// adjacent positions and in this order, a write rule whose only filter is
/// the dependency-lock file as an exact literal, then a read rule whose
/// only filter is the workspace tree as a prefix.
pub proof fn lemma_workspace_scoping(e: EnvModel, w: Seq<char>)
    requires
        e.workspace == Some(w),
    ensures
        workspace_write_rule(w).filters == seq![FilterModel::Literal(w + "/Cargo.lock"@)],
        workspace_read_rule(w).filters == seq![FilterModel::Prefix(w)],
        ({
            let rs = assembled_rules(e);
            exists|i: int|
                0 <= i && i + 1 < rs.len() && #[trigger] rs[i] == workspace_write_rule(w) && rs[i
                    + 1] == workspace_read_rule(w)
        }),
{
    let rs = assembled_rules(e);
    let pre = baseline_rules() + path_rules(e.path_var) + system_read_rules() + network_rules();
    let i = pre.len() as int;
    assert(workspace_rules(e.workspace) == seq![workspace_write_rule(w), workspace_read_rule(w)]);
    assert(rs[i] == workspace_write_rule(w));
    assert(rs[i + 1] == workspace_read_rule(w));
    assert(i + 1 < rs.len());
}

/// Law: the temp-directory rules use the environment's canonical temp path
/// verbatim as their single prefix filter, read then write, at adjacent
/// positions.
pub proof fn lemma_temp_rules_use_given_path(e: EnvModel)
    ensures
        temp_read_rule(e.temp_dir).filters == seq![FilterModel::Prefix(e.temp_dir)],
        temp_write_rule(e.temp_dir).filters == seq![FilterModel::Prefix(e.temp_dir)],
        ({
            let rs = assembled_rules(e);
            exists|i: int|
                0 <= i && i + 1 < rs.len() && #[trigger] rs[i] == temp_read_rule(e.temp_dir)
                    && rs[i + 1] == temp_write_rule(e.temp_dir)
        }),
{
    let rs = assembled_rules(e);
    let pre = baseline_rules() + path_rules(e.path_var) + system_read_rules() + network_rules()
        + workspace_rules(e.workspace) + home_rules(e.home);
    let i = pre.len() as int;
    assert(rs[i] == temp_read_rule(e.temp_dir));
    assert(rs[i + 1] == temp_write_rule(e.temp_dir));
    assert(i + 1 < rs.len());
}

} // verus!
