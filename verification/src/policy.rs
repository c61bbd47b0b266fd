//! The policy data model: filters, operations, rules and profiles, together
//! with their serialization into the sandbox policy language.
//!
//! Every value is immutable once constructed and serializes through a pure,
//! total function; the exact textual form is pinned by the spec functions
//! below, which the executable renderers are proved to match character for
//! character.  String values inside filters are emitted verbatim: callers
//! must ensure paths and patterns contain no characters that would corrupt
//! the policy grammar.

use vstd::prelude::*;

verus! {

/// Whether a rule grants or refuses the governed operation.
#[derive(Clone, Copy, PartialEq, Eq, Structural, Debug)]
pub enum Action {
    Allow,
    Deny,
}

/// The closed set of governed action categories.  Each variant maps to
/// exactly one canonical token of the policy language.
#[derive(Clone, Copy, PartialEq, Eq, Structural, Debug)]
pub enum Operation {
    Default,
    FileAll,
    FileReadAll,
    FileWriteAll,
    FileReadMetadata,
    FileIoctl,
    IpcAll,
    IpcPosixShmReadData,
    MachAll,
    MachLookup,
    NetworkAll,
    NetworkOutbound,
    ProcessAll,
    ProcessFork,
    Signal,
    SysctlAll,
    SysctlRead,
    SystemAll,
    UserPreferenceRead,
}

/// A predicate narrowing a rule to specific resources.
pub enum Filter {
    /// Matches exactly one path or string.
    Literal(String),
    /// Matches any resource whose path starts with the given prefix.
    Prefix(String),
    /// Matches any resource whose path satisfies the pattern.
    Regex(String),
    /// Matches a network peer by address/port pattern (`*` as wildcard host).
    RemoteIp(String),
    /// Matches a local domain socket by its filesystem path.
    RemoteUnixSocket(String),
}

/// One policy rule: an action applied to an operation, scoped by filters.
/// An empty filter list means the rule applies to every resource under the
/// operation.
pub struct Rule {
    pub action: Action,
    pub operation: Operation,
    pub filters: Vec<Filter>,
}

/// An ordered list of rules.  The type places no restriction on ordering;
/// the assembler is responsible for emitting a deny-default rule first.
pub struct Profile {
    pub rules: Vec<Rule>,
}

/// Mathematical model of a [`Filter`]: the same variants over character
/// sequences.
pub enum FilterModel {
    Literal(Seq<char>),
    Prefix(Seq<char>),
    Regex(Seq<char>),
    RemoteIp(Seq<char>),
    RemoteUnixSocket(Seq<char>),
}

/// Mathematical model of a [`Rule`].
pub struct RuleModel {
    pub action: Action,
    pub operation: Operation,
    pub filters: Seq<FilterModel>,
}

impl View for Filter {
    type V = FilterModel;

    open spec fn view(&self) -> FilterModel {
        match self {
            Filter::Literal(p) => FilterModel::Literal(p@),
            Filter::Prefix(p) => FilterModel::Prefix(p@),
            Filter::Regex(p) => FilterModel::Regex(p@),
            Filter::RemoteIp(p) => FilterModel::RemoteIp(p@),
            Filter::RemoteUnixSocket(p) => FilterModel::RemoteUnixSocket(p@),
        }
    }
}

impl View for Rule {
    type V = RuleModel;

    open spec fn view(&self) -> RuleModel {
        RuleModel {
            action: self.action,
            operation: self.operation,
            filters: self.filters@.map_values(|f: Filter| f@),
        }
    }
}

impl View for Profile {
    type V = Seq<RuleModel>;

    open spec fn view(&self) -> Seq<RuleModel> {
        self.rules@.map_values(|r: Rule| r@)
    }
}

/// The canonical token of an action.
pub open spec fn action_token(a: Action) -> Seq<char> {
    match a {
        Action::Allow => "allow"@,
        Action::Deny => "deny"@,
    }
}

/// The canonical token of an operation.  The mapping is total and fixed.
pub open spec fn operation_token(o: Operation) -> Seq<char> {
    match o {
        Operation::Default => "default"@,
        Operation::FileAll => "file*"@,
        Operation::FileReadAll => "file-read*"@,
        Operation::FileWriteAll => "file-write*"@,
        Operation::FileReadMetadata => "file-read-metadata"@,
        Operation::FileIoctl => "file-ioctl"@,
        Operation::IpcAll => "ipc*"@,
        Operation::IpcPosixShmReadData => "ipc-posix-shm-read-data"@,
        Operation::MachAll => "mach*"@,
        Operation::MachLookup => "mach-lookup"@,
        Operation::NetworkAll => "network*"@,
        Operation::NetworkOutbound => "network-outbound"@,
        Operation::ProcessAll => "process*"@,
        Operation::ProcessFork => "process-fork"@,
        Operation::Signal => "signal"@,
        Operation::SysctlAll => "sysctl*"@,
        Operation::SysctlRead => "sysctl-read"@,
        Operation::SystemAll => "system*"@,
        Operation::UserPreferenceRead => "user-preference-read"@,
    }
}

/// The textual form of a filter.
pub open spec fn filter_text(f: FilterModel) -> Seq<char> {
    match f {
        FilterModel::Literal(p) => "literal \""@ + p + "\""@,
        FilterModel::Prefix(p) => "prefix \""@ + p + "\""@,
        FilterModel::Regex(p) => "regex #\""@ + p + "\""@,
        FilterModel::RemoteIp(p) => "remote ip \""@ + p + "\""@,
        FilterModel::RemoteUnixSocket(p) => "remote unix-socket (path-literal \""@ + p + "\")"@,
    }
}

/// One line of a rule's filter block: the filter in parentheses, indented by
/// two spaces, ended by a newline.
pub open spec fn filter_line(f: FilterModel) -> Seq<char> {
    "  ("@ + filter_text(f) + ")\n"@
}

/// The filter block of a rule: one line per filter, in list order.
pub open spec fn filters_block(fs: Seq<FilterModel>) -> Seq<char>
    decreases fs.len(),
{
    if fs.len() == 0 {
        Seq::empty()
    } else {
        filter_line(fs[0]) + filters_block(fs.drop_first())
    }
}

/// The textual form of a rule: `(<action> <operation>)` on one line when it
/// has no filters, otherwise the header, one filter per line, and the
/// closing parenthesis on its own line.
pub open spec fn rule_text(r: RuleModel) -> Seq<char> {
    if r.filters.len() == 0 {
        "("@ + action_token(r.action) + " "@ + operation_token(r.operation) + ")"@
    } else {
        "("@ + action_token(r.action) + " "@ + operation_token(r.operation) + "\n"@
            + filters_block(r.filters) + ")"@
    }
}

/// The rules of a profile, each followed by a newline, in list order.
pub open spec fn rules_text(rs: Seq<RuleModel>) -> Seq<char>
    decreases rs.len(),
{
    if rs.len() == 0 {
        Seq::empty()
    } else {
        rule_text(rs[0]) + "\n"@ + rules_text(rs.drop_first())
    }
}

/// The textual form of a whole profile: the version header followed by each
/// rule on its own line.
pub open spec fn profile_text(rs: Seq<RuleModel>) -> Seq<char> {
    "(version 1)\n"@ + rules_text(rs)
}

/// Appending a filter to a block appends its line at the end.
proof fn lemma_filters_block_push(fs: Seq<FilterModel>, f: FilterModel)
    ensures
        filters_block(fs.push(f)) == filters_block(fs) + filter_line(f),
    decreases fs.len(),
{
    if fs.len() == 0 {
        assert(fs.push(f)[0] == f);
        assert(fs.push(f).drop_first() =~= Seq::<FilterModel>::empty());
        assert(filters_block(Seq::<FilterModel>::empty()) == Seq::<char>::empty());
        assert(filters_block(fs.push(f)) == filter_line(f) + Seq::<char>::empty());
        assert(filter_line(f) + Seq::<char>::empty() =~= filter_line(f));
        assert(filters_block(fs) + filter_line(f) =~= filter_line(f));
    } else {
        lemma_filters_block_push(fs.drop_first(), f);
        assert(fs.push(f).drop_first() =~= fs.drop_first().push(f));
        assert(fs.push(f)[0] == fs[0]);
        assert((filter_line(fs[0]) + (filters_block(fs.drop_first()) + filter_line(f))) =~= (
        (filter_line(fs[0]) + filters_block(fs.drop_first())) + filter_line(f)));
    }
}

/// Appending a rule to a profile appends its text and a newline at the end.
proof fn lemma_rules_text_push(rs: Seq<RuleModel>, r: RuleModel)
    ensures
        rules_text(rs.push(r)) == rules_text(rs) + rule_text(r) + "\n"@,
    decreases rs.len(),
{
    if rs.len() == 0 {
        assert(rs.push(r)[0] == r);
        assert(rs.push(r).drop_first() =~= Seq::<RuleModel>::empty());
        assert(rules_text(Seq::<RuleModel>::empty()) == Seq::<char>::empty());
        assert(rules_text(rs.push(r)) == (rule_text(r) + "\n"@) + Seq::<char>::empty());
        assert((rule_text(r) + "\n"@) + Seq::<char>::empty() =~= rule_text(r) + "\n"@);
        assert((rules_text(rs) + rule_text(r)) + "\n"@ =~= rule_text(r) + "\n"@);
    } else {
        lemma_rules_text_push(rs.drop_first(), r);
        assert(rs.push(r).drop_first() =~= rs.drop_first().push(r));
        assert(rs.push(r)[0] == rs[0]);
        assert(((rule_text(rs[0]) + "\n"@) + ((rules_text(rs.drop_first()) + rule_text(r))
            + "\n"@)) =~= (((rule_text(rs[0]) + "\n"@) + rules_text(rs.drop_first())) + rule_text(
        r)) + "\n"@);
    }
}

impl Action {
    /// The canonical token of this action.
    pub fn token(&self) -> (r: &'static str)
        ensures
            r@ == action_token(*self),
    {
        match self {
            Action::Allow => "allow",
            Action::Deny => "deny",
        }
    }
}

impl Operation {
    /// The canonical token of this operation.
    pub fn token(&self) -> (r: &'static str)
        ensures
            r@ == operation_token(*self),
    {
        match self {
            Operation::Default => "default",
            Operation::FileAll => "file*",
            Operation::FileReadAll => "file-read*",
            Operation::FileWriteAll => "file-write*",
            Operation::FileReadMetadata => "file-read-metadata",
            Operation::FileIoctl => "file-ioctl",
            Operation::IpcAll => "ipc*",
            Operation::IpcPosixShmReadData => "ipc-posix-shm-read-data",
            Operation::MachAll => "mach*",
            Operation::MachLookup => "mach-lookup",
            Operation::NetworkAll => "network*",
            Operation::NetworkOutbound => "network-outbound",
            Operation::ProcessAll => "process*",
            Operation::ProcessFork => "process-fork",
            Operation::Signal => "signal",
            Operation::SysctlAll => "sysctl*",
            Operation::SysctlRead => "sysctl-read",
            Operation::SystemAll => "system*",
            Operation::UserPreferenceRead => "user-preference-read",
        }
    }
}

impl Filter {
    /// The textual form of this filter.
    pub fn text(&self) -> (r: String)
        ensures
            r@ == filter_text(self@),
    {
        match self {
            Filter::Literal(p) => {
                let mut s = String::from_str("literal \"");
                s.append(p.as_str());
                s.append("\"");
                proof {
                    assert(s@ =~= filter_text(self@));
                }
                s
            },
            Filter::Prefix(p) => {
                let mut s = String::from_str("prefix \"");
                s.append(p.as_str());
                s.append("\"");
                proof {
                    assert(s@ =~= filter_text(self@));
                }
                s
            },
            Filter::Regex(p) => {
                let mut s = String::from_str("regex #\"");
                s.append(p.as_str());
                s.append("\"");
                proof {
                    assert(s@ =~= filter_text(self@));
                }
                s
            },
            Filter::RemoteIp(p) => {
                let mut s = String::from_str("remote ip \"");
                s.append(p.as_str());
                s.append("\"");
                proof {
                    assert(s@ =~= filter_text(self@));
                }
                s
            },
            Filter::RemoteUnixSocket(p) => {
                let mut s = String::from_str("remote unix-socket (path-literal \"");
                s.append(p.as_str());
                s.append("\")");
                proof {
                    assert(s@ =~= filter_text(self@));
                }
                s
            },
        }
    }
}

impl Rule {
    /// The textual form of this rule.
    pub fn text(&self) -> (r: String)
        ensures
            r@ == rule_text(self@),
    {
        let mut s = String::from_str("(");
        s.append(self.action.token());
        s.append(" ");
        s.append(self.operation.token());
        let ghost header = "("@ + action_token(self.action) + " "@ + operation_token(
            self.operation,
        );
        assert(s@ == header);
        if self.filters.len() == 0 {
            s.append(")");
            proof {
                assert(s@ =~= rule_text(self@));
            }
            s
        } else {
            s.append("\n");
            let n = self.filters.len();
            let mut i: usize = 0;
            while i < n
                invariant
                    i <= n,
                    n == self.filters.len(),
                    s@ == header + "\n"@ + filters_block(self@.filters.take(i as int)),
                decreases n - i,
            {
                s.append("  (");
                let ft = self.filters[i].text();
                s.append(ft.as_str());
                s.append(")\n");
                proof {
                    let fs = self@.filters;
                    assert(self.filters[i as int]@ == fs[i as int]);
                    lemma_filters_block_push(fs.take(i as int), fs[i as int]);
                    assert(fs.take(i as int).push(fs[i as int]) =~= fs.take(i + 1 as int));
                    assert(s@ =~= header + "\n"@ + filters_block(fs.take(i + 1 as int)));
                }
                i = i + 1;
            }
            s.append(")");
            proof {
                assert(self@.filters.take(n as int) =~= self@.filters);
                assert(s@ =~= rule_text(self@));
            }
            s
        }
    }
}

impl Profile {
    /// The textual form of this profile.
    pub fn to_text(&self) -> (r: String)
        ensures
            r@ == profile_text(self@),
    {
        let mut s = String::from_str("(version 1)\n");
        let n = self.rules.len();
        let mut i: usize = 0;
        while i < n
            invariant
                i <= n,
                n == self.rules.len(),
                s@ == "(version 1)\n"@ + rules_text(self@.take(i as int)),
            decreases n - i,
        {
            let rt = self.rules[i].text();
            s.append(rt.as_str());
            s.append("\n");
            proof {
                let rs = self@;
                assert(self.rules[i as int]@ == rs[i as int]);
                lemma_rules_text_push(rs.take(i as int), rs[i as int]);
                assert(rs.take(i as int).push(rs[i as int]) =~= rs.take(i + 1 as int));
                assert(s@ =~= "(version 1)\n"@ + rules_text(rs.take(i + 1 as int)));
            }
            i = i + 1;
        }
        proof {
            assert(self@.take(n as int) =~= self@);
        }
        s
    }
}

} // verus!

