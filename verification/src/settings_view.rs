//! The settings screen.
//!
//! # Presence, never the secret
//!
//! A header can hold a literal value as well as a keychain reference, and this screen shows
//! headers. A secret never leaves here at all: [`SecretPresence`] has no field that could hold
//! one. Redacting where a value is shown means that it travelled.
//!
//! # An unmapped capability is a finding, not an absence
//!
//! What could not be bound carries what was looked for and what the server actually has. A
//! server that was never contacted has unknown mappings, not unmapped ones: reporting unmapped
//! capabilities for a server nobody has spoken to would send somebody writing overrides for
//! tools that are probably there.

use vstd::prelude::*;

use crate::budgets::BudgetSettings;
use crate::doctor::DoctorReport;
use crate::text::{
    a_part_is_joined, cat3, cat5, copy_texts, first_index, first_index_is, first_index_none, join, joined,
    opt_text, push_contains, same, stands_inside, texts, within,
};

verus! {

/// How long transcripts are kept unless something else is configured.
pub const DEFAULT_RETENTION_DAYS: u32 = 30;

/// Why the settings could not be assembled.
#[derive(Clone, Debug, PartialEq, Eq)]
pub enum SettingsError {
    /// A target's table could not be read.
    Spec {
        /// What is wrong, in terms the screen can show.
        detail: String,
    },
    /// An override was refused.
    Override {
        /// Why.
        detail: String,
    },
}

impl SettingsError {
    /// The error in words.
    pub fn describe(&self) -> (r: String)
        ensures
            r@ == match *self {
                Self::Spec { detail } => detail@,
                Self::Override { detail } => detail@,
            },
    {
        match self {
            Self::Spec { detail } => detail.clone(),
            Self::Override { detail } => detail.clone(),
        }
    }
}

/// A configured value that may be a secret.
#[derive(Clone, Debug, PartialEq, Eq)]
pub enum SecretRef {
    /// An entry of the keychain.
    Keychain {
        /// Its name.
        name: String,
    },
    /// A value written in the file.
    Literal(String),
}

/// That a secret is configured, and where it comes from. Never what it is.
#[derive(Clone, Debug, PartialEq, Eq)]
pub struct SecretPresence {
    /// Which header carries it.
    pub header: String,
    /// `keychain` or `literal`.
    pub source: String,
    /// The keychain entry's name, when it has one: it points at something somebody can go and
    /// check.
    pub keychain_entry: Option<String>,
    /// What to do about it, when there is something to do.
    pub advice: Option<String>,
}

/// What is told of a secret.
pub struct Presence {
    /// Which header carries it.
    pub header: Seq<char>,
    /// Where it comes from.
    pub source: Seq<char>,
    /// The keychain entry's name.
    pub keychain_entry: Option<Seq<char>>,
    /// What to do about it.
    pub advice: Option<Seq<char>>,
}

impl View for SecretPresence {
    type V = Presence;

    open spec fn view(&self) -> Presence {
        Presence {
            header: self.header@,
            source: self.source@,
            keychain_entry: opt_text(self.keychain_entry),
            advice: opt_text(self.advice),
        }
    }
}

/// What is told of a configured header.
pub open spec fn presence_of(header: Seq<char>, secret: SecretRef) -> Presence {
    match secret {
        SecretRef::Keychain { name } => Presence {
            header,
            source: "keychain"@,
            keychain_entry: Some(name@),
            advice: None,
        },
        SecretRef::Literal(_) => Presence {
            header,
            source: "literal"@,
            keychain_entry: None,
            advice: Some("written in the config file; consider {{keychain:name}} instead"@),
        },
    }
}

impl SecretPresence {
    /// Describe one configured header without carrying its value.
    pub fn of(header: &str, secret: &SecretRef) -> (r: SecretPresence)
        ensures
            r@ == presence_of(header@, *secret),
    {
        match secret {
            SecretRef::Keychain { name } => SecretPresence {
                header: header.to_owned(),
                source: "keychain".to_owned(),
                keychain_entry: Some(name.clone()),
                advice: None,
            },
            // The value is not read.
            SecretRef::Literal(_) => SecretPresence {
                header: header.to_owned(),
                source: "literal".to_owned(),
                keychain_entry: None,
                advice: Some(
                    "written in the config file; consider {{keychain:name}} instead".to_owned(),
                ),
            },
        }
    }
}

/// How a server is configured.
#[derive(Clone, Debug, PartialEq, Eq)]
pub struct ServerSettings {
    /// `stdio` or `http`.
    pub transport: String,
    /// The command of a `stdio` server.
    pub command: Option<String>,
    /// Its arguments.
    pub args: Vec<String>,
    /// The address of an `http` server.
    pub url: Option<String>,
    /// Its headers, by name.
    pub headers: Vec<(String, SecretRef)>,
}

/// Whether a server answers.
#[derive(Clone, Debug, PartialEq, Eq)]
pub enum ServerState {
    /// Nobody has asked.
    Unknown,
    /// It answered.
    Reachable {
        /// How many tools it has.
        tools: usize,
    },
    /// It did not answer.
    Unreachable {
        /// Why.
        reason: String,
        /// Whether trying again could help, when that is known.
        retryable: Option<bool>,
    },
}

/// One configured server.
#[derive(Clone, Debug, PartialEq, Eq)]
pub struct ServerPanel {
    /// Its name, as configured.
    pub id: String,
    /// `stdio` or `http`.
    pub transport: String,
    /// The command or address, whichever this transport uses, as configured.
    pub endpoint: String,
    /// Which headers hold secrets, and where from. Never the secrets.
    pub secrets: Vec<SecretPresence>,
    /// The tools it reported, by name.
    pub tools: Vec<String>,
    /// One line about it.
    pub summary: String,
    /// Whether it was contacted at all.
    pub contacted: bool,
    /// Why it did not answer, when it did not.
    pub error: Option<String>,
}

/// The command or address of a server, as configured.
pub open spec fn endpoint_of(settings: ServerSettings) -> Seq<char> {
    if settings.transport@ == "http"@ {
        match settings.url {
            Some(url) => url@,
            None => Seq::empty(),
        }
    } else {
        joined(
            seq![
                match settings.command {
                    Some(command) => command@,
                    None => Seq::empty(),
                },
            ] + texts(settings.args@),
            " "@,
        )
    }
}

/// What is told of configured headers.
pub open spec fn presences(headers: Seq<(String, SecretRef)>) -> Seq<Presence> {
    headers.map_values(|h: (String, SecretRef)| presence_of(h.0@, h.1))
}

/// What is told of secrets.
pub open spec fn told_of(v: Seq<SecretPresence>) -> Seq<Presence> {
    v.map_values(|p: SecretPresence| p@)
}

fn presences_of(headers: &Vec<(String, SecretRef)>) -> (r: Vec<SecretPresence>)
    ensures
        told_of(r@) == presences(headers@),
{
    let mut r: Vec<SecretPresence> = Vec::new();
    let mut i: usize = 0;
    while i < headers.len()
        invariant
            i <= headers.len(),
            r@.len() == i,
            forall|j: int| 0 <= j < i ==> (#[trigger] r@[j])@ == presence_of(headers@[j].0@, headers@[j].1),
        decreases headers.len() - i,
    {
        r.push(SecretPresence::of(headers[i].0.as_str(), &headers[i].1));
        i += 1;
    }
    assert(told_of(r@) =~= presences(headers@));
    r
}

fn or_nothing(o: &Option<String>) -> (r: String)
    ensures
        r@ == match *o {
            Some(s) => s@,
            None => Seq::empty(),
        },
{
    match o {
        Some(s) => s.clone(),
        None => {
            let s = "".to_owned();
            proof {
                reveal_strlit("");
            }
            assert(s@ =~= Seq::empty());
            s
        },
    }
}

/// Describe one configured server, without contacting it.
pub fn server_panel(
    id: &str,
    settings: &ServerSettings,
    state: &ServerState,
    summary: &str,
    tools: &Vec<String>,
) -> (r: ServerPanel)
    ensures
        r.id@ == id@,
        r.transport@ == settings.transport@,
        r.endpoint@ == endpoint_of(*settings),
        told_of(r.secrets@) == presences(settings.headers@),
        texts(r.tools@) == texts(tools@),
        r.summary@ == summary@,
        r.contacted == !(state is Unknown),
        opt_text(r.error) == match *state {
            ServerState::Unreachable { reason, .. } => Some(reason@),
            _ => None,
        },
{
    let endpoint = if same(settings.transport.as_str(), "http") {
        or_nothing(&settings.url)
    } else {
        let mut parts: Vec<String> = Vec::new();
        parts.push(or_nothing(&settings.command));
        let ghost first = parts@;
        let mut args = copy_texts(&settings.args);
        parts.append(&mut args);
        assert(texts(parts@) =~= texts(first) + texts(settings.args@));
        assert(texts(first) =~= seq![first[0]@]);
        join(&parts, " ")
    };
    let error: Option<String> = match state {
        ServerState::Unreachable { reason, .. } => Some(reason.clone()),
        _ => None,
    };
    ServerPanel {
        id: id.to_owned(),
        transport: settings.transport.clone(),
        endpoint,
        secrets: presences_of(&settings.headers),
        tools: copy_texts(tools),
        summary: summary.to_owned(),
        contacted: !matches!(state, ServerState::Unknown),
        error,
    }
}

/// A capability that was bound to a tool.
#[derive(Clone, Debug, PartialEq, Eq)]
pub struct Binding {
    /// What is to be done.
    pub capability: String,
    /// The tool that does it.
    pub tool: String,
    /// Whether a person said so.
    pub from_override: bool,
}

/// A capability that could not be bound.
#[derive(Clone, Debug, PartialEq, Eq)]
pub struct Unmapped {
    /// What was to be done.
    pub capability: String,
    /// The tools that were looked for, in order.
    pub candidates: Vec<String>,
    /// The tools that there are.
    pub available: Vec<String>,
    /// That, in a sentence.
    pub explanation: String,
}

/// A target's capabilities, as resolved against its server.
#[derive(Clone, Debug, PartialEq, Eq)]
pub struct TargetMapping {
    /// Which target.
    pub target: String,
    /// Which server.
    pub server: String,
    /// What was bound.
    pub bound: Vec<Binding>,
    /// What was not.
    pub unmapped: Vec<Unmapped>,
}

/// One capability that bound.
#[derive(Clone, Debug, PartialEq, Eq)]
pub struct BoundRow {
    /// What is to be done.
    pub capability: String,
    /// The tool it resolved to.
    pub tool: String,
    /// Whether a person said so, or resolution worked it out: a table that showed them alike
    /// would make an override impossible to find again.
    pub from_override: bool,
}

/// One capability that did not bind, and everything needed to fix it.
#[derive(Clone, Debug, PartialEq, Eq)]
pub struct UnmappedRow {
    /// What was to be done.
    pub capability: String,
    /// The tools that were looked for, in order.
    pub candidates: Vec<String>,
    /// What the server has instead: what a manual override picks from.
    pub available: Vec<String>,
    /// That, in a sentence.
    pub explanation: String,
}

/// One target's capability mapping.
#[derive(Clone, Debug, PartialEq, Eq)]
pub struct TargetPanel {
    /// Which target.
    pub target: String,
    /// Which server it resolves against.
    pub server: String,
    /// Capabilities that bound.
    pub bound: Vec<BoundRow>,
    /// Capabilities that did not.
    pub unmapped: Vec<UnmappedRow>,
    /// Whether the server has answered. When it has not, the mapping is unknown.
    pub server_contacted: bool,
}

/// Whether a row shows a binding.
pub open spec fn shows_bound(row: BoundRow, b: Binding) -> bool {
    row.capability@ == b.capability@ && row.tool@ == b.tool@ && row.from_override == b.from_override
}

/// Whether a row shows what could not be bound.
pub open spec fn shows_unmapped(row: UnmappedRow, u: Unmapped) -> bool {
    row.capability@ == u.capability@ && texts(row.candidates@) == texts(u.candidates@) && texts(
        row.available@,
    ) == texts(u.available@) && row.explanation@ == u.explanation@
}

impl TargetPanel {
    /// Whether the panel shows a mapping, in full and in order.
    pub open spec fn shows(self, mapping: TargetMapping) -> bool {
        &&& self.target@ == mapping.target@
        &&& self.server@ == mapping.server@
        &&& self.bound@.len() == mapping.bound@.len()
        &&& forall|i: int|
            0 <= i < self.bound@.len() ==> shows_bound(#[trigger] self.bound@[i], mapping.bound@[i])
        &&& self.unmapped@.len() == mapping.unmapped@.len()
        &&& forall|i: int|
            0 <= i < self.unmapped@.len() ==> shows_unmapped(
                #[trigger] self.unmapped@[i],
                mapping.unmapped@[i],
            )
    }

    /// Whether the panel says that nothing is known of a target's mapping.
    pub open spec fn unknown(self, target: Seq<char>, server: Seq<char>) -> bool {
        &&& self.target@ == target
        &&& self.server@ == server
        &&& self.bound@.len() == 0
        &&& self.unmapped@.len() == 0
        &&& !self.server_contacted
    }

    /// Whether anything here needs attention.
    pub fn has_unmapped(&self) -> (r: bool)
        ensures
            r == (self.unmapped@.len() > 0),
    {
        !self.unmapped.is_empty()
    }
}

/// Turn a resolved mapping into a panel.
pub fn target_panel(mapping: &TargetMapping, server_contacted: bool) -> (r: TargetPanel)
    ensures
        r.shows(*mapping),
        r.server_contacted == server_contacted,
{
    let mut bound: Vec<BoundRow> = Vec::new();
    let mut i: usize = 0;
    while i < mapping.bound.len()
        invariant
            i <= mapping.bound.len(),
            bound@.len() == i,
            forall|j: int| 0 <= j < i ==> shows_bound(#[trigger] bound@[j], mapping.bound@[j]),
        decreases mapping.bound.len() - i,
    {
        let b = &mapping.bound[i];
        bound.push(
            BoundRow {
                capability: b.capability.clone(),
                tool: b.tool.clone(),
                from_override: b.from_override,
            },
        );
        i += 1;
    }
    let mut unmapped: Vec<UnmappedRow> = Vec::new();
    let mut k: usize = 0;
    while k < mapping.unmapped.len()
        invariant
            k <= mapping.unmapped.len(),
            unmapped@.len() == k,
            forall|j: int| 0 <= j < k ==> shows_unmapped(#[trigger] unmapped@[j], mapping.unmapped@[j]),
        decreases mapping.unmapped.len() - k,
    {
        let u = &mapping.unmapped[k];
        unmapped.push(
            UnmappedRow {
                capability: u.capability.clone(),
                candidates: copy_texts(&u.candidates),
                available: copy_texts(&u.available),
                explanation: u.explanation.clone(),
            },
        );
        k += 1;
    }
    TargetPanel {
        target: mapping.target.clone(),
        server: mapping.server.clone(),
        bound,
        unmapped,
        server_contacted,
    }
}

/// A target whose server has not answered: not one that has nothing mapped.
pub fn unknown_target_panel(target: &str, server: &str) -> (r: TargetPanel)
    ensures
        r.unknown(target@, server@),
{
    TargetPanel {
        target: target.to_owned(),
        server: server.to_owned(),
        bound: Vec::new(),
        unmapped: Vec::new(),
        server_contacted: false,
    }
}

/// Budgets and retention.
#[derive(Clone, Debug, PartialEq, Eq)]
pub struct Limits {
    /// Daily token allowance per repository.
    pub daily_tokens_per_repo: u64,
    /// Daily run allowance per repository.
    pub daily_runs_per_repo: u32,
    /// The bits of the daily allowance in dollars, as a double; zero means unlimited.
    pub daily_cost_bits: u64,
    /// What happens when an allowance runs out.
    pub on_exhausted: String,
    /// How long transcripts are kept.
    pub transcript_retention_days: u32,
}

impl Limits {
    /// Read the limits out of the settings.
    pub fn of(budgets: &BudgetSettings, daily_cost_bits: u64, transcript_retention_days: u32) -> (r: Limits)
        ensures
            r.daily_tokens_per_repo == budgets.daily_tokens_per_repo,
            r.daily_runs_per_repo == budgets.daily_runs_per_repo,
            r.daily_cost_bits == daily_cost_bits,
            r.on_exhausted@ == budgets.on_exhausted.word(),
            r.transcript_retention_days == transcript_retention_days,
    {
        Limits {
            daily_tokens_per_repo: budgets.daily_tokens_per_repo,
            daily_runs_per_repo: budgets.daily_runs_per_repo,
            daily_cost_bits,
            on_exhausted: budgets.on_exhausted.as_str().to_owned(),
            transcript_retention_days,
        }
    }
}

/// The screen's data.
#[derive(Clone, Debug, PartialEq, Eq)]
pub struct SettingsView {
    /// What is wrong with the machine and the install.
    pub doctor: DoctorReport,
    /// Configured servers with their tools.
    pub servers: Vec<ServerPanel>,
    /// Capability mapping, one panel per target.
    pub targets: Vec<TargetPanel>,
    /// Budgets and retention.
    pub limits: Limits,
    /// Where the settings being shown came from.
    pub config_path: String,
    /// Where manual overrides are stored.
    pub overrides_path: String,
    /// Targets that could not be read. A target that cannot be is one whose findings silently go
    /// nowhere.
    pub target_errors: Vec<String>,
}

/// How many capabilities are unmapped in these panels.
pub open spec fn unmapped_in(targets: Seq<TargetPanel>) -> nat
    decreases targets.len(),
{
    if targets.len() == 0 {
        0
    } else {
        unmapped_in(targets.drop_last()) + targets.last().unmapped@.len()
    }
}

proof fn prefixes_have_fewer(targets: Seq<TargetPanel>, n: int)
    requires
        0 <= n <= targets.len(),
    ensures
        unmapped_in(targets.take(n)) <= unmapped_in(targets),
    decreases targets.len(),
{
    if n < targets.len() {
        prefixes_have_fewer(targets.drop_last(), n);
        assert(targets.drop_last().take(n) =~= targets.take(n));
    } else {
        assert(targets.take(n) =~= targets);
    }
}

impl SettingsView {
    /// How many capabilities are unmapped across every target, so that the screen can lead with
    /// it.
    pub fn unmapped_count(&self) -> (r: usize)
        requires
            unmapped_in(self.targets@) <= usize::MAX,
        ensures
            r == unmapped_in(self.targets@),
    {
        let mut n: usize = 0;
        let mut i: usize = 0;
        assert(self.targets@.take(0) =~= Seq::empty());
        while i < self.targets.len()
            invariant
                i <= self.targets.len(),
                unmapped_in(self.targets@) <= usize::MAX,
                n == unmapped_in(self.targets@.take(i as int)),
            decreases self.targets.len() - i,
        {
            proof {
                assert(self.targets@.take(i + 1).drop_last() =~= self.targets@.take(i as int));
                prefixes_have_fewer(self.targets@, i + 1);
            }
            n = n + self.targets[i].unmapped.len();
            i += 1;
        }
        assert(self.targets@.take(self.targets@.len() as int) =~= self.targets@);
        n
    }
}

// --- which servers are contacted, and what comes of it ---

/// How to reach a server.
#[derive(Clone, Debug, PartialEq, Eq)]
pub enum ClientPlan {
    /// Run a command and speak to it.
    Stdio {
        /// The command.
        command: String,
        /// Its arguments.
        args: Vec<String>,
    },
    /// Send requests to an address, with the configured headers.
    Http {
        /// The address.
        url: String,
    },
}

/// How a server is reached, or why it cannot be: its transport is unknown, or lacks what it
/// needs.
pub open spec fn reached_by(
    id: Seq<char>,
    settings: ServerSettings,
) -> Result<(Seq<char>, Option<Seq<Seq<char>>>), Seq<char>> {
    if settings.transport@ == "stdio"@ {
        match settings.command {
            Some(command) => Ok((command@, Some(texts(settings.args@)))),
            None => Err("server `"@ + id + "` is stdio and has no `command`"@),
        }
    } else if settings.transport@ == "http"@ {
        match settings.url {
            Some(url) => Ok((url@, None)),
            None => Err("server `"@ + id + "` is http and has no `url`"@),
        }
    } else {
        Err(
            "server `"@ + id + "` has transport `"@ + settings.transport@
                + "`; §13.1 knows `stdio` and `http`"@,
        )
    }
}

/// What a plan comes to: where to go, and with which arguments where it is a command.
pub open spec fn plan_view(plan: ClientPlan) -> (Seq<char>, Option<Seq<Seq<char>>>) {
    match plan {
        ClientPlan::Stdio { command, args } => (command@, Some(texts(args@))),
        ClientPlan::Http { url } => (url@, None),
    }
}

/// Plan how to reach a configured server. One that cannot be reached is reported rather than
/// skipped: somebody would stare at the screen wondering where it went.
pub fn client_for(id: &str, settings: &ServerSettings) -> (r: Result<ClientPlan, String>)
    ensures
        match r {
            Ok(plan) => reached_by(id@, *settings) == Ok::<_, Seq<char>>(plan_view(plan)),
            Err(detail) => reached_by(id@, *settings) == Err::<(Seq<char>, Option<Seq<Seq<char>>>), _>(
                detail@,
            ),
        },
{
    proof {
        reveal_strlit("stdio");
        reveal_strlit("http");
    }
    if same(settings.transport.as_str(), "stdio") {
        return match &settings.command {
            Some(command) => Ok(
                ClientPlan::Stdio { command: command.clone(), args: copy_texts(&settings.args) },
            ),
            None => Err(cat3("server `", id, "` is stdio and has no `command`")),
        };
    }
    if same(settings.transport.as_str(), "http") {
        return match &settings.url {
            Some(url) => Ok(ClientPlan::Http { url: url.clone() }),
            None => Err(cat3("server `", id, "` is http and has no `url`")),
        };
    }
    Err(
        cat5(
            "server `",
            id,
            "` has transport `",
            settings.transport.as_str(),
            "`; §13.1 knows `stdio` and `http`",
        ),
    )
}

/// What came of asking a server for its tools.
#[derive(Debug, PartialEq, Eq)]
pub enum Contact {
    /// It could not be planned how to reach it.
    NotPlanned {
        /// Why.
        detail: String,
    },
    /// Its tools, by name.
    Tools(Vec<String>),
    /// It could not be asked.
    Failed {
        /// Why.
        reason: String,
        /// Whether trying again could help, when that is known.
        retryable: Option<bool>,
    },
    /// Nobody knows the server.
    Absent,
}

/// Whether a state is what a contact comes to. A server that is misconfigured is not worth
/// retrying: trying again changes nothing about what the file says.
pub open spec fn comes_to(state: ServerState, contact: Contact) -> bool {
    match contact {
        Contact::NotPlanned { detail } => {
            &&& state matches ServerState::Unreachable { reason, retryable }
            &&& reason@ == detail@
            &&& retryable == Some(false)
        },
        Contact::Tools(tools) => state == ServerState::Reachable { tools: tools@.len() as usize },
        Contact::Failed { reason: why, retryable: again } => {
            &&& state matches ServerState::Unreachable { reason, retryable }
            &&& reason@ == why@
            &&& retryable == again
        },
        Contact::Absent => state is Unknown,
    }
}

/// What a contact comes to.
pub fn state_after(contact: &Contact) -> (r: ServerState)
    ensures
        comes_to(r, *contact),
{
    match contact {
        Contact::NotPlanned { detail } => ServerState::Unreachable {
            reason: detail.clone(),
            retryable: Some(false),
        },
        Contact::Tools(tools) => ServerState::Reachable { tools: tools.len() },
        Contact::Failed { reason, retryable } => ServerState::Unreachable {
            reason: reason.clone(),
            retryable: *retryable,
        },
        Contact::Absent => ServerState::Unknown,
    }
}

// --- targets ---

/// A target and the server it resolves against.
#[derive(Clone, Debug, PartialEq, Eq)]
pub struct TargetSpec {
    /// Which target.
    pub id: String,
    /// Which server.
    pub mcp_server: String,
}

/// The targets that could be read, in order.
pub open spec fn read_specs(parsed: Seq<Result<TargetSpec, String>>) -> Seq<TargetSpec>
    decreases parsed.len(),
{
    if parsed.len() == 0 {
        Seq::empty()
    } else {
        match parsed.last() {
            Ok(spec) => read_specs(parsed.drop_last()).push(spec),
            Err(_) => read_specs(parsed.drop_last()),
        }
    }
}

/// Why those that could not be read could not be, in order.
pub open spec fn spec_errors(parsed: Seq<Result<TargetSpec, String>>) -> Seq<Seq<char>>
    decreases parsed.len(),
{
    if parsed.len() == 0 {
        Seq::empty()
    } else {
        match parsed.last() {
            Ok(_) => spec_errors(parsed.drop_last()),
            Err(error) => spec_errors(parsed.drop_last()).push(error@),
        }
    }
}

/// Names and servers of targets.
pub open spec fn spec_views(v: Seq<TargetSpec>) -> Seq<(Seq<char>, Seq<char>)> {
    v.map_values(|s: TargetSpec| (s.id@, s.mcp_server@))
}

/// Whether one of the targets has a name.
pub open spec fn has_target(specs: Seq<TargetSpec>, id: Seq<char>) -> bool {
    exists|i: int| 0 <= i < specs.len() && (#[trigger] specs[i]).id@ == id
}

/// The targets shown: those configured that could be read, and the one that is built in where
/// no configured one takes its place.
pub open spec fn shown_targets(
    parsed: Seq<Result<TargetSpec, String>>,
    builtin: Option<TargetSpec>,
) -> Seq<(Seq<char>, Seq<char>)> {
    let own = spec_views(read_specs(parsed));
    if has_target(read_specs(parsed), "andare"@) || builtin is None {
        own
    } else {
        own.push((builtin->0.id@, builtin->0.mcp_server@))
    }
}

fn copy_spec(spec: &TargetSpec) -> (r: TargetSpec)
    ensures
        r == *spec,
{
    TargetSpec { id: spec.id.clone(), mcp_server: spec.mcp_server.clone() }
}

/// Collect the targets to show, and why those that cannot be shown cannot be.
pub fn collect_specs(
    parsed: &Vec<Result<TargetSpec, String>>,
    builtin: Option<TargetSpec>,
) -> (r: (Vec<TargetSpec>, Vec<String>))
    ensures
        spec_views(r.0@) == shown_targets(parsed@, builtin),
        texts(r.1@) == spec_errors(parsed@),
{
    let mut specs: Vec<TargetSpec> = Vec::new();
    let mut errors: Vec<String> = Vec::new();
    let mut known: bool = false;
    let mut i: usize = 0;
    assert(parsed@.take(0) =~= Seq::empty());
    assert(texts(errors@) =~= Seq::empty());
    while i < parsed.len()
        invariant
            i <= parsed.len(),
            specs@ == read_specs(parsed@.take(i as int)),
            texts(errors@) == spec_errors(parsed@.take(i as int)),
            known == has_target(specs@, "andare"@),
        decreases parsed.len() - i,
    {
        assert(parsed@.take(i + 1).drop_last() =~= parsed@.take(i as int));
        match &parsed[i] {
            Ok(spec) => {
                let ghost was = specs@;
                let is_andare = same(spec.id.as_str(), "andare");
                specs.push(copy_spec(spec));
                proof {
                    if is_andare {
                        assert(specs@[was.len() as int].id@ == "andare"@);
                    }
                    if has_target(was, "andare"@) {
                        let k = choose|k: int| 0 <= k < was.len() && (#[trigger] was[k]).id@ == "andare"@;
                        assert(specs@[k].id@ == "andare"@);
                    }
                    if has_target(specs@, "andare"@) && !is_andare {
                        let k = choose|k: int|
                            0 <= k < specs@.len() && (#[trigger] specs@[k]).id@ == "andare"@;
                        assert(was[k].id@ == "andare"@);
                    }
                }
                known = known || is_andare;
            },
            Err(error) => {
                let ghost was = errors@;
                errors.push(error.clone());
                assert(texts(errors@) =~= texts(was).push(error@));
            },
        }
        i += 1;
    }
    assert(parsed@.take(parsed@.len() as int) =~= parsed@);
    let ghost own = specs@;
    if !known {
        if let Some(spec) = builtin {
            specs.push(spec);
            assert(spec_views(specs@) =~= spec_views(own).push((spec.id@, spec.mcp_server@)));
        }
    }
    (specs, errors)
}

/// Whether a target's panel shows its mapping, or, without one, that it is unknown.
pub open spec fn panel_for(panel: TargetPanel, spec: TargetSpec, mapping: Option<TargetMapping>) -> bool {
    match mapping {
        Some(m) => panel.shows(m) && panel.server_contacted,
        None => panel.unknown(spec.id@, spec.mcp_server@),
    }
}

/// One panel per target, given the mapping of each whose server has answered.
pub fn target_panels(specs: &Vec<TargetSpec>, mappings: &Vec<Option<TargetMapping>>) -> (r: Vec<TargetPanel>)
    requires
        mappings@.len() == specs@.len(),
    ensures
        r@.len() == specs@.len(),
        forall|i: int| 0 <= i < r@.len() ==> panel_for(#[trigger] r@[i], specs@[i], mappings@[i]),
{
    let mut r: Vec<TargetPanel> = Vec::new();
    let mut i: usize = 0;
    while i < specs.len()
        invariant
            i <= specs.len() == mappings.len(),
            r@.len() == i,
            forall|j: int| 0 <= j < i ==> panel_for(#[trigger] r@[j], specs@[j], mappings@[j]),
        decreases specs.len() - i,
    {
        let panel = match &mappings[i] {
            Some(mapping) => target_panel(mapping, true),
            None => unknown_target_panel(specs[i].id.as_str(), specs[i].mcp_server.as_str()),
        };
        r.push(panel);
        i += 1;
    }
    r
}

/// How many capabilities of the targets that resolve against a server are bound, and how many
/// are not.
pub open spec fn counts_for(
    server: Seq<char>,
    specs: Seq<TargetSpec>,
    mappings: Seq<Option<TargetMapping>>,
) -> (nat, nat)
    decreases specs.len(),
{
    if specs.len() == 0 {
        (0, 0)
    } else {
        let before = counts_for(server, specs.drop_last(), mappings.drop_last());
        if specs.last().mcp_server@ == server && mappings.last() is Some {
            (before.0 + mappings.last()->0.bound@.len(), before.1 + mappings.last()->0.unmapped@.len())
        } else {
            before
        }
    }
}

proof fn prefixes_map_less(
    server: Seq<char>,
    specs: Seq<TargetSpec>,
    mappings: Seq<Option<TargetMapping>>,
    n: int,
)
    requires
        0 <= n <= specs.len(),
        mappings.len() == specs.len(),
    ensures
        counts_for(server, specs.take(n), mappings.take(n)).0 <= counts_for(server, specs, mappings).0,
        counts_for(server, specs.take(n), mappings.take(n)).1 <= counts_for(server, specs, mappings).1,
    decreases specs.len(),
{
    if n < specs.len() {
        prefixes_map_less(server, specs.drop_last(), mappings.drop_last(), n);
        assert(specs.drop_last().take(n) =~= specs.take(n));
        assert(mappings.drop_last().take(n) =~= mappings.take(n));
    } else {
        assert(specs.take(n) =~= specs);
        assert(mappings.take(n) =~= mappings);
    }
}

/// How many capabilities of the targets that resolve against a server are bound, and how many
/// are not.
pub fn mapped_counts(
    server: &str,
    specs: &Vec<TargetSpec>,
    mappings: &Vec<Option<TargetMapping>>,
) -> (r: (usize, usize))
    requires
        mappings@.len() == specs@.len(),
        counts_for(server@, specs@, mappings@).0 <= usize::MAX,
        counts_for(server@, specs@, mappings@).1 <= usize::MAX,
    ensures
        r.0 == counts_for(server@, specs@, mappings@).0,
        r.1 == counts_for(server@, specs@, mappings@).1,
{
    let mut bound: usize = 0;
    let mut unmapped: usize = 0;
    let mut i: usize = 0;
    assert(specs@.take(0) =~= Seq::empty());
    while i < specs.len()
        invariant
            i <= specs.len() == mappings.len(),
            counts_for(server@, specs@, mappings@).0 <= usize::MAX,
            counts_for(server@, specs@, mappings@).1 <= usize::MAX,
            bound == counts_for(server@, specs@.take(i as int), mappings@.take(i as int)).0,
            unmapped == counts_for(server@, specs@.take(i as int), mappings@.take(i as int)).1,
        decreases specs.len() - i,
    {
        proof {
            assert(specs@.take(i + 1).drop_last() =~= specs@.take(i as int));
            assert(mappings@.take(i + 1).drop_last() =~= mappings@.take(i as int));
            prefixes_map_less(server@, specs@, mappings@, i + 1);
        }
        if same(specs[i].mcp_server.as_str(), server) {
            if let Some(mapping) = &mappings[i] {
                bound = bound + mapping.bound.len();
                unmapped = unmapped + mapping.unmapped.len();
            }
        }
        i += 1;
    }
    assert(specs@.take(specs@.len() as int) =~= specs@);
    assert(mappings@.take(mappings@.len() as int) =~= mappings@);
    (bound, unmapped)
}

/// Servers of a name.
pub open spec fn server_named(server: Seq<char>) -> spec_fn((String, Contact)) -> bool {
    |asked: (String, Contact)| asked.0@ == server
}

/// The server, among those that were asked, whose tools a target resolves against: the one it
/// names, where that one gave them.
pub open spec fn answering_server(asked: Seq<(String, Contact)>, server: Seq<char>) -> Option<int> {
    match first_index(asked, server_named(server)) {
        Some(i) => if asked[i].1 is Tools {
            Some(i)
        } else {
            None
        },
        None => None,
    }
}

/// The server whose tools a target resolves against. There is none for a target whose server is
/// not configured, could not be reached or was never asked: its mapping is unknown.
pub fn answering(asked: &Vec<(String, Contact)>, spec: &TargetSpec) -> (r: Option<usize>)
    ensures
        answering_server(asked@, spec.mcp_server@) == match r {
            Some(i) => Some(i as int),
            None => None,
        },
        r matches Some(i) ==> i < asked@.len() && asked@[i as int].1 is Tools,
{
    let ghost named = server_named(spec.mcp_server@);
    let mut i: usize = 0;
    while i < asked.len()
        invariant
            i <= asked.len(),
            named == server_named(spec.mcp_server@),
            forall|j: int| 0 <= j < i ==> !named(#[trigger] asked@[j]),
        decreases asked.len() - i,
    {
        if same(asked[i].0.as_str(), spec.mcp_server.as_str()) {
            proof {
                first_index_is(asked@, named, i as int);
            }
            return if matches!(asked[i].1, Contact::Tools(_)) {
                Some(i)
            } else {
                None
            };
        }
        i += 1;
    }
    proof {
        first_index_none(asked@, named);
    }
    None
}

// --- the screen ---

/// A configured server: what asking it came to, and the line that tells of it.
#[derive(Debug, PartialEq, Eq)]
pub struct Heard {
    /// Its name.
    pub id: String,
    /// How it is configured.
    pub settings: ServerSettings,
    /// What asking it came to.
    pub contact: Contact,
    /// A line on it.
    pub summary: String,
}

/// The tools that a server gave.
pub open spec fn tools_given(contact: Contact) -> Seq<Seq<char>> {
    match contact {
        Contact::Tools(tools) => texts(tools@),
        _ => Seq::empty(),
    }
}

impl ServerPanel {
    /// Whether the panel tells of a server.
    pub open spec fn tells_of(self, heard: Heard) -> bool {
        &&& self.id@ == heard.id@
        &&& self.transport@ == heard.settings.transport@
        &&& self.endpoint@ == endpoint_of(heard.settings)
        &&& told_of(self.secrets@) == presences(heard.settings.headers@)
        &&& texts(self.tools@) == tools_given(heard.contact)
        &&& self.summary@ == heard.summary@
        &&& self.contacted == !(heard.contact is Absent)
        &&& opt_text(self.error) == match heard.contact {
            Contact::NotPlanned { detail } => Some(detail@),
            Contact::Failed { reason, .. } => Some(reason@),
            _ => None,
        }
    }
}

fn panel_of(heard: &Heard) -> (r: ServerPanel)
    ensures
        r.tells_of(*heard),
{
    let state = state_after(&heard.contact);
    let none: Vec<String> = Vec::new();
    assert(texts(none@) =~= Seq::empty());
    let tools: &Vec<String> = match &heard.contact {
        Contact::Tools(tools) => tools,
        _ => &none,
    };
    server_panel(heard.id.as_str(), &heard.settings, &state, heard.summary.as_str(), tools)
}

/// Put the screen together: a panel for each server and for each target, and every target that
/// could not be read named beside them.
pub fn gather(
    doctor: DoctorReport,
    heard: &Vec<Heard>,
    specs: &Vec<TargetSpec>,
    mappings: &Vec<Option<TargetMapping>>,
    limits: Limits,
    config_path: &str,
    overrides_path: &str,
    target_errors: Vec<String>,
) -> (r: SettingsView)
    requires
        mappings@.len() == specs@.len(),
    ensures
        r.doctor == doctor,
        r.servers@.len() == heard@.len(),
        forall|i: int| 0 <= i < heard@.len() ==> (#[trigger] r.servers@[i]).tells_of(heard@[i]),
        r.targets@.len() == specs@.len(),
        forall|i: int| 0 <= i < specs@.len() ==> panel_for(#[trigger] r.targets@[i], specs@[i], mappings@[i]),
        r.limits == limits,
        r.config_path@ == config_path@,
        r.overrides_path@ == overrides_path@,
        r.target_errors == target_errors,
{
    let mut servers: Vec<ServerPanel> = Vec::new();
    let mut i: usize = 0;
    while i < heard.len()
        invariant
            i <= heard.len(),
            servers@.len() == i,
            forall|j: int| 0 <= j < i ==> (#[trigger] servers@[j]).tells_of(heard@[j]),
        decreases heard.len() - i,
    {
        servers.push(panel_of(&heard[i]));
        i += 1;
    }
    SettingsView {
        doctor,
        servers,
        targets: target_panels(specs, mappings),
        limits,
        config_path: config_path.to_owned(),
        overrides_path: overrides_path.to_owned(),
        target_errors,
    }
}

// --- manual bindings ---

/// The target that a manual binding is for: the configured one where it can be read, or the
/// built-in one.
pub fn override_target(
    target: &str,
    configured: &Option<Result<TargetSpec, String>>,
    builtin: &Option<TargetSpec>,
) -> (r: Result<TargetSpec, SettingsError>)
    ensures
        match (*configured, *builtin) {
            (Some(Ok(spec)), _) => r == Ok::<_, SettingsError>(spec),
            (Some(Err(error)), _) => {
                &&& r matches Err(SettingsError::Spec { detail })
                &&& detail@ == error@
            },
            (None, Some(spec)) => r == Ok::<_, SettingsError>(spec),
            (None, None) => {
                &&& r matches Err(SettingsError::Spec { detail })
                &&& detail@ == "no target `"@ + target@ + "` is configured"@
            },
        },
{
    match configured {
        Some(Ok(spec)) => Ok(copy_spec(spec)),
        Some(Err(error)) => Err(SettingsError::Spec { detail: error.clone() }),
        None => match builtin {
            Some(spec) => Ok(copy_spec(spec)),
            None => Err(
                SettingsError::Spec { detail: cat3("no target `", target, "` is configured") },
            ),
        },
    }
}

/// How the server of a manual binding is reached.
pub fn override_client(server: &str, settings: &Option<ServerSettings>) -> (r: Result<ClientPlan, SettingsError>)
    ensures
        match *settings {
            None => {
                &&& r matches Err(SettingsError::Spec { detail })
                &&& detail@ == "no MCP server `"@ + server@ + "` is configured"@
            },
            Some(s) => match reached_by(server@, s) {
                Ok(plan) => r is Ok && plan_view(r->Ok_0) == plan,
                Err(why) => {
                    &&& r matches Err(SettingsError::Spec { detail })
                    &&& detail@ == why
                },
            },
        },
{
    match settings {
        None => Err(
            SettingsError::Spec { detail: cat3("no MCP server `", server, "` is configured") },
        ),
        Some(s) => match client_for(server, s) {
            Ok(plan) => Ok(plan),
            Err(detail) => Err(SettingsError::Spec { detail }),
        },
    }
}

/// The tools that a manual binding is held against. A binding is refused here rather than at the
/// first publish that needed it.
pub fn override_tools(server: &str, contact: Contact) -> (r: Result<Vec<String>, SettingsError>)
    ensures
        match contact {
            Contact::Tools(tools) => r == Ok::<_, SettingsError>(tools),
            Contact::Failed { reason, .. } => {
                &&& r matches Err(SettingsError::Override { detail })
                &&& detail@ == reason@
            },
            Contact::NotPlanned { detail: why } => {
                &&& r matches Err(SettingsError::Spec { detail })
                &&& detail@ == why@
            },
            Contact::Absent => {
                &&& r matches Err(SettingsError::Spec { detail })
                &&& detail@ == "no MCP server `"@ + server@ + "` is configured"@
            },
        },
{
    match contact {
        Contact::Tools(tools) => Ok(tools),
        Contact::Failed { reason, .. } => Err(SettingsError::Override { detail: reason }),
        Contact::NotPlanned { detail } => Err(SettingsError::Spec { detail }),
        Contact::Absent => Err(
            SettingsError::Spec { detail: cat3("no MCP server `", server, "` is configured") },
        ),
    }
}

// --- what holds of the screen ---

/// A literal secret never leaves: what is told of a header is the same whatever the value.
pub proof fn a_literal_is_never_told(header: Seq<char>, one: String, other: String)
    ensures
        presence_of(header, SecretRef::Literal(one)) == presence_of(header, SecretRef::Literal(other)),
{
}

/// A server nobody has heard from has no unmapped capabilities: its targets' panels say that
/// nothing is known.
pub proof fn an_unheard_server_has_nothing_unmapped(
    panel: TargetPanel,
    spec: TargetSpec,
    mapping: Option<TargetMapping>,
)
    requires
        panel_for(panel, spec, mapping),
    ensures
        !panel.server_contacted ==> panel.bound@.len() == 0 && panel.unmapped@.len() == 0,
        panel.server_contacted == (mapping is Some),
{
}

/// Every configured target is shown or accounted for.
pub proof fn no_target_is_swallowed(parsed: Seq<Result<TargetSpec, String>>)
    ensures
        read_specs(parsed).len() + spec_errors(parsed).len() == parsed.len(),
    decreases parsed.len(),
{
    if parsed.len() > 0 {
        no_target_is_swallowed(parsed.drop_last());
    }
}

/// What is told of a secret is where it is kept: the entry of the keychain where it is there, and
/// that it had better be where it stands in the open. The header is told either way.
pub proof fn where_a_secret_is_kept_is_told(header: Seq<char>, name: String, value: String)
    ensures
        presence_of(header, SecretRef::Keychain { name }).header == header,
        presence_of(header, SecretRef::Keychain { name }).source == "keychain"@,
        presence_of(header, SecretRef::Keychain { name }).keychain_entry == Some(name@),
        presence_of(header, SecretRef::Keychain { name }).advice is None,
        presence_of(header, SecretRef::Literal(value)).header == header,
        presence_of(header, SecretRef::Literal(value)).source == "literal"@,
        presence_of(header, SecretRef::Literal(value)).keychain_entry is None,
        presence_of(header, SecretRef::Literal(value)).advice is Some,
{
}

/// Where a server is: under its address where it is reached over a network, and otherwise what is
/// run, with what it is given.
pub proof fn where_a_server_is(settings: ServerSettings, i: int)
    ensures
        settings.transport@ == "http"@ ==> endpoint_of(settings) == if settings.url is Some {
            settings.url->0@
        } else {
            Seq::empty()
        },
        settings.transport@ != "http"@ && settings.command is Some ==> settings.command->0@.is_prefix_of(
            endpoint_of(settings),
        ),
        settings.transport@ != "http"@ && 0 <= i < settings.args@.len() ==> within(
            endpoint_of(settings),
            settings.args@[i]@,
        ),
        settings.transport@ != "http"@ && settings.args@.len() == 0 && settings.command is Some ==> endpoint_of(settings)
            == settings.command->0@,
{
    let command = match settings.command {
        Some(command) => command@,
        None => Seq::empty(),
    };
    let parts = seq![command] + texts(settings.args@);
    if settings.transport@ != "http"@ {
        the_first_part_is_first(parts, " "@);
        if 0 <= i < settings.args@.len() {
            a_part_is_joined(parts, " "@, i + 1);
            assert(parts[i + 1] == settings.args@[i]@);
        }
    }
}

proof fn the_first_part_is_first(parts: Seq<Seq<char>>, sep: Seq<char>)
    requires
        parts.len() > 0,
    ensures
        parts[0].is_prefix_of(joined(parts, sep)),
    decreases parts.len(),
{
    let all = joined(parts, sep);
    if parts.len() == 1 {
        assert(all.subrange(0, parts[0].len() as int) =~= parts[0]);
    } else {
        the_first_part_is_first(parts.drop_last(), sep);
        let before = joined(parts.drop_last(), sep);
        assert(all.subrange(0, parts[0].len() as int) =~= before.subrange(0, parts[0].len() as int));
    }
}

/// How a server is reached: by running what it names with what it is given, or at the address it
/// names. One that names neither, or is to be reached in another way, is not, and is told.
pub proof fn how_a_server_is_reached(id: Seq<char>, settings: ServerSettings)
    ensures
        settings.transport@ == "stdio"@ && settings.command is Some ==> reached_by(id, settings) == Ok::<_, Seq<char>>(
            (settings.command->0@, Some(texts(settings.args@))),
        ),
        settings.transport@ == "http"@ && settings.url is Some ==> reached_by(id, settings) == Ok::<_, Seq<char>>(
            (settings.url->0@, None::<Seq<Seq<char>>>),
        ),
        settings.transport@ == "stdio"@ && settings.command is None ==> reached_by(id, settings) is Err,
        settings.transport@ == "http"@ && settings.url is None ==> reached_by(id, settings) is Err,
        settings.transport@ != "stdio"@ && settings.transport@ != "http"@ ==> (reached_by(id, settings) matches Err(why)
            && within(why, settings.transport@)),
        reached_by(id, settings) matches Err(why) ==> within(why, id),
{
    reveal_strlit("stdio");
    reveal_strlit("http");
    assert("stdio"@.len() == 5 && "http"@.len() == 4);
    let a = "server `"@;
    stands_inside(a, id, "` is stdio and has no `command`"@);
    stands_inside(a, id, "` is http and has no `url`"@);
    let b = "` has transport `"@;
    let c = "`; §13.1 knows `stdio` and `http`"@;
    let t = settings.transport@;
    stands_inside(a, id, b + t + c);
    assert(a + id + (b + t + c) =~= a + id + b + t + c);
    stands_inside(a + id + b, t, c);
}

/// A server that answered is there, with as many tools as it told of; one that did not is not, for
/// the reason that was given; of one that was not asked nothing is known.
pub proof fn a_server_is_there_where_it_answered(state: ServerState, contact: Contact)
    requires
        comes_to(state, contact),
    ensures
        state is Reachable == contact is Tools,
        state is Unknown == contact is Absent,
        contact matches Contact::Tools(tools) ==> (state matches ServerState::Reachable { tools: n } && n
            == tools@.len()),
        contact matches Contact::Failed { reason, retryable } ==> (state matches ServerState::Unreachable {
            reason: why,
            retryable: again,
        } && why@ == reason@ && again == retryable),
        contact matches Contact::NotPlanned { detail } ==> (state matches ServerState::Unreachable {
            reason: why,
            retryable: again,
        } && why@ == detail@ && again == Some(false)),
{
    if let Contact::Tools(tools) = contact {
        assert(tools.len() == tools@.len());
    }
}

/// What a panel says of a server is what was heard of it: that it failed only where it did, and tools
/// only where it told of them.
pub proof fn a_panel_tells_what_was_heard(panel: ServerPanel, heard: Heard)
    requires
        panel.tells_of(heard),
    ensures
        panel.id@ == heard.id@,
        panel.summary@ == heard.summary@,
        heard.contact matches Contact::Tools(tools) ==> texts(panel.tools@) == texts(tools@) && panel.error is None
            && panel.contacted,
        heard.contact matches Contact::Failed { reason, .. } ==> opt_text(panel.error) == Some(reason@)
            && panel.tools@.len() == 0 && panel.contacted,
        heard.contact matches Contact::NotPlanned { detail } ==> opt_text(panel.error) == Some(detail@)
            && panel.tools@.len() == 0 && panel.contacted,
        heard.contact is Absent ==> panel.error is None && panel.tools@.len() == 0 && !panel.contacted,
        panel.secrets@.len() == heard.settings.headers@.len(),
        forall|i: int|
            0 <= i < panel.secrets@.len() ==> (#[trigger] panel.secrets@[i])@.header
                == heard.settings.headers@[i].0@,
{
    assert(texts(panel.tools@).len() == panel.tools@.len());
    assert(told_of(panel.secrets@).len() == presences(heard.settings.headers@).len());
    assert forall|i: int| 0 <= i < panel.secrets@.len() implies (#[trigger] panel.secrets@[i])@.header
        == heard.settings.headers@[i].0@ by {
        assert(told_of(panel.secrets@)[i] == presences(heard.settings.headers@)[i]);
    }
}

/// What a target's panel says is its mapping, row by row, or else only that nothing is known.
pub proof fn a_target_is_shown_as_it_is_mapped(
    panel: TargetPanel,
    spec: TargetSpec,
    mapping: TargetMapping,
    i: int,
)
    ensures
        panel_for(panel, spec, None) ==> panel.target@ == spec.id@ && panel.server@ == spec.mcp_server@
            && !panel.server_contacted && panel.bound@.len() == 0 && panel.unmapped@.len() == 0,
        panel_for(panel, spec, Some(mapping)) ==> panel.target@ == mapping.target@ && panel.server@ == mapping.server@
            && panel.server_contacted && panel.bound@.len() == mapping.bound@.len() && panel.unmapped@.len()
            == mapping.unmapped@.len(),
        panel_for(panel, spec, Some(mapping)) && 0 <= i < mapping.bound@.len() ==> panel.bound@[i].capability@
            == mapping.bound@[i].capability@ && panel.bound@[i].tool@ == mapping.bound@[i].tool@
            && panel.bound@[i].from_override == mapping.bound@[i].from_override,
        panel_for(panel, spec, Some(mapping)) && 0 <= i < mapping.unmapped@.len() ==> panel.unmapped@[i].capability@
            == mapping.unmapped@[i].capability@ && texts(panel.unmapped@[i].candidates@) == texts(
            mapping.unmapped@[i].candidates@,
        ) && texts(panel.unmapped@[i].available@) == texts(mapping.unmapped@[i].available@)
            && panel.unmapped@[i].explanation@ == mapping.unmapped@[i].explanation@,
{
    if panel_for(panel, spec, Some(mapping)) {
        if 0 <= i < mapping.bound@.len() {
            assert(shows_bound(panel.bound@[i], mapping.bound@[i]));
        }
        if 0 <= i < mapping.unmapped@.len() {
            assert(shows_unmapped(panel.unmapped@[i], mapping.unmapped@[i]));
        }
    }
}

/// Each target that could be read is shown and the error of each that could not is told; the one that
/// is there anyway is shown behind them, unless one of them is called so.
pub proof fn every_target_is_shown_or_told(parsed: Seq<Result<TargetSpec, String>>, builtin: TargetSpec, i: int)
    ensures
        0 <= i < parsed.len() && parsed[i] is Ok ==> shown_targets(parsed, None).contains(
            (parsed[i]->Ok_0.id@, parsed[i]->Ok_0.mcp_server@),
        ) && shown_targets(parsed, Some(builtin)).contains((parsed[i]->Ok_0.id@, parsed[i]->Ok_0.mcp_server@)),
        0 <= i < parsed.len() && parsed[i] is Err ==> spec_errors(parsed).contains(parsed[i]->Err_0@),
        0 <= i < parsed.len() && parsed[i] is Ok && parsed[i]->Ok_0.id@ == "andare"@ ==> shown_targets(
            parsed,
            Some(builtin),
        ) == shown_targets(parsed, None),
        (forall|k: int| 0 <= k < parsed.len() && (#[trigger] parsed[k]) is Ok ==> parsed[k]->Ok_0.id@ != "andare"@)
            ==> shown_targets(parsed, Some(builtin)) == shown_targets(parsed, None).push(
            (builtin.id@, builtin.mcp_server@),
        ),
{
    let own = read_specs(parsed);
    let shown = spec_views(own);
    if 0 <= i < parsed.len() {
        what_was_parsed_is_kept(parsed, i);
        if parsed[i] is Ok {
            let k = choose|k: int| 0 <= k < own.len() && own[k] == parsed[i]->Ok_0;
            assert(shown[k] == (own[k].id@, own[k].mcp_server@));
            assert(shown.push((builtin.id@, builtin.mcp_server@))[k] == shown[k]);
        }
    }
    if forall|k: int| 0 <= k < parsed.len() && (#[trigger] parsed[k]) is Ok ==> parsed[k]->Ok_0.id@ != "andare"@ {
        if has_target(own, "andare"@) {
            let k = choose|k: int| 0 <= k < own.len() && (#[trigger] own[k]).id@ == "andare"@;
            what_is_read_was_parsed(parsed, k);
        }
    }
}

proof fn what_was_parsed_is_kept(parsed: Seq<Result<TargetSpec, String>>, i: int)
    requires
        0 <= i < parsed.len(),
    ensures
        parsed[i] is Ok ==> read_specs(parsed).contains(parsed[i]->Ok_0),
        parsed[i] is Err ==> spec_errors(parsed).contains(parsed[i]->Err_0@),
    decreases parsed.len(),
{
    let before = parsed.drop_last();
    if i < before.len() {
        what_was_parsed_is_kept(before, i);
        assert(before[i] == parsed[i]);
    }
    match parsed.last() {
        Ok(spec) => {
            if parsed[i] is Ok {
                push_contains(read_specs(before), spec, parsed[i]->Ok_0);
            }
        },
        Err(error) => {
            if parsed[i] is Err {
                push_contains(spec_errors(before), error@, parsed[i]->Err_0@);
            }
        },
    }
}

proof fn what_is_read_was_parsed(parsed: Seq<Result<TargetSpec, String>>, k: int)
    requires
        0 <= k < read_specs(parsed).len(),
    ensures
        exists|i: int|
            0 <= i < parsed.len() && (#[trigger] parsed[i]) is Ok && parsed[i]->Ok_0 == read_specs(parsed)[k],
    decreases parsed.len(),
{
    if parsed.len() > 0 {
        let before = parsed.drop_last();
        if k < read_specs(before).len() {
            what_is_read_was_parsed(before, k);
            let i = choose|i: int|
                0 <= i < before.len() && (#[trigger] before[i]) is Ok && before[i]->Ok_0 == read_specs(before)[k];
            assert(parsed[i] == before[i]);
        } else {
            assert(parsed[parsed.len() - 1] is Ok);
        }
    }
}

/// What is unmapped is counted panel by panel, and what a server has bound and unmapped is counted
/// over the targets that go to it and were mapped.
pub proof fn what_is_mapped_adds_up(
    targets: Seq<TargetPanel>,
    one: TargetPanel,
    server: Seq<char>,
    specs: Seq<TargetSpec>,
    spec: TargetSpec,
    mappings: Seq<Option<TargetMapping>>,
    mapping: Option<TargetMapping>,
)
    requires
        specs.len() == mappings.len(),
    ensures
        unmapped_in(Seq::empty()) == 0,
        unmapped_in(targets.push(one)) == unmapped_in(targets) + one.unmapped@.len(),
        counts_for(server, Seq::empty(), Seq::empty()) == (0nat, 0nat),
        spec.mcp_server@ == server && mapping is Some ==> counts_for(server, specs.push(spec), mappings.push(mapping)).0
            == counts_for(server, specs, mappings).0 + mapping->0.bound@.len() && counts_for(
            server,
            specs.push(spec),
            mappings.push(mapping),
        ).1 == counts_for(server, specs, mappings).1 + mapping->0.unmapped@.len(),
        spec.mcp_server@ != server || mapping is None ==> counts_for(server, specs.push(spec), mappings.push(mapping))
            == counts_for(server, specs, mappings),
{
    assert(targets.push(one).drop_last() =~= targets);
    assert(specs.push(spec).drop_last() =~= specs);
    assert(mappings.push(mapping).drop_last() =~= mappings);
}

/// The server that answers for a name is the first that is called so, where it answered.
pub proof fn the_first_of_a_name_answers(asked: Seq<(String, Contact)>, server: Seq<char>, i: int)
    ensures
        0 <= i < asked.len() && asked[i].0@ == server && (forall|j: int|
            0 <= j < i ==> (#[trigger] asked[j]).0@ != server) ==> answering_server(asked, server) == if asked[i].1 is Tools {
            Some(i)
        } else {
            None
        },
        (forall|j: int| 0 <= j < asked.len() ==> (#[trigger] asked[j]).0@ != server) ==> answering_server(
            asked,
            server,
        ) is None,
{
    let p = server_named(server);
    if 0 <= i < asked.len() && asked[i].0@ == server && (forall|j: int|
        0 <= j < i ==> (#[trigger] asked[j]).0@ != server) {
        assert forall|j: int| 0 <= j < i implies !p(#[trigger] asked[j]) by {}
        first_index_is(asked, p, i);
    }
    if forall|j: int| 0 <= j < asked.len() ==> (#[trigger] asked[j]).0@ != server {
        assert forall|j: int| 0 <= j < asked.len() implies !p(#[trigger] asked[j]) by {}
        first_index_none(asked, p);
    }
}

} // verus!
