//! What is wrong, and what to type about it.
//!
//! # Reporting, never fixing
//!
//! Engines authenticate through the user's own logins and no keys are stored here, so an engine
//! that is not logged in is something to report.
//!
//! # Not installed is not the same as not working
//!
//! An engine can be installed, logged in, and still not honour the output contract, because its
//! flags changed under it. That is the failure to catch before a real review spends tokens
//! discovering it, and it is invisible to a version check.
//!
//! # A missing prerequisite is only a problem for what needs it
//!
//! Subversion missing on a machine with no SVN repositories is a fact, not a fault. Reporting it
//! as a failure trains people to ignore the report.

use vstd::prelude::*;

use crate::approvals::{deadline, expires_at, time_left_words};
use crate::clock::{whole_units, Timestamp, NANOS_PER_HOUR};
use crate::model::EngineKind;
use crate::text::{
    a_part_is_joined, cat2, cat3, cat4, cat5, cat6, cat7, count, decimal, inside_stays, join, joined, num,
    one_of_six, opt_text, push_contains, same, stands_at, stands_inside, texts, within,
};

verus! {

/// How a checked thing is doing.
#[derive(Clone, Copy, Debug, PartialEq, Eq, Structural)]
pub enum Health {
    /// Working.
    Working,
    /// Working, with something worth knowing.
    Warn,
    /// Not working, and something depends on it.
    Fail,
    /// Absent, and nothing configured needs it.
    NotNeeded,
}

impl Health {
    /// The marker that is printed.
    pub open spec fn mark(self) -> Seq<char> {
        match self {
            Self::Working => "ok  "@,
            Self::Warn => "warn"@,
            Self::Fail => "FAIL"@,
            Self::NotNeeded => "n/a "@,
        }
    }

    /// The marker that is printed.
    pub fn marker(self) -> (r: &'static str)
        ensures
            r@ == self.mark(),
    {
        match self {
            Self::Working => "ok  ",
            Self::Warn => "warn",
            Self::Fail => "FAIL",
            Self::NotNeeded => "n/a ",
        }
    }

    /// Whether this should make the command fail. A warning that does is a warning nobody
    /// leaves in.
    pub fn is_blocking(self) -> (r: bool)
        ensures
            r == (self == Self::Fail),
    {
        matches!(self, Self::Fail)
    }
}

/// One checked thing.
#[derive(Clone, Debug, PartialEq, Eq)]
pub struct Check {
    /// What was checked.
    pub name: String,
    /// How it is doing.
    pub health: Health,
    /// What was found.
    pub detail: String,
    /// What to type next.
    pub remediation: Option<String>,
}

/// What a check says.
pub struct Reading {
    /// What was checked.
    pub name: Seq<char>,
    /// How it is doing.
    pub health: Health,
    /// What was found.
    pub detail: Seq<char>,
    /// What to type next.
    pub remediation: Option<Seq<char>>,
}

impl View for Check {
    type V = Reading;

    open spec fn view(&self) -> Reading {
        Reading {
            name: self.name@,
            health: self.health,
            detail: self.detail@,
            remediation: opt_text(self.remediation),
        }
    }
}

impl Reading {
    /// Something that works.
    pub open spec fn ok(name: Seq<char>, detail: Seq<char>) -> Reading {
        Reading { name, health: Health::Working, detail, remediation: None }
    }

    /// Something that does not work, with what to do about it.
    pub open spec fn fail(name: Seq<char>, detail: Seq<char>, remediation: Seq<char>) -> Reading {
        Reading { name, health: Health::Fail, detail, remediation: Some(remediation) }
    }

    /// Something worth knowing, with what to do about it.
    pub open spec fn warn(name: Seq<char>, detail: Seq<char>, remediation: Seq<char>) -> Reading {
        Reading { name, health: Health::Warn, detail, remediation: Some(remediation) }
    }

    /// The line that is printed.
    pub open spec fn printed(self) -> Seq<char> {
        let head = "  ["@ + self.health.mark() + "] "@ + self.name + ": "@ + self.detail;
        match self.remediation {
            Some(remediation) => head + "\n         try: "@ + remediation,
            None => head,
        }
    }
}

/// What checks say.
pub open spec fn readings(v: Seq<Check>) -> Seq<Reading> {
    v.map_values(|c: Check| c@)
}

impl Check {
    /// A passing check.
    pub fn ok(name: &str, detail: &str) -> (r: Check)
        ensures
            r@ == Reading::ok(name@, detail@),
    {
        Check { name: name.to_owned(), health: Health::Working, detail: detail.to_owned(), remediation: None }
    }

    /// A check that failed, with what to do about it.
    pub fn fail(name: &str, detail: &str, remediation: &str) -> (r: Check)
        ensures
            r@ == Reading::fail(name@, detail@, remediation@),
    {
        Check {
            name: name.to_owned(),
            health: Health::Fail,
            detail: detail.to_owned(),
            remediation: Some(remediation.to_owned()),
        }
    }

    /// Something worth knowing that is not stopping anything.
    pub fn warn(name: &str, detail: &str, remediation: Option<&str>) -> (r: Check)
        ensures
            r@ == (Reading {
                name: name@,
                health: Health::Warn,
                detail: detail@,
                remediation: crate::text::opt_str(remediation),
            }),
    {
        Check {
            name: name.to_owned(),
            health: Health::Warn,
            detail: detail.to_owned(),
            remediation: match remediation {
                Some(r) => Some(r.to_owned()),
                None => None,
            },
        }
    }

    /// Absent, and nothing needs it.
    pub fn not_needed(name: &str, detail: &str) -> (r: Check)
        ensures
            r@ == (Reading {
                name: name@,
                health: Health::NotNeeded,
                detail: detail@,
                remediation: None,
            }),
    {
        Check {
            name: name.to_owned(),
            health: Health::NotNeeded,
            detail: detail.to_owned(),
            remediation: None,
        }
    }

    /// The line that is printed.
    pub fn line(&self) -> (r: String)
        ensures
            r@ == self@.printed(),
    {
        let mut out = cat6(
            "  [",
            self.health.marker(),
            "] ",
            self.name.as_str(),
            ": ",
            self.detail.as_str(),
        );
        if let Some(remediation) = &self.remediation {
            out.append("\n         try: ");
            out.append(remediation.as_str());
        }
        out
    }
}

/// What was found. An empty report is one for which nothing was checked.
#[derive(Clone, Debug, PartialEq, Eq)]
pub struct DoctorReport {
    /// Tools that are run.
    pub prerequisites: Vec<Check>,
    /// One per engine, and one per engine whose spending cannot be measured.
    pub engines: Vec<Check>,
    /// One per configured target.
    pub targets: Vec<Check>,
    /// Anything about this platform worth saying.
    pub platform: Vec<Check>,
    /// What the install itself is doing.
    pub install: Vec<Check>,
}

/// How many checks are in a state.
pub open spec fn in_state(checks: Seq<Reading>, health: Health) -> nat
    decreases checks.len(),
{
    if checks.len() == 0 {
        0
    } else {
        in_state(checks.drop_last(), health) + if checks.last().health == health {
            1nat
        } else {
            0
        }
    }
}

/// The printed lines of checks, each with its line end.
pub open spec fn printed_lines(checks: Seq<Reading>) -> Seq<char>
    decreases checks.len(),
{
    if checks.len() == 0 {
        Seq::empty()
    } else {
        printed_lines(checks.drop_last()) + checks.last().printed() + seq!['\n']
    }
}

/// A part of the report under its title; nothing for a part with no checks.
pub open spec fn part(title: Seq<char>, checks: Seq<Reading>) -> Seq<char> {
    if checks.len() == 0 {
        Seq::empty()
    } else {
        title + seq!['\n'] + printed_lines(checks) + seq!['\n']
    }
}

fn write_part(title: &str, checks: &Vec<Check>) -> (r: String)
    ensures
        r@ == part(title@, readings(checks@)),
{
    let mut out = "".to_owned();
    proof {
        reveal_strlit("");
    }
    if checks.is_empty() {
        assert(out@ =~= part(title@, readings(checks@)));
        return out;
    }
    out.append(title);
    out.push('\n');
    let ghost head = out@;
    let ghost all = readings(checks@);
    assert(head =~= title@ + seq!['\n']);
    let mut i: usize = 0;
    assert(all.take(0) =~= Seq::empty());
    assert(out@ =~= head + printed_lines(all.take(0)));
    while i < checks.len()
        invariant
            i <= checks.len(),
            all == readings(checks@),
            out@ == head + printed_lines(all.take(i as int)),
        decreases checks.len() - i,
    {
        assert(all.take(i + 1).drop_last() =~= all.take(i as int));
        out.append(checks[i].line().as_str());
        out.push('\n');
        assert(out@ =~= head + printed_lines(all.take(i + 1)));
        i += 1;
    }
    assert(all.take(all.len() as int) =~= all);
    out.push('\n');
    assert(out@ =~= part(title@, readings(checks@)));
    out
}

fn add_refs<'a>(to: &mut Vec<&'a Check>, checks: &'a Vec<Check>)
    ensures
        pointed(final(to)@) == pointed(old(to)@) + readings(checks@),
{
    let ghost was = to@;
    let mut i: usize = 0;
    assert(pointed(to@) =~= pointed(was) + readings(checks@).take(0));
    while i < checks.len()
        invariant
            i <= checks.len(),
            pointed(to@) == pointed(was) + readings(checks@).take(i as int),
        decreases checks.len() - i,
    {
        let ghost before = to@;
        to.push(&checks[i]);
        assert(pointed(to@) =~= pointed(before).push(readings(checks@)[i as int]));
        assert(readings(checks@).take(i + 1) =~= readings(checks@).take(i as int).push(
            readings(checks@)[i as int],
        ));
        assert(pointed(to@) =~= pointed(was) + readings(checks@).take(i + 1));
        i += 1;
    }
    assert(readings(checks@).take(checks@.len() as int) =~= readings(checks@));
}

/// What checks say.
pub open spec fn pointed(v: Seq<&Check>) -> Seq<Reading> {
    v.map_values(|c: &Check| c@)
}

impl DoctorReport {
    /// What every check says, in the order of the report.
    pub open spec fn everything(self) -> Seq<Reading> {
        readings(self.prerequisites@) + readings(self.engines@) + readings(self.targets@) + readings(
            self.platform@,
        ) + readings(self.install@)
    }

    /// Every check, in the order of the report.
    pub fn all(&self) -> (r: Vec<&Check>)
        ensures
            pointed(r@) == self.everything(),
    {
        let mut r: Vec<&Check> = Vec::new();
        assert(pointed(r@) =~= Seq::empty());
        add_refs(&mut r, &self.prerequisites);
        add_refs(&mut r, &self.engines);
        add_refs(&mut r, &self.targets);
        add_refs(&mut r, &self.platform);
        add_refs(&mut r, &self.install);
        assert(pointed(r@) =~= self.everything());
        r
    }

    /// Whether anything is actually broken.
    pub fn has_failures(&self) -> (r: bool)
        ensures
            r == (in_state(self.everything(), Health::Fail) > 0),
    {
        let (_, _, fail, _) = self.tally();
        fail > 0
    }

    /// How many checks are in each state: working, warning, failing, not needed.
    pub fn tally(&self) -> (r: (usize, usize, usize, usize))
        ensures
            r.0 == in_state(self.everything(), Health::Working),
            r.1 == in_state(self.everything(), Health::Warn),
            r.2 == in_state(self.everything(), Health::Fail),
            r.3 == in_state(self.everything(), Health::NotNeeded),
    {
        let all = self.all();
        let ghost seen = self.everything();
        let mut ok: usize = 0;
        let mut warn: usize = 0;
        let mut fail: usize = 0;
        let mut idle: usize = 0;
        let mut i: usize = 0;
        assert(seen.take(0) =~= Seq::empty());
        while i < all.len()
            invariant
                i <= all.len(),
                seen == pointed(all@),
                ok + warn + fail + idle == i,
                ok == in_state(seen.take(i as int), Health::Working),
                warn == in_state(seen.take(i as int), Health::Warn),
                fail == in_state(seen.take(i as int), Health::Fail),
                idle == in_state(seen.take(i as int), Health::NotNeeded),
            decreases all.len() - i,
        {
            assert(seen.take(i + 1).drop_last() =~= seen.take(i as int));
            match all[i].health {
                Health::Working => {
                    ok = ok + 1;
                },
                Health::Warn => {
                    warn = warn + 1;
                },
                Health::Fail => {
                    fail = fail + 1;
                },
                Health::NotNeeded => {
                    idle = idle + 1;
                },
            }
            i += 1;
        }
        assert(seen.take(seen.len() as int) =~= seen);
        (ok, warn, fail, idle)
    }

    /// The last lines of the report: the count of each state, and, when nothing is broken,
    /// that it is so. A prerequisite can be perfect while the work sits still, so a warning
    /// about the install is not passed over.
    pub open spec fn closing(self) -> Seq<char> {
        let all = self.everything();
        decimal(in_state(all, Health::Working)) + " ok, "@ + decimal(in_state(all, Health::Warn))
            + " warning(s), "@ + decimal(in_state(all, Health::Fail)) + " failure(s), "@ + decimal(
            in_state(all, Health::NotNeeded),
        ) + " not needed\n"@ + if in_state(all, Health::Fail) > 0 {
            Seq::empty()
        } else if in_state(readings(self.install@), Health::Warn) > 0 {
            "Nothing is blocking a review, but work is not moving — see Install above.\n"@
        } else {
            "Nothing is blocking a review.\n"@
        }
    }

    /// The report for a person.
    pub open spec fn in_words(self) -> Seq<char> {
        part("Prerequisites"@, readings(self.prerequisites@)) + part(
            "Engines"@,
            readings(self.engines@),
        ) + part("Publish targets"@, readings(self.targets@)) + part("Platform"@, readings(self.platform@))
            + part("Install"@, readings(self.install@)) + self.closing()
    }

    /// The report for a person. It says so when nothing is broken: a report that ends in silence
    /// looks like one that stopped early.
    pub fn render_human(&self) -> (r: String)
        ensures
            r@ == self.in_words(),
    {
        let mut out = cat5(
            write_part("Prerequisites", &self.prerequisites).as_str(),
            write_part("Engines", &self.engines).as_str(),
            write_part("Publish targets", &self.targets).as_str(),
            write_part("Platform", &self.platform).as_str(),
            write_part("Install", &self.install).as_str(),
        );
        let ghost parts = out@;
        let (ok, warn, fail, idle) = self.tally();
        let mut closing = cat7(
            count(ok).as_str(),
            " ok, ",
            count(warn).as_str(),
            " warning(s), ",
            count(fail).as_str(),
            " failure(s), ",
            count(idle).as_str(),
        );
        closing.append(" not needed\n");
        if fail == 0 {
            if any_warning(&self.install) {
                closing.append(
                    "Nothing is blocking a review, but work is not moving — see Install above.\n",
                );
            } else {
                closing.append("Nothing is blocking a review.\n");
            }
        }
        assert(closing@ =~= self.closing());
        out.append(closing.as_str());
        out
    }
}

fn any_warning(checks: &Vec<Check>) -> (r: bool)
    ensures
        r == (in_state(readings(checks@), Health::Warn) > 0),
{
    let ghost all = readings(checks@);
    let mut seen: bool = false;
    let mut i: usize = 0;
    assert(all.take(0) =~= Seq::empty());
    while i < checks.len()
        invariant
            i <= checks.len(),
            all == readings(checks@),
            seen == (in_state(all.take(i as int), Health::Warn) > 0),
        decreases checks.len() - i,
    {
        assert(all.take(i + 1).drop_last() =~= all.take(i as int));
        if checks[i].health == Health::Warn {
            seen = true;
        }
        i += 1;
    }
    assert(all.take(all.len() as int) =~= all);
    seen
}

impl Default for DoctorReport {
    fn default() -> (r: DoctorReport)
        ensures
            r.prerequisites@.len() == 0,
            r.engines@.len() == 0,
            r.targets@.len() == 0,
            r.platform@.len() == 0,
            r.install@.len() == 0,
    {
        DoctorReport {
            prerequisites: Vec::new(),
            engines: Vec::new(),
            targets: Vec::new(),
            platform: Vec::new(),
            install: Vec::new(),
        }
    }
}

// --- single checks ---

/// What an engine's probe comes to. The three failures are kept apart because they need
/// different actions: install it, log in to it, or find out why its output stopped parsing.
pub open spec fn engine_reading(
    id: Seq<char>,
    installed: bool,
    version: Option<Seq<char>>,
    authenticated: bool,
    honours_contract: Option<bool>,
    first_remedy: Option<Seq<char>>,
) -> Reading {
    let name = "engine:"@ + id;
    let v = match version {
        Some(v) => v,
        None => "version unknown"@,
    };
    if !installed {
        Reading::fail(
            name,
            "not installed"@,
            match first_remedy {
                Some(remedy) => remedy,
                None => "install "@ + id + ", or set `engines."@ + id + ".bin` to its full path"@,
            },
        )
    } else if !authenticated {
        Reading::fail(
            name,
            "installed ("@ + v + ") but not logged in"@,
            "log in with `"@ + id + "` itself; rev-local stores no API keys (decision D9)"@,
        )
    } else {
        match honours_contract {
            Some(true) => Reading::ok(name, v + ", logged in, output contract verified"@),
            Some(false) => Reading::fail(
                name,
                "installed ("@ + v
                    + ") and logged in, but its smoke task produced no usable result.json"@,
                "run `"@ + id
                    + "` by hand and compare its output to §8.2's contract; a CLI whose flags changed passes a version check and fails every review"@,
            ),
            None => Reading::warn(
                name,
                "installed ("@ + v + ") and logged in; output contract not verified"@,
                "run `revlocal review --repo <path> --rev HEAD --engine <id>` to check it end to end"@,
            ),
        }
    }
}

/// Turn an engine's probe into a check. The smoke task costs tokens, so not having run it is a
/// warning rather than a pass.
pub fn engine_check(
    id: &str,
    installed: bool,
    version: Option<&str>,
    authenticated: bool,
    honours_contract: Option<bool>,
    problems: &Vec<(String, String)>,
) -> (r: Check)
    ensures
        r@ == engine_reading(
            id@,
            installed,
            crate::text::opt_str(version),
            authenticated,
            honours_contract,
            if problems@.len() > 0 {
                Some(problems@[0].1@)
            } else {
                None
            },
        ),
{
    let name = cat2("engine:", id);
    if !installed {
        if problems.len() > 0 {
            return Check::fail(name.as_str(), "not installed", problems[0].1.as_str());
        }
        return Check::fail(
            name.as_str(),
            "not installed",
            cat5("install ", id, ", or set `engines.", id, ".bin` to its full path").as_str(),
        );
    }
    let version: &str = match version {
        Some(v) => v,
        None => "version unknown",
    };
    if !authenticated {
        return Check::fail(
            name.as_str(),
            cat3("installed (", version, ") but not logged in").as_str(),
            cat3("log in with `", id, "` itself; rev-local stores no API keys (decision D9)").as_str(),
        );
    }
    match honours_contract {
        Some(true) => Check::ok(
            name.as_str(),
            cat2(version, ", logged in, output contract verified").as_str(),
        ),
        Some(false) => Check::fail(
            name.as_str(),
            cat3(
                "installed (",
                version,
                ") and logged in, but its smoke task produced no usable result.json",
            ).as_str(),
            cat3(
                "run `",
                id,
                "` by hand and compare its output to §8.2's contract; a CLI whose flags changed passes a version check and fails every review",
            ).as_str(),
        ),
        None => Check::warn(
            name.as_str(),
            cat3("installed (", version, ") and logged in; output contract not verified").as_str(),
            Some(
                "run `revlocal review --repo <path> --rev HEAD --engine <id>` to check it end to end",
            ),
        ),
    }
}

/// What a target's capability mapping comes to. What is not mapped is only useful if somebody
/// can see it.
pub open spec fn target_reading(
    name: Seq<char>,
    reachable: bool,
    tools: nat,
    mapped: nat,
    unmapped: nat,
) -> Reading {
    let check = "target:"@ + name;
    if !reachable {
        Reading::fail(
            check,
            "could not connect"@,
            "check `targets."@ + name + "` in config.toml, then `revlocal targets list`"@,
        )
    } else if unmapped > 0 {
        Reading::warn(
            check,
            decimal(tools) + " tool(s), "@ + decimal(mapped) + " capability/ies mapped, "@ + decimal(
                unmapped,
            ) + " unmapped"@,
            "run `revlocal targets list --json` to see which, then `revlocal targets map "@ + name
                + " <capability> --tool T`"@,
        )
    } else {
        Reading::ok(
            check,
            decimal(tools) + " tool(s), all "@ + decimal(mapped) + " capability/ies mapped"@,
        )
    }
}

/// Turn a target's capability mapping into a check.
pub fn target_check(name: &str, reachable: bool, tools: usize, mapped: usize, unmapped: usize) -> (r: Check)
    ensures
        r@ == target_reading(name@, reachable, tools as nat, mapped as nat, unmapped as nat),
{
    let check = cat2("target:", name);
    if !reachable {
        return Check::fail(
            check.as_str(),
            "could not connect",
            cat3("check `targets.", name, "` in config.toml, then `revlocal targets list`").as_str(),
        );
    }
    if unmapped > 0 {
        return Check::warn(
            check.as_str(),
            cat6(
                count(tools).as_str(),
                " tool(s), ",
                count(mapped).as_str(),
                " capability/ies mapped, ",
                count(unmapped).as_str(),
                " unmapped",
            ).as_str(),
            Some(
                cat3(
                    "run `revlocal targets list --json` to see which, then `revlocal targets map ",
                    name,
                    " <capability> --tool T`",
                ).as_str(),
            ),
        );
    }
    Check::ok(
        check.as_str(),
        cat4(
            count(tools).as_str(),
            " tool(s), all ",
            count(mapped).as_str(),
            " capability/ies mapped",
        ).as_str(),
    )
}

/// Whether a missing `svn` is a problem here: only for the repositories that need it.
pub open spec fn svn_reading(available: bool, svn_repos: nat) -> Reading {
    if available && svn_repos == 0 {
        Reading::ok("svn"@, "available (no SVN repositories configured)"@)
    } else if available {
        Reading::ok(
            "svn"@,
            "available ("@ + decimal(svn_repos) + " SVN repository/ies configured)"@,
        )
    } else if svn_repos == 0 {
        Reading {
            name: "svn"@,
            health: Health::NotNeeded,
            detail: "not installed, and no SVN repositories are configured; git is unaffected"@,
            remediation: None,
        }
    } else {
        Reading::fail(
            "svn"@,
            "NOT INSTALLED, and "@ + decimal(svn_repos)
                + " SVN repository/ies are configured — those cannot be reviewed"@,
            "install Subversion (brew install subversion / apt-get install subversion / winget install --id CollabNet.Subversion); git repositories are unaffected"@,
        )
    }
}

/// Whether a missing `svn` is a problem here.
pub fn svn_check(available: bool, svn_repos: usize) -> (r: Check)
    ensures
        r@ == svn_reading(available, svn_repos as nat),
{
    if available && svn_repos == 0 {
        Check::ok("svn", "available (no SVN repositories configured)")
    } else if available {
        Check::ok(
            "svn",
            cat3("available (", count(svn_repos).as_str(), " SVN repository/ies configured)").as_str(),
        )
    } else if svn_repos == 0 {
        Check::not_needed(
            "svn",
            "not installed, and no SVN repositories are configured; git is unaffected",
        )
    } else {
        Check::fail(
            "svn",
            cat3(
                "NOT INSTALLED, and ",
                count(svn_repos).as_str(),
                " SVN repository/ies are configured — those cannot be reviewed",
            ).as_str(),
            "install Subversion (brew install subversion / apt-get install subversion / winget install --id CollabNet.Subversion); git repositories are unaffected",
        )
    }
}

/// Whether a required tool is there.
pub open spec fn tool_reading(
    tool: Seq<char>,
    available: bool,
    needed_for: Seq<char>,
    install: Seq<char>,
) -> Reading {
    if available {
        Reading::ok(tool, "available"@)
    } else {
        Reading::fail(tool, "not installed, and it is required for "@ + needed_for, install)
    }
}

/// Whether a required tool is there.
pub fn required_tool_check(tool: &str, available: bool, needed_for: &str, install: &str) -> (r: Check)
    ensures
        r@ == tool_reading(tool@, available, needed_for@, install@),
{
    if available {
        return Check::ok(tool, "available");
    }
    Check::fail(tool, cat2("not installed, and it is required for ", needed_for).as_str(), install)
}

/// Whether the runtime of the fixture engine is there. Real reviews work without it.
pub open spec fn node_reading(available: bool) -> Reading {
    if available {
        Reading::ok("node"@, "available (used by the fixture engine)"@)
    } else {
        Reading::warn(
            "node"@,
            "not installed; the fixture engine cannot run, real engines are unaffected"@,
            "install Node.js only if you want to run rev-local's own test fixtures"@,
        )
    }
}

/// Whether an engine's program is there.
#[derive(Clone, Debug, PartialEq, Eq)]
pub enum Readiness {
    /// It is.
    Ready {
        /// Where.
        binary: String,
    },
    /// It is not.
    Skip {
        /// Why.
        reason: String,
    },
}

/// Whether an engine's program is there, and no more: running a smoke task spends tokens, and
/// nobody should be billed for asking. A warning either way. Installed is not logged in, and an
/// engine nobody has configured yet is news and no blockage.
pub open spec fn presence_reading(engine: EngineKind, readiness: Readiness) -> Reading {
    let word = engine.word();
    match readiness {
        Readiness::Ready { binary } => Reading::warn(
            "engine:"@ + word,
            "found at "@ + binary@ + "; not probed"@,
            "check it end to end with `revlocal review --repo <path> --rev HEAD --engine "@ + word
                + "` — being on PATH is not the same as being logged in"@,
        ),
        Readiness::Skip { reason } => Reading::warn(
            "engine:"@ + word,
            reason@,
            "install "@ + word + ", or point `engines."@ + word
                + ".bin` at it in your config — rev-local works without it, reviewing with the mock engine, which spends nothing and invents its findings"@,
        ),
    }
}

/// Whether an engine's program is there.
pub fn engine_presence(engine: EngineKind, readiness: &Readiness) -> (r: Check)
    ensures
        r@ == presence_reading(engine, *readiness),
{
    let word = engine.as_str();
    let name = cat2("engine:", word);
    match readiness {
        Readiness::Ready { binary } => Check::warn(
            name.as_str(),
            cat3("found at ", binary.as_str(), "; not probed").as_str(),
            Some(
                cat3(
                    "check it end to end with `revlocal review --repo <path> --rev HEAD --engine ",
                    word,
                    "` — being on PATH is not the same as being logged in",
                ).as_str(),
            ),
        ),
        Readiness::Skip { reason } => Check::warn(
            name.as_str(),
            reason.as_str(),
            Some(
                cat5(
                    "install ",
                    word,
                    ", or point `engines.",
                    word,
                    ".bin` at it in your config — rev-local works without it, reviewing with the mock engine, which spends nothing and invents its findings",
                ).as_str(),
            ),
        ),
    }
}

/// An engine that cannot say what it spent: it works, and a ceiling on tokens does not hold.
pub open spec fn usage_reading(engine: EngineKind, summary: Seq<char>) -> Reading {
    Reading::warn(
        "engine:"@ + engine.word() + ":usage"@,
        summary,
        "set `budgets.daily_runs_per_repo` too — a run count is measurable for every engine, and a token ceiling alone is not enforceable against this one"@,
    )
}

/// An engine that cannot say what it spent.
pub fn usage_check(engine: EngineKind, summary: &str) -> (r: Check)
    ensures
        r@ == usage_reading(engine, summary@),
{
    Check::warn(
        cat3("engine:", engine.as_str(), ":usage").as_str(),
        summary,
        Some(
            "set `budgets.daily_runs_per_repo` too — a run count is measurable for every engine, and a token ceiling alone is not enforceable against this one",
        ),
    )
}

/// What there is to say about a platform.
pub open spec fn platform_reading(os: Seq<char>) -> Reading {
    if os == "windows"@ {
        Reading::warn(
            "platform:windows"@,
            "process-group termination is not implemented, so a cancelled engine may leave a child process running"@,
            "check Task Manager for stray `node` or CLI processes after a cancellation; tracked as REVL-106"@,
        )
    } else {
        Reading::ok("platform:"@ + os, "process-group termination available"@)
    }
}

/// What there is to say about a platform.
pub fn platform_check(os: &str) -> (r: Check)
    ensures
        r@ == platform_reading(os@),
{
    if same(os, "windows") {
        return Check::warn(
            "platform:windows",
            "process-group termination is not implemented, so a cancelled engine may leave a child process running",
            Some(
                "check Task Manager for stray `node` or CLI processes after a cancellation; tracked as REVL-106",
            ),
        );
    }
    Check::ok(cat2("platform:", os).as_str(), "process-group termination available")
}

/// What was found out about a machine.
#[derive(Clone, Debug, PartialEq, Eq)]
pub struct Machine {
    /// Whether git runs.
    pub git: bool,
    /// Whether svn runs.
    pub svn: bool,
    /// Whether node runs.
    pub node: bool,
    /// The name of its operating system.
    pub os: String,
    /// Whether each real engine is there.
    pub engines: Vec<(EngineKind, Readiness)>,
    /// The engines that cannot say what they spent, each with a line about it.
    pub unmeasured: Vec<(EngineKind, String)>,
}

/// Build the report for a machine. Whether engines are there and can be measured is known
/// without any configuration; targets and the install are filled in when there is one.
pub fn gather(machine: &Machine, svn_repos: usize) -> (r: DoctorReport)
    ensures
        readings(r.prerequisites@) == seq![
            tool_reading(
                "git"@,
                machine.git,
                "every git and GitHub repository"@,
                "install git (brew install git / apt-get install git / winget install --id Git.Git)"@,
            ),
            svn_reading(machine.svn, svn_repos as nat),
            node_reading(machine.node),
        ],
        readings(r.engines@) == machine.engines@.map_values(
            |p: (EngineKind, Readiness)| presence_reading(p.0, p.1),
        ) + machine.unmeasured@.map_values(|p: (EngineKind, String)| usage_reading(p.0, p.1@)),
        r.targets@.len() == 0,
        readings(r.platform@) == seq![platform_reading(machine.os@)],
        r.install@.len() == 0,
{
    let mut prerequisites: Vec<Check> = Vec::new();
    prerequisites.push(
        required_tool_check(
            "git",
            machine.git,
            "every git and GitHub repository",
            "install git (brew install git / apt-get install git / winget install --id Git.Git)",
        ),
    );
    prerequisites.push(svn_check(machine.svn, svn_repos));
    prerequisites.push(
        if machine.node {
            Check::ok("node", "available (used by the fixture engine)")
        } else {
            Check::warn(
                "node",
                "not installed; the fixture engine cannot run, real engines are unaffected",
                Some("install Node.js only if you want to run rev-local's own test fixtures"),
            )
        },
    );
    let ghost present = machine.engines@.map_values(
        |p: (EngineKind, Readiness)| presence_reading(p.0, p.1),
    );
    let ghost blind = machine.unmeasured@.map_values(|p: (EngineKind, String)| usage_reading(p.0, p.1@));
    let mut engines: Vec<Check> = Vec::new();
    let mut i: usize = 0;
    assert(readings(engines@) =~= present.take(0));
    while i < machine.engines.len()
        invariant
            i <= machine.engines.len(),
            present == machine.engines@.map_values(
                |p: (EngineKind, Readiness)| presence_reading(p.0, p.1),
            ),
            readings(engines@) == present.take(i as int),
        decreases machine.engines.len() - i,
    {
        let entry = &machine.engines[i];
        let ghost before = engines@;
        engines.push(engine_presence(entry.0, &entry.1));
        assert(readings(engines@) =~= readings(before).push(present[i as int]));
        assert(present.take(i + 1) =~= present.take(i as int).push(present[i as int]));
        assert(readings(engines@) =~= present.take(i + 1));
        i += 1;
    }
    let mut k: usize = 0;
    assert(readings(engines@) =~= present + blind.take(0));
    while k < machine.unmeasured.len()
        invariant
            k <= machine.unmeasured.len(),
            blind == machine.unmeasured@.map_values(|p: (EngineKind, String)| usage_reading(p.0, p.1@)),
            readings(engines@) == present + blind.take(k as int),
        decreases machine.unmeasured.len() - k,
    {
        let entry = &machine.unmeasured[k];
        let ghost before = engines@;
        engines.push(usage_check(entry.0, entry.1.as_str()));
        assert(readings(engines@) =~= readings(before).push(blind[k as int]));
        assert(blind.take(k + 1) =~= blind.take(k as int).push(blind[k as int]));
        assert(readings(engines@) =~= present + blind.take(k + 1));
        k += 1;
    }
    let mut platform: Vec<Check> = Vec::new();
    platform.push(platform_check(machine.os.as_str()));
    let r = DoctorReport {
        prerequisites,
        engines,
        targets: Vec::new(),
        platform,
        install: Vec::new(),
    };
    assert(readings(r.prerequisites@) =~= seq![
        tool_reading(
            "git"@,
            machine.git,
            "every git and GitHub repository"@,
            "install git (brew install git / apt-get install git / winget install --id Git.Git)"@,
        ),
        svn_reading(machine.svn, svn_repos as nat),
        node_reading(machine.node),
    ]);
    assert(readings(r.engines@) =~= present + blind);
    assert(readings(r.platform@) =~= seq![platform_reading(machine.os@)]);
    r
}

// --- the install itself ---

/// What is known of a repository's checkout.
#[derive(Clone, Debug, PartialEq, Eq)]
pub struct Checkout {
    /// The repository's name.
    pub name: String,
    /// Whether it is watched at all.
    pub enabled: bool,
    /// Whether a path is recorded and nothing is there.
    pub gone: bool,
    /// Whether nothing can review its kind.
    pub unsupported: bool,
}

/// What is known of an install.
#[derive(Debug, PartialEq, Eq)]
pub struct Install {
    /// What the setting says of the background loop.
    pub autopilot: Option<String>,
    /// Queued runs that can go ahead.
    pub queued: u32,
    /// Queued runs whose repository is disabled or without its checkout.
    pub blocked: u32,
    /// The repositories, or why they could not be read.
    pub repos: Result<Vec<Checkout>, String>,
    /// When each action in the approvals inbox was queued, when the inbox could be read.
    pub waiting: Option<Vec<Timestamp>>,
    /// How long an approval may wait; zero for ever.
    pub ttl_hours: i64,
    /// Now.
    pub at: Timestamp,
}

/// Whether the background loop runs, and what waits for it. A queue that something else drains
/// needs no loop, so this is no failure. Queued runs that cannot go ahead are counted apart:
/// together they would make a number that never goes down.
pub open spec fn autopilot_reading(on: bool, queued: nat, blocked: nat) -> Reading {
    if on {
        Reading::ok("install:autopilot"@, "on"@)
    } else if queued == 0 && blocked > 0 {
        Reading::ok(
            "install:autopilot"@,
            "off; the "@ + decimal(blocked) + " queued run(s) are blocked on a missing checkout"@,
        )
    } else if queued == 0 {
        Reading::ok("install:autopilot"@, "off, and nothing is waiting"@)
    } else {
        Reading::warn(
            "install:autopilot"@,
            "off, and "@ + decimal(queued) + " run(s) are queued — nothing is reviewing them"@ + if blocked
                > 0 {
                " ("@ + decimal(blocked) + " more are blocked on a missing checkout)"@
            } else {
                Seq::empty()
            },
            "switch it on from the dashboard, or run `revlocal watch` on a timer if you drive it yourself"@,
        )
    }
}

fn autopilot_check(on: bool, queued: u32, blocked: u32) -> (r: Check)
    ensures
        r@ == autopilot_reading(on, queued as nat, blocked as nat),
{
    if on {
        return Check::ok("install:autopilot", "on");
    }
    if queued == 0 {
        if blocked > 0 {
            return Check::ok(
                "install:autopilot",
                cat3(
                    "off; the ",
                    num(blocked as u64).as_str(),
                    " queued run(s) are blocked on a missing checkout",
                ).as_str(),
            );
        }
        return Check::ok("install:autopilot", "off, and nothing is waiting");
    }
    let mut detail = cat3(
        "off, and ",
        num(queued as u64).as_str(),
        " run(s) are queued — nothing is reviewing them",
    );
    let ghost head = detail@;
    if blocked > 0 {
        let more = cat3(" (", num(blocked as u64).as_str(), " more are blocked on a missing checkout)");
        detail.append(more.as_str());
    } else {
        assert(head + Seq::empty() =~= head);
    }
    Check::warn(
        "install:autopilot",
        detail.as_str(),
        Some(
            "switch it on from the dashboard, or run `revlocal watch` on a timer if you drive it yourself",
        ),
    )
}

/// Which repositories a line is about.
pub open spec fn enabled_repo() -> spec_fn(Checkout) -> bool {
    |c: Checkout| c.enabled
}

/// The watched repositories whose checkout is gone.
pub open spec fn gone_repo() -> spec_fn(Checkout) -> bool {
    |c: Checkout| c.enabled && c.gone
}

/// The watched repositories of a kind that nothing can review.
pub open spec fn unsupported_repo() -> spec_fn(Checkout) -> bool {
    |c: Checkout| c.enabled && c.unsupported
}

/// The names of those repositories that something holds of, in order.
pub open spec fn names_of(repos: Seq<Checkout>, p: spec_fn(Checkout) -> bool) -> Seq<Seq<char>>
    decreases repos.len(),
{
    if repos.len() == 0 {
        Seq::empty()
    } else {
        let before = names_of(repos.drop_last(), p);
        if p(repos.last()) {
            before.push(repos.last().name@)
        } else {
            before
        }
    }
}

/// How many repositories, in words.
pub open spec fn how_many(n: nat) -> Seq<char> {
    if n == 1 {
        "1 repository"@
    } else {
        decimal(n) + " repositories"@
    }
}

/// What there is to say about the repositories. Only the watched ones: one that somebody
/// switched off is no problem to report. They are named, not counted, because a count cannot be
/// acted on without going to look them up.
pub open spec fn repos_readings(repos: Seq<Checkout>) -> Seq<Reading> {
    let unsupported = names_of(repos, unsupported_repo());
    let gone = names_of(repos, gone_repo());
    (if unsupported.len() > 0 {
        seq![
            Reading::warn(
                "install:kinds"@,
                how_many(unsupported.len()) + " rev-local cannot review yet: "@ + joined(
                    unsupported,
                    ", "@,
                ),
                "only `git` is wired; point them at a git checkout or disable them"@,
            ),
        ]
    } else {
        Seq::empty()
    }).push(
        if gone.len() == 0 {
            Reading::ok(
                "install:repos"@,
                decimal(names_of(repos, enabled_repo()).len()) + " enabled, all present"@,
            )
        } else {
            Reading::warn(
                "install:repos"@,
                decimal(gone.len()) + " checkout(s) gone: "@ + joined(gone, ", "@),
                "put them back, point each repository at its new location, or disable it"@,
            )
        },
    )
}

fn repos_checks(repos: &Vec<Checkout>) -> (r: Vec<Check>)
    ensures
        readings(r@) == repos_readings(repos@),
{
    let mut enabled: usize = 0;
    let mut gone: Vec<String> = Vec::new();
    let mut unsupported: Vec<String> = Vec::new();
    let mut i: usize = 0;
    assert(repos@.take(0) =~= Seq::empty());
    assert(texts(gone@) =~= Seq::empty());
    assert(texts(unsupported@) =~= Seq::empty());
    while i < repos.len()
        invariant
            i <= repos.len(),
            enabled <= i,
            enabled == names_of(repos@.take(i as int), enabled_repo()).len(),
            texts(gone@) == names_of(repos@.take(i as int), gone_repo()),
            texts(unsupported@) == names_of(repos@.take(i as int), unsupported_repo()),
        decreases repos.len() - i,
    {
        assert(repos@.take(i + 1).drop_last() =~= repos@.take(i as int));
        let repo = &repos[i];
        let ghost was_gone = gone@;
        let ghost was_unsupported = unsupported@;
        if repo.enabled {
            enabled = enabled + 1;
            if repo.gone {
                gone.push(repo.name.clone());
                assert(texts(gone@) =~= texts(was_gone).push(repo.name@));
            }
            if repo.unsupported {
                unsupported.push(repo.name.clone());
                assert(texts(unsupported@) =~= texts(was_unsupported).push(repo.name@));
            }
        }
        i += 1;
    }
    assert(repos@.take(repos@.len() as int) =~= repos@);
    assert(gone@.len() == texts(gone@).len());
    assert(unsupported@.len() == texts(unsupported@).len());
    let mut r: Vec<Check> = Vec::new();
    if unsupported.len() > 0 {
        let many = if unsupported.len() == 1 {
            "1 repository".to_owned()
        } else {
            cat2(count(unsupported.len()).as_str(), " repositories")
        };
        r.push(
            Check::warn(
                "install:kinds",
                cat3(
                    many.as_str(),
                    " rev-local cannot review yet: ",
                    join(&unsupported, ", ").as_str(),
                ).as_str(),
                Some("only `git` is wired; point them at a git checkout or disable them"),
            ),
        );
    }
    if gone.len() == 0 {
        r.push(
            Check::ok(
                "install:repos",
                cat2(count(enabled).as_str(), " enabled, all present").as_str(),
            ),
        );
    } else {
        r.push(
            Check::warn(
                "install:repos",
                cat3(count(gone.len()).as_str(), " checkout(s) gone: ", join(&gone, ", ").as_str()).as_str(),
                Some("put them back, point each repository at its new location, or disable it"),
            ),
        );
    }
    assert(readings(r@) =~= repos_readings(repos@));
    r
}

/// Whether an approval is about to be discarded: it is past its deadline, or within an hour of
/// it.
pub open spec fn about_to_go(queued_at: Timestamp, ttl_hours: i64, at: Timestamp) -> bool {
    ttl_hours > 0 && deadline(queued_at, ttl_hours).nanos - at.nanos < NANOS_PER_HOUR
}

/// How many approvals are about to be discarded.
pub open spec fn going(waiting: Seq<Timestamp>, ttl_hours: i64, at: Timestamp) -> nat
    decreases waiting.len(),
{
    if waiting.len() == 0 {
        0
    } else {
        going(waiting.drop_last(), ttl_hours, at) + if about_to_go(waiting.last(), ttl_hours, at) {
            1nat
        } else {
            0
        }
    }
}

/// What there is to say about the approvals inbox. An approval nobody answers takes its finding
/// with it, which is worth saying before it happens.
pub open spec fn approvals_reading(waiting: Seq<Timestamp>, ttl_hours: i64, at: Timestamp) -> Reading {
    if waiting.len() == 0 {
        Reading::ok("install:approvals"@, "nothing waiting"@)
    } else {
        Reading::warn(
            "install:approvals"@,
            if going(waiting, ttl_hours, at) > 0 {
                decimal(waiting.len()) + " waiting, "@ + decimal(going(waiting, ttl_hours, at))
                    + " about to be discarded"@
            } else {
                decimal(waiting.len()) + " waiting"@
            },
            "see them with `revlocal approvals list`, then approve or reject"@,
        )
    }
}

fn approvals_check(waiting: &Vec<Timestamp>, ttl_hours: i64, at: Timestamp) -> (r: Check)
    requires
        at.in_calendar(),
        ttl_hours > 0 ==> forall|i: int|
            0 <= i < waiting@.len() ==> (#[trigger] waiting@[i]).in_calendar() && deadline(
                waiting@[i],
                ttl_hours,
            ).in_calendar(),
    ensures
        r@ == approvals_reading(waiting@, ttl_hours, at),
{
    if waiting.is_empty() {
        return Check::ok("install:approvals", "nothing waiting");
    }
    let mut expiring: usize = 0;
    let mut i: usize = 0;
    assert(waiting@.take(0) =~= Seq::empty());
    while i < waiting.len()
        invariant
            i <= waiting.len(),
            at.in_calendar(),
            ttl_hours > 0 ==> forall|k: int|
                0 <= k < waiting@.len() ==> (#[trigger] waiting@[k]).in_calendar() && deadline(
                    waiting@[k],
                    ttl_hours,
                ).in_calendar(),
            expiring <= i,
            expiring == going(waiting@.take(i as int), ttl_hours, at),
        decreases waiting.len() - i,
    {
        assert(waiting@.take(i + 1).drop_last() =~= waiting@.take(i as int));
        if ttl_hours > 0 && expires_at(waiting[i], ttl_hours).since(at) < NANOS_PER_HOUR {
            expiring = expiring + 1;
        }
        i += 1;
    }
    assert(waiting@.take(waiting@.len() as int) =~= waiting@);
    let detail = if expiring > 0 {
        cat4(
            count(waiting.len()).as_str(),
            " waiting, ",
            count(expiring).as_str(),
            " about to be discarded",
        )
    } else {
        cat2(count(waiting.len()).as_str(), " waiting")
    };
    Check::warn(
        "install:approvals",
        detail.as_str(),
        Some("see them with `revlocal approvals list`, then approve or reject"),
    )
}

/// What there is to say about an install.
pub open spec fn install_readings(install: Install) -> Seq<Reading> {
    seq![
        autopilot_reading(
            opt_text(install.autopilot) == Some("on"@),
            install.queued as nat,
            install.blocked as nat,
        ),
    ] + match install.repos {
        Ok(repos) => repos_readings(repos@),
        Err(error) => seq![
            Reading::warn(
                "install:repos"@,
                "could not be read — "@ + error@,
                "check the database with `revlocal db migrate`"@,
            ),
        ],
    } + match install.waiting {
        Some(waiting) => seq![approvals_reading(waiting@, install.ttl_hours, install.at)],
        None => Seq::empty(),
    }
}

/// What the install itself is doing. Warnings rather than failures: each describes a state that
/// somebody may have chosen.
pub fn install_checks(install: &Install) -> (r: Vec<Check>)
    requires
        install.at.in_calendar(),
        install.waiting matches Some(waiting) ==> install.ttl_hours > 0 ==> forall|i: int|
            0 <= i < waiting@.len() ==> (#[trigger] waiting@[i]).in_calendar() && deadline(
                waiting@[i],
                install.ttl_hours,
            ).in_calendar(),
    ensures
        readings(r@) == install_readings(*install),
{
    let on = match &install.autopilot {
        Some(setting) => same(setting.as_str(), "on"),
        None => false,
    };
    let mut r: Vec<Check> = Vec::new();
    r.push(autopilot_check(on, install.queued, install.blocked));
    let ghost first = readings(r@);
    assert(first =~= seq![r@[0]@]);
    let mut more: Vec<Check> = match &install.repos {
        Ok(repos) => repos_checks(repos),
        Err(error) => {
            let mut v: Vec<Check> = Vec::new();
            v.push(
                Check::warn(
                    "install:repos",
                    cat2("could not be read — ", error.as_str()).as_str(),
                    Some("check the database with `revlocal db migrate`"),
                ),
            );
            assert(readings(v@) =~= seq![
                Reading::warn(
                    "install:repos"@,
                    "could not be read — "@ + error@,
                    "check the database with `revlocal db migrate`"@,
                ),
            ]);
            v
        },
    };
    let ghost second = readings(more@);
    let ghost before = r@;
    let ghost extra = more@;
    r.append(&mut more);
    assert(readings(r@) =~= readings(before) + readings(extra));
    if let Some(waiting) = &install.waiting {
        let ghost so_far = r@;
        r.push(approvals_check(waiting, install.ttl_hours, install.at));
        assert(readings(r@) =~= readings(so_far).push(
            approvals_reading(waiting@, install.ttl_hours, install.at),
        ));
    }
    assert(readings(r@) =~= install_readings(*install));
    r
}

// --- what holds of every report ---

proof fn states_of_a_sum(a: Seq<Reading>, b: Seq<Reading>, health: Health)
    ensures
        in_state(a + b, health) == in_state(a, health) + in_state(b, health),
    decreases b.len(),
{
    if b.len() == 0 {
        assert(a + b =~= a);
    } else {
        assert((a + b).drop_last() =~= a + b.drop_last());
        states_of_a_sum(a, b.drop_last(), health);
    }
}

/// The four counts cover every check once.
pub proof fn every_check_is_counted_once(checks: Seq<Reading>)
    ensures
        in_state(checks, Health::Working) + in_state(checks, Health::Warn) + in_state(checks, Health::Fail)
            + in_state(checks, Health::NotNeeded) == checks.len(),
    decreases checks.len(),
{
    if checks.len() > 0 {
        every_check_is_counted_once(checks.drop_last());
    }
}

/// The state of an install never makes the command fail: nothing that is said of it is a
/// failure.
pub proof fn the_install_never_blocks(install: Install)
    ensures
        in_state(install_readings(install), Health::Fail) == 0,
{
    let first = seq![
        autopilot_reading(
            opt_text(install.autopilot) == Some("on"@),
            install.queued as nat,
            install.blocked as nat,
        ),
    ];
    let second = match install.repos {
        Ok(repos) => repos_readings(repos@),
        Err(error) => seq![
            Reading::warn(
                "install:repos"@,
                "could not be read — "@ + error@,
                "check the database with `revlocal db migrate`"@,
            ),
        ],
    };
    let third = match install.waiting {
        Some(waiting) => seq![approvals_reading(waiting@, install.ttl_hours, install.at)],
        None => Seq::<Reading>::empty(),
    };
    states_of_a_sum(first + second, third, Health::Fail);
    states_of_a_sum(first, second, Health::Fail);
    none_fails(first);
    none_fails(second);
    none_fails(third);
}

proof fn none_fails(checks: Seq<Reading>)
    requires
        forall|i: int| 0 <= i < checks.len() ==> (#[trigger] checks[i]).health != Health::Fail,
    ensures
        in_state(checks, Health::Fail) == 0,
    decreases checks.len(),
{
    if checks.len() > 0 {
        none_fails(checks.drop_last());
    }
}

/// Every check that fails says what to do about it.
pub proof fn every_failure_has_a_remedy(
    id: Seq<char>,
    installed: bool,
    version: Option<Seq<char>>,
    authenticated: bool,
    honours_contract: Option<bool>,
    first_remedy: Option<Seq<char>>,
    reachable: bool,
    tools: nat,
    mapped: nat,
    unmapped: nat,
    available: bool,
    svn_repos: nat,
    needed_for: Seq<char>,
    install: Seq<char>,
)
    ensures
        ({
            let c = engine_reading(id, installed, version, authenticated, honours_contract, first_remedy);
            c.health == Health::Fail ==> c.remediation is Some
        }),
        ({
            let c = target_reading(id, reachable, tools, mapped, unmapped);
            c.health == Health::Fail ==> c.remediation is Some
        }),
        ({
            let c = svn_reading(available, svn_repos);
            c.health == Health::Fail ==> c.remediation is Some
        }),
        ({
            let c = tool_reading(id, available, needed_for, install);
            c.health == Health::Fail ==> c.remediation is Some
        }),
{
}

/// A tool that nothing needs is no failure, and one that something needs is.
pub proof fn a_missing_svn_fails_only_those_who_need_it(svn_repos: nat)
    ensures
        (svn_reading(false, svn_repos).health == Health::Fail) == (svn_repos > 0),
{
}

/// What is counted as about to be discarded is what the inbox says has under an hour left or is
/// past its deadline.
pub proof fn the_inbox_says_so_too(queued_at: Timestamp, ttl_hours: i64, at: Timestamp)
    ensures
        about_to_go(queued_at, ttl_hours, at) == (time_left_words(queued_at, ttl_hours, at) == Some(
            "past its deadline — the next check discards it"@,
        ) || time_left_words(queued_at, ttl_hours, at) == Some("under an hour left"@)),
{
    if ttl_hours > 0 {
        let remaining = deadline(queued_at, ttl_hours).nanos - at.nanos;
        let hours = whole_units(remaining, NANOS_PER_HOUR as int);
        if remaining >= NANOS_PER_HOUR {
            reveal_strlit("past its deadline — the next check discards it");
            reveal_strlit("under an hour left");
            reveal_strlit("h left");
            reveal_strlit("d left");
            assert("past its deadline — the next check discards it"@[0] == 'p');
            assert("under an hour left"@[0] == 'u');
            if hours < 24 {
                starts_with_a_digit(hours as nat);
                assert((decimal(hours as nat) + "h left"@)[0] == decimal(hours as nat)[0]);
            } else {
                starts_with_a_digit((hours / 24) as nat);
                assert((decimal((hours / 24) as nat) + "d left"@)[0] == decimal((hours / 24) as nat)[0]);
            }
        }
    }
}

proof fn starts_with_a_digit(n: nat)
    ensures
        decimal(n).len() > 0,
        decimal(n)[0] != 'p',
        decimal(n)[0] != 'u',
    decreases n,
{
    if n >= 10 {
        starts_with_a_digit(n / 10);
    }
}

/// An engine works where it is there, logged in and gave what is asked of it; it is not known to
/// where nobody tried; and in every other case it fails.
pub proof fn when_an_engine_works(
    id: Seq<char>,
    installed: bool,
    version: Option<Seq<char>>,
    authenticated: bool,
    honours_contract: Option<bool>,
    first_remedy: Option<Seq<char>>,
)
    ensures
        ({
            let r = engine_reading(id, installed, version, authenticated, honours_contract, first_remedy);
            &&& r.name == "engine:"@ + id
            &&& r.health == Health::Working <==> installed && authenticated && honours_contract == Some(true)
            &&& r.health == Health::Warn <==> installed && authenticated && honours_contract is None
            &&& r.health == Health::Fail <==> !installed || !authenticated || honours_contract == Some(false)
            &&& installed && version is Some ==> within(r.detail, version->0)
            &&& !installed && first_remedy is Some ==> r.remediation == first_remedy
            &&& !installed && first_remedy is None ==> r.remediation is Some && within(r.remediation->0, id)
            &&& r.remediation is None <==> r.health == Health::Working
        }),
{
    let none = Seq::<char>::empty();
    if let Some(v) = version {
        stands_inside("installed ("@, v, ") but not logged in"@);
        stands_inside(none, v, ", logged in, output contract verified"@);
        assert(none + v + ", logged in, output contract verified"@ =~= v + ", logged in, output contract verified"@);
        stands_inside("installed ("@, v, ") and logged in, but its smoke task produced no usable result.json"@);
        stands_inside("installed ("@, v, ") and logged in; output contract not verified"@);
    }
    let rest = ", or set `engines."@ + id + ".bin` to its full path"@;
    stands_inside("install "@, id, rest);
    assert("install "@ + id + rest =~= "install "@ + id + ", or set `engines."@ + id + ".bin` to its full path"@);
}

/// A target fails where it cannot be reached, is to be looked at where something is unmapped, and
/// works otherwise; how much is mapped is told.
pub proof fn when_a_target_works(name: Seq<char>, reachable: bool, tools: nat, mapped: nat, unmapped: nat)
    ensures
        ({
            let r = target_reading(name, reachable, tools, mapped, unmapped);
            &&& r.name == "target:"@ + name
            &&& r.health == Health::Fail <==> !reachable
            &&& r.health == Health::Warn <==> reachable && unmapped > 0
            &&& r.health == Health::Working <==> reachable && unmapped == 0
            &&& reachable ==> decimal(tools).is_prefix_of(r.detail) && within(r.detail, decimal(mapped))
            &&& reachable && unmapped > 0 ==> within(r.detail, decimal(unmapped) + " unmapped"@)
        }),
{
    let r = target_reading(name, reachable, tools, mapped, unmapped);
    let t = decimal(tools);
    let none = Seq::<char>::empty();
    if reachable {
        assert(r.detail.subrange(0, t.len() as int) =~= t);
        if unmapped > 0 {
            let left = decimal(unmapped) + " unmapped"@;
            let b = " capability/ies mapped, "@;
            stands_inside(t + " tool(s), "@, decimal(mapped), b + left);
            assert(t + " tool(s), "@ + decimal(mapped) + (b + left) =~= r.detail);
            stands_inside(t + " tool(s), "@ + decimal(mapped) + b, left, none);
            assert(t + " tool(s), "@ + decimal(mapped) + b + left + none =~= r.detail);
        } else {
            stands_inside(t + " tool(s), all "@, decimal(mapped), " capability/ies mapped"@);
        }
    }
}

/// What is needed and missing fails; what is not needed does not, and what only the fixtures need is
/// only told.
pub proof fn when_a_tool_is_missed(
    tool: Seq<char>,
    available: bool,
    needed_for: Seq<char>,
    install: Seq<char>,
    svn_repos: nat,
    os: Seq<char>,
)
    ensures
        tool_reading(tool, available, needed_for, install).name == tool,
        tool_reading(tool, true, needed_for, install).health == Health::Working,
        tool_reading(tool, false, needed_for, install).health == Health::Fail,
        tool_reading(tool, false, needed_for, install).remediation == Some(install),
        within(tool_reading(tool, false, needed_for, install).detail, needed_for),
        svn_reading(true, svn_repos).health == Health::Working,
        svn_reading(false, 0).health == Health::NotNeeded,
        svn_repos > 0 ==> svn_reading(false, svn_repos).health == Health::Fail && within(
            svn_reading(false, svn_repos).detail,
            decimal(svn_repos),
        ) && within(svn_reading(true, svn_repos).detail, decimal(svn_repos)),
        node_reading(true).health == Health::Working,
        node_reading(false).health == Health::Warn,
        platform_reading("windows"@).health == Health::Warn,
        os != "windows"@ ==> platform_reading(os).health == Health::Working && platform_reading(os).name
            == "platform:"@ + os,
{
    let none = Seq::<char>::empty();
    stands_inside("not installed, and it is required for "@, needed_for, none);
    assert("not installed, and it is required for "@ + needed_for + none =~= tool_reading(
        tool,
        false,
        needed_for,
        install,
    ).detail);
    stands_inside("available ("@, decimal(svn_repos), " SVN repository/ies configured)"@);
    stands_inside(
        "NOT INSTALLED, and "@,
        decimal(svn_repos),
        " SVN repository/ies are configured — those cannot be reviewed"@,
    );
}

/// An engine that was only looked for is never said to work: where it was found is told, or why it is
/// passed over.
pub proof fn being_found_is_not_working(engine: EngineKind, readiness: Readiness, summary: Seq<char>)
    ensures
        presence_reading(engine, readiness).name == "engine:"@ + engine.word(),
        presence_reading(engine, readiness).health == Health::Warn,
        readiness matches Readiness::Ready { binary } ==> within(presence_reading(engine, readiness).detail, binary@),
        readiness matches Readiness::Skip { reason } ==> presence_reading(engine, readiness).detail == reason@,
        usage_reading(engine, summary).health == Health::Warn,
        usage_reading(engine, summary).detail == summary,
        within(usage_reading(engine, summary).name, engine.word()),
{
    if let Readiness::Ready { binary } = readiness {
        stands_inside("found at "@, binary@, "; not probed"@);
    }
    stands_inside("engine:"@, engine.word(), ":usage"@);
}

/// That nothing reviews what is queued is said, with how much there is; with the autopilot on, or
/// nothing that could run, it is not.
pub proof fn when_the_autopilot_is_missed(on: bool, queued: nat, blocked: nat)
    ensures
        autopilot_reading(on, queued, blocked).health == Health::Warn <==> !on && queued > 0,
        autopilot_reading(on, queued, blocked).health == Health::Working <==> on || queued == 0,
        !on && queued > 0 ==> within(autopilot_reading(on, queued, blocked).detail, decimal(queued) + " run(s) are queued"@),
        !on && queued > 0 && blocked > 0 ==> within(
            autopilot_reading(on, queued, blocked).detail,
            decimal(blocked) + " more are blocked"@,
        ),
        !on && queued == 0 && blocked > 0 ==> within(
            autopilot_reading(on, queued, blocked).detail,
            decimal(blocked) + " queued run(s) are blocked"@,
        ),
{
    let r = autopilot_reading(on, queued, blocked);
    if !on && queued > 0 {
        reveal_strlit(" run(s) are queued — nothing is reviewing them");
        reveal_strlit(" run(s) are queued");
        let all = " run(s) are queued — nothing is reviewing them"@;
        let n = " run(s) are queued"@.len() as int;
        assert(all.take(n) =~= " run(s) are queued"@);
        let more = if blocked > 0 {
            " ("@ + decimal(blocked) + " more are blocked on a missing checkout)"@
        } else {
            Seq::empty()
        };
        let told = decimal(queued) + " run(s) are queued"@;
        stands_inside("off, and "@, told, all.skip(n) + more);
        assert("off, and "@ + told + (all.skip(n) + more) =~= r.detail);
        if blocked > 0 {
            reveal_strlit(" more are blocked on a missing checkout)");
            reveal_strlit(" more are blocked");
            let tail = " more are blocked on a missing checkout)"@;
            let m = " more are blocked"@.len() as int;
            assert(tail.take(m) =~= " more are blocked"@);
            let held = decimal(blocked) + " more are blocked"@;
            let before = "off, and "@ + decimal(queued) + all + " ("@;
            stands_inside(before, held, tail.skip(m));
            assert(before + held + tail.skip(m) =~= r.detail);
        }
    } else if !on && blocked > 0 {
        reveal_strlit(" queued run(s) are blocked on a missing checkout");
        reveal_strlit(" queued run(s) are blocked");
        let tail = " queued run(s) are blocked on a missing checkout"@;
        let m = " queued run(s) are blocked"@.len() as int;
        assert(tail.take(m) =~= " queued run(s) are blocked"@);
        let held = decimal(blocked) + " queued run(s) are blocked"@;
        stands_inside("off; the "@, held, tail.skip(m));
        assert("off; the "@ + held + tail.skip(m) =~= r.detail);
    }
}

/// What is told of the repositories: that those that are enabled are all there, or which of them are
/// not; and which cannot be reviewed at all.
pub proof fn a_repository_that_is_gone_is_named(repos: Seq<Checkout>, i: int)
    requires
        0 <= i < repos.len(),
    ensures
        repos[i].enabled && repos[i].gone ==> repos_readings(repos).last().health == Health::Warn && within(
            repos_readings(repos).last().detail,
            repos[i].name@,
        ),
        repos[i].enabled && repos[i].unsupported ==> repos_readings(repos)[0].health == Health::Warn && within(
            repos_readings(repos)[0].detail,
            repos[i].name@,
        ),
        (forall|k: int| 0 <= k < repos.len() && (#[trigger] repos[k]).enabled ==> !repos[k].gone) ==> repos_readings(
            repos,
        ).last().health == Health::Working,
        (forall|k: int| 0 <= k < repos.len() && (#[trigger] repos[k]).enabled ==> !repos[k].unsupported)
            ==> repos_readings(repos).len() == 1,
{
    let none = Seq::<char>::empty();
    let gone = names_of(repos, gone_repo());
    let unsupported = names_of(repos, unsupported_repo());
    if repos[i].enabled && repos[i].gone {
        is_named(repos, gone_repo(), i);
        let k = choose|k: int| 0 <= k < gone.len() && gone[k] == repos[i].name@;
        a_part_is_joined(gone, ", "@, k);
        let head = decimal(gone.len()) + " checkout(s) gone: "@;
        inside_stays(head, joined(gone, ", "@), none, repos[i].name@);
        assert(head + joined(gone, ", "@) + none =~= repos_readings(repos).last().detail);
    }
    if repos[i].enabled && repos[i].unsupported {
        is_named(repos, unsupported_repo(), i);
        let k = choose|k: int| 0 <= k < unsupported.len() && unsupported[k] == repos[i].name@;
        a_part_is_joined(unsupported, ", "@, k);
        let head = how_many(unsupported.len()) + " rev-local cannot review yet: "@;
        inside_stays(head, joined(unsupported, ", "@), none, repos[i].name@);
        assert(head + joined(unsupported, ", "@) + none =~= repos_readings(repos)[0].detail);
    }
    if forall|k: int| 0 <= k < repos.len() && (#[trigger] repos[k]).enabled ==> !repos[k].gone {
        none_is_named(repos, gone_repo());
    }
    if forall|k: int| 0 <= k < repos.len() && (#[trigger] repos[k]).enabled ==> !repos[k].unsupported {
        none_is_named(repos, unsupported_repo());
    }
}

proof fn is_named(repos: Seq<Checkout>, p: spec_fn(Checkout) -> bool, i: int)
    requires
        0 <= i < repos.len(),
        p(repos[i]),
    ensures
        names_of(repos, p).contains(repos[i].name@),
    decreases repos.len(),
{
    let before = repos.drop_last();
    push_contains(names_of(before, p), repos.last().name@, repos[i].name@);
    if i < before.len() {
        assert(before[i] == repos[i]);
        is_named(before, p, i);
    }
}

proof fn none_is_named(repos: Seq<Checkout>, p: spec_fn(Checkout) -> bool)
    requires
        forall|k: int| 0 <= k < repos.len() ==> !p(#[trigger] repos[k]),
    ensures
        names_of(repos, p).len() == 0,
    decreases repos.len(),
{
    if repos.len() > 0 {
        let before = repos.drop_last();
        assert forall|k: int| 0 <= k < before.len() implies !p(#[trigger] before[k]) by {
            assert(before[k] == repos[k]);
        }
        assert(!p(repos[repos.len() - 1]));
        none_is_named(before, p);
    }
}

/// How many approvals are about to go is counted one by one.
pub proof fn what_is_about_to_go_adds_up(waiting: Seq<Timestamp>, one: Timestamp, ttl_hours: i64, at: Timestamp)
    ensures
        !about_to_go(one, 0, at),
        going(Seq::empty(), ttl_hours, at) == 0,
        going(waiting.push(one), ttl_hours, at) == going(waiting, ttl_hours, at) + if about_to_go(one, ttl_hours, at) {
            1nat
        } else {
            0
        },
{
    assert(waiting.push(one).drop_last() =~= waiting);
}

/// What waits for an answer is told with how much there is of it, and how much of that is about to go.
pub proof fn what_waits_is_counted(waiting: Seq<Timestamp>, ttl_hours: i64, at: Timestamp)
    requires
        waiting.len() > 0,
    ensures
        approvals_reading(Seq::empty(), ttl_hours, at).health == Health::Working,
        approvals_reading(waiting, ttl_hours, at).health == Health::Warn,
        decimal(waiting.len()).is_prefix_of(approvals_reading(waiting, ttl_hours, at).detail),
        going(waiting, ttl_hours, at) > 0 ==> within(
            approvals_reading(waiting, ttl_hours, at).detail,
            decimal(going(waiting, ttl_hours, at)) + " about to be discarded"@,
        ),
{
    let n = decimal(waiting.len());
    let soon = decimal(going(waiting, ttl_hours, at));
    regrouped(n, " waiting, "@, soon, " about to be discarded"@);
    ends_a_text(n, " waiting, "@, soon + " about to be discarded"@);
    begins_a_text(n, " waiting"@);
}

proof fn begins_a_text(n: Seq<char>, rest: Seq<char>)
    ensures
        n.is_prefix_of(n + rest),
{
    let all = n + rest;
    assert(all.subrange(0, n.len() as int) =~= n);
}

proof fn regrouped(a: Seq<char>, b: Seq<char>, c: Seq<char>, d: Seq<char>)
    ensures
        a + b + (c + d) == a + b + c + d,
{
    assert(a + b + (c + d) =~= a + b + c + d);
}

proof fn ends_a_text(a: Seq<char>, b: Seq<char>, c: Seq<char>)
    ensures
        a.is_prefix_of(a + b + c),
        within(a + b + c, c),
{
    let all = a + b + c;
    assert(all.subrange(0, a.len() as int) =~= a);
    stands_inside(a + b, c, Seq::empty());
    assert(a + b + c + Seq::<char>::empty() =~= all);
}

/// What is told of an install: of the autopilot first, then of the repositories, or that they could
/// not be read and why, and of what waits where that is known.
pub proof fn what_is_told_of_an_install(install: Install)
    ensures
        install_readings(install)[0].name == "install:autopilot"@,
        install_readings(install)[0].health == Health::Warn <==> opt_text(install.autopilot) != Some("on"@)
            && install.queued > 0,
        install.repos matches Err(error) ==> install_readings(install)[1].health == Health::Warn && within(
            install_readings(install)[1].detail,
            error@,
        ),
        install.waiting matches Some(waiting) ==> install_readings(install).last() == approvals_reading(
            waiting@,
            install.ttl_hours,
            install.at,
        ),
{
    when_the_autopilot_is_missed(
        opt_text(install.autopilot) == Some("on"@),
        install.queued as nat,
        install.blocked as nat,
    );
    if let Err(error) = install.repos {
        let none = Seq::<char>::empty();
        stands_inside("could not be read — "@, error@, none);
        assert("could not be read — "@ + error@ + none =~= install_readings(install)[1].detail);
    }
}

/// A line on a check tells how it stands, what it is and what was seen, and what to do where there is
/// something to do.
pub proof fn a_line_tells_its_check(r: Reading)
    ensures
        within(r.printed(), "["@ + r.health.mark() + "]"@),
        within(r.printed(), r.name),
        within(r.printed(), r.detail),
        r.remediation matches Some(remedy) ==> within(r.printed(), "try: "@ + remedy),
        r.remediation is None ==> r.detail.is_suffix_of(r.printed()),
{
    let tail = match r.remediation {
        Some(remedy) => "\n         try: "@ + remedy,
        None => Seq::empty(),
    };
    let all = r.printed();
    assert(all =~= "  ["@ + r.health.mark() + "] "@ + r.name + ": "@ + r.detail + tail);
    line_holds(r.health.mark(), r.name, r.detail, tail);
    if let Some(remedy) = r.remediation {
        remedy_is_last("  ["@ + r.health.mark() + "] "@ + r.name + ": "@ + r.detail, remedy);
    } else {
        assert(all.subrange(all.len() - r.detail.len(), all.len() as int) =~= r.detail);
    }
}

proof fn line_holds(mark: Seq<char>, name: Seq<char>, detail: Seq<char>, tail: Seq<char>)
    ensures
        ({
            let all = "  ["@ + mark + "] "@ + name + ": "@ + detail + tail;
            within(all, "["@ + mark + "]"@) && within(all, name) && within(all, detail)
        }),
{
    let all = "  ["@ + mark + "] "@ + name + ": "@ + detail + tail;
    let head = "  ["@ + mark + "] "@;
    stands_inside(head + name + ": "@, detail, tail);
    stands_inside(head, name, ": "@ + detail + tail);
    assert(head + name + (": "@ + detail + tail) =~= all);
    in_brackets(mark);
    inside_stays(Seq::empty(), head, name + ": "@ + detail + tail, "["@ + mark + "]"@);
    assert(Seq::<char>::empty() + head + (name + ": "@ + detail + tail) =~= all);
}

proof fn in_brackets(mark: Seq<char>)
    ensures
        within("  ["@ + mark + "] "@, "["@ + mark + "]"@),
{
    reveal_strlit("  [");
    reveal_strlit("[");
    reveal_strlit("] ");
    reveal_strlit("]");
    let all = "  ["@ + mark + "] "@;
    let told = "["@ + mark + "]"@;
    let n = told.len() as int;
    assert(all.subrange(2, 2 + n) =~= told);
    assert(stands_at(all, told, 2));
}

proof fn remedy_is_last(head: Seq<char>, remedy: Seq<char>)
    ensures
        within(head + ("\n         try: "@ + remedy), "try: "@ + remedy),
{
    reveal_strlit("\n         try: ");
    reveal_strlit("try: ");
    let all = head + ("\n         try: "@ + remedy);
    let told = "try: "@ + remedy;
    let n = head.len() + 10int;
    let m = told.len() as int;
    assert(all.subrange(n, n + m) =~= told);
    assert(stands_at(all, told, n));
}

/// Every check has its line in its part.
pub proof fn every_check_has_its_line(title: Seq<char>, checks: Seq<Reading>, i: int)
    requires
        0 <= i < checks.len(),
    ensures
        within(part(title, checks), checks[i].printed()),
        title.is_prefix_of(part(title, checks)),
{
    let all = part(title, checks);
    lines_hold(checks, i);
    inside_stays(title + seq!['\n'], printed_lines(checks), seq!['\n'], checks[i].printed());
    assert(all.subrange(0, title.len() as int) =~= title);
}

proof fn lines_hold(checks: Seq<Reading>, i: int)
    requires
        0 <= i < checks.len(),
    ensures
        within(printed_lines(checks), checks[i].printed()),
    decreases checks.len(),
{
    let before = printed_lines(checks.drop_last());
    let none = Seq::<char>::empty();
    if i == checks.len() - 1 {
        stands_inside(before, checks[i].printed(), seq!['\n']);
    } else {
        lines_hold(checks.drop_last(), i);
        let last = checks.last().printed() + seq!['\n'];
        inside_stays(none, before, last, checks[i].printed());
        assert(none + before + last =~= printed_lines(checks));
    }
}

/// A report has a line for every check of every part, and ends in how many there are of each kind.
pub proof fn a_report_has_every_line(report: DoctorReport, i: int)
    ensures
        0 <= i < report.prerequisites@.len() ==> within(report.in_words(), report.prerequisites@[i]@.printed()),
        0 <= i < report.engines@.len() ==> within(report.in_words(), report.engines@[i]@.printed()),
        0 <= i < report.targets@.len() ==> within(report.in_words(), report.targets@[i]@.printed()),
        0 <= i < report.platform@.len() ==> within(report.in_words(), report.platform@[i]@.printed()),
        0 <= i < report.install@.len() ==> within(report.in_words(), report.install@[i]@.printed()),
        within(report.in_words(), decimal(in_state(report.everything(), Health::Fail)) + " failure(s), "@),
        in_state(report.everything(), Health::Fail) == 0 ==> within(
            report.in_words(),
            "Nothing is blocking a review"@,
        ),
{
    let a = part("Prerequisites"@, readings(report.prerequisites@));
    let b = part("Engines"@, readings(report.engines@));
    let c = part("Publish targets"@, readings(report.targets@));
    let d = part("Platform"@, readings(report.platform@));
    let e = part("Install"@, readings(report.install@));
    let f = report.closing();
    if 0 <= i < report.prerequisites@.len() {
        every_check_has_its_line("Prerequisites"@, readings(report.prerequisites@), i);
        one_of_six(a, b, c, d, e, f, report.prerequisites@[i]@.printed());
    }
    if 0 <= i < report.engines@.len() {
        every_check_has_its_line("Engines"@, readings(report.engines@), i);
        one_of_six(a, b, c, d, e, f, report.engines@[i]@.printed());
    }
    if 0 <= i < report.targets@.len() {
        every_check_has_its_line("Publish targets"@, readings(report.targets@), i);
        one_of_six(a, b, c, d, e, f, report.targets@[i]@.printed());
    }
    if 0 <= i < report.platform@.len() {
        every_check_has_its_line("Platform"@, readings(report.platform@), i);
        one_of_six(a, b, c, d, e, f, report.platform@[i]@.printed());
    }
    if 0 <= i < report.install@.len() {
        every_check_has_its_line("Install"@, readings(report.install@), i);
        one_of_six(a, b, c, d, e, f, report.install@[i]@.printed());
    }
    let all = report.everything();
    let failed = decimal(in_state(all, Health::Fail)) + " failure(s), "@;
    let before = decimal(in_state(all, Health::Working)) + " ok, "@ + decimal(in_state(all, Health::Warn))
        + " warning(s), "@;
    let counts = before + failed + decimal(in_state(all, Health::NotNeeded)) + " not needed\n"@;
    let words = if in_state(all, Health::Fail) > 0 {
        Seq::<char>::empty()
    } else if in_state(readings(report.install@), Health::Warn) > 0 {
        "Nothing is blocking a review, but work is not moving — see Install above.\n"@
    } else {
        "Nothing is blocking a review.\n"@
    };
    assert(f =~= counts + words);
    let rest = decimal(in_state(all, Health::NotNeeded)) + " not needed\n"@ + words;
    stands_inside(before, failed, rest);
    assert(before + failed + rest =~= f);
    one_of_six(a, b, c, d, e, f, failed);
    if in_state(all, Health::Fail) == 0 {
        reveal_strlit("Nothing is blocking a review, but work is not moving — see Install above.\n");
        reveal_strlit("Nothing is blocking a review.\n");
        reveal_strlit("Nothing is blocking a review");
        let said = "Nothing is blocking a review"@;
        let n = said.len() as int;
        assert(words.take(n) =~= said);
        stands_inside(counts, said, words.skip(n));
        assert(counts + said + words.skip(n) =~= f);
        one_of_six(a, b, c, d, e, f, said);
    }
}

/// A mark tells how a check stands.
pub proof fn a_mark_tells_how_a_check_stands(health: Health)
    ensures
        health.mark() == "ok  "@ <==> health is Working,
        health.mark() == "warn"@ <==> health is Warn,
        health.mark() == "FAIL"@ <==> health is Fail,
        health.mark() == "n/a "@ <==> health is NotNeeded,
{
    reveal_strlit("ok  ");
    reveal_strlit("warn");
    reveal_strlit("FAIL");
    reveal_strlit("n/a ");
    assert("ok  "@[0] == 'o' && "warn"@[0] == 'w' && "FAIL"@[0] == 'F' && "n/a "@[0] == 'n');
}

} // verus!
