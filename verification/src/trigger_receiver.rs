//! What is answered to a process that asks for a review.
//!
//! This is the one part that somebody else chooses when to run. A request carries a shared secret,
//! which is compared in full whether or not its first bytes agree. An unknown repository and a
//! wrong secret get the same answer: telling them apart would tell which repositories there are.
//!
//! A request is taken to the bus and answered. Discovery never runs for it: a slow pass must not
//! become a slow commit.

use vstd::prelude::*;

use crate::clock::Timestamp;
use crate::model::TriggerSource;
use crate::text::{
    cat4, cat7, decimal, first_index, first_index_is, first_index_means, first_index_none, num, opt_text,
    same, stands_inside, within,
};
use crate::triggers::TriggerEvent;

verus! {

/// The loopback port unless something else is configured.
pub const DEFAULT_TRIGGER_PORT: u16 = 41791;

/// The header that carries the shared secret.
pub const SECRET_HEADER: &'static str = "x-revlocal-secret";

/// The path that requests are sent to.
pub const TRIGGER_PATH: &'static str = "/trigger";

/// What a hook sends.
#[derive(Clone, Debug, PartialEq, Eq)]
pub struct TriggerRequest {
    /// The repository's configured name.
    pub repo: String,
    /// What changed, if the hook knew. Nothing looks it up.
    pub hint: Option<String>,
}

/// What is answered.
#[derive(Clone, Debug, PartialEq, Eq)]
pub struct TriggerResponse {
    /// Whether the event was taken to the bus.
    pub accepted: bool,
    /// What happened, for a person.
    pub detail: String,
}

/// One repository that requests are accepted for.
#[derive(Clone, Debug, PartialEq, Eq)]
pub struct RepoSecret {
    /// Its number.
    pub repo_id: i64,
    /// Its shared secret.
    pub secret: String,
}

/// Compare two byte strings without telling where they first differ. Their length is told: the
/// length of a secret is not the secret.
pub fn constant_time_eq(a: &[u8], b: &[u8]) -> (r: bool)
    ensures
        r == (a@ == b@),
{
    if a.len() != b.len() {
        return false;
    }
    let mut difference: u8 = 0;
    let mut i: usize = 0;
    while i < a.len()
        invariant
            i <= a.len() == b.len(),
            (difference == 0) == (forall|j: int| 0 <= j < i ==> a@[j] == b@[j]),
        decreases a.len() - i,
    {
        let left: u8 = a[i];
        let right: u8 = b[i];
        let before: u8 = difference;
        assert((before | (left ^ right)) == 0 <==> before == 0 && left == right) by (bit_vector);
        difference = before | (left ^ right);
        i += 1;
    }
    assert(difference == 0 ==> a@ =~= b@);
    difference == 0
}

/// Whether an entry is that of a name.
pub open spec fn named(name: Seq<char>) -> spec_fn((String, RepoSecret)) -> bool {
    |e: (String, RepoSecret)| e.0@ == name
}

/// The repository that a request is accepted for: one of its name, with its secret, which is not
/// empty.
pub open spec fn authorised(
    repos: Seq<(String, RepoSecret)>,
    name: Seq<char>,
    presented: Seq<char>,
) -> Option<i64> {
    match first_index(repos, named(name)) {
        Some(i) => if repos[i].1.secret@ == presented && presented.len() > 0 {
            Some(repos[i].1.repo_id)
        } else {
            None
        },
        None => None,
    }
}

fn find_repo(repos: &Vec<(String, RepoSecret)>, name: &str) -> (r: Option<usize>)
    ensures
        match r {
            Some(i) => i < repos@.len() && first_index(repos@, named(name@)) == Some(i as int),
            None => first_index(repos@, named(name@)) is None,
        },
{
    let ghost p = named(name@);
    let mut i: usize = 0;
    while i < repos.len()
        invariant
            i <= repos.len(),
            p == named(name@),
            forall|j: int| 0 <= j < i ==> !p(#[trigger] repos@[j]),
        decreases repos.len() - i,
    {
        if same(repos[i].0.as_str(), name) {
            proof {
                first_index_is(repos@, p, i as int);
            }
            return Some(i);
        }
        i += 1;
    }
    proof {
        first_index_none(repos@, p);
    }
    None
}

/// The repository that a request is accepted for. The comparison runs whether or not the name is
/// known, so that the time of an answer tells nothing either.
pub fn authorise(repos: &Vec<(String, RepoSecret)>, name: &str, presented: &str) -> (r: Option<i64>)
    ensures
        r == authorised(repos@, name@, presented@),
{
    let known = find_repo(repos, name);
    let expected: &str = match known {
        Some(i) => repos[i].1.secret.as_str(),
        None => "",
    };
    let secret_ok = constant_time_eq(presented.as_bytes(), expected.as_bytes());
    proof {
        // Texts are the same exactly when their bytes are.
        if vstd::utf8::encode_utf8(presented@) == vstd::utf8::encode_utf8(expected@) {
            vstd::utf8::encode_utf8_decode_utf8(presented@);
            vstd::utf8::encode_utf8_decode_utf8(expected@);
        }
    }
    let empty = crate::text::chars_of(expected).len() == 0;
    match known {
        Some(i) => {
            if secret_ok && !empty {
                Some(repos[i].1.repo_id)
            } else {
                None
            }
        },
        None => None,
    }
}

/// A status of an answer: accepted.
pub const ACCEPTED: u16 = 202;

/// A status of an answer: not authorised.
pub const UNAUTHORIZED: u16 = 401;

/// A status of an answer: something here failed.
pub const INTERNAL_ERROR: u16 = 500;

/// The answer to a request that is not authorised, whatever the reason.
pub fn refuse() -> (r: (u16, TriggerResponse))
    ensures
        r.0 == UNAUTHORIZED,
        !r.1.accepted,
        r.1.detail@ == "unknown repository or incorrect secret"@,
{
    (
        UNAUTHORIZED,
        TriggerResponse {
            accepted: false,
            detail: "unknown repository or incorrect secret".to_owned(),
        },
    )
}

/// Take a request: the event for the bus, or the answer that refuses it.
pub fn handle_trigger(
    repos: &Vec<(String, RepoSecret)>,
    presented: Option<&str>,
    request: &TriggerRequest,
    now: Timestamp,
) -> (r: Result<TriggerEvent, (u16, TriggerResponse)>)
    ensures
        ({
            let shown = match presented {
                Some(secret) => secret@,
                None => Seq::empty(),
            };
            match (authorised(repos@, request.repo@, shown), r) {
                (Some(repo_id), Ok(event)) => event.repo_id == repo_id && event.source == TriggerSource::Hook
                    && opt_text(event.hint) == opt_text(request.hint) && event.received_at == now,
                (None, Err(answer)) => answer.0 == UNAUTHORIZED && !answer.1.accepted && answer.1.detail@
                    == "unknown repository or incorrect secret"@,
                _ => false,
            }
        }),
{
    proof {
        reveal_strlit("");
        assert(""@ =~= Seq::empty());
    }
    let shown: &str = match presented {
        Some(secret) => secret,
        None => "",
    };
    match authorise(repos, request.repo.as_str(), shown) {
        None => Err(refuse()),
        Some(repo_id) => {
            let event = TriggerEvent::new(repo_id, TriggerSource::Hook, now);
            match &request.hint {
                Some(hint) => Ok(event.with_hint(hint.as_str())),
                None => Ok(event),
            }
        },
    }
}

/// The answer once the bus has been asked: what it did with the event, or that it could not be
/// asked. An answer that implied the event was taken would not be true of the second.
pub fn answer(taken: Option<&str>) -> (r: (u16, TriggerResponse))
    ensures
        match taken {
            Some(detail) => r.0 == ACCEPTED && r.1.accepted && r.1.detail@ == detail@,
            None => r.0 == INTERNAL_ERROR && !r.1.accepted && r.1.detail@ == "the trigger bus is unavailable"@,
        },
{
    match taken {
        Some(detail) => (ACCEPTED, TriggerResponse { accepted: true, detail: detail.to_owned() }),
        None => (
            INTERNAL_ERROR,
            TriggerResponse { accepted: false, detail: "the trigger bus is unavailable".to_owned() },
        ),
    }
}

/// Why the receiver could not be bound.
#[derive(Clone, Debug, PartialEq, Eq)]
pub enum BindError {
    /// Something else is on the port.
    PortInUse {
        /// The port that was asked for.
        port: u16,
        /// A port that was free a moment ago.
        suggestion: u16,
    },
    /// Anything else the system said.
    Failed {
        /// The port that was asked for.
        port: u16,
        /// Why.
        source: String,
    },
}

impl BindError {
    /// The error in words.
    pub open spec fn in_words(self) -> Seq<char> {
        match self {
            Self::PortInUse { port, suggestion } => "port "@ + decimal(port as nat)
                + " is already in use, so the git-hook trigger receiver cannot start\n  try: set global.trigger_port = "@
                + decimal(suggestion as nat) + " in your config, or stop whatever is on "@ + decimal(
                port as nat,
            ) + " (lsof -i :"@ + decimal(port as nat) + ")"@,
            Self::Failed { port, source } => "could not bind 127.0.0.1:"@ + decimal(port as nat) + ": "@
                + source@,
        }
    }

    /// The error in words.
    pub fn describe(&self) -> (r: String)
        ensures
            r@ == self.in_words(),
    {
        match self {
            Self::PortInUse { port, suggestion } => {
                let number = num(*port as u64);
                let mut out = cat7(
                    "port ",
                    number.as_str(),
                    " is already in use, so the git-hook trigger receiver cannot start\n  try: set global.trigger_port = ",
                    num(*suggestion as u64).as_str(),
                    " in your config, or stop whatever is on ",
                    number.as_str(),
                    " (lsof -i :",
                );
                out.append(number.as_str());
                out.append(")");
                out
            },
            Self::Failed { port, source } => cat4(
                "could not bind 127.0.0.1:",
                num(*port as u64).as_str(),
                ": ",
                source.as_str(),
            ),
        }
    }
}

/// That a port is taken, with one to use instead: one that was found free, or else the next.
pub fn port_in_use(port: u16, free: Option<u16>) -> (r: BindError)
    ensures
        r == (BindError::PortInUse {
            port,
            suggestion: match free {
                Some(p) => p,
                None => if port < u16::MAX {
                    (port + 1) as u16
                } else {
                    port
                },
            },
        }),
{
    let suggestion: u16 = match free {
        Some(p) => p,
        None => port.saturating_add(1),
    };
    BindError::PortInUse { port, suggestion }
}

// --- what holds of every request ---

/// An unknown repository and a wrong secret are refused alike, and so is an empty secret, whatever
/// is configured.
pub proof fn a_refusal_tells_nothing(
    repos: Seq<(String, RepoSecret)>,
    known: Seq<char>,
    unknown: Seq<char>,
    wrong: Seq<char>,
)
    requires
        first_index(repos, named(unknown)) is None,
        first_index(repos, named(known)) matches Some(i) ==> repos[i].1.secret@ != wrong,
    ensures
        authorised(repos, unknown, wrong) == authorised(repos, known, wrong),
        authorised(repos, known, Seq::empty()) is None,
        authorised(repos, unknown, Seq::empty()) is None,
{
}

/// Who may trigger a repository: whoever presents its secret, where it has one. The first
/// repository of a name counts, and a name that none has is refused.
pub proof fn only_the_secret_opens(repos: Seq<(String, RepoSecret)>, name: Seq<char>, presented: Seq<char>, id: i64)
    ensures
        (authorised(repos, name, presented) == Some(id)) == (presented.len() > 0 && exists|i: int|
            0 <= i < repos.len() && (#[trigger] repos[i]).0@ == name && repos[i].1.secret@ == presented
                && repos[i].1.repo_id == id && forall|j: int| 0 <= j < i ==> (#[trigger] repos[j]).0@ != name),
{
    let p = named(name);
    first_index_means(repos, p);
    match first_index(repos, p) {
        Some(i) => {
            assert(p(repos[i]));
            assert forall|j: int| 0 <= j < i implies (#[trigger] repos[j]).0@ != name by {
                assert(!p(repos[j]));
            }
            assert forall|k: int|
                0 <= k < repos.len() && (#[trigger] repos[k]).0@ == name && (forall|j: int|
                    0 <= j < k ==> (#[trigger] repos[j]).0@ != name) implies k == i by {
                if k < i {
                    assert(!p(repos[k]));
                } else if i < k {
                    assert(repos[i].0@ != name);
                }
            }
        },
        None => {
            assert forall|k: int| 0 <= k < repos.len() implies (#[trigger] repos[k]).0@ != name by {
                assert(!p(repos[k]));
            }
        },
    }
}

/// That a port could not be had is told with the port, and with the one to take instead or the reason.
pub proof fn a_port_that_could_not_be_had_is_told(port: u16, suggestion: u16, source: String)
    ensures
        within(BindError::PortInUse { port, suggestion }.in_words(), "port "@ + decimal(port as nat)),
        within(
            BindError::PortInUse { port, suggestion }.in_words(),
            "global.trigger_port = "@ + decimal(suggestion as nat),
        ),
        within(BindError::Failed { port, source }.in_words(), "127.0.0.1:"@ + decimal(port as nat)),
        within(BindError::Failed { port, source }.in_words(), source@),
{
    in_use_in_words(decimal(port as nat), decimal(suggestion as nat));
    unbound_in_words(decimal(port as nat), source@);
}

proof fn in_use_in_words(port: Seq<char>, other: Seq<char>)
    ensures
        ({
            let all = "port "@ + port
                + " is already in use, so the git-hook trigger receiver cannot start\n  try: set global.trigger_port = "@
                + other + " in your config, or stop whatever is on "@ + port + " (lsof -i :"@ + port + ")"@;
            within(all, "port "@ + port) && within(all, "global.trigger_port = "@ + other)
        }),
{
    let set =
        " is already in use, so the git-hook trigger receiver cannot start\n  try: set global.trigger_port = "@;
    let end = " in your config, or stop whatever is on "@ + port + " (lsof -i :"@ + port + ")"@;
    let all = "port "@ + port + set + other + " in your config, or stop whatever is on "@ + port + " (lsof -i :"@ + port
        + ")"@;
    reveal_strlit(
        " is already in use, so the git-hook trigger receiver cannot start\n  try: set global.trigger_port = ",
    );
    reveal_strlit("global.trigger_port = ");
    let none = Seq::<char>::empty();
    let first = "port "@ + port;
    stands_inside(none, first, set + other + end);
    assert(none + first + (set + other + end) =~= all);
    let told = "global.trigger_port = "@ + other;
    let n = set.len() - 22;
    assert(set.skip(n) =~= "global.trigger_port = "@);
    stands_inside(first + set.take(n), told, end);
    assert(first + set.take(n) + told + end =~= all);
}

proof fn unbound_in_words(port: Seq<char>, source: Seq<char>)
    ensures
        within("could not bind 127.0.0.1:"@ + port + ": "@ + source, "127.0.0.1:"@ + port),
        within("could not bind 127.0.0.1:"@ + port + ": "@ + source, source),
{
    let head = "could not bind 127.0.0.1:"@;
    let all = head + port + ": "@ + source;
    reveal_strlit("could not bind 127.0.0.1:");
    reveal_strlit("127.0.0.1:");
    let none = Seq::<char>::empty();
    let n = head.len() - 10;
    assert(head.skip(n) =~= "127.0.0.1:"@);
    let told = "127.0.0.1:"@ + port;
    stands_inside(head.take(n), told, ": "@ + source);
    assert(head.take(n) + told + (": "@ + source) =~= all);
    stands_inside(head + port + ": "@, source, none);
    assert(head + port + ": "@ + source + none =~= all);
}

} // verus!
