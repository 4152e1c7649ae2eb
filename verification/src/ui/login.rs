//! The sign-in form: what it starts with, what it refuses, and what comes of it.

use vstd::prelude::*;

use crate::config::Config;
use crate::jellyfin::auth::Credentials;
use crate::jellyfin::client;
use crate::jellyfin::client::normalize_base;
use crate::jellyfin::models::ServerInfo;
use crate::text;
use crate::text::{cat, copy_text, trim};

verus! {

/// What the fields of the form hold at first.
#[derive(Debug)]
pub struct Prefill {
    pub server: Option<String>,
    pub username: Option<String>,
}

/// What the form starts with: the configuration first, then a stored login, which knows the
/// server its token came from.
pub fn prefill(config: &Config, stored: &Option<Credentials>) -> (r: Prefill)
    ensures
        text::text_opt(r.server) == (if config@.server is Some {
            config@.server
        } else {
            match *stored {
                Some(creds) => Some(creds@.server),
                None => None,
            }
        }),
        text::text_opt(r.username) == (if config@.username is Some {
            config@.username
        } else {
            match *stored {
                Some(creds) => Some(creds@.username),
                None => None,
            }
        }),
{
    let server = match copy_text(&config.server) {
        Some(server) => Some(server),
        None => match stored {
            Some(creds) => Some(creds.server.clone()),
            None => None,
        },
    };
    let username = match copy_text(&config.username) {
        Some(username) => Some(username),
        None => match stored {
            Some(creds) => Some(creds.username.clone()),
            None => None,
        },
    };
    Prefill { server, username }
}

/// What a filled-in form asks for.
#[derive(Debug)]
pub struct Attempt {
    /// Address of the server, made whole.
    pub url: String,
    pub username: String,
    pub password: String,
}

/// What becomes of the form when it is submitted: the fields have to be filled in. The password
/// is taken as it is, white space and all.
pub fn submit(server: &str, username: &str, password: &str) -> (r: Result<Attempt, String>)
    ensures
        if text::trimmed(server@).len() == 0 || text::trimmed(username@).len() == 0
            || password@.len() == 0 {
            r is Err && r->Err_0@ == "Enter the server URL, username and password."@
        } else {
            &&& r is Ok
            &&& r->Ok_0.url@ == client::normalized_base(text::trimmed(server@))
            &&& r->Ok_0.username@ == text::trimmed(username@)
            &&& r->Ok_0.password@ == password@
        },
{
    let server = trim(server);
    let username = trim(username);
    let no_server = server.as_str().is_empty();
    let no_username = username.as_str().is_empty();
    let no_password = password.is_empty();
    if no_server || no_username || no_password {
        return Err("Enter the server URL, username and password.".to_owned());
    }
    Ok(
        Attempt {
            url: normalize_base(server.as_str()),
            username,
            password: password.to_owned(),
        },
    )
}

/// Where an attempt to sign in has got to.
#[derive(Debug, Clone, Copy, PartialEq, Eq, Structural)]
pub enum Stage {
    /// Is there a server at all? A mistyped address costs one cheap request, not a doomed login.
    Probe,
    /// Are these the right credentials?
    Login,
    /// Does the token that came of it work?
    Validate,
    /// It does: keep it.
    Store,
    /// Everything worked.
    Done,
}

impl Stage {
    /// What comes after a stage that worked.
    pub open spec fn successor(self) -> Stage {
        match self {
            Stage::Probe => Stage::Login,
            Stage::Login => Stage::Validate,
            Stage::Validate => Stage::Store,
            Stage::Store => Stage::Done,
            Stage::Done => Stage::Done,
        }
    }
}

/// What is done after a stage: the next one where it worked. A stage that failed ends the attempt
/// with its message, which is shown on the form.
pub fn next_stage(stage: Stage, outcome: Result<(), String>) -> (r: Result<Stage, String>)
    ensures
        r == (match outcome {
            Ok(_) => Ok(stage.successor()),
            Err(message) => Err(message),
        }),
{
    match outcome {
        Ok(_) => Ok(
            match stage {
                Stage::Probe => Stage::Login,
                Stage::Login => Stage::Validate,
                Stage::Validate => Stage::Store,
                Stage::Store => Stage::Done,
                Stage::Done => Stage::Done,
            },
        ),
        Err(message) => Err(message),
    }
}

/// Where an attempt stands after stages with these outcomes, in order: at a stage, or ended by the
/// message of the first that failed.
pub open spec fn attempted(outcomes: Seq<Result<(), String>>) -> Result<Stage, String>
    decreases outcomes.len(),
{
    if outcomes.len() == 0 {
        Ok(Stage::Probe)
    } else {
        match (attempted(outcomes.drop_last()), outcomes.last()) {
            (Err(message), _) => Err(message),
            (Ok(_), Err(message)) => Err(message),
            (Ok(stage), Ok(_)) => Ok(stage.successor()),
        }
    }
}

/// How many stages lie before this one.
spec fn rank(stage: Stage) -> int {
    match stage {
        Stage::Probe => 0,
        Stage::Login => 1,
        Stage::Validate => 2,
        Stage::Store => 3,
        Stage::Done => 4,
    }
}

proof fn lemma_attempted(outcomes: Seq<Result<(), String>>)
    ensures
        attempted(outcomes) is Ok <==> (forall|i: int|
            0 <= i < outcomes.len() ==> #[trigger] outcomes[i] is Ok),
        attempted(outcomes) is Ok ==> rank(attempted(outcomes)->Ok_0) == (if outcomes.len() < 4 {
            outcomes.len() as int
        } else {
            4
        }),
    decreases outcomes.len(),
{
    if outcomes.len() > 0 {
        let front = outcomes.drop_last();
        lemma_attempted(front);
        assert forall|i: int| 0 <= i < front.len() implies #[trigger] front[i] == outcomes[i] by {}
        if attempted(outcomes) is Ok {
            assert forall|i: int| 0 <= i < outcomes.len() implies #[trigger] outcomes[i] is Ok by {
                if i < front.len() {
                    assert(front[i] is Ok);
                }
            }
        }
        if forall|i: int| 0 <= i < outcomes.len() ==> #[trigger] outcomes[i] is Ok {
            assert(outcomes[outcomes.len() - 1] is Ok);
        }
    }
}

/// The password is sent only after the server has answered, and the token is stored only after
/// the server has answered, has taken the password and has taken the token: exactly where those
/// stages, and no others, have been gone through and each of them worked.
pub proof fn law_nothing_is_stored_untried(outcomes: Seq<Result<(), String>>)
    ensures
        attempted(outcomes) == Ok::<Stage, String>(Stage::Login) <==> (outcomes.len() == 1
            && outcomes[0] is Ok),
        attempted(outcomes) == Ok::<Stage, String>(Stage::Store) <==> (outcomes.len() == 3
            && outcomes[0] is Ok && outcomes[1] is Ok && outcomes[2] is Ok),
{
    lemma_attempted(outcomes);
}

/// The first stage that fails ends the attempt: its message is what is shown, whatever comes
/// after.
pub proof fn law_the_first_failure_ends_the_attempt(
    outcomes: Seq<Result<(), String>>,
    message: String,
    later: Seq<Result<(), String>>,
)
    requires
        attempted(outcomes) is Ok,
    ensures
        attempted(outcomes.push(Err(message)) + later) == Err::<Stage, String>(message),
    decreases later.len(),
{
    let failed = outcomes.push(Err(message));
    if later.len() == 0 {
        assert(failed + later =~= failed);
        assert(failed.drop_last() =~= outcomes);
    } else {
        law_the_first_failure_ends_the_attempt(outcomes, message, later.drop_last());
        assert((failed + later).drop_last() =~= failed + later.drop_last());
    }
}

/// What is said after a login that has to be followed by a restart.
pub fn success_message(info: &ServerInfo, creds: &Credentials) -> (r: String)
    ensures
        r@ == "Signed in as "@ + creds@.username + " on "@ + info.server_name@ + (
        if info.version@.len() == 0 {
            Seq::empty()
        } else {
            " ("@ + info.version@ + ")"@
        }) + ".\n\nRestart trayplay to start playback."@,
{
    let version = {
        let none = info.version.as_str().is_empty();
        if none {
            String::new()
        } else {
            cat(cat(" (", info.version.as_str()).as_str(), ")")
        }
    };
    let who = cat(cat("Signed in as ", creds.username.as_str()).as_str(), " on ");
    let place = cat(cat(who.as_str(), info.server_name.as_str()).as_str(), version.as_str());
    let r = cat(place.as_str(), ".\n\nRestart trayplay to start playback.");
    proof {
        if info.version@.len() == 0 {
            assert(version@ =~= Seq::<char>::empty());
        }
    }
    r
}

/// An attempt that nothing fails is done after four steps and not before: the server is probed,
/// the user signed in, the token tried and what was got is stored, in that order.
pub proof fn law_four_steps_sign_in(outcomes: Seq<Result<(), String>>)
    requires
        forall|i: int| 0 <= i < outcomes.len() ==> (#[trigger] outcomes[i]) is Ok,
    ensures
        attempted(outcomes) is Ok,
        outcomes.len() == 0 ==> attempted(outcomes) == Ok::<Stage, String>(Stage::Probe),
        outcomes.len() == 1 ==> attempted(outcomes) == Ok::<Stage, String>(Stage::Login),
        outcomes.len() == 2 ==> attempted(outcomes) == Ok::<Stage, String>(Stage::Validate),
        outcomes.len() == 3 ==> attempted(outcomes) == Ok::<Stage, String>(Stage::Store),
        outcomes.len() >= 4 ==> attempted(outcomes) == Ok::<Stage, String>(Stage::Done),
    decreases outcomes.len(),
{
    if outcomes.len() > 0 {
        let front = outcomes.drop_last();
        assert forall|i: int| 0 <= i < front.len() implies (#[trigger] front[i]) is Ok by {
            assert(outcomes[i] is Ok);
        }
        assert(outcomes[outcomes.len() - 1] is Ok);
        law_four_steps_sign_in(front);
    }
}

} // verus!
