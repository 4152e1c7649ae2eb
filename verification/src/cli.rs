//! The command line: who signs in where, and what a listing looks like.

use vstd::prelude::*;

use crate::config::Config;
use crate::jellyfin::auth::Credentials;
use crate::jellyfin::models::{Item, ItemView};
use crate::text;
use crate::text::{cat, copy_text, pad, write_decimal};
use crate::time::NANOS_PER_SEC;

verus! {

/// How many tracks a listing has by default.
pub const DEFAULT_LIMIT: u32 = 20;

/// Who signs in where.
#[derive(Debug)]
pub struct LoginTarget {
    pub server: String,
    /// None where it has to be asked for.
    pub username: Option<String>,
}

/// One value, or else another.
pub open spec fn or_else(a: Option<Seq<char>>, b: Option<Seq<char>>) -> Option<Seq<char>> {
    if a is Some {
        a
    } else {
        b
    }
}

/// Who signs in where: what was given on the command line wins over the configuration.
pub fn login_target(
    server: Option<String>,
    username: Option<String>,
    config: &Config,
) -> (r: Result<LoginTarget, String>)
    ensures
        match or_else(text::text_opt(server), config@.server) {
            Some(s) => {
                &&& r is Ok
                &&& r->Ok_0.server@ == s
                &&& text::text_opt(r->Ok_0.username) == or_else(
                    text::text_opt(username),
                    config@.username,
                )
            },
            None => r is Err && r->Err_0@
                == "no server given; pass --server or set `server` in config.toml"@,
        },
{
    let server = match server {
        Some(server) => server,
        None => match copy_text(&config.server) {
            Some(server) => server,
            None => return Err(
                "no server given; pass --server or set `server` in config.toml".to_owned(),
            ),
        },
    };
    let username = match username {
        Some(username) => Some(username),
        None => copy_text(&config.username),
    };
    Ok(LoginTarget { server, username })
}

/// What is said after a login.
pub fn login_message(creds: &Credentials) -> (r: String)
    ensures
        r@ == "Logged in as "@ + creds@.username + " on "@ + creds@.server
            + ". Token stored (mode 0600)."@,
{
    let who = cat(cat("Logged in as ", creds.username.as_str()).as_str(), " on ");
    cat(cat(who.as_str(), creds.server.as_str()).as_str(), ". Token stored (mode 0600).")
}

/// How many tracks there are.
pub fn count_line(count: usize) -> (r: String)
    ensures
        r@ == text::decimal(count as nat) + " tracks"@,
{
    cat(write_decimal(count as u64).as_str(), " tracks")
}

/// A track's whole seconds, none where its length is not known.
pub open spec fn seconds_of(item: ItemView) -> nat {
    match item.duration() {
        Some(d) => (d.nanos / NANOS_PER_SEC) as nat,
        None => 0,
    }
}

/// A track in a listing: its id, its length, who it is by, its name and its album.
pub open spec fn listing_of(item: ItemView) -> Seq<char> {
    item.id + "  "@ + text::padded(text::decimal(seconds_of(item) / 60), 3, ' ') + ":"@
        + text::padded(text::decimal(seconds_of(item) % 60), 2, '0') + "  "@
        + item.display_artist() + " - "@ + item.name + " ["@ + (match item.album {
        Some(album) => album,
        None => "-"@,
    }) + "]"@
}

/// A track in a listing.
pub fn listing(item: &Item) -> (r: String)
    ensures
        r@ == listing_of(item@),
{
    let secs: u64 = match item.duration() {
        Some(d) => d.as_secs() as u64,
        None => 0,
    };
    let mut line = cat(item.id.as_str(), "  ");
    line = cat(line.as_str(), pad(write_decimal(secs / 60).as_str(), 3, ' ').as_str());
    line = cat(line.as_str(), ":");
    line = cat(line.as_str(), pad(write_decimal(secs % 60).as_str(), 2, '0').as_str());
    line = cat(cat(line.as_str(), "  ").as_str(), item.display_artist());
    line = cat(cat(line.as_str(), " - ").as_str(), item.name.as_str());
    line = cat(line.as_str(), " [");
    line = match &item.album {
        Some(album) => cat(line.as_str(), album.as_str()),
        None => cat(line.as_str(), "-"),
    };
    cat(line.as_str(), "]")
}

/// What was given first counts, and what was given second where nothing was.
pub proof fn law_what_is_given_first_counts(a: Option<Seq<char>>, b: Option<Seq<char>>)
    ensures
        a is Some ==> or_else(a, b) == a,
        a is None ==> or_else(a, b) == b,
{
}

/// A line of a listing starts with the id and ends with the album in brackets, and who and what
/// stand before that. The whole seconds of a track are told.
pub proof fn law_a_listing_says_what_the_track_is(item: ItemView)
    ensures
        (item.id + "  "@).is_prefix_of(listing_of(item)),
        item.album is Some ==> (item.display_artist() + " - "@ + item.name + " ["@
            + item.album.unwrap() + "]"@).is_suffix_of(listing_of(item)),
        item.album is None ==> (item.display_artist() + " - "@ + item.name + " ["@ + "-"@
            + "]"@).is_suffix_of(listing_of(item)),
        item.duration() is None ==> seconds_of(item) == 0,
        item.duration() is Some ==> seconds_of(item) * 1_000_000_000
            <= item.duration().unwrap().nanos < (seconds_of(item) + 1) * 1_000_000_000,
{
    let time = text::padded(text::decimal(seconds_of(item) / 60), 3, ' ') + ":"@ + text::padded(
        text::decimal(seconds_of(item) % 60),
        2,
        '0',
    );
    let album = match item.album {
        Some(album) => album,
        None => "-"@,
    };
    let tail = item.display_artist() + " - "@ + item.name + " ["@ + album + "]"@;
    assert(listing_of(item) =~= item.id + "  "@ + time + "  "@ + tail);
}

} // verus!
