//! Who is signed in, and what identifies this installation.

use vstd::prelude::*;

use crate::config;
use crate::config::{config_dir, join, NoBaseDirs, ProjectDirs};
use crate::random;
use crate::random::fresh_identifier;
use crate::text;
use crate::text::{cat, trim, write_numeral};

verus! {

/// Everything needed to talk to the server after a successful login.
#[derive(Debug)]
pub struct Credentials {
    pub server: String,
    pub user_id: String,
    pub username: String,
    pub token: String,
}

/// What [`Credentials`] say.
pub struct CredentialsView {
    pub server: Seq<char>,
    pub user_id: Seq<char>,
    pub username: Seq<char>,
    pub token: Seq<char>,
}

impl View for Credentials {
    type V = CredentialsView;

    open spec fn view(&self) -> CredentialsView {
        CredentialsView {
            server: self.server@,
            user_id: self.user_id@,
            username: self.username@,
            token: self.token@,
        }
    }
}

impl Clone for Credentials {
    fn clone(&self) -> (r: Self)
        ensures
            r@ == self@,
    {
        Credentials {
            server: self.server.clone(),
            user_id: self.user_id.clone(),
            username: self.username.clone(),
            token: self.token.clone(),
        }
    }
}

/// Access mode of the credentials file: nobody but its owner reads it.
pub const STORE_MODE: u32 = 0o600;

/// Access mode of the directory it is in.
pub const STORE_DIR_MODE: u32 = 0o700;

/// The stored access token, in a file that only its owner can read.
#[derive(Debug)]
pub struct FileStore {
    path: String,
}

/// What to do with the credentials file.
#[derive(Debug, PartialEq, Eq)]
pub enum StoreAccess {
    /// There is none: nobody is signed in.
    Absent,
    /// Others can see it: refuse it, with this message.
    Refuse(String),
    /// Read it.
    Read,
}

/// Whether anyone but the owner has any access under `mode`.
pub open spec fn seen_by_others(mode: u32) -> bool {
    mode & 0o077 != 0
}

/// What is said of a credentials file that others can see.
pub open spec fn refusal(path: Seq<char>, mode: u32) -> Seq<char> {
    path + " is mode "@ + text::numeral((mode & 0o777) as nat, 8)
        + ", refusing to use it; run: chmod 600 "@ + path
}

impl FileStore {
    /// Where the file is.
    pub closed spec fn location(&self) -> Seq<char> {
        self.path@
    }

    /// The store of this installation, if its directories are known.
    pub fn new(dirs: &Option<ProjectDirs>) -> (r: Result<Self, NoBaseDirs>)
        ensures
            match r {
                Ok(store) => dirs is Some && store.location() == config::file_in(
                    dirs.unwrap().config_dir@,
                    "credentials.toml"@,
                ),
                Err(_) => dirs is None,
            },
    {
        match config_dir(dirs) {
            Ok(dir) => Ok(FileStore { path: join(dir.as_str(), "credentials.toml") }),
            Err(err) => Err(err),
        }
    }

    /// Where the file is.
    pub fn path(&self) -> (r: &str)
        ensures
            r@ == self.location(),
    {
        self.path.as_str()
    }

    /// What to do with the file, `mode` being its access mode if it exists.
    ///
    /// A token that other users can see is refused rather than silently used.
    pub fn access(&self, mode: Option<u32>) -> (r: StoreAccess)
        ensures
            match mode {
                None => r == StoreAccess::Absent,
                Some(mode) => if seen_by_others(mode) {
                    r is Refuse && r->Refuse_0@ == refusal(self.location(), mode)
                } else {
                    r == StoreAccess::Read
                },
            },
    {
        match mode {
            None => StoreAccess::Absent,
            Some(mode) => {
                let bits = mode & 0o777;
                assert(bits & 0o077 == mode & 0o077) by (bit_vector)
                    requires
                        bits == mode & 0o777,
                ;
                if bits & 0o077 != 0 {
                    let what = cat(
                        cat(self.path.as_str(), " is mode ").as_str(),
                        write_numeral(bits as u64, 8).as_str(),
                    );
                    let how = cat(what.as_str(), ", refusing to use it; run: chmod 600 ");
                    StoreAccess::Refuse(cat(how.as_str(), self.path.as_str()))
                } else {
                    StoreAccess::Read
                }
            },
        }
    }
}

/// A file of the mode that the store writes is one that the store reads.
pub proof fn law_what_is_stored_can_be_loaded()
    ensures
        !seen_by_others(STORE_MODE),
{
    assert(0o600u32 & 0o077u32 == 0) by (bit_vector);
}

/// What identifies this installation.
#[derive(Debug)]
pub enum DeviceId {
    /// It was generated before.
    Known(String),
    /// It has just been generated, and is to be stored.
    Fresh(String),
}

/// Stable per-installation device id, generated once, `stored` being what is stored of it.
///
/// The server keys its session list on this, so a value that changed per start would litter its
/// dashboard with dead sessions.
pub fn device_id(stored: Option<String>) -> (r: DeviceId)
    ensures
        match r {
            DeviceId::Known(id) => stored is Some && id@ == text::trimmed(stored.unwrap()@)
                && id@.len() > 0,
            DeviceId::Fresh(id) => (stored is None || text::trimmed(stored.unwrap()@).len() == 0)
                && exists|key: u128|
                random::is_marked_random(key) && id@ == #[trigger] random::hyphenated(key),
        },
{
    if let Some(existing) = stored {
        let trimmed = trim(existing.as_str());
        let empty = trimmed.as_str().is_empty();
        if !empty {
            return DeviceId::Known(trimmed);
        }
    }
    DeviceId::Fresh(fresh_identifier())
}

/// What a password is asked for with.
pub fn password_prompt(username: &str) -> (r: String)
    ensures
        r@ == "Password for "@ + username@ + ": "@,
{
    cat(cat("Password for ", username).as_str(), ": ")
}

/// An identifier that was stored is the one that is read back: it has nothing to trim, and is
/// never empty.
pub proof fn law_a_stored_identifier_is_read_back(key: u128)
    ensures
        text::trimmed(random::hyphenated(key)) == random::hyphenated(key),
        random::hyphenated(key).len() > 0,
{
    random::lemma_hex_len(key as nat, 32);
    reveal_strlit("-");
    let id = random::hyphenated(key);
    let digits = random::hex(key as nat, 32);
    random::lemma_hex_is_not_space(key as nat, 32, 0);
    random::lemma_hex_is_not_space(key as nat, 32, 31);
    assert(id[0] == digits[0]);
    assert(id[id.len() - 1] == digits[31]);
    assert(text::trim_start(id) == id);
    assert(text::trim_end(id) == id);
}

/// A file is seen by others unless the last two digits of its mode, read in eights, are both zero.
pub proof fn law_only_the_owner_may_see(mode: u32)
    ensures
        seen_by_others(mode) <==> mode % 64 != 0,
{
    assert(mode & 0o077 == mode % 64) by (bit_vector);
}

/// A refusal names the file twice, with the three digits of its mode between.
pub proof fn law_a_refusal_says_what_to_do(path: Seq<char>, mode: u32)
    ensures
        refusal(path, mode) == path + " is mode "@ + text::numeral((mode % 512) as nat, 8)
            + ", refusing to use it; run: chmod 600 "@ + path,
{
    assert(mode & 0o777 == mode % 512) by (bit_vector);
}

} // verus!
