//! What is asked of the server, and what its answers mean.

use vstd::prelude::*;

use crate::jellyfin::auth::{Credentials, CredentialsView};
use crate::jellyfin::models;
use crate::jellyfin::models::{ticks, AuthResponse, Item, ItemView, Kind};
use crate::text;
use crate::text::{
    cat, contains_text, str_eq, trim, trim_end_of, write_decimal,
};
use crate::time::Duration;

verus! {

/// What this program calls itself.
pub const CLIENT_NAME: &'static str = "trayplay";

/// Which release of it this is.
pub const CLIENT_VERSION: &'static str = "0.1.0";

/// Containers that can be decoded locally. The server transcodes anything else.
///
/// Ogg is deliberately absent. It usually carries Opus, which cannot be decoded here, and a list
/// of containers cannot tell Opus from Vorbis.
pub const DIRECT_PLAY_CONTAINERS: &'static str = "flac,mp3,m4a,aac,wav";

/// Codec the server transcodes to when direct play is not possible.
pub const TRANSCODE_CODEC: &'static str = "mp3";

pub const TRANSCODE_BITRATE: u32 = 320_000;

// ---------------------------------------------------------------------------------------
// Addresses.
// ---------------------------------------------------------------------------------------

/// A server address as it was typed, made whole: no white space around it, a scheme in front,
/// no slash at its end.
pub open spec fn normalized_base(raw: Seq<char>) -> Seq<char> {
    let trimmed = text::trimmed(raw);
    text::trim_end_char(
        if text::contains(trimmed, "://"@) {
            trimmed
        } else {
            "https://"@ + trimmed
        },
        '/',
    )
}

/// Normalizes a server URL as typed into the login form: trims whitespace, defaults a missing
/// scheme to `https://`, and trims trailing slashes.
pub fn normalize_base(raw: &str) -> (r: String)
    ensures
        r@ == normalized_base(raw@),
{
    let trimmed = trim(raw);
    let with_scheme = if contains_text(trimmed.as_str(), "://") {
        trimmed
    } else {
        cat("https://", trimmed.as_str())
    };
    trim_end_of(with_scheme.as_str(), '/')
}

/// An address that has been made whole goes into a client as it is: what a client trims off it is
/// not there any more.
pub proof fn law_a_whole_address_is_kept(raw: Seq<char>)
    ensures
        text::trim_end_char(normalized_base(raw), '/') == normalized_base(raw),
{
    let trimmed = text::trimmed(raw);
    let with_scheme = if text::contains(trimmed, "://"@) {
        trimmed
    } else {
        "https://"@ + trimmed
    };
    text::lemma_trim_end_char_once(with_scheme, '/');
}

/// Whether a byte stands for itself in the query of an address.
pub open spec fn is_unreserved(b: u8) -> bool {
    ||| 0x30 <= b <= 0x39
    ||| 0x41 <= b <= 0x5a
    ||| 0x61 <= b <= 0x7a
    ||| b == 0x2d
    ||| b == 0x2e
    ||| b == 0x5f
    ||| b == 0x7e
}

/// The hexadecimal digit of value `d`, in upper case.
pub open spec fn upper_hex(d: int) -> char {
    "0123456789ABCDEF"@[d]
}

/// How a byte is written in the query of an address.
pub open spec fn encoded_byte(b: u8) -> Seq<char> {
    if is_unreserved(b) {
        seq![b as char]
    } else {
        seq!['%', upper_hex((b / 16) as int), upper_hex((b % 16) as int)]
    }
}

/// How bytes are written in the query of an address.
pub open spec fn percent_encoded(bytes: Seq<u8>) -> Seq<char>
    decreases bytes.len(),
{
    if bytes.len() == 0 {
        Seq::empty()
    } else {
        percent_encoded(bytes.drop_last()) + encoded_byte(bytes.last())
    }
}

/// How text is written in the query of an address.
pub open spec fn url_encoded(s: Seq<char>) -> Seq<char> {
    percent_encoded(vstd::utf8::encode_utf8(s))
}

/// `urlencoding::encode`: every byte of the UTF-8 form of `data` is written as a percent sign
/// and two upper-case hexadecimal digits, but for ASCII letters, digits, `-`, `.`, `_` and `~`,
/// which stand for themselves.
#[verifier::external_body]
fn url_encode(data: &str) -> (r: String)
    ensures
        r@ == url_encoded(data@),
{
    urlencoding::encode(data).into_owned()
}

/// Encoded text holds nothing that could end a parameter or begin another one.
pub proof fn law_encoded_text_stays_within_its_parameter(bytes: Seq<u8>)
    ensures
        forall|i: int|
            0 <= i < percent_encoded(bytes).len() ==> {
                let c = #[trigger] percent_encoded(bytes)[i];
                c != '&' && c != '=' && c != '?' && c != '#' && c != '/' && c != ' '
            },
    decreases bytes.len(),
{
    if bytes.len() > 0 {
        law_encoded_text_stays_within_its_parameter(bytes.drop_last());
        reveal_strlit("0123456789ABCDEF");
        let b = bytes.last();
        let head = percent_encoded(bytes.drop_last());
        let tail = encoded_byte(b);
        assert forall|i: int| 0 <= i < percent_encoded(bytes).len() implies {
            let c = #[trigger] percent_encoded(bytes)[i];
            c != '&' && c != '=' && c != '?' && c != '#' && c != '/' && c != ' '
        } by {
            if i < head.len() {
                assert(percent_encoded(bytes)[i] == head[i]);
            } else {
                assert(percent_encoded(bytes)[i] == tail[i - head.len()]);
            }
        }
    }
}

// ---------------------------------------------------------------------------------------
// What the answers mean.
// ---------------------------------------------------------------------------------------

/// The server refused the request's credentials.
///
/// A type rather than a message so that "must sign in again" can be recognised without matching
/// text.
#[derive(Debug, Clone, Copy, PartialEq, Eq, Structural)]
pub struct Unauthorized;

impl Unauthorized {
    pub fn message(&self) -> (r: String)
        ensures
            r@ == "credentials rejected by server (401)"@,
    {
        "credentials rejected by server (401)".to_owned()
    }
}

/// Why a request came to nothing.
#[derive(Debug)]
pub struct ClientError {
    pub message: String,
    /// Whether the session has to be recreated.
    pub unauthorized: bool,
}

/// What a [`ClientError`] says.
pub struct ClientErrorView {
    pub message: Seq<char>,
    pub unauthorized: bool,
}

impl View for ClientError {
    type V = ClientErrorView;

    open spec fn view(&self) -> ClientErrorView {
        ClientErrorView { message: self.message@, unauthorized: self.unauthorized }
    }
}

/// What is said of a request that failed while doing `what`.
pub open spec fn failure(what: Seq<char>, message: Seq<char>) -> ClientErrorView {
    ClientErrorView { message: what + ": "@ + message, unauthorized: false }
}

/// What is said of a request whose credentials were refused.
pub open spec fn refused(what: Seq<char>) -> ClientErrorView {
    ClientErrorView {
        message: what + ": "@ + "credentials rejected by server (401)"@,
        unauthorized: true,
    }
}

/// What is said of a request that is not made because nobody is signed in.
pub open spec fn not_authenticated() -> ClientErrorView {
    ClientErrorView {
        message: "not authenticated, run `trayplay login` first"@,
        unauthorized: false,
    }
}

/// Why a result is an error, if it is one.
pub open spec fn err_of<T>(r: Result<T, ClientError>) -> Option<ClientErrorView> {
    match r {
        Ok(_) => None,
        Err(e) => Some(e@),
    }
}

/// A request that failed while doing `what`.
pub fn failed(what: &str, message: &str) -> (r: ClientError)
    ensures
        r@ == failure(what@, message@),
{
    ClientError { message: cat(cat(what, ": ").as_str(), message), unauthorized: false }
}

fn rejected(what: &str) -> (r: ClientError)
    ensures
        r@ == refused(what@),
{
    ClientError {
        message: cat(cat(what, ": ").as_str(), Unauthorized.message().as_str()),
        unauthorized: true,
    }
}

/// Whether a status is a client or server error.
pub open spec fn is_error(status: u16) -> bool {
    400 <= status < 600
}

/// Whether a status means success.
pub open spec fn is_success(status: u16) -> bool {
    200 <= status < 300
}

/// A query to `url` was answered with `status`; `said` is what an HTTP client says of it. Ok
/// where the body is to be read.
pub fn check_get(url: &str, status: u16, said: &str) -> (r: Result<(), ClientError>)
    ensures
        err_of(r) == (if status == 401 {
            Some(refused("token rejected by server, run `trayplay login` again"@))
        } else if is_error(status) {
            Some(failure("GET "@ + url@, said@))
        } else {
            None
        }),
{
    if status == 401 {
        Err(rejected("token rejected by server, run `trayplay login` again"))
    } else if 400 <= status && status < 600 {
        Err(failed(cat("GET ", url).as_str(), said))
    } else {
        Ok(())
    }
}

/// A report to `url` was answered with `status`; `said` is what an HTTP client says of it.
pub fn check_post(url: &str, status: u16, said: &str) -> (r: Result<(), ClientError>)
    ensures
        err_of(r) == (if is_error(status) {
            Some(failure("POST "@ + url@, said@))
        } else {
            None
        }),
{
    if 400 <= status && status < 600 {
        Err(failed(cat("POST ", url).as_str(), said))
    } else {
        Ok(())
    }
}

/// A login was answered with `status`; `said` is what an HTTP client says of it. Bad credentials
/// deserve a clearer message than a raw status.
pub fn check_login(status: u16, said: &str) -> (r: Result<(), ClientError>)
    ensures
        err_of(r) == (if status == 401 {
            Some(
                (ClientErrorView { message: "wrong username or password"@, unauthorized: false }),
            )
        } else if is_error(status) {
            Some(failure("login failed"@, said@))
        } else {
            None
        }),
{
    if status == 401 {
        Err(ClientError { message: "wrong username or password".to_owned(), unauthorized: false })
    } else if 400 <= status && status < 600 {
        Err(failed("login failed", said))
    } else {
        Ok(())
    }
}

/// A token's validity was asked for and answered with `status`; `said` is what an HTTP client
/// says of it.
pub fn check_validate(status: u16, said: &str) -> (r: Result<(), ClientError>)
    ensures
        err_of(r) == (if status == 401 {
            Some(refused("token rejected by server"@))
        } else if is_error(status) {
            Some(failure("validate check failed"@, said@))
        } else {
            None
        }),
{
    if status == 401 {
        Err(rejected("token rejected by server"))
    } else if 400 <= status && status < 600 {
        Err(failed("validate check failed", said))
    } else {
        Ok(())
    }
}

/// Bytes were asked for and answered with `status`. Refused credentials are told before the body
/// is read, any other failure after.
pub fn check_fetch(status: u16) -> (r: Result<(), ClientError>)
    ensures
        err_of(r) == (if status == 401 {
            Some(refused("token rejected by server"@))
        } else {
            None
        }),
{
    if status == 401 {
        Err(rejected("token rejected by server"))
    } else {
        Ok(())
    }
}

/// Bytes came with `status`, as text `shown`.
pub fn fetched(status: u16, shown: &str, body: Vec<u8>) -> (r: Result<Vec<u8>, ClientError>)
    ensures
        is_success(status) ==> r == Ok::<Vec<u8>, ClientError>(body),
        !is_success(status) ==> err_of(r) == Some(
            (ClientErrorView {
                message: "fetch failed with HTTP "@ + shown@,
                unauthorized: false,
            }),
        ),
{
    if 200 <= status && status < 300 {
        Ok(body)
    } else {
        Err(
            ClientError {
                message: cat("fetch failed with HTTP ", shown),
                unauthorized: false,
            },
        )
    }
}

/// What is asked of a server to learn whether it is one.
pub fn probe_url(base: &str) -> (r: String)
    ensures
        r@ == normalized_base(base@) + "/System/Info/Public"@,
{
    cat(normalize_base(base).as_str(), "/System/Info/Public")
}

/// What became of a probe.
#[derive(Debug)]
pub enum Probed<T> {
    /// Nothing answered at all.
    Unreachable(String),
    /// Something answered with a status, as a number and as text.
    Status(u16, String),
    /// It answered, but not as a server would.
    Unparsable,
    /// It answered what a server would.
    Info(T),
}

/// What a probe of `url` means. Errors are told apart by stage so a mistyped address gets a
/// useful message: unreachable is different from "this host speaks something else".
pub fn probe<T>(url: &str, probed: Probed<T>) -> (r: Result<T, String>)
    ensures
        match probed {
            Probed::Info(info) => r == Ok::<T, String>(info),
            Probed::Unreachable(err) => r is Err && r->Err_0@ == "cannot reach "@ + url@ + ": "@
                + err@,
            Probed::Status(status, shown) => r is Err && r->Err_0@
                == "that does not look like a Jellyfin server (HTTP "@ + shown@ + ")"@,
            Probed::Unparsable => r is Err && r->Err_0@
                == "that does not look like a Jellyfin server"@,
        },
{
    match probed {
        Probed::Info(info) => Ok(info),
        Probed::Unreachable(err) => Err(
            cat(cat(cat("cannot reach ", url).as_str(), ": ").as_str(), err.as_str()),
        ),
        Probed::Status(_, shown) => Err(
            cat(
                cat("that does not look like a Jellyfin server (HTTP ", shown.as_str()).as_str(),
                ")",
            ),
        ),
        Probed::Unparsable => Err("that does not look like a Jellyfin server".to_owned()),
    }
}

/// Whether a probe's status is worth reading the body of.
pub fn probe_accepts(status: u16) -> (r: bool)
    ensures
        r == is_success(status),
{
    200 <= status && status < 300
}

/// The name of this machine, `read` being what the system says: without white space around it,
/// and "unknown" where there is none.
pub fn hostname(read: Option<String>) -> (r: String)
    ensures
        r@ == (match read {
            Some(name) => if text::trimmed(name@).len() > 0 {
                text::trimmed(name@)
            } else {
                "unknown"@
            },
            None => "unknown"@,
        }),
{
    if let Some(name) = read {
        let trimmed = trim(name.as_str());
        let empty = trimmed.as_str().is_empty();
        if !empty {
            return trimmed;
        }
    }
    "unknown".to_owned()
}

/// What this program calls itself in a request.
pub fn user_agent() -> (r: String)
    ensures
        r@ == CLIENT_NAME@ + "/"@ + CLIENT_VERSION@,
{
    cat(cat(CLIENT_NAME, "/").as_str(), CLIENT_VERSION)
}

// ---------------------------------------------------------------------------------------
// Requests.
// ---------------------------------------------------------------------------------------

/// A query: the path on the server, and the parameters in order.
#[derive(Debug)]
pub struct Query {
    pub path: String,
    pub params: Vec<(String, String)>,
}

/// What a [`Query`] says.
#[verifier::ext_equal]
pub struct QueryView {
    pub path: Seq<char>,
    pub params: Seq<(Seq<char>, Seq<char>)>,
}

impl View for Query {
    type V = QueryView;

    open spec fn view(&self) -> QueryView {
        QueryView { path: self.path@, params: pairs(self.params@) }
    }
}

/// What each parameter of a list says.
pub open spec fn pairs(v: Seq<(String, String)>) -> Seq<(Seq<char>, Seq<char>)> {
    v.map_values(|p: (String, String)| (p.0@, p.1@))
}

/// A value in the body of a report.
#[derive(Debug)]
pub enum Value {
    Text(String),
    Number(i64),
    Flag(bool),
}

/// What a [`Value`] says.
pub enum ValueView {
    Text(Seq<char>),
    Number(i64),
    Flag(bool),
}

impl View for Value {
    type V = ValueView;

    open spec fn view(&self) -> ValueView {
        match *self {
            Value::Text(text) => ValueView::Text(text@),
            Value::Number(n) => ValueView::Number(n),
            Value::Flag(b) => ValueView::Flag(b),
        }
    }
}

/// A report: the path on the server, and the fields of the body in order.
#[derive(Debug)]
pub struct Post {
    pub path: String,
    pub fields: Vec<(String, Value)>,
}

/// What a [`Post`] says.
#[verifier::ext_equal]
pub struct PostView {
    pub path: Seq<char>,
    pub fields: Seq<(Seq<char>, ValueView)>,
}

impl View for Post {
    type V = PostView;

    open spec fn view(&self) -> PostView {
        PostView { path: self.path@, fields: fields_of(self.fields@) }
    }
}

/// What each field of a list says.
pub open spec fn fields_of(v: Seq<(String, Value)>) -> Seq<(Seq<char>, ValueView)> {
    v.map_values(|p: (String, Value)| (p.0@, p.1@))
}

/// What a request says, if it can be made.
pub open spec fn query_of(r: Result<Query, ClientError>) -> Option<QueryView> {
    match r {
        Ok(q) => Some(q@),
        Err(_) => None,
    }
}

fn with(mut params: Vec<(String, String)>, name: &str, value: &str) -> (r: Vec<(String, String)>)
    ensures
        pairs(r@) == pairs(params@).push((name@, value@)),
{
    let ghost before = pairs(params@);
    params.push((name.to_owned(), value.to_owned()));
    assert(pairs(params@) =~= before.push((name@, value@)));
    params
}

fn field(mut fields: Vec<(String, Value)>, name: &str, value: Value) -> (r: Vec<(String, Value)>)
    ensures
        fields_of(r@) == fields_of(fields@).push((name@, value@)),
{
    let ghost before = fields_of(fields@);
    fields.push((name.to_owned(), value));
    assert(fields_of(fields@) =~= before.push((name@, value@)));
    fields
}

/// A session with a server.
#[derive(Debug)]
pub struct Client {
    base: String,
    device_id: String,
    /// None until authenticated; login itself is unauthenticated.
    creds: Option<Credentials>,
}

/// What a [`Client`] knows.
pub struct ClientView {
    pub base: Seq<char>,
    pub device_id: Seq<char>,
    pub creds: Option<CredentialsView>,
}

impl View for Client {
    type V = ClientView;

    closed spec fn view(&self) -> ClientView {
        ClientView {
            base: self.base@,
            device_id: self.device_id@,
            creds: match self.creds {
                Some(creds) => Some(creds@),
                None => None,
            },
        }
    }
}

impl ClientView {
    /// Who is signed in.
    pub open spec fn user(self) -> Seq<char> {
        self.creds.unwrap().user_id
    }

    /// What is said in front of every request.
    pub open spec fn header(self, device: Seq<char>) -> Seq<char> {
        let known = "MediaBrowser Client=\""@ + CLIENT_NAME@ + "\", Device=\""@ + device
            + "\", DeviceId=\""@ + self.device_id + "\", Version=\""@ + CLIENT_VERSION@ + "\""@;
        match self.creds {
            Some(creds) => known + ", Token=\""@ + creds.token + "\""@,
            None => known,
        }
    }
}

/// Whether a query is made for whoever is signed in, and refused where nobody is.
pub open spec fn asks(
    client: ClientView,
    r: Result<Query, ClientError>,
    path: Seq<char>,
    params: Seq<(Seq<char>, Seq<char>)>,
) -> bool {
    match r {
        Ok(q) => client.creds is Some && q@ =~= (QueryView { path, params }),
        Err(e) => client.creds is None && e@ == not_authenticated(),
    }
}

impl Client {
    /// A client of the server at `base`, with nobody signed in.
    pub fn new(base: &str, device_id: String) -> (r: Self)
        ensures
            r@ == (ClientView {
                base: text::trim_end_char(base@, '/'),
                device_id: device_id@,
                creds: None,
            }),
    {
        Client { base: trim_end_of(base, '/'), device_id, creds: None }
    }

    /// A client of the server that `creds` are for.
    pub fn authenticated(creds: Credentials, device_id: String) -> (r: Self)
        ensures
            r@ == (ClientView {
                base: text::trim_end_char(creds@.server, '/'),
                device_id: device_id@,
                creds: Some(creds@),
            }),
    {
        Client { base: trim_end_of(creds.server.as_str(), '/'), device_id, creds: Some(creds) }
    }

    fn creds(&self) -> (r: Result<&Credentials, ClientError>)
        ensures
            match r {
                Ok(creds) => self@.creds == Some(creds@),
                Err(e) => self@.creds is None && e@ == not_authenticated(),
            },
    {
        match &self.creds {
            Some(creds) => Ok(creds),
            None => Err(
                ClientError {
                    message: "not authenticated, run `trayplay login` first".to_owned(),
                    unauthorized: false,
                },
            ),
        }
    }

    /// A copy of the credentials, if authenticated.
    pub fn creds_clone(&self) -> (r: Option<Credentials>)
        ensures
            self@.creds == (match r {
                Some(creds) => Some(creds@),
                None => None,
            }),
    {
        match &self.creds {
            Some(creds) => Some(creds.clone()),
            None => None,
        }
    }

    /// Who is signed in.
    pub fn user_id(&self) -> (r: Result<&str, ClientError>)
        ensures
            match r {
                Ok(id) => self@.creds is Some && id@ == self@.user(),
                Err(e) => self@.creds is None && e@ == not_authenticated(),
            },
    {
        match self.creds() {
            Ok(creds) => Ok(creds.user_id.as_str()),
            Err(e) => Err(e),
        }
    }

    /// Where the server is.
    pub fn base(&self) -> (r: &str)
        ensures
            r@ == self@.base,
    {
        self.base.as_str()
    }

    /// The address of a path on the server.
    pub fn url(&self, path: &str) -> (r: String)
        ensures
            r@ == self@.base + path@,
    {
        cat(self.base.as_str(), path)
    }

    /// The server's own authentication scheme. The token is omitted while logging in.
    ///
    /// The device is deliberately the host name so sessions are identifiable in the server's
    /// dashboard.
    pub fn auth_header(&self, device: &str) -> (r: String)
        ensures
            r@ == self@.header(device@),
    {
        let mut header = cat(cat("MediaBrowser Client=\"", CLIENT_NAME).as_str(), "\", Device=\"");
        header = cat(cat(header.as_str(), device).as_str(), "\", DeviceId=\"");
        header = cat(cat(header.as_str(), self.device_id.as_str()).as_str(), "\", Version=\"");
        header = cat(cat(header.as_str(), CLIENT_VERSION).as_str(), "\"");
        match &self.creds {
            Some(creds) => {
                let token = cat(header.as_str(), ", Token=\"");
                cat(cat(token.as_str(), creds.token.as_str()).as_str(), "\"")
            },
            None => header,
        }
    }

    /// What a login asks.
    pub fn login_request(&self, username: &str, password: &str) -> (r: Post)
        ensures
            r@ == (PostView {
                path: "/Users/AuthenticateByName"@,
                fields: seq![
                    ("Username"@, ValueView::Text(username@)),
                    ("Pw"@, ValueView::Text(password@)),
                ],
            }),
    {
        let mut fields: Vec<(String, Value)> = Vec::new();
        assert(fields_of(fields@) =~= Seq::empty());
        fields = field(fields, "Username", Value::Text(username.to_owned()));
        fields = field(fields, "Pw", Value::Text(password.to_owned()));
        let r = Post { path: "/Users/AuthenticateByName".to_owned(), fields };
        assert(r@.fields =~= seq![
            ("Username"@, ValueView::Text(username@)),
            ("Pw"@, ValueView::Text(password@)),
        ]);
        r
    }

    /// A login succeeded: whoever it was for is signed in from here on.
    pub fn login(&mut self, auth: AuthResponse) -> (r: Credentials)
        ensures
            r@ == (CredentialsView {
                server: old(self)@.base,
                user_id: auth.user.id@,
                username: auth.user.name@,
                token: auth.access_token@,
            }),
            final(self)@ == (ClientView { creds: Some(r@), ..old(self)@ }),
    {
        let creds = Credentials {
            server: self.base.clone(),
            user_id: auth.user.id,
            username: auth.user.name,
            token: auth.access_token,
        };
        self.creds = Some(creds.clone());
        creds
    }

    /// Where to learn whether the current token is still valid: an address that needs it, as
    /// playback does.
    pub fn validate_url(&self) -> (r: Result<String, ClientError>)
        ensures
            match r {
                Ok(url) => self@.creds is Some && url@ == self@.base + "/Users/"@ + self@.user()
                    + "/Items?limit=1&fields=ProviderIds"@,
                Err(e) => self@.creds is None && e@ == not_authenticated(),
            },
    {
        match self.user_id() {
            Ok(user) => {
                let head = cat(cat(self.base.as_str(), "/Users/").as_str(), user);
                Ok(cat(head.as_str(), "/Items?limit=1&fields=ProviderIds"))
            },
            Err(e) => Err(e),
        }
    }

    fn start(&self) -> (r: Result<Vec<(String, String)>, ClientError>)
        ensures
            match r {
                Ok(params) => self@.creds is Some && pairs(params@) == seq![
                    ("userId"@, self@.user()),
                ],
                Err(e) => self@.creds is None && e@ == not_authenticated(),
            },
    {
        match self.user_id() {
            Ok(user) => {
                let none: Vec<(String, String)> = Vec::new();
                assert(pairs(none@) =~= Seq::empty());
                let params = with(none, "userId", user);
                assert(pairs(params@) =~= seq![("userId"@, self@.user())]);
                Ok(params)
            },
            Err(e) => Err(e),
        }
    }

    /// Random tracks. The server reshuffles per request, so refills stay varied. Who performs each
    /// one is asked for: in a random queue every track has a different credit.
    pub fn random_tracks(&self, limit: u32) -> (r: Result<Query, ClientError>)
        ensures
            asks(
                self@,
                r,
                "/Items"@,
                seq![
                    ("userId"@, self@.user()),
                    ("includeItemTypes"@, "Audio"@),
                    ("recursive"@, "true"@),
                    ("sortBy"@, "Random"@),
                    ("limit"@, text::decimal(limit as nat)),
                    ("fields"@, "Container,ArtistItems"@),
                    ("enableTotalRecordCount"@, "false"@),
                ],
            ),
    {
        let mut params = match self.start() {
            Ok(params) => params,
            Err(e) => return Err(e),
        };
        params = with(params, "includeItemTypes", "Audio");
        params = with(params, "recursive", "true");
        params = with(params, "sortBy", "Random");
        params = with(params, "limit", write_decimal(limit as u64).as_str());
        params = with(params, "fields", "Container,ArtistItems");
        params = with(params, "enableTotalRecordCount", "false");
        Ok(Query { path: "/Items".to_owned(), params })
    }

    /// Artist half of a search. There is one path that lists artists at all, and it is this one.
    pub fn search_artists(&self, term: &str, limit: u32) -> (r: Result<Query, ClientError>)
        ensures
            asks(
                self@,
                r,
                "/Artists"@,
                seq![
                    ("userId"@, self@.user()),
                    ("searchTerm"@, term@),
                    ("limit"@, text::decimal(limit as nat)),
                    ("sortBy"@, "SortName"@),
                    ("enableTotalRecordCount"@, "false"@),
                ],
            ),
    {
        let mut params = match self.start() {
            Ok(params) => params,
            Err(e) => return Err(e),
        };
        params = with(params, "searchTerm", term);
        params = with(params, "limit", write_decimal(limit as u64).as_str());
        params = with(params, "sortBy", "SortName");
        params = with(params, "enableTotalRecordCount", "false");
        Ok(Query { path: "/Artists".to_owned(), params })
    }

    /// Album and track half of a search.
    pub fn search_items(&self, term: &str, limit: u32) -> (r: Result<Query, ClientError>)
        ensures
            asks(
                self@,
                r,
                "/Items"@,
                seq![
                    ("userId"@, self@.user()),
                    ("searchTerm"@, term@),
                    ("includeItemTypes"@, "MusicAlbum,Audio"@),
                    ("recursive"@, "true"@),
                    ("limit"@, text::decimal(limit as nat)),
                    ("fields"@, "Container,ArtistItems"@),
                    ("enableTotalRecordCount"@, "false"@),
                ],
            ),
    {
        let mut params = match self.start() {
            Ok(params) => params,
            Err(e) => return Err(e),
        };
        params = with(params, "searchTerm", term);
        params = with(params, "includeItemTypes", "MusicAlbum,Audio");
        params = with(params, "recursive", "true");
        params = with(params, "limit", write_decimal(limit as u64).as_str());
        params = with(params, "fields", "Container,ArtistItems");
        params = with(params, "enableTotalRecordCount", "false");
        Ok(Query { path: "/Items".to_owned(), params })
    }

    /// Every artist, by name.
    pub fn artists(&self) -> (r: Result<Query, ClientError>)
        ensures
            asks(
                self@,
                r,
                "/Artists"@,
                seq![
                    ("userId"@, self@.user()),
                    ("sortBy"@, "SortName"@),
                ],
            ),
    {
        let mut params = match self.start() {
            Ok(params) => params,
            Err(e) => return Err(e),
        };
        params = with(params, "sortBy", "SortName");
        Ok(Query { path: "/Artists".to_owned(), params })
    }

    /// The albums of an artist, in release order.
    pub fn artist_albums(&self, artist_id: &str) -> (r: Result<Query, ClientError>)
        ensures
            asks(
                self@,
                r,
                "/Items"@,
                seq![
                    ("userId"@, self@.user()),
                    ("artistIds"@, artist_id@),
                    ("includeItemTypes"@, "MusicAlbum"@),
                    ("recursive"@, "true"@),
                    ("sortBy"@, "PremiereDate,SortName"@),
                ],
            ),
    {
        let mut params = match self.start() {
            Ok(params) => params,
            Err(e) => return Err(e),
        };
        params = with(params, "artistIds", artist_id);
        params = with(params, "includeItemTypes", "MusicAlbum");
        params = with(params, "recursive", "true");
        params = with(params, "sortBy", "PremiereDate,SortName");
        Ok(Query { path: "/Items".to_owned(), params })
    }

    /// Every track credited to an artist, in name order.
    ///
    /// Used to find tracks that belong to no album, which are invisible in an album list.
    pub fn artist_tracks(&self, artist_id: &str) -> (r: Result<Query, ClientError>)
        ensures
            asks(
                self@,
                r,
                "/Items"@,
                seq![
                    ("userId"@, self@.user()),
                    ("artistIds"@, artist_id@),
                    ("includeItemTypes"@, "Audio"@),
                    ("recursive"@, "true"@),
                    ("sortBy"@, "SortName"@),
                    ("fields"@, "Container,ArtistItems"@),
                    ("enableTotalRecordCount"@, "false"@),
                ],
            ),
    {
        let mut params = match self.start() {
            Ok(params) => params,
            Err(e) => return Err(e),
        };
        params = with(params, "artistIds", artist_id);
        params = with(params, "includeItemTypes", "Audio");
        params = with(params, "recursive", "true");
        params = with(params, "sortBy", "SortName");
        params = with(params, "fields", "Container,ArtistItems");
        params = with(params, "enableTotalRecordCount", "false");
        Ok(Query { path: "/Items".to_owned(), params })
    }

    /// Album tracks in disc and track order.
    pub fn album_tracks(&self, album_id: &str) -> (r: Result<Query, ClientError>)
        ensures
            asks(
                self@,
                r,
                "/Items"@,
                seq![
                    ("userId"@, self@.user()),
                    ("parentId"@, album_id@),
                    ("sortBy"@, "ParentIndexNumber,IndexNumber,SortName"@),
                    ("fields"@, "Container,ArtistItems"@),
                ],
            ),
    {
        let mut params = match self.start() {
            Ok(params) => params,
            Err(e) => return Err(e),
        };
        params = with(params, "parentId", album_id);
        params = with(params, "sortBy", "ParentIndexNumber,IndexNumber,SortName");
        params = with(params, "fields", "Container,ArtistItems");
        Ok(Query { path: "/Items".to_owned(), params })
    }

    /// Albums, newest first.
    ///
    /// Albums rather than tracks: a rip lands as one album's worth of files at once.
    pub fn recent_albums(&self, limit: u32) -> (r: Result<Query, ClientError>)
        ensures
            asks(
                self@,
                r,
                "/Items"@,
                seq![
                    ("userId"@, self@.user()),
                    ("includeItemTypes"@, "MusicAlbum"@),
                    ("recursive"@, "true"@),
                    ("sortBy"@, "DateCreated"@),
                    ("sortOrder"@, "Descending"@),
                    ("limit"@, text::decimal(limit as nat)),
                    ("enableTotalRecordCount"@, "false"@),
                ],
            ),
    {
        let mut params = match self.start() {
            Ok(params) => params,
            Err(e) => return Err(e),
        };
        params = with(params, "includeItemTypes", "MusicAlbum");
        params = with(params, "recursive", "true");
        params = with(params, "sortBy", "DateCreated");
        params = with(params, "sortOrder", "Descending");
        params = with(params, "limit", write_decimal(limit as u64).as_str());
        params = with(params, "enableTotalRecordCount", "false");
        Ok(Query { path: "/Items".to_owned(), params })
    }

    /// Tracks that have been played. The filter is what keeps these honest on a library larger than
    /// `limit`: a play count of zero still sorts.
    fn played_tracks(&self, sort_by: &str, limit: u32) -> (r: Result<Query, ClientError>)
        ensures
            asks(
                self@,
                r,
                "/Items"@,
                seq![
                    ("userId"@, self@.user()),
                    ("includeItemTypes"@, "Audio"@),
                    ("recursive"@, "true"@),
                    ("sortBy"@, sort_by@),
                    ("sortOrder"@, "Descending"@),
                    ("filters"@, "IsPlayed"@),
                    ("limit"@, text::decimal(limit as nat)),
                    ("fields"@, "Container,ArtistItems"@),
                    ("enableTotalRecordCount"@, "false"@),
                ],
            ),
    {
        let mut params = match self.start() {
            Ok(params) => params,
            Err(e) => return Err(e),
        };
        params = with(params, "includeItemTypes", "Audio");
        params = with(params, "recursive", "true");
        params = with(params, "sortBy", sort_by);
        params = with(params, "sortOrder", "Descending");
        params = with(params, "filters", "IsPlayed");
        params = with(params, "limit", write_decimal(limit as u64).as_str());
        params = with(params, "fields", "Container,ArtistItems");
        params = with(params, "enableTotalRecordCount", "false");
        Ok(Query { path: "/Items".to_owned(), params })
    }

    /// The tracks that were played most often.
    pub fn most_played_tracks(&self, limit: u32) -> (r: Result<Query, ClientError>)
        ensures
            asks(
                self@,
                r,
                "/Items"@,
                seq![
                    ("userId"@, self@.user()),
                    ("includeItemTypes"@, "Audio"@),
                    ("recursive"@, "true"@),
                    ("sortBy"@, "PlayCount"@),
                    ("sortOrder"@, "Descending"@),
                    ("filters"@, "IsPlayed"@),
                    ("limit"@, text::decimal(limit as nat)),
                    ("fields"@, "Container,ArtistItems"@),
                    ("enableTotalRecordCount"@, "false"@),
                ],
            ),
    {
        self.played_tracks("PlayCount", limit)
    }

    /// The tracks that were played last.
    pub fn recently_played_tracks(&self, limit: u32) -> (r: Result<Query, ClientError>)
        ensures
            asks(
                self@,
                r,
                "/Items"@,
                seq![
                    ("userId"@, self@.user()),
                    ("includeItemTypes"@, "Audio"@),
                    ("recursive"@, "true"@),
                    ("sortBy"@, "DatePlayed"@),
                    ("sortOrder"@, "Descending"@),
                    ("filters"@, "IsPlayed"@),
                    ("limit"@, text::decimal(limit as nat)),
                    ("fields"@, "Container,ArtistItems"@),
                    ("enableTotalRecordCount"@, "false"@),
                ],
            ),
    {
        self.played_tracks("DatePlayed", limit)
    }

    /// A queue of tracks similar to `item_id`, built by the server. The seed track is normally the
    /// first result, so the queue is played from its start.
    pub fn instant_mix(&self, item_id: &str, limit: u32) -> (r: Result<Query, ClientError>)
        ensures
            asks(
                self@,
                r,
                "/Items/"@ + item_id@ + "/InstantMix"@,
                seq![
                    ("userId"@, self@.user()),
                    ("limit"@, text::decimal(limit as nat)),
                    ("fields"@, "Container,ArtistItems"@),
                    ("enableTotalRecordCount"@, "false"@),
                ],
            ),
    {
        let mut params = match self.start() {
            Ok(params) => params,
            Err(e) => return Err(e),
        };
        params = with(params, "limit", write_decimal(limit as u64).as_str());
        params = with(params, "fields", "Container,ArtistItems");
        params = with(params, "enableTotalRecordCount", "false");
        Ok(Query { path: cat(cat("/Items/", item_id).as_str(), "/InstantMix"), params })
    }

    /// One item by id.
    pub fn item(&self, item_id: &str) -> (r: Result<Query, ClientError>)
        ensures
            asks(
                self@,
                r,
                "/Users/"@ + self@.user() + "/Items/"@ + item_id@,
                Seq::empty(),
            ),
    {
        match self.user_id() {
            Ok(user) => {
                let path = cat(
                    cat(cat("/Users/", user).as_str(), "/Items/").as_str(),
                    item_id,
                );
                let params: Vec<(String, String)> = Vec::new();
                assert(pairs(params@) =~= Seq::empty());
                Ok(Query { path, params })
            },
            Err(e) => Err(e),
        }
    }

    /// Tells the server a track has started.
    ///
    /// How it is played is deliberately left out rather than guessed: whether the server
    /// direct-played or transcoded is its decision.
    pub fn report_playback_start(&self, item_id: &str, position: Duration) -> (r: Post)
        ensures
            r@ =~= (PostView {
                path: "/Sessions/Playing"@,
                fields: seq![
                    ("ItemId"@, ValueView::Text(item_id@)),
                    (
                        "PositionTicks"@,
                        ValueView::Number(models::ticks_of(position.nanos as nat) as i64),
                    ),
                    ("IsPaused"@, ValueView::Flag(false)),
                    ("CanSeek"@, ValueView::Flag(true)),
                ],
            }),
    {
        let mut fields: Vec<(String, Value)> = Vec::new();
        assert(fields_of(fields@) =~= Seq::empty());
        fields = field(fields, "ItemId", Value::Text(item_id.to_owned()));
        fields = field(fields, "PositionTicks", Value::Number(ticks(position)));
        fields = field(fields, "IsPaused", Value::Flag(false));
        fields = field(fields, "CanSeek", Value::Flag(true));
        Post { path: "/Sessions/Playing".to_owned(), fields }
    }

    /// Where playback has reached, and whether it is paused.
    pub fn report_playback_progress(&self, item_id: &str, position: Duration, paused: bool) -> (r:
        Post)
        ensures
            r@ =~= (PostView {
                path: "/Sessions/Playing/Progress"@,
                fields: seq![
                    ("ItemId"@, ValueView::Text(item_id@)),
                    (
                        "PositionTicks"@,
                        ValueView::Number(models::ticks_of(position.nanos as nat) as i64),
                    ),
                    ("IsPaused"@, ValueView::Flag(paused)),
                    ("CanSeek"@, ValueView::Flag(true)),
                ],
            }),
    {
        let mut fields: Vec<(String, Value)> = Vec::new();
        assert(fields_of(fields@) =~= Seq::empty());
        fields = field(fields, "ItemId", Value::Text(item_id.to_owned()));
        fields = field(fields, "PositionTicks", Value::Number(ticks(position)));
        fields = field(fields, "IsPaused", Value::Flag(paused));
        fields = field(fields, "CanSeek", Value::Flag(true));
        Post { path: "/Sessions/Playing/Progress".to_owned(), fields }
    }

    /// Ends playback of a track. This is the report that decides whether the server counts the
    /// track as played, so the position it carries has to be the real one.
    pub fn report_playback_stopped(&self, item_id: &str, position: Duration) -> (r: Post)
        ensures
            r@ =~= (PostView {
                path: "/Sessions/Playing/Stopped"@,
                fields: seq![
                    ("ItemId"@, ValueView::Text(item_id@)),
                    (
                        "PositionTicks"@,
                        ValueView::Number(models::ticks_of(position.nanos as nat) as i64),
                    ),
                ],
            }),
    {
        let mut fields: Vec<(String, Value)> = Vec::new();
        assert(fields_of(fields@) =~= Seq::empty());
        fields = field(fields, "ItemId", Value::Text(item_id.to_owned()));
        fields = field(fields, "PositionTicks", Value::Number(ticks(position)));
        Post { path: "/Sessions/Playing/Stopped".to_owned(), fields }
    }

    /// Playback address, and the token to send along with the request for it.
    ///
    /// The server direct-plays what is listed and transcodes the rest.
    pub fn stream_url(&self, item_id: &str) -> (r: Result<(String, String), ClientError>)
        ensures
            match r {
                Ok((url, token)) => {
                    &&& self@.creds is Some
                    &&& url@ == stream_address(
                        self@.base,
                        item_id@,
                        self@.user(),
                        self@.device_id,
                    )
                    &&& token@ == self@.creds.unwrap().token
                },
                Err(e) => self@.creds is None && e@ == not_authenticated(),
            },
    {
        let creds = match self.creds() {
            Ok(creds) => creds,
            Err(e) => return Err(e),
        };
        let mut url = cat(cat(self.base.as_str(), "/Audio/").as_str(), item_id);
        url = cat(url.as_str(), "/universal?userId=");
        url = cat(url.as_str(), url_encode(creds.user_id.as_str()).as_str());
        url = cat(url.as_str(), "&deviceId=");
        url = cat(url.as_str(), url_encode(self.device_id.as_str()).as_str());
        url = cat(cat(url.as_str(), "&container=").as_str(), DIRECT_PLAY_CONTAINERS);
        url = cat(cat(url.as_str(), "&audioCodec=").as_str(), TRANSCODE_CODEC);
        url = cat(cat(url.as_str(), "&transcodingContainer=").as_str(), TRANSCODE_CODEC);
        url = cat(url.as_str(), "&transcodingProtocol=http&maxStreamingBitrate=");
        url = cat(url.as_str(), write_decimal(TRANSCODE_BITRATE as u64).as_str());
        url = cat(url.as_str(), "&enableRedirection=true");
        Ok((url, creds.token.clone()))
    }

    /// Address of a cover.
    pub fn image_url(&self, item_id: &str, tag: &str, max_height: u32) -> (r: String)
        ensures
            r@ == self@.base + "/Items/"@ + item_id@ + "/Images/Primary?tag="@ + url_encoded(tag@)
                + "&maxHeight="@ + text::decimal(max_height as nat),
    {
        let mut url = cat(cat(self.base.as_str(), "/Items/").as_str(), item_id);
        url = cat(url.as_str(), "/Images/Primary?tag=");
        url = cat(url.as_str(), url_encode(tag).as_str());
        url = cat(url.as_str(), "&maxHeight=");
        cat(url.as_str(), write_decimal(max_height as u64).as_str())
    }
}

/// Where a track is streamed from.
pub open spec fn stream_address(
    base: Seq<char>,
    item_id: Seq<char>,
    user: Seq<char>,
    device: Seq<char>,
) -> Seq<char> {
    base + "/Audio/"@ + item_id + "/universal?userId="@ + url_encoded(user) + "&deviceId="@
        + url_encoded(device) + "&container="@ + DIRECT_PLAY_CONTAINERS@ + "&audioCodec="@
        + TRANSCODE_CODEC@ + "&transcodingContainer="@ + TRANSCODE_CODEC@
        + "&transcodingProtocol=http&maxStreamingBitrate="@ + text::decimal(
        TRANSCODE_BITRATE as nat,
    ) + "&enableRedirection=true"@
}

// ---------------------------------------------------------------------------------------
// Searching.
// ---------------------------------------------------------------------------------------

/// Whether any item of a list has this id.
pub open spec fn has_id(items: Seq<ItemView>, id: Seq<char>) -> bool {
    exists|i: int| 0 <= i < items.len() && (#[trigger] items[i]).id == id
}

/// Each id of a list once, where it first occurs.
pub open spec fn first_of_each(items: Seq<ItemView>) -> Seq<ItemView>
    decreases items.len(),
{
    if items.len() == 0 {
        items
    } else {
        let before = first_of_each(items.drop_last());
        if has_id(items.drop_last(), items.last().id) {
            before
        } else {
            before.push(items.last())
        }
    }
}

/// Artists, then albums, then everything else, each id once.
pub open spec fn merged(artists: Seq<ItemView>, items: Seq<ItemView>) -> Seq<ItemView> {
    first_of_each(
        artists + items.filter(|item: ItemView| item.kind() == Kind::Album) + items.filter(
            |item: ItemView| item.kind() != Kind::Album,
        ),
    )
}

/// The first `limit` items, or all of them.
pub open spec fn at_most(items: Seq<ItemView>, limit: u32) -> Seq<ItemView> {
    if items.len() <= limit {
        items
    } else {
        items.take(limit as int)
    }
}

fn holds_id(items: &Vec<Item>, id: &str) -> (r: bool)
    ensures
        r == has_id(models::item_views(items@), id@),
{
    let ghost all = models::item_views(items@);
    let mut i: usize = 0;
    while i < items.len()
        invariant
            i <= items@.len(),
            all == models::item_views(items@),
            forall|j: int| 0 <= j < i ==> (#[trigger] all[j]).id != id@,
        decreases items.len() - i,
    {
        assert(all[i as int] == items@[i as int]@);
        if str_eq(items[i].id.as_str(), id) {
            return true;
        }
        i += 1;
    }
    false
}

/// Every id of a list is an id of its first occurrences, and the other way round.
proof fn lemma_first_of_each_ids(items: Seq<ItemView>, id: Seq<char>)
    ensures
        has_id(first_of_each(items), id) == has_id(items, id),
    decreases items.len(),
{
    if items.len() > 0 {
        let front = items.drop_last();
        let before = first_of_each(front);
        lemma_first_of_each_ids(front, id);
        let after = first_of_each(items);
        if has_id(items, id) {
            let i = choose|i: int| 0 <= i < items.len() && (#[trigger] items[i]).id == id;
            if i < front.len() {
                assert(front[i].id == id);
                let j = choose|j: int| 0 <= j < before.len() && (#[trigger] before[j]).id == id;
                assert(after[j].id == id);
            } else if has_id(front, items.last().id) {
                let j = choose|j: int| 0 <= j < before.len() && (#[trigger] before[j]).id == id;
                assert(after[j].id == id);
            } else {
                assert(after.last().id == id);
            }
        }
        if has_id(after, id) {
            let j = choose|j: int| 0 <= j < after.len() && (#[trigger] after[j]).id == id;
            if j < before.len() {
                assert(before[j].id == id);
                let i = choose|i: int| 0 <= i < front.len() && (#[trigger] front[i]).id == id;
                assert(items[i].id == id);
            } else {
                assert(items.last().id == id);
                assert(items[items.len() - 1].id == id);
            }
        }
    }
}

/// Orders a search's two result sets into one list: artists, then albums, then tracks.
///
/// A typed name is most likely to be the name of the narrowest thing it matches. Ids are
/// deduplicated because the two queries may overlap; the first occurrence wins, which keeps this
/// order.
pub fn merge_search(artists: Vec<Item>, items: Vec<Item>) -> (r: Vec<Item>)
    ensures
        models::item_views(r@) == merged(
            models::item_views(artists@),
            models::item_views(items@),
        ),
{
    let ghost given = models::item_views(items@);
    let ghost is_album = |item: ItemView| item.kind() == Kind::Album;
    let ghost is_other = |item: ItemView| item.kind() != Kind::Album;
    let mut albums: Vec<Item> = Vec::new();
    let mut tracks: Vec<Item> = Vec::new();
    let mut i: usize = 0;
    proof {
        reveal(Seq::filter);
        assert(models::item_views(albums@) =~= given.take(0).filter(is_album));
        assert(models::item_views(tracks@) =~= given.take(0).filter(is_other));
    }
    while i < items.len()
        invariant
            i <= items@.len(),
            given == models::item_views(items@),
            is_album == (|item: ItemView| item.kind() == Kind::Album),
            is_other == (|item: ItemView| item.kind() != Kind::Album),
            models::item_views(albums@) == given.take(i as int).filter(is_album),
            models::item_views(tracks@) == given.take(i as int).filter(is_other),
        decreases items.len() - i,
    {
        let ghost albums_before = models::item_views(albums@);
        let ghost tracks_before = models::item_views(tracks@);
        if items[i].kind() == Kind::Album {
            albums.push(items[i].clone());
            assert(models::item_views(albums@) =~= albums_before.push(given[i as int]));
        } else {
            tracks.push(items[i].clone());
            assert(models::item_views(tracks@) =~= tracks_before.push(given[i as int]));
        }
        i += 1;
        proof {
            reveal(Seq::filter);
            assert(given.take(i as int).drop_last() =~= given.take(i - 1));
        }
    }
    assert(given.take(i as int) =~= given);

    let ghost wanted = models::item_views(artists@) + given.filter(is_album) + given.filter(
        is_other,
    );
    let mut all = artists;
    all.append(&mut albums);
    all.append(&mut tracks);
    assert(models::item_views(all@) =~= wanted);

    let mut out: Vec<Item> = Vec::new();
    let mut k: usize = 0;
    assert(models::item_views(out@) =~= first_of_each(wanted.take(0)));
    while k < all.len()
        invariant
            k <= all@.len(),
            wanted == models::item_views(all@),
            models::item_views(out@) == first_of_each(wanted.take(k as int)),
        decreases all.len() - k,
    {
        let ghost before = models::item_views(out@);
        proof {
            assert(wanted.take(k + 1).drop_last() =~= wanted.take(k as int));
            assert(wanted[k as int] == all@[k as int]@);
            lemma_first_of_each_ids(wanted.take(k as int), all@[k as int]@.id);
        }
        if !holds_id(&out, all[k].id.as_str()) {
            out.push(all[k].clone());
            assert(models::item_views(out@) =~= before.push(wanted[k as int]));
        }
        k += 1;
    }
    assert(wanted.take(k as int) =~= wanted);
    out
}

/// What a search shows of its two halves.
///
/// Both are attempted even if one fails, and only a total failure is reported: a server that
/// dislikes one query must not take the other down with it. The message is that of the item half
/// then.
pub fn search(
    artists: Result<Vec<Item>, ClientError>,
    items: Result<Vec<Item>, ClientError>,
    limit: u32,
) -> (r: Result<Vec<Item>, ClientError>)
    ensures
        match (artists, items) {
            (Err(_), Err(e)) => r == Err::<Vec<Item>, ClientError>(e),
            _ => r is Ok && models::item_views(r->Ok_0@) == at_most(
                merged(found(artists), found(items)),
                limit,
            ),
        },
{
    let mut all = match (artists, items) {
        (Ok(artists), Ok(items)) => merge_search(artists, items),
        (Err(_), Ok(items)) => {
            let none: Vec<Item> = Vec::new();
            assert(models::item_views(none@) =~= Seq::empty());
            merge_search(none, items)
        },
        (Ok(artists), Err(_)) => {
            let none: Vec<Item> = Vec::new();
            assert(models::item_views(none@) =~= Seq::empty());
            merge_search(artists, none)
        },
        (Err(_), Err(e)) => return Err(e),
    };
    let ghost before = models::item_views(all@);
    if all.len() as u64 > limit as u64 {
        all.truncate(limit as usize);
        assert(models::item_views(all@) =~= before.take(limit as int));
    }
    Ok(all)
}

/// What one half of a search found. A half that failed found nothing.
pub open spec fn found(half: Result<Vec<Item>, ClientError>) -> Seq<ItemView> {
    match half {
        Ok(items) => models::item_views(items@),
        Err(_) => Seq::empty(),
    }
}

/// Whether no id occurs twice.
pub open spec fn ids_differ(items: Seq<ItemView>) -> bool {
    forall|i: int, j: int|
        0 <= i < j < items.len() ==> (#[trigger] items[i]).id != (#[trigger] items[j]).id
}

/// Nothing is listed twice, and nothing that was found is lost.
pub proof fn law_a_search_lists_everything_once(
    artists: Seq<ItemView>,
    items: Seq<ItemView>,
    id: Seq<char>,
)
    ensures
        ids_differ(merged(artists, items)),
        has_id(merged(artists, items), id) == (has_id(artists, id) || has_id(items, id)),
{
    let albums = items.filter(|item: ItemView| item.kind() == Kind::Album);
    let others = items.filter(|item: ItemView| item.kind() != Kind::Album);
    let all = artists + albums + others;
    lemma_ids_differ(all);
    lemma_first_of_each_ids(all, id);
    lemma_kinds_cover(items, id);
    lemma_has_id_concat(artists + albums, others, id);
    lemma_has_id_concat(artists, albums, id);
}

proof fn lemma_has_id_concat(a: Seq<ItemView>, b: Seq<ItemView>, id: Seq<char>)
    ensures
        has_id(a + b, id) == (has_id(a, id) || has_id(b, id)),
{
    let all = a + b;
    if has_id(a, id) {
        let i = choose|i: int| 0 <= i < a.len() && (#[trigger] a[i]).id == id;
        assert(all[i].id == id);
    }
    if has_id(b, id) {
        let i = choose|i: int| 0 <= i < b.len() && (#[trigger] b[i]).id == id;
        assert(all[a.len() + i].id == id);
    }
    if has_id(all, id) {
        let i = choose|i: int| 0 <= i < all.len() && (#[trigger] all[i]).id == id;
        if i < a.len() {
            assert(a[i].id == id);
        } else {
            assert(b[i - a.len()].id == id);
        }
    }
}

proof fn lemma_kinds_cover(items: Seq<ItemView>, id: Seq<char>)
    ensures
        has_id(items, id) == (has_id(
            items.filter(|item: ItemView| item.kind() == Kind::Album),
            id,
        ) || has_id(items.filter(|item: ItemView| item.kind() != Kind::Album), id)),
    decreases items.len(),
{
    let is_album = |item: ItemView| item.kind() == Kind::Album;
    let is_other = |item: ItemView| item.kind() != Kind::Album;
    reveal(Seq::filter);
    if items.len() > 0 {
        let front = items.drop_last();
        let one = seq![items.last()];
        lemma_kinds_cover(front, id);
        assert(items =~= front + one);
        lemma_has_id_concat(front, one, id);
        assert(one[0] == items.last());
        if is_album(items.last()) {
            assert(items.filter(is_album) =~= front.filter(is_album) + one);
            lemma_has_id_concat(front.filter(is_album), one, id);
        } else {
            assert(items.filter(is_other) =~= front.filter(is_other) + one);
            lemma_has_id_concat(front.filter(is_other), one, id);
        }
    }
}

proof fn lemma_ids_differ(items: Seq<ItemView>)
    ensures
        ids_differ(first_of_each(items)),
    decreases items.len(),
{
    if items.len() > 0 {
        let front = items.drop_last();
        let before = first_of_each(front);
        lemma_ids_differ(front);
        lemma_first_of_each_ids(front, items.last().id);
        if !has_id(front, items.last().id) {
            let after = first_of_each(items);
            assert forall|i: int, j: int| 0 <= i < j < after.len() implies (#[trigger] after[i]).id
                != (#[trigger] after[j]).id by {
                assert(before[i] == after[i]);
                if j == before.len() {
                    assert(before[i].id != items.last().id);
                } else {
                    assert(before[j] == after[j]);
                }
            }
        }
    }
}

/// The first occurrences of a list begin with those of any beginning of it: artists come before
/// albums, and albums before tracks.
pub proof fn law_a_search_lists_artists_first(artists: Seq<ItemView>, items: Seq<ItemView>)
    ensures
        first_of_each(artists).is_prefix_of(merged(artists, items)),
        first_of_each(
            artists + items.filter(|item: ItemView| item.kind() == Kind::Album),
        ).is_prefix_of(merged(artists, items)),
{
    let albums = items.filter(|item: ItemView| item.kind() == Kind::Album);
    let others = items.filter(|item: ItemView| item.kind() != Kind::Album);
    lemma_first_of_each_prefix(artists + albums, others);
    lemma_first_of_each_prefix(artists, albums + others);
    assert(artists + (albums + others) =~= artists + albums + others);
}

proof fn lemma_first_of_each_prefix(a: Seq<ItemView>, b: Seq<ItemView>)
    ensures
        first_of_each(a).is_prefix_of(first_of_each(a + b)),
    decreases b.len(),
{
    if b.len() == 0 {
        assert(a + b =~= a);
    } else {
        lemma_first_of_each_prefix(a, b.drop_last());
        assert((a + b).drop_last() =~= a + b.drop_last());
    }
}

/// One half of a search that fails hides nothing of the other: up to the limit, everything that
/// was found is shown.
pub proof fn law_half_a_search_is_shown(items: Seq<ItemView>, limit: u32, id: Seq<char>)
    requires
        merged(Seq::empty(), items).len() <= limit,
    ensures
        has_id(at_most(merged(Seq::empty(), items), limit), id) == has_id(items, id),
        merged(items, Seq::empty()).len() <= limit ==> has_id(
            at_most(merged(items, Seq::empty()), limit),
            id,
        ) == has_id(items, id),
{
    law_a_search_lists_everything_once(Seq::empty(), items, id);
    law_a_search_lists_everything_once(items, Seq::empty(), id);
}

/// A whole address keeps what was typed between the white space around it and the slashes at its
/// end, and has a secure scheme put in front where none was typed; it does not end in a slash.
pub proof fn law_a_whole_address_keeps_what_was_typed(raw: Seq<char>)
    ensures
        ({
            let typed = text::trimmed(raw);
            let whole = normalized_base(raw);
            let given = text::contains(typed, "://"@);
            &&& whole.len() > 0 ==> whole.last() != '/'
            &&& given ==> whole.is_prefix_of(typed)
            &&& !given ==> whole.is_prefix_of("https://"@ + typed)
            &&& forall|i: int|
                given && whole.len() <= i < typed.len() ==> #[trigger] typed[i] == '/'
            &&& typed.len() > 0 && typed.last() != '/' && !given ==> whole == "https://"@ + typed
            &&& typed.len() > 0 && typed.last() != '/' && given ==> whole == typed
        }),
{
    let typed = text::trimmed(raw);
    let with_scheme = if text::contains(typed, "://"@) {
        typed
    } else {
        "https://"@ + typed
    };
    text::law_trimming_the_end_takes_one_character_only(with_scheme, '/');
    if typed.len() > 0 && typed.last() != '/' {
        assert(with_scheme.last() == typed.last());
    }
}

/// Signing in changes only one thing of what is said in front of a request: the token is added
/// behind it.
pub proof fn law_a_token_is_added_to_the_header(client: ClientView, device: Seq<char>)
    ensures
        ({
            let anonymous = ClientView { creds: None, ..client };
            &&& client.creds is Some ==> client.header(device) == anonymous.header(device)
                + ", Token=\""@ + client.creds.unwrap().token + "\""@
            &&& client.creds is None ==> client.header(device) == anonymous.header(device)
            &&& anonymous.header(device) == "MediaBrowser Client=\""@ + "trayplay"@
                + "\", Device=\""@ + device + "\", DeviceId=\""@ + client.device_id
                + "\", Version=\""@ + "0.1.0"@ + "\""@
        }),
{
}

/// The address of a stream names the track in its path and the user and the device in their own
/// parameters; everything behind them is the same for every track, user and device.
pub proof fn law_a_stream_is_addressed_by_track_user_and_device(
    base: Seq<char>,
    item: Seq<char>,
    user: Seq<char>,
    device: Seq<char>,
    other_base: Seq<char>,
    other_item: Seq<char>,
    other_user: Seq<char>,
    other_device: Seq<char>,
)
    ensures
        ({
            let head = base + "/Audio/"@ + item + "/universal?userId="@ + url_encoded(user)
                + "&deviceId="@ + url_encoded(device);
            let other = other_base + "/Audio/"@ + other_item + "/universal?userId="@
                + url_encoded(other_user) + "&deviceId="@ + url_encoded(other_device);
            let address = stream_address(base, item, user, device);
            &&& head.is_prefix_of(address)
            &&& address.skip(head.len() as int) == stream_address(
                other_base,
                other_item,
                other_user,
                other_device,
            ).skip(other.len() as int)
        }),
{
    let head = base + "/Audio/"@ + item + "/universal?userId="@ + url_encoded(user)
        + "&deviceId="@ + url_encoded(device);
    let other = other_base + "/Audio/"@ + other_item + "/universal?userId="@
        + url_encoded(other_user) + "&deviceId="@ + url_encoded(other_device);
    let tail = "&container="@ + DIRECT_PLAY_CONTAINERS@ + "&audioCodec="@ + TRANSCODE_CODEC@
        + "&transcodingContainer="@ + TRANSCODE_CODEC@
        + "&transcodingProtocol=http&maxStreamingBitrate="@ + text::decimal(
        TRANSCODE_BITRATE as nat,
    ) + "&enableRedirection=true"@;
    let address = stream_address(base, item, user, device);
    let other_address = stream_address(other_base, other_item, other_user, other_device);
    assert(address =~= head + tail);
    assert(other_address =~= other + tail);
    assert(address.skip(head.len() as int) =~= tail);
    assert(other_address.skip(other.len() as int) =~= tail);
}

/// Encoding goes byte by byte: a letter, a digit and `-`, `.`, `_` and `~` stand for themselves,
/// and every other byte is a percent sign and its two digits.
pub proof fn law_encoding_goes_byte_by_byte(a: Seq<u8>, b: Seq<u8>)
    ensures
        percent_encoded(a + b) == percent_encoded(a) + percent_encoded(b),
        a.len() == 1 ==> ({
            let plain = 48 <= a[0] <= 57 || 65 <= a[0] <= 90 || 97 <= a[0] <= 122 || a[0] == 45
                || a[0] == 46 || a[0] == 95 || a[0] == 126;
            &&& plain ==> percent_encoded(a) == seq![a[0] as char]
            &&& !plain ==> percent_encoded(a).len() == 3 && percent_encoded(a)[0] == '%'
        }),
    decreases b.len(),
{
    if a.len() == 1 {
        assert(a.drop_last() =~= Seq::<u8>::empty());
        assert(percent_encoded(a.drop_last()) =~= Seq::<char>::empty());
        assert(percent_encoded(a) =~= encoded_byte(a[0]));
    }
    if b.len() == 0 {
        assert(a + b =~= a);
        assert(percent_encoded(a) + percent_encoded(b) =~= percent_encoded(a));
    } else {
        assert((a + b).drop_last() =~= a + b.drop_last());
        assert((a + b).last() == b.last());
        law_encoding_goes_byte_by_byte(a, b.drop_last());
        assert(percent_encoded(a + b) =~= percent_encoded(a) + percent_encoded(b));
    }
}

/// What is shown of a search is its beginning, as much of it as is wanted.
pub proof fn law_a_search_shows_its_beginning(items: Seq<ItemView>, limit: u32)
    ensures
        at_most(items, limit).is_prefix_of(items),
        at_most(items, limit).len() == if items.len() <= limit {
            items.len()
        } else {
            limit as nat
        },
{
}

/// Of what is found under one id the first is listed: artists as they came, then albums, then the
/// rest, each in its own order. Where no id comes twice nothing is left out or moved.
pub proof fn law_a_search_keeps_the_order_it_came_in(
    artists: Seq<ItemView>,
    items: Seq<ItemView>,
)
    ensures
        ({
            let all = artists + items.filter(|item: ItemView| item.kind() == Kind::Album)
                + items.filter(|item: ItemView| item.kind() != Kind::Album);
            &&& ids_differ(all) ==> merged(artists, items) == all
            &&& forall|i: int|
                0 <= i < merged(artists, items).len() ==> all.contains(
                    #[trigger] merged(artists, items)[i],
                )
        }),
{
    let all = artists + items.filter(|item: ItemView| item.kind() == Kind::Album) + items.filter(
        |item: ItemView| item.kind() != Kind::Album,
    );
    lemma_first_of_each_is_part(all);
}

proof fn lemma_first_of_each_is_part(items: Seq<ItemView>)
    ensures
        ids_differ(items) ==> first_of_each(items) == items,
        forall|i: int|
            0 <= i < first_of_each(items).len() ==> items.contains(
                #[trigger] first_of_each(items)[i],
            ),
    decreases items.len(),
{
    if items.len() > 0 {
        let front = items.drop_last();
        let before = first_of_each(front);
        let after = first_of_each(items);
        lemma_first_of_each_is_part(front);
        assert forall|i: int| 0 <= i < after.len() implies items.contains(#[trigger] after[i]) by {
            if i < before.len() {
                assert(after[i] == before[i]);
                let k = choose|k: int| 0 <= k < front.len() && front[k] == before[i];
                assert(items[k] == before[i]);
            } else {
                assert(items[items.len() - 1] == after[i]);
            }
        }
        if ids_differ(items) {
            assert(ids_differ(front)) by {
                assert forall|i: int, j: int| 0 <= i < j < front.len() implies (
                #[trigger] front[i]).id != (#[trigger] front[j]).id by {
                    assert(items[i].id != items[j].id);
                }
            }
            if has_id(front, items.last().id) {
                let i = choose|i: int|
                    0 <= i < front.len() && (#[trigger] front[i]).id == items.last().id;
                assert(items[i].id != items[items.len() - 1].id);
            }
            assert(after =~= items);
        }
    }
}

/// A failure says what was being done and then why it failed. Only a refusal of the credentials
/// counts as one.
pub proof fn law_a_failure_says_what_was_done(what: Seq<char>, message: Seq<char>)
    ensures
        what.is_prefix_of(failure(what, message).message),
        failure(what, message).message.len() == what.len() + 2 + message.len(),
        failure(what, message).message.skip(what.len() + 2int) == message,
        !failure(what, message).unauthorized,
        refused(what).unauthorized,
        refused(what).message == failure(what, "credentials rejected by server (401)"@).message,
        !not_authenticated().unauthorized,
{
    reveal_strlit(": ");
    assert(failure(what, message).message.skip(what.len() + 2int) =~= message);
}

/// A status is a success in the two hundreds and an error in the four and five hundreds.
pub proof fn law_a_status_says_how_it_went(status: u16)
    ensures
        is_success(status) <==> status / 100 == 2,
        is_error(status) <==> status / 100 == 4 || status / 100 == 5,
{
}

} // verus!
