//! Types shared with the request/response side of the service.

use crate::json::{
    is_plain, lemma_members_model, lemma_members_plain_push, text_before, Json, JsonModel,
};
use crate::text::{
    chars_of, decimal, decimal_string, is_digit, lemma_decimal_denotes, lemma_split_joined,
    lemma_split_whole, lines, lines_of, parse_u64, push_char, signed_decimal,
    signed_decimal_string, split, u64_of_text, without_cr,
};
use vstd::prelude::*;
use vstd::string::StringExecFns;

verus! {

/// What a charger is doing.
#[derive(Clone, Copy, Debug, PartialEq, Eq, Structural)]
pub enum ChargerOpMode {
    Unknown,
    Disconnected,
    Paused,
    Charging,
    Finished,
    Error,
    Ready,
    AwaitingAuthentication,
    Deauthenticating,
}

impl ChargerOpMode {
    /// The number that the service uses for this mode.
    pub open spec fn spec_code(self) -> u8 {
        match self {
            ChargerOpMode::Unknown => 0,
            ChargerOpMode::Disconnected => 1,
            ChargerOpMode::Paused => 2,
            ChargerOpMode::Charging => 3,
            ChargerOpMode::Finished => 4,
            ChargerOpMode::Error => 5,
            ChargerOpMode::Ready => 6,
            ChargerOpMode::AwaitingAuthentication => 7,
            ChargerOpMode::Deauthenticating => 8,
        }
    }

    /// The number that the service uses for this mode.
    #[verifier::when_used_as_spec(spec_code)]
    pub fn code(self) -> (r: u8)
        ensures
            r == self.spec_code(),
    {
        match self {
            ChargerOpMode::Unknown => 0,
            ChargerOpMode::Disconnected => 1,
            ChargerOpMode::Paused => 2,
            ChargerOpMode::Charging => 3,
            ChargerOpMode::Finished => 4,
            ChargerOpMode::Error => 5,
            ChargerOpMode::Ready => 6,
            ChargerOpMode::AwaitingAuthentication => 7,
            ChargerOpMode::Deauthenticating => 8,
        }
    }

    /// The mode with the given number, if there is one.
    pub fn from_code(code: u8) -> (r: Option<ChargerOpMode>)
        ensures
            match r {
                Some(mode) => mode.code() == code,
                None => code > 8,
            },
    {
        match code {
            0 => Some(ChargerOpMode::Unknown),
            1 => Some(ChargerOpMode::Disconnected),
            2 => Some(ChargerOpMode::Paused),
            3 => Some(ChargerOpMode::Charging),
            4 => Some(ChargerOpMode::Finished),
            5 => Some(ChargerOpMode::Error),
            6 => Some(ChargerOpMode::Ready),
            7 => Some(ChargerOpMode::AwaitingAuthentication),
            8 => Some(ChargerOpMode::Deauthenticating),
            _ => None,
        }
    }
}

/// Which conductors a charger delivers on.
#[derive(Clone, Copy, Debug, PartialEq, Eq, Structural)]
pub enum OutputPhase {
    Unknown,
    L1ToN,
    L2ToN,
    L3ToN,
    L1ToL2,
    L2ToL3,
    L3ToL1,
    L1L2ToN,
    L2L3ToN,
    L1L3ToL2,
    L1L2L3ToN,
}

impl OutputPhase {
    /// The number that the service uses for this output phase.
    pub open spec fn spec_code(self) -> u8 {
        match self {
            OutputPhase::Unknown => 0,
            OutputPhase::L1ToN => 10,
            OutputPhase::L2ToN => 12,
            OutputPhase::L3ToN => 14,
            OutputPhase::L1ToL2 => 11,
            OutputPhase::L2ToL3 => 15,
            OutputPhase::L3ToL1 => 13,
            OutputPhase::L1L2ToN => 20,
            OutputPhase::L2L3ToN => 21,
            OutputPhase::L1L3ToL2 => 22,
            OutputPhase::L1L2L3ToN => 30,
        }
    }

    /// The number that the service uses for this output phase.
    #[verifier::when_used_as_spec(spec_code)]
    pub fn code(self) -> (r: u8)
        ensures
            r == self.spec_code(),
    {
        match self {
            OutputPhase::Unknown => 0,
            OutputPhase::L1ToN => 10,
            OutputPhase::L2ToN => 12,
            OutputPhase::L3ToN => 14,
            OutputPhase::L1ToL2 => 11,
            OutputPhase::L2ToL3 => 15,
            OutputPhase::L3ToL1 => 13,
            OutputPhase::L1L2ToN => 20,
            OutputPhase::L2L3ToN => 21,
            OutputPhase::L1L3ToL2 => 22,
            OutputPhase::L1L2L3ToN => 30,
        }
    }

    /// The output phase with the given number, if there is one.
    pub fn from_code(code: u8) -> (r: Option<OutputPhase>)
        ensures
            match r {
                Some(phase) => phase.code() == code,
                None => forall|phase: OutputPhase| phase.code() != code,
            },
    {
        match code {
            0 => Some(OutputPhase::Unknown),
            10 => Some(OutputPhase::L1ToN),
            12 => Some(OutputPhase::L2ToN),
            14 => Some(OutputPhase::L3ToN),
            11 => Some(OutputPhase::L1ToL2),
            15 => Some(OutputPhase::L2ToL3),
            13 => Some(OutputPhase::L3ToL1),
            20 => Some(OutputPhase::L1L2ToN),
            21 => Some(OutputPhase::L2L3ToN),
            22 => Some(OutputPhase::L1L3ToL2),
            30 => Some(OutputPhase::L1L2L3ToN),
            _ => None,
        }
    }
}

/// A point in time: whole seconds since the start of 1970 in UTC, and the
/// nanoseconds into that second.
#[derive(Clone, Copy, Debug, PartialEq, Eq, PartialOrd, Ord, Structural)]
pub struct UtcDateTime {
    pub seconds: i64,
    pub nanoseconds: u32,
}

/// The point in time that `chrono` reads from an ISO 8601 text with an
/// offset, as seconds and nanoseconds; `None` where it rejects the text.
pub uninterp spec fn utc_of_text(text: Seq<char>) -> Option<(i64, u32)>;

/// `chrono::DateTime::parse_from_str` with the format `%+`, and of what it
/// read `timestamp` and `timestamp_subsec_nanos`, which count in UTC.
#[verifier::external_body]
fn parse_utc(text: &str) -> (r: Option<(i64, u32)>)
    ensures
        r == utc_of_text(text@),
{
    chrono::DateTime::parse_from_str(text, "%+").ok().map(
        |d| (d.timestamp(), d.timestamp_subsec_nanos()),
    )
}

/// The point in time that a text denotes.
pub open spec fn date_time_of(text: Seq<char>) -> Option<UtcDateTime> {
    match utc_of_text(text) {
        Some((seconds, nanoseconds)) => Some(UtcDateTime { seconds, nanoseconds }),
        None => None,
    }
}

impl UtcDateTime {
    /// Reads an ISO 8601 text with an offset.
    pub fn parse(text: &str) -> (r: Option<UtcDateTime>)
        ensures
            r == date_time_of(text@),
    {
        match parse_utc(text) {
            Some((seconds, nanoseconds)) => Some(UtcDateTime { seconds, nanoseconds }),
            None => None,
        }
    }
}

/// A place with chargers. It has no fields that this client reads.
#[derive(Clone, Copy, Debug, PartialEq, Eq, Structural)]
pub struct Address {}

/// A site as the service lists it.
#[derive(Clone, Debug, PartialEq, Eq, PartialOrd, Ord)]
pub struct Site {
    pub uuid: Option<String>,
    pub id: u32,
    pub site_key: Option<String>,
    pub name: Option<String>,
    pub level_of_access: u32,
    pub installer_alias: Option<String>,
}

/// What the service answers to a login or to a refresh.
#[derive(Clone, Debug, PartialEq, Eq)]
pub struct LoginResponse {
    pub access_token: String,
    pub expires_in: u32,
    pub access_claims: Vec<Option<String>>,
    pub token_type: Option<String>,
    pub refresh_token: String,
}

/// Why a request to the service failed. A failure that came from outside
/// this library is kept as its description.
#[derive(Debug, PartialEq, Eq)]
pub enum ApiError {
    IO(String),
    Ureq(String),
    UnexpectedData(Json, String),
    DeserializeFail,
    FormatError(String),
    InvalidID(String),
}

/// Why saved tokens cannot be read back.
#[derive(Debug, PartialEq, Eq)]
pub enum TokenParseError {
    IncorrectLineCount,
    /// The line that should hold the time of expiry, which is no number.
    ParseIntError(String),
}

/// What a `TokenParseError` is to a contract: the same value, with sequences for its
/// strings and vectors.
pub ghost enum TokenParseErrorModel {
    IncorrectLineCount,
    ParseIntError(Seq<char>),
}

impl View for TokenParseError {
    type V = TokenParseErrorModel;

    open spec fn view(&self) -> TokenParseErrorModel {
        match self {
            TokenParseError::IncorrectLineCount => TokenParseErrorModel::IncorrectLineCount,
            TokenParseError::ParseIntError(line) => TokenParseErrorModel::ParseIntError(line@),
        }
    }
}

/// The tokens of a session and the time at which the access token expires,
/// in seconds since the start of 1970. A session cannot be printed: its
/// tokens are secrets.
#[derive(PartialEq, Eq)]
pub struct Context {
    token: String,
    refresh_token: String,
    token_expiration: u64,
}

/// What a `Context` is to a contract: the same value, with sequences for its
/// strings and vectors.
pub ghost struct ContextModel {
    pub token: Seq<char>,
    pub refresh_token: Seq<char>,
    pub token_expiration: u64,
}

impl View for Context {
    type V = ContextModel;

    closed spec fn view(&self) -> ContextModel {
        ContextModel {
            token: self.token@,
            refresh_token: self.refresh_token@,
            token_expiration: self.token_expiration,
        }
    }
}

/// Whether the access token of a session has expired at the time `now`:
/// its time of expiry lies before `now`.
pub open spec fn expired_at(ctx: ContextModel, now: u64) -> bool {
    ctx.token_expiration < now
}

/// The later of two times.
pub open spec fn later(a: u64, b: u64) -> u64 {
    if a > b {
        a
    } else {
        b
    }
}

/// The session that a login at the time `now` starts: the access token
/// expires `expires_in` seconds later, or at the last time that can be
/// written down where that is earlier.
pub open spec fn context_of_login(
    access_token: Seq<char>,
    refresh_token: Seq<char>,
    expires_in: u32,
    now: u64,
) -> ContextModel {
    ContextModel {
        token: access_token,
        refresh_token,
        token_expiration: if now + expires_in > u64::MAX {
            u64::MAX
        } else {
            (now + expires_in) as u64
        },
    }
}

/// The text that a session is saved as at the time `now`: the access token,
/// the refresh token and the time of expiry, a line each. A token that has
/// expired is saved as expiring now.
pub open spec fn saved_text(ctx: ContextModel, now: u64) -> Seq<char> {
    ctx.token + seq!['\n'] + ctx.refresh_token + seq!['\n'] + decimal(
        later(ctx.token_expiration, now) as nat,
    ) + seq!['\n']
}

/// The session that a saved text holds, read at the time `now`. The text
/// must have three lines, and the third must be a number of seconds. A time
/// of expiry that has passed is read as now.
pub open spec fn context_of_saved(saved: Seq<char>, now: u64) -> Result<
    ContextModel,
    TokenParseErrorModel,
> {
    let lines = lines_of(saved);
    if lines.len() != 3 {
        Err(TokenParseErrorModel::IncorrectLineCount)
    } else {
        match u64_of_text(lines[2]) {
            None => Err(TokenParseErrorModel::ParseIntError(lines[2])),
            Some(expire) => Ok(
                ContextModel {
                    token: lines[0],
                    refresh_token: lines[1],
                    token_expiration: later(expire, now),
                },
            ),
        }
    }
}

/// Whether a text can be saved as one line: it holds no line feed and does
/// not end in a carriage return.
pub open spec fn is_line(text: Seq<char>) -> bool {
    &&& forall|i: int| 0 <= i < text.len() ==> text[i] != '\n'
    &&& without_cr(text) == text
}

/// A session that is saved and read back at the same time is the same
/// session, with its time of expiry moved to that time where it had passed.
/// This holds of tokens that can be saved as one line each.
pub proof fn lemma_saved_session_is_read_back(ctx: ContextModel, now: u64)
    requires
        is_line(ctx.token),
        is_line(ctx.refresh_token),
    ensures
        context_of_saved(saved_text(ctx, now), now) == Ok::<ContextModel, TokenParseErrorModel>(
            ContextModel {
                token: ctx.token,
                refresh_token: ctx.refresh_token,
                token_expiration: later(ctx.token_expiration, now),
            },
        ),
{
    let expiry = later(ctx.token_expiration, now);
    let number = decimal(expiry as nat);
    let empty = Seq::<char>::empty();
    let saved = saved_text(ctx, now);
    lemma_decimal_denotes(expiry as nat);
    assert forall|i: int| 0 <= i < number.len() implies number[i] != '\n' by {
        assert(is_digit(number[i]));
    }
    assert(without_cr(number) == number) by {
        assert(is_digit(number.last()));
    }
    assert(number[0] != '+') by {
        assert(is_digit(number[0]));
    }
    lemma_split_whole(ctx.token, '\n');
    lemma_split_whole(ctx.refresh_token, '\n');
    lemma_split_whole(number, '\n');
    assert(split(empty, '\n') =~= seq![empty]);
    let one = ctx.token + seq!['\n'] + ctx.refresh_token;
    let two = one + seq!['\n'] + number;
    lemma_split_joined(ctx.token, ctx.refresh_token, '\n');
    lemma_split_joined(one, number, '\n');
    lemma_split_joined(two, empty, '\n');
    assert(saved =~= two + seq!['\n'] + empty);
    let pieces = split(saved, '\n');
    assert(pieces =~= seq![ctx.token, ctx.refresh_token, number, empty]);
    assert(lines_of(saved) =~= seq![ctx.token, ctx.refresh_token, number]);
    assert(u64_of_text(number) == Some(expiry));
}

/// The model of the outcome of reading saved tokens.
pub open spec fn saved_outcome(r: Result<Context, TokenParseError>) -> Result<
    ContextModel,
    TokenParseErrorModel,
> {
    match r {
        Ok(ctx) => Ok(ctx@),
        Err(e) => Err(e@),
    }
}

/// `SystemTime::now`, as whole seconds since the start of 1970. Nothing is
/// known of the result.
#[verifier::external_body]
fn unix_now() -> (r: u64) {
    std::time::SystemTime::now().duration_since(std::time::UNIX_EPOCH).map(|d| d.as_secs())
        .unwrap_or(0)
}

impl Context {
    /// The session that the answer to a login at the time `now` starts.
    pub fn from_login_response_at(resp: LoginResponse, now: u64) -> (r: Context)
        ensures
            r@ == context_of_login(
                resp.access_token@,
                resp.refresh_token@,
                resp.expires_in,
                now,
            ),
    {
        let lifetime: u64 = resp.expires_in as u64;
        let token_expiration: u64 = if now > u64::MAX - lifetime {
            u64::MAX
        } else {
            now + lifetime
        };
        Context { token: resp.access_token, refresh_token: resp.refresh_token, token_expiration }
    }

    /// The session that the answer to a login starts, counted from now.
    pub fn from_login_response(resp: LoginResponse) -> (r: Context)
        ensures
            exists|now: u64|
                r@ == context_of_login(
                    resp.access_token@,
                    resp.refresh_token@,
                    resp.expires_in,
                    now,
                ),
    {
        let now = unix_now();
        Context::from_login_response_at(resp, now)
    }

    /// Reads a saved session at the time `now`.
    pub fn from_saved_at(saved: &str, now: u64) -> (r: Result<Context, TokenParseError>)
        ensures
            saved_outcome(r) == context_of_saved(saved@, now),
    {
        let mut all = lines(saved);
        if all.len() != 3 {
            return Err(TokenParseError::IncorrectLineCount);
        }
        let ghost read = lines_of(saved@);
        assert(read[0] == all@[0]@ && read[1] == all@[1]@ && read[2] == all@[2]@);
        let expire_line = all.pop().unwrap();
        let refresh_token = all.pop().unwrap();
        let token = all.pop().unwrap();
        match parse_u64(expire_line.as_str()) {
            None => Err(TokenParseError::ParseIntError(expire_line)),
            Some(expire) => {
                let token_expiration: u64 = if expire > now {
                    expire
                } else {
                    now
                };
                Ok(Context { token, refresh_token, token_expiration })
            },
        }
    }

    /// Reads a saved session now. Whether the text can be read does not
    /// depend on the time.
    pub fn from_saved(saved: &str) -> (r: Result<Context, TokenParseError>)
        ensures
            exists|now: u64| saved_outcome(r) == context_of_saved(saved@, now),
    {
        let now = unix_now();
        Context::from_saved_at(saved, now)
    }

    /// The text to save the session as at the time `now`.
    pub fn save_at(&self, now: u64) -> (r: String)
        ensures
            r@ == saved_text(self@, now),
    {
        let expiration: u64 = if self.token_expiration > now {
            self.token_expiration
        } else {
            now
        };
        let mut out = self.token.clone();
        push_char(&mut out, '\n');
        out.append(self.refresh_token.as_str());
        push_char(&mut out, '\n');
        out.append(decimal_string(expiration).as_str());
        push_char(&mut out, '\n');
        assert(out@ =~= saved_text(self@, now));
        out
    }

    /// The text to save the session as now.
    pub fn save(&self) -> (r: String)
        ensures
            exists|now: u64| r@ == saved_text(self@, now),
    {
        let now = unix_now();
        self.save_at(now)
    }

    /// Whether the access token has expired at the time `now`.
    pub fn check_expired(&self, now: u64) -> (r: bool)
        ensures
            r == expired_at(self@, now),
    {
        self.token_expiration < now
    }

    /// The access token.
    pub fn auth_token(&self) -> (r: &str)
        ensures
            r@ == self@.token,
    {
        self.token.as_str()
    }

    /// The value of the `Authorization` header: `Bearer` and the access
    /// token.
    pub fn auth_header(&self) -> (r: String)
        ensures
            r@ == "Bearer "@ + self@.token,
    {
        let mut out = "Bearer ".to_owned();
        out.append(self.token.as_str());
        out
    }

    /// The refresh token.
    pub fn refresh_token_text(&self) -> (r: &str)
        ensures
            r@ == self@.refresh_token,
    {
        self.refresh_token.as_str()
    }

    /// The time at which the access token expires.
    pub fn token_expiration(&self) -> (r: u64)
        ensures
            r == self@.token_expiration,
    {
        self.token_expiration
    }
}

/// Where the service takes requests; a path is appended to it.
pub const API_BASE: &'static str = "https://api.easee.com/api/";

/// The status with which the service refuses an access token.
pub const UNAUTHORIZED: u16 = 401;

/// The status with which the service says that there is no such thing.
pub const NOT_FOUND: u16 = 404;

/// The address of a path of the service.
pub fn url(path: &str) -> (r: String)
    ensures
        r@ == API_BASE@ + path@,
{
    let mut out = API_BASE.to_owned();
    out.append(path);
    out
}

/// Whether a request that was answered with `status` is to be sent once
/// more after the tokens have been refreshed.
pub fn retry_after_refresh(status: u16) -> (r: bool)
    ensures
        r == (status == UNAUTHORIZED),
{
    status == UNAUTHORIZED
}

/// The body of a login: the password and the name of the user.
pub open spec fn login_model(user: Seq<char>, password: Seq<char>) -> JsonModel {
    JsonModel::Object(
        seq![
            ("password"@, JsonModel::String(password)),
            ("userName"@, JsonModel::String(user)),
        ],
    )
}

/// The bodies of a login and of a refresh are plain.
pub proof fn lemma_bodies_are_plain(user: Seq<char>, password: Seq<char>, refresh: Seq<char>)
    ensures
        is_plain(login_model(user, password)),
        is_plain(refresh_model(refresh)),
{
    reveal_strlit("password");
    reveal_strlit("userName");
    let none = Seq::<(Seq<char>, JsonModel)>::empty();
    let first = ("password"@, JsonModel::String(password));
    let second = ("userName"@, JsonModel::String(user));
    lemma_members_plain_push(none, first.0, first.1);
    assert(text_before(first.0, second.0));
    lemma_members_plain_push(none.push(first), second.0, second.1);
    assert(none.push(first).push(second) =~= seq![first, second]);
    let only = ("refreshToken"@, JsonModel::String(refresh));
    lemma_members_plain_push(none, only.0, only.1);
    assert(none.push(only) =~= seq![only]);
}

/// The body of a refresh: the refresh token.
pub open spec fn refresh_model(refresh_token: Seq<char>) -> JsonModel {
    JsonModel::Object(seq![("refreshToken"@, JsonModel::String(refresh_token))])
}

/// The body of a login.
pub fn login_params(user: &str, password: &str) -> (r: Json)
    ensures
        r@ == login_model(user@, password@),
{
    let mut members: Vec<(String, Json)> = Vec::new();
    members.push(("password".to_owned(), Json::String(password.to_owned())));
    members.push(("userName".to_owned(), Json::String(user.to_owned())));
    let r = Json::Object(members);
    proof {
        lemma_members_model(members@, members@.len());
        assert(r@->Object_0 =~= login_model(user@, password@)->Object_0);
    }
    r
}

/// Whether a character is a letter or a numeral of any script, as the
/// standard library tells.
pub uninterp spec fn is_alphanumeric(c: char) -> bool;

/// `char::is_alphanumeric`: whether the character is alphabetic or numeric
/// by the tables of the standard library, which are not restated here.
#[verifier::external_body]
fn alphanumeric(c: char) -> (r: bool)
    ensures
        r == is_alphanumeric(c),
{
    c.is_alphanumeric()
}

/// Whether a text can be the identifier of a charger: it holds letters and
/// numerals only. The empty text passes.
pub open spec fn is_charger_id(id: Seq<char>) -> bool {
    forall|i: int| 0 <= i < id.len() ==> is_alphanumeric(#[trigger] id[i])
}

/// Whether `id` can be the identifier of a charger.
pub fn valid_charger_id(id: &str) -> (r: bool)
    ensures
        r == is_charger_id(id@),
{
    let chars = chars_of(id);
    let mut i: usize = 0;
    while i < chars.len()
        invariant
            i <= chars.len(),
            chars@ == id@,
            forall|k: int| 0 <= k < i ==> is_alphanumeric(#[trigger] id@[k]),
        decreases chars.len() - i,
    {
        if !alphanumeric(chars[i]) {
            return false;
        }
        i += 1;
    }
    true
}

/// The path of a site.
pub fn site_path(id: i64) -> (r: String)
    ensures
        r@ == "sites/"@ + signed_decimal(id as int),
{
    let mut out = "sites/".to_owned();
    out.append(signed_decimal_string(id).as_str());
    out
}

/// The path of the energy meters of a site.
pub fn site_energy_path(id: u32) -> (r: String)
    ensures
        r@ == "sites/"@ + decimal(id as nat) + "/energy"@,
{
    let mut out = site_path(id as i64);
    out.append("/energy");
    out
}

/// The path of a circuit of a site.
pub fn circuit_path(site_id: u32, circuit_id: u32) -> (r: String)
    ensures
        r@ == "site/"@ + decimal(site_id as nat) + "/circuit/"@ + decimal(circuit_id as nat),
{
    let mut out = "site/".to_owned();
    out.append(decimal_string(site_id as u64).as_str());
    out.append("/circuit/");
    out.append(decimal_string(circuit_id as u64).as_str());
    out
}

/// The path of the dynamic current of a circuit.
pub fn dynamic_current_path(site_id: u32, circuit_id: u32) -> (r: String)
    ensures
        r@ == "sites/"@ + decimal(site_id as nat) + "/circuits/"@ + decimal(circuit_id as nat)
            + "/dynamicCurrent"@,
{
    let mut out = site_path(site_id as i64);
    out.append("/circuits/");
    out.append(decimal_string(circuit_id as u64).as_str());
    out.append("/dynamicCurrent");
    out
}

/// The path of a charger, for an identifier of letters and numerals; any
/// other identifier is refused and handed back.
pub fn charger_path(id: &str) -> (r: Result<String, ApiError>)
    ensures
        match r {
            Ok(path) => is_charger_id(id@) && path@ == "chargers/"@ + id@,
            Err(ApiError::InvalidID(refused)) => !is_charger_id(id@) && refused@ == id@,
            Err(_) => false,
        },
{
    if !valid_charger_id(id) {
        return Err(ApiError::InvalidID(id.to_owned()));
    }
    let mut out = "chargers/".to_owned();
    out.append(id);
    Ok(out)
}

/// The path of something that belongs to a charger: `what` may be `state`,
/// `sessions/ongoing`, `commands/start_charging` and the like.
pub fn charger_item_path(id: &str, what: &str) -> (r: String)
    ensures
        r@ == "chargers/"@ + id@ + "/"@ + what@,
{
    let mut out = "chargers/".to_owned();
    out.append(id);
    out.append("/");
    out.append(what);
    out
}

/// The path of a command to a charger.
pub fn command_path(id: &str, command: &str) -> (r: String)
    ensures
        r@ == "chargers/"@ + id@ + "/commands/"@ + command@,
{
    let mut out = "chargers/".to_owned();
    out.append(id);
    out.append("/commands/");
    out.append(command);
    out
}

impl Context {
    /// The body of the request that refreshes the tokens of this session.
    pub fn refresh_params(&self) -> (r: Json)
        ensures
            r@ == refresh_model(self@.refresh_token),
    {
        let mut members: Vec<(String, Json)> = Vec::new();
        members.push(("refreshToken".to_owned(), Json::String(self.refresh_token.clone())));
        let r = Json::Object(members);
        proof {
            lemma_members_model(members@, members@.len());
            assert(r@->Object_0 =~= refresh_model(self@.refresh_token)->Object_0);
        }
        r
    }

    /// Takes the answer to a refresh at the time `now`: the session goes on
    /// with the tokens of the answer.
    pub fn refresh_token_at(&mut self, resp: LoginResponse, now: u64)
        ensures
            final(self)@ == context_of_login(
                resp.access_token@,
                resp.refresh_token@,
                resp.expires_in,
                now,
            ),
    {
        *self = Context::from_login_response_at(resp, now);
    }

    /// Takes the answer to a refresh, counted from now.
    pub fn refresh_token(&mut self, resp: LoginResponse)
        ensures
            exists|now: u64|
                final(self)@ == context_of_login(
                    resp.access_token@,
                    resp.refresh_token@,
                    resp.expires_in,
                    now,
                ),
    {
        let now = unix_now();
        self.refresh_token_at(resp, now);
    }

    /// Whether the access token has expired by now.
    pub fn expired(&self) -> (r: bool)
        ensures
            exists|now: u64| r == expired_at(self@, now),
    {
        let now = unix_now();
        self.check_expired(now)
    }
}

} // verus!
