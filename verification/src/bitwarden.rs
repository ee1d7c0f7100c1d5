//! The vault session protocol.  A [`Session`] wraps the opaque unlock
//! token.  Every vault operation is split in two verified halves: a request
//! builder that says exactly which subcommand to run, what to feed it on
//! standard input and whether the token goes into the environment, and a
//! classifier that turns the subprocess's raw standard output into a typed
//! result.  Spawning the subprocess itself happens outside this library.
use vstd::prelude::*;
use crate::codec::{obj_get, spec_obj_get};
use crate::json::{
    json_arr_view, json_obj_view, json_view, lemma_arr_view, lemma_obj_view, parse_json,
    spec_parse_json, Json, JsonV,
};
use crate::text::{str_eq, str_starts_with, string_to_chars, chars_to_string, spec_starts_with};

verus! {

/// Spec-level model of an [`Error`].
pub enum ErrorV {
    UnlockFailed,
    FailedToDecrypt,
    UnexpectedResponse(Seq<char>),
    EncodingError,
    ProtocolError(Seq<char>),
}

/// How a vault call fails: a rejected password, a token the vault cannot
/// decrypt with, output that does not match the expected literal, output
/// that is not text, or structured output that does not parse (with a
/// length-bounded excerpt for diagnostics).
#[derive(Debug, Clone)]
pub enum Error {
    UnlockFailed,
    FailedToDecrypt,
    UnexpectedResponse(String),
    EncodingError,
    ProtocolError(String),
}

impl View for Error {
    type V = ErrorV;

    open spec fn view(&self) -> ErrorV {
        match self {
            Error::UnlockFailed => ErrorV::UnlockFailed,
            Error::FailedToDecrypt => ErrorV::FailedToDecrypt,
            Error::UnexpectedResponse(raw) => ErrorV::UnexpectedResponse(raw@),
            Error::EncodingError => ErrorV::EncodingError,
            Error::ProtocolError(excerpt) => ErrorV::ProtocolError(excerpt@),
        }
    }
}

impl Error {
    /// A short name for this error, for logs and messages.
    pub fn describe(&self) -> (r: String)
        ensures
            r@ == match self@ {
                ErrorV::UnlockFailed => "UnlockFailed"@,
                ErrorV::FailedToDecrypt => "FailedToDecrypt"@,
                ErrorV::UnexpectedResponse(_) => "UnexpectedResponse"@,
                ErrorV::EncodingError => "EncodingError"@,
                ErrorV::ProtocolError(_) => "ProtocolError"@,
            },
    {
        match self {
            Error::UnlockFailed => String::from_str("UnlockFailed"),
            Error::FailedToDecrypt => String::from_str("FailedToDecrypt"),
            Error::UnexpectedResponse(_) => String::from_str("UnexpectedResponse"),
            Error::EncodingError => String::from_str("EncodingError"),
            Error::ProtocolError(_) => String::from_str("ProtocolError"),
        }
    }
}

/// Spec-level model of a [`VaultRequest`].
pub struct VaultRequestV {
    pub args: Seq<Seq<char>>,
    pub stdin: Option<Seq<char>>,
    pub use_token: bool,
}

/// One vault invocation to perform: the subcommand arguments, what to
/// write to its standard input, and whether the session token must be
/// exposed to it via the environment.  The token is never placed in the
/// arguments, so it cannot leak into process listings.
#[derive(Debug)]
pub struct VaultRequest {
    pub args: Vec<String>,
    pub stdin: Option<String>,
    pub use_token: bool,
}

impl View for VaultRequest {
    type V = VaultRequestV;

    open spec fn view(&self) -> VaultRequestV {
        VaultRequestV {
            args: self.args.deep_view(),
            stdin: match self.stdin {
                Some(ref s) => Some(s@),
                None => None,
            },
            use_token: self.use_token,
        }
    }
}

/// An authenticated handle to the vault: the opaque unlock token.  Holding
/// a `Session` says nothing about its validity; that is learned by probing
/// with the status subcommand.
pub struct Session {
    pub key: String,
}

impl View for Session {
    type V = Seq<char>;

    open spec fn view(&self) -> Seq<char> {
        self.key@
    }
}

/// The diagnostic excerpt bound: how much of an unparseable output is kept.
pub open spec fn spec_excerpt(s: Seq<char>) -> Seq<char> {
    if s.len() <= 64 {
        s
    } else {
        s.subrange(0, 64)
    }
}

/// The first characters of `s`, up to the diagnostic bound.
pub fn excerpt(s: &str) -> (r: String)
    ensures
        r@ == spec_excerpt(s@),
{
    let chars = string_to_chars(s);
    if chars.len() <= 64 {
        chars_to_string(chars)
    } else {
        let mut out: Vec<char> = Vec::new();
        let mut i: usize = 0;
        while i < 64
            invariant
                chars@.len() > 64,
                chars@ == s@,
                i <= 64,
                out@ =~= s@.subrange(0, i as int),
            decreases 64 - i,
        {
            out.push(chars[i]);
            proof {
                assert(out@ =~= s@.subrange(0, i as int + 1));
            }
            i += 1;
        }
        chars_to_string(out)
    }
}

/// Whether raw vault output carries the decryption-failure banner.
pub open spec fn spec_decrypt_banner(out: Seq<char>) -> bool {
    spec_starts_with(out, "Failed to decrypt."@)
}

/// What one raw subprocess output means as text: not UTF-8 is an
/// encoding error, the decryption banner is a decryption failure, and
/// anything else is the decoded text itself.
pub open spec fn spec_classify_output(bytes: Seq<u8>) -> Result<Seq<char>, ErrorV> {
    if !vstd::utf8::valid_utf8(bytes) {
        Err(ErrorV::EncodingError)
    } else if spec_decrypt_banner(vstd::utf8::decode_utf8(bytes)) {
        Err(ErrorV::FailedToDecrypt)
    } else {
        Ok(vstd::utf8::decode_utf8(bytes))
    }
}

/// Relies on `String::from_utf8`: succeeds exactly on valid UTF-8 and
/// yields the decoded characters, as `vstd`'s UTF-8 model states them.
#[verifier::external_body]
fn utf8_to_string(bytes: Vec<u8>) -> (r: Option<String>)
    ensures
        r is Some <==> vstd::utf8::valid_utf8(bytes@),
        r matches Some(s) ==> s@ == vstd::utf8::decode_utf8(bytes@),
{
    String::from_utf8(bytes).ok()
}

impl Session {
    /// Reuses a previously stored token, unverified: pure construction.
    pub fn open(key: &str) -> (s: Session)
        ensures
            s@ == key@,
    {
        Session { key: String::from_str(key) }
    }

    /// Checks one raw output for the vault's failure banner.
    pub fn check_for_errors(output: &str) -> (r: Result<(), Error>)
        ensures
            match r {
                Ok(()) => !spec_decrypt_banner(output@),
                Err(e) => spec_decrypt_banner(output@) && e@ == ErrorV::FailedToDecrypt,
            },
    {
        if str_starts_with(output, "Failed to decrypt.") {
            Err(Error::FailedToDecrypt)
        } else {
            Ok(())
        }
    }

    /// Turns one subprocess output into text: not UTF-8 is an encoding
    /// error, the decryption banner is a decryption failure, anything else
    /// is the text itself.
    pub fn decode_output(bytes: Vec<u8>) -> (r: Result<String, Error>)
        ensures
            match r {
                Ok(t) => spec_classify_output(bytes@) == Ok::<Seq<char>, ErrorV>(t@),
                Err(e) => spec_classify_output(bytes@) == Err::<Seq<char>, ErrorV>(e@),
            },
    {
        let text = match utf8_to_string(bytes) {
            Some(t) => t,
            None => {
                return Err(Error::EncodingError);
            },
        };
        match Session::check_for_errors(text.as_str()) {
            Ok(()) => Ok(text),
            Err(e) => Err(e),
        }
    }

    /// The unlock invocation: the password goes to standard input, and no
    /// token is exposed.
    pub fn unlock_request(password: &str) -> (r: VaultRequest)
        ensures
            r@.args =~= seq!["unlock"@, "--raw"@],
            r@.stdin == Some(password@),
            r@.use_token == false,
    {
        let mut args: Vec<String> = Vec::new();
        args.push(String::from_str("unlock"));
        args.push(String::from_str("--raw"));
        VaultRequest { args, stdin: Some(String::from_str(password)), use_token: false }
    }

    /// Classifies the unlock subcommand's raw output: an empty output
    /// means the password was rejected, anything else is the fresh token.
    pub fn unlock(output: &str) -> (r: Result<Session, Error>)
        ensures
            match r {
                Ok(s) => output@.len() > 0 && s@ == output@,
                Err(e) => output@.len() == 0 && e@ == ErrorV::UnlockFailed,
            },
    {
        if output.unicode_len() == 0 {
            Err(Error::UnlockFailed)
        } else {
            Ok(Session { key: String::from_str(output) })
        }
    }

    /// The status invocation, under this session's token.
    pub fn status_request(&self) -> (r: VaultRequest)
        ensures
            r@.args =~= seq!["status"@],
            r@.stdin is None,
            r@.use_token == true,
    {
        let mut args: Vec<String> = Vec::new();
        args.push(String::from_str("status"));
        VaultRequest { args, stdin: None, use_token: true }
    }

    /// The lock invocation, under this session's token.
    pub fn lock_request(&self) -> (r: VaultRequest)
        ensures
            r@.args =~= seq!["lock"@],
            r@.stdin is None,
            r@.use_token == true,
    {
        let mut args: Vec<String> = Vec::new();
        args.push(String::from_str("lock"));
        VaultRequest { args, stdin: None, use_token: true }
    }

    /// The sync invocation, under this session's token.
    pub fn sync_request(&self) -> (r: VaultRequest)
        ensures
            r@.args =~= seq!["sync"@],
            r@.stdin is None,
            r@.use_token == true,
    {
        let mut args: Vec<String> = Vec::new();
        args.push(String::from_str("sync"));
        VaultRequest { args, stdin: None, use_token: true }
    }

    /// The folder-listing invocation, under this session's token.
    pub fn list_folders_request(&self) -> (r: VaultRequest)
        ensures
            r@.args =~= seq!["list"@, "folders"@],
            r@.stdin is None,
            r@.use_token == true,
    {
        let mut args: Vec<String> = Vec::new();
        args.push(String::from_str("list"));
        args.push(String::from_str("folders"));
        VaultRequest { args, stdin: None, use_token: true }
    }

    /// The item-listing invocation, under this session's token.
    pub fn list_items_request(&self) -> (r: VaultRequest)
        ensures
            r@.args =~= seq!["list"@, "items"@],
            r@.stdin is None,
            r@.use_token == true,
    {
        let mut args: Vec<String> = Vec::new();
        args.push(String::from_str("list"));
        args.push(String::from_str("items"));
        VaultRequest { args, stdin: None, use_token: true }
    }

    /// The invocation that reads one field of one entry, under this
    /// session's token.
    pub fn get_request(&self, field_name: &str, id: &str) -> (r: VaultRequest)
        ensures
            r@.args =~= seq!["get"@, field_name@, id@],
            r@.stdin is None,
            r@.use_token == true,
    {
        let mut args: Vec<String> = Vec::new();
        args.push(String::from_str("get"));
        args.push(String::from_str(field_name));
        args.push(String::from_str(id));
        VaultRequest { args, stdin: None, use_token: true }
    }

    /// Classifies the lock subcommand's output: only the vault's literal
    /// confirmation sentence counts as success.
    pub fn lock(&self, output: &str) -> (r: Result<(), Error>)
        ensures
            match r {
                Ok(()) => output@ == "Your vault is locked."@,
                Err(e) => output@ != "Your vault is locked."@ && e@ == ErrorV::UnexpectedResponse(
                    output@,
                ),
            },
    {
        if str_eq(output, "Your vault is locked.") {
            Ok(())
        } else {
            Err(Error::UnexpectedResponse(String::from_str(output)))
        }
    }
}

/// Spec-level model of a [`Status`].
pub struct StatusV {
    pub server_url: Option<Seq<char>>,
    pub last_sync: Option<Seq<char>>,
    pub user_email: Option<Seq<char>>,
    pub user_id: Option<Seq<char>>,
    pub status: Seq<char>,
}

/// The vault's status report.  Only the `status` field is required; the
/// others are kept when the backend reports them as strings.  Timestamps
/// stay as their raw text: nothing here computes on them.
#[derive(Debug)]
pub struct Status {
    pub server_url: Option<String>,
    pub last_sync: Option<String>,
    pub user_email: Option<String>,
    pub user_id: Option<String>,
    pub status: String,
}

impl View for Status {
    type V = StatusV;

    open spec fn view(&self) -> StatusV {
        StatusV {
            server_url: match self.server_url {
                Some(ref s) => Some(s@),
                None => None,
            },
            last_sync: match self.last_sync {
                Some(ref s) => Some(s@),
                None => None,
            },
            user_email: match self.user_email {
                Some(ref s) => Some(s@),
                None => None,
            },
            user_id: match self.user_id {
                Some(ref s) => Some(s@),
                None => None,
            },
            status: self.status@,
        }
    }
}

/// Spec-level model of a [`Folder`].
pub struct FolderV {
    pub object: Seq<char>,
    pub id: Option<Seq<char>>,
    pub name: Seq<char>,
}

/// One vault folder; the root folder has no identifier.
#[derive(Debug, Clone)]
pub struct Folder {
    pub object: String,
    pub id: Option<String>,
    pub name: String,
}

impl View for Folder {
    type V = FolderV;

    open spec fn view(&self) -> FolderV {
        FolderV {
            object: self.object@,
            id: match self.id {
                Some(ref s) => Some(s@),
                None => None,
            },
            name: self.name@,
        }
    }
}

impl DeepView for Folder {
    type V = FolderV;

    open spec fn deep_view(&self) -> FolderV {
        self.view()
    }
}

/// Spec-level model of a [`Uri`].
pub struct UriV {
    pub uri: Seq<char>,
    pub match_: Option<Seq<char>>,
}

/// One login URI; the match mode is kept only when the backend reports it
/// as a string.
#[derive(Debug, Clone)]
pub struct Uri {
    pub uri: String,
    pub match_: Option<String>,
}

impl View for Uri {
    type V = UriV;

    open spec fn view(&self) -> UriV {
        UriV {
            uri: self.uri@,
            match_: match self.match_ {
                Some(ref s) => Some(s@),
                None => None,
            },
        }
    }
}

impl DeepView for Uri {
    type V = UriV;

    open spec fn deep_view(&self) -> UriV {
        self.view()
    }
}

/// Spec-level model of a [`Login`].
pub struct LoginV {
    pub username: Option<Seq<char>>,
    pub password: Option<Seq<char>>,
    pub totp: Option<Seq<char>>,
    pub password_revision_date: Option<Seq<char>>,
    pub uris: Seq<UriV>,
}

/// The login part of a vault entry: which secrets exist, not their
/// values beyond what the listing itself carries.
#[derive(Debug, Clone)]
pub struct Login {
    pub username: Option<String>,
    pub password: Option<String>,
    pub totp: Option<String>,
    pub password_revision_date: Option<String>,
    pub uris: Vec<Uri>,
}

impl View for Login {
    type V = LoginV;

    open spec fn view(&self) -> LoginV {
        LoginV {
            username: match self.username {
                Some(ref s) => Some(s@),
                None => None,
            },
            password: match self.password {
                Some(ref s) => Some(s@),
                None => None,
            },
            totp: match self.totp {
                Some(ref s) => Some(s@),
                None => None,
            },
            password_revision_date: match self.password_revision_date {
                Some(ref s) => Some(s@),
                None => None,
            },
            uris: self.uris.deep_view(),
        }
    }
}

/// Spec-level model of a raw vault [`Item`].
pub struct ItemV {
    pub object: Seq<char>,
    pub id: Seq<char>,
    pub name: Seq<char>,
    pub folder_id: Option<Seq<char>>,
    pub organization_id: Option<Seq<char>>,
    pub type_: int,
    pub notes: Option<Seq<char>>,
    pub favorite: bool,
    pub login: Option<LoginV>,
    pub collection_ids: Seq<Seq<char>>,
    pub revision_date: Seq<char>,
}

/// One raw vault entry as the listing subcommand reports it.  The
/// revision timestamp stays as its raw text.
#[derive(Debug)]
pub struct Item {
    pub object: String,
    pub id: String,
    pub name: String,
    pub folder_id: Option<String>,
    pub organization_id: Option<String>,
    pub type_: i32,
    pub notes: Option<String>,
    pub favorite: bool,
    pub login: Option<Login>,
    pub collection_ids: Vec<String>,
    pub revision_date: String,
}

impl View for Item {
    type V = ItemV;

    open spec fn view(&self) -> ItemV {
        ItemV {
            object: self.object@,
            id: self.id@,
            name: self.name@,
            folder_id: match self.folder_id {
                Some(ref s) => Some(s@),
                None => None,
            },
            organization_id: match self.organization_id {
                Some(ref s) => Some(s@),
                None => None,
            },
            type_: self.type_ as int,
            notes: match self.notes {
                Some(ref s) => Some(s@),
                None => None,
            },
            favorite: self.favorite,
            login: match self.login {
                Some(ref l) => Some(l@),
                None => None,
            },
            collection_ids: self.collection_ids.deep_view(),
            revision_date: self.revision_date@,
        }
    }
}

impl DeepView for Item {
    type V = ItemV;

    open spec fn deep_view(&self) -> ItemV {
        self.view()
    }
}

/// The integer value of a decimal lexeme, unbounded.
pub open spec fn spec_parse_nat_rec(s: Seq<char>, i: int, acc: int) -> Option<int>
    decreases s.len() - i,
{
    if i < 0 || i >= s.len() {
        Some(acc)
    } else if '0' <= s[i] && s[i] <= '9' {
        spec_parse_nat_rec(s, i + 1, acc * 10 + (s[i] as int - 48))
    } else {
        None
    }
}

/// The signed integer a lexeme denotes: an optional minus sign and at
/// least one digit.
pub open spec fn spec_parse_int(s: Seq<char>) -> Option<int> {
    if s.len() == 0 {
        None
    } else if s[0] == '-' {
        if s.len() == 1 {
            None
        } else {
            match spec_parse_nat_rec(s, 1, 0) {
                Some(v) => Some(-v),
                None => None,
            }
        }
    } else {
        spec_parse_nat_rec(s, 0, 0)
    }
}

/// The lexeme's value when it fits an `i32`, else nothing.
pub open spec fn spec_parse_i32(s: Seq<char>) -> Option<int> {
    match spec_parse_int(s) {
        Some(v) => if -0x8000_0000 <= v && v <= 0x7FFF_FFFF {
            Some(v)
        } else {
            None
        },
        None => None,
    }
}

proof fn lemma_parse_nat_lower(s: Seq<char>, i: int, acc: int)
    requires
        acc >= 0,
    ensures
        spec_parse_nat_rec(s, i, acc) matches Some(v) ==> v >= acc,
    decreases s.len() - i,
{
    if 0 <= i < s.len() && '0' <= s[i] && s[i] <= '9' {
        lemma_parse_nat_lower(s, i + 1, acc * 10 + (s[i] as int - 48));
    }
}

fn parse_i32_digits(chars: &Vec<char>, start: usize) -> (r: Option<i64>)
    requires
        start <= chars@.len(),
    ensures
        match r {
            Some(v) => spec_parse_nat_rec(chars@, start as int, 0) == Some(v as int) && 0 <= v
                <= 0xFFFF_FFFFi64,
            None => !(spec_parse_nat_rec(chars@, start as int, 0) matches Some(v) && v
                <= 0xFFFF_FFFF),
        },
{
    let n = chars.len();
    let mut acc: i64 = 0;
    let mut i: usize = start;
    while i < n
        invariant
            start <= i <= n,
            n == chars@.len(),
            0 <= acc <= 0xFFFF_FFFFi64,
            spec_parse_nat_rec(chars@, start as int, 0) == spec_parse_nat_rec(
                chars@,
                i as int,
                acc as int,
            ),
        decreases n - i,
    {
        let c = chars[i];
        if !('0' <= c && c <= '9') {
            return None;
        }
        let d = (c as u32) - 48;
        proof {
            crate::json::lemma_char_u32_pub(c);
            assert(d as int == c as int - 48);
        }
        let next: i64 = acc * 10 + (d as i64);
        if next > 0xFFFF_FFFFi64 {
            proof {
                lemma_parse_nat_lower(chars@, i as int + 1, next as int);
            }
            return None;
        }
        acc = next;
        i += 1;
    }
    Some(acc)
}

/// Reads a decimal lexeme into an `i32`; out-of-range values and
/// malformed lexemes yield nothing.
pub fn parse_i32(s: &str) -> (r: Option<i32>)
    ensures
        match r {
            Some(v) => spec_parse_i32(s@) == Some(v as int),
            None => spec_parse_i32(s@) is None,
        },
{
    let chars = string_to_chars(s);
    let n = chars.len();
    if n == 0 {
        return None;
    }
    if chars[0] == '-' {
        if n == 1 {
            return None;
        }
        match parse_i32_digits(&chars, 1) {
            Some(v) => {
                if v <= 0x8000_0000i64 {
                    Some((-v) as i32)
                } else {
                    None
                }
            },
            None => None,
        }
    } else {
        match parse_i32_digits(&chars, 0) {
            Some(v) => {
                if v <= 0x7FFF_FFFFi64 {
                    Some(v as i32)
                } else {
                    None
                }
            },
            None => None,
        }
    }
}

/// A member that must be a string: its characters, or nothing when it is
/// absent or not a string.
pub open spec fn spec_req_str(ms: Seq<(Seq<char>, JsonV)>, key: Seq<char>) -> Option<Seq<char>> {
    match spec_obj_get(ms, key) {
        Some(JsonV::Str(x)) => Some(x),
        _ => None,
    }
}

/// A member that may be absent or null: `None` when invalid, otherwise
/// the optional characters.
pub open spec fn spec_opt_str(ms: Seq<(Seq<char>, JsonV)>, key: Seq<char>) -> Option<
    Option<Seq<char>>,
> {
    match spec_obj_get(ms, key) {
        None => Some(None),
        Some(JsonV::Null) => Some(None),
        Some(JsonV::Str(x)) => Some(Some(x)),
        Some(_) => None,
    }
}

/// A member read leniently: a string is kept, anything else (absent, null
/// or another shape) reads as nothing.
pub open spec fn spec_lax_str(ms: Seq<(Seq<char>, JsonV)>, key: Seq<char>) -> Option<Seq<char>> {
    match spec_obj_get(ms, key) {
        Some(JsonV::Str(x)) => Some(x),
        _ => None,
    }
}

fn req_str(ms: &Vec<(String, Json)>, key: &str) -> (r: Option<String>)
    ensures
        match r {
            Some(x) => spec_req_str(json_obj_view(ms@), key@) == Some(x@),
            None => spec_req_str(json_obj_view(ms@), key@) is None,
        },
{
    match obj_get(ms, key) {
        Some(Json::Str(x)) => Some(x.clone()),
        _ => None,
    }
}

fn opt_str(ms: &Vec<(String, Json)>, key: &str) -> (r: Option<Option<String>>)
    ensures
        match r {
            Some(Some(x)) => spec_opt_str(json_obj_view(ms@), key@) == Some(Some(x@)),
            Some(None) => spec_opt_str(json_obj_view(ms@), key@) == Some(None::<Seq<char>>),
            None => spec_opt_str(json_obj_view(ms@), key@) is None,
        },
{
    match obj_get(ms, key) {
        None => Some(None),
        Some(Json::Null) => Some(None),
        Some(Json::Str(x)) => Some(Some(x.clone())),
        Some(_) => None,
    }
}

fn lax_str(ms: &Vec<(String, Json)>, key: &str) -> (r: Option<String>)
    ensures
        match r {
            Some(x) => spec_lax_str(json_obj_view(ms@), key@) == Some(x@),
            None => spec_lax_str(json_obj_view(ms@), key@) is None,
        },
{
    match obj_get(ms, key) {
        Some(Json::Str(x)) => Some(x.clone()),
        _ => None,
    }
}

/// The status record a JSON value stands for.
pub open spec fn spec_status_of_json(v: JsonV) -> Option<StatusV> {
    match v {
        JsonV::Obj(ms) => match spec_req_str(ms, "status"@) {
            Some(st) => Some(
                StatusV {
                    server_url: spec_lax_str(ms, "serverUrl"@),
                    last_sync: spec_lax_str(ms, "lastSync"@),
                    user_email: spec_lax_str(ms, "userEmail"@),
                    user_id: spec_lax_str(ms, "userId"@),
                    status: st,
                },
            ),
            None => None,
        },
        _ => None,
    }
}

fn status_of_json(v: &Json) -> (r: Option<Status>)
    ensures
        match r {
            Some(st) => spec_status_of_json(v@) == Some(st@),
            None => spec_status_of_json(v@) is None,
        },
{
    match v {
        Json::Obj(ms) => {
            let status = match req_str(ms, "status") {
                Some(st) => st,
                None => {
                    return None;
                },
            };
            Some(
                Status {
                    server_url: lax_str(ms, "serverUrl"),
                    last_sync: lax_str(ms, "lastSync"),
                    user_email: lax_str(ms, "userEmail"),
                    user_id: lax_str(ms, "userId"),
                    status,
                },
            )
        },
        _ => None,
    }
}

/// The folder record a JSON value stands for.
pub open spec fn spec_folder_of_json(v: JsonV) -> Option<FolderV> {
    match v {
        JsonV::Obj(ms) => match (spec_req_str(ms, "object"@), spec_opt_str(ms, "id"@), spec_req_str(
            ms,
            "name"@,
        )) {
            (Some(object), Some(id), Some(name)) => Some(FolderV { object, id, name }),
            _ => None,
        },
        _ => None,
    }
}

fn folder_of_json(v: &Json) -> (r: Option<Folder>)
    ensures
        match r {
            Some(f) => spec_folder_of_json(v@) == Some(f@),
            None => spec_folder_of_json(v@) is None,
        },
{
    match v {
        Json::Obj(ms) => {
            let object = match req_str(ms, "object") {
                Some(x) => x,
                None => {
                    return None;
                },
            };
            let id = match opt_str(ms, "id") {
                Some(x) => x,
                None => {
                    return None;
                },
            };
            let name = match req_str(ms, "name") {
                Some(x) => x,
                None => {
                    return None;
                },
            };
            Some(Folder { object, id, name })
        },
        _ => None,
    }
}

/// The URI record a JSON value stands for.
pub open spec fn spec_uri_of_json(v: JsonV) -> Option<UriV> {
    match v {
        JsonV::Obj(ms) => match spec_req_str(ms, "uri"@) {
            Some(uri) => Some(UriV { uri, match_: spec_lax_str(ms, "match"@) }),
            None => None,
        },
        _ => None,
    }
}

fn uri_of_json(v: &Json) -> (r: Option<Uri>)
    ensures
        match r {
            Some(u) => spec_uri_of_json(v@) == Some(u@),
            None => spec_uri_of_json(v@) is None,
        },
{
    match v {
        Json::Obj(ms) => {
            let uri = match req_str(ms, "uri") {
                Some(x) => x,
                None => {
                    return None;
                },
            };
            Some(Uri { uri, match_: lax_str(ms, "match") })
        },
        _ => None,
    }
}

/// The URI list a JSON array stands for.
pub open spec fn spec_uris_of_json(vs: Seq<JsonV>) -> Option<Seq<UriV>>
    decreases vs.len(),
{
    if vs.len() == 0 {
        Some(Seq::empty())
    } else {
        match spec_uri_of_json(vs[0]) {
            Some(u) => match spec_uris_of_json(vs.drop_first()) {
                Some(us) => Some(seq![u] + us),
                None => None,
            },
            None => None,
        }
    }
}

fn uris_of_json(vs: &Vec<Json>) -> (r: Option<Vec<Uri>>)
    ensures
        match r {
            Some(us) => spec_uris_of_json(json_arr_view(vs@)) == Some(us.deep_view()),
            None => spec_uris_of_json(json_arr_view(vs@)) is None,
        },
{
    let ghost whole = json_arr_view(vs@);
    proof {
        lemma_arr_view(vs@);
    }
    let n = vs.len();
    let mut out: Vec<Uri> = Vec::new();
    let mut i: usize = 0;
    proof {
        assert(whole.skip(0) =~= whole);
    }
    while i < n
        invariant
            n == vs@.len(),
            whole == json_arr_view(vs@),
            whole.len() == n,
            forall|t: int| 0 <= t < n ==> whole[t] == json_view(vs@[t]),
            i <= n,
            match spec_uris_of_json(whole.skip(i as int)) {
                Some(rest) => spec_uris_of_json(whole) == Some(out.deep_view() + rest),
                None => spec_uris_of_json(whole) is None,
            },
        decreases n - i,
    {
        let ghost suffix = whole.skip(i as int);
        proof {
            assert(suffix[0] == whole[i as int]);
            assert(suffix.drop_first() =~= whole.skip(i as int + 1));
        }
        match uri_of_json(&vs[i]) {
            Some(u) => {
                let ghost old_out = out.deep_view();
                let ghost uv = u@;
                out.push(u);
                proof {
                    assert(out.deep_view() =~= old_out.push(uv));
                    if spec_uris_of_json(whole.skip(i as int + 1)) is Some {
                        let rest2 = spec_uris_of_json(whole.skip(i as int + 1))->Some_0;
                        assert(spec_uris_of_json(suffix) == Some(seq![uv] + rest2));
                        assert(old_out.push(uv) + rest2 =~= old_out + (seq![uv] + rest2));
                    }
                }
            },
            None => {
                return None;
            },
        }
        i += 1;
    }
    proof {
        assert(whole.skip(n as int) =~= Seq::<JsonV>::empty());
        assert(spec_uris_of_json(whole) == Some(out.deep_view() + Seq::<UriV>::empty()));
        assert(out.deep_view() + Seq::<UriV>::empty() =~= out.deep_view());
    }
    Some(out)
}

/// The login record a JSON value stands for; a missing `uris` member
/// reads as an empty list.
pub open spec fn spec_login_of_json(v: JsonV) -> Option<LoginV> {
    match v {
        JsonV::Obj(ms) => {
            match (spec_opt_str(ms, "username"@), spec_opt_str(ms, "password"@), spec_opt_str(
                ms,
                "totp"@,
            ), spec_opt_str(ms, "passwordRevisionDate"@)) {
                (Some(username), Some(password), Some(totp), Some(password_revision_date)) => {
                    match spec_obj_get(ms, "uris"@) {
                        None => Some(
                            LoginV {
                                username,
                                password,
                                totp,
                                password_revision_date,
                                uris: Seq::empty(),
                            },
                        ),
                        Some(JsonV::Arr(uvs)) => match spec_uris_of_json(uvs) {
                            Some(uris) => Some(
                                LoginV { username, password, totp, password_revision_date, uris },
                            ),
                            None => None,
                        },
                        Some(_) => None,
                    }
                },
                _ => None,
            }
        },
        _ => None,
    }
}

fn login_of_json(v: &Json) -> (r: Option<Login>)
    ensures
        match r {
            Some(l) => spec_login_of_json(v@) == Some(l@),
            None => spec_login_of_json(v@) is None,
        },
{
    match v {
        Json::Obj(ms) => {
            let username = match opt_str(ms, "username") {
                Some(x) => x,
                None => {
                    return None;
                },
            };
            let password = match opt_str(ms, "password") {
                Some(x) => x,
                None => {
                    return None;
                },
            };
            let totp = match opt_str(ms, "totp") {
                Some(x) => x,
                None => {
                    return None;
                },
            };
            let password_revision_date = match opt_str(ms, "passwordRevisionDate") {
                Some(x) => x,
                None => {
                    return None;
                },
            };
            let uris = match obj_get(ms, "uris") {
                None => {
                    let empty: Vec<Uri> = Vec::new();
                    proof {
                        assert(empty.deep_view() =~= Seq::<UriV>::empty());
                    }
                    empty
                },
                Some(Json::Arr(uvs)) => match uris_of_json(uvs) {
                    Some(uris) => uris,
                    None => {
                        return None;
                    },
                },
                Some(_) => {
                    return None;
                },
            };
            Some(Login { username, password, totp, password_revision_date, uris })
        },
        _ => None,
    }
}

/// The raw item record a JSON value stands for.
pub open spec fn spec_bw_item_of_json(v: JsonV) -> Option<ItemV> {
    match v {
        JsonV::Obj(ms) => {
            match (spec_req_str(ms, "object"@), spec_req_str(ms, "id"@), spec_req_str(
                ms,
                "name"@,
            ), spec_opt_str(ms, "folderId"@), spec_opt_str(ms, "organizationId"@), spec_opt_str(
                ms,
                "notes"@,
            ), spec_req_str(ms, "revisionDate"@)) {
                (
                    Some(object),
                    Some(id),
                    Some(name),
                    Some(folder_id),
                    Some(organization_id),
                    Some(notes),
                    Some(revision_date),
                ) => {
                    let type_parsed = match spec_obj_get(ms, "type"@) {
                        Some(JsonV::Num(lex)) => spec_parse_i32(lex),
                        _ => None,
                    };
                    let favorite_parsed = match spec_obj_get(ms, "favorite"@) {
                        Some(JsonV::Bool(b)) => Some(b),
                        _ => None,
                    };
                    let login_parsed = match spec_obj_get(ms, "login"@) {
                        None => Some(None),
                        Some(JsonV::Null) => Some(None),
                        Some(lv) => match spec_login_of_json(lv) {
                            Some(l) => Some(Some(l)),
                            None => None,
                        },
                    };
                    let ids_parsed = match spec_obj_get(ms, "collectionIds"@) {
                        Some(JsonV::Arr(ivs)) => spec_str_list(ivs),
                        _ => None,
                    };
                    match (type_parsed, favorite_parsed, login_parsed, ids_parsed) {
                        (Some(type_), Some(favorite), Some(login), Some(collection_ids)) => Some(
                            ItemV {
                                object,
                                id,
                                name,
                                folder_id,
                                organization_id,
                                type_,
                                notes,
                                favorite,
                                login,
                                collection_ids,
                                revision_date,
                            },
                        ),
                        _ => None,
                    }
                },
                _ => None,
            }
        },
        _ => None,
    }
}

/// The string list a JSON array stands for.
pub open spec fn spec_str_list(vs: Seq<JsonV>) -> Option<Seq<Seq<char>>>
    decreases vs.len(),
{
    if vs.len() == 0 {
        Some(Seq::empty())
    } else {
        match vs[0] {
            JsonV::Str(x) => match spec_str_list(vs.drop_first()) {
                Some(xs) => Some(seq![x] + xs),
                None => None,
            },
            _ => None,
        }
    }
}

fn str_list_of_json(vs: &Vec<Json>) -> (r: Option<Vec<String>>)
    ensures
        match r {
            Some(xs) => spec_str_list(json_arr_view(vs@)) == Some(xs.deep_view()),
            None => spec_str_list(json_arr_view(vs@)) is None,
        },
{
    let ghost whole = json_arr_view(vs@);
    proof {
        lemma_arr_view(vs@);
    }
    let n = vs.len();
    let mut out: Vec<String> = Vec::new();
    let mut i: usize = 0;
    proof {
        assert(whole.skip(0) =~= whole);
    }
    while i < n
        invariant
            n == vs@.len(),
            whole == json_arr_view(vs@),
            whole.len() == n,
            forall|t: int| 0 <= t < n ==> whole[t] == json_view(vs@[t]),
            i <= n,
            match spec_str_list(whole.skip(i as int)) {
                Some(rest) => spec_str_list(whole) == Some(out.deep_view() + rest),
                None => spec_str_list(whole) is None,
            },
        decreases n - i,
    {
        let ghost suffix = whole.skip(i as int);
        proof {
            assert(suffix[0] == whole[i as int]);
            assert(suffix.drop_first() =~= whole.skip(i as int + 1));
        }
        match &vs[i] {
            Json::Str(x) => {
                let ghost old_out = out.deep_view();
                let xx = x.clone();
                let ghost xv = xx@;
                out.push(xx);
                proof {
                    assert(out.deep_view() =~= old_out.push(xv));
                    if spec_str_list(whole.skip(i as int + 1)) is Some {
                        let rest2 = spec_str_list(whole.skip(i as int + 1))->Some_0;
                        assert(spec_str_list(suffix) == Some(seq![xv] + rest2));
                        assert(old_out.push(xv) + rest2 =~= old_out + (seq![xv] + rest2));
                    }
                }
            },
            _ => {
                return None;
            },
        }
        i += 1;
    }
    proof {
        assert(whole.skip(n as int) =~= Seq::<JsonV>::empty());
        assert(spec_str_list(whole) == Some(out.deep_view() + Seq::<Seq<char>>::empty()));
        assert(out.deep_view() + Seq::<Seq<char>>::empty() =~= out.deep_view());
    }
    Some(out)
}

fn bw_item_of_json(v: &Json) -> (r: Option<Item>)
    ensures
        match r {
            Some(it) => spec_bw_item_of_json(v@) == Some(it@),
            None => spec_bw_item_of_json(v@) is None,
        },
{
    match v {
        Json::Obj(ms) => {
            let object = match req_str(ms, "object") {
                Some(x) => x,
                None => {
                    return None;
                },
            };
            let id = match req_str(ms, "id") {
                Some(x) => x,
                None => {
                    return None;
                },
            };
            let name = match req_str(ms, "name") {
                Some(x) => x,
                None => {
                    return None;
                },
            };
            let folder_id = match opt_str(ms, "folderId") {
                Some(x) => x,
                None => {
                    return None;
                },
            };
            let organization_id = match opt_str(ms, "organizationId") {
                Some(x) => x,
                None => {
                    return None;
                },
            };
            let notes = match opt_str(ms, "notes") {
                Some(x) => x,
                None => {
                    return None;
                },
            };
            let revision_date = match req_str(ms, "revisionDate") {
                Some(x) => x,
                None => {
                    return None;
                },
            };
            let type_ = match obj_get(ms, "type") {
                Some(Json::Num(lex)) => match parse_i32(lex.as_str()) {
                    Some(t) => t,
                    None => {
                        return None;
                    },
                },
                _ => {
                    return None;
                },
            };
            let favorite = match obj_get(ms, "favorite") {
                Some(Json::Bool(b)) => *b,
                _ => {
                    return None;
                },
            };
            let login = match obj_get(ms, "login") {
                None => None,
                Some(Json::Null) => None,
                Some(lv) => match login_of_json(lv) {
                    Some(l) => Some(l),
                    None => {
                        return None;
                    },
                },
            };
            let collection_ids = match obj_get(ms, "collectionIds") {
                Some(Json::Arr(ivs)) => match str_list_of_json(ivs) {
                    Some(ids) => ids,
                    None => {
                        return None;
                    },
                },
                _ => {
                    return None;
                },
            };
            Some(
                Item {
                    object,
                    id,
                    name,
                    folder_id,
                    organization_id,
                    type_,
                    notes,
                    favorite,
                    login,
                    collection_ids,
                    revision_date,
                },
            )
        },
        _ => None,
    }
}

/// The folder list a JSON array stands for.
pub open spec fn spec_folders_of_json(vs: Seq<JsonV>) -> Option<Seq<FolderV>>
    decreases vs.len(),
{
    if vs.len() == 0 {
        Some(Seq::empty())
    } else {
        match spec_folder_of_json(vs[0]) {
            Some(f) => match spec_folders_of_json(vs.drop_first()) {
                Some(fs) => Some(seq![f] + fs),
                None => None,
            },
            None => None,
        }
    }
}

/// The raw item list a JSON array stands for.
pub open spec fn spec_bw_items_of_json(vs: Seq<JsonV>) -> Option<Seq<ItemV>>
    decreases vs.len(),
{
    if vs.len() == 0 {
        Some(Seq::empty())
    } else {
        match spec_bw_item_of_json(vs[0]) {
            Some(it) => match spec_bw_items_of_json(vs.drop_first()) {
                Some(its) => Some(seq![it] + its),
                None => None,
            },
            None => None,
        }
    }
}

/// What the status subcommand's output means: the status record, or a
/// protocol error carrying a bounded excerpt.
pub open spec fn spec_status_result(out: Seq<char>) -> Result<StatusV, ErrorV> {
    match spec_parse_json(out) {
        Some(v) => match spec_status_of_json(v) {
            Some(st) => Ok(st),
            None => Err(ErrorV::ProtocolError(spec_excerpt(out))),
        },
        None => Err(ErrorV::ProtocolError(spec_excerpt(out))),
    }
}

/// What the status output says about being unlocked: true exactly when
/// the reported status is the literal unlocked state.
pub open spec fn spec_is_unlocked(out: Seq<char>) -> Result<bool, ErrorV> {
    match spec_status_result(out) {
        Ok(st) => Ok(st.status == "unlocked"@),
        Err(e) => Err(e),
    }
}

/// What the folder-listing output means.
pub open spec fn spec_list_folders(out: Seq<char>) -> Result<Seq<FolderV>, ErrorV> {
    match spec_parse_json(out) {
        Some(JsonV::Arr(vs)) => match spec_folders_of_json(vs) {
            Some(fs) => Ok(fs),
            None => Err(ErrorV::ProtocolError(spec_excerpt(out))),
        },
        _ => Err(ErrorV::ProtocolError(spec_excerpt(out))),
    }
}

/// What the item-listing output means.
pub open spec fn spec_list_items(out: Seq<char>) -> Result<Seq<ItemV>, ErrorV> {
    match spec_parse_json(out) {
        Some(JsonV::Arr(vs)) => match spec_bw_items_of_json(vs) {
            Some(its) => Ok(its),
            None => Err(ErrorV::ProtocolError(spec_excerpt(out))),
        },
        _ => Err(ErrorV::ProtocolError(spec_excerpt(out))),
    }
}

impl Session {
    /// Classifies the status subcommand's output.
    pub fn status(&self, output: &str) -> (r: Result<Status, Error>)
        ensures
            match r {
                Ok(st) => spec_status_result(output@) == Ok::<StatusV, ErrorV>(st@),
                Err(e) => spec_status_result(output@) == Err::<StatusV, ErrorV>(e@),
            },
    {
        let parsed = match parse_json(output) {
            Some(v) => v,
            None => {
                return Err(Error::ProtocolError(excerpt(output)));
            },
        };
        match status_of_json(&parsed) {
            Some(st) => Ok(st),
            None => Err(Error::ProtocolError(excerpt(output))),
        }
    }

    /// Whether the status output reports the vault as unlocked: true iff
    /// the status field equals the backend's literal unlocked state.
    pub fn is_unlocked(&self, output: &str) -> (r: Result<bool, Error>)
        ensures
            match r {
                Ok(b) => spec_is_unlocked(output@) == Ok::<bool, ErrorV>(b),
                Err(e) => spec_is_unlocked(output@) == Err::<bool, ErrorV>(e@),
            },
    {
        match self.status(output) {
            Ok(st) => Ok(str_eq(st.status.as_str(), "unlocked")),
            Err(e) => Err(e),
        }
    }

    /// Classifies the sync subcommand's output: any well-formed JSON is a
    /// success and its content is ignored.
    pub fn sync(&self, output: &str) -> (r: Result<(), Error>)
        ensures
            match r {
                Ok(()) => spec_parse_json(output@) is Some,
                Err(e) => spec_parse_json(output@) is None && e@ == ErrorV::ProtocolError(
                    spec_excerpt(output@),
                ),
            },
    {
        match parse_json(output) {
            Some(_) => Ok(()),
            None => Err(Error::ProtocolError(excerpt(output))),
        }
    }

    /// Classifies the folder-listing output.
    pub fn list_folders(&self, output: &str) -> (r: Result<Vec<Folder>, Error>)
        ensures
            match r {
                Ok(fs) => spec_list_folders(output@) == Ok::<Seq<FolderV>, ErrorV>(fs.deep_view()),
                Err(e) => spec_list_folders(output@) == Err::<Seq<FolderV>, ErrorV>(e@),
            },
    {
        let parsed = match parse_json(output) {
            Some(v) => v,
            None => {
                return Err(Error::ProtocolError(excerpt(output)));
            },
        };
        match &parsed {
            Json::Arr(vs) => {
                let ghost whole = json_arr_view(vs@);
                proof {
                    assert(parsed@ == JsonV::Arr(whole));
                    lemma_arr_view(vs@);
                }
                let n = vs.len();
                let mut out: Vec<Folder> = Vec::new();
                let mut i: usize = 0;
                proof {
                    assert(whole.skip(0) =~= whole);
                }
                while i < n
                    invariant
                        n == vs@.len(),
                        whole == json_arr_view(vs@),
                        whole.len() == n,
                        parsed@ == JsonV::Arr(whole),
                        spec_parse_json(output@) == Some(parsed@),
                        forall|t: int| 0 <= t < n ==> whole[t] == json_view(vs@[t]),
                        i <= n,
                        match spec_folders_of_json(whole.skip(i as int)) {
                            Some(rest) => spec_folders_of_json(whole) == Some(
                                out.deep_view() + rest,
                            ),
                            None => spec_folders_of_json(whole) is None,
                        },
                    decreases n - i,
                {
                    let ghost suffix = whole.skip(i as int);
                    proof {
                        assert(suffix[0] == whole[i as int]);
                        assert(suffix.drop_first() =~= whole.skip(i as int + 1));
                    }
                    match folder_of_json(&vs[i]) {
                        Some(f) => {
                            let ghost old_out = out.deep_view();
                            let ghost fv = f@;
                            out.push(f);
                            proof {
                                assert(out.deep_view() =~= old_out.push(fv));
                                if spec_folders_of_json(whole.skip(i as int + 1)) is Some {
                                    let rest2 = spec_folders_of_json(
                                        whole.skip(i as int + 1),
                                    )->Some_0;
                                    assert(spec_folders_of_json(suffix) == Some(
                                        seq![fv] + rest2,
                                    ));
                                    assert(old_out.push(fv) + rest2 =~= old_out + (seq![fv]
                                        + rest2));
                                }
                            }
                        },
                        None => {
                            proof {
                                assert(spec_folders_of_json(suffix) is None);
                                assert(spec_folders_of_json(whole) is None);
                            }
                            return Err(Error::ProtocolError(excerpt(output)));
                        },
                    }
                    i += 1;
                }
                proof {
                    assert(whole.skip(n as int) =~= Seq::<JsonV>::empty());
                    assert(spec_folders_of_json(whole) == Some(
                        out.deep_view() + Seq::<FolderV>::empty(),
                    ));
                    assert(out.deep_view() + Seq::<FolderV>::empty() =~= out.deep_view());
                }
                Ok(out)
            },
            _ => Err(Error::ProtocolError(excerpt(output))),
        }
    }

    /// Classifies the item-listing output.
    pub fn list_items(&self, output: &str) -> (r: Result<Vec<Item>, Error>)
        ensures
            match r {
                Ok(its) => spec_list_items(output@) == Ok::<Seq<ItemV>, ErrorV>(its.deep_view()),
                Err(e) => spec_list_items(output@) == Err::<Seq<ItemV>, ErrorV>(e@),
            },
    {
        let parsed = match parse_json(output) {
            Some(v) => v,
            None => {
                return Err(Error::ProtocolError(excerpt(output)));
            },
        };
        match &parsed {
            Json::Arr(vs) => {
                let ghost whole = json_arr_view(vs@);
                proof {
                    assert(parsed@ == JsonV::Arr(whole));
                    lemma_arr_view(vs@);
                }
                let n = vs.len();
                let mut out: Vec<Item> = Vec::new();
                let mut i: usize = 0;
                proof {
                    assert(whole.skip(0) =~= whole);
                }
                while i < n
                    invariant
                        n == vs@.len(),
                        whole == json_arr_view(vs@),
                        whole.len() == n,
                        parsed@ == JsonV::Arr(whole),
                        spec_parse_json(output@) == Some(parsed@),
                        forall|t: int| 0 <= t < n ==> whole[t] == json_view(vs@[t]),
                        i <= n,
                        match spec_bw_items_of_json(whole.skip(i as int)) {
                            Some(rest) => spec_bw_items_of_json(whole) == Some(
                                out.deep_view() + rest,
                            ),
                            None => spec_bw_items_of_json(whole) is None,
                        },
                    decreases n - i,
                {
                    let ghost suffix = whole.skip(i as int);
                    proof {
                        assert(suffix[0] == whole[i as int]);
                        assert(suffix.drop_first() =~= whole.skip(i as int + 1));
                    }
                    match bw_item_of_json(&vs[i]) {
                        Some(it) => {
                            let ghost old_out = out.deep_view();
                            let ghost itv = it@;
                            out.push(it);
                            proof {
                                assert(out.deep_view() =~= old_out.push(itv));
                                if spec_bw_items_of_json(whole.skip(i as int + 1)) is Some {
                                    let rest2 = spec_bw_items_of_json(
                                        whole.skip(i as int + 1),
                                    )->Some_0;
                                    assert(spec_bw_items_of_json(suffix) == Some(
                                        seq![itv] + rest2,
                                    ));
                                    assert(old_out.push(itv) + rest2 =~= old_out + (seq![itv]
                                        + rest2));
                                }
                            }
                        },
                        None => {
                            proof {
                                assert(spec_bw_items_of_json(suffix) is None);
                                assert(spec_bw_items_of_json(whole) is None);
                            }
                            return Err(Error::ProtocolError(excerpt(output)));
                        },
                    }
                    i += 1;
                }
                proof {
                    assert(whole.skip(n as int) =~= Seq::<JsonV>::empty());
                    assert(spec_bw_items_of_json(whole) == Some(
                        out.deep_view() + Seq::<ItemV>::empty(),
                    ));
                    assert(out.deep_view() + Seq::<ItemV>::empty() =~= out.deep_view());
                }
                Ok(out)
            },
            _ => Err(Error::ProtocolError(excerpt(output))),
        }
    }
}

} // verus!
