//! The vault-backed provider: normalizing raw vault records into the
//! common item model, deciding which field read to issue, and the
//! session-acquisition flow.  The flow is a state machine from events to
//! actions: the caller performs each action (credential-store lookup,
//! status probe, password prompt, unlock, token persistence) and feeds the
//! outcome back in, so every decision in the re-authentication policy is
//! verified here while the I/O stays outside.
use vstd::prelude::*;
use crate::bitwarden::{
    Error, ErrorV, Folder, FolderV, ItemV as BwItemV, LoginV, Session, VaultRequest,
    spec_classify_output, spec_is_unlocked, spec_list_folders, spec_list_items,
};
use crate::item::{Field, FieldV, Item, ItemV};
use crate::provider::{ProviderError, ProviderErrorV};
use crate::text::{join_char, spec_join, spec_split, split_char};

verus! {

/// Configuration of the vault-backed provider.
#[derive(Debug, Clone)]
pub struct Config {
    pub cache: bool,
}

/// The vault-backed provider's own state: its instance name, the session
/// once one is acquired, and its configuration.
pub struct Bitwarden {
    pub id: String,
    pub session: Option<Session>,
    pub config: Config,
}

impl Bitwarden {
    /// Builds the provider; no session is held until one is acquired.
    pub fn new(id: &str, config: Config) -> (r: Bitwarden)
        ensures
            r.id@ == id@,
            r.session is None,
            r.config.cache == config.cache,
    {
        Bitwarden { id: String::from_str(id), session: None, config }
    }
}

/// The service name the session token is stored under.
pub fn keyring_service() -> (r: &'static str)
    ensures
        r@ == "bitwarden_rofi"@,
{
    "bitwarden_rofi"
}

/// The account name the session token is stored under.
pub fn keyring_account() -> (r: &'static str)
    ensures
        r@ == "BW_SESSION"@,
{
    "BW_SESSION"
}

/// The subcommand field name a capability tag maps to.
pub open spec fn spec_field_name(f: FieldV) -> Seq<char> {
    match f {
        FieldV::Username => "username"@,
        FieldV::Password => "password"@,
        FieldV::Totp => "totp"@,
        FieldV::Other(name) => name,
    }
}

/// Maps a capability tag to the vault's field name.
pub fn field_name(f: &Field) -> (r: String)
    ensures
        r@ == spec_field_name(f@),
{
    match f {
        Field::Username => String::from_str("username"),
        Field::Password => String::from_str("password"),
        Field::Totp => String::from_str("totp"),
        Field::Other(name) => name.clone(),
    }
}

/// The name of the last folder whose identifier matches, if any; a later
/// listing entry shadows an earlier one with the same identifier.
pub open spec fn spec_find_folder(folders: Seq<FolderV>, fid: Seq<char>) -> Option<Seq<char>>
    decreases folders.len(),
{
    if folders.len() == 0 {
        None
    } else if folders.last().id == Some(fid) {
        Some(folders.last().name)
    } else {
        spec_find_folder(folders.drop_last(), fid)
    }
}

/// The folder path of an item: no folder association or a dangling folder
/// reference yields the empty path, a resolved folder contributes its
/// name split on `/`.
pub open spec fn spec_folder_path(folders: Seq<FolderV>, folder_id: Option<Seq<char>>) -> Seq<
    Seq<char>,
> {
    match folder_id {
        None => Seq::empty(),
        Some(fid) => match spec_find_folder(folders, fid) {
            None => Seq::empty(),
            Some(name) => spec_split(name, '/'),
        },
    }
}

/// The capability tags a login confirms: a tag is declared exactly when
/// the listing showed the corresponding secret to exist.
pub open spec fn spec_login_fields(login: Option<LoginV>) -> Seq<FieldV> {
    match login {
        None => Seq::empty(),
        Some(l) => (if l.username is Some {
            seq![FieldV::Username]
        } else {
            Seq::empty()
        }) + (if l.password is Some {
            seq![FieldV::Password]
        } else {
            Seq::empty()
        }) + (if l.totp is Some {
            seq![FieldV::Totp]
        } else {
            Seq::empty()
        }),
    }
}

/// One normalized item: the raw identifier, the folder path joined with
/// the entry name as the title, and the confirmed capability tags.
pub open spec fn spec_normalize_item(folders: Seq<FolderV>, it: BwItemV) -> ItemV {
    ItemV {
        id: it.id,
        title: spec_join(spec_folder_path(folders, it.folder_id).push(it.name), '/'),
        fields: spec_login_fields(it.login),
    }
}

/// The whole normalized listing, in the raw listing's order.
pub open spec fn spec_normalize(folders: Seq<FolderV>, raw: Seq<BwItemV>) -> Seq<ItemV> {
    Seq::new(raw.len(), |i: int| spec_normalize_item(folders, raw[i]))
}

fn find_folder(folders: &Vec<Folder>, fid: &str) -> (r: Option<String>)
    ensures
        match r {
            Some(name) => spec_find_folder(folders.deep_view(), fid@) == Some(name@),
            None => spec_find_folder(folders.deep_view(), fid@) is None,
        },
{
    let ghost fv = folders.deep_view();
    let n = folders.len();
    let mut found: Option<String> = None;
    let mut i: usize = 0;
    proof {
        assert(fv.take(0) =~= Seq::<FolderV>::empty());
    }
    while i < n
        invariant
            n == folders@.len(),
            fv == folders.deep_view(),
            fv.len() == n,
            i <= n,
            match found {
                Some(ref name) => spec_find_folder(fv.take(i as int), fid@) == Some(name@),
                None => spec_find_folder(fv.take(i as int), fid@) is None,
            },
        decreases n - i,
    {
        proof {
            assert(fv.take(i as int + 1).last() == fv[i as int]);
            assert(fv.take(i as int + 1).drop_last() =~= fv.take(i as int));
            assert(fv[i as int] == folders@[i as int]@);
        }
        let matched = match &folders[i].id {
            Some(id) => crate::text::str_eq(id.as_str(), fid),
            None => false,
        };
        if matched {
            found = Some(folders[i].name.clone());
        }
        i += 1;
    }
    proof {
        assert(fv.take(n as int) =~= fv);
    }
    found
}

/// Projects the raw listings into the normalized item model.  A broken
/// folder link never fails the listing: it only empties that item's path.
pub fn normalize_items(folders: &Vec<Folder>, raw: &Vec<crate::bitwarden::Item>) -> (r: Vec<Item>)
    ensures
        r.deep_view() == spec_normalize(folders.deep_view(), raw.deep_view()),
{
    let ghost fv = folders.deep_view();
    let ghost rv = raw.deep_view();
    let n = raw.len();
    let mut out: Vec<Item> = Vec::new();
    let mut i: usize = 0;
    while i < n
        invariant
            n == raw@.len(),
            fv == folders.deep_view(),
            rv == raw.deep_view(),
            rv.len() == n,
            i <= n,
            out.deep_view() =~= spec_normalize(fv, rv).take(i as int),
        decreases n - i,
    {
        let it = &raw[i];
        proof {
            assert(rv[i as int] == raw@[i as int]@);
        }
        let mut parts: Vec<String> = match &it.folder_id {
            None => Vec::new(),
            Some(fid) => match find_folder(folders, fid.as_str()) {
                None => Vec::new(),
                Some(name) => split_char(name.as_str(), '/'),
            },
        };
        proof {
            assert(parts.deep_view() =~= spec_folder_path(fv, rv[i as int].folder_id));
        }
        let ghost path = parts.deep_view();
        parts.push(it.name.clone());
        proof {
            assert(parts.deep_view() =~= path.push(rv[i as int].name));
        }
        let title = join_char(&parts, '/');
        let mut fields: Vec<Field> = Vec::new();
        match &it.login {
            Some(login) => {
                if login.username.is_some() {
                    fields.push(Field::Username);
                }
                if login.password.is_some() {
                    fields.push(Field::Password);
                }
                if login.totp.is_some() {
                    fields.push(Field::Totp);
                }
            },
            None => {},
        }
        proof {
            assert(fields.deep_view() =~= spec_login_fields(rv[i as int].login));
        }
        let item = Item { id: it.id.clone(), title, fields };
        proof {
            assert(item@ == spec_normalize_item(fv, rv[i as int]));
        }
        let ghost old_outv = out.deep_view();
        out.push(item);
        proof {
            assert(out.deep_view() =~= old_outv.push(spec_normalize_item(fv, rv[i as int])));
            assert(spec_normalize(fv, rv).take(i as int + 1) =~= spec_normalize(fv, rv).take(
                i as int,
            ).push(spec_normalize_item(fv, rv[i as int])));
            assert(out.deep_view() =~= spec_normalize(fv, rv).take(i as int + 1));
        }
        i += 1;
    }
    proof {
        assert(spec_normalize(fv, rv).take(n as int) =~= spec_normalize(fv, rv));
    }
    out
}

/// Decides one field read: a field the item never declared is a
/// capability violation; a declared field maps to the exact vault
/// invocation that fetches its plaintext.
pub fn read_field_request(session: &Session, item: &Item, field: &Field) -> (r: Result<
    VaultRequest,
    ProviderError,
>)
    ensures
        match r {
            Ok(req) => crate::item::spec_has_field(item@.fields, field@) && req@.args =~= seq![
                "get"@,
                spec_field_name(field@),
                item@.id,
            ] && req@.stdin is None && req@.use_token == true,
            Err(e) => !crate::item::spec_has_field(item@.fields, field@) && e@
                == ProviderErrorV::CapabilityViolation,
        },
{
    if !item.has_field(field) {
        return Err(ProviderError::CapabilityViolation);
    }
    let name = field_name(field);
    Ok(session.get_request(name.as_str(), item.id.as_str()))
}

/// Spec-level model of a [`FlowState`].
pub enum FlowStateV {
    Start,
    Probing(Seq<char>),
    Prompting,
    Unlocking,
    Ready(Seq<char>),
    Cancelled,
    Failed(ErrorV),
}

/// Where the session-acquisition flow stands: not yet begun, probing a
/// stored token, waiting for the master password, waiting for the unlock
/// subcommand, holding a verified token, cancelled by the user, or failed.
#[derive(Debug)]
pub enum FlowState {
    Start,
    Probing(String),
    Prompting,
    Unlocking,
    Ready(String),
    Cancelled,
    Failed(Error),
}

impl View for FlowState {
    type V = FlowStateV;

    open spec fn view(&self) -> FlowStateV {
        match self {
            FlowState::Start => FlowStateV::Start,
            FlowState::Probing(t) => FlowStateV::Probing(t@),
            FlowState::Prompting => FlowStateV::Prompting,
            FlowState::Unlocking => FlowStateV::Unlocking,
            FlowState::Ready(t) => FlowStateV::Ready(t@),
            FlowState::Cancelled => FlowStateV::Cancelled,
            FlowState::Failed(e) => FlowStateV::Failed(e@),
        }
    }
}

/// Spec-level model of a [`FlowEvent`].
pub enum FlowEventV {
    StoredToken(Option<Seq<char>>),
    ProbeOutput(Seq<u8>),
    PasswordEntered(Option<Seq<char>>),
    UnlockOutput(Seq<u8>),
}

/// What the outside world reports back into the flow: the credential
/// store's answer, the raw status output, the password prompt's outcome
/// (`None` is a cancellation), or the raw unlock output.
#[derive(Debug)]
pub enum FlowEvent {
    StoredToken(Option<String>),
    ProbeOutput(Vec<u8>),
    PasswordEntered(Option<String>),
    UnlockOutput(Vec<u8>),
}

impl View for FlowEvent {
    type V = FlowEventV;

    open spec fn view(&self) -> FlowEventV {
        match self {
            FlowEvent::StoredToken(Some(t)) => FlowEventV::StoredToken(Some(t@)),
            FlowEvent::StoredToken(None) => FlowEventV::StoredToken(None),
            FlowEvent::ProbeOutput(b) => FlowEventV::ProbeOutput(b@),
            FlowEvent::PasswordEntered(Some(p)) => FlowEventV::PasswordEntered(Some(p@)),
            FlowEvent::PasswordEntered(None) => FlowEventV::PasswordEntered(None),
            FlowEvent::UnlockOutput(b) => FlowEventV::UnlockOutput(b@),
        }
    }
}

/// Spec-level model of a [`FlowAction`].
pub enum FlowActionV {
    FetchStoredToken,
    RunStatus(Seq<char>),
    PromptPassword,
    RunUnlock(Seq<char>),
    StoreToken { service: Seq<char>, account: Seq<char>, token: Seq<char> },
    Done,
    Fail,
    Nothing,
}

/// What the caller must do next: look the token up in the credential
/// store, run the status probe under a token, prompt for the master
/// password in masking mode, run the unlock subcommand with a password,
/// persist a fresh token under the fixed service and account pair, stop
/// with a session, stop without one, or nothing (the event did not apply).
#[derive(Debug)]
pub enum FlowAction {
    FetchStoredToken,
    RunStatus(String),
    PromptPassword,
    RunUnlock(String),
    StoreToken { service: String, account: String, token: String },
    Done,
    Fail,
    Nothing,
}

impl View for FlowAction {
    type V = FlowActionV;

    open spec fn view(&self) -> FlowActionV {
        match self {
            FlowAction::FetchStoredToken => FlowActionV::FetchStoredToken,
            FlowAction::RunStatus(t) => FlowActionV::RunStatus(t@),
            FlowAction::PromptPassword => FlowActionV::PromptPassword,
            FlowAction::RunUnlock(p) => FlowActionV::RunUnlock(p@),
            FlowAction::StoreToken { service, account, token } => FlowActionV::StoreToken {
                service: service@,
                account: account@,
                token: token@,
            },
            FlowAction::Done => FlowActionV::Done,
            FlowAction::Fail => FlowActionV::Fail,
            FlowAction::Nothing => FlowActionV::Nothing,
        }
    }
}

/// The whole re-authentication policy, one transition at a time: a stored
/// token is probed before it is trusted; a locked or undecryptable answer
/// falls through to one interactive unlock; a fresh token is persisted
/// under the fixed service and account pair; an event that does not fit
/// the state changes nothing.
pub open spec fn spec_flow_step(s: FlowStateV, e: FlowEventV) -> (FlowStateV, FlowActionV) {
    match (s, e) {
        (FlowStateV::Start, FlowEventV::StoredToken(Some(t))) => (
            FlowStateV::Probing(t),
            FlowActionV::RunStatus(t),
        ),
        (FlowStateV::Start, FlowEventV::StoredToken(None)) => (
            FlowStateV::Prompting,
            FlowActionV::PromptPassword,
        ),
        (FlowStateV::Probing(t), FlowEventV::ProbeOutput(b)) => match spec_classify_output(b) {
            Err(ErrorV::FailedToDecrypt) => (FlowStateV::Prompting, FlowActionV::PromptPassword),
            Err(e2) => (FlowStateV::Failed(e2), FlowActionV::Fail),
            Ok(text) => match spec_is_unlocked(text) {
                Ok(true) => (FlowStateV::Ready(t), FlowActionV::Done),
                Ok(false) => (FlowStateV::Prompting, FlowActionV::PromptPassword),
                Err(e2) => (FlowStateV::Failed(e2), FlowActionV::Fail),
            },
        },
        (FlowStateV::Prompting, FlowEventV::PasswordEntered(Some(pw))) => (
            FlowStateV::Unlocking,
            FlowActionV::RunUnlock(pw),
        ),
        (FlowStateV::Prompting, FlowEventV::PasswordEntered(None)) => (
            FlowStateV::Cancelled,
            FlowActionV::Fail,
        ),
        (FlowStateV::Unlocking, FlowEventV::UnlockOutput(b)) => match spec_classify_output(b) {
            Err(e2) => (FlowStateV::Failed(e2), FlowActionV::Fail),
            Ok(text) => if text.len() == 0 {
                (FlowStateV::Failed(ErrorV::UnlockFailed), FlowActionV::Fail)
            } else {
                (
                    FlowStateV::Ready(text),
                    FlowActionV::StoreToken {
                        service: "bitwarden_rofi"@,
                        account: "BW_SESSION"@,
                        token: text,
                    },
                )
            },
        },
        (s2, _) => (s2, FlowActionV::Nothing),
    }
}

/// Begins the flow: the first thing to do is ask the credential store.
pub fn flow_start() -> (r: (FlowState, FlowAction))
    ensures
        r.0@ == FlowStateV::Start,
        r.1@ == FlowActionV::FetchStoredToken,
{
    (FlowState::Start, FlowAction::FetchStoredToken)
}

/// Advances the flow by one event, returning the next state and the
/// action the caller must perform.
pub fn flow_step(state: FlowState, event: FlowEvent) -> (r: (FlowState, FlowAction))
    ensures
        r.0@ == spec_flow_step(state@, event@).0,
        r.1@ == spec_flow_step(state@, event@).1,
{
    match (state, event) {
        (FlowState::Start, FlowEvent::StoredToken(Some(t))) => {
            let probe = t.clone();
            (FlowState::Probing(t), FlowAction::RunStatus(probe))
        },
        (FlowState::Start, FlowEvent::StoredToken(None)) => (
            FlowState::Prompting,
            FlowAction::PromptPassword,
        ),
        (FlowState::Probing(t), FlowEvent::ProbeOutput(b)) => {
            match Session::decode_output(b) {
                Err(Error::FailedToDecrypt) => (FlowState::Prompting, FlowAction::PromptPassword),
                Err(e2) => {
                    proof {
                        assert(!(e2@ is FailedToDecrypt));
                    }
                    (FlowState::Failed(e2), FlowAction::Fail)
                },
                Ok(text) => {
                    let sess = Session { key: t };
                    match sess.is_unlocked(text.as_str()) {
                        Ok(true) => (FlowState::Ready(sess.key), FlowAction::Done),
                        Ok(false) => (FlowState::Prompting, FlowAction::PromptPassword),
                        Err(e2) => (FlowState::Failed(e2), FlowAction::Fail),
                    }
                },
            }
        },
        (FlowState::Prompting, FlowEvent::PasswordEntered(Some(pw))) => (
            FlowState::Unlocking,
            FlowAction::RunUnlock(pw),
        ),
        (FlowState::Prompting, FlowEvent::PasswordEntered(None)) => (
            FlowState::Cancelled,
            FlowAction::Fail,
        ),
        (FlowState::Unlocking, FlowEvent::UnlockOutput(b)) => {
            match Session::decode_output(b) {
                Err(e2) => (FlowState::Failed(e2), FlowAction::Fail),
                Ok(text) => {
                    match Session::unlock(text.as_str()) {
                        Err(e2) => (FlowState::Failed(e2), FlowAction::Fail),
                        Ok(sess) => {
                            let token = sess.key;
                            let stored = token.clone();
                            (
                                FlowState::Ready(token),
                                FlowAction::StoreToken {
                                    service: String::from_str("bitwarden_rofi"),
                                    account: String::from_str("BW_SESSION"),
                                    token: stored,
                                },
                            )
                        },
                    }
                },
            }
        },
        (s2, _) => (s2, FlowAction::Nothing),
    }
}

/// A vault that answers the status probe with anything but the unlocked
/// state sends the flow to the interactive unlock prompt.
pub proof fn lemma_locked_probe_prompts(t: Seq<char>, b: Seq<u8>)
    requires
        spec_classify_output(b) is Ok,
        spec_is_unlocked(spec_classify_output(b)->Ok_0) == Ok::<bool, ErrorV>(false),
    ensures
        spec_flow_step(FlowStateV::Probing(t), FlowEventV::ProbeOutput(b)) == (
            FlowStateV::Prompting,
            FlowActionV::PromptPassword,
        ),
{
}

/// A successful unlock makes the fresh token the session and persists it
/// under the fixed service and account pair.
pub proof fn lemma_unlock_persists_token(b: Seq<u8>)
    requires
        spec_classify_output(b) is Ok,
        spec_classify_output(b)->Ok_0.len() > 0,
    ensures
        spec_flow_step(FlowStateV::Unlocking, FlowEventV::UnlockOutput(b)) == (
            FlowStateV::Ready(spec_classify_output(b)->Ok_0),
            FlowActionV::StoreToken {
                service: "bitwarden_rofi"@,
                account: "BW_SESSION"@,
                token: spec_classify_output(b)->Ok_0,
            },
        ),
{
}

/// A failed flow stays failed: no event revives it, so a fresh unlock
/// must begin a new flow.
pub proof fn lemma_failed_is_terminal(e: ErrorV, ev: FlowEventV)
    ensures
        spec_flow_step(FlowStateV::Failed(e), ev) == (
            FlowStateV::Failed(e),
            FlowActionV::Nothing,
        ),
{
}

/// An empty unlock answer never becomes a session: the flow fails with
/// the rejected-password error instead.
pub proof fn lemma_empty_unlock_fails(b: Seq<u8>)
    requires
        spec_classify_output(b) is Ok,
        spec_classify_output(b)->Ok_0.len() == 0,
    ensures
        spec_flow_step(FlowStateV::Unlocking, FlowEventV::UnlockOutput(b)) == (
            FlowStateV::Failed(ErrorV::UnlockFailed),
            FlowActionV::Fail,
        ),
{
}

/// What one whole listing yields from the two raw outputs: the normalized
/// items, or the first classification error.
pub open spec fn spec_listing(folders_out: Seq<char>, items_out: Seq<char>) -> Result<
    Seq<ItemV>,
    ErrorV,
> {
    match spec_list_folders(folders_out) {
        Err(e) => Err(e),
        Ok(fs) => match spec_list_items(items_out) {
            Err(e) => Err(e),
            Ok(raw) => Ok(spec_normalize(fs, raw)),
        },
    }
}

/// Turns the raw outputs of the folder and item listings into the
/// normalized item list the provider returns.
pub fn list_items_from_outputs(session: &Session, folders_out: &str, items_out: &str) -> (r:
    Result<Vec<Item>, Error>)
    ensures
        match r {
            Ok(items) => spec_listing(folders_out@, items_out@) == Ok::<Seq<ItemV>, ErrorV>(
                items.deep_view(),
            ),
            Err(e) => spec_listing(folders_out@, items_out@) == Err::<Seq<ItemV>, ErrorV>(e@),
        },
{
    let folders = match session.list_folders(folders_out) {
        Ok(fs) => fs,
        Err(e) => {
            return Err(e);
        },
    };
    let raw = match session.list_items(items_out) {
        Ok(its) => its,
        Err(e) => {
            return Err(e);
        },
    };
    Ok(normalize_items(&folders, &raw))
}

/// Two listings made from identical vault outputs yield identical item
/// lists: the whole normalization is a function of the raw outputs alone.
pub proof fn lemma_listing_deterministic(
    folders_out1: Seq<char>,
    items_out1: Seq<char>,
    folders_out2: Seq<char>,
    items_out2: Seq<char>,
)
    requires
        folders_out1 == folders_out2,
        items_out1 == items_out2,
    ensures
        spec_listing(folders_out1, items_out1) == spec_listing(folders_out2, items_out2),
{
}

/// An item declares a capability exactly when the listing confirmed the
/// corresponding secret: a username, password or one-time-code tag stands
/// for a present login member, and no `Other` tag is ever declared
/// speculatively.  With [`read_field_request`], every declared field has
/// a read invocation and every undeclared one is refused.
pub proof fn lemma_fields_confirmed(folders: Seq<FolderV>, it: BwItemV)
    ensures
        crate::item::spec_has_field(spec_normalize_item(folders, it).fields, FieldV::Username)
            <==> (it.login matches Some(l) && l.username is Some),
        crate::item::spec_has_field(spec_normalize_item(folders, it).fields, FieldV::Password)
            <==> (it.login matches Some(l) && l.password is Some),
        crate::item::spec_has_field(spec_normalize_item(folders, it).fields, FieldV::Totp) <==> (
        it.login matches Some(l) && l.totp is Some),
        forall|name: Seq<char>|
            !crate::item::spec_has_field(
                spec_normalize_item(folders, it).fields,
                FieldV::Other(name),
            ),
{
    let fields = spec_login_fields(it.login);
    match it.login {
        None => {
            assert(fields.len() == 0);
        },
        Some(l) => {
            let a: Seq<FieldV> = if l.username is Some {
                seq![FieldV::Username]
            } else {
                Seq::empty()
            };
            let b: Seq<FieldV> = if l.password is Some {
                seq![FieldV::Password]
            } else {
                Seq::empty()
            };
            let c: Seq<FieldV> = if l.totp is Some {
                seq![FieldV::Totp]
            } else {
                Seq::empty()
            };
            assert(fields == a + b + c);
            assert(forall|k: int|
                0 <= k < fields.len() ==> fields[k] == FieldV::Username || fields[k]
                    == FieldV::Password || fields[k] == FieldV::Totp);
            if l.username is Some {
                assert(fields[0] == FieldV::Username);
            }
            if l.password is Some {
                assert(fields[a.len() as int] == FieldV::Password);
            }
            if l.totp is Some {
                assert(fields[(a.len() + b.len()) as int] == FieldV::Totp);
            }
            if !(l.username is Some) {
                assert(forall|k: int| 0 <= k < fields.len() ==> fields[k] != FieldV::Username);
            }
            if !(l.password is Some) {
                assert(forall|k: int| 0 <= k < fields.len() ==> fields[k] != FieldV::Password);
            }
            if !(l.totp is Some) {
                assert(forall|k: int| 0 <= k < fields.len() ==> fields[k] != FieldV::Totp);
            }
        },
    }
}

/// Folder resolution never fails a listing: a missing association and a
/// dangling reference both give the empty path, and a resolved folder's
/// path is its name split on `/`.
pub proof fn lemma_folder_resolution(folders: Seq<FolderV>, it: BwItemV)
    ensures
        it.folder_id is None ==> spec_folder_path(folders, it.folder_id) == Seq::<
            Seq<char>,
        >::empty(),
        (it.folder_id matches Some(fid) && spec_find_folder(folders, fid) is None)
            ==> spec_folder_path(folders, it.folder_id) == Seq::<Seq<char>>::empty(),
        (it.folder_id matches Some(fid) && spec_find_folder(folders, fid) is Some)
            ==> spec_folder_path(folders, it.folder_id) == spec_split(
            spec_find_folder(folders, it.folder_id->Some_0)->Some_0,
            '/',
        ),
{
}

} // verus!
