//! The username registry: a bijective mapping between names and
//! accounts. Each account holds at most one name and each name points
//! at exactly one account.

use vstd::prelude::*;

use crate::host::Event;
use crate::host::EventView;
use crate::host::MessageInfo;
use crate::host::Response;
use crate::host::ResponseView;
use crate::strings::str_eq;

verus! {

#[derive(Clone, Debug, PartialEq, Eq)]
pub struct InstantiateMsg {
    pub admin: Option<String>,
    pub min_username_length: Option<u32>,
    pub max_username_length: Option<u32>,
}

#[derive(Clone, Debug, PartialEq, Eq)]
pub enum ExecuteMsg {
    Register { username: String },
    Update { username: String },
    Unregister {},
}

#[derive(Clone, Debug, PartialEq, Eq)]
pub enum QueryMsg {
    Config {},
    Resolve { username: String },
    ReverseLookup { address: String },
    ListUsernames { start_after: Option<String>, limit: Option<u32> },
}

#[derive(Clone, Debug, PartialEq, Eq)]
pub struct ConfigResp {
    pub admin: String,
    pub min_username_length: u32,
    pub max_username_length: u32,
}

pub struct ConfigRespView {
    pub admin: Seq<char>,
    pub min_username_length: u32,
    pub max_username_length: u32,
}

impl View for ConfigResp {
    type V = ConfigRespView;

    open spec fn view(&self) -> ConfigRespView {
        ConfigRespView {
            admin: self.admin@,
            min_username_length: self.min_username_length,
            max_username_length: self.max_username_length,
        }
    }
}

#[derive(Clone, Debug, PartialEq, Eq)]
pub struct UsernameResp {
    pub username: String,
    pub address: String,
    pub registered_at: u64,
}

pub struct UsernameRespView {
    pub username: Seq<char>,
    pub address: Seq<char>,
    pub registered_at: u64,
}

impl View for UsernameResp {
    type V = UsernameRespView;

    open spec fn view(&self) -> UsernameRespView {
        UsernameRespView {
            username: self.username@,
            address: self.address@,
            registered_at: self.registered_at,
        }
    }
}

#[derive(Clone, Debug, PartialEq, Eq)]
pub struct AddressResp {
    pub address: String,
    pub username: String,
    pub registered_at: u64,
}

pub struct AddressRespView {
    pub address: Seq<char>,
    pub username: Seq<char>,
    pub registered_at: u64,
}

impl View for AddressResp {
    type V = AddressRespView;

    open spec fn view(&self) -> AddressRespView {
        AddressRespView {
            address: self.address@,
            username: self.username@,
            registered_at: self.registered_at,
        }
    }
}

#[derive(Clone, Debug, PartialEq, Eq)]
pub struct Config {
    pub admin: String,
    pub min_username_length: u32,
    pub max_username_length: u32,
}

/// One registered name, as it is reported outward.
#[derive(Clone, Debug, PartialEq, Eq)]
pub struct UsernameInfo {
    pub username: String,
    pub address: String,
    pub registered_at: u64,
}

/// One row of the registry: a name and the account holding it.
#[derive(Clone, Debug, PartialEq, Eq)]
pub struct NameEntry {
    pub username: String,
    pub address: String,
}

/// The typed answer of one query dispatch.
#[derive(Clone, Debug, PartialEq, Eq)]
pub enum QueryAnswer {
    Config(ConfigResp),
    Username(UsernameResp),
    Address(AddressResp),
    Usernames(Vec<String>),
}

#[derive(Clone, Debug, PartialEq, Eq)]
pub enum ContractError {
    Std(String),
    Unauthorized,
    UsernameTaken,
    UsernameNotFound,
    AddressHasUsername,
    InvalidUsernameFormat,
    UsernameTooShort,
    UsernameTooLong,
    UsernameInvalidChars,
    NoUsernameRegistered,
}

// ---------------------------------------------------------------------
// Events.
// ---------------------------------------------------------------------
pub open spec fn spec_evt_register_alias(username: Seq<char>, address: Seq<char>) -> EventView {
    EventView {
        name: "seimoney.register_alias"@,
        attributes: seq![("username"@, username), ("address"@, address)],
    }
}

pub fn evt_register_alias(username: &str, address: &str) -> (r: Event)
    ensures
        r@ == spec_evt_register_alias(username@, address@),
{
    let r = Event::new("seimoney.register_alias")
        .add_attribute("username", username.to_owned())
        .add_attribute("address", address.to_owned());
    proof {
        assert(r@.attributes =~= spec_evt_register_alias(username@, address@).attributes);
    }
    r
}

pub open spec fn spec_evt_update_alias(username: Seq<char>, address: Seq<char>) -> EventView {
    EventView {
        name: "seimoney.update_alias"@,
        attributes: seq![("username"@, username), ("address"@, address)],
    }
}

pub fn evt_update_alias(username: &str, address: &str) -> (r: Event)
    ensures
        r@ == spec_evt_update_alias(username@, address@),
{
    let r = Event::new("seimoney.update_alias")
        .add_attribute("username", username.to_owned())
        .add_attribute("address", address.to_owned());
    proof {
        assert(r@.attributes =~= spec_evt_update_alias(username@, address@).attributes);
    }
    r
}

pub open spec fn spec_evt_unregister_alias(username: Seq<char>, address: Seq<char>) -> EventView {
    EventView {
        name: "seimoney.unregister_alias"@,
        attributes: seq![("username"@, username), ("address"@, address)],
    }
}

pub fn evt_unregister_alias(username: &str, address: &str) -> (r: Event)
    ensures
        r@ == spec_evt_unregister_alias(username@, address@),
{
    let r = Event::new("seimoney.unregister_alias")
        .add_attribute("username", username.to_owned())
        .add_attribute("address", address.to_owned());
    proof {
        assert(r@.attributes =~= spec_evt_unregister_alias(username@, address@).attributes);
    }
    r
}

// ---------------------------------------------------------------------
// Username validation.
// ---------------------------------------------------------------------
/// Whether a character counts as alphanumeric under Unicode, exactly
/// as the standard library classifies it.
pub uninterp spec fn is_unicode_alphanumeric(c: char) -> bool;

/// Relies on char::is_alphanumeric: the result depends on the
/// character alone.
#[verifier::external_body]
fn char_is_alphanumeric(c: char) -> (r: bool)
    ensures
        r == is_unicode_alphanumeric(c),
{
    c.is_alphanumeric()
}

/// A name is acceptable when its length lies within the configured
/// bounds and every character is alphanumeric or an underscore.
pub open spec fn username_ok(name: Seq<char>, min_len: u32, max_len: u32) -> bool {
    &&& name.len() >= min_len
    &&& name.len() <= max_len
    &&& forall|i: int|
        0 <= i < name.len() ==> is_unicode_alphanumeric(#[trigger] name[i]) || name[i] == '_'
}

/// Accepts a name exactly when its length is within bounds and every
/// character is alphanumeric or an underscore; each failure names the
/// first rule broken.
pub fn validate_username(username: &str, min_len: u32, max_len: u32) -> (r: Result<
    (),
    ContractError,
>)
    ensures
        r is Ok <==> username_ok(username@, min_len, max_len),
        r is Err ==> (r->Err_0 == ContractError::UsernameTooShort || r->Err_0
            == ContractError::UsernameTooLong || r->Err_0 == ContractError::UsernameInvalidChars),
        username@.len() < min_len ==> r == Err::<(), ContractError>(
            ContractError::UsernameTooShort,
        ),
        username@.len() > max_len && username@.len() >= min_len ==> r == Err::<(), ContractError>(
            ContractError::UsernameTooLong,
        ),
        min_len <= username@.len() <= max_len && !username_ok(username@, min_len, max_len) ==> r
            == Err::<(), ContractError>(ContractError::UsernameInvalidChars),
{
    let len = username.unicode_len();
    if len < min_len as usize {
        return Err(ContractError::UsernameTooShort);
    }
    if len > max_len as usize {
        return Err(ContractError::UsernameTooLong);
    }
    let mut i: usize = 0;
    while i < len
        invariant
            0 <= i <= len == username@.len(),
            min_len <= len <= max_len,
            forall|j: int|
                0 <= j < i ==> is_unicode_alphanumeric(#[trigger] username@[j]) || username@[j]
                    == '_',
        decreases len - i,
    {
        let c = username.get_char(i);
        if !char_is_alphanumeric(c) && c != '_' {
            return Err(ContractError::UsernameInvalidChars);
        }
        i = i + 1;
    }
    Ok(())
}

// ---------------------------------------------------------------------
// The engine.
// ---------------------------------------------------------------------
/// The whole persisted state of the username registry.
pub struct AliasEngine {
    pub config: Config,
    pub entries: Vec<NameEntry>,
}

pub open spec fn names_unique(es: Seq<NameEntry>) -> bool {
    forall|i: int, j: int|
        0 <= i < j < es.len() ==> (#[trigger] es[i]).username@ != (#[trigger] es[j]).username@
}

pub open spec fn addresses_unique(es: Seq<NameEntry>) -> bool {
    forall|i: int, j: int|
        0 <= i < j < es.len() ==> (#[trigger] es[i]).address@ != (#[trigger] es[j]).address@
}

impl AliasEngine {
    /// The engine invariant: the registry is a bijection — names are
    /// unique and addresses are unique.
    pub open spec fn wf(self) -> bool {
        &&& names_unique(self.entries@)
        &&& addresses_unique(self.entries@)
    }

    pub open spec fn has_name(self, name: Seq<char>) -> bool {
        exists|i: int| 0 <= i < self.entries@.len() && (#[trigger] self.entries@[i]).username@ == name
    }

    pub open spec fn has_address(self, addr: Seq<char>) -> bool {
        exists|i: int| 0 <= i < self.entries@.len() && (#[trigger] self.entries@[i]).address@ == addr
    }

    pub open spec fn name_row(self, name: Seq<char>) -> int {
        choose|i: int|
            0 <= i < self.entries@.len() && (#[trigger] self.entries@[i]).username@ == name
    }

    pub open spec fn address_row(self, addr: Seq<char>) -> int {
        choose|i: int|
            0 <= i < self.entries@.len() && (#[trigger] self.entries@[i]).address@ == addr
    }
}

fn find_by_name(es: &Vec<NameEntry>, name: &str) -> (r: Option<usize>)
    ensures
        match r {
            Some(i) => 0 <= i < es@.len() && es@[i as int].username@ == name@,
            None => forall|i: int| 0 <= i < es@.len() ==> (#[trigger] es@[i]).username@ != name@,
        },
{
    let mut i: usize = 0;
    while i < es.len()
        invariant
            0 <= i <= es@.len(),
            forall|j: int| 0 <= j < i ==> (#[trigger] es@[j]).username@ != name@,
        decreases es@.len() - i,
    {
        if str_eq(es[i].username.as_str(), name) {
            return Some(i);
        }
        i = i + 1;
    }
    None
}

fn find_by_address(es: &Vec<NameEntry>, addr: &str) -> (r: Option<usize>)
    ensures
        match r {
            Some(i) => 0 <= i < es@.len() && es@[i as int].address@ == addr@,
            None => forall|i: int| 0 <= i < es@.len() ==> (#[trigger] es@[i]).address@ != addr@,
        },
{
    let mut i: usize = 0;
    while i < es.len()
        invariant
            0 <= i <= es@.len(),
            forall|j: int| 0 <= j < i ==> (#[trigger] es@[j]).address@ != addr@,
        decreases es@.len() - i,
    {
        if str_eq(es[i].address.as_str(), addr) {
            return Some(i);
        }
        i = i + 1;
    }
    None
}

/// The first `limit` (30 when unnamed) registered names, in stored
/// order.
pub open spec fn usernames_page(entries: Seq<NameEntry>, limit: Option<u32>) -> Seq<Seq<char>> {
    let lim: int = match limit {
        Some(l) => l as int,
        None => 30,
    };
    let n = if lim <= entries.len() {
        lim
    } else {
        entries.len() as int
    };
    Seq::new(n as nat, |j: int| entries[j].username@)
}

/// The view of an execution result: the response abstracted, the error
/// kept.
pub open spec fn result_view(r: Result<Response, ContractError>) -> Result<
    ResponseView,
    ContractError,
> {
    match r {
        Ok(resp) => Ok(resp@),
        Err(e) => Err(e),
    }
}

impl AliasEngine {
    /// Sets up an empty registry: the administrator (the sender unless
    /// named) and the name length bounds (3 to 20 unless named).
    pub fn instantiate(info: &MessageInfo, msg: InstantiateMsg) -> (r: (AliasEngine, Response))
        ensures
            r.0.wf(),
            r.0.config.admin@ == match msg.admin {
                Some(a) => a@,
                None => info.sender@,
            },
            r.0.config.min_username_length == msg.min_username_length.unwrap_or(3),
            r.0.config.max_username_length == msg.max_username_length.unwrap_or(20),
            r.0.entries@.len() == 0,
            r.1@.messages.len() == 0,
            r.1@.events.len() == 0,
            r.1@.attributes == seq![("action"@, "instantiate"@)],
    {
        let admin = match msg.admin {
            Some(a) => a,
            None => info.sender.clone(),
        };
        let min_username_length = match msg.min_username_length {
            Some(m) => m,
            None => 3,
        };
        let max_username_length = match msg.max_username_length {
            Some(m) => m,
            None => 20,
        };
        let engine = AliasEngine {
            config: Config { admin, min_username_length, max_username_length },
            entries: Vec::new(),
        };
        let resp = Response::new().add_attribute("action", "instantiate");
        (engine, resp)
    }
}

/// Which failure, if any, a registration meets, in the order the
/// checks run.
pub open spec fn register_check(
    pre: AliasEngine,
    sender: Seq<char>,
    username: Seq<char>,
) -> Option<ContractError> {
    if username.len() < pre.config.min_username_length {
        Some(ContractError::UsernameTooShort)
    } else if username.len() > pre.config.max_username_length {
        Some(ContractError::UsernameTooLong)
    } else if !username_ok(username, pre.config.min_username_length, pre.config.max_username_length) {
        Some(ContractError::UsernameInvalidChars)
    } else if pre.has_name(username) {
        Some(ContractError::UsernameTaken)
    } else if pre.has_address(sender) {
        Some(ContractError::AddressHasUsername)
    } else {
        None
    }
}

/// Everything a registration does: a fresh row binds the name to the
/// sender.
pub open spec fn register_rel(
    pre: AliasEngine,
    post: AliasEngine,
    sender: Seq<char>,
    username: String,
    r: Result<ResponseView, ContractError>,
) -> bool {
    &&& post.config == pre.config
    &&& match register_check(pre, sender, username@) {
        Some(e) => r == Err::<ResponseView, ContractError>(e) && post == pre,
        None => {
            &&& post.entries@.len() == pre.entries@.len() + 1
            &&& post.entries@.subrange(0, pre.entries@.len() as int) == pre.entries@
            &&& post.entries@.last().username == username
            &&& post.entries@.last().address@ == sender
            &&& r == Ok::<ResponseView, ContractError>(
                ResponseView {
                    messages: Seq::empty(),
                    attributes: seq![("action"@, "register_alias"@)],
                    events: seq![spec_evt_register_alias(username@, sender)],
                },
            )
        },
    }
}

/// Everything an update does: the sender's row is re-keyed to the new
/// name; the old name is freed.
pub open spec fn update_rel(
    pre: AliasEngine,
    post: AliasEngine,
    sender: Seq<char>,
    username: String,
    r: Result<ResponseView, ContractError>,
) -> bool {
    &&& post.config == pre.config
    &&& if !pre.has_address(sender) {
        r == Err::<ResponseView, ContractError>(ContractError::NoUsernameRegistered) && post
            == pre
    } else if !username_ok(
        username@,
        pre.config.min_username_length,
        pre.config.max_username_length,
    ) {
        r is Err && (r->Err_0 == ContractError::UsernameTooShort || r->Err_0
            == ContractError::UsernameTooLong || r->Err_0 == ContractError::UsernameInvalidChars)
            && post == pre
    } else if pre.has_name(username@) {
        r == Err::<ResponseView, ContractError>(ContractError::UsernameTaken) && post == pre
    } else {
        let i = pre.address_row(sender);
        &&& post.entries@.len() == pre.entries@.len()
        &&& forall|k: int| 0 <= k < pre.entries@.len() && k != i ==> post.entries@[k] == pre.entries@[k]
        &&& post.entries@[i].username == username
        &&& post.entries@[i].address == pre.entries@[i].address
        &&& r == Ok::<ResponseView, ContractError>(
            ResponseView {
                messages: Seq::empty(),
                attributes: seq![("action"@, "update_alias"@)],
                events: seq![spec_evt_update_alias(username@, sender)],
            },
        )
    }
}

/// Everything an unregistration does: the sender's row disappears and
/// both the name and the address become free.
pub open spec fn unregister_rel(
    pre: AliasEngine,
    post: AliasEngine,
    sender: Seq<char>,
    r: Result<ResponseView, ContractError>,
) -> bool {
    &&& post.config == pre.config
    &&& if !pre.has_address(sender) {
        r == Err::<ResponseView, ContractError>(ContractError::NoUsernameRegistered) && post
            == pre
    } else {
        let i = pre.address_row(sender);
        &&& post.entries@ == pre.entries@.remove(i)
        &&& r == Ok::<ResponseView, ContractError>(
            ResponseView {
                messages: Seq::empty(),
                attributes: seq![("action"@, "unregister_alias"@)],
                events: seq![
                    spec_evt_unregister_alias(pre.entries@[i].username@, sender),
                ],
            },
        )
    }
}

impl AliasEngine {
    /// Registers a fresh name for the sender. The name must be
    /// acceptable, not taken, and the sender must not already hold
    /// one.
    pub fn exec_register(&mut self, info: &MessageInfo, username: String) -> (r: Result<
        Response,
        ContractError,
    >)
        requires
            old(self).wf(),
        ensures
            final(self).wf(),
            register_rel(*old(self), *final(self), info.sender@, username, result_view(r)),
    {
        if let Err(e) = validate_username(
            username.as_str(),
            self.config.min_username_length,
            self.config.max_username_length,
        ) {
            return Err(e);
        }
        if let Some(_i) = find_by_name(&self.entries, username.as_str()) {
            return Err(ContractError::UsernameTaken);
        }
        if let Some(_i) = find_by_address(&self.entries, info.sender.as_str()) {
            return Err(ContractError::AddressHasUsername);
        }
        let event = evt_register_alias(username.as_str(), info.sender.as_str());
        self.entries.push(NameEntry { username, address: info.sender.clone() });
        let resp = Response::new().add_event(event).add_attribute("action", "register_alias");
        proof {
            assert(self.entries@.subrange(0, old(self).entries@.len() as int) =~= old(
                self,
            ).entries@);
            assert(resp@.messages =~= Seq::<crate::host::BankSendView>::empty());
            assert(resp@.attributes =~= seq![("action"@, "register_alias"@)]);
            assert(resp@.events =~= seq![event@]);
        }
        Ok(resp)
    }

    /// Re-keys the sender's registration to a new acceptable, untaken
    /// name.
    pub fn exec_update(&mut self, info: &MessageInfo, username: String) -> (r: Result<
        Response,
        ContractError,
    >)
        requires
            old(self).wf(),
        ensures
            final(self).wf(),
            update_rel(*old(self), *final(self), info.sender@, username, result_view(r)),
    {
        let i = match find_by_address(&self.entries, info.sender.as_str()) {
            Some(i) => i,
            None => {
                return Err(ContractError::NoUsernameRegistered);
            },
        };
        proof {
            let w = self.address_row(info.sender@);
            assert(self.entries@[w].address@ == info.sender@);
            assert(w == i) by {
                if w != i as int {
                    assert(!addresses_unique(self.entries@));
                }
            }
        }
        if let Err(e) = validate_username(
            username.as_str(),
            self.config.min_username_length,
            self.config.max_username_length,
        ) {
            return Err(e);
        }
        if let Some(_j) = find_by_name(&self.entries, username.as_str()) {
            return Err(ContractError::UsernameTaken);
        }
        let event = evt_update_alias(username.as_str(), info.sender.as_str());
        let mut entry = self.entries.remove(i);
        entry.username = username;
        self.entries.insert(i, entry);
        proof {
            let pre = old(self).entries@;
            assert forall|k: int| 0 <= k < self.entries@.len() && k != i as int implies self.entries@[k]
                == pre[k] by {}
            // The new name collides with nothing, and addresses are
            // untouched.
            assert(names_unique(self.entries@)) by {
                assert forall|p: int, q: int| 0 <= p < q < self.entries@.len() implies (
                #[trigger] self.entries@[p]).username@ != (
                #[trigger] self.entries@[q]).username@ by {
                    if p != i as int && q != i as int {
                        assert(pre[p].username@ != pre[q].username@);
                    }
                }
            }
            assert(addresses_unique(self.entries@)) by {
                assert forall|p: int, q: int| 0 <= p < q < self.entries@.len() implies (
                #[trigger] self.entries@[p]).address@ != (#[trigger] self.entries@[q]).address@ by {
                    assert(pre[p].address@ != pre[q].address@);
                    assert(self.entries@[p].address@ == pre[p].address@);
                    assert(self.entries@[q].address@ == pre[q].address@);
                }
            }
        }
        let resp = Response::new().add_event(event).add_attribute("action", "update_alias");
        proof {
            assert(resp@.messages =~= Seq::<crate::host::BankSendView>::empty());
            assert(resp@.attributes =~= seq![("action"@, "update_alias"@)]);
            assert(resp@.events =~= seq![event@]);
        }
        Ok(resp)
    }

    /// Removes the sender's registration, freeing the name and the
    /// address.
    pub fn exec_unregister(&mut self, info: &MessageInfo) -> (r: Result<Response, ContractError>)
        requires
            old(self).wf(),
        ensures
            final(self).wf(),
            unregister_rel(*old(self), *final(self), info.sender@, result_view(r)),
    {
        let i = match find_by_address(&self.entries, info.sender.as_str()) {
            Some(i) => i,
            None => {
                return Err(ContractError::NoUsernameRegistered);
            },
        };
        proof {
            let w = self.address_row(info.sender@);
            assert(self.entries@[w].address@ == info.sender@);
            assert(w == i) by {
                if w != i as int {
                    assert(!addresses_unique(self.entries@));
                }
            }
        }
        let entry = self.entries.remove(i);
        let event = evt_unregister_alias(entry.username.as_str(), info.sender.as_str());
        proof {
            let pre = old(self).entries@;
            assert(names_unique(self.entries@)) by {
                assert forall|p: int, q: int| 0 <= p < q < self.entries@.len() implies (
                #[trigger] self.entries@[p]).username@ != (
                #[trigger] self.entries@[q]).username@ by {
                    let p0: int = if p < i as int {
                        p
                    } else {
                        p + 1
                    };
                    let q0: int = if q < i as int {
                        q
                    } else {
                        q + 1
                    };
                    assert(self.entries@[p] == pre[p0]);
                    assert(self.entries@[q] == pre[q0]);
                    assert(pre[p0].username@ != pre[q0].username@);
                }
            }
            assert(addresses_unique(self.entries@)) by {
                assert forall|p: int, q: int| 0 <= p < q < self.entries@.len() implies (
                #[trigger] self.entries@[p]).address@ != (#[trigger] self.entries@[q]).address@ by {
                    let p0: int = if p < i as int {
                        p
                    } else {
                        p + 1
                    };
                    let q0: int = if q < i as int {
                        q
                    } else {
                        q + 1
                    };
                    assert(self.entries@[p] == pre[p0]);
                    assert(self.entries@[q] == pre[q0]);
                    assert(pre[p0].address@ != pre[q0].address@);
                }
            }
        }
        let resp = Response::new().add_event(event).add_attribute("action", "unregister_alias");
        proof {
            assert(resp@.messages =~= Seq::<crate::host::BankSendView>::empty());
            assert(resp@.attributes =~= seq![("action"@, "unregister_alias"@)]);
            assert(resp@.events =~= seq![event@]);
        }
        Ok(resp)
    }

    /// One command dispatch: the registry's whole mutating interface.
    pub fn execute(&mut self, info: &MessageInfo, msg: ExecuteMsg) -> (r: Result<
        Response,
        ContractError,
    >)
        requires
            old(self).wf(),
        ensures
            final(self).wf(),
            match msg {
                ExecuteMsg::Register { username } => register_rel(
                    *old(self),
                    *final(self),
                    info.sender@,
                    username,
                    result_view(r),
                ),
                ExecuteMsg::Update { username } => update_rel(
                    *old(self),
                    *final(self),
                    info.sender@,
                    username,
                    result_view(r),
                ),
                ExecuteMsg::Unregister {} => unregister_rel(
                    *old(self),
                    *final(self),
                    info.sender@,
                    result_view(r),
                ),
            },
    {
        match msg {
            ExecuteMsg::Register { username } => self.exec_register(info, username),
            ExecuteMsg::Update { username } => self.exec_update(info, username),
            ExecuteMsg::Unregister {} => self.exec_unregister(info),
        }
    }

    /// The configuration, as a query answer.
    pub fn query_config(&self) -> (r: ConfigResp)
        ensures
            r@.admin == self.config.admin@,
            r@.min_username_length == self.config.min_username_length,
            r@.max_username_length == self.config.max_username_length,
    {
        ConfigResp {
            admin: self.config.admin.clone(),
            min_username_length: self.config.min_username_length,
            max_username_length: self.config.max_username_length,
        }
    }

    /// The account holding a name, or nothing when the name is free.
    pub fn resolve(&self, username: &str) -> (r: Option<UsernameResp>)
        requires
            self.wf(),
        ensures
            r is Some <==> self.has_name(username@),
            r is Some ==> {
                &&& r->0@.username == username@
                &&& r->0@.address == self.entries@[self.name_row(username@)].address@
                &&& r->0@.registered_at == 0
            },
    {
        match find_by_name(&self.entries, username) {
            Some(i) => {
                proof {
                    let w = self.name_row(username@);
                    assert(self.entries@[w].username@ == username@);
                    assert(w == i) by {
                        if w != i as int {
                            assert(!names_unique(self.entries@));
                        }
                    }
                }
                Some(
                    UsernameResp {
                        username: username.to_owned(),
                        address: self.entries[i].address.clone(),
                        registered_at: 0,
                    },
                )
            },
            None => None,
        }
    }

    /// The name an account holds, or nothing when it holds none.
    pub fn reverse_lookup(&self, address: &str) -> (r: Option<AddressResp>)
        requires
            self.wf(),
        ensures
            r is Some <==> self.has_address(address@),
            r is Some ==> {
                &&& r->0@.address == address@
                &&& r->0@.username == self.entries@[self.address_row(address@)].username@
                &&& r->0@.registered_at == 0
            },
    {
        match find_by_address(&self.entries, address) {
            Some(i) => {
                proof {
                    let w = self.address_row(address@);
                    assert(self.entries@[w].address@ == address@);
                    assert(w == i) by {
                        if w != i as int {
                            assert(!addresses_unique(self.entries@));
                        }
                    }
                }
                Some(
                    AddressResp {
                        address: address.to_owned(),
                        username: self.entries[i].username.clone(),
                        registered_at: 0,
                    },
                )
            },
            None => None,
        }
    }

    /// The first `limit` (30 when unnamed) registered names, in stored
    /// order.
    pub fn list_usernames(&self, limit: Option<u32>) -> (r: Vec<String>)
        ensures
            r.deep_view() == usernames_page(self.entries@, limit),
    {
        let lim: usize = match limit {
            Some(l) => l as usize,
            None => 30,
        };
        let n = self.entries.len();
        let mut out: Vec<String> = Vec::new();
        let mut i: usize = 0;
        while i < n && i < lim
            invariant
                0 <= i <= n == self.entries@.len(),
                i <= lim,
                out@.len() == i,
                forall|k: int| 0 <= k < i ==> (#[trigger] out@[k])@ == self.entries@[k].username@,
            decreases n - i,
        {
            out.push(self.entries[i].username.clone());
            i = i + 1;
        }
        proof {
            let lim_g: int = match limit {
                Some(l) => l as int,
                None => 30int,
            };
            let n_g: int = if lim_g <= self.entries@.len() {
                lim_g
            } else {
                self.entries@.len() as int
            };
            let target = Seq::new(n_g as nat, |j: int| self.entries@[j].username@);
            assert(target.len() == out@.len());
            assert forall|k: int| 0 <= k < target.len() implies out.deep_view()[k]
                == target[k] by {
                assert(out.deep_view()[k] == out@[k]@);
            }
            assert(out.deep_view() =~= target);
        }
        out
    }

    /// One query dispatch: the registry's whole read-only interface.
    pub fn query(&self, msg: QueryMsg) -> (r: Result<QueryAnswer, ContractError>)
        requires
            self.wf(),
        ensures
            match msg {
                QueryMsg::Config {} => {
                    &&& r is Ok
                    &&& r->Ok_0 matches QueryAnswer::Config(c)
                    &&& r->Ok_0->Config_0@.admin == self.config.admin@
                    &&& r->Ok_0->Config_0@.min_username_length
                        == self.config.min_username_length
                    &&& r->Ok_0->Config_0@.max_username_length
                        == self.config.max_username_length
                },
                QueryMsg::Resolve { username } => if self.has_name(username@) {
                    &&& r is Ok
                    &&& r->Ok_0 matches QueryAnswer::Username(u)
                    &&& r->Ok_0->Username_0@.username == username@
                    &&& r->Ok_0->Username_0@.address == self.entries@[self.name_row(
                        username@,
                    )].address@
                } else {
                    r == Err::<QueryAnswer, ContractError>(ContractError::UsernameNotFound)
                },
                QueryMsg::ReverseLookup { address } => if self.has_address(address@) {
                    &&& r is Ok
                    &&& r->Ok_0 matches QueryAnswer::Address(a)
                    &&& r->Ok_0->Address_0@.address == address@
                    &&& r->Ok_0->Address_0@.username == self.entries@[self.address_row(
                        address@,
                    )].username@
                } else {
                    r == Err::<QueryAnswer, ContractError>(ContractError::NoUsernameRegistered)
                },
                QueryMsg::ListUsernames { start_after, limit } => {
                    &&& r is Ok
                    &&& r->Ok_0 matches QueryAnswer::Usernames(names)
                    &&& r->Ok_0->Usernames_0.deep_view() == usernames_page(self.entries@, limit)
                },
            },
    {
        match msg {
            QueryMsg::Config {} => Ok(QueryAnswer::Config(self.query_config())),
            QueryMsg::Resolve { username } => match self.resolve(username.as_str()) {
                Some(u) => Ok(QueryAnswer::Username(u)),
                None => Err(ContractError::UsernameNotFound),
            },
            QueryMsg::ReverseLookup { address } => match self.reverse_lookup(address.as_str()) {
                Some(a) => Ok(QueryAnswer::Address(a)),
                None => Err(ContractError::NoUsernameRegistered),
            },
            QueryMsg::ListUsernames { start_after, limit } => Ok(
                QueryAnswer::Usernames(self.list_usernames(limit)),
            ),
        }
    }
}

} // verus!
