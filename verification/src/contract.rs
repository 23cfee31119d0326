//! The commands and queries of the registry, on the host's store.
//!
//! Each command and each query is held to what [`Ledger`] says of it. The
//! ledger tells which stored values do not decode and which keys are no
//! text, so it tells every failure but one: whether the host accepts an
//! address. Where a function asks the host, its contract holds for one of
//! the host's two answers, and what follows the answer stands in a function
//! of its own that takes the answer and is held to it exactly. A failure of
//! the host's is reported as [`ContractError::Std`], and every failure
//! leaves the registry as it was.

use vstd::prelude::*;
use crate::error::{ContractError, ErrorView};
use crate::helpers::{addr_validate, generate_tip_key, tip_key};
use crate::laws::{
    law_admin_changes_keep_consistency, law_commands_keep_consistency,
    law_instantiation_is_consistent, law_record_tip_keeps_consistency,
    law_register_keeps_consistency, law_update_keeps_consistency,
};
use crate::ledger::{
    garbled, is_listing, lemma_listing_decodes, lemma_listing_is, read, Ledger, NewProfile,
    Outcome, ProfileChanges,
};
use crate::msg::{
    AdminResponse, AnswerView, Attribute, Env, ExecuteMsg, InstantiateMsg, MessageInfo,
    ProfileResponse, ProfilesResponse, QueryMsg, QueryResponse, Response, StatsResponse,
    TipDetailResponse, TipsResponse, UsernameAvailableResponse,
};
use crate::paging::{amount_string, profiles_page, sum_amounts, tips_page};
use crate::state::{opt_text, refs_view, TipRecord, TipRef, Timestamp, UserProfile};
use crate::store::{
    admins_count, admins_may_load, admins_remove, admins_save, ledger, listing_view,
    profiles_has, profiles_load, profiles_may_load, profiles_range, profiles_save,
    received_may_load, received_save, sent_may_load, sent_save, tips_may_load, tips_save,
    wallets_has, wallets_load, wallets_may_load, wallets_save, Store,
};
use crate::username::validate_username;

verus! {

/// Whether a command did what the ledger says of it: where the ledger has
/// it succeed, it succeeded with that outcome; where the ledger has it
/// fail, it failed with that fault and changed nothing.
pub open spec fn honours(
    expected: Result<Outcome, ErrorView>,
    before: Ledger,
    after: Ledger,
    r: Result<Response, ContractError>,
) -> bool {
    match expected {
        Ok(outcome) => r matches Ok(response) && after == outcome.ledger && response@
            == outcome.response,
        Err(fault) => r matches Err(e) && e@ == fault && after == before,
    }
}

/// The host's word on an address, as the ledger takes it: the address as
/// the host accepted it, or `None` where it refused.
pub open spec fn host_answer(checked: Result<String, cosmwasm_std::StdError>) -> Option<
    Seq<char>,
> {
    match checked {
        Ok(address) => Some(address@),
        Err(_) => None,
    }
}

/// The host's word on `address` where it accepts it as it stands, or
/// refuses it.
pub open spec fn verdict(address: Seq<char>, accepted: bool) -> Option<Seq<char>> {
    if accepted {
        Some(address)
    } else {
        None
    }
}

/// The fields of a registration, as plain values.
pub open spec fn new_profile(
    name: String,
    bio: Option<String>,
    profile_picture: Option<String>,
    banner_image: Option<String>,
    twitter: Option<String>,
    website: Option<String>,
) -> NewProfile {
    NewProfile {
        name: name@,
        bio: opt_text(bio),
        profile_picture: opt_text(profile_picture),
        banner_image: opt_text(banner_image),
        twitter: opt_text(twitter),
        website: opt_text(website),
    }
}

/// The fields of an update, as plain values.
pub open spec fn profile_changes(
    name: Option<String>,
    bio: Option<String>,
    profile_picture: Option<String>,
    banner_image: Option<String>,
    twitter: Option<String>,
    website: Option<String>,
) -> ProfileChanges {
    ProfileChanges {
        name: opt_text(name),
        bio: opt_text(bio),
        profile_picture: opt_text(profile_picture),
        banner_image: opt_text(banner_image),
        twitter: opt_text(twitter),
        website: opt_text(website),
    }
}

/// What the ledger says of a command sent by `sender` at `now`; `accepted`
/// tells whether the host accepts the address that the command names, if
/// it names one.
pub open spec fn expected(
    before: Ledger,
    sender: Seq<char>,
    now: u64,
    msg: ExecuteMsg,
    accepted: bool,
) -> Result<Outcome, ErrorView> {
    match msg {
        ExecuteMsg::RegisterProfile {
            username,
            name,
            bio,
            profile_picture,
            banner_image,
            twitter,
            website,
        } => before.register(
            sender,
            now,
            username@,
            new_profile(name, bio, profile_picture, banner_image, twitter, website),
        ),
        ExecuteMsg::UpdateProfile {
            username,
            name,
            bio,
            profile_picture,
            banner_image,
            twitter,
            website,
        } => before.update(
            sender,
            now,
            username@,
            profile_changes(name, bio, profile_picture, banner_image, twitter, website),
        ),
        ExecuteMsg::RecordTip { to_username, amount, message } => before.record_tip(
            sender,
            now,
            to_username@,
            amount@,
            opt_text(message),
        ),
        ExecuteMsg::AddAdmin { admin } => before.add_admin(
            sender,
            admin@,
            verdict(admin@, accepted),
        ),
        ExecuteMsg::RemoveAdmin { admin } => before.remove_admin(
            sender,
            admin@,
            verdict(admin@, accepted),
        ),
    }
}

/// An attribute with the given key and value.
fn attribute(key: &str, value: &str) -> (a: Attribute)
    ensures
        a@ == (key@, value@),
{
    Attribute { key: key.to_owned(), value: value.to_owned() }
}

/// Whether `wallet` has admin rights.
pub fn is_admin(store: &Store, wallet: &str) -> (r: Result<bool, cosmwasm_std::StdError>)
    ensures
        r matches Ok(admin) ==> admin == ledger(*store).is_admin(wallet@),
        r is Err <==> garbled(ledger(*store).admins, wallet@),
{
    match admins_may_load(store, wallet) {
        Ok(Some(flag)) => Ok(flag),
        Ok(None) => Ok(false),
        Err(e) => Err(e),
    }
}

/// Sets the registry up: the admin that the message names and the sender
/// get admin rights, where the host accepts the admin's address. A registry
/// set up in an empty store is consistent.
pub fn instantiate(store: &mut Store, env: &Env, info: &MessageInfo, msg: InstantiateMsg) -> (r:
    Result<Response, ContractError>)
    ensures
        honours(
            ledger(*old(store)).instantiate(info.sender@, msg.admin@, Some(msg.admin@)),
            ledger(*old(store)),
            ledger(*final(store)),
            r,
        ) || honours(
            ledger(*old(store)).instantiate(info.sender@, msg.admin@, None),
            ledger(*old(store)),
            ledger(*final(store)),
            r,
        ),
        r is Err ==> ledger(*final(store)) == ledger(*old(store)),
        r is Ok && ledger(*old(store)) == Ledger::empty() ==> ledger(*final(store)).consistent(),
{
    let checked = addr_validate(store, msg.admin.as_str());
    instantiate_checked(store, env, info, msg, checked)
}

/// Sets the registry up, once the host has had its say on the admin's
/// address. Where the host refused, its error is handed on and nothing is
/// written. Where it accepted, the address as accepted and the sender get
/// admin rights.
pub fn instantiate_checked(
    store: &mut Store,
    _env: &Env,
    info: &MessageInfo,
    msg: InstantiateMsg,
    checked: Result<String, cosmwasm_std::StdError>,
) -> (r: Result<Response, ContractError>)
    ensures
        honours(
            ledger(*old(store)).instantiate(info.sender@, msg.admin@, host_answer(checked)),
            ledger(*old(store)),
            ledger(*final(store)),
            r,
        ),
        checked matches Err(e) ==> r == Err::<Response, ContractError>(ContractError::Std(e)),
        r is Ok && ledger(*old(store)) == Ledger::empty() ==> ledger(*final(store)).consistent(),
{
    let admin_addr = match checked {
        Ok(addr) => addr,
        Err(e) => {
            return Err(ContractError::Std(e));
        },
    };
    proof {
        law_instantiation_is_consistent(info.sender@, msg.admin@, admin_addr@);
    }
    match admins_save(store, admin_addr.as_str(), true) {
        Ok(()) => {},
        Err(e) => {
            return Err(ContractError::Std(e));
        },
    }
    if admin_addr != info.sender {
        match admins_save(store, info.sender.as_str(), true) {
            Ok(()) => {},
            Err(e) => {
                return Err(ContractError::Std(e));
            },
        }
    }
    let mut attributes: Vec<Attribute> = Vec::new();
    attributes.push(attribute("method", "instantiate"));
    attributes.push(attribute("admin", msg.admin.as_str()));
    attributes.push(attribute("creator", info.sender.as_str()));
    let response = Response { attributes };
    assert(response@ =~= seq![
        ("method"@, "instantiate"@),
        ("admin"@, msg.admin@),
        ("creator"@, info.sender@),
    ]);
    Ok(response)
}

/// Carries out a command. A command that succeeds on a consistent registry
/// leaves it consistent; a command that fails leaves the registry as it
/// was.
pub fn execute(store: &mut Store, env: &Env, info: &MessageInfo, msg: ExecuteMsg) -> (r: Result<
    Response,
    ContractError,
>)
    ensures
        honours(
            expected(ledger(*old(store)), info.sender@, env.time.nanos, msg, true),
            ledger(*old(store)),
            ledger(*final(store)),
            r,
        ) || honours(
            expected(ledger(*old(store)), info.sender@, env.time.nanos, msg, false),
            ledger(*old(store)),
            ledger(*final(store)),
            r,
        ),
        r is Err ==> ledger(*final(store)) == ledger(*old(store)),
        ledger(*old(store)).consistent() ==> ledger(*final(store)).consistent(),
{
    proof {
        let before = ledger(*store);
        if before.consistent() {
            if expected(before, info.sender@, env.time.nanos, msg, true) is Ok {
                law_commands_keep_consistency(before, info.sender@, env.time.nanos, msg, true);
            }
            if expected(before, info.sender@, env.time.nanos, msg, false) is Ok {
                law_commands_keep_consistency(before, info.sender@, env.time.nanos, msg, false);
            }
        }
    }
    match msg {
        ExecuteMsg::RegisterProfile {
            username,
            name,
            bio,
            profile_picture,
            banner_image,
            twitter,
            website,
        } => execute_register_profile(
            store,
            env,
            info,
            username,
            name,
            bio,
            profile_picture,
            banner_image,
            twitter,
            website,
        ),
        ExecuteMsg::UpdateProfile {
            username,
            name,
            bio,
            profile_picture,
            banner_image,
            twitter,
            website,
        } => execute_update_profile(
            store,
            env,
            info,
            username,
            name,
            bio,
            profile_picture,
            banner_image,
            twitter,
            website,
        ),
        ExecuteMsg::RecordTip { to_username, amount, message } => execute_record_tip(
            store,
            env,
            info,
            to_username,
            amount,
            message,
        ),
        ExecuteMsg::AddAdmin { admin } => execute_add_admin(store, info, admin),
        ExecuteMsg::RemoveAdmin { admin } => execute_remove_admin(store, info, admin),
    }
}

/// Registers a profile for the sender.
pub fn execute_register_profile(
    store: &mut Store,
    env: &Env,
    info: &MessageInfo,
    username: String,
    name: String,
    bio: Option<String>,
    profile_picture: Option<String>,
    banner_image: Option<String>,
    twitter: Option<String>,
    website: Option<String>,
) -> (r: Result<Response, ContractError>)
    ensures
        honours(
            ledger(*old(store)).register(
                info.sender@,
                env.time.nanos,
                username@,
                new_profile(name, bio, profile_picture, banner_image, twitter, website),
            ),
            ledger(*old(store)),
            ledger(*final(store)),
            r,
        ),
        ledger(*old(store)).consistent() ==> ledger(*final(store)).consistent(),
{
    proof {
        let before = ledger(*store);
        let fields = new_profile(name, bio, profile_picture, banner_image, twitter, website);
        if before.consistent() && before.register(info.sender@, env.time.nanos, username@, fields)
            is Ok {
            law_register_keeps_consistency(
                before,
                info.sender@,
                env.time.nanos,
                username@,
                fields,
            );
        }
    }
    match validate_username(username.as_str()) {
        Ok(()) => {},
        Err(e) => {
            return Err(e);
        },
    }
    if profiles_has(store, username.as_str()) {
        return Err(ContractError::UsernameExists { username });
    }
    if wallets_has(store, info.sender.as_str()) {
        return match wallets_load(store, info.sender.as_str()) {
            Ok(existing_username) => Err(
                ContractError::WalletAlreadyRegistered { username: existing_username },
            ),
            Err(e) => Err(ContractError::Std(e)),
        };
    }
    let profile = UserProfile {
        username: username.clone(),
        name,
        bio,
        profile_picture,
        banner_image,
        twitter,
        website,
        wallet_address: info.sender.clone(),
        created_at: env.time,
        updated_at: env.time,
    };
    let row = profile.to_row();
    match profiles_save(store, username.as_str(), &row) {
        Ok(()) => {},
        Err(e) => {
            return Err(ContractError::Std(e));
        },
    }
    match wallets_save(store, info.sender.as_str(), &username) {
        Ok(()) => {},
        Err(e) => {
            return Err(ContractError::Std(e));
        },
    }
    let mut attributes: Vec<Attribute> = Vec::new();
    attributes.push(attribute("method", "register_profile"));
    attributes.push(attribute("username", username.as_str()));
    attributes.push(attribute("wallet", info.sender.as_str()));
    let response = Response { attributes };
    assert(response@ =~= seq![
        ("method"@, "register_profile"@),
        ("username"@, username@),
        ("wallet"@, info.sender@),
    ]);
    Ok(response)
}

/// Updates the profile of `username`: each field that the caller names is
/// replaced, the others stay.
pub fn execute_update_profile(
    store: &mut Store,
    env: &Env,
    info: &MessageInfo,
    username: String,
    name: Option<String>,
    bio: Option<String>,
    profile_picture: Option<String>,
    banner_image: Option<String>,
    twitter: Option<String>,
    website: Option<String>,
) -> (r: Result<Response, ContractError>)
    ensures
        honours(
            ledger(*old(store)).update(
                info.sender@,
                env.time.nanos,
                username@,
                profile_changes(name, bio, profile_picture, banner_image, twitter, website),
            ),
            ledger(*old(store)),
            ledger(*final(store)),
            r,
        ),
        ledger(*old(store)).consistent() ==> ledger(*final(store)).consistent(),
{
    proof {
        let before = ledger(*store);
        let changes = profile_changes(name, bio, profile_picture, banner_image, twitter, website);
        if before.consistent() && before.update(info.sender@, env.time.nanos, username@, changes)
            is Ok {
            law_update_keeps_consistency(
                before,
                info.sender@,
                env.time.nanos,
                username@,
                changes,
            );
        }
    }
    if !profiles_has(store, username.as_str()) {
        return Err(ContractError::UsernameNotFound { username });
    }
    let row = match profiles_load(store, username.as_str()) {
        Ok(row) => row,
        Err(e) => {
            return Err(ContractError::Std(e));
        },
    };
    let mut profile = UserProfile::from_row(&row);
    if profile.wallet_address != info.sender {
        match is_admin(store, info.sender.as_str()) {
            Ok(true) => {},
            Ok(false) => {
                return Err(ContractError::Unauthorized {  });
            },
            Err(e) => {
                return Err(ContractError::Std(e));
            },
        }
    }
    if let Some(new_name) = name {
        profile.name = new_name;
    }
    if let Some(new_bio) = bio {
        profile.bio = Some(new_bio);
    }
    if let Some(new_picture) = profile_picture {
        profile.profile_picture = Some(new_picture);
    }
    if let Some(new_banner) = banner_image {
        profile.banner_image = Some(new_banner);
    }
    if let Some(new_twitter) = twitter {
        profile.twitter = Some(new_twitter);
    }
    if let Some(new_website) = website {
        profile.website = Some(new_website);
    }
    profile.updated_at = env.time;
    let new_row = profile.to_row();
    match profiles_save(store, username.as_str(), &new_row) {
        Ok(()) => {},
        Err(e) => {
            return Err(ContractError::Std(e));
        },
    }
    let mut attributes: Vec<Attribute> = Vec::new();
    attributes.push(attribute("method", "update_profile"));
    attributes.push(attribute("username", username.as_str()));
    let response = Response { attributes };
    assert(response@ =~= seq![("method"@, "update_profile"@), ("username"@, username@)]);
    Ok(response)
}

/// Records a tip from the sender's profile to `to_username`: the tip is
/// filed under its key, and one entry is added to the sender's list of tips
/// sent and one to the recipient's list of tips received. Everything is
/// read and judged before the first write.
pub fn execute_record_tip(
    store: &mut Store,
    env: &Env,
    info: &MessageInfo,
    to_username: String,
    amount: String,
    message: Option<String>,
) -> (r: Result<Response, ContractError>)
    ensures
        honours(
            ledger(*old(store)).record_tip(
                info.sender@,
                env.time.nanos,
                to_username@,
                amount@,
                opt_text(message),
            ),
            ledger(*old(store)),
            ledger(*final(store)),
            r,
        ),
        ledger(*old(store)).consistent() ==> ledger(*final(store)).consistent(),
{
    proof {
        let before = ledger(*store);
        if before.consistent() && before.record_tip(
            info.sender@,
            env.time.nanos,
            to_username@,
            amount@,
            opt_text(message),
        ) is Ok {
            law_record_tip_keeps_consistency(
                before,
                info.sender@,
                env.time.nanos,
                to_username@,
                amount@,
                opt_text(message),
            );
        }
    }
    let from_username = match wallets_may_load(store, info.sender.as_str()) {
        Ok(Some(username)) => username,
        Ok(None) => {
            return Err(
                ContractError::CustomError {
                    message: "Sender wallet address not registered with a profile".to_owned(),
                },
            );
        },
        Err(e) => {
            return Err(ContractError::Std(e));
        },
    };
    if from_username == to_username {
        return Err(ContractError::SelfTipping {  });
    }
    if !profiles_has(store, to_username.as_str()) {
        return Err(ContractError::UsernameNotFound { username: to_username });
    }
    let timestamp = env.time;
    let tip = TipRecord {
        from_username: from_username.clone(),
        to_username: to_username.clone(),
        amount,
        message,
        timestamp,
    };
    let tip_key = generate_tip_key(from_username.as_str(), to_username.as_str(), timestamp.nanos());
    let mut sender_tips: Vec<TipRef> = match sent_may_load(store, from_username.as_str()) {
        Ok(Some(list)) => list,
        Ok(None) => Vec::new(),
        Err(e) => {
            return Err(ContractError::Std(e));
        },
    };
    let mut recipient_tips: Vec<TipRef> = match received_may_load(store, to_username.as_str()) {
        Ok(Some(list)) => list,
        Ok(None) => Vec::new(),
        Err(e) => {
            return Err(ContractError::Std(e));
        },
    };
    let ghost sent_before = ledger(*old(store)).sent_of(from_username@);
    let ghost received_before = ledger(*old(store)).received_of(to_username@);
    assert(refs_view(sender_tips@) =~= sent_before);
    assert(refs_view(recipient_tips@) =~= received_before);
    sender_tips.push((to_username.clone(), tip_key.clone()));
    recipient_tips.push((from_username.clone(), tip_key.clone()));
    assert(refs_view(sender_tips@) =~= sent_before.push((to_username@, tip_key@)));
    assert(refs_view(recipient_tips@) =~= received_before.push((from_username@, tip_key@)));
    let row = tip.to_row();
    match tips_save(store, tip_key.as_str(), &row) {
        Ok(()) => {},
        Err(e) => {
            return Err(ContractError::Std(e));
        },
    }
    match sent_save(store, from_username.as_str(), &sender_tips) {
        Ok(()) => {},
        Err(e) => {
            return Err(ContractError::Std(e));
        },
    }
    match received_save(store, to_username.as_str(), &recipient_tips) {
        Ok(()) => {},
        Err(e) => {
            return Err(ContractError::Std(e));
        },
    }
    let time_text = timestamp.to_text();
    let mut attributes: Vec<Attribute> = Vec::new();
    attributes.push(attribute("method", "record_tip"));
    attributes.push(attribute("from", from_username.as_str()));
    attributes.push(attribute("to", to_username.as_str()));
    attributes.push(attribute("timestamp", time_text.as_str()));
    let response = Response { attributes };
    assert(response@ =~= seq![
        ("method"@, "record_tip"@),
        ("from"@, from_username@),
        ("to"@, to_username@),
        ("timestamp"@, time_text@),
    ]);
    Ok(response)
}

/// Gives `admin` admin rights, on the word of a sender who has them, where
/// the host accepts `admin` as an address.
pub fn execute_add_admin(store: &mut Store, info: &MessageInfo, admin: String) -> (r: Result<
    Response,
    ContractError,
>)
    ensures
        honours(
            ledger(*old(store)).add_admin(info.sender@, admin@, Some(admin@)),
            ledger(*old(store)),
            ledger(*final(store)),
            r,
        ) || honours(
            ledger(*old(store)).add_admin(info.sender@, admin@, None),
            ledger(*old(store)),
            ledger(*final(store)),
            r,
        ),
        ledger(*old(store)).consistent() ==> ledger(*final(store)).consistent(),
{
    let checked = addr_validate(store, admin.as_str());
    add_admin_checked(store, info, admin, checked)
}

/// Gives an address admin rights, once the host has had its say on it. A
/// sender without admin rights is refused whatever the host said. Where the
/// host refused the address, its error is handed on and nothing is written.
/// Where it accepted, the address as accepted gets admin rights.
pub fn add_admin_checked(
    store: &mut Store,
    info: &MessageInfo,
    admin: String,
    checked: Result<String, cosmwasm_std::StdError>,
) -> (r: Result<Response, ContractError>)
    ensures
        honours(
            ledger(*old(store)).add_admin(info.sender@, admin@, host_answer(checked)),
            ledger(*old(store)),
            ledger(*final(store)),
            r,
        ),
        ledger(*old(store)).is_admin(info.sender@) ==> (checked matches Err(e) ==> r == Err::<
            Response,
            ContractError,
        >(ContractError::Std(e))),
        ledger(*old(store)).consistent() ==> ledger(*final(store)).consistent(),
{
    proof {
        if ledger(*store).consistent() {
            law_admin_changes_keep_consistency(
                ledger(*store),
                info.sender@,
                admin@,
                host_answer(checked),
            );
        }
    }
    match is_admin(store, info.sender.as_str()) {
        Ok(true) => {},
        Ok(false) => {
            return Err(ContractError::Unauthorized {  });
        },
        Err(e) => {
            return Err(ContractError::Std(e));
        },
    }
    let admin_addr = match checked {
        Ok(addr) => addr,
        Err(e) => {
            return Err(ContractError::Std(e));
        },
    };
    match admins_save(store, admin_addr.as_str(), true) {
        Ok(()) => {},
        Err(e) => {
            return Err(ContractError::Std(e));
        },
    }
    let mut attributes: Vec<Attribute> = Vec::new();
    attributes.push(attribute("method", "add_admin"));
    attributes.push(attribute("admin", admin.as_str()));
    let response = Response { attributes };
    assert(response@ =~= seq![("method"@, "add_admin"@), ("admin"@, admin@)]);
    Ok(response)
}

/// Takes the admin rights of `admin` away, on the word of a sender who has
/// them, where the host accepts `admin` as an address, unless no more than
/// one flag is stored.
pub fn execute_remove_admin(store: &mut Store, info: &MessageInfo, admin: String) -> (r: Result<
    Response,
    ContractError,
>)
    ensures
        honours(
            ledger(*old(store)).remove_admin(info.sender@, admin@, Some(admin@)),
            ledger(*old(store)),
            ledger(*final(store)),
            r,
        ) || honours(
            ledger(*old(store)).remove_admin(info.sender@, admin@, None),
            ledger(*old(store)),
            ledger(*final(store)),
            r,
        ),
        ledger(*old(store)).consistent() ==> ledger(*final(store)).consistent(),
{
    let checked = addr_validate(store, admin.as_str());
    remove_admin_checked(store, info, admin, checked)
}

/// Takes the admin rights of an address away, once the host has had its say
/// on it. A sender without admin rights is refused whatever the host said.
/// Where the host refused the address, its error is handed on and nothing is
/// written. Where it accepted, the flag of the address as accepted is
/// removed, unless no more than one flag is stored.
pub fn remove_admin_checked(
    store: &mut Store,
    info: &MessageInfo,
    admin: String,
    checked: Result<String, cosmwasm_std::StdError>,
) -> (r: Result<Response, ContractError>)
    ensures
        honours(
            ledger(*old(store)).remove_admin(info.sender@, admin@, host_answer(checked)),
            ledger(*old(store)),
            ledger(*final(store)),
            r,
        ),
        ledger(*old(store)).is_admin(info.sender@) ==> (checked matches Err(e) ==> r == Err::<
            Response,
            ContractError,
        >(ContractError::Std(e))),
        ledger(*old(store)).consistent() ==> ledger(*final(store)).consistent(),
{
    proof {
        if ledger(*store).consistent() {
            law_admin_changes_keep_consistency(
                ledger(*store),
                info.sender@,
                admin@,
                host_answer(checked),
            );
        }
    }
    match is_admin(store, info.sender.as_str()) {
        Ok(true) => {},
        Ok(false) => {
            return Err(ContractError::Unauthorized {  });
        },
        Err(e) => {
            return Err(ContractError::Std(e));
        },
    }
    let admin_addr = match checked {
        Ok(addr) => addr,
        Err(e) => {
            return Err(ContractError::Std(e));
        },
    };
    let is_last_admin = admins_count(store) <= 1;
    if is_last_admin {
        return Err(
            ContractError::CustomError { message: "Cannot remove the last admin".to_owned() },
        );
    }
    admins_remove(store, admin_addr.as_str());
    let mut attributes: Vec<Attribute> = Vec::new();
    attributes.push(attribute("method", "remove_admin"));
    attributes.push(attribute("admin", admin.as_str()));
    let response = Response { attributes };
    assert(response@ =~= seq![("method"@, "remove_admin"@), ("admin"@, admin@)]);
    Ok(response)
}

/// The size of a page where the caller names none.
pub const DEFAULT_LIMIT: u32 = 30;

/// The size of the page that a query asks for.
pub open spec fn page_limit(limit: Option<u32>) -> nat {
    match limit {
        Some(n) => n as nat,
        None => DEFAULT_LIMIT as nat,
    }
}

/// What the ledger answers to a query.
pub open spec fn answer_to(l: Ledger, msg: QueryMsg) -> AnswerView {
    match msg {
        QueryMsg::GetProfile { username } => AnswerView::Profile(l.profile(username@)),
        QueryMsg::GetProfileByWallet { wallet } => AnswerView::Profile(
            l.profile_by_wallet(wallet@),
        ),
        QueryMsg::ListProfiles { limit, start_after } => AnswerView::Profiles(
            l.list_profiles(page_limit(limit), opt_text(start_after)),
        ),
        QueryMsg::GetTipsSent { username, limit, start_after } => AnswerView::Tips(
            l.tips_sent(username@, page_limit(limit), opt_text(start_after)),
        ),
        QueryMsg::GetTipsReceived { username, limit, start_after } => AnswerView::Tips(
            l.tips_received(username@, page_limit(limit), opt_text(start_after)),
        ),
        QueryMsg::GetTipDetail { from_username, to_username, timestamp } => AnswerView::TipDetail(
            l.tip_detail(from_username@, to_username@, timestamp.nanos),
        ),
        QueryMsg::GetUserStats { username } => AnswerView::Stats(l.stats(username@)),
        QueryMsg::IsAdmin { address } => AnswerView::Admin(l.is_admin(address@)),
        QueryMsg::IsUsernameAvailable { username } => AnswerView::UsernameAvailable(
            l.is_username_available(username@),
        ),
    }
}

/// The size of the page that a query asks for.
fn limit_of(limit: Option<u32>) -> (n: usize)
    ensures
        n == page_limit(limit),
{
    match limit {
        Some(n) => n as usize,
        None => DEFAULT_LIMIT as usize,
    }
}

/// Whether the store holds what a query needs in a form that decodes.
pub open spec fn answerable(l: Ledger, msg: QueryMsg) -> bool {
    match msg {
        QueryMsg::GetProfile { username } => !garbled(l.profiles, username@),
        QueryMsg::GetProfileByWallet { wallet } => !garbled(l.wallets, wallet@) && (read(
            l.wallets,
            wallet@,
        ) matches Some(username) ==> !garbled(l.profiles, username)),
        QueryMsg::ListProfiles { .. } => l.listable(),
        QueryMsg::GetTipsSent { username, .. } => !(l.profiles.dom().contains(username@) && garbled(
            l.sent,
            username@,
        )),
        QueryMsg::GetTipsReceived { username, .. } => !(l.profiles.dom().contains(username@)
            && garbled(l.received, username@)),
        QueryMsg::GetTipDetail { from_username, to_username, timestamp } => !garbled(
            l.tips,
            tip_key(from_username@, to_username@, timestamp.nanos),
        ),
        QueryMsg::GetUserStats { username } => !(l.profiles.dom().contains(username@) && (garbled(
            l.sent,
            username@,
        ) || garbled(l.received, username@))),
        QueryMsg::IsAdmin { address } => !garbled(l.admins, address@),
        QueryMsg::IsUsernameAvailable { .. } => true,
    }
}

/// Whether a query names an address, on which the host has its say.
pub open spec fn asks_host(msg: QueryMsg) -> bool {
    msg is GetProfileByWallet || msg is IsAdmin
}

/// Answers a query. An answer is the ledger's. The host's own error comes
/// where the store holds what the query needs in a form that does not
/// decode, and where the host refuses an address; otherwise an answer is
/// given.
pub fn query(store: &Store, _env: &Env, msg: QueryMsg) -> (r: Result<
    QueryResponse,
    cosmwasm_std::StdError,
>)
    ensures
        r matches Ok(answer) ==> answer@ == answer_to(ledger(*store), msg),
        !answerable(ledger(*store), msg) ==> r is Err,
        answerable(ledger(*store), msg) && !asks_host(msg) ==> r is Ok,
        r is Ok && msg is ListProfiles ==> is_listing(
            ledger(*store).listing(),
            ledger(*store).profiles,
        ),
{
    match msg {
        QueryMsg::GetProfile { username } => match query_profile(store, username) {
            Ok(response) => Ok(QueryResponse::Profile(response)),
            Err(e) => Err(e),
        },
        QueryMsg::GetProfileByWallet { wallet } => match query_profile_by_wallet(store, wallet) {
            Ok(response) => Ok(QueryResponse::Profile(response)),
            Err(e) => Err(e),
        },
        QueryMsg::ListProfiles { limit, start_after } => match query_list_profiles(
            store,
            limit,
            start_after,
        ) {
            Ok(response) => Ok(QueryResponse::Profiles(response)),
            Err(e) => Err(e),
        },
        QueryMsg::GetTipsSent { username, limit, start_after } => match query_tips_sent(
            store,
            username,
            limit,
            start_after,
        ) {
            Ok(response) => Ok(QueryResponse::Tips(response)),
            Err(e) => Err(e),
        },
        QueryMsg::GetTipsReceived { username, limit, start_after } => match query_tips_received(
            store,
            username,
            limit,
            start_after,
        ) {
            Ok(response) => Ok(QueryResponse::Tips(response)),
            Err(e) => Err(e),
        },
        QueryMsg::GetTipDetail { from_username, to_username, timestamp } => match query_tip_detail(
            store,
            from_username,
            to_username,
            timestamp,
        ) {
            Ok(response) => Ok(QueryResponse::TipDetail(response)),
            Err(e) => Err(e),
        },
        QueryMsg::GetUserStats { username } => match query_user_stats(store, username) {
            Ok(response) => Ok(QueryResponse::Stats(response)),
            Err(e) => Err(e),
        },
        QueryMsg::IsAdmin { address } => match query_is_admin(store, address) {
            Ok(response) => Ok(QueryResponse::Admin(response)),
            Err(e) => Err(e),
        },
        QueryMsg::IsUsernameAvailable { username } => match query_is_username_available(
            store,
            username,
        ) {
            Ok(response) => Ok(QueryResponse::UsernameAvailable(response)),
            Err(e) => Err(e),
        },
    }
}

/// The profile of `username`, if there is one. Fails exactly where the
/// stored profile does not decode.
pub fn query_profile(store: &Store, username: String) -> (r: Result<
    ProfileResponse,
    cosmwasm_std::StdError,
>)
    ensures
        r matches Ok(response) ==> response@ == ledger(*store).profile(username@),
        r is Err <==> garbled(ledger(*store).profiles, username@),
{
    match profiles_may_load(store, username.as_str()) {
        Ok(Some(row)) => Ok(ProfileResponse { profile: Some(UserProfile::from_row(&row)) }),
        Ok(None) => Ok(ProfileResponse { profile: None }),
        Err(e) => Err(e),
    }
}

/// The profile that `wallet` owns, if it owns one. Fails where the host
/// refuses the address, and where the wallet's entry or its profile does
/// not decode.
pub fn query_profile_by_wallet(store: &Store, wallet: String) -> (r: Result<
    ProfileResponse,
    cosmwasm_std::StdError,
>)
    ensures
        r matches Ok(response) ==> response@ == ledger(*store).profile_by_wallet(wallet@),
        !answerable(ledger(*store), QueryMsg::GetProfileByWallet { wallet }) ==> r is Err,
{
    let checked = addr_validate(store, wallet.as_str());
    profile_by_checked_wallet(store, checked)
}

/// The profile that a wallet owns, once the host has had its say on the
/// wallet's address. Where the host refused, its error is handed on. Where
/// it accepted, the answer is the ledger's, and fails exactly where the
/// wallet's entry or its profile does not decode.
pub fn profile_by_checked_wallet(
    store: &Store,
    checked: Result<String, cosmwasm_std::StdError>,
) -> (r: Result<ProfileResponse, cosmwasm_std::StdError>)
    ensures
        match checked {
            Err(e) => r == Err::<ProfileResponse, cosmwasm_std::StdError>(e),
            Ok(wallet) => {
                &&& r is Err <==> !answerable(
                    ledger(*store),
                    QueryMsg::GetProfileByWallet { wallet },
                )
                &&& r matches Ok(response) ==> response@ == ledger(*store).profile_by_wallet(
                    wallet@,
                )
            },
        },
{
    let addr = match checked {
        Ok(addr) => addr,
        Err(e) => {
            return Err(e);
        },
    };
    let username = match wallets_may_load(store, addr.as_str()) {
        Ok(Some(username)) => username,
        Ok(None) => {
            return Ok(ProfileResponse { profile: None });
        },
        Err(e) => {
            return Err(e);
        },
    };
    query_profile(store, username)
}

/// One page of profiles in ascending order of username, after the cursor.
/// Fails exactly where a stored profile does not decode or is stored under
/// a key that is no text; where it answers, the profiles have a listing.
pub fn query_list_profiles(store: &Store, limit: Option<u32>, start_after: Option<String>) -> (r:
    Result<ProfilesResponse, cosmwasm_std::StdError>)
    ensures
        r matches Ok(response) ==> response@ == ledger(*store).list_profiles(
            page_limit(limit),
            opt_text(start_after),
        ),
        r is Err <==> !ledger(*store).listable(),
        r is Ok ==> is_listing(ledger(*store).listing(), ledger(*store).profiles),
{
    let limit = limit_of(limit);
    let all_profiles = match profiles_range(store) {
        Ok(list) => list,
        Err(e) => {
            return Err(e);
        },
    };
    proof {
        lemma_listing_is(ledger(*store), listing_view(all_profiles@));
        lemma_listing_decodes(listing_view(all_profiles@), ledger(*store).profiles);
    }
    let profiles = profiles_page(&all_profiles, limit, &start_after);
    Ok(ProfilesResponse { profiles })
}

/// One page of the tips that `username` sent, newest first. Fails exactly
/// where the user has a profile and a list that does not decode.
pub fn query_tips_sent(
    store: &Store,
    username: String,
    limit: Option<u32>,
    start_after: Option<String>,
) -> (r: Result<TipsResponse, cosmwasm_std::StdError>)
    ensures
        r matches Ok(response) ==> response@ == ledger(*store).tips_sent(
            username@,
            page_limit(limit),
            opt_text(start_after),
        ),
        r is Err <==> ledger(*store).profiles.dom().contains(username@) && garbled(
            ledger(*store).sent,
            username@,
        ),
{
    if !profiles_has(store, username.as_str()) {
        return Ok(TipsResponse { tips: Vec::new() });
    }
    let limit = limit_of(limit);
    let tip_refs: Vec<TipRef> = match sent_may_load(store, username.as_str()) {
        Ok(Some(list)) => list,
        Ok(None) => Vec::new(),
        Err(e) => {
            return Err(e);
        },
    };
    assert(refs_view(tip_refs@) =~= ledger(*store).sent_of(username@));
    let tips = tips_page(store, &tip_refs, limit, &start_after);
    Ok(TipsResponse { tips })
}

/// One page of the tips that `username` received, newest first. Fails
/// exactly where the user has a profile and a list that does not decode.
pub fn query_tips_received(
    store: &Store,
    username: String,
    limit: Option<u32>,
    start_after: Option<String>,
) -> (r: Result<TipsResponse, cosmwasm_std::StdError>)
    ensures
        r matches Ok(response) ==> response@ == ledger(*store).tips_received(
            username@,
            page_limit(limit),
            opt_text(start_after),
        ),
        r is Err <==> ledger(*store).profiles.dom().contains(username@) && garbled(
            ledger(*store).received,
            username@,
        ),
{
    if !profiles_has(store, username.as_str()) {
        return Ok(TipsResponse { tips: Vec::new() });
    }
    let limit = limit_of(limit);
    let tip_refs: Vec<TipRef> = match received_may_load(store, username.as_str()) {
        Ok(Some(list)) => list,
        Ok(None) => Vec::new(),
        Err(e) => {
            return Err(e);
        },
    };
    assert(refs_view(tip_refs@) =~= ledger(*store).received_of(username@));
    let tips = tips_page(store, &tip_refs, limit, &start_after);
    Ok(TipsResponse { tips })
}

/// The tip that `from_username` sent to `to_username` at `timestamp`, if
/// one is filed. Fails exactly where what is filed does not decode.
pub fn query_tip_detail(
    store: &Store,
    from_username: String,
    to_username: String,
    timestamp: Timestamp,
) -> (r: Result<TipDetailResponse, cosmwasm_std::StdError>)
    ensures
        r matches Ok(response) ==> response@ == ledger(*store).tip_detail(
            from_username@,
            to_username@,
            timestamp.nanos,
        ),
        r is Err <==> garbled(
            ledger(*store).tips,
            tip_key(from_username@, to_username@, timestamp.nanos),
        ),
{
    let key = generate_tip_key(from_username.as_str(), to_username.as_str(), timestamp.nanos());
    match tips_may_load(store, key.as_str()) {
        Ok(Some(row)) => Ok(TipDetailResponse { tip: Some(TipRecord::from_row(&row)) }),
        Ok(None) => Ok(TipDetailResponse { tip: None }),
        Err(e) => Err(e),
    }
}

/// How many tips `username` sent and received, and the totals of their
/// amounts. Fails exactly where the user has a profile and a list that does
/// not decode.
pub fn query_user_stats(store: &Store, username: String) -> (r: Result<
    StatsResponse,
    cosmwasm_std::StdError,
>)
    ensures
        r matches Ok(response) ==> response@ == ledger(*store).stats(username@),
        r is Err <==> ledger(*store).profiles.dom().contains(username@) && (garbled(
            ledger(*store).sent,
            username@,
        ) || garbled(ledger(*store).received, username@)),
{
    if !profiles_has(store, username.as_str()) {
        let zero_sent = amount_string((0, 0));
        let zero_received = amount_string((0, 0));
        return Ok(
            StatsResponse {
                total_tips_sent: 0,
                total_tips_received: 0,
                total_amount_sent: zero_sent,
                total_amount_received: zero_received,
            },
        );
    }
    let tips_sent: Vec<TipRef> = match sent_may_load(store, username.as_str()) {
        Ok(Some(list)) => list,
        Ok(None) => Vec::new(),
        Err(e) => {
            return Err(e);
        },
    };
    assert(refs_view(tips_sent@) =~= ledger(*store).sent_of(username@));
    let total_tips_sent = tips_sent.len() as u64;
    let tips_received: Vec<TipRef> = match received_may_load(store, username.as_str()) {
        Ok(Some(list)) => list,
        Ok(None) => Vec::new(),
        Err(e) => {
            return Err(e);
        },
    };
    assert(refs_view(tips_received@) =~= ledger(*store).received_of(username@));
    let total_tips_received = tips_received.len() as u64;
    let total_amount_sent = amount_string(sum_amounts(store, &tips_sent));
    let total_amount_received = amount_string(sum_amounts(store, &tips_received));
    Ok(StatsResponse { total_tips_sent, total_tips_received, total_amount_sent, total_amount_received })
}

/// Whether `address` has admin rights. Fails where the host refuses the
/// address, and where its flag does not decode.
pub fn query_is_admin(store: &Store, address: String) -> (r: Result<
    AdminResponse,
    cosmwasm_std::StdError,
>)
    ensures
        r matches Ok(response) ==> response.is_admin == ledger(*store).is_admin(address@),
        garbled(ledger(*store).admins, address@) ==> r is Err,
{
    let checked = addr_validate(store, address.as_str());
    admin_by_checked_address(store, checked)
}

/// Whether an address has admin rights, once the host has had its say on
/// the address. Where the host refused, its error is handed on. Where it
/// accepted, the answer is the ledger's, and fails exactly where the flag of
/// the address does not decode.
pub fn admin_by_checked_address(
    store: &Store,
    checked: Result<String, cosmwasm_std::StdError>,
) -> (r: Result<AdminResponse, cosmwasm_std::StdError>)
    ensures
        match checked {
            Err(e) => r == Err::<AdminResponse, cosmwasm_std::StdError>(e),
            Ok(address) => {
                &&& r is Err <==> garbled(ledger(*store).admins, address@)
                &&& r matches Ok(response) ==> response.is_admin == ledger(*store).is_admin(
                    address@,
                )
            },
        },
{
    let addr = match checked {
        Ok(addr) => addr,
        Err(e) => {
            return Err(e);
        },
    };
    match is_admin(store, addr.as_str()) {
        Ok(is_admin) => Ok(AdminResponse { is_admin }),
        Err(e) => Err(e),
    }
}

/// Whether `username` is well formed and not taken. Changes nothing, and
/// always answers.
pub fn query_is_username_available(store: &Store, username: String) -> (r: Result<
    UsernameAvailableResponse,
    cosmwasm_std::StdError,
>)
    ensures
        r matches Ok(response) && response.is_available == ledger(*store).is_username_available(
            username@,
        ),
{
    let is_valid = match validate_username(username.as_str()) {
        Ok(_) => true,
        Err(_) => false,
    };
    let is_available = is_valid && !profiles_has(store, username.as_str());
    Ok(UsernameAvailableResponse { is_available })
}

} // verus!
