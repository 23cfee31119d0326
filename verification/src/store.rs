//! The host's key-value store, seen through the six maps that the registry
//! keeps in it, and the keys of two of them that are no text. Nothing in this file is proved: each function below makes one
//! call into `cw_storage_plus` or `cosmwasm_std`, and its contract says what
//! that call does to the maps.

use vstd::prelude::*;
use crate::ledger::{all_decode, garbled, is_listing, none_of, read, Ledger};
use crate::state::{profile_of_row, refs_view, tip_of_row, ProfileRow, ProfileView, TipRef, TipRow, TipView};

verus! {

/// The error type of `cosmwasm_std`, carried through as it comes.
#[verifier::external_type_specification]
#[verifier::external_body]
pub struct ExStdError(cosmwasm_std::StdError);

/// What the host lends the contract for one call: its key-value store and
/// its say on addresses. The fields are public so that an entry point can
/// hand on what the host handed it; nothing in this crate reads them but the
/// functions of this file and the address check.
#[verifier::external_body]
pub struct Store<'a> {
    pub storage: &'a mut dyn cosmwasm_std::Storage,
    pub api: &'a dyn cosmwasm_std::Api,
}

/// The profiles in the store: for each key under which the namespace
/// `user_profiles` holds something, the profile that it decodes to, or
/// `None` where it does not decode.
pub uninterp spec fn stored_profiles(store: Store) -> Map<Seq<char>, Option<ProfileView>>;

/// The wallet index in the store: for each key under which the namespace
/// `wallet_to_username` holds something, the username that it decodes to,
/// or `None` where it does not decode.
pub uninterp spec fn stored_wallets(store: Store) -> Map<Seq<char>, Option<Seq<char>>>;

/// The tips in the store: for each key under which the namespace
/// `tip_records` holds something, the tip that it decodes to, or `None`
/// where it does not decode.
pub uninterp spec fn stored_tips(store: Store) -> Map<Seq<char>, Option<TipView>>;

/// The lists of tips sent in the store: for each key under which the
/// namespace `tips_sent` holds something, the list that it decodes to, or
/// `None` where it does not decode.
pub uninterp spec fn stored_sent(store: Store) -> Map<
    Seq<char>,
    Option<Seq<(Seq<char>, Seq<char>)>>,
>;

/// The lists of tips received in the store: for each key under which the
/// namespace `tips_received` holds something, the list that it decodes to,
/// or `None` where it does not decode.
pub uninterp spec fn stored_received(store: Store) -> Map<
    Seq<char>,
    Option<Seq<(Seq<char>, Seq<char>)>>,
>;

/// The admin flags in the store: for each key under which the namespace
/// `contract_admins` holds something, the flag that it decodes to, or
/// `None` where it does not decode.
pub uninterp spec fn stored_admins(store: Store) -> Map<Seq<char>, Option<bool>>;

/// The keys under which the namespace `user_profiles` holds something and
/// which are no text: what follows the namespace in them is not UTF-8.
pub uninterp spec fn stray_profile_keys(store: Store) -> Set<Seq<u8>>;

/// The keys under which the namespace `contract_admins` holds something
/// and which are no text: what follows the namespace in them is not UTF-8.
pub uninterp spec fn stray_admin_keys(store: Store) -> Set<Seq<u8>>;

/// The registry that a store holds.
pub open spec fn ledger(store: Store) -> Ledger {
    Ledger {
        profiles: stored_profiles(store),
        wallets: stored_wallets(store),
        tips: stored_tips(store),
        sent: stored_sent(store),
        received: stored_received(store),
        admins: stored_admins(store),
        stray_profiles: stray_profile_keys(store),
        stray_admins: stray_admin_keys(store),
    }
}

/// What a listing of profiles holds, as plain values.
pub open spec fn listing_view(list: Seq<(String, ProfileRow)>) -> Seq<(Seq<char>, ProfileView)> {
    list.map_values(|e: (String, ProfileRow)| (e.0@, profile_of_row(e.1)))
}

/// Whether `n` keys are stored: those that are texts and those that are
/// not, finitely many of each.
pub open spec fn counts(n: nat, texts: Set<Seq<char>>, strays: Set<Seq<u8>>) -> bool {
    texts.finite() && strays.finite() && texts.len() + strays.len() == n
}

/// `Map::has` on the profiles: whether something is stored under `key`.
#[verifier::external_body]
pub(crate) fn profiles_has(store: &Store, key: &str) -> (r: bool)
    ensures
        r == stored_profiles(*store).dom().contains(key@),
{
    cw_storage_plus::Map::<&str, ProfileRow>::new("user_profiles").has(store.storage, key)
}

/// `Map::load` on the profiles: the row under `key`; an error where nothing
/// is stored there, or something that does not decode.
#[verifier::external_body]
pub(crate) fn profiles_load(store: &Store, key: &str) -> (r: Result<ProfileRow, cosmwasm_std::StdError>)
    ensures
        r matches Ok(row) ==> read(stored_profiles(*store), key@) == Some(profile_of_row(row)),
        r is Err ==> read(stored_profiles(*store), key@) is None,
{
    cw_storage_plus::Map::<&str, ProfileRow>::new("user_profiles").load(store.storage, key)
}

/// `Map::may_load` on the profiles: the row under `key`, `None` where
/// nothing is stored there; an error where what is stored there does not
/// decode.
#[verifier::external_body]
pub(crate) fn profiles_may_load(store: &Store, key: &str) -> (r: Result<
    Option<ProfileRow>,
    cosmwasm_std::StdError,
>)
    ensures
        r matches Ok(Some(row)) ==> read(stored_profiles(*store), key@) == Some(
            profile_of_row(row),
        ),
        r matches Ok(None) ==> !stored_profiles(*store).dom().contains(key@),
        r is Err ==> garbled(stored_profiles(*store), key@),
{
    cw_storage_plus::Map::<&str, ProfileRow>::new("user_profiles").may_load(store.storage, key)
}

/// `Map::save` on the profiles: `row` is stored under `key` and nothing
/// else changes. The call succeeds: it fails only where the encoder refuses
/// the value, and the encoder refuses no text, number, option or tuple.
#[verifier::external_body]
pub(crate) fn profiles_save(store: &mut Store, key: &str, row: &ProfileRow) -> (r: Result<
    (),
    cosmwasm_std::StdError,
>)
    ensures
        r is Ok,
        ledger(*final(store)) == ledger(*old(store)).with_profile(
            key@,
            profile_of_row(*row),
        ),
{
    cw_storage_plus::Map::<&str, ProfileRow>::new("user_profiles").save(store.storage, key, row)
}

/// `Map::range` over all profiles, ascending, collected: every stored
/// profile with its key, in ascending order of key; an error where a
/// profile does not decode or a key is no text.
#[verifier::external_body]
pub(crate) fn profiles_range(store: &Store) -> (r: Result<
    Vec<(String, ProfileRow)>,
    cosmwasm_std::StdError,
>)
    ensures
        r matches Ok(list) ==> is_listing(listing_view(list@), stored_profiles(*store)) && none_of(
            stray_profile_keys(*store),
        ),
        r is Err ==> !(all_decode(stored_profiles(*store)) && none_of(stray_profile_keys(*store))),
{
    cw_storage_plus::Map::<&str, ProfileRow>::new("user_profiles").range(
        store.storage,
        None,
        None,
        cosmwasm_std::Order::Ascending,
    ).collect()
}

/// `Map::has` on the wallet index: whether something is stored under
/// `wallet`.
#[verifier::external_body]
pub(crate) fn wallets_has(store: &Store, wallet: &str) -> (r: bool)
    ensures
        r == stored_wallets(*store).dom().contains(wallet@),
{
    cw_storage_plus::Map::<&str, String>::new("wallet_to_username").has(store.storage, wallet)
}

/// `Map::load` on the wallet index: the username under `wallet`; an error
/// where nothing is stored there, or something that does not decode.
#[verifier::external_body]
pub(crate) fn wallets_load(store: &Store, wallet: &str) -> (r: Result<String, cosmwasm_std::StdError>)
    ensures
        r matches Ok(name) ==> read(stored_wallets(*store), wallet@) == Some(name@),
        r is Err ==> read(stored_wallets(*store), wallet@) is None,
{
    cw_storage_plus::Map::<&str, String>::new("wallet_to_username").load(store.storage, wallet)
}

/// `Map::may_load` on the wallet index: the username under `wallet`, `None`
/// where nothing is stored there; an error where what is stored there does
/// not decode.
#[verifier::external_body]
pub(crate) fn wallets_may_load(store: &Store, wallet: &str) -> (r: Result<
    Option<String>,
    cosmwasm_std::StdError,
>)
    ensures
        r matches Ok(Some(name)) ==> read(stored_wallets(*store), wallet@) == Some(name@),
        r matches Ok(None) ==> !stored_wallets(*store).dom().contains(wallet@),
        r is Err ==> garbled(stored_wallets(*store), wallet@),
{
    cw_storage_plus::Map::<&str, String>::new("wallet_to_username").may_load(store.storage, wallet)
}

/// `Map::save` on the wallet index: `username` is stored under `wallet` and
/// nothing else changes. The call succeeds: the encoder refuses no text.
#[verifier::external_body]
pub(crate) fn wallets_save(store: &mut Store, wallet: &str, username: &String) -> (r: Result<
    (),
    cosmwasm_std::StdError,
>)
    ensures
        r is Ok,
        ledger(*final(store)) == ledger(*old(store)).with_wallet(wallet@, username@),
{
    cw_storage_plus::Map::<&str, String>::new("wallet_to_username").save(
        store.storage,
        wallet,
        username,
    )
}

/// `Map::load` on the tips: the row under `key`; an error where nothing is
/// stored there, or something that does not decode.
#[verifier::external_body]
pub(crate) fn tips_load(store: &Store, key: &str) -> (r: Result<TipRow, cosmwasm_std::StdError>)
    ensures
        r matches Ok(row) ==> read(stored_tips(*store), key@) == Some(tip_of_row(row)),
        r is Err ==> read(stored_tips(*store), key@) is None,
{
    cw_storage_plus::Map::<&str, TipRow>::new("tip_records").load(store.storage, key)
}

/// `Map::may_load` on the tips: the row under `key`, `None` where nothing
/// is stored there; an error where what is stored there does not decode.
#[verifier::external_body]
pub(crate) fn tips_may_load(store: &Store, key: &str) -> (r: Result<
    Option<TipRow>,
    cosmwasm_std::StdError,
>)
    ensures
        r matches Ok(Some(row)) ==> read(stored_tips(*store), key@) == Some(tip_of_row(row)),
        r matches Ok(None) ==> !stored_tips(*store).dom().contains(key@),
        r is Err ==> garbled(stored_tips(*store), key@),
{
    cw_storage_plus::Map::<&str, TipRow>::new("tip_records").may_load(store.storage, key)
}

/// `Map::save` on the tips: `row` is stored under `key` and nothing else
/// changes. The call succeeds: the encoder refuses no text, number, option
/// or tuple.
#[verifier::external_body]
pub(crate) fn tips_save(store: &mut Store, key: &str, row: &TipRow) -> (r: Result<
    (),
    cosmwasm_std::StdError,
>)
    ensures
        r is Ok,
        ledger(*final(store)) == ledger(*old(store)).with_tip(key@, tip_of_row(*row)),
{
    cw_storage_plus::Map::<&str, TipRow>::new("tip_records").save(store.storage, key, row)
}

/// `Map::may_load` on the lists of tips sent: the list under `username`,
/// `None` where nothing is stored there; an error where what is stored
/// there does not decode.
#[verifier::external_body]
pub(crate) fn sent_may_load(store: &Store, username: &str) -> (r: Result<
    Option<Vec<TipRef>>,
    cosmwasm_std::StdError,
>)
    ensures
        r matches Ok(Some(list)) ==> read(stored_sent(*store), username@) == Some(
            refs_view(list@),
        ),
        r matches Ok(None) ==> !stored_sent(*store).dom().contains(username@),
        r is Err ==> garbled(stored_sent(*store), username@),
{
    cw_storage_plus::Map::<&str, Vec<TipRef>>::new("tips_sent").may_load(store.storage, username)
}

/// `Map::save` on the lists of tips sent: `list` is stored under `username`
/// and nothing else changes. The call succeeds: the encoder refuses no list
/// of pairs of texts.
#[verifier::external_body]
pub(crate) fn sent_save(store: &mut Store, username: &str, list: &Vec<TipRef>) -> (r: Result<
    (),
    cosmwasm_std::StdError,
>)
    ensures
        r is Ok,
        ledger(*final(store)) == ledger(*old(store)).with_sent(
            username@,
            refs_view(list@),
        ),
{
    cw_storage_plus::Map::<&str, Vec<TipRef>>::new("tips_sent").save(store.storage, username, list)
}

/// `Map::may_load` on the lists of tips received: the list under
/// `username`, `None` where nothing is stored there; an error where what is
/// stored there does not decode.
#[verifier::external_body]
pub(crate) fn received_may_load(store: &Store, username: &str) -> (r: Result<
    Option<Vec<TipRef>>,
    cosmwasm_std::StdError,
>)
    ensures
        r matches Ok(Some(list)) ==> read(stored_received(*store), username@) == Some(
            refs_view(list@),
        ),
        r matches Ok(None) ==> !stored_received(*store).dom().contains(username@),
        r is Err ==> garbled(stored_received(*store), username@),
{
    cw_storage_plus::Map::<&str, Vec<TipRef>>::new("tips_received").may_load(
        store.storage,
        username,
    )
}

/// `Map::save` on the lists of tips received: `list` is stored under
/// `username` and nothing else changes. The call succeeds: the encoder
/// refuses no list of pairs of texts.
#[verifier::external_body]
pub(crate) fn received_save(store: &mut Store, username: &str, list: &Vec<TipRef>) -> (r: Result<
    (),
    cosmwasm_std::StdError,
>)
    ensures
        r is Ok,
        ledger(*final(store)) == ledger(*old(store)).with_received(
            username@,
            refs_view(list@),
        ),
{
    cw_storage_plus::Map::<&str, Vec<TipRef>>::new("tips_received").save(
        store.storage,
        username,
        list,
    )
}

/// `Map::may_load` on the admin flags: the flag under `wallet`, `None`
/// where nothing is stored there; an error where what is stored there does
/// not decode.
#[verifier::external_body]
pub(crate) fn admins_may_load(store: &Store, wallet: &str) -> (r: Result<
    Option<bool>,
    cosmwasm_std::StdError,
>)
    ensures
        r matches Ok(Some(flag)) ==> read(stored_admins(*store), wallet@) == Some(flag),
        r matches Ok(None) ==> !stored_admins(*store).dom().contains(wallet@),
        r is Err ==> garbled(stored_admins(*store), wallet@),
{
    cw_storage_plus::Map::<&str, bool>::new("contract_admins").may_load(store.storage, wallet)
}

/// `Map::save` on the admin flags: `flag` is stored under `wallet` and
/// nothing else changes. The call succeeds: the encoder refuses no flag.
#[verifier::external_body]
pub(crate) fn admins_save(store: &mut Store, wallet: &str, flag: bool) -> (r: Result<
    (),
    cosmwasm_std::StdError,
>)
    ensures
        r is Ok,
        ledger(*final(store)) == ledger(*old(store)).with_admin(wallet@, flag),
{
    cw_storage_plus::Map::<&str, bool>::new("contract_admins").save(store.storage, wallet, &flag)
}

/// `Map::remove` on the admin flags: afterwards nothing is stored under
/// `wallet`, and nothing else has changed.
#[verifier::external_body]
pub(crate) fn admins_remove(store: &mut Store, wallet: &str)
    ensures
        ledger(*final(store)) == ledger(*old(store)).without_admin(wallet@),
{
    cw_storage_plus::Map::<&str, bool>::new("contract_admins").remove(store.storage, wallet)
}

/// `Map::keys` over all admin flags, counted: under how many keys a flag is
/// stored, whether the key is a text or not.
#[verifier::external_body]
pub(crate) fn admins_count(store: &Store) -> (n: usize)
    ensures
        counts(n as nat, stored_admins(*store).dom(), stray_admin_keys(*store)),
{
    cw_storage_plus::Map::<&str, bool>::new("contract_admins").keys(
        store.storage,
        None,
        None,
        cosmwasm_std::Order::Ascending,
    ).count()
}

} // verus!
