//! The registry as a mathematical value: six maps, what each command makes
//! of them, and what each query reads from them.
//!
//! The maps are those of the store, so they tell what is there, not what
//! ought to be: under a key the store can hold something that does not
//! decode, and the maps have `None` there; and where the store is walked,
//! among the profiles and the admin flags, it can hold a key that is no
//! text, which the ledger keeps beside the maps. Where
//! [`Ledger::consistent`] holds there is neither, and every command keeps
//! it so.

use vstd::prelude::*;
use crate::error::{cannot_remove_last_admin, sender_not_registered, ErrorView};
use crate::helpers::tip_key;
use crate::msg::StatsView;
use crate::state::{timestamp_text, ProfileView, TipView};
use crate::text::{
    decimal_text, lemma_text_lt_asymmetric, lemma_text_lt_irreflexive, parse_decimal, text_le,
    text_lt,
};
use crate::username::{username_fault, valid_username};

verus! {

/// Everything the registry holds. Each map has an entry for every key
/// under which something is stored: the value, or `None` for something that
/// does not decode.
pub struct Ledger {
    /// Profiles by username.
    pub profiles: Map<Seq<char>, Option<ProfileView>>,
    /// The username that each wallet owns.
    pub wallets: Map<Seq<char>, Option<Seq<char>>>,
    /// Tips by composite key.
    pub tips: Map<Seq<char>, Option<TipView>>,
    /// For each username, the tips it sent: recipient and key, oldest first.
    pub sent: Map<Seq<char>, Option<Seq<(Seq<char>, Seq<char>)>>>,
    /// For each username, the tips it received: sender and key, oldest first.
    pub received: Map<Seq<char>, Option<Seq<(Seq<char>, Seq<char>)>>>,
    /// The wallets with a flag for admin rights, each with its flag.
    pub admins: Map<Seq<char>, Option<bool>>,
    /// The keys among the profiles that are no text, as raw bytes.
    pub stray_profiles: Set<Seq<u8>>,
    /// The keys among the admin flags that are no text, as raw bytes.
    pub stray_admins: Set<Seq<u8>>,
}

/// The value under `key`, where there is one and it decodes.
pub open spec fn read<V>(m: Map<Seq<char>, Option<V>>, key: Seq<char>) -> Option<V> {
    if m.dom().contains(key) {
        m[key]
    } else {
        None
    }
}

/// Whether something is stored under `key` that does not decode.
pub open spec fn garbled<V>(m: Map<Seq<char>, Option<V>>, key: Seq<char>) -> bool {
    m.dom().contains(key) && m[key] is None
}

/// Whether everything that is stored decodes.
pub open spec fn all_decode<V>(m: Map<Seq<char>, Option<V>>) -> bool {
    forall|key: Seq<char>| m.dom().contains(key) ==> (#[trigger] m[key]) is Some
}

/// Whether a set of raw keys holds nothing.
pub open spec fn none_of(keys: Set<Seq<u8>>) -> bool {
    forall|key: Seq<u8>| !keys.contains(key)
}

/// A command that succeeded: the registry after it, and the attributes it
/// reports.
pub struct Outcome {
    pub ledger: Ledger,
    pub response: Seq<(Seq<char>, Seq<char>)>,
}

/// The fields that a user chooses at registration.
pub struct NewProfile {
    pub name: Seq<char>,
    pub bio: Option<Seq<char>>,
    pub profile_picture: Option<Seq<char>>,
    pub banner_image: Option<Seq<char>>,
    pub twitter: Option<Seq<char>>,
    pub website: Option<Seq<char>>,
}

/// The fields of a profile that an update names; `None` leaves a field as
/// it is.
pub struct ProfileChanges {
    pub name: Option<Seq<char>>,
    pub bio: Option<Seq<char>>,
    pub profile_picture: Option<Seq<char>>,
    pub banner_image: Option<Seq<char>>,
    pub twitter: Option<Seq<char>>,
    pub website: Option<Seq<char>>,
}

/// The field after an update: the new value where one was given.
pub open spec fn changed(change: Option<Seq<char>>, current: Option<Seq<char>>) -> Option<
    Seq<char>,
> {
    if change is Some {
        change
    } else {
        current
    }
}

/// The profile after an update at `now`.
pub open spec fn updated_profile(p: ProfileView, changes: ProfileChanges, now: u64)
    -> ProfileView {
    ProfileView {
        name: if changes.name is Some {
            changes.name->0
        } else {
            p.name
        },
        bio: changed(changes.bio, p.bio),
        profile_picture: changed(changes.profile_picture, p.profile_picture),
        banner_image: changed(changes.banner_image, p.banner_image),
        twitter: changed(changes.twitter, p.twitter),
        website: changed(changes.website, p.website),
        updated_at: now,
        ..p
    }
}

/// Whether `key` comes after the cursor, where there is one.
pub open spec fn is_after(key: Seq<char>, start_after: Option<Seq<char>>) -> bool {
    start_after is Some ==> text_lt(start_after->0, key)
}

/// The order of a page of tips: greater keys first.
pub open spec fn newest_first() -> spec_fn(Seq<char>, Seq<char>) -> bool {
    |a: Seq<char>, b: Seq<char>| text_le(b, a)
}

/// The keys of the entries of `refs` that come after the cursor, in the
/// order of `refs`.
pub open spec fn keys_after(refs: Seq<(Seq<char>, Seq<char>)>, start_after: Option<Seq<char>>)
    -> Seq<Seq<char>>
    decreases refs.len(),
{
    if refs.len() == 0 {
        Seq::empty()
    } else if is_after(refs.last().1, start_after) {
        keys_after(refs.drop_last(), start_after).push(refs.last().1)
    } else {
        keys_after(refs.drop_last(), start_after)
    }
}

/// The first `limit` of `s`; all of `s` where it is no longer.
pub open spec fn first_n<A>(s: Seq<A>, limit: nat) -> Seq<A> {
    if limit < s.len() {
        s.take(limit as int)
    } else {
        s
    }
}

/// The keys of one page of tips: of the entries after the cursor, the
/// `limit` greatest keys, greatest first.
pub open spec fn page_keys(
    refs: Seq<(Seq<char>, Seq<char>)>,
    limit: nat,
    start_after: Option<Seq<char>>,
) -> Seq<Seq<char>> {
    first_n(keys_after(refs, start_after).sort_by(newest_first()), limit)
}

/// The tips filed under `keys`, in the order of `keys`; a key under which
/// no tip can be read gives nothing.
pub open spec fn resolve(keys: Seq<Seq<char>>, tips: Map<Seq<char>, Option<TipView>>) -> Seq<
    TipView,
>
    decreases keys.len(),
{
    if keys.len() == 0 {
        Seq::empty()
    } else if read(tips, keys.last()) is Some {
        resolve(keys.drop_last(), tips).push(read(tips, keys.last())->0)
    } else {
        resolve(keys.drop_last(), tips)
    }
}

/// The suffix that an amount must carry to count.
pub open spec fn denom() -> Seq<char> {
    seq!['u', 'x', 'i', 'o', 'n']
}

/// What an amount counts for in a total: the number in front of the
/// suffix `uxion`, where that number fits 128 bits; otherwise nothing.
pub open spec fn amount_value(amount: Seq<char>) -> nat {
    let cut = amount.len() - 5;
    if cut >= 0 && amount.skip(cut) == denom() {
        match parse_decimal(amount.take(cut), u128::MAX as nat) {
            Some(n) => n,
            None => 0,
        }
    } else {
        0
    }
}

/// The total of the amounts of the tips that `refs` refers to, as far as
/// they can be read.
pub open spec fn total_amount(
    refs: Seq<(Seq<char>, Seq<char>)>,
    tips: Map<Seq<char>, Option<TipView>>,
) -> nat
    decreases refs.len(),
{
    if refs.len() == 0 {
        0
    } else if read(tips, refs.last().1) is Some {
        total_amount(refs.drop_last(), tips) + amount_value(read(tips, refs.last().1)->0.amount)
    } else {
        total_amount(refs.drop_last(), tips)
    }
}

/// A total as text: the numeral and the suffix.
pub open spec fn amount_text(total: nat) -> Seq<char> {
    decimal_text(total) + denom()
}

/// The profiles of `list` whose username comes after the cursor, in the
/// order of `list`.
pub open spec fn profiles_after(list: Seq<ProfileView>, start_after: Option<Seq<char>>) -> Seq<
    ProfileView,
>
    decreases list.len(),
{
    if list.len() == 0 {
        Seq::empty()
    } else if is_after(list.last().username, start_after) {
        profiles_after(list.drop_last(), start_after).push(list.last())
    } else {
        profiles_after(list.drop_last(), start_after)
    }
}

/// Whether `list` is all of `m`, each entry once, in ascending order of key.
pub open spec fn is_listing(
    list: Seq<(Seq<char>, ProfileView)>,
    m: Map<Seq<char>, Option<ProfileView>>,
) -> bool {
    &&& forall|i: int, j: int| 0 <= i < j < list.len() ==> text_lt(list[i].0, list[j].0)
    &&& forall|i: int|
        0 <= i < list.len() ==> m.dom().contains(#[trigger] list[i].0) && m[list[i].0] == Some(
            list[i].1,
        )
    &&& forall|k: Seq<char>| #[trigger]
        m.dom().contains(k) ==> exists|i: int| 0 <= i < list.len() && list[i].0 == k
}

/// The second components of a list of pairs.
pub open spec fn values_of(list: Seq<(Seq<char>, ProfileView)>) -> Seq<ProfileView> {
    list.map_values(|e: (Seq<char>, ProfileView)| e.1)
}

impl Ledger {
    /// The registry that holds nothing.
    pub open spec fn empty() -> Ledger {
        Ledger {
            profiles: Map::empty(),
            wallets: Map::empty(),
            tips: Map::empty(),
            sent: Map::empty(),
            received: Map::empty(),
            admins: Map::empty(),
            stray_profiles: Set::empty(),
            stray_admins: Set::empty(),
        }
    }

    /// Everything that is stored decodes, and every key that is walked is
    /// a text.
    pub open spec fn readable(self) -> bool {
        &&& all_decode(self.profiles)
        &&& all_decode(self.wallets)
        &&& all_decode(self.tips)
        &&& all_decode(self.sent)
        &&& all_decode(self.received)
        &&& all_decode(self.admins)
        &&& none_of(self.stray_profiles)
        &&& none_of(self.stray_admins)
    }

    /// Whether the profiles can be listed: each decodes, and each key is a
    /// text.
    pub open spec fn listable(self) -> bool {
        all_decode(self.profiles) && none_of(self.stray_profiles)
    }

    /// Under how many keys an admin flag is stored, whatever the key and
    /// the flag.
    pub open spec fn admin_flags(self) -> nat {
        self.admins.dom().len() + self.stray_admins.len()
    }

    /// Profiles and wallets answer to each other: every profile is filed
    /// under its own, valid, username and its owner's entry names it; every
    /// wallet's entry names a profile that the wallet owns.
    pub open spec fn identities_consistent(self) -> bool {
        &&& none_of(self.stray_profiles)
        &&& forall|u: Seq<char>| #[trigger]
            self.profiles.dom().contains(u) ==> {
                &&& valid_username(u)
                &&& self.profiles[u] is Some
                &&& self.profiles[u]->0.username == u
                &&& read(self.wallets, self.profiles[u]->0.wallet_address) == Some(u)
            }
        &&& forall|w: Seq<char>| #[trigger]
            self.wallets.dom().contains(w) ==> {
                &&& self.wallets[w] is Some
                &&& read(self.profiles, self.wallets[w]->0) is Some
                &&& read(self.profiles, self.wallets[w]->0)->0.wallet_address == w
            }
    }

    /// Every tip is filed under its own key, and goes from one profile to
    /// another.
    pub open spec fn tips_consistent(self) -> bool {
        forall|k: Seq<char>| #[trigger]
            self.tips.dom().contains(k) ==> {
                &&& self.tips[k] is Some
                &&& k == tip_key(
                    self.tips[k]->0.from_username,
                    self.tips[k]->0.to_username,
                    self.tips[k]->0.timestamp,
                )
                &&& self.tips[k]->0.from_username != self.tips[k]->0.to_username
                &&& self.profiles.dom().contains(self.tips[k]->0.from_username)
                &&& self.profiles.dom().contains(self.tips[k]->0.to_username)
            }
    }

    /// Every list of tips sent belongs to a profile, and every entry of it
    /// refers to a tip that this profile sent to the user that the entry
    /// names.
    pub open spec fn sent_consistent(self) -> bool {
        &&& forall|u: Seq<char>| #[trigger]
            self.sent.dom().contains(u) ==> self.sent[u] is Some && self.profiles.dom().contains(u)
        &&& forall|u: Seq<char>, i: int|
            0 <= i < self.sent_of(u).len() ==> {
                &&& read(self.tips, (#[trigger] self.sent_of(u)[i]).1) is Some
                &&& read(self.tips, self.sent_of(u)[i].1)->0.from_username == u
                &&& read(self.tips, self.sent_of(u)[i].1)->0.to_username == self.sent_of(u)[i].0
            }
    }

    /// Every list of tips received belongs to a profile, and every entry of
    /// it refers to a tip that the user that the entry names sent to this
    /// profile.
    pub open spec fn received_consistent(self) -> bool {
        &&& forall|u: Seq<char>| #[trigger]
            self.received.dom().contains(u) ==> self.received[u] is Some
                && self.profiles.dom().contains(u)
        &&& forall|u: Seq<char>, i: int|
            0 <= i < self.received_of(u).len() ==> {
                &&& read(self.tips, (#[trigger] self.received_of(u)[i]).1) is Some
                &&& read(self.tips, self.received_of(u)[i].1)->0.to_username == u
                &&& read(self.tips, self.received_of(u)[i].1)->0.from_username
                    == self.received_of(u)[i].0
            }
    }

    /// At least one wallet, and no more than finitely many, has a flag;
    /// every flag decodes, and is stored under a text.
    pub open spec fn admins_remain(self) -> bool {
        &&& self.admins.dom().finite()
        &&& self.admins.dom().len() >= 1
        &&& all_decode(self.admins)
        &&& none_of(self.stray_admins)
    }

    /// What holds of the registry from its instantiation on.
    pub open spec fn consistent(self) -> bool {
        &&& self.identities_consistent()
        &&& self.tips_consistent()
        &&& self.sent_consistent()
        &&& self.received_consistent()
        &&& self.admins_remain()
    }

    pub open spec fn with_profile(self, username: Seq<char>, profile: ProfileView) -> Ledger {
        Ledger { profiles: self.profiles.insert(username, Some(profile)), ..self }
    }

    pub open spec fn with_wallet(self, wallet: Seq<char>, username: Seq<char>) -> Ledger {
        Ledger { wallets: self.wallets.insert(wallet, Some(username)), ..self }
    }

    pub open spec fn with_tip(self, key: Seq<char>, tip: TipView) -> Ledger {
        Ledger { tips: self.tips.insert(key, Some(tip)), ..self }
    }

    pub open spec fn with_sent(self, username: Seq<char>, refs: Seq<(Seq<char>, Seq<char>)>)
        -> Ledger {
        Ledger { sent: self.sent.insert(username, Some(refs)), ..self }
    }

    pub open spec fn with_received(self, username: Seq<char>, refs: Seq<(Seq<char>, Seq<char>)>)
        -> Ledger {
        Ledger { received: self.received.insert(username, Some(refs)), ..self }
    }

    pub open spec fn with_admin(self, wallet: Seq<char>, flag: bool) -> Ledger {
        Ledger { admins: self.admins.insert(wallet, Some(flag)), ..self }
    }

    pub open spec fn without_admin(self, wallet: Seq<char>) -> Ledger {
        Ledger { admins: self.admins.remove(wallet), ..self }
    }

    /// Whether `wallet` has admin rights.
    pub open spec fn is_admin(self, wallet: Seq<char>) -> bool {
        read(self.admins, wallet) == Some(true)
    }

    /// The tips that `username` sent; none where no list can be read.
    pub open spec fn sent_of(self, username: Seq<char>) -> Seq<(Seq<char>, Seq<char>)> {
        match read(self.sent, username) {
            Some(list) => list,
            None => Seq::empty(),
        }
    }

    /// The tips that `username` received; none where no list can be read.
    pub open spec fn received_of(self, username: Seq<char>) -> Seq<(Seq<char>, Seq<char>)> {
        match read(self.received, username) {
            Some(list) => list,
            None => Seq::empty(),
        }
    }

    /// Instantiation by `sender` with `admin` as first admin: both get admin
    /// rights. `checked` is the host's word on `admin`: the address as the
    /// host accepted it, or `None` where it refused.
    pub open spec fn instantiate(
        self,
        sender: Seq<char>,
        admin: Seq<char>,
        checked: Option<Seq<char>>,
    ) -> Result<Outcome, ErrorView> {
        if checked is None {
            Err(ErrorView::Std)
        } else {
            Ok(
                Outcome {
                    ledger: if checked->0 == sender {
                        self.with_admin(checked->0, true)
                    } else {
                        self.with_admin(checked->0, true).with_admin(sender, true)
                    },
                    response: seq![
                        ("method"@, "instantiate"@),
                        ("admin"@, admin),
                        ("creator"@, sender),
                    ],
                },
            )
        }
    }

    /// Registration of `username` by the wallet `sender` at `now`.
    pub open spec fn register(
        self,
        sender: Seq<char>,
        now: u64,
        username: Seq<char>,
        fields: NewProfile,
    ) -> Result<Outcome, ErrorView> {
        if username_fault(username) is Some {
            Err(username_fault(username)->0)
        } else if self.profiles.dom().contains(username) {
            Err(ErrorView::UsernameExists { username })
        } else if garbled(self.wallets, sender) {
            Err(ErrorView::Std)
        } else if self.wallets.dom().contains(sender) {
            Err(ErrorView::WalletAlreadyRegistered { username: self.wallets[sender]->0 })
        } else {
            Ok(
                Outcome {
                    ledger: self.with_profile(
                        username,
                        ProfileView {
                            username,
                            name: fields.name,
                            bio: fields.bio,
                            profile_picture: fields.profile_picture,
                            banner_image: fields.banner_image,
                            twitter: fields.twitter,
                            website: fields.website,
                            wallet_address: sender,
                            created_at: now,
                            updated_at: now,
                        },
                    ).with_wallet(sender, username),
                    response: seq![
                        ("method"@, "register_profile"@),
                        ("username"@, username),
                        ("wallet"@, sender),
                    ],
                },
            )
        }
    }

    /// Update of the profile of `username` by the wallet `sender` at `now`.
    pub open spec fn update(
        self,
        sender: Seq<char>,
        now: u64,
        username: Seq<char>,
        changes: ProfileChanges,
    ) -> Result<Outcome, ErrorView> {
        if !self.profiles.dom().contains(username) {
            Err(ErrorView::UsernameNotFound { username })
        } else if self.profiles[username] is None {
            Err(ErrorView::Std)
        } else if self.profiles[username]->0.wallet_address != sender && garbled(
            self.admins,
            sender,
        ) {
            Err(ErrorView::Std)
        } else if self.profiles[username]->0.wallet_address != sender && !self.is_admin(sender) {
            Err(ErrorView::Unauthorized)
        } else {
            Ok(
                Outcome {
                    ledger: self.with_profile(
                        username,
                        updated_profile(self.profiles[username]->0, changes, now),
                    ),
                    response: seq![("method"@, "update_profile"@), ("username"@, username)],
                },
            )
        }
    }

    /// A tip from the wallet `sender` to `to_username` at `now`.
    pub open spec fn record_tip(
        self,
        sender: Seq<char>,
        now: u64,
        to_username: Seq<char>,
        amount: Seq<char>,
        message: Option<Seq<char>>,
    ) -> Result<Outcome, ErrorView> {
        if !self.wallets.dom().contains(sender) {
            Err(sender_not_registered())
        } else if self.wallets[sender] is None {
            Err(ErrorView::Std)
        } else if self.wallets[sender]->0 == to_username {
            Err(ErrorView::SelfTipping)
        } else if !self.profiles.dom().contains(to_username) {
            Err(ErrorView::UsernameNotFound { username: to_username })
        } else if garbled(self.sent, self.wallets[sender]->0) || garbled(
            self.received,
            to_username,
        ) {
            Err(ErrorView::Std)
        } else {
            let from = self.wallets[sender]->0;
            let key = tip_key(from, to_username, now);
            Ok(
                Outcome {
                    ledger: self.with_tip(
                        key,
                        TipView {
                            from_username: from,
                            to_username,
                            amount,
                            message,
                            timestamp: now,
                        },
                    ).with_sent(from, self.sent_of(from).push((to_username, key))).with_received(
                        to_username,
                        self.received_of(to_username).push((from, key)),
                    ),
                    response: seq![
                        ("method"@, "record_tip"@),
                        ("from"@, from),
                        ("to"@, to_username),
                        ("timestamp"@, timestamp_text(now)),
                    ],
                },
            )
        }
    }

    /// The grant of admin rights to `admin` by `sender`. `checked` is the
    /// host's word on `admin`: the address as the host accepted it, or
    /// `None` where it refused.
    pub open spec fn add_admin(
        self,
        sender: Seq<char>,
        admin: Seq<char>,
        checked: Option<Seq<char>>,
    ) -> Result<Outcome, ErrorView> {
        if garbled(self.admins, sender) {
            Err(ErrorView::Std)
        } else if !self.is_admin(sender) {
            Err(ErrorView::Unauthorized)
        } else if checked is None {
            Err(ErrorView::Std)
        } else {
            Ok(
                Outcome {
                    ledger: self.with_admin(checked->0, true),
                    response: seq![("method"@, "add_admin"@), ("admin"@, admin)],
                },
            )
        }
    }

    /// The removal of the admin rights of `admin` by `sender`. `checked` is
    /// the host's word on `admin`: the address as the host accepted it, or
    /// `None` where it refused.
    pub open spec fn remove_admin(
        self,
        sender: Seq<char>,
        admin: Seq<char>,
        checked: Option<Seq<char>>,
    ) -> Result<Outcome, ErrorView> {
        if garbled(self.admins, sender) {
            Err(ErrorView::Std)
        } else if !self.is_admin(sender) {
            Err(ErrorView::Unauthorized)
        } else if checked is None {
            Err(ErrorView::Std)
        } else if self.admin_flags() <= 1 {
            Err(cannot_remove_last_admin())
        } else {
            Ok(
                Outcome {
                    ledger: self.without_admin(checked->0),
                    response: seq![("method"@, "remove_admin"@), ("admin"@, admin)],
                },
            )
        }
    }

    /// The profile of `username`, if one can be read.
    pub open spec fn profile(self, username: Seq<char>) -> Option<ProfileView> {
        read(self.profiles, username)
    }

    /// The profile that `wallet` owns, if one can be read.
    pub open spec fn profile_by_wallet(self, wallet: Seq<char>) -> Option<ProfileView> {
        match read(self.wallets, wallet) {
            Some(username) => self.profile(username),
            None => None,
        }
    }

    /// All profiles with their keys, in ascending order of key, where the
    /// profiles can be listed.
    pub open spec fn listing(self) -> Seq<(Seq<char>, ProfileView)> {
        choose|list: Seq<(Seq<char>, ProfileView)>| is_listing(list, self.profiles)
    }

    /// One page of profiles: of those whose username comes after the
    /// cursor, the first `limit` in ascending order of key.
    pub open spec fn list_profiles(self, limit: nat, start_after: Option<Seq<char>>) -> Seq<
        ProfileView,
    > {
        first_n(profiles_after(values_of(self.listing()), start_after), limit)
    }

    /// One page of the tips that `username` sent; nothing for a username
    /// without a profile.
    pub open spec fn tips_sent(self, username: Seq<char>, limit: nat, start_after: Option<Seq<char>>)
        -> Seq<TipView> {
        if self.profiles.dom().contains(username) {
            resolve(page_keys(self.sent_of(username), limit, start_after), self.tips)
        } else {
            Seq::empty()
        }
    }

    /// One page of the tips that `username` received; nothing for a
    /// username without a profile.
    pub open spec fn tips_received(
        self,
        username: Seq<char>,
        limit: nat,
        start_after: Option<Seq<char>>,
    ) -> Seq<TipView> {
        if self.profiles.dom().contains(username) {
            resolve(page_keys(self.received_of(username), limit, start_after), self.tips)
        } else {
            Seq::empty()
        }
    }

    /// The tip that `from` sent to `to` at `nanos`, if one can be read.
    pub open spec fn tip_detail(self, from: Seq<char>, to: Seq<char>, nanos: u64) -> Option<
        TipView,
    > {
        read(self.tips, tip_key(from, to, nanos))
    }

    /// How many tips `username` sent and received, and their totals; all
    /// zero for a username without a profile.
    pub open spec fn stats(self, username: Seq<char>) -> StatsView {
        if self.profiles.dom().contains(username) {
            StatsView {
                total_tips_sent: self.sent_of(username).len() as u64,
                total_tips_received: self.received_of(username).len() as u64,
                total_amount_sent: amount_text(total_amount(self.sent_of(username), self.tips)),
                total_amount_received: amount_text(
                    total_amount(self.received_of(username), self.tips),
                ),
            }
        } else {
            StatsView {
                total_tips_sent: 0,
                total_tips_received: 0,
                total_amount_sent: amount_text(0),
                total_amount_received: amount_text(0),
            }
        }
    }

    /// Whether `username` is well formed and not taken.
    pub open spec fn is_username_available(self, username: Seq<char>) -> bool {
        valid_username(username) && !self.profiles.dom().contains(username)
    }
}

/// A map has at most one listing.
pub proof fn lemma_listing_unique(
    x: Seq<(Seq<char>, ProfileView)>,
    y: Seq<(Seq<char>, ProfileView)>,
    m: Map<Seq<char>, Option<ProfileView>>,
)
    requires
        is_listing(x, m),
        is_listing(y, m),
    ensures
        x == y,
    decreases x.len(),
{
    if x.len() == 0 {
        if y.len() > 0 {
            assert(m.dom().contains(y[0].0));
        }
        assert(x =~= y);
    } else {
        assert(m.dom().contains(x[0].0));
        let j = choose|j: int| 0 <= j < y.len() && y[j].0 == x[0].0;
        assert(m.dom().contains(y[0].0));
        let i = choose|i: int| 0 <= i < x.len() && x[i].0 == y[0].0;
        if j > 0 {
            assert(text_lt(y[0].0, y[j].0));
            if i > 0 {
                assert(text_lt(x[0].0, x[i].0));
                lemma_text_lt_asymmetric(x[0].0, y[0].0);
            } else {
                lemma_text_lt_irreflexive(x[0].0);
            }
        }
        assert(x[0] == y[0]);
        let first = x[0].0;
        let rest = m.remove(first);
        let xs = x.skip(1);
        let ys = y.skip(1);
        assert forall|k: Seq<char>| #[trigger] rest.dom().contains(k) implies exists|a: int|
            0 <= a < xs.len() && xs[a].0 == k by {
            assert(m.dom().contains(k));
            let a = choose|a: int| 0 <= a < x.len() && x[a].0 == k;
            assert(xs[a - 1] == x[a]);
        }
        assert forall|k: Seq<char>| #[trigger] rest.dom().contains(k) implies exists|a: int|
            0 <= a < ys.len() && ys[a].0 == k by {
            assert(m.dom().contains(k));
            let a = choose|a: int| 0 <= a < y.len() && y[a].0 == k;
            assert(ys[a - 1] == y[a]);
        }
        assert forall|a: int| 0 <= a < xs.len() implies rest.dom().contains(#[trigger] xs[a].0)
            && rest[xs[a].0] == Some(xs[a].1) by {
            assert(xs[a] == x[a + 1]);
            assert(text_lt(x[0].0, x[a + 1].0));
            lemma_text_lt_irreflexive(first);
        }
        assert forall|a: int| 0 <= a < ys.len() implies rest.dom().contains(#[trigger] ys[a].0)
            && rest[ys[a].0] == Some(ys[a].1) by {
            assert(ys[a] == y[a + 1]);
            assert(text_lt(y[0].0, y[a + 1].0));
            lemma_text_lt_irreflexive(first);
        }
        assert(is_listing(xs, rest));
        assert(is_listing(ys, rest));
        lemma_listing_unique(xs, ys, rest);
        assert(x =~= seq![x[0]] + xs);
        assert(y =~= seq![y[0]] + ys);
    }
}

/// A listing of the profiles is the listing of the ledger.
pub proof fn lemma_listing_is(l: Ledger, list: Seq<(Seq<char>, ProfileView)>)
    requires
        is_listing(list, l.profiles),
    ensures
        list == l.listing(),
{
    lemma_listing_unique(list, l.listing(), l.profiles);
}

/// Where the profiles have a listing, every profile decodes.
pub proof fn lemma_listing_decodes(
    list: Seq<(Seq<char>, ProfileView)>,
    m: Map<Seq<char>, Option<ProfileView>>,
)
    requires
        is_listing(list, m),
    ensures
        all_decode(m),
{
    assert forall|key: Seq<char>| m.dom().contains(key) implies (#[trigger] m[key]) is Some by {
        let i = choose|i: int| 0 <= i < list.len() && list[i].0 == key;
        assert(m.dom().contains(list[i].0));
    }
}

} // verus!
