//! The records that the registry keeps, and their mathematical views.

use vstd::prelude::*;
use crate::text::{decimal_text, digit_char};

verus! {

/// The decimal numeral of `n` in exactly `width` digits, zeros in front.
pub open spec fn padded_text(n: nat, width: nat) -> Seq<char>
    decreases width,
{
    if width == 0 {
        Seq::empty()
    } else {
        padded_text(n / 10, (width - 1) as nat).push(digit_char(n % 10))
    }
}

/// How a time is written: whole seconds, a point, and the nanoseconds of
/// the second in nine digits.
pub open spec fn timestamp_text(nanos: u64) -> Seq<char> {
    decimal_text((nanos / 1_000_000_000) as nat) + seq!['.'] + padded_text(
        (nanos % 1_000_000_000) as nat,
        9,
    )
}

/// `Timestamp::from_nanos` and the `to_string` of `cosmwasm_std`'s
/// `Timestamp`: the time as seconds, a point and nine digits of
/// nanoseconds.
#[verifier::external_body]
fn display_timestamp(nanos: u64) -> (r: String)
    ensures
        r@ == timestamp_text(nanos),
{
    cosmwasm_std::Timestamp::from_nanos(nanos).to_string()
}

/// A point in the host's logical time, in nanoseconds.
#[derive(Clone, Copy, Debug, PartialEq, Eq, Structural)]
pub struct Timestamp {
    pub nanos: u64,
}

impl Timestamp {
    pub fn from_nanos(nanos: u64) -> (t: Timestamp)
        ensures
            t.nanos == nanos,
    {
        Timestamp { nanos }
    }

    pub fn nanos(&self) -> (n: u64)
        ensures
            n == self.nanos,
    {
        self.nanos
    }

    /// The time as text.
    pub fn to_text(&self) -> (r: String)
        ensures
            r@ == timestamp_text(self.nanos),
    {
        display_timestamp(self.nanos)
    }
}

/// A user's profile.
#[derive(Clone, Debug, PartialEq, Eq)]
pub struct UserProfile {
    pub username: String,
    pub name: String,
    pub bio: Option<String>,
    pub profile_picture: Option<String>,
    pub banner_image: Option<String>,
    pub twitter: Option<String>,
    pub website: Option<String>,
    pub wallet_address: String,
    pub created_at: Timestamp,
    pub updated_at: Timestamp,
}

/// A tip that one user sent to another.
#[derive(Clone, Debug, PartialEq, Eq)]
pub struct TipRecord {
    pub from_username: String,
    pub to_username: String,
    pub amount: String,
    pub message: Option<String>,
    pub timestamp: Timestamp,
}

/// What a profile is, as plain values.
pub struct ProfileView {
    pub username: Seq<char>,
    pub name: Seq<char>,
    pub bio: Option<Seq<char>>,
    pub profile_picture: Option<Seq<char>>,
    pub banner_image: Option<Seq<char>>,
    pub twitter: Option<Seq<char>>,
    pub website: Option<Seq<char>>,
    pub wallet_address: Seq<char>,
    pub created_at: u64,
    pub updated_at: u64,
}

/// What a tip is, as plain values.
pub struct TipView {
    pub from_username: Seq<char>,
    pub to_username: Seq<char>,
    pub amount: Seq<char>,
    pub message: Option<Seq<char>>,
    pub timestamp: u64,
}

/// The text that an optional string holds, if any.
pub open spec fn opt_text(o: Option<String>) -> Option<Seq<char>> {
    match o {
        Some(s) => Some(s@),
        None => None,
    }
}

impl View for UserProfile {
    type V = ProfileView;

    open spec fn view(&self) -> ProfileView {
        ProfileView {
            username: self.username@,
            name: self.name@,
            bio: opt_text(self.bio),
            profile_picture: opt_text(self.profile_picture),
            banner_image: opt_text(self.banner_image),
            twitter: opt_text(self.twitter),
            website: opt_text(self.website),
            wallet_address: self.wallet_address@,
            created_at: self.created_at.nanos,
            updated_at: self.updated_at.nanos,
        }
    }
}

impl View for TipRecord {
    type V = TipView;

    open spec fn view(&self) -> TipView {
        TipView {
            from_username: self.from_username@,
            to_username: self.to_username@,
            amount: self.amount@,
            message: opt_text(self.message),
            timestamp: self.timestamp.nanos,
        }
    }
}

/// A copy of an optional string.
pub fn copy_opt(o: &Option<String>) -> (r: Option<String>)
    ensures
        opt_text(r) == opt_text(*o),
{
    match o {
        Some(s) => Some(s.clone()),
        None => None,
    }
}

/// A profile as the store holds it: its fields in order.
pub type ProfileRow = (
    String,
    String,
    Option<String>,
    Option<String>,
    Option<String>,
    Option<String>,
    Option<String>,
    String,
    u64,
    u64,
);

/// A tip as the store holds it: its fields in order.
pub type TipRow = (String, String, String, Option<String>, u64);

/// An entry of a user's list of tips sent or received: the other user and
/// the tip's key.
pub type TipRef = (String, String);

/// The profile that a stored row stands for.
pub open spec fn profile_of_row(row: ProfileRow) -> ProfileView {
    ProfileView {
        username: row.0@,
        name: row.1@,
        bio: opt_text(row.2),
        profile_picture: opt_text(row.3),
        banner_image: opt_text(row.4),
        twitter: opt_text(row.5),
        website: opt_text(row.6),
        wallet_address: row.7@,
        created_at: row.8,
        updated_at: row.9,
    }
}

/// The tip that a stored row stands for.
pub open spec fn tip_of_row(row: TipRow) -> TipView {
    TipView {
        from_username: row.0@,
        to_username: row.1@,
        amount: row.2@,
        message: opt_text(row.3),
        timestamp: row.4,
    }
}

/// The entries of an index list, as plain values.
pub open spec fn refs_view(refs: Seq<TipRef>) -> Seq<(Seq<char>, Seq<char>)> {
    refs.map_values(|e: TipRef| (e.0@, e.1@))
}

impl UserProfile {
    /// The row that stands for this profile.
    pub fn to_row(&self) -> (row: ProfileRow)
        ensures
            profile_of_row(row) == self@,
    {
        (
            self.username.clone(),
            self.name.clone(),
            copy_opt(&self.bio),
            copy_opt(&self.profile_picture),
            copy_opt(&self.banner_image),
            copy_opt(&self.twitter),
            copy_opt(&self.website),
            self.wallet_address.clone(),
            self.created_at.nanos,
            self.updated_at.nanos,
        )
    }

    /// The profile that a row stands for.
    pub fn from_row(row: &ProfileRow) -> (p: UserProfile)
        ensures
            p@ == profile_of_row(*row),
    {
        UserProfile {
            username: row.0.clone(),
            name: row.1.clone(),
            bio: copy_opt(&row.2),
            profile_picture: copy_opt(&row.3),
            banner_image: copy_opt(&row.4),
            twitter: copy_opt(&row.5),
            website: copy_opt(&row.6),
            wallet_address: row.7.clone(),
            created_at: Timestamp { nanos: row.8 },
            updated_at: Timestamp { nanos: row.9 },
        }
    }
}

impl TipRecord {
    /// The row that stands for this tip.
    pub fn to_row(&self) -> (row: TipRow)
        ensures
            tip_of_row(row) == self@,
    {
        (
            self.from_username.clone(),
            self.to_username.clone(),
            self.amount.clone(),
            copy_opt(&self.message),
            self.timestamp.nanos,
        )
    }

    /// The tip that a row stands for.
    pub fn from_row(row: &TipRow) -> (t: TipRecord)
        ensures
            t@ == tip_of_row(*row),
    {
        TipRecord {
            from_username: row.0.clone(),
            to_username: row.1.clone(),
            amount: row.2.clone(),
            message: copy_opt(&row.3),
            timestamp: Timestamp { nanos: row.4 },
        }
    }
}

} // verus!
