//! What callers send to the contract, and what it answers.

use vstd::prelude::*;
use crate::state::{ProfileView, TipRecord, TipView, Timestamp, UserProfile};

verus! {

/// What the contract needs to know of the block it runs in.
#[derive(Clone, Copy, Debug, PartialEq, Eq, Structural)]
pub struct Env {
    /// The time of the block.
    pub time: Timestamp,
}

/// Who sent the message.
#[derive(Clone, Debug, PartialEq, Eq)]
pub struct MessageInfo {
    /// The sender's wallet address, as the host verified it.
    pub sender: String,
}

/// One attribute of a response: a key and a value.
#[derive(Clone, Debug, PartialEq, Eq)]
pub struct Attribute {
    pub key: String,
    pub value: String,
}

/// The record of a command that succeeded.
#[derive(Clone, Debug, PartialEq, Eq)]
pub struct Response {
    pub attributes: Vec<Attribute>,
}

impl View for Attribute {
    type V = (Seq<char>, Seq<char>);

    open spec fn view(&self) -> (Seq<char>, Seq<char>) {
        (self.key@, self.value@)
    }
}

impl View for Response {
    type V = Seq<(Seq<char>, Seq<char>)>;

    open spec fn view(&self) -> Seq<(Seq<char>, Seq<char>)> {
        self.attributes@.map_values(|a: Attribute| a@)
    }
}

#[derive(Clone, Debug, PartialEq, Eq)]
pub struct InstantiateMsg {
    /// The address of the first admin.
    pub admin: String,
}

#[allow(inconsistent_fields)]
#[derive(Clone, Debug, PartialEq, Eq)]
pub enum ExecuteMsg {
    RegisterProfile {
        username: String,
        name: String,
        bio: Option<String>,
        profile_picture: Option<String>,
        banner_image: Option<String>,
        twitter: Option<String>,
        website: Option<String>,
    },
    UpdateProfile {
        username: String,
        name: Option<String>,
        bio: Option<String>,
        profile_picture: Option<String>,
        banner_image: Option<String>,
        twitter: Option<String>,
        website: Option<String>,
    },
    RecordTip { to_username: String, amount: String, message: Option<String> },
    AddAdmin { admin: String },
    RemoveAdmin { admin: String },
}

#[allow(inconsistent_fields)]
#[derive(Clone, Debug, PartialEq, Eq)]
pub enum QueryMsg {
    GetProfile { username: String },
    GetProfileByWallet { wallet: String },
    ListProfiles { limit: Option<u32>, start_after: Option<String> },
    GetTipsSent { username: String, limit: Option<u32>, start_after: Option<String> },
    GetTipsReceived { username: String, limit: Option<u32>, start_after: Option<String> },
    GetTipDetail { from_username: String, to_username: String, timestamp: Timestamp },
    GetUserStats { username: String },
    IsAdmin { address: String },
    IsUsernameAvailable { username: String },
}

#[derive(Clone, Debug, PartialEq, Eq)]
pub struct ProfileResponse {
    pub profile: Option<UserProfile>,
}

#[derive(Clone, Debug, PartialEq, Eq)]
pub struct ProfilesResponse {
    pub profiles: Vec<UserProfile>,
}

#[derive(Clone, Debug, PartialEq, Eq)]
pub struct TipsResponse {
    pub tips: Vec<TipRecord>,
}

#[derive(Clone, Debug, PartialEq, Eq)]
pub struct TipDetailResponse {
    pub tip: Option<TipRecord>,
}

#[derive(Clone, Debug, PartialEq, Eq)]
pub struct StatsResponse {
    pub total_tips_sent: u64,
    pub total_tips_received: u64,
    pub total_amount_sent: String,
    pub total_amount_received: String,
}

#[derive(Clone, Debug, PartialEq, Eq)]
pub struct AdminResponse {
    pub is_admin: bool,
}

#[derive(Clone, Debug, PartialEq, Eq)]
pub struct UsernameAvailableResponse {
    pub is_available: bool,
}

/// The answer to a query, by the kind of query.
#[derive(Clone, Debug, PartialEq, Eq)]
pub enum QueryResponse {
    Profile(ProfileResponse),
    Profiles(ProfilesResponse),
    Tips(TipsResponse),
    TipDetail(TipDetailResponse),
    Stats(StatsResponse),
    Admin(AdminResponse),
    UsernameAvailable(UsernameAvailableResponse),
}

/// What a user's statistics are, as plain values.
pub struct StatsView {
    pub total_tips_sent: u64,
    pub total_tips_received: u64,
    pub total_amount_sent: Seq<char>,
    pub total_amount_received: Seq<char>,
}

/// What an answer is, as plain values.
pub enum AnswerView {
    Profile(Option<ProfileView>),
    Profiles(Seq<ProfileView>),
    Tips(Seq<TipView>),
    TipDetail(Option<TipView>),
    Stats(StatsView),
    Admin(bool),
    UsernameAvailable(bool),
}

/// The profile that an optional profile holds, if any.
pub open spec fn opt_profile(o: Option<UserProfile>) -> Option<ProfileView> {
    match o {
        Some(p) => Some(p@),
        None => None,
    }
}

/// The tip that an optional tip holds, if any.
pub open spec fn opt_tip(o: Option<TipRecord>) -> Option<TipView> {
    match o {
        Some(t) => Some(t@),
        None => None,
    }
}

/// The profiles of a list, as plain values.
pub open spec fn profiles_view(list: Seq<UserProfile>) -> Seq<ProfileView> {
    list.map_values(|p: UserProfile| p@)
}

/// The tips of a list, as plain values.
pub open spec fn tips_view(list: Seq<TipRecord>) -> Seq<TipView> {
    list.map_values(|t: TipRecord| t@)
}

impl View for ProfileResponse {
    type V = Option<ProfileView>;

    open spec fn view(&self) -> Option<ProfileView> {
        opt_profile(self.profile)
    }
}

impl View for ProfilesResponse {
    type V = Seq<ProfileView>;

    open spec fn view(&self) -> Seq<ProfileView> {
        profiles_view(self.profiles@)
    }
}

impl View for TipsResponse {
    type V = Seq<TipView>;

    open spec fn view(&self) -> Seq<TipView> {
        tips_view(self.tips@)
    }
}

impl View for TipDetailResponse {
    type V = Option<TipView>;

    open spec fn view(&self) -> Option<TipView> {
        opt_tip(self.tip)
    }
}

impl View for StatsResponse {
    type V = StatsView;

    open spec fn view(&self) -> StatsView {
        StatsView {
            total_tips_sent: self.total_tips_sent,
            total_tips_received: self.total_tips_received,
            total_amount_sent: self.total_amount_sent@,
            total_amount_received: self.total_amount_received@,
        }
    }
}

impl View for QueryResponse {
    type V = AnswerView;

    open spec fn view(&self) -> AnswerView {
        match self {
            QueryResponse::Profile(r) => AnswerView::Profile(r@),
            QueryResponse::Profiles(r) => AnswerView::Profiles(r@),
            QueryResponse::Tips(r) => AnswerView::Tips(r@),
            QueryResponse::TipDetail(r) => AnswerView::TipDetail(r@),
            QueryResponse::Stats(r) => AnswerView::Stats(r@),
            QueryResponse::Admin(r) => AnswerView::Admin(r.is_admin),
            QueryResponse::UsernameAvailable(r) => AnswerView::UsernameAvailable(r.is_available),
        }
    }
}

} // verus!
