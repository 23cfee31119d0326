//! The ways in which a command can fail.

use vstd::prelude::*;
use vstd::string::StringExecFns;

verus! {

/// Why a command was refused.
#[derive(Debug, PartialEq)]
pub enum ContractError {
    /// The host, or the store, reported an error of its own.
    Std(cosmwasm_std::StdError),
    Unauthorized {  },
    UsernameExists { username: String },
    UsernameNotFound { username: String },
    InvalidUsername { username: String },
    UsernameTooShortOrLong {  },
    SelfTipping {  },
    WalletAlreadyRegistered { username: String },
    TipRecordNotFound {  },
    MissingField { field: String },
    CustomError { message: String },
}

/// What an error is, as plain values. Of an error of the host only the fact
/// is kept.
pub enum ErrorView {
    Std,
    Unauthorized,
    UsernameExists { username: Seq<char> },
    UsernameNotFound { username: Seq<char> },
    InvalidUsername { username: Seq<char> },
    UsernameTooShortOrLong,
    SelfTipping,
    WalletAlreadyRegistered { username: Seq<char> },
    TipRecordNotFound,
    MissingField { field: Seq<char> },
    CustomError { message: Seq<char> },
}

impl View for ContractError {
    type V = ErrorView;

    open spec fn view(&self) -> ErrorView {
        match self {
            ContractError::Std(_) => ErrorView::Std,
            ContractError::Unauthorized {  } => ErrorView::Unauthorized,
            ContractError::UsernameExists { username } => ErrorView::UsernameExists {
                username: username@,
            },
            ContractError::UsernameNotFound { username } => ErrorView::UsernameNotFound {
                username: username@,
            },
            ContractError::InvalidUsername { username } => ErrorView::InvalidUsername {
                username: username@,
            },
            ContractError::UsernameTooShortOrLong {  } => ErrorView::UsernameTooShortOrLong,
            ContractError::SelfTipping {  } => ErrorView::SelfTipping,
            ContractError::WalletAlreadyRegistered { username } => ErrorView::WalletAlreadyRegistered {
                username: username@,
            },
            ContractError::TipRecordNotFound {  } => ErrorView::TipRecordNotFound,
            ContractError::MissingField { field } => ErrorView::MissingField { field: field@ },
            ContractError::CustomError { message } => ErrorView::CustomError { message: message@ },
        }
    }
}

/// The message of the error raised when a tip comes from a wallet without
/// a profile.
pub open spec fn sender_not_registered() -> ErrorView {
    ErrorView::CustomError { message: "Sender wallet address not registered with a profile"@ }
}

/// The message of the error raised when the last admin would be removed.
pub open spec fn cannot_remove_last_admin() -> ErrorView {
    ErrorView::CustomError { message: "Cannot remove the last admin"@ }
}

/// The text that describes an error; for an error of the host, the host's
/// own text, of which nothing is stated here.
pub open spec fn error_text(e: ErrorView) -> Seq<char> {
    match e {
        ErrorView::Std => Seq::empty(),
        ErrorView::Unauthorized => "Unauthorized"@,
        ErrorView::UsernameExists { username } => "Username '"@ + username + "' already exists"@,
        ErrorView::UsernameNotFound { username } => "Username '"@ + username + "' not found"@,
        ErrorView::InvalidUsername { username } => "Username '"@ + username
            + "' contains invalid characters. Usernames must contain only letters, numbers, underscores, and hyphens"@,
        ErrorView::UsernameTooShortOrLong => "Username must be between 3 and 30 characters"@,
        ErrorView::SelfTipping => "Cannot tip yourself"@,
        ErrorView::WalletAlreadyRegistered { username } =>
            "Wallet address already registered with username '"@ + username + "'"@,
        ErrorView::TipRecordNotFound => "Tip record not found"@,
        ErrorView::MissingField { field } => "Missing or invalid field: "@ + field,
        ErrorView::CustomError { message } => "Custom Error: "@ + message,
    }
}

/// `StdError`'s `to_string`: the host's description of its error.
#[verifier::external_body]
fn std_error_text(e: &cosmwasm_std::StdError) -> (r: String) {
    e.to_string()
}

/// `head`, then `middle`, then `tail`.
fn framed(head: &str, middle: &str, tail: &str) -> (r: String)
    ensures
        r@ == head@ + middle@ + tail@,
{
    let mut r = head.to_owned();
    r.append(middle);
    r.append(tail);
    r
}

impl ContractError {
    /// The text that describes this error.
    pub fn message(&self) -> (r: String)
        ensures
            !(self@ is Std) ==> r@ == error_text(self@),
    {
        match self {
            ContractError::Std(e) => std_error_text(e),
            ContractError::Unauthorized {  } => "Unauthorized".to_owned(),
            ContractError::UsernameExists { username } => framed(
                "Username '",
                username.as_str(),
                "' already exists",
            ),
            ContractError::UsernameNotFound { username } => framed(
                "Username '",
                username.as_str(),
                "' not found",
            ),
            ContractError::InvalidUsername { username } => framed(
                "Username '",
                username.as_str(),
                "' contains invalid characters. Usernames must contain only letters, numbers, underscores, and hyphens",
            ),
            ContractError::UsernameTooShortOrLong {  } =>
                "Username must be between 3 and 30 characters".to_owned(),
            ContractError::SelfTipping {  } => "Cannot tip yourself".to_owned(),
            ContractError::WalletAlreadyRegistered { username } => framed(
                "Wallet address already registered with username '",
                username.as_str(),
                "'",
            ),
            ContractError::TipRecordNotFound {  } => "Tip record not found".to_owned(),
            ContractError::MissingField { field } => {
                let r = framed("Missing or invalid field: ", field.as_str(), "");
                proof {
                    reveal_strlit("");
                    assert(r@ =~= "Missing or invalid field: "@ + field@);
                }
                r
            },
            ContractError::CustomError { message } => {
                let r = framed("Custom Error: ", message.as_str(), "");
                proof {
                    reveal_strlit("");
                    assert(r@ =~= "Custom Error: "@ + message@);
                }
                r
            },
        }
    }
}

} // verus!
