use vstd::prelude::*;

verus! {

/// Every way in which an instruction of the protocol can be refused.
#[derive(Clone, Copy, Debug, PartialEq, Eq, Structural)]
pub enum ErrorCode {
    InvalidArgs,
    InvalidShareTotal,
    TooManyContributors,
    MathError,
    TooManyStems,
    TitleTooLong,
    CidTooLong,
    NoContributors,
    InvalidAmount,
    InvalidTokenAccountOwner,
    InvalidRecipientCount,
    NotAContributor,
    FeeTooHigh,
    MarketPaused,
    ListingInactive,
    SelfPurchase,
    InvalidListing,
    InvalidPrice,
    PriceTooLow,
    NotFixedPrice,
    InvalidBasePrice,
    InvalidCurveParam,
    SlippageExceeded,
    InsufficientLiquidity,
    Overflow,
    InsufficientFunds,
}

impl ErrorCode {
    /// The human-readable message of each error.
    pub open spec fn message_text(self) -> Seq<char> {
        match self {
            ErrorCode::InvalidArgs => "Invalid arguments provided"@,
            ErrorCode::InvalidShareTotal => "Sum of shares must equal 10000 (100%)"@,
            ErrorCode::TooManyContributors => "Too many contributors provided"@,
            ErrorCode::MathError => "Math overflow or division error"@,
            ErrorCode::TooManyStems => "Too many stems"@,
            ErrorCode::TitleTooLong => "Title exceeds maximum length"@,
            ErrorCode::CidTooLong => "CID exceeds maximum length"@,
            ErrorCode::NoContributors => "At least one contributor is required"@,
            ErrorCode::InvalidAmount => "Invalid amount: must be greater than 0"@,
            ErrorCode::InvalidTokenAccountOwner => "Token account owner must be the track PDA"@,
            ErrorCode::InvalidRecipientCount => "Recipient count must match contributor count"@,
            ErrorCode::NotAContributor => "The signer is not a contributor to this track"@,
            ErrorCode::FeeTooHigh => "Marketplace fee cannot exceed 1000 bps (10%)"@,
            ErrorCode::MarketPaused => "Marketplace is currently paused"@,
            ErrorCode::ListingInactive => "Listing is not active"@,
            ErrorCode::SelfPurchase => "Buyer cannot be the same as seller"@,
            ErrorCode::InvalidListing => "Invalid listing state"@,
            ErrorCode::InvalidPrice => "Price must be greater than 0"@,
            ErrorCode::PriceTooLow => "Price is too low, must be above minimum threshold"@,
            ErrorCode::NotFixedPrice => "Not a fixed price listing"@,
            ErrorCode::InvalidBasePrice => "Invalid base price for bonding curve"@,
            ErrorCode::InvalidCurveParam => "Invalid curve parameter k"@,
            ErrorCode::SlippageExceeded => "Slippage tolerance exceeded"@,
            ErrorCode::InsufficientLiquidity => "Insufficient liquidity in bonding curve"@,
            ErrorCode::Overflow => "Math overflow or division error"@,
            ErrorCode::InsufficientFunds => "Insufficient funds in treasury"@,
        }
    }

    /// The human-readable message of the error.
    pub fn message(&self) -> (r: &'static str)
        ensures
            r@ == self.message_text(),
    {
        match self {
            ErrorCode::InvalidArgs => "Invalid arguments provided",
            ErrorCode::InvalidShareTotal => "Sum of shares must equal 10000 (100%)",
            ErrorCode::TooManyContributors => "Too many contributors provided",
            ErrorCode::MathError => "Math overflow or division error",
            ErrorCode::TooManyStems => "Too many stems",
            ErrorCode::TitleTooLong => "Title exceeds maximum length",
            ErrorCode::CidTooLong => "CID exceeds maximum length",
            ErrorCode::NoContributors => "At least one contributor is required",
            ErrorCode::InvalidAmount => "Invalid amount: must be greater than 0",
            ErrorCode::InvalidTokenAccountOwner => "Token account owner must be the track PDA",
            ErrorCode::InvalidRecipientCount => "Recipient count must match contributor count",
            ErrorCode::NotAContributor => "The signer is not a contributor to this track",
            ErrorCode::FeeTooHigh => "Marketplace fee cannot exceed 1000 bps (10%)",
            ErrorCode::MarketPaused => "Marketplace is currently paused",
            ErrorCode::ListingInactive => "Listing is not active",
            ErrorCode::SelfPurchase => "Buyer cannot be the same as seller",
            ErrorCode::InvalidListing => "Invalid listing state",
            ErrorCode::InvalidPrice => "Price must be greater than 0",
            ErrorCode::PriceTooLow => "Price is too low, must be above minimum threshold",
            ErrorCode::NotFixedPrice => "Not a fixed price listing",
            ErrorCode::InvalidBasePrice => "Invalid base price for bonding curve",
            ErrorCode::InvalidCurveParam => "Invalid curve parameter k",
            ErrorCode::SlippageExceeded => "Slippage tolerance exceeded",
            ErrorCode::InsufficientLiquidity => "Insufficient liquidity in bonding curve",
            ErrorCode::Overflow => "Math overflow or division error",
            ErrorCode::InsufficientFunds => "Insufficient funds in treasury",
        }
    }
}

} // verus!
