//! The tokens of a session.

use vstd::prelude::*;
use vstd::string::*;
use crate::error::ErrorCode;

verus! {

/// A client starts with /session/login to get the initial refresh_token and
/// session_token pair.
/// - Use session_token for computing.
/// - Use refresh_token to auth /session/renew and get new pair when
///   session_token expires.
#[derive(Clone, Copy, Debug, Eq, PartialEq, Structural)]
pub enum TokenType {
    Refresh,
    Session,
}

impl TokenType {
    /// The number of the kind of token.
    pub fn number(&self) -> (r: u8)
        ensures
            r == (match self {
                TokenType::Refresh => 1u8,
                TokenType::Session => 2u8,
            }),
    {
        match self {
            TokenType::Refresh => 1,
            TokenType::Session => 2,
        }
    }

    /// The kind of token of the number `n`, if `n` is the number of one.
    pub fn from_number(n: u8) -> (r: Option<TokenType>)
        ensures
            r == (if n == 1 {
                Some(TokenType::Refresh)
            } else if n == 2 {
                Some(TokenType::Session)
            } else {
                None
            }),
    {
        if n == 1 {
            Some(TokenType::Refresh)
        } else if n == 2 {
            Some(TokenType::Session)
        } else {
            None
        }
    }

    /// The letter of the kind of token.
    pub open spec fn letter(self) -> char {
        match self {
            TokenType::Refresh => 'r',
            TokenType::Session => 's',
        }
    }

    /// Writes the kind of token as its letter.
    pub fn to_string(&self) -> (r: String)
        ensures
            r@ == seq![self.letter()],
    {
        proof {
            reveal_strlit("r");
            reveal_strlit("s");
        }
        let r = match self {
            TokenType::Refresh => String::from_str("r"),
            TokenType::Session => String::from_str("s"),
        };
        r
    }

    /// The kind of token of the letter `value`. Any other byte is refused.
    pub fn try_from_byte(value: u8) -> (r: Result<TokenType, ErrorCode>)
        ensures
            match r {
                Ok(token) => value as char == token.letter(),
                Err(e) => value as char != 'r' && value as char != 's' && e is AuthenticateFailure,
            },
    {
        let value = value as char;
        if value == 'r' {
            Ok(TokenType::Refresh)
        } else if value == 's' {
            Ok(TokenType::Session)
        } else {
            let mut message = String::from_str("invalid token type '");
            message.append(value.to_string().as_str());
            message.append("'");
            Err(ErrorCode::AuthenticateFailure(message))
        }
    }
}

/// What is known of a token of a query.
#[derive(Clone, Debug, PartialEq, Eq)]
pub struct QueryTokenInfo {
    pub token_type: TokenType,
    /// used to delete refresh token when close session, which authed by
    /// session_token too. None for Refresh token.
    pub parent: Option<String>,
}

} // verus!
