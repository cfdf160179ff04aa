//! Errors of the protocol engine.

use vstd::prelude::*;

verus! {

/// Why a message was refused or could not be built.
#[derive(Clone, Copy, Debug, PartialEq, Eq, Structural)]
pub enum ProtocolError {
    /// A message body too long for the 32-bit length field.
    MessageTooLong,
    /// Bytes that are shorter or longer than their header or layout announces.
    Malformed,
    /// A message whose tag is not allowed at this point of the exchange.
    UnexpectedTag,
    /// A length field that differs from the one the message must carry.
    WrongLength,
    /// The server asked for an authentication method other than a cleartext password.
    UnsupportedAuthentication,
    /// The server did not accept the password.
    AuthenticationRejected,
    /// A data row whose column count differs from the number of described fields.
    ColumnCountMismatch,
    /// A connection that is not idle after a query.
    NotIdle,
    /// Text that is not valid UTF-8.
    InvalidText,
    /// A numeric column that does not hold a decimal number of its type.
    InvalidNumber,
    /// A result set with a column of a type that is not known, where such
    /// columns are not to be taken for null.
    UnknownType,
    /// An event that the current state does not expect.
    OutOfOrder,
    /// An answer that ends before the server said that it is ready.
    Incomplete,
}

} // verus!
