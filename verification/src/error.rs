//! The rejections a contract call can end in.

use concordium_std::ParseError;
use vstd::prelude::*;
use vstd::std_specs::convert::FromSpecImpl;

verus! {

/// `concordium_std::ParseError`: the unit value the host library hands back when
/// parameter bytes do not have the expected shape. Nothing is claimed of it.
#[verifier::external_type_specification]
#[verifier::external_body]
pub struct ExParseError(concordium_std::ParseError);

/// Why a call was rejected. A rejected call never changes the record.
#[derive(Debug, Clone, Copy, PartialEq, Eq, Structural)]
pub enum Error {
    /// The parameter did not decode, the accuracy text is not a decimal number,
    /// or the caller asked for a failure.
    ParseParamsError,
    /// The caller is not the owner of the instance.
    AccessDenied,
    /// The proposed accuracy is below the recorded one.
    AccuracyRegression,
    /// The version counter cannot count one more update.
    VersionOverflow,
    /// The unspecified rejection. No operation of this library returns it.
    Default,
}

impl Default for Error {
    fn default() -> (e: Error)
        ensures
            e == Error::Default,
    {
        Error::Default
    }
}

impl From<ParseError> for Error {
    fn from(e: ParseError) -> (r: Error) {
        Error::ParseParamsError
    }
}

impl FromSpecImpl<ParseError> for Error {
    open spec fn obeys_from_spec() -> bool {
        true
    }

    open spec fn from_spec(e: ParseError) -> Error {
        Error::ParseParamsError
    }
}

} // verus!
