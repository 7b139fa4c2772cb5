//! The reasons for which a generation request is turned down.

use vstd::prelude::*;

verus! {

/// Why a request produced no passwords.
#[derive(PartialEq, Eq, Debug, Structural)]
pub enum Error {
    /// No character class is selected, so there is no character to draw.
    SelectCharsError,
    /// Passwords are asked for, but the half-open length range holds no length.
    LengthRangeError,
}

impl Error {
    /// The text shown to the user for this error.
    pub open spec fn message(self) -> Seq<char> {
        match self {
            Error::SelectCharsError => "select data chars, use --help for more information."@,
            Error::LengthRangeError => {
                "select a minimum length below the maximum length, use --help for more information."@
            },
        }
    }

    /// Renders the error as the text shown to the user.
    pub fn to_string(&self) -> (text: String)
        ensures
            text@ == self.message(),
    {
        match self {
            Error::SelectCharsError => {
                "select data chars, use --help for more information.".to_owned()
            },
            Error::LengthRangeError => {
                "select a minimum length below the maximum length, use --help for more information."
                    .to_owned()
            },
        }
    }
}

} // verus!
