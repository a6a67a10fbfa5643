use vstd::prelude::*;
use vstd::string::StringExecFns;

verus! {

/// Marker for a failure of the parsing stage.
pub struct ParserError;

impl ParserError {
    /// The text that describes the failure.
    pub fn message(&self) -> (text: String)
        ensures
            text@ == "Error occurs while parsing the flog"@,
    {
        String::from_str("Error occurs while parsing the flog")
    }
}

} // verus!
