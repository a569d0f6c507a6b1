//! The language models that can be asked for a diagnosis.

use vstd::prelude::*;
use vstd::string::*;

verus! {

/// A language model of the chat-completion endpoint.
#[derive(Clone, Copy, Debug, PartialEq, Eq, Structural)]
pub enum DiagnosticModel {
    GPTOmni,
    GPTOmniMini,
    GPTTurbo,
}

impl DiagnosticModel {
    /// The identifier by which the endpoint knows the model.
    pub open spec fn name_spec(self) -> Seq<char> {
        match self {
            DiagnosticModel::GPTOmni => "gpt-4o"@,
            DiagnosticModel::GPTOmniMini => "gpt-4o-mini"@,
            DiagnosticModel::GPTTurbo => "gpt-3.5-turbo"@,
        }
    }

    /// Writes the identifier by which the endpoint knows the model.
    pub fn name(self) -> (text: String)
        ensures
            text@ == self.name_spec(),
    {
        match self {
            DiagnosticModel::GPTOmni => String::from_str("gpt-4o"),
            DiagnosticModel::GPTOmniMini => String::from_str("gpt-4o-mini"),
            DiagnosticModel::GPTTurbo => String::from_str("gpt-3.5-turbo"),
        }
    }
}

impl Default for DiagnosticModel {
    /// The model that is asked where none was chosen.
    fn default() -> (model: DiagnosticModel)
        ensures
            model == DiagnosticModel::GPTTurbo,
    {
        DiagnosticModel::GPTTurbo
    }
}

} // verus!
