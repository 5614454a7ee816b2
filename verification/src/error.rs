//! The error taxonomy: one variant per pipeline stage that can fail.

use vstd::prelude::*;
use vstd::string::StringExecFns;

verus! {

/// A failure surfaced by the pipeline, tagged with the stage it came from.
#[derive(Debug)]
pub enum MagnetiteError {
    Input(String),
    Mesher(String),
    Solver(String),
    PostProcessor(String),
}

impl MagnetiteError {
    /// The stage name under which the error is rendered.
    pub open spec fn spec_kind_name(&self) -> Seq<char> {
        match self {
            MagnetiteError::Input(_) => "Input"@,
            MagnetiteError::Mesher(_) => "Mesher"@,
            MagnetiteError::Solver(_) => "Solver"@,
            MagnetiteError::PostProcessor(_) => "Post Processor"@,
        }
    }

    /// The message carried by the error.
    pub open spec fn spec_message(&self) -> Seq<char> {
        match self {
            MagnetiteError::Input(m) => m@,
            MagnetiteError::Mesher(m) => m@,
            MagnetiteError::Solver(m) => m@,
            MagnetiteError::PostProcessor(m) => m@,
        }
    }

    /// How the error prints: `<kind> error: <message>`.
    pub open spec fn spec_rendered(&self) -> Seq<char> {
        self.spec_kind_name() + " error: "@ + self.spec_message()
    }

    /// Renders the error as `<kind> error: <message>`.
    pub fn rendered(&self) -> (r: String)
        ensures
            r@ == self.spec_rendered(),
    {
        let mut s = match self {
            MagnetiteError::Input(_) => String::from_str("Input"),
            MagnetiteError::Mesher(_) => String::from_str("Mesher"),
            MagnetiteError::Solver(_) => String::from_str("Solver"),
            MagnetiteError::PostProcessor(_) => String::from_str("Post Processor"),
        };
        s.append(" error: ");
        match self {
            MagnetiteError::Input(m) => s.append(m.as_str()),
            MagnetiteError::Mesher(m) => s.append(m.as_str()),
            MagnetiteError::Solver(m) => s.append(m.as_str()),
            MagnetiteError::PostProcessor(m) => s.append(m.as_str()),
        }
        s
    }
}

} // verus!
