use edp_node::Error as NodeError;
use vstd::prelude::*;

verus! {

/// The error of the distribution node: carried through opaquely.
#[verifier::external_type_specification]
#[verifier::external_body]
pub struct ExNodeError(NodeError);

/// Everything that can make a query fail.
#[derive(Debug)]
pub enum Error {
    /// The node session could not be opened or a remote call failed in transport.
    Node(NodeError),
    /// A reply did not have the structural kind a call site needs (a list, ...).
    TermConversion(String),
    /// A present value failed typed decoding (an unknown tag, a wrong kind).
    Deserialization(String),
    /// No authentication cookie could be resolved.
    CookieNotFound(String),
    /// A user-supplied name pattern did not compile.
    InvalidPattern(String),
    /// An explicitly named table does not exist.
    TableNotFound(String),
    /// A reply matched no shape known to the call site.
    UnexpectedResponse(String),
}


/// Relies on the `Display` of `edp_node::Error`: the text of a node error.
#[verifier::external_body]
fn node_error_text(e: &NodeError) -> (r: String) {
    e.to_string()
}

impl Error {
    /// The message of an error that holds its own text.
    pub open spec fn message_text(&self) -> Seq<char> {
        match self {
            Error::Node(_) => "Node error: "@,
            Error::TermConversion(m) => "Term conversion error: "@ + m@,
            Error::Deserialization(m) => "Deserialization error: "@ + m@,
            Error::CookieNotFound(m) => "Cookie not found: "@ + m@,
            Error::InvalidPattern(m) => "Invalid regex pattern: "@ + m@,
            Error::TableNotFound(m) => "Table not found: "@ + m@,
            Error::UnexpectedResponse(m) => "Unexpected response format: "@ + m@,
        }
    }

    /// The error's message: its kind, then its details.
    pub fn message(&self) -> (r: String)
        ensures
            match self {
                Error::Node(_) => r@.len() >= "Node error: "@.len()
                    && r@.subrange(0, "Node error: "@.len() as int) == "Node error: "@,
                _ => r@ == self.message_text(),
            },
    {
        let (prefix, detail): (&str, String) = match self {
            Error::Node(e) => ("Node error: ", node_error_text(e)),
            Error::TermConversion(m) => ("Term conversion error: ", m.clone()),
            Error::Deserialization(m) => ("Deserialization error: ", m.clone()),
            Error::CookieNotFound(m) => ("Cookie not found: ", m.clone()),
            Error::InvalidPattern(m) => ("Invalid regex pattern: ", m.clone()),
            Error::TableNotFound(m) => ("Table not found: ", m.clone()),
            Error::UnexpectedResponse(m) => ("Unexpected response format: ", m.clone()),
        };
        let mut text = String::from_str(prefix);
        text.append(detail.as_str());
        proof {
            assert(text@.subrange(0, prefix@.len() as int) =~= prefix@);
        }
        text
    }
}

} // verus!
