//! Column identifiers, validated by the SQL identifier grammar of `proof_of_sql_parser`.

use vstd::prelude::*;

verus! {

#[verifier::external_type_specification]
#[verifier::external_body]
pub struct ExParseError(proof_of_sql_parser::ParseError);

/// The name that `proof_of_sql_parser` gives to the text `s` when it reads it as an
/// identifier, or `None` where the text is not a valid identifier.
pub uninterp spec fn parsed_identifier(s: Seq<char>) -> Option<Seq<char>>;

/// Relies on `proof_of_sql_parser::Identifier::try_new` and `Identifier::name`: the text
/// is either refused or read as an identifier whose name depends on the text alone.
#[verifier::external_body]
fn parse_identifier(s: &str) -> (r: Result<String, proof_of_sql_parser::ParseError>)
    ensures
        r is Ok <==> parsed_identifier(s@) is Some,
        r matches Ok(name) ==> parsed_identifier(s@) == Some(name@),
{
    match proof_of_sql_parser::Identifier::try_new(s) {
        Ok(id) => Ok(id.name().to_string()),
        Err(e) => Err(e),
    }
}

/// The text given for an identifier is not a valid SQL identifier.
#[derive(Debug, Clone, Copy, PartialEq, Eq, Structural)]
pub enum IdentifierError {
    /// The text does not follow the identifier grammar, or is longer than 64 bytes.
    InvalidIdentifier,
}

impl IdentifierError {
    /// A human-readable description of the error.
    pub fn message(&self) -> (r: String) {
        String::from_str("Unable to parse identifier")
    }
}

/// A validated column name. Two identifiers are equal when their names are.
#[derive(Debug, Clone)]
pub struct Identifier {
    name: String,
}

impl View for Identifier {
    type V = Seq<char>;

    closed spec fn view(&self) -> Seq<char> {
        self.name@
    }
}

impl Identifier {
    /// Reads `s` as an identifier; the name is the one the SQL identifier grammar gives it.
    pub fn try_new(s: &str) -> (r: Result<Identifier, IdentifierError>)
        ensures
            r is Ok <==> parsed_identifier(s@) is Some,
            r matches Ok(id) ==> parsed_identifier(s@) == Some(id@),
            r matches Err(e) ==> e == IdentifierError::InvalidIdentifier,
    {
        match parse_identifier(s) {
            Ok(name) => Ok(Identifier { name }),
            Err(_) => Err(IdentifierError::InvalidIdentifier),
        }
    }

    /// The name of this identifier.
    pub fn name(&self) -> (r: &str)
        ensures
            r@ == self@,
    {
        self.name.as_str()
    }
}

impl PartialEq for Identifier {
    fn eq(&self, other: &Identifier) -> (r: bool)
        ensures
            r == (self@ == other@),
    {
        self.name == other.name
    }
}

impl Eq for Identifier {
}

impl vstd::std_specs::cmp::PartialEqSpecImpl for Identifier {
    open spec fn obeys_eq_spec() -> bool {
        true
    }

    open spec fn eq_spec(&self, other: &Identifier) -> bool {
        self@ == other@
    }
}

} // verus!
