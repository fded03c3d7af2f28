use vstd::prelude::*;

verus! {

/// What can go wrong while a model is read, composed, built or collapsed.
#[derive(Clone, Copy, Debug, PartialEq, Eq, Structural)]
pub enum Error {
    /// An element is unknown where it stands, or lacks an attribute it must have.
    XmlParse,
    /// No component type is registered under the name asked for.
    UnknownType,
    /// A component type names a base that is not registered.
    Malformed,
    /// A chain of `extends` comes back to a type already on it.
    Cycle,
    /// An attribute of an instance is no parameter, attribute or link of its
    /// type, and neither `id` nor `type`.
    UnknownKey,
    /// A text spells no quantity, or a quantity has no form in base units.
    BadQuantity,
    /// A text spells no expression, condition or pattern.
    BadExpr,
    /// The dynamics assign to something that is no state variable, reduce by
    /// an unknown operation, or select several values where one is wanted.
    MalformedDynamics,
    /// A selection that must yield one value found none, or an edge of a
    /// kinetic scheme does not say where it starts or ends.
    MissingRequired,
    /// A path of a kinetic scheme has a shape that cannot be walked.
    UnsupportedPattern,
    /// A token of a retention filter starts with neither `+` nor `-`.
    BadFilter,
}

impl Error {
    /// A short description of the error.
    pub fn message(&self) -> (r: &'static str)
        ensures
            r@ == Self::text(*self),
    {
        match self {
            Error::XmlParse => "malformed document",
            Error::UnknownType => "unknown component type",
            Error::Malformed => "unknown base type",
            Error::Cycle => "cyclic inheritance",
            Error::UnknownKey => "unknown key in instance",
            Error::BadQuantity => "malformed quantity",
            Error::BadExpr => "malformed expression",
            Error::MalformedDynamics => "malformed dynamics",
            Error::MissingRequired => "required value is missing",
            Error::UnsupportedPattern => "unsupported path pattern",
            Error::BadFilter => "filter token without sign",
        }
    }

    pub open spec fn text(e: Error) -> Seq<char> {
        match e {
            Error::XmlParse => "malformed document"@,
            Error::UnknownType => "unknown component type"@,
            Error::Malformed => "unknown base type"@,
            Error::Cycle => "cyclic inheritance"@,
            Error::UnknownKey => "unknown key in instance"@,
            Error::BadQuantity => "malformed quantity"@,
            Error::BadExpr => "malformed expression"@,
            Error::MalformedDynamics => "malformed dynamics"@,
            Error::MissingRequired => "required value is missing"@,
            Error::UnsupportedPattern => "unsupported path pattern"@,
            Error::BadFilter => "filter token without sign"@,
        }
    }
}

} // verus!
