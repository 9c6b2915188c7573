use vstd::prelude::*;

use crate::error::CommandLineError;

verus! {

/// The number of occurrences an optional parameter allows once the request is
/// settled: an absent limit and a zero limit both mean exactly one.
pub open spec fn normalized_occurrence(requested: Option<u8>) -> u8 {
    match requested {
        Some(n) => if n == 0 { 1 } else { n },
        None => 1,
    }
}

/// The number of occurrences a positional parameter allows: an absent limit
/// stands for the largest count a byte holds.
pub open spec fn effective_occurrence(max_occurrence: Option<u8>) -> u8 {
    match max_occurrence {
        Some(n) => n,
        None => 255,
    }
}

/// A long identifier as a sequence of characters.
pub open spec fn long_view(long: Option<String>) -> Option<Seq<char>> {
    match long {
        Some(s) => Some(s@),
        None => None,
    }
}

/// The identifiers of an optional parameter are acceptable: at least one of
/// them is given, and a long one is not empty.
pub open spec fn valid_identifiers(long: Option<Seq<char>>, short: Option<char>) -> bool {
    &&& (long is Some || short is Some)
    &&& (long matches Some(l) ==> l.len() > 0)
}

/// What an optional parameter declares.
pub ghost struct OptionalParameterView {
    pub long: Option<Seq<char>>,
    pub short: Option<char>,
    pub max_occurrence: u8,
}

/// What an optional parameter built from these arguments declares.
pub open spec fn declared_optional(
    long: Option<String>,
    short: Option<char>,
    max_occurrence: Option<u8>,
) -> OptionalParameterView {
    OptionalParameterView {
        long: long_view(long),
        short,
        max_occurrence: normalized_occurrence(max_occurrence),
    }
}

/// An optional parameter. With an explicit value it is an option
/// (`--input=<value>`, `-i=<value>`); with an implicit boolean value it is a
/// flag (`--verbose`, `-v`). It has a long identifier, a short one, or both.
pub struct OptionalParameter {
    /// The long identifier: "input" for `--input`.
    long: Option<String>,
    /// The short identifier: 'i' for `-i`.
    short: Option<char>,
    /// How many times the parameter may appear; at least one.
    max_occurrence: u8,
}

impl View for OptionalParameter {
    type V = OptionalParameterView;

    closed spec fn view(&self) -> OptionalParameterView {
        OptionalParameterView {
            long: long_view(self.long),
            short: self.short,
            max_occurrence: self.max_occurrence,
        }
    }
}

/// Checks the identifiers of an optional parameter: they cannot both be
/// absent, and a long identifier cannot be empty.
pub fn validate_optional_identifiers(long: &Option<String>, short: &Option<char>) -> (r: Result<
    (),
    CommandLineError,
>)
    ensures
        r is Ok <==> valid_identifiers(long_view(*long), *short),
        r matches Err(e) ==> e == CommandLineError::InvalidDeclaration,
{
    if long.is_none() && short.is_none() {
        return Err(CommandLineError::InvalidDeclaration);
    }
    match long {
        Some(l) => {
            if l.as_str().is_empty() {
                return Err(CommandLineError::InvalidDeclaration);
            }
        },
        None => {},
    }
    Ok(())
}

impl OptionalParameter {
    /// Settles a requested occurrence limit: absent or zero gives one, any
    /// other value is kept.
    pub fn get_max_occurrence(in_max_occurrence: Option<u8>) -> (r: u8)
        ensures
            r == normalized_occurrence(in_max_occurrence),
            r >= 1,
    {
        match in_max_occurrence {
            Some(n) => if n == 0 {
                1
            } else {
                n
            },
            None => 1,
        }
    }

    /// Declares an optional parameter, refusing identifiers that break the
    /// rules of `validate_optional_identifiers`.
    pub fn new(in_long: Option<String>, in_short: Option<char>, in_max_occurrence: Option<u8>) -> (r:
        Result<OptionalParameter, CommandLineError>)
        ensures
            r is Ok <==> valid_identifiers(long_view(in_long), in_short),
            r matches Err(e) ==> e == CommandLineError::InvalidDeclaration,
            r matches Ok(p) ==> p@ == declared_optional(in_long, in_short, in_max_occurrence),
    {
        match validate_optional_identifiers(&in_long, &in_short) {
            Ok(()) => {},
            Err(e) => {
                return Err(e);
            },
        }
        let max_occurrence = OptionalParameter::get_max_occurrence(in_max_occurrence);
        Ok(OptionalParameter { long: in_long, short: in_short, max_occurrence })
    }

    /// The long identifier, if any.
    pub fn long(&self) -> (r: &Option<String>)
        ensures
            long_view(*r) == self@.long,
    {
        &self.long
    }

    /// The short identifier, if any.
    pub fn short(&self) -> (r: Option<char>)
        ensures
            r == self@.short,
    {
        self.short
    }

    /// How many times the parameter may appear.
    pub fn max_occurrence(&self) -> (r: u8)
        ensures
            r == self@.max_occurrence,
            r >= 1,
    {
        proof {
            use_type_invariant(self);
        }
        self.max_occurrence
    }

    /// The declaration keeps its own rules.
    #[verifier::type_invariant]
    spec fn well_formed(self) -> bool {
        &&& valid_identifiers(long_view(self.long), self.short)
        &&& self.max_occurrence >= 1
    }
}

/// A positional parameter: it appears at the end of the command line, after
/// the optional parameters, and is identified by its position.
#[derive(Debug, Clone, Copy, PartialEq, Eq, Structural)]
pub struct MandatoryParameter {
    /// How many times the parameter may appear; absent means up to 255.
    max_occurrence: Option<u8>,
}

impl View for MandatoryParameter {
    type V = Option<u8>;

    closed spec fn view(&self) -> Option<u8> {
        self.max_occurrence
    }
}

impl MandatoryParameter {
    /// Declares a positional parameter. An explicit limit of zero is refused;
    /// an absent limit is kept as "unbounded".
    pub fn new(in_max_occurrence: Option<u8>) -> (r: Result<MandatoryParameter, CommandLineError>)
        ensures
            r is Err <==> in_max_occurrence == Some(0u8),
            r matches Err(e) ==> e == CommandLineError::InvalidDeclaration,
            r matches Ok(p) ==> p@ == in_max_occurrence,
    {
        match in_max_occurrence {
            Some(n) => if n == 0 {
                return Err(CommandLineError::InvalidDeclaration);
            },
            None => {},
        }
        Ok(MandatoryParameter { max_occurrence: in_max_occurrence })
    }

    /// The limit as it was declared.
    pub fn get_max_occurrence(&self) -> (r: Option<u8>)
        ensures
            r == self@,
    {
        self.max_occurrence
    }

    /// The limit that applies: the declared one, or 255 where none was given.
    pub fn effective_max_occurrence(&self) -> (r: u8)
        ensures
            r == effective_occurrence(self@),
    {
        match self.max_occurrence {
            Some(n) => n,
            None => 255,
        }
    }
}

} // verus!
