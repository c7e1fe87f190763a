use vstd::prelude::*;

use crate::text::str_eq;

verus! {

/// The kinds of query.
#[derive(Clone, Copy, Debug, PartialEq, Eq, Structural)]
pub enum Kind {
    Unknown,
    All,
    Boolean,
    Boost,
    FuzzyTerm,
    Phrase,
    QueryString,
    Range,
    Regex,
    Term,
}

/// The wire code of `kind`.
pub open spec fn kind_code(kind: Kind) -> i32 {
    match kind {
        Kind::Unknown => 0,
        Kind::All => 1,
        Kind::Boolean => 2,
        Kind::Boost => 3,
        Kind::FuzzyTerm => 4,
        Kind::Phrase => 5,
        Kind::QueryString => 6,
        Kind::Range => 7,
        Kind::Regex => 8,
        Kind::Term => 9,
    }
}

/// The kind whose wire code is `n`; a code of no kind reads as the unknown
/// kind.
pub open spec fn kind_of_code(n: i32) -> Kind {
    if n == 1 {
        Kind::All
    } else if n == 2 {
        Kind::Boolean
    } else if n == 3 {
        Kind::Boost
    } else if n == 4 {
        Kind::FuzzyTerm
    } else if n == 5 {
        Kind::Phrase
    } else if n == 6 {
        Kind::QueryString
    } else if n == 7 {
        Kind::Range
    } else if n == 8 {
        Kind::Regex
    } else if n == 9 {
        Kind::Term
    } else {
        Kind::Unknown
    }
}

/// The name of `kind` in query descriptions; the unknown kind has none.
pub open spec fn kind_name(kind: Kind) -> Option<Seq<char>> {
    match kind {
        Kind::Unknown => None,
        Kind::All => Some("all"@),
        Kind::Boolean => Some("boolean"@),
        Kind::Boost => Some("boost"@),
        Kind::FuzzyTerm => Some("fuzzy_term"@),
        Kind::Phrase => Some("phrase"@),
        Kind::QueryString => Some("query_string"@),
        Kind::Range => Some("range"@),
        Kind::Regex => Some("regex"@),
        Kind::Term => Some("term"@),
    }
}

/// The name of `kind` in the protocol definition.
pub open spec fn kind_proto_name(kind: Kind) -> Seq<char> {
    match kind {
        Kind::Unknown => "UNKNOWN"@,
        Kind::All => "ALL"@,
        Kind::Boolean => "BOOLEAN"@,
        Kind::Boost => "BOOST"@,
        Kind::FuzzyTerm => "FUZZY_TERM"@,
        Kind::Phrase => "PHRASE"@,
        Kind::QueryString => "QUERY_STRING"@,
        Kind::Range => "RANGE"@,
        Kind::Regex => "REGEX"@,
        Kind::Term => "TERM"@,
    }
}

impl Kind {
    /// The kind named `s` in a query description, if any.
    pub fn from_str(s: &str) -> (kind: Option<Kind>)
        ensures
            match kind {
                Some(k) => kind_name(k) == Some(s@),
                None => forall|k: Kind| kind_name(k) != Some(s@),
            },
    {
        proof {
            reveal_strlit("all");
            reveal_strlit("boolean");
            reveal_strlit("boost");
            reveal_strlit("fuzzy_term");
            reveal_strlit("phrase");
            reveal_strlit("query_string");
            reveal_strlit("range");
            reveal_strlit("regex");
            reveal_strlit("term");
        }
        if str_eq(s, "all") {
            Some(Kind::All)
        } else if str_eq(s, "boolean") {
            Some(Kind::Boolean)
        } else if str_eq(s, "boost") {
            Some(Kind::Boost)
        } else if str_eq(s, "fuzzy_term") {
            Some(Kind::FuzzyTerm)
        } else if str_eq(s, "phrase") {
            Some(Kind::Phrase)
        } else if str_eq(s, "query_string") {
            Some(Kind::QueryString)
        } else if str_eq(s, "range") {
            Some(Kind::Range)
        } else if str_eq(s, "regex") {
            Some(Kind::Regex)
        } else if str_eq(s, "term") {
            Some(Kind::Term)
        } else {
            None
        }
    }

    /// The kind whose wire code is `n`, if any.
    pub fn from_i32(n: i32) -> (kind: Option<Kind>)
        ensures
            match kind {
                Some(k) => kind_code(k) == n,
                None => forall|k: Kind| kind_code(k) != n,
            },
    {
        match n {
            0 => Some(Kind::Unknown),
            1 => Some(Kind::All),
            2 => Some(Kind::Boolean),
            3 => Some(Kind::Boost),
            4 => Some(Kind::FuzzyTerm),
            5 => Some(Kind::Phrase),
            6 => Some(Kind::QueryString),
            7 => Some(Kind::Range),
            8 => Some(Kind::Regex),
            9 => Some(Kind::Term),
            _ => None,
        }
    }

    /// The wire code of this kind.
    pub fn to_i32(&self) -> (n: i32)
        ensures
            n == kind_code(*self),
    {
        match self {
            Kind::Unknown => 0,
            Kind::All => 1,
            Kind::Boolean => 2,
            Kind::Boost => 3,
            Kind::FuzzyTerm => 4,
            Kind::Phrase => 5,
            Kind::QueryString => 6,
            Kind::Range => 7,
            Kind::Regex => 8,
            Kind::Term => 9,
        }
    }

    /// The name of this kind in the protocol definition.
    pub fn as_str_name(&self) -> (name: &'static str)
        ensures
            name@ == kind_proto_name(*self),
    {
        match self {
            Kind::Unknown => "UNKNOWN",
            Kind::All => "ALL",
            Kind::Boolean => "BOOLEAN",
            Kind::Boost => "BOOST",
            Kind::FuzzyTerm => "FUZZY_TERM",
            Kind::Phrase => "PHRASE",
            Kind::QueryString => "QUERY_STRING",
            Kind::Range => "RANGE",
            Kind::Regex => "REGEX",
            Kind::Term => "TERM",
        }
    }
}

} // verus!
