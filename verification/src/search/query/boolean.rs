use vstd::prelude::*;

use crate::proto::index::query::{kind_name, kind_of_code, Kind};
use crate::proto::index::Query;
use crate::text::str_eq;

verus! {

/// How a subquery takes part in a boolean query.
#[derive(Clone, Copy, Debug, PartialEq, Eq, Structural)]
pub enum Occurrence {
    Must,
    MustNot,
    Should,
}

/// The name of `occurrence` in query descriptions.
pub open spec fn occurrence_name(occurrence: Occurrence) -> Seq<char> {
    match occurrence {
        Occurrence::Must => "must"@,
        Occurrence::MustNot => "must_not"@,
        Occurrence::Should => "should"@,
    }
}

impl Occurrence {
    /// The occurrence named `s`, if any.
    pub fn from_name(s: &str) -> (occurrence: Option<Occurrence>)
        ensures
            match occurrence {
                Some(o) => occurrence_name(o) == s@,
                None => forall|o: Occurrence| occurrence_name(o) != s@,
            },
    {
        proof {
            reveal_strlit("must");
            reveal_strlit("must_not");
            reveal_strlit("should");
        }
        if str_eq(s, "must") {
            Some(Occurrence::Must)
        } else if str_eq(s, "must_not") {
            Some(Occurrence::MustNot)
        } else if str_eq(s, "should") {
            Some(Occurrence::Should)
        } else {
            None
        }
    }

    /// The name of this occurrence, as `from_name` reads it.
    pub fn name(&self) -> (name: &'static str)
        ensures
            name@ == occurrence_name(*self),
    {
        match self {
            Occurrence::Must => "must",
            Occurrence::MustNot => "must_not",
            Occurrence::Should => "should",
        }
    }
}

/// A subquery of a boolean query.
#[derive(Debug)]
pub struct SubQuery {
    pub occurrence: Occurrence,
    pub query: Query,
}

impl SubQuery {
    /// The subquery `query`, taking part as `occurrence`.
    pub fn new(occurrence: Occurrence, query: Query) -> (subquery: SubQuery)
        ensures
            subquery.occurrence == occurrence,
            subquery.query == query,
    {
        SubQuery { occurrence, query }
    }

    /// The subquery described by an occurrence, the name of a query kind and
    /// the query options; a kind name that names no kind gives `None`.
    pub fn from_description(
        occurrence: Occurrence,
        kind_name_text: &str,
        options: Vec<u8>,
    ) -> (subquery: Option<SubQuery>)
        ensures
            match subquery {
                Some(sq) => {
                    &&& sq.occurrence == occurrence
                    &&& kind_name(kind_of_code(sq.query.kind)) == Some(kind_name_text@)
                    &&& sq.query.options == options
                },
                None => forall|k: Kind| kind_name(k) != Some(kind_name_text@),
            },
    {
        match Kind::from_str(kind_name_text) {
            Some(kind) => {
                let query = Query { kind: kind.to_i32(), options };
                Some(SubQuery { occurrence, query })
            },
            None => None,
        }
    }
}

/// The arguments of a boolean query: its subqueries.
#[derive(Debug)]
pub struct BooleanQueryArgs {
    subqueries: Vec<SubQuery>,
}

impl BooleanQueryArgs {
    /// The arguments with the given subqueries.
    pub fn new(subqueries: Vec<SubQuery>) -> (args: BooleanQueryArgs)
        ensures
            args.subquery_seq() == subqueries@,
    {
        BooleanQueryArgs { subqueries }
    }

    /// The subqueries, in order.
    pub closed spec fn subquery_seq(&self) -> Seq<SubQuery> {
        self.subqueries@
    }

    /// The subqueries, in order.
    pub fn subqueries(&self) -> (subqueries: &[SubQuery])
        ensures
            subqueries@ == self.subquery_seq(),
    {
        self.subqueries.as_slice()
    }
}

} // verus!
