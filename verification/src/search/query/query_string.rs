use vstd::prelude::*;
use vstd::string::StringExecFns;

use super::{QueryFactoryError, QueryFactoryErrorKind};

verus! {

/// The arguments of a query string query: the query text and the fields
/// searched when the text names none.
#[derive(Debug)]
pub struct QueryStringQueryArgs {
    pub query: String,
    pub default_search_fields: Vec<String>,
}

impl QueryStringQueryArgs {
    /// Checks that some default search field is given; none is an
    /// `InvalidArgument` error.
    pub fn check_default_fields(&self) -> (res: Result<(), QueryFactoryError>)
        ensures
            res is Ok <==> self.default_search_fields@.len() > 0,
            res matches Err(e) ==> e.kind() == QueryFactoryErrorKind::InvalidArgument,
    {
        if self.default_search_fields.len() == 0 {
            Err(
                QueryFactoryErrorKind::InvalidArgument.with_error(
                    String::from_str("No default search fields provided."),
                ),
            )
        } else {
            Ok(())
        }
    }
}

} // verus!
