//! The shapes of what the clipping service answers.

use vstd::prelude::*;

verus! {

/// The envelope of an answer: data, errors, or both.
#[derive(Debug, Clone, PartialEq)]
pub struct GraphQLResponse<T> {
    pub data: Option<T>,
    pub errors: Option<Vec<GraphQLError>>,
}

/// One error of an answer.
#[derive(Debug, Clone, PartialEq)]
pub struct GraphQLError {
    pub message: String,
    pub locations: Option<Vec<GraphQLLocation>>,
}

/// Where in the query an error was found.
#[derive(Debug, Clone, PartialEq)]
pub struct GraphQLLocation {
    pub line: i64,
    pub column: i64,
}

/// The data of an answer to a request that creates clippings.
#[derive(Debug, Clone, PartialEq)]
pub struct CreateClippingsDataResponse {
    pub create_clippings: Vec<CreateClippingResponse>,
}

/// One created clipping.
#[derive(Debug, Clone, PartialEq)]
pub struct CreateClippingResponse {
    pub id: i64,
}

impl<T> Default for GraphQLResponse<T> {
    fn default() -> (r: Self)
        ensures
            r.data is None,
            r.errors is None,
    {
        GraphQLResponse { data: None, errors: None }
    }
}

impl Default for GraphQLError {
    fn default() -> (r: Self)
        ensures
            r.message@.len() == 0,
            r.locations is None,
    {
        GraphQLError { message: String::new(), locations: None }
    }
}

impl Default for GraphQLLocation {
    fn default() -> (r: Self)
        ensures
            r.line == 0,
            r.column == 0,
    {
        GraphQLLocation { line: 0, column: 0 }
    }
}

impl Default for CreateClippingsDataResponse {
    fn default() -> (r: Self)
        ensures
            r.create_clippings@.len() == 0,
    {
        CreateClippingsDataResponse { create_clippings: Vec::new() }
    }
}

impl Default for CreateClippingResponse {
    fn default() -> (r: Self)
        ensures
            r.id == 0,
    {
        CreateClippingResponse { id: 0 }
    }
}

/// What one answer amounts to, for the report to the user.
pub struct ResponseSummary {
    /// The message of the first error, where the answer holds errors.
    pub first_error: Option<String>,
    /// The number of rows created, where the answer holds data.
    pub created: Option<usize>,
}

impl GraphQLResponse<CreateClippingsDataResponse> {
    /// The message of the first error and the number of created rows, each
    /// where the answer has it.
    pub fn summary(&self) -> (s: ResponseSummary)
        ensures
            match self.errors {
                Some(errors) if errors@.len() > 0 => s.first_error matches Some(m) && m@
                    == errors@[0].message@,
                _ => s.first_error is None,
            },
            match self.data {
                Some(data) => s.created == Some(data.create_clippings@.len() as usize),
                None => s.created is None,
            },
    {
        let first_error = match &self.errors {
            Some(errors) => if errors.len() > 0 {
                Some(errors[0].message.clone())
            } else {
                None
            },
            None => None,
        };
        let created = match &self.data {
            Some(data) => Some(data.create_clippings.len()),
            None => None,
        };
        ResponseSummary { first_error, created }
    }
}

} // verus!
