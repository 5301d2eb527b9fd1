//! The service that generated code is tried out against: the types the
//! generator writes for its description, and the service's handlers.
use vstd::prelude::*;

verus! {

pub struct Hello {
    pub my_name: String,
    pub my_age: Option<i64>,
}

pub enum GetStatus {
    Okay,
}

pub enum SetStatus {
    Okay(Option<String>),
}

pub enum TwoPathParams {
    Okay(Hello),
}

pub enum TwoQueryParams {
    Okay(Hello),
}

pub enum JustDefault {
    Default { status_code: u16, body: Hello },
}

pub enum OkErrorDefault {
    Okay,
    BadRequest,
    Default { status_code: u16 },
}

pub struct PathsNestedResponseTypeGetResponsesFirstSecond {}

pub struct PathsNestedResponseTypeGetResponsesFirst {
    pub second: PathsNestedResponseTypeGetResponsesFirstSecond,
}

pub struct PathsNestedResponseTypeGetResponses {
    pub first: PathsNestedResponseTypeGetResponsesFirst,
}

pub enum NestedResponse {
    Okay(PathsNestedResponseTypeGetResponses),
}

pub struct NullableStructOpt {
    pub this: String,
    pub that: Option<i64>,
    pub other: Option<Vec<String>>,
    pub flooglezingle: Option<bool>,
}

/// The greeting used throughout.
pub fn hello() -> (r: Hello)
    ensures
        r.my_name@ == "Alex"@,
        r.my_age == Some(33i64),
{
    Hello { my_name: String::from_str("Alex"), my_age: Some(33) }
}

/// A value of the nullable struct type, with every field given.
pub fn nullable_struct() -> (r: Option<NullableStructOpt>)
    ensures
        r matches Some(s) && s.this@ == "string"@ && s.that == Some(123i64) && s.flooglezingle
            == Some(true) && (s.other matches Some(v) && v@.len() == 1 && v@[0]@ == "string"@),
{
    let mut other: Vec<String> = Vec::new();
    other.push(String::from_str("string"));
    Some(
        NullableStructOpt {
            this: String::from_str("string"),
            that: Some(123),
            other: Some(other),
            flooglezingle: Some(true),
        },
    )
}

/// The service's handlers.
pub struct Api;

impl Api {
    pub fn get_status(&self) -> (r: GetStatus)
        ensures
            r == GetStatus::Okay,
    {
        GetStatus::Okay
    }

    /// Echoes the status.
    pub fn set_status(&self, status: Option<String>) -> (r: SetStatus)
        ensures
            r == SetStatus::Okay(status),
    {
        SetStatus::Okay(status)
    }

    /// Greets with the name and age from the path.
    pub fn two_path_params(&self, name: String, age: i64) -> (r: TwoPathParams)
        ensures
            r == TwoPathParams::Okay(Hello { my_name: name, my_age: Some(age) }),
    {
        TwoPathParams::Okay(Hello { my_name: name, my_age: Some(age) })
    }

    /// Greets with the name and age from the query.
    pub fn two_query_params(&self, my_name: String, my_age: Option<i64>) -> (r: TwoQueryParams)
        ensures
            r == TwoQueryParams::Okay(Hello { my_name, my_age }),
    {
        TwoQueryParams::Okay(Hello { my_name, my_age })
    }

    /// The default response, with status 200 and the greeting.
    pub fn just_default(&self) -> (r: JustDefault)
        ensures
            r matches JustDefault::Default { status_code, body } && status_code == 200
                && body.my_name@ == "Alex"@ && body.my_age == Some(33i64),
    {
        JustDefault::Default { status_code: 200, body: hello() }
    }

    /// `Okay` for 200, `BadRequest` for 400, and the default response with
    /// the code (as a `u16`) for any other.
    pub fn ok_error_default(&self, return_code: i64) -> (r: OkErrorDefault)
        ensures
            return_code == 200 ==> r == OkErrorDefault::Okay,
            return_code == 400 ==> r == OkErrorDefault::BadRequest,
            return_code != 200 && return_code != 400 ==> r == (OkErrorDefault::Default {
                status_code: return_code as u16,
            }),
    {
        if return_code == 200 {
            OkErrorDefault::Okay
        } else if return_code == 400 {
            OkErrorDefault::BadRequest
        } else {
            OkErrorDefault::Default { status_code: return_code as u16 }
        }
    }

    /// The nested (empty) response.
    pub fn nested_response(&self) -> (r: NestedResponse)
        ensures
            r == NestedResponse::Okay(
                PathsNestedResponseTypeGetResponses {
                    first: PathsNestedResponseTypeGetResponsesFirst {
                        second: PathsNestedResponseTypeGetResponsesFirstSecond {  },
                    },
                },
            ),
    {
        NestedResponse::Okay(
            PathsNestedResponseTypeGetResponses {
                first: PathsNestedResponseTypeGetResponsesFirst {
                    second: PathsNestedResponseTypeGetResponsesFirstSecond {  },
                },
            },
        )
    }
}

} // verus!
