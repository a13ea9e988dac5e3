//! The uniform response envelope: a status code, a success flag and either
//! data or an error message.

use vstd::prelude::*;

verus! {

/// What a response carries.
#[derive(Debug)]
pub enum Payload<T> {
    Data(T),
    Error { message: String },
}

/// A response: `success` is true exactly for 2xx statuses that carry data.
#[derive(Debug)]
pub struct ApiResponse<T> {
    pub status: u16,
    pub success: bool,
    pub payload: Payload<T>,
}

/// The status class is "success" (2xx).
pub open spec fn is_success_status(status: u16) -> bool {
    200 <= status < 300
}

impl<T> ApiResponse<T> {
    /// A response with `status` carrying `data`.
    pub fn base(status: u16, data: T) -> (r: Self)
        ensures
            r.status == status,
            r.success == is_success_status(status),
            r.payload == Payload::Data(data),
    {
        ApiResponse { status, success: 200 <= status && status < 300, payload: Payload::Data(data) }
    }

    /// `200 OK` carrying `data`.
    pub fn success(data: T) -> (r: Self)
        ensures
            r.status == 200,
            r.success,
            r.payload == Payload::Data(data),
    {
        Self::base(200, data)
    }

    /// `201 Created` carrying `data`.
    pub fn created(data: T) -> (r: Self)
        ensures
            r.status == 201,
            r.success,
            r.payload == Payload::Data(data),
    {
        Self::base(201, data)
    }

    /// A failed response with `status` and `message`.
    pub fn error(status: u16, message: &str) -> (r: Self)
        ensures
            r.status == status,
            !r.success,
            r.payload matches Payload::Error { message: m } && m@ == message@,
    {
        ApiResponse { status, success: false, payload: Payload::Error { message: message.to_owned() } }
    }

    /// `400 Bad Request` with `message`.
    pub fn bad_request(message: &str) -> (r: Self)
        ensures
            r.status == 400,
            !r.success,
            r.payload matches Payload::Error { message: m } && m@ == message@,
    {
        Self::error(400, message)
    }

    /// `404 Not Found` with `message`.
    pub fn not_found(message: &str) -> (r: Self)
        ensures
            r.status == 404,
            !r.success,
            r.payload matches Payload::Error { message: m } && m@ == message@,
    {
        Self::error(404, message)
    }

    /// `500 Internal Server Error` with `message`.
    pub fn internal_error(message: &str) -> (r: Self)
        ensures
            r.status == 500,
            !r.success,
            r.payload matches Payload::Error { message: m } && m@ == message@,
    {
        Self::error(500, message)
    }
}

/// The answer to any CORS preflight (`OPTIONS`) request: `204 No Content`.
pub fn global_options_handler() -> (r: u16)
    ensures
        r == 204,
{
    204
}

} // verus!
