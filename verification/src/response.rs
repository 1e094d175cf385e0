//! What to make of a response of the card source.

use reqwest::StatusCode;
use vstd::prelude::*;

use crate::error::ScryfallError;
use crate::error::ScryfallResult;

verus! {

/// The status of a response to a client that has sent too many requests.
pub open spec fn rate_limited(status: u16) -> bool {
    status == 429
}

/// `reqwest::StatusCode::TOO_MANY_REQUESTS`, as a number.
#[verifier::external_body]
fn too_many_requests() -> (status: u16)
    ensures
        status == 429,
{
    StatusCode::TOO_MANY_REQUESTS.as_u16()
}

/// Tells whether the card source has answered that it was asked too often. The
/// program must then end.
pub fn check_if_rate_limited(status: u16) -> (limited: bool)
    ensures
        limited == rate_limited(status),
{
    status == too_many_requests()
}

/// What to do once a request was sent.
#[derive(Debug)]
pub enum AfterSend<R> {
    /// Read the body of this response.
    Read(R),
    /// End the program.
    Exit,
    /// Report an error.
    Fail(ScryfallError),
}

/// Decides what to do once a request was sent: `sent` holds the status of the
/// response and the response, or the description of the error that kept it from
/// coming. Every status is accepted but the one that tells of too many requests.
pub fn after_send<R>(sent: Result<(u16, R), String>) -> (next: AfterSend<R>)
    ensures
        match sent {
            Ok((status, response)) => next == (if rate_limited(status) {
                AfterSend::Exit
            } else {
                AfterSend::Read(response)
            }),
            Err(why) => next == AfterSend::<R>::Fail(ScryfallError::HTTPError(why)),
        },
{
    match sent {
        Ok((status, response)) => {
            if check_if_rate_limited(status) {
                AfterSend::Exit
            } else {
                AfterSend::Read(response)
            }
        },
        Err(why) => AfterSend::Fail(ScryfallError::HTTPError(why)),
    }
}

/// Takes the body of a response; one that could not be read counts as unreadable
/// contents.
pub fn accept_body<T>(body: Option<T>) -> (outcome: ScryfallResult<T>)
    ensures
        outcome == (match body {
            Some(body) => ScryfallResult::<T>::Ok(body),
            None => Err(ScryfallError::ParseError),
        }),
{
    match body {
        Some(body) => Ok(body),
        None => Err(ScryfallError::ParseError),
    }
}

/// An image that was asked for: there is one where there was a response and its
/// body could be read.
pub fn downloaded_image(response: ScryfallResult<Option<Vec<u8>>>) -> (image: Option<Vec<u8>>)
    ensures
        image == (match response {
            Ok(body) => body,
            Err(_) => None,
        }),
{
    match response {
        Ok(body) => body,
        Err(_) => None,
    }
}

/// The program ends exactly if the card source says that it was asked too often. Every
/// other response is read as it came, and a request that failed is reported with its
/// cause.
pub proof fn law_only_too_many_requests_end_the_program<R>(
    sent: Result<(u16, R), String>,
    next: AfterSend<R>,
)
    requires
        call_ensures(after_send::<R>, (sent,), next),
    ensures
        next is Exit <==> (sent matches Ok((status, _)) && status == 429),
        next matches AfterSend::Read(response) ==> (sent matches Ok((_, sent_response))
            && sent_response == response),
        next matches AfterSend::Fail(error) ==> (error matches ScryfallError::HTTPError(why)
            && sent matches Err(cause) && cause == why),
        next is Fail <==> sent is Err,
{
}

/// Of all statuses one alone tells of too many requests.
pub proof fn law_one_status_tells_of_too_many_requests(status: u16, limited: bool)
    requires
        call_ensures(check_if_rate_limited, (status,), limited),
    ensures
        limited <==> status == 429,
{
}

/// A body that could be read is taken as it is, and one that could not counts as
/// unreadable contents.
pub proof fn law_body_is_taken_as_it_is<T>(body: Option<T>, outcome: ScryfallResult<T>)
    requires
        call_ensures(accept_body::<T>, (body,), outcome),
    ensures
        outcome is Ok <==> body is Some,
        outcome is Ok ==> body == Some(outcome->Ok_0),
        outcome is Err ==> outcome->Err_0 == ScryfallError::ParseError,
{
}

/// An image is what the body of a response holds, and there is none without a response
/// or without a body.
pub proof fn law_image_is_the_body(response: ScryfallResult<Option<Vec<u8>>>, image: Option<Vec<u8>>)
    requires
        call_ensures(downloaded_image, (response,), image),
    ensures
        image is Some <==> response is Ok && response->Ok_0 is Some,
        image matches Some(bytes) ==> bytes@ == response->Ok_0->Some_0@,
{
}

} // verus!
