//! What a bootstrap client sends and how it reads the answers.
//!
//! The channel itself is the caller's: these functions build the bytes to send and interpret the bytes
//! received.

use vstd::prelude::*;

use crate::bootstrap::protocol::{
    request_bytes, request_type_code, response_of_bytes, response_status_of, BootstrapRequest,
    BootstrapResponse, RequestType, ResponseStatus, BOOTSTRAP_MAGIC, MAX_SERVICE_NAME,
};

verus! {

/// Errors of a bootstrap client.
#[derive(Debug, Clone, Copy, PartialEq, Eq, Structural)]
pub enum BootstrapError {
    /// No bootstrap channel could be obtained.
    NoBootstrapChannel,
    /// The service does not exist.
    ServiceNotFound,
    /// The process lacks the privilege.
    PermissionDenied,
    /// The answer could not be read, or the request could not be formed.
    InvalidResponse,
    /// Sending or receiving failed.
    CommunicationError,
    /// The service cannot be reached now.
    ServiceUnavailable,
}

/// Bytes of a request of the given type for the given service name.
pub open spec fn request_message_spec(request_type: RequestType, name: Seq<u8>) -> Seq<u8> {
    request_bytes(
        BootstrapRequest {
            magic: BOOTSTRAP_MAGIC,
            request_type: request_type_code(request_type),
            name_len: name.len() as u32,
            reserved: 0,
        },
    ) + name
}

/// The message that asks for `request_type` on the service `name`: the header followed by the name. A name
/// longer than [`MAX_SERVICE_NAME`] bytes is refused with [`BootstrapError::InvalidResponse`].
pub fn request_message(request_type: RequestType, name: &[u8]) -> (res: Result<Vec<u8>, BootstrapError>)
    ensures
        name@.len() > MAX_SERVICE_NAME ==> res == Err::<Vec<u8>, BootstrapError>(BootstrapError::InvalidResponse),
        name@.len() <= MAX_SERVICE_NAME ==> (res matches Ok(v) && v@ == request_message_spec(request_type, name@)),
{
    if name.len() > MAX_SERVICE_NAME {
        return Err(BootstrapError::InvalidResponse);
    }
    let request = BootstrapRequest::new(request_type, name.len());
    let mut buf = request.to_bytes();
    let mut i: usize = 0;
    while i < name.len()
        invariant
            i <= name@.len(),
            buf@ == request_bytes(request) + name@.subrange(0, i as int),
        decreases name@.len() - i,
    {
        buf.push(name[i]);
        i = i + 1;
        assert(name@.subrange(0, i as int) =~= name@.subrange(0, i - 1) + seq![name@[i - 1]]);
    }
    assert(name@.subrange(0, name@.len() as int) =~= name@);
    Ok(buf)
}

/// Outcome of a `GetService` exchange, from the answer's bytes and the handles that came with it.
pub open spec fn get_service_outcome_spec(resp: Seq<u8>, handle_count: usize, first_handle_valid: bool) -> Result<
    (),
    BootstrapError,
> {
    if resp.len() < 16 {
        Err(BootstrapError::InvalidResponse)
    } else {
        match response_status_of(response_of_bytes(resp).status) {
            ResponseStatus::Success => if handle_count > 0 && first_handle_valid {
                Ok(())
            } else {
                Err(BootstrapError::InvalidResponse)
            },
            ResponseStatus::NotFound => Err(BootstrapError::ServiceNotFound),
            ResponseStatus::PermissionDenied => Err(BootstrapError::PermissionDenied),
            ResponseStatus::ServiceUnavailable => Err(BootstrapError::ServiceUnavailable),
            _ => Err(BootstrapError::InvalidResponse),
        }
    }
}

/// Reads the answer to a `GetService` request: `Ok` when it succeeded and carried a valid handle, which is
/// then the service's channel.
pub fn get_service_outcome(resp: &[u8], handle_count: usize, first_handle_valid: bool) -> (res: Result<
    (),
    BootstrapError,
>)
    ensures
        res == get_service_outcome_spec(resp@, handle_count, first_handle_valid),
{
    let response = match BootstrapResponse::from_bytes(resp) {
        Some(r) => r,
        None => return Err(BootstrapError::InvalidResponse),
    };
    match response.status() {
        ResponseStatus::Success => {
            if handle_count > 0 && first_handle_valid {
                Ok(())
            } else {
                Err(BootstrapError::InvalidResponse)
            }
        },
        ResponseStatus::NotFound => Err(BootstrapError::ServiceNotFound),
        ResponseStatus::PermissionDenied => Err(BootstrapError::PermissionDenied),
        ResponseStatus::ServiceUnavailable => Err(BootstrapError::ServiceUnavailable),
        _ => Err(BootstrapError::InvalidResponse),
    }
}

/// Outcome of a `RegisterProvider` exchange, from the answer's bytes.
pub open spec fn register_provider_outcome_spec(resp: Seq<u8>) -> Result<(), BootstrapError> {
    if resp.len() < 16 {
        Err(BootstrapError::InvalidResponse)
    } else {
        match response_status_of(response_of_bytes(resp).status) {
            ResponseStatus::Success => Ok(()),
            ResponseStatus::PermissionDenied => Err(BootstrapError::PermissionDenied),
            _ => Err(BootstrapError::InvalidResponse),
        }
    }
}

/// Reads the answer to a `RegisterProvider` request. A name already taken reads as
/// [`BootstrapError::InvalidResponse`].
pub fn register_provider_outcome(resp: &[u8]) -> (res: Result<(), BootstrapError>)
    ensures
        res == register_provider_outcome_spec(resp@),
{
    let response = match BootstrapResponse::from_bytes(resp) {
        Some(r) => r,
        None => return Err(BootstrapError::InvalidResponse),
    };
    match response.status() {
        ResponseStatus::Success => Ok(()),
        ResponseStatus::AlreadyExists => Err(BootstrapError::InvalidResponse),
        ResponseStatus::PermissionDenied => Err(BootstrapError::PermissionDenied),
        _ => Err(BootstrapError::InvalidResponse),
    }
}

/// Reads the answer to a `Ping` request: `Ok` when its status is success.
pub fn ping_outcome(resp: &[u8]) -> (res: Result<(), BootstrapError>)
    ensures
        resp@.len() < 16 ==> res == Err::<(), BootstrapError>(BootstrapError::InvalidResponse),
        resp@.len() >= 16 ==> res == (if response_of_bytes(resp@).status == 0 {
            Ok::<(), BootstrapError>(())
        } else {
            Err(BootstrapError::CommunicationError)
        }),
{
    let response = match BootstrapResponse::from_bytes(resp) {
        Some(r) => r,
        None => return Err(BootstrapError::InvalidResponse),
    };
    if response.is_success() {
        Ok(())
    } else {
        Err(BootstrapError::CommunicationError)
    }
}

} // verus!
