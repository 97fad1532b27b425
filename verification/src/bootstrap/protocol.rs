//! Wire format of the bootstrap protocol, through which a process obtains the channels of the base services.
//!
//! A request is a 16-byte header (magic, request type, name length, reserved; four little-endian `u32`)
//! followed by the service name. A response is a 16-byte header (magic, status as a little-endian `i32`,
//! data length, handle count) possibly followed by data.

use vstd::prelude::*;
use vstd::bytes::{spec_u32_from_le_bytes, spec_u32_to_le_bytes, u32_from_le_bytes, u32_to_le_bytes};
use vstd::slice::slice_subrange;

verus! {

/// Magic number opening every request and response ("BOOT").
pub const BOOTSTRAP_MAGIC: u32 = 0x424F_4F54;

/// Maximum length in bytes of a service name.
pub const MAX_SERVICE_NAME: usize = 64;

/// Kind of a bootstrap request.
#[derive(Debug, Clone, Copy, PartialEq, Eq, Structural)]
pub enum RequestType {
    /// Obtain the channel of a service.
    GetService,
    /// Register as the provider of a service (privileged processes only).
    RegisterProvider,
    /// List the available services.
    ListServices,
    /// Liveness check.
    Ping,
}

/// Number of a request type on the wire.
pub open spec fn request_type_code(t: RequestType) -> u32 {
    match t {
        RequestType::GetService => 1,
        RequestType::RegisterProvider => 2,
        RequestType::ListServices => 3,
        RequestType::Ping => 4,
    }
}

/// Request type of a number on the wire: an unknown number reads as [`RequestType::GetService`].
pub open spec fn request_type_of(v: u32) -> RequestType {
    if v == 2 {
        RequestType::RegisterProvider
    } else if v == 3 {
        RequestType::ListServices
    } else if v == 4 {
        RequestType::Ping
    } else {
        RequestType::GetService
    }
}

impl RequestType {
    /// Number of this request type on the wire.
    pub fn code(self) -> (res: u32)
        ensures
            res == request_type_code(self),
    {
        match self {
            RequestType::GetService => 1,
            RequestType::RegisterProvider => 2,
            RequestType::ListServices => 3,
            RequestType::Ping => 4,
        }
    }
}

impl From<u32> for RequestType {
    fn from(v: u32) -> (res: RequestType) {
        if v == 2 {
            RequestType::RegisterProvider
        } else if v == 3 {
            RequestType::ListServices
        } else if v == 4 {
            RequestType::Ping
        } else {
            RequestType::GetService
        }
    }
}

impl vstd::std_specs::convert::FromSpecImpl<u32> for RequestType {
    open spec fn obeys_from_spec() -> bool {
        true
    }

    open spec fn from_spec(v: u32) -> RequestType {
        request_type_of(v)
    }
}

/// Status of a bootstrap response.
#[derive(Debug, Clone, Copy, PartialEq, Eq, Structural)]
pub enum ResponseStatus {
    /// The request succeeded.
    Success,
    NotFound,
    AlreadyExists,
    PermissionDenied,
    InvalidRequest,
    ServiceUnavailable,
}

/// Number of a status on the wire.
pub open spec fn response_status_code(s: ResponseStatus) -> i32 {
    match s {
        ResponseStatus::Success => 0i32,
        ResponseStatus::NotFound => -1i32,
        ResponseStatus::AlreadyExists => -2i32,
        ResponseStatus::PermissionDenied => -3i32,
        ResponseStatus::InvalidRequest => -4i32,
        ResponseStatus::ServiceUnavailable => -5i32,
    }
}

/// Status of a number on the wire: an unknown number reads as [`ResponseStatus::InvalidRequest`].
pub open spec fn response_status_of(v: i32) -> ResponseStatus {
    if v == 0 {
        ResponseStatus::Success
    } else if v == -1 {
        ResponseStatus::NotFound
    } else if v == -2 {
        ResponseStatus::AlreadyExists
    } else if v == -3 {
        ResponseStatus::PermissionDenied
    } else if v == -5 {
        ResponseStatus::ServiceUnavailable
    } else {
        ResponseStatus::InvalidRequest
    }
}

impl ResponseStatus {
    /// Number of this status on the wire.
    pub fn code(self) -> (res: i32)
        ensures
            res == response_status_code(self),
    {
        match self {
            ResponseStatus::Success => 0,
            ResponseStatus::NotFound => -1,
            ResponseStatus::AlreadyExists => -2,
            ResponseStatus::PermissionDenied => -3,
            ResponseStatus::InvalidRequest => -4,
            ResponseStatus::ServiceUnavailable => -5,
        }
    }
}

impl From<i32> for ResponseStatus {
    fn from(v: i32) -> (res: ResponseStatus) {
        if v == 0 {
            ResponseStatus::Success
        } else if v == -1 {
            ResponseStatus::NotFound
        } else if v == -2 {
            ResponseStatus::AlreadyExists
        } else if v == -3 {
            ResponseStatus::PermissionDenied
        } else if v == -5 {
            ResponseStatus::ServiceUnavailable
        } else {
            ResponseStatus::InvalidRequest
        }
    }
}

impl vstd::std_specs::convert::FromSpecImpl<i32> for ResponseStatus {
    open spec fn obeys_from_spec() -> bool {
        true
    }

    open spec fn from_spec(v: i32) -> ResponseStatus {
        response_status_of(v)
    }
}

/// Decoding the number of a request type gives the request type back.
pub proof fn lemma_request_type_roundtrip(t: RequestType)
    ensures
        request_type_of(request_type_code(t)) == t,
{
}

/// Decoding the number of a status gives the status back.
pub proof fn lemma_response_status_roundtrip(s: ResponseStatus)
    ensures
        response_status_of(response_status_code(s)) == s,
{
}

/// Four little-endian `u32` fields, in order.
pub open spec fn header_bytes(a: u32, b: u32, c: u32, d: u32) -> Seq<u8> {
    spec_u32_to_le_bytes(a) + spec_u32_to_le_bytes(b) + spec_u32_to_le_bytes(c) + spec_u32_to_le_bytes(d)
}

/// The `i`-th little-endian `u32` field of a header.
pub open spec fn header_field(bytes: Seq<u8>, i: int) -> u32 {
    spec_u32_from_le_bytes(bytes.subrange(4 * i, 4 * i + 4))
}

/// Appends `x` to `out` in little-endian order.
pub(crate) fn push_u32(out: &mut Vec<u8>, x: u32)
    ensures
        final(out)@ == old(out)@ + spec_u32_to_le_bytes(x),
{
    let mut b = u32_to_le_bytes(x);
    out.append(&mut b);
}

/// Reads the `i`-th little-endian `u32` field of a header.
fn read_field(bytes: &[u8], i: usize) -> (res: u32)
    requires
        i < 4,
        bytes@.len() >= 16,
    ensures
        res == header_field(bytes@, i as int),
{
    u32_from_le_bytes(slice_subrange(bytes, 4 * i, 4 * i + 4))
}

/// Encodes four fields as a header.
fn encode_header(a: u32, b: u32, c: u32, d: u32) -> (res: Vec<u8>)
    ensures
        res@ == header_bytes(a, b, c, d),
        res@.len() == 16,
{
    proof {
        vstd::bytes::lemma_auto_spec_u32_to_from_le_bytes();
    }
    let mut out: Vec<u8> = Vec::new();
    push_u32(&mut out, a);
    push_u32(&mut out, b);
    push_u32(&mut out, c);
    push_u32(&mut out, d);
    out
}

/// The fields of an encoded header are read back as they were written.
proof fn lemma_header_fields(a: u32, b: u32, c: u32, d: u32)
    ensures
        header_bytes(a, b, c, d).len() == 16,
        header_field(header_bytes(a, b, c, d), 0) == a,
        header_field(header_bytes(a, b, c, d), 1) == b,
        header_field(header_bytes(a, b, c, d), 2) == c,
        header_field(header_bytes(a, b, c, d), 3) == d,
{
    vstd::bytes::lemma_auto_spec_u32_to_from_le_bytes();
    let s = header_bytes(a, b, c, d);
    assert(s.subrange(0, 4) =~= spec_u32_to_le_bytes(a));
    assert(s.subrange(4, 8) =~= spec_u32_to_le_bytes(b));
    assert(s.subrange(8, 12) =~= spec_u32_to_le_bytes(c));
    assert(s.subrange(12, 16) =~= spec_u32_to_le_bytes(d));
}

/// Bootstrap request header.
#[derive(Debug, Clone, Copy, PartialEq, Eq, Structural)]
pub struct BootstrapRequest {
    /// Magic number.
    pub magic: u32,
    /// Request type number.
    pub request_type: u32,
    /// Length of the service name that follows.
    pub name_len: u32,
    /// Reserved.
    pub reserved: u32,
}

/// Bytes of a request header.
pub open spec fn request_bytes(r: BootstrapRequest) -> Seq<u8> {
    header_bytes(r.magic, r.request_type, r.name_len, r.reserved)
}

/// Request header read from the first 16 bytes.
pub open spec fn request_of_bytes(bytes: Seq<u8>) -> BootstrapRequest {
    BootstrapRequest {
        magic: header_field(bytes, 0),
        request_type: header_field(bytes, 1),
        name_len: header_field(bytes, 2),
        reserved: header_field(bytes, 3),
    }
}

impl BootstrapRequest {
    /// Size in bytes of a request header.
    pub const SIZE: usize = 16;

    /// A request of the given type for a name of `name_len` bytes (kept on 32 bits).
    pub fn new(request_type: RequestType, name_len: usize) -> (res: Self)
        ensures
            res.magic == BOOTSTRAP_MAGIC,
            res.request_type == request_type_code(request_type),
            res.name_len == name_len as u32,
            res.reserved == 0,
    {
        BootstrapRequest {
            magic: BOOTSTRAP_MAGIC,
            request_type: request_type.code(),
            name_len: name_len as u32,
            reserved: 0,
        }
    }

    /// Whether the header carries the protocol's magic number.
    pub fn is_valid(&self) -> (res: bool)
        ensures
            res == (self.magic == BOOTSTRAP_MAGIC),
    {
        self.magic == BOOTSTRAP_MAGIC
    }

    /// The request type, an unknown number reading as [`RequestType::GetService`].
    pub fn request_type(&self) -> (res: RequestType)
        ensures
            res == request_type_of(self.request_type),
    {
        RequestType::from(self.request_type)
    }

    /// The 16 bytes of the header.
    pub fn to_bytes(&self) -> (res: Vec<u8>)
        ensures
            res@ == request_bytes(*self),
            res@.len() == Self::SIZE,
    {
        encode_header(self.magic, self.request_type, self.name_len, self.reserved)
    }

    /// Reads a header from the start of `bytes`: `None` when fewer than 16 bytes are given or the magic
    /// number is wrong.
    pub fn from_bytes(bytes: &[u8]) -> (res: Option<Self>)
        ensures
            bytes@.len() < 16 ==> res is None,
            bytes@.len() >= 16 ==> res == (if request_of_bytes(bytes@).magic == BOOTSTRAP_MAGIC {
                Some(request_of_bytes(bytes@))
            } else {
                None::<BootstrapRequest>
            }),
    {
        if bytes.len() < Self::SIZE {
            return None;
        }
        let req = BootstrapRequest {
            magic: read_field(bytes, 0),
            request_type: read_field(bytes, 1),
            name_len: read_field(bytes, 2),
            reserved: read_field(bytes, 3),
        };
        if req.is_valid() {
            Some(req)
        } else {
            None
        }
    }
}

/// Bootstrap response header.
#[derive(Debug, Clone, Copy, PartialEq, Eq, Structural)]
pub struct BootstrapResponse {
    /// Magic number.
    pub magic: u32,
    /// Status number.
    pub status: i32,
    /// Length of the data that follows.
    pub data_len: u32,
    /// Number of handles sent with the response.
    pub handle_count: u32,
}

/// Bytes of a response header (the status in two's complement).
pub open spec fn response_bytes(r: BootstrapResponse) -> Seq<u8> {
    header_bytes(r.magic, r.status as u32, r.data_len, r.handle_count)
}

/// Response header read from the first 16 bytes.
pub open spec fn response_of_bytes(bytes: Seq<u8>) -> BootstrapResponse {
    BootstrapResponse {
        magic: header_field(bytes, 0),
        status: header_field(bytes, 1) as i32,
        data_len: header_field(bytes, 2),
        handle_count: header_field(bytes, 3),
    }
}

impl BootstrapResponse {
    /// Size in bytes of a response header.
    pub const SIZE: usize = 16;

    /// A successful response without data nor handle.
    pub fn success() -> (res: Self)
        ensures
            res == (BootstrapResponse { magic: BOOTSTRAP_MAGIC, status: 0, data_len: 0, handle_count: 0 }),
    {
        BootstrapResponse { magic: BOOTSTRAP_MAGIC, status: ResponseStatus::Success.code(), data_len: 0, handle_count: 0 }
    }

    /// A response with the given status, without data nor handle.
    pub fn error(status: ResponseStatus) -> (res: Self)
        ensures
            res == (BootstrapResponse {
                magic: BOOTSTRAP_MAGIC,
                status: response_status_code(status),
                data_len: 0,
                handle_count: 0,
            }),
    {
        BootstrapResponse { magic: BOOTSTRAP_MAGIC, status: status.code(), data_len: 0, handle_count: 0 }
    }

    /// The same response, announcing one handle.
    pub fn with_handle(self) -> (res: Self)
        ensures
            res == (BootstrapResponse { handle_count: 1, ..self }),
    {
        let mut r = self;
        r.handle_count = 1;
        r
    }

    /// Whether the status is [`ResponseStatus::Success`].
    pub fn is_success(&self) -> (res: bool)
        ensures
            res == (self.status == 0),
    {
        self.status == 0
    }

    /// The status, an unknown number reading as [`ResponseStatus::InvalidRequest`].
    pub fn status(&self) -> (res: ResponseStatus)
        ensures
            res == response_status_of(self.status),
    {
        ResponseStatus::from(self.status)
    }

    /// The 16 bytes of the header.
    pub fn to_bytes(&self) -> (res: Vec<u8>)
        ensures
            res@ == response_bytes(*self),
            res@.len() == Self::SIZE,
    {
        encode_header(self.magic, self.status as u32, self.data_len, self.handle_count)
    }

    /// Reads a header from the start of `bytes`: `None` when fewer than 16 bytes are given. The magic number
    /// is not checked.
    pub fn from_bytes(bytes: &[u8]) -> (res: Option<Self>)
        ensures
            bytes@.len() < 16 ==> res is None,
            bytes@.len() >= 16 ==> res == Some(response_of_bytes(bytes@)),
    {
        if bytes.len() < Self::SIZE {
            return None;
        }
        Some(
            BootstrapResponse {
                magic: read_field(bytes, 0),
                status: read_field(bytes, 1) as i32,
                data_len: read_field(bytes, 2),
                handle_count: read_field(bytes, 3),
            },
        )
    }
}

/// Reading back the bytes of a request header with the protocol's magic number gives the header back.
pub proof fn lemma_request_roundtrip(r: BootstrapRequest)
    requires
        r.magic == BOOTSTRAP_MAGIC,
    ensures
        request_bytes(r).len() == 16,
        request_of_bytes(request_bytes(r)) == r,
{
    lemma_header_fields(r.magic, r.request_type, r.name_len, r.reserved);
}

/// Reading back the bytes of any response header gives the header back.
pub proof fn lemma_response_roundtrip(r: BootstrapResponse)
    ensures
        response_bytes(r).len() == 16,
        response_of_bytes(response_bytes(r)) == r,
{
    lemma_header_fields(r.magic, r.status as u32, r.data_len, r.handle_count);
    let s = r.status;
    assert((s as u32) as i32 == s) by (bit_vector);
}

} // verus!
