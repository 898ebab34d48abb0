//! The frame model: identifiers, payload limits, the `Frame` type and its
//! invariants, and classification of frames reported by the device transport.

use vstd::prelude::*;

use crate::errors::CanError;

verus! {

/// Largest 11-bit standard identifier.
pub const MAX_STANDARD_ID: u32 = 0x7FF;

/// Largest 29-bit extended identifier.
pub const MAX_EXTENDED_ID: u32 = 0x1FFFFFFF;

/// Payload ceiling of a classic frame.
pub const CLASSIC_MAX_PAYLOAD: usize = 8;

/// Payload ceiling of a flexible-data-rate frame.
pub const FD_MAX_PAYLOAD: usize = 64;

/// An identifier fits its address space: 11 bits for standard, 29 for
/// extended.
pub open spec fn id_valid(id: u32, extended: bool) -> bool {
    if extended {
        id <= MAX_EXTENDED_ID
    } else {
        id <= MAX_STANDARD_ID
    }
}

/// Payload ceiling of a frame format.
pub open spec fn spec_max_payload_len(fd: bool) -> nat {
    if fd {
        FD_MAX_PAYLOAD as nat
    } else {
        CLASSIC_MAX_PAYLOAD as nat
    }
}

/// Validate an identifier against the chosen address space.
pub fn check_id(id: u32, extended: bool) -> (r: bool)
    ensures
        r == id_valid(id, extended),
{
    if extended {
        id <= MAX_EXTENDED_ID
    } else {
        id <= MAX_STANDARD_ID
    }
}

/// Payload ceiling of a frame format.
pub fn max_payload_len(fd: bool) -> (r: usize)
    ensures
        r == spec_max_payload_len(fd),
{
    if fd {
        FD_MAX_PAYLOAD
    } else {
        CLASSIC_MAX_PAYLOAD
    }
}

/// What a frame is: application data, a request for data (remote), or a
/// bus-level error report.
#[derive(Debug, Clone, Copy, PartialEq, Eq, Structural)]
pub enum FrameKind {
    Data,
    Remote,
    Error,
}

/// A bus frame.
///
/// `dlc` is the transmitted length code: for a remote frame it is the
/// requested length (the frame itself carries no bytes); for every other
/// kind it equals the payload length.
#[derive(Debug, Clone)]
pub struct Frame {
    pub id: u32,
    pub extended: bool,
    pub fd: bool,
    pub kind: FrameKind,
    pub payload: Vec<u8>,
    pub dlc: u8,
}

/// The mathematical model of a `Frame`.
pub struct FrameV {
    pub id: u32,
    pub extended: bool,
    pub fd: bool,
    pub kind: FrameKind,
    pub payload: Seq<u8>,
    pub dlc: u8,
}

impl View for Frame {
    type V = FrameV;

    open spec fn view(&self) -> FrameV {
        FrameV {
            id: self.id,
            extended: self.extended,
            fd: self.fd,
            kind: self.kind,
            payload: self.payload@,
            dlc: self.dlc,
        }
    }
}

impl FrameV {
    /// The frame invariant: the identifier fits its address space, the
    /// payload fits the format, remote frames carry no bytes, and the
    /// length code agrees with the payload for non-remote frames.
    pub open spec fn valid(self) -> bool {
        &&& id_valid(self.id, self.extended)
        &&& self.payload.len() <= spec_max_payload_len(self.fd)
        &&& (self.kind is Remote ==> self.payload.len() == 0)
        &&& (!(self.kind is Remote) ==> self.dlc == self.payload.len())
        &&& (self.fd ==> self.kind is Data)
    }
}

impl Frame {
    /// Build a data frame, validating the identifier against the address
    /// space and the payload against the format's ceiling.
    pub fn make_data(id: u32, extended: bool, fd: bool, payload: Vec<u8>) -> (r: Result<
        Frame,
        CanError,
    >)
        ensures
            !id_valid(id, extended) ==> r == Err::<Frame, CanError>(CanError::InvalidId),
            id_valid(id, extended) && payload@.len() > spec_max_payload_len(fd) ==> r == Err::<
                Frame,
                CanError,
            >(CanError::PayloadTooLong),
            id_valid(id, extended) && payload@.len() <= spec_max_payload_len(fd) ==> (r matches Ok(
                f,
            ) && f@ == (FrameV {
                id,
                extended,
                fd,
                kind: FrameKind::Data,
                payload: payload@,
                dlc: payload@.len() as u8,
            }) && f@.valid()),
    {
        if !check_id(id, extended) {
            return Err(CanError::InvalidId);
        }
        if payload.len() > max_payload_len(fd) {
            return Err(CanError::PayloadTooLong);
        }
        let dlc = payload.len() as u8;
        Ok(Frame { id, extended, fd, kind: FrameKind::Data, payload, dlc })
    }

    /// Build a remote frame: same identifier validation as a data frame;
    /// the payload is empty regardless of `requested_len`, which only
    /// informs the transmitted length code.
    pub fn make_remote(id: u32, extended: bool, requested_len: u8) -> (r: Result<Frame, CanError>)
        ensures
            !id_valid(id, extended) ==> r == Err::<Frame, CanError>(CanError::InvalidId),
            id_valid(id, extended) ==> (r matches Ok(f) && f@ == (FrameV {
                id,
                extended,
                fd: false,
                kind: FrameKind::Remote,
                payload: Seq::<u8>::empty(),
                dlc: requested_len,
            }) && f@.valid()),
    {
        if !check_id(id, extended) {
            return Err(CanError::InvalidId);
        }
        let payload: Vec<u8> = Vec::new();
        proof {
            assert(payload@ =~= Seq::<u8>::empty());
        }
        Ok(Frame { id, extended, fd: false, kind: FrameKind::Remote, payload, dlc: requested_len })
    }

    /// Classify a frame reported by the device transport into
    /// data / remote / error, normalizing the payload: a remote frame
    /// carries no bytes, an error frame keeps the transport's diagnostic
    /// bytes, and a flexible-data-rate frame is always a data frame.
    pub fn classify_received(
        id: u32,
        extended: bool,
        data: Vec<u8>,
        is_fd: bool,
        is_remote: bool,
        is_error: bool,
    ) -> (f: Frame)
        requires
            id_valid(id, extended),
            data@.len() <= spec_max_payload_len(is_fd),
        ensures
            f@.id == id,
            f@.extended == extended,
            f@.fd == is_fd,
            f@.kind == (if is_fd {
                FrameKind::Data
            } else if is_error {
                FrameKind::Error
            } else if is_remote {
                FrameKind::Remote
            } else {
                FrameKind::Data
            }),
            f@.payload == (if !is_fd && is_remote && !is_error {
                Seq::<u8>::empty()
            } else {
                data@
            }),
            f@.dlc == f@.payload.len(),
            f@.valid(),
    {
        if is_fd {
            let dlc = data.len() as u8;
            Frame { id, extended, fd: true, kind: FrameKind::Data, payload: data, dlc }
        } else if is_error {
            let dlc = data.len() as u8;
            Frame { id, extended, fd: false, kind: FrameKind::Error, payload: data, dlc }
        } else if is_remote {
            let payload: Vec<u8> = Vec::new();
            proof {
                assert(payload@ =~= Seq::<u8>::empty());
            }
            Frame { id, extended, fd: false, kind: FrameKind::Remote, payload, dlc: 0 }
        } else {
            let dlc = data.len() as u8;
            Frame { id, extended, fd: false, kind: FrameKind::Data, payload: data, dlc }
        }
    }
}

/// Every standard identifier up to the 11-bit ceiling is accepted, and
/// every larger value submitted as standard is rejected as `InvalidId`;
/// extended identifiers are accepted exactly up to the 29-bit ceiling.
pub proof fn lemma_standard_id_validation(id: u32)
    ensures
        id <= MAX_STANDARD_ID ==> id_valid(id, false),
        MAX_STANDARD_ID < id ==> !id_valid(id, false),
        id <= MAX_EXTENDED_ID ==> id_valid(id, true),
        MAX_EXTENDED_ID < id ==> !id_valid(id, true),
{
}

} // verus!
