//! The socket abstraction: a classic or flexible-data-rate socket's state
//! (variant, filter set, read deadline, open/closed), and the decision
//! logic of `send` and `receive`.
//!
//! A socket owns one device-transport handle; the blocking read/write and
//! the driver-level filter installation are performed by the caller, which
//! hands raw results back to the functions here. Exclusive access to the
//! transport is the caller's discipline; a broken lock is reported as the
//! fatal `LockPoisoned` error.

use vstd::prelude::*;

use crate::codec::FrameRecord;
use crate::errors::{classify_transport_error, is_timeout_text, CanError};
use crate::filter::{normalize_spec, normalize_filters, DeviceFilter, FilterRule, accept_all_filter};
use crate::frame::{
    id_valid, spec_max_payload_len, check_id, Frame, FrameKind, CLASSIC_MAX_PAYLOAD,
    FD_MAX_PAYLOAD,
};

verus! {

/// The two socket variants: classic and flexible-data-rate.
#[derive(Debug, Clone, Copy, PartialEq, Eq, Structural)]
pub enum SocketKind {
    Classic,
    Fd,
}

/// What a read deadline of "no timeout" becomes: a large-but-finite wait
/// on the order of an hour, so a call can never hang a worker forever.
pub const DEFAULT_READ_TIMEOUT_MS: u64 = 3_600_000;

/// What `send` hands to the device transport once validation passed:
/// a classic data frame, a classic remote frame carrying only a length
/// code, or a flexible-data-rate data frame.
#[derive(Debug, Clone)]
pub enum WireFrame {
    Classic { id: u32, extended: bool, data: Vec<u8> },
    ClassicRemote { id: u32, extended: bool, dlc: u8 },
    Fd { id: u32, extended: bool, data: Vec<u8> },
}

/// Why a send request is rejected, if it is: the identifier is validated
/// first, then the variant-specific rules. A classic socket refuses the
/// fd flag and payloads over 8 bytes; an FD socket refuses payloads over
/// 64 bytes, remote frames outright, and falls back to the classic 8-byte
/// ceiling when the fd flag is off.
pub open spec fn send_rejection(
    kind: SocketKind,
    id: u32,
    extended: bool,
    fd: bool,
    remote: bool,
    len: nat,
) -> Option<CanError> {
    if !id_valid(id, extended) {
        Some(CanError::InvalidId)
    } else if kind is Classic {
        if fd {
            Some(CanError::UnsupportedOperation)
        } else if len > CLASSIC_MAX_PAYLOAD {
            Some(CanError::PayloadTooLong)
        } else {
            None
        }
    } else {
        if len > FD_MAX_PAYLOAD {
            Some(CanError::PayloadTooLong)
        } else if remote {
            Some(CanError::UnsupportedOperation)
        } else if !fd && len > CLASSIC_MAX_PAYLOAD {
            Some(CanError::PayloadTooLong)
        } else {
            None
        }
    }
}

/// The wire frame an accepted send request turns into: remote requests
/// become a classic remote frame whose length code is the payload length;
/// the fd flag (only accepted on an FD socket) yields an FD frame; every
/// other request yields a classic data frame.
pub open spec fn wire_shape(
    id: u32,
    extended: bool,
    fd: bool,
    remote: bool,
    data: Seq<u8>,
    w: WireFrame,
) -> bool {
    if remote {
        w matches WireFrame::ClassicRemote { id: wid, extended: wext, dlc } && wid == id && wext
            == extended && dlc == data.len() as u8
    } else if fd {
        w matches WireFrame::Fd { id: wid, extended: wext, data: wdata } && wid == id && wext
            == extended && wdata@ == data
    } else {
        w matches WireFrame::Classic { id: wid, extended: wext, data: wdata } && wid == id && wext
            == extended && wdata@ == data
    }
}

/// The mathematical model of a socket's state.
pub struct SocketModel {
    pub kind: SocketKind,
    pub open: bool,
    pub filters: Seq<DeviceFilter>,
    pub read_timeout_ms: u64,
}

/// A fresh socket: open, accepting every frame, with the default read
/// deadline.
pub open spec fn initial_socket_model(kind: SocketKind) -> SocketModel {
    SocketModel {
        kind,
        open: true,
        filters: seq![accept_all_filter()],
        read_timeout_ms: DEFAULT_READ_TIMEOUT_MS,
    }
}

/// A socket model with its filter set replaced wholesale.
pub open spec fn with_filters(m: SocketModel, fs: Seq<DeviceFilter>) -> SocketModel {
    SocketModel { filters: fs, ..m }
}

/// A socket model after `clear_filters`: the explicit accept-all state.
pub open spec fn cleared_model(m: SocketModel) -> SocketModel {
    with_filters(m, normalize_spec(Seq::<FilterRule>::empty()))
}

/// A socket model after `close`.
pub open spec fn closed_model(m: SocketModel) -> SocketModel {
    SocketModel { open: false, ..m }
}

/// The read deadline a caller-supplied timeout maps to: the value itself,
/// or the large-but-finite default when none is given.
pub open spec fn spec_effective_timeout(timeout_ms: Option<u64>) -> u64 {
    match timeout_ms {
        Some(ms) => ms,
        None => DEFAULT_READ_TIMEOUT_MS,
    }
}

/// A socket's state: its variant, whether it is still open, the filter
/// set last handed to the device, and the read deadline last applied.
#[derive(Debug, Clone)]
pub struct SocketState {
    kind: SocketKind,
    open: bool,
    filters: Vec<DeviceFilter>,
    read_timeout_ms: u64,
}

impl View for SocketState {
    type V = SocketModel;

    closed spec fn view(&self) -> SocketModel {
        SocketModel {
            kind: self.kind,
            open: self.open,
            filters: self.filters@,
            read_timeout_ms: self.read_timeout_ms,
        }
    }
}

impl SocketState {
    /// Open a fresh socket of the given variant.
    pub fn new(kind: SocketKind) -> (s: SocketState)
        ensures
            s@ == initial_socket_model(kind),
    {
        let mut filters: Vec<DeviceFilter> = Vec::new();
        filters.push(crate::filter::make_accept_all());
        let s = SocketState { kind, open: true, filters, read_timeout_ms: DEFAULT_READ_TIMEOUT_MS };
        proof {
            assert(s@.filters =~= initial_socket_model(kind).filters);
        }
        s
    }

    /// The socket's variant.
    pub fn kind(&self) -> (k: SocketKind)
        ensures
            k == self@.kind,
    {
        self.kind
    }

    /// Whether the socket is still open.
    pub fn is_open(&self) -> (r: bool)
        ensures
            r == self@.open,
    {
        self.open
    }

    /// The filter set currently installed at the device.
    pub fn filters(&self) -> (fs: &Vec<DeviceFilter>)
        ensures
            fs@ == self@.filters,
    {
        &self.filters
    }

    /// Validate a send request against this socket's variant and shape the
    /// frame the device transport is to write. Rejections, exactly:
    /// `InvalidId` when the identifier overflows its address space;
    /// `UnsupportedOperation` for the fd flag on a classic socket or a
    /// remote request on an FD socket; `PayloadTooLong` over the format's
    /// ceiling (8 bytes classic, 64 FD, 8 on an FD socket without the fd
    /// flag).
    pub fn prepare_send(
        &self,
        id: u32,
        data: Vec<u8>,
        extended: bool,
        fd: bool,
        remote: bool,
    ) -> (r: Result<WireFrame, CanError>)
        ensures
            match r {
                Ok(w) => send_rejection(self@.kind, id, extended, fd, remote, data@.len())
                    is None && wire_shape(id, extended, fd, remote, data@, w),
                Err(e) => send_rejection(self@.kind, id, extended, fd, remote, data@.len())
                    == Some(e),
            },
    {
        if !check_id(id, extended) {
            return Err(CanError::InvalidId);
        }
        match self.kind {
            SocketKind::Classic => {
                if fd {
                    return Err(CanError::UnsupportedOperation);
                }
                if data.len() > CLASSIC_MAX_PAYLOAD {
                    return Err(CanError::PayloadTooLong);
                }
                if remote {
                    let dlc = data.len() as u8;
                    Ok(WireFrame::ClassicRemote { id, extended, dlc })
                } else {
                    Ok(WireFrame::Classic { id, extended, data })
                }
            },
            SocketKind::Fd => {
                if data.len() > FD_MAX_PAYLOAD {
                    return Err(CanError::PayloadTooLong);
                }
                if remote {
                    return Err(CanError::UnsupportedOperation);
                }
                if fd {
                    Ok(WireFrame::Fd { id, extended, data })
                } else {
                    if data.len() > CLASSIC_MAX_PAYLOAD {
                        return Err(CanError::PayloadTooLong);
                    }
                    Ok(WireFrame::Classic { id, extended, data })
                }
            },
        }
    }

    /// Replace the filter set wholesale; there is no incremental add or
    /// remove. Returns the device-shaped list the caller must install at
    /// the transport; an empty rule list becomes the explicit accept-all
    /// filter.
    pub fn set_filters(&mut self, rules: &Vec<FilterRule>) -> (device: Vec<DeviceFilter>)
        ensures
            device@ == normalize_spec(rules@),
            final(self)@ == with_filters(old(self)@, normalize_spec(rules@)),
    {
        let device = normalize_filters(rules);
        self.filters = device.clone();
        proof {
            assert(self.filters@ =~= device@);
        }
        device
    }

    /// Drop every filter: equivalent to replacing the set with the empty
    /// list, which normalizes to the explicit accept-all filter.
    pub fn clear_filters(&mut self) -> (device: Vec<DeviceFilter>)
        ensures
            device@ == normalize_spec(Seq::<FilterRule>::empty()),
            final(self)@ == cleared_model(old(self)@),
    {
        let rules: Vec<FilterRule> = Vec::new();
        proof {
            assert(rules@ =~= Seq::<FilterRule>::empty());
        }
        self.set_filters(&rules)
    }

    /// Compute the read deadline for a receive call and record it as the
    /// socket's current timeout state. `None` maps to the large-but-finite
    /// default rather than an unbounded wait.
    pub fn prepare_receive(&mut self, timeout_ms: Option<u64>) -> (deadline: u64)
        ensures
            deadline == spec_effective_timeout(timeout_ms),
            final(self)@ == (SocketModel { read_timeout_ms: deadline, ..old(self)@ }),
    {
        let deadline = match timeout_ms {
            Some(ms) => ms,
            None => DEFAULT_READ_TIMEOUT_MS,
        };
        self.read_timeout_ms = deadline;
        deadline
    }

    /// Mark the socket closed. Idempotent and always succeeds: underlying
    /// resources are released when no references remain, so closing mainly
    /// marks the handle unusable.
    pub fn close(&mut self)
        ensures
            final(self)@ == closed_model(old(self)@),
    {
        self.open = false;
    }
}

/// Normalize one transport read attempt into the socket layer's return
/// shape: a raw frame (as the transport's flags report it) is classified
/// into a data, remote or error frame; a failure message is classified
/// into the dedicated `Timeout` kind or a pass-through `TransportError`.
/// Both transport variants may report either classic or
/// flexible-data-rate frames, and both sub-kinds are classified alike.
pub fn interpret_receive(outcome: Result<FrameRecord, Vec<u8>>) -> (r: Result<Frame, CanError>)
    requires
        outcome matches Ok(raw) ==> id_valid(raw.id, raw.extended) && raw.data@.len()
            <= spec_max_payload_len(raw.fd),
    ensures
        match outcome {
            Ok(raw) => r matches Ok(f) && f@.valid() && f@.id == raw@.id && f@.extended
                == raw@.extended && f@.fd == raw@.fd && f@.kind == (if raw@.fd {
                FrameKind::Data
            } else if raw@.error {
                FrameKind::Error
            } else if raw@.remote {
                FrameKind::Remote
            } else {
                FrameKind::Data
            }) && f@.payload == (if !raw@.fd && raw@.remote && !raw@.error {
                Seq::<u8>::empty()
            } else {
                raw@.data
            }),
            Err(msg) => r matches Err(e) && (if is_timeout_text(msg@) {
                e == CanError::Timeout
            } else {
                e == CanError::TransportError(msg)
            }),
        },
{
    match outcome {
        Ok(raw) => Ok(
            Frame::classify_received(
                raw.id,
                raw.extended,
                raw.data,
                raw.fd,
                raw.remote,
                raw.error,
            ),
        ),
        Err(msg) => Err(classify_transport_error(msg)),
    }
}

/// Clearing filters twice in a row leaves the accept-all state exactly as
/// the first clear left it.
pub proof fn lemma_clear_filters_idempotent(m: SocketModel)
    ensures
        cleared_model(cleared_model(m)) == cleared_model(m),
{
}

/// Closing a socket twice leaves the state exactly as the first close
/// left it.
pub proof fn lemma_close_idempotent(m: SocketModel)
    ensures
        closed_model(closed_model(m)) == closed_model(m),
{
}

/// A send request is rejected as `InvalidId` exactly when the identifier
/// overflows the chosen address space, whatever the socket variant and
/// the other flags.
pub proof fn lemma_send_id_validation(
    kind: SocketKind,
    id: u32,
    extended: bool,
    fd: bool,
    remote: bool,
    len: nat,
)
    ensures
        (send_rejection(kind, id, extended, fd, remote, len) == Some(CanError::InvalidId)) <==> !id_valid(
            id,
            extended,
        ),
{
}

/// The payload-length rule, for a well-formed identifier and a plain data
/// send: a classic socket accepts exactly lengths up to 8 and rejects
/// longer payloads as `PayloadTooLong`; an FD socket accepts up to 64
/// with the fd flag and only up to 8 without it.
pub proof fn lemma_payload_length_validation(id: u32, extended: bool, len: nat)
    requires
        id_valid(id, extended),
    ensures
        (send_rejection(SocketKind::Classic, id, extended, false, false, len) is None) <==> len
            <= CLASSIC_MAX_PAYLOAD,
        len > CLASSIC_MAX_PAYLOAD ==> send_rejection(SocketKind::Classic, id, extended, false, false, len)
            == Some(CanError::PayloadTooLong),
        (send_rejection(SocketKind::Fd, id, extended, true, false, len) is None) <==> len
            <= FD_MAX_PAYLOAD,
        len > FD_MAX_PAYLOAD ==> send_rejection(SocketKind::Fd, id, extended, true, false, len)
            == Some(CanError::PayloadTooLong),
        (send_rejection(SocketKind::Fd, id, extended, false, false, len) is None) <==> len
            <= CLASSIC_MAX_PAYLOAD,
        len > CLASSIC_MAX_PAYLOAD ==> send_rejection(SocketKind::Fd, id, extended, false, false, len)
            == Some(CanError::PayloadTooLong),
{
}

} // verus!
