//! The error taxonomy of the socket layer. Every operation reports one of
//! these specific kinds, never an opaque failure.

use vstd::prelude::*;

verus! {

/// Error kinds of the socket layer.
///
/// `TransportError` passes a device-level failure through with its message
/// bytes preserved; a timeout / would-block condition is always reported as
/// the dedicated `Timeout` kind instead.
#[derive(Debug, Clone, PartialEq, Eq)]
pub enum CanError {
    /// The identifier does not fit the chosen address space.
    InvalidId,
    /// The payload exceeds the frame format's length ceiling.
    PayloadTooLong,
    /// The operation is not supported by this socket variant
    /// (flexible-data-rate frame on a classic socket, remote frame on an
    /// FD socket).
    UnsupportedOperation,
    /// The socket's access lock was poisoned; fatal for that socket.
    LockPoisoned,
    /// The read deadline elapsed before a frame arrived.
    Timeout,
    /// No live socket is registered under the given handle.
    HandleNotFound,
    /// Any other device-transport failure, message preserved.
    TransportError(Vec<u8>),
}

/// One byte sequence occurs contiguously inside another.
pub open spec fn seq_contains(h: Seq<u8>, n: Seq<u8>) -> bool {
    exists|i: int| 0 <= i <= h.len() - n.len() && #[trigger] h.subrange(i, i + n.len()) == n
}

/// Whether `h` carries `n` at position `i`.
fn matches_at(h: &Vec<u8>, n: &Vec<u8>, i: usize) -> (r: bool)
    requires
        i + n@.len() <= h@.len(),
    ensures
        r == (h@.subrange(i as int, i + n@.len()) == n@),
{
    let mut j: usize = 0;
    while j < n.len()
        invariant
            0 <= j <= n@.len(),
            i + n@.len() <= h@.len(),
            forall|k: int| 0 <= k < j ==> h@[i + k] == n@[k],
        decreases n@.len() - j,
    {
        let hl = h.len();
        proof {
            assert(i + j < hl);
        }
        if h[i + j] != n[j] {
            proof {
                assert(h@.subrange(i as int, i + n@.len())[j as int] != n@[j as int]);
            }
            return false;
        }
        j = j + 1;
    }
    proof {
        assert(h@.subrange(i as int, i + n@.len()) =~= n@);
    }
    true
}

/// Whether `n` occurs contiguously inside `h`.
pub fn contains_bytes(h: &Vec<u8>, n: &Vec<u8>) -> (r: bool)
    ensures
        r == seq_contains(h@, n@),
{
    if n.len() == 0 {
        proof {
            assert(seq_contains(h@, n@)) by {
                assert(h@.subrange(0, 0 + n@.len() as int) =~= n@);
            }
        }
        return true;
    }
    if n.len() > h.len() {
        return false;
    }
    let mut i: usize = 0;
    while i <= h.len() - n.len()
        invariant
            1 <= n@.len() <= h@.len(),
            0 <= i <= h@.len() - n@.len() + 1,
            forall|k: int| 0 <= k < i ==> #[trigger] h@.subrange(k, k + n@.len()) != n@,
        decreases h@.len() - i,
    {
        if matches_at(h, n, i) {
            return true;
        }
        i = i + 1;
    }
    false
}

/// The words whose presence in a lowercased transport failure message mark
/// it as a timeout / would-block condition rather than a real fault.
pub open spec fn spec_timeout_words() -> Seq<Seq<u8>> {
    seq![
        seq![116, 105, 109, 101, 111, 117, 116],
        seq![116, 105, 109, 101, 100, 32, 111, 117, 116],
        seq![119, 111, 117, 108, 100, 32, 98, 108, 111, 99, 107],
        seq![101, 97, 103, 97, 105, 110],
        seq![
            114, 101, 115, 111, 117, 114, 99, 101, 32, 116, 101, 109, 112, 111,
            114, 97, 114, 105, 108, 121, 32, 117, 110, 97, 118, 97, 105, 108,
            97, 98, 108, 101,
        ],
    ]
}

/// A lowercased transport failure message reports a timeout / would-block
/// condition.
pub open spec fn is_timeout_text(msg: Seq<u8>) -> bool {
    exists|w: int| 0 <= w < spec_timeout_words().len() && seq_contains(msg, spec_timeout_words()[w])
}

/// The timeout words, in the order of `spec_timeout_words`.
fn timeout_words() -> (ws: Vec<Vec<u8>>)
    ensures
        ws@.len() == spec_timeout_words().len(),
        forall|w: int| 0 <= w < ws@.len() ==> ws@[w]@ == spec_timeout_words()[w],
{
    let mut w0: Vec<u8> = Vec::new();
    w0.push(116);
    w0.push(105);
    w0.push(109);
    w0.push(101);
    w0.push(111);
    w0.push(117);
    w0.push(116);
    let mut w1: Vec<u8> = Vec::new();
    w1.push(116);
    w1.push(105);
    w1.push(109);
    w1.push(101);
    w1.push(100);
    w1.push(32);
    w1.push(111);
    w1.push(117);
    w1.push(116);
    let mut w2: Vec<u8> = Vec::new();
    w2.push(119);
    w2.push(111);
    w2.push(117);
    w2.push(108);
    w2.push(100);
    w2.push(32);
    w2.push(98);
    w2.push(108);
    w2.push(111);
    w2.push(99);
    w2.push(107);
    let mut w3: Vec<u8> = Vec::new();
    w3.push(101);
    w3.push(97);
    w3.push(103);
    w3.push(97);
    w3.push(105);
    w3.push(110);
    let mut w4: Vec<u8> = Vec::new();
    w4.push(114);
    w4.push(101);
    w4.push(115);
    w4.push(111);
    w4.push(117);
    w4.push(114);
    w4.push(99);
    w4.push(101);
    w4.push(32);
    w4.push(116);
    w4.push(101);
    w4.push(109);
    w4.push(112);
    w4.push(111);
    w4.push(114);
    w4.push(97);
    w4.push(114);
    w4.push(105);
    w4.push(108);
    w4.push(121);
    w4.push(32);
    w4.push(117);
    w4.push(110);
    w4.push(97);
    w4.push(118);
    w4.push(97);
    w4.push(105);
    w4.push(108);
    w4.push(97);
    w4.push(98);
    w4.push(108);
    w4.push(101);
    proof {
        assert(w0@ =~= spec_timeout_words()[0]);
        assert(w1@ =~= spec_timeout_words()[1]);
        assert(w2@ =~= spec_timeout_words()[2]);
        assert(w3@ =~= spec_timeout_words()[3]);
        assert(w4@ =~= spec_timeout_words()[4]);
    }
    let mut ws: Vec<Vec<u8>> = Vec::new();
    ws.push(w0);
    ws.push(w1);
    ws.push(w2);
    ws.push(w3);
    ws.push(w4);
    ws
}

/// Classify a device-transport failure from its lowercased message bytes:
/// a timeout / would-block condition becomes the dedicated `Timeout` kind,
/// anything else passes through as `TransportError` with the message
/// preserved.
pub fn classify_transport_error(msg: Vec<u8>) -> (r: CanError)
    ensures
        is_timeout_text(msg@) ==> r == CanError::Timeout,
        !is_timeout_text(msg@) ==> r == CanError::TransportError(msg),
{
    let words = timeout_words();
    let mut w: usize = 0;
    while w < words.len()
        invariant
            words@.len() == spec_timeout_words().len(),
            forall|k: int| 0 <= k < words@.len() ==> words@[k]@ == spec_timeout_words()[k],
            0 <= w <= words@.len(),
            forall|k: int| 0 <= k < w ==> !seq_contains(msg@, spec_timeout_words()[k]),
        decreases words@.len() - w,
    {
        if contains_bytes(&msg, &words[w]) {
            return CanError::Timeout;
        }
        w = w + 1;
    }
    CanError::TransportError(msg)
}

} // verus!
