//! A deterministic, scripted link model.
//!
//! The transport owns the connection to the remote host: it is opened
//! with a host, port and timeout, carries framed byte payloads in both
//! directions, and reports link failures. Its behaviour is driven by a
//! script fixed at construction: each `open`, `send` or `receive` call
//! consumes the next scripted reply, and a call past the end of the
//! script times out. The script position doubles as a call counter, so
//! a caller can verify that an operation made no transport calls at
//! all. `close` is local, idempotent, and consumes nothing.

use vstd::prelude::*;

verus! {

/// Link-level failures: the host could not be reached, the configured
/// timeout elapsed, or the peer reset the link.
#[derive(Clone, Copy, PartialEq, Eq, Structural, Debug)]
pub enum TransportError {
    HostUnreachable,
    Timeout,
    LinkReset,
}

/// The link status of the connection owned by a transport.
#[derive(Clone, Copy, PartialEq, Eq, Structural, Debug)]
pub enum LinkStatus {
    Open,
    Closed,
    Failed,
}

/// One scripted reply: the link accepts the call (an `open` or `send`
/// that goes through, or silence where a payload was expected), it
/// delivers a payload, or it faults.
pub enum TransportReply {
    Accept,
    Payload(Vec<u8>),
    Fault(TransportError),
}

/// A connection to a remote host, with its link driven by a script.
pub struct Transport {
    /// The scripted replies, consumed front to back.
    pub script: Vec<TransportReply>,
    /// How many replies have been consumed: the number of `open`,
    /// `send` and `receive` calls served so far.
    pub cursor: usize,
    pub status: LinkStatus,
    /// The endpoint the link was last opened towards.
    pub host: Vec<u8>,
    pub port: u16,
    pub timeout_ms: u32,
}

pub open spec fn transport_wf(t: Transport) -> bool {
    t.cursor <= t.script@.len()
}

/// The reply the `k`-th call of the current operation will see, all
/// earlier calls of the operation having consumed one entry each. Past
/// the end of the script, every call times out.
pub open spec fn reply_at(t: Transport, k: int) -> TransportReply {
    if t.cursor + k < t.script@.len() {
        t.script@[t.cursor + k]
    } else {
        TransportReply::Fault(TransportError::Timeout)
    }
}

/// The script position after `n` further calls: each call consumes one
/// entry while any remain.
pub open spec fn cursor_plus(t: Transport, n: int) -> int {
    if t.cursor + n <= t.script@.len() {
        t.cursor + n
    } else {
        t.script@.len() as int
    }
}

impl Transport {
    /// A transport whose link will behave as `script` says, not yet
    /// opened towards any endpoint.
    pub fn scripted(script: Vec<TransportReply>) -> (t: Transport)
        ensures
            t.script == script,
            t.cursor == 0,
            t.status is Closed,
            t.host@.len() == 0,
            transport_wf(t),
    {
        Transport {
            script,
            cursor: 0,
            status: LinkStatus::Closed,
            host: Vec::new(),
            port: 0,
            timeout_ms: 0,
        }
    }

    /// The number of `open`, `send` and `receive` calls served so far.
    pub fn calls(&self) -> (n: usize)
        ensures
            n == self.cursor,
    {
        self.cursor
    }

    /// Open the link towards `host:port`. Consumes one scripted reply:
    /// a fault leaves the link failed, anything else opens it.
    pub fn open(&mut self, host: &Vec<u8>, port: u16, timeout_ms: u32) -> (r: Result<
        (),
        TransportError,
    >)
        requires
            transport_wf(*old(self)),
        ensures
            transport_wf(*final(self)),
            final(self).script == old(self).script,
            final(self).cursor == cursor_plus(*old(self), 1),
            final(self).host@ == host@,
            final(self).port == port,
            final(self).timeout_ms == timeout_ms,
            match reply_at(*old(self), 0) {
                TransportReply::Fault(e) => r == Err::<(), TransportError>(e) && final(self).status is Failed,
                _ => r == Ok::<(), TransportError>(()) && final(self).status is Open,
            },
    {
        let h = host.clone();
        assert(h@ =~= host@);
        self.host = h;
        self.port = port;
        self.timeout_ms = timeout_ms;
        let fault = self.take_reply_fault();
        match fault {
            Some(e) => {
                self.status = LinkStatus::Failed;
                Err(e)
            },
            None => {
                self.status = LinkStatus::Open;
                Ok(())
            },
        }
    }

    /// Send one framed payload over the open link. Consumes one
    /// scripted reply: a fault fails the link, anything else is a
    /// successful send.
    pub fn send(&mut self, payload: &Vec<u8>) -> (r: Result<(), TransportError>)
        requires
            transport_wf(*old(self)),
            old(self).status is Open,
        ensures
            transport_wf(*final(self)),
            final(self).script == old(self).script,
            final(self).cursor == cursor_plus(*old(self), 1),
            final(self).host == old(self).host,
            final(self).port == old(self).port,
            final(self).timeout_ms == old(self).timeout_ms,
            match reply_at(*old(self), 0) {
                TransportReply::Fault(e) => r == Err::<(), TransportError>(e) && final(self).status is Failed,
                _ => r == Ok::<(), TransportError>(()) && final(self).status is Open,
            },
    {
        let fault = self.take_reply_fault();
        match fault {
            Some(e) => {
                self.status = LinkStatus::Failed;
                Err(e)
            },
            None => Ok(()),
        }
    }

    /// Receive one framed payload, blocking up to the configured
    /// timeout. Consumes one scripted reply: a payload is delivered, a
    /// fault fails the link, and a bare accept means the peer sent
    /// nothing before the timeout.
    pub fn receive(&mut self) -> (r: Result<Vec<u8>, TransportError>)
        requires
            transport_wf(*old(self)),
            old(self).status is Open,
        ensures
            transport_wf(*final(self)),
            final(self).script == old(self).script,
            final(self).cursor == cursor_plus(*old(self), 1),
            final(self).host == old(self).host,
            final(self).port == old(self).port,
            final(self).timeout_ms == old(self).timeout_ms,
            match reply_at(*old(self), 0) {
                TransportReply::Payload(p) => r matches Ok(v) && v@ == p@ && final(self).status is Open,
                TransportReply::Accept => r == Err::<Vec<u8>, TransportError>(
                    TransportError::Timeout,
                ) && final(self).status is Failed,
                TransportReply::Fault(e) => r == Err::<Vec<u8>, TransportError>(e) && final(self).status is Failed,
            },
    {
        if self.cursor < self.script.len() {
            let out: Result<Vec<u8>, TransportError> = match &self.script[self.cursor] {
                TransportReply::Payload(p) => {
                    let v = p.clone();
                    assert(v@ =~= p@);
                    Ok(v)
                },
                TransportReply::Accept => Err(TransportError::Timeout),
                TransportReply::Fault(e) => Err(*e),
            };
            self.cursor = self.cursor + 1;
            match out {
                Ok(v) => Ok(v),
                Err(e) => {
                    self.status = LinkStatus::Failed;
                    Err(e)
                },
            }
        } else {
            self.status = LinkStatus::Failed;
            Err(TransportError::Timeout)
        }
    }

    /// Tear the link down. Local and idempotent: safe in any status,
    /// any number of times; consumes no scripted reply.
    pub fn close(&mut self)
        requires
            transport_wf(*old(self)),
        ensures
            transport_wf(*final(self)),
            *final(self) == (Transport { status: LinkStatus::Closed, ..*old(self) }),
    {
        self.status = LinkStatus::Closed;
    }

    /// Consume the next scripted reply and report the fault it holds,
    /// if any; past the end of the script, report a timeout.
    fn take_reply_fault(&mut self) -> (r: Option<TransportError>)
        requires
            transport_wf(*old(self)),
        ensures
            transport_wf(*final(self)),
            final(self).script == old(self).script,
            final(self).status == old(self).status,
            final(self).host == old(self).host,
            final(self).port == old(self).port,
            final(self).timeout_ms == old(self).timeout_ms,
            final(self).cursor == cursor_plus(*old(self), 1),
            match reply_at(*old(self), 0) {
                TransportReply::Fault(e) => r == Some(e),
                _ => r is None,
            },
    {
        if self.cursor < self.script.len() {
            let fault = match &self.script[self.cursor] {
                TransportReply::Fault(e) => Some(*e),
                _ => None,
            };
            self.cursor = self.cursor + 1;
            fault
        } else {
            Some(TransportError::Timeout)
        }
    }
}

} // verus!
