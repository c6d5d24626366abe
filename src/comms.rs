use vstd::prelude::*;
use crate::error::UsbError;

verus! {

/// The endpoint the bulk read runs on.
pub const BULK_ENDPOINT: u8 = 0x82;

/// How long a bulk transfer may block, in milliseconds.
pub const TRANSFER_TIMEOUT_MS: u32 = 1000;

/// The single byte the transfer buffer starts out holding.
pub const TRANSFER_FILL: u8 = 0x06;

/// The native code for "this platform cannot tell or change kernel-driver ownership".
pub const ERROR_NOT_SUPPORTED: i32 = -12;

/// Where a transfer sequence stands.
#[derive(Clone, Copy, Debug, PartialEq, Eq, Structural)]
pub enum Phase {
    /// Kernel-driver ownership has not been queried yet.
    Start,
    /// A kernel driver holds the interface (or the query failed): detach next.
    DriverActive,
    /// Detachment is behind us: claim the interface next.
    ReadyToClaim,
    /// The claim was attempted: issue the bulk transfer next.
    Claimed,
    /// The transfer succeeded.
    Succeeded,
    /// The transfer failed.
    Failed,
}

/// The native call a transfer sequence asks for next.
#[derive(Clone, Debug)]
pub enum NativeCall {
    KernelDriverActive { handle: u64, interface: i32 },
    DetachKernelDriver { handle: u64, interface: i32 },
    ClaimInterface { handle: u64, interface: i32 },
    BulkTransfer { handle: u64, endpoint: u8, buffer: Vec<u8>, timeout_ms: u32 },
    /// The sequence is over: nothing is to be called.
    Nothing,
}

/// What a native call answered.
#[derive(Clone, Debug)]
pub enum NativeReply {
    /// The result code of a query, detach or claim.
    Code(i32),
    /// The result of a bulk transfer: its code, the buffer after the call
    /// and the number of bytes it reports as transferred.
    Transfer { code: i32, buffer: Vec<u8>, transferred: i32 },
}

/// The detach, claim and transfer sequence run for one read on one handle.
#[derive(Clone, Debug)]
pub struct TransferChannel {
    handle: u64,
    interface: i32,
    phase: Phase,
    received: Vec<u8>,
    failure: Option<UsbError>,
    diagnostics: Vec<UsbError>,
}

/// The abstract state of a [`TransferChannel`].
pub struct ChannelView {
    pub handle: u64,
    pub interface: i32,
    pub phase: Phase,
    pub received: Seq<u8>,
    pub failure: Option<UsbError>,
    pub diagnostics: Seq<UsbError>,
}

impl View for TransferChannel {
    type V = ChannelView;

    closed spec fn view(&self) -> ChannelView {
        ChannelView {
            handle: self.handle,
            interface: self.interface,
            phase: self.phase,
            received: self.received@,
            failure: self.failure,
            diagnostics: self.diagnostics@,
        }
    }
}

/// A fresh sequence for `interface` of the device behind `handle`.
pub open spec fn start_channel(handle: u64, interface: i32) -> ChannelView {
    ChannelView {
        handle,
        interface,
        phase: Phase::Start,
        received: Seq::empty(),
        failure: None,
        diagnostics: Seq::empty(),
    }
}

/// How many bytes of a transfer buffer were filled: the reported count,
/// kept between zero and the buffer's length.
pub open spec fn filled_len(buffer_len: nat, transferred: i32) -> int {
    if transferred < 0 {
        0
    } else if transferred as int > buffer_len {
        buffer_len as int
    } else {
        transferred as int
    }
}

/// The native call the sequence asks for in state `c`.
pub open spec fn call_of(c: ChannelView, call: NativeCall) -> bool {
    match c.phase {
        Phase::Start => match call {
            NativeCall::KernelDriverActive { handle, interface } => handle == c.handle && interface == c.interface,
            _ => false,
        },
        Phase::DriverActive => match call {
            NativeCall::DetachKernelDriver { handle, interface } => handle == c.handle && interface == c.interface,
            _ => false,
        },
        Phase::ReadyToClaim => match call {
            NativeCall::ClaimInterface { handle, interface } => handle == c.handle && interface == c.interface,
            _ => false,
        },
        Phase::Claimed => match call {
            NativeCall::BulkTransfer { handle, endpoint, buffer, timeout_ms } => {
                &&& handle == c.handle
                &&& endpoint == BULK_ENDPOINT
                &&& buffer@ == seq![TRANSFER_FILL]
                &&& timeout_ms == TRANSFER_TIMEOUT_MS
            },
            _ => false,
        },
        _ => call is Nothing,
    }
}

/// One move of the sequence on the answer to the call it asked for.
/// A reply of the wrong shape, or one after the end, changes nothing.
pub open spec fn step(c: ChannelView, reply: NativeReply) -> ChannelView {
    match c.phase {
        Phase::Start => match reply {
            NativeReply::Code(q) => if q == 0 || q == ERROR_NOT_SUPPORTED {
                ChannelView { phase: Phase::ReadyToClaim, ..c }
            } else if q < 0 {
                ChannelView { phase: Phase::DriverActive, diagnostics: c.diagnostics.push(UsbError::DetachFailed(q)), ..c }
            } else {
                ChannelView { phase: Phase::DriverActive, ..c }
            },
            _ => c,
        },
        Phase::DriverActive => match reply {
            NativeReply::Code(d) => if d != 0 {
                ChannelView { phase: Phase::ReadyToClaim, diagnostics: c.diagnostics.push(UsbError::DetachFailed(d)), ..c }
            } else {
                ChannelView { phase: Phase::ReadyToClaim, ..c }
            },
            _ => c,
        },
        Phase::ReadyToClaim => match reply {
            NativeReply::Code(k) => if k != 0 {
                ChannelView { phase: Phase::Claimed, diagnostics: c.diagnostics.push(UsbError::ClaimFailed(k)), ..c }
            } else {
                ChannelView { phase: Phase::Claimed, ..c }
            },
            _ => c,
        },
        Phase::Claimed => match reply {
            NativeReply::Transfer { code, buffer, transferred } => if code == 0 {
                ChannelView {
                    phase: Phase::Succeeded,
                    received: buffer@.subrange(0, filled_len(buffer@.len(), transferred)),
                    ..c
                }
            } else {
                ChannelView { phase: Phase::Failed, failure: Some(UsbError::TransferFailed(code, c.handle)), ..c }
            },
            _ => c,
        },
        _ => c,
    }
}

/// What a finished sequence produced: the received bytes or the failure.
pub open spec fn outcome_of(c: ChannelView) -> Option<Result<Seq<u8>, UsbError>> {
    match c.phase {
        Phase::Succeeded => Some(Ok(c.received)),
        Phase::Failed => match c.failure {
            Some(e) => Some(Err(e)),
            None => None,
        },
        _ => None,
    }
}

/// Where the platform cannot report kernel-driver ownership, the sequence
/// goes straight to the claim, then the transfer, whatever the claim
/// answered; a successful transfer yields the bytes it filled.
pub proof fn lemma_unsupported_detach_still_transfers(
    handle: u64,
    interface: i32,
    claim: i32,
    buffer: Vec<u8>,
    transferred: i32,
)
    ensures
        ({
            let queried = step(start_channel(handle, interface), NativeReply::Code(ERROR_NOT_SUPPORTED));
            let claimed = step(queried, NativeReply::Code(claim));
            let done = step(claimed, NativeReply::Transfer { code: 0, buffer, transferred });
            &&& queried.phase == Phase::ReadyToClaim
            &&& claimed.phase == Phase::Claimed
            &&& outcome_of(done) == Some(
                Ok::<Seq<u8>, UsbError>(buffer@.subrange(0, filled_len(buffer@.len(), transferred))),
            )
        }),
{
}

impl TransferChannel {
    /// Starts the sequence for `interface` of the device behind `handle`.
    pub(crate) fn new(handle: u64, interface: i32) -> (r: TransferChannel)
        ensures
            r@ == start_channel(handle, interface),
    {
        let r = TransferChannel {
            handle,
            interface,
            phase: Phase::Start,
            received: Vec::new(),
            failure: None,
            diagnostics: Vec::new(),
        };
        assert(r@.received =~= Seq::<u8>::empty());
        assert(r@.diagnostics =~= Seq::<UsbError>::empty());
        r
    }

    /// The phase the sequence is in.
    pub fn phase(&self) -> (r: Phase)
        ensures
            r == self@.phase,
    {
        self.phase
    }

    /// The native call to make next; `Nothing` once the sequence is over.
    pub fn next_call(&self) -> (r: NativeCall)
        ensures
            call_of(self@, r),
    {
        match self.phase {
            Phase::Start => NativeCall::KernelDriverActive { handle: self.handle, interface: self.interface },
            Phase::DriverActive => NativeCall::DetachKernelDriver { handle: self.handle, interface: self.interface },
            Phase::ReadyToClaim => NativeCall::ClaimInterface { handle: self.handle, interface: self.interface },
            Phase::Claimed => {
                let mut buffer: Vec<u8> = Vec::new();
                buffer.push(TRANSFER_FILL);
                assert(buffer@ =~= seq![TRANSFER_FILL]);
                NativeCall::BulkTransfer {
                    handle: self.handle,
                    endpoint: BULK_ENDPOINT,
                    buffer,
                    timeout_ms: TRANSFER_TIMEOUT_MS,
                }
            },
            _ => NativeCall::Nothing,
        }
    }

    /// Moves the sequence on with the answer to the call it asked for.
    pub fn advance(&mut self, reply: NativeReply)
        ensures
            final(self)@ == step(old(self)@, reply),
    {
        match self.phase {
            Phase::Start => {
                if let NativeReply::Code(q) = reply {
                    if q == 0 || q == ERROR_NOT_SUPPORTED {
                        self.phase = Phase::ReadyToClaim;
                    } else {
                        if q < 0 {
                            self.diagnostics.push(UsbError::DetachFailed(q));
                        }
                        self.phase = Phase::DriverActive;
                    }
                }
            },
            Phase::DriverActive => {
                if let NativeReply::Code(d) = reply {
                    if d != 0 {
                        self.diagnostics.push(UsbError::DetachFailed(d));
                    }
                    self.phase = Phase::ReadyToClaim;
                }
            },
            Phase::ReadyToClaim => {
                if let NativeReply::Code(k) = reply {
                    if k != 0 {
                        self.diagnostics.push(UsbError::ClaimFailed(k));
                    }
                    self.phase = Phase::Claimed;
                }
            },
            Phase::Claimed => {
                if let NativeReply::Transfer { code, buffer, transferred } = reply {
                    if code == 0 {
                        let n: usize = if transferred < 0 {
                            0
                        } else if transferred as usize > buffer.len() {
                            buffer.len()
                        } else {
                            transferred as usize
                        };
                        let mut received: Vec<u8> = Vec::new();
                        let mut i: usize = 0;
                        while i < n
                            invariant
                                i <= n <= buffer@.len(),
                                received@ == buffer@.subrange(0, i as int),
                            decreases n - i,
                        {
                            received.push(buffer[i]);
                            i = i + 1;
                            assert(received@ =~= buffer@.subrange(0, i as int));
                        }
                        self.received = received;
                        self.phase = Phase::Succeeded;
                    } else {
                        self.failure = Some(UsbError::TransferFailed(code, self.handle));
                        self.phase = Phase::Failed;
                    }
                }
            },
            _ => {},
        }
    }

    /// The received bytes or the failure, once the sequence is over.
    pub fn outcome(&self) -> (r: Option<Result<Vec<u8>, UsbError>>)
        ensures
            match r {
                Some(Ok(v)) => outcome_of(self@) == Some(Ok::<Seq<u8>, UsbError>(v@)),
                Some(Err(e)) => outcome_of(self@) == Some(Err::<Seq<u8>, UsbError>(e)),
                None => outcome_of(self@) is None,
            },
    {
        match self.phase {
            Phase::Succeeded => {
                let mut out: Vec<u8> = Vec::new();
                let mut i: usize = 0;
                while i < self.received.len()
                    invariant
                        i <= self.received@.len(),
                        out@ == self.received@.subrange(0, i as int),
                    decreases self.received@.len() - i,
                {
                    out.push(self.received[i]);
                    i = i + 1;
                    assert(out@ =~= self.received@.subrange(0, i as int));
                }
                assert(out@ =~= self.received@);
                Some(Ok(out))
            },
            Phase::Failed => match self.failure {
                Some(e) => Some(Err(e)),
                None => None,
            },
            _ => None,
        }
    }

    /// The non-fatal problems met so far (failed detach or claim), in order.
    pub fn diagnostics(&self) -> (r: Vec<UsbError>)
        ensures
            r@ == self@.diagnostics,
    {
        let mut out: Vec<UsbError> = Vec::new();
        let mut i: usize = 0;
        while i < self.diagnostics.len()
            invariant
                i <= self.diagnostics@.len(),
                out@ == self.diagnostics@.subrange(0, i as int),
            decreases self.diagnostics@.len() - i,
        {
            out.push(self.diagnostics[i]);
            i = i + 1;
            assert(out@ =~= self.diagnostics@.subrange(0, i as int));
        }
        assert(out@ =~= self.diagnostics@);
        out
    }
}

} // verus!
