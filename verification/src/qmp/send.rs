//! Sending monitor commands: the command's JSON bytes are written in
//! full, a cursor tracking how far; partial writes suspend and resume
//! where they left off, so sends on one writer are strictly FIFO.

use vstd::prelude::*;
use vstd::string::*;
use crate::error::{Error, ErrorKind};
use crate::qmp::Command;

verus! {

/// An in-flight send: the serialized command and how much of it has been
/// written.
pub struct SendState {
    payload: Vec<u8>,
    sent: usize,
}

/// What one write poll led to.
#[derive(Debug)]
pub enum SendProgress {
    /// More bytes remain: suspend and resume later.
    Pending,
    /// The whole payload has been written.
    Done,
}

impl SendState {
    pub closed spec fn spec_payload(&self) -> Seq<u8> {
        self.payload@
    }

    pub closed spec fn spec_sent(&self) -> int {
        self.sent as int
    }

    pub open spec fn wf(&self) -> bool {
        self.spec_sent() <= self.spec_payload().len()
    }

    /// Starts a send: the command serialized once, nothing written yet.
    pub fn new(command: &Command) -> (r: Self)
        ensures
            r.wf(),
            r.spec_payload() == command.spec_bytes(),
            r.spec_sent() == 0,
    {
        SendState { payload: command.encode(), sent: 0 }
    }

    /// Whether the payload has been written in full.
    pub fn is_done(&self) -> (r: bool)
        requires
            self.wf(),
        ensures
            r == (self.spec_sent() == self.spec_payload().len()),
    {
        self.sent >= self.payload.len()
    }

    /// The bytes still to write, in order.
    pub fn remaining(&self) -> (r: Vec<u8>)
        requires
            self.wf(),
        ensures
            r@ == self.spec_payload().skip(self.spec_sent()),
    {
        let n = self.payload.len();
        let mut out: Vec<u8> = Vec::new();
        let mut i: usize = self.sent;
        proof {
            assert(out@ =~= self.spec_payload().subrange(self.spec_sent(), self.spec_sent()));
        }
        while i < n
            invariant
                self.wf(),
                n == self.spec_payload().len(),
                self.spec_sent() <= i <= n,
                out@ == self.spec_payload().subrange(self.spec_sent(), i as int),
            decreases n - i,
        {
            out.push(self.payload[i]);
            proof {
                assert(out@ =~= self.spec_payload().subrange(self.spec_sent(), i + 1));
            }
            i = i + 1;
        }
        proof {
            assert(self.spec_payload().subrange(self.spec_sent(), n as int) =~= self.spec_payload()
                .skip(self.spec_sent()));
        }
        out
    }

    /// Accounts for one write of `wrote` bytes.  A successful write of
    /// nothing fails the send; otherwise the cursor advances and the
    /// caller polls again until done.  The writer can never write more
    /// than it was handed, which is what remained.
    pub fn advance(&mut self, wrote: usize) -> (r: Result<SendProgress, Error>)
        requires
            old(self).wf(),
            wrote <= old(self).spec_payload().len() - old(self).spec_sent(),
        ensures
            final(self).wf(),
            final(self).spec_payload() == old(self).spec_payload(),
            wrote == 0 ==> (r matches Err(e) && e.spec_kind() == ErrorKind::IOError
                && e.spec_message() == "No data written"@),
            wrote > 0 ==> final(self).spec_sent() == old(self).spec_sent() + wrote,
            wrote > 0 ==> (r matches Ok(p) && (p is Done <==> final(self).spec_sent()
                == final(self).spec_payload().len())),
    {
        if wrote == 0 {
            return Err(Error::new(ErrorKind::IOError, "No data written"));
        }
        let total = self.payload.len();
        proof {
            assert(self.sent + wrote <= total);
        }
        self.sent = self.sent + wrote;
        if self.sent >= self.payload.len() {
            Ok(SendProgress::Done)
        } else {
            Ok(SendProgress::Pending)
        }
    }
}

} // verus!
