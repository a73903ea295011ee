//! A response body read chunk by chunk up to a byte limit, as the Codex
//! client, the proxy test and model discovery read upstream answers.

use vstd::prelude::*;

verus! {

/// The bytes read so far and the most that may be read.
pub struct BoundedBody {
    bytes: Vec<u8>,
    maximum: usize,
}

impl View for BoundedBody {
    type V = Seq<u8>;

    closed spec fn view(&self) -> Seq<u8> {
        self.bytes@
    }
}

impl BoundedBody {
    /// The limit of the body.
    pub closed spec fn limit(&self) -> nat {
        self.maximum as nat
    }

    /// The body never holds more than its limit.
    pub closed spec fn wf(&self) -> bool {
        self.bytes@.len() <= self.maximum
    }

    /// An empty body for an answer that declared `content_length`; a
    /// declared length over the limit is refused before any byte is read.
    pub fn start(content_length: Option<u64>, maximum: usize) -> (body: Option<Self>)
        ensures
            match body {
                Some(body) => body.wf() && body@ == Seq::<u8>::empty() && body.limit() == maximum
                    && !(content_length matches Some(length) && length > maximum),
                None => content_length matches Some(length) && length > maximum,
            },
    {
        if let Some(length) = content_length {
            if length > maximum as u64 {
                return None;
            }
        }
        Some(BoundedBody { bytes: Vec::new(), maximum })
    }

    /// Appends a chunk when the body stays within its limit; otherwise the
    /// body is left as it was and the answer is too large.
    pub fn push(&mut self, chunk: &[u8]) -> (accepted: bool)
        requires
            old(self).wf(),
        ensures
            final(self).wf(),
            final(self).limit() == old(self).limit(),
            accepted == (old(self)@.len() + chunk@.len() <= old(self).limit()),
            accepted ==> final(self)@ == old(self)@ + chunk@,
            !accepted ==> final(self)@ == old(self)@,
    {
        if chunk.len() > self.maximum - self.bytes.len() {
            return false;
        }
        let ghost before = self.bytes@;
        let ghost maximum = self.maximum;
        let mut index: usize = 0;
        while index < chunk.len()
            invariant
                index <= chunk@.len(),
                self.maximum == maximum,
                before.len() + chunk@.len() <= maximum,
                self.bytes@ == before + chunk@.take(index as int),
            decreases chunk@.len() - index,
        {
            self.bytes.push(chunk[index]);
            assert(self.bytes@ =~= before + chunk@.take(index + 1));
            index += 1;
        }
        assert(chunk@.take(chunk@.len() as int) =~= chunk@);
        true
    }

    /// The bytes read.
    pub fn into_bytes(self) -> (bytes: Vec<u8>)
        ensures
            bytes@ == self@,
    {
        self.bytes
    }
}

} // verus!
