//! What every streaming session shares: the event model, the transcript
//! collector, and audio chunking.
//!
//! A session's inbound messages are interpreted as [`TranscriptEvent`]s and
//! folded, strictly in arrival order, into a [`TranscriptCollector`].  An
//! in-band error aborts at once; a final transcript or a finished sentinel
//! ends the loop; the result prefers the final text, falls back to the
//! concatenated deltas, and fails when both are empty.

use vstd::prelude::*;

use crate::chars::{spec_trim, trim};
use crate::errors::SttError;

verus! {

/// One inbound streaming message, interpreted.
#[derive(Debug)]
pub enum TranscriptEvent {
    /// A partial transcript fragment to append.
    Delta(String),
    /// The full final transcript: ends the session successfully.
    Final(String),
    /// An in-band vendor error: aborts the session.
    Error { code: String, message: String },
    /// The vendor's "finished" sentinel: ends the session successfully.
    Finished,
    /// Anything else: ignored.
    Other,
}

/// What the driver does after one event.
#[derive(Debug)]
pub enum StreamStep {
    /// Keep reading events.
    Continue,
    /// Stop reading; the transcript is complete.
    Done,
    /// Abort the session with this error.
    Fail(SttError),
}

/// The transcript assembled so far: the delta concatenation and the final
/// text, if one arrived.
pub struct TranscriptCollector {
    pub deltas: String,
    pub final_text: Option<String>,
}

impl TranscriptCollector {
    /// An empty collector: no deltas, no final text.
    pub fn new() -> (r: TranscriptCollector)
        ensures
            r.deltas@ == Seq::<char>::empty(),
            r.final_text is None,
    {
        TranscriptCollector { deltas: String::new(), final_text: None }
    }

    /// Fold one event in.
    ///
    /// Deltas append in arrival order; a final transcript or the finished
    /// sentinel ends the loop; an error event aborts with the vendor's code
    /// and message, and no partial text survives it.
    pub fn step(&mut self, event: TranscriptEvent) -> (r: StreamStep)
        ensures
            match event {
                TranscriptEvent::Delta(d) => (r is Continue && final(self).deltas@ == old(
                    self,
                ).deltas@ + d@ && final(self).final_text == old(self).final_text),
                TranscriptEvent::Final(t) => (r is Done && final(self).deltas@ == old(
                    self,
                ).deltas@ && (final(self).final_text matches Some(x) && x@ == t@)),
                TranscriptEvent::Error { code, message } => (*final(self) == *old(self) && (
                r matches StreamStep::Fail(e) && (e matches SttError::VendorStream {
                    code: c,
                    message: m,
                } && c@ == code@ && m@ == message@))),
                TranscriptEvent::Finished => (r is Done && *final(self) == *old(self)),
                TranscriptEvent::Other => (r is Continue && *final(self) == *old(self)),
            },
    {
        match event {
            TranscriptEvent::Delta(d) => {
                self.deltas.append(d.as_str());
                StreamStep::Continue
            },
            TranscriptEvent::Final(t) => {
                self.final_text = Some(t);
                StreamStep::Done
            },
            TranscriptEvent::Error { code, message } => {
                StreamStep::Fail(SttError::VendorStream { code, message })
            },
            TranscriptEvent::Finished => StreamStep::Done,
            TranscriptEvent::Other => StreamStep::Continue,
        }
    }

    /// The transcript this collector settles on before trimming: the final
    /// text when one arrived, else the concatenated deltas.
    pub open spec fn spec_chosen(self) -> Seq<char> {
        match self.final_text {
            Some(t) => t@,
            None => self.deltas@,
        }
    }

    /// Close the session's collection: the chosen text, trimmed; an error
    /// when no usable text arrived at all.
    pub fn finish(self) -> (r: Result<String, SttError>)
        ensures
            self.spec_chosen().len() == 0 ==> r == Err::<String, SttError>(
                SttError::EmptyTranscript,
            ),
            self.spec_chosen().len() > 0 ==> (r matches Ok(s) && s@ == spec_trim(
                self.spec_chosen(),
            )),
    {
        let chosen: String = match self.final_text {
            Some(t) => t,
            None => self.deltas,
        };
        if chosen.as_str().unicode_len() == 0 {
            return Err(SttError::EmptyTranscript);
        }
        Ok(trim(chosen.as_str()))
    }
}

/// Cut `data` into consecutive chunks of `size` bytes, in order; only the
/// last chunk may be shorter, and no chunk is empty.
pub fn chunk_bytes(data: &[u8], size: usize) -> (r: Vec<Vec<u8>>)
    requires
        size >= 1,
    ensures
        r@.len() == (data@.len() + size - 1) / (size as int),
        forall|i: int|
            0 <= i < r@.len() ==> #[trigger] r@[i]@ == data@.subrange(
                i * size,
                if (i + 1) * size <= data@.len() {
                    (i + 1) * size
                } else {
                    data@.len() as int
                },
            ),
{
    let n: usize = data.len();
    let mut out: Vec<Vec<u8>> = Vec::new();
    let mut o: usize = 0;
    proof {
        assert(0int * (size as int) == 0) by (nonlinear_arith);
        assert((0int - 1) * (size as int) < 0) by (nonlinear_arith)
            requires
                size >= 1,
        ;
    }
    while o < n
        invariant
            0 <= o <= n,
            n == data@.len(),
            size >= 1,
            o < n ==> o == out@.len() * size,
            (out@.len() as int - 1) * size < o,
            o <= out@.len() * size,
            forall|i: int|
                0 <= i < out@.len() ==> #[trigger] out@[i]@ == data@.subrange(
                    i * size,
                    if (i + 1) * size <= n {
                        (i + 1) * size
                    } else {
                        n as int
                    },
                ),
        decreases n - o,
    {
        let end: usize = if n - o < size {
            n
        } else {
            o + size
        };
        let chunk: Vec<u8> = vstd::slice::slice_to_vec(vstd::slice::slice_subrange(data, o, end));
        let ghost k = out@.len() as int;
        out.push(chunk);
        proof {
            assert(k * size == o);
            assert((k + 1) * size == o + size) by (nonlinear_arith)
                requires
                    k * size == o,
            ;
            assert(k * size == (k + 1) * size - size) by (nonlinear_arith);
            assert(out@[k]@ == data@.subrange(
                k * size,
                if (k + 1) * size <= n {
                    (k + 1) * size
                } else {
                    n as int
                },
            ));
        }
        o = end;
    }
    proof {
        let k = out@.len() as int;
        assert((k - 1) * size == k * size - size) by (nonlinear_arith);
        assert(o == n);
        assert(n + size - 1 >= k * size);
        assert(n + size - 1 - k * size < size);
        vstd::arithmetic::div_mod::lemma_fundamental_div_mod_converse_div(
            n + size - 1,
            size as int,
            k,
            n + size - 1 - k * size,
        );
    }
    out
}

} // verus!
