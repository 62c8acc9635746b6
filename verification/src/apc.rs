//! APC sequence extraction: a pre-pass over PTY output that removes the APC
//! strings (used by the Kitty graphics protocol) before the rest reaches
//! the VT parser.

use vstd::prelude::*;

verus! {

/// Where the extractor stands in the byte stream.
#[derive(Debug, Clone, Copy, PartialEq, Eq, Structural)]
pub enum ApcState {
    /// Normal pass-through.
    Ground,
    /// Saw ESC, waiting for `_` to start an APC.
    Escape,
    /// Inside an APC body, accumulating until ST.
    InApc,
    /// Inside an APC body after ESC, waiting for `\` (ESC \ = ST).
    InApcEscape,
}

/// State for extracting APC sequences from a byte stream.
#[derive(Debug)]
pub struct ApcExtractor {
    state: ApcState,
    buffer: Vec<u8>,
}

/// Result of processing bytes through the APC extractor.
pub struct ApcExtractResult {
    /// Bytes for the VT parser (APC sequences stripped out).
    pub passthrough: Vec<u8>,
    /// Complete APC payloads extracted, in order.
    pub apc_payloads: Vec<Vec<u8>>,
}

/// The extractor's state: where it stands and the APC body read so far.
pub struct ApcView {
    pub state: ApcState,
    pub buffer: Seq<u8>,
}

/// One byte through the extractor: the new state and body, the bytes passed
/// through, and the payload completed by this byte, if any.
pub open spec fn apc_step(st: ApcState, buf: Seq<u8>, b: u8) -> (ApcState, Seq<u8>, Seq<u8>, Option<Seq<u8>>) {
    match st {
        ApcState::Ground => if b == 0x1b {
            (ApcState::Escape, buf, seq![], None)
        } else {
            (ApcState::Ground, buf, seq![b], None)
        },
        ApcState::Escape => if b == 0x5f {
            (ApcState::InApc, seq![], seq![], None)
        } else {
            (ApcState::Ground, buf, seq![0x1bu8, b], None)
        },
        ApcState::InApc => if b == 0x1b {
            (ApcState::InApcEscape, buf, seq![], None)
        } else if b == 0x9c {
            (ApcState::Ground, seq![], seq![], Some(buf))
        } else {
            (ApcState::InApc, buf.push(b), seq![], None)
        },
        ApcState::InApcEscape => if b == 0x5c {
            (ApcState::Ground, seq![], seq![], Some(buf))
        } else {
            (ApcState::InApc, buf.push(0x1bu8).push(b), seq![], None)
        },
    }
}

/// The whole of `data` through the extractor from `(st, buf)`: the final
/// state and body, all bytes passed through, all payloads completed.
pub open spec fn apc_run(st: ApcState, buf: Seq<u8>, data: Seq<u8>) -> (ApcState, Seq<u8>, Seq<u8>, Seq<Seq<u8>>)
    decreases data.len(),
{
    if data.len() == 0 {
        (st, buf, seq![], seq![])
    } else {
        let (st1, buf1, pass1, pays1) = apc_run(st, buf, data.drop_last());
        let (st2, buf2, pass2, pay2) = apc_step(st1, buf1, data.last());
        (st2, buf2, pass1 + pass2, match pay2 {
            Some(p) => pays1.push(p),
            None => pays1,
        })
    }
}

impl ApcExtractor {
    pub closed spec fn view_state(&self) -> ApcState {
        self.state
    }

    pub closed spec fn view_buffer(&self) -> Seq<u8> {
        self.buffer@
    }

    pub fn new() -> (r: Self)
        ensures
            r.view_state() == ApcState::Ground,
            r.view_buffer() == Seq::<u8>::empty(),
    {
        ApcExtractor { state: ApcState::Ground, buffer: Vec::new() }
    }

    /// Process a chunk of bytes, extracting any APC sequences; an APC begun
    /// in this chunk may end in a later one.
    pub fn process(&mut self, data: &[u8]) -> (r: ApcExtractResult)
        ensures
            ({
                let (st, buf, pass, pays) = apc_run(old(self).view_state(), old(self).view_buffer(), data@);
                &&& final(self).view_state() == st
                &&& final(self).view_buffer() == buf
                &&& r.passthrough@ == pass
                &&& r.apc_payloads@.len() == pays.len()
                &&& forall|i: int| 0 <= i < pays.len() ==> #[trigger] r.apc_payloads@[i]@ == pays[i]
            }),
    {
        let mut passthrough: Vec<u8> = Vec::new();
        let mut apc_payloads: Vec<Vec<u8>> = Vec::new();
        let ghost st0 = self.state;
        let ghost buf0 = self.buffer@;
        let mut i: usize = 0;
        while i < data.len()
            invariant
                0 <= i <= data.len(),
                ({
                    let (st, buf, pass, pays) = apc_run(st0, buf0, data@.take(i as int));
                    &&& self.state == st
                    &&& self.buffer@ == buf
                    &&& passthrough@ == pass
                    &&& apc_payloads@.len() == pays.len()
                    &&& forall|k: int| 0 <= k < pays.len() ==> #[trigger] apc_payloads@[k]@ == pays[k]
                }),
            decreases data.len() - i,
        {
            let byte = data[i];
            assert(data@.take(i + 1).drop_last() =~= data@.take(i as int));
            let ghost prev_pays = apc_payloads@;
            match self.state {
                ApcState::Ground => {
                    if byte == 0x1b {
                        self.state = ApcState::Escape;
                    } else {
                        passthrough.push(byte);
                    }
                },
                ApcState::Escape => {
                    if byte == 0x5f {
                        self.state = ApcState::InApc;
                        self.buffer.clear();
                    } else {
                        passthrough.push(0x1b);
                        passthrough.push(byte);
                        self.state = ApcState::Ground;
                    }
                },
                ApcState::InApc => {
                    if byte == 0x1b {
                        self.state = ApcState::InApcEscape;
                    } else if byte == 0x9c {
                        let mut p: Vec<u8> = Vec::new();
                        std::mem::swap(&mut p, &mut self.buffer);
                        apc_payloads.push(p);
                        self.state = ApcState::Ground;
                    } else {
                        self.buffer.push(byte);
                    }
                },
                ApcState::InApcEscape => {
                    if byte == 0x5c {
                        let mut p: Vec<u8> = Vec::new();
                        std::mem::swap(&mut p, &mut self.buffer);
                        apc_payloads.push(p);
                        self.state = ApcState::Ground;
                    } else {
                        self.buffer.push(0x1b);
                        self.buffer.push(byte);
                        self.state = ApcState::InApc;
                    }
                },
            }
            i += 1;
        }
        assert(data@.take(data.len() as int) =~= data@);
        ApcExtractResult { passthrough, apc_payloads }
    }

    /// Reset the extractor state.
    pub fn reset(&mut self)
        ensures
            final(self).view_state() == ApcState::Ground,
            final(self).view_buffer() == Seq::<u8>::empty(),
    {
        self.state = ApcState::Ground;
        self.buffer.clear();
    }
}

impl Default for ApcExtractor {
    fn default() -> (r: Self)
        ensures
            r.view_state() == ApcState::Ground,
            r.view_buffer() == Seq::<u8>::empty(),
    {
        Self::new()
    }
}

/// Feeding a stream in two chunks gives the same final state, the same
/// passthrough bytes and the same payloads as feeding it at once.
pub proof fn lemma_apc_chunking(st: ApcState, buf: Seq<u8>, a: Seq<u8>, b: Seq<u8>)
    ensures
        ({
            let (st1, buf1, pass1, pays1) = apc_run(st, buf, a);
            let (st2, buf2, pass2, pays2) = apc_run(st1, buf1, b);
            let (st3, buf3, pass3, pays3) = apc_run(st, buf, a + b);
            &&& st3 == st2
            &&& buf3 == buf2
            &&& pass3 == pass1 + pass2
            &&& pays3 == pays1 + pays2
        }),
    decreases b.len(),
{
    if b.len() == 0 {
        assert(a + b =~= a);
        let (st1, buf1, pass1, pays1) = apc_run(st, buf, a);
        assert(pass1 + seq![] =~= pass1);
        assert(pays1 + seq![] =~= pays1);
    } else {
        lemma_apc_chunking(st, buf, a, b.drop_last());
        assert((a + b).drop_last() =~= a + b.drop_last());
        let (st1, buf1, pass1, pays1) = apc_run(st, buf, a);
        let (st2, buf2, pass2, pays2) = apc_run(st1, buf1, b.drop_last());
        let (st4, buf4, pass4, pay4) = apc_step(st2, buf2, b.last());
        assert(pass1 + (pass2 + pass4) =~= (pass1 + pass2) + pass4);
        match pay4 {
            Some(p) => assert(pays1 + pays2.push(p) =~= (pays1 + pays2).push(p)),
            None => {},
        }
    }
}

/// From the ground state, bytes without ESC pass through unchanged and
/// nothing is extracted.
pub proof fn lemma_apc_plain_passthrough(data: Seq<u8>)
    requires
        forall|i: int| 0 <= i < data.len() ==> data[i] != 0x1b,
    ensures
        apc_run(ApcState::Ground, seq![], data) == (ApcState::Ground, Seq::<u8>::empty(), data, Seq::<Seq<u8>>::empty()),
    decreases data.len(),
{
    if data.len() > 0 {
        lemma_apc_plain_passthrough(data.drop_last());
        assert(data.drop_last() + seq![data.last()] =~= data);
    } else {
        assert(data =~= seq![]);
    }
}

} // verus!
