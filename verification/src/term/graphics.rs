//! Kitty graphics in the terminal: APC strings are taken out of the PTY
//! output before it reaches the VT parser, and their payloads run as Kitty
//! graphics commands.

use vstd::prelude::*;
use vstd::utf8::{decode_utf8, encode_utf8, valid_utf8};
use super::{TermView, Terminal};
use super::images::{after_image_spec, same_cells};
use crate::apc::apc_run;
use crate::codec::{base64_standard, string_from_chars, utf8_to_chars};
use crate::image_store::ImageStoreView;
use crate::kitty::{KittyAction, KittyCommand, kitty_command_fits, kitty_effect, kitty_header_spec, kitty_sizes_fit, process_kitty_command};
use crate::text::{find_char, first_pos, sub_chars};

verus! {

/// Whether `cmd` transmits an image (and so does size arithmetic).
pub open spec fn transmits(cmd: KittyCommand) -> bool {
    cmd.action == KittyAction::Transmit || cmd.action == KittyAction::TransmitAndDisplay
}

/// One APC payload takes state `v` to `w`: a Kitty graphics payload
/// (`G<header>;<base64>`) goes to the chunk accumulator, and a final chunk
/// runs the command at the cursor (a transmission whose raw pixel size
/// overflows `u32` is dropped). Other payloads are ignored.
pub open spec fn apc_payload_rel(v: TermView, p: Seq<u8>, w: TermView) -> bool {
    if p.len() == 0 || p[0] != 0x47 || !valid_utf8(p.skip(1)) {
        w == v
    } else {
        let body = decode_utf8(p.skip(1));
        let i = first_pos(body, ';');
        let header = body.take(i);
        let b64 = if i < body.len() { body.skip(i + 1) } else { Seq::empty() };
        let cmd = kitty_header_spec(header);
        let stored = match v.kitty_command {
            Some(c) => c,
            None => cmd,
        };
        let data = v.kitty_data + encode_utf8(b64);
        if cmd.more_chunks {
            w == TermView { kitty_command: Some(KittyCommand { more_chunks: true, ..stored }), kitty_data: data, ..v }
        } else {
            let decoded = match base64_standard(data) {
                Some(d) => d,
                None => Seq::empty(),
            };
            let v1 = TermView { kitty_command: None, kitty_data: Seq::empty(), ..v };
            if transmits(stored) && !kitty_sizes_fit(stored) {
                w == v1
            } else {
                exists|s1: ImageStoreView|
                    {
                        &&& same_cells(v.images, s1)
                        &&& kitty_effect(v.images, s1, stored, decoded, v.cursor_col as usize, v.cursor_row as usize)
                        &&& w == after_image_spec(TermView { images: s1, ..v1 }, v.images.placements.len() as int)
                    }
            }
        }
    }
}

/// The payloads `ps` run in order take `v` to `w`, through the states `sts`.
pub open spec fn apc_payloads_rel(v: TermView, ps: Seq<Seq<u8>>, sts: Seq<TermView>, w: TermView) -> bool {
    &&& sts.len() == ps.len() + 1
    &&& sts[0] == v
    &&& sts.last() == w
    &&& forall|k: int| 0 <= k < ps.len() ==> #[trigger] apc_payload_rel(sts[k], ps[k], sts[k + 1])
}

/// The state once the APC extractor has consumed `data`.
pub open spec fn after_extract(v: TermView, data: Seq<u8>) -> TermView {
    let r = apc_run(v.apc_state, v.apc_buffer, data);
    TermView { apc_state: r.0, apc_buffer: r.1, ..v }
}

impl Terminal {
    /// Run one APC payload (see `apc_payload_rel`).
    fn handle_apc_payload(&mut self, payload: &Vec<u8>)
        requires
            old(self).wf(),
        ensures
            final(self).wf(),
            apc_payload_rel(old(self)@, payload@, final(self)@),
    {
        if payload.len() == 0 || payload[0] != 0x47 {
            return;
        }
        let mut rest: Vec<u8> = Vec::new();
        let mut k: usize = 1;
        while k < payload.len()
            invariant
                1 <= k <= payload@.len(),
                rest@ == payload@.subrange(1, k as int),
            decreases payload@.len() - k,
        {
            rest.push(payload[k]);
            k += 1;
            assert(rest@ =~= payload@.subrange(1, k as int));
        }
        assert(rest@ =~= payload@.skip(1));
        let body = match utf8_to_chars(rest.as_slice()) {
            Some(b) => b,
            None => {
                return;
            },
        };
        let i = find_char(&body, ';');
        let header = sub_chars(&body, 0, i);
        let b64 = if i < body.len() { sub_chars(&body, i + 1, body.len()) } else { Vec::new() };
        assert(header@ =~= body@.take(i as int));
        proof {
            if i < body@.len() {
                assert(b64@ =~= body@.skip(i + 1));
            }
        }
        let hs = string_from_chars(&header);
        let bs = string_from_chars(&b64);
        let fed = self.kitty_accumulator.feed(hs.as_str(), bs.as_str());
        match fed {
            None => {},
            Some((cmd, decoded)) => {
                let ghost v1 = self@;
                if (cmd.action == KittyAction::Transmit || cmd.action == KittyAction::TransmitAndDisplay)
                    && !kitty_command_fits(&cmd) {
                    return;
                }
                let before = self.image_store.placements().len();
                let col = self.cursor_col;
                let row = self.cursor_row;
                process_kitty_command(&cmd, decoded.as_slice(), &mut self.image_store, col, row);
                let ghost mid = self@;
                let ghost s1 = mid.images;
                assert(mid == (TermView { images: s1, ..v1 }));
                self.finish_image(before);
                assert(same_cells(old(self)@.images, s1));
            },
        }
    }

    /// Take the APC strings out of PTY output `data` and run their payloads
    /// as Kitty graphics commands; the rest of the bytes, for the VT
    /// parser, come back. An APC string may span calls.
    pub fn feed_apc(&mut self, data: &[u8]) -> (passthrough: Vec<u8>)
        requires
            old(self).wf(),
        ensures
            final(self).wf(),
            passthrough@ == apc_run(old(self)@.apc_state, old(self)@.apc_buffer, data@).2,
            exists|sts: Seq<TermView>|
                #[trigger] apc_payloads_rel(after_extract(old(self)@, data@), apc_run(old(self)@.apc_state, old(self)@.apc_buffer, data@).3, sts, final(self)@),
    {
        let result = self.apc_extractor.process(data);
        let ghost (st, buf, pass, pays) = apc_run(old(self)@.apc_state, old(self)@.apc_buffer, data@);
        let ghost v0 = self@;
        assert(v0 == (TermView { apc_state: st, apc_buffer: buf, ..old(self)@ }));
        let payloads = result.apc_payloads;
        let ghost mut sts: Seq<TermView> = seq![v0];
        let mut k: usize = 0;
        while k < payloads.len()
            invariant
                k <= payloads@.len(),
                payloads@.len() == pays.len(),
                forall|j: int| 0 <= j < pays.len() ==> #[trigger] payloads@[j]@ == pays[j],
                self.wf(),
                sts.len() == k + 1,
                sts[0] == v0,
                sts.last() == self@,
                forall|j: int| 0 <= j < k ==> #[trigger] apc_payload_rel(sts[j], pays[j], sts[j + 1]),
            decreases payloads@.len() - k,
        {
            let ghost before = self@;
            self.handle_apc_payload(&payloads[k]);
            proof {
                assert(payloads@[k as int]@ == pays[k as int]);
                let old_sts = sts;
                sts = sts.push(self@);
                assert forall|j: int| 0 <= j < k + 1 implies #[trigger] apc_payload_rel(sts[j], pays[j], sts[j + 1]) by {
                    if j < k {
                        assert(sts[j] == old_sts[j]);
                        assert(sts[j + 1] == old_sts[j + 1]);
                    } else {
                        assert(sts[j] == before);
                    }
                }
            }
            k += 1;
        }
        proof {
            assert(apc_payloads_rel(v0, pays, sts, self@));
        }
        result.passthrough
    }
}

} // verus!
