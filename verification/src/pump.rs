//! The media pump: encoded units move from the encoder's queue to the
//! transport, and inbound media units move to the decoder.
//!
//! The encoder fills a queue outside the library; on each `Continue`
//! drive cycle the driver drains what is currently queued and hands the
//! batch here, each unit stamped with its elapsed time since session
//! start. Inbound media is handed to the external decoder; a decode
//! failure on one unit is skipped and the pump goes on with the next.

use vstd::prelude::*;

use crate::client::{Client, WebrtcError, WebrtcEvent};

verus! {

/// One encoded media unit: its compressed payload, if the encoder
/// produced one, and its presentation time in microseconds since session
/// start.
pub struct EncodedPacket {
    pub data: Option<Vec<u8>>,
    pub pts_micros: u64,
}

/// The payloads carried by a batch, in order; a unit without data
/// carries none.
pub open spec fn payloads_of(ps: Seq<EncodedPacket>) -> Seq<Seq<u8>>
    decreases ps.len(),
{
    if ps.len() == 0 {
        Seq::<Seq<u8>>::empty()
    } else {
        let rest = payloads_of(ps.drop_last());
        match ps.last().data {
            Some(d) => rest.push(d@),
            None => rest,
        }
    }
}

impl Client {
    /// Drain one batch of queued encoded units into the transport, in
    /// queue order. Before negotiation completes this drains to nothing
    /// and succeeds. Otherwise every payload of the batch is handed to
    /// the transport exactly once, in order — no duplication, no loss —
    /// unless a send fails, which ends the session having handed a
    /// prefix of the batch.
    pub fn drain_batch(&mut self, packets: Vec<EncodedPacket>) -> (r: Result<(), WebrtcError>)
        ensures
            final(self).same_session(*old(self)),
            !old(self).negotiated() ==> r is Ok && final(self).submitted() == old(self).submitted(),
            r is Ok ==> final(self).submitted() == old(self).submitted() + payloads_of(packets@)
                || !old(self).negotiated(),
            exists|k: int|
                0 <= k <= packets@.len() && final(self).submitted() == old(self).submitted()
                    + payloads_of(#[trigger] packets@.take(k)),
            r is Err ==> r->Err_0 is SendError,
    {
        let ghost base = old(self).submitted();
        let mut i: usize = 0;
        while i < packets.len()
            invariant
                i <= packets.len(),
                self.same_session(*old(self)),
                old(self).negotiated() ==> self.submitted() == base + payloads_of(
                    packets@.take(i as int),
                ),
                base == old(self).submitted(),
                !old(self).negotiated() ==> self.submitted() == base,
            decreases packets.len() - i,
        {
            assert(packets@.take(i + 1).drop_last() =~= packets@.take(i as int));
            assert(packets@.take(i + 1).last() == packets@[i as int]);
            let pts = packets[i].pts_micros;
            if let Some(d) = &packets[i].data {
                let ghost before = self.submitted();
                assert(packets@[i as int].data == Some(*d));
                assert(payloads_of(packets@.take(i + 1)) == payloads_of(
                    packets@.take(i as int),
                ).push(d@));
                match self.send_video(d.as_slice(), pts) {
                    Ok(()) => {
                        proof {
                            if old(self).negotiated() {
                                assert(self.submitted() == before.push(d@));
                                assert((base + payloads_of(packets@.take(i as int))).push(d@)
                                    =~= base + payloads_of(packets@.take(i as int)).push(d@));
                                assert(self.submitted() == base + payloads_of(
                                    packets@.take(i + 1),
                                ));
                            }
                        }
                    },
                    Err(e) => {
                        proof {
                            if old(self).negotiated() {
                                if self.submitted() == before.push(d@) {
                                    assert((base + payloads_of(packets@.take(i as int))).push(d@)
                                        =~= base + payloads_of(packets@.take(i as int)).push(d@));
                                    assert(self.submitted() == base + payloads_of(
                                        packets@.take(i + 1),
                                    ));
                                } else {
                                    assert(self.submitted() == base + payloads_of(
                                        packets@.take(i as int),
                                    ));
                                }
                            } else {
                                assert(payloads_of(packets@.take(0)) =~= Seq::<Seq<u8>>::empty());
                                assert(base + payloads_of(packets@.take(0)) =~= base);
                            }
                        }
                        return Err(e);
                    },
                }
            } else {
                assert(payloads_of(packets@.take(i + 1)) == payloads_of(packets@.take(i as int)));
            }
            i += 1;
        }
        assert(packets@.take(packets.len() as int) =~= packets@);
        proof {
            if !old(self).negotiated() {
                assert(payloads_of(packets@.take(0)) =~= Seq::<Seq<u8>>::empty());
                assert(base + payloads_of(packets@.take(0)) =~= base);
            }
        }
        Ok(())
    }
}

/// What one drive report means to the inbound pump: a terminal report
/// stops it, inbound media goes to the decoder, anything else is idle.
pub enum PumpAction {
    Stop,
    Decode(Vec<u8>),
    Idle,
}

/// The pump's reading of one report.
pub open spec fn pump_action_spec(ev: WebrtcEvent) -> PumpAction {
    match ev {
        WebrtcEvent::Disconnected => PumpAction::Stop,
        WebrtcEvent::Media(d) => PumpAction::Decode(d),
        WebrtcEvent::Continue => PumpAction::Idle,
    }
}

/// Decide what the inbound pump does with one drive report.
pub fn pump_event_action(ev: WebrtcEvent) -> (r: PumpAction)
    ensures
        r == pump_action_spec(ev),
{
    match ev {
        WebrtcEvent::Disconnected => PumpAction::Stop,
        WebrtcEvent::Media(d) => PumpAction::Decode(d),
        WebrtcEvent::Continue => PumpAction::Idle,
    }
}

/// The frames the inbound pump forwards, given each media unit's
/// decoding outcome in arrival order: a failed unit (`None`) yields
/// nothing, a decoded unit yields its frames, all in order.
pub open spec fn forwarded_frames(outcomes: Seq<Option<Seq<Seq<u8>>>>) -> Seq<Seq<u8>>
    decreases outcomes.len(),
{
    if outcomes.len() == 0 {
        Seq::<Seq<u8>>::empty()
    } else {
        forwarded_frames(outcomes.drop_last()) + (match outcomes.last() {
            Some(fs) => fs,
            None => Seq::<Seq<u8>>::empty(),
        })
    }
}

/// Law: a decode failure is skipped entirely — it contributes no frame
/// and leaves the frames of every unit before and after it untouched, so
/// a later well-formed unit still produces its frames.
pub proof fn lemma_decode_failure_skipped(
    before: Seq<Option<Seq<Seq<u8>>>>,
    after: Seq<Option<Seq<Seq<u8>>>>,
)
    ensures
        forwarded_frames(before + seq![None] + after) == forwarded_frames(before)
            + forwarded_frames(after),
    decreases after.len(),
{
    let whole = before + seq![None] + after;
    if after.len() == 0 {
        assert(whole =~= before.push(None));
        assert(whole.drop_last() =~= before);
        assert(forwarded_frames(whole) == forwarded_frames(before) + Seq::<Seq<u8>>::empty());
        assert(forwarded_frames(before) + Seq::<Seq<u8>>::empty() =~= forwarded_frames(before));
        assert(forwarded_frames(after) == Seq::<Seq<u8>>::empty());
        assert(forwarded_frames(before) + forwarded_frames(after) =~= forwarded_frames(before));
    } else {
        lemma_decode_failure_skipped(before, after.drop_last());
        assert(whole.drop_last() =~= before + seq![None] + after.drop_last());
        assert(whole.last() == after.last());
        match after.last() {
            Some(fs) => {
                assert(forwarded_frames(whole) == (forwarded_frames(before) + forwarded_frames(
                    after.drop_last(),
                )) + fs);
                assert((forwarded_frames(before) + forwarded_frames(after.drop_last())) + fs
                    =~= forwarded_frames(before) + (forwarded_frames(after.drop_last()) + fs));
            },
            None => {
                assert(forwarded_frames(whole) == (forwarded_frames(before) + forwarded_frames(
                    after.drop_last(),
                )) + Seq::<Seq<u8>>::empty());
                assert((forwarded_frames(before) + forwarded_frames(after.drop_last()))
                    + Seq::<Seq<u8>>::empty() =~= forwarded_frames(before) + (forwarded_frames(
                    after.drop_last(),
                ) + Seq::<Seq<u8>>::empty()));
            },
        }
    }
}

} // verus!
