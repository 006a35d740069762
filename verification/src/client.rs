//! The per-connection client state machine. One instance drives the
//! Pusher handshake, the initial subscription, optional periodic filter
//! updates, message receipt with timestamp extraction, and latency
//! recording into a privately owned result record. The surrounding I/O
//! loop feeds it decoded frames, tick events and the warm-up gate, and
//! sends whatever reply a step hands back.

use vstd::prelude::*;
use crate::bytes::{ascii_bytes, ascii_view, bytes_eq, saturating_add_u64, saturating_sub_u64,
    spec_sat_add, spec_sat_sub};
use crate::filter::{build_filter, filter_ok, FilterValue};
use crate::frame::{decode_frame, extract_timestamp, spec_decoded, spec_extract_timestamp,
    InboundFrame};
use crate::tokens::TokenPool;
use crate::wire::{pong_control, raw_pong, spec_pong_control, spec_raw_ping, spec_raw_pong,
    spec_subscribe_json, subscribe_json};

verus! {

/// Latency samples live strictly below this bound; anything at or above
/// it is out of range.
pub const SAMPLE_CLAMP_MS: u64 = 60000;

/// The recognized Pusher control events.
pub open spec fn spec_ev_ping() -> Seq<u8> {
    ascii_view("pusher:ping")
}

pub open spec fn spec_ev_established() -> Seq<u8> {
    ascii_view("pusher:connection_established")
}

pub open spec fn spec_ev_sub_ok() -> Seq<u8> {
    ascii_view("pusher_internal:subscription_succeeded")
}

pub open spec fn spec_ev_error() -> Seq<u8> {
    ascii_view("pusher:error")
}

/// A frame is a data delivery when its event is none of the control
/// events and its channel equals the configured channel.
pub open spec fn spec_is_delivery(fr: InboundFrame, channel: Seq<u8>) -> bool {
    &&& fr.event@ != spec_ev_ping()
    &&& fr.event@ != spec_ev_established()
    &&& fr.event@ != spec_ev_sub_ok()
    &&& fr.event@ != spec_ev_error()
    &&& fr.channel matches Some(c) && c@ == channel
}

/// A latency sample clamped below the 60 s bound.
pub open spec fn spec_clamp(v: u64) -> u64 {
    if v < SAMPLE_CLAMP_MS {
        v
    } else {
        (SAMPLE_CLAMP_MS - 1) as u64
    }
}

/// The end-to-end sample a delivered frame yields at wall-clock `now`:
/// the saturating difference to the extracted timestamp, or nothing when
/// no timestamp is found or the difference is 60 s or more.
pub open spec fn spec_e2e_sample(fr: InboundFrame, now: u64) -> Option<u64> {
    match spec_extract_timestamp(fr) {
        Some(ts) => {
            let lat = spec_sat_sub(now, ts);
            if lat < SAMPLE_CLAMP_MS {
                Some(lat)
            } else {
                None
            }
        },
        None => None,
    }
}

/// A wall clock behind the message timestamp saturates to zero, never to
/// a large wraparound.
pub proof fn lemma_e2e_saturates_to_zero(fr: InboundFrame, now: u64, ts: u64)
    requires
        spec_extract_timestamp(fr) == Some(ts),
        now < ts,
    ensures
        spec_e2e_sample(fr, now) == Some(0u64),
{
}

/// The record a client owns and hands to the aggregator on termination.
pub struct ClientResult {
    /// The initial subscription latency; present exactly when
    /// `subscribe_success` is set.
    pub subscribe_latency_ms: Option<u64>,
    /// Acknowledged filter-update latencies, recorded only while the
    /// warm-up gate is set.
    pub filter_update_latencies: Vec<u64>,
    /// End-to-end delivery latencies, recorded only while the warm-up
    /// gate is set.
    pub e2e_latencies: Vec<u64>,
    /// Data deliveries observed while the warm-up gate was set.
    pub messages_received: u64,
    /// Data deliveries observed before the warm-up gate was set.
    pub warmup_messages: u64,
    pub connected: bool,
    pub subscribe_success: bool,
    pub connection_error: bool,
}

impl ClientResult {
    /// The record's invariant: no more samples than post-warm-up
    /// deliveries, every sample below the clamp, and a subscribe latency
    /// present exactly when the subscription succeeded.
    pub open spec fn wf(self) -> bool {
        &&& self.e2e_latencies@.len() <= self.messages_received
        &&& forall|i: int|
            0 <= i < self.e2e_latencies@.len() ==> self.e2e_latencies@[i] < SAMPLE_CLAMP_MS
        &&& forall|i: int|
            0 <= i < self.filter_update_latencies@.len() ==> self.filter_update_latencies@[i]
                < SAMPLE_CLAMP_MS
        &&& (self.subscribe_latency_ms matches Some(v) ==> v < SAMPLE_CLAMP_MS)
        &&& (self.subscribe_success <==> self.subscribe_latency_ms is Some)
    }

    /// All counters zero, all sequences empty, all flags clear.
    pub open spec fn spec_is_blank(self, connected: bool, connection_error: bool) -> bool {
        &&& self.subscribe_latency_ms is None
        &&& self.filter_update_latencies@ =~= Seq::<u64>::empty()
        &&& self.e2e_latencies@ =~= Seq::<u64>::empty()
        &&& self.messages_received == 0
        &&& self.warmup_messages == 0
        &&& self.connected == connected
        &&& self.subscribe_success == false
        &&& self.connection_error == connection_error
    }

    /// A well-formed record never holds more end-to-end samples than it
    /// counted post-warm-up deliveries, and every sample of it lies in
    /// `[0, 59999]`.
    pub proof fn lemma_samples_bounded(self)
        requires
            self.wf(),
        ensures
            self.e2e_latencies@.len() <= self.messages_received,
            forall|i: int|
                0 <= i < self.e2e_latencies@.len() ==> self.e2e_latencies@[i] < SAMPLE_CLAMP_MS,
            forall|i: int|
                0 <= i < self.filter_update_latencies@.len()
                    ==> self.filter_update_latencies@[i] < SAMPLE_CLAMP_MS,
    {
    }

    /// A well-formed record carries a subscribe latency exactly when its
    /// subscription succeeded.
    pub proof fn lemma_subscribe_latency_iff_success(self)
        requires
            self.wf(),
        ensures
            self.subscribe_success <==> self.subscribe_latency_ms is Some,
    {
    }

    /// The empty record: what a timed-out or failed task contributes.
    pub fn empty() -> (r: ClientResult)
        ensures
            r.wf(),
            r.spec_is_blank(false, false),
    {
        ClientResult {
            subscribe_latency_ms: None,
            filter_update_latencies: Vec::new(),
            e2e_latencies: Vec::new(),
            messages_received: 0,
            warmup_messages: 0,
            connected: false,
            subscribe_success: false,
            connection_error: false,
        }
    }

    /// The record of a client whose connection attempt failed.
    pub fn connect_failed() -> (r: ClientResult)
        ensures
            r.wf(),
            r.spec_is_blank(false, true),
    {
        let mut r = ClientResult::empty();
        r.connection_error = true;
        r
    }
}

/// What one step of the state machine hands back to the I/O loop.
pub struct FrameOutcome {
    /// A frame to send on the connection, if any.
    pub reply: Option<Vec<u8>>,
    /// A data delivery was observed: the global message counter ticks.
    pub delivered: bool,
    /// The initial subscription succeeded on this step: the global
    /// success counter ticks.
    pub subscribed_now: bool,
}

/// An outcome with nothing to send and nothing to count.
pub open spec fn spec_quiet(out: FrameOutcome) -> bool {
    &&& out.reply is None
    &&& !out.delivered
    &&& !out.subscribed_now
}

fn quiet_outcome() -> (r: FrameOutcome)
    ensures
        spec_quiet(r),
{
    FrameOutcome { reply: None, delivered: false, subscribed_now: false }
}

/// One client's state between events.
pub struct ClientState {
    pub scenario: u8,
    pub channel: Vec<u8>,
    /// When the initial subscribe frame went out.
    pub subscribe_time: Option<u64>,
    /// When the last filter-update subscribe frame went out.
    pub update_time: Option<u64>,
    /// The initial subscription has been acknowledged.
    pub subscribed: bool,
    /// A filter update is in flight: the next acknowledgment is its.
    pub is_updating: bool,
    pub result: ClientResult,
}

/// The control fields that a subscription acknowledgment leaves alone.
pub open spec fn spec_same_identity(pre: ClientState, post: ClientState) -> bool {
    &&& post.scenario == pre.scenario
    &&& post.channel@ == pre.channel@
}

/// The transition a `pusher_internal:subscription_succeeded` event makes:
/// an in-flight update is acknowledged (sampled only past warm-up), an
/// awaited initial subscription succeeds, anything else is ignored.
pub open spec fn spec_sub_ok_step(
    pre: ClientState,
    post: ClientState,
    out: FrameOutcome,
    now: u64,
    gate: bool,
) -> bool {
    &&& out.reply is None
    &&& !out.delivered
    &&& if pre.is_updating {
        &&& spec_same_identity(pre, post)
        &&& post.subscribe_time == pre.subscribe_time
        &&& post.update_time == pre.update_time
        &&& post.subscribed == pre.subscribed
        &&& post.is_updating == false
        &&& post.result.subscribe_latency_ms == pre.result.subscribe_latency_ms
        &&& post.result.e2e_latencies@ == pre.result.e2e_latencies@
        &&& post.result.messages_received == pre.result.messages_received
        &&& post.result.warmup_messages == pre.result.warmup_messages
        &&& post.result.connected == pre.result.connected
        &&& post.result.subscribe_success == pre.result.subscribe_success
        &&& post.result.connection_error == pre.result.connection_error
        &&& post.result.filter_update_latencies@ == if gate && pre.update_time is Some {
            pre.result.filter_update_latencies@.push(
                spec_clamp(spec_sat_sub(now, pre.update_time->0)),
            )
        } else {
            pre.result.filter_update_latencies@
        }
        &&& !out.subscribed_now
    } else if !pre.subscribed && pre.subscribe_time is Some {
        &&& spec_same_identity(pre, post)
        &&& post.subscribe_time == pre.subscribe_time
        &&& post.update_time == pre.update_time
        &&& post.subscribed == true
        &&& post.is_updating == false
        &&& post.result.subscribe_latency_ms == Some(
            spec_clamp(spec_sat_sub(now, pre.subscribe_time->0)),
        )
        &&& post.result.subscribe_success == true
        &&& post.result.filter_update_latencies@ == pre.result.filter_update_latencies@
        &&& post.result.e2e_latencies@ == pre.result.e2e_latencies@
        &&& post.result.messages_received == pre.result.messages_received
        &&& post.result.warmup_messages == pre.result.warmup_messages
        &&& post.result.connected == pre.result.connected
        &&& post.result.connection_error == pre.result.connection_error
        &&& out.subscribed_now == true
    } else {
        &&& post == pre
        &&& !out.subscribed_now
    }
}

/// The transition a data delivery makes: the delivery is counted; past
/// warm-up the post-warm-up count ticks and a timestamp, if one is
/// extracted and in range, appends an end-to-end sample; during warm-up
/// only the warm-up count ticks.
pub open spec fn spec_delivery_step(
    pre: ClientState,
    post: ClientState,
    out: FrameOutcome,
    fr: InboundFrame,
    now: u64,
    gate: bool,
) -> bool {
    &&& out.reply is None
    &&& out.delivered == true
    &&& !out.subscribed_now
    &&& spec_same_identity(pre, post)
    &&& post.subscribe_time == pre.subscribe_time
    &&& post.update_time == pre.update_time
    &&& post.subscribed == pre.subscribed
    &&& post.is_updating == pre.is_updating
    &&& post.result.subscribe_latency_ms == pre.result.subscribe_latency_ms
    &&& post.result.subscribe_success == pre.result.subscribe_success
    &&& post.result.connected == pre.result.connected
    &&& post.result.connection_error == pre.result.connection_error
    &&& post.result.filter_update_latencies@ == pre.result.filter_update_latencies@
    &&& if gate {
        &&& post.result.messages_received == spec_sat_add(pre.result.messages_received, 1)
        &&& post.result.warmup_messages == pre.result.warmup_messages
        &&& post.result.e2e_latencies@ == match spec_e2e_sample(fr, now) {
            Some(lat) => if pre.result.messages_received < u64::MAX {
                pre.result.e2e_latencies@.push(lat)
            } else {
                pre.result.e2e_latencies@
            },
            None => pre.result.e2e_latencies@,
        }
    } else {
        &&& post.result.messages_received == pre.result.messages_received
        &&& post.result.warmup_messages == spec_sat_add(pre.result.warmup_messages, 1)
        &&& post.result.e2e_latencies@ == pre.result.e2e_latencies@
    }
}

/// The full step relation for one decoded frame: the four control events
/// and the delivery case, in the order the machine tests them.
pub open spec fn spec_frame_step(
    pre: ClientState,
    post: ClientState,
    out: FrameOutcome,
    fr: InboundFrame,
    pool: Seq<Seq<u8>>,
    now: u64,
    gate: bool,
) -> bool {
    if fr.event@ == spec_ev_ping() {
        &&& post == pre
        &&& out.reply matches Some(r) && r@ == spec_pong_control()
        &&& !out.delivered
        &&& !out.subscribed_now
    } else if fr.event@ == spec_ev_established() {
        &&& spec_same_identity(pre, post)
        &&& post.subscribe_time == Some(now)
        &&& post.update_time == pre.update_time
        &&& post.subscribed == pre.subscribed
        &&& post.is_updating == pre.is_updating
        &&& post.result == pre.result
        &&& (exists|f: FilterValue|
            filter_ok(f, pre.scenario, pool) && (out.reply matches Some(r) && r@
                == spec_subscribe_json(pre.channel@, f)))
        &&& !out.delivered
        &&& !out.subscribed_now
    } else if fr.event@ == spec_ev_sub_ok() {
        spec_sub_ok_step(pre, post, out, now, gate)
    } else if fr.event@ == spec_ev_error() {
        &&& post == pre
        &&& spec_quiet(out)
    } else if spec_is_delivery(fr, pre.channel@) && pre.subscribed {
        spec_delivery_step(pre, post, out, fr, now, gate)
    } else {
        &&& post == pre
        &&& spec_quiet(out)
    }
}

/// While the warm-up gate is unset, no step appends a sample to either
/// per-client sequence.
pub proof fn lemma_warmup_appends_nothing(
    pre: ClientState,
    post: ClientState,
    out: FrameOutcome,
    fr: InboundFrame,
    pool: Seq<Seq<u8>>,
    now: u64,
)
    requires
        spec_frame_step(pre, post, out, fr, pool, now, false),
    ensures
        post.result.e2e_latencies@ == pre.result.e2e_latencies@,
        post.result.filter_update_latencies@ == pre.result.filter_update_latencies@,
{
}

/// Past warm-up, a delivery carrying a valid in-range timestamp adds one
/// to the post-warm-up count and appends exactly one end-to-end sample —
/// short of 2^64 prior deliveries, where the saturated counter stops
/// sampling.
pub proof fn lemma_delivery_records_one_sample(
    pre: ClientState,
    post: ClientState,
    out: FrameOutcome,
    fr: InboundFrame,
    pool: Seq<Seq<u8>>,
    now: u64,
)
    requires
        spec_frame_step(pre, post, out, fr, pool, now, true),
        spec_is_delivery(fr, pre.channel@),
        pre.subscribed,
        spec_e2e_sample(fr, now) is Some,
        pre.result.messages_received < u64::MAX,
    ensures
        post.result.messages_received == pre.result.messages_received + 1,
        post.result.e2e_latencies@ == pre.result.e2e_latencies@.push(
            spec_e2e_sample(fr, now)->0,
        ),
{
}

/// A delivered message whose timestamp lies ahead of the wall clock
/// records the zero sample itself — saturation, not a wraparound that the
/// range filter would discard.
pub proof fn lemma_clock_behind_records_zero(
    pre: ClientState,
    post: ClientState,
    out: FrameOutcome,
    fr: InboundFrame,
    pool: Seq<Seq<u8>>,
    now: u64,
    ts: u64,
)
    requires
        spec_frame_step(pre, post, out, fr, pool, now, true),
        spec_is_delivery(fr, pre.channel@),
        pre.subscribed,
        spec_extract_timestamp(fr) == Some(ts),
        now < ts,
        pre.result.messages_received < u64::MAX,
    ensures
        post.result.e2e_latencies@ == pre.result.e2e_latencies@.push(0u64),
{
    lemma_e2e_saturates_to_zero(fr, now, ts);
}

impl ClientState {
    /// The machine's invariant: its result record is well-formed.
    pub open spec fn wf(self) -> bool {
        self.result.wf()
    }

    /// A freshly connected client: blank result with `connected` set,
    /// awaiting `pusher:connection_established`.
    pub fn connected(scenario: u8, channel: Vec<u8>) -> (r: ClientState)
        ensures
            r.wf(),
            r.scenario == scenario,
            r.channel@ == channel@,
            r.subscribe_time is None,
            r.update_time is None,
            !r.subscribed,
            !r.is_updating,
            r.result.spec_is_blank(true, false),
    {
        let mut result = ClientResult::empty();
        result.connected = true;
        ClientState {
            scenario,
            channel,
            subscribe_time: None,
            update_time: None,
            subscribed: false,
            is_updating: false,
            result,
        }
    }

    /// Surrender the result record on termination.
    pub fn finish(self) -> (r: ClientResult)
        ensures
            r == self.result,
    {
        self.result
    }

    /// A transport error after connect: the record carries the error.
    pub fn on_transport_error(&mut self)
        requires
            old(self).wf(),
        ensures
            final(self).wf(),
            *final(self) == (ClientState {
                result: ClientResult { connection_error: true, ..old(self).result },
                ..*old(self)
            }),
    {
        self.result.connection_error = true;
    }

    /// One decoded inbound frame.
    pub fn on_frame(
        &mut self,
        tokens: &TokenPool,
        fr: &InboundFrame,
        now_ms: u64,
        gate: bool,
    ) -> (out: FrameOutcome)
        requires
            old(self).wf(),
            tokens.wf(),
        ensures
            final(self).wf(),
            spec_frame_step(*old(self), *final(self), out, *fr, tokens@, now_ms, gate),
    {
        proof {
            reveal_strlit("pusher:ping");
            reveal_strlit("pusher:connection_established");
            reveal_strlit("pusher_internal:subscription_succeeded");
            reveal_strlit("pusher:error");
        }
        let ev_ping = ascii_bytes("pusher:ping");
        let ev_established = ascii_bytes("pusher:connection_established");
        let ev_sub_ok = ascii_bytes("pusher_internal:subscription_succeeded");
        let ev_error = ascii_bytes("pusher:error");
        if bytes_eq(&fr.event, &ev_ping) {
            FrameOutcome { reply: Some(pong_control()), delivered: false, subscribed_now: false }
        } else if bytes_eq(&fr.event, &ev_established) {
            self.subscribe_time = Some(now_ms);
            let f = build_filter(self.scenario, tokens);
            let reply = subscribe_json(&self.channel, &f);
            let ghost gf = f;
            proof {
                assert(filter_ok(gf, self.scenario, tokens@) && reply@ == spec_subscribe_json(
                    self.channel@,
                    gf,
                ));
            }
            FrameOutcome { reply: Some(reply), delivered: false, subscribed_now: false }
        } else if bytes_eq(&fr.event, &ev_sub_ok) {
            if self.is_updating {
                if gate {
                    match self.update_time {
                        Some(t) => {
                            let lat = saturating_sub_u64(now_ms, t);
                            let lat = if lat < SAMPLE_CLAMP_MS {
                                lat
                            } else {
                                SAMPLE_CLAMP_MS - 1
                            };
                            self.result.filter_update_latencies.push(lat);
                        },
                        None => {},
                    }
                }
                self.is_updating = false;
                quiet_outcome()
            } else if !self.subscribed {
                match self.subscribe_time {
                    Some(t) => {
                        let lat = saturating_sub_u64(now_ms, t);
                        let lat = if lat < SAMPLE_CLAMP_MS {
                            lat
                        } else {
                            SAMPLE_CLAMP_MS - 1
                        };
                        self.result.subscribe_latency_ms = Some(lat);
                        self.result.subscribe_success = true;
                        self.subscribed = true;
                        FrameOutcome { reply: None, delivered: false, subscribed_now: true }
                    },
                    None => quiet_outcome(),
                }
            } else {
                quiet_outcome()
            }
        } else if bytes_eq(&fr.event, &ev_error) {
            quiet_outcome()
        } else {
            let on_channel = match &fr.channel {
                Some(c) => bytes_eq(c, &self.channel),
                None => false,
            };
            if on_channel && self.subscribed {
                if gate {
                    let saturated = self.result.messages_received == u64::MAX;
                    self.result.messages_received = saturating_add_u64(
                        self.result.messages_received,
                        1,
                    );
                    match extract_timestamp(fr) {
                        Some(ts) => {
                            let lat = saturating_sub_u64(now_ms, ts);
                            if lat < SAMPLE_CLAMP_MS && !saturated {
                                self.result.e2e_latencies.push(lat);
                            }
                        },
                        None => {},
                    }
                } else {
                    self.result.warmup_messages = saturating_add_u64(
                        self.result.warmup_messages,
                        1,
                    );
                }
                FrameOutcome { reply: None, delivered: true, subscribed_now: false }
            } else {
                quiet_outcome()
            }
        }
    }

    /// One raw inbound text frame: a bare `ping` gets a bare `pong`, a
    /// frame that decodes makes a machine step, and a frame that does not
    /// decode is dropped silently.
    pub fn on_text(
        &mut self,
        tokens: &TokenPool,
        text: &Vec<u8>,
        now_ms: u64,
        gate: bool,
    ) -> (out: FrameOutcome)
        requires
            old(self).wf(),
            tokens.wf(),
        ensures
            final(self).wf(),
            text@ == spec_raw_ping() ==> *final(self) == *old(self) && (out.reply matches Some(r)
                && r@ == spec_raw_pong()) && !out.delivered && !out.subscribed_now,
            text@ != spec_raw_ping() ==> (spec_decoded(text@) matches Some(fr)
                ==> spec_frame_step(
                *old(self),
                *final(self),
                out,
                fr,
                tokens@,
                now_ms,
                gate,
            )),
            text@ != spec_raw_ping() && spec_decoded(text@) is None ==> *final(self) == *old(self)
                && spec_quiet(out),
    {
        proof {
            reveal_strlit("ping");
        }
        let ping = ascii_bytes("ping");
        if bytes_eq(text, &ping) {
            return FrameOutcome {
                reply: Some(raw_pong()),
                delivered: false,
                subscribed_now: false,
            };
        }
        match decode_frame(text) {
            Some(fr) => self.on_frame(tokens, &fr, now_ms, gate),
            None => quiet_outcome(),
        }
    }

    /// A filter-update tick: once subscribed, a fresh filter goes out on
    /// the same connection, with the in-flight flag set before the frame
    /// is handed to the transport so that a fast acknowledgment cannot
    /// race past the state update.
    pub fn on_tick(&mut self, tokens: &TokenPool, now_ms: u64) -> (reply: Option<Vec<u8>>)
        requires
            old(self).wf(),
            tokens.wf(),
        ensures
            final(self).wf(),
            old(self).subscribed ==> {
                &&& spec_same_identity(*old(self), *final(self))
                &&& final(self).subscribe_time == old(self).subscribe_time
                &&& final(self).update_time == Some(now_ms)
                &&& final(self).subscribed == old(self).subscribed
                &&& final(self).is_updating == true
                &&& final(self).result == old(self).result
                &&& (exists|f: FilterValue|
                    filter_ok(f, old(self).scenario, tokens@) && (reply matches Some(r) && r@
                        == spec_subscribe_json(old(self).channel@, f)))
            },
            !old(self).subscribed ==> *final(self) == *old(self) && reply is None,
    {
        if !self.subscribed {
            return None;
        }
        let f = build_filter(self.scenario, tokens);
        self.update_time = Some(now_ms);
        self.is_updating = true;
        let reply = subscribe_json(&self.channel, &f);
        let ghost gf = f;
        proof {
            assert(filter_ok(gf, self.scenario, tokens@) && reply@ == spec_subscribe_json(
                self.channel@,
                gf,
            ));
        }
        Some(reply)
    }
}

} // verus!
