//! Exchange coordinator: the per-request state machine that drives one
//! inbound request through translate → dispatch → reconstruct → emit.
//!
//! Translation and reconstruction are synchronous transforms, so the resting
//! states of an exchange are `Received`, `Dispatching`, and the terminal
//! states.  The outbound call itself is I/O and belongs to the embedding
//! application: it performs the dispatch under the configured timeout and
//! reports a `DispatchOutcome` back, and the coordinator decides the next
//! state for every possible outcome.  Exactly one response or one explicit
//! failure is emitted per exchange — unless the inbound peer disconnected
//! mid-dispatch, in which case the exchange is cancelled and nothing is ever
//! emitted for it.
use vstd::prelude::*;

use crate::codec::{
    DecodeWarning,
    DecodeWarningView,
    warnings_view,
    DecodedView,
    inspect_body,
    inspection_result,
};
use crate::message::{
    InboundRequest,
    InboundRequestView,
    OutboundRequestDescriptor,
    OutboundRequestView,
    UpstreamResponseDescriptor,
    UpstreamResponseView,
    OutboundResponse,
    OutboundResponseView,
};
use crate::translate::{
    TranslationError,
    ProxyConfig,
    to_outbound,
    to_outbound_spec,
    from_upstream,
    from_upstream_spec,
};

verus! {

/// Why the upstream could not be reached.
#[derive(Clone, Copy, PartialEq, Eq, Structural, Debug)]
pub enum DispatchCause {
    /// The transport could not connect or the connection broke.
    ConnectFailed,
    /// The bounded dispatch window elapsed first.
    TimedOut,
}

/// Why a dispatch produced no upstream response.
#[derive(Clone, Copy, PartialEq, Eq, Structural, Debug)]
pub enum DispatchError {
    /// Connection failure or timeout, with its cause.
    Unreachable(DispatchCause),
    /// The upstream answered with malformed response framing.
    Protocol,
}

/// What the embedding application reports back for one outbound call.
#[derive(Debug)]
pub enum DispatchOutcome {
    /// The origin answered; the body is exactly as the origin sent it.
    Response(UpstreamResponseDescriptor),
    /// No usable answer.
    Failed(DispatchError),
    /// The inbound peer disconnected mid-dispatch; the call was cancelled.
    PeerDisconnected,
}

/// Mathematical model of a `DispatchOutcome`.
pub enum DispatchOutcomeView {
    Response(UpstreamResponseView),
    Failed(DispatchError),
    PeerDisconnected,
}

impl View for DispatchOutcome {
    type V = DispatchOutcomeView;

    open spec fn view(&self) -> DispatchOutcomeView {
        match self {
            DispatchOutcome::Response(u) => DispatchOutcomeView::Response(u@),
            DispatchOutcome::Failed(e) => DispatchOutcomeView::Failed(*e),
            DispatchOutcome::PeerDisconnected => DispatchOutcomeView::PeerDisconnected,
        }
    }
}

/// The terminal failure reason of an exchange.
#[derive(Clone, Copy, PartialEq, Eq, Structural, Debug)]
pub enum FailureReason {
    Translation(TranslationError),
    Dispatch(DispatchError),
}

/// The caller-facing HTTP status emitted for a failed exchange: translation
/// trouble is the caller's fault (400), an unreachable upstream a bad
/// gateway (502), a timeout specifically 504.
pub open spec fn status_of_failure(f: FailureReason) -> u16 {
    match f {
        FailureReason::Translation(_) => 400,
        FailureReason::Dispatch(DispatchError::Unreachable(DispatchCause::TimedOut)) => 504,
        FailureReason::Dispatch(DispatchError::Unreachable(DispatchCause::ConnectFailed)) => 502,
        FailureReason::Dispatch(DispatchError::Protocol) => 502,
    }
}

/// Maps a terminal failure to the status code the caller sees.
pub fn failure_status(f: &FailureReason) -> (r: u16)
    ensures
        r == status_of_failure(*f),
{
    match f {
        FailureReason::Translation(_) => 400,
        FailureReason::Dispatch(DispatchError::Unreachable(DispatchCause::TimedOut)) => 504,
        FailureReason::Dispatch(DispatchError::Unreachable(DispatchCause::ConnectFailed)) => 502,
        FailureReason::Dispatch(DispatchError::Protocol) => 502,
    }
}

/// Law: an unreachable upstream surfaces to the caller as 502, and as 504
/// when the cause is specifically the dispatch timeout; malformed upstream
/// framing surfaces as 502.
pub proof fn lemma_unreachable_status()
    ensures
        status_of_failure(
            FailureReason::Dispatch(DispatchError::Unreachable(DispatchCause::ConnectFailed)),
        ) == 502,
        status_of_failure(
            FailureReason::Dispatch(DispatchError::Unreachable(DispatchCause::TimedOut)),
        ) == 504,
        status_of_failure(FailureReason::Dispatch(DispatchError::Protocol)) == 502,
{
}

/// A resting state of one exchange.
#[derive(Debug)]
pub enum ExchangePhase {
    /// Intaken, not yet translated.
    Received,
    /// Translated; the outbound call is (about to be) in flight.
    Dispatching(OutboundRequestDescriptor),
    /// The response was reconstructed and emitted.
    Sent(OutboundResponse),
    /// Terminal failure; an explicit status is emitted instead.
    Failed(FailureReason),
    /// The inbound peer went away mid-dispatch; nothing is ever emitted.
    Cancelled,
}

/// Mathematical model of an `ExchangePhase`.
pub enum ExchangePhaseView {
    Received,
    Dispatching(OutboundRequestView),
    Sent(OutboundResponseView),
    Failed(FailureReason),
    Cancelled,
}

impl View for ExchangePhase {
    type V = ExchangePhaseView;

    open spec fn view(&self) -> ExchangePhaseView {
        match self {
            ExchangePhase::Received => ExchangePhaseView::Received,
            ExchangePhase::Dispatching(d) => ExchangePhaseView::Dispatching(d@),
            ExchangePhase::Sent(r) => ExchangePhaseView::Sent(r@),
            ExchangePhase::Failed(f) => ExchangePhaseView::Failed(*f),
            ExchangePhase::Cancelled => ExchangePhaseView::Cancelled,
        }
    }
}

/// Whether a phase is terminal: no step leaves it.
pub open spec fn is_terminal(p: ExchangePhaseView) -> bool {
    p is Sent || p is Failed || p is Cancelled
}

/// Whether a phase emits a response to the caller.
pub open spec fn emits_response(p: ExchangePhaseView) -> bool {
    p is Sent
}

/// Whether a phase emits an explicit failure status to the caller.
pub open spec fn emits_failure(p: ExchangePhaseView) -> bool {
    p is Failed
}

/// Law: per exchange the coordinator emits exactly one response or one
/// explicit failure — never both, and never neither — with the single
/// exception of a cancelled exchange: the inbound peer disconnected
/// mid-dispatch, the in-flight call was cancelled, and nothing is ever
/// emitted for it.
pub proof fn lemma_exactly_one_emission(p: ExchangePhaseView)
    requires
        is_terminal(p),
    ensures
        !(emits_response(p) && emits_failure(p)),
        p is Cancelled ==> !emits_response(p) && !emits_failure(p),
        !(p is Cancelled) ==> emits_response(p) || emits_failure(p),
{
}

/// One exchange: an inbound request bound to its eventual outcome, with a
/// correlation identifier and timing markers.  Owned exclusively by one
/// coordinating task.
#[derive(Debug)]
pub struct Exchange {
    pub correlation_id: u64,
    pub request: InboundRequest,
    pub phase: ExchangePhase,
    pub warnings: Vec<DecodeWarning>,
    pub started_at: u64,
    pub finished_at: Option<u64>,
}

/// Mathematical model of an `Exchange`.
pub struct ExchangeView {
    pub correlation_id: u64,
    pub request: InboundRequestView,
    pub phase: ExchangePhaseView,
    pub warnings: Seq<DecodeWarningView>,
    pub started_at: u64,
    pub finished_at: Option<u64>,
}

impl View for Exchange {
    type V = ExchangeView;

    open spec fn view(&self) -> ExchangeView {
        ExchangeView {
            correlation_id: self.correlation_id,
            request: self.request@,
            phase: self.phase@,
            warnings: warnings_view(self.warnings@),
            started_at: self.started_at,
            finished_at: self.finished_at,
        }
    }
}

impl Exchange {
    /// Intakes one fully-framed inbound request.
    pub fn new(request: InboundRequest, correlation_id: u64, started_at: u64) -> (r: Exchange)
        ensures
            r@.phase == ExchangePhaseView::Received,
            r@.request == request@,
            r@.correlation_id == correlation_id,
            r@.started_at == started_at,
            r@.finished_at is None,
            r@.warnings == Seq::<DecodeWarningView>::empty(),
    {
        proof {
            assert(warnings_view(Seq::<DecodeWarning>::empty()) =~= Seq::<
                DecodeWarningView,
            >::empty());
        }
        Exchange {
            correlation_id,
            request,
            phase: ExchangePhase::Received,
            warnings: Vec::new(),
            started_at,
            finished_at: None,
        }
    }

    /// Translates the received request.  On success the exchange moves to
    /// `Dispatching` with the translated descriptor; on a translation error
    /// it fails terminally with that error.
    pub fn translate(&mut self, config: &ProxyConfig)
        requires
            old(self)@.phase is Received,
        ensures
            final(self)@.correlation_id == old(self)@.correlation_id,
            final(self)@.request == old(self)@.request,
            final(self)@.warnings == old(self)@.warnings,
            final(self)@.started_at == old(self)@.started_at,
            final(self)@.finished_at == old(self)@.finished_at,
            match to_outbound_spec(old(self)@.request, crate::codec::views_of(config.hop_headers@)) {
                Ok(d) => final(self)@.phase == ExchangePhaseView::Dispatching(d),
                Err(e) => final(self)@.phase == ExchangePhaseView::Failed(
                    FailureReason::Translation(e),
                ),
            },
    {
        match to_outbound(&self.request, config) {
            Ok(d) => {
                self.phase = ExchangePhase::Dispatching(d);
            },
            Err(e) => {
                self.phase = ExchangePhase::Failed(FailureReason::Translation(e));
            },
        }
    }

    /// Consumes the outcome of the outbound call.  An upstream response is
    /// reconstructed verbatim and the exchange is `Sent`; a dispatch error
    /// fails the exchange; a peer disconnect cancels it, and no response is
    /// ever emitted for a cancelled exchange.
    pub fn complete_dispatch(&mut self, outcome: DispatchOutcome, finished_at: u64)
        requires
            old(self)@.phase is Dispatching,
        ensures
            final(self)@.correlation_id == old(self)@.correlation_id,
            final(self)@.request == old(self)@.request,
            final(self)@.warnings == old(self)@.warnings,
            final(self)@.started_at == old(self)@.started_at,
            final(self)@.finished_at == Some(finished_at),
            match outcome@ {
                DispatchOutcomeView::Response(u) => final(self)@.phase == ExchangePhaseView::Sent(
                    from_upstream_spec(u),
                ),
                DispatchOutcomeView::Failed(e) => final(self)@.phase == ExchangePhaseView::Failed(
                    FailureReason::Dispatch(e),
                ),
                DispatchOutcomeView::PeerDisconnected => final(self)@.phase
                    == ExchangePhaseView::Cancelled,
            },
    {
        self.finished_at = Some(finished_at);
        match outcome {
            DispatchOutcome::Response(u) => {
                let resp = from_upstream(&u);
                self.phase = ExchangePhase::Sent(resp);
            },
            DispatchOutcome::Failed(e) => {
                self.phase = ExchangePhase::Failed(FailureReason::Dispatch(e));
            },
            DispatchOutcome::PeerDisconnected => {
                self.phase = ExchangePhase::Cancelled;
            },
        }
    }

    /// Produces the read-only decoded view of the sent response body for the
    /// logging sink, when inspection is enabled.  The codec works on a copy:
    /// the emitted response is untouched, and codec warnings are attached to
    /// the exchange, never escalated to a failure.
    pub fn inspect_sent_response(&mut self, config: &ProxyConfig) -> (r: Option<Vec<u8>>)
        requires
            old(self)@.phase is Sent,
        ensures
            final(self)@.correlation_id == old(self)@.correlation_id,
            final(self)@.request == old(self)@.request,
            final(self)@.phase == old(self)@.phase,
            final(self)@.started_at == old(self)@.started_at,
            final(self)@.finished_at == old(self)@.finished_at,
            !config.inspection_enabled ==> r is None && final(self)@.warnings == old(
                self,
            )@.warnings,
            config.inspection_enabled ==> match old(self)@.phase {
                ExchangePhaseView::Sent(resp) => {
                    &&& r matches Some(b) && b@ == inspection_result(resp.headers, resp.body).0
                    &&& final(self)@.warnings == old(self)@.warnings + inspection_result(
                        resp.headers,
                        resp.body,
                    ).1
                },
                _ => true,
            },
    {
        if !config.inspection_enabled {
            return None;
        }
        let view = match &self.phase {
            ExchangePhase::Sent(resp) => inspect_body(&resp.headers, &resp.body),
            _ => vstd::pervasive::unreached(),
        };
        let DecodedView { bytes, warnings } = view;
        let mut tail = warnings;
        let ghost old_ws = self.warnings@;
        let ghost new_ws = tail@;
        self.warnings.append(&mut tail);
        proof {
            assert forall|k: int| 0 <= k < old_ws.len() + new_ws.len() implies warnings_view(
                old_ws + new_ws,
            )[k] == (warnings_view(old_ws) + warnings_view(new_ws))[k] by {
                if k < old_ws.len() {
                    assert((old_ws + new_ws)[k] == old_ws[k]);
                    assert(warnings_view(old_ws)[k] == old_ws[k]@);
                } else {
                    assert((old_ws + new_ws)[k] == new_ws[k - old_ws.len()]);
                    assert(warnings_view(new_ws)[k - old_ws.len()] == new_ws[k - old_ws.len()]@);
                }
            }
            assert(warnings_view(old_ws + new_ws) =~= warnings_view(old_ws) + warnings_view(
                new_ws,
            ));
        }
        Some(bytes)
    }
}

} // verus!
