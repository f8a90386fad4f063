use vstd::prelude::*;
use crate::fingerprint::{calculate_hash, fingerprint_of};
use crate::snapshot::{get_pjsip_endpoints, parse_report, Endpoint, EndpointView, EndpointsData};
use crate::text::push_all;

verus! {

/// One line of the change message for one endpoint.
pub open spec fn endpoint_line(e: EndpointView) -> Seq<char> {
    "\n- "@ + e.endpoint + ": "@ + e.state + " ("@ + e.channels + ")"@
}

/// The change message: a header, then one line per endpoint, in order.
pub open spec fn change_message(v: Seq<EndpointView>) -> Seq<char>
    decreases v.len(),
{
    if v.len() == 0 {
        "Endpoints have changed:"@
    } else {
        change_message(v.drop_last()) + endpoint_line(v.last())
    }
}

/// Whether a report with fingerprint `fp` is to be announced, given the
/// fingerprint last announced (none before the first report).
pub open spec fn must_notify(last: Option<Seq<char>>, fp: Seq<char>) -> bool {
    match last {
        None => true,
        Some(l) => l != fp,
    }
}

/// The fingerprint of the report that `raw` holds.
pub open spec fn report_fingerprint(raw: Seq<char>) -> Seq<char> {
    fingerprint_of(parse_report(raw))
}

/// Once a report has been observed, which leaves its fingerprint as the
/// last one, observing the same raw text again announces nothing.
pub proof fn lemma_same_report_notifies_once(after: Option<Seq<char>>, raw: Seq<char>)
    requires
        after == Some(report_fingerprint(raw)),
    ensures
        !must_notify(after, report_fingerprint(raw)),
{
}

/// The first report is always announced, an empty one included.
pub proof fn lemma_first_report_notifies(raw: Seq<char>)
    ensures
        must_notify(None, report_fingerprint(raw)),
        must_notify(None, fingerprint_of(Seq::empty())),
{
}

/// The message announcing that the endpoints are now `data`.
pub fn change_message_of(data: &EndpointsData) -> (r: String)
    ensures
        r@ == change_message(data@),
{
    let mut out = String::new();
    push_all(&mut out, "Endpoints have changed:");
    assert(out@ =~= change_message(data@.take(0)));
    let mut i: usize = 0;
    while i < data.endpoints.len()
        invariant
            i <= data.endpoints@.len(),
            out@ == change_message(data@.take(i as int)),
        decreases data.endpoints@.len() - i,
    {
        let e: &Endpoint = &data.endpoints[i];
        let ghost before = out@;
        push_all(&mut out, "\n- ");
        push_all(&mut out, e.endpoint.as_str());
        push_all(&mut out, ": ");
        push_all(&mut out, e.state.as_str());
        push_all(&mut out, " (");
        push_all(&mut out, e.channels.as_str());
        push_all(&mut out, ")");
        assert(data@.take(i + 1).drop_last() =~= data@.take(i as int));
        assert(data@.take(i + 1).last() == e@);
        assert(out@ =~= before + endpoint_line(e@));
        i = i + 1;
    }
    assert(data@.take(i as int) =~= data@);
    out
}

/// The message sent once when the watch starts.
pub fn startup_message() -> (r: String)
    ensures
        r@ == "check-pjsip-started"@,
{
    String::from_str("check-pjsip-started")
}

/// The message sent when the status command could not be run, just before
/// the watch stops.
pub fn command_failure_message() -> (r: String)
    ensures
        r@ == "Failed to run the command"@,
{
    String::from_str("Failed to run the command")
}

/// What the watch loop does after a report has been compared.
#[derive(Debug)]
pub enum Decision {
    /// Send this message, then sleep.
    Notify(String),
    /// Nothing changed: sleep.
    Unchanged,
}

/// The state that the watch loop keeps from one cycle to the next.
#[derive(Debug)]
pub struct WatchState {
    pub last_fingerprint: Option<String>,
}

impl View for WatchState {
    type V = Option<Seq<char>>;

    open spec fn view(&self) -> Option<Seq<char>> {
        match self.last_fingerprint {
            Some(f) => Some(f@),
            None => None,
        }
    }
}

impl WatchState {
    /// The state before the first report: nothing announced yet.
    pub fn new() -> (r: WatchState)
        ensures
            r@ is None,
    {
        WatchState { last_fingerprint: None }
    }

    /// Compares a report, already parsed into `data` and fingerprinted as
    /// `fingerprint`, with the last one announced. A change, or a first
    /// report, gives the message to send; either way the fingerprint is
    /// recorded, so that a failed delivery is not retried on the same state.
    pub fn decide(&mut self, data: &EndpointsData, fingerprint: String) -> (r: Decision)
        ensures
            final(self)@ == Some(fingerprint@),
            must_notify(old(self)@, fingerprint@) <==> r is Notify,
            match r {
                Decision::Notify(m) => m@ == change_message(data@),
                Decision::Unchanged => true,
            },
    {
        let changed = match &self.last_fingerprint {
            None => true,
            Some(l) => *l != fingerprint,
        };
        self.last_fingerprint = Some(fingerprint);
        if changed {
            Decision::Notify(change_message_of(data))
        } else {
            Decision::Unchanged
        }
    }

    /// Runs one comparing step on the raw text of a status report: parses
    /// it, fingerprints the endpoints and decides as `decide` does.
    pub fn observe(&mut self, output: &str) -> (r: Decision)
        ensures
            final(self)@ == Some(report_fingerprint(output@)),
            must_notify(old(self)@, report_fingerprint(output@)) <==> r is Notify,
            match r {
                Decision::Notify(m) => m@ == change_message(parse_report(output@)),
                Decision::Unchanged => true,
            },
    {
        let data = get_pjsip_endpoints(output);
        let fingerprint = calculate_hash(&data);
        self.decide(&data, fingerprint)
    }
}

} // verus!
