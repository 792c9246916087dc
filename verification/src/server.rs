//! Starting the gateway: waiting for the upstream server, and where to listen.

use http::HeaderMap;
use vstd::prelude::*;
use vstd::utf8::encode_utf8;

use crate::config::{law_base_is_slashless_prefix, normalized};
use crate::error::Error;
use crate::headers::{
    header_fields, is_header_value, lemma_plain_name, no_headers, read_header_text, set_header, Fields,
};
use crate::proxy::{bearer_credentials, carried, credentials, key_of, request_fields, ClientSettings, Direction};
use crate::text::{
    decimal, decimal_of, is_white_space, law_trimming_takes_all_white_space, law_trimming_takes_the_whole_run, trim_end,
    trim_end_of,
};

verus! {

/// The request by which the gateway asks whether the upstream server is ready.
#[derive(Debug)]
pub struct HealthProbe {
    pub client: ClientSettings,
    pub url: String,
    pub headers: HeaderMap,
}

/// The URL at which an upstream server says whether it is ready.
pub open spec fn health_url(base: Seq<char>) -> Seq<char> {
    trim_end(base, '/') + "/health"@
}

/// The client for health probes.
pub open spec fn probe_settings() -> ClientSettings {
    ClientSettings {
        connect_timeout_s: None,
        read_timeout_s: None,
        timeout_s: Some(2),
        pool_max_idle_per_host: None,
        follow_redirects: true,
    }
}

/// The fields of a health probe that presents these credentials.
pub open spec fn probe_fields(text: Option<Seq<char>>) -> Fields {
    match text {
        Some(t) => Fields::empty().insert("authorization"@, seq![encode_utf8(t)]),
        None => Fields::empty(),
    }
}

/// The credentials can be sent in a header.
pub open spec fn sendable(text: Option<Seq<char>>) -> bool {
    text matches Some(t) ==> is_header_value(encode_utf8(t))
}

/// The health probe for an upstream server and the key to present there.
pub fn health_probe(base: &str, key: &Option<String>) -> (r: Result<HealthProbe, Error>)
    ensures
        r is Ok <==> sendable(credentials(key_of(*key))),
        r matches Ok(probe) ==> {
            &&& probe.client == probe_settings()
            &&& probe.url@ == health_url(base@)
            &&& header_fields(probe.headers) == probe_fields(credentials(key_of(*key)))
        },
        r matches Err(error) ==> error is InvalidHeaderValue,
{
    let mut url = trim_end_of(base, '/').to_owned();
    url.append("/health");
    let mut headers = no_headers();
    if let Some(text) = bearer_credentials(key) {
        match read_header_text(text.as_str()) {
            Ok(value) => {
                proof {
                    reveal_strlit("authorization");
                    lemma_plain_name("authorization"@);
                }
                let set = set_header(&mut headers, "authorization", value.as_slice());
                assert(set is Ok);
            },
            Err(_) => {
                return Err(Error::InvalidHeaderValue);
            },
        }
    }
    let client = ClientSettings {
        connect_timeout_s: None,
        read_timeout_s: None,
        timeout_s: Some(2),
        pool_max_idle_per_host: None,
        follow_redirects: true,
    };
    Ok(HealthProbe { client, url, headers })
}

/// The time for the upstream server to become ready is over.
pub open spec fn overdue(timeout_ns: int, elapsed_ns: int) -> bool {
    elapsed_ns > timeout_ns
}

/// It is time to say again that the gateway is waiting.
pub open spec fn notice_due(interval_ns: int, last_notice_ns: int, elapsed_ns: int) -> bool {
    interval_ns <= 0 || elapsed_ns - last_notice_ns >= interval_ns
}

/// The answer to a health probe: its status, or none if there was no answer.
pub open spec fn healthy(status: Option<u16>) -> bool {
    status == Some(200u16)
}

/// A probe: how long after the start it was sent, how long after the start its
/// outcome was known, and how it was answered.
pub struct Probe {
    pub sent_ns: int,
    pub answered_ns: int,
    pub status: Option<u16>,
}

/// The probe with these times, answered in this way.
pub open spec fn probe(sent_ns: u128, answered_ns: u128, status: Option<u16>) -> Probe {
    Probe { sent_ns: sent_ns as int, answered_ns: answered_ns as int, status }
}

/// How a wait turned out.
pub enum Verdict {
    Waiting,
    Ready,
    TimedOut,
}

/// The probe is answered as healthy while there is time.
pub open spec fn healthy_in_time(timeout_ns: int, probe: Probe) -> bool {
    healthy(probe.status) && !overdue(timeout_ns, probe.answered_ns)
}

/// The probe shows that the time is over: it is due to be sent only then, or it
/// is answered as healthy only then.
pub open spec fn too_late(timeout_ns: int, probe: Probe) -> bool {
    overdue(timeout_ns, probe.sent_ns) || healthy(probe.status) && overdue(
        timeout_ns,
        probe.answered_ns,
    )
}

/// How a wait turns out that would make these probes, in order: none is sent when
/// the time is over, nor after one that was answered as healthy.
pub open spec fn verdict(timeout_ns: int, probes: Seq<Probe>) -> Verdict
    decreases probes.len(),
{
    if probes.len() == 0 {
        Verdict::Waiting
    } else if too_late(timeout_ns, probes[0]) {
        Verdict::TimedOut
    } else if healthy(probes[0].status) {
        Verdict::Ready
    } else {
        verdict(timeout_ns, probes.drop_first())
    }
}

/// The times at which the gateway says that it is waiting, over the probes that
/// such a wait makes.
pub open spec fn notices(
    timeout_ns: int,
    interval_ns: int,
    last_notice_ns: int,
    probes: Seq<Probe>,
) -> Seq<int>
    decreases probes.len(),
{
    if probes.len() == 0 || overdue(timeout_ns, probes[0].sent_ns) || healthy(probes[0].status) {
        Seq::empty()
    } else if notice_due(interval_ns, last_notice_ns, probes[0].sent_ns) {
        seq![probes[0].sent_ns] + notices(
            timeout_ns,
            interval_ns,
            probes[0].sent_ns,
            probes.drop_first(),
        )
    } else {
        notices(timeout_ns, interval_ns, last_notice_ns, probes.drop_first())
    }
}

/// Waiting for the upstream server. Times are in nanoseconds, counted from the
/// start of the wait.
#[derive(Debug)]
pub struct Readiness {
    pub url: String,
    pub timeout_ns: u128,
    pub interval_ns: u128,
    pub last_notice_ns: u128,
}

/// What follows a health probe.
#[derive(Debug, Clone, Copy, PartialEq, Eq, Structural)]
pub enum AfterProbe {
    /// The upstream server is ready.
    Ready,
    /// Wait for so long, then look again; first say for how many seconds the
    /// gateway has been waiting, if that is given.
    Wait { sleep_ns: u128, notice_s: Option<u128> },
}

/// A probe that was made, with its times in nanoseconds from the start.
#[derive(Debug, Clone, Copy, PartialEq, Eq, Structural)]
pub struct ProbeRecord {
    pub sent_ns: u128,
    pub answered_ns: u128,
    pub status: Option<u16>,
}

impl View for ProbeRecord {
    type V = Probe;

    open spec fn view(&self) -> Probe {
        probe(self.sent_ns, self.answered_ns, self.status)
    }
}

/// The probes of a record.
pub open spec fn recorded(records: Seq<ProbeRecord>) -> Seq<Probe> {
    Seq::new(records.len(), |i: int| records[i]@)
}

/// Times as plain numbers.
pub open spec fn times(ns: Seq<u128>) -> Seq<int> {
    Seq::new(ns.len(), |i: int| ns[i] as int)
}

/// How a recorded wait went.
#[derive(Debug)]
pub struct Replay {
    /// Whether the upstream server was ready; the error, if it was not in time.
    pub outcome: Result<bool, Error>,
    /// When the gateway said that it was waiting.
    pub notices_ns: Vec<u128>,
}

impl Readiness {
    /// A wait that begins now.
    pub fn new(url: String, timeout_ns: u128, interval_ns: u128) -> (r: Readiness)
        ensures
            r == (Readiness { url, timeout_ns, interval_ns, last_notice_ns: 0 }),
    {
        Readiness { url, timeout_ns, interval_ns, last_notice_ns: 0 }
    }

    /// Decides, before a probe, whether there is still time for one.
    pub fn before_probe(&self, elapsed_ns: u128) -> (r: Result<(), Error>)
        ensures
            r is Err <==> overdue(self.timeout_ns as int, elapsed_ns as int),
            r is Err <==> elapsed_ns > self.timeout_ns,
            r matches Err(error) ==> (error matches Error::UpstreamTimeout { url, timeout_ns }
                && url@ == self.url@ && timeout_ns == self.timeout_ns),
            // A wait whose next probe would be sent now ends here, without a notice.
            r is Err ==> forall|probes: Seq<Probe>|
                probes.len() > 0 && probes[0].sent_ns == elapsed_ns ==> #[trigger] verdict(
                    self.timeout_ns as int,
                    probes,
                ) is TimedOut,
            r is Err ==> forall|probes: Seq<Probe>|
                probes.len() > 0 && probes[0].sent_ns == elapsed_ns ==> #[trigger] notices(
                    self.timeout_ns as int,
                    self.interval_ns as int,
                    self.last_notice_ns as int,
                    probes,
                ) == Seq::<int>::empty(),
    {
        if elapsed_ns > self.timeout_ns {
            Err(Error::UpstreamTimeout { url: self.url.clone(), timeout_ns: self.timeout_ns })
        } else {
            Ok(())
        }
    }

    /// Decides what follows a probe that was sent `sent_ns` after the start and
    /// whose outcome was known `answered_ns` after it. An answer that comes when
    /// the time is over does not make the server ready.
    pub fn after_probe(&mut self, sent_ns: u128, answered_ns: u128, status: Option<u16>) -> (r:
        Result<AfterProbe, Error>)
        ensures
            r is Err <==> healthy(status) && overdue(
                old(self).timeout_ns as int,
                answered_ns as int,
            ),
            r is Err <==> status == Some(200u16) && answered_ns > old(self).timeout_ns,
            status == Some(200u16) && answered_ns <= old(self).timeout_ns ==> r == Ok::<
                AfterProbe,
                Error,
            >(AfterProbe::Ready),
            status != Some(200u16) ==> (r matches Ok(AfterProbe::Wait { sleep_ns, notice_s })
                && sleep_ns == old(self).interval_ns && (if old(self).interval_ns == 0 || sent_ns
                - old(self).last_notice_ns >= old(self).interval_ns {
                notice_s == Some((sent_ns / 1_000_000_000u128) as u128)
                    && final(self).last_notice_ns == sent_ns
            } else {
                notice_s is None && final(self).last_notice_ns == old(self).last_notice_ns
            })),
            r matches Err(error) ==> (error matches Error::UpstreamTimeout { url, timeout_ns }
                && url@ == old(self).url@ && timeout_ns == old(self).timeout_ns),
            ({
                let waiting = !healthy(status);
                let due = waiting && notice_due(
                    old(self).interval_ns as int,
                    old(self).last_notice_ns as int,
                    sent_ns as int,
                );
                &&& r matches Ok(next) ==> next == (if waiting {
                    AfterProbe::Wait {
                        sleep_ns: old(self).interval_ns,
                        notice_s: if due {
                            Some((sent_ns / 1_000_000_000u128) as u128)
                        } else {
                            None
                        },
                    }
                } else {
                    AfterProbe::Ready
                })
                &&& final(self).last_notice_ns == (if due {
                    sent_ns
                } else {
                    old(self).last_notice_ns
                })
                &&& final(self).url == old(self).url
                &&& final(self).timeout_ns == old(self).timeout_ns
                &&& final(self).interval_ns == old(self).interval_ns
            }),
            // A wait that made this probe in time and goes on with others turns out
            // as this says, or else as the others say.
            !overdue(old(self).timeout_ns as int, sent_ns as int) ==> forall|rest: Seq<Probe>|
                #[trigger]
                verdict(
                    old(self).timeout_ns as int,
                    seq![probe(sent_ns, answered_ns, status)] + rest,
                ) == (match r {
                    Err(_) => Verdict::TimedOut,
                    Ok(AfterProbe::Ready) => Verdict::Ready,
                    Ok(AfterProbe::Wait { .. }) => verdict(final(self).timeout_ns as int, rest),
                }),
            // Its notices are the one given here, if any, and those still to come.
            !overdue(old(self).timeout_ns as int, sent_ns as int) ==> forall|rest: Seq<Probe>|
                #[trigger]
                notices(
                    old(self).timeout_ns as int,
                    old(self).interval_ns as int,
                    old(self).last_notice_ns as int,
                    seq![probe(sent_ns, answered_ns, status)] + rest,
                ) == (match r {
                    Ok(AfterProbe::Wait { notice_s, .. }) => (if notice_s is Some {
                        seq![sent_ns as int]
                    } else {
                        Seq::empty()
                    }) + notices(
                        final(self).timeout_ns as int,
                        final(self).interval_ns as int,
                        final(self).last_notice_ns as int,
                        rest,
                    ),
                    _ => Seq::empty(),
                }),
    {
        proof {
            assert forall|rest: Seq<Probe>| (#[trigger] (seq![
                probe(sent_ns, answered_ns, status),
            ] + rest)).drop_first() == rest by {
                assert((seq![probe(sent_ns, answered_ns, status)] + rest).drop_first() =~= rest);
            }
        }
        if let Some(code) = status {
            if code == 200 {
                if answered_ns > self.timeout_ns {
                    return Err(
                        Error::UpstreamTimeout {
                            url: self.url.clone(),
                            timeout_ns: self.timeout_ns,
                        },
                    );
                }
                return Ok(AfterProbe::Ready);
            }
        }
        let since: u128 = if sent_ns > self.last_notice_ns {
            sent_ns - self.last_notice_ns
        } else {
            0
        };
        if since >= self.interval_ns {
            self.last_notice_ns = sent_ns;
            Ok(
                AfterProbe::Wait {
                    sleep_ns: self.interval_ns,
                    notice_s: Some(sent_ns / 1_000_000_000),
                },
            )
        } else {
            Ok(AfterProbe::Wait { sleep_ns: self.interval_ns, notice_s: None })
        }
    }

    /// Goes through a recorded wait: decides before and after each probe, and
    /// stops where the wait ends.
    pub fn replay(&mut self, records: &Vec<ProbeRecord>) -> (r: Replay)
        ensures
            r.outcome is Err <==> verdict(
                old(self).timeout_ns as int,
                recorded(records@),
            ) is TimedOut,
            r.outcome matches Err(error) ==> (error matches Error::UpstreamTimeout {
                url,
                timeout_ns,
            } && url@ == old(self).url@ && timeout_ns == old(self).timeout_ns),
            r.outcome matches Ok(ready) ==> (ready <==> verdict(
                old(self).timeout_ns as int,
                recorded(records@),
            ) is Ready),
            times(r.notices_ns@) == notices(
                old(self).timeout_ns as int,
                old(self).interval_ns as int,
                old(self).last_notice_ns as int,
                recorded(records@),
            ),
            final(self).url == old(self).url,
            final(self).timeout_ns == old(self).timeout_ns,
            final(self).interval_ns == old(self).interval_ns,
            final(self).last_notice_ns == (if r.notices_ns@.len() > 0 {
                r.notices_ns@.last()
            } else {
                old(self).last_notice_ns
            }),
    {
        let ghost probes = recorded(records@);
        let ghost timeout = self.timeout_ns as int;
        let ghost interval = self.interval_ns as int;
        let mut given: Vec<u128> = Vec::new();
        let mut i: usize = 0;
        assert(probes.skip(0) =~= probes);
        assert(notices(timeout, interval, self.last_notice_ns as int, probes) =~= times(given@)
            + notices(timeout, interval, self.last_notice_ns as int, probes.skip(0)));
        while i < records.len()
            invariant
                i <= records.len(),
                probes == recorded(records@),
                timeout == old(self).timeout_ns,
                interval == old(self).interval_ns,
                self.url == old(self).url,
                self.timeout_ns == old(self).timeout_ns,
                self.interval_ns == old(self).interval_ns,
                self.last_notice_ns == (if given@.len() > 0 {
                    given@.last()
                } else {
                    old(self).last_notice_ns
                }),
                verdict(timeout, probes) == verdict(timeout, probes.skip(i as int)),
                notices(timeout, interval, old(self).last_notice_ns as int, probes) == times(given@)
                    + notices(
                    timeout,
                    interval,
                    self.last_notice_ns as int,
                    probes.skip(i as int),
                ),
            decreases records.len() - i,
        {
            let record = records[i];
            let ghost rest = probes.skip(i + 1);
            assert(probes.skip(i as int) =~= seq![record@] + rest);
            if let Err(error) = self.before_probe(record.sent_ns) {
                assert(times(given@) + Seq::<int>::empty() =~= times(given@));
                return Replay { outcome: Err(error), notices_ns: given };
            }
            match self.after_probe(record.sent_ns, record.answered_ns, record.status) {
                Err(error) => {
                    assert(times(given@) + Seq::<int>::empty() =~= times(given@));
                    return Replay { outcome: Err(error), notices_ns: given };
                },
                Ok(AfterProbe::Ready) => {
                    assert(times(given@) + Seq::<int>::empty() =~= times(given@));
                    return Replay { outcome: Ok(true), notices_ns: given };
                },
                Ok(AfterProbe::Wait { notice_s, .. }) => {
                    let ghost before = times(given@);
                    if notice_s.is_some() {
                        given.push(record.sent_ns);
                        assert(times(given@) =~= before + seq![record.sent_ns as int]);
                    }
                    let ghost later = notices(timeout, interval, self.last_notice_ns as int, rest);
                    assert(before + ((if notice_s is Some {
                        seq![record.sent_ns as int]
                    } else {
                        Seq::empty()
                    }) + later) =~= times(given@) + later);
                },
            }
            i = i + 1;
        }
        assert(times(given@) + Seq::<int>::empty() =~= times(given@));
        Replay { outcome: Ok(false), notices_ns: given }
    }
}

/// The address on which the gateway listens.
pub fn listen_address(host: &str, port: u16) -> (r: String)
    ensures
        r@ == host@ + ":"@ + decimal(port as nat),
{
    let mut address = host.to_owned();
    address.append(":");
    address.append(decimal_of(port).as_str());
    address
}

/// Time does not run backwards, and a probe is sent once the outcome of the one
/// before it is known.
pub open spec fn in_order(probes: Seq<Probe>) -> bool {
    &&& forall|i: int|
        0 <= i < probes.len() ==> (#[trigger] probes[i]).sent_ns <= probes[i].answered_ns
    &&& forall|i: int, j: int|
        0 <= i < j < probes.len() ==> (#[trigger] probes[i]).answered_ns <= (
        #[trigger] probes[j]).sent_ns
}

proof fn lemma_rest_in_order(probes: Seq<Probe>)
    requires
        in_order(probes),
        probes.len() > 0,
    ensures
        in_order(probes.drop_first()),
{
    let rest = probes.drop_first();
    assert forall|i: int| 0 <= i < rest.len() implies (#[trigger] rest[i]).sent_ns
        <= rest[i].answered_ns by {
        assert(rest[i] == probes[i + 1]);
    }
    assert forall|i: int, j: int| 0 <= i < j < rest.len() implies (#[trigger] rest[i]).answered_ns
        <= (#[trigger] rest[j]).sent_ns by {
        assert(rest[i] == probes[i + 1] && rest[j] == probes[j + 1]);
    }
}

/// The upstream server counts as ready if and only if a probe is answered as
/// healthy while there is time; without one, the wait ends with the first probe
/// that comes too late.
pub proof fn law_ready_iff_healthy_in_time(timeout_ns: int, probes: Seq<Probe>)
    requires
        in_order(probes),
    ensures
        verdict(timeout_ns, probes) is Ready <==> exists|i: int|
            0 <= i < probes.len() && healthy_in_time(timeout_ns, #[trigger] probes[i]),
        verdict(timeout_ns, probes) is TimedOut <==> (exists|i: int|
            0 <= i < probes.len() && too_late(timeout_ns, #[trigger] probes[i])) && forall|i: int|
            0 <= i < probes.len() ==> !healthy_in_time(timeout_ns, #[trigger] probes[i]),
    decreases probes.len(),
{
    if probes.len() > 0 {
        let rest = probes.drop_first();
        lemma_rest_in_order(probes);
        law_ready_iff_healthy_in_time(timeout_ns, rest);
        assert forall|i: int| 0 < i < probes.len() implies #[trigger] probes[i] == rest[i - 1] by {}
        assert forall|i: int| 0 <= i < rest.len() implies #[trigger] rest[i] == probes[i + 1] by {}
        assert forall|i: int| 0 <= i < probes.len() implies probes[0].sent_ns <= (
        #[trigger] probes[i]).answered_ns by {
            if i > 0 {
                assert(probes[0].answered_ns <= probes[i].sent_ns);
            }
        }
    }
}

/// Between two notices, and before the first, at least the interval passes. An
/// interval of nothing needs a clock that does not run backwards.
pub proof fn law_notices_keep_the_interval(
    timeout_ns: int,
    interval_ns: int,
    last_notice_ns: int,
    probes: Seq<Probe>,
)
    requires
        interval_ns > 0 || interval_ns == 0 && in_order(probes) && (probes.len() > 0
            ==> last_notice_ns <= probes[0].sent_ns),
    ensures
        ({
            let times = notices(timeout_ns, interval_ns, last_notice_ns, probes);
            &&& times.len() > 0 ==> times[0] - last_notice_ns >= interval_ns
            &&& forall|i: int|
                0 < i < times.len() ==> #[trigger] times[i] - times[i - 1] >= interval_ns
        }),
    decreases probes.len(),
{
    if probes.len() > 0 && !overdue(timeout_ns, probes[0].sent_ns) && !healthy(
        probes[0].status,
    ) {
        let rest = probes.drop_first();
        if in_order(probes) {
            lemma_rest_in_order(probes);
            if rest.len() > 0 {
                assert(rest[0] == probes[1]);
                assert(probes[0].answered_ns <= probes[1].sent_ns);
            }
        }
        if notice_due(interval_ns, last_notice_ns, probes[0].sent_ns) {
            law_notices_keep_the_interval(timeout_ns, interval_ns, probes[0].sent_ns, rest);
            let later = notices(timeout_ns, interval_ns, probes[0].sent_ns, rest);
            let times = notices(timeout_ns, interval_ns, last_notice_ns, probes);
            assert(times =~= seq![probes[0].sent_ns] + later);
            assert forall|i: int| 0 < i < times.len() implies #[trigger] times[i] - times[i - 1]
                >= interval_ns by {
                assert(times[i] == later[i - 1]);
                if i > 1 {
                    assert(times[i - 1] == later[i - 2]);
                }
            }
        } else {
            law_notices_keep_the_interval(timeout_ns, interval_ns, last_notice_ns, rest);
        }
    }
}

/// The gateway presents the same credentials when it asks for the server's
/// health as when it passes on a request that has none.
pub proof fn law_probe_presents_the_same_credentials(fields: Fields, key: Option<Seq<char>>)
    requires
        !carried(fields, Direction::ToUpstream).contains_key("authorization"@),
        sendable(credentials(key)),
    ensures
        request_fields(fields, key).contains_key("authorization"@) == probe_fields(
            credentials(key),
        ).contains_key("authorization"@),
        request_fields(fields, key).contains_key("authorization"@) ==> request_fields(
            fields,
            key,
        )["authorization"@] == probe_fields(credentials(key))["authorization"@],
{
}

/// Health is asked for under the same base URL as requests are made.
pub proof fn law_health_under_base(url: Seq<char>)
    ensures
        health_url(normalized(url)) == normalized(url) + "/health"@,
{
    law_base_is_slashless_prefix(url);
}

/// One probe, and any that would follow it. Due to be sent after the timeout, it
/// ends the wait; answered with 200 up to the timeout, it makes the server ready,
/// and later not any more; answered in any other way, or not at all, it leaves
/// the outcome to the probes that follow.
pub proof fn law_one_probe_decides_by_its_times(timeout_ns: int, first: Probe, rest: Seq<Probe>)
    ensures
        first.sent_ns > timeout_ns ==> verdict(timeout_ns, seq![first] + rest) is TimedOut,
        first.sent_ns <= timeout_ns && first.status == Some(200u16) && first.answered_ns
            <= timeout_ns ==> verdict(timeout_ns, seq![first] + rest) is Ready,
        first.sent_ns <= timeout_ns && first.status == Some(200u16) && first.answered_ns
            > timeout_ns ==> verdict(timeout_ns, seq![first] + rest) is TimedOut,
        first.sent_ns <= timeout_ns && first.status != Some(200u16) ==> verdict(
            timeout_ns,
            seq![first] + rest,
        ) == verdict(timeout_ns, rest),
        verdict(timeout_ns, Seq::empty()) is Waiting,
{
    assert((seq![first] + rest).drop_first() =~= rest);
}

/// Of probes that are made one after the other, the server counts as ready if and
/// only if one is answered with 200 at the timeout or before it. Otherwise the
/// wait goes on as long as every probe is sent at the timeout or before it, and
/// none is answered with 200.
pub proof fn law_ready_up_to_the_timeout(timeout_ns: int, probes: Seq<Probe>)
    requires
        forall|i: int|
            0 <= i < probes.len() ==> (#[trigger] probes[i]).sent_ns <= probes[i].answered_ns,
        forall|i: int, j: int|
            0 <= i < j < probes.len() ==> (#[trigger] probes[i]).answered_ns <= (
            #[trigger] probes[j]).sent_ns,
    ensures
        verdict(timeout_ns, probes) is Ready <==> exists|i: int|
            0 <= i < probes.len() && (#[trigger] probes[i]).status == Some(200u16)
                && probes[i].answered_ns <= timeout_ns,
        verdict(timeout_ns, probes) is Waiting <==> forall|i: int|
            0 <= i < probes.len() ==> (#[trigger] probes[i]).sent_ns <= timeout_ns
                && probes[i].status != Some(200u16),
    decreases probes.len(),
{
    if probes.len() > 0 {
        let rest = probes.drop_first();
        assert(in_order(probes));
        lemma_rest_in_order(probes);
        law_ready_up_to_the_timeout(timeout_ns, rest);
        assert forall|i: int| 0 < i < probes.len() implies #[trigger] probes[i] == rest[i - 1] by {}
        assert forall|i: int| 0 <= i < rest.len() implies #[trigger] rest[i] == probes[i + 1] by {}
        assert forall|i: int| 0 <= i < probes.len() implies probes[0].sent_ns <= (
        #[trigger] probes[i]).answered_ns by {
            if i > 0 {
                assert(probes[0].answered_ns <= probes[i].sent_ns);
            }
        }
    }
}

/// Moving the start of the clock changes no verdict and moves the notices along:
/// only the distances between times count.
pub proof fn law_only_distances_in_time_count(
    timeout_ns: int,
    interval_ns: int,
    last_notice_ns: int,
    probes: Seq<Probe>,
    by_ns: int,
)
    ensures
        ({
            let moved = Seq::new(
                probes.len(),
                |i: int|
                    Probe {
                        sent_ns: probes[i].sent_ns + by_ns,
                        answered_ns: probes[i].answered_ns + by_ns,
                        status: probes[i].status,
                    },
            );
            let given = notices(timeout_ns, interval_ns, last_notice_ns, probes);
            &&& verdict(timeout_ns + by_ns, moved) == verdict(timeout_ns, probes)
            &&& notices(timeout_ns + by_ns, interval_ns, last_notice_ns + by_ns, moved) == Seq::new(
                given.len(),
                |i: int| given[i] + by_ns,
            )
        }),
    decreases probes.len(),
{
    let moved = Seq::new(
        probes.len(),
        |i: int|
            Probe {
                sent_ns: probes[i].sent_ns + by_ns,
                answered_ns: probes[i].answered_ns + by_ns,
                status: probes[i].status,
            },
    );
    let given = notices(timeout_ns, interval_ns, last_notice_ns, probes);
    let later = notices(timeout_ns + by_ns, interval_ns, last_notice_ns + by_ns, moved);
    if probes.len() > 0 {
        let rest = probes.drop_first();
        let moved_rest = Seq::new(
            rest.len(),
            |i: int|
                Probe {
                    sent_ns: rest[i].sent_ns + by_ns,
                    answered_ns: rest[i].answered_ns + by_ns,
                    status: rest[i].status,
                },
        );
        assert(moved.drop_first() =~= moved_rest);
        law_only_distances_in_time_count(timeout_ns, interval_ns, last_notice_ns, rest, by_ns);
        law_only_distances_in_time_count(
            timeout_ns,
            interval_ns,
            probes[0].sent_ns,
            rest,
            by_ns,
        );
    }
    assert(later =~= Seq::new(given.len(), |i: int| given[i] + by_ns));
}

/// A probe that leaves the gateway waiting is followed by a notice if and only if
/// at least the interval has passed since the last one, and the time of that
/// notice is that of the probe. A probe that ends the wait is followed by none.
pub proof fn law_a_notice_for_every_interval(
    timeout_ns: int,
    interval_ns: int,
    last_notice_ns: int,
    first: Probe,
    rest: Seq<Probe>,
)
    requires
        interval_ns >= 0,
        last_notice_ns <= first.sent_ns,
    ensures
        first.sent_ns <= timeout_ns && first.status != Some(200u16) && first.sent_ns
            >= last_notice_ns + interval_ns ==> notices(
            timeout_ns,
            interval_ns,
            last_notice_ns,
            seq![first] + rest,
        ) == seq![first.sent_ns] + notices(timeout_ns, interval_ns, first.sent_ns, rest),
        first.sent_ns <= timeout_ns && first.status != Some(200u16) && first.sent_ns
            < last_notice_ns + interval_ns ==> notices(
            timeout_ns,
            interval_ns,
            last_notice_ns,
            seq![first] + rest,
        ) == notices(timeout_ns, interval_ns, last_notice_ns, rest),
        first.sent_ns > timeout_ns || first.status == Some(200u16) ==> notices(
            timeout_ns,
            interval_ns,
            last_notice_ns,
            seq![first] + rest,
        ).len() == 0,
        notices(timeout_ns, interval_ns, last_notice_ns, Seq::empty()).len() == 0,
{
    assert((seq![first] + rest).drop_first() =~= rest);
}

/// A record says what its probes are, one for one, and times stay what they are.
pub proof fn law_records_are_taken_as_they_stand(records: Seq<ProbeRecord>, ns: Seq<u128>)
    ensures
        recorded(records).len() == records.len(),
        forall|i: int|
            0 <= i < records.len() ==> (#[trigger] recorded(records)[i]).sent_ns
                == records[i].sent_ns && recorded(records)[i].answered_ns == records[i].answered_ns
                && recorded(records)[i].status == records[i].status,
        times(ns).len() == ns.len(),
        forall|i: int| 0 <= i < ns.len() ==> #[trigger] times(ns)[i] == ns[i],
{
}

/// Health is asked for at `/health` directly behind the base URL, whatever number
/// of slashes that ends in.
pub proof fn law_health_behind_any_base(base: Seq<char>, slashes: Seq<char>)
    requires
        base.len() > 0 ==> base[base.len() - 1] != '/',
        forall|i: int| 0 <= i < slashes.len() ==> slashes[i] == '/',
    ensures
        health_url(base + slashes) == base + seq!['/', 'h', 'e', 'a', 'l', 't', 'h'],
{
    reveal_strlit("/health");
    law_trimming_takes_the_whole_run(base, slashes, '/');
    assert("/health"@ =~= seq!['/', 'h', 'e', 'a', 'l', 't', 'h']);
}

/// A health probe presents the key without the white space around it, in the one
/// header `authorization`; without a key, or with one of white space alone, it has
/// no headers. It fails only over a key that no header can hold, gives up after
/// two seconds, and follows redirects.
pub proof fn law_probe_presents_the_key(
    before: Seq<char>,
    key: Seq<char>,
    after: Seq<char>,
    name: Seq<char>,
)
    requires
        forall|i: int| 0 <= i < before.len() ==> is_white_space(#[trigger] before[i]),
        forall|i: int| 0 <= i < after.len() ==> is_white_space(#[trigger] after[i]),
        key.len() > 0 ==> !is_white_space(key[0]) && !is_white_space(key[key.len() - 1]),
    ensures
        ({
            let text = credentials(Some(before + key + after));
            let bytes = encode_utf8("Bearer "@ + key);
            &&& probe_fields(text).contains_key(name) <==> key.len() > 0 && name
                == "authorization"@
            &&& key.len() > 0 ==> probe_fields(text)["authorization"@] == seq![bytes]
            &&& sendable(text) <==> key.len() == 0 || forall|i: int|
                0 <= i < bytes.len() ==> #[trigger] bytes[i] == 9 || bytes[i] >= 32 && bytes[i]
                    != 127
        }),
        !probe_fields(credentials(None)).contains_key(name),
        sendable(credentials(None)),
        probe_settings().timeout_s == Some(2u64),
        probe_settings().connect_timeout_s is None,
        probe_settings().read_timeout_s is None,
        probe_settings().pool_max_idle_per_host is None,
        probe_settings().follow_redirects,
{
    law_trimming_takes_all_white_space(before, key, after);
}

} // verus!
