use agentic_api::error::Error;
use agentic_api::server::{health_probe, listen_address, AfterProbe, ProbeRecord, Readiness};

const SECOND: u128 = 1_000_000_000;

#[test]
fn health_is_probed_with_the_key() {
    let probe = health_probe("http://h:1/", &Some(" k ".to_owned())).unwrap();
    assert_eq!(probe.url, "http://h:1/health");
    assert_eq!(probe.client.timeout_s, Some(2));
    assert_eq!(probe.client.connect_timeout_s, None);
    assert!(probe.client.follow_redirects);
    assert_eq!(probe.headers.len(), 1);
    assert_eq!(probe.headers.get("authorization").unwrap(), "Bearer k");
}

#[test]
fn health_is_probed_without_a_key() {
    for key in [None, Some("  ".to_owned())] {
        let probe = health_probe("http://h:1", &key).unwrap();
        assert_eq!(probe.url, "http://h:1/health");
        assert!(probe.headers.is_empty());
    }
}

#[test]
fn an_unsendable_key_is_an_error() {
    let refused = health_probe("http://h:1", &Some("two\nlines".to_owned()));
    assert!(matches!(refused, Err(Error::InvalidHeaderValue)));
}

#[test]
fn waiting_ends_after_the_timeout() {
    let wait = Readiness::new("http://h/health".to_owned(), 5 * SECOND, SECOND);
    assert!(wait.before_probe(0).is_ok());
    assert!(wait.before_probe(5 * SECOND).is_ok());
    match wait.before_probe(5 * SECOND + 1) {
        Err(Error::UpstreamTimeout { url, timeout_ns }) => {
            assert_eq!(url, "http://h/health");
            assert_eq!(timeout_ns, 5 * SECOND);
        }
        other => panic!("{other:?}"),
    }
}

#[test]
fn only_ok_is_ready() {
    let mut wait = Readiness::new("u".to_owned(), 5 * SECOND, SECOND);
    for status in [None, Some(201), Some(204), Some(503)] {
        let expected = AfterProbe::Wait {
            sleep_ns: SECOND,
            notice_s: None,
        };
        assert_eq!(wait.after_probe(0, 1, status).unwrap(), expected);
    }
    assert_eq!(wait.after_probe(7, 8, Some(200)).unwrap(), AfterProbe::Ready);
    assert_eq!(wait.last_notice_ns, 0);
}

#[test]
fn an_answer_after_the_timeout_is_too_late() {
    let mut wait = Readiness::new("http://h/health".to_owned(), 5 * SECOND, SECOND);
    assert!(wait.before_probe(5 * SECOND).is_ok());
    assert_eq!(wait.after_probe(4 * SECOND, 5 * SECOND, Some(200)).unwrap(), AfterProbe::Ready);
    for sent in [4 * SECOND, 5 * SECOND] {
        match wait.after_probe(sent, 5 * SECOND + 1, Some(200)) {
            Err(Error::UpstreamTimeout { url, timeout_ns }) => {
                assert_eq!(url, "http://h/health");
                assert_eq!(timeout_ns, 5 * SECOND);
            }
            other => panic!("{other:?}"),
        }
    }
    assert_eq!(wait.last_notice_ns, 0);
    let next = wait.after_probe(5 * SECOND, 7 * SECOND, Some(503)).unwrap();
    let expected = AfterProbe::Wait {
        sleep_ns: SECOND,
        notice_s: Some(5),
    };
    assert_eq!(next, expected);
}

#[test]
fn notices_keep_their_distance() {
    let mut wait = Readiness::new("u".to_owned(), 100 * SECOND, 2 * SECOND);
    let mut noticed = Vec::new();
    for elapsed in [0, SECOND, 2 * SECOND, 3 * SECOND, 4 * SECOND + 5, 6 * SECOND, 6 * SECOND + 5] {
        if let Ok(AfterProbe::Wait {
            notice_s: Some(secs), ..
        }) = wait.after_probe(elapsed, elapsed + 9, None)
        {
            noticed.push((elapsed, secs));
        }
    }
    assert_eq!(noticed, vec![(2 * SECOND, 2), (4 * SECOND + 5, 4), (6 * SECOND + 5, 6)]);
    assert_eq!(wait.last_notice_ns, 6 * SECOND + 5);
}

#[test]
fn a_wait_ends_with_the_first_healthy_probe_in_time() {
    for (timeout, ready_at, expected) in [(5, 3, Some(3)), (5, 5, Some(5)), (5, 6, None)] {
        let mut wait = Readiness::new("u".to_owned(), timeout, 1);
        let mut elapsed = 0;
        let mut ready = None;
        while ready.is_none() && wait.before_probe(elapsed).is_ok() {
            let status = if elapsed >= ready_at { Some(200) } else { Some(503) };
            if wait.after_probe(elapsed, elapsed, status).unwrap() == AfterProbe::Ready {
                ready = Some(elapsed);
            }
            elapsed += 1;
        }
        assert_eq!(ready, expected);
    }
}

fn record(sent_s: u128, answered_s: u128, status: Option<u16>) -> ProbeRecord {
    ProbeRecord {
        sent_ns: sent_s * SECOND,
        answered_ns: answered_s * SECOND,
        status,
    }
}

#[test]
fn a_recorded_wait_becomes_ready() {
    let mut wait = Readiness::new("u".to_owned(), 10 * SECOND, 2 * SECOND);
    let records = vec![
        record(0, 0, None),
        record(2, 3, Some(503)),
        record(3, 3, None),
        record(5, 6, Some(404)),
        record(8, 10, Some(200)),
        record(20, 20, None),
    ];
    let replay = wait.replay(&records);
    assert!(matches!(replay.outcome, Ok(true)));
    assert_eq!(replay.notices_ns, vec![2 * SECOND, 5 * SECOND]);
    assert_eq!(wait.last_notice_ns, 5 * SECOND);
}

#[test]
fn a_recorded_wait_times_out_or_goes_on() {
    let late_probe = vec![record(1, 1, None), record(11, 11, Some(200))];
    let late_answer = vec![record(1, 1, None), record(9, 11, Some(200)), record(11, 11, None)];
    for records in [late_probe, late_answer] {
        let replay = Readiness::new("u".to_owned(), 10 * SECOND, SECOND).replay(&records);
        assert!(matches!(replay.outcome, Err(Error::UpstreamTimeout { .. })));
        assert_eq!(replay.notices_ns, vec![SECOND]);
    }
    let replay = Readiness::new("u".to_owned(), 10 * SECOND, SECOND).replay(&vec![record(9, 11, None)]);
    assert!(matches!(replay.outcome, Ok(false)));
    let replay = Readiness::new("u".to_owned(), 10 * SECOND, SECOND).replay(&Vec::new());
    assert!(matches!(replay.outcome, Ok(false)));
    assert!(replay.notices_ns.is_empty());
}

#[test]
fn without_an_interval_every_probe_is_noticed() {
    let mut wait = Readiness::new("u".to_owned(), SECOND, 0);
    let expected = AfterProbe::Wait {
        sleep_ns: 0,
        notice_s: Some(0),
    };
    assert_eq!(wait.after_probe(0, 0, None).unwrap(), expected);
    assert_eq!(wait.after_probe(5, 6, Some(500)).unwrap(), expected);
    assert_eq!(wait.after_probe(3, 3, None).unwrap(), expected);
}

#[test]
fn addresses_join_host_and_port() {
    assert_eq!(listen_address("127.0.0.1", 0), "127.0.0.1:0");
    assert_eq!(listen_address("0.0.0.0", 65535), "0.0.0.0:65535");
}
