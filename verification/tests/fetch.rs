use tiffer::deck::Card;
use tiffer::fetch::backoff_seconds;
use tiffer::fetch::parse_retry_after;
use tiffer::fetch::FetchAction;
use tiffer::fetch::FetchError;
use tiffer::fetch::FetchEvent;
use tiffer::fetch::FetchResult;
use tiffer::fetch::FetchState;
use tiffer::fetch::Retryable;
use tiffer::fetch::MAX_ATTEMPTS;

fn hydra() -> Card {
    Card { name: "Whiptongue Hydra".to_string(), scryfall_id: "abc-123".to_string() }
}

fn rate_limited(header: Option<&str>) -> FetchEvent {
    FetchEvent::Response { status: 429, retry_after: header.map(|h| h.as_bytes().to_vec()) }
}

fn answered(status: u16) -> FetchEvent {
    FetchEvent::Response { status, retry_after: None }
}

/// Runs the machine over `events` and counts the requests it asks for.
fn run(events: &[FetchEvent]) -> (FetchState, u32) {
    let card = hydra();
    let mut state = FetchState::start();
    let mut requests = 0;
    for event in events {
        assert!(state.is_well_formed());
        let (next, action) = card.download("/cache", state, event);
        if let FetchAction::Get { .. } = action {
            if next != state {
                requests += 1;
            }
        }
        state = next;
    }
    (state, requests)
}

#[test]
fn fetch_starts_by_checking_the_cache() {
    let state = FetchState::start();
    assert_eq!(state, FetchState::CheckingCache);
    assert!(!state.is_done());
    match hydra().action("/home/me/.cache/tiffer/cards", &state) {
        FetchAction::CheckCache { path } => {
            assert_eq!(path, "/home/me/.cache/tiffer/cards/abc-123.jpg")
        }
        other => panic!("unexpected action {:?}", other),
    }
}

#[test]
fn cache_hit_ends_the_fetch_without_a_request() {
    let (state, requests) = run(&[FetchEvent::CacheChecked { present: true }]);
    assert_eq!(state, FetchState::Done(FetchResult::Cached));
    assert_eq!(requests, 0);
    assert!(state.is_done());
}

#[test]
fn second_fetch_of_a_cached_image_makes_no_request() {
    let first = run(&[FetchEvent::CacheChecked { present: false }, answered(200), FetchEvent::Stored]);
    assert_eq!(first, (FetchState::Done(FetchResult::Downloaded), 1));
    let second = run(&[FetchEvent::CacheChecked { present: true }]);
    assert_eq!(second, (FetchState::Done(FetchResult::Cached), 0));
}

#[test]
fn cache_miss_asks_for_the_image() {
    let card = hydra();
    let (state, action) =
        card.download("/cache", FetchState::start(), &FetchEvent::CacheChecked { present: false });
    assert_eq!(state, FetchState::Requesting { attempt: 1 });
    match action {
        FetchAction::Get { url, user_agent, accept } => {
            assert_eq!(url, "https://api.scryfall.com/cards/abc-123/?format=image");
            assert_eq!(user_agent, "curl/7.68.0");
            assert_eq!(accept, "image/jpeg");
        }
        other => panic!("unexpected action {:?}", other),
    }
}

#[test]
fn success_is_stored_in_the_cache_file() {
    let card = hydra();
    let (state, action) =
        card.download("/cache", FetchState::Requesting { attempt: 1 }, &answered(200));
    assert_eq!(state, FetchState::Storing { attempt: 1 });
    match action {
        FetchAction::Store { path } => assert_eq!(path, "/cache/abc-123.jpg"),
        other => panic!("unexpected action {:?}", other),
    }
    let (state, action) = card.download("/cache", state, &FetchEvent::Stored);
    assert_eq!(state, FetchState::Done(FetchResult::Downloaded));
    assert!(matches!(action, FetchAction::Finish(FetchResult::Downloaded)));
}

#[test]
fn every_2xx_status_counts_as_success() {
    for status in [200u16, 204, 299] {
        let next = FetchState::Requesting { attempt: 2 }.step(&answered(status));
        assert_eq!(next, FetchState::Storing { attempt: 2 });
    }
    for status in [199u16, 300, 404, 500] {
        let next = FetchState::Requesting { attempt: 2 }.step(&answered(status));
        assert_eq!(
            next,
            FetchState::Done(FetchResult::Failed(FetchError::PermanentHttp { status, attempts: 2 }))
        );
    }
}

#[test]
fn failed_write_fails_the_fetch() {
    let next = FetchState::Storing { attempt: 3 }.step(&FetchEvent::StoreFailed);
    assert_eq!(
        next,
        FetchState::Done(FetchResult::Failed(FetchError::WriteFailed { attempts: 3 }))
    );
}

#[test]
fn always_rate_limited_fails_after_exactly_five_attempts() {
    let mut events = vec![FetchEvent::CacheChecked { present: false }];
    for _ in 0..MAX_ATTEMPTS {
        events.push(rate_limited(None));
        events.push(FetchEvent::Woke);
    }
    let (state, requests) = run(&events);
    assert_eq!(requests, 5);
    assert_eq!(
        state,
        FetchState::Done(FetchResult::Failed(FetchError::RetriesExhausted {
            attempts: 5,
            last: Retryable::RateLimited
        }))
    );
    // Nothing reported afterwards makes it ask again.
    events.push(rate_limited(None));
    events.push(FetchEvent::Woke);
    events.push(FetchEvent::CacheChecked { present: false });
    assert_eq!(run(&events), (state, 5));
}

#[test]
fn rate_limit_without_header_backs_off_exponentially() {
    let mut state = FetchState::Requesting { attempt: 1 };
    let mut waits = Vec::new();
    for _ in 0..5 {
        state = state.step(&rate_limited(None));
        match state {
            FetchState::Waiting { seconds, cause, .. } => {
                assert_eq!(cause, Retryable::RateLimited);
                waits.push(seconds);
            }
            other => panic!("unexpected state {:?}", other),
        }
        state = state.step(&FetchEvent::Woke);
    }
    assert_eq!(waits, vec![2, 4, 8, 16, 32]);
}

#[test]
fn rate_limit_waits_as_long_as_the_server_says() {
    let card = hydra();
    let (state, action) =
        card.download("/cache", FetchState::Requesting { attempt: 3 }, &rate_limited(Some("120")));
    assert_eq!(
        state,
        FetchState::Waiting { attempt: 3, seconds: 120, cause: Retryable::RateLimited }
    );
    assert!(matches!(action, FetchAction::Sleep { seconds: 120 }));
    let (state, action) = card.download("/cache", state, &FetchEvent::Woke);
    assert_eq!(state, FetchState::Requesting { attempt: 4 });
    assert!(matches!(action, FetchAction::Get { .. }));
}

#[test]
fn unreadable_retry_after_falls_back_to_backoff() {
    for header in ["", "soon", "Wed, 21 Oct 2015 07:28:00 GMT", "1.5", "-3", " 7"] {
        let next = FetchState::Requesting { attempt: 2 }.step(&rate_limited(Some(header)));
        assert_eq!(
            next,
            FetchState::Waiting { attempt: 2, seconds: 4, cause: Retryable::RateLimited }
        );
    }
}

#[test]
fn transport_error_backs_off_while_attempts_remain() {
    let mut state = FetchState::Requesting { attempt: 1 };
    for (attempt, seconds) in [(1u32, 2u64), (2, 4), (3, 8), (4, 16)] {
        state = state.step(&FetchEvent::TransportError);
        assert_eq!(state, FetchState::Waiting { attempt, seconds, cause: Retryable::Transport });
        state = state.step(&FetchEvent::Woke);
        assert_eq!(state, FetchState::Requesting { attempt: attempt + 1 });
    }
}

#[test]
fn transport_error_on_the_last_attempt_fails_without_waiting() {
    let next = FetchState::Requesting { attempt: 5 }.step(&FetchEvent::TransportError);
    assert_eq!(
        next,
        FetchState::Done(FetchResult::Failed(FetchError::RetriesExhausted {
            attempts: 5,
            last: Retryable::Transport
        }))
    );
}

#[test]
fn other_status_is_not_retried() {
    let (state, requests) = run(&[FetchEvent::CacheChecked { present: false }, answered(404)]);
    assert_eq!(requests, 1);
    assert_eq!(
        state,
        FetchState::Done(FetchResult::Failed(FetchError::PermanentHttp { status: 404, attempts: 1 }))
    );
}

#[test]
fn success_after_retries_downloads() {
    let (state, requests) = run(&[
        FetchEvent::CacheChecked { present: false },
        FetchEvent::TransportError,
        FetchEvent::Woke,
        rate_limited(Some("3")),
        FetchEvent::Woke,
        answered(200),
        FetchEvent::Stored,
    ]);
    assert_eq!(state, FetchState::Done(FetchResult::Downloaded));
    assert_eq!(requests, 3);
}

#[test]
fn event_out_of_turn_fails_the_fetch() {
    let out_of_order = FetchState::Done(FetchResult::Failed(FetchError::OutOfOrder));
    assert_eq!(FetchState::CheckingCache.step(&FetchEvent::Woke), out_of_order);
    assert_eq!(FetchState::CheckingCache.step(&answered(200)), out_of_order);
    assert_eq!(FetchState::Requesting { attempt: 1 }.step(&FetchEvent::Stored), out_of_order);
    assert_eq!(FetchState::Storing { attempt: 1 }.step(&answered(200)), out_of_order);
    let waiting = FetchState::Waiting { attempt: 1, seconds: 2, cause: Retryable::Transport };
    assert_eq!(waiting.step(&FetchEvent::TransportError), out_of_order);
}

#[test]
fn finished_fetch_stays_finished() {
    let done = FetchState::Done(FetchResult::Downloaded);
    assert_eq!(done.step(&FetchEvent::Woke), done);
    assert_eq!(done.step(&FetchEvent::CacheChecked { present: false }), done);
    assert_eq!(done.step(&answered(500)), done);
}

#[test]
fn eleven_events_end_any_fetch() {
    let mut state = FetchState::start();
    let mut taken = 0;
    state = state.step(&FetchEvent::CacheChecked { present: false });
    taken += 1;
    while !state.is_done() {
        let event = match state {
            FetchState::Requesting { .. } => rate_limited(Some("1")),
            _ => FetchEvent::Woke,
        };
        state = state.step(&event);
        taken += 1;
    }
    assert_eq!(taken, 11);
}

#[test]
fn well_formed_states_count_attempts_from_one_to_five() {
    assert!(FetchState::CheckingCache.is_well_formed());
    assert!(FetchState::Requesting { attempt: 1 }.is_well_formed());
    assert!(FetchState::Requesting { attempt: 5 }.is_well_formed());
    assert!(!FetchState::Requesting { attempt: 0 }.is_well_formed());
    assert!(!FetchState::Storing { attempt: 6 }.is_well_formed());
    assert!(!FetchState::Waiting { attempt: 9, seconds: 1, cause: Retryable::Transport }
        .is_well_formed());
    assert!(FetchState::Done(FetchResult::Cached).is_well_formed());
}

#[test]
fn backoff_doubles_with_every_attempt() {
    assert_eq!(backoff_seconds(0), 1);
    assert_eq!(backoff_seconds(1), 2);
    assert_eq!(backoff_seconds(5), 32);
    assert_eq!(backoff_seconds(10), 1024);
    assert_eq!(backoff_seconds(63), 1u64 << 63);
}

#[test]
fn retry_after_reads_whole_seconds() {
    assert_eq!(parse_retry_after(b"0"), Some(0));
    assert_eq!(parse_retry_after(b"7"), Some(7));
    assert_eq!(parse_retry_after(b"120"), Some(120));
    assert_eq!(parse_retry_after(b"007"), Some(7));
    assert_eq!(parse_retry_after(b"+15"), Some(15));
    assert_eq!(parse_retry_after(b"18446744073709551615"), Some(u64::MAX));
}

#[test]
fn retry_after_refuses_what_is_no_number() {
    assert_eq!(parse_retry_after(b""), None);
    assert_eq!(parse_retry_after(b"+"), None);
    assert_eq!(parse_retry_after(b"++1"), None);
    assert_eq!(parse_retry_after(b"-1"), None);
    assert_eq!(parse_retry_after(b"1 "), None);
    assert_eq!(parse_retry_after(b"12a"), None);
    assert_eq!(parse_retry_after(b"1+2"), None);
    assert_eq!(parse_retry_after(b"/"), None);
    assert_eq!(parse_retry_after(b":"), None);
    assert_eq!(parse_retry_after(b"18446744073709551616"), None);
    assert_eq!(parse_retry_after(b"99999999999999999999999"), None);
    assert_eq!(parse_retry_after(b"18446744073709551616x"), None);
}

#[test]
fn retry_after_agrees_with_the_standard_parser() {
    for text in ["0", "42", "+42", "", "+", "4 2", "18446744073709551615", "18446744073709551616"] {
        assert_eq!(parse_retry_after(text.as_bytes()), text.parse::<u64>().ok());
    }
}
