//! Fetching one image: what to do next, given what has happened so far.
//!
//! A fetch is a small machine. Its state names the one operation that is under
//! way; the caller performs that operation and reports what came of it as an
//! event; [`FetchState::step`] answers with the next state. The machine checks
//! the cache first and touches the network only on a miss, asks at most
//! [`MAX_ATTEMPTS`] times, and waits between attempts.

use vstd::prelude::*;
use vstd::arithmetic::power2::pow2;
use vstd::arithmetic::power2::lemma_pow2_unfold;
use vstd::arithmetic::power2::lemma_pow2_strictly_increases;
use vstd::arithmetic::power2::lemma2_to64;
use vstd::arithmetic::power2::lemma2_to64_rest;
use crate::deck::Card;
use crate::deck::cache_path_of;
use crate::deck::image_url_of;

verus! {

/// How often one image is asked for before the fetch gives up.
pub const MAX_ATTEMPTS: u32 = 5;

/// The status that tells the client to slow down.
pub const TOO_MANY_REQUESTS: u16 = 429;

/// Why an attempt may be repeated.
#[derive(Debug, Clone, Copy, PartialEq, Eq, Structural)]
pub enum Retryable {
    /// The server answered [`TOO_MANY_REQUESTS`].
    RateLimited,
    /// No answer arrived.
    Transport,
}

/// Why a fetch failed. `attempts` counts the requests made.
#[derive(Debug, Clone, Copy, PartialEq, Eq, Structural)]
pub enum FetchError {
    /// The server refused for good.
    PermanentHttp { status: u16, attempts: u32 },
    /// Every allowed attempt ended in something retryable; `last` is what the
    /// final one ended in.
    RetriesExhausted { attempts: u32, last: Retryable },
    /// The image arrived but could not be written to the cache.
    WriteFailed { attempts: u32 },
    /// An event was reported that does not answer the operation under way.
    OutOfOrder,
}

/// How a fetch ended.
#[derive(Debug, Clone, Copy, PartialEq, Eq, Structural)]
pub enum FetchResult {
    /// The image was in the cache already; the network was not used.
    Cached,
    /// The image was fetched and written to the cache.
    Downloaded,
    Failed(FetchError),
}

/// The operation under way.
#[derive(Debug, Clone, Copy, PartialEq, Eq, Structural)]
pub enum FetchState {
    /// Looking for the image in the cache.
    CheckingCache,
    /// The `attempt`-th request is out.
    Requesting { attempt: u32 },
    /// The answer to the `attempt`-th request is being written to the cache.
    Storing { attempt: u32 },
    /// Waiting `seconds` after the `attempt`-th request ended in `cause`.
    Waiting { attempt: u32, seconds: u64, cause: Retryable },
    Done(FetchResult),
}

/// What came of the operation under way.
#[derive(Debug, Clone)]
pub enum FetchEvent {
    /// The cache was looked at; `present` tells whether the file is there.
    CacheChecked { present: bool },
    /// The server answered, with the `Retry-After` header if it sent one.
    Response { status: u16, retry_after: Option<Vec<u8>> },
    /// The request got no answer.
    TransportError,
    /// The body was written to the cache file.
    Stored,
    /// Writing the body failed.
    StoreFailed,
    /// The wait is over.
    Woke,
}

/// What the caller is to do for a state.
#[derive(Debug, Clone)]
pub enum FetchAction {
    /// Report whether the file at `path` exists.
    CheckCache { path: String },
    /// Request `url`, with `user_agent` as the `User-Agent` header and `accept`
    /// as the `Accept` header. The server may refuse a request without them.
    Get { url: String, user_agent: String, accept: String },
    /// Write the body just received to a fresh file at `path`.
    Store { path: String },
    /// Wait for `seconds`.
    Sleep { seconds: u64 },
    /// Nothing more: the fetch ended with this result.
    Finish(FetchResult),
}

/// The name under which images are asked for.
pub open spec fn user_agent() -> Seq<char> {
    "curl/7.68.0"@
}

/// The kind of content that is asked for.
pub open spec fn accepted_content() -> Seq<char> {
    "image/jpeg"@
}

/// Whether `status` reports success.
pub open spec fn is_success(status: u16) -> bool {
    200 <= status < 300
}

/// Whether `b` is an ASCII digit.
pub open spec fn is_digit(b: u8) -> bool {
    0x30 <= b <= 0x39
}

/// What the digit `b` counts for; 0 for anything else.
pub open spec fn digit_value(b: u8) -> nat {
    if is_digit(b) {
        (b - 0x30) as nat
    } else {
        0
    }
}

/// The number that `digits` write in base ten.
pub open spec fn decimal_value(digits: Seq<u8>) -> nat
    decreases digits.len(),
{
    if digits.len() == 0 {
        0
    } else {
        decimal_value(digits.drop_last()) * 10 + digit_value(digits.last())
    }
}

/// The digits of a `Retry-After` value: what follows one leading plus sign,
/// if there is one.
pub open spec fn retry_after_digits(header: Seq<u8>) -> Seq<u8> {
    if header.len() > 0 && header[0] == 0x2b {
        header.skip(1)
    } else {
        header
    }
}

/// The seconds that a `Retry-After` value asks for: `Some` exactly where the
/// value is one or more ASCII digits, after at most one plus sign, and the
/// number fits in 64 bits.
pub open spec fn retry_after_seconds(header: Seq<u8>) -> Option<u64> {
    let digits = retry_after_digits(header);
    if digits.len() > 0 && (forall|i: int| 0 <= i < digits.len() ==> is_digit(#[trigger] digits[i]))
        && decimal_value(digits) <= u64::MAX {
        Some(decimal_value(digits) as u64)
    } else {
        None
    }
}

/// The seconds to wait after the `attempt`-th request where the server names
/// no delay: 2, 4, 8, ...
pub open spec fn backoff_of(attempt: u32) -> nat {
    pow2(attempt as nat)
}

/// The seconds to wait after the `attempt`-th request was answered with
/// [`TOO_MANY_REQUESTS`]: what the header asks for where it is there and
/// numeric, the usual backoff otherwise.
pub open spec fn rate_limit_delay(attempt: u32, retry_after: Option<Vec<u8>>) -> nat {
    match retry_after {
        Some(header) => match retry_after_seconds(header@) {
            Some(seconds) => seconds as nat,
            None => backoff_of(attempt),
        },
        None => backoff_of(attempt),
    }
}

impl FetchState {
    /// The attempt counter lies between 1 and [`MAX_ATTEMPTS`].
    pub open spec fn wf(self) -> bool {
        match self {
            FetchState::CheckingCache => true,
            FetchState::Requesting { attempt } => 1 <= attempt <= MAX_ATTEMPTS,
            FetchState::Storing { attempt } => 1 <= attempt <= MAX_ATTEMPTS,
            FetchState::Waiting { attempt, .. } => 1 <= attempt <= MAX_ATTEMPTS,
            FetchState::Done(_) => true,
        }
    }

    /// How many requests the machine may still send.
    pub open spec fn requests_left(self) -> nat {
        match self {
            FetchState::CheckingCache => MAX_ATTEMPTS as nat,
            FetchState::Requesting { attempt } => (MAX_ATTEMPTS - attempt) as nat,
            FetchState::Storing { attempt } => (MAX_ATTEMPTS - attempt) as nat,
            FetchState::Waiting { attempt, .. } => (MAX_ATTEMPTS - attempt) as nat,
            FetchState::Done(_) => 0,
        }
    }

    /// An upper bound on the events that the machine still takes before it is
    /// done.
    pub open spec fn steps_left(self) -> nat {
        match self {
            FetchState::CheckingCache => 11,
            FetchState::Requesting { attempt } => (2 * (6 - attempt)) as nat,
            FetchState::Storing { .. } => 1,
            FetchState::Waiting { attempt, .. } => (2 * (6 - attempt) - 1) as nat,
            FetchState::Done(_) => 0,
        }
    }

    /// The state that follows `self` when `event` is reported.
    ///
    /// A cache hit ends the fetch at once. A successful answer is stored; an
    /// answer of [`TOO_MANY_REQUESTS`] or a missing answer is waited out and
    /// the request repeated while attempts remain; any other answer ends the
    /// fetch. A finished fetch stays finished, and an event that does not
    /// answer the operation under way ends the fetch with
    /// [`FetchError::OutOfOrder`].
    pub open spec fn next(self, event: FetchEvent) -> FetchState {
        match (self, event) {
            (FetchState::Done(result), _) => FetchState::Done(result),
            (FetchState::CheckingCache, FetchEvent::CacheChecked { present }) => if present {
                FetchState::Done(FetchResult::Cached)
            } else {
                FetchState::Requesting { attempt: 1 }
            },
            (FetchState::Requesting { attempt }, FetchEvent::Response { status, retry_after }) => {
                if is_success(status) {
                    FetchState::Storing { attempt }
                } else if status == TOO_MANY_REQUESTS {
                    FetchState::Waiting {
                        attempt,
                        seconds: rate_limit_delay(attempt, retry_after) as u64,
                        cause: Retryable::RateLimited,
                    }
                } else {
                    FetchState::Done(
                        FetchResult::Failed(FetchError::PermanentHttp { status, attempts: attempt }),
                    )
                }
            },
            (FetchState::Requesting { attempt }, FetchEvent::TransportError) => {
                if attempt < MAX_ATTEMPTS {
                    FetchState::Waiting {
                        attempt,
                        seconds: backoff_of(attempt) as u64,
                        cause: Retryable::Transport,
                    }
                } else {
                    FetchState::Done(
                        FetchResult::Failed(
                            FetchError::RetriesExhausted {
                                attempts: attempt,
                                last: Retryable::Transport,
                            },
                        ),
                    )
                }
            },
            (FetchState::Storing { .. }, FetchEvent::Stored) => FetchState::Done(
                FetchResult::Downloaded,
            ),
            (FetchState::Storing { attempt }, FetchEvent::StoreFailed) => FetchState::Done(
                FetchResult::Failed(FetchError::WriteFailed { attempts: attempt }),
            ),
            (FetchState::Waiting { attempt, cause, .. }, FetchEvent::Woke) => {
                if attempt < MAX_ATTEMPTS {
                    FetchState::Requesting { attempt: (attempt + 1) as u32 }
                } else {
                    FetchState::Done(
                        FetchResult::Failed(
                            FetchError::RetriesExhausted { attempts: attempt, last: cause },
                        ),
                    )
                }
            },
            _ => FetchState::Done(FetchResult::Failed(FetchError::OutOfOrder)),
        }
    }

    /// The state that `events`, reported one after the other, lead to.
    pub open spec fn run(self, events: Seq<FetchEvent>) -> FetchState
        decreases events.len(),
    {
        if events.len() == 0 {
            self
        } else {
            self.next(events[0]).run(events.skip(1))
        }
    }

    /// How many requests go out while `events` are reported one after the
    /// other.
    pub open spec fn requests(self, events: Seq<FetchEvent>) -> nat
        decreases events.len(),
    {
        if events.len() == 0 {
            0
        } else {
            let after = self.next(events[0]);
            let sent: nat = if after is Requesting {
                1
            } else {
                0
            };
            sent + after.requests(events.skip(1))
        }
    }

    /// The state in which every fetch begins.
    pub fn start() -> (state: FetchState)
        ensures
            state == FetchState::CheckingCache,
            state.wf(),
    {
        FetchState::CheckingCache
    }

    /// Whether the fetch has ended.
    pub fn is_done(&self) -> (done: bool)
        ensures
            done == (*self is Done),
    {
        match self {
            FetchState::Done(_) => true,
            _ => false,
        }
    }

    /// Whether the attempt counter is in range.
    pub fn is_well_formed(&self) -> (ok: bool)
        ensures
            ok == self.wf(),
    {
        match self {
            FetchState::CheckingCache => true,
            FetchState::Requesting { attempt } => 1 <= *attempt && *attempt <= MAX_ATTEMPTS,
            FetchState::Storing { attempt } => 1 <= *attempt && *attempt <= MAX_ATTEMPTS,
            FetchState::Waiting { attempt, .. } => 1 <= *attempt && *attempt <= MAX_ATTEMPTS,
            FetchState::Done(_) => true,
        }
    }

    /// Takes `event` in.
    ///
    /// The result is [`next`](FetchState::next) of the two; unless the fetch
    /// was over already, it is closer to its end than `self` was.
    pub fn step(self, event: &FetchEvent) -> (after: FetchState)
        requires
            self.wf(),
        ensures
            after == self.next(*event),
            after.wf(),
            !(self is Done) ==> after.steps_left() < self.steps_left(),
    {
        match self {
            FetchState::Done(result) => FetchState::Done(result),
            FetchState::CheckingCache => match event {
                FetchEvent::CacheChecked { present } => if *present {
                    FetchState::Done(FetchResult::Cached)
                } else {
                    FetchState::Requesting { attempt: 1 }
                },
                _ => FetchState::Done(FetchResult::Failed(FetchError::OutOfOrder)),
            },
            FetchState::Requesting { attempt } => match event {
                FetchEvent::Response { status, retry_after } => {
                    if 200 <= *status && *status < 300 {
                        FetchState::Storing { attempt }
                    } else if *status == TOO_MANY_REQUESTS {
                        let named = match retry_after {
                            Some(header) => parse_retry_after(header.as_slice()),
                            None => None,
                        };
                        let seconds = match named {
                            Some(seconds) => seconds,
                            None => backoff_seconds(attempt),
                        };
                        FetchState::Waiting { attempt, seconds, cause: Retryable::RateLimited }
                    } else {
                        FetchState::Done(
                            FetchResult::Failed(
                                FetchError::PermanentHttp { status: *status, attempts: attempt },
                            ),
                        )
                    }
                },
                FetchEvent::TransportError => {
                    if attempt < MAX_ATTEMPTS {
                        FetchState::Waiting {
                            attempt,
                            seconds: backoff_seconds(attempt),
                            cause: Retryable::Transport,
                        }
                    } else {
                        FetchState::Done(
                            FetchResult::Failed(
                                FetchError::RetriesExhausted {
                                    attempts: attempt,
                                    last: Retryable::Transport,
                                },
                            ),
                        )
                    }
                },
                _ => FetchState::Done(FetchResult::Failed(FetchError::OutOfOrder)),
            },
            FetchState::Storing { attempt } => match event {
                FetchEvent::Stored => FetchState::Done(FetchResult::Downloaded),
                FetchEvent::StoreFailed => FetchState::Done(
                    FetchResult::Failed(FetchError::WriteFailed { attempts: attempt }),
                ),
                _ => FetchState::Done(FetchResult::Failed(FetchError::OutOfOrder)),
            },
            FetchState::Waiting { attempt, seconds: _, cause } => match event {
                FetchEvent::Woke => {
                    if attempt < MAX_ATTEMPTS {
                        FetchState::Requesting { attempt: attempt + 1 }
                    } else {
                        FetchState::Done(
                            FetchResult::Failed(
                                FetchError::RetriesExhausted { attempts: attempt, last: cause },
                            ),
                        )
                    }
                },
                _ => FetchState::Done(FetchResult::Failed(FetchError::OutOfOrder)),
            },
        }
    }
}

/// The events of a fetch that finds nothing in the cache and is then told to
/// slow down every time it asks, once for each of `headers`: each answer
/// carries one of them as its `Retry-After` value, and each wait is sat out.
pub open spec fn rate_limited_events(headers: Seq<Option<Vec<u8>>>) -> Seq<FetchEvent> {
    seq![FetchEvent::CacheChecked { present: false }] + rate_limited_rounds(headers)
}

/// One answer of [`TOO_MANY_REQUESTS`] and one wait for each of `headers`.
pub open spec fn rate_limited_rounds(headers: Seq<Option<Vec<u8>>>) -> Seq<FetchEvent>
    decreases headers.len(),
{
    if headers.len() == 0 {
        Seq::empty()
    } else {
        seq![
            FetchEvent::Response { status: TOO_MANY_REQUESTS, retry_after: headers[0] },
            FetchEvent::Woke,
        ] + rate_limited_rounds(headers.skip(1))
    }
}

/// A finished fetch stays as it is and sends nothing, whatever is reported.
pub proof fn lemma_done_is_final(result: FetchResult, events: Seq<FetchEvent>)
    ensures
        FetchState::Done(result).run(events) == FetchState::Done(result),
        FetchState::Done(result).requests(events) == 0,
    decreases events.len(),
{
    if events.len() > 0 {
        lemma_done_is_final(result, events.skip(1));
    }
}

/// A fetch whose image is in the cache ends as [`FetchResult::Cached`] without
/// a single request, whatever is reported afterwards.
pub proof fn lemma_cache_hit_sends_nothing(events: Seq<FetchEvent>)
    requires
        events.len() > 0,
        events[0] == (FetchEvent::CacheChecked { present: true }),
    ensures
        FetchState::CheckingCache.run(events) == FetchState::Done(FetchResult::Cached),
        FetchState::CheckingCache.requests(events) == 0,
{
    lemma_done_is_final(FetchResult::Cached, events.skip(1));
}

/// Whatever is reported, the machine sends no more requests than its state
/// has left.
pub proof fn lemma_requests_bounded(state: FetchState, events: Seq<FetchEvent>)
    requires
        state.wf(),
    ensures
        state.run(events).wf(),
        state.requests(events) <= state.requests_left(),
    decreases events.len(),
{
    if events.len() > 0 {
        lemma_requests_bounded(state.next(events[0]), events.skip(1));
    }
}

/// Whatever is reported, one fetch sends at most [`MAX_ATTEMPTS`] requests.
pub proof fn lemma_at_most_five_requests(events: Seq<FetchEvent>)
    ensures
        FetchState::CheckingCache.requests(events) <= MAX_ATTEMPTS,
{
    lemma_requests_bounded(FetchState::CheckingCache, events);
}

/// A machine that is fed as many events as its state has steps left is done.
pub proof fn lemma_run_ends(state: FetchState, events: Seq<FetchEvent>)
    requires
        state.wf(),
        events.len() >= state.steps_left(),
    ensures
        state.run(events) is Done,
    decreases events.len(),
{
    if events.len() > 0 {
        match state {
            FetchState::Done(result) => {
                lemma_done_is_final(result, events);
            },
            _ => {
                lemma_run_ends(state.next(events[0]), events.skip(1));
            },
        }
    }
}

/// From the `attempt`-th request on, a server that answers
/// [`TOO_MANY_REQUESTS`] to this and every later request is asked until the
/// attempts are used up, and no further.
proof fn lemma_rate_limited_rounds(attempt: u32, headers: Seq<Option<Vec<u8>>>)
    requires
        1 <= attempt <= MAX_ATTEMPTS,
        headers.len() == MAX_ATTEMPTS - attempt + 1,
    ensures
        (FetchState::Requesting { attempt }).run(rate_limited_rounds(headers)) == FetchState::Done(
            FetchResult::Failed(
                FetchError::RetriesExhausted {
                    attempts: MAX_ATTEMPTS,
                    last: Retryable::RateLimited,
                },
            ),
        ),
        (FetchState::Requesting { attempt }).requests(rate_limited_rounds(headers))
            == MAX_ATTEMPTS - attempt,
    decreases headers.len(),
{
    let state = FetchState::Requesting { attempt };
    let events = rate_limited_rounds(headers);
    let rest = rate_limited_rounds(headers.skip(1));
    let first = FetchEvent::Response { status: TOO_MANY_REQUESTS, retry_after: headers[0] };
    assert(events == seq![first, FetchEvent::Woke] + rest);
    assert(events.len() >= 2);
    assert(events[0] == first);
    let waiting = state.next(first);
    let tail = events.skip(1);
    assert(tail[0] == FetchEvent::Woke);
    assert(tail.skip(1) =~= rest);
    let woken = waiting.next(FetchEvent::Woke);
    assert(state.run(events) == waiting.run(tail));
    assert(waiting.run(tail) == woken.run(rest));
    assert(state.requests(events) == waiting.requests(tail));
    assert(waiting.requests(tail) == (if woken is Requesting {
        1nat
    } else {
        0nat
    }) + woken.requests(rest));
    if attempt < MAX_ATTEMPTS {
        lemma_rate_limited_rounds((attempt + 1) as u32, headers.skip(1));
    } else {
        assert(rest =~= Seq::<FetchEvent>::empty());
    }
}

/// A fetch that misses the cache and is told to slow down every time it asks
/// gives up after exactly [`MAX_ATTEMPTS`] requests, whatever delays the
/// server names.
pub proof fn lemma_rate_limited_to_the_end(headers: Seq<Option<Vec<u8>>>)
    requires
        headers.len() == MAX_ATTEMPTS,
    ensures
        FetchState::CheckingCache.run(rate_limited_events(headers)) == FetchState::Done(
            FetchResult::Failed(
                FetchError::RetriesExhausted {
                    attempts: MAX_ATTEMPTS,
                    last: Retryable::RateLimited,
                },
            ),
        ),
        FetchState::CheckingCache.requests(rate_limited_events(headers)) == MAX_ATTEMPTS,
{
    let events = rate_limited_events(headers);
    assert(events.skip(1) =~= rate_limited_rounds(headers));
    lemma_rate_limited_rounds(1, headers);
}

/// The seconds to wait after the `attempt`-th request where the server names
/// no delay.
pub fn backoff_seconds(attempt: u32) -> (seconds: u64)
    requires
        attempt < 64,
    ensures
        seconds == backoff_of(attempt),
{
    let mut seconds: u64 = 1;
    let mut done: u32 = 0;
    proof {
        lemma2_to64();
    }
    while done < attempt
        invariant
            done <= attempt < 64,
            seconds == pow2(done as nat),
        decreases attempt - done,
    {
        proof {
            lemma_pow2_unfold((done + 1) as nat);
            lemma2_to64_rest();
            if done + 1 < 63 {
                lemma_pow2_strictly_increases((done + 1) as nat, 63);
            }
        }
        seconds = seconds * 2;
        done = done + 1;
    }
    seconds
}

/// A number is at least the number that any of its leading digits write.
proof fn lemma_decimal_prefix(digits: Seq<u8>, k: int)
    requires
        0 <= k <= digits.len(),
    ensures
        decimal_value(digits.take(k)) <= decimal_value(digits),
    decreases digits.len(),
{
    if k == digits.len() {
        assert(digits.take(k) =~= digits);
    } else {
        lemma_decimal_prefix(digits.drop_last(), k);
        assert(digits.drop_last().take(k) =~= digits.take(k));
    }
}

/// Reads the value of a `Retry-After` header as whole seconds.
pub fn parse_retry_after(header: &[u8]) -> (seconds: Option<u64>)
    ensures
        seconds == retry_after_seconds(header@),
{
    let n = header.len();
    let start: usize = if n > 0 && header[0] == 0x2b {
        1
    } else {
        0
    };
    let ghost digits = retry_after_digits(header@);
    assert(digits =~= header@.subrange(start as int, n as int));
    if start == n {
        return None;
    }
    let mut value: u64 = 0;
    let mut i: usize = start;
    assert(header@.subrange(start as int, i as int) =~= Seq::<u8>::empty());
    while i < n
        invariant
            start <= i <= n,
            n == header@.len(),
            digits == header@.subrange(start as int, n as int),
            digits == retry_after_digits(header@),
            forall|k: int| 0 <= k < i - start ==> is_digit(#[trigger] digits[k]),
            value == decimal_value(header@.subrange(start as int, i as int)),
        decreases n - i,
    {
        let b = header[i];
        let ghost read = header@.subrange(start as int, i + 1);
        proof {
            assert(read.drop_last() =~= header@.subrange(start as int, i as int));
            assert(read.last() == b);
            assert(digits[i - start] == b);
            assert(digits.take(i + 1 - start) =~= read);
            lemma_decimal_prefix(digits, i + 1 - start);
        }
        if b < 0x30 || b > 0x39 {
            return None;
        }
        let d: u64 = (b - 0x30) as u64;
        if value > (u64::MAX - d) / 10 {
            return None;
        }
        value = value * 10 + d;
        i = i + 1;
    }
    assert(header@.subrange(start as int, n as int) =~= digits);
    Some(value)
}

impl Card {
    /// What the caller is to do for `state` while fetching this card's image
    /// into the directory `cache`.
    pub open spec fn action_of(self, cache: Seq<char>, state: FetchState, action: FetchAction) -> bool {
        match state {
            FetchState::CheckingCache => action matches FetchAction::CheckCache { path }
                && path@ == cache_path_of(cache, self.scryfall_id@),
            FetchState::Requesting { .. } => action matches FetchAction::Get {
                url,
                user_agent: agent,
                accept,
            } && url@ == image_url_of(self.scryfall_id@) && agent@ == user_agent() && accept@
                == accepted_content(),
            FetchState::Storing { .. } => action matches FetchAction::Store { path } && path@
                == cache_path_of(cache, self.scryfall_id@),
            FetchState::Waiting { seconds, .. } => action == (FetchAction::Sleep { seconds }),
            FetchState::Done(result) => action == FetchAction::Finish(result),
        }
    }

    /// What the caller is to do for `state`.
    pub fn action(&self, cache: &str, state: &FetchState) -> (action: FetchAction)
        ensures
            self.action_of(cache@, *state, action),
    {
        match state {
            FetchState::CheckingCache => FetchAction::CheckCache { path: self.cache_path(cache) },
            FetchState::Requesting { .. } => FetchAction::Get {
                url: self.image_url(),
                user_agent: "curl/7.68.0".to_owned(),
                accept: "image/jpeg".to_owned(),
            },
            FetchState::Storing { .. } => FetchAction::Store { path: self.cache_path(cache) },
            FetchState::Waiting { seconds, .. } => FetchAction::Sleep { seconds: *seconds },
            FetchState::Done(result) => FetchAction::Finish(*result),
        }
    }

    /// Moves the fetch of this card's image on by one event: the state that
    /// follows, and what the caller is to do for it.
    pub fn download(&self, cache: &str, state: FetchState, event: &FetchEvent) -> (after: (
        FetchState,
        FetchAction,
    ))
        requires
            state.wf(),
        ensures
            after.0 == state.next(*event),
            after.0.wf(),
            !(state is Done) ==> after.0.steps_left() < state.steps_left(),
            self.action_of(cache@, after.0, after.1),
    {
        let next = state.step(event);
        let action = self.action(cache, &next);
        (next, action)
    }
}

} // verus!
