//! Decks written down as a list of lines, one card to a line.
//!
//! A line reads `1 Whiptongue Hydra (NEC) 134`: how many, the card's name, the
//! set in brackets, and the collector's number. What the card is called in
//! full, and which tokens it makes, is looked up elsewhere; this module says
//! what to look up, how often to ask again, and what deck the answers make.

use vstd::prelude::*;
use vstd::string::StringExecFns;
use crate::deck::Card;
use crate::deck::Deck;
use crate::fetch::parse_retry_after;
use crate::fetch::retry_after_seconds;
use crate::fetch::is_success;
use crate::fetch::TOO_MANY_REQUESTS;
use crate::remote::copies;
use crate::remote::push_copies;
use crate::text::join;
use crate::text::joined;
use crate::text::parse_u32;
use crate::text::split_words;
use crate::text::texts;
use crate::text::trim_to_letters;
use crate::text::trimmed;
use crate::text::u32_of;
use crate::text::words;

verus! {

/// How often a card is looked up before the lookup gives up.
pub const MAX_LOOKUPS: u32 = 5;

/// The seconds to wait where the server asks to slow down and names no
/// delay.
pub const DEFAULT_WAIT: u64 = 1;

/// One line of a deck list.
#[derive(Debug)]
pub struct CardLine {
    pub quantity: u32,
    pub name: String,
    pub set: String,
    pub collector_number: String,
}

/// Why a line is no card.
#[derive(Debug, Clone, Copy, PartialEq, Eq, Structural)]
pub enum LineError {
    /// The line has fewer than three words.
    TooShort,
    /// The first word is no number.
    BadQuantity,
}

/// A card that goes with another one.
#[derive(Debug)]
pub struct RelatedCard {
    pub name: String,
    pub component: String,
    pub id: String,
}

/// What is known of a card once it is looked up.
#[derive(Debug)]
pub struct CardDetails {
    pub name: String,
    pub id: String,
    pub all_parts: Option<Vec<RelatedCard>>,
}

/// One line of a deck list, looked up.
#[derive(Debug)]
pub struct LocalEntry {
    pub quantity: u32,
    pub details: CardDetails,
}

/// What came of asking for a card.
#[derive(Debug)]
pub enum LookupEvent {
    /// The server answered, with the `Retry-After` header if it sent one.
    Response { status: u16, retry_after: Option<Vec<u8>> },
    /// The request got no answer.
    TransportError,
}

/// Why a lookup failed.
#[derive(Debug, Clone, Copy, PartialEq, Eq, Structural)]
pub enum LookupError {
    /// The server refused.
    Status { status: u16 },
    /// The request got no answer.
    Transport,
    /// The server asked to slow down at every attempt.
    RetriesExceeded,
}

/// What to do after asking for a card.
#[derive(Debug, Clone, Copy, PartialEq, Eq, Structural)]
pub enum LookupAction {
    /// Read the card from the answer.
    Accept,
    /// Wait for `seconds`, then ask again.
    RetryAfter { seconds: u64 },
    /// Wait for `seconds`, then give up: the attempts are used up.
    GiveUpAfter { seconds: u64 },
    /// Give up at once.
    Fail(LookupError),
}

/// The line that `words` make up.
pub open spec fn line_of(words: Seq<Seq<char>>) -> Result<
    (u32, Seq<char>, Seq<char>, Seq<char>),
    LineError,
> {
    if words.len() < 3 {
        Err(LineError::TooShort)
    } else {
        match u32_of(words[0]) {
            Some(quantity) => Ok(
                (
                    quantity,
                    joined(words.subrange(1, words.len() - 2), " "@),
                    trimmed(words[words.len() - 2]),
                    words[words.len() - 1],
                ),
            ),
            None => Err(LineError::BadQuantity),
        }
    }
}

/// The parts of a line, as text.
pub open spec fn line_parts(line: CardLine) -> (u32, Seq<char>, Seq<char>, Seq<char>) {
    (line.quantity, line.name@, line.set@, line.collector_number@)
}

/// Reads one line of a deck list.
///
/// The line is cut into words at whitespace. The first word is the quantity,
/// the last the collector's number, and the one before it the set, of which
/// only what lies between its first and its last letter counts; the words in
/// between, with one space between each two, are the name.
pub fn parse_card_line(line: &str) -> (parsed: Result<CardLine, LineError>)
    ensures
        match parsed {
            Ok(card) => line_of(words(line@)) == Ok::<_, LineError>(line_parts(card)),
            Err(error) => line_of(words(line@)) == Err::<(u32, Seq<char>, Seq<char>, Seq<char>), _>(
                error,
            ),
        },
{
    let parts = split_words(line);
    let n = parts.len();
    if n < 3 {
        return Err(LineError::TooShort);
    }
    assert(texts(parts@)[0] == parts@[0]@);
    assert(texts(parts@)[n - 2] == parts@[n - 2]@);
    assert(texts(parts@)[n - 1] == parts@[n - 1]@);
    let quantity = match parse_u32(parts[0].as_str()) {
        Some(quantity) => quantity,
        None => {
            return Err(LineError::BadQuantity);
        },
    };
    Ok(
        CardLine {
            quantity,
            name: join(&parts, 1, n - 2, " "),
            set: trim_to_letters(parts[n - 2].as_str()),
            collector_number: parts[n - 1].clone(),
        },
    )
}

/// The seconds that the server asks to wait, where it names them in a way
/// that can be read; [`DEFAULT_WAIT`] otherwise.
pub open spec fn lookup_wait(retry_after: Option<Vec<u8>>) -> u64 {
    match retry_after {
        Some(header) => match retry_after_seconds(header@) {
            Some(seconds) => seconds,
            None => DEFAULT_WAIT,
        },
        None => DEFAULT_WAIT,
    }
}

/// What to do after the `asked`-th request for a card, counted from 1, ended
/// in `event`.
pub open spec fn lookup_next(asked: u32, event: LookupEvent) -> LookupAction {
    match event {
        LookupEvent::Response { status, retry_after } => {
            if is_success(status) {
                LookupAction::Accept
            } else if status == TOO_MANY_REQUESTS {
                if asked < MAX_LOOKUPS {
                    LookupAction::RetryAfter { seconds: lookup_wait(retry_after) }
                } else {
                    LookupAction::GiveUpAfter { seconds: lookup_wait(retry_after) }
                }
            } else {
                LookupAction::Fail(LookupError::Status { status })
            }
        },
        LookupEvent::TransportError => LookupAction::Fail(LookupError::Transport),
    }
}

/// What to do after the `asked`-th request for a card, counted from 1, ended
/// in `event`.
///
/// A successful answer is read. An answer that asks to slow down is waited
/// out, and the request repeated unless this was the last of
/// [`MAX_LOOKUPS`] attempts. Anything else ends the lookup at once.
pub fn lookup_step(asked: u32, event: &LookupEvent) -> (action: LookupAction)
    ensures
        action == lookup_next(asked, *event),
{
    match event {
        LookupEvent::Response { status, retry_after } => {
            if 200 <= *status && *status < 300 {
                LookupAction::Accept
            } else if *status == TOO_MANY_REQUESTS {
                let named = match retry_after {
                    Some(header) => parse_retry_after(header.as_slice()),
                    None => None,
                };
                let seconds = match named {
                    Some(seconds) => seconds,
                    None => DEFAULT_WAIT,
                };
                if asked < MAX_LOOKUPS {
                    LookupAction::RetryAfter { seconds }
                } else {
                    LookupAction::GiveUpAfter { seconds }
                }
            } else {
                LookupAction::Fail(LookupError::Status { status: *status })
            }
        },
        LookupEvent::TransportError => LookupAction::Fail(LookupError::Transport),
    }
}

/// The card that `details` describe.
pub open spec fn card_of(details: CardDetails) -> Card {
    Card { name: details.name, scryfall_id: details.id }
}

/// The tokens among `parts`, in order.
pub open spec fn tokens_among(parts: Seq<RelatedCard>) -> Seq<Card>
    decreases parts.len(),
{
    if parts.len() == 0 {
        Seq::empty()
    } else if parts.last().component@ == "token"@ {
        tokens_among(parts.drop_last()).push(
            Card { name: parts.last().name, scryfall_id: parts.last().id },
        )
    } else {
        tokens_among(parts.drop_last())
    }
}

/// The tokens that go with one copy of the card that `details` describe.
pub open spec fn tokens_of(details: CardDetails) -> Seq<Card> {
    match details.all_parts {
        Some(parts) => tokens_among(parts@),
        None => Seq::empty(),
    }
}

/// `cards`, `n` times over.
pub open spec fn repeated(cards: Seq<Card>, n: nat) -> Seq<Card>
    decreases n,
{
    if n == 0 {
        Seq::empty()
    } else {
        repeated(cards, (n - 1) as nat) + cards
    }
}

/// The cards that `entries` stand for: each entry's card as often as the
/// entry says, entry after entry.
pub open spec fn local_cards(entries: Seq<LocalEntry>) -> Seq<Card>
    decreases entries.len(),
{
    if entries.len() == 0 {
        Seq::empty()
    } else {
        local_cards(entries.drop_last()) + copies(
            card_of(entries.last().details),
            entries.last().quantity as nat,
        )
    }
}

/// The tokens that `entries` stand for: each entry's tokens once for every
/// copy of its card, entry after entry.
pub open spec fn local_tokens(entries: Seq<LocalEntry>) -> Seq<Card>
    decreases entries.len(),
{
    if entries.len() == 0 {
        Seq::empty()
    } else {
        local_tokens(entries.drop_last()) + repeated(
            tokens_of(entries.last().details),
            entries.last().quantity as nat,
        )
    }
}

/// Appends the tokens that go with one copy of a card to `out`.
fn push_tokens(out: &mut Vec<Card>, details: &CardDetails)
    ensures
        final(out)@ == old(out)@ + tokens_of(*details),
{
    match &details.all_parts {
        Some(parts) => {
            let token = "token".to_owned();
            let mut i: usize = 0;
            assert(parts@.take(0) =~= Seq::<RelatedCard>::empty());
            assert(out@ =~= old(out)@ + tokens_among(parts@.take(0)));
            while i < parts.len()
                invariant
                    0 <= i <= parts@.len(),
                    token@ == "token"@,
                    out@ == old(out)@ + tokens_among(parts@.take(i as int)),
                decreases parts@.len() - i,
            {
                proof {
                    let next = parts@.take(i + 1);
                    assert(next.drop_last() =~= parts@.take(i as int));
                    assert(next.last() == parts@[i as int]);
                }
                if parts[i].component == token {
                    out.push(Card { name: parts[i].name.clone(), scryfall_id: parts[i].id.clone() });
                    assert(out@ =~= old(out)@ + tokens_among(parts@.take(i + 1)));
                }
                i = i + 1;
            }
            assert(parts@.take(i as int) =~= parts@);
        },
        None => {
            assert(out@ =~= old(out)@ + Seq::<Card>::empty());
        },
    }
}

/// The cards and the tokens that one line stands for, once its card is
/// looked up: the card `quantity` times, and its tokens once for each copy.
pub fn expand_card(quantity: u32, details: &CardDetails) -> (expanded: (Vec<Card>, Vec<Card>))
    ensures
        expanded.0@ == copies(card_of(*details), quantity as nat),
        expanded.1@ == repeated(tokens_of(*details), quantity as nat),
{
    let mut cards: Vec<Card> = Vec::new();
    let mut tokens: Vec<Card> = Vec::new();
    add_card(&mut cards, &mut tokens, quantity, details);
    assert(cards@ =~= copies(card_of(*details), quantity as nat));
    assert(tokens@ =~= repeated(tokens_of(*details), quantity as nat));
    (cards, tokens)
}

/// Appends what one line stands for to `cards` and `tokens`.
fn add_card(cards: &mut Vec<Card>, tokens: &mut Vec<Card>, quantity: u32, details: &CardDetails)
    ensures
        final(cards)@ == old(cards)@ + copies(card_of(*details), quantity as nat),
        final(tokens)@ == old(tokens)@ + repeated(tokens_of(*details), quantity as nat),
{
    let card = Card { name: details.name.clone(), scryfall_id: details.id.clone() };
    push_copies(cards, &card, quantity);
    let mut i: u32 = 0;
    assert(tokens@ =~= old(tokens)@ + repeated(tokens_of(*details), 0));
    while i < quantity
        invariant
            0 <= i <= quantity,
            tokens@ == old(tokens)@ + repeated(tokens_of(*details), i as nat),
        decreases quantity - i,
    {
        push_tokens(tokens, details);
        assert(tokens@ =~= old(tokens)@ + repeated(tokens_of(*details), (i + 1) as nat));
        i = i + 1;
    }
}

/// The deck that a list of looked-up lines stands for. It is called `deck`.
pub fn get_local_deck(entries: &Vec<LocalEntry>) -> (deck: Deck)
    ensures
        deck.name@ == "deck"@,
        deck.cards@ == local_cards(entries@),
        deck.tokens@ == local_tokens(entries@),
{
    let mut cards: Vec<Card> = Vec::new();
    let mut tokens: Vec<Card> = Vec::new();
    let mut i: usize = 0;
    assert(entries@.take(0) =~= Seq::<LocalEntry>::empty());
    while i < entries.len()
        invariant
            0 <= i <= entries@.len(),
            cards@ == local_cards(entries@.take(i as int)),
            tokens@ == local_tokens(entries@.take(i as int)),
        decreases entries@.len() - i,
    {
        proof {
            let next = entries@.take(i + 1);
            assert(next.drop_last() =~= entries@.take(i as int));
            assert(next.last() == entries@[i as int]);
        }
        add_card(&mut cards, &mut tokens, entries[i].quantity, &entries[i].details);
        i = i + 1;
    }
    assert(entries@.take(i as int) =~= entries@);
    Deck { name: "deck".to_owned(), cards, tokens }
}

} // verus!
