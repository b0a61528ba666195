//! Decks kept by a deck-building site.

use vstd::prelude::*;
use vstd::string::StringExecFns;
use crate::deck::Card;
use crate::deck::Deck;
use crate::source::Link;
use crate::text::piece;
use crate::text::piece_from;

verus! {

/// The sites that decks can be taken from.
#[derive(Debug, Clone, Copy, PartialEq, Eq, Structural)]
pub enum Website {
    Moxfield,
}

/// Why a link leads to no deck.
#[derive(Debug, Clone, Copy, PartialEq, Eq, Structural)]
pub enum DeckDownloadError {
    /// The link's host is none of the sites that decks can be taken from.
    UnsupportedWebsite,
    /// The link's path names no deck.
    MissingDeckId,
}

/// One entry of a deck's main board: a card and how often it is in the deck.
#[derive(Debug)]
pub struct MoxfieldCard {
    pub quantity: u32,
    pub card: Card,
}

/// A deck as Moxfield describes it.
#[derive(Debug)]
pub struct MoxfieldDeck {
    pub name: String,
    pub main: Card,
    pub mainboard: Vec<MoxfieldCard>,
    pub tokens: Vec<Card>,
}

/// The site that serves the host `host`.
pub open spec fn website_of(host: Option<Seq<char>>) -> Option<Website> {
    if host == Some("moxfield.com"@) {
        Some(Website::Moxfield)
    } else {
        None
    }
}

/// The `n`-th segment of a path, counted from 0: `None` where the path does
/// not begin with a slash or has fewer segments.
pub open spec fn path_segment(path: Seq<char>, n: nat) -> Option<Seq<char>> {
    if path.len() > 0 && path[0] == '/' {
        piece(path.skip(1), '/', n)
    } else {
        None
    }
}

/// Where Moxfield serves the deck with identifier `id`.
pub open spec fn moxfield_api_url(id: Seq<char>) -> Seq<char> {
    "https://api2.moxfield.com/v2/decks/all"@ + "/"@ + id
}

/// `n` times `card`.
pub open spec fn copies(card: Card, n: nat) -> Seq<Card> {
    Seq::new(n, |i: int| card)
}

/// The cards of a main board: each entry's card as often as the entry says,
/// entry after entry.
pub open spec fn mainboard_cards(entries: Seq<MoxfieldCard>) -> Seq<Card>
    decreases entries.len(),
{
    if entries.len() == 0 {
        Seq::empty()
    } else {
        mainboard_cards(entries.drop_last()) + copies(
            entries.last().card,
            entries.last().quantity as nat,
        )
    }
}

/// Appends `n` copies of `card` to `out`.
pub fn push_copies(out: &mut Vec<Card>, card: &Card, n: u32)
    ensures
        final(out)@ == old(out)@ + copies(*card, n as nat),
{
    let mut i: u32 = 0;
    assert(out@ =~= old(out)@ + copies(*card, 0));
    while i < n
        invariant
            0 <= i <= n,
            out@ == old(out)@ + copies(*card, i as nat),
        decreases n - i,
    {
        out.push(card.clone());
        assert(out@ =~= old(out)@ + copies(*card, (i + 1) as nat));
        i = i + 1;
    }
}

/// The site that `link` leads to.
pub fn website(link: &Link) -> (site: Result<Website, DeckDownloadError>)
    ensures
        match site {
            Ok(site) => website_of(parts_host(*link)) == Some(site),
            Err(error) => website_of(parts_host(*link)) is None && error
                == DeckDownloadError::UnsupportedWebsite,
        },
{
    match &link.host {
        Some(host) => {
            let moxfield = "moxfield.com".to_owned();
            if *host == moxfield {
                Ok(Website::Moxfield)
            } else {
                Err(DeckDownloadError::UnsupportedWebsite)
            }
        },
        None => Err(DeckDownloadError::UnsupportedWebsite),
    }
}

/// The host of `link`, as text.
pub open spec fn parts_host(link: Link) -> Option<Seq<char>> {
    match link.host {
        Some(host) => Some(host@),
        None => None,
    }
}

/// The identifier of the deck that a path names: its second segment.
pub fn deck_id(path: &str) -> (id: Option<String>)
    ensures
        match id {
            Some(id) => path_segment(path@, 1) == Some(id@),
            None => path_segment(path@, 1) is None,
        },
{
    if path.unicode_len() == 0 || path.get_char(0) != '/' {
        return None;
    }
    piece_from(path, 1, '/', 1)
}

/// The address to ask for the deck that `link` leads to.
///
/// Fails with [`DeckDownloadError::UnsupportedWebsite`] where the host is not
/// a known site, and with [`DeckDownloadError::MissingDeckId`] where the
/// host is known and the path has no second segment.
pub fn deck_request(link: &Link) -> (request: Result<String, DeckDownloadError>)
    ensures
        match request {
            Ok(url) => {
                &&& website_of(parts_host(*link)) == Some(Website::Moxfield)
                &&& path_segment(link.path@, 1) matches Some(id)
                &&& url@ == moxfield_api_url(id)
            },
            Err(DeckDownloadError::UnsupportedWebsite) => website_of(parts_host(*link)) is None,
            Err(DeckDownloadError::MissingDeckId) => website_of(parts_host(*link)) is Some
                && path_segment(link.path@, 1) is None,
        },
{
    match website(link) {
        Ok(Website::Moxfield) => match deck_id(link.path.as_str()) {
            Some(id) => {
                let mut url = "https://api2.moxfield.com/v2/decks/all".to_owned();
                url.append("/");
                url.append(id.as_str());
                Ok(url)
            },
            None => Err(DeckDownloadError::MissingDeckId),
        },
        Err(error) => Err(error),
    }
}

/// The deck that Moxfield's description stands for: the main card first, then
/// the main board with every card as often as it is in the deck; the tokens
/// as they are.
pub fn moxfield_deck(response: &MoxfieldDeck) -> (deck: Deck)
    ensures
        deck.name@ == response.name@,
        deck.cards@ == seq![response.main] + mainboard_cards(response.mainboard@),
        deck.tokens@ == response.tokens@,
{
    let mut cards: Vec<Card> = Vec::new();
    cards.push(response.main.clone());
    let mut i: usize = 0;
    assert(response.mainboard@.take(0) =~= Seq::<MoxfieldCard>::empty());
    assert(cards@ =~= seq![response.main] + mainboard_cards(response.mainboard@.take(0)));
    while i < response.mainboard.len()
        invariant
            0 <= i <= response.mainboard@.len(),
            cards@ == seq![response.main] + mainboard_cards(response.mainboard@.take(i as int)),
        decreases response.mainboard@.len() - i,
    {
        let ghost before = cards@;
        push_copies(&mut cards, &response.mainboard[i].card, response.mainboard[i].quantity);
        proof {
            let next = response.mainboard@.take(i + 1);
            assert(next.drop_last() =~= response.mainboard@.take(i as int));
            assert(next.last() == response.mainboard@[i as int]);
            assert(cards@ =~= seq![response.main] + mainboard_cards(next));
        }
        i = i + 1;
    }
    assert(response.mainboard@.take(i as int) =~= response.mainboard@);
    let mut tokens: Vec<Card> = Vec::new();
    let mut k: usize = 0;
    while k < response.tokens.len()
        invariant
            0 <= k <= response.tokens@.len(),
            tokens@ == response.tokens@.take(k as int),
        decreases response.tokens@.len() - k,
    {
        tokens.push(response.tokens[k].clone());
        assert(tokens@ =~= response.tokens@.take(k + 1));
        k = k + 1;
    }
    assert(response.tokens@.take(k as int) =~= response.tokens@);
    Deck { name: response.name.clone(), cards, tokens }
}

/// The deck that `link` leads to, given what its site answered.
///
/// Fails with [`DeckDownloadError::UnsupportedWebsite`] exactly where the
/// link's host is not a known site.
pub fn get_remote_deck(link: &Link, response: &MoxfieldDeck) -> (deck: Result<
    Deck,
    DeckDownloadError,
>)
    ensures
        match deck {
            Ok(deck) => {
                &&& website_of(parts_host(*link)) == Some(Website::Moxfield)
                &&& deck.name@ == response.name@
                &&& deck.cards@ == seq![response.main] + mainboard_cards(response.mainboard@)
                &&& deck.tokens@ == response.tokens@
            },
            Err(error) => website_of(parts_host(*link)) is None && error
                == DeckDownloadError::UnsupportedWebsite,
        },
{
    match website(link) {
        Ok(Website::Moxfield) => Ok(moxfield_deck(response)),
        Err(error) => Err(error),
    }
}

} // verus!
