//! Cards, decks and the options of one run.

use vstd::prelude::*;
use vstd::string::StringExecFns;

verus! {

/// One card: its printed name and the identifier of its image.
///
/// `scryfall_id` keys both the remote image and the cached file.
#[derive(Debug)]
pub struct Card {
    pub name: String,
    pub scryfall_id: String,
}

impl Clone for Card {
    fn clone(&self) -> (copy: Card)
        ensures
            copy == *self,
    {
        Card { name: self.name.clone(), scryfall_id: self.scryfall_id.clone() }
    }
}

/// A named list of cards, and the tokens that go with them.
///
/// Both lists are ordered, and their order is the order of print.
#[derive(Debug)]
pub struct Deck {
    pub name: String,
    pub cards: Vec<Card>,
    pub tokens: Vec<Card>,
}

/// What one run is asked to do.
#[derive(Debug)]
pub struct DeckGenerationOptions {
    /// Whether the tokens are fetched and printed after the cards.
    pub print_tokens: bool,
    /// The name of the document, where it is not to be named after the deck.
    pub filename: Option<String>,
}

impl Clone for DeckGenerationOptions {
    fn clone(&self) -> (copy: DeckGenerationOptions)
        ensures
            copy == *self,
    {
        DeckGenerationOptions {
            print_tokens: self.print_tokens,
            filename: match &self.filename {
                Some(name) => Some(name.clone()),
                None => None,
            },
        }
    }
}

/// The cards of one run: the deck's cards, followed by its tokens where they
/// are asked for.
pub open spec fn selection_of(deck: Deck, print_tokens: bool) -> Seq<Card> {
    if print_tokens {
        deck.cards@ + deck.tokens@
    } else {
        deck.cards@
    }
}

/// The name of the document: the one asked for, or else the deck's name with
/// `.pdf` after it.
pub open spec fn filename_of(deck_name: Seq<char>, asked: Option<String>) -> Seq<char> {
    match asked {
        Some(name) => name@,
        None => deck_name + ".pdf"@,
    }
}

/// The directory that holds the cached images: `tiffer/cards` under the
/// user's cache directory, which is `cache_home` where that is given and
/// `.cache` under `home` otherwise.
pub open spec fn cache_dir_of(cache_home: Option<Seq<char>>, home: Option<Seq<char>>) -> Option<
    Seq<char>,
> {
    match (cache_home, home) {
        (Some(base), _) => Some(base + "/tiffer/cards"@),
        (None, Some(home)) => Some(home + "/.cache"@ + "/tiffer/cards"@),
        (None, None) => None,
    }
}

/// Appends copies of `cards` to `out`.
fn extend_with(out: &mut Vec<Card>, cards: &Vec<Card>)
    ensures
        final(out)@ == old(out)@ + cards@,
{
    let mut i: usize = 0;
    while i < cards.len()
        invariant
            0 <= i <= cards@.len(),
            out@ == old(out)@ + cards@.take(i as int),
        decreases cards@.len() - i,
    {
        out.push(cards[i].clone());
        assert(cards@.take(i + 1) =~= cards@.take(i as int).push(cards@[i as int]));
        i = i + 1;
    }
    assert(cards@.take(i as int) =~= cards@);
}

/// The directory that holds the cached images, given the user's cache
/// directory and home directory as far as they are known. `None` where
/// neither is.
pub fn cache_dir(cache_home: Option<&str>, home: Option<&str>) -> (dir: Option<String>)
    ensures
        match dir {
            Some(dir) => cache_dir_of(
                match cache_home {
                    Some(s) => Some(s@),
                    None => None,
                },
                match home {
                    Some(s) => Some(s@),
                    None => None,
                },
            ) == Some(dir@),
            None => cache_home is None && home is None,
        },
{
    match cache_home {
        Some(base) => {
            let mut dir = base.to_owned();
            dir.append("/tiffer/cards");
            Some(dir)
        },
        None => match home {
            Some(home) => {
                let mut dir = home.to_owned();
                dir.append("/.cache");
                dir.append("/tiffer/cards");
                Some(dir)
            },
            None => None,
        },
    }
}

impl Deck {
    /// How many cards and tokens the deck holds.
    pub fn total_cards(&self) -> (total: usize)
        requires
            self.cards@.len() + self.tokens@.len() <= usize::MAX,
        ensures
            total == self.cards@.len() + self.tokens@.len(),
    {
        self.cards.len() + self.tokens.len()
    }

    /// The cards of one run, in the order of print.
    pub fn selected_cards(&self, options: &DeckGenerationOptions) -> (selected: Vec<Card>)
        ensures
            selected@ == selection_of(*self, options.print_tokens),
    {
        let mut selected: Vec<Card> = Vec::new();
        extend_with(&mut selected, &self.cards);
        if options.print_tokens {
            extend_with(&mut selected, &self.tokens);
        }
        selected
    }

    /// The name of the document to write.
    pub fn output_filename(&self, options: &DeckGenerationOptions) -> (filename: String)
        ensures
            filename@ == filename_of(self.name@, options.filename),
    {
        match &options.filename {
            Some(name) => name.clone(),
            None => {
                let mut filename = self.name.clone();
                filename.append(".pdf");
                filename
            },
        }
    }
}

/// The address of the image with identifier `id`.
pub open spec fn image_url_of(id: Seq<char>) -> Seq<char> {
    "https://api.scryfall.com/cards/"@ + id + "/?format=image"@
}

/// The cached file of the image with identifier `id` under the directory `cache`.
pub open spec fn cache_path_of(cache: Seq<char>, id: Seq<char>) -> Seq<char> {
    cache + "/"@ + id + ".jpg"@
}

impl Card {
    /// Where this card's image is fetched from.
    pub fn image_url(&self) -> (url: String)
        ensures
            url@ == image_url_of(self.scryfall_id@),
    {
        let mut url = "https://api.scryfall.com/cards/".to_owned();
        url.append(self.scryfall_id.as_str());
        url.append("/?format=image");
        url
    }

    /// Where this card's image is kept once fetched.
    pub fn cache_path(&self, cache: &str) -> (path: String)
        ensures
            path@ == cache_path_of(cache@, self.scryfall_id@),
    {
        let mut path = cache.to_owned();
        path.append("/");
        path.append(self.scryfall_id.as_str());
        path.append(".jpg");
        path
    }
}

} // verus!
