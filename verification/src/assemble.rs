//! From a deck to the fetches it needs and the document it prints as.

use vstd::prelude::*;
use crate::batch::distinct;
use crate::batch::has_id;
use crate::batch::lemma_distinct;
use crate::batch::find_result;
use crate::batch::result_of;
use crate::batch::Batch;
use crate::batch::BatchFailure;
use crate::batch::BatchView;
use crate::batch::Fetched;
use crate::deck::cache_path_of;
use crate::deck::filename_of;
use crate::deck::selection_of;
use crate::deck::Card;
use crate::deck::Deck;
use crate::deck::DeckGenerationOptions;
use crate::fetch::FetchError;
use crate::fetch::FetchResult;
use crate::layout::layout;
use crate::layout::LayoutConfig;
use crate::layout::Placement;

verus! {

/// One image of the document: where it goes, and the file that holds it.
#[derive(Debug)]
pub struct PrintItem {
    pub placement: Placement,
    pub image_path: String,
}

/// A document to write: its name, and its images in the order of print.
#[derive(Debug)]
pub struct PrintJob {
    pub filename: String,
    pub items: Vec<PrintItem>,
}

/// Why no document is written.
#[derive(Debug)]
pub enum AssembleError {
    /// The fetch of this image failed.
    FetchFailed { asset_id: String, error: FetchError },
    /// No fetch of this image was reported.
    NotFetched { asset_id: String },
}

/// Whether `fetched` shows the image `id` to be in the cache.
pub open spec fn is_at_hand(fetched: Seq<Fetched>, id: Seq<char>) -> bool {
    result_of(fetched, id) matches Some(result) && !(result is Failed)
}

/// Whether card `i` is the first of `cards` whose image `fetched` does not
/// show to be in the cache.
pub open spec fn first_missing(cards: Seq<Card>, fetched: Seq<Fetched>, i: int) -> bool {
    &&& 0 <= i < cards.len()
    &&& !is_at_hand(fetched, cards[i].scryfall_id@)
    &&& forall|j: int| 0 <= j < i ==> is_at_hand(fetched, (#[trigger] cards[j]).scryfall_id@)
}

/// Whether `job` prints `cards`, in their order, under the name `filename`,
/// with the geometry of `cfg` and the images cached under `cache`.
pub open spec fn prints(
    job: PrintJob,
    cards: Seq<Card>,
    filename: Seq<char>,
    cache: Seq<char>,
    cfg: LayoutConfig,
) -> bool {
    &&& job.filename@ == filename
    &&& job.items@.len() == cards.len()
    &&& forall|i: int|
        0 <= i < cards.len() ==> (#[trigger] job.items@[i]).placement@ == cfg@.placement(
            cards[i].scryfall_id@,
            i,
        ) && job.items@[i].image_path@ == cache_path_of(cache, cards[i].scryfall_id@)
}

/// The first entry for an image decides what [`result_of`] finds for it.
pub proof fn lemma_result_of(fetched: Seq<Fetched>, id: Seq<char>, k: int)
    requires
        0 <= k < fetched.len(),
        fetched[k].asset_id@ == id,
        forall|j: int| 0 <= j < k ==> (#[trigger] fetched[j]).asset_id@ != id,
    ensures
        result_of(fetched, id) == Some(fetched[k].result),
    decreases k,
{
    if k > 0 {
        let rest = fetched.skip(1);
        assert(fetched[0].asset_id@ != id);
        assert forall|j: int| 0 <= j < k - 1 implies (#[trigger] rest[j]).asset_id@ != id by {
            assert(rest[j] == fetched[j + 1]);
        }
        lemma_result_of(rest, id, k - 1);
    }
}

/// A batch over the distinct images of `cards` that ends well has every image
/// of `cards` at hand.
pub proof fn lemma_batch_covers(batch: BatchView, fetched: Vec<Fetched>, cards: Seq<Card>)
    requires
        batch.wf(),
        batch.jobs == distinct(cards),
        batch.ends_with(Ok(fetched)),
    ensures
        forall|i: int| 0 <= i < cards.len() ==> is_at_hand(fetched@, (#[trigger] cards[i]).scryfall_id@),
{
    lemma_distinct(cards);
    assert forall|i: int| 0 <= i < cards.len() implies is_at_hand(
        fetched@,
        (#[trigger] cards[i]).scryfall_id@,
    ) by {
        let id = cards[i].scryfall_id@;
        assert(has_id(cards, id));
        assert(has_id(batch.jobs, id));
        let k = choose|k: int| 0 <= k < batch.jobs.len() && (#[trigger] batch.jobs[k]).scryfall_id@ == id;
        assert(fetched@[k].asset_id@ == id);
        assert forall|j: int| 0 <= j < k implies (#[trigger] fetched@[j]).asset_id@ != id by {
            assert(batch.jobs[j].scryfall_id@ != batch.jobs[k].scryfall_id@);
        }
        lemma_result_of(fetched@, id, k);
        assert(!batch.has_failed(k));
    }
}

impl Deck {
    /// The fetches that one run needs: one for each distinct image among the
    /// selected cards, at most `limit` of them at once. `None` where `limit`
    /// is 0.
    pub fn download(&self, options: &DeckGenerationOptions, limit: usize) -> (batch: Option<Batch>)
        ensures
            batch is Some <==> limit >= 1,
            batch matches Some(b) ==> {
                &&& b@.wf()
                &&& b@.jobs == distinct(selection_of(*self, options.print_tokens))
                &&& b@.limit == limit
                &&& b@.started == 0
                &&& b@.in_flight.len() == 0
                &&& !b@.failed()
                &&& forall|i: int| 0 <= i < b@.results.len() ==> #[trigger] b@.results[i] is None
            },
    {
        let selected = self.selected_cards(options);
        Batch::new(&selected, limit)
    }

    /// The document of one run, once its fetches have ended with `fetched`.
    ///
    /// Where the fetches failed, or one of the selected cards has no image at
    /// hand, there is no document: the error names the image that failed, or
    /// else the first selected card that lacks one. Otherwise the document
    /// holds the selected cards in their order, each placed by `cfg` and
    /// paired with its file under `cache`.
    pub fn generate(
        &self,
        options: &DeckGenerationOptions,
        cache: &str,
        cfg: &LayoutConfig,
        fetched: &Result<Vec<Fetched>, BatchFailure>,
    ) -> (document: Result<PrintJob, AssembleError>)
        ensures
            match (*fetched, document) {
                (Err(failure), Err(AssembleError::FetchFailed { asset_id, error })) => {
                    asset_id@ == failure.asset_id@ && error == failure.error
                },
                (Err(_), _) => false,
                (Ok(list), Ok(job)) => {
                    let cards = selection_of(*self, options.print_tokens);
                    &&& forall|i: int|
                        0 <= i < cards.len() ==> is_at_hand(list@, (#[trigger] cards[i]).scryfall_id@)
                    &&& prints(job, cards, filename_of(self.name@, options.filename), cache@, *cfg)
                },
                (Ok(list), Err(AssembleError::FetchFailed { asset_id, error })) => {
                    let cards = selection_of(*self, options.print_tokens);
                    exists|i: int|
                        {
                            &&& #[trigger] first_missing(cards, list@, i)
                            &&& asset_id@ == cards[i].scryfall_id@
                            &&& result_of(list@, asset_id@) == Some(FetchResult::Failed(error))
                        }
                },
                (Ok(list), Err(AssembleError::NotFetched { asset_id })) => {
                    let cards = selection_of(*self, options.print_tokens);
                    exists|i: int|
                        {
                            &&& #[trigger] first_missing(cards, list@, i)
                            &&& asset_id@ == cards[i].scryfall_id@
                            &&& result_of(list@, asset_id@) is None
                        }
                },
            },
    {
        let list = match fetched {
            Ok(list) => list,
            Err(failure) => {
                return Err(
                    AssembleError::FetchFailed {
                        asset_id: failure.asset_id.clone(),
                        error: failure.error,
                    },
                );
            },
        };
        let selected = self.selected_cards(options);
        let mut i: usize = 0;
        while i < selected.len()
            invariant
                0 <= i <= selected@.len(),
                *fetched matches Ok(given) && given == *list,
                selected@ == selection_of(*self, options.print_tokens),
                forall|j: int| 0 <= j < i ==> is_at_hand(list@, (#[trigger] selected@[j]).scryfall_id@),
            decreases selected@.len() - i,
        {
            match find_result(list, &selected[i]) {
                Some(FetchResult::Failed(error)) => {
                    assert(first_missing(selected@, list@, i as int));
                    return Err(
                        AssembleError::FetchFailed {
                            asset_id: selected[i].scryfall_id.clone(),
                            error,
                        },
                    );
                },
                Some(_) => {},
                None => {
                    assert(first_missing(selected@, list@, i as int));
                    return Err(
                        AssembleError::NotFetched { asset_id: selected[i].scryfall_id.clone() },
                    );
                },
            }
            i = i + 1;
        }
        let placements = layout(&selected, cfg);
        let mut items: Vec<PrintItem> = Vec::new();
        let mut k: usize = 0;
        while k < selected.len()
            invariant
                0 <= k <= selected@.len(),
                placements@.len() == selected@.len(),
                items@.len() == k,
                forall|j: int|
                    0 <= j < k ==> (#[trigger] items@[j]).placement == placements@[j]
                        && items@[j].image_path@ == cache_path_of(cache@, selected@[j].scryfall_id@),
            decreases selected@.len() - k,
        {
            items.push(
                PrintItem {
                    placement: placements[k].clone(),
                    image_path: selected[k].cache_path(cache),
                },
            );
            k = k + 1;
        }
        Ok(PrintJob { filename: self.output_filename(options), items })
    }
}

} // verus!
