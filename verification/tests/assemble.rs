use tiffer::assemble::AssembleError;
use tiffer::batch::Batch;
use tiffer::batch::BatchAction;
use tiffer::batch::BatchFailure;
use tiffer::batch::Fetched;
use tiffer::deck::Card;
use tiffer::deck::Deck;
use tiffer::deck::DeckGenerationOptions;
use tiffer::fetch::FetchAction;
use tiffer::fetch::FetchError;
use tiffer::fetch::FetchEvent;
use tiffer::fetch::FetchResult;
use tiffer::fetch::FetchState;
use tiffer::layout::LayoutConfig;

fn card(id: &str) -> Card {
    Card { name: format!("card {}", id), scryfall_id: id.to_string() }
}

fn deck(cards: &[&str], tokens: &[&str]) -> Deck {
    Deck {
        name: "Test".to_string(),
        cards: cards.iter().map(|id| card(id)).collect(),
        tokens: tokens.iter().map(|id| card(id)).collect(),
    }
}

fn options(print_tokens: bool) -> DeckGenerationOptions {
    DeckGenerationOptions { print_tokens, filename: None }
}

fn fetched(ids: &[&str]) -> Result<Vec<Fetched>, BatchFailure> {
    Ok(ids
        .iter()
        .map(|id| Fetched { asset_id: id.to_string(), result: FetchResult::Downloaded })
        .collect())
}

/// Runs a whole batch against a server that has every image, and records
/// which addresses were asked for.
fn run_batch(mut batch: Batch, asked: &mut Vec<String>) -> Result<Vec<Fetched>, BatchFailure> {
    let mut under_way: Vec<(usize, Card)> = Vec::new();
    loop {
        let (next, action) = batch.poll();
        batch = next;
        match action {
            BatchAction::Start { job, card } => under_way.push((job, card)),
            BatchAction::Wait => {
                let (job, card) = under_way.pop().unwrap();
                let mut state = FetchState::start();
                let mut action = card.action("/cache", &state);
                let result = loop {
                    let event = match action {
                        FetchAction::CheckCache { .. } => FetchEvent::CacheChecked { present: false },
                        FetchAction::Get { url, .. } => {
                            asked.push(url);
                            FetchEvent::Response { status: 200, retry_after: None }
                        }
                        FetchAction::Store { .. } => FetchEvent::Stored,
                        FetchAction::Sleep { .. } => FetchEvent::Woke,
                        FetchAction::Finish(result) => break result,
                    };
                    let (next, then) = card.download("/cache", state, &event);
                    state = next;
                    action = then;
                };
                let (next, accepted) = batch.complete(job, result);
                assert!(accepted);
                batch = next;
            }
            BatchAction::Finish(outcome) => return outcome,
        }
    }
}

#[test]
fn end_to_end_repeated_card_is_fetched_once_and_placed_every_time() {
    let deck = deck(&["A", "A", "B"], &[]);
    let opts = options(false);
    let batch = deck.download(&opts, 2).unwrap();
    let jobs: Vec<&str> = batch.jobs().iter().map(|c| c.scryfall_id.as_str()).collect();
    assert_eq!(jobs, vec!["A", "B"]);
    let mut asked = Vec::new();
    let outcome = run_batch(batch, &mut asked);
    asked.sort();
    assert_eq!(
        asked,
        vec![
            "https://api.scryfall.com/cards/A/?format=image",
            "https://api.scryfall.com/cards/B/?format=image"
        ]
    );
    let job = deck.generate(&opts, "/cache", &LayoutConfig::a4(), &outcome).unwrap();
    assert_eq!(job.filename, "Test.pdf");
    let placed: Vec<(&str, usize)> =
        job.items.iter().map(|i| (i.placement.asset_id.as_str(), i.placement.page_index)).collect();
    assert_eq!(placed, vec![("A", 0), ("A", 0), ("B", 0)]);
    let paths: Vec<&str> = job.items.iter().map(|i| i.image_path.as_str()).collect();
    assert_eq!(paths, vec!["/cache/A.jpg", "/cache/A.jpg", "/cache/B.jpg"]);
    let xs: Vec<u64> = job.items.iter().map(|i| i.placement.x).collect();
    assert_eq!(xs, vec![10_500, 73_500, 136_500]);
}

#[test]
fn download_leaves_the_tokens_out_unless_asked_for() {
    let deck = deck(&["A", "B"], &["T", "A"]);
    let without = deck.download(&options(false), 1).unwrap();
    assert_eq!(without.jobs().len(), 2);
    let with = deck.download(&options(true), 1).unwrap();
    let jobs: Vec<&str> = with.jobs().iter().map(|c| c.scryfall_id.as_str()).collect();
    assert_eq!(jobs, vec!["A", "B", "T"]);
}

#[test]
fn download_needs_a_limit() {
    assert!(deck(&["A"], &[]).download(&options(false), 0).is_none());
}

#[test]
fn generate_prints_tokens_after_cards() {
    let deck = deck(&["A", "B"], &["T"]);
    let job = deck
        .generate(&options(true), "/c", &LayoutConfig::a4(), &fetched(&["A", "B", "T"]))
        .unwrap();
    let placed: Vec<&str> = job.items.iter().map(|i| i.placement.asset_id.as_str()).collect();
    assert_eq!(placed, vec!["A", "B", "T"]);
    assert_eq!(job.items[2].image_path, "/c/T.jpg");
}

#[test]
fn generate_skips_tokens_when_not_asked_for() {
    let deck = deck(&["A", "B"], &["T"]);
    let job =
        deck.generate(&options(false), "/c", &LayoutConfig::a4(), &fetched(&["A", "B"])).unwrap();
    assert_eq!(job.items.len(), 2);
}

#[test]
fn generate_uses_the_geometry_it_is_given() {
    let deck = deck(&["A", "B", "C"], &[]);
    let cfg = LayoutConfig::new(100, 100, 40, 40, 2, 10).unwrap();
    let job = deck.generate(&options(false), "/c", &cfg, &fetched(&["A", "B", "C"])).unwrap();
    let spots: Vec<(usize, u64, u64)> = job
        .items
        .iter()
        .map(|i| (i.placement.page_index, i.placement.x, i.placement.y))
        .collect();
    assert_eq!(spots, vec![(0, 10, 50), (0, 50, 50), (0, 10, 10)]);
}

#[test]
fn generate_takes_the_filename_asked_for() {
    let deck = deck(&["A"], &[]);
    let opts = DeckGenerationOptions { print_tokens: false, filename: Some("mine.pdf".to_string()) };
    let job = deck.generate(&opts, "/c", &LayoutConfig::a4(), &fetched(&["A"])).unwrap();
    assert_eq!(job.filename, "mine.pdf");
}

#[test]
fn failed_fetches_leave_no_document() {
    let deck = deck(&["A", "B"], &[]);
    let error = FetchError::PermanentHttp { status: 404, attempts: 1 };
    let outcome = Err(BatchFailure { asset_id: "B".to_string(), error });
    match deck.generate(&options(false), "/c", &LayoutConfig::a4(), &outcome) {
        Err(AssembleError::FetchFailed { asset_id, error: reported }) => {
            assert_eq!(asset_id, "B");
            assert_eq!(reported, error);
        }
        other => panic!("unexpected result {:?}", other),
    }
}

#[test]
fn card_without_a_reported_fetch_leaves_no_document() {
    let deck = deck(&["A", "B", "C"], &[]);
    match deck.generate(&options(false), "/c", &LayoutConfig::a4(), &fetched(&["A"])) {
        Err(AssembleError::NotFetched { asset_id }) => assert_eq!(asset_id, "B"),
        other => panic!("unexpected result {:?}", other),
    }
}

#[test]
fn listed_failure_leaves_no_document() {
    let deck = deck(&["A", "B"], &[]);
    let error = FetchError::WriteFailed { attempts: 2 };
    let listed = Ok(vec![
        Fetched { asset_id: "A".to_string(), result: FetchResult::Cached },
        Fetched { asset_id: "B".to_string(), result: FetchResult::Failed(error) },
    ]);
    match deck.generate(&options(false), "/c", &LayoutConfig::a4(), &listed) {
        Err(AssembleError::FetchFailed { asset_id, error: reported }) => {
            assert_eq!(asset_id, "B");
            assert_eq!(reported, error);
        }
        other => panic!("unexpected result {:?}", other),
    }
}

#[test]
fn empty_deck_makes_an_empty_document() {
    let deck = deck(&[], &[]);
    let job = deck.generate(&options(true), "/c", &LayoutConfig::a4(), &fetched(&[])).unwrap();
    assert!(job.items.is_empty());
    assert_eq!(job.filename, "Test.pdf");
}
