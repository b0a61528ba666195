use tiffer::deck::Card;
use tiffer::layout::layout;
use tiffer::layout::LayoutConfig;
use tiffer::layout::Placement;

fn cards(n: usize) -> Vec<Card> {
    (0..n).map(|i| Card { name: format!("card {}", i), scryfall_id: format!("id-{}", i) }).collect()
}

fn spot(p: &Placement) -> (usize, u64, u64) {
    (p.page_index, p.x, p.y)
}

#[test]
fn a4_has_the_default_sizes() {
    let cfg = LayoutConfig::a4();
    assert_eq!(cfg.page_width(), 210_000);
    assert_eq!(cfg.page_height(), 297_000);
    assert_eq!(cfg.cell_width(), 63_000);
    assert_eq!(cfg.cell_height(), 87_800);
    assert_eq!(cfg.columns(), 3);
    assert_eq!(cfg.margin(), 15_000);
    assert_eq!(cfg.x_start(), 10_500);
    assert_eq!(cfg.y_top(), 194_200);
    assert_eq!(cfg.cells_per_row(), 3);
    assert_eq!(cfg.rows_per_page(), 3);
}

#[test]
fn new_equals_a4_for_the_default_sizes() {
    let cfg = LayoutConfig::new(210_000, 297_000, 63_000, 87_800, 3, 15_000).unwrap();
    assert_eq!(cfg.x_start(), LayoutConfig::a4().x_start());
    assert_eq!(cfg.y_top(), LayoutConfig::a4().y_top());
    assert_eq!(cfg.cells_per_row(), 3);
    assert_eq!(cfg.rows_per_page(), 3);
}

#[test]
fn new_refuses_columns_wider_than_the_page() {
    assert!(LayoutConfig::new(210_000, 297_000, 63_000, 87_800, 4, 15_000).is_none());
    assert!(LayoutConfig::new(189_000, 297_000, 63_000, 87_800, 3, 15_000).is_some());
    assert!(LayoutConfig::new(188_999, 297_000, 63_000, 87_800, 3, 15_000).is_none());
}

#[test]
fn new_refuses_empty_cells_and_no_columns() {
    assert!(LayoutConfig::new(210_000, 297_000, 0, 87_800, 3, 15_000).is_none());
    assert!(LayoutConfig::new(210_000, 297_000, 63_000, 0, 3, 15_000).is_none());
    assert!(LayoutConfig::new(210_000, 297_000, 63_000, 87_800, 0, 15_000).is_none());
}

#[test]
fn new_refuses_a_page_too_short_for_one_row() {
    assert!(LayoutConfig::new(210_000, 100_000, 63_000, 87_800, 3, 15_000).is_none());
    assert!(LayoutConfig::new(210_000, 102_800, 63_000, 87_800, 3, 15_000).is_some());
    assert!(LayoutConfig::new(210_000, 50_000, 63_000, 87_800, 3, 0).is_none());
}

#[test]
fn new_refuses_sizes_whose_product_overflows() {
    assert!(LayoutConfig::new(u64::MAX, u64::MAX, u64::MAX, 1, 2, 0).is_none());
    assert!(LayoutConfig::new(u64::MAX, u64::MAX, 1, 1, u64::MAX, u64::MAX - 1).is_some());
    assert!(LayoutConfig::new(u64::MAX, u64::MAX, 1, 2, 1, u64::MAX - 1).is_none());
}

#[test]
fn no_cards_no_placements() {
    assert!(layout(&Vec::new(), &LayoutConfig::a4()).is_empty());
}

#[test]
fn first_row_runs_left_to_right() {
    let out = layout(&cards(3), &LayoutConfig::a4());
    assert_eq!(spot(&out[0]), (0, 10_500, 194_200));
    assert_eq!(spot(&out[1]), (0, 73_500, 194_200));
    assert_eq!(spot(&out[2]), (0, 136_500, 194_200));
}

#[test]
fn fourth_card_starts_second_row() {
    let out = layout(&cards(4), &LayoutConfig::a4());
    assert_eq!(out.len(), 4);
    assert_eq!(out[3].x, out[0].x);
    assert_eq!(spot(&out[3]), (0, 10_500, 106_400));
}

#[test]
fn card_after_a_full_page_starts_the_next_page() {
    let cfg = LayoutConfig::a4();
    let rows = cfg.rows_per_page() as usize;
    let out = layout(&cards(3 * rows + 1), &cfg);
    assert_eq!(spot(&out[3 * rows - 1]), (0, 136_500, 18_600));
    assert_eq!(spot(&out[3 * rows]), (1, 10_500, 194_200));
}

#[test]
fn pages_are_added_as_needed() {
    let out = layout(&cards(100), &LayoutConfig::a4());
    assert_eq!(out.len(), 100);
    for (i, p) in out.iter().enumerate() {
        assert_eq!(p.page_index, i / 9);
        assert_eq!(p.x, 10_500 + (i % 3) as u64 * 63_000);
        assert_eq!(p.y, 194_200 - ((i / 3) % 3) as u64 * 87_800);
    }
    assert_eq!(out[99].page_index, 11);
}

#[test]
fn every_placement_lies_on_the_page() {
    let configs = [
        LayoutConfig::a4(),
        LayoutConfig::new(100, 100, 30, 30, 3, 5).unwrap(),
        LayoutConfig::new(100, 100, 7, 13, 2, 0).unwrap(),
        LayoutConfig::new(10, 10, 10, 10, 1, 0).unwrap(),
    ];
    for cfg in configs.iter() {
        for p in layout(&cards(50), cfg).iter() {
            assert!(p.x + cfg.cell_width() <= cfg.page_width());
            assert!(p.y + cfg.cell_height() + cfg.margin() <= cfg.page_height());
        }
    }
}

#[test]
fn placements_keep_the_order_of_the_cards() {
    let mut deck = cards(5);
    deck.push(Card { name: "again".to_string(), scryfall_id: "id-1".to_string() });
    deck.swap(0, 4);
    let out = layout(&deck, &LayoutConfig::a4());
    let placed: Vec<&str> = out.iter().map(|p| p.asset_id.as_str()).collect();
    assert_eq!(placed, vec!["id-4", "id-1", "id-2", "id-3", "id-0", "id-1"]);
}

#[test]
fn layout_is_a_function_of_its_input() {
    let deck = cards(20);
    let cfg = LayoutConfig::new(500, 700, 120, 200, 3, 40).unwrap();
    let a: Vec<_> = layout(&deck, &cfg).iter().map(spot).collect();
    let b: Vec<_> = layout(&deck, &cfg).iter().map(spot).collect();
    assert_eq!(a, b);
}

#[test]
fn a_row_takes_what_fits_beside_narrow_columns() {
    // Two columns of 10 centred on 100: the row starts at 40 and runs to the
    // right edge, so six cells fit.
    let cfg = LayoutConfig::new(100, 100, 10, 50, 2, 0).unwrap();
    assert_eq!(cfg.x_start(), 40);
    assert_eq!(cfg.cells_per_row(), 6);
    assert_eq!(cfg.rows_per_page(), 2);
    let out = layout(&cards(13), &cfg);
    assert_eq!(spot(&out[5]), (0, 90, 50));
    assert_eq!(spot(&out[6]), (0, 40, 0));
    assert_eq!(spot(&out[12]), (1, 40, 50));
}

#[test]
fn odd_side_space_rounds_the_row_start_down() {
    let cfg = LayoutConfig::new(101, 100, 30, 30, 3, 5).unwrap();
    assert_eq!(cfg.x_start(), 5);
    assert_eq!(cfg.cells_per_row(), 3);
    assert_eq!(cfg.y_top(), 65);
    assert_eq!(cfg.rows_per_page(), 3);
}

#[test]
fn one_cell_fills_the_page() {
    let cfg = LayoutConfig::new(10, 10, 10, 10, 1, 0).unwrap();
    let out = layout(&cards(3), &cfg);
    assert_eq!(spot(&out[0]), (0, 0, 0));
    assert_eq!(spot(&out[1]), (1, 0, 0));
    assert_eq!(spot(&out[2]), (2, 0, 0));
}

#[test]
fn placement_clone_keeps_every_field() {
    let out = layout(&cards(5), &LayoutConfig::a4());
    let copy = out[4].clone();
    assert_eq!(copy.asset_id, "id-4");
    assert_eq!(spot(&copy), spot(&out[4]));
}
