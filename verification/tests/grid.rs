use perfect_grid::get_optimal_grid;
use perfect_grid::GridConfigError;
use perfect_grid::ImageGrid;

/// An aspect ratio in the library's fixed-point representation: whole
/// millionths, rounded to nearest.
fn ppm(ratio: f64) -> u32 {
    (ratio * 1_000_000.0).round() as u32
}

#[test]
fn must_fit_4_items() {
    let ratios: Vec<u32> = vec![
        ppm(0.6678141135972461),
        ppm(1.5086206896551724),
        ppm(0.6666666666666666),
        ppm(1.7396551724137932),
    ];
    let inst = ImageGrid {
        available_width: 1526,
        min_line_height: 200,
        max_line_height: 641,
        gap: 4,
        min_item_width: 175,
    };
    let result = inst.get_optimal_height(&ratios);

    assert_eq!(result, 330);
}

#[test]
fn suits_four_of_six() {
    let ratios: Vec<u32> = vec![
        ppm(0.6678141135972461),
        ppm(1.5086206896551724),
        ppm(0.5623318385650224),
        ppm(0.6666666666666666),
        ppm(1.7396551724137932),
        ppm(1.7396551724137932),
    ];
    let inst = ImageGrid {
        available_width: 1526,
        gap: 4,
        min_line_height: 200,
        max_line_height: 444,
        min_item_width: 175,
    };
    assert_eq!(inst.get_row_from_items(&ratios), [(4, 444), (2, 437)]);
}

#[test]
fn equals_must_fit_3_by_row() {
    let ratios: Vec<u32> = vec![ppm(0.875); 12];
    let inst = ImageGrid {
        available_width: 1602,
        gap: 4,
        min_line_height: 200,
        max_line_height: 500,
        min_item_width: 180,
    };

    assert_eq!(inst.get_row_from_items(&ratios), [(8, 224), (4, 454)]);
}

#[test]
fn must_fit_4_squares() {
    let ratios: Vec<u32> = vec![ppm(1.0); 4];
    let inst = ImageGrid {
        available_width: 800,
        gap: 0,
        min_line_height: 200,
        max_line_height: 500,
        min_item_width: 180,
    };

    assert_eq!(inst.get_row_from_items(&ratios), [(4, 200)]);
}

#[test]
fn fit_5th_square_next_line() {
    let ratios: Vec<u32> = vec![ppm(1.0); 5];
    let inst = ImageGrid {
        available_width: 800,
        gap: 0,
        min_line_height: 200,
        max_line_height: 500,
        min_item_width: 180,
    };

    assert_eq!(inst.get_row_from_items(&ratios), [(4, 200), (1, 500)]);
}

#[test]
fn test_new_min_height_bigger_than_max_height() {
    let available_width = 1000;
    let min_line_height = 200;
    let max_line_height = 100;
    let min_item_width = 50;
    let gap = 10;

    let result = ImageGrid::new(
        available_width,
        min_line_height,
        max_line_height,
        min_item_width,
        gap,
    );

    assert_eq!(result, Err(GridConfigError::MinHeightAboveMaxHeight));
}

#[test]
fn test_new_available_width_less_than_min_item_width() {
    let available_width = 40;
    let min_line_height = 100;
    let max_line_height = 200;
    let min_item_width = 50;
    let gap = 10;

    let result = ImageGrid::new(
        available_width,
        min_line_height,
        max_line_height,
        min_item_width,
        gap,
    );

    assert_eq!(result, Err(GridConfigError::AvailableWidthBelowMinItemWidth));
}

#[test]
fn test_20_items_real_example() {
    let ratios: Vec<u32> = vec![
        ppm(0.875),
        ppm(0.875),
        ppm(0.875),
        ppm(16.0 / 9.0),
        ppm(3.5555555555555554),
        ppm(0.875),
        ppm(0.875),
        ppm(0.875),
        ppm(0.6648401826484018),
        ppm(0.875),
        ppm(16.0 / 9.0),
        ppm(0.875),
        ppm(16.0 / 9.0),
        ppm(16.0 / 9.0),
        ppm(16.0 / 9.0),
        ppm(0.875),
        ppm(0.875),
        ppm(0.875),
        ppm(0.875),
        ppm(0.875),
    ];
    let inst = ImageGrid {
        available_width: 1526,
        gap: 4,
        max_line_height: 575,
        min_item_width: 175,
        min_line_height: 200,
    };

    assert_eq!(
        inst.get_row_from_items(&ratios),
        [(4, 343), (4, 244), (4, 361), (5, 213), (3, 575)]
    );
}

#[test]
fn valid_configuration_is_accepted_as_given() {
    let result = ImageGrid::new(1526, 200, 641, 175, 4);
    assert_eq!(
        result,
        Ok(ImageGrid {
            available_width: 1526,
            min_line_height: 200,
            max_line_height: 641,
            min_item_width: 175,
            gap: 4,
        })
    );
}

#[test]
fn row_counts_cover_every_item() {
    let ratios: Vec<u32> = vec![ppm(0.875); 12];
    let inst = ImageGrid {
        available_width: 1602,
        gap: 4,
        min_line_height: 200,
        max_line_height: 500,
        min_item_width: 180,
    };
    let rows = inst.get_row_from_items(&ratios);
    let total: usize = rows.iter().map(|row| row.0).sum();
    assert_eq!(total, ratios.len());
}

#[test]
fn committed_rows_respect_width_and_item_floor() {
    // The two rows of the 12-item gallery, checked against the raw
    // constraints in exact fixed-point arithmetic.
    let ratio = ppm(0.875) as u64;
    let scale: u64 = 1_000_000;
    for (count, height) in [(8u64, 224u64), (4u64, 454u64)] {
        let row_width = count * height * ratio + 4 * scale * (count - 1);
        assert!(row_width <= 1602 * scale);
        assert!(height * ratio >= 180 * scale);
        assert!(200 <= height && height <= 500);
    }
}

#[test]
fn forced_overflow_row_is_pinned_to_min_line_height() {
    // A single item that fits at its ideal height but at no height inside
    // the band: every admissible height leaves it narrower than the
    // minimum item width, so it is forced into its own row at exactly the
    // minimum line height.
    let ratios: Vec<u32> = vec![ppm(1.0)];
    let inst = ImageGrid {
        available_width: 1000,
        gap: 0,
        min_line_height: 100,
        max_line_height: 200,
        min_item_width: 300,
    };
    assert_eq!(inst.get_row_from_items(&ratios), [(1, 100)]);
}

#[test]
fn unfittable_item_packs_to_the_sentinel_row() {
    // An item two hundred times wider than the container fits at no
    // candidate height: the packer emits the zero-item sentinel row and
    // the item is absent from the flat layout.
    let ratios: Vec<u32> = vec![ppm(200.0)];
    let inst = ImageGrid {
        available_width: 100,
        gap: 0,
        min_line_height: 10,
        max_line_height: 20,
        min_item_width: 5,
    };
    assert_eq!(inst.get_row_from_items(&ratios), [(0, 0)]);
}

#[test]
fn packing_twice_yields_identical_rows() {
    let first: Vec<u32> = vec![ppm(1.0); 5];
    let second: Vec<u32> = vec![ppm(1.0); 5];
    let inst = ImageGrid {
        available_width: 800,
        gap: 0,
        min_line_height: 200,
        max_line_height: 500,
        min_item_width: 180,
    };
    assert_eq!(
        inst.get_row_from_items(&first),
        inst.get_row_from_items(&second)
    );
}

#[test]
fn empty_input_packs_to_the_sentinel_row() {
    let ratios: Vec<u32> = Vec::new();
    let inst = ImageGrid {
        available_width: 800,
        gap: 0,
        min_line_height: 200,
        max_line_height: 500,
        min_item_width: 180,
    };
    assert_eq!(inst.get_row_from_items(&ratios), [(0, 0)]);
}

#[test]
fn grid_expands_rows_into_one_height_per_item() {
    let ratios: Vec<u32> = vec![ppm(1.0); 5];
    let heights = get_optimal_grid(&ratios, 800, 200, 500, 180, 0);
    assert_eq!(heights, Ok(vec![200, 200, 200, 200, 500]));
}

#[test]
fn grid_of_empty_input_is_empty() {
    let ratios: Vec<u32> = Vec::new();
    let heights = get_optimal_grid(&ratios, 800, 200, 500, 180, 0);
    assert_eq!(heights, Ok(Vec::new()));
}

#[test]
fn grid_rejects_an_invalid_configuration() {
    let ratios: Vec<u32> = vec![ppm(1.0)];
    assert_eq!(
        get_optimal_grid(&ratios, 1000, 200, 100, 50, 10),
        Err(GridConfigError::MinHeightAboveMaxHeight)
    );
    assert_eq!(
        get_optimal_grid(&ratios, 40, 100, 200, 50, 10),
        Err(GridConfigError::AvailableWidthBelowMinItemWidth)
    );
}

#[test]
fn ideal_height_of_a_full_width_square() {
    // One square in an 800-wide container: the ideal height is the full
    // width, ignoring the height band.
    let ratios: Vec<u32> = vec![ppm(1.0)];
    let inst = ImageGrid {
        available_width: 800,
        gap: 0,
        min_line_height: 200,
        max_line_height: 500,
        min_item_width: 180,
    };
    assert_eq!(inst.get_optimal_height(&ratios), 800);
}
