use aoc_stars::{generate_svg, Star, Years};

fn count_occurrences(haystack: &str, needle: &str) -> usize {
    haystack.matches(needle).count()
}

#[test]
fn test_empty_years() {
    let years: Years = vec![];
    let svg = generate_svg(years);
    assert!(svg.starts_with("<svg"));
    assert!(svg.ends_with("</svg>"));
}

#[test]
fn test_single_year_no_stars() {
    let years: Years = vec![(2023, vec![0; 25])];
    let svg = generate_svg(years);
    assert!(svg.contains("2023"));
    assert!(svg.contains("Total stars: 0"));
}

#[test]
fn test_silver_and_gold_stars() {
    let years: Years = vec![(2023, vec![0, 1, 2, 0, 1])];
    let svg = generate_svg(years);
    assert!(svg.contains(r#"class="star silver"#));
    assert!(svg.contains(r#"class="star gold"#));
    assert!(svg.contains("Total stars: 4"));
}

#[test]
fn test_multiple_years() {
    let years: Years = vec![(2022, vec![1, 1]), (2023, vec![2, 2])];
    let svg = generate_svg(years);
    assert!(svg.contains("2022"));
    assert!(svg.contains("2023"));
    assert!(svg.contains("Total stars: 6"));
}

#[test]
fn test_star_conversion() {
    assert!(matches!(Star::from(0), Star::NoStar));
    assert!(matches!(Star::from(1), Star::Silver));
    assert!(matches!(Star::from(2), Star::Gold));
    assert!(matches!(Star::from(3), Star::NoStar));
}

#[test]
fn test_style_definitions() {
    let years: Years = vec![(2023, vec![0; 1])];
    let svg = generate_svg(years);
    assert!(svg.contains("<style>"));
    assert!(svg.contains("prefers-color-scheme: light"));
    assert!(svg.contains("prefers-color-scheme: dark"));
    assert!(svg.contains(".silver {"));
    assert!(svg.contains(".gold {"));
}

#[test]
fn test_correct_star_counts() {
    let years: Years = vec![(2023, vec![1, 2, 1, 0, 2])];
    let svg = generate_svg(years);
    let silver_stars = count_occurrences(&svg, r#"class="star silver"#);
    let gold_stars = count_occurrences(&svg, r#"class="star gold"#);
    assert_eq!(silver_stars, 2, "Should have exactly 2 silver stars");
    assert_eq!(gold_stars, 2, "Should have exactly 2 gold stars");
    assert!(svg.contains("Total stars: 6"));
}

#[test]
fn header_dimensions_follow_grid_size() {
    let years: Years = vec![(2023, vec![0; 25])];
    let svg = generate_svg(years);
    // 26 columns of 20 plus offsets: 40 + 520 + 40; one row: 60 + 20 + 80.
    assert!(svg.starts_with(
        r#"<svg xmlns="http://www.w3.org/2000/svg" width="600" height="160" viewBox="0 0 600 160">"#
    ));
    assert!(svg.contains(r#"<rect x="39" y="59" width="522" height="22" class="matrix-border"/>"#));
}

#[test]
fn two_digit_day_labels_are_split() {
    let years: Years = vec![(2023, vec![0; 12])];
    let svg = generate_svg(years);
    assert!(svg.contains(
        "<text x=\"250\" y=\"38\" class=\"day-label text\" text-anchor=\"middle\">1</text>\n                    <text x=\"250\" y=\"55\" class=\"day-label text\" text-anchor=\"middle\">1</text>"
    ));
    assert!(svg.contains(r#"<text x="50" y="55" class="day-label text" text-anchor="middle">1</text>"#));
}

#[test]
fn star_and_total_positions() {
    let years: Years = vec![(2015, vec![2, 0, 1])];
    let svg = generate_svg(years);
    assert!(svg.contains(r#"<text x="50" y="74" class="star gold" text-anchor="middle">★</text>"#));
    assert!(svg.contains(r#"<text x="90" y="74" class="star silver" text-anchor="middle">★</text>"#));
    assert!(svg.contains(r#"<text x="110" y="74" class="total-label text" text-anchor="middle">3</text>"#));
    assert!(svg.contains(r#"<text x="30" y="75" class="year-label text" text-anchor="end">2015</text>"#));
    assert!(svg.contains(r#"class="grand-total text" text-anchor="middle">Total stars: 3</text></svg>"#));
}

#[test]
fn values_above_two_draw_nothing() {
    let years: Years = vec![(2023, vec![3, 7])];
    let svg = generate_svg(years);
    assert_eq!(count_occurrences(&svg, "class=\"star "), 0);
    assert!(svg.contains("Total stars: 0"));
}
