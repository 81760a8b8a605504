use sfrom::catalog::{sanitize_sort_title, stored_title_to_option, title_option_to_stored};

#[test]
fn sort_title_is_lowercased_and_underscored() {
    assert_eq!(sanitize_sort_title("Super Game World 2"), "super_game_world_2");
    assert_eq!(sanitize_sort_title("ALL CAPS"), "all_caps");
    assert_eq!(sanitize_sort_title(""), "");
    assert_eq!(sanitize_sort_title("no-spaces"), "no-spaces");
}

#[test]
fn blank_marker_means_absent_title() {
    assert_eq!(stored_title_to_option("\u{30fc}".to_owned()), None);
    assert_eq!(
        stored_title_to_option("Mario".to_owned()),
        Some("Mario".to_owned())
    );
}

#[test]
fn absent_title_stores_blank_marker() {
    assert_eq!(title_option_to_stored(None), "\u{30fc}");
    assert_eq!(title_option_to_stored(Some("Zelda".to_owned())), "Zelda");
}

#[test]
fn title_storage_roundtrip() {
    assert_eq!(
        stored_title_to_option(title_option_to_stored(None)),
        None
    );
    assert_eq!(
        stored_title_to_option(title_option_to_stored(Some("Kirby".to_owned()))),
        Some("Kirby".to_owned())
    );
}
