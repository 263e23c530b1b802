use oneclient_logic::grid::{chunk_clusters, grid_columns_for_width, placeholder_count};
use oneclient_logic::text::{eq_ignore_ascii_case, is_white_space, trim, trim_end_matches};

#[test]
fn trim_removes_unicode_white_space_at_both_ends() {
    assert_eq!(trim("  hi there \t\n"), "hi there");
    assert_eq!(trim("\u{3000}x\u{85}"), "x");
    assert_eq!(trim("\u{a0}\u{2003}"), "");
    assert_eq!(trim(""), "");
    assert_eq!(trim("nospace"), "nospace");
}

#[test]
fn white_space_matches_std() {
    for c in ['\t', '\n', '\u{b}', '\u{c}', '\r', ' ', '\u{85}', '\u{a0}', '\u{1680}', '\u{2000}', '\u{200a}', '\u{2028}', '\u{2029}', '\u{202f}', '\u{205f}', '\u{3000}', 'a', '\u{200b}', '\u{180e}', '_'] {
        assert_eq!(is_white_space(c), c.is_whitespace(), "{:?}", c);
    }
}

#[test]
fn ascii_case_folding_only_touches_ascii_letters() {
    assert!(eq_ignore_ascii_case("TechnoBlade", "technoblade"));
    assert!(eq_ignore_ascii_case("jeb_", "JEB_"));
    assert!(!eq_ignore_ascii_case("Ä", "ä"));
    assert!(!eq_ignore_ascii_case("dream", "dreams"));
    assert!(!eq_ignore_ascii_case("[", "{"));
    assert!(eq_ignore_ascii_case("", ""));
}

#[test]
fn trailing_suffixes_are_all_removed() {
    assert_eq!(trim_end_matches("a.jar.disabled.disabled", ".disabled"), "a.jar");
    assert_eq!(trim_end_matches("a.jar.disabledx", ".disabled"), "a.jar.disabledx");
    assert_eq!(trim_end_matches(".disabled", ".disabled"), "");
    assert_eq!(trim_end_matches("mod.jar", ".disabled"), "mod.jar");
}

#[test]
fn columns_follow_the_card_width_thresholds() {
    assert_eq!(grid_columns_for_width(0), 1);
    assert_eq!(grid_columns_for_width(15), 1);
    assert_eq!(grid_columns_for_width(295), 1);
    assert_eq!(grid_columns_for_width(296), 1);
    assert_eq!(grid_columns_for_width(599), 1);
    assert_eq!(grid_columns_for_width(600), 2);
    assert_eq!(grid_columns_for_width(891), 2);
    assert_eq!(grid_columns_for_width(892), 3);
    assert_eq!(grid_columns_for_width(u32::MAX), 3);
}

#[test]
fn columns_never_drop_as_the_grid_widens() {
    let mut last = grid_columns_for_width(0);
    for w in 0..3000u32 {
        let c = grid_columns_for_width(w);
        assert!((1..=3).contains(&c));
        assert!(c >= last);
        last = c;
    }
}

#[test]
fn clusters_are_cut_into_full_rows_and_a_last_one() {
    let items = [1u32, 2, 3, 4, 5, 6, 7];
    assert_eq!(chunk_clusters(&items, 3), vec![vec![1, 2, 3], vec![4, 5, 6], vec![7]]);
    assert_eq!(chunk_clusters(&items, 7), vec![vec![1, 2, 3, 4, 5, 6, 7]]);
    assert_eq!(chunk_clusters(&items, 10), vec![vec![1, 2, 3, 4, 5, 6, 7]]);
    assert_eq!(chunk_clusters(&items[..6], 2), vec![vec![1, 2], vec![3, 4], vec![5, 6]]);
}

#[test]
fn no_columns_keeps_every_cluster_in_one_row() {
    let items = ["a", "b", "c"];
    assert_eq!(chunk_clusters(&items, 0), vec![vec!["a", "b", "c"]]);
    let none: [u8; 0] = [];
    assert!(chunk_clusters(&none, 0).is_empty());
    assert!(chunk_clusters(&none, 3).is_empty());
}

#[test]
fn rows_read_in_order_give_back_the_clusters() {
    let items: Vec<u64> = (0..23).collect();
    for columns in 0..8 {
        let rows = chunk_clusters(&items, columns);
        let flat: Vec<u64> = rows.iter().flatten().copied().collect();
        assert_eq!(flat, items);
        let width = if columns == 0 { items.len() } else { columns };
        for (i, row) in rows.iter().enumerate() {
            assert!(!row.is_empty() && row.len() <= width);
            if i + 1 < rows.len() {
                assert_eq!(row.len(), width);
            }
        }
    }
}

#[test]
fn short_rows_are_padded_to_the_grid_width() {
    assert_eq!(placeholder_count(1, 3), 2);
    assert_eq!(placeholder_count(3, 3), 0);
    assert_eq!(placeholder_count(4, 3), 0);
    assert_eq!(placeholder_count(0, 0), 0);
}

#[test]
fn trimming_twice_is_trimming_once() {
    for s in ["  a b  ", "\u{3000}\u{85}x\u{a0}", "   ", "", "q"] {
        assert_eq!(trim(trim(s)), trim(s));
    }
}

#[test]
fn ascii_case_matching_is_an_equivalence() {
    let words = ["Notch", "NOTCH", "notch", "Notc", "nOtCh"];
    for a in words {
        assert!(eq_ignore_ascii_case(a, a));
        for b in words {
            assert_eq!(eq_ignore_ascii_case(a, b), eq_ignore_ascii_case(b, a));
            for c in words {
                if eq_ignore_ascii_case(a, b) && eq_ignore_ascii_case(b, c) {
                    assert!(eq_ignore_ascii_case(a, c));
                }
            }
        }
    }
}
