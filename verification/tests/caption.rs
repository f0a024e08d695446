//! Captions that fit their tiles.

use fileman::caption::caption_chars_for;
use fileman::caption::char_columns;
use fileman::caption::display_columns;
use fileman::caption::elide_name;
use fileman::caption::extension_of;
use fileman::caption::list_icon_size;
use fileman::caption::name_budget_for;
use fileman::caption::take_columns;
use fileman::caption::take_columns_from_end;
use fileman::caption::tile_width_for;

#[test]
fn short_names_are_left_alone() {
    assert_eq!(elide_name("short.txt", 24), "short.txt");
    assert_eq!(elide_name("b.md", 24), "b.md");
    // Exactly at the budget is still a fit.
    assert_eq!(elide_name("123456789012", 12), "123456789012");
}

#[test]
fn the_extension_survives_truncation() {
    let out = elide_name("2026-08-30_backup_of_important_documents.tar.gz", 24);
    assert!(out.ends_with(".tar.gz"), "extension must be kept, got {out:?}");
    assert!(out.contains('\u{2026}'), "must show an ellipsis, got {out:?}");
    assert!(out.chars().count() <= 24, "must fit the budget, got {out:?}");
    assert!(out.starts_with("2026-08-30"), "must keep the front, got {out:?}");
}

#[test]
fn a_name_with_no_usable_extension_is_cut_at_the_end() {
    let out = elide_name("AnotherVeryLongNameWithNoSpacesAtAll", 20);
    assert_eq!(out.chars().count(), 20);
    assert!(out.ends_with('\u{2026}'));
    assert!(out.starts_with("AnotherVeryLongName"));
}

/// A dotfile's leading dot is not an extension, and an over-long "extension"
/// (`archive.verylongsuffix`) is not worth protecting either.
#[test]
fn dotfiles_and_absurd_extensions_fall_back_to_a_plain_cut() {
    let out = elide_name(".bashrc-with-a-very-long-tail", 12);
    assert_eq!(out.chars().count(), 12);
    assert!(out.starts_with(".bashrc"));

    let out = elide_name("archive.thisisnotanextension", 14);
    assert_eq!(out.chars().count(), 14);
    assert!(out.ends_with('\u{2026}'));
}

/// A budget too small to hold the extension plus something of the stem must
/// not degenerate into almost-all-ellipsis.
#[test]
fn a_tiny_budget_still_produces_something_readable() {
    let out = elide_name("photograph.jpeg", 8);
    assert_eq!(out.chars().count(), 8);
    assert!(out.starts_with("photogr"));
}

/// The ellipsis must never land straight before the extension's dot: on
/// screen `name….tar.gz` reads as a run of four dots.
#[test]
fn the_ellipsis_is_never_followed_by_a_dot() {
    for name in [
        "2026-08-30_backup_of_important_project_documents_final_v2.tar.gz",
        "a-moderately-long-file-name.txt",
        "AnotherVeryLongNameWithNoSpacesAtAllWhichCannot.pdf",
        "IMG_20260830_113512_HDR_Pixel8Pro_wide_angle.jpg",
    ] {
        for budget in 10..40 {
            let out = elide_name(name, budget);
            assert!(
                !out.contains("\u{2026}."),
                "budget {budget}: ellipsis butts against a dot in {out:?}"
            );
            assert!(
                display_columns(&out) <= budget,
                "budget {budget}: overflowed with {out:?}"
            );
        }
    }
}

/// The characters just before the extension are usually the version or date
/// that tells two neighbouring files apart, so they are kept.
#[test]
fn the_tail_of_the_stem_is_kept() {
    let out = elide_name("report_2026_final_v2.pdf", 18);
    assert!(out.ends_with("_v2.pdf"), "expected the version to survive, got {out:?}");
    assert!(out.starts_with("report"), "expected the front to survive, got {out:?}");
}

#[test]
fn multibyte_names_are_cut_on_character_boundaries() {
    // Would panic on a byte slice.
    let out = elide_name("площадь-очень-длинное-имя-файла.txt", 20);
    assert!(display_columns(&out) <= 20);
    assert!(out.ends_with(".txt"));
    assert!(out.starts_with("площадь"));
}

/// A name in Japanese is half as many characters for the same width, so a
/// character budget let it run past the edge of its tile.
#[test]
fn wide_glyphs_are_budgeted_by_the_space_they_take() {
    let name = "\u{87BA}\u{65CB}\u{72B6}\u{306E}\u{975E}\u{5E38}\u{306B}\u{9577}\u{3044}\u{30D5}\u{30A1}\u{30A4}\u{30EB}\u{540D}.txt";
    assert_eq!(display_columns(name), 14 * 2 + 4, "each kanji is two columns");

    let out = elide_name(name, 20);
    assert!(display_columns(&out) <= 20, "must fit its tile, got {out:?}");
    assert!(out.ends_with(".txt"));

    // Latin names of the same character count are not penalised.
    assert_eq!(elide_name("abcdefgh.txt", 20), "abcdefgh.txt");
}

#[test]
fn a_cut_after_a_space_does_not_leave_a_gap_before_the_ellipsis() {
    let out = elide_name("A Folder With A Fairly Long Name Indeed", 24);
    assert!(!out.contains(" \u{2026}"), "gap before the ellipsis in {out:?}");
    assert!(out.ends_with('\u{2026}'));
}

#[test]
fn column_widths_match_the_glyphs() {
    assert_eq!(display_columns("abc"), 3);
    assert_eq!(display_columns("\u{4E00}\u{4E8C}"), 4, "kanji are wide");
    assert_eq!(display_columns("\u{D55C}\u{AE00}"), 4, "hangul is wide");
    assert_eq!(display_columns("\u{1F600}"), 2, "emoji are wide");
    assert_eq!(display_columns("\u{E9}\u{440}"), 2, "accented latin and cyrillic are not");
}

#[test]
fn tiles_stay_close_to_their_icon_but_leave_room_for_text() {
    for icon in 16..=96 {
        let w = tile_width_for(icon);
        assert!(w >= icon, "tile must at least hold its icon");
        assert!(caption_chars_for(w) >= 8, "caption must have usable width");
    }
}

#[test]
fn list_icons_stop_growing() {
    assert_eq!(list_icon_size(16), 16);
    assert_eq!(list_icon_size(32), 32);
    assert_eq!(list_icon_size(96), 32);
}

#[test]
fn control_and_combining_glyphs_take_their_own_columns() {
    assert_eq!(char_columns('a'), 1);
    assert_eq!(char_columns('\u{3042}'), 2);
    assert_eq!(char_columns('\u{FF21}'), 2);
    assert_eq!(display_columns(""), 0);
}

#[test]
fn columns_are_taken_from_either_end() {
    assert_eq!(take_columns("abcdef", 3), "abc");
    assert_eq!(take_columns("abc", 9), "abc");
    assert_eq!(take_columns("\u{4E00}\u{4E8C}", 3), "\u{4E00}");
    assert_eq!(take_columns_from_end("abcdef", 2), "ef");
    assert_eq!(take_columns_from_end("\u{4E00}\u{4E8C}", 3), "\u{4E8C}");
    assert_eq!(take_columns_from_end("abc", 0), "");
}

#[test]
fn extensions_are_short_and_word_like() {
    assert_eq!(extension_of("a.txt"), Some(".txt".to_string()));
    assert_eq!(extension_of("backup.tar.gz"), Some(".tar.gz".to_string()));
    assert_eq!(extension_of(".bashrc"), None);
    assert_eq!(extension_of("none"), None);
    assert_eq!(extension_of("dot."), None);
}

#[test]
fn captions_fit_every_budget() {
    for name in ["photograph.jpeg", "площадь-очень-длинное-имя.txt", "no extension here at all"] {
        for budget in 1..40 {
            assert!(display_columns(&elide_name(name, budget)) <= budget);
        }
    }
    // Nothing fits into nothing, and the ellipsis is shown all the same.
    assert_eq!(elide_name("photograph.jpeg", 0), "\u{2026}");
}

#[test]
fn an_elided_name_is_exactly_this() {
    assert_eq!(elide_name("report_2026_final_v2.pdf", 18), "report_20\u{2026}l_v2.pdf");
    assert_eq!(elide_name("photograph.jpeg", 8), "photogr\u{2026}");
}

#[test]
fn two_lines_of_caption_make_the_budget() {
    assert_eq!(tile_width_for(16), 96);
    assert_eq!(tile_width_for(48), 104);
    assert_eq!(caption_chars_for(104), 14);
    assert_eq!(caption_chars_for(40), 8);
    assert_eq!(name_budget_for(14), 24);
    assert_eq!(name_budget_for(3), 8);
}

#[test]
fn every_emoji_is_wide() {
    for c in ['\u{1F680}', '\u{1F6F8}', '\u{1F7E2}', '\u{1FAE0}', '\u{2B50}', '\u{274C}', '\u{231A}'] {
        assert_eq!(char_columns(c), 2, "{c:?}");
    }
    assert_eq!(display_columns("\u{1F1EB}\u{1F1F7}"), 4, "a flag is two indicators");
    assert_eq!(char_columns('\u{A960}'), 2, "extended Hangul is wide");
    // Symbols that are text unless asked otherwise, and plain signs.
    for c in ['\u{2713}', '\u{2764}', '\u{1F650}', '\u{A9}', '#', '7'] {
        assert_eq!(char_columns(c), 1, "{c:?}");
    }
}

#[test]
fn a_wide_last_character_is_kept_before_the_extension() {
    let name = "\u{6F22}\u{6F22}\u{6F22}\u{6F22}\u{6F22}\u{6F22}.txt";
    let out = elide_name(name, 9);
    assert_eq!(out, "\u{6F22}\u{2026}\u{6F22}.txt");
    assert_eq!(display_columns(&out), 9);
    for budget in 1..20 {
        let out = elide_name(name, budget);
        assert!(!out.contains("\u{2026}."), "budget {budget}: {out:?}");
        assert!(display_columns(&out) <= budget, "budget {budget}: {out:?}");
    }
}

#[test]
fn a_kept_tail_does_not_begin_with_a_dot() {
    let out = elide_name("aaaaaaaaaaaaaaaa.b_c.txt", 18);
    assert_eq!(out, "aaaaaaaaaa\u{2026}b_c.txt");
}

#[test]
fn a_stem_that_ends_in_dots_is_cut_at_the_end() {
    let name = "aaaaaaaaaaaaaaaaaa....txt";
    assert_eq!(elide_name(name, 12), "aaaaaaaaaaa\u{2026}");
    // With room for more of the stem than its dots, the extension is kept.
    assert_eq!(elide_name(name, 20), "aaaaaaaaaaa\u{2026}a....txt");
    for budget in 1..30 {
        let out = elide_name(name, budget);
        assert!(!out.contains("\u{2026}."), "budget {budget}: {out:?}");
        assert!(display_columns(&out) <= budget, "budget {budget}: {out:?}");
    }
}
