//! The accent colour and the stylesheet.

use fileman::accent::apply;
use fileman::accent::brighten;
use fileman::accent::normalise;
use fileman::accent::parse;
use fileman::accent::swatch_class;
use fileman::accent::DEFAULT;
use fileman::accent::PLACEHOLDER;
use fileman::accent::PRESETS;

#[test]
fn hex_is_parsed_with_or_without_the_hash() {
    assert_eq!(parse("#E04434"), Some((224, 68, 52)));
    assert_eq!(parse("e04434"), Some((224, 68, 52)));
    assert_eq!(parse("#fff"), None, "shorthand is not accepted");
    assert_eq!(parse("#GGGGGG"), None);
    assert_eq!(parse(""), None);
}

#[test]
fn a_nonsense_colour_falls_back_to_the_default() {
    assert_eq!(normalise("not a colour"), DEFAULT);
    assert_eq!(normalise("#3584e4"), "#3584E4", "case is normalised");
}

#[test]
fn the_bright_partner_is_lighter_but_keeps_the_hue() {
    for (_, hex) in PRESETS {
        let (r, g, b) = parse(hex).unwrap();
        let (br, bg, bb) = parse(&brighten(hex)).unwrap();
        assert!(br >= r && bg >= g && bb >= b, "{hex} must not darken");
        assert!(
            u16::from(br) + u16::from(bg) + u16::from(bb)
                > u16::from(r) + u16::from(g) + u16::from(b),
            "{hex} must actually lighten"
        );
        // Ordering of the channels is what carries the hue.
        let order = |x: u8, y: u8| x.cmp(&y);
        assert_eq!(order(r, g), order(br, bg), "{hex} hue shifted");
        assert_eq!(order(g, b), order(bg, bb), "{hex} hue shifted");
    }
}

/// A stylesheet that ships the default accent.
const STYLE: &str = "/* The window. */\n\
    @define-color fm_accent #E04434;\n@define-color fm_accent_bright #E9705F;\n\
    .sidebar row:selected { background-color: alpha(@fm_accent, 0.2); }\n";

/// The substitution has to actually match the stylesheet it ships with.
#[test]
fn the_stylesheet_placeholder_is_substituted() {
    let css = STYLE;
    assert!(css.contains("@define-color fm_accent #E04434;"), "stylesheet drifted");

    let out = apply(css, "#3584E4");
    assert!(out.contains("@define-color fm_accent #3584E4;"), "accent not applied");
    assert!(
        out.contains(&format!("@define-color fm_accent_bright {};", brighten("#3584E4"))),
        "bright not applied"
    );
    // The default's own swatch rule legitimately mentions it, so check the
    // definitions rather than the whole file.
    assert!(
        !out.contains("@define-color fm_accent #E04434;"),
        "the default definition should have been replaced"
    );
    for (index, (_, preset)) in PRESETS.iter().enumerate() {
        assert!(
            out.contains(&format!(".accent-swatch-{index} {{")),
            "missing swatch rule for {preset}"
        );
    }
}

#[test]
fn every_preset_is_a_valid_colour() {
    for (name, hex) in PRESETS {
        assert!(parse(hex).is_some(), "{name} has an invalid hex: {hex}");
    }
}

#[test]
fn spaces_and_extra_hashes_are_ignored() {
    assert_eq!(parse("  ##0f9b8e\n"), Some((15, 155, 142)));
    assert_eq!(parse("# 0f9b8e"), None);
    assert_eq!(parse("#0f9b8"), None);
    assert_eq!(parse("#0f9b8é"), None);
    assert_eq!(parse("+f9b8e1"), None);
}

#[test]
fn normalising_twice_changes_nothing() {
    for hex in ["#abcdef", "00ff00", "nonsense", "", " #C79000 "] {
        let once = normalise(hex);
        assert_eq!(normalise(&once), once);
        assert!(parse(&once).is_some());
    }
}

#[test]
fn a_third_of_the_way_to_white() {
    assert_eq!(brighten("#000000"), "#555555");
    assert_eq!(brighten("#FFFFFF"), "#FFFFFF");
    assert_eq!(brighten("#3584E4"), "#78ADED");
    assert_eq!(brighten("nonsense"), brighten(DEFAULT));
    // Two channels one step apart can meet.
    assert_eq!(brighten("#FCFD00"), "#FDFD55");
}

#[test]
fn a_stylesheet_without_the_definitions_only_gains_swatches() {
    let out = apply("a {}", "#3584E4");
    assert!(out.starts_with("a {}\n/* Generated: one class per preset swatch. */\n"));
    assert!(out.ends_with(
        ".accent-swatch-7 { background-image: none; background-color: #D63384; }\n"
    ));
    assert_eq!(out.lines().count(), 2 + PRESETS.len());
}

#[test]
fn every_copy_of_the_definitions_is_replaced() {
    let css = format!("{PLACEHOLDER}\n{PLACEHOLDER}\n");
    let out = apply(&css, "#8b5cf6");
    assert_eq!(out.matches("@define-color fm_accent #8B5CF6;").count(), 2);
    assert!(!out.contains(PLACEHOLDER));
}

#[test]
fn a_swatch_class_carries_its_index() {
    assert_eq!(swatch_class(0), "accent-swatch-0");
    assert_eq!(swatch_class(17), "accent-swatch-17");
}
