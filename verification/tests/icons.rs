use syncerting_tray::icons::{
    available, emblem, emblem_colour, for_health, icon_name, opacity, svg_for, theme_plan, Pixmap,
    Style, INDEX_THEME,
};
use syncerting_tray::model::Health;

#[test]
fn the_template_leaves_no_placeholders_behind() {
    for health in Health::ALL {
        for style in [Style::Colour, Style::Monochrome] {
            let svg = svg_for(health, style);
            assert!(
                !svg.contains("{{"),
                "unsubstituted placeholder for {health:?} in {style:?}"
            );
        }
    }
}

#[test]
fn the_monochrome_style_carries_the_recolour_hooks() {
    let svg = svg_for(Health::UpToDate, Style::Monochrome);
    // Both are required for Plasma to repaint the icon to match the panel.
    assert!(svg.contains("ColorScheme-Text"));
    assert!(svg.contains("currentColor"));
    // A filled disc would defeat a symbolic icon.
    assert!(svg.contains(r##"fill="none""##));
}

#[test]
fn the_default_style_is_monochrome() {
    // Plasma's tray is symbolic, so this is the one that looks native.
    assert_eq!(Style::default(), Style::Monochrome);
}

#[test]
fn the_style_setting_is_read_case_insensitively() {
    assert_eq!(Style::from_env(Some(" Colour ")), Style::Colour);
    assert_eq!(Style::from_env(Some("COLOR")), Style::Colour);
    assert_eq!(Style::from_env(Some("full")), Style::Colour);
    assert_eq!(Style::from_env(Some("mono")), Style::Monochrome);
    assert_eq!(Style::from_env(Some("")), Style::Monochrome);
    assert_eq!(Style::from_env(None), Style::Monochrome);
}

#[test]
fn emblems_differ_by_shape() {
    assert_eq!(emblem(Health::UpToDate, "#000"), "");
    assert_eq!(emblem(Health::Stopped, "#000"), "");
    assert_eq!(emblem(Health::Syncing, "#000"), r##"<circle cx="92" cy="92" r="16" fill="#000"/>"##);
    assert_eq!(emblem(Health::Starting, "#000"), emblem(Health::Syncing, "#000"));
    assert!(emblem(Health::Paused, "#000").starts_with(r##"<g fill="#000"><rect x="79""##));
    assert!(emblem(Health::Error, "#000").contains(r#"<circle cx="92" cy="106" r="7"/>"#));
    assert_eq!(opacity(Health::Stopped), "0.55");
    assert_eq!(opacity(Health::UpToDate), "1");
    assert_eq!(emblem_colour(Health::Error), "#d64545");
    assert_eq!(emblem_colour(Health::Starting), "#1799d1");
}

#[test]
fn the_colour_style_fills_in_the_disc() {
    let svg = svg_for(Health::Error, Style::Colour);
    assert!(svg.contains(r##"fill="#1799d1""##));
    assert!(svg.contains(r##"<g fill="#d64545">"##));
    assert!(svg.contains(r#" mask="url(#gap)""#));
    assert!(!svg.contains("currentColor"));
    let ok = svg_for(Health::UpToDate, Style::Colour);
    assert!(!ok.contains("mask"));
}

#[test]
fn themed_icon_names() {
    assert_eq!(icon_name(Health::UpToDate), "syncerting-tray-ok");
    assert_eq!(icon_name(Health::Stopped), "syncerting-tray-stopped");
    assert_eq!(icon_name(Health::Syncing), "syncerting-tray-syncing");
}

#[test]
fn pixmaps_are_offered_only_in_colour() {
    let px = Pixmap { width: 1, height: 1, data: vec![255, 0, 0, 0] };
    let table = vec![(Health::UpToDate, vec![px.clone()]), (Health::Error, vec![])];
    assert!(for_health(&table, Health::UpToDate, Style::Monochrome).is_none());
    assert_eq!(for_health(&table, Health::UpToDate, Style::Colour).unwrap().len(), 1);
    assert!(for_health(&table, Health::Paused, Style::Colour).is_none());
    assert!(available(&table, Health::UpToDate, Style::Colour));
    assert!(!available(&table, Health::Error, Style::Colour));
    assert!(!available(&table, Health::UpToDate, Style::Monochrome));
}

#[test]
fn the_monochrome_theme_is_laid_out_where_plasma_will_find_it() {
    let plan = theme_plan("/tmp/icons");
    assert_eq!(plan.dir, "/tmp/icons/hicolor/scalable/status");
    assert_eq!(plan.files.len(), 7);
    assert_eq!(plan.files[0].path, "/tmp/icons/hicolor/index.theme");
    assert!(plan.files[0].contents.contains("Name=hicolor"));
    assert_eq!(plan.files[0].contents, INDEX_THEME);
    for (file, health) in plan.files[1..].iter().zip(Health::ALL) {
        assert_eq!(
            file.path,
            format!("/tmp/icons/hicolor/scalable/status/{}.svg", icon_name(health))
        );
        assert!(file.contents.contains("currentColor"), "{health:?} is not recolourable");
    }
}

#[test]
fn states_differ_by_shape_in_the_monochrome_style() {
    let shapes: Vec<(String, &str)> = [Health::UpToDate, Health::Syncing, Health::Error, Health::Paused, Health::Stopped]
        .iter()
        .map(|&h| (emblem(h, "currentColor"), opacity(h)))
        .collect();
    for i in 0..shapes.len() {
        for j in i + 1..shapes.len() {
            assert_ne!(shapes[i], shapes[j]);
        }
    }
}

#[test]
fn every_state_is_valid_svg() {
    let options = resvg::usvg::Options::default();
    for health in Health::ALL {
        for style in [Style::Colour, Style::Monochrome] {
            let svg = svg_for(health, style);
            if let Err(e) = resvg::usvg::Tree::from_str(&svg, &options) {
                panic!("{health:?} in {style:?} is not valid SVG: {e}");
            }
        }
    }
}
