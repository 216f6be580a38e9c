use neovibe::number::{Decimal, Number};
use neovibe::theme::{Color, Theme};

#[test]
fn opaque_color_literal() {
    assert_eq!(Color::rgb(30, 32, 38).to_css(), "rgba(30, 32, 38, 1)");
    assert_eq!(Color::rgb(0, 9, 255).to_css(), "rgba(0, 9, 255, 1)");
}

#[test]
fn translucent_color_literal() {
    let half = Number::Finite(Decimal::new(false, 5, 1));
    assert_eq!(Color::rgba(1, 2, 3, half).to_css(), "rgba(1, 2, 3, 0.5)");
    let color = Color::rgba(10, 100, 200, Number::whole(0));
    assert_eq!((color.r, color.g, color.b), (10, 100, 200));
    assert_eq!(color.to_css(), "rgba(10, 100, 200, 0)");
}

#[test]
fn distinct_colors_have_distinct_literals() {
    assert_ne!(Color::rgb(1, 11, 1).to_css(), Color::rgb(11, 1, 1).to_css());
    assert_ne!(
        Color::rgba(1, 1, 1, Number::whole(0)).to_css(),
        Color::rgb(1, 1, 1).to_css()
    );
}

/// The texts are those that the standard library gives for the same values.
#[test]
fn numbers_read_as_floats_are_shown() {
    let cases: Vec<(Number, f32)> = vec![
        (Number::whole(1), 1.0),
        (Number::whole(0), 0.0),
        (Number::whole(16777216), 16777216.0),
        (Number::Finite(Decimal::new(true, 0, 0)), -0.0),
        (Number::Finite(Decimal::new(false, 5, 1)), 0.5),
        (Number::Finite(Decimal::new(false, 10, 1)), 1.0),
        (Number::Finite(Decimal::new(false, 2500, 3)), 2.5),
        (Number::Finite(Decimal::new(true, 1234, 2)), -12.34),
        (Number::Finite(Decimal::new(false, 1, 3)), 0.001),
        (Number::Finite(Decimal::new(false, 1, 45)), 1e-45),
        (
            Number::Finite(Decimal::new(false, 340282350000000000000000000000000000000, 0)),
            f32::MAX,
        ),
        (Number::Finite(Decimal::new(false, 11754944, 45)), f32::MIN_POSITIVE),
        (Number::Infinite { negative: false }, f32::INFINITY),
        (Number::Infinite { negative: true }, f32::NEG_INFINITY),
        (Number::NotANumber, f32::NAN),
    ];
    for (number, float) in cases {
        assert_eq!(number.to_text(), format!("{}", float));
    }
}

#[test]
fn dark_stylesheet() {
    let expected = r#"
window {
    background-color: rgba(26, 27, 31, 1);
    color: rgba(230, 230, 234, 1);
    font-family: sans-serif;
}

.shell-root {
    background-color: rgba(26, 27, 31, 1);
}

.topbar {
    background-color: rgba(34, 35, 41, 1);
    border-bottom: 1px solid rgba(56, 58, 68, 1);
    padding: 0 8px;
    min-height: 38px;
}

.topbar-app-name {
    color: rgba(230, 230, 234, 1);
    font-weight: 700;
    font-size: 13px;
    margin-right: 8px;
}

.topbar-project-name {
    color: rgba(139, 141, 152, 1);
    font-size: 12px;
}

.win-btn {
    background-color: transparent;
    background-image: none;
    border: none;
    box-shadow: none;
    color: rgba(139, 141, 152, 1);
    min-width: 28px;
    min-height: 28px;
    padding: 0;
    border-radius: 6px;
}

.win-btn:hover {
    background-color: rgba(43, 44, 52, 1);
    color: rgba(230, 230, 234, 1);
}

.win-btn.close:hover {
    background-color: #e34b4b;
    color: #ffffff;
}

.content-area {
    background-color: rgba(26, 27, 31, 1);
}

paned.content-area > separator {
    background-color: rgba(56, 58, 68, 1);
    min-width: 1px;
    min-height: 1px;
}

.pane-placeholder {
    background-color: rgba(34, 35, 41, 1);
    color: rgba(139, 141, 152, 1);
    font-size: 12px;
}

.pane-placeholder.left {
    background-color: rgba(26, 27, 31, 1);
}

.statusbar {
    background-color: rgba(34, 35, 41, 1);
    border-top: 1px solid rgba(56, 58, 68, 1);
    padding: 0 8px;
    min-height: 24px;
    color: rgba(139, 141, 152, 1);
    font-size: 11px;
}

.statusbar-accent {
    color: rgba(124, 169, 255, 1);
}
"#;
    assert_eq!(Theme::dark().to_css(), expected);
}

#[test]
fn stylesheet_follows_the_tokens() {
    let mut theme = Theme::dark();
    theme.accent = Color::rgb(1, 2, 3);
    theme.spacing = Number::Finite(Decimal::new(false, 75, 1));
    let css = theme.to_css();
    assert!(css.contains(".statusbar-accent {\n    color: rgba(1, 2, 3, 1);\n}\n"));
    assert!(css.contains("    padding: 0 7.5px;\n"));
    assert!(css.contains("    margin-right: 7.5px;\n"));
}

#[test]
fn distinct_numbers_have_distinct_texts() {
    let numbers = [
        Number::whole(0),
        Number::Finite(Decimal::new(true, 0, 0)),
        Number::whole(5),
        Number::whole(50),
        Number::Finite(Decimal::new(false, 5, 1)),
        Number::Finite(Decimal::new(true, 5, 1)),
        Number::Finite(Decimal::new(false, 5, 2)),
        Number::Infinite { negative: false },
        Number::Infinite { negative: true },
        Number::NotANumber,
    ];
    for (i, m) in numbers.iter().enumerate() {
        for n in &numbers[..i] {
            assert_ne!(m.to_text(), n.to_text());
        }
    }
}

#[test]
fn distinct_themes_have_distinct_stylesheets() {
    let dark = Theme::dark();
    let other = Color::rgba(1, 2, 3, Number::Finite(Decimal::new(false, 5, 1)));
    let themes = [
        dark,
        Theme { background: other, ..dark },
        Theme { surface: other, ..dark },
        Theme { elevated: other, ..dark },
        Theme { border: other, ..dark },
        Theme { text: other, ..dark },
        Theme { text_muted: other, ..dark },
        Theme { accent: other, ..dark },
        Theme { radius: Number::whole(7), ..dark },
        Theme { spacing: Number::whole(7), ..dark },
    ];
    for (i, t) in themes.iter().enumerate() {
        for u in &themes[..i] {
            assert_ne!(t.to_css(), u.to_css());
        }
    }
}
