use theme_switch::config::alacritty::Alacritty;

fn lines(v: &[&str]) -> Vec<String> {
    v.iter().map(|s| s.to_string()).collect()
}

fn configured() -> Alacritty {
    Alacritty {
        dark_theme: Some("nightfall".to_string()),
        light_theme: Some("daybreak".to_string()),
    }
}

#[test]
fn dark_mode_rewrites_the_colors_line() {
    let mut file = lines(&["font: mono", "colors: *daybreak", "cursor: block"]);
    configured().dark_mode(&mut file);
    assert_eq!(
        file,
        lines(&["font: mono", "colors: *nightfall", "cursor: block"])
    );
}

#[test]
fn light_mode_rewrites_the_colors_line() {
    let mut file = lines(&["font: mono", "colors: *nightfall", "cursor: block"]);
    configured().light_mode(&mut file);
    assert_eq!(
        file,
        lines(&["font: mono", "colors: *daybreak", "cursor: block"])
    );
}

#[test]
fn dark_mode_without_a_dark_theme_leaves_the_file_untouched() {
    let unset = Alacritty {
        dark_theme: None,
        light_theme: Some("daybreak".to_string()),
    };
    let mut file = lines(&["colors: *daybreak"]);
    unset.dark_mode(&mut file);
    assert_eq!(file, lines(&["colors: *daybreak"]));
}

#[test]
fn light_mode_without_a_light_theme_leaves_the_file_untouched() {
    let unset = Alacritty {
        dark_theme: Some("nightfall".to_string()),
        light_theme: None,
    };
    let mut file = lines(&["colors: *nightfall"]);
    unset.light_mode(&mut file);
    assert_eq!(file, lines(&["colors: *nightfall"]));
}

#[test]
fn mode_switch_without_a_colors_line_is_a_no_op() {
    let mut file = lines(&["font: mono", "cursor: block"]);
    configured().dark_mode(&mut file);
    assert_eq!(file, lines(&["font: mono", "cursor: block"]));
}

#[test]
fn switching_twice_equals_switching_once() {
    let mut once = lines(&["font: mono", "colors: *daybreak", "cursor: block"]);
    configured().dark_mode(&mut once);
    let mut twice = once.clone();
    configured().dark_mode(&mut twice);
    assert_eq!(twice, once);
}

#[test]
fn is_some_requires_both_themes_and_the_settings_file() {
    assert!(configured().is_some(true));
    assert!(!configured().is_some(false));
    let half = Alacritty {
        dark_theme: Some("nightfall".to_string()),
        light_theme: None,
    };
    assert!(!half.is_some(true));
    let other_half = Alacritty {
        dark_theme: None,
        light_theme: Some("daybreak".to_string()),
    };
    assert!(!other_half.is_some(true));
}
