use icedshell::fdo_icons::{
    fd_icon_from_path, find, find_prefix_icon_path, find_similar_icon_path, normalize_icon_name,
    prefix_match_icon, similar_icon_names, FdIcon,
};
use icedshell::theme::{RadiusSize, Shade, SpacingSize};

fn table(names: &[&str]) -> Vec<String> {
    names.iter().map(|n| n.to_string()).collect()
}

fn entries(names: &[&str]) -> Vec<(String, String)> {
    names.iter().map(|n| (n.to_string(), normalize_icon_name(n))).collect()
}

#[test]
fn normalization_lowercases_and_strips() {
    assert_eq!(normalize_icon_name("Fire-Fox_2"), "firefox2");
    assert_eq!(normalize_icon_name("NM-Applet"), "nmapplet");
    assert_eq!(normalize_icon_name("---"), "");
    assert_eq!(normalize_icon_name(""), "");
}

#[test]
fn similar_names_overlap_on_the_core() {
    let names = table(&["chromium", "firefox", "firefox-developer", "gimp"]);
    let similar = similar_icon_names(&names, "fire-fox").expect("a similar name is there");
    // "firefox" itself normalizes equal, so only the developer variant matches
    assert_eq!(similar, vec!["firefox-developer".to_string()]);
}

#[test]
fn similar_names_cap_at_five() {
    let names = table(&[
        "app-one", "app-two", "app-three", "app-four", "app-five", "app-six", "app-seven",
    ]);
    let similar = similar_icon_names(&names, "app").expect("matches are there");
    assert_eq!(similar.len(), 5);
    assert_eq!(similar[0], "app-one");
}

#[test]
fn similar_names_need_a_table() {
    assert!(similar_icon_names(&Vec::new(), "firefox").is_none());
    let names = table(&["gimp"]);
    assert!(similar_icon_names(&names, "firefox").is_none());
}

#[test]
fn prefix_match_narrows_to_one() {
    let es = entries(&["files", "firefox"]);
    assert_eq!(prefix_match_icon(&es, "fir"), Some("firefox".to_string()));
}

#[test]
fn prefix_match_takes_the_first_survivor() {
    let es = entries(&["alpha", "alphabet"]);
    assert_eq!(prefix_match_icon(&es, "alpha"), Some("alpha".to_string()));
}

#[test]
fn prefix_match_fails_on_divergence() {
    let es = entries(&["files", "firefox"]);
    assert_eq!(prefix_match_icon(&es, "zz"), None);
    assert_eq!(prefix_match_icon(&Vec::new(), "anything"), None);
}

#[test]
fn svg_paths_make_svg_icons() {
    match fd_icon_from_path("/usr/share/icons/x.svg".to_string()) {
        FdIcon::Svg(p) => assert_eq!(p, "/usr/share/icons/x.svg"),
        other => panic!("expected an SVG icon, got {other:?}"),
    }
    match fd_icon_from_path("/usr/share/icons/x.png".to_string()) {
        FdIcon::Image(p) => assert_eq!(p, "/usr/share/icons/x.png"),
        other => panic!("expected a raster icon, got {other:?}"),
    }
    assert!(matches!(fd_icon_from_path("svg".to_string()), FdIcon::Image(_)));
}

#[test]
fn lookup_of_an_absent_icon_finds_nothing() {
    // nothing on this machine provides such an icon name
    let names = table(&[]);
    let es = entries(&[]);
    assert!(find(&names, &es, "zz-surely-no-such-icon-zz").is_none());
    assert!(find_similar_icon_path(&names, "zz-surely-no-such-icon-zz").is_none());
    assert!(find_prefix_icon_path(&es, "zz-surely-no-such-icon-zz").is_none());
}

#[test]
fn theme_scale_positions() {
    assert_eq!(Shade::S50.value(), 50);
    assert_eq!(Shade::S800.value(), 800);
    assert_eq!(RadiusSize::Zero.index(), 0);
    assert_eq!(RadiusSize::Full.index(), 7);
    assert_eq!(SpacingSize::Xxs.index(), 0);
    assert_eq!(SpacingSize::Xl5.index(), 9);
}
