use moxy_derive::themes::{colours, get, AtomOneDark, Dracula, GitHubDark, Palette, Rgb, Theme};

fn rgb(r: u8, g: u8, b: u8) -> Rgb {
    Rgb { r, g, b }
}

#[test]
fn dracula_colours() {
    assert_eq!(Dracula.name(), rgb(139, 233, 253));
    assert_eq!(Dracula.field(), rgb(255, 121, 198));
    assert_eq!(Dracula.value(), rgb(241, 250, 140));
    assert_eq!(Dracula.punct(), rgb(248, 248, 242));
}

#[test]
fn atom_one_dark_colours() {
    assert_eq!(AtomOneDark.name(), rgb(230, 192, 123));
    assert_eq!(AtomOneDark.field(), rgb(198, 120, 221));
    assert_eq!(AtomOneDark.value(), rgb(152, 195, 121));
    assert_eq!(AtomOneDark.punct(), rgb(171, 178, 191));
}

#[test]
fn github_dark_colours() {
    assert_eq!(GitHubDark.name(), rgb(121, 192, 255));
    assert_eq!(GitHubDark.field(), rgb(255, 123, 114));
    assert_eq!(GitHubDark.value(), rgb(165, 214, 255));
    assert_eq!(GitHubDark.punct(), rgb(201, 209, 217));
}

#[test]
fn themes_are_found_by_name() {
    assert_eq!(get("atom-one-dark"), colours(&AtomOneDark));
    assert_eq!(get("github-dark"), colours(&GitHubDark));
    assert_eq!(get("dracula"), colours(&Dracula));
    assert_eq!(get(""), colours(&Dracula));
    assert_eq!(get("no-such-theme"), colours(&Dracula));
    assert_eq!(
        get("dracula"),
        Palette {
            name: rgb(139, 233, 253),
            field: rgb(255, 121, 198),
            value: rgb(241, 250, 140),
            punct: rgb(248, 248, 242),
        }
    );
}
