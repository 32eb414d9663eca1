//! The colour themes of the coloured display styles.

use vstd::prelude::*;

verus! {

/// A colour by its red, green and blue parts.
#[derive(Clone, Copy, Debug, PartialEq, Eq, Structural)]
pub struct Rgb {
    pub r: u8,
    pub g: u8,
    pub b: u8,
}

/// The four colours of a theme.
#[derive(Clone, Copy, Debug, PartialEq, Eq, Structural)]
pub struct Palette {
    /// The colour of the type's name.
    pub name: Rgb,
    /// The colour of a member's name.
    pub field: Rgb,
    /// The colour of a member's value.
    pub value: Rgb,
    /// The colour of brackets and separators.
    pub punct: Rgb,
}

/// A colour theme.
pub trait Theme {
    /// The four colours of the theme.
    spec fn palette(&self) -> Palette;

    fn name(&self) -> (c: Rgb)
        ensures
            c == self.palette().name,
    ;

    fn field(&self) -> (c: Rgb)
        ensures
            c == self.palette().field,
    ;

    fn value(&self) -> (c: Rgb)
        ensures
            c == self.palette().value,
    ;

    fn punct(&self) -> (c: Rgb)
        ensures
            c == self.palette().punct,
    ;
}

#[derive(Clone, Copy, Debug, PartialEq, Eq)]
pub struct Dracula;

#[derive(Clone, Copy, Debug, PartialEq, Eq)]
pub struct AtomOneDark;

#[derive(Clone, Copy, Debug, PartialEq, Eq)]
pub struct GitHubDark;

/// The colours of the theme Dracula.
pub open spec fn dracula() -> Palette {
    Palette {
        name: Rgb { r: 139, g: 233, b: 253 },
        field: Rgb { r: 255, g: 121, b: 198 },
        value: Rgb { r: 241, g: 250, b: 140 },
        punct: Rgb { r: 248, g: 248, b: 242 },
    }
}

/// The colours of the theme Atom One Dark.
pub open spec fn atom_one_dark() -> Palette {
    Palette {
        name: Rgb { r: 230, g: 192, b: 123 },
        field: Rgb { r: 198, g: 120, b: 221 },
        value: Rgb { r: 152, g: 195, b: 121 },
        punct: Rgb { r: 171, g: 178, b: 191 },
    }
}

/// The colours of the theme GitHub Dark.
pub open spec fn github_dark() -> Palette {
    Palette {
        name: Rgb { r: 121, g: 192, b: 255 },
        field: Rgb { r: 255, g: 123, b: 114 },
        value: Rgb { r: 165, g: 214, b: 255 },
        punct: Rgb { r: 201, g: 209, b: 217 },
    }
}

impl Theme for Dracula {
    open spec fn palette(&self) -> Palette {
        dracula()
    }

    fn name(&self) -> (c: Rgb) {
        Rgb { r: 139, g: 233, b: 253 }
    }

    fn field(&self) -> (c: Rgb) {
        Rgb { r: 255, g: 121, b: 198 }
    }

    fn value(&self) -> (c: Rgb) {
        Rgb { r: 241, g: 250, b: 140 }
    }

    fn punct(&self) -> (c: Rgb) {
        Rgb { r: 248, g: 248, b: 242 }
    }
}

impl Theme for AtomOneDark {
    open spec fn palette(&self) -> Palette {
        atom_one_dark()
    }

    fn name(&self) -> (c: Rgb) {
        Rgb { r: 230, g: 192, b: 123 }
    }

    fn field(&self) -> (c: Rgb) {
        Rgb { r: 198, g: 120, b: 221 }
    }

    fn value(&self) -> (c: Rgb) {
        Rgb { r: 152, g: 195, b: 121 }
    }

    fn punct(&self) -> (c: Rgb) {
        Rgb { r: 171, g: 178, b: 191 }
    }
}

impl Theme for GitHubDark {
    open spec fn palette(&self) -> Palette {
        github_dark()
    }

    fn name(&self) -> (c: Rgb) {
        Rgb { r: 121, g: 192, b: 255 }
    }

    fn field(&self) -> (c: Rgb) {
        Rgb { r: 255, g: 123, b: 114 }
    }

    fn value(&self) -> (c: Rgb) {
        Rgb { r: 165, g: 214, b: 255 }
    }

    fn punct(&self) -> (c: Rgb) {
        Rgb { r: 201, g: 209, b: 217 }
    }
}

/// The colours of the theme with the given name; Dracula's for a name
/// that is no theme's.
pub open spec fn palette_of(name: Seq<char>) -> Palette {
    if name == "atom-one-dark"@ {
        atom_one_dark()
    } else if name == "github-dark"@ {
        github_dark()
    } else {
        dracula()
    }
}

/// The four colours of a theme.
pub fn colours<T: Theme>(theme: &T) -> (p: Palette)
    ensures
        p == theme.palette(),
{
    Palette {
        name: theme.name(),
        field: theme.field(),
        value: theme.value(),
        punct: theme.punct(),
    }
}

/// The colours of the theme with the given name: `atom-one-dark`,
/// `github-dark`, or Dracula for any other name.
pub fn get(name: &str) -> (p: Palette)
    ensures
        p == palette_of(name@),
{
    let name = name.to_owned();
    if name == "atom-one-dark".to_owned() {
        colours(&AtomOneDark)
    } else if name == "github-dark".to_owned() {
        colours(&GitHubDark)
    } else {
        colours(&Dracula)
    }
}

} // verus!
