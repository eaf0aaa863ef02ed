//! How the interface looks, and what it remembers of that between runs.
//!
//! A colour scheme and a theme are kept in the settings file by name. The file, and the style
//! sheets each theme names, are the application's.

use vstd::prelude::*;

use crate::text::same_text;

verus! {

/// Which colour scheme the interface presents in.
#[derive(Debug, Clone, Copy, PartialEq, Eq, Structural)]
pub enum Scheme {
    /// Whatever the system uses.
    System,
    /// Light.
    Light,
    /// Dark.
    Dark,
}

/// The name a scheme is kept under.
pub open spec fn scheme_word(scheme: Scheme) -> Seq<char> {
    match scheme {
        Scheme::Light => "light"@,
        Scheme::Dark => "dark"@,
        Scheme::System => "system"@,
    }
}

/// The scheme a kept name stands for: `light` and `dark` as written, and the system's otherwise.
pub open spec fn scheme_of(name: Seq<char>) -> Scheme {
    if name == "light"@ {
        Scheme::Light
    } else if name == "dark"@ {
        Scheme::Dark
    } else {
        Scheme::System
    }
}

/// The name a scheme is kept under.
pub fn scheme_name(scheme: Scheme) -> (name: String)
    ensures
        name@ == scheme_word(scheme),
{
    match scheme {
        Scheme::Light => "light".to_owned(),
        Scheme::Dark => "dark".to_owned(),
        Scheme::System => "system".to_owned(),
    }
}

/// The scheme a kept name stands for.
pub fn scheme_named(name: &str) -> (scheme: Scheme)
    ensures
        scheme == scheme_of(name@),
{
    if same_text(name, "light") {
        Scheme::Light
    } else if same_text(name, "dark") {
        Scheme::Dark
    } else {
        Scheme::System
    }
}

/// A theme.
#[derive(Debug, Clone, Copy, PartialEq, Eq, Structural)]
pub enum Variant {
    /// The Slate theme.
    Slate,
    /// The Graphite theme.
    Graphite,
    /// The Moss theme.
    Moss,
    /// The Violet theme.
    Violet,
    /// The Ocean theme.
    Ocean,
    /// The Ember theme.
    Ember,
    /// The Rose theme.
    Rose,
    /// The Sand theme.
    Sand,
    /// The Mint theme.
    Mint,
    /// The Onyx theme.
    Onyx,
}

/// Every theme, in the order the menu lists them.
pub open spec fn all_themes() -> Seq<Variant> {
    seq![
        Variant::Slate,
        Variant::Graphite,
        Variant::Moss,
        Variant::Violet,
        Variant::Ocean,
        Variant::Ember,
        Variant::Rose,
        Variant::Sand,
        Variant::Mint,
        Variant::Onyx,
    ]
}

/// The name a theme is kept under, which is also the name of its style sheets.
pub open spec fn variant_word(v: Variant) -> Seq<char> {
    match v {
        Variant::Slate => "slate"@,
        Variant::Graphite => "graphite"@,
        Variant::Moss => "moss"@,
        Variant::Violet => "violet"@,
        Variant::Ocean => "ocean"@,
        Variant::Ember => "ember"@,
        Variant::Rose => "rose"@,
        Variant::Sand => "sand"@,
        Variant::Mint => "mint"@,
        Variant::Onyx => "onyx"@,
    }
}

/// The name the theme menu shows for a theme.
pub open spec fn variant_label(v: Variant) -> Seq<char> {
    match v {
        Variant::Slate => "Slate"@,
        Variant::Graphite => "Graphite"@,
        Variant::Moss => "Moss"@,
        Variant::Violet => "Violet"@,
        Variant::Ocean => "Ocean"@,
        Variant::Ember => "Ember"@,
        Variant::Rose => "Rose"@,
        Variant::Sand => "Sand"@,
        Variant::Mint => "Mint"@,
        Variant::Onyx => "Onyx"@,
    }
}

/// The theme kept under `name`, when one is.
pub open spec fn variant_of(name: Seq<char>) -> Option<Variant> {
    if name == "slate"@ {
        Some(Variant::Slate)
    } else if name == "graphite"@ {
        Some(Variant::Graphite)
    } else if name == "moss"@ {
        Some(Variant::Moss)
    } else if name == "violet"@ {
        Some(Variant::Violet)
    } else if name == "ocean"@ {
        Some(Variant::Ocean)
    } else if name == "ember"@ {
        Some(Variant::Ember)
    } else if name == "rose"@ {
        Some(Variant::Rose)
    } else if name == "sand"@ {
        Some(Variant::Sand)
    } else if name == "mint"@ {
        Some(Variant::Mint)
    } else if name == "onyx"@ {
        Some(Variant::Onyx)
    } else {
        None
    }
}

impl Default for Variant {
    fn default() -> (v: Self)
        ensures
            v == Variant::Slate,
    {
        Variant::Slate
    }
}

impl Variant {
    /// Every theme, in the order the menu lists them.
    pub fn all() -> (all: Vec<Variant>)
        ensures
            all@ == all_themes(),
    {
        let v = vec![
            Variant::Slate,
            Variant::Graphite,
            Variant::Moss,
            Variant::Violet,
            Variant::Ocean,
            Variant::Ember,
            Variant::Rose,
            Variant::Sand,
            Variant::Mint,
            Variant::Onyx,
        ];
        assert(v@ =~= all_themes());
        v
    }

    /// The name a theme is kept under.
    pub fn name(self) -> (name: &'static str)
        ensures
            name@ == variant_word(self),
    {
        proof {
            reveal_strlit("slate");
            reveal_strlit("graphite");
            reveal_strlit("moss");
            reveal_strlit("violet");
            reveal_strlit("ocean");
            reveal_strlit("ember");
            reveal_strlit("rose");
            reveal_strlit("sand");
            reveal_strlit("mint");
            reveal_strlit("onyx");
        }
        match self {
            Variant::Slate => "slate",
            Variant::Graphite => "graphite",
            Variant::Moss => "moss",
            Variant::Violet => "violet",
            Variant::Ocean => "ocean",
            Variant::Ember => "ember",
            Variant::Rose => "rose",
            Variant::Sand => "sand",
            Variant::Mint => "mint",
            Variant::Onyx => "onyx",
        }
    }

    /// The name the menu shows.
    pub fn label(self) -> (label: &'static str)
        ensures
            label@ == variant_label(self),
            label@.len() > 0,
    {
        proof {
            reveal_strlit("Slate");
            reveal_strlit("Graphite");
            reveal_strlit("Moss");
            reveal_strlit("Violet");
            reveal_strlit("Ocean");
            reveal_strlit("Ember");
            reveal_strlit("Rose");
            reveal_strlit("Sand");
            reveal_strlit("Mint");
            reveal_strlit("Onyx");
        }
        match self {
            Variant::Slate => "Slate",
            Variant::Graphite => "Graphite",
            Variant::Moss => "Moss",
            Variant::Violet => "Violet",
            Variant::Ocean => "Ocean",
            Variant::Ember => "Ember",
            Variant::Rose => "Rose",
            Variant::Sand => "Sand",
            Variant::Mint => "Mint",
            Variant::Onyx => "Onyx",
        }
    }

    /// The theme kept under `name`: the first in the menu's order whose name it is.
    pub fn from_name(name: &str) -> (v: Option<Variant>)
        ensures
            v == variant_of(name@),
    {
        if same_text(name, "slate") {
            Some(Variant::Slate)
        } else if same_text(name, "graphite") {
            Some(Variant::Graphite)
        } else if same_text(name, "moss") {
            Some(Variant::Moss)
        } else if same_text(name, "violet") {
            Some(Variant::Violet)
        } else if same_text(name, "ocean") {
            Some(Variant::Ocean)
        } else if same_text(name, "ember") {
            Some(Variant::Ember)
        } else if same_text(name, "rose") {
            Some(Variant::Rose)
        } else if same_text(name, "sand") {
            Some(Variant::Sand)
        } else if same_text(name, "mint") {
            Some(Variant::Mint)
        } else if same_text(name, "onyx") {
            Some(Variant::Onyx)
        } else {
            None
        }
    }
}

/// What the application remembers between runs. A field the file leaves out reads as empty.
#[derive(Debug, PartialEq, Eq)]
pub struct Settings {
    /// Which colour scheme the interface presents in.
    pub scheme: String,
    /// Which theme the interface uses.
    pub variant: String,
}

impl Default for Settings {
    fn default() -> (s: Self)
        ensures
            s.scheme@.len() == 0,
            s.variant@.len() == 0,
    {
        Settings { scheme: String::new(), variant: String::new() }
    }
}

impl Settings {
    /// The settings that keep `scheme` and `variant`.
    pub fn of(scheme: Scheme, variant: Variant) -> (s: Self)
        ensures
            s.scheme@ == scheme_word(scheme),
            s.variant@ == variant_word(variant),
    {
        Settings { scheme: scheme_name(scheme), variant: variant.name().to_owned() }
    }

    /// The scheme and the theme these settings keep: the system's scheme and the first theme
    /// where they name none that exists.
    pub fn appearance(&self) -> (look: (Scheme, Variant))
        ensures
            look.0 == scheme_of(self.scheme@),
            look.1 == (match variant_of(self.variant@) { Some(v) => v, None => Variant::Slate }),
    {
        let scheme = scheme_named(self.scheme.as_str());
        let variant = match Variant::from_name(self.variant.as_str()) {
            Some(v) => v,
            None => Variant::Slate,
        };
        (scheme, variant)
    }
}

/// Two texts that differ at one place differ.
proof fn lemma_differ(a: Seq<char>, b: Seq<char>, i: int)
    requires
        0 <= i < a.len(),
        i < b.len(),
        a[i] != b[i],
    ensures
        a != b,
{
}

/// What is kept of a scheme and a theme reads back as that scheme and that theme.
pub proof fn the_appearance_reads_back(scheme: Scheme, variant: Variant)
    ensures
        scheme_of(scheme_word(scheme)) == scheme,
        variant_of(variant_word(variant)) == Some(variant),
{
    reveal_strlit("light");
    reveal_strlit("dark");
    reveal_strlit("system");
    reveal_strlit("slate");
    reveal_strlit("graphite");
    reveal_strlit("moss");
    reveal_strlit("violet");
    reveal_strlit("ocean");
    reveal_strlit("ember");
    reveal_strlit("rose");
    reveal_strlit("sand");
    reveal_strlit("mint");
    reveal_strlit("onyx");
    lemma_differ("light"@, "dark"@, 0);
    lemma_differ("system"@, "light"@, 0);
    lemma_differ("system"@, "dark"@, 0);
    lemma_differ("graphite"@, "slate"@, 0);
    lemma_differ("moss"@, "slate"@, 0);
    lemma_differ("moss"@, "graphite"@, 0);
    lemma_differ("violet"@, "slate"@, 0);
    lemma_differ("violet"@, "graphite"@, 0);
    lemma_differ("violet"@, "moss"@, 0);
    lemma_differ("ocean"@, "slate"@, 0);
    lemma_differ("ocean"@, "graphite"@, 0);
    lemma_differ("ocean"@, "moss"@, 0);
    lemma_differ("ocean"@, "violet"@, 0);
    lemma_differ("ember"@, "slate"@, 0);
    lemma_differ("ember"@, "graphite"@, 0);
    lemma_differ("ember"@, "moss"@, 0);
    lemma_differ("ember"@, "violet"@, 0);
    lemma_differ("ember"@, "ocean"@, 0);
    lemma_differ("rose"@, "slate"@, 0);
    lemma_differ("rose"@, "graphite"@, 0);
    lemma_differ("rose"@, "moss"@, 0);
    lemma_differ("rose"@, "violet"@, 0);
    lemma_differ("rose"@, "ocean"@, 0);
    lemma_differ("rose"@, "ember"@, 0);
    lemma_differ("sand"@, "slate"@, 1);
    lemma_differ("sand"@, "graphite"@, 0);
    lemma_differ("sand"@, "moss"@, 0);
    lemma_differ("sand"@, "violet"@, 0);
    lemma_differ("sand"@, "ocean"@, 0);
    lemma_differ("sand"@, "ember"@, 0);
    lemma_differ("sand"@, "rose"@, 0);
    lemma_differ("mint"@, "slate"@, 0);
    lemma_differ("mint"@, "graphite"@, 0);
    lemma_differ("mint"@, "moss"@, 1);
    lemma_differ("mint"@, "violet"@, 0);
    lemma_differ("mint"@, "ocean"@, 0);
    lemma_differ("mint"@, "ember"@, 0);
    lemma_differ("mint"@, "rose"@, 0);
    lemma_differ("mint"@, "sand"@, 0);
    lemma_differ("onyx"@, "slate"@, 0);
    lemma_differ("onyx"@, "graphite"@, 0);
    lemma_differ("onyx"@, "moss"@, 0);
    lemma_differ("onyx"@, "violet"@, 0);
    lemma_differ("onyx"@, "ocean"@, 1);
    lemma_differ("onyx"@, "ember"@, 0);
    lemma_differ("onyx"@, "rose"@, 0);
    lemma_differ("onyx"@, "sand"@, 0);
    lemma_differ("onyx"@, "mint"@, 0);
}

} // verus!
