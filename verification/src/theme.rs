//! The colours of the active Omarchy theme, and the GTK style sheet made from them.

use vstd::prelude::*;
use crate::text::{chars_of, push_char};

verus! {

/// The colours that an Omarchy theme's `colors.toml` may set; each is a CSS colour
/// such as `#316ac5`, or absent.
#[derive(Debug, Clone)]
pub struct OmarchyColors {
    pub mode: Option<String>,
    pub accent: Option<String>,
    pub selection: Option<String>,
    pub muted: Option<String>,
    pub background: Option<String>,
    pub dark_background: Option<String>,
    pub darker_background: Option<String>,
    pub lighter_background: Option<String>,
    pub foreground: Option<String>,
    pub dark_foreground: Option<String>,
    pub light_foreground: Option<String>,
    pub bright_foreground: Option<String>,
    pub red: Option<String>,
    pub yellow: Option<String>,
    pub green: Option<String>,
    pub cyan: Option<String>,
    pub blue: Option<String>,
    pub magenta: Option<String>,
}

/// The characters of an optional string, or `d` where it is absent.
pub open spec fn color_or(c: Option<String>, d: Seq<char>) -> Seq<char> {
    match c {
        Some(s) => s@,
        None => d,
    }
}

/// Whether `c` is present and holds exactly the characters `s`.
pub open spec fn holds(c: Option<String>, s: Seq<char>) -> bool {
    c is Some && c.unwrap()@ == s
}

/// The style sheet for the given colours: the window and text take `bg` and `fg`,
/// the cards `card_bg` with a `muted` border, the up-to-date badge `green`, and the
/// updates badge and the update button `accent`.
pub open spec fn css_text(
    bg: Seq<char>,
    card_bg: Seq<char>,
    fg: Seq<char>,
    accent: Seq<char>,
    muted: Seq<char>,
    green: Seq<char>,
) -> Seq<char> {
    "\n            window.omarchy-updater {\n                background-color: "@
        + bg
        + ";\n                color: "@
        + fg
        + ";\n            }\n\n            .main-header {\n                font-weight: 800;\n                font-size: 20px;\n                color: "@
        + fg
        + ";\n            }\n\n            .badge-up-to-date {\n                background-color: "@
        + green
        + ";\n                color: #ffffff;\n                border-radius: 12px;\n                padding: 4px 12px;\n                font-weight: 700;\n                font-size: 13px;\n            }\n\n            .badge-updates-available {\n                background-color: "@
        + accent
        + ";\n                color: #ffffff;\n                border-radius: 12px;\n                padding: 4px 12px;\n                font-weight: 700;\n                font-size: 13px;\n            }\n\n            .update-card {\n                background-color: "@
        + card_bg
        + ";\n                border-radius: 12px;\n                border: 1px solid "@
        + muted
        + ";\n                padding: 16px;\n                margin-bottom: 8px;\n            }\n\n            .btn-update {\n                background: "@
        + accent
        + ";\n                color: #ffffff;\n                font-weight: 700;\n                font-size: 15px;\n                padding: 10px 24px;\n                border-radius: 24px;\n                border: none;\n            }\n\n            .btn-update:hover {\n                opacity: 0.9;\n            }\n\n            .btn-refresh {\n                background: transparent;\n                border-radius: 24px;\n                border: 1px solid "@
        + muted
        + ";\n                color: "@
        + fg
        + ";\n                padding: 8px 16px;\n            }\n\n            .log-terminal {\n                background-color: #11111b;\n                color: #a6e3a1;\n                font-family: monospace;\n                font-size: 12px;\n                border-radius: 8px;\n                padding: 12px;\n            }\n            "@
}

/// Whether `c` is the fallback theme: light mode, blue accent on a pale blue
/// background, and no other colour than those below.
pub open spec fn is_fallback(c: OmarchyColors) -> bool {
    &&& holds(c.mode, "light"@)
    &&& holds(c.accent, "#316ac5"@)
    &&& c.selection is None
    &&& holds(c.muted, "#8aaee0"@)
    &&& holds(c.background, "#eaf4ff"@)
    &&& c.dark_background is None
    &&& c.darker_background is None
    &&& holds(c.lighter_background, "#ffffff"@)
    &&& holds(c.foreground, "#173d75"@)
    &&& c.dark_foreground is None
    &&& c.light_foreground is None
    &&& c.bright_foreground is None
    &&& holds(c.red, "#b23b35"@)
    &&& holds(c.yellow, "#9b6700"@)
    &&& holds(c.green, "#228b22"@)
    &&& c.cyan is None
    &&& c.blue is None
    &&& c.magenta is None
}

/// The style sheet that `to_gtk_css` makes of `c`, with a default for each absent colour.
pub open spec fn css_of(c: OmarchyColors) -> Seq<char> {
    css_text(
        color_or(c.background, "#eaf4ff"@),
        color_or(c.lighter_background, "#ffffff"@),
        color_or(c.foreground, "#173d75"@),
        color_or(c.accent, "#316ac5"@),
        color_or(c.muted, "#8aaee0"@),
        color_or(c.green, "#38a169"@),
    )
}

/// The characters of `c`, or those of `d` where `c` is absent.
fn or_default<'a>(c: &'a Option<String>, d: &'a str) -> (r: &'a str)
    ensures
        r@ == color_or(*c, d@),
{
    match c {
        Some(s) => s.as_str(),
        None => d,
    }
}

impl Default for OmarchyColors {
    /// No colour set.
    fn default() -> (r: Self)
        ensures
            r.mode is None,
            r.accent is None,
            r.selection is None,
            r.muted is None,
            r.background is None,
            r.dark_background is None,
            r.darker_background is None,
            r.lighter_background is None,
            r.foreground is None,
            r.dark_foreground is None,
            r.light_foreground is None,
            r.bright_foreground is None,
            r.red is None,
            r.yellow is None,
            r.green is None,
            r.cyan is None,
            r.blue is None,
            r.magenta is None,
    {
        OmarchyColors {
            mode: None,
            accent: None,
            selection: None,
            muted: None,
            background: None,
            dark_background: None,
            darker_background: None,
            lighter_background: None,
            foreground: None,
            dark_foreground: None,
            light_foreground: None,
            bright_foreground: None,
            red: None,
            yellow: None,
            green: None,
            cyan: None,
            blue: None,
            magenta: None,
        }
    }
}

/// Where the active theme's colours lie under the home directory `home`:
/// `.local/state/omarchy/current/theme/colors.toml`, joined to it as
/// `Path::join` joins a relative path.
pub open spec fn theme_file_in(home: Seq<char>) -> Seq<char> {
    if home.len() == 0 || home.last() == '/' {
        home + ".local/state/omarchy/current/theme/colors.toml"@
    } else {
        home + seq!['/'] + ".local/state/omarchy/current/theme/colors.toml"@
    }
}

/// The path of the active theme's `colors.toml` under the user's home directory;
/// `None` where the home directory is unknown, so that no theme is read.
pub fn theme_file(home: &Option<String>) -> (r: Option<String>)
    ensures
        match *home {
            Some(h) => r is Some && r.unwrap()@ == theme_file_in(h@),
            None => r is None,
        },
{
    match home {
        Some(h) => {
            let c = chars_of(h.as_str());
            let mut p = String::from_str(h.as_str());
            if !(c.len() == 0 || c[c.len() - 1] == '/') {
                push_char(&mut p, '/');
            }
            p.append(".local/state/omarchy/current/theme/colors.toml");
            Some(p)
        },
        None => None,
    }
}

impl OmarchyColors {
    /// The light blue theme used when no theme can be read.
    pub fn fallback() -> (r: Self)
        ensures
            is_fallback(r),
    {
        OmarchyColors {
            mode: Some(String::from_str("light")),
            accent: Some(String::from_str("#316ac5")),
            selection: None,
            muted: Some(String::from_str("#8aaee0")),
            background: Some(String::from_str("#eaf4ff")),
            dark_background: None,
            darker_background: None,
            lighter_background: Some(String::from_str("#ffffff")),
            foreground: Some(String::from_str("#173d75")),
            dark_foreground: None,
            light_foreground: None,
            bright_foreground: None,
            red: Some(String::from_str("#b23b35")),
            yellow: Some(String::from_str("#9b6700")),
            green: Some(String::from_str("#228b22")),
            cyan: None,
            blue: None,
            magenta: None,
        }
    }

    /// The colours in effect: those read from the theme file, or the fallback
    /// theme where none could be read.
    pub fn from_loaded(loaded: Option<OmarchyColors>) -> (r: Self)
        ensures
            loaded is Some ==> r == loaded.unwrap(),
            loaded is None ==> is_fallback(r),
    {
        match loaded {
            Some(c) => c,
            None => Self::fallback(),
        }
    }

    /// The GTK style sheet for these colours.
    pub fn to_gtk_css(&self) -> (r: String)
        ensures
            r@ == css_of(*self),
    {
        let bg = or_default(&self.background, "#eaf4ff");
        let card_bg = or_default(&self.lighter_background, "#ffffff");
        let fg = or_default(&self.foreground, "#173d75");
        let accent = or_default(&self.accent, "#316ac5");
        let muted = or_default(&self.muted, "#8aaee0");
        let green = or_default(&self.green, "#38a169");
        let mut css = String::new();
        css.append("\n            window.omarchy-updater {\n                background-color: ");
        css.append(bg);
        css.append(";\n                color: ");
        css.append(fg);
        css.append(";\n            }\n\n            .main-header {\n                font-weight: 800;\n                font-size: 20px;\n                color: ");
        css.append(fg);
        css.append(";\n            }\n\n            .badge-up-to-date {\n                background-color: ");
        css.append(green);
        css.append(";\n                color: #ffffff;\n                border-radius: 12px;\n                padding: 4px 12px;\n                font-weight: 700;\n                font-size: 13px;\n            }\n\n            .badge-updates-available {\n                background-color: ");
        css.append(accent);
        css.append(";\n                color: #ffffff;\n                border-radius: 12px;\n                padding: 4px 12px;\n                font-weight: 700;\n                font-size: 13px;\n            }\n\n            .update-card {\n                background-color: ");
        css.append(card_bg);
        css.append(";\n                border-radius: 12px;\n                border: 1px solid ");
        css.append(muted);
        css.append(";\n                padding: 16px;\n                margin-bottom: 8px;\n            }\n\n            .btn-update {\n                background: ");
        css.append(accent);
        css.append(";\n                color: #ffffff;\n                font-weight: 700;\n                font-size: 15px;\n                padding: 10px 24px;\n                border-radius: 24px;\n                border: none;\n            }\n\n            .btn-update:hover {\n                opacity: 0.9;\n            }\n\n            .btn-refresh {\n                background: transparent;\n                border-radius: 24px;\n                border: 1px solid ");
        css.append(muted);
        css.append(";\n                color: ");
        css.append(fg);
        css.append(";\n                padding: 8px 16px;\n            }\n\n            .log-terminal {\n                background-color: #11111b;\n                color: #a6e3a1;\n                font-family: monospace;\n                font-size: 12px;\n                border-radius: 8px;\n                padding: 12px;\n            }\n            ");
        css
    }
}

/// The style sheet depends on six colours only: background, lighter background,
/// foreground, accent, muted and green; the theme's mode and its other colours,
/// red among them, change nothing.
pub proof fn lemma_css_depends_on_six_colors(a: OmarchyColors, b: OmarchyColors)
    requires
        a.background.deep_view() == b.background.deep_view(),
        a.lighter_background.deep_view() == b.lighter_background.deep_view(),
        a.foreground.deep_view() == b.foreground.deep_view(),
        a.accent.deep_view() == b.accent.deep_view(),
        a.muted.deep_view() == b.muted.deep_view(),
        a.green.deep_view() == b.green.deep_view(),
    ensures
        css_of(a) == css_of(b),
{
    assert(color_or(a.background, "#eaf4ff"@) == color_or(b.background, "#eaf4ff"@));
    assert(color_or(a.lighter_background, "#ffffff"@) == color_or(b.lighter_background, "#ffffff"@));
    assert(color_or(a.foreground, "#173d75"@) == color_or(b.foreground, "#173d75"@));
    assert(color_or(a.accent, "#316ac5"@) == color_or(b.accent, "#316ac5"@));
    assert(color_or(a.muted, "#8aaee0"@) == color_or(b.muted, "#8aaee0"@));
    assert(color_or(a.green, "#38a169"@) == color_or(b.green, "#38a169"@));
}

/// Each of the six colours of the sheet is the theme's own where it sets it, and
/// its default where it does not, in its own place: the background, the card
/// background (white by default), the text, the accent, the borders and the
/// up-to-date badge.
pub proof fn lemma_css_takes_each_color(c: OmarchyColors)
    ensures
        css_of(c) == css_text(
            if c.background is Some { c.background.unwrap()@ } else { "#eaf4ff"@ },
            if c.lighter_background is Some { c.lighter_background.unwrap()@ } else { "#ffffff"@ },
            if c.foreground is Some { c.foreground.unwrap()@ } else { "#173d75"@ },
            if c.accent is Some { c.accent.unwrap()@ } else { "#316ac5"@ },
            if c.muted is Some { c.muted.unwrap()@ } else { "#8aaee0"@ },
            if c.green is Some { c.green.unwrap()@ } else { "#38a169"@ },
        ),
{
}

/// The cards take the theme's lighter background, or white where it sets none,
/// whatever its other colours: the sheet declares that colour as the background
/// of the card rule.
pub proof fn lemma_card_background(c: OmarchyColors)
    ensures
        ({
            let card = if c.lighter_background is Some {
                c.lighter_background.unwrap()@
            } else {
                "#ffffff"@
            };
            exists|k: int|
                #![trigger css_of(c).subrange(k, k + ".update-card {\n                background-color: "@.len())]
                0 <= k && k + ".update-card {\n                background-color: "@.len() + card.len() < css_of(c).len()
                    && css_of(c).subrange(k, k + ".update-card {\n                background-color: "@.len()) == ".update-card {\n                background-color: "@
                    && css_of(c).subrange(k + ".update-card {\n                background-color: "@.len(), k + ".update-card {\n                background-color: "@.len() + card.len()) == card
                    && css_of(c)[k + ".update-card {\n                background-color: "@.len() + card.len()] == ';'
        }),
{
    let bg = color_or(c.background, "#eaf4ff"@);
    let card = color_or(c.lighter_background, "#ffffff"@);
    let fg = color_or(c.foreground, "#173d75"@);
    let accent = color_or(c.accent, "#316ac5"@);
    let muted = color_or(c.muted, "#8aaee0"@);
    let green = color_or(c.green, "#38a169"@);
    reveal_strlit(";\n                color: #ffffff;\n                border-radius: 12px;\n                padding: 4px 12px;\n                font-weight: 700;\n                font-size: 13px;\n            }\n\n            .update-card {\n                background-color: ");
    reveal_strlit(".update-card {\n                background-color: ");
    reveal_strlit(";\n                border-radius: 12px;\n                border: 1px solid ");
    reveal_strlit(";");
    let cut = ";\n                color: #ffffff;\n                border-radius: 12px;\n                padding: 4px 12px;\n                font-weight: 700;\n                font-size: 13px;\n            }\n\n            .update-card {\n                background-color: "@.take(200);
    assert(";\n                color: #ffffff;\n                border-radius: 12px;\n                padding: 4px 12px;\n                font-weight: 700;\n                font-size: 13px;\n            }\n\n            .update-card {\n                background-color: "@ =~= cut + ".update-card {\n                background-color: "@);
    assert(";\n                border-radius: 12px;\n                border: 1px solid "@ =~= ";"@ + ";\n                border-radius: 12px;\n                border: 1px solid "@.skip(1));
    let pre = "\n            window.omarchy-updater {\n                background-color: "@ + bg + ";\n                color: "@ + fg + ";\n            }\n\n            .main-header {\n                font-weight: 800;\n                font-size: 20px;\n                color: "@ + fg + ";\n            }\n\n            .badge-up-to-date {\n                background-color: "@ + green + ";\n                color: #ffffff;\n                border-radius: 12px;\n                padding: 4px 12px;\n                font-weight: 700;\n                font-size: 13px;\n            }\n\n            .badge-updates-available {\n                background-color: "@ + accent + cut;
    let post = ";\n                border-radius: 12px;\n                border: 1px solid "@.skip(1) + muted + ";\n                padding: 16px;\n                margin-bottom: 8px;\n            }\n\n            .btn-update {\n                background: "@ + accent + ";\n                color: #ffffff;\n                font-weight: 700;\n                font-size: 15px;\n                padding: 10px 24px;\n                border-radius: 24px;\n                border: none;\n            }\n\n            .btn-update:hover {\n                opacity: 0.9;\n            }\n\n            .btn-refresh {\n                background: transparent;\n                border-radius: 24px;\n                border: 1px solid "@ + muted + ";\n                color: "@ + fg + ";\n                padding: 8px 16px;\n            }\n\n            .log-terminal {\n                background-color: #11111b;\n                color: #a6e3a1;\n                font-family: monospace;\n                font-size: 12px;\n                border-radius: 8px;\n                padding: 12px;\n            }\n            "@;
    let whole = css_of(c);
    assert(whole =~= pre + ".update-card {\n                background-color: "@ + card + ";"@ + post);
    let k = pre.len() as int;
    assert(whole.subrange(k, k + ".update-card {\n                background-color: "@.len()) =~= ".update-card {\n                background-color: "@);
    assert(whole.subrange(k + ".update-card {\n                background-color: "@.len(), k + ".update-card {\n                background-color: "@.len() + card.len()) =~= card);
    assert(whole[k + ".update-card {\n                background-color: "@.len() + card.len()] == ';');
}

} // verus!
