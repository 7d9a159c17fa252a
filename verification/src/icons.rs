//! Tray icons built from the Syncthing mark.
//!
//! Two styles are produced from one SVG template:
//!
//! * **Colour**: the mark on its blue disc, with a coloured state emblem, sent
//!   as pixmaps.
//! * **Monochrome**: the mark alone in a single colour, for panels styled with
//!   symbolic icons, written to disk as a small `hicolor` theme and referenced
//!   by name so that Plasma can recolour it.
//!
//! In both styles the state is carried by an emblem shape as well as by colour,
//! so the two are distinguishable without relying on hue.

use vstd::prelude::*;
use vstd::string::*;
use crate::model::Health;
use crate::places;
use crate::placeholder::{Piece, brace_safe, double_brace_at, fill, flatten, hole, lemma_brace_free, lemma_brace_safe_concat,
    lemma_replace_fills, lemma_texts_safe, well_formed};
use crate::text::{ascii_lowercase, join_path, owned, path_join, replace_all, spec_ascii_lowercase, spec_replace, spec_trim, str_eq, trim};

verus! {

/// The Syncthing mark, from which both icon styles are built: a disc behind a
/// ring with three outer nodes linked to a central one. The placeholders are
/// filled in by `svg_for`.
pub const TEMPLATE: &'static str = "<svg xmlns=\"http://www.w3.org/2000/svg\" width=\"117.3\" height=\"117.3\" viewBox=\"0 0 117.3 117.3\">{{STYLE}}{{DEFS}}<g{{MASK}}{{CLASS}} opacity=\"{{OPACITY}}\"><circle cx=\"58.65\" cy=\"58.65\" r=\"58.65\" fill=\"{{DISC}}\"/><g fill=\"none\" stroke=\"{{MARK}}\" stroke-width=\"6\" stroke-linecap=\"round\"><circle cx=\"58.65\" cy=\"58.65\" r=\"34\"/><path d=\"M58.65 58.65L90 42M58.65 58.65L31 78M58.65 58.65L76 90\"/></g><g fill=\"{{MARK}}\"><circle cx=\"58.65\" cy=\"58.65\" r=\"8\"/><circle cx=\"90\" cy=\"42\" r=\"9\"/><circle cx=\"31\" cy=\"78\" r=\"9\"/><circle cx=\"76\" cy=\"90\" r=\"9\"/></g></g>{{BADGE}}</svg>";

/// Syncthing's own blue, averaged from the gradient in its logo.
pub const SYNCTHING_BLUE: &'static str = "#1799d1";

/// How the tray icon should be drawn.
#[derive(Debug, Clone, Copy, PartialEq, Eq, Structural)]
pub enum Style {
    /// A single colour, recoloured by the panel. The default, because Plasma's
    /// tray styles status icons symbolically and a colour icon looks foreign
    /// beside the rest of the panel.
    Monochrome,
    Colour,
}

impl Default for Style {
    fn default() -> (r: Self)
        ensures
            r == Style::Monochrome,
    {
        Style::Monochrome
    }
}

/// The style a `SYNCERTING_ICON_STYLE` value selects: `colour`, `color` or
/// `full`, in any ASCII case and with surrounding whitespace, select colour;
/// anything else, an unset variable included, selects monochrome.
pub open spec fn spec_style_from(value: Seq<char>) -> Style {
    let v = spec_ascii_lowercase(spec_trim(value));
    if v == "colour"@ || v == "color"@ || v == "full"@ {
        Style::Colour
    } else {
        Style::Monochrome
    }
}

impl Style {
    /// The preferred style, from the value of `SYNCERTING_ICON_STYLE` (`None`
    /// when unset or not Unicode).
    ///
    /// There is no way to detect this: the StatusNotifierItem protocol does not
    /// describe the panel's styling, so it is a setting.
    pub fn from_env(value: Option<&str>) -> (r: Style)
        ensures
            r == spec_style_from(
                match value {
                    Some(v) => v@,
                    None => Seq::<char>::empty(),
                },
            ),
    {
        let raw = match value {
            Some(v) => v,
            None => "",
        };
        proof {
            if value is None {
                reveal_strlit("");
                assert(raw@ =~= Seq::<char>::empty());
            }
        }
        let v = ascii_lowercase(trim(raw));
        if str_eq(v.as_str(), "colour") || str_eq(v.as_str(), "color") || str_eq(v.as_str(), "full") {
            Style::Colour
        } else {
            Style::Monochrome
        }
    }
}

/// Colour of the state emblem in the colour style.
pub open spec fn spec_emblem_colour(health: Health) -> Seq<char> {
    match health {
        Health::UpToDate => "#3ea652"@,
        Health::Syncing | Health::Starting => SYNCTHING_BLUE@,
        Health::Error => "#d64545"@,
        Health::Paused => "#f0a02b"@,
        Health::Stopped => "#ffffff"@,
    }
}

/// Colour of the state emblem in the colour style.
pub fn emblem_colour(health: Health) -> (r: &'static str)
    ensures
        r@ == spec_emblem_colour(health),
{
    match health {
        Health::UpToDate => "#3ea652",
        // The emblem sits in a gap punched through the mark, so it is drawn
        // against the panel, not against the disc. White would disappear on a
        // light panel, so the activity dot takes the mark's own blue.
        Health::Syncing | Health::Starting => SYNCTHING_BLUE,
        Health::Error => "#d64545",
        Health::Paused => "#f0a02b",
        Health::Stopped => "#ffffff",
    }
}

/// The emblem marking each state, drawn over a gap punched in the mark.
pub open spec fn spec_emblem(health: Health, fill: Seq<char>) -> Seq<char> {
    match health {
        Health::UpToDate | Health::Stopped => Seq::empty(),
        Health::Syncing | Health::Starting => "<circle cx=\"92\" cy=\"92\" r=\"16\" fill=\""@ + fill
            + "\"/>"@,
        Health::Paused => "<g fill=\""@ + fill
            + "\"><rect x=\"79\" y=\"76\" width=\"10\" height=\"32\" rx=\"4\"/><rect x=\"95\" y=\"76\" width=\"10\" height=\"32\" rx=\"4\"/></g>"@,
        Health::Error => "<g fill=\""@ + fill
            + "\"><rect x=\"86\" y=\"70\" width=\"12\" height=\"28\" rx=\"6\"/><circle cx=\"92\" cy=\"106\" r=\"7\"/></g>"@,
    }
}

/// The emblem marking each state, drawn over a gap punched in the mark.
///
/// The up-to-date state has none: an unadorned Syncthing logo is the resting
/// state. The stopped state is dimmed rather than badged.
pub fn emblem(health: Health, fill: &str) -> (r: String)
    ensures
        r@ == spec_emblem(health, fill@),
{
    match health {
        Health::UpToDate | Health::Stopped => String::new(),
        // A single dot reads as activity at 16px, where arrows turn to mush.
        Health::Syncing | Health::Starting => {
            let mut out = owned("<circle cx=\"92\" cy=\"92\" r=\"16\" fill=\"");
            out.append(fill);
            out.append("\"/>");
            out
        },
        Health::Paused => {
            let mut out = owned("<g fill=\"");
            out.append(fill);
            out.append(
                "\"><rect x=\"79\" y=\"76\" width=\"10\" height=\"32\" rx=\"4\"/><rect x=\"95\" y=\"76\" width=\"10\" height=\"32\" rx=\"4\"/></g>",
            );
            out
        },
        Health::Error => {
            let mut out = owned("<g fill=\"");
            out.append(fill);
            out.append(
                "\"><rect x=\"86\" y=\"70\" width=\"12\" height=\"28\" rx=\"6\"/><circle cx=\"92\" cy=\"106\" r=\"7\"/></g>",
            );
            out
        },
    }
}

/// Whole-icon opacity. Only the stopped state is dimmed.
pub open spec fn spec_opacity(health: Health) -> Seq<char> {
    match health {
        Health::Stopped => "0.55"@,
        _ => "1"@,
    }
}

/// Whole-icon opacity. Only the stopped state is dimmed.
pub fn opacity(health: Health) -> (r: &'static str)
    ensures
        r@ == spec_opacity(health),
{
    match health {
        Health::Stopped => "0.55",
        _ => "1",
    }
}

proof fn lemma_emblem_shape(h: Health, fill: Seq<char>)
    ensures
        (h is UpToDate || h is Stopped) <==> spec_emblem(h, fill).len() == 0,
        (h is Syncing || h is Starting) ==> spec_emblem(h, fill)[1] == 'c',
        (h is Paused || h is Error) ==> spec_emblem(h, fill)[1] == 'g',
        h is Paused ==> spec_emblem(h, fill)[(fill.len() + 20) as int] == '7',
        h is Error ==> spec_emblem(h, fill)[(fill.len() + 20) as int] == '8',
        (h is Stopped) <==> spec_opacity(h).len() == 4,
{
    let dot = "<circle cx=\"92\" cy=\"92\" r=\"16\" fill=\""@;
    let g = "<g fill=\""@;
    let bars = "\"><rect x=\"79\" y=\"76\" width=\"10\" height=\"32\" rx=\"4\"/><rect x=\"95\" y=\"76\" width=\"10\" height=\"32\" rx=\"4\"/></g>"@;
    let bang = "\"><rect x=\"86\" y=\"70\" width=\"12\" height=\"28\" rx=\"6\"/><circle cx=\"92\" cy=\"106\" r=\"7\"/></g>"@;
    reveal_strlit("<circle cx=\"92\" cy=\"92\" r=\"16\" fill=\"");
    reveal_strlit("\"/>");
    reveal_strlit("<g fill=\"");
    reveal_strlit("\"><rect x=\"79\" y=\"76\" width=\"10\" height=\"32\" rx=\"4\"/><rect x=\"95\" y=\"76\" width=\"10\" height=\"32\" rx=\"4\"/></g>");
    reveal_strlit("\"><rect x=\"86\" y=\"70\" width=\"12\" height=\"28\" rx=\"6\"/><circle cx=\"92\" cy=\"106\" r=\"7\"/></g>");
    reveal_strlit("0.55");
    reveal_strlit("1");
    let e = spec_emblem(h, fill);
    let k = (fill.len() + 20) as int;
    match h {
        Health::Syncing | Health::Starting => {
            assert(e == dot + fill + "\"/>"@);
            assert(e[1] == dot[1]);
        },
        Health::Paused => {
            assert(e == g + fill + bars);
            assert(e[1] == g[1]);
            assert(e[k] == bars[11]);
        },
        Health::Error => {
            assert(e == g + fill + bang);
            assert(e[1] == g[1]);
            assert(e[k] == bang[11]);
        },
        _ => {},
    }
}

/// The state is carried by shape, not only by colour: with the same fill,
/// two states draw different emblems or are drawn at different opacities.
/// Syncing and starting share the activity dot on purpose.
pub proof fn law_states_differ_by_shape(a: Health, b: Health, fill: Seq<char>)
    requires
        a != b,
        !((a is Syncing || a is Starting) && (b is Syncing || b is Starting)),
    ensures
        spec_emblem(a, fill) != spec_emblem(b, fill) || spec_opacity(a) != spec_opacity(b),
{
    lemma_emblem_shape(a, fill);
    lemma_emblem_shape(b, fill);
}

pub open spec fn has_emblem(health: Health) -> bool {
    !(health is UpToDate || health is Stopped)
}

/// The `{{DEFS}}` value: the mask that punches the emblem's gap.
pub open spec fn spec_defs(health: Health) -> Seq<char> {
    if has_emblem(health) {
        "<defs><mask id=\"gap\"><rect x=\"0\" y=\"0\" width=\"117.3\" height=\"117.3\" fill=\"#fff\"/><circle cx=\"92\" cy=\"92\" r=\"30\" fill=\"#000\"/></mask></defs>"@
    } else {
        Seq::empty()
    }
}

/// The `{{MASK}}` value: the attribute that applies the gap.
pub open spec fn spec_mask(health: Health) -> Seq<char> {
    if has_emblem(health) {
        " mask=\"url(#gap)\""@
    } else {
        Seq::empty()
    }
}

pub open spec fn spec_style_block(style: Style) -> Seq<char> {
    match style {
        Style::Colour => Seq::empty(),
        Style::Monochrome => "<defs><style type=\"text/css\" id=\"current-color-scheme\">.ColorScheme-Text { color:#232629; }</style></defs>"@,
    }
}

pub open spec fn spec_class(style: Style) -> Seq<char> {
    match style {
        Style::Colour => Seq::empty(),
        Style::Monochrome => " class=\"ColorScheme-Text\" fill=\"currentColor\""@,
    }
}

pub open spec fn spec_disc(style: Style) -> Seq<char> {
    match style {
        Style::Colour => SYNCTHING_BLUE@,
        Style::Monochrome => "none"@,
    }
}

pub open spec fn spec_mark(style: Style) -> Seq<char> {
    match style {
        Style::Colour => "#ffffff"@,
        Style::Monochrome => "currentColor"@,
    }
}

pub open spec fn spec_emblem_fill(health: Health, style: Style) -> Seq<char> {
    match style {
        Style::Colour => spec_emblem_colour(health),
        Style::Monochrome => "currentColor"@,
    }
}

/// The SVG for one state in one style: the template with its placeholders
/// replaced, in this order, by the style block, the mask definitions, the mask
/// attribute, the recolour class, the opacity, the disc colour, the mark
/// colour and the emblem.
pub open spec fn spec_svg_for(template: Seq<char>, health: Health, style: Style) -> Seq<char> {
    let s1 = spec_replace(template, "{{STYLE}}"@, spec_style_block(style));
    let s2 = spec_replace(s1, "{{DEFS}}"@, spec_defs(health));
    let s3 = spec_replace(s2, "{{MASK}}"@, spec_mask(health));
    let s4 = spec_replace(s3, "{{CLASS}}"@, spec_class(style));
    let s5 = spec_replace(s4, "{{OPACITY}}"@, spec_opacity(health));
    let s6 = spec_replace(s5, "{{DISC}}"@, spec_disc(style));
    let s7 = spec_replace(s6, "{{MARK}}"@, spec_mark(style));
    spec_replace(s7, "{{BADGE}}"@, spec_emblem(health, spec_emblem_fill(health, style)))
}

/// Build the SVG for one state in one style from the template.
pub fn svg_for(health: Health, style: Style) -> (r: String)
    ensures
        r@ == spec_svg_for(TEMPLATE@, health, style),
{
    let has = !(health == Health::UpToDate || health == Health::Stopped);
    // The gap keeps the emblem legible where it would otherwise sit on top of
    // the mark's lower-right node.
    let (defs, mask): (&str, &str) = if has {
        (
            "<defs><mask id=\"gap\"><rect x=\"0\" y=\"0\" width=\"117.3\" height=\"117.3\" fill=\"#fff\"/><circle cx=\"92\" cy=\"92\" r=\"30\" fill=\"#000\"/></mask></defs>",
            " mask=\"url(#gap)\"",
        )
    } else {
        ("", "")
    };
    proof {
        reveal_strlit("");
    }
    let (style_block, class, disc, mark, emblem_fill): (&str, &str, &str, &str, &str) = match style {
        Style::Colour => ("", "", SYNCTHING_BLUE, "#ffffff", emblem_colour(health)),
        // currentColor plus the Breeze colour-scheme class is what lets Plasma
        // repaint the icon in the panel's foreground colour.
        Style::Monochrome => (
            "<defs><style type=\"text/css\" id=\"current-color-scheme\">.ColorScheme-Text { color:#232629; }</style></defs>",
            " class=\"ColorScheme-Text\" fill=\"currentColor\"",
            "none",
            "currentColor",
            "currentColor",
        ),
    };
    proof {
        reveal_strlit("{{STYLE}}");
        reveal_strlit("{{DEFS}}");
        reveal_strlit("{{MASK}}");
        reveal_strlit("{{CLASS}}");
        reveal_strlit("{{OPACITY}}");
        reveal_strlit("{{DISC}}");
        reveal_strlit("{{MARK}}");
        reveal_strlit("{{BADGE}}");
    }
    assert(defs@ == spec_defs(health));
    assert(mask@ == spec_mask(health));
    assert(style_block@ == spec_style_block(style));
    assert(class@ == spec_class(style));
    assert(disc@ == spec_disc(style));
    assert(mark@ == spec_mark(style));
    assert(emblem_fill@ == spec_emblem_fill(health, style));
    let badge = emblem(health, emblem_fill);
    let s1 = replace_all(TEMPLATE, "{{STYLE}}", style_block);
    let s2 = replace_all(s1.as_str(), "{{DEFS}}", defs);
    let s3 = replace_all(s2.as_str(), "{{MASK}}", mask);
    let s4 = replace_all(s3.as_str(), "{{CLASS}}", class);
    let s5 = replace_all(s4.as_str(), "{{OPACITY}}", opacity(health));
    let s6 = replace_all(s5.as_str(), "{{DISC}}", disc);
    let s7 = replace_all(s6.as_str(), "{{MARK}}", mark);
    replace_all(s7.as_str(), "{{BADGE}}", badge.as_str())
}

/// The part after `syncerting-tray-` in each state's themed icon name.
pub open spec fn state_word(health: Health) -> Seq<char> {
    match health {
        Health::UpToDate => "ok"@,
        Health::Syncing => "syncing"@,
        Health::Starting => "starting"@,
        Health::Error => "error"@,
        Health::Paused => "paused"@,
        Health::Stopped => "stopped"@,
    }
}

pub open spec fn spec_icon_name(health: Health) -> Seq<char> {
    "syncerting-tray-"@ + state_word(health)
}

/// Themed icon name for `health`, used in the monochrome style.
pub fn icon_name(health: Health) -> (r: String)
    ensures
        r@ == spec_icon_name(health),
{
    let state = match health {
        Health::UpToDate => "ok",
        Health::Syncing => "syncing",
        Health::Starting => "starting",
        Health::Error => "error",
        Health::Paused => "paused",
        Health::Stopped => "stopped",
    };
    let mut out = owned("syncerting-tray-");
    out.append(state);
    out
}

/// Every state has a themed icon name of its own.
pub proof fn law_icon_names_distinct(a: Health, b: Health)
    requires
        a != b,
    ensures
        spec_icon_name(a) != spec_icon_name(b),
{
    reveal_strlit("ok");
    reveal_strlit("syncing");
    reveal_strlit("starting");
    reveal_strlit("error");
    reveal_strlit("paused");
    reveal_strlit("stopped");
    let p = "syncerting-tray-"@;
    if spec_icon_name(a) == spec_icon_name(b) {
        assert(spec_icon_name(a).skip(p.len() as int) =~= state_word(a));
        assert(spec_icon_name(b).skip(p.len() as int) =~= state_word(b));
        assert(state_word(a) == state_word(b));
        assert(state_word(a).len() == state_word(b).len());
        if state_word(a).len() == 7 {
            assert(state_word(a)[1] == state_word(b)[1]);
        }
    }
}

/// A rendered pixmap: straight (not premultiplied) ARGB32 in network byte
/// order, `width * height * 4` bytes.
#[derive(Debug, Clone)]
pub struct Pixmap {
    pub width: i32,
    pub height: i32,
    pub data: Vec<u8>,
}

/// The first entry of the rendered table for `health`.
pub open spec fn table_entry(table: Seq<(Health, Vec<Pixmap>)>, health: Health) -> Option<int>
    decreases table.len(),
{
    if table.len() == 0 {
        None
    } else if table[0].0 == health {
        Some(0)
    } else {
        match table_entry(table.drop_first(), health) {
            Some(i) => Some(i + 1),
            None => None,
        }
    }
}

/// The pixmaps rendered for `health`. None in the monochrome style, where the
/// icon is named instead so that Plasma can recolour it, and none when the
/// table holds no entry for `health`.
pub fn for_health<'a>(table: &'a Vec<(Health, Vec<Pixmap>)>, health: Health, style: Style) -> (r: Option<&'a Vec<Pixmap>>)
    ensures
        style == Style::Monochrome ==> r is None,
        style == Style::Colour ==> match table_entry(table@, health) {
            Some(i) => r matches Some(v) && *v == table@[i].1,
            None => r is None,
        },
{
    if style == Style::Monochrome {
        return None;
    }
    let n = table.len();
    let mut i: usize = 0;
    assert(table@.skip(0) =~= table@);
    while i < n
        invariant
            n == table@.len(),
            i <= n,
            style == Style::Colour,
            table_entry(table@, health) == match table_entry(table@.skip(i as int), health) {
                Some(j) => Some(j + i),
                None => None,
            },
        decreases n - i,
    {
        assert(table@.skip(i as int)[0] == table@[i as int]);
        if table[i].0 == health {
            return Some(&table[i].1);
        }
        assert(table@.skip(i as int).drop_first() =~= table@.skip(i + 1));
        i += 1;
    }
    None
}

/// Whether the colour style has artwork for `health`: some entry for it
/// holds at least one pixmap.
pub open spec fn spec_available(table: Seq<(Health, Vec<Pixmap>)>, health: Health, style: Style) -> bool {
    style == Style::Colour && exists|i: int|
        0 <= i < table.len() && (#[trigger] table[i]).0 == health && table[i].1@.len() > 0
}

/// Whether usable artwork exists for `health`, without cloning the pixmaps.
pub fn available(table: &Vec<(Health, Vec<Pixmap>)>, health: Health, style: Style) -> (r: bool)
    ensures
        r == spec_available(table@, health, style),
{
    if style != Style::Colour {
        return false;
    }
    let n = table.len();
    let mut i: usize = 0;
    while i < n
        invariant
            n == table@.len(),
            i <= n,
            style == Style::Colour,
            forall|k: int| 0 <= k < i ==> !((#[trigger] table@[k]).0 == health && table@[k].1@.len() > 0),
        decreases n - i,
    {
        if table[i].0 == health && table[i].1.len() > 0 {
            return true;
        }
        i += 1;
    }
    false
}

/// The `index.theme` of the generated monochrome theme.
pub const INDEX_THEME: &'static str = "[Icon Theme]\nName=hicolor\nComment=Fallback icon theme\nDirectories=scalable/status\n\n[scalable/status]\nSize=22\nMinSize=8\nMaxSize=512\nType=Scalable\nContext=Status\n";

/// A file to be written, with its contents.
#[derive(Debug, Clone)]
pub struct ThemeFile {
    pub path: String,
    pub contents: String,
}

/// The monochrome theme as it is to be laid out on disk: the directory to
/// create, then the files to write, under `root`.
#[derive(Debug, Clone)]
pub struct ThemePlan {
    pub root: String,
    pub dir: String,
    pub files: Vec<ThemeFile>,
}

/// The icons directory of a theme rooted at `root`.
pub open spec fn theme_dir(root: Seq<char>) -> Seq<char> {
    path_join(root, "hicolor/scalable/status"@)
}

/// Every state, in the order the theme is written.
pub open spec fn all_health() -> Seq<Health> {
    seq![Health::Stopped, Health::Starting, Health::Error, Health::Syncing, Health::Paused, Health::UpToDate]
}

/// The monochrome theme under `root`: `hicolor/index.theme`, then one
/// scalable status icon per state, named by `icon_name`.
pub open spec fn theme_plan_ok(plan: ThemePlan, root: Seq<char>) -> bool {
    &&& plan.root@ == root
    &&& plan.dir@ == theme_dir(root)
    &&& plan.files@.len() == 7
    &&& plan.files@[0].path@ == path_join(root, "hicolor/index.theme"@)
    &&& plan.files@[0].contents@ == INDEX_THEME@
    &&& forall|k: int| 0 <= k < 6 ==> {
        &&& (#[trigger] plan.files@[k + 1]).path@ == path_join(theme_dir(root), spec_icon_name(all_health()[k]) + ".svg"@)
        &&& plan.files@[k + 1].contents@ == spec_svg_for(TEMPLATE@, all_health()[k], Style::Monochrome)
    }
}

fn theme_icon_file(dir: &str, health: Health) -> (r: ThemeFile)
    ensures
        r.path@ == path_join(dir@, spec_icon_name(health) + ".svg"@),
        r.contents@ == spec_svg_for(TEMPLATE@, health, Style::Monochrome),
{
    let mut name = icon_name(health);
    name.append(".svg");
    ThemeFile { path: join_path(dir, name.as_str()), contents: svg_for(health, Style::Monochrome) }
}

/// Lays out the monochrome icons as a minimal `hicolor` theme rooted at `root`.
///
/// It has to be `hicolor` specifically: hicolor is the fallback every theme
/// inherits, so icons placed there are always found.
pub fn theme_plan(root: &str) -> (r: ThemePlan)
    ensures
        theme_plan_ok(r, root@),
{
    let dir = join_path(root, "hicolor/scalable/status");
    let mut files: Vec<ThemeFile> = Vec::new();
    files.push(ThemeFile { path: join_path(root, "hicolor/index.theme"), contents: owned(INDEX_THEME) });
    files.push(theme_icon_file(dir.as_str(), Health::Stopped));
    files.push(theme_icon_file(dir.as_str(), Health::Starting));
    files.push(theme_icon_file(dir.as_str(), Health::Error));
    files.push(theme_icon_file(dir.as_str(), Health::Syncing));
    files.push(theme_icon_file(dir.as_str(), Health::Paused));
    files.push(theme_icon_file(dir.as_str(), Health::UpToDate));
    let r = ThemePlan { root: owned(root), dir, files };
    assert forall|k: int| 0 <= k < 6 implies {
        &&& (#[trigger] r.files@[k + 1]).path@ == path_join(theme_dir(root@), spec_icon_name(all_health()[k]) + ".svg"@)
        &&& r.files@[k + 1].contents@ == spec_svg_for(TEMPLATE@, all_health()[k], Style::Monochrome)
    } by {
        if k == 0 {} else if k == 1 {} else if k == 2 {} else if k == 3 {} else if k == 4 {} else {}
    }
    r
}

/// Where the generated monochrome theme goes under the user's cache directory.
pub open spec fn theme_root(cache_dir: Seq<char>) -> Seq<char> {
    path_join(cache_dir, "syncerting-tray/icons"@)
}

/// Lays out the monochrome theme under the user's cache directory, or `None`
/// when that directory cannot be determined. The files are written by the
/// caller.
pub fn install_monochrome_theme() -> (r: Option<ThemePlan>)
    ensures
        r matches Some(plan) ==> exists|cache: Seq<char>| #[trigger] theme_root(cache) == plan.root@
            && theme_plan_ok(plan, theme_root(cache)),
{
    match places::cache_dir() {
        Some(cache) => {
            let root = join_path(cache.as_str(), "syncerting-tray/icons");
            let plan = theme_plan(root.as_str());
            assert(theme_root(cache@) == plan.root@);
            Some(plan)
        },
        None => None,
    }
}


/// The template as text and placeholders.
pub open spec fn template_pieces() -> Seq<Piece> {
    seq![
        Piece::Text("<svg xmlns=\"http://www.w3.org/2000/svg\" width=\"117.3\" height=\"117.3\" viewBox=\"0 0 117.3 117.3\">"@),
        Piece::Hole("STYLE"@),
        Piece::Hole("DEFS"@),
        Piece::Text("<g"@),
        Piece::Hole("MASK"@),
        Piece::Hole("CLASS"@),
        Piece::Text(" opacity=\""@),
        Piece::Hole("OPACITY"@),
        Piece::Text("\"><circle cx=\"58.65\" cy=\"58.65\" r=\"58.65\" fill=\""@),
        Piece::Hole("DISC"@),
        Piece::Text("\"/><g fill=\"none\" stroke=\""@),
        Piece::Hole("MARK"@),
        Piece::Text("\" stroke-width=\"6\" stroke-linecap=\"round\"><circle cx=\"58.65\" cy=\"58.65\" r=\"34\"/><path d=\"M58.65 58.65L90 42M58.65 58.65L31 78M58.65 58.65L76 90\"/></g><g fill=\""@),
        Piece::Hole("MARK"@),
        Piece::Text("\"><circle cx=\"58.65\" cy=\"58.65\" r=\"8\"/><circle cx=\"90\" cy=\"42\" r=\"9\"/><circle cx=\"31\" cy=\"78\" r=\"9\"/><circle cx=\"76\" cy=\"90\" r=\"9\"/></g></g>"@),
        Piece::Hole("BADGE"@),
        Piece::Text("</svg>"@),
    ]
}

proof fn lemma_template_text()
    ensures
        TEMPLATE@ == flatten(template_pieces()),
{
    reveal_strlit("<svg xmlns=\"http://www.w3.org/2000/svg\" width=\"117.3\" height=\"117.3\" viewBox=\"0 0 117.3 117.3\">{{STYLE}}{{DEFS}}<g{{MASK}}{{CLASS}} opacity=\"{{OPACITY}}\"><circle cx=\"58.65\" cy=\"58.65\" r=\"58.65\" fill=\"{{DISC}}\"/><g fill=\"none\" stroke=\"{{MARK}}\" stroke-width=\"6\" stroke-linecap=\"round\"><circle cx=\"58.65\" cy=\"58.65\" r=\"34\"/><path d=\"M58.65 58.65L90 42M58.65 58.65L31 78M58.65 58.65L76 90\"/></g><g fill=\"{{MARK}}\"><circle cx=\"58.65\" cy=\"58.65\" r=\"8\"/><circle cx=\"90\" cy=\"42\" r=\"9\"/><circle cx=\"31\" cy=\"78\" r=\"9\"/><circle cx=\"76\" cy=\"90\" r=\"9\"/></g></g>{{BADGE}}</svg>");
    reveal_strlit("<svg xmlns=\"http://www.w3.org/2000/svg\" width=\"117.3\" height=\"117.3\" viewBox=\"0 0 117.3 117.3\">");
    reveal_strlit("<g");
    reveal_strlit(" opacity=\"");
    reveal_strlit("\"><circle cx=\"58.65\" cy=\"58.65\" r=\"58.65\" fill=\"");
    reveal_strlit("\"/><g fill=\"none\" stroke=\"");
    reveal_strlit("\" stroke-width=\"6\" stroke-linecap=\"round\"><circle cx=\"58.65\" cy=\"58.65\" r=\"34\"/><path d=\"M58.65 58.65L90 42M58.65 58.65L31 78M58.65 58.65L76 90\"/></g><g fill=\"");
    reveal_strlit("\"><circle cx=\"58.65\" cy=\"58.65\" r=\"8\"/><circle cx=\"90\" cy=\"42\" r=\"9\"/><circle cx=\"31\" cy=\"78\" r=\"9\"/><circle cx=\"76\" cy=\"90\" r=\"9\"/></g></g>");
    reveal_strlit("</svg>");
    reveal_strlit("STYLE");
    reveal_strlit("DEFS");
    reveal_strlit("MASK");
    reveal_strlit("CLASS");
    reveal_strlit("OPACITY");
    reveal_strlit("DISC");
    reveal_strlit("MARK");
    reveal_strlit("BADGE");
    reveal_strlit("{{");
    reveal_strlit("}}");
    reveal_with_fuel(flatten, 18);
    assert(flatten(template_pieces()) =~= "<svg xmlns=\"http://www.w3.org/2000/svg\" width=\"117.3\" height=\"117.3\" viewBox=\"0 0 117.3 117.3\">"@ + hole("STYLE"@) + hole("DEFS"@) + "<g"@ + hole("MASK"@) + hole("CLASS"@) + " opacity=\""@ + hole("OPACITY"@) + "\"><circle cx=\"58.65\" cy=\"58.65\" r=\"58.65\" fill=\""@ + hole("DISC"@) + "\"/><g fill=\"none\" stroke=\""@ + hole("MARK"@) + "\" stroke-width=\"6\" stroke-linecap=\"round\"><circle cx=\"58.65\" cy=\"58.65\" r=\"34\"/><path d=\"M58.65 58.65L90 42M58.65 58.65L31 78M58.65 58.65L76 90\"/></g><g fill=\""@ + hole("MARK"@) + "\"><circle cx=\"58.65\" cy=\"58.65\" r=\"8\"/><circle cx=\"90\" cy=\"42\" r=\"9\"/><circle cx=\"31\" cy=\"78\" r=\"9\"/><circle cx=\"76\" cy=\"90\" r=\"9\"/></g></g>"@ + hole("BADGE"@) + "</svg>"@);
    assert(TEMPLATE@ =~= flatten(template_pieces()));
}

proof fn lemma_template_well_formed()
    ensures
        well_formed(template_pieces()),
        forall|i: int| 0 <= i < template_pieces().len() ==> (#[trigger] template_pieces()[i] matches Piece::Hole(n)
            ==> n == "STYLE"@ || n == "DEFS"@ || n == "MASK"@ || n == "CLASS"@ || n == "OPACITY"@ || n
            == "DISC"@ || n == "MARK"@ || n == "BADGE"@),
{
    reveal_strlit("<svg xmlns=\"http://www.w3.org/2000/svg\" width=\"117.3\" height=\"117.3\" viewBox=\"0 0 117.3 117.3\">");
    reveal_strlit("<g");
    reveal_strlit(" opacity=\"");
    reveal_strlit("\"><circle cx=\"58.65\" cy=\"58.65\" r=\"58.65\" fill=\"");
    reveal_strlit("\"/><g fill=\"none\" stroke=\"");
    reveal_strlit("\" stroke-width=\"6\" stroke-linecap=\"round\"><circle cx=\"58.65\" cy=\"58.65\" r=\"34\"/><path d=\"M58.65 58.65L90 42M58.65 58.65L31 78M58.65 58.65L76 90\"/></g><g fill=\"");
    reveal_strlit("\"><circle cx=\"58.65\" cy=\"58.65\" r=\"8\"/><circle cx=\"90\" cy=\"42\" r=\"9\"/><circle cx=\"31\" cy=\"78\" r=\"9\"/><circle cx=\"76\" cy=\"90\" r=\"9\"/></g></g>");
    reveal_strlit("</svg>");
    reveal_strlit("STYLE");
    reveal_strlit("DEFS");
    reveal_strlit("MASK");
    reveal_strlit("CLASS");
    reveal_strlit("OPACITY");
    reveal_strlit("DISC");
    reveal_strlit("MARK");
    reveal_strlit("BADGE");
    let ps = template_pieces();
    assert forall|i: int| 0 <= i < ps.len() implies match #[trigger] ps[i] {
        Piece::Text(t) => brace_safe(t),
        Piece::Hole(n) => crate::placeholder::is_name(n),
    } by {
        match ps[i] {
            Piece::Text(t) => lemma_brace_free(t),
            Piece::Hole(n) => {},
        }
    }
}

proof fn lemma_fills_are_safe(health: Health, style: Style)
    ensures
        brace_safe(spec_style_block(style)),
        brace_safe(spec_defs(health)),
        brace_safe(spec_mask(health)),
        brace_safe(spec_class(style)),
        brace_safe(spec_opacity(health)),
        brace_safe(spec_disc(style)),
        brace_safe(spec_mark(style)),
        brace_safe(spec_emblem(health, spec_emblem_fill(health, style))),
{
    reveal_strlit("<defs><style type=\"text/css\" id=\"current-color-scheme\">.ColorScheme-Text { color:#232629; }</style></defs>");
    reveal_strlit("<defs><mask id=\"gap\"><rect x=\"0\" y=\"0\" width=\"117.3\" height=\"117.3\" fill=\"#fff\"/><circle cx=\"92\" cy=\"92\" r=\"30\" fill=\"#000\"/></mask></defs>");
    reveal_strlit(" mask=\"url(#gap)\"");
    reveal_strlit(" class=\"ColorScheme-Text\" fill=\"currentColor\"");
    reveal_strlit("0.55");
    reveal_strlit("1");
    reveal_strlit("#1799d1");
    reveal_strlit("none");
    reveal_strlit("#ffffff");
    reveal_strlit("currentColor");
    reveal_strlit("#3ea652");
    reveal_strlit("#d64545");
    reveal_strlit("#f0a02b");
    reveal_strlit("<circle cx=\"92\" cy=\"92\" r=\"16\" fill=\"");
    reveal_strlit("\"/>");
    reveal_strlit("<g fill=\"");
    reveal_strlit("\"><rect x=\"79\" y=\"76\" width=\"10\" height=\"32\" rx=\"4\"/><rect x=\"95\" y=\"76\" width=\"10\" height=\"32\" rx=\"4\"/></g>");
    reveal_strlit("\"><rect x=\"86\" y=\"70\" width=\"12\" height=\"28\" rx=\"6\"/><circle cx=\"92\" cy=\"106\" r=\"7\"/></g>");
    let sb = spec_style_block(style);
    assert forall|k: int| 0 <= k < sb.len() - 1 implies !#[trigger] double_brace_at(sb, k) by {}
    lemma_brace_free(spec_defs(health));
    lemma_brace_free(spec_mask(health));
    lemma_brace_free(spec_class(style));
    lemma_brace_free(spec_opacity(health));
    lemma_brace_free(spec_disc(style));
    lemma_brace_free(spec_mark(style));
    let fill_colour = spec_emblem_fill(health, style);
    lemma_brace_free(fill_colour);
    match health {
        Health::Syncing | Health::Starting => {
            let a = "<circle cx=\"92\" cy=\"92\" r=\"16\" fill=\""@;
            let b = "\"/>"@;
            lemma_brace_free(a);
            lemma_brace_free(b);
            lemma_brace_safe_concat(a, fill_colour);
            lemma_brace_safe_concat(a + fill_colour, b);
        },
        Health::Paused => {
            let a = "<g fill=\""@;
            let b = "\"><rect x=\"79\" y=\"76\" width=\"10\" height=\"32\" rx=\"4\"/><rect x=\"95\" y=\"76\" width=\"10\" height=\"32\" rx=\"4\"/></g>"@;
            lemma_brace_free(a);
            lemma_brace_free(b);
            lemma_brace_safe_concat(a, fill_colour);
            lemma_brace_safe_concat(a + fill_colour, b);
        },
        Health::Error => {
            let a = "<g fill=\""@;
            let b = "\"><rect x=\"86\" y=\"70\" width=\"12\" height=\"28\" rx=\"6\"/><circle cx=\"92\" cy=\"106\" r=\"7\"/></g>"@;
            lemma_brace_free(a);
            lemma_brace_free(b);
            lemma_brace_safe_concat(a, fill_colour);
            lemma_brace_safe_concat(a + fill_colour, b);
        },
        _ => {
            lemma_brace_free(spec_emblem(health, fill_colour));
        },
    }
}

/// No placeholder of the template survives: whatever the state and the
/// style, the SVG holds no `{{`.
pub proof fn law_no_placeholder_survives(health: Health, style: Style)
    ensures
        forall|k: int|
            0 <= k < spec_svg_for(TEMPLATE@, health, style).len() - 1 ==> !#[trigger] double_brace_at(
                spec_svg_for(TEMPLATE@, health, style),
                k,
            ),
{
    reveal_strlit("{{");
    reveal_strlit("}}");
    reveal_strlit("STYLE");
    reveal_strlit("{{STYLE}}");
    reveal_strlit("DEFS");
    reveal_strlit("{{DEFS}}");
    reveal_strlit("MASK");
    reveal_strlit("{{MASK}}");
    reveal_strlit("CLASS");
    reveal_strlit("{{CLASS}}");
    reveal_strlit("OPACITY");
    reveal_strlit("{{OPACITY}}");
    reveal_strlit("DISC");
    reveal_strlit("{{DISC}}");
    reveal_strlit("MARK");
    reveal_strlit("{{MARK}}");
    reveal_strlit("BADGE");
    reveal_strlit("{{BADGE}}");
    lemma_template_text();
    lemma_template_well_formed();
    lemma_fills_are_safe(health, style);
    let p0 = template_pieces();
    let w1 = spec_style_block(style);
    assert("{{STYLE}}"@ =~= hole("STYLE"@));
    lemma_replace_fills(p0, "STYLE"@, w1);
    let p1 = fill(p0, "STYLE"@, w1);
    let w2 = spec_defs(health);
    assert("{{DEFS}}"@ =~= hole("DEFS"@));
    lemma_replace_fills(p1, "DEFS"@, w2);
    let p2 = fill(p1, "DEFS"@, w2);
    let w3 = spec_mask(health);
    assert("{{MASK}}"@ =~= hole("MASK"@));
    lemma_replace_fills(p2, "MASK"@, w3);
    let p3 = fill(p2, "MASK"@, w3);
    let w4 = spec_class(style);
    assert("{{CLASS}}"@ =~= hole("CLASS"@));
    lemma_replace_fills(p3, "CLASS"@, w4);
    let p4 = fill(p3, "CLASS"@, w4);
    let w5 = spec_opacity(health);
    assert("{{OPACITY}}"@ =~= hole("OPACITY"@));
    lemma_replace_fills(p4, "OPACITY"@, w5);
    let p5 = fill(p4, "OPACITY"@, w5);
    let w6 = spec_disc(style);
    assert("{{DISC}}"@ =~= hole("DISC"@));
    lemma_replace_fills(p5, "DISC"@, w6);
    let p6 = fill(p5, "DISC"@, w6);
    let w7 = spec_mark(style);
    assert("{{MARK}}"@ =~= hole("MARK"@));
    lemma_replace_fills(p6, "MARK"@, w7);
    let p7 = fill(p6, "MARK"@, w7);
    let w8 = spec_emblem(health, spec_emblem_fill(health, style));
    assert("{{BADGE}}"@ =~= hole("BADGE"@));
    lemma_replace_fills(p7, "BADGE"@, w8);
    let p8 = fill(p7, "BADGE"@, w8);
    assert forall|i: int| 0 <= i < p8.len() implies (#[trigger] p8[i] matches Piece::Text(t) && brace_safe(t)) by {
        assert(0 <= i < p0.len());
        let _ = p0[i];
        assert(p1[i] == crate::placeholder::fill_piece(p0[i], "STYLE"@, w1));
        assert(p2[i] == crate::placeholder::fill_piece(p1[i], "DEFS"@, w2));
        assert(p3[i] == crate::placeholder::fill_piece(p2[i], "MASK"@, w3));
        assert(p4[i] == crate::placeholder::fill_piece(p3[i], "CLASS"@, w4));
        assert(p5[i] == crate::placeholder::fill_piece(p4[i], "OPACITY"@, w5));
        assert(p6[i] == crate::placeholder::fill_piece(p5[i], "DISC"@, w6));
        assert(p7[i] == crate::placeholder::fill_piece(p6[i], "MARK"@, w7));
        assert(p8[i] == crate::placeholder::fill_piece(p7[i], "BADGE"@, w8));
        let _ = p8[i];
    }
    lemma_texts_safe(p8);
    assert(spec_svg_for(TEMPLATE@, health, style) == flatten(p8));
}
} // verus!
