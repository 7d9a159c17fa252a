//! Autostart for the tray itself, via an XDG autostart desktop entry.
//!
//! This is deliberately not the mechanism used for Syncthing: the daemon is a
//! background service and belongs to systemd, whereas the tray is a desktop
//! application that should start with the desktop session and stop with it.
//! `~/.config/autostart` is what the desktop reads for that.

use vstd::prelude::*;
use vstd::string::*;
use crate::places;
use crate::text::{ascii_lower, chars_of, eq_ignore_ascii_case, is_ws, join_path, owned, path_join, spec_trim, split_on,
    str_eq_ignore_ascii_case, trim, trim_end, trim_start, lemma_split_nonempty};

verus! {

/// File name of the autostart entry.
pub const FILE_NAME: &'static str = "syncerting-tray.desktop";

/// Where the autostart entry lives under a config directory.
pub open spec fn spec_entry_path(config_dir: Seq<char>) -> Seq<char> {
    path_join(path_join(config_dir, "autostart"@), FILE_NAME@)
}

/// Location of the autostart entry under the config directory `config_dir`.
pub fn entry_path_in(config_dir: &str) -> (r: String)
    ensures
        r@ == spec_entry_path(config_dir@),
{
    let dir = join_path(config_dir, "autostart");
    join_path(dir.as_str(), FILE_NAME)
}

/// Location of the autostart entry, or `None` when the user config directory
/// cannot be determined.
pub fn desktop_file_path() -> (r: Option<String>)
    ensures
        r matches Some(p) ==> exists|dir: Seq<char>| p@ == #[trigger] spec_entry_path(dir),
{
    match places::config_dir() {
        Some(dir) => {
            let p = entry_path_in(dir.as_str());
            assert(p@ == spec_entry_path(dir@));
            Some(p)
        },
        None => None,
    }
}

/// Whether a desktop entry switches itself off: some line of it, trimmed,
/// reads `Hidden=true` in any ASCII case. That is how the spec, and several
/// desktop settings panels, turn an entry off without deleting it.
pub open spec fn spec_is_hidden(text: Seq<char>) -> bool {
    exists|i: int|
        0 <= i < split_on(text, '\n').len() && eq_ignore_ascii_case(
            spec_trim(#[trigger] split_on(text, '\n')[i]),
            "hidden=true"@,
        )
}

fn line_hides(line: &str) -> (r: bool)
    ensures
        r == eq_ignore_ascii_case(spec_trim(line@), "hidden=true"@),
{
    str_eq_ignore_ascii_case(trim(line), "hidden=true")
}

/// Whether the entry text switches the entry off.
pub fn is_hidden_entry(text: &str) -> (r: bool)
    ensures
        r == spec_is_hidden(text@),
{
    let cs = chars_of(text);
    let n = cs.len();
    let mut found = false;
    let mut cur = String::new();
    let mut i: usize = 0;
    while i < n
        invariant
            cs@ == text@,
            n == text@.len(),
            i <= n,
            split_on(text@.take(i as int), '\n').len() >= 1,
            cur@ == split_on(text@.take(i as int), '\n').last(),
            found == exists|k: int|
                0 <= k < split_on(text@.take(i as int), '\n').len() - 1 && eq_ignore_ascii_case(
                    spec_trim(#[trigger] split_on(text@.take(i as int), '\n')[k]),
                    "hidden=true"@,
                ),
        decreases n - i,
    {
        let c = cs[i];
        let ghost prev = split_on(text@.take(i as int), '\n');
        proof {
            assert(text@.take(i + 1).drop_last() =~= text@.take(i as int));
            assert(text@.take(i + 1).last() == c);
            lemma_split_nonempty(text@.take(i + 1), '\n');
        }
        let ghost next = split_on(text@.take(i + 1), '\n');
        let ghost found_before = found;
        if c == '\n' {
            let h = line_hides(cur.as_str());
            if h {
                found = true;
            }
            cur = String::new();
            proof {
                assert(next == prev.push(Seq::empty()));
                let m = prev.len() - 1;
                if found {
                    if found_before {
                        let k = choose|k: int| 0 <= k < prev.len() - 1 && eq_ignore_ascii_case(
                            spec_trim(#[trigger] prev[k]),
                            "hidden=true"@,
                        );
                        assert(next[k] == prev[k]);
                    } else {
                        assert(next[m] == prev[m]);
                        assert(eq_ignore_ascii_case(spec_trim(next[m]), "hidden=true"@));
                    }
                } else {
                    assert forall|k: int| 0 <= k < next.len() - 1 implies !eq_ignore_ascii_case(
                        spec_trim(#[trigger] next[k]),
                        "hidden=true"@,
                    ) by {
                        assert(next[k] == prev[k]);
                    }
                }
                assert(cur@ =~= next.last());
            }
        } else {
            cur.push(c);
            proof {
                assert(next == prev.update(prev.len() - 1, prev.last().push(c)));
                if found {
                    let k = choose|k: int| 0 <= k < prev.len() - 1 && eq_ignore_ascii_case(
                        spec_trim(#[trigger] prev[k]),
                        "hidden=true"@,
                    );
                    assert(next[k] == prev[k]);
                } else {
                    assert forall|k: int| 0 <= k < next.len() - 1 implies !eq_ignore_ascii_case(
                        spec_trim(#[trigger] next[k]),
                        "hidden=true"@,
                    ) by {
                        assert(next[k] == prev[k]);
                    }
                }
            }
        }
        i += 1;
    }
    assert(text@.take(n as int) =~= text@);
    let last = line_hides(cur.as_str());
    let r = found || last;
    proof {
        let segs = split_on(text@, '\n');
        if r {
            if !found {
                assert(eq_ignore_ascii_case(spec_trim(segs[segs.len() - 1]), "hidden=true"@));
            }
        } else {
            assert forall|k: int| 0 <= k < segs.len() implies !eq_ignore_ascii_case(
                spec_trim(#[trigger] segs[k]),
                "hidden=true"@,
            ) by {}
        }
    }
    r
}

/// Whether the tray is set to start with the desktop session, given the text
/// of its autostart entry (`None` when there is no readable entry): a missing
/// entry and a hidden one both count as disabled.
pub fn is_enabled(entry_text: Option<&str>) -> (r: bool)
    ensures
        match entry_text {
            Some(t) => r == !spec_is_hidden(t@),
            None => !r,
        },
{
    match entry_text {
        Some(t) => !is_hidden_entry(t),
        None => false,
    }
}

/// Characters that make a path need quoting in an `Exec` key: whitespace and
/// the reserved `"`, `'`, `\`, backquote and `$`.
pub open spec fn needs_quoting_char(c: char) -> bool {
    is_ws(c) || c == '"' || c == '\'' || c == '\\' || c == '`' || c == '$'
}

pub open spec fn needs_quoting(s: Seq<char>) -> bool {
    exists|i: int| 0 <= i < s.len() && needs_quoting_char(#[trigger] s[i])
}

/// `s` with `\` doubled and `"` escaped.
pub open spec fn escape_quoted(s: Seq<char>) -> Seq<char>
    decreases s.len(),
{
    if s.len() == 0 {
        s
    } else {
        escape_quoted(s.drop_last()) + if s.last() == '\\' {
            seq!['\\', '\\']
        } else if s.last() == '"' {
            seq!['\\', '"']
        } else {
            seq![s.last()]
        }
    }
}

/// A path as an `Exec` key holds it: quoted and escaped when it needs it,
/// unchanged otherwise.
pub open spec fn spec_quote_exec(s: Seq<char>) -> Seq<char> {
    if needs_quoting(s) {
        seq!['"'] + escape_quoted(s) + seq!['"']
    } else {
        s
    }
}

/// Quote a path for a desktop entry `Exec` key if it needs it.
///
/// Reserved characters would otherwise be parsed as argument separators, so a
/// binary living under a path with a space in it would silently fail to start.
pub fn quote_exec(path: &str) -> (r: String)
    ensures
        r@ == spec_quote_exec(path@),
{
    let cs = chars_of(path);
    let n = cs.len();
    let mut needs = false;
    let mut escaped = String::new();
    let mut i: usize = 0;
    while i < n
        invariant
            cs@ == path@,
            n == path@.len(),
            i <= n,
            escaped@ == escape_quoted(path@.take(i as int)),
            needs == exists|k: int| 0 <= k < i && needs_quoting_char(#[trigger] path@[k]),
        decreases n - i,
    {
        let c = cs[i];
        if crate::text::is_whitespace(c) || c == '"' || c == '\'' || c == '\\' || c == '`' || c == '$' {
            needs = true;
        }
        if c == '\\' {
            escaped.push('\\');
            escaped.push('\\');
        } else if c == '"' {
            escaped.push('\\');
            escaped.push('"');
        } else {
            escaped.push(c);
        }
        proof {
            assert(path@.take(i + 1).drop_last() =~= path@.take(i as int));
            assert(path@.take(i + 1).last() == c);
            assert(escaped@ =~= escape_quoted(path@.take(i + 1)));
        }
        i += 1;
    }
    assert(path@.take(n as int) =~= path@);
    if needs {
        let mut out = String::new();
        out.push('"');
        out.append(escaped.as_str());
        out.push('"');
        assert(out@ =~= spec_quote_exec(path@));
        out
    } else {
        owned(path)
    }
}

/// A path with nothing to quote is written as it is.
pub proof fn law_plain_paths_unquoted(s: Seq<char>)
    requires
        forall|i: int| 0 <= i < s.len() ==> !needs_quoting_char(#[trigger] s[i]),
    ensures
        spec_quote_exec(s) == s,
{
}

/// The `Exec` value: the quoted binary, preceded by the icon style setting
/// when one is configured, so the autostarted tray looks like the one the
/// user set up.
pub open spec fn spec_exec_line(exe: Seq<char>, icon_style: Option<Seq<char>>) -> Seq<char> {
    match icon_style {
        Some(style) => if spec_trim(style).len() > 0 {
            "env SYNCERTING_ICON_STYLE="@ + spec_trim(style) + seq![' '] + spec_quote_exec(exe)
        } else {
            spec_quote_exec(exe)
        },
        None => spec_quote_exec(exe),
    }
}

/// The desktop entry for the binary at `exe`.
pub open spec fn spec_desktop_entry(exe: Seq<char>, icon_style: Option<Seq<char>>) -> Seq<char> {
    "[Desktop Entry]\nType=Application\nName=Syncerting Tray\nGenericName=Syncthing Tray\nComment=Monitor and control Syncthing from the system tray\nExec="@
        + spec_exec_line(exe, icon_style)
        + "\nIcon=syncerting-tray-ok\nTerminal=false\nCategories=Network;FileTransfer;\nKeywords=syncthing;sync;\nX-GNOME-Autostart-enabled=true\n"@
}

/// Build the desktop entry pointing at the binary `exe` (the running binary,
/// with symlinks resolved), carrying over the value of
/// `SYNCERTING_ICON_STYLE` when it is set.
pub fn desktop_entry(exe: &str, icon_style: Option<&str>) -> (r: String)
    ensures
        r@ == spec_desktop_entry(
            exe@,
            match icon_style {
                Some(s) => Some(s@),
                None => None,
            },
        ),
{
    let mut exec = quote_exec(exe);
    if let Some(style) = icon_style {
        let t = trim(style);
        if t.unicode_len() > 0 {
            let mut e = owned("env SYNCERTING_ICON_STYLE=");
            e.append(t);
            e.push(' ');
            e.append(exec.as_str());
            exec = e;
        }
    }
    let mut out = owned(
        "[Desktop Entry]\nType=Application\nName=Syncerting Tray\nGenericName=Syncthing Tray\nComment=Monitor and control Syncthing from the system tray\nExec=",
    );
    out.append(exec.as_str());
    out.append(
        "\nIcon=syncerting-tray-ok\nTerminal=false\nCategories=Network;FileTransfer;\nKeywords=syncthing;sync;\nX-GNOME-Autostart-enabled=true\n",
    );
    out
}


/// No line break in `s`.
pub open spec fn no_newline(s: Seq<char>) -> bool {
    forall|k: int| 0 <= k < s.len() ==> s[k] != '\n'
}

proof fn lemma_escape_no_newline(s: Seq<char>)
    requires
        no_newline(s),
    ensures
        no_newline(escape_quoted(s)),
    decreases s.len(),
{
    if s.len() > 0 {
        lemma_escape_no_newline(s.drop_last());
    }
}

proof fn lemma_trim_no_newline(s: Seq<char>)
    requires
        no_newline(s),
    ensures
        no_newline(spec_trim(s)),
{
    lemma_trim_start_no_newline(s);
    lemma_trim_end_no_newline(trim_start(s));
}

proof fn lemma_trim_start_no_newline(s: Seq<char>)
    requires
        no_newline(s),
    ensures
        no_newline(trim_start(s)),
    decreases s.len(),
{
    if s.len() > 0 && is_ws(s[0]) {
        lemma_trim_start_no_newline(s.drop_first());
    }
}

proof fn lemma_trim_end_no_newline(s: Seq<char>)
    requires
        no_newline(s),
    ensures
        no_newline(trim_end(s)),
    decreases s.len(),
{
    if s.len() > 0 && is_ws(s.last()) {
        lemma_trim_end_no_newline(s.drop_last());
    }
}

/// Trimming keeps a first character that is not whitespace.
proof fn lemma_trim_keeps_first(s: Seq<char>)
    requires
        s.len() > 0,
        !is_ws(s[0]),
    ensures
        spec_trim(s).len() > 0,
        spec_trim(s)[0] == s[0],
{
    assert(trim_start(s) == s);
    lemma_trim_end_keeps_first(s);
}

proof fn lemma_trim_end_keeps_first(s: Seq<char>)
    requires
        s.len() > 0,
        !is_ws(s[0]),
    ensures
        trim_end(s).len() > 0,
        trim_end(s)[0] == s[0],
    decreases s.len(),
{
    if is_ws(s.last()) {
        assert(s.len() > 1);
        lemma_trim_end_keeps_first(s.drop_last());
    }
}

/// Where each line of `s` starts: at 0, and after each `sep`.
pub open spec fn line_starts(s: Seq<char>, sep: char) -> Seq<int>
    decreases s.len(),
{
    if s.len() == 0 {
        seq![0]
    } else if s.last() == sep {
        line_starts(s.drop_last(), sep).push(s.len() as int)
    } else {
        line_starts(s.drop_last(), sep)
    }
}

/// Each piece `split_on` yields is the text of `s` from a line start on.
proof fn lemma_split_starts(s: Seq<char>, sep: char)
    ensures
        line_starts(s, sep).len() == split_on(s, sep).len(),
        forall|k: int| 0 <= k < split_on(s, sep).len() ==> {
            let p = #[trigger] line_starts(s, sep)[k];
            let seg = split_on(s, sep)[k];
            &&& 0 <= p
            &&& p + seg.len() <= s.len()
            &&& seg == s.subrange(p, p + seg.len())
            &&& (p == 0 || s[p - 1] == sep)
        },
        line_starts(s, sep).last() + split_on(s, sep).last().len() == s.len(),
    decreases s.len(),
{
    if s.len() > 0 {
        let t = s.drop_last();
        lemma_split_starts(t, sep);
        lemma_split_nonempty(t, sep);
        let prev = split_on(t, sep);
        let ps = line_starts(t, sep);
        let segs = split_on(s, sep);
        let st = line_starts(s, sep);
        assert forall|k: int| 0 <= k < segs.len() implies {
            let p = #[trigger] st[k];
            let seg = segs[k];
            &&& 0 <= p
            &&& p + seg.len() <= s.len()
            &&& seg == s.subrange(p, p + seg.len())
            &&& (p == 0 || s[p - 1] == sep)
        } by {
            let _ = ps[k];
            if k < prev.len() - 1 || (s.last() == sep && k < prev.len()) {
                assert(segs[k] == prev[k]);
                assert(st[k] == ps[k]);
                assert(s.subrange(ps[k], ps[k] + prev[k].len()) =~= t.subrange(ps[k], ps[k] + prev[k].len()));
                if ps[k] > 0 {
                    assert(s[ps[k] - 1] == t[ps[k] - 1]);
                }
            } else if s.last() == sep {
                assert(k == prev.len());
                assert(segs[k] == Seq::<char>::empty());
                assert(st[k] == s.len());
                assert(s.subrange(s.len() as int, s.len() as int) =~= Seq::<char>::empty());
            } else {
                let _ = ps[prev.len() - 1];
                assert(k == prev.len() - 1);
                assert(st[k] == ps[k]);
                assert(segs[k] == prev.last().push(s.last()));
                assert(s.subrange(ps[k], s.len() as int) =~= t.subrange(ps[k], t.len() as int).push(s.last()));
                if ps[k] > 0 {
                    assert(s[ps[k] - 1] == t[ps[k] - 1]);
                }
            }
        }
    }
}

/// A line of a desktop entry can begin with `c` without being the line that
/// hides it: `c` is neither whitespace nor `h` in either case.
pub open spec fn harmless_line_start(c: char) -> bool {
    !is_ws(c) && ascii_lower(c) != 'h'
}

/// Every line of `t` after a line break starts harmlessly.
pub open spec fn lines_start_harmlessly(t: Seq<char>) -> bool {
    forall|q: int| 0 < q < t.len() && t[q - 1] == '\n' ==> harmless_line_start(#[trigger] t[q])
}

/// An entry whose every line starts harmlessly is not hidden.
proof fn lemma_harmless_not_hidden(e: Seq<char>)
    requires
        lines_start_harmlessly(e),
        e.len() > 0 ==> harmless_line_start(e[0]),
    ensures
        !spec_is_hidden(e),
{
    lemma_split_starts(e, '\n');
    let segs = split_on(e, '\n');
    let st = line_starts(e, '\n');
    reveal_strlit("hidden=true");
    assert forall|i: int| 0 <= i < segs.len() implies !eq_ignore_ascii_case(
        spec_trim(#[trigger] segs[i]),
        "hidden=true"@,
    ) by {
        let seg = segs[i];
        let p = st[i];
        if seg.len() > 0 {
            assert(seg[0] == e[p]);
            assert(harmless_line_start(seg[0]));
            lemma_trim_keeps_first(seg);
            let t = spec_trim(seg);
            if t.len() == "hidden=true"@.len() {
                assert(ascii_lower(t[0]) != ascii_lower("hidden=true"@[0]));
            }
        } else {
            assert(spec_trim(seg).len() == 0) by {
                assert(trim_start(seg) == seg);
            }
        }
    }
}

/// Turning autostart on is read back as on: the entry built for a binary path
/// and a style setting without line breaks holds no line that hides it, so
/// `is_enabled` of its text is true. (Turning it off removes the entry, which
/// `is_enabled` reads as off.)
pub proof fn law_written_entry_reads_as_enabled(exe: Seq<char>, icon_style: Option<Seq<char>>)
    requires
        no_newline(exe),
        icon_style matches Some(st) ==> no_newline(st),
    ensures
        !spec_is_hidden(spec_desktop_entry(exe, icon_style)),
{
    let l1 = "[Desktop Entry]\nType=Application\nName=Syncerting Tray\nGenericName=Syncthing Tray\nComment=Monitor and control Syncthing from the system tray\nExec="@;
    let l2 = "\nIcon=syncerting-tray-ok\nTerminal=false\nCategories=Network;FileTransfer;\nKeywords=syncthing;sync;\nX-GNOME-Autostart-enabled=true\n"@;
    reveal_strlit("[Desktop Entry]\nType=Application\nName=Syncerting Tray\nGenericName=Syncthing Tray\nComment=Monitor and control Syncthing from the system tray\nExec=");
    reveal_strlit("\nIcon=syncerting-tray-ok\nTerminal=false\nCategories=Network;FileTransfer;\nKeywords=syncthing;sync;\nX-GNOME-Autostart-enabled=true\n");
    reveal_strlit("env SYNCERTING_ICON_STYLE=");
    let x = spec_exec_line(exe, icon_style);
    lemma_escape_no_newline(exe);
    assert(no_newline(spec_quote_exec(exe)));
    if let Some(st) = icon_style {
        lemma_trim_no_newline(st);
        let y = "env SYNCERTING_ICON_STYLE="@ + spec_trim(st) + seq![' '] + spec_quote_exec(exe);
        assert forall|k: int| 0 <= k < y.len() implies y[k] != '\n' by {
            let a = "env SYNCERTING_ICON_STYLE="@.len();
            let b = spec_trim(st).len();
            if k < a {
            } else if k < a + b {
                assert(y[k] == spec_trim(st)[k - a]);
            } else if k == a + b {
            } else {
                assert(y[k] == spec_quote_exec(exe)[k - a - b - 1]);
            }
        }
    }
    assert(no_newline(x));
    let e = spec_desktop_entry(exe, icon_style);
    assert(e == l1 + x + l2);
    assert(lines_start_harmlessly(l1));
    assert(lines_start_harmlessly(l2));
    let n1 = l1.len() as int;
    let nx = x.len() as int;
    assert forall|p: int| 0 < p < e.len() && e[p - 1] == '\n' implies harmless_line_start(#[trigger] e[p]) by {
        if p - 1 < n1 {
            assert(e[p - 1] == l1[p - 1]);
            if p < n1 {
                assert(e[p] == l1[p]);
            } else {
                assert(l1[n1 - 1] == '=');
            }
        } else if p - 1 < n1 + nx {
            assert(e[p - 1] == x[p - 1 - n1]);
        } else {
            let q = p - n1 - nx;
            assert(e[p - 1] == l2[q - 1]);
            assert(e[p] == l2[q]);
        }
    }
    assert(e[0] == l1[0]);
    lemma_harmless_not_hidden(e);
}
} // verus!
