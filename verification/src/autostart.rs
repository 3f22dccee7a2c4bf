//! Launch-on-login through the XDG autostart specification: where the entry
//! lives, what it says, and how to read whether it is switched off.
//!
//! The program reads the environment and the files and hands the values in;
//! everything decided from them is here.

use vstd::prelude::*;
use crate::http::to_ascii_lower;
use crate::text::{
    ascii_lower, ascii_lower_seq, chars_of, is_empty_str, is_ws, push_char, push_str,
    string_of_range, trim, trim_end, trim_start, trimmed,
};

verus! {

/// Basename of the autostart entry this program owns; the same name as the
/// packaged system-wide entry, so a user copy masks it.
pub const ENTRY: &'static str = "alavai-tray.desktop";

/// Where the system-wide configuration lives when `XDG_CONFIG_DIRS` is unset.
pub const DEFAULT_CONFIG_DIRS: &'static str = "/etc/xdg";


/// `base` joined with the relative path `part`, as `Path::join` does: a
/// separator goes between them unless `base` is empty or already ends in one.
pub open spec fn join_path(base: Seq<char>, part: Seq<char>) -> Seq<char> {
    if base.len() == 0 || base.last() == '/' {
        base + part
    } else {
        base + "/"@ + part
    }
}

/// `base` joined with the relative path `part`.
pub fn joined(base: &str, part: &str) -> (r: String)
    ensures
        r@ == join_path(base@, part@),
{
    let v = chars_of(base);
    let mut out = String::new();
    push_str(&mut out, base);
    if v.len() != 0 && v[v.len() - 1] != '/' {
        push_char(&mut out, '/');
        proof {
            reveal_strlit("/");
            assert(out@ =~= base@ + "/"@);
        }
    }
    push_str(&mut out, part);
    out
}

/// Why no autostart directory can be named.
#[derive(Debug, PartialEq, Eq, Structural)]
pub enum AutostartError {
    /// Neither `XDG_CONFIG_HOME` nor `HOME` is set.
    NoConfigDir,
}

/// The autostart directory: `$XDG_CONFIG_HOME/autostart`, else
/// `$HOME/.config/autostart`; an empty variable counts as unset.
pub open spec fn autostart_dir_spec(config_home: Option<Seq<char>>, home: Option<Seq<char>>) -> Option<Seq<char>> {
    match config_home {
        Some(c) if c.len() != 0 => Some(join_path(c, "autostart"@)),
        _ => match home {
            Some(h) if h.len() != 0 => Some(join_path(join_path(h, ".config"@), "autostart"@)),
            _ => None,
        },
    }
}

/// The characters of an optional string.
pub open spec fn opt_chars(o: Option<&str>) -> Option<Seq<char>> {
    match o {
        Some(s) => Some(s@),
        None => None,
    }
}

/// The autostart directory, from the values of `XDG_CONFIG_HOME` and `HOME`.
pub fn autostart_dir(config_home: Option<&str>, home: Option<&str>) -> (r: Result<String, AutostartError>)
    ensures
        match autostart_dir_spec(opt_chars(config_home), opt_chars(home)) {
            Some(d) => r matches Ok(s) && s@ == d,
            None => r == Err::<String, AutostartError>(AutostartError::NoConfigDir),
        },
{
    if let Some(c) = config_home {
        if !is_empty_str(c) {
            return Ok(joined(c, "autostart"));
        }
    }
    match home {
        Some(h) => {
            if is_empty_str(h) {
                return Err(AutostartError::NoConfigDir);
            }
            let cfg = joined(h, ".config");
            Ok(joined(cfg.as_str(), "autostart"))
        },
        None => Err(AutostartError::NoConfigDir),
    }
}

/// The path of this program's entry in autostart directory `dir`.
pub fn entry_path(dir: &str) -> (r: String)
    ensures
        r@ == join_path(dir@, ENTRY@),
{
    joined(dir, ENTRY)
}

/// The pieces of `s` between separators `sep`, in order (`str::split`).
pub open spec fn split_on(s: Seq<char>, sep: char) -> Seq<Seq<char>>
    decreases s.len(),
{
    if s.len() == 0 {
        seq![Seq::empty()]
    } else {
        let r = split_on(s.drop_last(), sep);
        if s.last() == sep {
            r.push(Seq::empty())
        } else {
            r.update(r.len() - 1, r.last().push(s.last()))
        }
    }
}

proof fn lemma_split_on_nonempty(s: Seq<char>, sep: char)
    ensures
        split_on(s, sep).len() >= 1,
    decreases s.len(),
{
    if s.len() > 0 {
        lemma_split_on_nonempty(s.drop_last(), sep);
    }
}

/// The places where a system-wide entry may live: `ENTRY` under the
/// `autostart` directory of each directory of `XDG_CONFIG_DIRS` (split at
/// `:`), or of `/etc/xdg` when that is unset or empty.
pub open spec fn system_entry_candidates_spec(config_dirs: Option<Seq<char>>) -> Seq<Seq<char>> {
    let dirs = match config_dirs {
        Some(v) if v.len() != 0 => v,
        _ => DEFAULT_CONFIG_DIRS@,
    };
    split_on(dirs, ':').map_values(|d: Seq<char>| join_path(join_path(d, "autostart"@), ENTRY@))
}

/// Where a system-wide entry may live, from the value of `XDG_CONFIG_DIRS`.
/// The entry exists when one of these is a file.
pub fn system_entry_candidates(config_dirs: Option<&str>) -> (r: Vec<String>)
    ensures
        r.deep_view() == system_entry_candidates_spec(opt_chars(config_dirs)),
{
    let dirs: &str = match config_dirs {
        Some(v) => if is_empty_str(v) {
            DEFAULT_CONFIG_DIRS
        } else {
            v
        },
        None => DEFAULT_CONFIG_DIRS,
    };
    let ghost ds = dirs@;
    let v = chars_of(dirs);
    let mut out: Vec<String> = Vec::new();
    let mut start: usize = 0;
    let mut i: usize = 0;
    proof {
        assert(v@.subrange(0, 0) =~= Seq::<char>::empty());
    }
    while i < v.len()
        invariant
            v@ == ds,
            start <= i <= v@.len(),
            split_on(ds.subrange(0, i as int), ':').len() == out@.len() + 1,
            split_on(ds.subrange(0, i as int), ':').last() == ds.subrange(start as int, i as int),
            forall|k: int|
                0 <= k < out@.len() ==> #[trigger] out@[k]@ == join_path(
                    join_path(split_on(ds.subrange(0, i as int), ':')[k], "autostart"@),
                    ENTRY@,
                ),
        decreases v@.len() - i,
    {
        let ghost pre = ds.subrange(0, i as int);
        let ghost next = ds.subrange(0, i + 1);
        assert(next.drop_last() =~= pre);
        proof {
            lemma_split_on_nonempty(pre, ':');
        }
        if v[i] == ':' {
            let d = string_of_range(&v, start, i);
            let a = joined(d.as_str(), "autostart");
            out.push(joined(a.as_str(), ENTRY));
            start = i + 1;
            assert(ds.subrange(start as int, i + 1) =~= Seq::<char>::empty());
        } else {
            assert(ds.subrange(start as int, i + 1) =~= ds.subrange(start as int, i as int).push(
                v@[i as int],
            ));
        }
        i = i + 1;
    }
    let d = string_of_range(&v, start, v.len());
    let a = joined(d.as_str(), "autostart");
    out.push(joined(a.as_str(), ENTRY));
    proof {
        assert(ds.subrange(0, v@.len() as int) =~= ds);
        let pieces = split_on(ds, ':');
        assert(out.deep_view() =~= pieces.map_values(
            |d: Seq<char>| join_path(join_path(d, "autostart"@), ENTRY@),
        ));
    }
    out
}

/// The command the entry launches: the running program's path, else the
/// bare name, then `tray`.
pub open spec fn exec_command_spec(exe: Option<Seq<char>>) -> Seq<char> {
    match exe {
        Some(p) => p + " tray"@,
        None => "alavai tray"@,
    }
}

/// The command the entry launches, from the running program's path (`None`
/// when it cannot be found).
pub fn exec_command(exe: Option<&str>) -> (r: String)
    ensures
        r@ == exec_command_spec(opt_chars(exe)),
{
    match exe {
        Some(p) => {
            let mut t = String::from_str(p);
            push_str(&mut t, " tray");
            t
        },
        None => String::from_str("alavai tray"),
    }
}

/// The text of `lines`, each ended by a newline.
pub open spec fn text_of_lines(lines: Seq<Seq<char>>) -> Seq<char>
    decreases lines.len(),
{
    if lines.len() == 0 {
        Seq::empty()
    } else {
        text_of_lines(lines.drop_last()) + lines.last() + seq!['\n']
    }
}

/// The lines of the autostart entry that launches `exec`.
pub open spec fn entry_lines(exec: Seq<char>) -> Seq<Seq<char>> {
    seq![
        "[Desktop Entry]"@,
        "Type=Application"@,
        "Name=alavai (tray)"@,
        "Comment=alavai system-tray daemon — one-click tailnet switching"@,
        "Exec="@ + exec,
        "Icon=alavai"@,
        "Terminal=false"@,
        "Categories=Network;"@,
        "NoDisplay=true"@,
        "X-GNOME-Autostart-enabled=true"@,
    ]
}

/// The autostart entry that launches `exec`.
pub open spec fn entry_text(exec: Seq<char>) -> Seq<char> {
    text_of_lines(entry_lines(exec))
}

/// The lines of the user entry that masks a system-wide one.
pub open spec fn masked_lines() -> Seq<Seq<char>> {
    seq!["[Desktop Entry]"@, "Type=Application"@, "Name=alavai (tray)"@, "Hidden=true"@]
}

/// The user entry that masks a system-wide one.
pub open spec fn masked_text() -> Seq<char> {
    text_of_lines(masked_lines())
}

/// Appends `line` and a newline to `out`.
fn push_line(out: &mut String, line: &str)
    ensures
        final(out)@ == old(out)@ + line@ + seq!['\n'],
{
    push_str(out, line);
    push_char(out, '\n');
}

proof fn lemma_text_of_lines_step(ls: Seq<Seq<char>>, k: int)
    requires
        0 <= k < ls.len(),
    ensures
        text_of_lines(ls.subrange(0, k + 1)) == text_of_lines(ls.subrange(0, k)) + ls[k] + seq![
            '\n',
        ],
{
    assert(ls.subrange(0, k + 1).drop_last() =~= ls.subrange(0, k));
}

/// The autostart entry that launches `exec`.
pub fn entry_contents(exec: &str) -> (r: String)
    ensures
        r@ == entry_text(exec@),
{
    let ghost ls = entry_lines(exec@);
    let mut t = String::new();
    let mut exec_line = String::from_str("Exec=");
    push_str(&mut exec_line, exec);
    assert(t@ =~= text_of_lines(ls.subrange(0, 0)));
    push_line(&mut t, "[Desktop Entry]");
    proof { lemma_text_of_lines_step(ls, 0); }
    push_line(&mut t, "Type=Application");
    proof { lemma_text_of_lines_step(ls, 1); }
    push_line(&mut t, "Name=alavai (tray)");
    proof { lemma_text_of_lines_step(ls, 2); }
    push_line(&mut t, "Comment=alavai system-tray daemon — one-click tailnet switching");
    proof { lemma_text_of_lines_step(ls, 3); }
    push_line(&mut t, exec_line.as_str());
    proof { lemma_text_of_lines_step(ls, 4); }
    push_line(&mut t, "Icon=alavai");
    proof { lemma_text_of_lines_step(ls, 5); }
    push_line(&mut t, "Terminal=false");
    proof { lemma_text_of_lines_step(ls, 6); }
    push_line(&mut t, "Categories=Network;");
    proof { lemma_text_of_lines_step(ls, 7); }
    push_line(&mut t, "NoDisplay=true");
    proof { lemma_text_of_lines_step(ls, 8); }
    push_line(&mut t, "X-GNOME-Autostart-enabled=true");
    proof {
        lemma_text_of_lines_step(ls, 9);
        assert(ls.subrange(0, 10) =~= ls);
    }
    t
}

/// The user entry that masks a system-wide one.
pub fn masked_entry() -> (r: String)
    ensures
        r@ == masked_text(),
{
    let ghost ls = masked_lines();
    let mut t = String::new();
    assert(t@ =~= text_of_lines(ls.subrange(0, 0)));
    push_line(&mut t, "[Desktop Entry]");
    proof { lemma_text_of_lines_step(ls, 0); }
    push_line(&mut t, "Type=Application");
    proof { lemma_text_of_lines_step(ls, 1); }
    push_line(&mut t, "Name=alavai (tray)");
    proof { lemma_text_of_lines_step(ls, 2); }
    push_line(&mut t, "Hidden=true");
    proof {
        lemma_text_of_lines_step(ls, 3);
        assert(ls.subrange(0, 4) =~= ls);
    }
    t
}

/// `s` without its spaces.
pub open spec fn drop_spaces(s: Seq<char>) -> Seq<char>
    decreases s.len(),
{
    if s.len() == 0 {
        s
    } else {
        let r = drop_spaces(s.drop_last());
        if s.last() == ' ' {
            r
        } else {
            r.push(s.last())
        }
    }
}

/// A line of an entry as it is compared: trimmed, without spaces, ASCII
/// lowercased.
pub open spec fn normalized(line: Seq<char>) -> Seq<char> {
    ascii_lower_seq(drop_spaces(trim(line)))
}

/// Whether a line switches the entry off: `Hidden=true` or
/// `X-GNOME-Autostart-enabled=false`.
pub open spec fn disables(line: Seq<char>) -> bool {
    normalized(line) == "hidden=true"@ || normalized(line) == "x-gnome-autostart-enabled=false"@
}

/// Whether some line of `contents` switches the entry off.
pub open spec fn entry_disabled_spec(contents: Seq<char>) -> bool {
    exists|k: int|
        0 <= k < split_on(contents, '\n').len() && disables(#[trigger] split_on(contents, '\n')[k])
}

/// `line` trimmed, without spaces, ASCII lowercased.
fn normalize(line: &str) -> (r: Vec<char>)
    ensures
        r@ == normalized(line@),
{
    let t = trimmed(line);
    let v = chars_of(t.as_str());
    let mut out: Vec<char> = Vec::new();
    let mut i: usize = 0;
    while i < v.len()
        invariant
            v@ == trim(line@),
            i <= v@.len(),
            out@ == ascii_lower_seq(drop_spaces(v@.subrange(0, i as int))),
        decreases v@.len() - i,
    {
        let ghost pre = v@.subrange(0, i as int);
        assert(v@.subrange(0, i + 1).drop_last() =~= pre);
        if v[i] != ' ' {
            out.push(to_ascii_lower(v[i]));
            assert(out@ =~= ascii_lower_seq(drop_spaces(v@.subrange(0, i + 1))));
        } else {
            assert(out@ =~= ascii_lower_seq(drop_spaces(v@.subrange(0, i + 1))));
        }
        i = i + 1;
    }
    assert(v@.subrange(0, v@.len() as int) =~= v@);
    out
}

fn line_disables(line: &str) -> (r: bool)
    ensures
        r == disables(line@),
{
    let n = normalize(line);
    let s = crate::text::string_of(&n);
    crate::text::str_eq(s.as_str(), "hidden=true") || crate::text::str_eq(
        s.as_str(),
        "x-gnome-autostart-enabled=false",
    )
}

/// Whether some line of an entry switches it off (`Hidden=true`, or
/// `X-GNOME-Autostart-enabled=false`, in any case and spacing).
pub fn entry_disabled(contents: &str) -> (r: bool)
    ensures
        r == entry_disabled_spec(contents@),
{
    let ghost cs = contents@;
    let v = chars_of(contents);
    let mut start: usize = 0;
    let mut i: usize = 0;
    proof {
        assert(v@.subrange(0, 0) =~= Seq::<char>::empty());
    }
    while i < v.len()
        invariant
            v@ == cs,
            cs == contents@,
            start <= i <= v@.len(),
            split_on(cs.subrange(0, i as int), '\n').len() >= 1,
            split_on(cs.subrange(0, i as int), '\n').last() == cs.subrange(start as int, i as int),
            forall|k: int|
                0 <= k < split_on(cs.subrange(0, i as int), '\n').len() - 1 ==> !disables(
                    #[trigger] split_on(cs.subrange(0, i as int), '\n')[k],
                ),
        decreases v@.len() - i,
    {
        let ghost pre = cs.subrange(0, i as int);
        let ghost next = cs.subrange(0, i + 1);
        assert(next.drop_last() =~= pre);
        proof {
            lemma_split_on_nonempty(pre, '\n');
        }
        if v[i] == '\n' {
            let line = string_of_range(&v, start, i);
            if line_disables(line.as_str()) {
                proof {
                    let k = split_on(pre, '\n').len() - 1;
                    assert(split_on(next, '\n')[k] == split_on(pre, '\n')[k]);
                    lemma_split_prefix(cs, i + 1);
                    assert(split_on(cs, '\n')[k] == split_on(next, '\n')[k]);
                    assert(disables(split_on(cs, '\n')[k]));
                    assert(0 <= k < split_on(cs, '\n').len());
                    assert(entry_disabled_spec(cs));
                }

                return true;
            }
            start = i + 1;
            assert(cs.subrange(start as int, i + 1) =~= Seq::<char>::empty());
        } else {
            assert(cs.subrange(start as int, i + 1) =~= cs.subrange(start as int, i as int).push(
                v@[i as int],
            ));
        }
        i = i + 1;
    }
    let line = string_of_range(&v, start, v.len());
    let last = line_disables(line.as_str());
    proof {
        assert(cs.subrange(0, v@.len() as int) =~= cs);
        if !last {
            assert forall|k: int| 0 <= k < split_on(cs, '\n').len() implies !disables(
                #[trigger] split_on(cs, '\n')[k],
            ) by {
                if k < split_on(cs, '\n').len() - 1 {
                }
            }
        }
    }
    last
}

/// Splitting a longer text keeps the finished pieces of a prefix.
proof fn lemma_split_prefix(s: Seq<char>, n: int)
    requires
        0 <= n <= s.len(),
    ensures
        split_on(s, '\n').len() >= split_on(s.subrange(0, n), '\n').len(),
        forall|k: int|
            0 <= k < split_on(s.subrange(0, n), '\n').len() - 1 ==> #[trigger] split_on(s, '\n')[k]
                == split_on(s.subrange(0, n), '\n')[k],
    decreases s.len() - n,
{
    if n < s.len() {
        lemma_split_prefix(s, n + 1);
        let a = s.subrange(0, n);
        let b = s.subrange(0, n + 1);
        assert(b.drop_last() =~= a);
        lemma_split_on_nonempty(a, '\n');
    } else {
        assert(s.subrange(0, n) =~= s);
    }
}

/// Whether launch-on-login reads as on: with a user entry, unless a line of
/// it switches it off; without one (`None`), when a system-wide entry exists.
pub open spec fn enabled_spec(user_entry: Option<Seq<char>>, system_entry_exists: bool) -> bool {
    match user_entry {
        Some(c) => !entry_disabled_spec(c),
        None => system_entry_exists,
    }
}

/// Whether launch-on-login is on: with a user entry, unless a line of it
/// switches it off; without one (`None`), when a system-wide entry exists.
pub fn is_enabled_from(user_entry: Option<&str>, system_entry_exists: bool) -> (r: bool)
    ensures
        r == enabled_spec(opt_chars(user_entry), system_entry_exists),
{
    match user_entry {
        Some(c) => !entry_disabled(c),
        None => system_entry_exists,
    }
}

/// How to switch launch-on-login off.
#[derive(Debug, PartialEq, Eq, Structural)]
pub enum DisablePlan {
    /// Write [`masked_entry`] as the user entry: a system-wide entry exists,
    /// and removing the user entry would not stop it.
    WriteMask,
    /// Remove the user entry; a missing one is already off.
    Remove,
}

/// How to switch launch-on-login off, given whether a system-wide entry
/// exists.
pub fn disable_plan(system_entry_exists: bool) -> (r: DisablePlan)
    ensures
        r == disable_plan_spec(system_entry_exists),
{
    if system_entry_exists {
        DisablePlan::WriteMask
    } else {
        DisablePlan::Remove
    }
}


// ---------------------------------------------------------------------------
// What the entries read as
// ---------------------------------------------------------------------------

/// Appending text without a separator to `x` extends the last piece.
proof fn lemma_split_append_plain(x: Seq<char>, l: Seq<char>, sep: char)
    requires
        forall|i: int| 0 <= i < l.len() ==> l[i] != sep,
    ensures
        split_on(x + l, sep) == split_on(x, sep).update(
            split_on(x, sep).len() - 1,
            split_on(x, sep).last() + l,
        ),
    decreases l.len(),
{
    lemma_split_on_nonempty(x, sep);
    let s = split_on(x, sep);
    if l.len() == 0 {
        assert(x + l =~= x);
        assert(s.update(s.len() - 1, s.last() + l) =~= s);
    } else {
        let c = x + l;
        assert(c.drop_last() =~= x + l.drop_last());
        lemma_split_append_plain(x, l.drop_last(), sep);
        assert(c.last() == l.last());
        let r = split_on(c.drop_last(), sep);
        assert(r == s.update(s.len() - 1, s.last() + l.drop_last()));
        assert(r.last() == s.last() + l.drop_last());
        assert((s.last() + l.drop_last()).push(l.last()) =~= s.last() + l);
        assert(split_on(c, sep) =~= s.update(s.len() - 1, s.last() + l));
    }
}

/// The pieces of a text made of newline-ended lines: the lines, then an
/// empty piece.
proof fn lemma_split_lines(lines: Seq<Seq<char>>)
    requires
        forall|i: int, j: int|
            0 <= i < lines.len() && 0 <= j < lines[i].len() ==> #[trigger] lines[i][j] != '\n',
    ensures
        split_on(text_of_lines(lines), '\n') == lines.push(Seq::empty()),
    decreases lines.len(),
{
    if lines.len() == 0 {
        assert(split_on(Seq::<char>::empty(), '\n') =~= seq![Seq::<char>::empty()]);
        assert(lines.push(Seq::empty()) =~= seq![Seq::<char>::empty()]);
    } else {
        let ls = lines.drop_last();
        let l = lines.last();
        assert forall|i: int, j: int| 0 <= i < ls.len() && 0 <= j < ls[i].len() implies #[trigger] ls[i][j]
            != '\n' by {
            assert(ls[i] == lines[i]);
        }
        lemma_split_lines(ls);
        let x = text_of_lines(ls);
        let t = text_of_lines(lines);
        assert(t == x + l + seq!['\n']);
        assert(t.drop_last() =~= x + l);
        assert(forall|j: int| 0 <= j < l.len() ==> l[j] != '\n') by {
            assert forall|j: int| 0 <= j < l.len() implies l[j] != '\n' by {
                assert(lines[lines.len() - 1][j] != '\n');
            }
        }
        lemma_split_append_plain(x, l, '\n');
        assert(ls.push(Seq::<char>::empty()).update(ls.len() as int, Seq::<char>::empty() + l) =~= lines);
    }
}

proof fn lemma_trim_end_head(s: Seq<char>)
    requires
        s.len() > 0,
        !is_ws(s[0]),
    ensures
        trim_end(s).len() > 0,
        trim_end(s)[0] == s[0],
    decreases s.len(),
{
    if is_ws(s.last()) {
        assert(s.len() > 1);
        assert(s.drop_last()[0] == s[0]);
        lemma_trim_end_head(s.drop_last());
    }
}

proof fn lemma_trim_end_keeps(s: Seq<char>)
    requires
        s.len() > 0,
        !is_ws(s.last()),
    ensures
        trim_end(s) == s,
{
}

proof fn lemma_drop_spaces_head(s: Seq<char>)
    requires
        s.len() > 0,
        s[0] != ' ',
    ensures
        drop_spaces(s).len() > 0,
        drop_spaces(s)[0] == s[0],
    decreases s.len(),
{
    if s.len() == 1 {
        assert(s.drop_last() =~= Seq::<char>::empty());
        assert(drop_spaces(s.drop_last()) =~= Seq::<char>::empty());
        assert(s.last() == s[0]);
        assert(drop_spaces(s) =~= seq![s[0]]);
    } else {
        assert(s.drop_last()[0] == s[0]);
        lemma_drop_spaces_head(s.drop_last());
        let r = drop_spaces(s.drop_last());
        assert(r.push(s.last())[0] == r[0]);
    }
}

proof fn lemma_drop_spaces_keeps(s: Seq<char>)
    requires
        forall|i: int| 0 <= i < s.len() ==> s[i] != ' ',
    ensures
        drop_spaces(s) == s,
    decreases s.len(),
{
    if s.len() > 0 {
        lemma_drop_spaces_keeps(s.drop_last());
        assert(s.drop_last().push(s.last()) =~= s);
    }
}

/// A line that starts with a visible character reads as starting with that
/// character, lowercased.
proof fn lemma_normalized_head(s: Seq<char>)
    requires
        s.len() > 0,
        !is_ws(s[0]),
    ensures
        normalized(s).len() > 0,
        normalized(s)[0] == ascii_lower(s[0]),
{
    assert(trim_start(s) == s);
    lemma_trim_end_head(s);
    lemma_drop_spaces_head(trim_end(s));
}

/// A line without spaces and with visible ends reads as itself, lowercased.
proof fn lemma_normalized_whole(s: Seq<char>)
    requires
        s.len() > 0,
        !is_ws(s[0]),
        !is_ws(s.last()),
        forall|i: int| 0 <= i < s.len() ==> s[i] != ' ',
    ensures
        normalized(s) == ascii_lower_seq(s),
{
    assert(trim_start(s) == s);
    lemma_trim_end_keeps(s);
    lemma_drop_spaces_keeps(s);
}

/// The entry that masks a system-wide one reads as switched off.
pub proof fn law_mask_reads_as_off()
    ensures
        entry_disabled_spec(masked_text()),
{
    reveal_strlit("[Desktop Entry]");
    reveal_strlit("Type=Application");
    reveal_strlit("Name=alavai (tray)");
    reveal_strlit("Hidden=true");
    reveal_strlit("hidden=true");
    let ls = masked_lines();
    lemma_split_lines(ls);
    let h = "Hidden=true"@;
    lemma_normalized_whole(h);
    assert(ascii_lower_seq(h) =~= "hidden=true"@);
    assert(split_on(masked_text(), '\n')[3] == h);
    assert(disables(split_on(masked_text(), '\n')[3]));
}

/// The pieces of `a + b`: those of `a`, its last one joined to the first of
/// `b`, then the rest of those of `b`.
proof fn lemma_split_concat(a: Seq<char>, b: Seq<char>, sep: char)
    ensures
        split_on(a + b, sep) == split_on(a, sep).drop_last() + seq![
            split_on(a, sep).last() + split_on(b, sep)[0],
        ] + split_on(b, sep).drop_first(),
    decreases b.len(),
{
    lemma_split_on_nonempty(a, sep);
    let sa = split_on(a, sep);
    if b.len() == 0 {
        assert(a + b =~= a);
        assert(split_on(b, sep) =~= seq![Seq::<char>::empty()]);
        assert(sa.last() + Seq::<char>::empty() =~= sa.last());
        assert(sa.drop_last() + seq![sa.last()] =~= sa);
        assert(split_on(b, sep).drop_first() =~= Seq::<Seq<char>>::empty());
        assert(sa.drop_last() + seq![sa.last() + split_on(b, sep)[0]] + split_on(b, sep).drop_first() =~= sa);
    } else {
        let b1 = b.drop_last();
        let c = b.last();
        lemma_split_concat(a, b1, sep);
        lemma_split_on_nonempty(b1, sep);
        assert((a + b).drop_last() =~= a + b1);
        assert((a + b).last() == c);
        let sb1 = split_on(b1, sep);
        let sb = split_on(b, sep);
        let x = sa.last();
        let head = sa.drop_last();
        let r1 = split_on(a + b1, sep);
        assert(r1 == head + seq![x + sb1[0]] + sb1.drop_first());
        if c == sep {
            assert(sb == sb1.push(Seq::empty()));
            assert(sb[0] == sb1[0]);
            assert(sb.drop_first() =~= sb1.drop_first().push(Seq::empty()));
            assert(r1.push(Seq::empty()) =~= head + seq![x + sb[0]] + sb.drop_first());
        } else {
            assert(sb == sb1.update(sb1.len() - 1, sb1.last().push(c)));
            if sb1.len() == 1 {
                assert(sb[0] == sb1[0].push(c));
                assert((x + sb1[0]).push(c) =~= x + sb[0]);
                assert(sb.drop_first() =~= Seq::<Seq<char>>::empty());
                assert(r1.update(r1.len() - 1, r1.last().push(c)) =~= head + seq![x + sb[0]]
                    + sb.drop_first());
            } else {
                assert(sb[0] == sb1[0]);
                assert(sb.drop_first() =~= sb1.drop_first().update(
                    sb1.len() - 2,
                    sb1.last().push(c),
                ));
                assert(r1.update(r1.len() - 1, r1.last().push(c)) =~= head + seq![x + sb[0]]
                    + sb.drop_first());
            }
        }
    }
}

/// Text without a separator is one piece.
proof fn lemma_split_plain(s: Seq<char>, sep: char)
    requires
        forall|i: int| 0 <= i < s.len() ==> s[i] != sep,
    ensures
        split_on(s, sep) == seq![s],
{
    lemma_split_append_plain(Seq::empty(), s, sep);
    assert(Seq::<char>::empty() + s =~= s);
    assert(split_on(Seq::<char>::empty(), sep) =~= seq![Seq::<char>::empty()]);
    assert(seq![Seq::<char>::empty()].update(0, Seq::<char>::empty() + s) =~= seq![s]);
}

/// The text of two runs of lines is the text of the first, then of the second.
proof fn lemma_text_of_lines_concat(l1: Seq<Seq<char>>, l2: Seq<Seq<char>>)
    ensures
        text_of_lines(l1 + l2) == text_of_lines(l1) + text_of_lines(l2),
    decreases l2.len(),
{
    if l2.len() == 0 {
        assert(l1 + l2 =~= l1);
        assert(text_of_lines(l1) + Seq::<char>::empty() =~= text_of_lines(l1));
    } else {
        lemma_text_of_lines_concat(l1, l2.drop_last());
        assert((l1 + l2).drop_last() =~= l1 + l2.drop_last());
        assert((l1 + l2).last() == l2.last());
        assert(text_of_lines(l1) + text_of_lines(l2.drop_last()) + l2.last() + seq!['\n'] =~= text_of_lines(l1)
            + (text_of_lines(l2.drop_last()) + l2.last() + seq!['\n']));
    }
}

/// No line of the entry but the program's own switches it off; the line
/// that names the program starts with `Exec=`, which no disabling line does.
proof fn lemma_entry_lines_keep_on(exec: Seq<char>, rest: Seq<char>)
    ensures
        forall|k: int| 0 <= k < 10 && k != 4 ==> !disables(#[trigger] entry_lines(exec)[k]),
        forall|k: int, j: int|
            0 <= k < 10 && k != 4 && 0 <= j < entry_lines(exec)[k].len() ==> #[trigger] entry_lines(
                exec,
            )[k][j] != '\n',
        !disables("Exec="@ + rest),
        forall|j: int| 0 <= j < "Exec="@.len() ==> "Exec="@[j] != '\n',
{
    reveal_strlit("[Desktop Entry]");
    reveal_strlit("Type=Application");
    reveal_strlit("Name=alavai (tray)");
    reveal_strlit("Comment=alavai system-tray daemon — one-click tailnet switching");
    reveal_strlit("Exec=");
    reveal_strlit("Icon=alavai");
    reveal_strlit("Terminal=false");
    reveal_strlit("Categories=Network;");
    reveal_strlit("NoDisplay=true");
    reveal_strlit("X-GNOME-Autostart-enabled=true");
    reveal_strlit("hidden=true");
    reveal_strlit("x-gnome-autostart-enabled=false");
    let ls = entry_lines(exec);
    assert forall|k: int| 0 <= k < 10 && k != 4 implies !disables(#[trigger] ls[k]) by {
        if k < 9 {
            assert(ls[k].len() > 0);
            lemma_normalized_head(ls[k]);
            assert(normalized(ls[k])[0] != 'h');
            assert(normalized(ls[k])[0] != 'x');
            assert(normalized(ls[k]) != "hidden=true"@);
            assert(normalized(ls[k]) != "x-gnome-autostart-enabled=false"@);
        } else {
            lemma_normalized_whole(ls[9]);
            assert(normalized(ls[9]).len() == 30);
        }
    }
    let e = "Exec="@ + rest;
    assert(e[0] == 'E');
    lemma_normalized_head(e);
    assert(normalized(e)[0] == 'e');
    assert(normalized(e) != "hidden=true"@);
    assert(normalized(e) != "x-gnome-autostart-enabled=false"@);
}

/// The pieces of the entry that launches `exec`: its fixed lines, with the
/// pieces of `exec` (each newline in it starting a line) in the place of the
/// program's line.
proof fn lemma_entry_pieces(exec: Seq<char>)
    ensures
        split_on(entry_text(exec), '\n') == entry_lines(exec).subrange(0, 4) + seq![
            "Exec="@ + split_on(exec, '\n')[0],
        ] + split_on(exec, '\n').drop_first() + entry_lines(exec).subrange(5, 10).push(Seq::empty()),
{
    let ls = entry_lines(exec);
    let l4 = ls.subrange(0, 4);
    let l5 = ls.subrange(5, 10);
    let x = split_on(exec, '\n');
    lemma_split_on_nonempty(exec, '\n');
    lemma_entry_lines_keep_on(exec, Seq::empty());
    let ex = "Exec="@;
    // The text, in three parts.
    let t4 = text_of_lines(l4);
    let n = text_of_lines(seq![Seq::<char>::empty()] + l5);
    assert(ls =~= l4 + (seq![ex + exec] + l5));
    lemma_text_of_lines_concat(l4, seq![ex + exec] + l5);
    assert(seq![ex + exec] + l5 =~= seq![ex + exec] + (seq![Seq::<char>::empty()] + l5).drop_first());
    lemma_text_of_lines_concat(seq![ex + exec], l5);
    lemma_text_of_lines_concat(seq![Seq::<char>::empty()], l5);
    assert(seq![ex + exec].drop_last() =~= Seq::<Seq<char>>::empty());
    assert(seq![Seq::<char>::empty()].drop_last() =~= Seq::<Seq<char>>::empty());
    assert(text_of_lines(Seq::<Seq<char>>::empty()) == Seq::<char>::empty());
    assert(seq![ex + exec].last() == ex + exec);
    assert(text_of_lines(seq![ex + exec]) =~= ex + exec + seq!['\n']);
    assert(seq![Seq::<char>::empty()].last() == Seq::<char>::empty());
    assert(text_of_lines(seq![Seq::<char>::empty()]) =~= seq!['\n']);
    let m = ex + exec + n;
    assert(entry_text(exec) =~= t4 + m);
    // The pieces of each part.
    assert forall|i: int, j: int| 0 <= i < l4.len() && 0 <= j < l4[i].len() implies #[trigger] l4[i][j]
        != '\n' by {
        assert(l4[i] == ls[i]);
    }
    lemma_split_lines(l4);
    let l5e = seq![Seq::<char>::empty()] + l5;
    assert forall|i: int, j: int| 0 <= i < l5e.len() && 0 <= j < l5e[i].len() implies #[trigger] l5e[i][j]
        != '\n' by {
        assert(l5e[i] == ls[i + 4]);
    }
    lemma_split_lines(l5e);
    lemma_split_plain(ex, '\n');
    lemma_split_concat(ex, exec, '\n');
    let se = split_on(ex + exec, '\n');
    assert(se =~= seq![ex + x[0]] + x.drop_first());
    lemma_split_concat(ex + exec, n, '\n');
    let sn = split_on(n, '\n');
    assert(sn == l5e.push(Seq::empty()));
    assert(se.last() + sn[0] =~= se.last());
    assert(se.drop_last() + seq![se.last()] =~= se);
    assert(sn.drop_first() =~= l5.push(Seq::empty()));
    let sm = split_on(m, '\n');
    assert(sm =~= se + l5.push(Seq::empty()));
    lemma_split_concat(t4, m, '\n');
    assert(split_on(t4, '\n').drop_last() =~= l4);
    assert(split_on(t4, '\n').last() + sm[0] =~= sm[0]);
    assert(seq![sm[0]] + sm.drop_first() =~= sm);
    assert(split_on(entry_text(exec), '\n') =~= l4 + sm);
    assert(l4 + sm =~= l4 + seq![ex + x[0]] + x.drop_first() + l5.push(Seq::empty()));
}

/// After enabling (the entry that launches `exec` written as the user
/// entry), launch-on-login reads as on, whether or not a system-wide entry
/// exists; unless `exec` itself holds a newline followed by a line that
/// switches an entry off.
#[verifier::rlimit(30)]
pub proof fn law_enable_reads_as_on(exec: Seq<char>, system_entry_exists: bool)
    ensures
        enabled_spec(Some(entry_text(exec)), system_entry_exists) == (forall|k: int|
            1 <= k < split_on(exec, '\n').len() ==> !disables(#[trigger] split_on(exec, '\n')[k])),
{
    let ls = entry_lines(exec);
    let x = split_on(exec, '\n');
    let p = split_on(entry_text(exec), '\n');
    lemma_split_on_nonempty(exec, '\n');
    lemma_entry_pieces(exec);
    lemma_entry_lines_keep_on(exec, x[0]);
    assert(p.len() == x.len() + 10);
    assert forall|k: int| 1 <= k < x.len() implies p[k + 4] == #[trigger] x[k] by {}
    if forall|k: int| 1 <= k < x.len() ==> !disables(#[trigger] x[k]) {
        assert forall|i: int| 0 <= i < p.len() implies !disables(#[trigger] p[i]) by {
            if i < 4 {
                assert(p[i] == ls[i]);
                assert(!disables(ls[i]));
            } else if i == 4 {
                assert(p[i] == "Exec="@ + x[0]);
            } else if i < x.len() + 4 {
                assert(p[i] == x[i - 4]);
                assert(!disables(x[i - 4]));
            } else if i < x.len() + 9 {
                assert(p[i] == ls[i - x.len() + 1]);
                assert(!disables(ls[i - x.len() + 1]));
            } else {
                assert(p[i] == Seq::<char>::empty());
                assert(trim_start(Seq::<char>::empty()) =~= Seq::<char>::empty());
                assert(normalized(p[i]).len() == 0);
                reveal_strlit("hidden=true");
                reveal_strlit("x-gnome-autostart-enabled=false");
            }
        }
    }
}

/// How launch-on-login is switched off, given whether a system-wide entry
/// exists.
pub open spec fn disable_plan_spec(system_entry_exists: bool) -> DisablePlan {
    if system_entry_exists {
        DisablePlan::WriteMask
    } else {
        DisablePlan::Remove
    }
}

/// The user entry once `plan` is carried out: the mask, or none.
pub open spec fn user_entry_after(plan: DisablePlan) -> Option<Seq<char>> {
    match plan {
        DisablePlan::WriteMask => Some(masked_text()),
        DisablePlan::Remove => None,
    }
}

/// After disabling, launch-on-login reads as off, whether or not a
/// system-wide entry exists.
pub proof fn law_disable_reads_as_off(system_entry_exists: bool)
    ensures
        !enabled_spec(user_entry_after(disable_plan_spec(system_entry_exists)), system_entry_exists),
{
    law_mask_reads_as_off();
}

} // verus!
