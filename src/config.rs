//! Session configuration: project structure from the package tool, editor
//! preferences from the client, and how the two merge.
use vstd::prelude::*;
use crate::text::{chars_of, lines, lines_from, string_of, trim, trim_bounds, trimmed};

verus! {

/// The external formatter used for documents.
#[derive(Debug, Clone, Copy, PartialEq, Eq, Structural)]
pub enum Formatter {
    PursTidy,
    PursFmt,
}

impl Default for Formatter {
    fn default() -> (r: Formatter)
        ensures
            r == Formatter::PursTidy,
    {
        Formatter::PursTidy
    }
}

/// The configuration of a session. Output directory and source globs always
/// come from the package tool; the rest may be overridden by the client.
#[derive(Debug, Clone)]
pub struct Config {
    pub output_dir: String,
    pub source_globs: Vec<String>,
    pub formatter: Formatter,
    pub fast_rebuild_on_save: bool,
    pub fast_rebuild_on_change: bool,
}

/// Preferences sent by the client; an absent field leaves the setting as it is.
#[derive(Debug, Clone, Copy, PartialEq, Eq, Structural)]
pub struct ClientConfig {
    pub formatter: Option<Formatter>,
    pub fast_rebuild_on_save: Option<bool>,
    pub fast_rebuild_on_change: Option<bool>,
}

impl Default for ClientConfig {
    fn default() -> (r: ClientConfig)
        ensures
            r.formatter is None,
            r.fast_rebuild_on_save is None,
            r.fast_rebuild_on_change is None,
    {
        ClientConfig { formatter: None, fast_rebuild_on_save: None, fast_rebuild_on_change: None }
    }
}

/// `o`'s value if present, else `d`.
pub open spec fn or_else<T>(o: Option<T>, d: T) -> T {
    match o {
        Some(v) => v,
        None => d,
    }
}

/// The views of a sequence of strings.
pub open spec fn glob_views(v: Seq<String>) -> Seq<Seq<char>> {
    v.map_values(|s: String| s@)
}

impl Config {
    /// Takes each setting that the client gives; keeps the others.
    pub fn merge_with_client_config(&mut self, client_config: ClientConfig)
        ensures
            final(self).output_dir@ == old(self).output_dir@,
            glob_views(final(self).source_globs@) == glob_views(old(self).source_globs@),
            final(self).formatter == or_else(client_config.formatter, old(self).formatter),
            final(self).fast_rebuild_on_save == or_else(
                client_config.fast_rebuild_on_save,
                old(self).fast_rebuild_on_save,
            ),
            final(self).fast_rebuild_on_change == or_else(
                client_config.fast_rebuild_on_change,
                old(self).fast_rebuild_on_change,
            ),
    {
        if let Some(formatter) = client_config.formatter {
            self.formatter = formatter;
        }
        if let Some(fast_rebuild_on_save) = client_config.fast_rebuild_on_save {
            self.fast_rebuild_on_save = fast_rebuild_on_save;
        }
        if let Some(fast_rebuild_on_change) = client_config.fast_rebuild_on_change {
            self.fast_rebuild_on_change = fast_rebuild_on_change;
        }
    }
}

/// The configuration given by the package tool's answers alone: the
/// `pursfmt` formatter and fast rebuilds on save and on change.
pub fn init_from_ragu(output_dir: String, source_globs: Vec<String>) -> (r: Config)
    ensures
        r.output_dir@ == output_dir@,
        r.source_globs@ == source_globs@,
        r.formatter == Formatter::PursFmt,
        r.fast_rebuild_on_save,
        r.fast_rebuild_on_change,
{
    Config {
        output_dir,
        source_globs,
        formatter: Formatter::PursFmt,
        fast_rebuild_on_save: true,
        fast_rebuild_on_change: true,
    }
}

/// The package tool's configuration with the client's settings, if any, merged in.
pub fn init_with_client_config(
    output_dir: String,
    source_globs: Vec<String>,
    client_config: Option<ClientConfig>,
) -> (r: Config)
    ensures
        r.output_dir@ == output_dir@,
        glob_views(r.source_globs@) == glob_views(source_globs@),
        r.formatter == (match client_config {
            Some(c) => or_else(c.formatter, Formatter::PursFmt),
            None => Formatter::PursFmt,
        }),
        r.fast_rebuild_on_save == (match client_config {
            Some(c) => or_else(c.fast_rebuild_on_save, true),
            None => true,
        }),
        r.fast_rebuild_on_change == (match client_config {
            Some(c) => or_else(c.fast_rebuild_on_change, true),
            None => true,
        }),
{
    let mut config = init_from_ragu(output_dir, source_globs);
    if let Some(client_cfg) = client_config {
        config.merge_with_client_config(client_cfg);
    }
    config
}

/// A configuration with the default formatter, fast rebuild on save, and no
/// fast rebuild on change.
pub fn init_config(output_dir: String, source_globs: Vec<String>) -> (r: Config)
    ensures
        r.output_dir@ == output_dir@,
        r.source_globs@ == source_globs@,
        r.formatter == Formatter::PursTidy,
        r.fast_rebuild_on_save,
        !r.fast_rebuild_on_change,
{
    Config {
        output_dir,
        source_globs,
        formatter: Formatter::default(),
        fast_rebuild_on_save: true,
        fast_rebuild_on_change: false,
    }
}

/// The client settings that a configuration amounts to.
pub fn client_config_of(config: &Config) -> (r: ClientConfig)
    ensures
        r.formatter == Some(config.formatter),
        r.fast_rebuild_on_save == Some(config.fast_rebuild_on_save),
        r.fast_rebuild_on_change == Some(config.fast_rebuild_on_change),
{
    ClientConfig {
        formatter: Some(config.formatter),
        fast_rebuild_on_save: Some(config.fast_rebuild_on_save),
        fast_rebuild_on_change: Some(config.fast_rebuild_on_change),
    }
}

/// Whether newly fetched client settings differ from the current ones.
pub fn client_config_changed(fetched: Option<ClientConfig>, current: Option<ClientConfig>) -> (r:
    bool)
    ensures
        r == (fetched != current),
{
    match (fetched, current) {
        (None, None) => false,
        (Some(a), Some(b)) => !(a.formatter == b.formatter && a.fast_rebuild_on_save
            == b.fast_rebuild_on_save && a.fast_rebuild_on_change == b.fast_rebuild_on_change),
        _ => true,
    }
}

/// The output directory named by the package tool's answer: the answer trimmed.
pub fn parse_output_dir(stdout: &str) -> (r: String)
    ensures
        r@ == trim(stdout@),
{
    trimmed(stdout)
}

/// The non-empty trimmed lines among `ls`, in order.
pub open spec fn nonempty_trimmed(ls: Seq<Seq<char>>) -> Seq<Seq<char>>
    decreases ls.len(),
{
    if ls.len() == 0 {
        Seq::empty()
    } else {
        let t = trim(ls[0]);
        let rest = nonempty_trimmed(ls.drop_first());
        if t.len() > 0 {
            seq![t] + rest
        } else {
            rest
        }
    }
}

/// The trimmed piece if it is not empty, else nothing.
pub open spec fn keep_nonempty(piece: Seq<char>) -> Seq<Seq<char>> {
    if trim(piece).len() > 0 {
        seq![trim(piece)]
    } else {
        Seq::empty()
    }
}

proof fn lemma_nonempty_cons(piece: Seq<char>, rest: Seq<Seq<char>>)
    ensures
        nonempty_trimmed(seq![piece] + rest) == keep_nonempty(piece) + nonempty_trimmed(rest),
{
    let l = seq![piece] + rest;
    assert(l.drop_first() =~= rest);
    assert(l[0] == piece);
    assert(keep_nonempty(piece) + nonempty_trimmed(rest) =~= nonempty_trimmed(l));
}

fn push_nonempty(v: &Vec<char>, lo: usize, hi: usize, out: &mut Vec<String>)
    requires
        lo <= hi <= v@.len(),
    ensures
        glob_views(final(out)@) == glob_views(old(out)@) + keep_nonempty(
            v@.subrange(lo as int, hi as int),
        ),
{
    let (a, b) = trim_bounds(v, lo, hi);
    if a < b {
        let line = string_of(v, a, b);
        let ghost before = out@;
        out.push(line);
        assert(glob_views(out@) =~= glob_views(before) + keep_nonempty(
            v@.subrange(lo as int, hi as int),
        ));
    } else {
        assert(glob_views(out@) =~= glob_views(out@) + keep_nonempty(
            v@.subrange(lo as int, hi as int),
        ));
    }
}

/// The source globs named by the package tool's answer: its non-empty lines, trimmed.
pub fn parse_sources(stdout: &str) -> (r: Vec<String>)
    ensures
        glob_views(r@) == nonempty_trimmed(lines(stdout@)),
{
    let v = chars_of(stdout);
    let ghost s = v@;
    let mut out: Vec<String> = Vec::new();
    let mut start: usize = 0;
    let mut i: usize = 0;
    assert(glob_views(out@) + nonempty_trimmed(lines(s)) =~= nonempty_trimmed(lines(s)));
    while i < v.len()
        invariant
            s == v@,
            s == stdout@,
            start <= i <= v@.len(),
            nonempty_trimmed(lines(s)) == glob_views(out@) + nonempty_trimmed(
                lines_from(s, i as int, start as int),
            ),
        decreases v@.len() - i,
    {
        if v[i] == '\n' {
            let ghost before = out@;
            let ghost rest = lines_from(s, i + 1, i + 1);
            proof {
                lemma_nonempty_cons(s.subrange(start as int, i as int), rest);
            }
            push_nonempty(&v, start, i, &mut out);
            assert(glob_views(before) + (keep_nonempty(s.subrange(start as int, i as int))
                + nonempty_trimmed(rest)) =~= glob_views(out@) + nonempty_trimmed(rest));
            start = i + 1;
        }
        i = i + 1;
    }
    if start < v.len() {
        let ghost before = out@;
        proof {
            lemma_nonempty_cons(s.subrange(start as int, s.len() as int), Seq::empty());
            assert(lines_from(s, i as int, start as int) =~= seq![
                s.subrange(start as int, s.len() as int),
            ] + Seq::<Seq<char>>::empty());
        }
        push_nonempty(&v, start, v.len(), &mut out);
        assert(glob_views(before) + (keep_nonempty(s.subrange(start as int, s.len() as int))
            + nonempty_trimmed(Seq::<Seq<char>>::empty())) =~= glob_views(out@));
    } else {
        assert(glob_views(out@) + nonempty_trimmed(lines_from(s, i as int, start as int))
            =~= glob_views(out@));
    }
    out
}

} // verus!
