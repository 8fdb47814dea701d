use vstd::prelude::*;

use crate::listing::{entries_view, DirEntry};
use crate::order::{entry_order, sort_entries};

verus! {

/// A link shown in the top bar.
#[derive(Clone, Debug)]
pub struct UrlItem {
    pub label: String,
    pub url: String,
}

/// How much a log sink records.
#[derive(Clone, Copy, Debug, PartialEq, Eq, Structural)]
pub enum LogLevel {
    Off,
    Error,
    Warn,
    Info,
    Debug,
    Trace,
}

/// Where and how much the service logs.
#[derive(Clone, Debug)]
pub struct LogOptions {
    pub loglabel: String,
    pub termlogging: bool,
    pub writelogging: bool,
    pub term_log_level: LogLevel,
    pub write_log_level: LogLevel,
}

/// The service configuration, built once at start-up and passed to what needs it.
#[derive(Clone, Debug)]
pub struct BlueConfig {
    pub pfp_default: String,
    pub static_path: String,
    pub log: LogOptions,
    pub port: u16,
    pub allow_create: bool,
    pub topbar_urls: Vec<UrlItem>,
    pub render_timeout: u64,
    pub alternate_pfp: Option<String>,
    pub default_preset: String,
    /// Keeps the legacy addressing of an overlay root as `<root>/map`.
    pub map_alias: bool,
}

pub fn allow_create_default() -> (r: bool)
    ensures
        r,
{
    true
}

pub fn http_port_default() -> (r: u16)
    ensures
        r == 8080,
{
    8080
}

pub fn static_path_default() -> (r: String)
    ensures
        r@ == "static"@,
{
    "static".to_owned()
}

pub fn pfp_default_default() -> (r: String)
    ensures
        r@ == "assets/pfp-default.svg"@,
{
    "assets/pfp-default.svg".to_owned()
}

pub fn topbar_urls_default() -> (r: Vec<UrlItem>)
    ensures
        r@.len() == 2,
        r@[0].url@ == "https://siriusmart.github.io/gm-services"@,
        r@[0].label@ == "API"@,
        r@[1].url@ == "https://github.com/gmornin/gmt-server"@,
        r@[1].label@ == "Source code"@,
{
    let mut v: Vec<UrlItem> = Vec::new();
    v.push(
        UrlItem {
            url: "https://siriusmart.github.io/gm-services".to_owned(),
            label: "API".to_owned(),
        },
    );
    v.push(
        UrlItem {
            url: "https://github.com/gmornin/gmt-server".to_owned(),
            label: "Source code".to_owned(),
        },
    );
    v
}

pub fn default_preset_default() -> (r: String)
    ensures
        r@ == "overworld.conf"@,
{
    "overworld.conf".to_owned()
}

pub fn render_timeout_default() -> (r: u64)
    ensures
        r == 900,
{
    900
}

pub fn log_default() -> (r: LogOptions)
    ensures
        r.loglabel@ == "gmblue"@,
        r.termlogging,
        r.writelogging,
        r.term_log_level == LogLevel::Error,
        r.write_log_level == LogLevel::Debug,
{
    LogOptions {
        loglabel: "gmblue".to_owned(),
        termlogging: true,
        writelogging: true,
        term_log_level: LogLevel::Error,
        write_log_level: LogLevel::Debug,
    }
}

pub fn map_alias_default() -> (r: bool)
    ensures
        r,
{
    true
}

impl Default for BlueConfig {
    fn default() -> (r: BlueConfig)
        ensures
            r.static_path@ == "static"@,
            r.pfp_default@ == "assets/pfp-default.svg"@,
            r.port == 8080,
            r.allow_create,
            r.log.loglabel@ == "gmblue"@,
            r.log.termlogging,
            r.log.writelogging,
            r.log.term_log_level == LogLevel::Error,
            r.log.write_log_level == LogLevel::Debug,
            r.topbar_urls@.len() == 2,
            r.topbar_urls@[0].label@ == "API"@,
            r.topbar_urls@[0].url@ == "https://siriusmart.github.io/gm-services"@,
            r.topbar_urls@[1].label@ == "Source code"@,
            r.topbar_urls@[1].url@ == "https://github.com/gmornin/gmt-server"@,
            r.alternate_pfp is None,
            r.default_preset@ == "overworld.conf"@,
            r.render_timeout == 900,
            r.map_alias,
    {
        BlueConfig {
            static_path: static_path_default(),
            pfp_default: pfp_default_default(),
            log: log_default(),
            port: http_port_default(),
            allow_create: allow_create_default(),
            topbar_urls: topbar_urls_default(),
            alternate_pfp: None,
            default_preset: default_preset_default(),
            render_timeout: render_timeout_default(),
            map_alias: map_alias_default(),
        }
    }
}

/// Whether a template file name is a render preset: a name with a stem and the extension `conf`.
pub open spec fn is_preset_file(name: Seq<char>) -> bool {
    name.len() > 5 && name.skip(name.len() - 5) == ".conf"@
}

pub open spec fn preset_pairs(names: Seq<Seq<char>>) -> Seq<(Seq<char>, bool)>
    decreases names.len(),
{
    if names.len() == 0 {
        Seq::empty()
    } else if is_preset_file(names.last()) {
        preset_pairs(names.drop_last()).push((names.last(), true))
    } else {
        preset_pairs(names.drop_last())
    }
}

/// The presets among the template file names `names`, in name order.
pub open spec fn presets_spec(names: Seq<Seq<char>>) -> Seq<Seq<char>> {
    preset_pairs(names).sort_by(entry_order()).map_values(|p: (Seq<char>, bool)| p.0)
}

fn ends_with_conf(name: &str) -> (r: bool)
    ensures
        r == is_preset_file(name@),
{
    let n = name.unicode_len();
    if n <= 5 {
        return false;
    }
    let tail = name.substring_char(n - 5, n);
    proof {
        assert(name@.skip(n - 5) =~= name@.subrange(n - 5, n as int));
    }
    crate::segments::str_is(tail, ".conf")
}

/// The render presets offered to users: the template file names that end in `.conf` after a
/// stem, in name order.
pub fn preset_names(names: &Vec<String>) -> (r: Vec<String>)
    ensures
        r@.map_values(|s: String| s@) == presets_spec(names@.map_values(|s: String| s@)),
{
    let ghost all = names@.map_values(|s: String| s@);
    let mut kept: Vec<DirEntry> = Vec::new();
    let mut i: usize = 0;
    while i < names.len()
        invariant
            i <= names@.len(),
            all == names@.map_values(|s: String| s@),
            entries_view(kept@) == preset_pairs(all.take(i as int)),
        decreases names@.len() - i,
    {
        proof {
            assert(all.take(i as int + 1).drop_last() =~= all.take(i as int));
            assert(all.take(i as int + 1).last() == names@[i as int]@);
        }
        if ends_with_conf(names[i].as_str()) {
            let ghost before = kept@;
            kept.push(DirEntry { name: names[i].clone(), is_file: true });
            assert(entries_view(kept@) =~= entries_view(before).push((names@[i as int]@, true)));
        }
        i = i + 1;
    }
    assert(all.take(names@.len() as int) =~= all);
    let sorted = sort_entries(kept);
    let mut out: Vec<String> = Vec::new();
    let mut j: usize = 0;
    while j < sorted.len()
        invariant
            j <= sorted@.len(),
            out@.map_values(|s: String| s@) =~= entries_view(sorted@).take(j as int).map_values(
                |p: (Seq<char>, bool)| p.0,
            ),
        decreases sorted@.len() - j,
    {
        let ghost before = out@;
        out.push(sorted[j].name.clone());
        proof {
            assert(entries_view(sorted@)[j as int] == sorted@[j as int]@);
            assert(out@.map_values(|s: String| s@) =~= before.map_values(|s: String| s@).push(
                sorted@[j as int].name@,
            ));
        }
        j = j + 1;
    }
    assert(entries_view(sorted@).take(sorted@.len() as int) =~= entries_view(sorted@));
    out
}

} // verus!
