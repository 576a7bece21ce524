//! External plugins: their formats, how a directory entry is recognised as
//! a plugin while scanning, and the status a scan reports.

use vstd::prelude::*;
use vstd::string::StrSliceExecFns;
use vstd::string::StringExecFns;
use crate::text::{decimal, push_decimal};

verus! {

/// A plugin format.
#[derive(Clone, Copy, Debug, PartialEq, Eq, Structural)]
pub enum PluginFormat {
    VST3,
    CLAP,
}

/// What a plugin in the effects rack is: an instrument or an effect, of
/// either format.
#[derive(Clone, Copy, Debug, PartialEq, Eq, Structural)]
pub enum PluginCategory {
    Vst3Generator,
    Vst3Fx,
    ClapGenerator,
    ClapFx,
}

/// A device in a track's effects chain: a named, categorised plugin
/// instance (the host's `P`) that can be bypassed.
pub struct DspPluginNode<P> {
    pub name: String,
    pub category: PluginCategory,
    pub instance: P,
    pub is_active: bool,
}

impl<P> DspPluginNode<P> {
    /// A node for `instance`, active.
    pub fn new(name: String, category: PluginCategory, instance: P) -> (n: Self)
        ensures
            n.name@ == name@,
            n.category == category,
            n.instance == instance,
            n.is_active,
    {
        DspPluginNode { name, category, instance, is_active: true }
    }
}

/// A plugin found by a scan.
pub struct DiscoveredPlugin {
    pub name: String,
    pub path: String,
    pub format: PluginFormat,
}

/// The plugin host: loads plugins of both formats.
pub struct PluginHost;

/// The extension of the last component of `path` (after its last dot,
/// without the dot), if it has one.
pub uninterp spec fn path_extension(path: Seq<char>) -> Option<Seq<char>>;

/// The last component of `path`, if it has one.
pub uninterp spec fn path_file_name(path: Seq<char>) -> Option<Seq<char>>;

/// The last component of `path` without its extension, if it has a last
/// component.
pub uninterp spec fn path_file_stem(path: Seq<char>) -> Option<Seq<char>>;

/// The text held, or empty.
pub open spec fn or_empty(o: Option<Seq<char>>) -> Seq<char> {
    match o {
        Some(t) => t,
        None => Seq::empty(),
    }
}

/// The text of an optional result of the path functions below.
pub open spec fn text_of(r: Option<String>) -> Option<Seq<char>> {
    match r {
        Some(t) => Some(t@),
        None => None,
    }
}

/// `std::path::Path::extension` of `path`. What std computes is named,
/// not described.
#[verifier::external_body]
pub(crate) fn extension_text(path: &str) -> (r: Option<String>)
    ensures
        text_of(r) == path_extension(path@),
{
    match std::path::Path::new(path).extension() {
        Some(e) => Some(e.to_string_lossy().into_owned()),
        None => None,
    }
}

/// `std::path::Path::file_name` of `path`. What std computes is named,
/// not described.
#[verifier::external_body]
pub(crate) fn file_name_text(path: &str) -> (r: Option<String>)
    ensures
        text_of(r) == path_file_name(path@),
{
    match std::path::Path::new(path).file_name() {
        Some(n) => Some(n.to_string_lossy().into_owned()),
        None => None,
    }
}

/// `std::path::Path::file_stem` of `path`. What std computes is named,
/// not described.
#[verifier::external_body]
pub(crate) fn file_stem_text(path: &str) -> (r: Option<String>)
    ensures
        text_of(r) == path_file_stem(path@),
{
    match std::path::Path::new(path).file_stem() {
        Some(n) => Some(n.to_string_lossy().into_owned()),
        None => None,
    }
}

/// The text held, or empty.
fn unwrap_text(o: Option<String>) -> (r: String)
    ensures
        r@ == or_empty(text_of(o)),
{
    match o {
        Some(t) => t,
        None => String::new(),
    }
}

/// Whether `s` ends with `suffix`.
pub open spec fn ends_with(s: Seq<char>, suffix: Seq<char>) -> bool {
    suffix.len() <= s.len() && s.subrange(s.len() - suffix.len(), s.len() as int) == suffix
}

/// The format of a directory entry with extension `ext` and file name
/// `file_name`, if it is a plugin: a `.clap` file is CLAP; a `.vst3` file
/// or bundle directory, or a `.so` library, is VST3.
pub open spec fn entry_format(ext: Seq<char>, is_dir: bool, file_name: Seq<char>) -> Option<PluginFormat> {
    if ext == "clap"@ {
        Some(PluginFormat::CLAP)
    } else if ext == "vst3"@ || (is_dir && ends_with(file_name, ".vst3"@)) || ext == "so"@ {
        Some(PluginFormat::VST3)
    } else {
        None
    }
}

/// Whether two texts are equal.
fn same_text(a: &str, b: &str) -> (r: bool)
    ensures
        r == (a@ == b@),
{
    let n = a.unicode_len();
    if n != b.unicode_len() {
        return false;
    }
    let mut i: usize = 0;
    while i < n
        invariant
            n == a@.len(),
            n == b@.len(),
            0 <= i <= n,
            forall|j: int| 0 <= j < i ==> a@[j] == b@[j],
        decreases n - i,
    {
        if a.get_char(i) != b.get_char(i) {
            return false;
        }
        i = i + 1;
    }
    assert(a@ =~= b@);
    true
}

/// Whether `s` ends with `suffix`.
fn text_ends_with(s: &str, suffix: &str) -> (r: bool)
    ensures
        r == ends_with(s@, suffix@),
{
    let n = s.unicode_len();
    let m = suffix.unicode_len();
    if m > n {
        return false;
    }
    let off = n - m;
    let mut i: usize = 0;
    while i < m
        invariant
            n == s@.len(),
            m == suffix@.len(),
            off == n - m,
            0 <= i <= m,
            forall|j: int| 0 <= j < i ==> s@[off + j] == suffix@[j],
        decreases m - i,
    {
        if s.get_char(off + i) != suffix.get_char(i) {
            assert(s@.subrange(off as int, n as int)[i as int] != suffix@[i as int]);
            return false;
        }
        i = i + 1;
    }
    assert(s@.subrange(off as int, n as int) =~= suffix@);
    true
}

/// The format of a directory entry, if it is a plugin (see [`entry_format`]).
pub fn classify_plugin_entry(ext: &str, is_dir: bool, file_name: &str) -> (r: Option<PluginFormat>)
    ensures
        r == entry_format(ext@, is_dir, file_name@),
{
    if same_text(ext, "clap") {
        Some(PluginFormat::CLAP)
    } else if same_text(ext, "vst3") || (is_dir && text_ends_with(file_name, ".vst3")) || same_text(ext, "so") {
        Some(PluginFormat::VST3)
    } else {
        None
    }
}

/// What scanning one directory entry yields: the name to report and, if
/// the entry is a plugin, the plugin (named after its file stem).
pub struct ScannedEntry {
    pub file_name: String,
    pub plugin: Option<DiscoveredPlugin>,
}

/// Looks at the directory entry at `path` (`is_dir` if it is a
/// directory) during a scan. A missing file name, extension or stem counts
/// as empty.
pub fn scan_entry(path: String, is_dir: bool) -> (r: ScannedEntry)
    ensures
        r.file_name@ == or_empty(path_file_name(path@)),
        match entry_format(or_empty(path_extension(path@)), is_dir, or_empty(path_file_name(path@))) {
            Some(f) => r.plugin matches Some(p) && p.name@ == or_empty(path_file_stem(path@)) && p.path@ == path@
                && p.format == f,
            None => r.plugin is None,
        },
{
    let file_name = unwrap_text(file_name_text(path.as_str()));
    let ext = unwrap_text(extension_text(path.as_str()));
    let format = classify_plugin_entry(ext.as_str(), is_dir, file_name.as_str());
    let plugin = match format {
        Some(f) => {
            let name = unwrap_text(file_stem_text(path.as_str()));
            Some(DiscoveredPlugin { name, path, format: f })
        },
        None => None,
    };
    ScannedEntry { file_name, plugin }
}

/// A report from a running scan.
pub enum ScanMessage {
    /// The scan looks at the file of this name.
    ScanningFile(String),
    /// The scan found a plugin.
    Found(DiscoveredPlugin),
    /// The scan ended, having found this many plugins.
    Finished(u64),
}

/// What the plugin settings show of scanning.
pub struct PluginScan {
    pub is_scanning: bool,
    pub status_message: String,
    pub discovered_plugins: Vec<DiscoveredPlugin>,
}

/// The abstract view of a discovered plugin.
pub open spec fn plugin_model(p: DiscoveredPlugin) -> (Seq<char>, Seq<char>, PluginFormat) {
    (p.name@, p.path@, p.format)
}

impl PluginScan {
    /// The discovered plugins, in the order they were found.
    pub open spec fn found(&self) -> Seq<(Seq<char>, Seq<char>, PluginFormat)> {
        self.discovered_plugins@.map_values(|p: DiscoveredPlugin| plugin_model(p))
    }

    /// Ready to scan, nothing found yet.
    pub fn new() -> (s: Self)
        ensures
            !s.is_scanning,
            s.status_message@ == "Listo para escanear."@,
            s.found().len() == 0,
    {
        PluginScan {
            is_scanning: false,
            status_message: String::from_str("Listo para escanear."),
            discovered_plugins: Vec::new(),
        }
    }

    /// Begins a scan unless one is running: forgets what was found and
    /// says so. Returns whether a scan was begun (and is to be run).
    pub fn start_scan(&mut self) -> (started: bool)
        ensures
            started == !old(self).is_scanning,
            started ==> {
                &&& final(self).is_scanning
                &&& final(self).status_message@ == "Iniciando escaneo de plugins..."@
                &&& final(self).found().len() == 0
            },
            !started ==> {
                &&& final(self).is_scanning == old(self).is_scanning
                &&& final(self).status_message@ == old(self).status_message@
                &&& final(self).found() == old(self).found()
            },
    {
        if self.is_scanning {
            return false;
        }
        self.is_scanning = true;
        self.discovered_plugins.clear();
        self.status_message = String::from_str("Iniciando escaneo de plugins...");
        proof {
            assert(self.found() =~= Seq::<(Seq<char>, Seq<char>, PluginFormat)>::empty());
        }
        true
    }

    /// Takes in one report of the running scan.
    pub fn apply(&mut self, msg: ScanMessage)
        ensures
            match msg {
                ScanMessage::ScanningFile(file) => {
                    &&& final(self).status_message@ == "Escaneando: "@ + file@
                    &&& final(self).is_scanning == old(self).is_scanning
                    &&& final(self).found() == old(self).found()
                },
                ScanMessage::Found(p) => {
                    &&& final(self).found() == old(self).found().push(plugin_model(p))
                    &&& final(self).is_scanning == old(self).is_scanning
                    &&& final(self).status_message@ == old(self).status_message@
                },
                ScanMessage::Finished(count) => {
                    &&& !final(self).is_scanning
                    &&& final(self).status_message@ == "Escaneo finalizado. "@ + decimal(count as nat)
                        + " plugins listos."@
                    &&& final(self).found() == old(self).found()
                },
            },
    {
        match msg {
            ScanMessage::ScanningFile(file) => {
                let mut text = String::from_str("Escaneando: ");
                text.append(file.as_str());
                self.status_message = text;
            },
            ScanMessage::Found(plugin) => {
                self.discovered_plugins.push(plugin);
                proof {
                    assert(self.found() =~= old(self).found().push(plugin_model(plugin)));
                }
            },
            ScanMessage::Finished(count) => {
                self.is_scanning = false;
                let mut text = String::from_str("Escaneo finalizado. ");
                push_decimal(&mut text, count);
                text.append(" plugins listos.");
                self.status_message = text;
            },
        }
    }
}

} // verus!
