//! Run configuration, its defaults, and the summary shown at startup.

use vstd::prelude::*;

verus! {

/// Banner shown at startup.
pub const BANNER: &'static str = "\
â–ˆâ–ˆâ–ˆâ–ˆâ–ˆâ–ˆâ•— â–ˆâ–ˆâ–ˆâ–ˆâ–ˆâ–ˆâ–ˆâ•— â–ˆâ–ˆâ–ˆâ–ˆâ–ˆâ–ˆâ•—â–ˆâ–ˆâ•—     â–ˆâ–ˆâ•—   â–ˆâ–ˆâ•—â–ˆâ–ˆâ–ˆâ–ˆâ–ˆâ–ˆâ–ˆâ–ˆâ•—â–ˆâ–ˆâ–ˆâ–ˆâ–ˆâ–ˆâ–ˆâ–ˆâ•—â–ˆâ–ˆâ–ˆâ–ˆâ–ˆâ–ˆâ–ˆâ•—â–ˆâ–ˆâ–ˆâ–ˆâ–ˆâ–ˆâ•—
â–ˆâ–ˆâ•”â•â•â–ˆâ–ˆâ•—â–ˆâ–ˆâ•”â•â•â•â•â•â–ˆâ–ˆâ•”â•â•â•â•â•â–ˆâ–ˆâ•‘     â–ˆâ–ˆâ•‘   â–ˆâ–ˆâ•‘â•šâ•â•â–ˆâ–ˆâ•”â•â•â•â•šâ•â•â–ˆâ–ˆâ•”â•â•â•â–ˆâ–ˆâ•”â•â•â•â•â•â–ˆâ–ˆâ•”â•â•â–ˆâ–ˆâ•—
â–ˆâ–ˆâ•‘  â–ˆâ–ˆâ•‘â–ˆâ–ˆâ–ˆâ–ˆâ–ˆâ•—  â–ˆâ–ˆâ•‘     â–ˆâ–ˆâ•‘     â–ˆâ–ˆâ•‘   â–ˆâ–ˆâ•‘   â–ˆâ–ˆâ•‘      â–ˆâ–ˆâ•‘   â–ˆâ–ˆâ–ˆâ–ˆâ–ˆâ•—  â–ˆâ–ˆâ–ˆâ–ˆâ–ˆâ–ˆâ•”â•
â–ˆâ–ˆâ•‘  â–ˆâ–ˆâ•‘â–ˆâ–ˆâ•”â•â•â•  â–ˆâ–ˆâ•‘     â–ˆâ–ˆâ•‘     â–ˆâ–ˆâ•‘   â–ˆâ–ˆâ•‘   â–ˆâ–ˆâ•‘      â–ˆâ–ˆâ•‘   â–ˆâ–ˆâ•”â•â•â•  â–ˆâ–ˆâ•”â•â•â–ˆâ–ˆâ•—
â–ˆâ–ˆâ–ˆâ–ˆâ–ˆâ–ˆâ•”â•â–ˆâ–ˆâ–ˆâ–ˆâ–ˆâ–ˆâ–ˆâ•—â•šâ–ˆâ–ˆâ–ˆâ–ˆâ–ˆâ–ˆâ•—â–ˆâ–ˆâ–ˆâ–ˆâ–ˆâ–ˆâ–ˆâ•—â•šâ–ˆâ–ˆâ–ˆâ–ˆâ–ˆâ–ˆâ•”â•   â–ˆâ–ˆâ•‘      â–ˆâ–ˆâ•‘   â–ˆâ–ˆâ–ˆâ–ˆâ–ˆâ–ˆâ–ˆâ•—â–ˆâ–ˆâ•‘  â–ˆâ–ˆâ•‘
â•šâ•â•â•â•â•â• â•šâ•â•â•â•â•â•â• â•šâ•â•â•â•â•â•â•šâ•â•â•â•â•â•â• â•šâ•â•â•â•â•â•    â•šâ•â•      â•šâ•â•   â•šâ•â•â•â•â•â•â•â•šâ•â•  â•šâ•â•";

/// What a run is configured with. Extensions are written without the leading
/// dot and are compared exactly, case included.
#[derive(Debug)]
pub struct Config {
    /// Extensions that pass; empty to let every extension pass.
    pub allow_extensions: Vec<String>,
    /// Extensions that are always blocked.
    pub deny_extensions: Vec<String>,
    /// Whether a URL may be emitted more than once.
    pub allow_duplicates: bool,
    /// Whether the startup summary is suppressed.
    pub quiet: bool,
}

/// Mathematical model of a [`Config`].
pub struct ConfigView {
    pub allow_extensions: Seq<Seq<char>>,
    pub deny_extensions: Seq<Seq<char>>,
    pub allow_duplicates: bool,
    pub quiet: bool,
}

impl View for Config {
    type V = ConfigView;

    open spec fn view(&self) -> ConfigView {
        ConfigView {
            allow_extensions: self.allow_extensions.deep_view(),
            deny_extensions: self.deny_extensions.deep_view(),
            allow_duplicates: self.allow_duplicates,
            quiet: self.quiet,
        }
    }
}

/// The extensions blocked by default: common assets that are not pages.
pub open spec fn default_deny_extensions() -> Seq<Seq<char>> {
    seq![
        "jpg"@,
        "jpeg"@,
        "png"@,
        "svg"@,
        "ico"@,
        "gif"@,
        "webp"@,
        "bmp"@,
        "css"@,
        "scss"@,
        "tif"@,
        "tiff"@,
        "ttf"@,
        "otf"@,
        "woff"@,
        "woff2"@,
        "eot"@,
        "pdf"@,
        "mp3"@,
        "mp4"@,
        "avi"@,
    ]
}

/// The configuration of a run that was given no options: every extension
/// is allowed but those blocked by default, duplicates are denied, and the
/// summary is shown.
pub open spec fn default_config() -> ConfigView {
    ConfigView {
        allow_extensions: Seq::empty(),
        deny_extensions: default_deny_extensions(),
        allow_duplicates: false,
        quiet: false,
    }
}

/// Banner shown at startup.
pub fn declutter_banner() -> (banner: String)
    ensures
        banner@ == BANNER@,
{
    BANNER.to_owned()
}

/// The default allow-list: empty, so that every extension passes.
pub fn config_default_whitelist() -> (list: Vec<String>)
    ensures
        list@ == Seq::<String>::empty(),
{
    Vec::new()
}

/// The default deny-list.
pub fn config_default_blacklist() -> (list: Vec<String>)
    ensures
        list.deep_view() == default_deny_extensions(),
{
    let list = vec![
        "jpg".to_owned(),
        "jpeg".to_owned(),
        "png".to_owned(),
        "svg".to_owned(),
        "ico".to_owned(),
        "gif".to_owned(),
        "webp".to_owned(),
        "bmp".to_owned(),
        "css".to_owned(),
        "scss".to_owned(),
        "tif".to_owned(),
        "tiff".to_owned(),
        "ttf".to_owned(),
        "otf".to_owned(),
        "woff".to_owned(),
        "woff2".to_owned(),
        "eot".to_owned(),
        "pdf".to_owned(),
        "mp3".to_owned(),
        "mp4".to_owned(),
        "avi".to_owned(),
    ];
    list
}

impl Default for Config {
    fn default() -> (cfg: Config)
        ensures
            cfg@ == default_config(),
    {
        let allow_extensions = config_default_whitelist();
        assert(allow_extensions.deep_view() =~= Seq::empty());
        Config {
            allow_extensions,
            deny_extensions: config_default_blacklist(),
            allow_duplicates: false,
            quiet: false,
        }
    }
}

/// The text that std's `Debug` gives for a list of strings, as `{:?}` shows it.
pub uninterp spec fn debug_text(list: Seq<Seq<char>>) -> Seq<char>;

/// Formats `list` as `format!("{:?}", list)` does, through the `Debug` impl
/// of `Vec<String>`. Of the text nothing is claimed but that it is a
/// function of the strings in the list.
#[verifier::external_body]
fn debug_list(list: &Vec<String>) -> (text: String)
    ensures
        text@ == debug_text(list.deep_view()),
{
    format!("{:?}", list)
}

/// The startup messages of a configuration whose lists are shown as
/// `allowed` and `denied`: nothing in quiet mode, else the banner, then one
/// message each on the allow-list, the deny-list and the duplicate policy.
/// An empty list is named as such and not shown.
pub open spec fn summary_messages(
    cfg: ConfigView,
    allowed: Seq<char>,
    denied: Seq<char>,
) -> Seq<Seq<char>> {
    if cfg.quiet {
        Seq::empty()
    } else {
        seq![
            BANNER@,
            if cfg.allow_extensions.len() == 0 {
                "declutter: allow all extensions"@
            } else {
                "declutter: allowed extensions : "@ + allowed
            },
            if cfg.deny_extensions.len() == 0 {
                "declutter: denies no extensions"@
            } else {
                "declutter: denies extensions : "@ + denied
            },
            if cfg.allow_duplicates {
                "declutter: allow duplicates"@
            } else {
                "declutter: deny duplicates"@
            },
        ]
    }
}

/// The startup summary of a configuration, each list shown as `Debug` shows it.
pub open spec fn config_summary(cfg: ConfigView) -> Seq<Seq<char>> {
    summary_messages(cfg, debug_text(cfg.allow_extensions), debug_text(cfg.deny_extensions))
}

/// The messages that describe `cfg` at startup, with `allowed` and `denied`
/// as the texts that show its two lists.
pub fn declutter_cfg_messages(cfg: &Config, allowed: &str, denied: &str) -> (messages: Vec<String>)
    ensures
        messages.deep_view() == summary_messages(cfg@, allowed@, denied@),
{
    let mut messages: Vec<String> = Vec::new();
    if cfg.quiet {
        return messages;
    }
    messages.push(declutter_banner());
    if cfg.allow_extensions.is_empty() {
        messages.push("declutter: allow all extensions".to_owned());
    } else {
        let mut message = "declutter: allowed extensions : ".to_owned();
        message.append(allowed);
        messages.push(message);
    }
    if cfg.deny_extensions.is_empty() {
        messages.push("declutter: denies no extensions".to_owned());
    } else {
        let mut message = "declutter: denies extensions : ".to_owned();
        message.append(denied);
        messages.push(message);
    }
    if cfg.allow_duplicates {
        messages.push("declutter: allow duplicates".to_owned());
    } else {
        messages.push("declutter: deny duplicates".to_owned());
    }
    messages
}

/// The messages that describe `cfg` at startup, in the order in which they
/// are shown, each to be written on a line of its own.
pub fn declutter_cfg_summary(cfg: &Config) -> (messages: Vec<String>)
    ensures
        messages.deep_view() == config_summary(cfg@),
{
    let allowed = debug_list(&cfg.allow_extensions);
    let denied = debug_list(&cfg.deny_extensions);
    declutter_cfg_messages(cfg, allowed.as_str(), denied.as_str())
}

} // verus!
