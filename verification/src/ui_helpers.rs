//! Small pieces of display logic: tree indentation, the title art, how
//! long ago something happened, the colour palette, and timestamps.
use vstd::prelude::*;
use crate::text::{copy_str, concat2, decimal, decimal_string_u64, repeat, repeat_str};

verus! {

/// The indentation drawn before a tree row at `depth`: a bar for each
/// level above the parent, then a branch (`└──` for the last row of a level).
pub open spec fn tree_indent(depth: usize, is_last_item: bool) -> Seq<char> {
    if depth == 0 {
        Seq::empty()
    } else {
        repeat("\u{2502} "@, (depth - 1) as nat) + if is_last_item { "\u{2514}\u{2500}\u{2500}"@ } else { "\u{251c}\u{2500}\u{2500}"@ }
    }
}

/// The indentation drawn before a tree row (see `tree_indent`).
pub fn create_tree_indent(depth: usize, is_last_item: bool) -> (r: String)
    ensures
        r@ == tree_indent(depth, is_last_item),
{
    if depth == 0 {
        return String::new();
    }
    let bars = repeat_str("\u{2502} ", depth - 1);
    if is_last_item {
        concat2(bars.as_str(), "\u{2514}\u{2500}\u{2500}")
    } else {
        concat2(bars.as_str(), "\u{251c}\u{2500}\u{2500}")
    }
}

/// The title art of the start page.
pub open spec fn ascii_title() -> Seq<char> {
    "\n███████╗███╗   ██╗██╗██╗  ██╗\n██╔════╝████╗  ██║██║╚██╗██╔╝\n███████╗██╔██╗ ██║██║ ╚███╔╝ \n╚════██║██║╚██╗██║██║ ██╔██╗\n███████║██║ ╚████║██║██╔╝ ██╗\n╚══════╝╚═╝  ╚═══╝╚═╝╚═╝  ╚═╝\n"@
}

/// The title art of the start page.
pub fn create_rustui_ascii_title() -> (r: String)
    ensures
        r@ == ascii_title(),
{
    copy_str("\n███████╗███╗   ██╗██╗██╗  ██╗\n██╔════╝████╗  ██║██║╚██╗██╔╝\n███████╗██╔██╗ ██║██║ ╚███╔╝ \n╚════██║██║╚██╗██║██║ ██╔██╗\n███████║██║ ╚████║██║██╔╝ ██╗\n╚══════╝╚═╝  ╚═══╝╚═╝╚═╝  ╚═╝\n")
}

/// How long ago something happened, `ms` milliseconds before now, as the
/// start page shows it: whole days, else hours, else minutes, else `Just now`.
pub open spec fn time_ago_text(ms: int) -> Seq<char> {
    let s = if ms > 0 { ms / 1000 } else { 0 };
    if s / 86400 > 0 {
        decimal((s / 86400) as nat) + " days ago"@
    } else if s / 3600 > 0 {
        decimal((s / 3600) as nat) + " hours ago"@
    } else if s / 60 > 0 {
        decimal((s / 60) as nat) + " min ago"@
    } else {
        "Just now"@
    }
}

/// How long ago something happened, given the time since then (see `time_ago_text`).
pub fn time_ago_from(elapsed_ms: i128) -> (r: String)
    requires
        elapsed_ms < 0x1_0000_0000_0000_0000_0000,
    ensures
        r@ == time_ago_text(elapsed_ms as int),
{
    let s: i128 = if elapsed_ms > 0 { elapsed_ms / 1000 } else { 0 };
    if s / 86400 > 0 {
        let x = decimal_string_u64((s / 86400) as u64);
        concat2(x.as_str(), " days ago")
    } else if s / 3600 > 0 {
        let x = decimal_string_u64((s / 3600) as u64);
        concat2(x.as_str(), " hours ago")
    } else if s / 60 > 0 {
        let x = decimal_string_u64((s / 60) as u64);
        concat2(x.as_str(), " min ago")
    } else {
        copy_str("Just now")
    }
}

/// The text for how long before the clock reading `now` the moment `at`
/// was (both in milliseconds since the Unix epoch).
pub open spec fn time_ago_at(now: i64, at: i64) -> Seq<char> {
    time_ago_text(now - at)
}

/// How long ago a moment (milliseconds since the Unix epoch) was, as text:
/// the text for the time from `at_ms` to the clock's reading, which is not
/// known ahead.
pub fn format_time_ago(at_ms: i64) -> (r: String)
    ensures
        exists|now: i64| r@ == #[trigger] time_ago_at(now, at_ms),
{
    let now = crate::ids::now_millis();
    let r = time_ago_from((now as i128) - (at_ms as i128));
    proof {
        assert(r@ == time_ago_at(now, at_ms));
    }
    r
}

/// A colour of the palette: red, green and blue packed as `0xRRGGBB`, or
/// the terminal's white.
#[derive(Debug, Clone, Copy, PartialEq, Eq, Structural)]
pub enum ThemeColor {
    Rgb(u32),
    White,
}

/// The Rose Pine palette, each colour packed as `0xRRGGBB`.
pub struct RosePine;

impl RosePine {
    /// The darkest background.
    pub const BASE: u32 = 0x191724;
    /// The background of panels and fields.
    pub const SURFACE: u32 = 0x1f1d2e;
    /// The main text.
    pub const TEXT: u32 = 0xe0def4;
    /// Secondary text.
    pub const SUBTLE: u32 = 0x908caa;
    /// Muted text.
    pub const MUTED: u32 = 0x6e6a86;
    /// Errors and attention.
    pub const LOVE: u32 = 0xeb6f92;
    /// Warnings and highlights.
    pub const GOLD: u32 = 0xf6c177;
    /// Soft accents.
    pub const ROSE: u32 = 0xebbcba;
    /// Links and information.
    pub const FOAM: u32 = 0x9ccfd8;
    /// Selection and focus.
    pub const IRIS: u32 = 0xc4a7e7;
    /// Borders and dividers.
    pub const HIGHLIGHT_HIGH: u32 = 0x524f67;
    /// The background of selected items.
    pub const HIGHLIGHT_LOW: u32 = 0x21202e;
}

/// The colours a notebook can be given, with their names, in menu order.
pub open spec fn available_colors() -> Seq<(Seq<char>, ThemeColor)> {
    seq![
        ("Default"@, ThemeColor::Rgb(0xe0def4)),
        ("Red"@, ThemeColor::Rgb(0xeb6f92)),
        ("Orange"@, ThemeColor::Rgb(0xf6c177)),
        ("Green"@, ThemeColor::Rgb(0x9ccfd8)),
        ("Blue"@, ThemeColor::Rgb(0xc4a7e7)),
        ("Purple"@, ThemeColor::Rgb(0xc4a7e7)),
        ("Pink"@, ThemeColor::Rgb(0xebbcba)),
        ("White"@, ThemeColor::White),
    ]
}

/// The colours a notebook can be given (see `available_colors`).
pub fn get_available_colors() -> (r: Vec<(&'static str, ThemeColor)>)
    ensures
        r@.map_values(|p: (&'static str, ThemeColor)| (p.0@, p.1)) == available_colors(),
{
    let r = vec![
        ("Default", ThemeColor::Rgb(RosePine::TEXT)),
        ("Red", ThemeColor::Rgb(RosePine::LOVE)),
        ("Orange", ThemeColor::Rgb(RosePine::GOLD)),
        ("Green", ThemeColor::Rgb(RosePine::FOAM)),
        ("Blue", ThemeColor::Rgb(RosePine::IRIS)),
        ("Purple", ThemeColor::Rgb(RosePine::IRIS)),
        ("Pink", ThemeColor::Rgb(RosePine::ROSE)),
        ("White", ThemeColor::White),
    ];
    proof {
        assert(r@.map_values(|p: (&'static str, ThemeColor)| (p.0@, p.1)) =~= available_colors());
    }
    r
}

/// What chrono writes with `DateTime::format(fmt)` for the UTC moment
/// `ms` milliseconds after the Unix epoch, or none when chrono cannot
/// represent that moment.
pub uninterp spec fn utc_format_text(ms: i64, fmt: Seq<char>) -> Option<Seq<char>>;

/// Formats a moment in UTC with chrono (`DateTime::from_timestamp_millis`,
/// then `format` with one of the two patterns the library uses); the text
/// is named `utc_format_text` of the moment and the pattern.
#[verifier::external_body]
pub(crate) fn utc_format(ms: i64, fmt: &str) -> (r: Option<String>)
    requires
        fmt@ == "%Y-%m-%d %H:%M"@ || fmt@ == "%Y-%m-%d %H:%M:%S UTC"@,
    ensures
        match r {
            Some(t) => utc_format_text(ms, fmt@) == Some(t@),
            None => utc_format_text(ms, fmt@) is None,
        },
{
    chrono::DateTime::from_timestamp_millis(ms).map(|d| d.format(fmt).to_string())
}

impl crate::app::RecentSearchEntry {
    /// When the search ran, as `YYYY-MM-DD HH:MM` in UTC (empty when the
    /// time cannot be shown).
    pub fn formatted_time(&self) -> (r: String)
        ensures
            r@ == match utc_format_text(self.timestamp, "%Y-%m-%d %H:%M"@) {
                Some(t) => t,
                None => Seq::empty(),
            },
    {
        match utc_format(self.timestamp, "%Y-%m-%d %H:%M") {
            Some(t) => t,
            None => String::new(),
        }
    }
}

} // verus!
