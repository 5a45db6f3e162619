//! Default settings that the launcher reads from its configuration.
use vstd::prelude::*;

verus! {

pub fn default_search_icon_size() -> (r: u16)
    ensures
        r == 18,
{
    18
}

pub fn default_program_icon_size() -> (r: u16)
    ensures
        r == 42,
{
    42
}

/// Rows shown at most for one query.
pub fn default_max_results() -> (r: usize)
    ensures
        r == 10,
{
    10
}

pub fn default_bg_color() -> (r: String)
    ensures
        r@ == "#1B1F28"@,
{
    String::from_str("#1B1F28")
}

pub fn default_panel_color() -> (r: String)
    ensures
        r@ == "#222733"@,
{
    String::from_str("#222733")
}

pub fn default_accent_color() -> (r: String)
    ensures
        r@ == "#7A5CCB"@,
{
    String::from_str("#7A5CCB")
}

pub fn default_selected_color() -> (r: String)
    ensures
        r@ == "#2E3546"@,
{
    String::from_str("#2E3546")
}

/// The initial order of the entry list; declared, and not used by scanning
/// or sorting.
pub fn default_initial_sort() -> (r: String)
    ensures
        r@ == "alphabetical"@,
{
    String::from_str("alphabetical")
}

/// Whether startup first shows the index snapshot saved on disk.
pub fn default_enable_cache() -> (r: bool)
    ensures
        r,
{
    true
}

/// Theme colours, as hex strings.
#[derive(Clone, Debug)]
pub struct ThemeConfig {
    pub background: String,
    pub panel: String,
    pub accent: String,
    pub selected: String,
}

impl Default for ThemeConfig {
    fn default() -> (r: Self)
        ensures
            r.background@ == "#1B1F28"@,
            r.panel@ == "#222733"@,
            r.accent@ == "#7A5CCB"@,
            r.selected@ == "#2E3546"@,
    {
        ThemeConfig {
            background: default_bg_color(),
            panel: default_panel_color(),
            accent: default_accent_color(),
            selected: default_selected_color(),
        }
    }
}

} // verus!
