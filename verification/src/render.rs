//! Render configuration and the frame a backend draws.
//!
//! A [`RenderConfig`] is pure data: the style choices a caller makes for a
//! prompt.  It never affects navigation semantics.  A [`Frame`] is one full
//! repaint of the prompt: message, browsed path, visible entry lines with
//! the cursor position, and the optional error banner and help line.

use vstd::prelude::*;

verus! {

/// Style choices for prompt rendering; purely cosmetic.
#[derive(Clone)]
pub struct RenderConfig {
    /// Symbol shown before the prompt's message.
    pub prompt_prefix: String,
    /// Prefix of the entry line under the cursor.
    pub highlight_prefix: String,
    /// Prefix of every other entry line.
    pub plain_prefix: String,
    /// Prefix of the error banner.
    pub error_prefix: String,
    /// Help line shown below the entry list.
    pub help_text: String,
}

impl RenderConfig {
    /// A plain configuration with conventional markers.
    pub fn plain() -> (r: Self)
        ensures
            r.prompt_prefix@ == "? "@,
            r.highlight_prefix@ == "> "@,
            r.plain_prefix@ == "  "@,
            r.error_prefix@ == "! "@,
            r.help_text@ == ""@,
    {
        RenderConfig {
            prompt_prefix: "? ".to_owned(),
            highlight_prefix: "> ".to_owned(),
            plain_prefix: "  ".to_owned(),
            error_prefix: "! ".to_owned(),
            help_text: "".to_owned(),
        }
    }

    /// An independent copy of the configuration, equal to it.
    pub fn duplicate(&self) -> (r: Self)
        ensures
            r.prompt_prefix@ == self.prompt_prefix@,
            r.highlight_prefix@ == self.highlight_prefix@,
            r.plain_prefix@ == self.plain_prefix@,
            r.error_prefix@ == self.error_prefix@,
            r.help_text@ == self.help_text@,
    {
        RenderConfig {
            prompt_prefix: self.prompt_prefix.clone(),
            highlight_prefix: self.highlight_prefix.clone(),
            plain_prefix: self.plain_prefix.clone(),
            error_prefix: self.error_prefix.clone(),
            help_text: self.help_text.clone(),
        }
    }
}

impl Default for RenderConfig {
    /// The default configuration: the plain one.
    fn default() -> (r: Self)
        ensures
            r.prompt_prefix@ == "? "@,
            r.highlight_prefix@ == "> "@,
            r.plain_prefix@ == "  "@,
            r.error_prefix@ == "! "@,
            r.help_text@ == ""@,
    {
        RenderConfig::plain()
    }
}

/// One full repaint of the prompt.
pub struct Frame {
    /// The prompt's message, with the configured prefix.
    pub message: String,
    /// The textual form of the directory being browsed.
    pub path_text: String,
    /// One line per visible entry, each already carrying its prefix.
    pub lines: Vec<String>,
    /// Index of the highlighted line; `0` when there are no lines.
    pub cursor: usize,
    /// The error banner, if one is pending.
    pub error_banner: Option<String>,
    /// The configured help line.
    pub help_text: String,
}

} // verus!
