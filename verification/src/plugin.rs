//! The plugin's state: what it reads from its configuration, what each mode
//! update does to it, and the status line that each render produces.
use ansi_term::{ANSIString, ANSIStrings, Colour, Style};
use vstd::prelude::*;

use crate::actions::{get_keymap_for_mode, keybinds_for_mode, InputMode, ModeInfo};
use crate::ansi::{calculate_visible_length, truncate_ansi_string, truncated, visible_length};
use crate::color::{default_theme, ThemeColors};
use crate::config::{
    configured_hide, configured_max_length, configured_theme, option_or,
    Configuration, Settings,
};
use crate::hints::{parts_view, StyledText};
use crate::modes::{chain_parts, mode_hints, render_hints_for_mode};
use crate::text::{owned, push_text};

verus! {

/// What `ansi_term::ANSIStrings` writes for a row of styled pieces (each with
/// an RGB foreground and background, bold or not): their texts with the
/// fewest control codes that give each its style.
pub uninterp spec fn ansi_strings_display(parts: Seq<((u8, u8, u8), (u8, u8, u8), bool, Seq<char>)>) -> Seq<char>;

/// Writes styled pieces with `ansi_term`: each piece becomes an `ANSIString`
/// painted with a `Style` that has the piece's RGB foreground and background
/// and its weight, and the row is written with `ANSIStrings` (its `Display`).
/// Claimed: the text written is `ansi_strings_display` of the pieces, which
/// depends on nothing else.
#[verifier::external_body]
fn paint(parts: &Vec<StyledText>) -> (s: String)
    ensures
        s@ == ansi_strings_display(parts_view(parts@)),
{
    let painted: Vec<ANSIString<'static>> = parts.iter().map(
        |p| Style {
            foreground: Some(Colour::RGB(p.fg.r, p.fg.g, p.fg.b)),
            background: Some(Colour::RGB(p.bg.r, p.bg.g, p.bg.b)),
            is_bold: p.bold,
            ..Style::new()
        }.paint(p.text.clone()),
    ).collect();
    format!("{}", ANSIStrings(&painted))
}

/// The status line for already painted hints: a space, then the hints,
/// truncated to `max_length` visible characters (ending in `overflow_str`)
/// when a maximum is set and they do not fit.
pub open spec fn status_text(painted: Seq<char>, max_length: usize, overflow_str: Seq<char>) -> Seq<char> {
    let formatted = " "@ + painted;
    if max_length > 0 && visible_length(formatted) > max_length {
        truncated(formatted, overflow_str, max_length as nat)
    } else {
        formatted
    }
}

/// The status line for already painted hints (see `status_text`).
pub fn status_line(painted: &str, max_length: usize, overflow_str: &str) -> (line: String)
    ensures
        line@ == status_text(painted@, max_length, overflow_str@),
{
    let mut formatted = owned(" ");
    push_text(&mut formatted, painted);
    let visible_len = calculate_visible_length(formatted.as_str());
    if max_length > 0 && visible_len > max_length {
        truncate_ansi_string(formatted.as_str(), overflow_str, max_length)
    } else {
        formatted
    }
}

/// With a maximum set that leaves room for the overflow marker, the status
/// line never shows more than the maximum number of visible characters.
pub proof fn law_status_line_fits(painted: Seq<char>, max_length: usize, overflow_str: Seq<char>)
    requires
        vstd::utf8::encode_utf8(overflow_str).len() <= usize::MAX,
        max_length > crate::ansi::byte_len(overflow_str),
    ensures
        visible_length(status_text(painted, max_length, overflow_str)) <= max_length,
{
    let formatted = " "@ + painted;
    if visible_length(formatted) > max_length {
        crate::ansi::law_truncated_visible_length(formatted, overflow_str, max_length as nat);
    }
}

/// The status line is never empty: it starts with a space, and cut to a
/// positive maximum it keeps something.
pub proof fn law_status_line_nonempty(painted: Seq<char>, max_length: usize, overflow_str: Seq<char>)
    ensures
        status_text(painted, max_length, overflow_str).len() > 0,
{
    let formatted = " "@ + painted;
    reveal_strlit(" ");
    assert(formatted.len() > 0);
    if max_length > 0 && visible_length(formatted) > max_length {
        crate::ansi::law_truncated_nonempty(formatted, overflow_str, max_length as nat);
    }
}

/// Without a maximum, or when the painted hints fit in it with the leading
/// space, the status line is a space followed by the painted hints.
pub proof fn law_status_line_when_it_fits(painted: Seq<char>, max_length: usize, overflow_str: Seq<char>)
    requires
        max_length == 0 || visible_length(painted) < max_length,
    ensures
        status_text(painted, max_length, overflow_str) == seq![' '] + painted,
{
    reveal_strlit(" ");
    assert(" "@ =~= seq![' ']);
    crate::ansi::law_visible_length_prepend(' ', painted);
}

/// What the host reports to the plugin.
pub enum PluginEvent {
    /// New mode information; `changed` tells whether it differs from the
    /// information the plugin holds (every part of it, not only the parts
    /// kept here).
    ModeUpdate { mode_info: ModeInfo, changed: bool },
    /// Any other event.
    Other,
}

/// Whether an update asks for a render: always before the first render that
/// counted, and on a change of mode information.
pub open spec fn update_should_render(initialized: bool, event_changed: bool) -> bool {
    !initialized || event_changed
}

/// Whether the plugin counts as initialized after a render: once a render
/// outside the base mode has produced output, it stays so.
pub open spec fn initialized_after_render(
    initialized: bool,
    output: Seq<char>,
    mode: InputMode,
    base_mode: Option<InputMode>,
) -> bool {
    initialized || (output.len() > 0 && base_mode != Some(mode))
}

/// Whether the hints are hidden: in the base mode, when so configured.
pub open spec fn hidden(hide_in_base_mode: bool, mode_info: ModeInfo) -> bool {
    hide_in_base_mode && mode_info.base_mode == Some(mode_info.mode)
}

/// The styled pieces that show the hints of the current mode.
pub open spec fn rendered_parts(mode_info: ModeInfo, theme: ThemeColors, cols: usize) -> Seq<
    ((u8, u8, u8), (u8, u8, u8), bool, Seq<char>),
> {
    chain_parts(
        mode_hints(mode_info.mode, keybinds_for_mode(mode_info.keybinds@, mode_info.mode), cols),
        theme,
    )
}

/// The text sent with the status line to the pipe.
pub open spec fn pipe_payload_text(pipe_name: Seq<char>, output: Seq<char>) -> Seq<char> {
    "zjstatus::pipe::pipe_"@ + pipe_name + "::"@ + output
}

/// The plugin.
pub struct State {
    pub initialized: bool,
    pub pipe_name: String,
    pub mode_info: ModeInfo,
    pub base_mode_is_locked: bool,
    pub max_length: usize,
    pub overflow_str: String,
    pub hide_in_base_mode: bool,
    pub theme: ThemeColors,
}

fn is_base_mode(mode_info: &ModeInfo) -> (r: bool)
    ensures
        r == (mode_info.base_mode == Some(mode_info.mode)),
{
    match mode_info.base_mode {
        Some(b) => b == mode_info.mode,
        None => false,
    }
}

impl State {
    /// The plugin before it is loaded: normal mode with no keys, no maximum
    /// length, empty pipe name and overflow marker, the default theme.
    pub fn new() -> (s: Self)
        ensures
            !s.initialized,
            s.pipe_name@ == Seq::<char>::empty(),
            s.mode_info.mode == InputMode::Normal,
            s.mode_info.base_mode == None::<InputMode>,
            s.mode_info.keybinds@.len() == 0,
            !s.base_mode_is_locked,
            s.max_length == 0,
            s.overflow_str@ == Seq::<char>::empty(),
            !s.hide_in_base_mode,
            s.theme == default_theme(),
    {
        let settings = Settings::new();
        State {
            initialized: false,
            pipe_name: settings.pipe_name,
            mode_info: ModeInfo { mode: InputMode::Normal, base_mode: None, keybinds: Vec::new() },
            base_mode_is_locked: false,
            max_length: settings.max_length,
            overflow_str: settings.overflow_str,
            hide_in_base_mode: settings.hide_in_base_mode,
            theme: settings.theme,
        }
    }

    /// Reads the configuration (see `Settings::from_config`) and starts over
    /// as not initialized; the mode information is kept.
    pub fn load(&mut self, configuration: &Configuration)
        requires
            configuration.wf(),
        ensures
            !final(self).initialized,
            final(self).max_length == configured_max_length(configuration@),
            final(self).overflow_str@ == option_or(configuration@, "overflow_str"@, "..."@),
            final(self).pipe_name@ == option_or(configuration@, "pipe_name"@, "zjstatus_hints"@),
            final(self).hide_in_base_mode == configured_hide(configuration@),
            final(self).theme == configured_theme(configuration@),
            final(self).mode_info == old(self).mode_info,
            final(self).base_mode_is_locked == old(self).base_mode_is_locked,
    {
        self.initialized = false;
        let settings = Settings::from_config(configuration);
        self.max_length = settings.max_length;
        self.overflow_str = settings.overflow_str;
        self.pipe_name = settings.pipe_name;
        self.hide_in_base_mode = settings.hide_in_base_mode;
        self.theme = settings.theme;
    }

    /// Takes in an event and tells whether to render: before the first
    /// render that counted, and whenever the mode information changed. New
    /// mode information replaces the old.
    pub fn update(&mut self, event: PluginEvent) -> (should_render: bool)
        ensures
            match event {
                PluginEvent::ModeUpdate { mode_info, changed } => {
                    &&& should_render == update_should_render(old(self).initialized, changed)
                    &&& final(self).mode_info == mode_info
                    &&& final(self).base_mode_is_locked == (mode_info.base_mode == Some(InputMode::Locked))
                },
                PluginEvent::Other => {
                    &&& should_render == update_should_render(old(self).initialized, false)
                    &&& final(self).mode_info == old(self).mode_info
                    &&& final(self).base_mode_is_locked == old(self).base_mode_is_locked
                },
            },
            final(self).initialized == old(self).initialized,
            final(self).pipe_name == old(self).pipe_name,
            final(self).max_length == old(self).max_length,
            final(self).overflow_str == old(self).overflow_str,
            final(self).hide_in_base_mode == old(self).hide_in_base_mode,
            final(self).theme == old(self).theme,
    {
        let mut should_render = !self.initialized;
        match event {
            PluginEvent::ModeUpdate { mode_info, changed } => {
                if changed {
                    should_render = true;
                }
                self.base_mode_is_locked = match mode_info.base_mode {
                    Some(b) => b == InputMode::Locked,
                    None => false,
                };
                self.mode_info = mode_info;
            },
            PluginEvent::Other => {},
        }
        should_render
    }

    /// The status line for a pane `cols` columns wide: nothing while hidden in
    /// the base mode, otherwise the painted hints of the current mode (see
    /// `status_text`). Output outside the base mode marks the plugin as
    /// initialized.
    pub fn render(&mut self, _rows: usize, cols: usize) -> (output: String)
        ensures
            output@ == if hidden(old(self).hide_in_base_mode, old(self).mode_info) {
                Seq::<char>::empty()
            } else {
                status_text(
                    ansi_strings_display(rendered_parts(old(self).mode_info, old(self).theme, cols)),
                    old(self).max_length,
                    old(self).overflow_str@,
                )
            },
            final(self).initialized == initialized_after_render(
                old(self).initialized,
                output@,
                old(self).mode_info.mode,
                old(self).mode_info.base_mode,
            ),
            output@.len() == 0 <==> (old(self).hide_in_base_mode && old(self).mode_info.base_mode == Some(
                old(self).mode_info.mode,
            )),
            final(self).initialized == (old(self).initialized || old(self).mode_info.base_mode != Some(
                old(self).mode_info.mode,
            )),
            final(self).pipe_name == old(self).pipe_name,
            final(self).mode_info == old(self).mode_info,
            final(self).base_mode_is_locked == old(self).base_mode_is_locked,
            final(self).max_length == old(self).max_length,
            final(self).overflow_str == old(self).overflow_str,
            final(self).hide_in_base_mode == old(self).hide_in_base_mode,
            final(self).theme == old(self).theme,
    {
        let in_base_mode = is_base_mode(&self.mode_info);
        let output = if !(self.hide_in_base_mode && in_base_mode) {
            let keymap = get_keymap_for_mode(&self.mode_info);
            let parts = render_hints_for_mode(self.mode_info.mode, keymap, &self.theme, cols);
            let painted = paint(&parts);
            status_line(painted.as_str(), self.max_length, self.overflow_str.as_str())
        } else {
            String::new()
        };
        proof {
            law_render_hidden_only_in_base_mode(
                self.hide_in_base_mode,
                self.mode_info,
                self.theme,
                cols,
                self.max_length,
                self.overflow_str@,
                self.initialized,
            );
        }
        if !output.as_str().is_empty() && !in_base_mode {
            self.initialized = true;
        }
        output
    }

    /// The message that carries the status line to the pipe:
    /// `zjstatus::pipe::pipe_<pipe name>::<output>`.
    pub fn pipe_payload(&self, output: &str) -> (payload: String)
        ensures
            payload@ == pipe_payload_text(self.pipe_name@, output@),
    {
        let mut payload = owned("zjstatus::pipe::pipe_");
        push_text(&mut payload, self.pipe_name.as_str());
        push_text(&mut payload, "::");
        push_text(&mut payload, output);
        payload
    }
}

/// After a render outside the base mode that produced output, an update
/// that brings no change asks for no further render.
pub proof fn law_quiet_after_render(
    initialized: bool,
    output: Seq<char>,
    mode: InputMode,
    base_mode: Option<InputMode>,
)
    requires
        output.len() > 0,
        base_mode != Some(mode),
    ensures
        !update_should_render(initialized_after_render(initialized, output, mode, base_mode), false),
{
}

/// What a render shows: nothing exactly when hiding in the base mode is
/// configured and the current mode is the base mode; outside the base mode
/// the status line of the painted hints of the current mode, after which the
/// plugin counts as initialized.
pub proof fn law_render_hidden_only_in_base_mode(
    hide_in_base_mode: bool,
    mode_info: ModeInfo,
    theme: ThemeColors,
    cols: usize,
    max_length: usize,
    overflow_str: Seq<char>,
    initialized: bool,
)
    ensures
        ({
            let shown = status_text(
                ansi_strings_display(rendered_parts(mode_info, theme, cols)),
                max_length,
                overflow_str,
            );
            let output = if hidden(hide_in_base_mode, mode_info) {
                Seq::<char>::empty()
            } else {
                shown
            };
            &&& output.len() == 0 <==> (hide_in_base_mode && mode_info.base_mode == Some(mode_info.mode))
            &&& mode_info.base_mode != Some(mode_info.mode) ==> output == shown
            &&& !hide_in_base_mode ==> output == shown
            &&& initialized_after_render(initialized, output, mode_info.mode, mode_info.base_mode) == (initialized
                || mode_info.base_mode != Some(mode_info.mode))
        }),
{
    law_status_line_nonempty(
        ansi_strings_display(rendered_parts(mode_info, theme, cols)),
        max_length,
        overflow_str,
    );
}

/// Once initialized, a plugin stays initialized through any render.
pub proof fn law_initialized_stays(output: Seq<char>, mode: InputMode, base_mode: Option<InputMode>)
    ensures
        initialized_after_render(true, output, mode, base_mode),
{
}

} // verus!
