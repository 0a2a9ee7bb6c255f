//! Window-level decisions and the scripts the app injects into pane webviews:
//! pane blanking, overlay state, paste, URL and game navigation, resize
//! directions and key handling of the palette and assistant overlays.

use vstd::prelude::*;
use crate::text::{chars_of, concat2, concat3, contains_str, has_infix, owned, push_char};

verus! {

/// The overlay script up to the blank/unblank flag.
pub const BLANK_SCRIPT_HEAD: &'static str = r#"(function(){
var overlayId='_jv_blank_overlay';
var styleId='_jv_blank_overlay_style';
var blockKeydown=window._jvBlankBlockKeydown;
var blockKeyup=window._jvBlankBlockKeyup;
if(!blockKeydown){
blockKeydown=function(e){
if(!document.getElementById(overlayId)||document.getElementById('_cp_overlay'))return;
e.preventDefault();
e.stopPropagation();
};
blockKeyup=function(e){
if(!document.getElementById(overlayId)||document.getElementById('_cp_overlay'))return;
e.preventDefault();
e.stopPropagation();
};
window._jvBlankBlockKeydown=blockKeydown;
window._jvBlankBlockKeyup=blockKeyup;
}
if("#;

/// The overlay script after the blank/unblank flag.
pub const BLANK_SCRIPT_TAIL: &'static str = r#"){
var root=document.head||document.documentElement;
if(root&&!document.getElementById(styleId)){
var style=document.createElement('style');
style.id=styleId;
style.textContent='#_jv_blank_overlay{position:fixed;inset:0;background:#000;z-index:99999;pointer-events:auto;cursor:none;}';
root.appendChild(style);
}
if(document.body&&!document.getElementById(overlayId)){
var overlay=document.createElement('div');
overlay.id=overlayId;
overlay.setAttribute('aria-hidden','true');
overlay.addEventListener('mousedown',function(e){e.preventDefault();e.stopPropagation();});
overlay.addEventListener('mouseup',function(e){e.preventDefault();e.stopPropagation();});
overlay.addEventListener('click',function(e){e.preventDefault();e.stopPropagation();});
document.body.appendChild(overlay);
}
document.addEventListener('keydown',blockKeydown,true);
document.addEventListener('keyup',blockKeyup,true);
}else{
var overlay=document.getElementById(overlayId);
if(overlay)overlay.remove();
document.removeEventListener('keydown',blockKeydown,true);
document.removeEventListener('keyup',blockKeyup,true);
}
})();"#;

/// The pane-blanking overlay script, blanking (`true`) or unblanking.
pub open spec fn blank_script(blanked: bool) -> Seq<char> {
    BLANK_SCRIPT_HEAD@ + (if blanked { "true"@ } else { "false"@ }) + BLANK_SCRIPT_TAIL@
}

/// The script that adds (or removes) the black overlay that hides a pane
/// and swallows its keyboard and mouse input.
pub fn blank_overlay_script(blanked: bool) -> (r: String)
    ensures
        r@ == blank_script(blanked),
{
    let flag = if blanked { "true" } else { "false" };
    concat3(BLANK_SCRIPT_HEAD, flag, BLANK_SCRIPT_TAIL)
}

/// The script telling a webview whether an overlay (palette or assistant) is
/// open.
pub fn overlay_state_script(active: bool) -> (r: String)
    ensures
        r@ == "if(window.jarvis&&window.jarvis._setOverlayActive)window.jarvis._setOverlayActive("@ + (if active {
            "true"@
        } else {
            "false"@
        }) + ");"@,
{
    let flag = if active { "true" } else { "false" };
    concat3("if(window.jarvis&&window.jarvis._setOverlayActive)window.jarvis._setOverlayActive(", flag, ");")
}

/// A URL to open: given as is when it names a scheme (`://`), else with
/// `https://` in front.
pub fn normalize_url(url: &str) -> (r: String)
    ensures
        r@ == (if has_infix(url@, "://"@) { url@ } else { "https://"@ + url@ }),
{
    if contains_str(url, "://") {
        owned(url)
    } else {
        concat2("https://", url)
    }
}

/// The page of a built-in game.
pub fn game_url(game: &str) -> (r: String)
    ensures
        r@ == "jarvis://localhost/games/"@ + game@ + ".html"@,
{
    concat3("jarvis://localhost/games/", game, ".html")
}

/// Whether a game needs an opaque webview (the emulator renders with WebGL).
pub fn game_needs_opaque_webview(game: &str) -> (r: bool)
    ensures
        r == (game@ == "emulator"@),
{
    crate::text::str_eq(game, "emulator")
}

/// The page of a local plugin.
pub fn plugin_url(id: &str, entry: &str) -> (r: String)
    ensures
        r@ == "jarvis://localhost/plugins/"@ + id@ + "/"@ + entry@,
{
    let mut r = concat3("jarvis://localhost/plugins/", id, "/");
    r.append(entry);
    r
}

/// A bookmark is listed in the palette only with a name and a URL.
pub fn bookmark_listed(name: &str, url: &str) -> (r: bool)
    ensures
        r == (name@.len() > 0 && url@.len() > 0),
{
    !name.is_empty() && !url.is_empty()
}

/// A new pane may be opened while fewer than `max_panels` are open.
pub fn new_pane_allowed(pane_count: usize, max_panels: u32) -> (r: bool)
    ensures
        r == (pane_count < max_panels),
{
    (pane_count as u64) < (max_panels as u64)
}

/// The escape of one character inside a single-quoted JavaScript string.
pub open spec fn js_char_escape(c: char) -> Seq<char> {
    if c == '\\' {
        seq!['\\', '\\']
    } else if c == '\'' {
        seq!['\\', '\'']
    } else if c == '\n' {
        seq!['\\', 'n']
    } else if c == '\r' {
        seq!['\\', 'r']
    } else {
        seq![c]
    }
}

/// `s` escaped character by character for a single-quoted JavaScript string.
pub open spec fn js_escape(s: Seq<char>) -> Seq<char>
    decreases s.len(),
{
    if s.len() == 0 {
        Seq::empty()
    } else {
        js_escape(s.drop_last()) + js_char_escape(s.last())
    }
}

/// Escapes backslashes, single quotes, newlines and carriage returns for a
/// single-quoted JavaScript string.
pub fn escape_js_single_quoted(text: &str) -> (r: String)
    ensures
        r@ == js_escape(text@),
{
    let cs = chars_of(text);
    let mut out = String::new();
    let mut i: usize = 0;
    while i < cs.len()
        invariant
            cs@ == text@,
            0 <= i <= cs@.len(),
            out@ == js_escape(cs@.take(i as int)),
        decreases cs@.len() - i,
    {
        let c = cs[i];
        proof {
            let t = cs@.take(i + 1);
            assert(t.drop_last() =~= cs@.take(i as int));
            assert(t.last() == c);
        }
        let ghost before = out@;
        if c == '\\' {
            push_char(&mut out, '\\');
            push_char(&mut out, '\\');
        } else if c == '\'' {
            push_char(&mut out, '\\');
            push_char(&mut out, '\'');
        } else if c == '\n' {
            push_char(&mut out, '\\');
            push_char(&mut out, 'n');
        } else if c == '\r' {
            push_char(&mut out, '\\');
            push_char(&mut out, 'r');
        } else {
            push_char(&mut out, c);
        }
        assert(out@ =~= before + js_char_escape(c));
        i += 1;
    }
    assert(cs@.take(cs@.len() as int) =~= cs@);
    out
}

pub open spec fn paste_script_head() -> Seq<char> {
    "(function(){var t='"@
}

pub open spec fn paste_script_tail() -> Seq<char> {
    "';var a=document.activeElement;if(a&&(a.tagName==='INPUT'||a.tagName==='TEXTAREA')){var s=a.selectionStart||0,e=a.selectionEnd||0;a.value=a.value.slice(0,s)+t+a.value.slice(e);a.selectionStart=a.selectionEnd=s+t.length;a.dispatchEvent(new Event('input',{bubbles:true}));}else if(window.jarvis&&window.jarvis.ipc){window.jarvis.ipc.send('pty_input',{data:t});}})()"@
}

/// The script pasting clipboard text into the focused pane: into the active
/// input field, else to the terminal. Nothing for empty text.
pub fn paste_script(text: &str) -> (r: Option<String>)
    ensures
        text@.len() == 0 ==> r is None,
        text@.len() > 0 ==> (r matches Some(s) && s@ == paste_script_head() + js_escape(text@)
            + paste_script_tail()),
{
    if text.is_empty() {
        return None;
    }
    let escaped = escape_js_single_quoted(text);
    Some(
        concat3(
            "(function(){var t='",
            escaped.as_str(),
            "';var a=document.activeElement;if(a&&(a.tagName==='INPUT'||a.tagName==='TEXTAREA')){var s=a.selectionStart||0,e=a.selectionEnd||0;a.value=a.value.slice(0,s)+t+a.value.slice(e);a.selectionStart=a.selectionEnd=s+t.length;a.dispatchEvent(new Event('input',{bubbles:true}));}else if(window.jarvis&&window.jarvis.ipc){window.jarvis.ipc.send('pty_input',{data:t});}})()",
        ),
    )
}

/// The direction of a split border.
#[derive(Clone, Copy, Debug, PartialEq, Eq, Structural)]
pub enum SplitDirection {
    /// Side-by-side panes (a vertical divider line).
    Horizontal,
    /// Stacked panes (a horizontal divider line).
    Vertical,
}

/// Where the cursor is relative to the split borders.
#[derive(Clone, Copy, Debug, PartialEq, Eq, Structural)]
pub enum CursorZone {
    /// Not near any border.
    NoBorder,
    /// Near a vertical divider line.
    ColResize,
    /// Near a horizontal divider line.
    RowResize,
}

/// The cursor zone for the direction of the hovered border, if any.
pub fn cursor_zone(border: Option<SplitDirection>) -> (r: CursorZone)
    ensures
        r == match border {
            Some(SplitDirection::Horizontal) => CursorZone::ColResize,
            Some(SplitDirection::Vertical) => CursorZone::RowResize,
            None => CursorZone::NoBorder,
        },
{
    match border {
        Some(SplitDirection::Horizontal) => CursorZone::ColResize,
        Some(SplitDirection::Vertical) => CursorZone::RowResize,
        None => CursorZone::NoBorder,
    }
}

/// A pane resize or swap direction.
#[derive(Clone, Copy, Debug, PartialEq, Eq, Structural)]
pub enum ResizeDirection {
    Left,
    Right,
    Up,
    Down,
}

/// The split axis a direction acts on.
pub fn resize_axis(direction: ResizeDirection) -> (r: SplitDirection)
    ensures
        r == (if direction == ResizeDirection::Left || direction == ResizeDirection::Right {
            SplitDirection::Horizontal
        } else {
            SplitDirection::Vertical
        }),
{
    match direction {
        ResizeDirection::Left | ResizeDirection::Right => SplitDirection::Horizontal,
        ResizeDirection::Up | ResizeDirection::Down => SplitDirection::Vertical,
    }
}

/// The resize delta signed by direction: growing right and down, shrinking
/// left and up.
pub fn signed_resize_delta(direction: ResizeDirection, delta: i32) -> (r: i32)
    requires
        delta != i32::MIN,
    ensures
        r == (if direction == ResizeDirection::Right || direction == ResizeDirection::Down {
            delta as int
        } else {
            -delta
        }),
{
    match direction {
        ResizeDirection::Right | ResizeDirection::Down => delta,
        ResizeDirection::Left | ResizeDirection::Up => -delta,
    }
}

/// A key name that types one character: a single printable ASCII character
/// or a space.
pub open spec fn typed_char(key: Seq<char>) -> Option<char> {
    if key.len() == 1 && (('!' <= key[0] && key[0] <= '~') || key[0] == ' ') {
        Some(key[0])
    } else {
        None
    }
}

fn typed_char_exec(key: &str) -> (r: Option<char>)
    ensures
        r == typed_char(key@),
{
    let cs = chars_of(key);
    if cs.len() == 1 {
        let c = cs[0];
        if ('!' <= c && c <= '~') || c == ' ' {
            return Some(c);
        }
    }
    None
}

/// What a key press does in the command palette.
#[derive(Clone, Copy, Debug, PartialEq, Eq, Structural)]
pub enum PaletteKey {
    /// Leave URL entry and show the action list again.
    BackToActions,
    /// Close the palette.
    Close,
    /// Confirm the selection.
    Confirm,
    SelectPrev,
    SelectNext,
    Backspace,
    /// Type a character into the filter or URL.
    Type(char),
    /// Not handled by the palette.
    Unhandled,
}

/// ASCII lowercase of one character.
pub open spec fn lower_ascii(c: char) -> char {
    if 'A' <= c && c <= 'Z' {
        ((c as u32) + 32) as char
    } else {
        c
    }
}

/// The palette's response to a pressed key: Escape leaves URL entry (or
/// closes), Enter confirms, Up/Down/Tab move, Backspace deletes, printable
/// characters are typed (lowercased, except while entering a URL).
pub fn palette_key(key: &str, url_mode: bool) -> (r: PaletteKey)
    ensures
        r == (if key@ == "Escape"@ {
            if url_mode { PaletteKey::BackToActions } else { PaletteKey::Close }
        } else if key@ == "Enter"@ {
            PaletteKey::Confirm
        } else if key@ == "Up"@ {
            PaletteKey::SelectPrev
        } else if key@ == "Down"@ || key@ == "Tab"@ {
            PaletteKey::SelectNext
        } else if key@ == "Backspace"@ {
            PaletteKey::Backspace
        } else {
            match typed_char(key@) {
                Some(c) => PaletteKey::Type(if url_mode { c } else { lower_ascii(c) }),
                None => PaletteKey::Unhandled,
            }
        }),
{
    if crate::text::str_eq(key, "Escape") {
        if url_mode { PaletteKey::BackToActions } else { PaletteKey::Close }
    } else if crate::text::str_eq(key, "Enter") {
        PaletteKey::Confirm
    } else if crate::text::str_eq(key, "Up") {
        PaletteKey::SelectPrev
    } else if crate::text::str_eq(key, "Down") || crate::text::str_eq(key, "Tab") {
        PaletteKey::SelectNext
    } else if crate::text::str_eq(key, "Backspace") {
        PaletteKey::Backspace
    } else {
        match typed_char_exec(key) {
            Some(c) => {
                if url_mode {
                    PaletteKey::Type(c)
                } else if 'A' <= c && c <= 'Z' {
                    PaletteKey::Type(((c as u8) + 32) as char)
                } else {
                    PaletteKey::Type(c)
                }
            },
            None => PaletteKey::Unhandled,
        }
    }
}

/// What a key press does in the assistant panel.
#[derive(Clone, Copy, Debug, PartialEq, Eq, Structural)]
pub enum AssistantKey {
    Close,
    /// Submit the typed input (when there is some and no reply is streaming).
    Submit,
    Backspace,
    /// Scroll the transcript up by three lines.
    ScrollUp,
    /// Scroll the transcript down by three lines.
    ScrollDown,
    Type(char),
    Unhandled,
}

/// The assistant panel's response to a pressed key.
pub fn assistant_key(key: &str) -> (r: AssistantKey)
    ensures
        r == (if key@ == "Escape"@ {
            AssistantKey::Close
        } else if key@ == "Enter"@ {
            AssistantKey::Submit
        } else if key@ == "Backspace"@ {
            AssistantKey::Backspace
        } else if key@ == "Up"@ {
            AssistantKey::ScrollUp
        } else if key@ == "Down"@ {
            AssistantKey::ScrollDown
        } else {
            match typed_char(key@) {
                Some(c) => AssistantKey::Type(c),
                None => AssistantKey::Unhandled,
            }
        }),
{
    if crate::text::str_eq(key, "Escape") {
        AssistantKey::Close
    } else if crate::text::str_eq(key, "Enter") {
        AssistantKey::Submit
    } else if crate::text::str_eq(key, "Backspace") {
        AssistantKey::Backspace
    } else if crate::text::str_eq(key, "Up") {
        AssistantKey::ScrollUp
    } else if crate::text::str_eq(key, "Down") {
        AssistantKey::ScrollDown
    } else {
        match typed_char_exec(key) {
            Some(c) => AssistantKey::Type(c),
            None => AssistantKey::Unhandled,
        }
    }
}

/// Typed input is sent to the assistant only when non-empty and while no
/// reply is streaming.
pub fn should_submit(input: &str, streaming: bool) -> (r: bool)
    ensures
        r == (input@.len() > 0 && !streaming),
{
    !input.is_empty() && !streaming
}

/// The kinds of panel a layout configuration can name.
#[derive(Clone, Copy, Debug, PartialEq, Eq, Structural)]
pub enum PanelKind {
    Terminal,
    Assistant,
    Chat,
    Settings,
    Presence,
}

/// The kinds of pane a configured panel becomes.
#[derive(Clone, Copy, Debug, PartialEq, Eq, Structural)]
pub enum PaneKind {
    Terminal,
    Assistant,
    Chat,
    WebView,
}

/// The pane a configured panel becomes: settings and presence panels are
/// plain web views.
pub fn config_panel_to_pane_kind(kind: PanelKind) -> (r: PaneKind)
    ensures
        r == (match kind {
            PanelKind::Terminal => PaneKind::Terminal,
            PanelKind::Assistant => PaneKind::Assistant,
            PanelKind::Chat => PaneKind::Chat,
            PanelKind::Settings | PanelKind::Presence => PaneKind::WebView,
        }),
{
    match kind {
        PanelKind::Terminal => PaneKind::Terminal,
        PanelKind::Assistant => PaneKind::Assistant,
        PanelKind::Chat => PaneKind::Chat,
        PanelKind::Settings | PanelKind::Presence => PaneKind::WebView,
    }
}

/// The page a panel loads.
pub open spec fn panel_url(kind: PanelKind) -> Seq<char> {
    match kind {
        PanelKind::Terminal => "jarvis://localhost/terminal/index.html"@,
        PanelKind::Assistant => "jarvis://localhost/assistant/index.html"@,
        PanelKind::Chat => "jarvis://localhost/chat/index.html"@,
        PanelKind::Settings => "jarvis://localhost/settings/index.html"@,
        PanelKind::Presence => "jarvis://localhost/presence/index.html"@,
    }
}

pub fn panel_kind_to_url(kind: PanelKind) -> (r: &'static str)
    ensures
        r@ == panel_url(kind),
{
    match kind {
        PanelKind::Terminal => "jarvis://localhost/terminal/index.html",
        PanelKind::Assistant => "jarvis://localhost/assistant/index.html",
        PanelKind::Chat => "jarvis://localhost/chat/index.html",
        PanelKind::Settings => "jarvis://localhost/settings/index.html",
        PanelKind::Presence => "jarvis://localhost/presence/index.html",
    }
}

/// The title a panel shows until it sets its own.
pub open spec fn panel_title(kind: PanelKind) -> Seq<char> {
    match kind {
        PanelKind::Terminal => "Terminal"@,
        PanelKind::Assistant => "Assistant"@,
        PanelKind::Chat => "Chat"@,
        PanelKind::Settings => "Settings"@,
        PanelKind::Presence => "Presence"@,
    }
}

pub fn panel_kind_default_title(kind: PanelKind) -> (r: &'static str)
    ensures
        r@ == panel_title(kind),
{
    match kind {
        PanelKind::Terminal => "Terminal",
        PanelKind::Assistant => "Assistant",
        PanelKind::Chat => "Chat",
        PanelKind::Settings => "Settings",
        PanelKind::Presence => "Presence",
    }
}

} // verus!
