//! Decisions of the panel's background watchers and menu: when the pointer
//! at the screen edge opens the panel, when clipboard changes are passed on,
//! and what a tray menu entry does.
use vstd::prelude::*;
use crate::json::{json_quoted, json_string};
use crate::manifest::{byte_count, byte_len};
use crate::text::{chars_of, extend_chars, str_eq, string_of};

verus! {

/// Where the panel's edge band lies, in screen pixels.
#[derive(Clone, Copy)]
pub struct EdgeConfig {
    /// Top of the panel window.
    pub win_y: i32,
    /// Height of the panel window.
    pub height: i32,
    /// The x coordinate just past the screen's right edge.
    pub edge: i32,
    /// How far from the edge the panel follows the pointer (160 logical
    /// pixels, scaled).
    pub near_px: i32,
}

/// What the edge watcher does after one look at the pointer.
#[derive(Clone, Copy, PartialEq, Eq, Structural)]
pub enum EdgeAction {
    Nothing,
    /// Open the panel.
    Open,
    /// Tell the panel where the pointer is (screen coordinates).
    Cursor(i32, i32),
    /// Tell the panel the pointer has left its neighbourhood.
    Leave,
}

/// The edge watcher's memory between looks.
#[derive(Clone, Copy)]
pub struct EdgeWatch {
    /// Whether the panel was last told the pointer is near.
    pub near: bool,
    /// The pointer's last position.
    pub last: (i32, i32),
}

/// The pointer is level with the panel window.
pub open spec fn in_band(cfg: EdgeConfig, py: i32) -> bool {
    cfg.win_y <= py && py < cfg.win_y + cfg.height
}

/// How many pixels the pointer is left of the last pixel column.
pub open spec fn edge_distance(cfg: EdgeConfig, px: i32) -> int {
    cfg.edge - 1 - px
}

/// One look at the pointer. `busy` holds while the panel is open or a
/// colour is being picked; `cursor` is the pointer position when it could
/// be read; `left_down` whether the left button is held.
pub open spec fn edge_step(
    s: EdgeWatch,
    cfg: EdgeConfig,
    busy: bool,
    cursor: Option<(i32, i32)>,
    left_down: bool,
) -> (EdgeWatch, EdgeAction) {
    if busy {
        (EdgeWatch { near: false, last: s.last }, EdgeAction::Nothing)
    } else {
        match cursor {
            None => (s, EdgeAction::Nothing),
            Some((px, py)) => {
                let moved = (px, py) != s.last;
                let band = in_band(cfg, py);
                let dist = edge_distance(cfg, px);
                if moved && band && 0 <= dist <= 1 && !left_down {
                    (EdgeWatch { near: false, last: (px, py) }, EdgeAction::Open)
                } else if band && 0 <= dist < cfg.near_px {
                    (EdgeWatch { near: true, last: (px, py) }, EdgeAction::Cursor(px, py))
                } else if s.near {
                    (EdgeWatch { near: false, last: (px, py) }, EdgeAction::Leave)
                } else {
                    (EdgeWatch { near: s.near, last: (px, py) }, EdgeAction::Nothing)
                }
            },
        }
    }
}

/// The edge watcher opens the panel only while it is closed, when the
/// pointer has just moved onto one of the last two pixel columns level with
/// the panel, and the left button is up.
pub proof fn lemma_edge_opens_only_on_fresh_edge_move(
    s: EdgeWatch,
    cfg: EdgeConfig,
    busy: bool,
    cursor: Option<(i32, i32)>,
    left_down: bool,
)
    ensures
        edge_step(s, cfg, busy, cursor, left_down).1 == EdgeAction::Open ==> {
            &&& !busy
            &&& cursor matches Some((px, py))
            &&& (px, py) != s.last
            &&& in_band(cfg, py)
            &&& 0 <= edge_distance(cfg, px) <= 1
            &&& !left_down
        },
        busy ==> edge_step(s, cfg, busy, cursor, left_down).1 == EdgeAction::Nothing && !edge_step(
            s,
            cfg,
            busy,
            cursor,
            left_down,
        ).0.near,
{
}

/// While the panel is closed, a pointer that has just moved onto one of the
/// last two pixel columns level with the panel, with the left button up,
/// opens it; a pointer otherwise within `near_px` of the edge and level with
/// the panel is reported to it.
pub proof fn lemma_edge_reacts_near_edge(
    s: EdgeWatch,
    cfg: EdgeConfig,
    cursor: Option<(i32, i32)>,
    left_down: bool,
)
    ensures
        cursor matches Some((px, py)) ==> {
            let (s2, a) = edge_step(s, cfg, false, cursor, left_down);
            &&& ((px, py) != s.last && in_band(cfg, py) && 0 <= edge_distance(cfg, px) <= 1
                && !left_down) ==> a == EdgeAction::Open && !s2.near
            &&& (!((px, py) != s.last && 0 <= edge_distance(cfg, px) <= 1 && !left_down)
                && in_band(cfg, py) && 0 <= edge_distance(cfg, px) < cfg.near_px) ==> a
                == EdgeAction::Cursor(px, py) && s2.near
            &&& s2.last == (px, py)
        },
        cursor is None ==> edge_step(s, cfg, false, cursor, left_down) == (
            s,
            EdgeAction::Nothing,
        ),
{
}

impl EdgeWatch {
    /// Not near, and a last position that no pointer has.
    pub fn new() -> (r: EdgeWatch)
        ensures
            !r.near,
            r.last == (i32::MIN, i32::MIN),
    {
        EdgeWatch { near: false, last: (i32::MIN, i32::MIN) }
    }

    /// Takes one look at the pointer and says what to do.
    pub fn step(
        &mut self,
        cfg: EdgeConfig,
        busy: bool,
        cursor: Option<(i32, i32)>,
        left_down: bool,
    ) -> (r: EdgeAction)
        ensures
            (*final(self), r) == edge_step(*old(self), cfg, busy, cursor, left_down),
    {
        if busy {
            self.near = false;
            return EdgeAction::Nothing;
        }
        let (px, py) = match cursor {
            Some(p) => p,
            None => {
                return EdgeAction::Nothing;
            },
        };
        let moved = px != self.last.0 || py != self.last.1;
        self.last = (px, py);
        let band = cfg.win_y <= py && (py as i64) < (cfg.win_y as i64) + (cfg.height as i64);
        let dist: i64 = (cfg.edge as i64) - 1 - (px as i64);
        if moved && band && 0 <= dist && dist <= 1 && !left_down {
            self.near = false;
            EdgeAction::Open
        } else if band && 0 <= dist && dist < cfg.near_px as i64 {
            self.near = true;
            EdgeAction::Cursor(px, py)
        } else if self.near {
            self.near = false;
            EdgeAction::Leave
        } else {
            EdgeAction::Nothing
        }
    }
}

/// The clipboard watcher's memory: the clipboard sequence number last seen.
pub struct ClipWatch {
    pub seq: u64,
}

impl ClipWatch {
    /// Nothing seen yet (sequence number 0).
    pub fn new() -> (r: ClipWatch)
        ensures
            r.seq == 0,
    {
        ClipWatch { seq: 0 }
    }

    /// Records the clipboard's current sequence number `s`, and says whether
    /// it changed since the last look.
    pub fn observe(&mut self, s: u64) -> (changed: bool)
        ensures
            changed == (s != old(self).seq),
            final(self).seq == s,
    {
        let changed = s != self.seq;
        self.seq = s;
        changed
    }
}

/// The longest clipboard text, in bytes, passed on to the panel is one less
/// than this.
pub const CLIP_LIMIT: usize = 100000;

/// The script that hands new clipboard text to the panel: `app.clip(...)`
/// with the text as a JSON string, or nothing when the text is too long.
pub fn clip_script(text: &str) -> (r: Option<String>)
    ensures
        r is Some <==> byte_len(text@) < CLIP_LIMIT,
        r matches Some(s) ==> s@ == "app.clip("@ + json_quoted(text@) + ")"@,
{
    if byte_count(text) >= CLIP_LIMIT {
        return None;
    }
    let mut out = chars_of("app.clip(");
    extend_chars(&mut out, &chars_of(json_string(text).as_str()));
    extend_chars(&mut out, &chars_of(")"));
    Some(string_of(&out))
}

/// What a tray menu entry does.
#[derive(Clone, Copy, PartialEq, Eq, Structural)]
pub enum MenuAction {
    /// `open`: show the panel.
    ShowPanel,
    /// `settings`: show the panel's settings.
    ShowSettings,
    /// `addapp`: pick an app to add.
    AddApp,
    /// `startup`: flip starting at login.
    ToggleStartup,
    /// `quit`
    Quit,
    /// Any other id.
    Ignore,
}

/// The action of the tray menu entry `id`.
pub open spec fn menu_action_of(id: Seq<char>) -> MenuAction {
    if id == "open"@ {
        MenuAction::ShowPanel
    } else if id == "settings"@ {
        MenuAction::ShowSettings
    } else if id == "addapp"@ {
        MenuAction::AddApp
    } else if id == "startup"@ {
        MenuAction::ToggleStartup
    } else if id == "quit"@ {
        MenuAction::Quit
    } else {
        MenuAction::Ignore
    }
}

/// What the tray menu entry `id` does.
pub fn menu_action(id: &str) -> (r: MenuAction)
    ensures
        r == menu_action_of(id@),
{
    if str_eq(id, "open") {
        MenuAction::ShowPanel
    } else if str_eq(id, "settings") {
        MenuAction::ShowSettings
    } else if str_eq(id, "addapp") {
        MenuAction::AddApp
    } else if str_eq(id, "startup") {
        MenuAction::ToggleStartup
    } else if str_eq(id, "quit") {
        MenuAction::Quit
    } else {
        MenuAction::Ignore
    }
}

} // verus!
