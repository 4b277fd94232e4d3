use vstd::prelude::*;

use crate::storage;
use crate::text;

verus! {

/// Seconds without input after which the window closes, without saving.
pub const IDLE_CLOSE_SECS: u64 = 60;

/// Seconds without input after which the close countdown is shown.
pub const IDLE_WARN_SECS: u64 = 10;

/// The keys pressed during one frame.
#[derive(Clone, Copy, Debug, PartialEq, Eq, Structural)]
pub struct Keys {
    pub escape: bool,
    pub enter: bool,
    pub command: bool,
    pub shift: bool,
    pub alt: bool,
}

/// What a frame does with the window.
#[derive(Clone, Copy, Debug, PartialEq, Eq, Structural)]
pub enum FrameAction {
    /// Close the window and drop what was typed.
    CloseWithoutSaving,
    /// Save what was typed, then close the window.
    SaveAndClose,
    /// Show the editor; `smart_enter` says that a plain Enter was pressed, so
    /// list continuation applies.
    Edit { smart_enter: bool },
}

/// The decisions of one frame.
#[derive(Clone, Copy, Debug, PartialEq, Eq, Structural)]
pub struct FramePlan {
    /// Ask for a repaint soon, so the countdown keeps ticking.
    pub repaint_soon: bool,
    pub action: FrameAction,
}

pub open spec fn frame_plan(idle_secs: u64, keys: Keys) -> FramePlan {
    if idle_secs >= IDLE_CLOSE_SECS {
        FramePlan { repaint_soon: false, action: FrameAction::CloseWithoutSaving }
    } else {
        let repaint_soon = idle_secs >= IDLE_WARN_SECS;
        if keys.escape {
            FramePlan { repaint_soon, action: FrameAction::CloseWithoutSaving }
        } else if keys.command && keys.enter {
            FramePlan { repaint_soon, action: FrameAction::SaveAndClose }
        } else {
            FramePlan {
                repaint_soon,
                action: FrameAction::Edit {
                    smart_enter: keys.enter && !keys.command && !keys.shift && !keys.alt,
                },
            }
        }
    }
}

/// Decides what a frame does, after `idle_secs` seconds without input and
/// with `keys` pressed: a long idle or Escape close without saving, Ctrl+Enter
/// saves and closes, anything else keeps editing.
pub fn plan_frame(idle_secs: u64, keys: Keys) -> (r: FramePlan)
    ensures
        r == frame_plan(idle_secs, keys),
        r.repaint_soon == (IDLE_WARN_SECS <= idle_secs < IDLE_CLOSE_SECS),
{
    if idle_secs >= IDLE_CLOSE_SECS {
        return FramePlan { repaint_soon: false, action: FrameAction::CloseWithoutSaving };
    }
    let repaint_soon = idle_secs >= IDLE_WARN_SECS;
    if keys.escape {
        FramePlan { repaint_soon, action: FrameAction::CloseWithoutSaving }
    } else if keys.command && keys.enter {
        FramePlan { repaint_soon, action: FrameAction::SaveAndClose }
    } else {
        FramePlan {
            repaint_soon,
            action: FrameAction::Edit {
                smart_enter: keys.enter && !keys.command && !keys.shift && !keys.alt,
            },
        }
    }
}

/// The editor holds something: more than white space and a lone `*` or `-`.
pub open spec fn has_content_spec(t: Seq<char>) -> bool {
    let tr = text::trim(t);
    tr.len() > 0 && tr != seq!['*'] && tr != seq!['-']
}

/// Whether the editor holds something (what makes the border glow).
pub fn has_content(t: &str) -> (r: bool)
    ensures
        r == has_content_spec(t@),
{
    let chars = text::chars_of(t);
    let tr = text::trimmed(&chars);
    let n = tr.len();
    if n == 0 {
        return false;
    }
    if n == 1 && (tr[0] == '*' || tr[0] == '-') {
        assert(tr@ =~= seq![tr@[0]]);
        return false;
    }
    assert(tr@ != seq!['*'] && tr@ != seq!['-']) by {
        if n == 1 {
            assert(seq!['*'][0] == '*');
            assert(seq!['-'][0] == '-');
        }
    }
    true
}

/// The countdown shown once the editor has been idle a while:
/// `auto-close in Ns  •`, with the seconds left before it closes.
pub fn countdown_label(idle_secs: u64) -> (r: Option<String>)
    requires
        idle_secs < IDLE_CLOSE_SECS,
    ensures
        idle_secs < IDLE_WARN_SECS ==> r is None,
        idle_secs >= IDLE_WARN_SECS ==> (r matches Some(s) && s@ == "auto-close in "@
            + text::decimal((IDLE_CLOSE_SECS - idle_secs) as nat) + "s  \u{2022}"@),
{
    if idle_secs < IDLE_WARN_SECS {
        return None;
    }
    let remaining = (IDLE_CLOSE_SECS - idle_secs) as usize;
    let mut digits: Vec<char> = Vec::new();
    text::push_decimal(&mut digits, remaining);
    assert(digits@ =~= text::decimal(remaining as nat));
    let mut s = String::new();
    s.append("auto-close in ");
    let d = text::string_of(&digits);
    s.append(d.as_str());
    s.append("s  \u{2022}");
    Some(s)
}

/// The editor window's state.
pub struct SparkApp {
    /// What has been typed.
    pub text: String,
    /// The editor has had its first focus (and cursor placement).
    pub focused_once: bool,
}

impl SparkApp {
    /// A fresh editor: a bullet ready for the first thought, not yet focused.
    pub fn new() -> (r: Self)
        ensures
            r.text@ == seq!['*', ' '],
            !r.focused_once,
    {
        let t = String::from_str("* ");
        proof {
            reveal_strlit("* ");
        }
        assert(t@ =~= seq!['*', ' ']);
        SparkApp { text: t, focused_once: false }
    }

    /// On the first frame only: where to put the cursor (after all of the
    /// text, in characters); marks the editor as focused.
    pub fn first_focus(&mut self) -> (r: Option<usize>)
        ensures
            final(self).text == old(self).text,
            final(self).focused_once,
            old(self).focused_once ==> r is None,
            !old(self).focused_once ==> (r matches Some(n) && n == old(self).text@.len()),
    {
        if self.focused_once {
            return None;
        }
        let n = text::chars_of(self.text.as_str()).len();
        self.focused_once = true;
        Some(n)
    }
}


/// The border glows exactly when saving would write something down.
pub proof fn lemma_glow_iff_worth_saving(t: Seq<char>)
    ensures
        has_content_spec(t) <==> storage::worth_saving(text::trim(t)),
{
    let tr = text::trim(t);
    text::lemma_trim_ends(t);
    if tr == seq!['*', ' '] || tr == seq!['-', ' '] {
        assert(tr.last() == ' ');
    }
}

/// Only Ctrl+Enter saves: a frame saves only when Command and Enter are down,
/// Escape is not, and the window has not been idle for the close delay;
/// idling that long, or Escape, always closes without saving.
pub proof fn lemma_only_command_enter_saves(idle_secs: u64, keys: Keys)
    ensures
        frame_plan(idle_secs, keys).action == FrameAction::SaveAndClose <==> (keys.command
            && keys.enter && !keys.escape && idle_secs < IDLE_CLOSE_SECS),
        idle_secs >= IDLE_CLOSE_SECS ==> frame_plan(idle_secs, keys).action
            == FrameAction::CloseWithoutSaving,
        keys.escape ==> frame_plan(idle_secs, keys).action == FrameAction::CloseWithoutSaving,
{
}


/// The countdown keeps ticking: every frame from the warning delay until the
/// close delay asks for a repaint soon, and no other frame does.
pub proof fn lemma_repaint_while_counting_down(idle_secs: u64, keys: Keys)
    ensures
        frame_plan(idle_secs, keys).repaint_soon == (10 <= idle_secs < 60),
        frame_plan(idle_secs, keys).action is Edit ==> idle_secs < 60 && !keys.escape && !(
        keys.command && keys.enter),
        frame_plan(idle_secs, keys).action matches FrameAction::Edit { smart_enter } ==> (
        smart_enter <==> keys.enter && !keys.shift && !keys.alt),
{
}

} // verus!
