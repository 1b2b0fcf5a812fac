//! The event dispatcher: the process-wide classifier in front of the
//! composition state machine. It tracks modifier keys and the binary
//! intercept/pass-through mode, discards self-injected events, honours the
//! global quit and overlay hotkeys, and routes every remaining keystroke.
//! The caller owns the surrounding message loop: it hands each raw key event
//! in as plain values and carries out the returned decision (forward or
//! swallow the keystroke, deliver text, toggle the overlay, shut down).

use vstd::prelude::*;
use crate::dictionary::DictModel;
use crate::input_method::CompModel;
use crate::input_method::InputMethodProcessor;
use crate::input_method::backspace_m;
use crate::input_method::clear_m;
use crate::input_method::code_input_m;
use crate::input_method::number_selection_m;
use crate::input_method::space_m;
use crate::input_method::symbol_input_m;

verus! {

/// Virtual key codes the dispatcher distinguishes.
pub const VK_BACK: u32 = 8;
pub const VK_RETURN: u32 = 13;
pub const VK_ESCAPE: u32 = 27;
pub const VK_SPACE: u32 = 32;
/// The global quit hotkey, honoured in either mode.
pub const VK_QUIT: u32 = 115;
pub const VK_PERIOD: u32 = 190;
pub const VK_DECIMAL: u32 = 110;
pub const VK_COMMA: u32 = 188;

/// The shift keys: generic, left and right.
pub open spec fn is_shift_vk(vk: u32) -> bool {
    vk == 16 || vk == 160 || vk == 161
}

/// The control keys: generic, left and right.
pub open spec fn is_ctrl_vk(vk: u32) -> bool {
    vk == 17 || vk == 162 || vk == 163
}

/// The alt keys: generic, left and right.
pub open spec fn is_alt_vk(vk: u32) -> bool {
    vk == 18 || vk == 164 || vk == 165
}

/// Keys that interception deliberately lets through: function keys other
/// than the quit hotkey, navigation and editing keys, locks and system keys.
pub open spec fn forwarded_key(vk: u32) -> bool {
    ||| vk == 9
    ||| vk == 17
    ||| vk == 18
    ||| vk == 19
    ||| vk == 20
    ||| (33 <= vk && vk <= 40)
    ||| vk == 44
    ||| vk == 45
    ||| vk == 46
    ||| vk == 91
    ||| vk == 92
    ||| vk == 93
    ||| (112 <= vk && vk <= 114)
    ||| (116 <= vk && vk <= 135)
    ||| vk == 144
    ||| vk == 145
}

/// The lower-case letter a letter key stands for.
pub open spec fn letter_char(vk: u32) -> char {
    ((vk + 32) as char)
}

/// What the caller must do with one keystroke.
pub enum KeyDecision {
    /// Hand the keystroke on to the system unchanged.
    Forward,
    /// Swallow the keystroke.
    Consume,
    /// Swallow the keystroke and deliver this text to the foreground
    /// application.
    Deliver(String),
    /// Swallow the keystroke and shut the process down.
    Quit,
    /// Swallow the keystroke and toggle the overlay's visibility.
    ToggleOverlay,
}

/// The decision, seen mathematically.
pub enum DecisionModel {
    Forward,
    Consume,
    Deliver(Seq<char>),
    Quit,
    ToggleOverlay,
}

impl View for KeyDecision {
    type V = DecisionModel;

    open spec fn view(&self) -> DecisionModel {
        match self {
            KeyDecision::Forward => DecisionModel::Forward,
            KeyDecision::Consume => DecisionModel::Consume,
            KeyDecision::Deliver(t) => DecisionModel::Deliver(t@),
            KeyDecision::Quit => DecisionModel::Quit,
            KeyDecision::ToggleOverlay => DecisionModel::ToggleOverlay,
        }
    }
}

/// One keystroke's outcome: the decision, and whether the overlay display
/// is stale and must be redrawn.
pub struct DispatchOutcome {
    pub decision: KeyDecision,
    pub dirty: bool,
}

/// The dispatcher's own state: the held modifiers, the guard that a shift
/// press was combined with another key, and the pass-through mode flag
/// (`false` is intercepting, the initial mode).
#[derive(Clone, Copy, PartialEq, Eq, Structural, Debug)]
pub struct Dispatcher {
    pub ctrl_down: bool,
    pub alt_down: bool,
    pub shift_down: bool,
    pub shift_used_with_other: bool,
    pub passthrough: bool,
}

/// One keystroke's full effect, seen mathematically.
pub struct StepModel {
    pub disp: Dispatcher,
    pub comp: CompModel,
    pub decision: DecisionModel,
    pub dirty: bool,
}

/// The whole classification of one keystroke, first match wins:
/// self-injected events are forwarded untouched; the quit hotkey wins over
/// everything; control and alt are booked and forwarded; shift is booked and
/// consumed, and a solitary shift tap (no other key went down in between)
/// toggles pass-through on release, clearing any half-typed code; the
/// control-space hotkey toggles the overlay in either mode; pass-through
/// mode, held control, key releases and a visible overlay all forward; what
/// remains is a key-down while intercepting, routed into the composition
/// state machine, and every keystroke the machine resolves or swallows is
/// consumed.
pub open spec fn step_m(
    d: Dispatcher,
    s: CompModel,
    dict: DictModel,
    vk: u32,
    down: bool,
    injected: bool,
    overlay_visible: bool,
) -> StepModel {
    if injected {
        StepModel { disp: d, comp: s, decision: DecisionModel::Forward, dirty: false }
    } else if down && vk == VK_QUIT {
        StepModel { disp: d, comp: s, decision: DecisionModel::Quit, dirty: false }
    } else {
        let d1 = if down && !is_shift_vk(vk) && d.shift_down {
            Dispatcher { shift_used_with_other: true, ..d }
        } else {
            d
        };
        if is_ctrl_vk(vk) {
            StepModel {
                disp: Dispatcher { ctrl_down: down, ..d1 },
                comp: s,
                decision: DecisionModel::Forward,
                dirty: false,
            }
        } else if is_alt_vk(vk) {
            StepModel {
                disp: Dispatcher { alt_down: down, ..d1 },
                comp: s,
                decision: DecisionModel::Forward,
                dirty: false,
            }
        } else if is_shift_vk(vk) {
            if down {
                StepModel {
                    disp: Dispatcher { shift_down: true, shift_used_with_other: false, ..d1 },
                    comp: s,
                    decision: DecisionModel::Consume,
                    dirty: false,
                }
            } else {
                let toggles = !d1.shift_used_with_other;
                let d2 = Dispatcher {
                    shift_down: false,
                    shift_used_with_other: false,
                    passthrough: if toggles {
                        !d1.passthrough
                    } else {
                        d1.passthrough
                    },
                    ..d1
                };
                if toggles && s.code.len() > 0 {
                    StepModel {
                        disp: d2,
                        comp: clear_m(s),
                        decision: DecisionModel::Consume,
                        dirty: true,
                    }
                } else {
                    StepModel { disp: d2, comp: s, decision: DecisionModel::Consume, dirty: false }
                }
            }
        } else if down && vk == VK_SPACE && d1.ctrl_down {
            StepModel { disp: d1, comp: s, decision: DecisionModel::ToggleOverlay, dirty: false }
        } else if d1.passthrough {
            StepModel { disp: d1, comp: s, decision: DecisionModel::Forward, dirty: false }
        } else if d1.ctrl_down && down {
            StepModel { disp: d1, comp: s, decision: DecisionModel::Forward, dirty: false }
        } else if !down {
            StepModel { disp: d1, comp: s, decision: DecisionModel::Forward, dirty: false }
        } else if overlay_visible {
            StepModel { disp: d1, comp: s, decision: DecisionModel::Forward, dirty: false }
        } else if vk == VK_ESCAPE {
            if s.code.len() > 0 {
                StepModel {
                    disp: d1,
                    comp: clear_m(s),
                    decision: DecisionModel::Consume,
                    dirty: true,
                }
            } else {
                StepModel { disp: d1, comp: s, decision: DecisionModel::Forward, dirty: false }
            }
        } else if vk == VK_BACK {
            let (s2, handled) = backspace_m(dict, s);
            if handled {
                StepModel { disp: d1, comp: s2, decision: DecisionModel::Consume, dirty: true }
            } else {
                StepModel { disp: d1, comp: s, decision: DecisionModel::Forward, dirty: false }
            }
        } else if vk == VK_SPACE {
            if s.pending is Some || s.code.len() > 0 {
                let (s2, out) = space_m(s);
                let s3 = clear_m(s2);
                match out {
                    Some(t) => StepModel {
                        disp: d1,
                        comp: s3,
                        decision: DecisionModel::Deliver(t),
                        dirty: true,
                    },
                    None => StepModel {
                        disp: d1,
                        comp: s3,
                        decision: DecisionModel::Consume,
                        dirty: true,
                    },
                }
            } else {
                StepModel { disp: d1, comp: s, decision: DecisionModel::Forward, dirty: false }
            }
        } else if vk == VK_RETURN {
            if s.code.len() > 0 {
                let (s2, out) = space_m(s);
                let s3 = clear_m(s2);
                match out {
                    Some(t) => StepModel {
                        disp: d1,
                        comp: s3,
                        decision: DecisionModel::Deliver(t),
                        dirty: true,
                    },
                    None => StepModel {
                        disp: d1,
                        comp: s3,
                        decision: DecisionModel::Consume,
                        dirty: true,
                    },
                }
            } else {
                StepModel { disp: d1, comp: s, decision: DecisionModel::Forward, dirty: false }
            }
        } else if 48 <= vk && vk <= 57 {
            let (s2, out) = number_selection_m(s, vk - 48);
            match out {
                Some(t) => StepModel {
                    disp: d1,
                    comp: s2,
                    decision: DecisionModel::Deliver(t),
                    dirty: true,
                },
                None => StepModel {
                    disp: d1,
                    comp: s2,
                    decision: DecisionModel::Consume,
                    dirty: false,
                },
            }
        } else if 65 <= vk && vk <= 90 {
            let (s2, ok, _out) = code_input_m(dict, s, letter_char(vk));
            if ok {
                StepModel { disp: d1, comp: s2, decision: DecisionModel::Consume, dirty: true }
            } else {
                StepModel { disp: d1, comp: s2, decision: DecisionModel::Forward, dirty: false }
            }
        } else if vk == VK_PERIOD || vk == VK_DECIMAL {
            let (s2, ok, _out) = symbol_input_m(dict, s, '.');
            StepModel { disp: d1, comp: s2, decision: DecisionModel::Consume, dirty: ok }
        } else if vk == VK_COMMA {
            let (s2, ok, _out) = symbol_input_m(dict, s, ',');
            StepModel { disp: d1, comp: s2, decision: DecisionModel::Consume, dirty: ok }
        } else if forwarded_key(vk) {
            StepModel { disp: d1, comp: s, decision: DecisionModel::Forward, dirty: false }
        } else {
            StepModel { disp: d1, comp: s, decision: DecisionModel::Consume, dirty: false }
        }
    }
}

impl Dispatcher {
    /// A fresh dispatcher: nothing held, intercepting.
    pub fn new() -> (d: Dispatcher)
        ensures
            d == (Dispatcher {
                ctrl_down: false,
                alt_down: false,
                shift_down: false,
                shift_used_with_other: false,
                passthrough: false,
            }),
    {
        Dispatcher {
            ctrl_down: false,
            alt_down: false,
            shift_down: false,
            shift_used_with_other: false,
            passthrough: false,
        }
    }

    /// Classify one keystroke and route it, exactly as `step_m` says. The
    /// caller reports each raw event as its virtual key code, whether it is
    /// a key-down, whether the event was injected by the text delivery
    /// itself, and whether the overlay is visible; it then carries out the
    /// returned decision.
    pub fn process_key_event(
        &mut self,
        proc: &mut InputMethodProcessor,
        vk: u32,
        is_key_down: bool,
        injected: bool,
        overlay_visible: bool,
    ) -> (r: DispatchOutcome)
        ensures
            ({
                let m = step_m(
                    *old(self),
                    old(proc).comp(),
                    old(proc).dict(),
                    vk,
                    is_key_down,
                    injected,
                    overlay_visible,
                );
                &&& *final(self) == m.disp
                &&& final(proc).comp() == m.comp
                &&& final(proc).dict() == old(proc).dict()
                &&& r.decision@ == m.decision
                &&& r.dirty == m.dirty
            }),
    {
        if injected {
            return DispatchOutcome { decision: KeyDecision::Forward, dirty: false };
        }
        if is_key_down && vk == VK_QUIT {
            return DispatchOutcome { decision: KeyDecision::Quit, dirty: false };
        }
        let is_shift = vk == 16 || vk == 160 || vk == 161;
        if is_key_down && !is_shift && self.shift_down {
            self.shift_used_with_other = true;
        }
        if vk == 17 || vk == 162 || vk == 163 {
            self.ctrl_down = is_key_down;
            return DispatchOutcome { decision: KeyDecision::Forward, dirty: false };
        }
        if vk == 18 || vk == 164 || vk == 165 {
            self.alt_down = is_key_down;
            return DispatchOutcome { decision: KeyDecision::Forward, dirty: false };
        }
        if is_shift {
            if is_key_down {
                self.shift_down = true;
                self.shift_used_with_other = false;
                return DispatchOutcome { decision: KeyDecision::Consume, dirty: false };
            }
            let toggles = !self.shift_used_with_other;
            self.shift_down = false;
            self.shift_used_with_other = false;
            let mut dirty = false;
            if toggles {
                self.passthrough = !self.passthrough;
                if proc.state.current_code.len() > 0 {
                    proc.clear();
                    dirty = true;
                }
            }
            return DispatchOutcome { decision: KeyDecision::Consume, dirty };
        }
        if is_key_down && vk == VK_SPACE && self.ctrl_down {
            return DispatchOutcome { decision: KeyDecision::ToggleOverlay, dirty: false };
        }
        if self.passthrough {
            return DispatchOutcome { decision: KeyDecision::Forward, dirty: false };
        }
        if self.ctrl_down && is_key_down {
            return DispatchOutcome { decision: KeyDecision::Forward, dirty: false };
        }
        if !is_key_down {
            return DispatchOutcome { decision: KeyDecision::Forward, dirty: false };
        }
        if overlay_visible {
            return DispatchOutcome { decision: KeyDecision::Forward, dirty: false };
        }
        if vk == VK_ESCAPE {
            if proc.state.current_code.len() > 0 {
                proc.clear();
                return DispatchOutcome { decision: KeyDecision::Consume, dirty: true };
            }
            return DispatchOutcome { decision: KeyDecision::Forward, dirty: false };
        }
        if vk == VK_BACK {
            if proc.handle_backspace() {
                return DispatchOutcome { decision: KeyDecision::Consume, dirty: true };
            }
            return DispatchOutcome { decision: KeyDecision::Forward, dirty: false };
        }
        if vk == VK_SPACE {
            let has_pending = proc.state.complement_selected.is_some();
            let has_input = proc.state.current_code.len() > 0;
            if has_pending || has_input {
                let text = proc.handle_space();
                proc.clear();
                return match text {
                    Some(t) => DispatchOutcome { decision: KeyDecision::Deliver(t), dirty: true },
                    None => DispatchOutcome { decision: KeyDecision::Consume, dirty: true },
                };
            }
            return DispatchOutcome { decision: KeyDecision::Forward, dirty: false };
        }
        if vk == VK_RETURN {
            if proc.state.current_code.len() > 0 {
                let text = proc.handle_space();
                proc.clear();
                return match text {
                    Some(t) => DispatchOutcome { decision: KeyDecision::Deliver(t), dirty: true },
                    None => DispatchOutcome { decision: KeyDecision::Consume, dirty: true },
                };
            }
            return DispatchOutcome { decision: KeyDecision::Forward, dirty: false };
        }
        if 48 <= vk && vk <= 57 {
            let num = (vk - 48) as u8;
            return match proc.handle_number_selection(num) {
                Some(t) => DispatchOutcome { decision: KeyDecision::Deliver(t), dirty: true },
                None => DispatchOutcome { decision: KeyDecision::Consume, dirty: false },
            };
        }
        if 65 <= vk && vk <= 90 {
            let ch = ((vk as u8) + 32) as char;
            proof {
                assert(ch == letter_char(vk));
            }
            let (ok, _selected) = proc.handle_code_input(ch);
            if ok {
                return DispatchOutcome { decision: KeyDecision::Consume, dirty: true };
            }
            return DispatchOutcome { decision: KeyDecision::Forward, dirty: false };
        }
        if vk == VK_PERIOD || vk == VK_DECIMAL {
            let (ok, _selected) = proc.handle_symbol_input('.');
            return DispatchOutcome { decision: KeyDecision::Consume, dirty: ok };
        }
        if vk == VK_COMMA {
            let (ok, _selected) = proc.handle_symbol_input(',');
            return DispatchOutcome { decision: KeyDecision::Consume, dirty: ok };
        }
        let forwarded = vk == 9 || vk == 17 || vk == 18 || vk == 19 || vk == 20 || (33 <= vk && vk
            <= 40) || vk == 44 || vk == 45 || vk == 46 || vk == 91 || vk == 92 || vk == 93 || (112
            <= vk && vk <= 114) || (116 <= vk && vk <= 135) || vk == 144 || vk == 145;
        if forwarded {
            return DispatchOutcome { decision: KeyDecision::Forward, dirty: false };
        }
        DispatchOutcome { decision: KeyDecision::Consume, dirty: false }
    }
}

/// Law: a solitary shift tap — key-down then key-up with no other key-down
/// in between — flips the intercept/pass-through mode, whatever else the
/// dispatcher and composition state hold.
pub proof fn lemma_solitary_shift_tap_toggles(
    d: Dispatcher,
    s: CompModel,
    dict: DictModel,
    shift_vk: u32,
    ov1: bool,
    ov2: bool,
)
    requires
        is_shift_vk(shift_vk),
    ensures
        ({
            let m1 = step_m(d, s, dict, shift_vk, true, false, ov1);
            let m2 = step_m(m1.disp, m1.comp, dict, shift_vk, false, false, ov2);
            m2.disp.passthrough == !d.passthrough
        }),
{
}

/// Law: shift held while another key goes down does not toggle the mode —
/// the intervening key-down arms the guard that suppresses the flip. The
/// intervening key must be a real key event: not a shift key itself, not
/// injected, and not the quit hotkey (which ends the process instead).
pub proof fn lemma_shift_combination_does_not_toggle(
    d: Dispatcher,
    s: CompModel,
    dict: DictModel,
    shift_vk: u32,
    other_vk: u32,
    ov1: bool,
    ov2: bool,
    ov3: bool,
)
    requires
        is_shift_vk(shift_vk),
        !is_shift_vk(other_vk),
        other_vk != VK_QUIT,
    ensures
        ({
            let m1 = step_m(d, s, dict, shift_vk, true, false, ov1);
            let m2 = step_m(m1.disp, m1.comp, dict, other_vk, true, false, ov2);
            let m3 = step_m(m2.disp, m2.comp, dict, shift_vk, false, false, ov3);
            m3.disp.passthrough == d.passthrough
        }),
{
}

} // verus!
