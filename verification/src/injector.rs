//! The focus-aware injection planner.
//!
//! Turning a transcription into OS input is the most delicate step of the
//! pipeline: typing into the wrong control renames files or scrolls pages.
//! The planner decides everything about an injection from plain values — the
//! text, the settings, the shortcut table, the foreground window title and
//! the focused element's accessibility properties — and hands back a plan:
//! which key to press for a command, or which text to deliver through which
//! ordered list of strategies, or nothing at all when the safety gate
//! refuses.  The OS layer around the crate merely executes plans in order,
//! falling to the next strategy when one fails.

use vstd::prelude::*;
use vstd::string::StrSliceExecFns;
use vstd::string::StringSliceAdditionalSpecFns;
use crate::shortcuts::ShortcutTable;
use crate::textproc::{
    clone_bytes, collapse_space_bytes, collapse_spaces_seq, contains_bytes, contains_seq, eq_bytes,
    is_punct, is_space, lemma_lower_push, lemma_strip_push_punct, lemma_trim_push_nonspace,
    lemma_trim_push_space, lower_byte, lower_bytes, lower_seq, punct_to_space_bytes,
    punct_to_space_seq, strip_punct_bytes, strip_punct_seq, trim_bytes, trim_seq,
};

verus! {

/// The class of application owning the foreground window.
#[derive(Debug, PartialEq, Eq, Structural, Clone, Copy)]
pub enum WindowContext {
    /// A code editor whose widgets take keystrokes reliably.
    Editor,
    /// A canvas-drawn web editor that exposes no standard accessibility.
    Canvas,
    /// A web browser.
    Browser,
    /// Anything else.
    NativeApp,
}

/// The control kind the focused element reports.
#[derive(Debug, PartialEq, Eq, Structural, Clone, Copy)]
pub enum ControlKind {
    /// A plain text input.
    Edit,
    /// A document, possibly an editable one.
    Document,
    Button,
    Pane,
    Group,
    Other,
}

/// What the accessibility tree reports about the focused element.
#[derive(Debug)]
pub struct FocusTarget {
    pub keyboard_focusable: bool,
    pub kind: ControlKind,
    /// The element exposes a writable value facet.
    pub writable_value: bool,
    pub name: Vec<u8>,
}

/// A key pressed for a control token.
#[derive(Debug, PartialEq, Eq, Structural, Clone, Copy)]
pub enum ControlKey {
    Backspace,
    Delete,
    Enter,
}

/// One way of delivering text to the focused control.
#[derive(Debug, PartialEq, Eq, Structural, Clone, Copy)]
pub enum Strategy {
    /// Read the value facet, append, write back.
    AccessibilityAppend,
    /// Synthesize one key-down and key-up per UTF-16 code unit.
    UnicodeKeys,
    /// Put the text on the clipboard and synthesize the paste chord.
    ClipboardPaste,
}

/// What the OS layer is to do.
#[derive(Debug)]
pub enum InjectionAction {
    /// No OS input at all.
    Nothing,
    /// Press one control key.
    Press(ControlKey),
    /// Select to line start and delete the selection.
    DeleteLine,
    /// Deliver `text` by the strategies in order, stopping at the first
    /// that succeeds.
    Type { text: Vec<u8>, strategies: Vec<Strategy> },
}

/// Model of an action, with the text as a byte sequence.
#[verifier::ext_equal]
pub enum ActionModel {
    Nothing,
    Press(ControlKey),
    DeleteLine,
    Type { text: Seq<u8>, strategies: Seq<Strategy> },
}

impl View for InjectionAction {
    type V = ActionModel;

    open spec fn view(&self) -> ActionModel {
        match self {
            InjectionAction::Nothing => ActionModel::Nothing,
            InjectionAction::Press(k) => ActionModel::Press(*k),
            InjectionAction::DeleteLine => ActionModel::DeleteLine,
            InjectionAction::Type { text, strategies } => ActionModel::Type {
                text: text@,
                strategies: strategies@,
            },
        }
    }
}

/// The whole outcome of planning one injection: the cleaned text that
/// observers display, and the action to perform.
#[derive(Debug)]
pub struct InjectionPlan {
    pub cleaned: Vec<u8>,
    pub action: InjectionAction,
}

/// Titles owned by editor applications, matched case-sensitively.
pub open spec fn is_editor_title(title: Seq<u8>) -> bool {
    contains_seq(title, "Visual Studio Code".spec_bytes()) || contains_seq(
        title,
        "Antigravity".spec_bytes(),
    )
}

/// Titles of canvas-drawn web editors, matched on the lowercased title.
pub open spec fn is_canvas_title(title: Seq<u8>) -> bool {
    let l = lower_seq(title);
    contains_seq(l, "google docs".spec_bytes()) || contains_seq(l, "google sheets".spec_bytes())
        || contains_seq(l, "google slides".spec_bytes())
}

/// Titles of web browsers, matched on the lowercased title.
pub open spec fn is_browser_title(title: Seq<u8>) -> bool {
    let l = lower_seq(title);
    contains_seq(l, "- google chrome".spec_bytes()) || contains_seq(
        l,
        "- microsoft edge".spec_bytes(),
    ) || contains_seq(l, "- mozilla firefox".spec_bytes()) || contains_seq(
        l,
        "- firefox".spec_bytes(),
    ) || contains_seq(l, "- opera".spec_bytes()) || contains_seq(l, "- brave".spec_bytes())
        || contains_seq(l, "- vivaldi".spec_bytes()) || contains_seq(l, "- arc".spec_bytes())
}

/// The context of a foreground window title.
pub open spec fn classify_spec(title: Seq<u8>) -> WindowContext {
    if is_editor_title(title) {
        WindowContext::Editor
    } else if is_canvas_title(title) {
        WindowContext::Canvas
    } else if is_browser_title(title) {
        WindowContext::Browser
    } else {
        WindowContext::NativeApp
    }
}

/// Classify the foreground window by its title.
pub fn classify_window_title(title: &Vec<u8>) -> (c: WindowContext)
    ensures
        c == classify_spec(title@),
{
    if contains_bytes(title, &"Visual Studio Code".as_bytes_vec()) || contains_bytes(
        title,
        &"Antigravity".as_bytes_vec(),
    ) {
        return WindowContext::Editor;
    }
    let l: Vec<u8> = lower_bytes(title);
    if contains_bytes(&l, &"google docs".as_bytes_vec()) || contains_bytes(
        &l,
        &"google sheets".as_bytes_vec(),
    ) || contains_bytes(&l, &"google slides".as_bytes_vec()) {
        return WindowContext::Canvas;
    }
    if contains_bytes(&l, &"- google chrome".as_bytes_vec()) || contains_bytes(
        &l,
        &"- microsoft edge".as_bytes_vec(),
    ) || contains_bytes(&l, &"- mozilla firefox".as_bytes_vec()) || contains_bytes(
        &l,
        &"- firefox".as_bytes_vec(),
    ) || contains_bytes(&l, &"- opera".as_bytes_vec()) || contains_bytes(
        &l,
        &"- brave".as_bytes_vec(),
    ) || contains_bytes(&l, &"- vivaldi".as_bytes_vec()) || contains_bytes(
        &l,
        &"- arc".as_bytes_vec(),
    ) {
        return WindowContext::Browser;
    }
    WindowContext::NativeApp
}

/// Whether the element's name marks it as a rich text editor.
pub open spec fn editor_like_name(name: Seq<u8>) -> bool {
    let l = lower_seq(name);
    contains_seq(l, "editor".spec_bytes()) || contains_seq(l, "compose".spec_bytes())
        || contains_seq(l, "message body".spec_bytes()) || contains_seq(
        l,
        "rich text".spec_bytes(),
    ) || contains_seq(l, "mail body".spec_bytes()) || contains_seq(l, "editing".spec_bytes())
}

/// The editability gate: the element must be keyboard-focusable and be a
/// plain text input, or a document that both exposes a writable value facet
/// and carries an editor-like name.
pub open spec fn editable_spec(f: FocusTarget) -> bool {
    f.keyboard_focusable && (f.kind is Edit || (f.kind is Document && f.writable_value
        && editor_like_name(f.name@)))
}

/// The editability gate when the focused element may be missing: no element, no typing.
pub open spec fn gate_spec(focus: Option<FocusTarget>) -> bool {
    match focus {
        Some(f) => editable_spec(f),
        None => false,
    }
}

/// Whether the focused element passes the editability gate.
pub fn is_editable_element(focus: &Option<FocusTarget>) -> (r: bool)
    ensures
        r == gate_spec(*focus),
{
    match focus {
        Option::None => false,
        Option::Some(f) => {
            if !f.keyboard_focusable {
                return false;
            }
            match f.kind {
                ControlKind::Edit => true,
                ControlKind::Document => {
                    if !f.writable_value {
                        return false;
                    }
                    let l: Vec<u8> = lower_bytes(&f.name);
                    contains_bytes(&l, &"editor".as_bytes_vec()) || contains_bytes(
                        &l,
                        &"compose".as_bytes_vec(),
                    ) || contains_bytes(&l, &"message body".as_bytes_vec()) || contains_bytes(
                        &l,
                        &"rich text".as_bytes_vec(),
                    ) || contains_bytes(&l, &"mail body".as_bytes_vec()) || contains_bytes(
                        &l,
                        &"editing".as_bytes_vec(),
                    )
                },
                _ => false,
            }
        },
    }
}

/// The text as observers see it: with the trailing auto-space when asked
/// for, and, when punctuation is disabled, punctuation turned to spaces,
/// space runs collapsed and the ends trimmed.
pub open spec fn cleaned_text(text: Seq<u8>, auto_space: bool, disable_punctuation: bool) -> Seq<
    u8,
> {
    let t0 = if auto_space {
        text.push(0x20)
    } else {
        text
    };
    if disable_punctuation {
        trim_seq(collapse_spaces_seq(punct_to_space_seq(t0)))
    } else {
        t0
    }
}

/// The key a phrase is looked up under: trimmed, lowercased, punctuation
/// stripped.
pub open spec fn normalize_key_spec(t: Seq<u8>) -> Seq<u8> {
    strip_punct_seq(lower_seq(trim_seq(t)))
}

/// The strategy order for a context whose editability gate has passed.
pub open spec fn strategies_for(ctx: WindowContext) -> Seq<Strategy> {
    match ctx {
        WindowContext::Editor => seq![Strategy::UnicodeKeys, Strategy::ClipboardPaste],
        WindowContext::Canvas => seq![Strategy::UnicodeKeys, Strategy::ClipboardPaste],
        WindowContext::Browser => seq![Strategy::ClipboardPaste],
        WindowContext::NativeApp => seq![
            Strategy::AccessibilityAppend,
            Strategy::UnicodeKeys,
            Strategy::ClipboardPaste,
        ],
    }
}

/// What typing `t` comes to: nothing for empty text; in an editor or canvas
/// context the context's strategies; in a browser or native context the
/// strategies only when the editability gate passes, and nothing otherwise.
pub open spec fn typed_action(t: Seq<u8>, title: Seq<u8>, focus: Option<FocusTarget>) -> ActionModel {
    if t.len() == 0 {
        ActionModel::Nothing
    } else {
        let ctx = classify_spec(title);
        match ctx {
            WindowContext::Editor => ActionModel::Type {
                text: t,
                strategies: strategies_for(ctx),
            },
            WindowContext::Canvas => ActionModel::Type { text: t, strategies: strategies_for(ctx) },
            WindowContext::Browser => if gate_spec(focus) {
                ActionModel::Type { text: t, strategies: strategies_for(ctx) }
            } else {
                ActionModel::Nothing
            },
            WindowContext::NativeApp => if gate_spec(focus) {
                ActionModel::Type { text: t, strategies: strategies_for(ctx) }
            } else {
                ActionModel::Nothing
            },
        }
    }
}

/// The planner's whole decision.  Commands are resolved first: when they
/// are enabled and the normalized key is in the table, a control token
/// becomes its key press and any other replacement becomes the text to
/// type.  What is left to type then passes context classification and the
/// editability gate.
pub open spec fn action_spec(
    text: Seq<u8>,
    auto_space: bool,
    allow_commands: bool,
    disable_punctuation: bool,
    table: Map<Seq<u8>, Seq<u8>>,
    title: Seq<u8>,
    focus: Option<FocusTarget>,
) -> ActionModel {
    let cleaned = cleaned_text(text, auto_space, disable_punctuation);
    let key = normalize_key_spec(cleaned);
    if allow_commands && table.contains_key(key) {
        let v = table[key];
        if v == "[BACKSPACE]".spec_bytes() {
            ActionModel::Press(ControlKey::Backspace)
        } else if v == "[DELETE]".spec_bytes() {
            ActionModel::Press(ControlKey::Delete)
        } else if v == "[ENTER]".spec_bytes() {
            ActionModel::Press(ControlKey::Enter)
        } else if v == "[DELETE_LINE]".spec_bytes() {
            ActionModel::DeleteLine
        } else {
            typed_action(v, title, focus)
        }
    } else {
        typed_action(cleaned, title, focus)
    }
}

/// The strategy order for a context, as a vector.
fn strategies_vec(ctx: WindowContext) -> (v: Vec<Strategy>)
    ensures
        v@ == strategies_for(ctx),
{
    let mut v: Vec<Strategy> = Vec::new();
    match ctx {
        WindowContext::Editor => {
            v.push(Strategy::UnicodeKeys);
            v.push(Strategy::ClipboardPaste);
        },
        WindowContext::Canvas => {
            v.push(Strategy::UnicodeKeys);
            v.push(Strategy::ClipboardPaste);
        },
        WindowContext::Browser => {
            v.push(Strategy::ClipboardPaste);
        },
        WindowContext::NativeApp => {
            v.push(Strategy::AccessibilityAppend);
            v.push(Strategy::UnicodeKeys);
            v.push(Strategy::ClipboardPaste);
        },
    }
    proof {
        assert(v@ =~= strategies_for(ctx));
    }
    v
}

/// The typing part of a plan.
fn type_action(t: Vec<u8>, title: &Vec<u8>, focus: &Option<FocusTarget>) -> (a: InjectionAction)
    ensures
        a@ == typed_action(t@, title@, *focus),
{
    if t.len() == 0 {
        return InjectionAction::Nothing;
    }
    let ctx: WindowContext = classify_window_title(title);
    match ctx {
        WindowContext::Editor => InjectionAction::Type {
            text: t,
            strategies: strategies_vec(ctx),
        },
        WindowContext::Canvas => InjectionAction::Type {
            text: t,
            strategies: strategies_vec(ctx),
        },
        _ => {
            if is_editable_element(focus) {
                InjectionAction::Type { text: t, strategies: strategies_vec(ctx) }
            } else {
                InjectionAction::Nothing
            }
        },
    }
}

/// Plan one injection from the text and the whole visible state: settings,
/// shortcut table, foreground window title and focused element.  The plan's
/// `cleaned` text is what observers display; its action is what the OS
/// layer performs.
pub fn plan_injection(
    text: &Vec<u8>,
    auto_space: bool,
    allow_commands: bool,
    disable_punctuation: bool,
    shortcuts: &ShortcutTable,
    title: &Vec<u8>,
    focus: &Option<FocusTarget>,
) -> (p: InjectionPlan)
    requires
        shortcuts.wf(),
    ensures
        p.cleaned@ == cleaned_text(text@, auto_space, disable_punctuation),
        p.action@ == action_spec(
            text@,
            auto_space,
            allow_commands,
            disable_punctuation,
            shortcuts@,
            title@,
            *focus,
        ),
{
    let mut spaced: Vec<u8> = clone_bytes(text);
    if auto_space {
        spaced.push(0x20);
    }
    let cleaned: Vec<u8> = if disable_punctuation {
        let replaced: Vec<u8> = punct_to_space_bytes(&spaced);
        let collapsed: Vec<u8> = collapse_space_bytes(&replaced);
        trim_bytes(&collapsed)
    } else {
        spaced
    };

    if allow_commands {
        let trimmed: Vec<u8> = trim_bytes(&cleaned);
        let lowered: Vec<u8> = lower_bytes(&trimmed);
        let key: Vec<u8> = strip_punct_bytes(&lowered);
        match shortcuts.get(&key) {
            Option::Some(replacement) => {
                if eq_bytes(replacement, &"[BACKSPACE]".as_bytes_vec()) {
                    return InjectionPlan {
                        cleaned,
                        action: InjectionAction::Press(ControlKey::Backspace),
                    };
                }
                if eq_bytes(replacement, &"[DELETE]".as_bytes_vec()) {
                    return InjectionPlan {
                        cleaned,
                        action: InjectionAction::Press(ControlKey::Delete),
                    };
                }
                if eq_bytes(replacement, &"[ENTER]".as_bytes_vec()) {
                    return InjectionPlan {
                        cleaned,
                        action: InjectionAction::Press(ControlKey::Enter),
                    };
                }
                if eq_bytes(replacement, &"[DELETE_LINE]".as_bytes_vec()) {
                    return InjectionPlan { cleaned, action: InjectionAction::DeleteLine };
                }
                let replacement_text: Vec<u8> = clone_bytes(replacement);
                let action: InjectionAction = type_action(replacement_text, title, focus);
                return InjectionPlan { cleaned, action };
            },
            Option::None => {},
        }
    }
    let to_type: Vec<u8> = clone_bytes(&cleaned);
    let action: InjectionAction = type_action(to_type, title, focus);
    InjectionPlan { cleaned, action }
}

/// How many UTF-16 code units one UTF-8 byte contributes: one per
/// non-continuation byte, and one more for each four-byte lead.
pub open spec fn utf16_weight(b: u8) -> int {
    if b < 0x80 {
        1
    } else if b < 0xC0 {
        0
    } else if b < 0xF0 {
        1
    } else {
        2
    }
}

/// The UTF-16 length of a UTF-8 byte string.
pub open spec fn utf16_units(s: Seq<u8>) -> int
    decreases s.len(),
{
    if s.len() == 0 {
        0
    } else {
        utf16_units(s.drop_last()) + utf16_weight(s.last())
    }
}

/// Count the UTF-16 code units of a UTF-8 byte string; the unicode
/// keystroke strategy synthesizes one key-down and one key-up per unit.
pub fn utf16_unit_count(text: &Vec<u8>) -> (n: usize)
    requires
        text@.len() <= usize::MAX / 2,
    ensures
        n == utf16_units(text@),
{
    let len: usize = text.len();
    let mut n: usize = 0;
    let mut i: usize = 0;
    while i < len
        invariant
            len == text@.len(),
            len <= usize::MAX / 2,
            i <= len,
            n == utf16_units(text@.take(i as int)),
            n <= 2 * i,
        decreases len - i,
    {
        proof {
            assert(text@.take(i + 1).drop_last() =~= text@.take(i as int));
            assert(text@.take(i + 1).last() == text@[i as int]);
        }
        let b: u8 = text[i];
        if b < 0x80 {
            n = n + 1;
        } else if b < 0xC0 {
        } else if b < 0xF0 {
            n = n + 1;
        } else {
            n = n + 2;
        }
        i = i + 1;
    }
    proof {
        assert(text@.take(len as int) =~= text@);
    }
    n
}

/// The safety gate: in a browser or native context whose focused element is
/// not editable, the plan never types — whatever the text, the settings and
/// the table, the action is a command key press or nothing at all.
pub proof fn lemma_safety_gate(
    text: Seq<u8>,
    auto_space: bool,
    allow_commands: bool,
    disable_punctuation: bool,
    table: Map<Seq<u8>, Seq<u8>>,
    title: Seq<u8>,
    focus: Option<FocusTarget>,
)
    requires
        classify_spec(title) is Browser || classify_spec(title) is NativeApp,
        !gate_spec(focus),
    ensures
        !(action_spec(
            text,
            auto_space,
            allow_commands,
            disable_punctuation,
            table,
            title,
            focus,
        ) is Type),
{
}

/// Trailing punctuation does not change the command key: the normalized key
/// of trimmed text with one punctuation byte appended is the key of the
/// text itself.
pub proof fn lemma_key_punct_insensitive(t: Seq<u8>, p: u8)
    requires
        is_punct(p),
        trim_seq(t) == t,
    ensures
        normalize_key_spec(t.push(p)) == normalize_key_spec(t),
{
    assert(!is_space(p));
    lemma_trim_push_nonspace(t, p);
    lemma_lower_push(t, p);
    assert(lower_byte(p) == p);
    lemma_strip_push_punct(lower_seq(t), p);
}

/// Command idempotence: with commands enabled, punctuation kept, trimmed
/// text whose key the table holds, appending one punctuation byte to the
/// text leaves the planned action unchanged.
pub proof fn lemma_command_punct_equivalent(
    t: Seq<u8>,
    p: u8,
    auto_space: bool,
    table: Map<Seq<u8>, Seq<u8>>,
    title: Seq<u8>,
    focus: Option<FocusTarget>,
)
    requires
        is_punct(p),
        trim_seq(t) == t,
        table.contains_key(normalize_key_spec(cleaned_text(t, auto_space, false))),
    ensures
        action_spec(t.push(p), auto_space, true, false, table, title, focus) == action_spec(
            t,
            auto_space,
            true,
            false,
            table,
            title,
            focus,
        ),
{
    if auto_space {
        lemma_trim_push_space(t);
        assert(!is_space(p));
        lemma_trim_push_nonspace(t, p);
        lemma_trim_push_space(t.push(p));
        assert(trim_seq(t.push(p).push(0x20)) == t.push(p));
        assert(trim_seq(t.push(0x20)) == t);
        lemma_lower_push(t, p);
        lemma_strip_push_punct(lower_seq(t), p);
        assert(normalize_key_spec(cleaned_text(t.push(p), true, false)) == normalize_key_spec(
            cleaned_text(t, true, false),
        ));
    } else {
        lemma_key_punct_insensitive(t, p);
    }
}

} // verus!
