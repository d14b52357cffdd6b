//! The output window node: its settings, the changes that bring a window from one set of
//! settings to another, and what its executor does about the window from one run to the next.

use vstd::prelude::*;
use vstd::string::StrSliceExecFns;

use super::behaviour::{append_decimal, decimal, NodeCommand, NodeEvent};
use super::{ChannelDirection, NodeConfiguration};

verus! {

/// How a window fills a screen: exclusively, in a video mode, or borderless, on a monitor
/// (the current one where `None`); modes and monitors are named by ids of the windowing
/// system.
#[derive(Clone, Copy, Debug, PartialEq, Eq, Structural)]
pub enum Fullscreen {
    Exclusive(u64),
    Borderless(Option<u64>),
}

/// The settings of an output window.
#[derive(Debug)]
pub struct WindowSettings {
    pub title: String,
    /// Width and height, in physical pixels.
    pub inner_size: (u32, u32),
    pub fullscreen: Option<Fullscreen>,
    pub always_on_top: bool,
    pub cursor_grab: bool,
    pub cursor_visible: bool,
    pub decorations: bool,
    pub maximized: bool,
    pub minimized: bool,
    pub resizable: bool,
    pub visible: bool,
}

impl Default for WindowSettings {
    fn default() -> (r: Self)
        ensures
            r.title@ == "DVSynth Output Window"@,
            r.inner_size == (800u32, 450u32),
            r.fullscreen is None,
            !r.always_on_top,
            !r.cursor_grab,
            r.cursor_visible,
            r.decorations,
            !r.maximized,
            !r.minimized,
            r.resizable,
            r.visible,
    {
        WindowSettings {
            title: "DVSynth Output Window".to_string(),
            inner_size: (800, 450),
            fullscreen: None,
            always_on_top: false,
            cursor_grab: false,
            cursor_visible: true,
            decorations: true,
            maximized: false,
            minimized: false,
            resizable: true,
            visible: true,
        }
    }
}

impl Clone for WindowSettings {
    fn clone(&self) -> (r: Self)
        ensures
            r == *self,
    {
        WindowSettings {
            title: self.title.clone(),
            inner_size: self.inner_size,
            fullscreen: self.fullscreen,
            always_on_top: self.always_on_top,
            cursor_grab: self.cursor_grab,
            cursor_visible: self.cursor_visible,
            decorations: self.decorations,
            maximized: self.maximized,
            minimized: self.minimized,
            resizable: self.resizable,
            visible: self.visible,
        }
    }
}

/// One setting of a window to change, with its new value; a new title is read from the new
/// settings.
#[derive(Clone, Copy, Debug, PartialEq, Eq, Structural)]
pub enum WindowChange {
    Title,
    InnerSize(u32, u32),
    Fullscreen(Option<Fullscreen>),
    AlwaysOnTop(bool),
    CursorGrab(bool),
    CursorVisible(bool),
    Decorations(bool),
    Maximized(bool),
    Minimized(bool),
    Resizable(bool),
    Visible(bool),
}

/// `x`, or 1 where `x` is 0: a window is at least one pixel wide and high.
pub open spec fn at_least_one(x: u32) -> u32 {
    if x < 1 {
        1
    } else {
        x
    }
}

/// `change` where `changed` holds, else nothing.
pub open spec fn change_if(changed: bool, change: WindowChange) -> Seq<WindowChange> {
    if changed {
        seq![change]
    } else {
        Seq::empty()
    }
}

/// The changes that bring a window from the settings `old` to `new`, in the order in which
/// they are made: one for each setting that differs.
pub open spec fn differences(old: WindowSettings, new: WindowSettings) -> Seq<WindowChange> {
    change_if(old.title@ != new.title@, WindowChange::Title)
        + change_if(
        old.inner_size != new.inner_size,
        WindowChange::InnerSize(at_least_one(new.inner_size.0), at_least_one(new.inner_size.1)),
    ) + change_if(old.fullscreen != new.fullscreen, WindowChange::Fullscreen(new.fullscreen))
        + change_if(old.always_on_top != new.always_on_top, WindowChange::AlwaysOnTop(new.always_on_top))
        + change_if(old.cursor_grab != new.cursor_grab, WindowChange::CursorGrab(new.cursor_grab))
        + change_if(old.cursor_visible != new.cursor_visible, WindowChange::CursorVisible(new.cursor_visible))
        + change_if(old.decorations != new.decorations, WindowChange::Decorations(new.decorations))
        + change_if(old.maximized != new.maximized, WindowChange::Maximized(new.maximized))
        + change_if(old.minimized != new.minimized, WindowChange::Minimized(new.minimized))
        + change_if(old.resizable != new.resizable, WindowChange::Resizable(new.resizable))
        + change_if(old.visible != new.visible, WindowChange::Visible(new.visible))
}

/// Settings bring a window to themselves with no change: once a window has taken on new
/// settings, taking them on again changes nothing.
pub proof fn lemma_no_differences_to_itself(settings: WindowSettings)
    ensures
        differences(settings, settings) == Seq::<WindowChange>::empty(),
{
    assert(differences(settings, settings) =~= Seq::<WindowChange>::empty());
}

/// `change` is the change of a setting that differs between `old` and `new`, carrying the
/// new value of that setting (for the size, each side at least one pixel).
pub open spec fn reports_difference(old: WindowSettings, new: WindowSettings, change: WindowChange) -> bool {
    match change {
        WindowChange::Title => old.title@ != new.title@,
        WindowChange::InnerSize(w, h) => old.inner_size != new.inner_size && w == at_least_one(
            new.inner_size.0,
        ) && h == at_least_one(new.inner_size.1),
        WindowChange::Fullscreen(f) => old.fullscreen != new.fullscreen && f == new.fullscreen,
        WindowChange::AlwaysOnTop(b) => old.always_on_top != new.always_on_top && b == new.always_on_top,
        WindowChange::CursorGrab(b) => old.cursor_grab != new.cursor_grab && b == new.cursor_grab,
        WindowChange::CursorVisible(b) => old.cursor_visible != new.cursor_visible && b == new.cursor_visible,
        WindowChange::Decorations(b) => old.decorations != new.decorations && b == new.decorations,
        WindowChange::Maximized(b) => old.maximized != new.maximized && b == new.maximized,
        WindowChange::Minimized(b) => old.minimized != new.minimized && b == new.minimized,
        WindowChange::Resizable(b) => old.resizable != new.resizable && b == new.resizable,
        WindowChange::Visible(b) => old.visible != new.visible && b == new.visible,
    }
}

/// A list joined from two holds what either part holds.
proof fn lemma_changes_concat(a: Seq<WindowChange>, b: Seq<WindowChange>, x: WindowChange)
    ensures
        (a + b).contains(x) <==> a.contains(x) || b.contains(x),
{
    if (a + b).contains(x) {
        let i = choose|i: int| 0 <= i < (a + b).len() && (a + b)[i] == x;
        if i < a.len() {
            assert(a[i] == x);
        } else {
            assert(b[i - a.len()] == x);
        }
    }
    if a.contains(x) {
        let i = choose|i: int| 0 <= i < a.len() && a[i] == x;
        assert((a + b)[i] == x);
    }
    if b.contains(x) {
        let i = choose|i: int| 0 <= i < b.len() && b[i] == x;
        assert((a + b)[a.len() + i] == x);
    }
}

/// The changes for the `k`-th setting, in the order of `differences`: its change, made where
/// `old` and `new` differ in it.
pub open spec fn setting_change(old: WindowSettings, new: WindowSettings, k: int) -> Seq<WindowChange> {
    if k == 0 {
        change_if(old.title@ != new.title@, WindowChange::Title)
    } else if k == 1 {
        change_if(
            old.inner_size != new.inner_size,
            WindowChange::InnerSize(at_least_one(new.inner_size.0), at_least_one(new.inner_size.1)),
        )
    } else if k == 2 {
        change_if(old.fullscreen != new.fullscreen, WindowChange::Fullscreen(new.fullscreen))
    } else if k == 3 {
        change_if(old.always_on_top != new.always_on_top, WindowChange::AlwaysOnTop(new.always_on_top))
    } else if k == 4 {
        change_if(old.cursor_grab != new.cursor_grab, WindowChange::CursorGrab(new.cursor_grab))
    } else if k == 5 {
        change_if(old.cursor_visible != new.cursor_visible, WindowChange::CursorVisible(new.cursor_visible))
    } else if k == 6 {
        change_if(old.decorations != new.decorations, WindowChange::Decorations(new.decorations))
    } else if k == 7 {
        change_if(old.maximized != new.maximized, WindowChange::Maximized(new.maximized))
    } else if k == 8 {
        change_if(old.minimized != new.minimized, WindowChange::Minimized(new.minimized))
    } else if k == 9 {
        change_if(old.resizable != new.resizable, WindowChange::Resizable(new.resizable))
    } else {
        change_if(old.visible != new.visible, WindowChange::Visible(new.visible))
    }
}

/// The changes for the first `n` settings, in order.
pub open spec fn first_changes(old: WindowSettings, new: WindowSettings, n: nat) -> Seq<WindowChange>
    decreases n,
{
    if n == 0 {
        Seq::empty()
    } else {
        first_changes(old, new, (n - 1) as nat) + setting_change(old, new, n - 1)
    }
}

/// The first `n` settings report `x` exactly when one of them does.
proof fn lemma_first_changes_contains(old: WindowSettings, new: WindowSettings, n: nat, x: WindowChange)
    ensures
        first_changes(old, new, n).contains(x) <==> exists|k: int| 0 <= k < n && #[trigger] setting_change(old, new, k).contains(x),
    decreases n,
{
    if n > 0 {
        lemma_first_changes_contains(old, new, (n - 1) as nat, x);
        lemma_changes_concat(first_changes(old, new, (n - 1) as nat), setting_change(old, new, n - 1), x);
        if exists|k: int| 0 <= k < n && #[trigger] setting_change(old, new, k).contains(x) {
            let k = choose|k: int| 0 <= k < n && #[trigger] setting_change(old, new, k).contains(x);
            if k < n - 1 {
                assert(exists|j: int| 0 <= j < n - 1 && #[trigger] setting_change(old, new, j).contains(x));
            }
        }
    } else {
        assert(first_changes(old, new, n) =~= Seq::<WindowChange>::empty());
    }
}

/// The changes between two settings are those of the eleven settings, in order.
proof fn lemma_differences_by_setting(old: WindowSettings, new: WindowSettings)
    ensures
        differences(old, new) == first_changes(old, new, 11),
{
    assert(first_changes(old, new, 0) == Seq::<WindowChange>::empty());
    assert(first_changes(old, new, 1) == first_changes(old, new, 0) + setting_change(old, new, 0));
    assert(first_changes(old, new, 2) == first_changes(old, new, 1) + setting_change(old, new, 1));
    assert(first_changes(old, new, 3) == first_changes(old, new, 2) + setting_change(old, new, 2));
    assert(first_changes(old, new, 4) == first_changes(old, new, 3) + setting_change(old, new, 3));
    assert(first_changes(old, new, 5) == first_changes(old, new, 4) + setting_change(old, new, 4));
    assert(first_changes(old, new, 6) == first_changes(old, new, 5) + setting_change(old, new, 5));
    assert(first_changes(old, new, 7) == first_changes(old, new, 6) + setting_change(old, new, 6));
    assert(first_changes(old, new, 8) == first_changes(old, new, 7) + setting_change(old, new, 7));
    assert(first_changes(old, new, 9) == first_changes(old, new, 8) + setting_change(old, new, 8));
    assert(first_changes(old, new, 10) == first_changes(old, new, 9) + setting_change(old, new, 9));
    assert(first_changes(old, new, 11) == first_changes(old, new, 10) + setting_change(old, new, 10));
    assert(Seq::<WindowChange>::empty() + setting_change(old, new, 0) =~= setting_change(old, new, 0));
    assert(differences(old, new) =~= first_changes(old, new, 11));
}

/// The change reported for a setting is that of a differing setting, with its new value.
proof fn lemma_setting_change_reports(old: WindowSettings, new: WindowSettings, k: int, x: WindowChange)
    requires
        0 <= k < 11,
        setting_change(old, new, k).contains(x),
    ensures
        reports_difference(old, new, x),
{
    assert(setting_change(old, new, k)[0] == x);
}

/// The index of the setting whose change `x` is.
pub open spec fn setting_of(x: WindowChange) -> int {
    match x {
        WindowChange::Title => 0,
        WindowChange::InnerSize(..) => 1,
        WindowChange::Fullscreen(..) => 2,
        WindowChange::AlwaysOnTop(..) => 3,
        WindowChange::CursorGrab(..) => 4,
        WindowChange::CursorVisible(..) => 5,
        WindowChange::Decorations(..) => 6,
        WindowChange::Maximized(..) => 7,
        WindowChange::Minimized(..) => 8,
        WindowChange::Resizable(..) => 9,
        WindowChange::Visible(..) => 10,
    }
}

/// A change that reports a difference is the one its setting makes.
proof fn lemma_reported_change_made(old: WindowSettings, new: WindowSettings, x: WindowChange)
    requires
        reports_difference(old, new, x),
    ensures
        0 <= setting_of(x) < 11,
        setting_change(old, new, setting_of(x)).contains(x),
{
    assert(setting_change(old, new, setting_of(x)) == seq![x]);
    assert(seq![x][0] == x);
}

/// Applying new settings reports every setting that differs and nothing else: the changes
/// hold a change exactly when it is that of a setting in which `old` and `new` differ, with
/// the new value of that setting.
pub proof fn lemma_differences_report_each_setting(old: WindowSettings, new: WindowSettings, x: WindowChange)
    ensures
        differences(old, new).contains(x) <==> reports_difference(old, new, x),
{
    lemma_differences_by_setting(old, new);
    lemma_first_changes_contains(old, new, 11, x);
    if differences(old, new).contains(x) {
        let k = choose|k: int| 0 <= k < 11 && #[trigger] setting_change(old, new, k).contains(x);
        lemma_setting_change_reports(old, new, k, x);
    }
    if reports_difference(old, new, x) {
        lemma_reported_change_made(old, new, x);
    }
}

impl WindowSettings {
    /// The size a window is built with: `inner_size`, each side at least one pixel.
    pub fn builder_size(&self) -> (r: (u32, u32))
        ensures
            r == (at_least_one(self.inner_size.0), at_least_one(self.inner_size.1)),
    {
        (max_one(self.inner_size.0), max_one(self.inner_size.1))
    }

    /// Takes on the settings `new`, and tells which of them changed: the changes that bring a
    /// window with the previous settings to the new ones.
    pub fn apply_difference(&mut self, new: &WindowSettings) -> (r: Vec<WindowChange>)
        ensures
            r@ == differences(*old(self), *new),
            *final(self) == *new,
    {
        let ghost before = *self;
        let mut changes: Vec<WindowChange> = Vec::new();
        push_if(&mut changes, self.title != new.title, WindowChange::Title);
        push_if(
            &mut changes,
            self.inner_size.0 != new.inner_size.0 || self.inner_size.1 != new.inner_size.1,
            WindowChange::InnerSize(max_one(new.inner_size.0), max_one(new.inner_size.1)),
        );
        push_if(&mut changes, self.fullscreen != new.fullscreen, WindowChange::Fullscreen(new.fullscreen));
        push_if(
            &mut changes,
            self.always_on_top != new.always_on_top,
            WindowChange::AlwaysOnTop(new.always_on_top),
        );
        push_if(&mut changes, self.cursor_grab != new.cursor_grab, WindowChange::CursorGrab(new.cursor_grab));
        push_if(
            &mut changes,
            self.cursor_visible != new.cursor_visible,
            WindowChange::CursorVisible(new.cursor_visible),
        );
        push_if(&mut changes, self.decorations != new.decorations, WindowChange::Decorations(new.decorations));
        push_if(&mut changes, self.maximized != new.maximized, WindowChange::Maximized(new.maximized));
        push_if(&mut changes, self.minimized != new.minimized, WindowChange::Minimized(new.minimized));
        push_if(&mut changes, self.resizable != new.resizable, WindowChange::Resizable(new.resizable));
        push_if(&mut changes, self.visible != new.visible, WindowChange::Visible(new.visible));
        assert(changes@ =~= differences(before, *new));
        *self = new.clone();
        changes
    }
}

/// `x`, or 1 where `x` is 0.
fn max_one(x: u32) -> (r: u32)
    ensures
        r == at_least_one(x),
{
    if x < 1 {
        1
    } else {
        x
    }
}

/// Appends `change` to `changes` where `changed` holds.
fn push_if(changes: &mut Vec<WindowChange>, changed: bool, change: WindowChange)
    ensures
        final(changes)@ == old(changes)@ + change_if(changed, change),
{
    if changed {
        changes.push(change);
    }
    assert(changes@ =~= old(changes)@ + change_if(changed, change));
}

/// The value of a string of decimal digits, most significant first.
pub open spec fn digits_value(s: Seq<char>) -> nat
    decreases s.len(),
{
    if s.len() == 0 {
        0
    } else {
        (digits_value(s.drop_last()) * 10 + (s.last() as int - '0' as int)) as nat
    }
}

/// Every character of `s` is a decimal digit.
pub open spec fn all_digits(s: Seq<char>) -> bool {
    forall|i: int| 0 <= i < s.len() ==> '0' <= #[trigger] s[i] <= '9'
}

/// What `s` reads as an unsigned 32-bit number: an optional `+` and then one or more decimal
/// digits, of a value that fits; `None` for anything else.
pub open spec fn parsed_u32(s: Seq<char>) -> Option<u32> {
    let digits = if s.len() > 0 && s[0] == '+' {
        s.drop_first()
    } else {
        s
    };
    if digits.len() > 0 && all_digits(digits) && digits_value(digits) <= u32::MAX {
        Some(digits_value(digits) as u32)
    } else {
        None
    }
}

/// Extending a string of digits by one more digit at most multiplies its value by ten and adds
/// the digit; so the value of a string of digits is at least that of each of its prefixes.
proof fn lemma_digits_prefix(t: Seq<char>, j: int)
    requires
        all_digits(t),
        0 <= j <= t.len(),
    ensures
        digits_value(t.subrange(0, j)) <= digits_value(t),
    decreases t.len(),
{
    if j < t.len() {
        let rest = t.drop_last();
        assert(all_digits(rest)) by {
            assert forall|i: int| 0 <= i < rest.len() implies '0' <= #[trigger] rest[i] <= '9' by {
                assert(rest[i] == t[i]);
            }
        }
        lemma_digits_prefix(rest, j);
        assert(rest.subrange(0, j) =~= t.subrange(0, j));
        assert('0' <= t[t.len() - 1]);
    } else {
        assert(t.subrange(0, j) =~= t);
    }
}

/// The number that `s` spells: an optional `+` and then one or more decimal digits, of a
/// value that fits in a `u32`; `None` for anything else, as `str::parse::<u32>` reads it.
fn parse_u32(s: &str) -> (r: Option<u32>)
    ensures
        r == parsed_u32(s@),
{
    let len = s.unicode_len();
    let mut start: usize = 0;
    if len > 0 && s.get_char(0) == '+' {
        start = 1;
    }
    let ghost digits = if s@.len() > 0 && s@[0] == '+' {
        s@.drop_first()
    } else {
        s@
    };
    assert(digits =~= s@.subrange(start as int, len as int));
    if start >= len {
        return None;
    }
    let mut value: u64 = 0;
    let mut i: usize = start;
    while i < len
        invariant
            start <= i <= len,
            len == s@.len(),
            digits == s@.subrange(start as int, len as int),
            digits == (if s@.len() > 0 && s@[0] == '+' {
                s@.drop_first()
            } else {
                s@
            }),
            all_digits(s@.subrange(start as int, i as int)),
            value == digits_value(s@.subrange(start as int, i as int)),
            value <= u32::MAX,
        decreases len - i,
    {
        let c = s.get_char(i);
        let ghost prefix = s@.subrange(start as int, i + 1);
        assert(prefix.drop_last() =~= s@.subrange(start as int, i as int));
        assert(digits[i - start] == c);
        if c < '0' || c > '9' {
            return None;
        }
        let d: u64 = (c as u32 - '0' as u32) as u64;
        let next: u64 = value * 10 + d;
        assert(next == digits_value(prefix));
        if next > u32::MAX as u64 {
            proof {
                if all_digits(digits) {
                    lemma_digits_prefix(digits, i + 1 - start);
                    assert(digits.subrange(0, i + 1 - start) =~= prefix);
                }
            }
            return None;
        }
        assert(all_digits(prefix)) by {
            assert forall|k: int| 0 <= k < prefix.len() implies '0' <= #[trigger] prefix[k] <= '9' by {
                if k < prefix.len() - 1 {
                    assert(prefix[k] == s@.subrange(start as int, i as int)[k]);
                }
            }
        }
        value = next;
        i = i + 1;
    }
    Some(value as u32)
}

/// The decimal digits of `n`.
fn decimal_string(n: u32) -> (r: String)
    ensures
        r@ == decimal(n as nat),
{
    let mut s = String::new();
    append_decimal(&mut s, n as usize);
    assert(s@ =~= decimal(n as nat));
    s
}

/// A change made to a window node from its user interface.
#[derive(Debug, Clone)]
pub enum WindowMessage {
    SetTitle(String),
    /// The text typed as the width; the width changes where it reads as a number.
    SetWidth(String),
    /// The text typed as the height; the height changes where it reads as a number.
    SetHeight(String),
    SetAlwaysOnTop(bool),
    SetCursorGrab(bool),
    SetCursorVisible(bool),
    SetDecorations(bool),
    SetMaximized(bool),
    SetMinimized(bool),
    SetResizable(bool),
    SetVisible(bool),
}

/// A node that shows its input in a window of its own.
#[derive(Debug, Clone)]
pub struct WindowNodeBehaviour {
    pub settings: WindowSettings,
    /// The text in the width field, which need not read as a number.
    pub width_string: String,
    /// The text in the height field, which need not read as a number.
    pub height_string: String,
}

/// `after` is `before` with the message `m` applied.
pub open spec fn applies(before: WindowNodeBehaviour, after: WindowNodeBehaviour, m: WindowMessage) -> bool {
    let (b, a) = (before.settings, after.settings);
    match m {
        WindowMessage::SetWidth(text) => {
            &&& a.inner_size.0 == (if let Some(w) = parsed_u32(text@) { w } else { b.inner_size.0 })
            &&& a.inner_size.1 == b.inner_size.1
            &&& a.title == b.title
            &&& after.width_string == text
            &&& after.height_string == before.height_string
            &&& keeps_flags(b, a)
        },
        WindowMessage::SetHeight(text) => {
            &&& a.inner_size.1 == (if let Some(h) = parsed_u32(text@) { h } else { b.inner_size.1 })
            &&& a.inner_size.0 == b.inner_size.0
            &&& a.title == b.title
            &&& after.height_string == text
            &&& after.width_string == before.width_string
            &&& keeps_flags(b, a)
        },
        _ => {
            &&& after.width_string == before.width_string
            &&& after.height_string == before.height_string
            &&& a == (match m {
                WindowMessage::SetTitle(t) => WindowSettings { title: t, ..b },
                WindowMessage::SetAlwaysOnTop(v) => WindowSettings { always_on_top: v, ..b },
                WindowMessage::SetCursorGrab(v) => WindowSettings { cursor_grab: v, ..b },
                WindowMessage::SetCursorVisible(v) => WindowSettings { cursor_visible: v, ..b },
                WindowMessage::SetDecorations(v) => WindowSettings { decorations: v, ..b },
                WindowMessage::SetMaximized(v) => WindowSettings { maximized: v, ..b },
                WindowMessage::SetMinimized(v) => WindowSettings { minimized: v, ..b },
                WindowMessage::SetResizable(v) => WindowSettings { resizable: v, ..b },
                WindowMessage::SetVisible(v) => WindowSettings { visible: v, ..b },
                _ => b,
            })
        },
    }
}

/// The settings other than title and size are the same.
pub open spec fn keeps_flags(b: WindowSettings, a: WindowSettings) -> bool {
    &&& a.fullscreen == b.fullscreen
    &&& a.always_on_top == b.always_on_top
    &&& a.cursor_grab == b.cursor_grab
    &&& a.cursor_visible == b.cursor_visible
    &&& a.decorations == b.decorations
    &&& a.maximized == b.maximized
    &&& a.minimized == b.minimized
    &&& a.resizable == b.resizable
    &&& a.visible == b.visible
}

impl WindowNodeBehaviour {
    /// A window node with the default settings, its size fields showing the default size.
    pub fn default() -> (r: Self)
        ensures
            r.settings.title@ == "DVSynth Output Window"@,
            r.settings.inner_size == (800u32, 450u32),
            r.settings.fullscreen is None,
            !r.settings.always_on_top,
            !r.settings.cursor_grab,
            r.settings.cursor_visible,
            r.settings.decorations,
            !r.settings.maximized,
            !r.settings.minimized,
            r.settings.resizable,
            r.settings.visible,
            r.width_string@ == decimal(800),
            r.height_string@ == decimal(450),
    {
        let settings = WindowSettings::default();
        let width_string = decimal_string(settings.inner_size.0);
        let height_string = decimal_string(settings.inner_size.1);
        WindowNodeBehaviour { settings, width_string, height_string }
    }

    pub fn name(&self) -> (r: &'static str)
        ensures
            r@ == "Window"@,
    {
        "Window"
    }

    /// A window node has no channels.
    pub fn get_configure_command(&self) -> (r: NodeCommand)
        ensures
            r matches NodeCommand::Configure(c) && c.channels_by_shared_reference@.len() == 0
                && c.channels_by_mutable_reference@.len() == 0 && c.input_channels_by_value@.len() == 0
                && c.output_channels_by_value@.len() == 0,
    {
        NodeCommand::Configure(NodeConfiguration::new())
    }

    /// Configures the node on an update, and applies a message to its settings.
    pub fn update(&mut self, event: NodeEvent<WindowMessage>) -> (r: Vec<NodeCommand>)
        ensures
            event is Update ==> *final(self) == *old(self) && r@.len() == 1 && (r@[0] matches NodeCommand::Configure(c)
                && c.channel_count(ChannelDirection::In) == 0 && c.channel_count(ChannelDirection::Out) == 0),
            event matches NodeEvent::Message(m) ==> applies(*old(self), *final(self), m) && r@.len() == 0,
    {
        let mut commands: Vec<NodeCommand> = Vec::new();
        match event {
            NodeEvent::Update => {
                commands.push(self.get_configure_command());
            },
            NodeEvent::Message(message) => {
                match message {
                    WindowMessage::SetTitle(title) => self.settings.title = title,
                    WindowMessage::SetWidth(text) => {
                        if let Some(width) = parse_u32(text.as_str()) {
                            self.settings.inner_size.0 = width;
                        }
                        self.width_string = text;
                    },
                    WindowMessage::SetHeight(text) => {
                        if let Some(height) = parse_u32(text.as_str()) {
                            self.settings.inner_size.1 = height;
                        }
                        self.height_string = text;
                    },
                    WindowMessage::SetAlwaysOnTop(value) => self.settings.always_on_top = value,
                    WindowMessage::SetCursorGrab(value) => self.settings.cursor_grab = value,
                    WindowMessage::SetCursorVisible(value) => self.settings.cursor_visible = value,
                    WindowMessage::SetDecorations(value) => self.settings.decorations = value,
                    WindowMessage::SetMaximized(value) => self.settings.maximized = value,
                    WindowMessage::SetMinimized(value) => self.settings.minimized = value,
                    WindowMessage::SetResizable(value) => self.settings.resizable = value,
                    WindowMessage::SetVisible(value) => self.settings.visible = value,
                }
            },
        }
        commands
    }
}

/// What the executor of a window node keeps from one run to the next, as far as it decides
/// anything by it: the settings that the window has, whether a window was asked for, and
/// whether the window and its swap chain exist.
#[derive(Debug)]
pub struct State {
    pub current_settings: WindowSettings,
    pub window_requested: bool,
    pub window_open: bool,
    pub swapchain_created: bool,
}

/// What the executor does about the window at the start of a run.
#[derive(Debug)]
pub enum WindowRequest {
    /// Ask for a window built with these settings.
    Create(WindowSettings),
    /// Look whether the window asked for has arrived.
    Poll,
    /// The window exists.
    Ready,
}

/// What the executor does with an open window in a run: bring it to the node's settings,
/// create a swap chain where one is needed, and present a frame.
#[derive(Debug)]
pub struct WindowFrame {
    /// The changes to make to the window, in order.
    pub changes: Vec<WindowChange>,
    /// The size of the swap chain to create before presenting, where one is needed.
    pub swapchain_size: Option<(u32, u32)>,
}

impl State {
    /// No window yet, and the default settings.
    pub fn default() -> (r: Self)
        ensures
            r.current_settings.title@ == "DVSynth Output Window"@,
            r.current_settings.inner_size == (800u32, 450u32),
            r.current_settings.fullscreen is None,
            !r.current_settings.always_on_top,
            !r.current_settings.cursor_grab,
            r.current_settings.cursor_visible,
            r.current_settings.decorations,
            !r.current_settings.maximized,
            !r.current_settings.minimized,
            r.current_settings.resizable,
            r.current_settings.visible,
            !r.window_requested,
            !r.window_open,
            !r.swapchain_created,
    {
        State {
            current_settings: WindowSettings::default(),
            window_requested: false,
            window_open: false,
            swapchain_created: false,
        }
    }

    /// The first part of a run of the executor with the node's `settings`: ask for a window
    /// where none was asked for, look for it where it was, and go on where it is open.
    pub fn request_window(&mut self, settings: &WindowSettings) -> (r: WindowRequest)
        ensures
            old(self).window_open ==> r is Ready && *final(self) == *old(self),
            !old(self).window_open && old(self).window_requested ==> r is Poll && *final(self)
                == *old(self),
            !old(self).window_open && !old(self).window_requested ==> (r matches WindowRequest::Create(
                built,
            ) && built == *settings) && *final(self) == (State { window_requested: true, ..*old(self) }),
    {
        if self.window_open {
            WindowRequest::Ready
        } else if self.window_requested {
            WindowRequest::Poll
        } else {
            self.window_requested = true;
            WindowRequest::Create(settings.clone())
        }
    }

    /// The window asked for has arrived: it is open, and has no swap chain yet.
    pub fn window_received(&mut self)
        ensures
            *final(self) == (State { window_open: true, swapchain_created: false, ..*old(self) }),
    {
        self.window_open = true;
        self.swapchain_created = false;
    }

    /// The second part of a run: where the window is open, the changes that bring it to
    /// `settings`, and a swap chain of the new size where there is none or the size changed.
    pub fn render(&mut self, settings: &WindowSettings) -> (r: Option<WindowFrame>)
        ensures
            !old(self).window_open ==> r is None && *final(self) == *old(self),
            old(self).window_open ==> (r matches Some(frame) && frame.changes@ == differences(
                old(self).current_settings,
                *settings,
            ) && frame.swapchain_size == if !old(self).swapchain_created
                || old(self).current_settings.inner_size != settings.inner_size {
                Some(settings.inner_size)
            } else {
                None
            }),
            old(self).window_open ==> *final(self) == (State {
                current_settings: *settings,
                swapchain_created: true,
                ..*old(self)
            }),
    {
        if !self.window_open {
            return None;
        }
        let recreate_swapchain = self.current_settings.inner_size.0 != settings.inner_size.0
            || self.current_settings.inner_size.1 != settings.inner_size.1;
        let changes = self.current_settings.apply_difference(settings);
        let swapchain_size = if !self.swapchain_created || recreate_swapchain {
            self.swapchain_created = true;
            Some(self.current_settings.inner_size)
        } else {
            None
        };
        Some(WindowFrame { changes, swapchain_size })
    }
}

} // verus!
