//! What the widgets decide, apart from drawing: the actions a touch asks of
//! the main loop, the messages the touch layer produces and what the main
//! loop does with them, the key events a key action becomes, and the epoll
//! tokens handed out to widget file descriptors.

use crate::config::WidgetEntry;
use vstd::prelude::*;

verus! {

/// Linux input key code of the volume down key.
pub const KEY_VOLUMEDOWN: u16 = 114;

/// Linux input key code of the volume up key.
pub const KEY_VOLUMEUP: u16 = 115;

/// Linux input event type of a key event.
pub const EV_KEY: u16 = 1;

/// Linux input event type of a synchronisation event.
pub const EV_SYN: u16 = 0;

/// Linux input code of a synchronisation report.
pub const SYN_REPORT: u16 = 0;

/// High-level touch actions delivered to widgets.
#[derive(Debug, Clone, Copy)]
pub enum WidgetAction {
    Pressed,
    Released,
}

/// Actions that widgets can request from the main loop. Keys are Linux input
/// key codes.
#[derive(Debug, Clone)]
pub enum MainLoopAction {
    SendKeys(Vec<u16>, bool),
    FocusWorkspace(u64),
    TriggerRedraw,
    ShowBatteryTime,
}

/// Messages that the touch layer produces.
#[derive(Debug, Clone, Copy)]
pub enum Message {
    /// Generic widget press (index in current layer).
    WidgetPressed(usize),
    /// Generic widget release (index in current layer).
    WidgetReleased(usize),
    /// Workspace indicator pressed.
    WorkspaceDown(u64),
    /// Workspace indicator released (triggers focus).
    WorkspaceUp(u64),
    /// Volume down zone pressed.
    VolumeDownPress,
    /// Volume down zone released.
    VolumeDownRelease,
    /// Volume up zone pressed.
    VolumeUpPress,
    /// Volume up zone released.
    VolumeUpRelease,
}

/// The kind of static content a button displays.
pub enum StaticVariant {
    Text(String),
    /// The icon's file path, when it was found.
    Icon(Option<String>),
    Spacer,
}

/// Whether `a` sends exactly the keys `keys`, down when `down`.
pub open spec fn sends_keys(a: MainLoopAction, keys: Seq<u16>, down: bool) -> bool {
    a matches MainLoopAction::SendKeys(k, d) && k@ == keys && d == down
}

fn copy_keys(keys: &[u16]) -> (v: Vec<u16>)
    ensures
        v@ == keys@,
{
    let mut v: Vec<u16> = Vec::new();
    let mut i: usize = 0;
    while i < keys.len()
        invariant
            0 <= i <= keys@.len(),
            v@ == keys@.take(i as int),
        decreases keys@.len() - i,
    {
        v.push(keys[i]);
        i = i + 1;
        assert(v@ =~= keys@.take(i as int));
    }
    assert(keys@.take(keys@.len() as int) =~= keys@);
    v
}

/// Handle the press/release pattern of widgets with key bindings: toggle
/// `active` and send the keys down on press, up on release. A widget without
/// keys does nothing.
pub fn handle_key_action(active: &mut bool, keys: &[u16], action: WidgetAction) -> (r: Vec<MainLoopAction>)
    ensures
        keys@.len() == 0 ==> *final(active) == *old(active) && r@.len() == 0,
        keys@.len() > 0 ==> r@.len() == 1 && match action {
            WidgetAction::Pressed => *final(active) && sends_keys(r@[0], keys@, true),
            WidgetAction::Released => !*final(active) && sends_keys(r@[0], keys@, false),
        },
{
    if keys.len() == 0 {
        return Vec::new();
    }
    let mut r: Vec<MainLoopAction> = Vec::new();
    match action {
        WidgetAction::Pressed => {
            *active = true;
            r.push(MainLoopAction::SendKeys(copy_keys(keys), true));
        },
        WidgetAction::Released => {
            *active = false;
            r.push(MainLoopAction::SendKeys(copy_keys(keys), false));
        },
    }
    r
}

/// The battery widget's touch handling: its keys as any key-bound widget,
/// and on press it shows as pressed and asks for the time estimate.
pub fn battery_handle_event(active: &mut bool, keys: &[u16], action: WidgetAction) -> (r: Vec<MainLoopAction>)
    ensures
        match action {
            WidgetAction::Pressed => *final(active) && r@.len() == (if keys@.len() > 0 {
                2int
            } else {
                1int
            }) && r@.last() is ShowBatteryTime && (keys@.len() > 0 ==> sends_keys(r@[0], keys@, true)),
            WidgetAction::Released => (keys@.len() == 0 ==> *final(active) == *old(active) && r@.len()
                == 0) && (keys@.len() > 0 ==> !*final(active) && r@.len() == 1 && sends_keys(
                r@[0],
                keys@,
                false,
            )),
        },
{
    let mut r = handle_key_action(active, keys, action);
    if let WidgetAction::Pressed = action {
        *active = true;
        r.push(MainLoopAction::ShowBatteryTime);
    }
    r
}

/// One Linux input event: type, code, value.
pub type InputEvent = (u16, u16, i32);

/// The events that press (`value` 1) or release (`value` 0) `codes`: one key
/// event per code, then one synchronisation report; nothing for no codes.
pub open spec fn key_events_spec(codes: Seq<u16>, value: i32) -> Seq<InputEvent> {
    if codes.len() == 0 {
        Seq::empty()
    } else {
        Seq::new(codes.len(), |i: int| (EV_KEY, codes[i], value)).push((EV_SYN, SYN_REPORT, 0i32))
    }
}

/// The input events that toggle `codes` to `value`.
pub fn key_events(codes: &[u16], value: i32) -> (r: Vec<InputEvent>)
    ensures
        r@ == key_events_spec(codes@, value),
{
    let mut r: Vec<InputEvent> = Vec::new();
    if codes.len() == 0 {
        return r;
    }
    let mut i: usize = 0;
    while i < codes.len()
        invariant
            0 <= i <= codes@.len(),
            r@ == Seq::new(i as nat, |j: int| (EV_KEY, codes@[j], value)),
        decreases codes@.len() - i,
    {
        r.push((EV_KEY, codes[i], value));
        i = i + 1;
        assert(r@ =~= Seq::new(i as nat, |j: int| (EV_KEY, codes@[j], value)));
    }
    r.push((EV_SYN, SYN_REPORT, 0));
    r
}

/// What the main loop does for a message or a widget's action.
#[derive(Debug, Clone)]
pub enum Effect {
    /// Deliver a touch action to widget `index` of the active layer.
    Widget(usize, WidgetAction),
    /// Press (`true`) or release the keys.
    Keys(Vec<u16>, bool),
    FocusWorkspace(u64),
    Redraw,
    /// Show the battery time estimate for a while.
    ShowBatteryTime,
}

/// Whether `e` presses or releases exactly `keys`.
pub open spec fn effect_keys(e: Effect, keys: Seq<u16>, down: bool) -> bool {
    e matches Effect::Keys(k, d) && k@ == keys && d == down
}

/// The effects of a message: a widget press or release goes to that widget;
/// a workspace press redraws and its release focuses the workspace; the
/// volume zones press and release their key, redrawing on release.
pub fn message_effects(msg: Message) -> (r: Vec<Effect>)
    ensures
        match msg {
            Message::WidgetPressed(i) => r@.len() == 1 && (r@[0] matches Effect::Widget(j, a) && j == i
                && a is Pressed),
            Message::WidgetReleased(i) => r@.len() == 1 && (r@[0] matches Effect::Widget(j, a) && j == i
                && a is Released),
            Message::WorkspaceDown(_) => r@.len() == 1 && r@[0] is Redraw,
            Message::WorkspaceUp(id) => r@.len() == 1 && (r@[0] matches Effect::FocusWorkspace(x) && x
                == id),
            Message::VolumeDownPress => r@.len() == 1 && effect_keys(r@[0], seq![KEY_VOLUMEDOWN], true),
            Message::VolumeDownRelease => r@.len() == 2 && effect_keys(
                r@[0],
                seq![KEY_VOLUMEDOWN],
                false,
            ) && r@[1] is Redraw,
            Message::VolumeUpPress => r@.len() == 1 && effect_keys(r@[0], seq![KEY_VOLUMEUP], true),
            Message::VolumeUpRelease => r@.len() == 2 && effect_keys(r@[0], seq![KEY_VOLUMEUP], false)
                && r@[1] is Redraw,
        },
{
    let mut r: Vec<Effect> = Vec::new();
    match msg {
        Message::WidgetPressed(i) => r.push(Effect::Widget(i, WidgetAction::Pressed)),
        Message::WidgetReleased(i) => r.push(Effect::Widget(i, WidgetAction::Released)),
        Message::WorkspaceDown(_) => r.push(Effect::Redraw),
        Message::WorkspaceUp(id) => r.push(Effect::FocusWorkspace(id)),
        Message::VolumeDownPress => r.push(Effect::Keys(single_key(KEY_VOLUMEDOWN), true)),
        Message::VolumeDownRelease => {
            r.push(Effect::Keys(single_key(KEY_VOLUMEDOWN), false));
            r.push(Effect::Redraw);
        },
        Message::VolumeUpPress => r.push(Effect::Keys(single_key(KEY_VOLUMEUP), true)),
        Message::VolumeUpRelease => {
            r.push(Effect::Keys(single_key(KEY_VOLUMEUP), false));
            r.push(Effect::Redraw);
        },
    }
    r
}

fn single_key(k: u16) -> (v: Vec<u16>)
    ensures
        v@ == seq![k],
{
    let mut v: Vec<u16> = Vec::new();
    v.push(k);
    assert(v@ =~= seq![k]);
    v
}

/// The effects of one action a widget asked for: sending keys also redraws;
/// showing the battery time also redraws.
pub fn action_effects(a: MainLoopAction) -> (r: Vec<Effect>)
    ensures
        match a {
            MainLoopAction::SendKeys(k, d) => r@.len() == 2 && effect_keys(r@[0], k@, d) && r@[1] is Redraw,
            MainLoopAction::FocusWorkspace(id) => r@.len() == 1 && (r@[0] matches Effect::FocusWorkspace(
                x,
            ) && x == id),
            MainLoopAction::TriggerRedraw => r@.len() == 1 && r@[0] is Redraw,
            MainLoopAction::ShowBatteryTime => r@.len() == 2 && r@[0] is ShowBatteryTime && r@[1] is Redraw,
        },
{
    let mut r: Vec<Effect> = Vec::new();
    match a {
        MainLoopAction::SendKeys(k, d) => {
            r.push(Effect::Keys(k, d));
            r.push(Effect::Redraw);
        },
        MainLoopAction::FocusWorkspace(id) => r.push(Effect::FocusWorkspace(id)),
        MainLoopAction::TriggerRedraw => r.push(Effect::Redraw),
        MainLoopAction::ShowBatteryTime => {
            r.push(Effect::ShowBatteryTime);
            r.push(Effect::Redraw);
        },
    }
    r
}

/// Hands out consecutive epoll tokens to widget file descriptors.
pub struct FdRegistry {
    next_data: u64,
}

impl FdRegistry {
    pub closed spec fn next_spec(&self) -> u64 {
        self.next_data
    }

    /// A registry whose first token is `start_data`.
    pub fn new(start_data: u64) -> (r: Self)
        ensures
            r.next_spec() == start_data,
    {
        Self { next_data: start_data }
    }

    /// The token that `next_token` hands out next.
    pub fn peek(&self) -> (t: u64)
        ensures
            t == self.next_spec(),
    {
        self.next_data
    }

    /// The next token; the one after it is one higher.
    pub fn next_token(&mut self) -> (t: u64)
        requires
            old(self).next_spec() < u64::MAX,
        ensures
            t == old(self).next_spec(),
            final(self).next_spec() == t + 1,
    {
        let t = self.next_data;
        self.next_data = self.next_data + 1;
        t
    }
}

/// All key codes that the entries of both layers send, in order.
pub open spec fn all_keys(layers: Seq<Seq<WidgetEntry>>) -> Seq<u16>
    decreases layers.len(),
{
    if layers.len() == 0 {
        Seq::empty()
    } else {
        all_keys(layers.drop_last()) + entries_keys(layers.last())
    }
}

/// The key codes that `entries` send, in order.
pub open spec fn entries_keys(entries: Seq<WidgetEntry>) -> Seq<u16>
    decreases entries.len(),
{
    if entries.len() == 0 {
        Seq::empty()
    } else {
        entries_keys(entries.drop_last()) + entries.last().action@
    }
}

/// Collect all key actions from both layers (for registering the virtual
/// keyboard's keys).
pub fn all_key_actions(layers: &[Vec<WidgetEntry>; 2]) -> (r: Vec<u16>)
    ensures
        r@ == all_keys(seq![layers[0]@, layers[1]@]),
{
    let mut r: Vec<u16> = Vec::new();
    let mut li: usize = 0;
    while li < 2
        invariant
            0 <= li <= 2,
            r@ == all_keys(seq![layers[0]@, layers[1]@].take(li as int)),
        decreases 2 - li,
    {
        let layer = &layers[li];
        let ghost before = r@;
        let mut i: usize = 0;
        while i < layer.len()
            invariant
                0 <= li < 2,
                *layer == layers[li as int],
                0 <= i <= layer@.len(),
                r@ == before + entries_keys(layer@.take(i as int)),
            decreases layer@.len() - i,
        {
            let action = &layer[i].action;
            let ghost mid = r@;
            let mut k: usize = 0;
            while k < action.len()
                invariant
                    0 <= k <= action@.len(),
                    r@ == mid + action@.take(k as int),
                decreases action@.len() - k,
            {
                r.push(action[k]);
                k = k + 1;
                assert(r@ =~= mid + action@.take(k as int));
            }
            assert(action@.take(action@.len() as int) =~= action@);
            assert(layer@.take(i + 1).drop_last() =~= layer@.take(i as int));
            assert(r@ =~= before + entries_keys(layer@.take(i + 1)));
            i = i + 1;
        }
        assert(layer@.take(layer@.len() as int) =~= layer@);
        let ghost ls = seq![layers[0]@, layers[1]@];
        assert(ls.take(li + 1).drop_last() =~= ls.take(li as int));
        li = li + 1;
    }
    assert(seq![layers[0]@, layers[1]@].take(2) =~= seq![layers[0]@, layers[1]@]);
    r
}


/// The strftime format a time widget uses: the `24hr` and `12hr` presets
/// expand to their formats; anything else is a format itself.
pub fn time_format_str<'a>(format: &'a str) -> (r: &'a str)
    ensures
        r@ == (if format@ == "24hr"@ {
            "%H:%M    %a %-e %b"@
        } else if format@ == "12hr"@ {
            "%-l:%M %p    %a %-e %b"@
        } else {
            format@
        }),
{
    let fc = crate::text::chars_of(format);
    let is24 = fc.len() == 4 && crate::text::starts_with_at(&fc, 0, 4, &['2', '4', 'h', 'r']);
    let is12 = fc.len() == 4 && crate::text::starts_with_at(&fc, 0, 4, &['1', '2', 'h', 'r']);
    proof {
        reveal_strlit("24hr");
        reveal_strlit("12hr");
        assert(fc@.subrange(0, fc@.len() as int) =~= fc@);
        if fc@.len() == 4 {
            assert(fc@.subrange(0, 4) =~= fc@);
        }
        assert(seq!['2', '4', 'h', 'r'] =~= "24hr"@);
        assert(seq!['1', '2', 'h', 'r'] =~= "12hr"@);
    }
    if is24 {
        "%H:%M    %a %-e %b"
    } else if is12 {
        "%-l:%M %p    %a %-e %b"
    } else {
        format
    }
}

/// Whether two texts are the same.
pub(crate) fn same_text(a: &str, b: &str) -> (r: bool)
    ensures
        r == (a@ == b@),
{
    let ac = crate::text::chars_of(a);
    let bc = crate::text::chars_of(b);
    if ac.len() != bc.len() {
        return false;
    }
    let r = crate::text::starts_with_at(&ac, 0, ac.len(), bc.as_slice());
    assert(ac@.subrange(0, ac@.len() as int) =~= ac@);
    proof {
        if r {
            assert(ac@ =~= bc@);
        }
    }
    r
}

/// Where `name` stands among the font family names interned so far: the
/// first equal one, if any.
pub fn interned_position(interned: &Vec<&str>, name: &str) -> (r: Option<usize>)
    ensures
        match r {
            Some(i) => i < interned@.len() && interned@[i as int]@ == name@ && forall|j: int|
                0 <= j < i ==> (#[trigger] interned@[j])@ != name@,
            None => forall|j: int| 0 <= j < interned@.len() ==> (#[trigger] interned@[j])@ != name@,
        },
{
    let mut i: usize = 0;
    while i < interned.len()
        invariant
            0 <= i <= interned@.len(),
            forall|j: int| 0 <= j < i ==> (#[trigger] interned@[j])@ != name@,
        decreases interned@.len() - i,
    {
        if same_text(interned[i], name) {
            return Some(i);
        }
        i = i + 1;
    }
    None
}

/// The paths where an icon may be installed, in the order they are tried.
pub fn icon_candidates(name: &str) -> (r: (String, String))
    ensures
        r.0@ == "/etc/smol-dfr/"@ + name@ + ".svg"@,
        r.1@ == "/usr/share/smol-dfr/"@ + name@ + ".svg"@,
{
    let mut a = String::from_str("/etc/smol-dfr/");
    a.append(name);
    a.append(".svg");
    let mut b = String::from_str("/usr/share/smol-dfr/");
    b.append(name);
    b.append(".svg");
    (a, b)
}

/// Toggling keys sends one key event per code, in order and carrying the
/// given value (pressed or released alike), then one synchronisation report
/// that delivers them; no codes send nothing.
pub proof fn lemma_key_events_end_with_report(codes: Seq<u16>, value: i32)
    ensures
        codes.len() == 0 ==> key_events_spec(codes, value).len() == 0,
        codes.len() > 0 ==> {
            let r = key_events_spec(codes, value);
            &&& r.len() == codes.len() + 1
            &&& r.last() == (EV_SYN, SYN_REPORT, 0i32)
            &&& forall|i: int| 0 <= i < codes.len() ==> #[trigger] r[i] == (EV_KEY, codes[i], value)
        },
{
}

} // verus!
