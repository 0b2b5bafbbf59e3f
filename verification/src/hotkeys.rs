//! The desktop hotkeys Alt+1 .. Alt+9 and the dispatch of the events of the
//! main loop: which desktop to switch to for a hotkey, and when to stop.

use vstd::prelude::*;
use crate::labels::{desktop_label, desktop_text};

verus! {

/// The first desktop number that has a hotkey (Alt+1).
pub const FIRST_DESKTOP: u32 = 1;

/// The last desktop number that has a hotkey (Alt+9).
pub const LAST_DESKTOP: u32 = 9;

/// One attempt to register the hotkey of a desktop.
#[derive(Debug, Clone, Copy, PartialEq, Eq, Structural)]
pub struct Registration {
    /// The id the hotkey reports in its events.
    pub id: u32,
    /// The desktop number (counted from 1) whose digit the hotkey holds.
    pub desktop: u32,
    /// Whether the system accepted the hotkey.
    pub registered: bool,
}

/// A registered hotkey and the desktop it switches to.
#[derive(Debug, Clone, Copy, PartialEq, Eq, Structural)]
pub struct Binding {
    pub id: u32,
    /// The desktop number, counted from 1.
    pub desktop: u32,
}

/// A desktop switch the main loop performs.
#[derive(Debug, Clone, Copy, PartialEq, Eq, Structural)]
pub struct DesktopSwitch {
    /// The desktop to switch to, counted from 0 as the system counts.
    pub target: u32,
    /// The desktop number shown to the user, counted from 1.
    pub desktop: u32,
}

/// The events of the main loop that the program reacts to.
#[derive(Debug, Clone, Copy, PartialEq, Eq, Structural)]
pub enum LoopEvent {
    /// The user asked to close the window.
    CloseRequested,
    /// The loop is about to wait: `quit_selected` tells whether a pending
    /// tray-menu event picked the quit entry, `hotkey` is the id of a pending
    /// hotkey event, if there is one.
    AboutToWait { quit_selected: bool, hotkey: Option<u32> },
    /// Anything else.
    Other,
}

/// The main loop's answer to one event: whether to stop, and the desktop
/// switches to perform, in order (each also shows the desktop's text on the OSD).
pub struct LoopStep {
    pub exit: bool,
    pub switches: Vec<DesktopSwitch>,
}

/// The id of the hotkey event that `event` carries, if any.
pub open spec fn pending_hotkey(event: LoopEvent) -> Option<u32> {
    match event {
        LoopEvent::AboutToWait { hotkey, .. } => hotkey,
        _ => None,
    }
}

/// Whether `d` is a desktop number that has a hotkey.
pub open spec fn is_hotkey_desktop(d: u32) -> bool {
    FIRST_DESKTOP <= d <= LAST_DESKTOP
}

/// The bindings that a sequence of registration attempts yields: those that
/// the system accepted, in the order they were made.
pub open spec fn bindings_of(attempts: Seq<Registration>) -> Seq<Binding>
    decreases attempts.len(),
{
    if attempts.len() == 0 {
        Seq::empty()
    } else {
        let rest = bindings_of(attempts.drop_last());
        let a = attempts.last();
        if a.registered {
            rest.push(Binding { id: a.id, desktop: a.desktop })
        } else {
            rest
        }
    }
}

/// The desktop numbers that a hotkey event with id `id` switches to, in binding order.
pub open spec fn desktops_for(bindings: Seq<Binding>, id: u32) -> Seq<u32>
    decreases bindings.len(),
{
    if bindings.len() == 0 {
        Seq::empty()
    } else {
        let rest = desktops_for(bindings.drop_last(), id);
        let b = bindings.last();
        if b.id == id {
            rest.push(b.desktop)
        } else {
            rest
        }
    }
}

/// The switch that brings up desktop number `d` (counted from 1).
pub open spec fn switch_to_desktop(d: u32) -> DesktopSwitch {
    DesktopSwitch { target: (d - 1) as u32, desktop: d }
}

/// Every binding names a desktop that has a hotkey.
pub open spec fn bindings_valid(bindings: Seq<Binding>) -> bool {
    forall|i: int| 0 <= i < bindings.len() ==> is_hotkey_desktop(#[trigger] bindings[i].desktop)
}

/// The switches the main loop performs for a hotkey event `hotkey`.
pub open spec fn switches_for(bindings: Seq<Binding>, hotkey: Option<u32>) -> Seq<DesktopSwitch> {
    match hotkey {
        Some(id) => desktops_for(bindings, id).map_values(|d: u32| switch_to_desktop(d)),
        None => Seq::empty(),
    }
}

/// The desktop numbers that get a hotkey, in the order they are registered: 1 ..= 9.
pub fn hotkey_desktops() -> (r: Vec<u32>)
    ensures
        r@.len() == LAST_DESKTOP - FIRST_DESKTOP + 1,
        forall|i: int| 0 <= i < r@.len() ==> #[trigger] r@[i] == FIRST_DESKTOP + i,
{
    let mut v: Vec<u32> = Vec::new();
    let mut d: u32 = FIRST_DESKTOP;
    while d <= LAST_DESKTOP
        invariant
            FIRST_DESKTOP <= d <= LAST_DESKTOP + 1,
            v@.len() == d - FIRST_DESKTOP,
            forall|i: int| 0 <= i < v@.len() ==> #[trigger] v@[i] == FIRST_DESKTOP + i,
        decreases LAST_DESKTOP + 1 - d,
    {
        v.push(d);
        d = d + 1;
    }
    v
}

/// The bindings that the registration attempts yield: the accepted ones, in order.
pub fn collect_bindings(attempts: &Vec<Registration>) -> (r: Vec<Binding>)
    ensures
        r@ == bindings_of(attempts@),
        forall|k: int| 0 <= k < r@.len() ==> accepted(attempts@, #[trigger] r@[k]),
        forall|j: int| 0 <= j < attempts@.len() && (#[trigger] attempts@[j]).registered
            ==> has_binding(r@, Binding { id: attempts@[j].id, desktop: attempts@[j].desktop }),
{
    proof {
        lemma_bindings_sound_complete(attempts@);
    }
    let mut r: Vec<Binding> = Vec::new();
    let mut i: usize = 0;
    while i < attempts.len()
        invariant
            i <= attempts@.len(),
            r@ == bindings_of(attempts@.subrange(0, i as int)),
        decreases attempts@.len() - i,
    {
        let a = attempts[i];
        proof {
            assert(attempts@.subrange(0, i + 1).drop_last() =~= attempts@.subrange(0, i as int));
        }
        if a.registered {
            r.push(Binding { id: a.id, desktop: a.desktop });
        }
        i = i + 1;
    }
    proof {
        assert(attempts@.subrange(0, attempts@.len() as int) =~= attempts@);
    }
    r
}

/// The desktop numbers that the hotkey event with id `id` switches to, in binding order.
pub fn desktops_for_hotkey(bindings: &Vec<Binding>, id: u32) -> (r: Vec<u32>)
    ensures
        r@ == desktops_for(bindings@, id),
        forall|k: int| 0 <= k < r@.len() ==> bound_to(bindings@, id, #[trigger] r@[k]),
        forall|j: int| 0 <= j < bindings@.len() && (#[trigger] bindings@[j]).id == id
            ==> listed(r@, bindings@[j].desktop),
{
    proof {
        lemma_desktops_for_sound_complete(bindings@, id);
    }
    let mut r: Vec<u32> = Vec::new();
    let mut i: usize = 0;
    while i < bindings.len()
        invariant
            i <= bindings@.len(),
            r@ == desktops_for(bindings@.subrange(0, i as int), id),
        decreases bindings@.len() - i,
    {
        let b = bindings[i];
        proof {
            assert(bindings@.subrange(0, i + 1).drop_last() =~= bindings@.subrange(0, i as int));
        }
        if b.id == id {
            r.push(b.desktop);
        }
        i = i + 1;
    }
    proof {
        assert(bindings@.subrange(0, bindings@.len() as int) =~= bindings@);
    }
    r
}

/// The switch that brings up desktop number `desktop` (counted from 1).
pub fn desktop_switch(desktop: u32) -> (r: DesktopSwitch)
    requires
        desktop >= 1,
    ensures
        r == switch_to_desktop(desktop),
        r.target == desktop - 1,
        r.desktop == desktop,
{
    DesktopSwitch { target: desktop - 1, desktop }
}

/// The main loop's answer to `event`: a close request or the quit entry of
/// the tray menu stops the loop, and a hotkey event switches to every
/// desktop bound to its id.
pub fn loop_step(bindings: &Vec<Binding>, event: LoopEvent) -> (r: LoopStep)
    requires
        bindings_valid(bindings@),
    ensures
        r.exit == (match event {
            LoopEvent::CloseRequested => true,
            LoopEvent::AboutToWait { quit_selected, .. } => quit_selected,
            LoopEvent::Other => false,
        }),
        r.switches@ == (match event {
            LoopEvent::AboutToWait { hotkey, .. } => switches_for(bindings@, hotkey),
            _ => Seq::empty(),
        }),
        pending_hotkey(event) is None ==> r.switches@.len() == 0,
        forall|k: int| #![trigger r.switches@[k]] 0 <= k < r.switches@.len() ==> {
            &&& r.switches@[k].target + 1 == r.switches@[k].desktop
            &&& exists|j: int| 0 <= j < bindings@.len()
                && pending_hotkey(event) == Some(bindings@[j].id)
                && bindings@[j].desktop == r.switches@[k].desktop
        },
        forall|j: int| #![trigger bindings@[j]] 0 <= j < bindings@.len() && pending_hotkey(event) == Some(bindings@[j].id)
            ==> exists|k: int| 0 <= k < r.switches@.len() && r.switches@[k].desktop == bindings@[j].desktop,
{
    match event {
        LoopEvent::CloseRequested => LoopStep { exit: true, switches: Vec::new() },
        LoopEvent::Other => LoopStep { exit: false, switches: Vec::new() },
        LoopEvent::AboutToWait { quit_selected, hotkey } => {
            let mut switches: Vec<DesktopSwitch> = Vec::new();
            match hotkey {
                None => {},
                Some(id) => {
                    let desktops = desktops_for_hotkey(bindings, id);
                    proof {
                        lemma_desktops_for_valid(bindings@, id);
                    }
                    let mut i: usize = 0;
                    while i < desktops.len()
                        invariant
                            i <= desktops@.len(),
                            desktops@ == desktops_for(bindings@, id),
                            forall|k: int| 0 <= k < desktops@.len() ==> is_hotkey_desktop(#[trigger] desktops@[k]),
                            switches@ =~= desktops@.subrange(0, i as int).map_values(|d: u32| switch_to_desktop(d)),
                        decreases desktops@.len() - i,
                    {
                        let d = desktops[i];
                        switches.push(desktop_switch(d));
                        i = i + 1;
                    }
                    proof {
                        assert(desktops@.subrange(0, desktops@.len() as int) =~= desktops@);
                    }
                },
            }
            proof {
                if let Some(id) = hotkey {
                    lemma_switches_follow_bindings(bindings@, id);
                }
            }
            LoopStep { exit: quit_selected, switches }
        },
    }
}

/// The text the OSD shows after `switch`.
pub fn switch_label(switch: DesktopSwitch) -> (r: String)
    ensures
        r@ == desktop_text(switch.desktop as nat),
{
    desktop_label(switch.desktop)
}

/// Every desktop that a hotkey event switches to comes from a binding.
proof fn lemma_desktops_for_valid(bindings: Seq<Binding>, id: u32)
    requires
        bindings_valid(bindings),
    ensures
        forall|k: int| 0 <= k < desktops_for(bindings, id).len()
            ==> is_hotkey_desktop(#[trigger] desktops_for(bindings, id)[k]),
    decreases bindings.len(),
{
    if bindings.len() > 0 {
        let rest = bindings.drop_last();
        assert(bindings_valid(rest)) by {
            assert forall|i: int| 0 <= i < rest.len() implies is_hotkey_desktop(#[trigger] rest[i].desktop) by {
                assert(rest[i] == bindings[i]);
            }
        }
        lemma_desktops_for_valid(rest, id);
        assert(is_hotkey_desktop(bindings[bindings.len() - 1].desktop));
        let d = desktops_for(bindings, id);
        let dr = desktops_for(rest, id);
        assert forall|k: int| 0 <= k < d.len() implies is_hotkey_desktop(#[trigger] d[k]) by {
            if k < dr.len() {
                assert(d[k] == dr[k]);
            }
        }
    }
}

/// The bindings made from registration attempts of the desktops 1 ..= 9 are valid.
pub proof fn lemma_bindings_of_valid(attempts: Seq<Registration>)
    requires
        forall|i: int| 0 <= i < attempts.len() ==> is_hotkey_desktop(#[trigger] attempts[i].desktop),
    ensures
        bindings_valid(bindings_of(attempts)),
    decreases attempts.len(),
{
    if attempts.len() > 0 {
        let rest = attempts.drop_last();
        assert forall|i: int| 0 <= i < rest.len() implies is_hotkey_desktop(#[trigger] rest[i].desktop) by {
            assert(rest[i] == attempts[i]);
        }
        lemma_bindings_of_valid(rest);
        assert(is_hotkey_desktop(attempts[attempts.len() - 1].desktop));
    }
}

/// An iteration of the main loop without a pending hotkey event switches
/// nowhere, whatever hotkeys are bound.
pub proof fn lemma_no_hotkey_no_switch(bindings: Seq<Binding>)
    ensures
        switches_for(bindings, None) == Seq::<DesktopSwitch>::empty(),
{
}

/// The `k`-th desktop that a hotkey event with id `id` switches to is bound to `id`.
proof fn lemma_desktop_is_bound(bindings: Seq<Binding>, id: u32, k: int)
    requires
        0 <= k < desktops_for(bindings, id).len(),
    ensures
        exists|j: int| 0 <= j < bindings.len() && bindings[j].id == id
            && bindings[j].desktop == desktops_for(bindings, id)[k],
    decreases bindings.len(),
{
    let rest = bindings.drop_last();
    let dr = desktops_for(rest, id);
    let last = bindings.len() - 1;
    if k < dr.len() {
        lemma_desktop_is_bound(rest, id, k);
        let j = choose|j: int| 0 <= j < rest.len() && rest[j].id == id && rest[j].desktop == dr[k];
        assert(bindings[j] == rest[j]);
    } else {
        assert(bindings[last].id == id && bindings[last].desktop == desktops_for(bindings, id)[k]);
    }
}

/// The desktop of binding `j` is among those that a hotkey event with the binding's id switches to.
proof fn lemma_bound_desktop_switched(bindings: Seq<Binding>, j: int)
    requires
        0 <= j < bindings.len(),
    ensures
        exists|k: int| 0 <= k < desktops_for(bindings, bindings[j].id).len()
            && desktops_for(bindings, bindings[j].id)[k] == bindings[j].desktop,
    decreases bindings.len(),
{
    let id = bindings[j].id;
    let rest = bindings.drop_last();
    let d = desktops_for(bindings, id);
    let dr = desktops_for(rest, id);
    if j < bindings.len() - 1 {
        assert(rest[j] == bindings[j]);
        lemma_bound_desktop_switched(rest, j);
        let k = choose|k: int| 0 <= k < dr.len() && dr[k] == rest[j].desktop;
        assert(d[k] == dr[k]);
    } else {
        assert(d[d.len() - 1] == bindings[j].desktop);
    }
}

/// Whether some binding ties hotkey id `id` to desktop `d`.
pub open spec fn bound_to(bindings: Seq<Binding>, id: u32, d: u32) -> bool {
    exists|j: int| 0 <= j < bindings.len() && bindings[j].id == id && bindings[j].desktop == d
}

/// Whether `d` occurs in `s`.
pub open spec fn listed(s: Seq<u32>, d: u32) -> bool {
    exists|k: int| 0 <= k < s.len() && s[k] == d
}

/// Every desktop that a hotkey event with id `id` switches to is bound to
/// `id`, and every desktop bound to `id` is switched to.
pub proof fn lemma_desktops_for_sound_complete(bindings: Seq<Binding>, id: u32)
    ensures
        forall|k: int| 0 <= k < desktops_for(bindings, id).len()
            ==> bound_to(bindings, id, #[trigger] desktops_for(bindings, id)[k]),
        forall|j: int| 0 <= j < bindings.len() && (#[trigger] bindings[j]).id == id
            ==> listed(desktops_for(bindings, id), bindings[j].desktop),
{
    assert forall|k: int| 0 <= k < desktops_for(bindings, id).len()
        implies bound_to(bindings, id, #[trigger] desktops_for(bindings, id)[k]) by {
        lemma_desktop_is_bound(bindings, id, k);
    }
    assert forall|j: int| 0 <= j < bindings.len() && (#[trigger] bindings[j]).id == id
        implies listed(desktops_for(bindings, id), bindings[j].desktop) by {
        lemma_bound_desktop_switched(bindings, j);
    }
}

/// The `k`-th binding comes from an accepted registration attempt.
proof fn lemma_binding_from_attempt(attempts: Seq<Registration>, k: int)
    requires
        0 <= k < bindings_of(attempts).len(),
    ensures
        exists|j: int| 0 <= j < attempts.len() && attempts[j].registered
            && bindings_of(attempts)[k] == (Binding { id: attempts[j].id, desktop: attempts[j].desktop }),
    decreases attempts.len(),
{
    let rest = attempts.drop_last();
    let br = bindings_of(rest);
    if k < br.len() {
        lemma_binding_from_attempt(rest, k);
        let j = choose|j: int| 0 <= j < rest.len() && rest[j].registered
            && br[k] == (Binding { id: rest[j].id, desktop: rest[j].desktop });
        assert(attempts[j] == rest[j]);
    } else {
        let last = attempts.len() - 1;
        assert(attempts[last].registered);
    }
}

/// An accepted registration attempt yields a binding.
proof fn lemma_attempt_yields_binding(attempts: Seq<Registration>, j: int)
    requires
        0 <= j < attempts.len(),
        attempts[j].registered,
    ensures
        exists|k: int| 0 <= k < bindings_of(attempts).len()
            && bindings_of(attempts)[k] == (Binding { id: attempts[j].id, desktop: attempts[j].desktop }),
    decreases attempts.len(),
{
    let rest = attempts.drop_last();
    let b = bindings_of(attempts);
    let br = bindings_of(rest);
    if j < attempts.len() - 1 {
        assert(rest[j] == attempts[j]);
        lemma_attempt_yields_binding(rest, j);
        let k = choose|k: int| 0 <= k < br.len()
            && br[k] == (Binding { id: rest[j].id, desktop: rest[j].desktop });
        assert(b[k] == br[k]);
    } else {
        assert(b[b.len() - 1] == (Binding { id: attempts[j].id, desktop: attempts[j].desktop }));
    }
}

/// Whether some accepted registration attempt yields binding `b`.
pub open spec fn accepted(attempts: Seq<Registration>, b: Binding) -> bool {
    exists|j: int| 0 <= j < attempts.len() && attempts[j].registered
        && b == (Binding { id: attempts[j].id, desktop: attempts[j].desktop })
}

/// Whether `b` occurs among `bindings`.
pub open spec fn has_binding(bindings: Seq<Binding>, b: Binding) -> bool {
    exists|k: int| 0 <= k < bindings.len() && bindings[k] == b
}

/// The bindings are exactly the accepted registration attempts: each binding
/// comes from an accepted attempt, and each accepted attempt yields one.
pub proof fn lemma_bindings_sound_complete(attempts: Seq<Registration>)
    ensures
        forall|k: int| 0 <= k < bindings_of(attempts).len()
            ==> accepted(attempts, #[trigger] bindings_of(attempts)[k]),
        forall|j: int| 0 <= j < attempts.len() && (#[trigger] attempts[j]).registered
            ==> has_binding(bindings_of(attempts), Binding { id: attempts[j].id, desktop: attempts[j].desktop }),
{
    assert forall|k: int| 0 <= k < bindings_of(attempts).len()
        implies accepted(attempts, #[trigger] bindings_of(attempts)[k]) by {
        lemma_binding_from_attempt(attempts, k);
    }
    assert forall|j: int| 0 <= j < attempts.len() && (#[trigger] attempts[j]).registered
        implies has_binding(bindings_of(attempts), Binding { id: attempts[j].id, desktop: attempts[j].desktop }) by {
        lemma_attempt_yields_binding(attempts, j);
    }
}

/// Every switch that a hotkey event `id` causes brings up a desktop bound to
/// `id`, at the system index one below its number; and every desktop bound
/// to `id` is brought up.
pub proof fn lemma_switches_follow_bindings(bindings: Seq<Binding>, id: u32)
    requires
        bindings_valid(bindings),
    ensures
        forall|k: int| #![trigger switches_for(bindings, Some(id))[k]]
            0 <= k < switches_for(bindings, Some(id)).len() ==> {
            &&& switches_for(bindings, Some(id))[k].target + 1 == switches_for(bindings, Some(id))[k].desktop
            &&& exists|j: int| 0 <= j < bindings.len() && bindings[j].id == id
                && bindings[j].desktop == switches_for(bindings, Some(id))[k].desktop
        },
        forall|j: int| #![trigger bindings[j]]
            0 <= j < bindings.len() && bindings[j].id == id ==> exists|k: int|
            0 <= k < switches_for(bindings, Some(id)).len()
                && switches_for(bindings, Some(id))[k].desktop == bindings[j].desktop,
{
    lemma_desktops_for_valid(bindings, id);
    let d = desktops_for(bindings, id);
    let sw = switches_for(bindings, Some(id));
    assert forall|k: int| #![trigger sw[k]] 0 <= k < sw.len() implies {
        &&& sw[k].target + 1 == sw[k].desktop
        &&& exists|j: int| 0 <= j < bindings.len() && bindings[j].id == id
            && bindings[j].desktop == sw[k].desktop
    } by {
        assert(sw[k] == switch_to_desktop(d[k]));
        assert(is_hotkey_desktop(d[k]));
        lemma_desktop_is_bound(bindings, id, k);
    }
    assert forall|j: int| #![trigger bindings[j]] 0 <= j < bindings.len() && bindings[j].id == id implies exists|k: int|
        0 <= k < sw.len() && sw[k].desktop == bindings[j].desktop by {
        lemma_bound_desktop_switched(bindings, j);
        let k = choose|k: int| 0 <= k < d.len() && d[k] == bindings[j].desktop;
        assert(sw[k] == switch_to_desktop(d[k]));
    }
}

/// No two registration attempts share a hotkey id.
pub open spec fn ids_distinct(attempts: Seq<Registration>) -> bool {
    forall|i: int, j: int|
        0 <= i < attempts.len() && 0 <= j < attempts.len() && i != j
            ==> #[trigger] attempts[i].id != #[trigger] attempts[j].id
}

/// A hotkey event whose id no accepted registration holds switches nowhere.
pub proof fn lemma_unregistered_hotkey_ignored(attempts: Seq<Registration>, id: u32)
    requires
        forall|k: int| 0 <= k < attempts.len() ==> !(#[trigger] attempts[k].registered && attempts[k].id == id),
    ensures
        desktops_for(bindings_of(attempts), id) == Seq::<u32>::empty(),
    decreases attempts.len(),
{
    if attempts.len() > 0 {
        let rest = attempts.drop_last();
        assert forall|k: int| 0 <= k < rest.len() implies !(#[trigger] rest[k].registered && rest[k].id == id) by {
            assert(rest[k] == attempts[k]);
        }
        lemma_unregistered_hotkey_ignored(rest, id);
        let a = attempts[attempts.len() - 1];
        assert(!(a.registered && a.id == id));
        if a.registered {
            let b = Binding { id: a.id, desktop: a.desktop };
            assert(bindings_of(attempts) == bindings_of(rest).push(b));
            assert(bindings_of(rest).push(b).drop_last() =~= bindings_of(rest));
        }
    }
}

/// With distinct hotkey ids, the event of an accepted hotkey switches to its
/// desktop and to no other: Alt+N brings up desktop N.
pub proof fn lemma_registered_hotkey_switches(attempts: Seq<Registration>, k: int)
    requires
        ids_distinct(attempts),
        0 <= k < attempts.len(),
        attempts[k].registered,
    ensures
        desktops_for(bindings_of(attempts), attempts[k].id) == seq![attempts[k].desktop],
    decreases attempts.len(),
{
    let id = attempts[k].id;
    let rest = attempts.drop_last();
    let last = attempts.len() - 1;
    if k == last {
        assert forall|j: int| 0 <= j < rest.len() implies !(#[trigger] rest[j].registered && rest[j].id == id) by {
            assert(rest[j] == attempts[j]);
            assert(attempts[j].id != attempts[last].id);
        }
        lemma_unregistered_hotkey_ignored(rest, id);
        let b = Binding { id, desktop: attempts[k].desktop };
        assert(bindings_of(attempts) == bindings_of(rest).push(b));
        assert(bindings_of(rest).push(b).drop_last() =~= bindings_of(rest));
        assert(desktops_for(bindings_of(attempts), id) =~= seq![attempts[k].desktop]);
    } else {
        assert forall|i: int, j: int|
            0 <= i < rest.len() && 0 <= j < rest.len() && i != j implies #[trigger] rest[i].id != #[trigger] rest[j].id by {
            assert(rest[i] == attempts[i]);
            assert(rest[j] == attempts[j]);
        }
        assert(rest[k] == attempts[k]);
        lemma_registered_hotkey_switches(rest, k);
        assert(attempts[last].id != id);
        if attempts[last].registered {
            let b = Binding { id: attempts[last].id, desktop: attempts[last].desktop };
            assert(bindings_of(attempts) == bindings_of(rest).push(b));
            assert(bindings_of(attempts).drop_last() =~= bindings_of(rest));
        } else {
            assert(bindings_of(attempts) == bindings_of(rest));
        }
    }
}

/// In the main loop, the event of an accepted hotkey performs exactly one
/// switch: to the system's desktop one below the hotkey's digit, showing that
/// digit's desktop on the OSD.
pub proof fn lemma_hotkey_event_switches(attempts: Seq<Registration>, k: int)
    requires
        ids_distinct(attempts),
        0 <= k < attempts.len(),
        attempts[k].registered,
        is_hotkey_desktop(attempts[k].desktop),
    ensures
        switches_for(bindings_of(attempts), Some(attempts[k].id)) == seq![
            DesktopSwitch { target: (attempts[k].desktop - 1) as u32, desktop: attempts[k].desktop },
        ],
{
    lemma_registered_hotkey_switches(attempts, k);
    assert(switches_for(bindings_of(attempts), Some(attempts[k].id))
        =~= seq![attempts[k].desktop].map_values(|d: u32| switch_to_desktop(d)));
}

} // verus!
