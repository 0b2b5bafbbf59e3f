//! The context menu of the OSD window: ten opacity steps (10% .. 100%), a
//! separator and a close entry, and the decoding of the command that the
//! menu sends back when an entry is picked.

use vstd::prelude::*;

verus! {

/// Number of opacity entries in the menu; entry `k` (counted from 1) stands for `10 * k` percent.
pub const OPACITY_STEPS: u16 = 10;

/// Menu command ids of the opacity entries are this base plus the step number.
pub const OPACITY_ID_BASE: u16 = 1000;

/// Menu command id of the close entry.
pub const CLOSE_ID: u16 = 1011;

/// The opacity (0 ..= 255) that corresponds to `percentage` percent, rounded down.
pub open spec fn percentage_opacity(percentage: int) -> int {
    255 * percentage / 100
}

/// The opacity that opacity step `step` (1 ..= 10) stands for.
pub open spec fn step_opacity(step: int) -> int {
    percentage_opacity(10 * step)
}

/// How far the opacity of step `step` lies from the opacity `current`.
pub open spec fn step_distance(step: int, current: int) -> int {
    let d = step_opacity(step) - current;
    if d < 0 { -d } else { d }
}

/// The step among `1 ..= n` whose opacity lies nearest to `current`; of
/// steps equally near, the lowest.
pub open spec fn nearest_step_upto(n: int, current: int) -> int
    decreases n,
{
    if n <= 1 {
        1
    } else {
        let best = nearest_step_upto(n - 1, current);
        if step_distance(n, current) < step_distance(best, current) { n } else { best }
    }
}

/// The opacity step whose opacity equals, or lies nearest to, `current`; of
/// two steps equally near, the lower one.  Its menu entry carries the check mark.
pub open spec fn nearest_step(current: int) -> int {
    nearest_step_upto(OPACITY_STEPS as int, current)
}

/// An entry of the OSD's context menu.
#[derive(Debug, Clone, Copy, PartialEq, Eq, Structural)]
pub enum MenuEntry {
    /// Sets the opacity to `percentage` percent; `checked` marks the current opacity.
    Opacity { id: u16, percentage: u32, checked: bool },
    Separator,
    /// Quits the program.
    Close { id: u16 },
}

/// What a menu command asks for.
#[derive(Debug, Clone, Copy, PartialEq, Eq, Structural)]
pub enum MenuCommand {
    Quit,
    SetOpacity(u8),
    /// Not a command of this menu: the window procedure's default handling applies.
    Unhandled,
}

/// The opacity entry for step `step` when the window's opacity is `current`.
pub open spec fn opacity_entry(step: int, current: u8) -> MenuEntry {
    MenuEntry::Opacity {
        id: (OPACITY_ID_BASE + step) as u16,
        percentage: (10 * step) as u32,
        checked: step == nearest_step(current as int),
    }
}

/// The whole context menu, top to bottom, when the window's opacity is `current`.
pub open spec fn context_menu_entries(current: u8) -> Seq<MenuEntry> {
    Seq::new(OPACITY_STEPS as nat, |i: int| opacity_entry(i + 1, current))
        .push(MenuEntry::Separator)
        .push(MenuEntry::Close { id: CLOSE_ID })
}

/// The meaning of menu command `id`.
pub open spec fn command_of(id: u16) -> MenuCommand {
    if id == CLOSE_ID {
        MenuCommand::Quit
    } else if OPACITY_ID_BASE < id <= OPACITY_ID_BASE + OPACITY_STEPS {
        MenuCommand::SetOpacity(step_opacity(id - OPACITY_ID_BASE) as u8)
    } else {
        MenuCommand::Unhandled
    }
}

/// The opacity for `percentage` percent (at most 100), rounded down.
pub fn opacity_for_percentage(percentage: u32) -> (r: u8)
    requires
        percentage <= 100,
    ensures
        r == percentage_opacity(percentage as int),
        r as int == 255 * percentage / 100,
{
    let v: u32 = 255 * percentage / 100;
    v as u8
}

/// How far opacity `a` lies from opacity `b`.
fn opacity_distance(a: u8, b: u8) -> (r: u8)
    ensures
        r == (if a >= b { a - b } else { b - a }),
{
    if a >= b { a - b } else { b - a }
}

/// The opacity step whose entry carries the check mark while the window's
/// opacity is `current`: the step whose opacity equals or lies nearest to
/// it, the lower one of two equally near.
pub fn checked_step(current: u8) -> (r: u16)
    ensures
        r == nearest_step(current as int),
        1 <= r <= 10,
        forall|j: int| 1 <= j <= 10 ==> {
            let gr = opacity_gap(255 * r / 10, current as int);
            let gj = opacity_gap(#[trigger] (255 * j / 10), current as int);
            &&& gr <= gj
            &&& (j < r ==> gr < gj)
        },
{
    let mut best: u16 = 1;
    let mut best_distance = opacity_distance(opacity_for_percentage(10), current);
    let mut step: u16 = 2;
    while step <= OPACITY_STEPS
        invariant
            2 <= step <= OPACITY_STEPS + 1,
            1 <= best < step,
            best == nearest_step_upto(step - 1, current as int),
            best_distance == step_distance(best as int, current as int),
        decreases OPACITY_STEPS + 1 - step,
    {
        proof {
            lemma_step_opacity_bounds(step as int);
        }
        let d = opacity_distance(opacity_for_percentage(10 * (step as u32)), current);
        if d < best_distance {
            best = step;
            best_distance = d;
        }
        step = step + 1;
    }
    proof {
        lemma_nearest_step_upto_minimal(OPACITY_STEPS as int, current as int);
        assert forall|j: int| 1 <= j <= 10 implies {
            let gr = opacity_gap(255 * best / 10, current as int);
            let gj = opacity_gap(#[trigger] (255 * j / 10), current as int);
            &&& gr <= gj
            &&& (j < best ==> gr < gj)
        } by {
            assert(step_distance(j, current as int) == opacity_gap(255 * j / 10, current as int));
            assert(step_distance(best as int, current as int) == opacity_gap(255 * best / 10, current as int));
        }
    }
    best
}

/// The context menu of the OSD when its opacity is `current`: ten opacity
/// entries from 10% to 100%, a separator, and the close entry.
pub fn context_menu(current: u8) -> (r: Vec<MenuEntry>)
    ensures
        r@ == context_menu_entries(current),
        r@.len() == 12,
        forall|i: int| 0 <= i < 10 ==> ((#[trigger] r@[i]) matches MenuEntry::Opacity { id, percentage, .. }
            && id == 1001 + i && percentage == 10 * (i + 1)),
        r@[10] == MenuEntry::Separator,
        r@[11] == (MenuEntry::Close { id: 1011 }),
{
    let checked = checked_step(current);
    let mut entries: Vec<MenuEntry> = Vec::new();
    let mut step: u16 = 1;
    while step <= OPACITY_STEPS
        invariant
            1 <= step <= OPACITY_STEPS + 1,
            checked == nearest_step(current as int),
            entries@ =~= Seq::new((step - 1) as nat, |i: int| opacity_entry(i + 1, current)),
        decreases OPACITY_STEPS + 1 - step,
    {
        let percentage: u32 = 10 * (step as u32);
        let entry = MenuEntry::Opacity {
            id: OPACITY_ID_BASE + step,
            percentage,
            checked: step == checked,
        };
        entries.push(entry);
        step = step + 1;
    }
    entries.push(MenuEntry::Separator);
    entries.push(MenuEntry::Close { id: CLOSE_ID });
    entries
}

/// What menu command `id` asks for: the close entry quits, an opacity entry
/// sets its opacity, anything else is left to the default handling.
pub fn decode_command(id: u16) -> (r: MenuCommand)
    ensures
        r == command_of(id),
        id == 1011 ==> r == MenuCommand::Quit,
        1001 <= id <= 1010 ==> r == MenuCommand::SetOpacity((255 * (id - 1000) / 10) as u8),
        (id < 1001 || id > 1011) ==> r == MenuCommand::Unhandled,
{
    if id == CLOSE_ID {
        MenuCommand::Quit
    } else if OPACITY_ID_BASE < id && id <= OPACITY_ID_BASE + OPACITY_STEPS {
        let step = id - OPACITY_ID_BASE;
        MenuCommand::SetOpacity(opacity_for_percentage(10 * (step as u32)))
    } else {
        MenuCommand::Unhandled
    }
}

/// Bounds that pin down the opacity of a step: it is 25.5 times the step, rounded down.
proof fn lemma_step_opacity_bounds(step: int)
    requires
        1 <= step <= OPACITY_STEPS,
    ensures
        51 * step - 2 <= 2 * step_opacity(step) <= 51 * step,
        0 <= step_opacity(step) <= 255,
{
}

/// Every entry of the menu does what its label says: picking the opacity
/// entry labelled `p`% sets the opacity that `p` percent stands for, and
/// picking the close entry quits.
pub proof fn lemma_menu_entries_decode(current: u8, i: int)
    requires
        0 <= i < context_menu_entries(current).len(),
    ensures
        match context_menu_entries(current)[i] {
            MenuEntry::Opacity { id, percentage, .. } =>
                command_of(id) == MenuCommand::SetOpacity(percentage_opacity(percentage as int) as u8),
            MenuEntry::Close { id } => command_of(id) == MenuCommand::Quit,
            MenuEntry::Separator => true,
        },
{
    if i < OPACITY_STEPS {
        lemma_step_opacity_bounds(i + 1);
    }
}

/// After opacity step `chosen` was picked, the menu shows the check mark on
/// that entry and on no other.
pub proof fn lemma_chosen_step_checked(chosen: int, i: int)
    requires
        1 <= chosen <= OPACITY_STEPS,
        0 <= i < OPACITY_STEPS,
    ensures
        context_menu_entries(step_opacity(chosen) as u8)[i] matches MenuEntry::Opacity { checked, .. }
            && (checked <==> i + 1 == chosen),
{
    let current = step_opacity(chosen) as u8;
    lemma_step_opacity_bounds(chosen);
    lemma_step_opacity_bounds(i + 1);
    lemma_nearest_step_upto_minimal(OPACITY_STEPS as int, current as int);
    let n = nearest_step(current as int);
    lemma_step_opacity_bounds(n);
    assert(step_distance(chosen, current as int) == 0);
    assert(step_distance(n, current as int) == 0);
}

/// `nearest_step_upto(n, current)` is a step of `1 ..= n`, no step of that
/// range lies nearer to `current`, and every step equally near is higher.
proof fn lemma_nearest_step_upto_minimal(n: int, current: int)
    requires
        1 <= n,
    ensures
        1 <= nearest_step_upto(n, current) <= n,
        forall|j: int| 1 <= j <= n ==> {
            ||| step_distance(nearest_step_upto(n, current), current) < #[trigger] step_distance(j, current)
            ||| (step_distance(nearest_step_upto(n, current), current) == step_distance(j, current)
                && nearest_step_upto(n, current) <= j)
        },
    decreases n,
{
    if n > 1 {
        lemma_nearest_step_upto_minimal(n - 1, current);
    }
}

/// For every opacity exactly one opacity entry carries the check mark: that
/// of the step whose opacity equals or lies nearest to the current one, and of
/// two steps equally near, the lower.
pub proof fn lemma_exactly_one_checked(current: u8)
    ensures
        1 <= nearest_step(current as int) <= OPACITY_STEPS,
        forall|j: int| 1 <= j <= OPACITY_STEPS ==>
            step_distance(nearest_step(current as int), current as int) <= #[trigger] step_distance(j, current as int),
        forall|j: int| 1 <= j <= OPACITY_STEPS
            && #[trigger] step_distance(j, current as int) == step_distance(nearest_step(current as int), current as int)
            ==> nearest_step(current as int) <= j,
        forall|i: int| 0 <= i < OPACITY_STEPS ==> ((#[trigger] context_menu_entries(current)[i])
            matches MenuEntry::Opacity { checked, .. } && (checked <==> i + 1 == nearest_step(current as int))),
{
    lemma_nearest_step_upto_minimal(OPACITY_STEPS as int, current as int);
}

/// The distance between two opacities.
pub open spec fn opacity_gap(a: int, b: int) -> int {
    if a >= b { a - b } else { b - a }
}

/// The context menu lists, whatever the current opacity, the opacity entries
/// 10%, 20%, .., 100% in that order with the command ids 1001 .. 1010, then
/// a separator, then the close entry with id 1011.
pub proof fn lemma_menu_layout(current: u8)
    ensures
        context_menu_entries(current).len() == 12,
        forall|i: int| 0 <= i < 10 ==> ((#[trigger] context_menu_entries(current)[i])
            matches MenuEntry::Opacity { id, percentage, .. } && id == 1001 + i && percentage == 10 * (i + 1)),
        context_menu_entries(current)[10] == MenuEntry::Separator,
        context_menu_entries(current)[11] == (MenuEntry::Close { id: 1011 }),
{
}

/// Whether an entry carries the check mark (only opacity entries can).
pub open spec fn entry_checked(e: MenuEntry) -> bool {
    match e {
        MenuEntry::Opacity { checked, .. } => checked,
        _ => false,
    }
}

/// The percentage an entry stands for (0 for the entries that set no opacity).
pub open spec fn entry_percentage(e: MenuEntry) -> int {
    match e {
        MenuEntry::Opacity { percentage, .. } => percentage as int,
        _ => 0,
    }
}

/// Whatever the current opacity `c`, exactly one entry of the opacity menu is
/// checked, and its opacity 255 * p / 100 (p its percentage) lies at least as
/// near to `c` as that of any other entry, and strictly nearer than that of
/// every entry above it.
pub proof fn lemma_checked_entry_is_nearest(c: u8)
    ensures
        exists|i: int| 0 <= i < 10 && entry_checked(#[trigger] context_menu_entries(c)[i]),
        forall|i: int, j: int|
            0 <= i < 10 && 0 <= j < 10 && entry_checked(#[trigger] context_menu_entries(c)[i]) ==> {
                let gi = opacity_gap(255 * entry_percentage(context_menu_entries(c)[i]) / 100, c as int);
                let gj = opacity_gap(255 * entry_percentage(#[trigger] context_menu_entries(c)[j]) / 100, c as int);
                &&& gi <= gj
                &&& (j < i ==> gi < gj)
                &&& (entry_checked(context_menu_entries(c)[j]) ==> i == j)
            },
{
    lemma_nearest_step_upto_minimal(OPACITY_STEPS as int, c as int);
    let n = nearest_step(c as int);
    let e = context_menu_entries(c);
    assert(entry_checked(e[n - 1]));
    assert forall|i: int, j: int|
        0 <= i < 10 && 0 <= j < 10 && entry_checked(#[trigger] e[i]) implies {
            let gi = opacity_gap(255 * entry_percentage(e[i]) / 100, c as int);
            let gj = opacity_gap(255 * entry_percentage(#[trigger] e[j]) / 100, c as int);
            &&& gi <= gj
            &&& (j < i ==> gi < gj)
            &&& (entry_checked(e[j]) ==> i == j)
        } by {
        assert(step_distance(i + 1, c as int) == opacity_gap(255 * entry_percentage(e[i]) / 100, c as int));
        assert(step_distance(j + 1, c as int) == opacity_gap(255 * entry_percentage(e[j]) / 100, c as int));
        assert(1 <= j + 1 <= OPACITY_STEPS);
        assert(step_distance(j + 1, c as int) >= step_distance(n, c as int));
    }
}

/// No two entries of the menu send the same command id, so a command names
/// exactly one entry.
pub proof fn lemma_menu_ids_distinct(current: u8, i: int, j: int)
    requires
        0 <= i < context_menu_entries(current).len(),
        0 <= j < context_menu_entries(current).len(),
        i != j,
        context_menu_entries(current)[i] !is Separator,
        context_menu_entries(current)[j] !is Separator,
    ensures
        entry_id(context_menu_entries(current)[i]) != entry_id(context_menu_entries(current)[j]),
{
}

/// The command id an entry sends (0 for the separator, which sends none).
pub open spec fn entry_id(e: MenuEntry) -> u16 {
    match e {
        MenuEntry::Opacity { id, .. } => id,
        MenuEntry::Close { id } => id,
        MenuEntry::Separator => 0,
    }
}

} // verus!
