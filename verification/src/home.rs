//! Smart Home state shared by the Dashboard and the Smart Home page: the
//! lights and their groups, the thermostat, and how each reads on screen.
use crate::text::{
    chars_of, decimal, find_seq, find_seq_from, lemma_find_seq, push_decimal, push_signed, push_str,
    signed_decimal, string_of, string_of_range, trim_end_char, trim_end_len, vec_eq,
};
use vstd::prelude::*;

verus! {

/// The control center's setpoint band in whole °F, and the Auto gap.
pub const SETPOINT_MIN: i64 = 67;
pub const SETPOINT_MAX: i64 = 77;
pub const RANGE_GAP: i64 = 2;
/// What a thermostat without remembered setpoints starts from.
pub const DEFAULT_TARGET: i64 = 72;
pub const DEFAULT_LOW: i64 = 68;
pub const DEFAULT_HIGH: i64 = 74;

#[derive(Clone, Copy, Debug, PartialEq, Eq, Structural)]
pub enum SwitchKey {
    All,
    Lamps,
    BedroomLamps,
    LivingRoomLamps,
    KitchenCeiling,
    UnderCabinet,
}

#[derive(Clone, Debug, PartialEq, Eq)]
pub struct HomeSwitch {
    pub key: SwitchKey,
    pub label: String,
    pub room: String,
    pub on: bool,
    pub pending: bool,
}

#[derive(Clone, Copy, Debug, PartialEq, Eq, Structural)]
pub enum ClimateMode {
    Off,
    Cool,
    Heat,
    HeatCool,
}

/// The thermostat as the daemon last read it, with the changes shown
/// ahead of its confirmation.
#[derive(Clone, Debug, PartialEq, Eq)]
pub struct HomeClimate {
    pub mode: ClimateMode,
    pub action: Option<String>,
    pub target: Option<i64>,
    pub target_low: Option<i64>,
    pub target_high: Option<i64>,
    pub pending: bool,
}

#[derive(Clone, Debug, PartialEq, Eq)]
pub struct HomeConnection {
    pub base_url: String,
    pub access_token: bool,
}

#[derive(Clone, Debug, PartialEq, Eq)]
pub struct ActionView {
    pub id: String,
    pub summary: String,
    pub state: String,
    pub error: Option<String>,
    pub created_at: i64,
    pub finished_at: Option<i64>,
}

/// The home as the daemon last read it.
#[derive(Clone, Debug, PartialEq, Eq)]
pub struct HomeSnapshot {
    pub connection: Option<HomeConnection>,
    pub reachable: bool,
    pub error: Option<String>,
    pub switches: Vec<HomeSwitch>,
    pub climate: Option<HomeClimate>,
    pub actions: Vec<ActionView>,
}

/// The tone a status line is drawn in.
#[derive(Clone, Copy, Debug, PartialEq, Eq, Structural)]
pub enum Tone {
    Neutral,
    Info,
    Success,
    Warning,
    Danger,
}

/// The icon for each switch.
pub fn glyph(key: SwitchKey) -> (r: &'static str)
    ensures
        r@ == spec_glyph(key),
{
    match key {
        SwitchKey::All => "bulb",
        SwitchKey::Lamps => "lamp",
        SwitchKey::BedroomLamps => "bed",
        SwitchKey::LivingRoomLamps => "sofa",
        SwitchKey::KitchenCeiling => "ceiling",
        SwitchKey::UnderCabinet => "strip",
    }
}

pub open spec fn spec_glyph(key: SwitchKey) -> Seq<char> {
    match key {
        SwitchKey::All => "bulb"@,
        SwitchKey::Lamps => "lamp"@,
        SwitchKey::BedroomLamps => "bed"@,
        SwitchKey::LivingRoomLamps => "sofa"@,
        SwitchKey::KitchenCeiling => "ceiling"@,
        SwitchKey::UnderCabinet => "strip"@,
    }
}

/// The individual switches a group covers; empty for a single switch.
pub open spec fn spec_members(key: SwitchKey) -> Seq<SwitchKey> {
    match key {
        SwitchKey::All => seq![
            SwitchKey::BedroomLamps,
            SwitchKey::LivingRoomLamps,
            SwitchKey::KitchenCeiling,
            SwitchKey::UnderCabinet,
        ],
        SwitchKey::Lamps => seq![SwitchKey::BedroomLamps, SwitchKey::LivingRoomLamps],
        _ => Seq::empty(),
    }
}

/// The individual switches a group covers; empty for a single switch.
pub fn members(key: SwitchKey) -> (r: Vec<SwitchKey>)
    ensures
        r@ == spec_members(key),
{
    let mut v: Vec<SwitchKey> = Vec::new();
    match key {
        SwitchKey::All => {
            v.push(SwitchKey::BedroomLamps);
            v.push(SwitchKey::LivingRoomLamps);
            v.push(SwitchKey::KitchenCeiling);
            v.push(SwitchKey::UnderCabinet);
        },
        SwitchKey::Lamps => {
            v.push(SwitchKey::BedroomLamps);
            v.push(SwitchKey::LivingRoomLamps);
        },
        _ => {},
    }
    assert(v@ =~= spec_members(key));
    v
}

/// The position of the first switch with this key.
pub open spec fn find_switch(switches: Seq<HomeSwitch>, key: SwitchKey, from: int) -> Option<int>
    decreases switches.len() - from,
{
    if from < 0 || from >= switches.len() {
        None
    } else if switches[from].key == key {
        Some(from)
    } else {
        find_switch(switches, key, from + 1)
    }
}

/// Whether the first switch with this key is on; a missing switch is off.
pub open spec fn is_on(switches: Seq<HomeSwitch>, key: SwitchKey) -> bool {
    match find_switch(switches, key, 0) {
        Some(i) => switches[i].on,
        None => false,
    }
}

pub open spec fn is_pending(switches: Seq<HomeSwitch>, key: SwitchKey) -> bool {
    match find_switch(switches, key, 0) {
        Some(i) => switches[i].pending,
        None => false,
    }
}

fn find_exec(switches: &Vec<HomeSwitch>, key: SwitchKey) -> (r: Option<usize>)
    ensures
        match r {
            Some(i) => find_switch(switches@, key, 0) == Some(i as int) && i < switches.len(),
            None => find_switch(switches@, key, 0) is None,
        },
{
    let mut i: usize = 0;
    while i < switches.len()
        invariant
            i <= switches.len(),
            find_switch(switches@, key, 0) == find_switch(switches@, key, i as int),
        decreases switches.len() - i,
    {
        if switches[i].key == key {
            return Some(i);
        }
        i += 1;
    }
    None
}

fn on_exec(switches: &Vec<HomeSwitch>, key: SwitchKey) -> (r: bool)
    ensures
        r == is_on(switches@, key),
{
    match find_exec(switches, key) {
        Some(i) => switches[i].on,
        None => false,
    }
}

/// How many of `keys` are on.
pub open spec fn count_on(switches: Seq<HomeSwitch>, keys: Seq<SwitchKey>) -> nat
    decreases keys.len(),
{
    if keys.len() == 0 {
        0
    } else {
        count_on(switches, keys.drop_last()) + (if is_on(switches, keys.last()) {
            1nat
        } else {
            0nat
        })
    }
}

/// How a tile should read: on, partly on, and a line such as "2 of 4 on".
pub struct TileState {
    pub on: bool,
    pub mixed: bool,
    pub pending: bool,
    pub detail: Option<String>,
}

/// A tile's reading: a single switch by itself, a group by its members, so
/// a tile never contradicts them.
pub open spec fn tile_reads(
    switches: Seq<HomeSwitch>,
    key: SwitchKey,
    on: bool,
    mixed: bool,
    pending: bool,
    detail: Option<Seq<char>>,
) -> bool {
    let group = spec_members(key);
    let lit = count_on(switches, group);
    &&& pending == is_pending(switches, key)
    &&& if group.len() == 0 {
        on == is_on(switches, key) && !mixed && detail is None
    } else {
        &&& on == (lit == group.len())
        &&& mixed == (lit > 0 && lit < group.len())
        &&& detail == (if lit > 0 && lit < group.len() {
            Some(decimal(lit) + " of "@ + decimal(group.len()) + " on"@)
        } else {
            None
        })
    }
}

/// How a tile reads: on, partly on, and a line such as "2 of 4 on".
/// Groups are judged by their members.
pub fn tile_state(snapshot: &HomeSnapshot, key: SwitchKey) -> (r: TileState)
    ensures
        tile_reads(
            snapshot.switches@,
            key,
            r.on,
            r.mixed,
            r.pending,
            match r.detail {
                Some(d) => Some(d@),
                None => None,
            },
        ),
{
    let switches = &snapshot.switches;
    let pending = match find_exec(switches, key) {
        Some(i) => switches[i].pending,
        None => false,
    };
    let group = members(key);
    if group.len() == 0 {
        return TileState { on: on_exec(switches, key), mixed: false, pending, detail: None };
    }
    let mut lit: usize = 0;
    let mut i: usize = 0;
    while i < group.len()
        invariant
            i <= group.len() <= 4,
            lit <= i,
            lit == count_on(switches@, group@.take(i as int)),
        decreases group.len() - i,
    {
        proof {
            assert(group@.take(i + 1).drop_last() == group@.take(i as int));
        }
        if on_exec(switches, group[i]) {
            lit += 1;
        }
        i += 1;
    }
    proof {
        assert(group@.take(group.len() as int) == group@);
    }
    let mixed = lit > 0 && lit < group.len();
    let detail = if mixed {
        let mut text: Vec<char> = Vec::new();
        push_decimal(&mut text, lit as u64);
        push_str(&mut text, " of ");
        push_decimal(&mut text, group.len() as u64);
        push_str(&mut text, " on");
        Some(string_of(&text))
    } else {
        None
    };
    TileState { on: lit == group.len(), mixed, pending, detail }
}

/// Whether pressing `group` changes `member`: All covers every switch,
/// Lamps covers itself and the two lamp switches, anything else only itself.
pub open spec fn covers(group: SwitchKey, member: SwitchKey) -> bool {
    match group {
        SwitchKey::All => true,
        SwitchKey::Lamps => member == SwitchKey::Lamps || member == SwitchKey::BedroomLamps || member
            == SwitchKey::LivingRoomLamps,
        _ => group == member,
    }
}

/// The switches right after pressing: everything the pressed switch covers
/// takes the new state and waits for confirmation.
pub open spec fn pressed(switches: Seq<HomeSwitch>, key: SwitchKey, on: bool) -> Seq<HomeSwitch> {
    switches.map_values(
        |s: HomeSwitch|
            if covers(key, s.key) {
                HomeSwitch { on, pending: true, ..s }
            } else {
                s
            },
    )
}

/// Any lamp is on.
pub open spec fn lamps_on(switches: Seq<HomeSwitch>) -> bool {
    is_on(switches, SwitchKey::BedroomLamps) || is_on(switches, SwitchKey::LivingRoomLamps)
}

/// Every individual light is on.
pub open spec fn everything_on(switches: Seq<HomeSwitch>) -> bool {
    is_on(switches, SwitchKey::BedroomLamps) && is_on(switches, SwitchKey::LivingRoomLamps) && is_on(
        switches,
        SwitchKey::KitchenCeiling,
    ) && is_on(switches, SwitchKey::UnderCabinet)
}

/// The groups that were not pressed follow their members.
pub open spec fn regrouped(switches: Seq<HomeSwitch>, key: SwitchKey) -> Seq<HomeSwitch> {
    let lamps = lamps_on(switches);
    let everything = everything_on(switches);
    switches.map_values(
        |s: HomeSwitch|
            if s.key == SwitchKey::Lamps && key != SwitchKey::Lamps {
                HomeSwitch { on: lamps, ..s }
            } else if s.key == SwitchKey::All && key != SwitchKey::All {
                HomeSwitch { on: everything, ..s }
            } else {
                s
            },
    )
}

/// The switches after pressing `key`.
pub open spec fn spec_apply_switch(switches: Seq<HomeSwitch>, key: SwitchKey, on: bool) -> Seq<HomeSwitch> {
    regrouped(pressed(switches, key, on), key)
}

/// Mirror the control center's group rules so a switch and the groups that
/// contain it agree the moment it is pressed: a group is on while any member
/// is, and All is on only when everything is.
pub fn apply_switch(snapshot: &mut HomeSnapshot, key: SwitchKey, on: bool)
    ensures
        final(snapshot).switches@ == spec_apply_switch(old(snapshot).switches@, key, on),
        final(snapshot).connection == old(snapshot).connection,
        final(snapshot).reachable == old(snapshot).reachable,
        final(snapshot).error == old(snapshot).error,
        final(snapshot).climate == old(snapshot).climate,
        final(snapshot).actions == old(snapshot).actions,
{
    let mut switches: Vec<HomeSwitch> = Vec::new();
    std::mem::swap(&mut switches, &mut snapshot.switches);
    let ghost start = switches@;
    let mut out: Vec<HomeSwitch> = Vec::new();
    for s in it: switches.into_iter()
        invariant
            it.seq() == start,
            out@ == pressed(start, key, on).take(it.index() as int),
    {
        let covered = match key {
            SwitchKey::All => true,
            SwitchKey::Lamps => s.key == SwitchKey::Lamps || s.key == SwitchKey::BedroomLamps || s.key
                == SwitchKey::LivingRoomLamps,
            _ => key == s.key,
        };
        let mut s = s;
        if covered {
            s.on = on;
            s.pending = true;
        }
        out.push(s);
        proof {
            assert(pressed(start, key, on).take(it.index() + 1) =~= pressed(start, key, on).take(
                it.index() as int,
            ).push(s));
        }
    }
    proof {
        assert(out@ =~= pressed(start, key, on));
    }
    let ghost mid = out@;
    let lamps = on_exec(&out, SwitchKey::BedroomLamps) || on_exec(&out, SwitchKey::LivingRoomLamps);
    let everything = on_exec(&out, SwitchKey::BedroomLamps) && on_exec(
        &out,
        SwitchKey::LivingRoomLamps,
    ) && on_exec(&out, SwitchKey::KitchenCeiling) && on_exec(&out, SwitchKey::UnderCabinet);
    let mut grouped: Vec<HomeSwitch> = Vec::new();
    for s in it: out.into_iter()
        invariant
            it.seq() == mid,
            lamps == lamps_on(mid),
            everything == everything_on(mid),
            grouped@ == regrouped(mid, key).take(it.index() as int),
    {
        let mut s = s;
        if s.key == SwitchKey::Lamps && key != SwitchKey::Lamps {
            s.on = lamps;
        } else if s.key == SwitchKey::All && key != SwitchKey::All {
            s.on = everything;
        }
        grouped.push(s);
        proof {
            assert(regrouped(mid, key).take(it.index() + 1) =~= regrouped(mid, key).take(
                it.index() as int,
            ).push(s));
        }
    }
    proof {
        assert(grouped@ =~= regrouped(mid, key));
    }
    snapshot.switches = grouped;
}


// ----- Groups and their members --------------------------------------------

/// Where `find_switch` lands, the key is there.
proof fn lemma_find_switch(s: Seq<HomeSwitch>, key: SwitchKey, from: int)
    ensures
        find_switch(s, key, from) matches Some(i) ==> from <= i < s.len() && s[i].key == key,
    decreases s.len() - from,
{
    if 0 <= from < s.len() && s[from].key != key {
        lemma_find_switch(s, key, from + 1);
    }
}

/// Rewriting switches without touching their keys leaves every key where it was.
proof fn lemma_find_same_keys(s: Seq<HomeSwitch>, t: Seq<HomeSwitch>, key: SwitchKey, from: int)
    requires
        s.len() == t.len(),
        forall|i: int| 0 <= i < s.len() ==> #[trigger] s[i].key == t[i].key,
    ensures
        find_switch(s, key, from) == find_switch(t, key, from),
    decreases s.len() - from,
{
    if 0 <= from < s.len() {
        assert(s[from].key == t[from].key);
        lemma_find_same_keys(s, t, key, from + 1);
    }
}

/// A single light (no group) reads the same before and after the groups
/// are brought in line.
proof fn lemma_single_unchanged_by_regroup(p: Seq<HomeSwitch>, key: SwitchKey, k: SwitchKey)
    requires
        k != SwitchKey::Lamps,
        k != SwitchKey::All,
    ensures
        is_on(regrouped(p, key), k) == is_on(p, k),
{
    let r = regrouped(p, key);
    assert forall|i: int| 0 <= i < p.len() implies #[trigger] p[i].key == r[i].key by {}
    lemma_find_same_keys(p, r, k, 0);
    lemma_find_switch(p, k, 0);
}

/// A light that a press covers takes the pressed state; one it does not
/// cover keeps its own.
proof fn lemma_pressed_light(s: Seq<HomeSwitch>, key: SwitchKey, on: bool, k: SwitchKey)
    ensures
        find_switch(s, k, 0) is Some ==> is_on(pressed(s, key, on), k) == (if covers(key, k) {
            on
        } else {
            is_on(s, k)
        }),
        find_switch(s, k, 0) is None ==> !is_on(pressed(s, key, on), k),
{
    let p = pressed(s, key, on);
    assert forall|i: int| 0 <= i < s.len() implies #[trigger] s[i].key == p[i].key by {}
    lemma_find_same_keys(s, p, k, 0);
    lemma_find_switch(s, k, 0);
}

/// The home has a switch with this key.
pub open spec fn has_switch(s: Seq<HomeSwitch>, key: SwitchKey) -> bool {
    find_switch(s, key, 0) is Some
}

/// After any press, every group switch reads as its members do: Lamps is on
/// exactly when a lamp is, and All exactly when every light is. The one
/// exception is a group turned on while members it covers are missing.
pub proof fn law_groups_agree_with_members(s: Seq<HomeSwitch>, key: SwitchKey, on: bool)
    requires
        key == SwitchKey::Lamps && on && has_switch(s, SwitchKey::Lamps) ==> has_switch(
            s,
            SwitchKey::BedroomLamps,
        ) || has_switch(s, SwitchKey::LivingRoomLamps),
        key == SwitchKey::All && on && has_switch(s, SwitchKey::All) ==> {
            &&& has_switch(s, SwitchKey::BedroomLamps)
            &&& has_switch(s, SwitchKey::LivingRoomLamps)
            &&& has_switch(s, SwitchKey::KitchenCeiling)
            &&& has_switch(s, SwitchKey::UnderCabinet)
        },
    ensures
        ({
            let r = spec_apply_switch(s, key, on);
            forall|i: int|
                0 <= i < r.len() ==> (#[trigger] r[i].key == SwitchKey::Lamps ==> r[i].on
                    == lamps_on(r)) && (r[i].key == SwitchKey::All ==> r[i].on == everything_on(
                    r,
                ))
        }),
{
    let p = pressed(s, key, on);
    let r = regrouped(p, key);
    lemma_single_unchanged_by_regroup(p, key, SwitchKey::BedroomLamps);
    lemma_single_unchanged_by_regroup(p, key, SwitchKey::LivingRoomLamps);
    lemma_single_unchanged_by_regroup(p, key, SwitchKey::KitchenCeiling);
    lemma_single_unchanged_by_regroup(p, key, SwitchKey::UnderCabinet);
    lemma_pressed_light(s, key, on, SwitchKey::BedroomLamps);
    lemma_pressed_light(s, key, on, SwitchKey::LivingRoomLamps);
    lemma_pressed_light(s, key, on, SwitchKey::KitchenCeiling);
    lemma_pressed_light(s, key, on, SwitchKey::UnderCabinet);
    assert forall|i: int| 0 <= i < r.len() && #[trigger] r[i].key == SwitchKey::Lamps implies r[i].on
        == lamps_on(r) by {
        if key == SwitchKey::Lamps {
            assert(s[i].key == SwitchKey::Lamps);
            if on {
                lemma_find_has(s, SwitchKey::Lamps, i);
            }
        }
    }
    assert forall|i: int| 0 <= i < r.len() && #[trigger] r[i].key == SwitchKey::All implies r[i].on
        == everything_on(r) by {
        if key == SwitchKey::All {
            assert(s[i].key == SwitchKey::All);
            if on {
                lemma_find_has(s, SwitchKey::All, i);
            }
        }
    }
}

/// Pressing a switch: the switches keep their keys, order, labels and
/// rooms; every switch the press covers waits for confirmation and takes
/// the pressed state, except a group that was not itself pressed; the
/// Lamps group, unless pressed, is on exactly when a lamp is after the
/// press, and All, unless pressed, exactly when every light is; nothing
/// else changes.
pub proof fn law_apply_switch(s: Seq<HomeSwitch>, key: SwitchKey, on: bool)
    ensures
        ({
            let r = spec_apply_switch(s, key, on);
            &&& r.len() == s.len()
            &&& forall|i: int|
                0 <= i < r.len() ==> (#[trigger] r[i]).key == s[i].key && r[i].label == s[i].label
                    && r[i].room == s[i].room
            &&& forall|i: int| 0 <= i < r.len() && covers(key, s[i].key) ==> (#[trigger] r[i]).pending
            &&& forall|i: int|
                0 <= i < r.len() && covers(key, s[i].key) && !(s[i].key == SwitchKey::Lamps && key
                    != SwitchKey::Lamps) && !(s[i].key == SwitchKey::All && key != SwitchKey::All)
                    ==> (#[trigger] r[i]).on == on
            &&& forall|i: int|
                0 <= i < r.len() && s[i].key == SwitchKey::Lamps && key != SwitchKey::Lamps
                    ==> (#[trigger] r[i]).on == lamps_on(r)
            &&& forall|i: int|
                0 <= i < r.len() && s[i].key == SwitchKey::All && key != SwitchKey::All
                    ==> (#[trigger] r[i]).on == everything_on(r)
            &&& forall|i: int|
                0 <= i < r.len() && !covers(key, s[i].key) && s[i].key != SwitchKey::Lamps
                    && s[i].key != SwitchKey::All ==> #[trigger] r[i] == s[i]
            &&& forall|i: int|
                0 <= i < r.len() && !covers(key, s[i].key) ==> (#[trigger] r[i]).pending == s[i].pending
        }),
{
    let p = pressed(s, key, on);
    lemma_single_unchanged_by_regroup(p, key, SwitchKey::BedroomLamps);
    lemma_single_unchanged_by_regroup(p, key, SwitchKey::LivingRoomLamps);
    lemma_single_unchanged_by_regroup(p, key, SwitchKey::KitchenCeiling);
    lemma_single_unchanged_by_regroup(p, key, SwitchKey::UnderCabinet);
}

/// A key that occurs somewhere is found.
proof fn lemma_find_has(s: Seq<HomeSwitch>, key: SwitchKey, i: int)
    requires
        0 <= i < s.len(),
        s[i].key == key,
    ensures
        has_switch(s, key),
{
    lemma_find_from_has(s, key, 0, i);
}

proof fn lemma_find_from_has(s: Seq<HomeSwitch>, key: SwitchKey, from: int, i: int)
    requires
        0 <= from <= i < s.len(),
        s[i].key == key,
    ensures
        find_switch(s, key, from) is Some,
    decreases i - from,
{
    if s[from].key != key {
        lemma_find_from_has(s, key, from + 1, i);
    }
}

// ----- The thermostat --------------------------------------------------------

/// `x.clamp(lo, hi)` for `lo <= hi`.
pub open spec fn clamped(x: int, lo: int, hi: int) -> int {
    if x < lo {
        lo
    } else if x > hi {
        hi
    } else {
        x
    }
}

/// The setpoint a mode other than Auto holds to.
pub open spec fn held_target(c: HomeClimate) -> int {
    match c.target {
        Some(t) => t as int,
        None => DEFAULT_TARGET as int,
    }
}

/// The low end of the Auto range.
pub open spec fn held_low(c: HomeClimate) -> int {
    match c.target_low {
        Some(t) => t as int,
        None => DEFAULT_LOW as int,
    }
}

/// The high end of the Auto range.
pub open spec fn held_high(c: HomeClimate) -> int {
    match c.target_high {
        Some(t) => t as int,
        None => DEFAULT_HIGH as int,
    }
}

/// The climate once `mode` is chosen: Auto starts from the remembered range
/// or the default one.
pub open spec fn with_mode(c: HomeClimate, mode: ClimateMode) -> HomeClimate {
    if mode == ClimateMode::HeatCool {
        HomeClimate {
            mode,
            pending: true,
            target_low: Some(held_low(c) as i64),
            target_high: Some(held_high(c) as i64),
            ..c
        }
    } else {
        HomeClimate { mode, pending: true, ..c }
    }
}

/// The single target after moving it by `delta`, kept within the band.
pub open spec fn stepped_target(c: HomeClimate, delta: int) -> int {
    clamped(held_target(c) + delta, SETPOINT_MIN as int, SETPOINT_MAX as int)
}

/// Whether moving one end of the Auto range by `delta` stays within `i64`
/// and leaves the band for that end non-empty.
pub open spec fn range_step_ok(c: HomeClimate, high: bool, delta: int) -> bool {
    if high {
        &&& i64::MIN <= held_high(c) + delta <= i64::MAX
        &&& held_low(c) + RANGE_GAP <= SETPOINT_MAX
    } else {
        &&& i64::MIN <= held_low(c) + delta <= i64::MAX
        &&& SETPOINT_MIN <= held_high(c) - RANGE_GAP
    }
}

/// The Auto range `(low, high)` after moving one end by `delta`, the ends
/// kept `RANGE_GAP` apart.
pub open spec fn stepped_range(c: HomeClimate, high: bool, delta: int) -> (int, int) {
    let low = held_low(c);
    let top = held_high(c);
    if high {
        (low, clamped(top + delta, low + RANGE_GAP, SETPOINT_MAX as int))
    } else {
        (clamped(low + delta, SETPOINT_MIN as int, top - RANGE_GAP), top)
    }
}

impl HomeClimate {
    /// Choose a mode. The change shows at once, waiting for confirmation.
    pub fn set_mode(&mut self, mode: ClimateMode)
        ensures
            *final(self) == with_mode(*old(self), mode),
    {
        self.mode = mode;
        self.pending = true;
        if mode == ClimateMode::HeatCool {
            if self.target_low.is_none() {
                self.target_low = Some(DEFAULT_LOW);
            }
            if self.target_high.is_none() {
                self.target_high = Some(DEFAULT_HIGH);
            }
        }
    }

    /// Move the single target by `delta` degrees within the band.
    pub fn step_target(&mut self, delta: i64) -> (target: i64)
        requires
            i64::MIN <= held_target(*old(self)) + delta <= i64::MAX,
        ensures
            target == stepped_target(*old(self), delta as int),
            SETPOINT_MIN <= target <= SETPOINT_MAX,
            *final(self) == (HomeClimate { target: Some(target), pending: true, ..*old(self) }),
    {
        let moved = match self.target {
            Some(t) => t,
            None => DEFAULT_TARGET,
        } + delta;
        let target = if moved < SETPOINT_MIN {
            SETPOINT_MIN
        } else if moved > SETPOINT_MAX {
            SETPOINT_MAX
        } else {
            moved
        };
        self.target = Some(target);
        self.pending = true;
        target
    }

    /// Move one end of the Auto range, keeping the ends `RANGE_GAP` apart.
    pub fn step_range(&mut self, high: bool, delta: i64) -> (r: (i64, i64))
        requires
            range_step_ok(*old(self), high, delta as int),
        ensures
            (r.0 as int, r.1 as int) == stepped_range(*old(self), high, delta as int),
            r.1 - r.0 >= RANGE_GAP,
            *final(self) == (HomeClimate {
                target_low: Some(r.0),
                target_high: Some(r.1),
                pending: true,
                ..*old(self)
            }),
    {
        let mut low = match self.target_low {
            Some(t) => t,
            None => DEFAULT_LOW,
        };
        let mut top = match self.target_high {
            Some(t) => t,
            None => DEFAULT_HIGH,
        };
        if high {
            let moved = top + delta;
            let least = low + RANGE_GAP;
            top = if moved < least {
                least
            } else if moved > SETPOINT_MAX {
                SETPOINT_MAX
            } else {
                moved
            };
        } else {
            let moved = low + delta;
            let most = top - RANGE_GAP;
            low = if moved < SETPOINT_MIN {
                SETPOINT_MIN
            } else if moved > most {
                most
            } else {
                moved
            };
        }
        self.target_low = Some(low);
        self.target_high = Some(top);
        self.pending = true;
        (low, top)
    }
}

/// What the thermostat holds to, as a line shows it: "72°", or "68–74°" in Auto.
pub open spec fn spec_target_text(c: HomeClimate) -> Seq<char> {
    if c.mode == ClimateMode::HeatCool {
        signed_decimal(held_low(c)) + "–"@ + signed_decimal(held_high(c)) + "°"@
    } else {
        signed_decimal(held_target(c)) + "°"@
    }
}

/// What the thermostat is doing, and the tone that says it.
pub open spec fn spec_climate_status(c: HomeClimate) -> (Seq<char>, Tone) {
    if c.mode == ClimateMode::Off {
        ("Thermostat off"@, Tone::Neutral)
    } else {
        match c.action {
            Some(a) if a@ == "Cooling"@ => ("Cooling to "@ + spec_target_text(c), Tone::Info),
            Some(a) if a@ == "Heating"@ => ("Heating to "@ + spec_target_text(c), Tone::Warning),
            _ => ("Holding "@ + spec_target_text(c), Tone::Neutral),
        }
    }
}

/// What the thermostat is doing, and the tone that says it.
pub fn climate_status(climate: &HomeClimate) -> (r: (String, Tone))
    ensures
        r.0@ == spec_climate_status(*climate).0,
        r.1 == spec_climate_status(*climate).1,
{
    let mut line: Vec<char> = Vec::new();
    if climate.mode == ClimateMode::Off {
        push_str(&mut line, "Thermostat off");
        return (string_of(&line), Tone::Neutral);
    }
    let mut target: Vec<char> = Vec::new();
    if climate.mode == ClimateMode::HeatCool {
        push_signed(
            &mut target,
            match climate.target_low {
                Some(t) => t,
                None => DEFAULT_LOW,
            },
        );
        push_str(&mut target, "–");
        push_signed(
            &mut target,
            match climate.target_high {
                Some(t) => t,
                None => DEFAULT_HIGH,
            },
        );
        push_str(&mut target, "°");
    } else {
        push_signed(
            &mut target,
            match climate.target {
                Some(t) => t,
                None => DEFAULT_TARGET,
            },
        );
        push_str(&mut target, "°");
    }
    let (cooling, heating) = match &climate.action {
        Some(a) => {
            let said = chars_of(a.as_str());
            (vec_eq(&said, &chars_of("Cooling")), vec_eq(&said, &chars_of("Heating")))
        },
        None => (false, false),
    };
    let tone = if cooling {
        push_str(&mut line, "Cooling to ");
        Tone::Info
    } else if heating {
        push_str(&mut line, "Heating to ");
        Tone::Warning
    } else {
        push_str(&mut line, "Holding ");
        Tone::Neutral
    };
    let ghost head = line@;
    let mut i: usize = 0;
    while i < target.len()
        invariant
            i <= target.len(),
            line@ == head + target@.take(i as int),
        decreases target.len() - i,
    {
        line.push(target[i]);
        proof {
            assert(target@.take(i + 1) =~= target@.take(i as int).push(target@[i as int]));
        }
        i += 1;
    }
    proof {
        assert(target@.take(target.len() as int) =~= target@);
    }
    (string_of(&line), tone)
}

/// The host a connection points at, for "Live from …": what follows the
/// scheme, up to any further "://", without trailing slashes.
pub open spec fn spec_host(url: Seq<char>) -> Seq<char> {
    let rest = match find_seq(url, "://"@, 0) {
        None => url,
        Some(i) => {
            let after = url.skip(i + 3);
            match find_seq(after, "://"@, 0) {
                Some(j) => after.take(j),
                None => after,
            }
        },
    };
    trim_end_char(rest, '/')
}

/// The host a connection points at, for "Live from …".
pub fn host(base_url: &str) -> (r: String)
    ensures
        r@ == spec_host(base_url@),
{
    let url = chars_of(base_url);
    let scheme = chars_of("://");
    proof {
        reveal_strlit("://");
    }
    let rest: Vec<char> = match find_seq_from(&url, &scheme, 0) {
        None => url,
        Some(i) => {
            proof {
                lemma_find_seq(url@, scheme@, 0);
                assert(scheme@.len() == 3);
                assert(find_seq(url@, scheme@, 0) == Some(i as int));
                assert(i + 3 <= url.len());
            }
            let mut after: Vec<char> = Vec::new();
            let mut k = i + 3;
            while k < url.len()
                invariant
                    i + 3 <= k <= url.len(),
                    after@ == url@.subrange(i + 3, k as int),
                decreases url.len() - k,
            {
                after.push(url[k]);
                proof {
                    assert(url@.subrange(i + 3, k + 1) =~= url@.subrange(i + 3, k as int).push(
                        url@[k as int],
                    ));
                }
                k += 1;
            }
            proof {
                assert(after@ =~= url@.skip(i + 3));
            }
            match find_seq_from(&after, &scheme, 0) {
                Some(j) => {
                    proof {
                        lemma_find_seq(after@, scheme@, 0);
                    }
                    let mut piece: Vec<char> = Vec::new();
                    let mut m: usize = 0;
                    while m < j
                        invariant
                            j <= after.len(),
                            m <= j,
                            piece@ == after@.take(m as int),
                        decreases j - m,
                    {
                        piece.push(after[m]);
                        proof {
                            assert(after@.take(m + 1) =~= after@.take(m as int).push(
                                after@[m as int],
                            ));
                        }
                        m += 1;
                    }
                    piece
                },
                None => after,
            }
        },
    };
    let end = trim_end_len(&rest, '/');
    string_of_range(&rest, 0, end)
}


// ----- The model the pages share -------------------------------------------

/// A change sent to the control center.
#[derive(Clone, Copy, Debug, PartialEq, Eq, Structural)]
pub enum HomeCommand {
    Switch { key: SwitchKey, on: bool },
    SetClimateMode { mode: ClimateMode },
    SetClimateTarget { target: i64 },
    SetClimateRange { low: i64, high: i64 },
}

/// The home as the pages see it. Changes show at once and are confirmed by
/// the daemon's next reading; every local change bumps the generation so
/// that a reading asked for before it cannot undo it.
pub struct HomeModel {
    snapshot: Option<HomeSnapshot>,
    /// Why the daemon itself could not be read.
    error: Option<String>,
    visible: bool,
    refreshing: bool,
    generation: u64,
}

impl HomeModel {
    /// The home as last read, with local changes on top.
    pub closed spec fn shown_home(&self) -> Option<HomeSnapshot> {
        self.snapshot
    }

    /// Why the daemon itself could not be read.
    pub closed spec fn read_error(&self) -> Option<String> {
        self.error
    }

    /// The home as last read, with local changes on top.
    pub fn snapshot(&self) -> (r: &Option<HomeSnapshot>)
        ensures
            *r == self.shown_home(),
    {
        &self.snapshot
    }

    /// Why the daemon itself could not be read.
    pub fn error(&self) -> (r: &Option<String>)
        ensures
            *r == self.read_error(),
    {
        &self.error
    }

    /// Whether a page that shows the home is on screen.
    pub closed spec fn shown(&self) -> bool {
        self.visible
    }

    /// Whether a reading is on its way.
    pub closed spec fn reading(&self) -> bool {
        self.refreshing
    }

    /// How many local changes have been made.
    pub closed spec fn generation(&self) -> u64 {
        self.generation
    }

    /// The model after a reading asked for at `asked` comes back.
    pub closed spec fn after_reading(
        self,
        asked: u64,
        result: Result<HomeSnapshot, String>,
    ) -> HomeModel {
        match result {
            Ok(snapshot) => if asked == self.generation {
                HomeModel { snapshot: Some(snapshot), error: None, refreshing: false, ..self }
            } else {
                HomeModel { refreshing: false, ..self }
            },
            Err(e) => HomeModel { error: Some(e), refreshing: false, ..self },
        }
    }

    pub fn new() -> (r: Self)
        ensures
            r.shown_home() is None,
            r.read_error() is None,
            !r.shown(),
            !r.reading(),
            r.generation() == 0,
    {
        HomeModel { snapshot: None, error: None, visible: false, refreshing: false, generation: 0 }
    }

    /// Ask for a reading unless one is on its way; the answer is the
    /// generation to hand back with the reading.
    pub fn refresh(&mut self) -> (asked: Option<u64>)
        ensures
            asked == (if old(self).reading() {
                None
            } else {
                Some(old(self).generation())
            }),
            final(self).reading(),
            final(self).shown() == old(self).shown(),
            final(self).generation() == old(self).generation(),
            final(self).shown_home() == old(self).shown_home(),
            final(self).read_error() == old(self).read_error(),
    {
        if self.refreshing {
            return None;
        }
        self.refreshing = true;
        Some(self.generation)
    }

    /// Pages that show the home keep it live while they are on screen: a
    /// page coming into view asks for a reading.
    pub fn set_visible(&mut self, visible: bool) -> (asked: Option<u64>)
        ensures
            asked == (if visible && !old(self).shown() && !old(self).reading() {
                Some(old(self).generation())
            } else {
                None
            }),
            final(self).shown() == visible,
            final(self).reading() == (old(self).reading() || (visible && !old(self).shown())),
            final(self).generation() == old(self).generation(),
            final(self).shown_home() == old(self).shown_home(),
            final(self).read_error() == old(self).read_error(),
    {
        let mut asked = None;
        if visible && !self.visible {
            self.visible = true;
            asked = self.refresh();
        }
        self.visible = visible;
        asked
    }

    /// A reading asked for at `asked` came back. It is kept only if no
    /// local change was made since it was asked for.
    pub fn reading_arrived(&mut self, asked: u64, result: Result<HomeSnapshot, String>)
        ensures
            *final(self) == old(self).after_reading(asked, result),
            !final(self).reading(),
            final(self).shown() == old(self).shown(),
            final(self).generation() == old(self).generation(),
            final(self).shown_home() == (match result {
                Ok(s) => if asked == old(self).generation() {
                    Some(s)
                } else {
                    old(self).shown_home()
                },
                Err(_) => old(self).shown_home(),
            }),
            final(self).read_error() == (match result {
                Ok(_) => if asked == old(self).generation() {
                    None
                } else {
                    old(self).read_error()
                },
                Err(e) => Some(e),
            }),
    {
        self.refreshing = false;
        match result {
            Ok(snapshot) => {
                if asked == self.generation {
                    self.snapshot = Some(snapshot);
                    self.error = None;
                }
            },
            Err(e) => {
                self.error = Some(e);
            },
        }
    }

    /// A change was sent: the daemon's view is read again.
    pub fn command_settled(&mut self) -> (asked: Option<u64>)
        requires
            old(self).generation() < u64::MAX,
        ensures
            asked == Some(final(self).generation()),
            final(self).generation() == old(self).generation() + 1,
            final(self).reading(),
            final(self).shown() == old(self).shown(),
            final(self).shown_home() == old(self).shown_home(),
            final(self).read_error() == old(self).read_error(),
    {
        self.generation = self.generation + 1;
        self.refreshing = false;
        self.refresh()
    }

    /// Press a switch: the lights and their groups change at once.
    pub fn switch(&mut self, key: SwitchKey, on: bool) -> (command: HomeCommand)
        requires
            old(self).generation() < u64::MAX,
        ensures
            command == (HomeCommand::Switch { key, on }),
            changed(*old(self), *final(self)),
            final(self).shown_home() is Some == old(self).shown_home() is Some,
            old(self).shown_home() matches Some(s) ==> final(self).shown_home() matches Some(t) && {
                &&& t.switches@ == spec_apply_switch(s.switches@, key, on)
                &&& t.connection == s.connection
                &&& t.reachable == s.reachable
                &&& t.error == s.error
                &&& t.climate == s.climate
                &&& t.actions == s.actions
            },
            final(self).read_error() == old(self).read_error(),
    {
        let mut taken: Option<HomeSnapshot> = None;
        std::mem::swap(&mut taken, &mut self.snapshot);
        if let Some(mut snapshot) = taken {
            apply_switch(&mut snapshot, key, on);
            self.snapshot = Some(snapshot);
        }
        self.generation = self.generation + 1;
        HomeCommand::Switch { key, on }
    }

    /// Take the thermostat out of the snapshot to change it.
    fn take_climate(&mut self) -> (c: Option<HomeClimate>)
        ensures
            c == climate_of(*old(self)),
            final(self).shown_home() is Some == old(self).shown_home() is Some,
            old(self).shown_home() matches Some(s) ==> final(self).shown_home() matches Some(t) && t
                == (HomeSnapshot { climate: None, ..s }),
            final(self).read_error() == old(self).read_error(),
            final(self).shown() == old(self).shown(),
            final(self).reading() == old(self).reading(),
            final(self).generation() == old(self).generation(),
    {
        let mut taken: Option<HomeSnapshot> = None;
        std::mem::swap(&mut taken, &mut self.snapshot);
        match taken {
            Some(mut snapshot) => {
                let mut climate: Option<HomeClimate> = None;
                std::mem::swap(&mut climate, &mut snapshot.climate);
                self.snapshot = Some(snapshot);
                climate
            },
            None => None,
        }
    }

    /// Put a changed thermostat back.
    fn put_climate(&mut self, climate: HomeClimate)
        requires
            old(self).shown_home() is Some,
        ensures
            final(self).shown_home() matches Some(t) && t == (HomeSnapshot {
                climate: Some(climate),
                ..old(self).shown_home()->0
            }),
            final(self).read_error() == old(self).read_error(),
            final(self).shown() == old(self).shown(),
            final(self).reading() == old(self).reading(),
            final(self).generation() == old(self).generation(),
    {
        let mut taken: Option<HomeSnapshot> = None;
        std::mem::swap(&mut taken, &mut self.snapshot);
        if let Some(mut snapshot) = taken {
            snapshot.climate = Some(climate);
            self.snapshot = Some(snapshot);
        }
    }

    /// Choose a thermostat mode; nothing happens without a thermostat.
    pub fn set_mode(&mut self, mode: ClimateMode) -> (command: Option<HomeCommand>)
        requires
            old(self).generation() < u64::MAX,
        ensures
            climate_of(*old(self)) is None ==> command is None && *final(self) == *old(self),
            climate_of(*old(self)) matches Some(c) ==> {
                &&& command == Some(HomeCommand::SetClimateMode { mode })
                &&& changed(*old(self), *final(self))
                &&& final(self).shown_home() == Some(
                    HomeSnapshot { climate: Some(with_mode(c, mode)), ..old(self).shown_home()->0 },
                )
            },
    {
        let ghost before = *self;
        match self.take_climate() {
            None => {
                proof {
                    assert(*self == before);
                }
                None
            },
            Some(mut climate) => {
                climate.set_mode(mode);
                self.put_climate(climate);
                self.generation = self.generation + 1;
                Some(HomeCommand::SetClimateMode { mode })
            },
        }
    }

    /// Move the single target by `delta` degrees within the band.
    pub fn step_target(&mut self, delta: i64) -> (command: Option<HomeCommand>)
        requires
            old(self).generation() < u64::MAX,
            climate_of(*old(self)) matches Some(c) ==> i64::MIN <= held_target(c) + delta
                <= i64::MAX,
        ensures
            climate_of(*old(self)) is None ==> command is None && *final(self) == *old(self),
            climate_of(*old(self)) matches Some(c) ==> {
                let target = stepped_target(c, delta as int) as i64;
                &&& command == Some(HomeCommand::SetClimateTarget { target })
                &&& changed(*old(self), *final(self))
                &&& final(self).shown_home() == Some(
                    HomeSnapshot {
                        climate: Some(HomeClimate { target: Some(target), pending: true, ..c }),
                        ..old(self).shown_home()->0
                    },
                )
            },
    {
        let ghost before = *self;
        match self.take_climate() {
            None => {
                proof {
                    assert(*self == before);
                }
                None
            },
            Some(mut climate) => {
                let target = climate.step_target(delta);
                self.put_climate(climate);
                self.generation = self.generation + 1;
                Some(HomeCommand::SetClimateTarget { target })
            },
        }
    }

    /// Move one end of the Auto range, keeping the ends `RANGE_GAP` apart.
    pub fn step_range(&mut self, high: bool, delta: i64) -> (command: Option<HomeCommand>)
        requires
            old(self).generation() < u64::MAX,
            climate_of(*old(self)) matches Some(c) ==> range_step_ok(c, high, delta as int),
        ensures
            climate_of(*old(self)) is None ==> command is None && *final(self) == *old(self),
            climate_of(*old(self)) matches Some(c) ==> {
                let (low, top) = stepped_range(c, high, delta as int);
                &&& command == Some(
                    HomeCommand::SetClimateRange { low: low as i64, high: top as i64 },
                )
                &&& changed(*old(self), *final(self))
                &&& final(self).shown_home() == Some(
                    HomeSnapshot {
                        climate: Some(
                            HomeClimate {
                                target_low: Some(low as i64),
                                target_high: Some(top as i64),
                                pending: true,
                                ..c
                            },
                        ),
                        ..old(self).shown_home()->0
                    },
                )
            },
    {
        let ghost before = *self;
        match self.take_climate() {
            None => {
                proof {
                    assert(*self == before);
                }
                None
            },
            Some(mut climate) => {
                let (low, top) = climate.step_range(high, delta);
                self.put_climate(climate);
                self.generation = self.generation + 1;
                Some(HomeCommand::SetClimateRange { low, high: top })
            },
        }
    }
}

/// The thermostat the model shows, if any.
pub open spec fn climate_of(m: HomeModel) -> Option<HomeClimate> {
    match m.shown_home() {
        Some(s) => s.climate,
        None => None,
    }
}

/// `after` is `before` with one local change made: the generation moved
/// on, and nothing else but the snapshot changed.
pub open spec fn changed(before: HomeModel, after: HomeModel) -> bool {
    &&& after.generation() == before.generation() + 1
    &&& after.read_error() == before.read_error()
    &&& after.shown() == before.shown()
    &&& after.reading() == before.reading()
}

/// A reading asked for before a local change never undoes it: when it
/// arrives, the snapshot and the error stay as the change left them.
pub proof fn law_reading_never_undoes_a_later_change(
    before: HomeModel,
    after: HomeModel,
    reading: HomeSnapshot,
)
    requires
        changed(before, after),
    ensures
        after.after_reading(before.generation(), Ok(reading)).shown_home() == after.shown_home(),
        after.after_reading(before.generation(), Ok(reading)).read_error() == after.read_error(),
{
}

/// A reading asked for with no change since replaces what was shown and
/// clears the error.
pub proof fn law_current_reading_is_shown(m: HomeModel, reading: HomeSnapshot)
    ensures
        m.after_reading(m.generation(), Ok(reading)).shown_home() == Some(reading),
        m.after_reading(m.generation(), Ok(reading)).read_error() is None,
{
}

// ----- Connecting the control center ------------------------------------------------

/// What the control-center form asks the daemon to connect to: the base
/// address, and the access client's ID and secret when they are given.
pub struct HomeConnectionRequest {
    pub base_url: String,
    pub access_client_id: Option<String>,
    pub access_client_secret: Option<String>,
}

/// A trimmed field, or nothing when it is blank.
pub open spec fn given_field(text: Seq<char>) -> Option<Seq<char>> {
    if crate::text::trim(text).len() == 0 {
        None
    } else {
        Some(crate::text::trim(text))
    }
}

/// An optional text as plain characters.
pub open spec fn text_of(t: Option<String>) -> Option<Seq<char>> {
    match t {
        Some(s) => Some(s@),
        None => None,
    }
}

fn given_text(text: &str) -> (r: Option<String>)
    ensures
        text_of(r) == given_field(text@),
{
    let t = crate::text::trimmed(&chars_of(text));
    if t.len() == 0 {
        None
    } else {
        Some(string_of(&t))
    }
}

/// The request the control-center form makes: a blank address is sent
/// blank, blank credentials are left out.
pub fn connection_request(url: &str, client_id: &str, client_secret: &str) -> (r: HomeConnectionRequest)
    ensures
        r.base_url@ == crate::text::trim(url@),
        text_of(r.access_client_id) == given_field(client_id@),
        text_of(r.access_client_secret) == given_field(client_secret@),
{
    HomeConnectionRequest {
        base_url: string_of(&crate::text::trimmed(&chars_of(url))),
        access_client_id: given_text(client_id),
        access_client_secret: given_text(client_secret),
    }
}

// ----- The Smart Home page's lines ---------------------------------------------------

/// Whether a tile reads as on: a switch by itself, a group when every
/// member is on.
pub open spec fn tile_on(switches: Seq<HomeSwitch>, key: SwitchKey) -> bool {
    if spec_members(key).len() == 0 {
        is_on(switches, key)
    } else {
        count_on(switches, spec_members(key)) == spec_members(key).len()
    }
}

/// A group tile's "2 of 4 on" when it is partly on.
pub open spec fn tile_detail(switches: Seq<HomeSwitch>, key: SwitchKey) -> Option<Seq<char>> {
    let group = spec_members(key);
    let lit = count_on(switches, group);
    if group.len() > 0 && lit > 0 && lit < group.len() {
        Some(decimal(lit) + " of "@ + decimal(group.len()) + " on"@)
    } else {
        None
    }
}

/// How many of `keys` read as on.
pub open spec fn lit_tiles(switches: Seq<HomeSwitch>, keys: Seq<SwitchKey>) -> nat
    decreases keys.len(),
{
    if keys.len() == 0 {
        0
    } else {
        lit_tiles(switches, keys.drop_last()) + if tile_on(switches, keys.last()) {
            1nat
        } else {
            0nat
        }
    }
}

/// The line on a room's card: the whole home's count where the card holds
/// the All switch, else how many of its tiles are on.
pub open spec fn spec_room_summary(switches: Seq<HomeSwitch>, keys: Seq<SwitchKey>) -> Seq<char> {
    if keys.contains(SwitchKey::All) {
        match tile_detail(switches, SwitchKey::All) {
            Some(d) => d,
            None => if tile_on(switches, SwitchKey::All) {
                "All on"@
            } else {
                "Off"@
            },
        }
    } else if lit_tiles(switches, keys) == 0 {
        "Off"@
    } else {
        decimal(lit_tiles(switches, keys)) + " on"@
    }
}

/// The line on a room's card, for the tiles `keys` it holds.
pub fn room_summary(snapshot: &HomeSnapshot, keys: &Vec<SwitchKey>) -> (r: String)
    ensures
        r@ == spec_room_summary(snapshot.switches@, keys@),
{
    let mut has_all = false;
    let mut lit: usize = 0;
    let mut i: usize = 0;
    while i < keys.len()
        invariant
            i <= keys.len(),
            has_all == keys@.take(i as int).contains(SwitchKey::All),
            lit == lit_tiles(snapshot.switches@, keys@.take(i as int)),
            lit <= i,
        decreases keys.len() - i,
    {
        let ghost before = keys@.take(i as int);
        proof {
            assert(keys@.take(i + 1).drop_last() =~= before);
            assert(keys@.take(i + 1).last() == keys@[i as int]);
        }
        if keys[i] == SwitchKey::All {
            proof {
                assert(keys@.take(i + 1)[i as int] == SwitchKey::All);
            }
            has_all = true;
        } else {
            proof {
                if keys@.take(i + 1).contains(SwitchKey::All) {
                    let k = choose|k: int| 0 <= k < i + 1 && #[trigger] keys@.take(i + 1)[k] == SwitchKey::All;
                    assert(before[k] == SwitchKey::All);
                }
                if before.contains(SwitchKey::All) {
                    let k = choose|k: int| 0 <= k < i && #[trigger] before[k] == SwitchKey::All;
                    assert(keys@.take(i + 1)[k] == SwitchKey::All);
                }
            }
        }
        let state = tile_state(snapshot, keys[i]);
        if state.on {
            lit += 1;
        }
        i += 1;
    }
    proof {
        assert(keys@.take(keys.len() as int) =~= keys@);
    }
    let mut v: Vec<char> = Vec::new();
    if has_all {
        let all = tile_state(snapshot, SwitchKey::All);
        match all.detail {
            Some(d) => push_str(&mut v, d.as_str()),
            None => {
                if all.on {
                    push_str(&mut v, "All on");
                } else {
                    push_str(&mut v, "Off");
                }
            },
        }
    } else if lit == 0 {
        push_str(&mut v, "Off");
    } else {
        push_decimal(&mut v, lit as u64);
        push_str(&mut v, " on");
    }
    string_of(&v)
}

/// A change in the Smart Home history: done changes show only how long
/// ago; failed ones are marked and say so; the rest are still applying.
pub open spec fn spec_action_line(state: Seq<char>, ago: Seq<char>) -> (Option<Tone>, Seq<char>) {
    if state == "completed"@ {
        (None, ago)
    } else if state == "failed"@ {
        (Some(Tone::Danger), "Failed · "@ + ago)
    } else {
        (Some(Tone::Info), "Applying…"@)
    }
}

/// A change in the Smart Home history, as of `now`.
pub fn action_line(action: &ActionView, now: i64) -> (r: (Option<Tone>, String))
    requires
        i64::MIN <= now - action.created_at <= i64::MAX,
    ensures
        (r.0, r.1@) == spec_action_line(
            action.state@,
            crate::calendar::spec_ago(action.created_at as int, now as int),
        ),
{
    let state = chars_of(action.state.as_str());
    proof {
        reveal_strlit("completed");
        reveal_strlit("failed");
    }
    if vec_eq(&state, &chars_of("completed")) {
        (None, crate::calendar::ago(action.created_at, now))
    } else if vec_eq(&state, &chars_of("failed")) {
        let mut v: Vec<char> = Vec::new();
        push_str(&mut v, "Failed · ");
        let a = crate::calendar::ago(action.created_at, now);
        push_str(&mut v, a.as_str());
        (Some(Tone::Danger), string_of(&v))
    } else {
        (Some(Tone::Info), String::from_str("Applying…"))
    }
}

} // verus!
