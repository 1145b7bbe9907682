//! Alarm and operator-prompt points, and the edge detection of the alarm
//! watch: alarms on M300..M399, prompts on M400..M499, axis fault codes on
//! D300..D302, current motion step on D400.

use vstd::prelude::*;
use std::collections::HashMap;
use crate::transfer::Frame;

verus! {

broadcast use vstd::std_specs::hash::group_hash_axioms;

/// First coil of the watched block (FC01 reads M300..M401 in one request).
pub const WATCH_M_START: u16 = 300;

/// Number of coils in the watched block; gaps such as M323..M399 are ignored by index.
pub const WATCH_M_CNT: u16 = 102;

/// D400: current motion step index (INT16).
pub const STEP_D: u16 = 400;

/// D300..D302: fault codes of the chest/leg/seat axes (raw u16).
pub const FAULT_D: u16 = 300;

/// Number of fault-code registers.
pub const FAULT_CNT: u16 = 3;

/// Number of alarm points in use.
pub const ALARM_POINT_COUNT: usize = 10;

/// Number of prompt points in use.
pub const PROMPT_POINT_COUNT: usize = 2;

/// An alarm point: its coil, its name, and whether its edges are logged.
/// M320 "pause" is only shown: it follows from the other alarms, so a log
/// entry for it would add nothing.
#[derive(Debug, Clone, Copy)]
pub struct AlarmPoint {
    pub addr: u16,
    pub name: &'static str,
    pub log: bool,
}

/// Coil of alarm point `i` (ascending).
pub open spec fn alarm_addr(i: int) -> u16 {
    if i == 0 {
        300
    } else if i == 1 {
        301
    } else if i == 2 {
        302
    } else if i == 3 {
        303
    } else if i == 4 {
        310
    } else if i == 5 {
        311
    } else if i == 6 {
        312
    } else if i == 7 {
        320
    } else if i == 8 {
        321
    } else {
        322
    }
}

/// Whether the edges of alarm point `i` are logged (all but M320 "pause").
pub open spec fn alarm_logged(i: int) -> bool {
    i != 7
}

/// Name of alarm point `i`.
pub open spec fn alarm_name(i: int) -> Seq<char> {
    if i == 0 {
        "胸背轴报警"@
    } else if i == 1 {
        "臀腿轴报警"@
    } else if i == 2 {
        "臀盘轴报警"@
    } else if i == 3 {
        "推杆轴堵转"@
    } else if i == 4 {
        "急停按钮1按下"@
    } else if i == 5 {
        "急停按钮2按下"@
    } else if i == 6 {
        "安全继电器报警"@
    } else if i == 7 {
        "暂停"@
    } else if i == 8 {
        "停止按钮按下"@
    } else {
        "上位机失联"@
    }
}

/// Coil of prompt point `i` (ascending).
pub open spec fn prompt_addr(i: int) -> u16 {
    if i == 0 {
        400
    } else {
        401
    }
}

/// Name of prompt point `i`.
pub open spec fn prompt_name(i: int) -> Seq<char> {
    if i == 0 {
        "请按复位按钮"@
    } else {
        "请按脚踏"@
    }
}

/// Alarm point `i`.
pub fn alarm_point(i: usize) -> (p: AlarmPoint)
    requires
        i < ALARM_POINT_COUNT,
    ensures
        p.addr == alarm_addr(i as int),
        p.name@ == alarm_name(i as int),
        p.log == alarm_logged(i as int),
{
    match i {
        0 => AlarmPoint { addr: 300, name: "胸背轴报警", log: true },
        1 => AlarmPoint { addr: 301, name: "臀腿轴报警", log: true },
        2 => AlarmPoint { addr: 302, name: "臀盘轴报警", log: true },
        3 => AlarmPoint { addr: 303, name: "推杆轴堵转", log: true },
        4 => AlarmPoint { addr: 310, name: "急停按钮1按下", log: true },
        5 => AlarmPoint { addr: 311, name: "急停按钮2按下", log: true },
        6 => AlarmPoint { addr: 312, name: "安全继电器报警", log: true },
        7 => AlarmPoint { addr: 320, name: "暂停", log: false },
        8 => AlarmPoint { addr: 321, name: "停止按钮按下", log: true },
        _ => AlarmPoint { addr: 322, name: "上位机失联", log: true },
    }
}

/// Prompt point `i`: its coil and text.
pub fn prompt_point(i: usize) -> (p: (u16, &'static str))
    requires
        i < PROMPT_POINT_COUNT,
    ensures
        p.0 == prompt_addr(i as int),
        p.1@ == prompt_name(i as int),
{
    if i == 0 {
        (400, "请按复位按钮")
    } else {
        (401, "请按脚踏")
    }
}

/// State of one alarm or prompt point.
#[derive(Debug, Clone)]
pub struct AlarmItem {
    pub addr: u16,
    pub name: String,
    pub on: bool,
}

/// One level change of an alarm point: raised (0 -> 1) or cleared (1 -> 0).
#[derive(Debug, Clone)]
pub struct Edge {
    pub addr: u16,
    pub name: String,
    pub raised: bool,
}

impl Edge {
    /// The log kind of the edge.
    pub fn kind(&self) -> (k: &'static str)
        ensures
            k@ == (if self.raised {
                "raised"@
            } else {
                "cleared"@
            }),
    {
        if self.raised {
            "raised"
        } else {
            "cleared"
        }
    }
}

/// Latest alarm levels, current prompt and motion step, for the first screen.
#[derive(Debug, Clone)]
pub struct AlarmSnapshot {
    /// Levels of all alarm points, in the order of the alarm points.
    pub alarms: Vec<AlarmItem>,
    /// The highest-address prompt that is on; `None` when there is none.
    pub prompt: Option<AlarmItem>,
    /// D400 step index (INT16); `None` until it has been read.
    pub step_index: Option<i16>,
}

impl Default for AlarmSnapshot {
    fn default() -> (s: Self)
        ensures
            s.alarms@.len() == 0,
            s.prompt is None,
            s.step_index is None,
    {
        AlarmSnapshot { alarms: Vec::new(), prompt: None, step_index: None }
    }
}

/// Level of coil `addr` in the watched block.
pub open spec fn coil_on(coils: Seq<bool>, addr: u16) -> bool {
    coils[addr - WATCH_M_START]
}

/// Level of alarm point `i`.
pub open spec fn point_on(coils: Seq<bool>, i: int) -> bool {
    coil_on(coils, alarm_addr(i))
}

/// Whether `items` holds the alarm points, in order, with their levels in `coils`.
pub open spec fn items_match(items: Seq<AlarmItem>, coils: Seq<bool>) -> bool {
    &&& items.len() == ALARM_POINT_COUNT
    &&& forall|i: int|
        0 <= i < ALARM_POINT_COUNT ==> (#[trigger] items[i]).addr == alarm_addr(i)
            && items[i].name@ == alarm_name(i) && items[i].on == point_on(coils, i)
}

/// Index of the highest-address prompt among the first `n` that is on.
pub open spec fn last_prompt_on(coils: Seq<bool>, n: int) -> Option<int>
    decreases n,
{
    if n <= 0 {
        None
    } else if coil_on(coils, prompt_addr(n - 1)) {
        Some(n - 1)
    } else {
        last_prompt_on(coils, n - 1)
    }
}

/// Whether `p` is the prompt item that `coils` select.
pub open spec fn prompt_matches(p: Option<AlarmItem>, coils: Seq<bool>) -> bool {
    match last_prompt_on(coils, PROMPT_POINT_COUNT as int) {
        Some(i) => p is Some && p->0.addr == prompt_addr(i) && p->0.name@ == prompt_name(i)
            && p->0.on,
        None => p is None,
    }
}

/// The alarm items read from the watched coil block.
pub fn alarm_items(coils: &Vec<bool>) -> (items: Vec<AlarmItem>)
    requires
        coils.len() >= WATCH_M_CNT,
    ensures
        items_match(items@, coils@),
{
    let mut items: Vec<AlarmItem> = Vec::new();
    let mut i: usize = 0;
    while i < ALARM_POINT_COUNT
        invariant
            i <= ALARM_POINT_COUNT,
            coils.len() >= WATCH_M_CNT,
            items@.len() == i,
            forall|k: int|
                0 <= k < i ==> (#[trigger] items@[k]).addr == alarm_addr(k) && items@[k].name@
                    == alarm_name(k) && items@[k].on == point_on(coils@, k),
        decreases ALARM_POINT_COUNT - i,
    {
        let p = alarm_point(i);
        let idx = (p.addr - WATCH_M_START) as usize;
        items.push(AlarmItem { addr: p.addr, name: p.name.to_owned(), on: coils[idx] });
        i = i + 1;
    }
    items
}

/// The highest-address prompt that is on, if any.
pub fn prompt_of(coils: &Vec<bool>) -> (p: Option<AlarmItem>)
    requires
        coils.len() >= WATCH_M_CNT,
    ensures
        prompt_matches(p, coils@),
{
    let mut k: usize = PROMPT_POINT_COUNT;
    while k > 0
        invariant
            k <= PROMPT_POINT_COUNT,
            coils.len() >= WATCH_M_CNT,
            last_prompt_on(coils@, PROMPT_POINT_COUNT as int) == last_prompt_on(coils@, k as int),
        decreases k,
    {
        let (addr, name) = prompt_point(k - 1);
        if coils[(addr - WATCH_M_START) as usize] {
            return Some(AlarmItem { addr, name: name.to_owned(), on: true });
        }
        k = k - 1;
    }
    None
}

/// The step index of D400 (INT16) from a register read, if it returned a value.
pub fn step_from_regs(regs: &Vec<u16>) -> (s: Option<i16>)
    ensures
        regs@.len() == 0 ==> s is None,
        regs@.len() > 0 ==> s == Some(regs@[0] as i16),
{
    if regs.len() == 0 {
        None
    } else {
        Some(regs[0] as i16)
    }
}

/// The baseline that stored rows `(addr, is_on)` give; a later row for the same
/// address wins.
pub open spec fn spec_baseline(rows: Seq<(i64, i64)>) -> Map<u16, bool>
    decreases rows.len(),
{
    if rows.len() == 0 {
        Map::empty()
    } else {
        spec_baseline(rows.drop_last()).insert(rows.last().0 as u16, rows.last().1 != 0)
    }
}

/// The edge-detection baseline from the stored alarm levels.
pub fn baseline_from_rows(rows: &Vec<(i64, i64)>) -> (m: HashMap<u16, bool>)
    ensures
        m@ == spec_baseline(rows@),
{
    let mut m: HashMap<u16, bool> = HashMap::new();
    let mut i: usize = 0;
    while i < rows.len()
        invariant
            i <= rows.len(),
            m@ == spec_baseline(rows@.subrange(0, i as int)),
        decreases rows.len() - i,
    {
        let (a, on) = rows[i];
        proof {
            assert(rows@.subrange(0, i + 1).drop_last() =~= rows@.subrange(0, i as int));
        }
        m.insert(a as u16, on != 0);
        i = i + 1;
    }
    assert(rows@.subrange(0, rows@.len() as int) =~= rows@);
    m
}

/// Previous level of an address: its baseline entry, or off.
pub open spec fn prev_on(prev: Map<u16, bool>, addr: u16) -> bool {
    if prev.contains_key(addr) {
        prev[addr]
    } else {
        false
    }
}

/// Indices, in order, of the points among the first `n` whose level in
/// `coils` differs from `prev`; with `logged_only`, only logged points.
pub open spec fn changed_points(prev: Map<u16, bool>, coils: Seq<bool>, n: int, logged_only: bool) -> Seq<int>
    decreases n,
{
    if n <= 0 {
        Seq::<int>::empty()
    } else {
        let before = changed_points(prev, coils, n - 1, logged_only);
        let i = n - 1;
        if prev_on(prev, alarm_addr(i)) != point_on(coils, i) && (!logged_only || alarm_logged(i)) {
            before.push(i)
        } else {
            before
        }
    }
}

/// `prev` with the levels of the first `n` alarm points from `coils`.
pub open spec fn updated_baseline(prev: Map<u16, bool>, coils: Seq<bool>, n: int) -> Map<u16, bool>
    decreases n,
{
    if n <= 0 {
        prev
    } else {
        updated_baseline(prev, coils, n - 1).insert(alarm_addr(n - 1), point_on(coils, n - 1))
    }
}

/// What one poll of the alarm watch yields.
pub struct AlarmPoll {
    /// Levels of all alarm points (the `plc::alarm_state` payload).
    pub items: Vec<AlarmItem>,
    /// Level changes to log.
    pub edges: Vec<Edge>,
    /// Whether the alarm levels are to be sent (first poll or any change).
    pub alarm_changed: bool,
    /// The highest-address prompt that is on.
    pub prompt: Option<AlarmItem>,
    /// Whether the prompt is to be sent (first poll or a different prompt).
    pub prompt_changed: bool,
    /// Levels to store, `(addr, on)` in point order.
    pub states: Vec<(u16, bool)>,
    /// The snapshot for the first screen.
    pub snapshot: AlarmSnapshot,
}

/// Edge detection state of the alarm watch over successive polls.
pub struct AlarmWatch {
    /// Level of each address at the previous poll (or from the stored baseline).
    pub prev: HashMap<u16, bool>,
    /// Address of the prompt of the previous poll.
    pub prev_prompt: Option<u16>,
    /// No poll has been made yet on this connection.
    pub first: bool,
}

/// Address of the prompt that `coils` select.
pub open spec fn prompt_addr_of(coils: Seq<bool>) -> Option<u16> {
    match last_prompt_on(coils, PROMPT_POINT_COUNT as int) {
        Some(i) => Some(prompt_addr(i)),
        None => None,
    }
}

/// What a poll of `coils` (with step `step`) yields from the watch state
/// `prev`, `prev_prompt`, `first`, and the state it leaves (`new_*`): the
/// levels of all points; the level changes of logged points (none on the
/// first poll), raised when the new level is on; whether the levels are to be
/// sent (first poll or any change, logged or not); the highest prompt that is
/// on, and whether it is to be sent (first poll or a different prompt); the
/// levels to store; the snapshot; and the new baseline.
pub open spec fn polled(
    prev: Map<u16, bool>,
    prev_prompt: Option<u16>,
    first: bool,
    coils: Seq<bool>,
    step: Option<i16>,
    p: AlarmPoll,
    new_prev: Map<u16, bool>,
    new_prompt: Option<u16>,
    new_first: bool,
) -> bool {
    let logged = if first {
        Seq::<int>::empty()
    } else {
        changed_points(prev, coils, ALARM_POINT_COUNT as int, true)
    };
    &&& items_match(p.items@, coils)
    &&& p.edges@.len() == logged.len()
    &&& forall|k: int|
        0 <= k < logged.len() ==> (#[trigger] p.edges@[k]).addr == alarm_addr(logged[k])
            && p.edges@[k].name@ == alarm_name(logged[k]) && p.edges@[k].raised == point_on(
            coils,
            logged[k],
        )
    &&& p.alarm_changed == (first || changed_points(prev, coils, ALARM_POINT_COUNT as int, false).len() > 0)
    &&& prompt_matches(p.prompt, coils)
    &&& p.prompt_changed == (first || prompt_addr_of(coils) != prev_prompt)
    &&& p.states@.len() == ALARM_POINT_COUNT
    &&& forall|i: int|
        0 <= i < ALARM_POINT_COUNT ==> #[trigger] p.states@[i] == (alarm_addr(i), point_on(coils, i))
    &&& items_match(p.snapshot.alarms@, coils)
    &&& prompt_matches(p.snapshot.prompt, coils)
    &&& p.snapshot.step_index == step
    &&& new_prev == updated_baseline(prev, coils, ALARM_POINT_COUNT as int)
    &&& new_prompt == prompt_addr_of(coils)
    &&& !new_first
}

impl AlarmWatch {
    /// A watch that starts from a stored baseline; its first poll logs no edge.
    pub fn new(baseline: HashMap<u16, bool>) -> (w: Self)
        ensures
            w.prev@ == baseline@,
            w.prev_prompt is None,
            w.first,
    {
        AlarmWatch { prev: baseline, prev_prompt: None, first: true }
    }

    /// One poll of the watched coils (`coils`) and step register (`step`).
    /// A short coil read is skipped (`None`, nothing changes). The first poll
    /// only aligns the baseline and reports the current levels; later polls log
    /// each level change of a logged point, raised or cleared.
    pub fn poll(&mut self, coils: &Vec<bool>, step: Option<i16>) -> (r: Option<AlarmPoll>)
        ensures
            coils@.len() < WATCH_M_CNT ==> r is None && final(self).prev@ == old(self).prev@
                && final(self).prev_prompt == old(self).prev_prompt && final(self).first == old(
                self,
            ).first,
            coils@.len() >= WATCH_M_CNT ==> r is Some && polled(
                old(self).prev@,
                old(self).prev_prompt,
                old(self).first,
                coils@,
                step,
                r->0,
                final(self).prev@,
                final(self).prev_prompt,
                final(self).first,
            ),
    {
        if coils.len() < WATCH_M_CNT as usize {
            return None;
        }
        let ghost old_prev = self.prev@;
        let first = self.first;
        let items = alarm_items(coils);
        let mut edges: Vec<Edge> = Vec::new();
        let mut any_change = false;
        let mut states: Vec<(u16, bool)> = Vec::new();
        let mut i: usize = 0;
        while i < ALARM_POINT_COUNT
            invariant
                i <= ALARM_POINT_COUNT,
                coils.len() >= WATCH_M_CNT,
                items_match(items@, coils@),
                self.prev@ == old_prev,
                first == self.first,
                states@.len() == i,
                forall|t: int|
                    0 <= t < i ==> #[trigger] states@[t] == (alarm_addr(t), point_on(coils@, t)),
                any_change == (changed_points(old_prev, coils@, i as int, false).len() > 0),
                ({
                    let logged = if first {
                        Seq::<int>::empty()
                    } else {
                        changed_points(old_prev, coils@, i as int, true)
                    };
                    &&& edges@.len() == logged.len()
                    &&& forall|k: int|
                        0 <= k < logged.len() ==> (#[trigger] edges@[k]).addr == alarm_addr(
                            logged[k],
                        ) && edges@[k].name@ == alarm_name(logged[k]) && edges@[k].raised
                            == point_on(coils@, logged[k])
                }),
            decreases ALARM_POINT_COUNT - i,
        {
            let p = alarm_point(i);
            let on = items[i].on;
            let old_on = match self.prev.get(&p.addr) {
                Some(v) => *v,
                None => false,
            };
            if old_on != on {
                any_change = true;
                if !first && p.log {
                    edges.push(Edge { addr: p.addr, name: p.name.to_owned(), raised: on });
                }
            }
            states.push((p.addr, on));
            i = i + 1;
        }
        let mut j: usize = 0;
        while j < ALARM_POINT_COUNT
            invariant
                j <= ALARM_POINT_COUNT,
                coils.len() >= WATCH_M_CNT,
                items_match(items@, coils@),
                self.prev@ == updated_baseline(old_prev, coils@, j as int),
                self.prev_prompt == old(self).prev_prompt,
            decreases ALARM_POINT_COUNT - j,
        {
            self.prev.insert(items[j].addr, items[j].on);
            j = j + 1;
        }
        let prompt = prompt_of(coils);
        let prompt_addr = match &prompt {
            Some(p) => Some(p.addr),
            None => None,
        };
        let same_prompt = match (prompt_addr, self.prev_prompt) {
            (Some(a), Some(b)) => a == b,
            (None, None) => true,
            _ => false,
        };
        let prompt_changed = first || !same_prompt;
        let snapshot = AlarmSnapshot {
            alarms: alarm_items(coils),
            prompt: prompt_of(coils),
            step_index: step,
        };
        self.prev_prompt = prompt_addr;
        self.first = false;
        Some(AlarmPoll {
            items,
            edges,
            alarm_changed: first || any_change,
            prompt,
            prompt_changed,
            states,
            snapshot,
        })
    }
}

/// The step index that a read of D400 gives: its first register as INT16.
pub open spec fn frame_step(f: Frame<Vec<u16>>) -> Option<i16> {
    match f {
        Frame::Data(v) => if v@.len() > 0 {
            Some(v@[0] as i16)
        } else {
            None
        },
        _ => None,
    }
}

/// Whether a coil read answered with the whole watched block.
pub open spec fn coils_usable(f: Frame<Vec<bool>>) -> bool {
    match f {
        Frame::Data(v) => v@.len() >= WATCH_M_CNT,
        _ => false,
    }
}

/// What the alarm watch does after one tick.
pub enum WatchStep {
    /// A read was lost: declare the link down and end the task.
    Downline,
    /// The coil read was refused or short: only the step index (if read) is sent.
    Skipped { step: Option<i16> },
    /// A full poll, and the step index (if read).
    Polled { poll: AlarmPoll, step: Option<i16> },
}

impl AlarmWatch {
    /// One tick of the alarm watch: the coil block read and the D400 read.
    pub fn observe(&mut self, coils: &Frame<Vec<bool>>, step_regs: &Frame<Vec<u16>>) -> (r: WatchStep)
        ensures
            (coils is Lost || step_regs is Lost) ==> r is Downline,
            !(coils is Lost || step_regs is Lost) && !coils_usable(*coils) ==> (match r {
                WatchStep::Skipped { step } => step == frame_step(*step_regs),
                _ => false,
            }),
            !(coils is Lost || step_regs is Lost) && coils_usable(*coils) ==> (match r {
                WatchStep::Polled { poll, step } => step == frame_step(*step_regs) && polled(
                    old(self).prev@,
                    old(self).prev_prompt,
                    old(self).first,
                    coils->Data_0@,
                    step,
                    poll,
                    final(self).prev@,
                    final(self).prev_prompt,
                    final(self).first,
                ),
                _ => false,
            }),
            !(r is Polled) ==> final(self).prev@ == old(self).prev@ && final(self).prev_prompt
                == old(self).prev_prompt && final(self).first == old(self).first,
    {
        let lost = match (coils, step_regs) {
            (Frame::Lost, _) => true,
            (_, Frame::Lost) => true,
            _ => false,
        };
        if lost {
            return WatchStep::Downline;
        }
        let step = match step_regs {
            Frame::Data(v) => step_from_regs(v),
            _ => None,
        };
        match coils {
            Frame::Data(v) => match self.poll(v, step) {
                Some(p) => WatchStep::Polled { poll: p, step },
                None => WatchStep::Skipped { step },
            },
            _ => WatchStep::Skipped { step },
        }
    }
}

/// The address of an optional prompt item.
pub open spec fn item_addr(p: Option<AlarmItem>) -> Option<u16> {
    match p {
        Some(x) => Some(x.addr),
        None => None,
    }
}

/// The prompt is sent exactly when it is the first poll or the prompt shown
/// differs from the previous poll's, a cleared prompt (now none) included; and
/// the prompt remembered for the next poll is the one shown now.
pub proof fn lemma_prompt_sent_on_change(
    prev: Map<u16, bool>,
    prev_prompt: Option<u16>,
    first: bool,
    coils: Seq<bool>,
    step: Option<i16>,
    p: AlarmPoll,
    new_prev: Map<u16, bool>,
    new_prompt: Option<u16>,
    new_first: bool,
)
    requires
        polled(prev, prev_prompt, first, coils, step, p, new_prev, new_prompt, new_first),
    ensures
        p.prompt_changed <==> (first || item_addr(p.prompt) != prev_prompt),
        new_prompt == item_addr(p.prompt),
        prev_prompt is Some && p.prompt is None ==> p.prompt_changed,
{
}

/// The prompt shown is the highest-address prompt coil that is on: M401 when
/// it is on, else M400 when it is on, else none.
pub proof fn lemma_prompt_is_highest_on(
    prev: Map<u16, bool>,
    prev_prompt: Option<u16>,
    first: bool,
    coils: Seq<bool>,
    step: Option<i16>,
    p: AlarmPoll,
    new_prev: Map<u16, bool>,
    new_prompt: Option<u16>,
    new_first: bool,
)
    requires
        coils.len() >= WATCH_M_CNT,
        polled(prev, prev_prompt, first, coils, step, p, new_prev, new_prompt, new_first),
    ensures
        coils[101] ==> item_addr(p.prompt) == Some(401u16),
        !coils[101] && coils[100] ==> item_addr(p.prompt) == Some(400u16),
        !coils[101] && !coils[100] ==> p.prompt is None,
        p.prompt is Some ==> p.prompt->0.on,
{
    reveal_with_fuel(last_prompt_on, 3);
}

/// The points that `changed_points` lists are exactly the (logged, where asked)
/// points among the first `n` whose level differs from the baseline, in
/// ascending order.
proof fn lemma_changed_points_exact(prev: Map<u16, bool>, coils: Seq<bool>, n: int, logged_only: bool)
    requires
        0 <= n <= ALARM_POINT_COUNT,
    ensures
        ({
            let cp = changed_points(prev, coils, n, logged_only);
            &&& forall|k: int|
                0 <= k < cp.len() ==> 0 <= #[trigger] cp[k] < n && prev_on(prev, alarm_addr(cp[k]))
                    != point_on(coils, cp[k]) && (logged_only ==> alarm_logged(cp[k]))
            &&& forall|k: int, l: int| 0 <= k < l < cp.len() ==> #[trigger] cp[k] < #[trigger] cp[l]
            &&& forall|i: int|
                #![trigger point_on(coils, i)]
                0 <= i < n && prev_on(prev, alarm_addr(i)) != point_on(coils, i) && (!logged_only
                    || alarm_logged(i)) ==> exists|k: int| 0 <= k < cp.len() && #[trigger] cp[k] == i
        }),
    decreases n,
{
    if n > 0 {
        lemma_changed_points_exact(prev, coils, n - 1, logged_only);
        let before = changed_points(prev, coils, n - 1, logged_only);
        let cp = changed_points(prev, coils, n, logged_only);
        let i = n - 1;
        if prev_on(prev, alarm_addr(i)) != point_on(coils, i) && (!logged_only || alarm_logged(i)) {
            assert(cp == before.push(i));
            assert(cp[before.len() as int] == i);
            assert forall|j: int|
                #![trigger point_on(coils, j)]
                0 <= j < n && prev_on(prev, alarm_addr(j)) != point_on(coils, j) && (!logged_only
                    || alarm_logged(j)) implies exists|k: int| 0 <= k < cp.len() && #[trigger] cp[k]
                == j by {
                if j < n - 1 {
                    assert(point_on(coils, j) != prev_on(prev, alarm_addr(j)));
                    let k = choose|k: int| 0 <= k < before.len() && #[trigger] before[k] == j;
                    assert(cp[k] == j);
                } else {
                    assert(cp[before.len() as int] == j);
                }
            }
        }
    }
}

/// The logged edges of a poll: none on the first poll; afterwards, for each
/// logged alarm point whose level differs from the previous one (or from the
/// stored baseline) exactly one edge, in point order, raised when the point is
/// now on and cleared when it is now off; M320 "pause" never.
pub proof fn lemma_edges_are_level_changes(
    prev: Map<u16, bool>,
    prev_prompt: Option<u16>,
    first: bool,
    coils: Seq<bool>,
    step: Option<i16>,
    p: AlarmPoll,
    new_prev: Map<u16, bool>,
    new_prompt: Option<u16>,
    new_first: bool,
)
    requires
        coils.len() >= WATCH_M_CNT,
        polled(prev, prev_prompt, first, coils, step, p, new_prev, new_prompt, new_first),
    ensures
        first ==> p.edges@.len() == 0,
        forall|k: int|
            0 <= k < p.edges@.len() ==> #[trigger] p.edges@[k].raised == coil_on(coils, p.edges@[k].addr)
                && prev_on(prev, p.edges@[k].addr) != p.edges@[k].raised && p.edges@[k].addr != 320,
        forall|k: int, l: int| 0 <= k < l < p.edges@.len() ==> #[trigger] p.edges@[k].addr < #[trigger] p.edges@[l].addr,
        !first ==> forall|i: int|
            #![trigger point_on(coils, i)]
            0 <= i < ALARM_POINT_COUNT && alarm_addr(i) != 320 && prev_on(prev, alarm_addr(i))
                != point_on(coils, i) ==> exists|k: int|
                0 <= k < p.edges@.len() && #[trigger] p.edges@[k].addr == alarm_addr(i),
{
    lemma_changed_points_exact(prev, coils, ALARM_POINT_COUNT as int, true);
    let cp = changed_points(prev, coils, ALARM_POINT_COUNT as int, true);
    if !first {
        assert forall|k: int, l: int| 0 <= k < l < p.edges@.len() implies #[trigger] p.edges@[k].addr
            < #[trigger] p.edges@[l].addr by {
            assert(cp[k] < cp[l]);
        }
        assert forall|i: int|
            #![trigger point_on(coils, i)]
            0 <= i < ALARM_POINT_COUNT && alarm_addr(i) != 320 && prev_on(prev, alarm_addr(i))
                != point_on(coils, i) implies exists|k: int|
            0 <= k < p.edges@.len() && #[trigger] p.edges@[k].addr == alarm_addr(i) by {
            assert(alarm_logged(i));
            assert(point_on(coils, i) != prev_on(prev, alarm_addr(i)));
            let k = choose|k: int| 0 <= k < cp.len() && #[trigger] cp[k] == i;
            assert(p.edges@[k].addr == alarm_addr(i));
        }
    }
}

/// After a poll, the baseline holds each alarm point's level from that poll.
proof fn lemma_updated_baseline_holds(prev: Map<u16, bool>, coils: Seq<bool>, n: int, i: int)
    requires
        0 <= i < n <= ALARM_POINT_COUNT,
    ensures
        updated_baseline(prev, coils, n).contains_key(alarm_addr(i)),
        updated_baseline(prev, coils, n)[alarm_addr(i)] == point_on(coils, i),
    decreases n,
{
    if i < n - 1 {
        lemma_updated_baseline_holds(prev, coils, n - 1, i);
    }
}

/// No point among the first `n` differs from a baseline that already holds its level.
proof fn lemma_no_change_against_own_levels(prev: Map<u16, bool>, coils: Seq<bool>, n: int, logged_only: bool)
    requires
        0 <= n <= ALARM_POINT_COUNT,
    ensures
        changed_points(updated_baseline(prev, coils, ALARM_POINT_COUNT as int), coils, n, logged_only).len() == 0,
    decreases n,
{
    if n > 0 {
        lemma_no_change_against_own_levels(prev, coils, n - 1, logged_only);
        lemma_updated_baseline_holds(prev, coils, ALARM_POINT_COUNT as int, n - 1);
    }
}

/// Polling the same coil levels twice in a row: the second poll finds no level
/// change, so it logs no edge and does not resend the alarm levels.
pub proof fn lemma_repeat_poll_is_quiet(prev: Map<u16, bool>, coils: Seq<bool>, logged_only: bool)
    ensures
        changed_points(
            updated_baseline(prev, coils, ALARM_POINT_COUNT as int),
            coils,
            ALARM_POINT_COUNT as int,
            logged_only,
        ).len() == 0,
{
    lemma_no_change_against_own_levels(prev, coils, ALARM_POINT_COUNT as int, logged_only);
}

} // verus!
