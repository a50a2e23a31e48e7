use vstd::prelude::*;

verus! {

/// One platform-specific executable name for a detectable target.
#[derive(Clone, Debug)]
pub struct GameExecutable {
    pub os: String,
    pub name: String,
}

/// A detectable target: an identifier, a display name, and the executable
/// names that count as this target running, in match-priority order.
#[derive(Clone, Debug)]
pub struct DetectableGame {
    pub id: String,
    pub name: String,
    pub executables: Vec<GameExecutable>,
}

/// Payload sent outward when the detected activity changes.
#[derive(Clone, Debug)]
pub struct GameActivity {
    pub name: String,
    pub is_running: bool,
}

/// The scanner's shared state: the watch list, the currently detected target
/// (by display name), the enable flag, and the wake signal's single
/// coalescing pending slot.
pub struct ScannerState {
    pub watch_list: Vec<DetectableGame>,
    pub current_game: Option<String>,
    pub is_enabled: bool,
    pub wake_pending: bool,
}

/// The decision taken at the top of each loop iteration.
#[derive(Clone, Copy, Debug, PartialEq, Eq, Structural)]
pub enum LoopAction {
    /// The flag is off: block on the wake signal indefinitely.
    WaitForWake,
    /// The flag is on: run one scan cycle.
    Scan,
}

/// What `set_scanner_enabled` leaves behind: a changed value updates the flag
/// and signals the wake slot once; an unchanged value is a no-op.
pub open spec fn set_enabled_spec(s: ScannerState, enabled: bool) -> ScannerState {
    if s.is_enabled == enabled {
        s
    } else {
        ScannerState { is_enabled: enabled, wake_pending: true, ..s }
    }
}

/// The loop's decision as a function of the state: scan exactly when enabled.
pub open spec fn action_spec(s: ScannerState) -> LoopAction {
    if s.is_enabled {
        LoopAction::Scan
    } else {
        LoopAction::WaitForWake
    }
}

impl ScannerState {
    /// The state at process start: empty watch list, nothing detected, flag
    /// closed, no pending wake.
    pub fn new() -> (s: ScannerState)
        ensures
            s.watch_list@ =~= Seq::<DetectableGame>::empty(),
            s.current_game is None,
            !s.is_enabled,
            !s.wake_pending,
    {
        ScannerState {
            watch_list: Vec::new(),
            current_game: None,
            is_enabled: false,
            wake_pending: false,
        }
    }

    /// Set the enable flag. A changed value triggers the wake signal exactly
    /// once; an unchanged value leaves the whole state untouched, so a
    /// redundant toggle never wakes the loop.
    pub fn set_scanner_enabled(&mut self, enabled: bool)
        ensures
            *final(self) == set_enabled_spec(*old(self), enabled),
            final(self).is_enabled == enabled,
            old(self).is_enabled == enabled ==> *final(self) == *old(self),
    {
        if self.is_enabled != enabled {
            self.is_enabled = enabled;
            self.wake_pending = true;
        }
    }

    /// Replace the watch list wholesale. Nothing else changes; in particular
    /// no wake is signalled, so the new list takes effect on the next cycle.
    pub fn update_watch_list(&mut self, games: Vec<DetectableGame>)
        ensures
            final(self).watch_list == games,
            final(self).current_game == old(self).current_game,
            final(self).is_enabled == old(self).is_enabled,
            final(self).wake_pending == old(self).wake_pending,
    {
        self.watch_list = games;
    }

    /// Trigger the wake signal. Any number of signals before the next
    /// consumption collapse into the one pending slot.
    pub fn signal_wake(&mut self)
        ensures
            final(self).wake_pending,
            final(self).watch_list == old(self).watch_list,
            final(self).current_game == old(self).current_game,
            final(self).is_enabled == old(self).is_enabled,
    {
        self.wake_pending = true;
    }

    /// Consume the pending wake, if any, reporting whether one was pending.
    pub fn take_wake(&mut self) -> (w: bool)
        ensures
            w == old(self).wake_pending,
            !final(self).wake_pending,
            final(self).watch_list == old(self).watch_list,
            final(self).current_game == old(self).current_game,
            final(self).is_enabled == old(self).is_enabled,
    {
        let w = self.wake_pending;
        self.wake_pending = false;
        w
    }

    /// Plain read of the enable flag.
    pub fn get_enabled(&self) -> (e: bool)
        ensures
            e == self.is_enabled,
    {
        self.is_enabled
    }

    /// The decision at the top of each loop iteration: run a scan cycle when
    /// the scanner is enabled, otherwise block on the wake signal.
    pub fn next_action(&self) -> (a: LoopAction)
        ensures
            a == action_spec(*self),
    {
        if self.is_enabled {
            LoopAction::Scan
        } else {
            LoopAction::WaitForWake
        }
    }
}

/// Disabling the scanner makes the loop's next decision the disabled wait, never
/// another scan, whatever state the scanner was in.
pub proof fn lemma_disable_takes_effect(s: ScannerState)
    ensures
        action_spec(set_enabled_spec(s, false)) == LoopAction::WaitForWake,
{
}

/// Whether some process in the snapshot has exactly this executable name.
pub open spec fn process_listed(procs: Seq<String>, name: Seq<char>) -> bool {
    exists|k: int| 0 <= k < procs.len() && procs[k]@ == name
}

/// The first executable of `exes`, from index `j` on, whose name a process in
/// the snapshot carries, if any.
pub open spec fn first_listed_exe(
    exes: Seq<GameExecutable>,
    procs: Seq<String>,
    j: int,
) -> Option<Seq<char>>
    decreases exes.len() - j,
{
    if j < 0 || j >= exes.len() {
        None
    } else if process_listed(procs, exes[j].name@) {
        Some(exes[j].name@)
    } else {
        first_listed_exe(exes, procs, j + 1)
    }
}

/// Whether any executable of this target is running in the snapshot.
pub open spec fn game_running(g: DetectableGame, procs: Seq<String>) -> bool {
    exists|j: int| 0 <= j < g.executables@.len() && process_listed(procs, g.executables@[j].name@)
}

/// The detection over the watch list from index `i` on: the first target in
/// list order with a running executable, paired with the first of its
/// executables in descriptor order that is running.
pub open spec fn detection_from(
    watch: Seq<DetectableGame>,
    procs: Seq<String>,
    i: int,
) -> Option<(Seq<char>, Seq<char>)>
    decreases watch.len() - i,
{
    if i < 0 || i >= watch.len() {
        None
    } else {
        match first_listed_exe(watch[i].executables@, procs, 0) {
            Some(exe) => Some((watch[i].name@, exe)),
            None => detection_from(watch, procs, i + 1),
        }
    }
}

/// The detection over the whole watch list: display name and matched
/// executable name of the first running target, if any.
pub open spec fn detection(watch: Seq<DetectableGame>, procs: Seq<String>) -> Option<
    (Seq<char>, Seq<char>),
> {
    detection_from(watch, procs, 0)
}

/// The display name of the detected target, if any.
pub open spec fn detected_name(watch: Seq<DetectableGame>, procs: Seq<String>) -> Option<
    Seq<char>,
> {
    match detection(watch, procs) {
        Some(d) => Some(d.0),
        None => None,
    }
}

/// From index `j` on, a listed executable exists exactly when
/// `first_listed_exe` finds one.
proof fn lemma_first_listed_exe_running(exes: Seq<GameExecutable>, procs: Seq<String>, j: int)
    requires
        0 <= j <= exes.len(),
    ensures
        (first_listed_exe(exes, procs, j) is Some) == (exists|k: int|
            j <= k < exes.len() && process_listed(procs, exes[k].name@)),
    decreases exes.len() - j,
{
    if j < exes.len() {
        lemma_first_listed_exe_running(exes, procs, j + 1);
        if process_listed(procs, exes[j].name@) {
            assert(j <= j < exes.len() && process_listed(procs, exes[j].name@));
        }
    }
}

/// A target whose `first_listed_exe` search fails is not running, and the
/// detection skips it.
proof fn lemma_detection_skip(watch: Seq<DetectableGame>, procs: Seq<String>, i: int)
    requires
        0 <= i < watch.len(),
        !game_running(watch[i], procs),
    ensures
        detection_from(watch, procs, i) == detection_from(watch, procs, i + 1),
{
    lemma_first_listed_exe_running(watch[i].executables@, procs, 0);
}

/// Whether some process in the snapshot has exactly the name `name`.
fn name_is_listed(procs: &Vec<String>, name: &String) -> (r: bool)
    ensures
        r == process_listed(procs@, name@),
{
    let mut k: usize = 0;
    while k < procs.len()
        invariant
            k <= procs@.len(),
            forall|k2: int| 0 <= k2 < k ==> procs@[k2]@ != name@,
        decreases procs@.len() - k,
    {
        if procs[k].eq(name) {
            assert(process_listed(procs@, name@)) by {
                assert(0 <= k < procs@.len() && procs@[k as int]@ == name@);
            }
            return true;
        }
        k += 1;
    }
    false
}

/// Scan the watch list in order against a process-name snapshot. The result
/// is the first target in list order with a running executable, as its
/// display name paired with the matched executable name; first match wins on
/// both levels, and no further targets are examined.
pub fn detect(watch_list: &Vec<DetectableGame>, procs: &Vec<String>) -> (r: Option<
    (String, String),
>)
    ensures
        match r {
            Some(d) => detection(watch_list@, procs@) == Some((d.0@, d.1@)),
            None => detection(watch_list@, procs@) is None,
        },
{
    let mut i: usize = 0;
    while i < watch_list.len()
        invariant
            i <= watch_list@.len(),
            detection(watch_list@, procs@) == detection_from(watch_list@, procs@, i as int),
        decreases watch_list@.len() - i,
    {
        let game = &watch_list[i];
        let mut j: usize = 0;
        while j < game.executables.len()
            invariant
                j <= game.executables@.len(),
                i < watch_list@.len(),
                game == watch_list@[i as int],
                detection(watch_list@, procs@) == detection_from(watch_list@, procs@, i as int),
                first_listed_exe(game.executables@, procs@, 0) == first_listed_exe(
                    game.executables@,
                    procs@,
                    j as int,
                ),
            decreases game.executables@.len() - j,
        {
            let exe = &game.executables[j];
            if name_is_listed(procs, &exe.name) {
                assert(first_listed_exe(game.executables@, procs@, j as int) == Some(exe.name@));
                assert(detection_from(watch_list@, procs@, i as int) == Some(
                    (game.name@, exe.name@),
                ));
                return Some((game.name.clone(), exe.name.clone()));
            }
            j += 1;
        }
        assert(first_listed_exe(game.executables@, procs@, 0) is None);
        i += 1;
    }
    None
}

/// The view of an optional display name.
pub open spec fn opt_name_view(o: Option<String>) -> Option<Seq<char>> {
    match o {
        Some(s) => Some(s@),
        None => None,
    }
}

/// The view of an optional activity event.
pub open spec fn event_view(e: Option<GameActivity>) -> Option<(Seq<char>, bool)> {
    match e {
        Some(a) => Some((a.name@, a.is_running)),
        None => None,
    }
}

/// The transition table: the event emitted when the detected value moves from
/// `prev` to `cur`. A new detection emits a start, a lost detection emits a
/// stop, and a switch emits only the start of the new target; equal
/// consecutive values emit nothing.
pub open spec fn transition_event(prev: Option<Seq<char>>, cur: Option<Seq<char>>) -> Option<
    (Seq<char>, bool),
> {
    match (prev, cur) {
        (None, Some(n)) => Some((n, true)),
        (Some(p), None) => Some((p, false)),
        (Some(p), Some(n)) => if p != n {
            Some((n, true))
        } else {
            None
        },
        (None, None) => None,
    }
}

/// Everything one scan cycle does to the state, given the process-name
/// snapshot `procs`: the detected value is written to `current_game`
/// unconditionally, at most one event is emitted, exactly per the transition
/// table, and nothing else changes.
pub open spec fn cycle_post(
    pre: ScannerState,
    procs: Seq<String>,
    post: ScannerState,
    ev: Option<GameActivity>,
) -> bool {
    &&& post.watch_list == pre.watch_list
    &&& post.is_enabled == pre.is_enabled
    &&& post.wake_pending == pre.wake_pending
    &&& opt_name_view(post.current_game) == detected_name(pre.watch_list@, procs)
    &&& event_view(ev) == transition_event(
        opt_name_view(pre.current_game),
        detected_name(pre.watch_list@, procs),
    )
}

impl ScannerState {
    /// One scan cycle against a given process-name snapshot: detect the first
    /// running target, diff against the previous detection per the transition
    /// table, emit at most one event, and store the new detection.
    pub fn scan_cycle(&mut self, procs: &Vec<String>) -> (ev: Option<GameActivity>)
        ensures
            cycle_post(*old(self), procs@, *final(self), ev),
    {
        let detected = detect(&self.watch_list, procs);
        let new_game: Option<String> = match detected {
            Some(d) => Some(d.0),
            None => None,
        };
        let ev: Option<GameActivity> = match (&self.current_game, &new_game) {
            (None, Some(name)) => Some(
                GameActivity { name: name.clone(), is_running: true },
            ),
            (Some(prev), None) => Some(GameActivity { name: prev.clone(), is_running: false }),
            (Some(prev), Some(name)) => {
                if !prev.eq(name) {
                    Some(GameActivity { name: name.clone(), is_running: true })
                } else {
                    None
                }
            },
            (None, None) => None,
        };
        self.current_game = new_game;
        ev
    }
}

/// First-match priority: if the target at index `i` has a running executable
/// and no earlier target does, the detection is that target, whatever runs
/// further down the list.
pub proof fn lemma_first_match_priority(watch: Seq<DetectableGame>, procs: Seq<String>, i: int)
    requires
        0 <= i < watch.len(),
        game_running(watch[i], procs),
        forall|h: int| 0 <= h < i ==> !game_running(watch[h], procs),
    ensures
        detection(watch, procs) matches Some(d) && d.0 == watch[i].name@,
{
    lemma_first_listed_exe_running(watch[i].executables@, procs, 0);
    lemma_detection_prefix_skip(watch, procs, 0, i);
}

/// Skipping a prefix of targets none of which is running leaves the detection
/// unchanged.
proof fn lemma_detection_prefix_skip(
    watch: Seq<DetectableGame>,
    procs: Seq<String>,
    lo: int,
    hi: int,
)
    requires
        0 <= lo <= hi <= watch.len(),
        forall|h: int| lo <= h < hi ==> !game_running(watch[h], procs),
    ensures
        detection_from(watch, procs, lo) == detection_from(watch, procs, hi),
    decreases hi - lo,
{
    if lo < hi {
        lemma_detection_skip(watch, procs, lo);
        lemma_detection_prefix_skip(watch, procs, lo + 1, hi);
    }
}

/// Nothing is detected exactly when no target from index `i` on is running.
proof fn lemma_detection_from_none(watch: Seq<DetectableGame>, procs: Seq<String>, i: int)
    requires
        0 <= i <= watch.len(),
    ensures
        (detection_from(watch, procs, i) is None) == (forall|k: int|
            i <= k < watch.len() ==> !game_running(watch[k], procs)),
    decreases watch.len() - i,
{
    if i < watch.len() {
        lemma_first_listed_exe_running(watch[i].executables@, procs, 0);
        lemma_detection_from_none(watch, procs, i + 1);
    }
}

/// Nothing is detected exactly when no target in the watch list has a
/// running executable.
pub proof fn lemma_detection_none(watch: Seq<DetectableGame>, procs: Seq<String>)
    ensures
        (detection(watch, procs) is None) == (forall|k: int|
            0 <= k < watch.len() ==> !game_running(watch[k], procs)),
{
    lemma_detection_from_none(watch, procs, 0);
}

/// The pairwise transition-table events for a sequence of detected values,
/// starting from the previously stored value `prev`.
pub open spec fn pairwise_events(
    prev: Option<Seq<char>>,
    detected: Seq<Option<Seq<char>>>,
) -> Seq<Option<(Seq<char>, bool)>> {
    Seq::new(
        detected.len(),
        |i: int|
            transition_event(
                if i == 0 {
                    prev
                } else {
                    detected[i - 1]
                },
                detected[i],
            ),
    )
}

/// The events a run of scan cycles emits, one cycle per detected value,
/// threading the stored state from cycle to cycle as `scan_cycle` does: each
/// cycle diffs against the value the previous cycle stored.
pub open spec fn cycle_events(
    prev: Option<Seq<char>>,
    detected: Seq<Option<Seq<char>>>,
) -> Seq<Option<(Seq<char>, bool)>>
    decreases detected.len(),
{
    if detected.len() == 0 {
        Seq::empty()
    } else {
        seq![transition_event(prev, detected[0])] + cycle_events(
            detected[0],
            detected.drop_first(),
        )
    }
}

/// One verified scan cycle is one step of `cycle_events`: whatever detected
/// values follow, the event the cycle emitted is the head of the stream that
/// starts from the cycle's previous state.
pub proof fn lemma_cycle_is_stream_step(
    pre: ScannerState,
    procs: Seq<String>,
    post: ScannerState,
    ev: Option<GameActivity>,
    rest: Seq<Option<Seq<char>>>,
)
    requires
        cycle_post(pre, procs, post, ev),
    ensures
        cycle_events(
            opt_name_view(pre.current_game),
            seq![detected_name(pre.watch_list@, procs)] + rest,
        )[0] == event_view(ev),
{
    let ds = seq![detected_name(pre.watch_list@, procs)] + rest;
    assert(ds[0] == detected_name(pre.watch_list@, procs));
}

/// For every sequence of detected values, the event stream of iterated scan
/// cycles is exactly the transition table applied pairwise to consecutive
/// (previous, new) values, with no event for equal consecutive values.
pub proof fn lemma_event_stream(prev: Option<Seq<char>>, detected: Seq<Option<Seq<char>>>)
    ensures
        cycle_events(prev, detected) =~= pairwise_events(prev, detected),
    decreases detected.len(),
{
    if detected.len() > 0 {
        lemma_event_stream(detected[0], detected.drop_first());
        assert forall|i: int| 0 <= i < detected.len() implies cycle_events(prev, detected)[i]
            == pairwise_events(prev, detected)[i] by {
            if i > 0 {
                assert(cycle_events(prev, detected)[i] == cycle_events(
                    detected[0],
                    detected.drop_first(),
                )[i - 1]);
                assert(pairwise_events(detected[0], detected.drop_first())[i - 1]
                    == transition_event(
                    if i - 1 == 0 {
                        detected[0]
                    } else {
                        detected.drop_first()[i - 2]
                    },
                    detected.drop_first()[i - 1],
                ));
            }
        }
    }
}

} // verus!
