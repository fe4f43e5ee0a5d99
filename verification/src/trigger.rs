//! When a PrintScreen trigger launches a capture: the daemons' launch gates,
//! the key codes that count as a trigger, the capture retry budget, and the
//! registry of input devices that already have a listener.
use vstd::prelude::*;
use vstd::string::StringSliceAdditionalSpecFns;

verus! {

/// Minimum time between two accepted triggers of the Wayland daemon (350 ms).
pub const LAUNCH_COOLDOWN_NANOS: u64 = 350_000_000;

/// Minimum time between two launches of the X11 daemon (1000 ms).
pub const X11_LAUNCH_COOLDOWN_NANOS: u64 = 1_000_000_000;

/// `EV_KEY`: the evdev event type of key presses and releases.
pub const EV_KEY: u16 = 1;
/// `KEY_SYSRQ`: the PrintScreen/SysRq key.
pub const KEY_PRINTSCREEN_SYSRQ: u16 = 99;
/// `KEY_SCROLLLOCK`, accepted as a fallback trigger.
pub const KEY_SCROLL_LOCK: u16 = 70;
/// `KEY_PAUSE`, accepted as a fallback trigger.
pub const KEY_PAUSE: u16 = 119;
/// `KEY_PRINT`: the dedicated PrintScreen key code.
pub const KEY_PRINTSCREEN: u16 = 210;

/// Nanoseconds since `last` at time `now` on a monotonic clock; a stamp in
/// the future counts as no time at all, like `Instant::elapsed`.
pub open spec fn spec_elapsed(last: u64, now: u64) -> nat {
    if now >= last { (now - last) as nat } else { 0 }
}

fn elapsed(last: u64, now: u64) -> (res: u64)
    ensures
        res as nat == spec_elapsed(last, now),
{
    if now >= last { now - last } else { 0 }
}

/// Launch state of the Wayland trigger service.
#[derive(Debug, Clone, Copy, PartialEq, Eq, Structural)]
pub struct LaunchState {
    /// A capture and overlay are running.
    pub busy: bool,
    /// When the last trigger was accepted or the last overlay ended, in
    /// nanoseconds on the daemon's monotonic clock; `None` before the first.
    pub last_trigger: Option<u64>,
}

/// Whether a trigger at `now` is accepted: nothing is running and the
/// cooldown since the last trigger has passed.
pub open spec fn spec_accepts(s: LaunchState, now: u64) -> bool {
    !s.busy && match s.last_trigger {
        Some(last) => spec_elapsed(last, now) >= LAUNCH_COOLDOWN_NANOS,
        None => true,
    }
}

impl LaunchState {
    /// The state of a daemon that has not launched anything yet.
    pub fn new() -> (s: LaunchState)
        ensures
            !s.busy,
            s.last_trigger is None,
    {
        LaunchState { busy: false, last_trigger: None }
    }

    /// Handles a trigger at `now`: when accepted, the state becomes busy and
    /// `now` is recorded; a refused trigger leaves the state unchanged.
    pub fn try_begin(&mut self, now: u64) -> (accepted: bool)
        ensures
            accepted == spec_accepts(*old(self), now),
            accepted ==> *final(self) == (LaunchState { busy: true, last_trigger: Some(now) }),
            !accepted ==> *final(self) == *old(self),
    {
        if self.busy {
            return false;
        }
        match self.last_trigger {
            Some(last) => if elapsed(last, now) < LAUNCH_COOLDOWN_NANOS {
                return false;
            },
            None => {},
        }
        self.busy = true;
        self.last_trigger = Some(now);
        true
    }

    /// Records that the capture and overlay started by a trigger ended at `now`.
    pub fn finish(&mut self, now: u64)
        ensures
            *final(self) == (LaunchState { busy: false, last_trigger: Some(now) }),
    {
        self.busy = false;
        self.last_trigger = Some(now);
    }
}

/// While an overlay is running, no trigger starts another one; after it
/// ends, triggers are refused until the cooldown has passed and accepted
/// from then on.
pub proof fn no_overlapping_launches(s: LaunchState, ended: u64, now: u64)
    ensures
        s.busy ==> !spec_accepts(s, now),
        !spec_accepts(LaunchState { busy: true, last_trigger: Some(ended) }, now),
        spec_accepts(LaunchState { busy: false, last_trigger: Some(ended) }, now) <==> spec_elapsed(
            ended,
            now,
        ) >= LAUNCH_COOLDOWN_NANOS,
{
}

/// Launch gate of the X11 daemon: one launch per second at most.
#[derive(Debug, Clone, Copy, PartialEq, Eq, Structural)]
pub struct CooldownGate {
    /// When the last launch happened, in nanoseconds on a monotonic clock.
    pub last_launch: Option<u64>,
}

/// Whether a key press at `now` launches a capture.
pub open spec fn spec_gate_opens(g: CooldownGate, now: u64) -> bool {
    match g.last_launch {
        Some(last) => spec_elapsed(last, now) > X11_LAUNCH_COOLDOWN_NANOS,
        None => true,
    }
}

impl CooldownGate {
    /// A gate that has not launched anything yet.
    pub fn new() -> (g: CooldownGate)
        ensures
            g.last_launch is None,
    {
        CooldownGate { last_launch: None }
    }

    /// Handles a trigger key press at `now`: more than the cooldown after
    /// the last launch it launches and records `now`; otherwise nothing changes.
    pub fn try_launch(&mut self, now: u64) -> (launch: bool)
        ensures
            launch == spec_gate_opens(*old(self), now),
            launch ==> final(self).last_launch == Some(now),
            !launch ==> *final(self) == *old(self),
    {
        match self.last_launch {
            Some(last) => if elapsed(last, now) <= X11_LAUNCH_COOLDOWN_NANOS {
                return false;
            },
            None => {},
        }
        self.last_launch = Some(now);
        true
    }
}

/// The key codes that trigger a capture.
pub open spec fn spec_is_trigger_code(code: u16) -> bool {
    code == KEY_PRINTSCREEN_SYSRQ || code == KEY_PRINTSCREEN || code == KEY_SCROLL_LOCK || code
        == KEY_PAUSE
}

/// Whether a key code triggers a capture.
pub fn is_trigger_code(code: u16) -> (res: bool)
    ensures
        res == spec_is_trigger_code(code),
        res == (code == KEY_PRINTSCREEN_SYSRQ || code == KEY_PRINTSCREEN || code == KEY_SCROLL_LOCK
            || code == KEY_PAUSE),
{
    code == KEY_PRINTSCREEN_SYSRQ || code == KEY_PRINTSCREEN || code == KEY_SCROLL_LOCK || code
        == KEY_PAUSE
}

/// Whether an input event is the press (value 1) of a trigger key.
pub fn is_trigger_press(event_type: u16, value: i32, code: u16) -> (res: bool)
    ensures
        res == (event_type == EV_KEY && value == 1 && spec_is_trigger_code(code)),
        res == (event_type == EV_KEY && value == 1 && (code == KEY_PRINTSCREEN_SYSRQ || code
            == KEY_PRINTSCREEN || code == KEY_SCROLL_LOCK || code == KEY_PAUSE)),
{
    event_type == EV_KEY && value == 1 && is_trigger_code(code)
}

/// Exactly four keys trigger a capture: SysRq/PrintScreen (99), PrintScreen
/// (210), Scroll Lock (70) and Pause (119); every other key, such as Enter
/// (28), is ignored.
pub proof fn only_four_keys_trigger(code: u16)
    ensures
        spec_is_trigger_code(code) ==> code == 99 || code == 210 || code == 70 || code == 119,
        code == 99 || code == 210 || code == 70 || code == 119 ==> spec_is_trigger_code(code),
        Set::new(|c: u16| spec_is_trigger_code(c)) == set![99u16, 210u16, 70u16, 119u16],
        Set::new(|c: u16| spec_is_trigger_code(c)).len() == 4,
{
    let s = Set::new(|c: u16| spec_is_trigger_code(c));
    assert(s =~= set![99u16, 210u16, 70u16, 119u16]);
    assert(set![99u16, 210u16, 70u16, 119u16].len() == 4) by {
        let e = Set::<u16>::empty();
        assert(!e.insert(99u16).contains(210u16));
        assert(!e.insert(99u16).insert(210u16).contains(70u16));
        assert(!e.insert(99u16).insert(210u16).insert(70u16).contains(119u16));
    }
}

/// The device reports at least one trigger key.
pub open spec fn spec_supports_trigger_key(supported_keys: Option<Vec<u16>>) -> bool {
    match supported_keys {
        Some(keys) => exists|i: int| 0 <= i < keys@.len() && spec_is_trigger_code(#[trigger] keys@[i]),
        None => false,
    }
}

/// Whether a device, given the key codes it reports (`None` when it
/// reports no key capabilities), has at least one trigger key.
pub fn supports_trigger_key(supported_keys: &Option<Vec<u16>>) -> (res: bool)
    ensures
        res == spec_supports_trigger_key(*supported_keys),
{
    match supported_keys {
        Some(keys) => any_trigger_code(keys),
        None => false,
    }
}

fn any_trigger_code(keys: &Vec<u16>) -> (res: bool)
    ensures
        res == exists|i: int| 0 <= i < keys@.len() && spec_is_trigger_code(#[trigger] keys@[i]),
{
    let mut i: usize = 0;
    while i < keys.len()
        invariant
            0 <= i <= keys@.len(),
            forall|j: int| 0 <= j < i ==> !spec_is_trigger_code(#[trigger] keys@[j]),
        decreases keys@.len() - i,
    {
        if is_trigger_code(keys[i]) {
            assert(spec_is_trigger_code(keys@[i as int]));
            return true;
        }
        i = i + 1;
    }
    false
}

/// What to do after a capture attempt failed.
#[derive(Debug, Clone, Copy, PartialEq, Eq, Structural)]
pub enum RetryStep {
    /// Sleep briefly, then try again.
    SleepThenRetry,
    /// Stop and report the last error.
    GiveUp,
}

/// Counts capture attempts: the first attempt plus up to `max_retries` more.
#[derive(Debug, Clone, Copy, PartialEq, Eq, Structural)]
pub struct RetryBudget {
    /// Attempts made so far.
    pub attempt: usize,
    pub max_retries: usize,
}

impl RetryBudget {
    /// A budget before the first attempt.
    pub fn new(max_retries: usize) -> (b: RetryBudget)
        ensures
            b.attempt == 0,
            b.max_retries == max_retries,
    {
        RetryBudget { attempt: 0, max_retries }
    }

    /// Records a failed attempt: another attempt follows, after a short
    /// sleep, as long as fewer than `max_retries` retries have been made.
    pub fn after_failure(&mut self) -> (step: RetryStep)
        requires
            old(self).attempt <= old(self).max_retries,
        ensures
            final(self).max_retries == old(self).max_retries,
            step == (if old(self).attempt < old(self).max_retries {
                RetryStep::SleepThenRetry
            } else {
                RetryStep::GiveUp
            }),
            step == RetryStep::SleepThenRetry ==> final(self).attempt == old(self).attempt + 1,
            step == RetryStep::GiveUp ==> final(self).attempt == old(self).attempt,
            final(self).attempt <= final(self).max_retries,
    {
        if self.attempt < self.max_retries {
            self.attempt = self.attempt + 1;
            RetryStep::SleepThenRetry
        } else {
            RetryStep::GiveUp
        }
    }
}

/// The text of each path in a list.
pub open spec fn path_views(paths: Seq<String>) -> Seq<Seq<char>> {
    paths.map_values(|p: String| p@)
}

/// The input devices that currently have a listener, each listed once.
#[derive(Debug)]
pub struct ListenerRegistry {
    paths: Vec<String>,
}

impl ListenerRegistry {
    #[verifier::type_invariant]
    spec fn no_duplicates(self) -> bool {
        path_views(self.paths@).no_duplicates()
    }

    /// The device paths that have a listener.
    pub closed spec fn view(&self) -> Set<Seq<char>> {
        path_views(self.paths@).to_set()
    }

    /// An empty registry.
    pub fn new() -> (r: ListenerRegistry)
        ensures
            r.view() == Set::<Seq<char>>::empty(),
    {
        let r = ListenerRegistry { paths: Vec::new() };
        assert(path_views(r.paths@) =~= Seq::<Seq<char>>::empty());
        assert(r.view() =~= Set::<Seq<char>>::empty());
        r
    }

    fn position(&self, path: &String) -> (res: Option<usize>)
        ensures
            match res {
                Some(i) => i < self.paths@.len() && self.paths@[i as int]@ == path@,
                None => !path_views(self.paths@).contains(path@),
            },
    {
        let mut i: usize = 0;
        while i < self.paths.len()
            invariant
                0 <= i <= self.paths@.len(),
                forall|j: int| 0 <= j < i ==> (#[trigger] self.paths@[j])@ != path@,
            decreases self.paths@.len() - i,
        {
            if self.paths[i] == *path {
                return Some(i);
            }
            i = i + 1;
        }
        proof {
            if path_views(self.paths@).contains(path@) {
                let j = choose|j: int| 0 <= j < path_views(self.paths@).len() && path_views(self.paths@)[j] == path@;
                assert(self.paths@[j]@ == path@);
            }
        }
        None
    }

    /// Whether the device already has a listener.
    pub fn contains(&self, path: &String) -> (res: bool)
        ensures
            res == self.view().contains(path@),
    {
        let found = self.position(path);
        proof {
            if let Some(i) = found {
                assert(path_views(self.paths@)[i as int] == path@);
            }
        }
        found.is_some()
    }

    /// Claims a device for a new listener: returns `false`, changing
    /// nothing, when it already has one; otherwise records it and returns `true`.
    pub fn claim(&mut self, path: &String) -> (claimed: bool)
        ensures
            claimed == !old(self).view().contains(path@),
            final(self).view() == old(self).view().insert(path@),
    {
        proof {
            use_type_invariant(&*self);
        }
        let found = self.position(path);
        match found {
            Some(i) => {
                proof {
                    assert(path_views(self.paths@)[i as int] == path@);
                    assert(self.view().contains(path@));
                    assert(self.view().insert(path@) =~= self.view());
                }
                false
            },
            None => {
                let ghost before = self.paths@;
                let mut paths: Vec<String> = Vec::new();
                std::mem::swap(&mut paths, &mut self.paths);
                paths.push(path.clone());
                proof {
                    assert(path_views(paths@) =~= path_views(before).push(path@));
                }
                self.paths = paths;
                proof {
                    assert(path_views(self.paths@) =~= path_views(before).push(path@));
                    assert(!old(self).view().contains(path@));
                    assert forall|q: Seq<char>| self.view().contains(q) <==> old(self).view().insert(path@).contains(q) by {
                        vstd::seq_lib::lemma_seq_contains_after_push(path_views(before), path@, q);
                    }
                    assert(self.view() =~= old(self).view().insert(path@));
                }
                true
            },
        }
    }

    /// Forgets the listener of a device, if it has one.
    pub fn release(&mut self, path: &String)
        ensures
            final(self).view() == old(self).view().remove(path@),
    {
        proof {
            use_type_invariant(&*self);
        }
        match self.position(path) {
            Some(i) => {
                let ghost before = self.paths@;
                let mut paths: Vec<String> = Vec::new();
                std::mem::swap(&mut paths, &mut self.paths);
                paths.remove(i);
                proof {
                    assert(path_views(paths@) =~= path_views(before).remove(i as int));
                    assert(path_views(before).no_duplicates());
                    assert forall|a: int, b: int|
                        0 <= a < b < path_views(paths@).len() implies path_views(paths@)[a] != path_views(paths@)[b] by {
                        let a0 = if a < i { a } else { a + 1 };
                        let b0 = if b < i { b } else { b + 1 };
                        assert(path_views(paths@)[a] == path_views(before)[a0]);
                        assert(path_views(paths@)[b] == path_views(before)[b0]);
                    }
                }
                self.paths = paths;
                proof {
                    assert(path_views(self.paths@) =~= path_views(before).remove(i as int));
                    assert forall|p: Seq<char>| self.view().contains(p) <==> old(self).view().remove(path@).contains(p) by {
                        if self.view().contains(p) {
                            assert(path_views(self.paths@).contains(p));
                            let k = choose|k: int| 0 <= k < path_views(self.paths@).len() && path_views(self.paths@)[k] == p;
                            assert(path_views(before)[i as int] == path@);
                            if k < i {
                                assert(path_views(before)[k] == p);
                                assert(p != path@);
                            } else {
                                assert(path_views(before)[k + 1] == p);
                                assert(p != path@);
                            }
                            assert(path_views(before).contains(p));
                        }
                        if old(self).view().remove(path@).contains(p) {
                            assert(path_views(before).contains(p));
                            let k = choose|k: int| 0 <= k < path_views(before).len() && path_views(before)[k] == p;
                            assert(k != i);
                            if k < i {
                                assert(path_views(self.paths@)[k] == p);
                            } else {
                                assert(path_views(self.paths@)[k - 1] == p);
                            }
                        }
                    }
                    assert(self.view() =~= old(self).view().remove(path@));
                }
            },
            None => {
                proof {
                    assert(old(self).view().remove(path@) =~= old(self).view());
                }
            },
        }
    }

    /// The number of devices with a listener.
    pub fn len(&self) -> (n: usize)
        ensures
            n as nat == self.view().len(),
    {
        proof {
            use_type_invariant(self);
            path_views(self.paths@).unique_seq_to_set();
        }
        self.paths.len()
    }
}

/// Whether the bytes of a file name under `/dev/input` start with `"event"`.
pub open spec fn names_event_device(name: Seq<u8>) -> bool {
    name.len() >= 5 && name.take(5) == event_prefix()
}

/// Whether scanning a directory entry starts a listener, given the devices
/// that already have one: the name is an event device, the device has no
/// listener yet, it could be opened, and it reports a trigger key.
pub open spec fn entry_listens(
    registry: Set<Seq<char>>,
    name: Seq<u8>,
    path: Seq<char>,
    opened: bool,
    supported: bool,
) -> bool {
    names_event_device(name) && !registry.contains(path) && opened && supported
}

/// One scan of `/dev/input`: each entry is its file name, its path, whether
/// the device could be opened and whether it reports a trigger key, in the
/// order read. The result is the devices with a listener afterwards and the
/// paths a listener was started for, in order.
pub open spec fn scan(registry: Set<Seq<char>>, entries: Seq<(Seq<u8>, Seq<char>, bool, bool)>) -> (
    Set<Seq<char>>,
    Seq<Seq<char>>,
)
    decreases entries.len(),
{
    if entries.len() == 0 {
        (registry, Seq::empty())
    } else {
        let (r, started) = scan(registry, entries.drop_last());
        let e = entries.last();
        if entry_listens(r, e.0, e.1, e.2, e.3) {
            (r.insert(e.1), started.push(e.1))
        } else {
            (r, started)
        }
    }
}

impl ListenerRegistry {
    /// First step of scanning a directory entry: a device node named
    /// `event*` that has no listener is claimed (and must then be opened);
    /// any other entry is skipped and nothing changes.
    pub fn begin_entry(&mut self, file_name: &str, path: &String) -> (claimed: bool)
        ensures
            claimed == (names_event_device(file_name.spec_bytes()) && !old(self).view().contains(path@)),
            final(self).view() == if claimed {
                old(self).view().insert(path@)
            } else {
                old(self).view()
            },
    {
        if !is_event_device_name(file_name) {
            return false;
        }
        self.claim(path)
    }

    /// Second step, after trying to open the claimed device: a listener is
    /// started when it opened and reports a trigger key (given the key codes
    /// it reports, `None` when it reports none); otherwise the claim is dropped.
    pub fn finish_entry(&mut self, path: &String, opened: bool, supported_keys: &Option<Vec<u16>>) -> (listen: bool)
        ensures
            listen == (opened && spec_supports_trigger_key(*supported_keys)),
            final(self).view() == if listen {
                old(self).view()
            } else {
                old(self).view().remove(path@)
            },
    {
        let listen = opened && supports_trigger_key(supported_keys);
        if !listen {
            self.release(path);
        }
        listen
    }
}

/// The two steps of scanning one entry together: they start a listener
/// exactly when `entry_listens`, add exactly that path, and otherwise leave
/// the devices with a listener as they were.
pub proof fn scan_entry_steps(
    registry: Set<Seq<char>>,
    name: Seq<u8>,
    path: Seq<char>,
    opened: bool,
    supported: bool,
)
    ensures
        ({
            let claimed = names_event_device(name) && !registry.contains(path);
            let claimed_set = if claimed { registry.insert(path) } else { registry };
            let listen = claimed && opened && supported;
            let after = if !claimed {
                claimed_set
            } else if listen {
                claimed_set
            } else {
                claimed_set.remove(path)
            };
            &&& listen == entry_listens(registry, name, path, opened, supported)
            &&& after == if listen { registry.insert(path) } else { registry }
        }),
{
    if names_event_device(name) && !registry.contains(path) {
        assert(registry.insert(path).remove(path) =~= registry);
    }
}

/// A scan never drops a device that had a listener and never starts a second
/// listener for one: afterwards the devices with a listener are those from
/// before plus exactly the paths a listener was started for, each of them
/// new and started once.
pub proof fn scan_only_adds_new_listeners(
    registry: Set<Seq<char>>,
    entries: Seq<(Seq<u8>, Seq<char>, bool, bool)>,
)
    ensures
        ({
            let (after, started) = scan(registry, entries);
            &&& forall|p: Seq<char>| registry.contains(p) ==> after.contains(p)
            &&& forall|p: Seq<char>| #[trigger] after.contains(p) <==> (registry.contains(p) || started.contains(p))
            &&& started.no_duplicates()
            &&& forall|i: int| 0 <= i < started.len() ==> !registry.contains(#[trigger] started[i])
        }),
    decreases entries.len(),
{
    if entries.len() > 0 {
        scan_only_adds_new_listeners(registry, entries.drop_last());
        let (r, started) = scan(registry, entries.drop_last());
        let e = entries.last();
        if entry_listens(r, e.0, e.1, e.2, e.3) {
            let after = r.insert(e.1);
            let s2 = started.push(e.1);
            assert forall|p: Seq<char>| #[trigger] after.contains(p) <==> (registry.contains(p) || s2.contains(p)) by {
                vstd::seq_lib::lemma_seq_contains_after_push(started, e.1, p);
            }
            assert(!started.contains(e.1));
            assert forall|a: int, b: int| 0 <= a < b < s2.len() implies s2[a] != s2[b] by {
                if b == started.len() {
                    assert(started.contains(started[a]));
                }
            }
            assert forall|i: int| 0 <= i < s2.len() implies !registry.contains(#[trigger] s2[i]) by {
                if i < started.len() {
                    assert(s2[i] == started[i]);
                }
            }
        }
    }
}

/// The bytes of `"event"`, the prefix of evdev device nodes.
pub open spec fn event_prefix() -> Seq<u8> {
    seq![101u8, 118u8, 101u8, 110u8, 116u8]
}

/// Whether a file name under `/dev/input` names an evdev event device: its
/// bytes start with `"event"`, as `str::starts_with` compares them.
pub fn is_event_device_name(name: &str) -> (res: bool)
    ensures
        res == names_event_device(name.spec_bytes()),
{
    let bytes = name.as_bytes();
    if bytes.len() < 5 {
        return false;
    }
    let res = bytes[0] == 101 && bytes[1] == 118 && bytes[2] == 101 && bytes[3] == 110 && bytes[4]
        == 116;
    proof {
        if res {
            assert(name.spec_bytes().take(5) =~= event_prefix());
        } else {
            if name.spec_bytes().take(5) == event_prefix() {
                assert(name.spec_bytes().take(5)[0] == 101u8);
                assert(name.spec_bytes().take(5)[1] == 118u8);
                assert(name.spec_bytes().take(5)[2] == 101u8);
                assert(name.spec_bytes().take(5)[3] == 110u8);
                assert(name.spec_bytes().take(5)[4] == 116u8);
            }
        }
    }
    res
}

/// `needle` occurs in `haystack` as a contiguous run of bytes.
pub open spec fn contains_bytes(haystack: Seq<u8>, needle: Seq<u8>) -> bool {
    exists|i: int|
        0 <= i && i + needle.len() <= haystack.len() && #[trigger] haystack.subrange(
            i,
            i + needle.len(),
        ) == needle
}

fn occurs_at(haystack: &[u8], needle: &[u8], i: usize) -> (res: bool)
    requires
        i + needle@.len() <= haystack@.len(),
    ensures
        res == (haystack@.subrange(i as int, i + needle@.len()) == needle@),
{
    let hay_len = haystack.len();
    let mut k: usize = 0;
    while k < needle.len()
        invariant
            hay_len == haystack@.len(),
            i + needle@.len() <= haystack@.len(),
            0 <= k <= needle@.len(),
            forall|m: int| 0 <= m < k ==> haystack@[i + m] == needle@[m],
        decreases needle@.len() - k,
    {
        if haystack[i + k] != needle[k] {
            assert(haystack@.subrange(i as int, i + needle@.len())[k as int] != needle@[k as int]);
            return false;
        }
        k = k + 1;
    }
    assert(haystack@.subrange(i as int, i + needle@.len()) =~= needle@);
    true
}

/// Whether the text `needle` occurs in `name`, as `str::contains` finds it.
pub fn name_contains(name: &str, needle: &str) -> (res: bool)
    ensures
        res == contains_bytes(name.spec_bytes(), needle.spec_bytes()),
{
    let hay = name.as_bytes();
    let pat = needle.as_bytes();
    if pat.len() > hay.len() {
        return false;
    }
    let last = hay.len() - pat.len();
    let mut i: usize = 0;
    while i <= last
        invariant
            hay@ == name.spec_bytes(),
            pat@ == needle.spec_bytes(),
            pat@.len() <= hay@.len(),
            last == hay@.len() - pat@.len(),
            0 <= i <= last + 1,
            forall|j: int| 0 <= j < i ==> #[trigger] hay@.subrange(j, j + pat@.len()) != pat@,
        decreases hay@.len() - i,
    {
        if occurs_at(hay, pat, i) {
            return true;
        }
        if i == last {
            proof {
                assert forall|j: int| 0 <= j && j + pat@.len() <= hay@.len() implies #[trigger] hay@.subrange(j, j + pat@.len()) != pat@ by {
                    assert(j <= i);
                }
            }
            return false;
        }
        i = i + 1;
    }
    false
}

/// Whether the key test listens on a device: its name mentions `Keyboard`
/// or `STRAFE`.
pub fn is_key_test_device(name: &str) -> (res: bool)
    ensures
        res == (contains_bytes(name.spec_bytes(), "Keyboard".spec_bytes()) || contains_bytes(
            name.spec_bytes(),
            "STRAFE".spec_bytes(),
        )),
{
    name_contains(name, "Keyboard") || name_contains(name, "STRAFE")
}

} // verus!
