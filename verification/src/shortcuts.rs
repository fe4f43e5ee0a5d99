//! Decisions of the PrintScreen shortcut installer: which KGlobalAccel
//! actions to back up, which keys to take from them, how to put them back,
//! and how to check that KGlobalAccel did what was asked.
use vstd::prelude::*;
use crate::text::{decimal, push_decimal};

verus! {

/// The Qt key code of `Print`.
pub const PRINT_KEY: i32 = 0x0100_0009;

/// The backup format this installer writes and accepts.
pub const BACKUP_VERSION: u32 = 1;

/// The KGlobalAccel component that owns the screenshot action.
pub open spec fn screenshot_component() -> Seq<char> {
    "kwin"@
}

/// The KGlobalAccel action that the KWin script registers.
pub open spec fn screenshot_action() -> Seq<char> {
    "ScreenshotWaylandCapture"@
}

/// One global shortcut as `getGlobalShortcutsByKey` reports it: the action,
/// its component, their display names, and the keys bound to it.
#[derive(Debug, Clone, PartialEq, Eq)]
pub struct ShortcutInfo {
    pub action: String,
    pub action_name: String,
    pub component: String,
    pub component_name: String,
    pub keys: Vec<i32>,
}

/// One saved shortcut in the backup file.
#[derive(Debug, Clone, PartialEq, Eq)]
pub struct ShortcutRecord {
    pub action: String,
    pub action_name: String,
    pub component: String,
    pub component_name: String,
    pub keys: Vec<i32>,
}

/// The backup of every shortcut that held `Print` before installation.
#[derive(Debug, Clone, PartialEq, Eq)]
pub struct ShortcutBackup {
    pub version: u32,
    pub shortcuts: Vec<ShortcutRecord>,
}

/// A `setForeignShortcut` call: the action id (component, action,
/// component display name, action display name) and its new keys.
#[derive(Debug, Clone, PartialEq, Eq)]
pub struct ShortcutAssignment {
    pub action_id: Vec<String>,
    pub keys: Vec<i32>,
}

/// What the installer was asked to do.
#[derive(Debug, Clone, Copy, PartialEq, Eq, Structural)]
pub enum SetupMode {
    /// Back up the current `Print` owners into the file, then assign `Print`.
    Install,
    /// Release `Print` and restore the shortcuts saved in the file.
    Restore,
    /// Release `Print` from the screenshot action only.
    Release,
}

/// A backup file that this installer does not understand.
#[derive(Debug, Clone, Copy, PartialEq, Eq, Structural)]
pub enum BackupError {
    UnsupportedVersion { version: u32 },
}

/// Whether an action is the screenshot action.
pub open spec fn spec_is_screenshot(component: Seq<char>, action: Seq<char>) -> bool {
    component == screenshot_component() && action == screenshot_action()
}

/// Whether a reported shortcut belongs to the screenshot action.
pub open spec fn info_is_screenshot(info: ShortcutInfo) -> bool {
    spec_is_screenshot(info.component@, info.action@)
}

/// The shortcuts that hold `Print` other than the screenshot action itself.
pub open spec fn foreign_owners(infos: Seq<ShortcutInfo>) -> Seq<ShortcutInfo> {
    infos.filter(|info: ShortcutInfo| !info_is_screenshot(info))
}

/// The shortcuts reported for the screenshot action.
pub open spec fn screenshot_owners(infos: Seq<ShortcutInfo>) -> Seq<ShortcutInfo> {
    infos.filter(|info: ShortcutInfo| info_is_screenshot(info))
}

/// The keys other than `removed`.
pub open spec fn other_than(removed: i32) -> spec_fn(i32) -> bool {
    |k: i32| k != removed
}

/// `keys` without any occurrence of `removed`, in their original order.
pub open spec fn keys_without(keys: Seq<i32>, removed: i32) -> Seq<i32> {
    keys.filter(other_than(removed))
}

/// A record saves exactly what was reported for the shortcut.
pub open spec fn record_matches(record: ShortcutRecord, info: ShortcutInfo) -> bool {
    &&& record.action@ == info.action@
    &&& record.action_name@ == info.action_name@
    &&& record.component@ == info.component@
    &&& record.component_name@ == info.component_name@
    &&& record.keys@ == info.keys@
}

/// The text of each part of an action id.
pub open spec fn id_view(id: Seq<String>) -> Seq<Seq<char>> {
    id.map_values(|s: String| s@)
}

/// The action id KGlobalAccel expects: component, action, then their names.
pub open spec fn action_id_of(
    component: Seq<char>,
    action: Seq<char>,
    component_name: Seq<char>,
    action_name: Seq<char>,
) -> Seq<Seq<char>> {
    seq![component, action, component_name, action_name]
}

/// The id of the screenshot action.
pub open spec fn screenshot_action_id_view() -> Seq<Seq<char>> {
    action_id_of(screenshot_component(), screenshot_action(), "KWin"@, "Capture with screenshot"@)
}

/// An assignment gives the action of `info` the given keys.
pub open spec fn assigns(a: ShortcutAssignment, info: ShortcutInfo, keys: Seq<i32>) -> bool {
    &&& id_view(a.action_id@) == action_id_of(
        info.component@,
        info.action@,
        info.component_name@,
        info.action_name@,
    )
    &&& a.keys@ == keys
}

/// An assignment gives the action saved in `record` the given keys.
pub open spec fn restores(a: ShortcutAssignment, record: ShortcutRecord, keys: Seq<i32>) -> bool {
    &&& id_view(a.action_id@) == action_id_of(
        record.component@,
        record.action@,
        record.component_name@,
        record.action_name@,
    )
    &&& a.keys@ == keys
}

/// An assignment takes `Print` from the screenshot action and keeps its other keys.
pub open spec fn releases_print_from_screenshot(a: ShortcutAssignment, owner: ShortcutInfo) -> bool {
    &&& id_view(a.action_id@) == screenshot_action_id_view()
    &&& a.keys@ == keys_without(owner.keys@, PRINT_KEY)
}

/// The installer's usage line.
pub open spec fn usage_text() -> Seq<char> {
    "usage: screenshot-shortcut-setup --install BACKUP | --restore BACKUP | --release"@
}

/// The mode selected by the arguments, or `None` for a usage error: exactly
/// `--install BACKUP`, `--restore BACKUP` or `--release`.
pub open spec fn spec_select_mode(mode: Option<Seq<char>>, has_path: bool, extra_argument: bool) -> Option<
    SetupMode,
> {
    if extra_argument {
        None
    } else {
        match mode {
            Some(m) => if m == "--install"@ && has_path {
                Some(SetupMode::Install)
            } else if m == "--restore"@ && has_path {
                Some(SetupMode::Restore)
            } else if m == "--release"@ && !has_path {
                Some(SetupMode::Release)
            } else {
                None
            },
            None => None,
        }
    }
}

/// The diagnostic text of a backup error.
pub open spec fn backup_message(e: BackupError) -> Seq<char> {
    match e {
        BackupError::UnsupportedVersion { version } => "unsupported shortcut backup version "@
            + decimal(version as nat),
    }
}

impl BackupError {
    /// The diagnostic text of this error.
    pub fn message(&self) -> (s: String)
        ensures
            s@ == backup_message(*self),
    {
        match self {
            BackupError::UnsupportedVersion { version } => {
                let mut s = String::from_str("unsupported shortcut backup version ");
                push_decimal(&mut s, *version as u64);
                s
            },
        }
    }
}

/// The installer's usage line.
pub fn usage() -> (s: &'static str)
    ensures
        s@ == usage_text(),
{
    "usage: screenshot-shortcut-setup --install BACKUP | --restore BACKUP | --release"
}

/// Selects the installer mode from its first argument (when it is valid
/// UTF-8), whether a backup path follows, and whether more arguments follow.
pub fn select_mode(mode: Option<&str>, has_path: bool, extra_argument: bool) -> (res: Option<SetupMode>)
    ensures
        res == spec_select_mode(
            match mode {
                Some(m) => Some(m@),
                None => None,
            },
            has_path,
            extra_argument,
        ),
{
    if extra_argument {
        return None;
    }
    match mode {
        Some(m) => {
            let m = String::from_str(m);
            if m == String::from_str("--install") && has_path {
                Some(SetupMode::Install)
            } else if m == String::from_str("--restore") && has_path {
                Some(SetupMode::Restore)
            } else if m == String::from_str("--release") && !has_path {
                Some(SetupMode::Release)
            } else {
                None
            }
        },
        None => None,
    }
}

/// Whether `component`/`action` name the screenshot action.
pub fn is_screenshot_action(component: &String, action: &String) -> (res: bool)
    ensures
        res == spec_is_screenshot(component@, action@),
{
    *component == String::from_str("kwin") && *action == String::from_str("ScreenshotWaylandCapture")
}

/// The id of the screenshot action.
pub fn screenshot_action_id() -> (id: Vec<String>)
    ensures
        id_view(id@) == screenshot_action_id_view(),
{
    let mut id: Vec<String> = Vec::new();
    id.push(String::from_str("kwin"));
    id.push(String::from_str("ScreenshotWaylandCapture"));
    id.push(String::from_str("KWin"));
    id.push(String::from_str("Capture with screenshot"));
    assert(id_view(id@) =~= screenshot_action_id_view());
    id
}

fn action_id(component: &String, action: &String, component_name: &String, action_name: &String) -> (id: Vec<String>)
    ensures
        id_view(id@) == action_id_of(component@, action@, component_name@, action_name@),
{
    let mut id: Vec<String> = Vec::new();
    id.push(component.clone());
    id.push(action.clone());
    id.push(component_name.clone());
    id.push(action_name.clone());
    assert(id_view(id@) =~= action_id_of(component@, action@, component_name@, action_name@));
    id
}

/// A copy of `keys`.
fn copy_keys(keys: &Vec<i32>) -> (res: Vec<i32>)
    ensures
        res@ == keys@,
{
    let mut res: Vec<i32> = Vec::new();
    let mut i: usize = 0;
    while i < keys.len()
        invariant
            0 <= i <= keys@.len(),
            res@ == keys@.take(i as int),
        decreases keys@.len() - i,
    {
        res.push(keys[i]);
        assert(keys@.take(i + 1) =~= keys@.take(i as int).push(keys@[i as int]));
        i = i + 1;
    }
    assert(keys@.take(keys@.len() as int) =~= keys@);
    res
}

/// `keys` with every occurrence of `removed` taken out.
pub fn remaining_keys(keys: &Vec<i32>, removed: i32) -> (res: Vec<i32>)
    ensures
        res@ == keys_without(keys@, removed),
{
    let mut res: Vec<i32> = Vec::new();
    let mut i: usize = 0;
    while i < keys.len()
        invariant
            0 <= i <= keys@.len(),
            res@ == keys_without(keys@.take(i as int), removed),
        decreases keys@.len() - i,
    {
        proof {
            reveal_with_fuel(Seq::<_>::filter, 1);
            assert(keys@.take(i + 1).drop_last() =~= keys@.take(i as int));
        }
        if keys[i] != removed {
            res.push(keys[i]);
        }
        i = i + 1;
    }
    assert(keys@.take(keys@.len() as int) =~= keys@);
    res
}

/// The backup record of a reported shortcut.
pub fn shortcut_record(info: &ShortcutInfo) -> (record: ShortcutRecord)
    ensures
        record_matches(record, *info),
{
    ShortcutRecord {
        action: info.action.clone(),
        action_name: info.action_name.clone(),
        component: info.component.clone(),
        component_name: info.component_name.clone(),
        keys: copy_keys(&info.keys),
    }
}

/// The backup written before installation: a record of every `Print`
/// owner other than the screenshot action, in the order reported.
pub fn backup_for_conflicts(conflicts: &Vec<ShortcutInfo>) -> (backup: ShortcutBackup)
    ensures
        backup.version == BACKUP_VERSION,
        backup.shortcuts@.len() == foreign_owners(conflicts@).len(),
        forall|j: int|
            0 <= j < backup.shortcuts@.len() ==> record_matches(
                #[trigger] backup.shortcuts@[j],
                foreign_owners(conflicts@)[j],
            ),
{
    let mut shortcuts: Vec<ShortcutRecord> = Vec::new();
    let mut i: usize = 0;
    while i < conflicts.len()
        invariant
            0 <= i <= conflicts@.len(),
            shortcuts@.len() == foreign_owners(conflicts@.take(i as int)).len(),
            forall|j: int|
                0 <= j < shortcuts@.len() ==> record_matches(
                    #[trigger] shortcuts@[j],
                    foreign_owners(conflicts@.take(i as int))[j],
                ),
        decreases conflicts@.len() - i,
    {
        proof {
            reveal_with_fuel(Seq::<_>::filter, 1);
            assert(conflicts@.take(i + 1).drop_last() =~= conflicts@.take(i as int));
        }
        let info = &conflicts[i];
        if !is_screenshot_action(&info.component, &info.action) {
            shortcuts.push(shortcut_record(info));
        }
        i = i + 1;
    }
    assert(conflicts@.take(conflicts@.len() as int) =~= conflicts@);
    ShortcutBackup { version: BACKUP_VERSION, shortcuts }
}

/// The calls that take `Print` from every other owner, keeping their other keys.
pub fn release_conflicts_plan(conflicts: &Vec<ShortcutInfo>) -> (plan: Vec<ShortcutAssignment>)
    ensures
        plan@.len() == foreign_owners(conflicts@).len(),
        forall|j: int|
            0 <= j < plan@.len() ==> assigns(
                #[trigger] plan@[j],
                foreign_owners(conflicts@)[j],
                keys_without(foreign_owners(conflicts@)[j].keys@, PRINT_KEY),
            ),
{
    let mut plan: Vec<ShortcutAssignment> = Vec::new();
    let mut i: usize = 0;
    while i < conflicts.len()
        invariant
            0 <= i <= conflicts@.len(),
            plan@.len() == foreign_owners(conflicts@.take(i as int)).len(),
            forall|j: int|
                0 <= j < plan@.len() ==> assigns(
                    #[trigger] plan@[j],
                    foreign_owners(conflicts@.take(i as int))[j],
                    keys_without(foreign_owners(conflicts@.take(i as int))[j].keys@, PRINT_KEY),
                ),
        decreases conflicts@.len() - i,
    {
        proof {
            reveal_with_fuel(Seq::<_>::filter, 1);
            assert(conflicts@.take(i + 1).drop_last() =~= conflicts@.take(i as int));
        }
        let info = &conflicts[i];
        if !is_screenshot_action(&info.component, &info.action) {
            let action_id = action_id(&info.component, &info.action, &info.component_name, &info.action_name);
            let keys = remaining_keys(&info.keys, PRINT_KEY);
            plan.push(ShortcutAssignment { action_id, keys });
        }
        i = i + 1;
    }
    assert(conflicts@.take(conflicts@.len() as int) =~= conflicts@);
    plan
}

/// The calls that take `Print` from the screenshot action, keeping its other keys.
pub fn release_screenshot_plan(owners: &Vec<ShortcutInfo>) -> (plan: Vec<ShortcutAssignment>)
    ensures
        plan@.len() == screenshot_owners(owners@).len(),
        forall|j: int|
            0 <= j < plan@.len() ==> releases_print_from_screenshot(
                #[trigger] plan@[j],
                screenshot_owners(owners@)[j],
            ),
{
    let mut plan: Vec<ShortcutAssignment> = Vec::new();
    let mut i: usize = 0;
    while i < owners.len()
        invariant
            0 <= i <= owners@.len(),
            plan@.len() == screenshot_owners(owners@.take(i as int)).len(),
            forall|j: int|
                0 <= j < plan@.len() ==> releases_print_from_screenshot(
                    #[trigger] plan@[j],
                    screenshot_owners(owners@.take(i as int))[j],
                ),
        decreases owners@.len() - i,
    {
        proof {
            reveal_with_fuel(Seq::<_>::filter, 1);
            assert(owners@.take(i + 1).drop_last() =~= owners@.take(i as int));
        }
        let info = &owners[i];
        if is_screenshot_action(&info.component, &info.action) {
            let action_id = screenshot_action_id();
            let keys = remaining_keys(&info.keys, PRINT_KEY);
            plan.push(ShortcutAssignment { action_id, keys });
        }
        i = i + 1;
    }
    assert(owners@.take(owners@.len() as int) =~= owners@);
    plan
}

/// An owner that KGlobalAccel reports holding `Print`.
pub open spec fn holds_print(info: ShortcutInfo) -> bool {
    info.keys@.contains(PRINT_KEY)
}

/// `Print` is assigned exclusively to the screenshot action: the screenshot
/// action holds it and no other reported shortcut does.
pub open spec fn print_exclusively_assigned(owners: Seq<ShortcutInfo>) -> bool {
    &&& exists|j: int|
        0 <= j < owners.len() && info_is_screenshot(#[trigger] owners[j]) && holds_print(owners[j])
    &&& forall|j: int| 0 <= j < owners.len() && holds_print(#[trigger] owners[j]) ==> info_is_screenshot(owners[j])
}

/// Whether KGlobalAccel reports `Print` bound to the screenshot action and
/// to nothing else, which is what installation must achieve.
pub fn print_assigned(owners: &Vec<ShortcutInfo>) -> (res: bool)
    ensures
        res == print_exclusively_assigned(owners@),
{
    let mut found = false;
    let mut i: usize = 0;
    while i < owners.len()
        invariant
            0 <= i <= owners@.len(),
            found == exists|j: int|
                0 <= j < i && info_is_screenshot(#[trigger] owners@[j]) && holds_print(owners@[j]),
            forall|j: int| 0 <= j < i && holds_print(#[trigger] owners@[j]) ==> info_is_screenshot(owners@[j]),
        decreases owners@.len() - i,
    {
        let info = &owners[i];
        let screenshot = is_screenshot_action(&info.component, &info.action);
        let has_print = contains_key(&info.keys, PRINT_KEY);
        if has_print && !screenshot {
            assert(holds_print(owners@[i as int]) && !info_is_screenshot(owners@[i as int]));
            return false;
        }
        if has_print && screenshot {
            found = true;
        }
        i = i + 1;
    }
    found
}

fn contains_key(keys: &Vec<i32>, key: i32) -> (res: bool)
    ensures
        res == keys@.contains(key),
{
    let mut i: usize = 0;
    while i < keys.len()
        invariant
            0 <= i <= keys@.len(),
            forall|j: int| 0 <= j < i ==> keys@[j] != key,
        decreases keys@.len() - i,
    {
        if keys[i] == key {
            return true;
        }
        i = i + 1;
    }
    false
}

/// The calls that give every saved action back exactly its saved keys.
pub fn restore_plan(backup: &ShortcutBackup) -> (plan: Vec<ShortcutAssignment>)
    ensures
        plan@.len() == backup.shortcuts@.len(),
        forall|j: int|
            0 <= j < plan@.len() ==> restores(
                #[trigger] plan@[j],
                backup.shortcuts@[j],
                backup.shortcuts@[j].keys@,
            ),
{
    let mut plan: Vec<ShortcutAssignment> = Vec::new();
    let mut i: usize = 0;
    while i < backup.shortcuts.len()
        invariant
            0 <= i <= backup.shortcuts@.len(),
            plan@.len() == i,
            forall|j: int|
                0 <= j < i ==> restores(
                    #[trigger] plan@[j],
                    backup.shortcuts@[j],
                    backup.shortcuts@[j].keys@,
                ),
        decreases backup.shortcuts@.len() - i,
    {
        let record = &backup.shortcuts[i];
        let action_id = action_id(&record.component, &record.action, &record.component_name, &record.action_name);
        let keys = copy_keys(&record.keys);
        plan.push(ShortcutAssignment { action_id, keys });
        i = i + 1;
    }
    plan
}

/// Whether KGlobalAccel reports the saved action among the owners of a key.
pub fn shortcut_restored(owners: &Vec<ShortcutInfo>, record: &ShortcutRecord) -> (res: bool)
    ensures
        res == exists|j: int|
            0 <= j < owners@.len() && (#[trigger] owners@[j]).component@ == record.component@
                && owners@[j].action@ == record.action@,
{
    let mut i: usize = 0;
    while i < owners.len()
        invariant
            0 <= i <= owners@.len(),
            forall|j: int|
                0 <= j < i ==> !((#[trigger] owners@[j]).component@ == record.component@
                    && owners@[j].action@ == record.action@),
        decreases owners@.len() - i,
    {
        if owners[i].component == record.component && owners[i].action == record.action {
            return true;
        }
        i = i + 1;
    }
    false
}

/// Accepts a decoded backup only in the format this installer writes.
pub fn check_backup_version(backup: &ShortcutBackup) -> (res: Result<(), BackupError>)
    ensures
        match res {
            Ok(()) => backup.version == BACKUP_VERSION,
            Err(e) => backup.version != BACKUP_VERSION && e == BackupError::UnsupportedVersion {
                version: backup.version,
            },
        },
{
    if backup.version != BACKUP_VERSION {
        Err(BackupError::UnsupportedVersion { version: backup.version })
    } else {
        Ok(())
    }
}

/// Restoring the installer's backup gives every former `Print` owner back
/// exactly the action id and the keys it had before installation.
pub proof fn restore_undoes_install(
    conflicts: Seq<ShortcutInfo>,
    backup: ShortcutBackup,
    plan: Seq<ShortcutAssignment>,
)
    requires
        backup.shortcuts@.len() == foreign_owners(conflicts).len(),
        forall|j: int|
            0 <= j < backup.shortcuts@.len() ==> record_matches(
                #[trigger] backup.shortcuts@[j],
                foreign_owners(conflicts)[j],
            ),
        plan.len() == backup.shortcuts@.len(),
        forall|j: int|
            0 <= j < plan.len() ==> restores(
                #[trigger] plan[j],
                backup.shortcuts@[j],
                backup.shortcuts@[j].keys@,
            ),
    ensures
        plan.len() == foreign_owners(conflicts).len(),
        forall|j: int|
            0 <= j < plan.len() ==> assigns(
                #[trigger] plan[j],
                foreign_owners(conflicts)[j],
                foreign_owners(conflicts)[j].keys@,
            ),
{
    assert forall|j: int| 0 <= j < plan.len() implies assigns(
        #[trigger] plan[j],
        foreign_owners(conflicts)[j],
        foreign_owners(conflicts)[j].keys@,
    ) by {
        assert(record_matches(backup.shortcuts@[j], foreign_owners(conflicts)[j]));
        assert(restores(plan[j], backup.shortcuts@[j], backup.shortcuts@[j].keys@));
    }
}

/// The screenshot action is never saved in the backup and never has its keys
/// taken by the release of conflicting owners.
pub proof fn screenshot_action_is_never_backed_up(conflicts: Seq<ShortcutInfo>)
    ensures
        forall|j: int|
            0 <= j < foreign_owners(conflicts).len() ==> !info_is_screenshot(
                #[trigger] foreign_owners(conflicts)[j],
            ),
{
    let pred = |info: ShortcutInfo| !info_is_screenshot(info);
    assert forall|j: int| 0 <= j < foreign_owners(conflicts).len() implies !info_is_screenshot(
        #[trigger] foreign_owners(conflicts)[j],
    ) by {
        conflicts.lemma_filter_pred(pred, j);
    }
}

/// Releasing a key removes every occurrence of it and keeps every other key.
pub proof fn released_keys_lack_only_the_key(keys: Seq<i32>, removed: i32)
    ensures
        !keys_without(keys, removed).contains(removed),
        forall|k: i32| k != removed ==> (keys.contains(k) <==> keys_without(keys, removed).contains(k)),
{
    let pred = other_than(removed);
    if keys_without(keys, removed).contains(removed) {
        let j = choose|j: int|
            0 <= j < keys_without(keys, removed).len() && keys_without(keys, removed)[j] == removed;
        keys.lemma_filter_pred(pred, j);
    }
    assert forall|k: i32| k != removed implies (keys.contains(k) <==> keys_without(keys, removed).contains(k)) by {
        if keys.contains(k) {
            let i = choose|i: int| 0 <= i < keys.len() && keys[i] == k;
            keys.lemma_filter_contains(pred, i);
        }
        if keys_without(keys, removed).contains(k) {
            keys.lemma_filter_contains_rev(pred, k);
        }
    }
}

} // verus!
