//! Records exchanged with the front end for system settings (start at login, URL
//! opening, loopback exemptions of app containers, update checks, backups), and the
//! mapping from each operation's outcome to the record reported back.

use vstd::prelude::*;
use vstd::string::{StringExecFns, StringSliceAdditionalSpecFns};
use vstd::utf8::encode_utf8;
use crate::bytes::{contains, contains_word};
use crate::http::{decimal, decimal_string};

verus! {

/// Request: read whether the app starts at login.
pub struct GetAutoStartStatus;

/// Request: enable or disable starting at login.
pub struct SetAutoStartStatus {
    pub enabled: bool,
}

/// Report of the start-at-login setting.
pub struct AutoStartStatusResult {
    pub enabled: bool,
    pub error_message: Option<String>,
}

/// The report for a start-at-login outcome: the setting, or disabled with the error.
pub open spec fn auto_start_report(outcome: Result<bool, String>) -> AutoStartStatusResult {
    match outcome {
        Ok(enabled) => AutoStartStatusResult { enabled, error_message: None },
        Err(e) => AutoStartStatusResult { enabled: false, error_message: Some(e) },
    }
}

fn auto_start_result(outcome: Result<bool, String>) -> (r: AutoStartStatusResult)
    ensures
        r == auto_start_report(outcome),
{
    match outcome {
        Ok(enabled) => AutoStartStatusResult { enabled, error_message: None },
        Err(e) => AutoStartStatusResult { enabled: false, error_message: Some(e) },
    }
}

impl GetAutoStartStatus {
    /// The report for the outcome of reading the setting.
    pub fn handle(&self, outcome: Result<bool, String>) -> (r: AutoStartStatusResult)
        ensures
            r == auto_start_report(outcome),
    {
        auto_start_result(outcome)
    }
}

impl SetAutoStartStatus {
    /// The report for the outcome of changing the setting to `self.enabled`.
    pub fn handle(&self, outcome: Result<bool, String>) -> (r: AutoStartStatusResult)
        ensures
            r == auto_start_report(outcome),
    {
        auto_start_result(outcome)
    }
}

/// Request: open a URL in the default browser.
pub struct OpenUrl {
    pub url: String,
}

/// Report of opening a URL.
pub struct OpenUrlResult {
    pub success: bool,
    pub error_message: Option<String>,
}

impl OpenUrl {
    /// The report for the outcome of opening `self.url`.
    pub fn handle(&self, outcome: Result<(), String>) -> (r: OpenUrlResult)
        ensures
            match outcome {
                Ok(()) => r.success && r.error_message is None,
                Err(e) => !r.success && r.error_message == Some(e),
            },
    {
        match outcome {
            Ok(()) => OpenUrlResult { success: true, error_message: None },
            Err(e) => OpenUrlResult { success: false, error_message: Some(e) },
        }
    }
}

/// An app container and whether loopback is exempted for it.
pub struct AppContainer {
    pub app_container_name: String,
    pub display_name: String,
    pub package_family_name: String,
    pub sid: Vec<u8>,
    pub sid_string: String,
    pub is_loopback_enabled: bool,
}

/// Request: list the app containers.
pub struct GetAppContainers;

/// Request: set the loopback exemption of one package.
pub struct SetLoopback {
    pub package_family_name: String,
    pub enabled: bool,
}

/// Request: exempt exactly the containers with these SIDs.
pub struct SaveLoopbackConfiguration {
    pub sid_strings: Vec<String>,
}

/// Opens the stream of container records (always sent empty).
pub struct AppContainersList {
    pub containers: Vec<String>,
}

/// One container record.
pub struct AppContainerInfo {
    pub container_name: String,
    pub display_name: String,
    pub package_family_name: String,
    pub sid: Vec<u8>,
    pub sid_string: String,
    pub loopback_enabled: bool,
}

/// Report of a single loopback change.
pub struct SetLoopbackResult {
    pub success: bool,
    pub error_message: Option<String>,
}

/// Closes the stream of container records.
pub struct AppContainersComplete;

/// Report of saving the loopback configuration.
pub struct SaveLoopbackConfigurationResult {
    pub success: bool,
    pub error_message: Option<String>,
}

/// The record describing container `c`.
pub open spec fn info_of(c: AppContainer) -> AppContainerInfo {
    AppContainerInfo {
        container_name: c.app_container_name,
        display_name: c.display_name,
        package_family_name: c.package_family_name,
        sid: c.sid,
        sid_string: c.sid_string,
        loopback_enabled: c.is_loopback_enabled,
    }
}

impl AppContainerInfo {
    /// The record describing `c`.
    pub fn from_container(c: &AppContainer) -> (r: AppContainerInfo)
        ensures
            r.container_name == c.app_container_name,
            r.display_name == c.display_name,
            r.package_family_name == c.package_family_name,
            r.sid@ == c.sid@,
            r.sid_string == c.sid_string,
            r.loopback_enabled == c.is_loopback_enabled,
    {
        AppContainerInfo {
            container_name: c.app_container_name.clone(),
            display_name: c.display_name.clone(),
            package_family_name: c.package_family_name.clone(),
            sid: c.sid.clone(),
            sid_string: c.sid_string.clone(),
            loopback_enabled: c.is_loopback_enabled,
        }
    }
}

impl GetAppContainers {
    /// The records streamed for an enumeration outcome: an empty list record, one
    /// record per container in order (none on failure), then the completion record.
    pub fn handle(&self, outcome: &Result<Vec<AppContainer>, String>) -> (r: (
        AppContainersList,
        Vec<AppContainerInfo>,
        AppContainersComplete,
    ))
        ensures
            r.0.containers@.len() == 0,
            match outcome {
                Ok(cs) => r.1@.len() == cs@.len() && forall|i: int|
                    0 <= i < cs@.len() ==> {
                        &&& (#[trigger] r.1@[i]).container_name == cs@[i].app_container_name
                        &&& r.1@[i].display_name == cs@[i].display_name
                        &&& r.1@[i].package_family_name == cs@[i].package_family_name
                        &&& r.1@[i].sid@ == cs@[i].sid@
                        &&& r.1@[i].sid_string == cs@[i].sid_string
                        &&& r.1@[i].loopback_enabled == cs@[i].is_loopback_enabled
                    },
                Err(_) => r.1@.len() == 0,
            },
    {
        let mut infos: Vec<AppContainerInfo> = Vec::new();
        match outcome {
            Ok(cs) => {
                let mut i: usize = 0;
                while i < cs.len()
                    invariant
                        i <= cs@.len(),
                        infos@.len() == i,
                        forall|j: int|
                            0 <= j < i ==> {
                                &&& (#[trigger] infos@[j]).container_name == cs@[j].app_container_name
                                &&& infos@[j].display_name == cs@[j].display_name
                                &&& infos@[j].package_family_name == cs@[j].package_family_name
                                &&& infos@[j].sid@ == cs@[j].sid@
                                &&& infos@[j].sid_string == cs@[j].sid_string
                                &&& infos@[j].loopback_enabled == cs@[j].is_loopback_enabled
                            },
                    decreases cs@.len() - i,
                {
                    infos.push(AppContainerInfo::from_container(&cs[i]));
                    i = i + 1;
                }
            },
            Err(_) => {},
        }
        (AppContainersList { containers: Vec::new() }, infos, AppContainersComplete)
    }
}

impl SetLoopback {
    /// The report for the outcome of changing the exemption.
    pub fn handle(&self, outcome: Result<(), String>) -> (r: SetLoopbackResult)
        ensures
            match outcome {
                Ok(()) => r.success && r.error_message is None,
                Err(e) => !r.success && r.error_message == Some(e),
            },
    {
        match outcome {
            Ok(()) => SetLoopbackResult { success: true, error_message: None },
            Err(e) => SetLoopbackResult { success: false, error_message: Some(e) },
        }
    }
}

/// Whether `sid` is one of `wanted`.
pub open spec fn listed(wanted: Seq<String>, sid: Seq<char>) -> bool {
    exists|k: int| 0 <= k < wanted.len() && (#[trigger] wanted[k])@ == sid
}

impl SaveLoopbackConfiguration {
    /// Whether the container with SID text `sid` is to be exempted.
    pub fn wants(&self, sid: &String) -> (r: bool)
        ensures
            r == listed(self.sid_strings@, sid@),
    {
        let mut k: usize = 0;
        while k < self.sid_strings.len()
            invariant
                k <= self.sid_strings@.len(),
                forall|j: int| 0 <= j < k ==> (#[trigger] self.sid_strings@[j])@ != sid@,
            decreases self.sid_strings@.len() - k,
        {
            if self.sid_strings[k] == *sid {
                return true;
            }
            k = k + 1;
        }
        false
    }

    /// The changes that bring `containers` to the requested configuration: the index
    /// and new state of every container whose exemption differs from whether its SID
    /// is listed, in order.
    pub fn changes_needed(&self, containers: &Vec<AppContainer>) -> (r: Vec<(usize, bool)>)
        ensures
            forall|k: int|
                0 <= k < r@.len() ==> {
                    let (i, enable) = #[trigger] r@[k];
                    &&& i < containers@.len()
                    &&& enable == listed(self.sid_strings@, containers@[i as int].sid_string@)
                    &&& enable != containers@[i as int].is_loopback_enabled
                },
            forall|k1: int, k2: int| 0 <= k1 < k2 < r@.len() ==> (#[trigger] r@[k1]).0 < (#[trigger] r@[k2]).0,
            forall|i: int|
                0 <= i < containers@.len() && listed(self.sid_strings@, containers@[i].sid_string@)
                    != containers@[i].is_loopback_enabled ==> exists|k: int|
                    0 <= k < r@.len() && (#[trigger] r@[k]).0 == i,
    {
        let mut r: Vec<(usize, bool)> = Vec::new();
        let mut i: usize = 0;
        while i < containers.len()
            invariant
                i <= containers@.len(),
                forall|k: int|
                    0 <= k < r@.len() ==> {
                        let (j, enable) = #[trigger] r@[k];
                        &&& j < i
                        &&& enable == listed(self.sid_strings@, containers@[j as int].sid_string@)
                        &&& enable != containers@[j as int].is_loopback_enabled
                    },
                forall|k1: int, k2: int| 0 <= k1 < k2 < r@.len() ==> (#[trigger] r@[k1]).0 < (#[trigger] r@[k2]).0,
                forall|j: int|
                    0 <= j < i && listed(self.sid_strings@, containers@[j].sid_string@)
                        != containers@[j].is_loopback_enabled ==> exists|k: int|
                        0 <= k < r@.len() && (#[trigger] r@[k]).0 == j,
            decreases containers@.len() - i,
        {
            let enable = self.wants(&containers[i].sid_string);
            let ghost before = r@;
            if enable != containers[i].is_loopback_enabled {
                r.push((i, enable));
                assert(r@[r@.len() - 1].0 == i);
            }
            assert forall|j: int|
                0 <= j < i + 1 && listed(self.sid_strings@, containers@[j].sid_string@)
                    != containers@[j].is_loopback_enabled implies exists|k: int|
                    0 <= k < r@.len() && (#[trigger] r@[k]).0 == j by {
                if j < i {
                    let k = choose|k: int| 0 <= k < before.len() && (#[trigger] before[k]).0 == j;
                    assert(r@[k] == before[k]);
                } else {
                    assert(r@[r@.len() - 1].0 == j);
                }
            }
            i = i + 1;
        }
        r
    }
}

/// Outcome of applying one planned loopback change.
pub enum LoopbackChangeOutcome {
    Applied,
    Failed(String),
}

/// The characters of each string.
pub open spec fn views(v: Seq<String>) -> Seq<Seq<char>> {
    v.map_values(|s: String| s@)
}

/// `parts` joined with `sep` between neighbours.
pub open spec fn join(parts: Seq<Seq<char>>, sep: Seq<char>) -> Seq<char>
    decreases parts.len(),
{
    if parts.len() == 0 {
        Seq::empty()
    } else if parts.len() == 1 {
        parts[0]
    } else {
        join(parts.drop_last(), sep) + sep + parts.last()
    }
}

/// A refusal because the app is protected by the system (access denied).
pub open spec fn is_access_denied(e: Seq<u8>) -> bool {
    contains(e, 0, e.len() as int, "0x80070005".spec_bytes()) || contains(e, 0, e.len() as int, "0x00000005".spec_bytes())
        || contains(e, 0, e.len() as int, "ERROR_ACCESS_DENIED".spec_bytes())
}

/// Tally of the first `n` applied changes: how many succeeded, the display names of
/// protected apps that were skipped, and one `name：error` line per other failure.
pub open spec fn tally(
    containers: Seq<AppContainer>,
    changes: Seq<(usize, bool)>,
    outcomes: Seq<LoopbackChangeOutcome>,
    n: int,
) -> (nat, Seq<Seq<char>>, Seq<Seq<char>>)
    decreases n,
{
    if n <= 0 {
        (0, Seq::empty(), Seq::empty())
    } else {
        let (ok, skipped, errors) = tally(containers, changes, outcomes, n - 1);
        let name = containers[changes[n - 1].0 as int].display_name@;
        match outcomes[n - 1] {
            LoopbackChangeOutcome::Applied => (ok + 1, skipped, errors),
            LoopbackChangeOutcome::Failed(e) => if is_access_denied(encode_utf8(e@)) {
                (ok, skipped.push(name), errors)
            } else {
                (ok, skipped, errors.push(name + "："@ + e@))
            },
        }
    }
}

/// The lines of a summary: applied changes, then skipped protected apps with their
/// names when there are at most three of them.
pub open spec fn summary_parts(applied: nat, skipped: Seq<Seq<char>>) -> Seq<Seq<char>> {
    let a = if applied > 0 {
        seq!["成功修改："@ + decimal(applied) + "个"@]
    } else {
        Seq::empty()
    };
    let b = if skipped.len() > 0 {
        seq!["跳过系统保护应用："@ + decimal(skipped.len()) + "个"@]
    } else {
        Seq::empty()
    };
    let c = if skipped.len() > 0 && skipped.len() <= 3 {
        seq!["（"@ + join(skipped, "、"@) + "）"@]
    } else {
        Seq::empty()
    };
    a + b + c
}

/// The result of saving a loopback configuration: success when no change failed
/// (other than skipped protected apps), with the summary lines joined, or a fixed
/// message when there is nothing to report; otherwise failure, with the count of
/// failures added to the summary and one detail line per failure.
pub open spec fn summary_of(applied: nat, skipped: Seq<Seq<char>>, errors: Seq<Seq<char>>) -> (bool, Seq<char>) {
    let parts = summary_parts(applied, skipped);
    if errors.len() == 0 {
        if parts.len() == 0 {
            (true, "配置保存成功（无需修改）"@)
        } else {
            (true, join(parts, "，"@))
        }
    } else {
        (false, join(parts.push("失败："@ + decimal(errors.len()) + "个"@), "，"@) + "。\n错误详情：\n"@ + join(errors, "\n"@))
    }
}

/// Whether `e` reports that the app is protected by the system.
pub fn access_denied(e: &str) -> (r: bool)
    ensures
        r == is_access_denied(encode_utf8(e@)),
{
    let d = e.as_bytes();
    contains_word(d, 0, d.len(), "0x80070005".as_bytes()) || contains_word(d, 0, d.len(), "0x00000005".as_bytes())
        || contains_word(d, 0, d.len(), "ERROR_ACCESS_DENIED".as_bytes())
}

/// Joins `parts` with `sep` between neighbours.
pub fn join_strings(parts: &Vec<String>, sep: &str) -> (r: String)
    ensures
        r@ == join(views(parts@), sep@),
{
    if parts.len() == 0 {
        return String::new();
    }
    let mut r = parts[0].clone();
    proof {
        assert(views(parts@).subrange(0, 1) =~= seq![parts@[0]@]);
    }
    let mut i: usize = 1;
    while i < parts.len()
        invariant
            1 <= i <= parts@.len(),
            r@ == join(views(parts@).subrange(0, i as int), sep@),
        decreases parts@.len() - i,
    {
        r.append(sep);
        r.append(parts[i].as_str());
        proof {
            assert(views(parts@).subrange(0, i + 1).drop_last() =~= views(parts@).subrange(0, i as int));
        }
        i = i + 1;
    }
    proof {
        assert(views(parts@).subrange(0, parts@.len() as int) =~= views(parts@));
    }
    r
}

impl SaveLoopbackConfiguration {
    /// The result reported when the containers could not be enumerated.
    pub fn enumeration_failed(e: &str) -> (r: SaveLoopbackConfigurationResult)
        ensures
            !r.success,
            r.error_message matches Some(m) && m@ == "无法枚举容器："@ + e@,
    {
        SaveLoopbackConfigurationResult {
            success: false,
            error_message: Some(String::from_str("无法枚举容器：").concat(e)),
        }
    }

    /// The result reported after applying `changes` (as planned by
    /// `changes_needed`) to `containers`, where `outcomes[k]` is the outcome of
    /// `changes[k]`.
    pub fn summarize(
        &self,
        containers: &Vec<AppContainer>,
        changes: &Vec<(usize, bool)>,
        outcomes: &Vec<LoopbackChangeOutcome>,
    ) -> (r: SaveLoopbackConfigurationResult)
        requires
            outcomes@.len() == changes@.len(),
            forall|k: int| 0 <= k < changes@.len() ==> (#[trigger] changes@[k]).0 < containers@.len(),
        ensures
            ({
                let (ok, skipped, errors) = tally(containers@, changes@, outcomes@, changes@.len() as int);
                let (success, text) = summary_of(ok, skipped, errors);
                r.success == success && (r.error_message matches Some(m) && m@ == text)
            }),
    {
        let mut applied: usize = 0;
        let mut skipped: Vec<String> = Vec::new();
        let mut errors: Vec<String> = Vec::new();
        let mut k: usize = 0;
        while k < changes.len()
            invariant
                k <= changes@.len(),
                outcomes@.len() == changes@.len(),
                forall|j: int| 0 <= j < changes@.len() ==> (#[trigger] changes@[j]).0 < containers@.len(),
                applied <= k,
                ({
                    let (ok, sk, er) = tally(containers@, changes@, outcomes@, k as int);
                    applied == ok && views(skipped@) == sk && views(errors@) == er
                }),
            decreases changes@.len() - k,
        {
            let name = &containers[changes[k].0].display_name;
            match &outcomes[k] {
                LoopbackChangeOutcome::Applied => {
                    applied = applied + 1;
                },
                LoopbackChangeOutcome::Failed(e) => {
                    if access_denied(e.as_str()) {
                        skipped.push(name.clone());
                        proof {
                            assert(views(skipped@) =~= views(skipped@.drop_last()).push(name@));
                        }
                    } else {
                        let line = name.clone().concat("：").concat(e.as_str());
                        errors.push(line);
                        proof {
                            assert(views(errors@) =~= views(errors@.drop_last()).push(name@ + "："@ + e@));
                        }
                    }
                },
            }
            k = k + 1;
        }
        let mut parts: Vec<String> = Vec::new();
        if applied > 0 {
            parts.push(String::from_str("成功修改：").concat(decimal_string(applied as u64).as_str()).concat("个"));
        }
        if skipped.len() > 0 {
            parts.push(String::from_str("跳过系统保护应用：").concat(decimal_string(skipped.len() as u64).as_str()).concat("个"));
            if skipped.len() <= 3 {
                parts.push(String::from_str("（").concat(join_strings(&skipped, "、").as_str()).concat("）"));
            }
        }
        let ghost (ok, sk, er) = tally(containers@, changes@, outcomes@, changes@.len() as int);
        proof {
            assert(views(parts@) =~= summary_parts(ok, sk));
        }
        if errors.len() == 0 {
            if parts.len() == 0 {
                SaveLoopbackConfigurationResult { success: true, error_message: Some(String::from_str("配置保存成功（无需修改）")) }
            } else {
                SaveLoopbackConfigurationResult { success: true, error_message: Some(join_strings(&parts, "，")) }
            }
        } else {
            let n_errors = errors.len();
            parts.push(String::from_str("失败：").concat(decimal_string(n_errors as u64).as_str()).concat("个"));
            proof {
                assert(views(parts@) =~= summary_parts(ok, sk).push("失败："@ + decimal(er.len()) + "个"@));
            }
            let text = join_strings(&parts, "，").concat("。\n错误详情：\n").concat(join_strings(&errors, "\n").as_str());
            SaveLoopbackConfigurationResult { success: false, error_message: Some(text) }
        }
    }
}

/// Request: check for a newer release of the app.
pub struct CheckAppUpdateRequest {
    pub current_version: String,
    pub github_repo: String,
}

/// Report of an update check.
pub struct AppUpdateResult {
    pub current_version: String,
    pub latest_version: String,
    pub has_update: bool,
    pub download_url: String,
    pub release_notes: String,
    pub html_url: String,
    pub error_message: Option<String>,
}

impl AppUpdateResult {
    /// The report of a failed check: no update, empty details, and the error.
    pub fn failed(current_version: String, error: String) -> (r: AppUpdateResult)
        ensures
            r.current_version == current_version,
            r.latest_version@.len() == 0,
            !r.has_update,
            r.download_url@.len() == 0,
            r.release_notes@.len() == 0,
            r.html_url@.len() == 0,
            r.error_message == Some(error),
    {
        AppUpdateResult {
            current_version,
            latest_version: String::new(),
            has_update: false,
            download_url: String::new(),
            release_notes: String::new(),
            html_url: String::new(),
            error_message: Some(error),
        }
    }
}

/// Request: write a backup of the app data to `target_path`.
pub struct CreateBackupRequest {
    pub target_path: String,
    pub app_data_path: String,
    pub app_version: String,
}

/// Request: restore the app data from the backup at `backup_path`.
pub struct RestoreBackupRequest {
    pub backup_path: String,
    pub app_data_path: String,
}

/// Report of a backup or restore.
pub struct BackupOperationResult {
    pub success: bool,
    pub message: String,
    pub error_message: Option<String>,
}

/// Message reported after a successful restore.
pub open spec fn restore_done_text() -> Seq<char> {
    "备份还原成功"@
}

impl BackupOperationResult {
    /// The report of a backup: the written path on success, the error otherwise.
    pub fn from_create(outcome: Result<String, String>) -> (r: BackupOperationResult)
        ensures
            match outcome {
                Ok(path) => r.success && r.message == path && r.error_message is None,
                Err(e) => !r.success && r.message@.len() == 0 && r.error_message == Some(e),
            },
    {
        match outcome {
            Ok(path) => BackupOperationResult { success: true, message: path, error_message: None },
            Err(e) => BackupOperationResult { success: false, message: String::new(), error_message: Some(e) },
        }
    }

    /// The report of a restore: a fixed confirmation on success, the error otherwise.
    pub fn from_restore(outcome: Result<(), String>) -> (r: BackupOperationResult)
        ensures
            match outcome {
                Ok(()) => r.success && r.message@ == restore_done_text() && r.error_message is None,
                Err(e) => !r.success && r.message@.len() == 0 && r.error_message == Some(e),
            },
    {
        match outcome {
            Ok(()) => BackupOperationResult {
                success: true,
                message: String::from_str("备份还原成功"),
                error_message: None,
            },
            Err(e) => BackupOperationResult { success: false, message: String::new(), error_message: Some(e) },
        }
    }
}

} // verus!
