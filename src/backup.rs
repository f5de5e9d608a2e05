//! Backup records of subscriptions and overrides: file contents are carried as
//! standard base64 text, and a restore turns each entry back into a target path and
//! its bytes.

use vstd::prelude::*;
use vstd::string::StringExecFns;
use base64::Engine as _;

verus! {

/// Format version written into, and accepted from, backup files.
pub const BACKUP_VERSION: &'static str = "1.0.0";

/// Standard base64 text (with padding) of `b`.
pub uninterp spec fn base64_text(b: Seq<u8>) -> Seq<char>;

/// Bytes that the standard base64 text `t` decodes to, if it is valid.
pub uninterp spec fn base64_bytes(t: Seq<char>) -> Option<Seq<u8>>;

/// Relies on `base64::engine::general_purpose::STANDARD.encode`: the padded
/// standard encoding of the input, which panics only when the output length would
/// overflow `usize`.
#[verifier::external_body]
fn base64_encode(b: &[u8]) -> (r: String)
    requires
        b@.len() <= usize::MAX / 2,
    ensures
        r@ == base64_text(b@),
{
    base64::engine::general_purpose::STANDARD.encode(b)
}

/// Relies on `base64::engine::general_purpose::STANDARD.decode`: the decoded bytes,
/// or the decoder's error message when the text is not valid standard base64.
#[verifier::external_body]
fn base64_decode(t: &str) -> (r: Result<Vec<u8>, String>)
    ensures
        match r {
            Ok(v) => base64_bytes(t@) == Some(v@),
            Err(_) => base64_bytes(t@) is None,
        },
{
    base64::engine::general_purpose::STANDARD.decode(t).map_err(|e| e.to_string())
}

/// The characters of each key and value.
pub open spec fn entry_views(entries: Seq<(String, String)>) -> Seq<(Seq<char>, Seq<char>)> {
    entries.map_values(|e: (String, String)| (e.0@, e.1@))
}

/// Keys of `entries` are pairwise distinct.
pub open spec fn keys_unique(entries: Seq<(Seq<char>, Seq<char>)>) -> bool {
    forall|i: int, j: int| 0 <= i < j < entries.len() ==> (#[trigger] entries[i]).0 != (#[trigger] entries[j]).0
}

/// `entries` after setting `key` to `value`: the entry with that key is replaced in
/// place, or a new entry is appended.
pub open spec fn with_entry(entries: Seq<(Seq<char>, Seq<char>)>, key: Seq<char>, value: Seq<char>) -> Seq<(Seq<char>, Seq<char>)> {
    if exists|i: int| 0 <= i < entries.len() && (#[trigger] entries[i]).0 == key {
        let i = choose|i: int| 0 <= i < entries.len() && (#[trigger] entries[i]).0 == key;
        entries.update(i, (key, value))
    } else {
        entries.push((key, value))
    }
}

/// Sets `key` to `value` in a list of entries with distinct keys.
fn set_entry(entries: &mut Vec<(String, String)>, key: String, value: String)
    requires
        keys_unique(entry_views(old(entries)@)),
    ensures
        keys_unique(entry_views(final(entries)@)),
        entry_views(final(entries)@) == with_entry(entry_views(old(entries)@), key@, value@),
{
    let ghost start = entry_views(entries@);
    let mut i: usize = 0;
    while i < entries.len()
        invariant
            i <= entries@.len(),
            entries@ == old(entries)@,
            start == entry_views(entries@),
            keys_unique(start),
            forall|j: int| 0 <= j < i ==> (#[trigger] start[j]).0 != key@,
        decreases entries@.len() - i,
    {
        if entries[i].0 == key {
            proof {
                assert(start[i as int].0 == key@);
                let c = choose|c: int| 0 <= c < start.len() && (#[trigger] start[c]).0 == key@;
                if c != i {
                    if c < i {
                        assert(start[c].0 != key@);
                    } else {
                        assert(start[i as int].0 != start[c].0);
                    }
                }
            }
            entries.set(i, (key, value));
            proof {
                assert(entry_views(entries@) =~= start.update(i as int, (key@, value@)));
            }
            return;
        }
        i = i + 1;
    }
    entries.push((key, value));
    proof {
        assert(entry_views(entries@) =~= start.push((key@, value@)));
    }
}

/// Subscriptions in a backup: the list file, and each configuration's base64
/// content by file stem.
pub struct SubscriptionBackup {
    pub list: Option<String>,
    pub configs: Vec<(String, String)>,
}

/// Overrides in a backup: the list file, and each file's base64 content by name.
pub struct OverrideBackup {
    pub list: Option<String>,
    pub files: Vec<(String, String)>,
}

/// Bytes written for each entry on restore: the path `dir + "/" + name + suffix`
/// and the decoded content, in entry order; or the first decoding error.
pub open spec fn restored_files(entries: Seq<(String, String)>, dir: Seq<char>, suffix: Seq<char>, r: Result<Vec<(String, Vec<u8>)>, String>) -> bool {
    match r {
        Ok(files) => files@.len() == entries.len() && forall|i: int|
            0 <= i < entries.len() ==> {
                &&& (#[trigger] files@[i]).0@ == dir + "/"@ + entries[i].0@ + suffix
                &&& base64_bytes(entries[i].1@) == Some(files@[i].1@)
            },
        Err(_) => exists|i: int| 0 <= i < entries.len() && base64_bytes((#[trigger] entries[i]).1@) is None,
    }
}

fn restore_entries(entries: &Vec<(String, String)>, dir: &str, suffix: &str) -> (r: Result<Vec<(String, Vec<u8>)>, String>)
    ensures
        restored_files(entries@, dir@, suffix@, r),
{
    let mut files: Vec<(String, Vec<u8>)> = Vec::new();
    let mut i: usize = 0;
    while i < entries.len()
        invariant
            i <= entries@.len(),
            files@.len() == i,
            forall|j: int|
                0 <= j < i ==> {
                    &&& (#[trigger] files@[j]).0@ == dir@ + "/"@ + entries@[j].0@ + suffix@
                    &&& base64_bytes(entries@[j].1@) == Some(files@[j].1@)
                },
        decreases entries@.len() - i,
    {
        let content = match base64_decode(entries[i].1.as_str()) {
            Ok(c) => c,
            Err(e) => {
                return Err(e);
            },
        };
        let path = String::from_str(dir).concat("/").concat(entries[i].0.as_str()).concat(suffix);
        proof {
            assert(path@ =~= dir@ + "/"@ + entries@[i as int].0@ + suffix@);
        }
        files.push((path, content));
        i = i + 1;
    }
    Ok(files)
}

/// `app_data_path` followed by `/` and `name`.
pub open spec fn under(app_data_path: Seq<char>, name: Seq<char>) -> Seq<char> {
    app_data_path + "/"@ + name
}

impl SubscriptionBackup {
    pub fn new() -> (r: SubscriptionBackup)
        ensures
            r.list is None,
            r.configs@.len() == 0,
    {
        SubscriptionBackup { list: None, configs: Vec::new() }
    }

    /// Records the content of the configuration file with stem `stem`.
    pub fn add_config(&mut self, stem: String, content: &[u8])
        requires
            keys_unique(entry_views(old(self).configs@)),
            content@.len() <= usize::MAX / 2,
        ensures
            keys_unique(entry_views(final(self).configs@)),
            final(self).list == old(self).list,
            entry_views(final(self).configs@) == with_entry(entry_views(old(self).configs@), stem@, base64_text(content@)),
    {
        let encoded = base64_encode(content);
        set_entry(&mut self.configs, stem, encoded);
    }

    /// Files to write on restore: `<app>/subscriptions/<stem>.yaml` for each entry.
    pub fn restore_files(&self, app_data_path: &str) -> (r: Result<Vec<(String, Vec<u8>)>, String>)
        ensures
            restored_files(self.configs@, under(app_data_path@, "subscriptions"@), ".yaml"@, r),
    {
        let dir = String::from_str(app_data_path).concat("/").concat("subscriptions");
        restore_entries(&self.configs, dir.as_str(), ".yaml")
    }
}

impl OverrideBackup {
    pub fn new() -> (r: OverrideBackup)
        ensures
            r.list is None,
            r.files@.len() == 0,
    {
        OverrideBackup { list: None, files: Vec::new() }
    }

    /// Records the content of the override file `name`.
    pub fn add_file(&mut self, name: String, content: &[u8])
        requires
            keys_unique(entry_views(old(self).files@)),
            content@.len() <= usize::MAX / 2,
        ensures
            keys_unique(entry_views(final(self).files@)),
            final(self).list == old(self).list,
            entry_views(final(self).files@) == with_entry(entry_views(old(self).files@), name@, base64_text(content@)),
    {
        let encoded = base64_encode(content);
        set_entry(&mut self.files, name, encoded);
    }

    /// Files to write on restore: `<app>/overrides/<name>` for each entry.
    pub fn restore_files(&self, app_data_path: &str) -> (r: Result<Vec<(String, Vec<u8>)>, String>)
        ensures
            restored_files(self.files@, under(app_data_path@, "overrides"@), ""@, r),
    {
        let dir = String::from_str(app_data_path).concat("/").concat("overrides");
        restore_entries(&self.files, dir.as_str(), "")
    }
}

/// Base64 text of a standalone file (DNS configuration, PAC file).
pub fn encode_file(content: &[u8]) -> (r: String)
    requires
        content@.len() <= usize::MAX / 2,
    ensures
        r@ == base64_text(content@),
{
    base64_encode(content)
}

/// Bytes of a standalone file carried as base64 text.
pub fn decode_file(text: &str) -> (r: Result<Vec<u8>, String>)
    ensures
        match r {
            Ok(v) => base64_bytes(text@) == Some(v@),
            Err(_) => base64_bytes(text@) is None,
        },
{
    base64_decode(text)
}

/// Message for a backup whose format version is not supported.
pub open spec fn unsupported_version_prefix() -> Seq<char> {
    "不支持的备份版本："@
}

/// Accepts exactly the supported format version.
pub fn check_backup_version(version: &str) -> (r: Result<(), String>)
    ensures
        r is Ok <==> version@ == BACKUP_VERSION@,
        r matches Err(m) ==> m@ == unsupported_version_prefix() + version@,
{
    let given = String::from_str(version);
    let supported = String::from_str(BACKUP_VERSION);
    if given == supported {
        Ok(())
    } else {
        Err(String::from_str("不支持的备份版本：").concat(version))
    }
}

} // verus!
