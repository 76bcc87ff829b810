//! The per-machine participant id: its validation, how a stored config is
//! reused or replaced, and the names of backups of invalid configs.
use vstd::prelude::*;
use crate::text::{chars_of, dec, push_char, push_dec, push_str};
use crate::uuid_text::{is_uuid_text, is_v4_uuid_text, is_valid_uuid, v4_uuid_text, spec_v4_uuid_text, law_new_uuid_text_parses};

verus! {

/// Name of the configuration directory under the roaming application data directory.
pub const CONFIG_DIR_NAME: &'static str = "operation-logger";
/// Name of the configuration file.
pub const CONFIG_FILE_NAME: &'static str = "config.json";
/// The configuration schema this version writes and accepts.
pub const SCHEMA_VERSION: u32 = 1;

/// The stored participant configuration.
#[derive(Debug, Clone)]
pub struct LocalParticipantConfig {
    pub schema_version: u32,
    pub local_participant_id: String,
    pub created_at_utc: String,
}

/// Why a stored configuration is not used.
#[derive(Debug, Clone, Copy, PartialEq, Eq, Structural)]
pub enum ConfigError {
    /// `schema_version` is not the supported one.
    UnsupportedSchemaVersion,
    /// `local_participant_id` is not a UUID.
    InvalidParticipantId,
}

/// What to do with the configuration file at startup.
#[derive(Debug, Clone)]
pub enum ConfigLoad {
    /// The stored configuration is valid: use it.
    Reuse(LocalParticipantConfig),
    /// There is no file: create a new configuration.
    Create,
    /// The file is unreadable or invalid: back it up and create a new one.
    ReplaceInvalid,
}

/// The validation result of a configuration.
pub open spec fn spec_validate(config: LocalParticipantConfig) -> Result<(), ConfigError> {
    if config.schema_version != SCHEMA_VERSION {
        Err(ConfigError::UnsupportedSchemaVersion)
    } else if !is_uuid_text(config.local_participant_id@) {
        Err(ConfigError::InvalidParticipantId)
    } else {
        Ok(())
    }
}

/// Checks the schema version, then that the participant id is a UUID.
pub fn validate_config(config: &LocalParticipantConfig) -> (r: Result<(), ConfigError>)
    ensures
        r == spec_validate(*config),
{
    if config.schema_version != SCHEMA_VERSION {
        return Err(ConfigError::UnsupportedSchemaVersion);
    }
    if !is_valid_uuid(config.local_participant_id.as_str()) {
        return Err(ConfigError::InvalidParticipantId);
    }
    Ok(())
}

/// A new configuration created at `created_at_utc`, whose participant id is
/// the version-4 UUID made from the 16 `random_bytes`.
pub fn new_local_participant_config(created_at_utc: String, random_bytes: [u8; 16]) -> (r:
    LocalParticipantConfig)
    ensures
        r.schema_version == SCHEMA_VERSION,
        r.local_participant_id@ == spec_v4_uuid_text(random_bytes@),
        is_v4_uuid_text(r.local_participant_id@),
        r.created_at_utc == created_at_utc,
        spec_validate(r) == Ok::<(), ConfigError>(()),
{
    let id = v4_uuid_text(random_bytes);
    proof {
        law_new_uuid_text_parses(id@);
    }
    LocalParticipantConfig {
        schema_version: SCHEMA_VERSION,
        local_participant_id: id,
        created_at_utc,
    }
}

/// The decision on the configuration file: create when there is none, reuse a
/// readable valid configuration, replace anything else.
pub open spec fn spec_config_load(file_exists: bool, parsed: Option<LocalParticipantConfig>) -> ConfigLoad {
    if !file_exists {
        ConfigLoad::Create
    } else {
        match parsed {
            Some(config) => if spec_validate(config) is Ok {
                ConfigLoad::Reuse(config)
            } else {
                ConfigLoad::ReplaceInvalid
            },
            None => ConfigLoad::ReplaceInvalid,
        }
    }
}

/// Decides what to do with the configuration file: create one when there
/// is none, reuse a readable valid one, and replace anything else.
/// `parsed` is the configuration read from the file, `None` when it could
/// not be read or parsed.
pub fn decide_config_load(file_exists: bool, parsed: Option<LocalParticipantConfig>) -> (r:
    ConfigLoad)
    ensures
        r == spec_config_load(file_exists, parsed),
        !file_exists ==> r is Create,
        file_exists && parsed.is_some() && spec_validate(parsed.unwrap()) is Ok ==> (r matches ConfigLoad::Reuse(c) && c == parsed.unwrap()),
        file_exists && !(parsed.is_some() && spec_validate(parsed.unwrap()) is Ok) ==> r is ReplaceInvalid,
{
    if !file_exists {
        return ConfigLoad::Create;
    }
    match parsed {
        Some(config) => match validate_config(&config) {
            Ok(()) => ConfigLoad::Reuse(config),
            Err(_) => ConfigLoad::ReplaceInvalid,
        },
        None => ConfigLoad::ReplaceInvalid,
    }
}

/// `config.invalid-{timestamp}.json`, or `config.invalid-{timestamp}-{index}.json`
/// for a positive `index`.
pub open spec fn spec_backup_file_name(timestamp: Seq<char>, index: u64) -> Seq<char> {
    if index == 0 {
        "config.invalid-"@ + timestamp + ".json"@
    } else {
        "config.invalid-"@ + timestamp + "-"@ + dec(index as nat) + ".json"@
    }
}

/// The name of a backup of an invalid configuration; `index` counts the
/// names already taken (see `spec_backup_file_name`).
pub fn invalid_config_backup_file_name(timestamp: &str, index: u64) -> (r: String)
    ensures
        r@ == spec_backup_file_name(timestamp@, index),
{
    let mut s = String::new();
    push_str(&mut s, "config.invalid-");
    push_str(&mut s, timestamp);
    if index > 0 {
        push_char(&mut s, '-');
        push_dec(&mut s, index);
    }
    push_str(&mut s, ".json");
    proof {
        reveal_strlit("-");
        assert(s@ =~= spec_backup_file_name(timestamp@, index));
    }
    s
}

/// `YYYYMMDD_HHMMSS` from the first 19 characters of a timestamp.
pub open spec fn spec_backup_timestamp(t: Seq<char>) -> Seq<char> {
    t.subrange(0, 4) + t.subrange(5, 7) + t.subrange(8, 10) + "_"@ + t.subrange(11, 13)
        + t.subrange(14, 16) + t.subrange(17, 19)
}

/// Whether the first `n` characters of `t` are ASCII.
pub open spec fn ascii_prefix(t: Seq<char>, n: int) -> bool {
    forall|i: int| 0 <= i < n ==> (#[trigger] t[i] as int) < 128
}

/// Compacts a `YYYY-MM-DDTHH:MM:SS...` timestamp to `YYYYMMDD_HHMMSS`.
pub fn backup_timestamp(value: &str) -> (r: String)
    requires
        value@.len() >= 19,
        ascii_prefix(value@, 19),
    ensures
        r@ == spec_backup_timestamp(value@),
{
    let cs = chars_of(value);
    let mut s = String::new();
    let mut i: usize = 0;
    let ghost t = value@;
    while i < 19
        invariant
            cs@ == t,
            t.len() >= 19,
            i <= 19,
            s@ == (if i <= 4 {
                t.subrange(0, i as int)
            } else if i <= 7 {
                t.subrange(0, 4) + t.subrange(5, i as int)
            } else if i <= 10 {
                t.subrange(0, 4) + t.subrange(5, 7) + t.subrange(8, i as int)
            } else if i <= 13 {
                t.subrange(0, 4) + t.subrange(5, 7) + t.subrange(8, 10) + "_"@ + t.subrange(11, i as int)
            } else if i <= 16 {
                t.subrange(0, 4) + t.subrange(5, 7) + t.subrange(8, 10) + "_"@ + t.subrange(11, 13) + t.subrange(14, i as int)
            } else {
                t.subrange(0, 4) + t.subrange(5, 7) + t.subrange(8, 10) + "_"@ + t.subrange(11, 13) + t.subrange(14, 16) + t.subrange(17, i as int)
            }),
        decreases 19 - i,
    {
        proof {
            reveal_strlit("_");
        }
        if i == 4 || i == 7 || i == 13 || i == 16 {
            proof {
                assert(t.subrange(5, 5) =~= Seq::<char>::empty());
                assert(t.subrange(8, 8) =~= Seq::<char>::empty());
                assert(t.subrange(14, 14) =~= Seq::<char>::empty());
                assert(t.subrange(17, 17) =~= Seq::<char>::empty());
                assert(t.subrange(0, 4) + Seq::<char>::empty() =~= t.subrange(0, 4));
            }
        } else if i == 10 {
            push_char(&mut s, '_');
            proof {
                assert(t.subrange(11, 11) =~= Seq::<char>::empty());
            }
        } else {
            let ghost before = s@;
            push_char(&mut s, cs[i]);
            proof {
                assert(s@ == before.push(t[i as int]));
            }
        }
        i = i + 1;
        proof {
            assert(s@ =~= (if i <= 4 {
                t.subrange(0, i as int)
            } else if i <= 7 {
                t.subrange(0, 4) + t.subrange(5, i as int)
            } else if i <= 10 {
                t.subrange(0, 4) + t.subrange(5, 7) + t.subrange(8, i as int)
            } else if i <= 13 {
                t.subrange(0, 4) + t.subrange(5, 7) + t.subrange(8, 10) + "_"@ + t.subrange(11, i as int)
            } else if i <= 16 {
                t.subrange(0, 4) + t.subrange(5, 7) + t.subrange(8, 10) + "_"@ + t.subrange(11, 13) + t.subrange(14, i as int)
            } else {
                t.subrange(0, 4) + t.subrange(5, 7) + t.subrange(8, 10) + "_"@ + t.subrange(11, 13) + t.subrange(14, 16) + t.subrange(17, i as int)
            }));
        }
    }
    s
}

/// Loading is idempotent on the decision: the configuration a load ends with
/// (a reused valid one, or a newly created one) is, once stored and read back
/// unchanged, reused as it is by the next load.
pub proof fn law_loaded_config_is_reused_again(loaded: ConfigLoad, created: LocalParticipantConfig, file_exists: bool, parsed: Option<LocalParticipantConfig>)
    requires
        loaded == spec_config_load(file_exists, parsed),
        created.schema_version == SCHEMA_VERSION,
        is_v4_uuid_text(created.local_participant_id@),
    ensures
        ({
            let result = match loaded {
                ConfigLoad::Reuse(c) => c,
                _ => created,
            };
            spec_config_load(true, Some(result)) == ConfigLoad::Reuse(result)
        }),
{
    law_new_uuid_text_parses(created.local_participant_id@);
}

/// A newly created configuration passes validation, so it is reused on the next start.
pub proof fn law_new_config_is_reused(config: LocalParticipantConfig)
    requires
        config.schema_version == SCHEMA_VERSION,
        is_v4_uuid_text(config.local_participant_id@),
    ensures
        spec_validate(config) == Ok::<(), ConfigError>(()),
{
    law_new_uuid_text_parses(config.local_participant_id@);
}

} // verus!
