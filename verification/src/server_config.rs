//! What the server is started with, from its environment.

use crate::text;
use vstd::prelude::*;

verus! {

/// The address to listen at, the database, whether accounts can be made, and the directory
/// for everything else.
#[derive(Debug)]
pub struct Config {
    pub bind: String,
    pub database_path: String,
    pub allow_registration: bool,
    pub data_dir: String,
}

/// Accounts can be made unless the value says no: `0`, or `false` in whatever case. The
/// second argument is the value in lower case.
pub open spec fn allows(value: Seq<char>, lowered: Seq<char>) -> bool {
    value != "0"@ && lowered != "false"@
}

pub fn allows_registration(value: &str, lowered: &str) -> (r: bool)
    ensures
        r == allows(value@, lowered@),
{
    !text::same_text(value, "0") && !text::same_text(lowered, "false")
}

/// The value of a variable, or what stands for it where it is not set.
pub open spec fn value_or(value: Option<String>, default: Seq<char>) -> Seq<char> {
    match value {
        Some(v) => v@,
        None => default,
    }
}

fn or_text(value: &Option<String>, default: &str) -> (r: String)
    ensures
        r@ == value_or(*value, default@),
{
    match value {
        Some(v) => v.clone(),
        None => default.to_owned(),
    }
}

impl Config {
    /// The settings are the ones that the four variables make up.
    pub open spec fn comes_from(
        self,
        bind: Option<String>,
        data_dir: Option<String>,
        database_path: Option<String>,
        allow_registration: Option<String>,
    ) -> bool {
        &&& self.bind@ == value_or(bind, "0.0.0.0:3000"@)
        &&& self.data_dir@ == value_or(data_dir, "."@)
        &&& self.database_path@ == value_or(
            database_path,
            text::path_below(value_or(data_dir, "."@), "tuimessager.db"@),
        )
        &&& self.allow_registration == match allow_registration {
            Some(v) => allows(v@, text::lowercased(v@)),
            None => true,
        }
    }

    /// The settings by the variables `TUIMESSAGER_BIND`, `TUIMESSAGER_DATA_DIR`,
    /// `TUIMESSAGER_DATABASE_PATH` and `TUIMESSAGER_ALLOW_REGISTRATION`. The database is in
    /// the data directory, unless it has a path of its own.
    pub fn from_env(
        bind: &Option<String>,
        data_dir: &Option<String>,
        database_path: &Option<String>,
        allow_registration: &Option<String>,
    ) -> (r: Config)
        ensures
            r.bind@ == value_or(*bind, "0.0.0.0:3000"@),
            r.data_dir@ == value_or(*data_dir, "."@),
            r.database_path@ == value_or(
                *database_path,
                text::path_below(value_or(*data_dir, "."@), "tuimessager.db"@),
            ),
            r.allow_registration == match *allow_registration {
                Some(v) => allows(v@, text::lowercased(v@)),
                None => true,
            },
            r.comes_from(*bind, *data_dir, *database_path, *allow_registration),
    {
        let data_dir = or_text(data_dir, ".");
        let in_dir = text::join_path(data_dir.as_str(), "tuimessager.db");
        let allow_registration: bool = match allow_registration {
            Some(v) => {
                let lowered = text::lowercase(v.as_str());
                allows_registration(v.as_str(), lowered.as_str())
            },
            None => true,
        };
        Config {
            bind: or_text(bind, "0.0.0.0:3000"),
            database_path: or_text(database_path, in_dir.as_str()),
            allow_registration,
            data_dir,
        }
    }
}

} // verus!
