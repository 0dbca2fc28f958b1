//! Where the monitor looks for its configuration.
use vstd::prelude::*;
use vstd::string::*;

verus! {

/// The file name of the configuration.
pub fn config_file_name() -> (name: &'static str)
    ensures
        name@ == "config.lua"@,
{
    "config.lua"
}

/// Where the configuration file is.
pub enum ConfigLocation {
    /// `config.lua` in the working directory.
    WorkingDirectory,
    /// `config.lua` in the directory made of these path components, created
    /// when missing.
    UserDirectory(Vec<String>),
}

/// The strings of a list of path components.
pub open spec fn component_views(parts: Seq<String>) -> Seq<Seq<char>> {
    parts.map_values(|p: String| p@)
}

/// The directory of the user's configuration: under `APPDATA` on Windows,
/// under `.config` in the home directory elsewhere, in either case the
/// working directory when the variable is not set; then `sysmon`.
pub open spec fn user_config_dir(
    windows: bool,
    appdata: Option<Seq<char>>,
    home: Option<Seq<char>>,
) -> Seq<Seq<char>> {
    if windows {
        let base = match appdata {
            Some(a) => a,
            None => "."@,
        };
        seq![base, "sysmon"@]
    } else {
        let base = match home {
            Some(h) => h,
            None => "."@,
        };
        seq![base, ".config"@, "sysmon"@]
    }
}

/// Away from Windows the user's configuration directory is
/// `.config/sysmon` under the home directory, the working directory when
/// `HOME` is not set, whatever `APPDATA` holds; on Windows it is `sysmon`
/// under `APPDATA`, the working directory when that is not set, whatever
/// `HOME` holds.
pub proof fn lemma_user_config_dir_bases(
    appdata: Option<Seq<char>>,
    home: Option<Seq<char>>,
)
    ensures
        user_config_dir(false, appdata, home) == seq![
            match home {
                Some(h) => h,
                None => "."@,
            },
            ".config"@,
            "sysmon"@,
        ],
        user_config_dir(true, appdata, home) == seq![
            match appdata {
                Some(a) => a,
                None => "."@,
            },
            "sysmon"@,
        ],
{
}

/// The string an optional value holds, if any.
pub open spec fn optional_view(s: Option<String>) -> Option<Seq<char>> {
    match s {
        Some(t) => Some(t@),
        None => None,
    }
}

/// Where to look for the configuration: `config.lua` in the working
/// directory when it is there, the user's configuration directory
/// ([`user_config_dir`]) otherwise.  `appdata` and `home` are the values of
/// the `APPDATA` and `HOME` environment variables, where set.
pub fn config_location(
    local_exists: bool,
    windows: bool,
    appdata: Option<String>,
    home: Option<String>,
) -> (location: ConfigLocation)
    ensures
        local_exists ==> location is WorkingDirectory,
        !local_exists ==> (location matches ConfigLocation::UserDirectory(parts) && component_views(
            parts@,
        ) == user_config_dir(windows, optional_view(appdata), optional_view(home))),
        !local_exists && !windows ==> (location matches ConfigLocation::UserDirectory(parts)
            && parts@.len() == 3 && parts@[0]@ == match home {
            Some(h) => h@,
            None => "."@,
        } && parts@[1]@ == ".config"@ && parts@[2]@ == "sysmon"@),
        !local_exists && windows ==> (location matches ConfigLocation::UserDirectory(parts)
            && parts@.len() == 2 && parts@[0]@ == match appdata {
            Some(a) => a@,
            None => "."@,
        } && parts@[1]@ == "sysmon"@),
{
    if local_exists {
        return ConfigLocation::WorkingDirectory;
    }
    let ghost expected = user_config_dir(windows, optional_view(appdata), optional_view(home));
    let mut parts: Vec<String> = Vec::new();
    if windows {
        let base = match appdata {
            Some(a) => a,
            None => String::from_str("."),
        };
        parts.push(base);
    } else {
        let base = match home {
            Some(h) => h,
            None => String::from_str("."),
        };
        parts.push(base);
        parts.push(String::from_str(".config"));
    }
    parts.push(String::from_str("sysmon"));
    assert(component_views(parts@) =~= expected);
    ConfigLocation::UserDirectory(parts)
}

} // verus!
