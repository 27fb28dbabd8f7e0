//! Where the configuration file is looked for.
use vstd::prelude::*;
use crate::config::ConfigError;
use crate::text::{push_str, string_of_range};

verus! {

/// The configuration's place under a home directory.
pub open spec fn config_suffix() -> Seq<char> {
    seq!['/', '.', 's', 's', 'h', '/', 'c', 'o', 'n', 'f', 'i', 'g']
}

/// The configuration path: `explicit` verbatim where it is given, else
/// `<home>/.ssh/config`; fails with `MissingEnvironment` where neither is.
pub fn config_path(explicit: Option<String>, home: Option<String>) -> (r: Result<String, ConfigError>)
    ensures
        explicit is Some ==> r is Ok && r->Ok_0@ == explicit->Some_0@,
        explicit is None && home is Some ==> r is Ok && r->Ok_0@ == home->Some_0@ + config_suffix(),
        explicit is None && home is None ==> r == Err::<String, ConfigError>(
            ConfigError::MissingEnvironment,
        ),
{
    match explicit {
        Some(p) => Ok(p),
        None => match home {
            Some(h) => {
                let mut out: Vec<char> = Vec::new();
                push_str(&mut out, h.as_str());
                push_str(&mut out, "/.ssh/config");
                proof {
                    reveal_strlit("/.ssh/config");
                }
                assert(out@ =~= h@ + config_suffix());
                Ok(string_of_range(&out, 0, out.len()))
            },
            None => Err(ConfigError::MissingEnvironment),
        },
    }
}

} // verus!
