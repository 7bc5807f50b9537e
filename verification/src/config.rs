use vstd::prelude::*;

verus! {

/// The credentials used to sign in to the portal.
///
/// Resolution never fails: an absent flag falls back to the matching
/// environment variable, and an absent variable to the empty string
/// (which will simply fail login downstream).
pub struct Config {
    pub username: String,
    pub password: String,
}

impl Config {
    /// Resolve credentials from the values found on the command line and in
    /// the environment: an explicit flag wins over the environment variable,
    /// and both absent yields the empty string.
    pub fn resolve(
        flag_username: Option<String>,
        flag_password: Option<String>,
        env_username: Option<String>,
        env_password: Option<String>,
    ) -> (r: Config)
        ensures
            r.username@ == resolved_value(flag_username, env_username),
            r.password@ == resolved_value(flag_password, env_password),
    {
        Config {
            username: pick_value(flag_username, env_username),
            password: pick_value(flag_password, env_password),
        }
    }
}

/// The precedence rule for one credential field: flag, then environment
/// variable, then the empty string.
pub open spec fn resolved_value(flag: Option<String>, env: Option<String>) -> Seq<char> {
    match flag {
        Option::Some(v) => v@,
        Option::None => match env {
            Option::Some(v) => v@,
            Option::None => Seq::<char>::empty(),
        },
    }
}

fn pick_value(flag: Option<String>, env: Option<String>) -> (r: String)
    ensures
        r@ == resolved_value(flag, env),
{
    match flag {
        Option::Some(v) => v,
        Option::None => match env {
            Option::Some(v) => v,
            Option::None => String::new(),
        },
    }
}

} // verus!
