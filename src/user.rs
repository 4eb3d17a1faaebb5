//! User profiles and document permissions.

use vstd::prelude::*;

verus! {

/// Levels of permission that a user can have on a document, from least to
/// most.
#[derive(Clone, Copy, Debug, PartialEq, Eq, PartialOrd, Ord)]
pub enum PermissionLevel {
    Read,
    Write,
    Maintain,
    Own,
}

impl PermissionLevel {
    /// Position of the level in the order from least to most.
    pub open spec fn rank(self) -> nat {
        match self {
            PermissionLevel::Read => 0,
            PermissionLevel::Write => 1,
            PermissionLevel::Maintain => 2,
            PermissionLevel::Own => 3,
        }
    }

    fn rank_of(&self) -> (r: u8)
        ensures
            r as nat == self.rank(),
    {
        match self {
            PermissionLevel::Read => 0,
            PermissionLevel::Write => 1,
            PermissionLevel::Maintain => 2,
            PermissionLevel::Own => 3,
        }
    }
}

/// The higher of two optional levels; a missing one yields to the other.
pub open spec fn higher_level(a: Option<PermissionLevel>, b: Option<PermissionLevel>) -> Option<
    PermissionLevel,
> {
    match a {
        Option::None => b,
        Option::Some(x) => match b {
            Option::None => a,
            Option::Some(y) => if y.rank() >= x.rank() {
                b
            } else {
                a
            },
        },
    }
}

/// Global and user permission levels on a document.
#[derive(Clone, Debug)]
pub struct Permissions {
    /// Level granted to anyone.
    pub anyone: Option<PermissionLevel>,
    /// Level granted to the user in particular.
    pub user: Option<PermissionLevel>,
}

impl Permissions {
    /// Gets the highest level of permissions allowed.
    pub fn max_level(self) -> (r: Option<PermissionLevel>)
        ensures
            r == higher_level(self.anyone, self.user),
    {
        match (self.anyone, self.user) {
            (Option::Some(x), Option::Some(y)) => {
                if y.rank_of() >= x.rank_of() {
                    Some(y)
                } else {
                    Some(x)
                }
            },
            (Option::Some(x), Option::None) => Some(x),
            (Option::None, y) => y,
        }
    }
}

/// Is a user whose highest level is `max_level` authorized at `level`? A
/// user with no level at all is not.
pub fn is_level_authorized(max_level: Option<PermissionLevel>, level: PermissionLevel) -> (r: bool)
    ensures
        r == match max_level {
            Option::Some(m) => level.rank() <= m.rank(),
            Option::None => false,
        },
{
    match max_level {
        Option::Some(m) => level.rank_of() <= m.rank_of(),
        Option::None => false,
    }
}

/// Whether the text has a match of the pattern, or `None` where the pattern
/// is not a valid regular expression.
pub uninterp spec fn regex_outcome(pattern: Seq<char>, haystack: Seq<char>) -> Option<bool>;

/// Relies on `regex::Regex::new`, which compiles a pattern or fails on it as
/// invalid, and `regex::Regex::is_match`, which says whether the haystack has
/// a match anywhere: the outcome depends on the two strings alone.
#[verifier::external_body]
fn regex_is_match(pattern: &str, haystack: &str) -> (r: Option<bool>)
    ensures
        r == regex_outcome(pattern@, haystack@),
{
    match regex::Regex::new(pattern) {
        Ok(re) => Some(re.is_match(haystack)),
        Err(_) => None,
    }
}

/// Only ASCII letters, digits, dashes, dots and underscores.
pub const USERNAME_CHARS: &'static str = r"^[0-9A-Za-z_\-\.]*$";

/// Starts with an ASCII letter or digit.
pub const USERNAME_START: &'static str = r"^[0-9A-Za-z]";

/// Ends with an ASCII letter or digit.
pub const USERNAME_END: &'static str = r"[0-9A-Za-z]$";

/// The three rules of a valid user name, as matched by the regular
/// expressions above.
pub open spec fn username_rules_hold(username: Seq<char>) -> bool {
    &&& regex_outcome(USERNAME_CHARS@, username) == Some(true)
    &&& regex_outcome(USERNAME_START@, username) == Some(true)
    &&& regex_outcome(USERNAME_END@, username) == Some(true)
}

/// Is the proposed user name valid?
///
/// A user name is valid when it is nonempty, comprises ASCII alphanumeric
/// characters, dashes, dots and underscores, and has alphanumeric first and
/// last characters. A valid user name is then also valid in a URL.
pub fn is_username_valid(username: &str) -> (r: bool)
    ensures
        r == username_rules_hold(username@),
{
    regex_is_match(USERNAME_CHARS, username) == Some(true)
        && regex_is_match(USERNAME_START, username) == Some(true)
        && regex_is_match(USERNAME_END, username) == Some(true)
}

/// Data of a user profile.
#[derive(Clone, Debug)]
pub struct UserProfile {
    pub username: Option<String>,
    pub display_name: Option<String>,
}

impl UserProfile {
    /// Checks the profile: a user name, if there is one, must be valid.
    pub fn validate(&self) -> (r: Result<(), String>)
        ensures
            r is Ok <==> match self.username {
                Option::Some(u) => username_rules_hold(u@),
                Option::None => true,
            },
            r matches Err(msg) ==> msg@ == "Username does not follow the rules"@,
    {
        match &self.username {
            Option::Some(u) => {
                if is_username_valid(u.as_str()) {
                    Ok(())
                } else {
                    Err("Username does not follow the rules".to_owned())
                }
            },
            Option::None => Ok(()),
        }
    }
}

} // verus!
