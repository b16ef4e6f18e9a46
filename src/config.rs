//! The model descriptor: identity, connection parameters and execution
//! parameters, with one accessor through which every lookup goes.

use vstd::prelude::*;

use crate::framing::{Tokens, TokensView};
use crate::params::ParamMap;
use crate::text::chars_of;

verus! {

/// The three groups of a descriptor, in the order the descriptor holds them.
#[derive(Clone, Copy, Debug, PartialEq, Eq, Structural)]
pub enum Category {
    Identity,
    Connection,
    Execution,
}

/// Where a category stands in a descriptor.
pub open spec fn slot(c: Category) -> int {
    match c {
        Category::Identity => 0,
        Category::Connection => 1,
        Category::Execution => 2,
    }
}

/// The backend kinds that a descriptor can select.
#[derive(Clone, Copy, Debug, PartialEq, Eq, Structural)]
pub enum DriverKind {
    /// A child process on this machine.
    Local,
    /// A command in a session on a remote host.
    Remote,
}

/// A descriptor that cannot be used.
#[derive(Debug)]
pub enum ConfigError {
    /// The descriptor lacks this group.
    MissingGroup(Category),
    /// The group lacks this key, which the driver named (if any) needs.
    MissingField { driver: Option<DriverKind>, category: Category, key: String },
    /// The key is there, with an empty value where the driver needs one.
    EmptyField { driver: Option<DriverKind>, category: Category, key: String },
    /// No driver is registered under this connection type.
    UnknownDriver(String),
}

/// `e` says that group `c` lacks `key`, which driver `d` needs.
pub open spec fn is_missing(e: ConfigError, d: Option<DriverKind>, c: Category, key: Seq<char>) -> bool {
    e matches ConfigError::MissingField { driver, category, key: k } && driver == d && category == c
        && k@ == key
}

/// `e` says that `key` of group `c` is empty, where driver `d` needs a value.
pub open spec fn is_empty_field(e: ConfigError, d: Option<DriverKind>, c: Category, key: Seq<char>) -> bool {
    e matches ConfigError::EmptyField { driver, category, key: k } && driver == d && category == c
        && k@ == key
}

/// A model descriptor: `[identity, connection parameters, execution parameters]`.
pub struct MEALArgs {
    pub meal_config: Vec<ParamMap>,
}

/// The maps of a descriptor.
pub open spec fn groups(a: &MEALArgs) -> Seq<Map<Seq<char>, Seq<char>>> {
    a.meal_config@.map_values(|m: ParamMap| m@)
}

/// What a lookup finds: the value, or the error that it gives.
pub open spec fn lookup(cfg: Seq<Map<Seq<char>, Seq<char>>>, c: Category, key: Seq<char>) -> Option<
    Seq<char>,
> {
    if slot(c) < cfg.len() && cfg[slot(c)].contains_key(key) {
        Some(cfg[slot(c)][key])
    } else {
        None
    }
}

/// `key` of `c` is there.
pub open spec fn present(cfg: Seq<Map<Seq<char>, Seq<char>>>, c: Category, key: Seq<char>) -> bool {
    lookup(cfg, c, key) is Some
}

/// `key` of `c` is there and not empty.
pub open spec fn filled(cfg: Seq<Map<Seq<char>, Seq<char>>>, c: Category, key: Seq<char>) -> bool {
    lookup(cfg, c, key) matches Some(v) && v.len() > 0
}

/// The error that driver `d` gives for a value it needs that is absent.
pub open spec fn missing_error(
    cfg: Seq<Map<Seq<char>, Seq<char>>>,
    d: Option<DriverKind>,
    c: Category,
    key: Seq<char>,
    e: ConfigError,
) -> bool {
    if cfg.len() <= slot(c) {
        e == ConfigError::MissingGroup(c)
    } else {
        is_missing(e, d, c, key)
    }
}

/// The error that driver `d` gives for a value it needs non-empty that is
/// absent or empty.
pub open spec fn required_error(
    cfg: Seq<Map<Seq<char>, Seq<char>>>,
    d: Option<DriverKind>,
    c: Category,
    key: Seq<char>,
    e: ConfigError,
) -> bool {
    if cfg.len() <= slot(c) || !cfg[slot(c)].contains_key(key) {
        missing_error(cfg, d, c, key, e)
    } else {
        is_empty_field(e, d, c, key)
    }
}

/// All four protocol tokens are there and not empty.
pub open spec fn tokens_filled(cfg: Seq<Map<Seq<char>, Seq<char>>>) -> bool {
    &&& filled(cfg, Category::Execution, "readyToken"@)
    &&& filled(cfg, Category::Execution, "startToken"@)
    &&& filled(cfg, Category::Execution, "stopToken"@)
    &&& filled(cfg, Category::Execution, "exitToken"@)
}

/// The tokens of a descriptor whose tokens are filled.
pub open spec fn tokens_of(cfg: Seq<Map<Seq<char>, Seq<char>>>) -> TokensView {
    TokensView {
        ready: cfg[2]["readyToken"@],
        start: cfg[2]["startToken"@],
        stop: cfg[2]["stopToken"@],
        exit: cfg[2]["exitToken"@],
    }
}

/// The error that driver `d` gives for the first of the four tokens that is
/// not filled.
pub open spec fn token_error(cfg: Seq<Map<Seq<char>, Seq<char>>>, d: DriverKind, e: ConfigError) -> bool {
    if !filled(cfg, Category::Execution, "readyToken"@) {
        required_error(cfg, Some(d), Category::Execution, "readyToken"@, e)
    } else if !filled(cfg, Category::Execution, "startToken"@) {
        required_error(cfg, Some(d), Category::Execution, "startToken"@, e)
    } else if !filled(cfg, Category::Execution, "stopToken"@) {
        required_error(cfg, Some(d), Category::Execution, "stopToken"@, e)
    } else {
        required_error(cfg, Some(d), Category::Execution, "exitToken"@, e)
    }
}

/// One of the four protocol token keys.
pub open spec fn is_token_key(k: Seq<char>) -> bool {
    k == "readyToken"@ || k == "startToken"@ || k == "stopToken"@ || k == "exitToken"@
}

/// A descriptor that lacks any of the four token keys is refused by every
/// driver, and the error names a token key and that driver.
pub proof fn lemma_missing_token(
    cfg: Seq<Map<Seq<char>, Seq<char>>>,
    k: Seq<char>,
    d: DriverKind,
    e: ConfigError,
)
    requires
        is_token_key(k),
        cfg.len() >= 3,
        !cfg[2].contains_key(k),
        token_error(cfg, d, e),
    ensures
        !tokens_filled(cfg),
        (e matches ConfigError::MissingField { driver, category, key } && driver == Some(d)
            && category == Category::Execution && is_token_key(key@)) || (
        e matches ConfigError::EmptyField { driver, category, key } && driver == Some(d)
            && category == Category::Execution && is_token_key(key@)),
{
}

impl MEALArgs {
    /// The value of `key` in group `category`, looked up on behalf of
    /// `driver` (if any), which the error then names.
    fn find(&self, driver: Option<DriverKind>, category: Category, key: &str) -> (r: Result<
        &String,
        ConfigError,
    >)
        ensures
            match r {
                Ok(v) => lookup(groups(self), category, key@) == Some(v@),
                Err(e) => lookup(groups(self), category, key@) is None && missing_error(
                    groups(self),
                    driver,
                    category,
                    key@,
                    e,
                ),
            },
    {
        let i: usize = match category {
            Category::Identity => 0,
            Category::Connection => 1,
            Category::Execution => 2,
        };
        if i >= self.meal_config.len() {
            return Err(ConfigError::MissingGroup(category));
        }
        match self.meal_config[i].get(key) {
            Some(v) => Ok(v),
            None => Err(ConfigError::MissingField { driver, category, key: String::from_str(key) }),
        }
    }

    /// The value of `key` in group `category`.
    pub fn field(&self, category: Category, key: &str) -> (r: Result<&String, ConfigError>)
        ensures
            match r {
                Ok(v) => lookup(groups(self), category, key@) == Some(v@),
                Err(e) => lookup(groups(self), category, key@) is None && missing_error(
                    groups(self),
                    None,
                    category,
                    key@,
                    e,
                ),
            },
    {
        self.find(None, category, key)
    }

    /// The value of `key` in group `category`, which `driver` needs; a
    /// missing key is reported as missing for that driver.
    pub fn field_for(&self, driver: DriverKind, category: Category, key: &str) -> (r: Result<
        &String,
        ConfigError,
    >)
        ensures
            match r {
                Ok(v) => lookup(groups(self), category, key@) == Some(v@),
                Err(e) => lookup(groups(self), category, key@) is None && missing_error(
                    groups(self),
                    Some(driver),
                    category,
                    key@,
                    e,
                ),
            },
    {
        self.find(Some(driver), category, key)
    }

    /// The value of `key` in group `category`, which `driver` needs non-empty.
    pub fn required(&self, driver: DriverKind, category: Category, key: &str) -> (r: Result<
        &String,
        ConfigError,
    >)
        ensures
            match r {
                Ok(v) => lookup(groups(self), category, key@) == Some(v@) && v@.len() > 0,
                Err(e) => !filled(groups(self), category, key@) && required_error(
                    groups(self),
                    Some(driver),
                    category,
                    key@,
                    e,
                ),
            },
    {
        let v = self.find(Some(driver), category, key)?;
        if v.as_str().is_empty() {
            return Err(
                ConfigError::EmptyField { driver: Some(driver), category, key: String::from_str(key) },
            );
        }
        Ok(v)
    }

    /// The four protocol tokens, which `driver` needs non-empty.
    pub fn tokens(&self, driver: DriverKind) -> (r: Result<Tokens, ConfigError>)
        ensures
            match r {
                Ok(t) => tokens_filled(groups(self)) && t@ == tokens_of(groups(self)) && t@.wf(),
                Err(e) => !tokens_filled(groups(self)) && token_error(groups(self), driver, e),
            },
    {
        let ready = self.required(driver, Category::Execution, "readyToken")?;
        let start = self.required(driver, Category::Execution, "startToken")?;
        let stop = self.required(driver, Category::Execution, "stopToken")?;
        let exit = self.required(driver, Category::Execution, "exitToken")?;
        Ok(
            Tokens {
                ready: chars_of(ready),
                start: chars_of(start),
                stop: chars_of(stop),
                exit: chars_of(exit),
            },
        )
    }
}

} // verus!
