//! Consumer restriction: a white or black list of consumer names.

use vstd::prelude::*;
use crate::config::{ConfigError, check_status, status_valid};
use crate::context::PluginContext;
use crate::text::{contains_exact, contains_exact_exec};

verus! {

#[derive(Clone, Debug)]
pub struct ConsumerRestrictionConfig {
    pub whitelist: Vec<String>,
    pub blacklist: Vec<String>,
    pub rejected_code: u16,
}

/// The status of a rejected request when none is configured.
pub fn default_rejected_code() -> (r: u16)
    ensures
        r == 403,
{
    403
}

/// The rule on consumer names.
pub enum ConsumerNameValidator {
    BlackList(Vec<String>),
    WhiteList(Vec<String>),
}

/// The consumer passes the rule: a listed name on a white list, any but a
/// listed name on a black list; without a consumer, only a black list lets
/// the request through.
pub open spec fn name_passes(v: ConsumerNameValidator, name: Option<Seq<char>>) -> bool {
    match v {
        ConsumerNameValidator::BlackList(names) => match name {
            Some(n) => !contains_exact(names@, n),
            None => true,
        },
        ConsumerNameValidator::WhiteList(names) => match name {
            Some(n) => contains_exact(names@, n),
            None => false,
        },
    }
}

pub open spec fn name_view(n: Option<String>) -> Option<Seq<char>> {
    match n {
        Some(s) => Some(s@),
        None => None,
    }
}

impl ConsumerNameValidator {
    pub fn check(&self, consumer_name: Option<&String>) -> (r: bool)
        ensures
            r == name_passes(*self, match consumer_name {
                Some(s) => Some(s@),
                None => None,
            }),
    {
        match self {
            ConsumerNameValidator::BlackList(names) => match consumer_name {
                Some(name) => !contains_exact_exec(names, name),
                None => true,
            },
            ConsumerNameValidator::WhiteList(names) => match consumer_name {
                Some(name) => contains_exact_exec(names, name),
                None => false,
            },
        }
    }
}

/// The consumer-restriction plugin.
pub struct ConsumerRestriction {
    pub validator: ConsumerNameValidator,
    pub rejected_code: u16,
}

impl ConsumerRestriction {
    /// A non-empty white list rules; else a non-empty black list; else an
    /// empty white list, which rejects every request.
    pub fn new(cfg: ConsumerRestrictionConfig) -> (r: Result<ConsumerRestriction, ConfigError>)
        ensures
            match r {
                Ok(c) => {
                    &&& status_valid(cfg.rejected_code)
                    &&& c.rejected_code == cfg.rejected_code
                    &&& match c.validator {
                        ConsumerNameValidator::WhiteList(names) => if cfg.whitelist@.len() > 0 {
                            names@ == cfg.whitelist@
                        } else {
                            cfg.blacklist@.len() == 0 && names@.len() == 0
                        },
                        ConsumerNameValidator::BlackList(names) => cfg.whitelist@.len() == 0
                            && cfg.blacklist@.len() > 0 && names@ == cfg.blacklist@,
                    }
                },
                Err(e) => !status_valid(cfg.rejected_code) && e == ConfigError::InvalidStatusCode(cfg.rejected_code),
            },
    {
        let rejected_code = match check_status(cfg.rejected_code) {
            Ok(c) => c,
            Err(e) => { return Err(e); },
        };
        let validator = if cfg.whitelist.len() > 0 {
            ConsumerNameValidator::WhiteList(cfg.whitelist)
        } else if cfg.blacklist.len() > 0 {
            ConsumerNameValidator::BlackList(cfg.blacklist)
        } else {
            ConsumerNameValidator::WhiteList(Vec::new())
        };
        Ok(ConsumerRestriction { validator, rejected_code })
    }

    /// `Some(status)` when the request is rejected, `None` when it goes on.
    pub fn call(&self, ctx: &PluginContext) -> (r: Option<u16>)
        ensures
            r == if name_passes(self.validator, name_view(ctx.consumer_name)) {
                None
            } else {
                Some(self.rejected_code)
            },
    {
        if self.validator.check(ctx.consumer_name()) {
            None
        } else {
            Some(self.rejected_code)
        }
    }
}

} // verus!
