//! The per-request plugin context: template variables and the consumer
//! that the dispatcher selected.

use vstd::prelude::*;
use crate::request::RequestHead;
use crate::template::{render, render_template};
use crate::text::pairs_view;

verus! {

/// Per-request state shared by the plugins of one chain.
pub struct PluginContext {
    /// Template variables, by name; a later entry overrides an earlier one.
    pub vars: Vec<(String, String)>,
    pub consumer_name: Option<String>,
}

impl PluginContext {
    /// A context holding the client's address as `remoteAddr`, when the
    /// client has an IP address.
    pub fn new(req: &RequestHead) -> (r: PluginContext)
        ensures
            r.consumer_name is None,
            pairs_view(r.vars@) == match req.remote {
                Some(a) => seq![("remoteAddr"@, a.ip_text@)],
                None => Seq::empty(),
            },
    {
        let mut vars: Vec<(String, String)> = Vec::new();
        match &req.remote {
            Some(a) => {
                vars.push((String::from_str("remoteAddr"), a.ip_text.clone()));
            },
            None => {},
        }
        assert(pairs_view(vars@) =~= match req.remote {
            Some(a) => seq![("remoteAddr"@, a.ip_text@)],
            None => Seq::<(Seq<char>, Seq<char>)>::empty(),
        });
        PluginContext { vars, consumer_name: None }
    }

    /// Sets a template variable.
    pub fn insert(&mut self, name: String, value: String)
        ensures
            pairs_view(final(self).vars@) == pairs_view(old(self).vars@).push((name@, value@)),
            final(self).consumer_name == old(self).consumer_name,
    {
        let ghost before = pairs_view(self.vars@);
        self.vars.push((name, value));
        assert(pairs_view(self.vars@) =~= before.push((name@, value@)));
    }

    /// Renders a template against the context's variables; empty when it
    /// cannot be rendered.
    pub fn render_template(&self, template: &str) -> (r: String)
        ensures
            r@ == match render(template@, pairs_view(self.vars@)) {
                Some(s) => s,
                None => Seq::empty(),
            },
    {
        match render_template(template, &self.vars) {
            Some(s) => s,
            None => String::new(),
        }
    }

    pub fn set_consumer_name(&mut self, name: String)
        ensures
            final(self).consumer_name == Some(name),
            final(self).vars == old(self).vars,
    {
        self.consumer_name = Some(name);
    }

    pub fn consumer_name(&self) -> (r: Option<&String>)
        ensures
            match r {
                Some(n) => self.consumer_name == Some(*n),
                None => self.consumer_name is None,
            },
    {
        match &self.consumer_name {
            Some(n) => Some(n),
            None => None,
        }
    }
}

} // verus!
