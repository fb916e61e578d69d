//! The generation of connector projects.
use vstd::prelude::*;

use crate::generate::project::{
    GenerateConfig, NAME_MISSING, TYPE_MISSING, VISIBILITY_MISSING,
};
use crate::text::{copy_opt_text, opt_text, texts};

verus! {

/// The direction of a connector.
#[derive(Debug, Clone, Copy, PartialEq, Eq, Structural)]
pub enum ConnectorType {
    Sink,
    Source,
}

impl ConnectorType {
    pub open spec fn name(self) -> Seq<char> {
        match self {
            ConnectorType::Sink => "sink"@,
            ConnectorType::Source => "source"@,
        }
    }

    pub fn text(&self) -> (s: &'static str)
        ensures
            s@ == self.name(),
    {
        match self {
            ConnectorType::Sink => "sink",
            ConnectorType::Source => "source",
        }
    }
}

/// The name of a truth value.
pub open spec fn bool_name(b: bool) -> Seq<char> {
    if b {
        "true"@
    } else {
        "false"@
    }
}

pub fn bool_text(b: bool) -> (s: &'static str)
    ensures
        s@ == bool_name(b),
{
    if b {
        "true"
    } else {
        "false"
    }
}

/// The request for a new connector project.
#[derive(Debug)]
pub struct GenerateCmd {
    /// The name of the connector.
    pub name: Option<String>,
    /// The group that develops the connector.
    pub group: Option<String>,
    /// The description of the connector.
    pub conn_description: Option<String>,
    /// Where the project is made, the current directory where it is not given.
    pub destination: Option<String>,
    /// Ask nothing.
    pub silent: bool,
    /// The direction of the connector.
    pub conn_type: Option<ConnectorType>,
    /// Whether the connector is public.
    pub conn_public: Option<bool>,
}

/// The definitions with one more, `key` and a value, where there is a value.
pub open spec fn with_value(list: Seq<Seq<char>>, key: Seq<char>, value: Option<Seq<char>>) -> Seq<
    Seq<char>,
> {
    match value {
        Some(v) => list.push(key + v),
        None => list,
    }
}

fn push_value(list: &mut Vec<String>, key: &str, value: Option<&str>)
    ensures
        texts(final(list)@) == with_value(
            texts(old(list)@),
            key@,
            match value {
                Some(v) => Some(v@),
                None => None,
            },
        ),
{
    let ghost before = texts(list@);
    if let Some(v) = value {
        list.push(key.to_owned().concat(v));
        assert(texts(list@) =~= before.push(key@ + v@));
    }
}

impl GenerateCmd {
    /// The name of the project.
    pub open spec fn project_name(self) -> Seq<char> {
        match self.name {
            Some(n) => n@,
            None => "my-connector"@,
        }
    }

    /// The variables that the request defines.
    pub open spec fn definitions(self, git_hash: Seq<char>) -> Seq<Seq<char>> {
        let first = Seq::<Seq<char>>::empty().push("fluvio-cargo-dependency-hash="@ + git_hash);
        let second = with_value(first, "project-group="@, opt_text(self.group));
        let third = with_value(second, "project-description="@, opt_text(self.conn_description));
        let fourth = with_value(
            third,
            "connector-type="@,
            match self.conn_type {
                Some(t) => Some(t.name()),
                None => None,
            },
        );
        with_value(
            fourth,
            "connector-public="@,
            match self.conn_public {
                Some(b) => Some(bool_name(b)),
                None => None,
            },
        )
    }

    /// What is wrong where nothing may be asked and a value is missing that is asked for: the name of
    /// the project, its type, or whether it is public.
    pub open spec fn missing_value(self) -> Option<Seq<char>> {
        if self.name is None {
            Some(NAME_MISSING@)
        } else if self.conn_type is None {
            Some(TYPE_MISSING@)
        } else if self.conn_public is None {
            Some(VISIBILITY_MISSING@)
        } else {
            None
        }
    }

    fn find_missing_value(&self) -> (r: Option<&'static str>)
        ensures
            (match r {
                Some(e) => self.missing_value() == Some(e@),
                None => self.missing_value() is None,
            }),
    {
        if self.name.is_none() {
            Some(NAME_MISSING)
        } else if self.conn_type.is_none() {
            Some(TYPE_MISSING)
        } else if self.conn_public.is_none() {
            Some(VISIBILITY_MISSING)
        } else {
            None
        }
    }

    /// The configuration for the generation of the project. `git_hash` is the revision that the
    /// project depends on. Where nothing may be asked, all values that are asked for must be given.
    pub fn config(&self, git_hash: &str) -> (r: Result<GenerateConfig, String>)
        ensures
            r is Err <==> self.silent && self.missing_value() is Some,
            r matches Err(e) ==> self.missing_value() == Some(e@),
            r matches Ok(config) ==> {
                &&& config.name@ == self.project_name()
                &&& opt_text(config.destination) == opt_text(self.destination)
                &&& texts(config.define@) == self.definitions(git_hash@)
                &&& config.silent == self.silent
                &&& config.verbose == !self.silent
            },
    {
        if self.silent {
            if let Some(e) = self.find_missing_value() {
                return Err(e.to_owned());
            }
        }
        let name = match &self.name {
            Some(n) => n.clone(),
            None => "my-connector".to_owned(),
        };
        let mut define: Vec<String> = Vec::new();
        define.push("fluvio-cargo-dependency-hash=".to_owned().concat(git_hash));
        assert(texts(define@) =~= Seq::empty().push("fluvio-cargo-dependency-hash="@ + git_hash@));
        if let Some(group) = &self.group {
            push_value(&mut define, "project-group=", Some(group.as_str()));
        }
        if let Some(description) = &self.conn_description {
            push_value(&mut define, "project-description=", Some(description.as_str()));
        }
        if let Some(t) = &self.conn_type {
            push_value(&mut define, "connector-type=", Some(t.text()));
        }
        if let Some(b) = self.conn_public {
            push_value(&mut define, "connector-public=", Some(bool_text(b)));
        }
        Ok(
            GenerateConfig {
                name,
                destination: copy_opt_text(&self.destination),
                define,
                silent: self.silent,
                verbose: !self.silent,
            },
        )
    }
}

} // verus!
