//! The generation of SmartModule projects.
use vstd::prelude::*;

use crate::cdk::{bool_name, bool_text};
use crate::generate::project::{
    GenerateConfig, NAME_MISSING, TYPE_MISSING, VISIBILITY_MISSING,
};
use crate::generate::variables::{defined, law_definition_is_found, underscored};
use crate::string_map::map_of;
use crate::text::{copy_opt_text, opt_text, texts};

verus! {

pub const FLUVIO_SMARTMODULE_CRATE_NAME: &'static str = "fluvio-smartmodule";

pub const FLUVIO_SMARTMODULE_REPO: &'static str = "https://github.com/fluvio-community/fluvio.git";

/// What is wrong where it is not said whether a SmartModule takes parameters, and it may not be asked.
pub const PARAMS_MISSING: &'static str = "whether the project takes parameters is missing";

/// What a SmartModule does with its input.
#[derive(Debug, Clone, Copy, PartialEq, Eq, Structural)]
pub enum SmartModuleType {
    Filter,
    Mapper,
    ArrayMap,
    Aggregate,
    FilterMap,
}

impl SmartModuleType {
    pub open spec fn name(self) -> Seq<char> {
        match self {
            SmartModuleType::Filter => "filter"@,
            SmartModuleType::Mapper => "map"@,
            SmartModuleType::ArrayMap => "array-map"@,
            SmartModuleType::Aggregate => "aggregate"@,
            SmartModuleType::FilterMap => "filter-map"@,
        }
    }

    pub fn text(&self) -> (s: &'static str)
        ensures
            s@ == self.name(),
    {
        match self {
            SmartModuleType::Filter => "filter",
            SmartModuleType::Mapper => "map",
            SmartModuleType::ArrayMap => "array-map",
            SmartModuleType::Aggregate => "aggregate",
            SmartModuleType::FilterMap => "filter-map",
        }
    }
}

/// Where a project gets its SmartModule library from.
#[derive(Debug, PartialEq, Eq)]
pub enum CargoSmDependSource {
    CratesIo(String),
    Git(String),
    GitBranch { url: String, branch: String },
    GitTag { url: String, tag: String },
    GitRev { url: String, rev: String },
    Path(String),
}

/// A dependency table with the key `git` and one more key.
pub open spec fn git_table(url: Seq<char>, key: Seq<char>, value: Seq<char>) -> Seq<char> {
    "{ git = \""@ + url + "\", "@ + key + " = \""@ + value + "\" }"@
}

fn git_table_text(url: &str, key: &str, value: &str) -> (r: String)
    ensures
        r@ == git_table(url@, key@, value@),
{
    "{ git = \"".to_owned().concat(url).concat("\", ").concat(key).concat(" = \"").concat(
        value,
    ).concat("\" }")
}

impl CargoSmDependSource {
    pub fn text(&self) -> (r: String)
        ensures
            r@ == self@.dependency(),
    {
        match self {
            CargoSmDependSource::CratesIo(version) => "\"".to_owned().concat(
                version.as_str(),
            ).concat("\""),
            CargoSmDependSource::Git(url) => "{ git = \"".to_owned().concat(url.as_str()).concat(
                "\" }",
            ),
            CargoSmDependSource::GitBranch { url, branch } => git_table_text(
                url.as_str(),
                "branch",
                branch.as_str(),
            ),
            CargoSmDependSource::GitTag { url, tag } => git_table_text(
                url.as_str(),
                "tag",
                tag.as_str(),
            ),
            CargoSmDependSource::GitRev { url, rev } => git_table_text(
                url.as_str(),
                "rev",
                rev.as_str(),
            ),
            CargoSmDependSource::Path(path) => "{ path = \"".to_owned().concat(
                path.as_str(),
            ).concat("\" }"),
        }
    }
}

/// A source as texts.
pub enum SourceModel {
    CratesIo(Seq<char>),
    Git(Seq<char>),
    GitBranch(Seq<char>, Seq<char>),
    GitTag(Seq<char>, Seq<char>),
    GitRev(Seq<char>, Seq<char>),
    Path(Seq<char>),
}

impl SourceModel {
    /// The dependency as the manifest of a project says it.
    pub open spec fn dependency(self) -> Seq<char> {
        match self {
            SourceModel::CratesIo(version) => "\""@ + version + "\""@,
            SourceModel::Git(url) => "{ git = \""@ + url + "\" }"@,
            SourceModel::GitBranch(url, branch) => git_table(url, "branch"@, branch),
            SourceModel::GitTag(url, tag) => git_table(url, "tag"@, tag),
            SourceModel::GitRev(url, rev) => git_table(url, "rev"@, rev),
            SourceModel::Path(path) => "{ path = \""@ + path + "\" }"@,
        }
    }
}

impl View for CargoSmDependSource {
    type V = SourceModel;

    open spec fn view(&self) -> SourceModel {
        match *self {
            CargoSmDependSource::CratesIo(version) => SourceModel::CratesIo(version@),
            CargoSmDependSource::Git(url) => SourceModel::Git(url@),
            CargoSmDependSource::GitBranch { url, branch } => SourceModel::GitBranch(url@, branch@),
            CargoSmDependSource::GitTag { url, tag } => SourceModel::GitTag(url@, tag@),
            CargoSmDependSource::GitRev { url, rev } => SourceModel::GitRev(url@, rev@),
            CargoSmDependSource::Path(path) => SourceModel::Path(path@),
        }
    }
}

impl Clone for CargoSmDependSource {
    fn clone(&self) -> (r: CargoSmDependSource)
        ensures
            r@ == self@,
    {
        match self {
            CargoSmDependSource::CratesIo(v) => CargoSmDependSource::CratesIo(v.clone()),
            CargoSmDependSource::Git(u) => CargoSmDependSource::Git(u.clone()),
            CargoSmDependSource::GitBranch { url, branch } => CargoSmDependSource::GitBranch {
                url: url.clone(),
                branch: branch.clone(),
            },
            CargoSmDependSource::GitTag { url, tag } => CargoSmDependSource::GitTag {
                url: url.clone(),
                tag: tag.clone(),
            },
            CargoSmDependSource::GitRev { url, rev } => CargoSmDependSource::GitRev {
                url: url.clone(),
                rev: rev.clone(),
            },
            CargoSmDependSource::Path(p) => CargoSmDependSource::Path(p.clone()),
        }
    }
}

/// A value that the user chose for a template.
#[derive(Debug, PartialEq, Eq)]
pub enum SmdkTemplateValue {
    UseParams(bool),
    SmCargoDependency(CargoSmDependSource),
    SmType(SmartModuleType),
    ProjectGroup(String),
    SmPublic(bool),
}

impl SmdkTemplateValue {
    pub fn text(&self) -> (r: String)
        ensures
            r@ == self@.definition(),
    {
        match self {
            SmdkTemplateValue::SmCargoDependency(
                d,
            ) => "fluvio-smartmodule-cargo-dependency=".to_owned().concat(d.text().as_str()),
            SmdkTemplateValue::SmType(t) => "smartmodule-type=".to_owned().concat(t.text()),
            SmdkTemplateValue::UseParams(b) => "smartmodule-params=".to_owned().concat(
                bool_text(*b),
            ),
            SmdkTemplateValue::ProjectGroup(g) => "project-group=".to_owned().concat(g.as_str()),
            SmdkTemplateValue::SmPublic(b) => "smartmodule-public=".to_owned().concat(
                bool_text(*b),
            ),
        }
    }
}

/// A value as texts.
pub enum ValueModel {
    UseParams(bool),
    SmCargoDependency(SourceModel),
    SmType(SmartModuleType),
    ProjectGroup(Seq<char>),
    SmPublic(bool),
}

impl ValueModel {
    /// The value as a definition.
    pub open spec fn definition(self) -> Seq<char> {
        match self {
            ValueModel::SmCargoDependency(d) => "fluvio-smartmodule-cargo-dependency="@
                + d.dependency(),
            ValueModel::SmType(t) => "smartmodule-type="@ + t.name(),
            ValueModel::UseParams(b) => "smartmodule-params="@ + bool_name(b),
            ValueModel::ProjectGroup(g) => "project-group="@ + g,
            ValueModel::SmPublic(b) => "smartmodule-public="@ + bool_name(b),
        }
    }
}

impl ValueModel {
    /// The variable that the value is for.
    pub open spec fn variable(self) -> Seq<char> {
        match self {
            ValueModel::SmCargoDependency(_) => "fluvio-smartmodule-cargo-dependency"@,
            ValueModel::SmType(_) => "smartmodule-type"@,
            ValueModel::UseParams(_) => "smartmodule-params"@,
            ValueModel::ProjectGroup(_) => "project-group"@,
            ValueModel::SmPublic(_) => "smartmodule-public"@,
        }
    }

    /// What the variable is set to.
    pub open spec fn setting(self) -> Seq<char> {
        match self {
            ValueModel::SmCargoDependency(d) => d.dependency(),
            ValueModel::SmType(t) => t.name(),
            ValueModel::UseParams(b) => bool_name(b),
            ValueModel::ProjectGroup(g) => g,
            ValueModel::SmPublic(b) => bool_name(b),
        }
    }
}

/// A value that the user chose reaches the template: read as a definition, it sets its variable, in
/// the hyphenated and in the underscored form, whatever was defined before.
pub proof fn law_chosen_value_reaches_the_template(define: Seq<Seq<char>>, value: ValueModel)
    ensures
        ({
            let vars = map_of(defined(define.push(value.definition())));
            let name = value.variable();
            &&& vars.contains_key(name) && vars[name] == value.setting()
            &&& vars.contains_key(underscored(name)) && vars[underscored(name)] == value.setting()
        }),
{
    reveal_strlit("fluvio-smartmodule-cargo-dependency");
    reveal_strlit("fluvio-smartmodule-cargo-dependency=");
    reveal_strlit("smartmodule-type");
    reveal_strlit("smartmodule-type=");
    reveal_strlit("smartmodule-params");
    reveal_strlit("smartmodule-params=");
    reveal_strlit("project-group");
    reveal_strlit("project-group=");
    reveal_strlit("smartmodule-public");
    reveal_strlit("smartmodule-public=");
    let name = value.variable();
    let item = name + seq!['='] + value.setting();
    assert(value.definition() =~= item);
    assert forall|i: int| 0 <= i < name.len() implies #[trigger] name[i] != '=' by {}
    assert(!name.contains('='));
    law_definition_is_found(define, name, value.setting());
}

/// Values as definitions.
pub open spec fn definitions(values: Seq<ValueModel>) -> Seq<Seq<char>> {
    values.map_values(|v: ValueModel| v.definition())
}

impl View for SmdkTemplateValue {
    type V = ValueModel;

    open spec fn view(&self) -> ValueModel {
        match *self {
            SmdkTemplateValue::UseParams(b) => ValueModel::UseParams(b),
            SmdkTemplateValue::SmCargoDependency(d) => ValueModel::SmCargoDependency(d@),
            SmdkTemplateValue::SmType(t) => ValueModel::SmType(t),
            SmdkTemplateValue::ProjectGroup(g) => ValueModel::ProjectGroup(g@),
            SmdkTemplateValue::SmPublic(b) => ValueModel::SmPublic(b),
        }
    }
}

/// The values of a list as texts.
pub open spec fn value_models(values: Seq<SmdkTemplateValue>) -> Seq<ValueModel> {
    values.map_values(|v: SmdkTemplateValue| v@)
}

impl Clone for SmdkTemplateValue {
    fn clone(&self) -> (r: SmdkTemplateValue)
        ensures
            r@ == self@,
    {
        match self {
            SmdkTemplateValue::UseParams(b) => SmdkTemplateValue::UseParams(*b),
            SmdkTemplateValue::SmCargoDependency(d) => SmdkTemplateValue::SmCargoDependency(
                d.clone(),
            ),
            SmdkTemplateValue::SmType(t) => SmdkTemplateValue::SmType(*t),
            SmdkTemplateValue::ProjectGroup(g) => SmdkTemplateValue::ProjectGroup(g.clone()),
            SmdkTemplateValue::SmPublic(b) => SmdkTemplateValue::SmPublic(*b),
        }
    }
}

/// The values that the user chose, in the order in which they were given.
#[derive(Debug)]
pub struct SmdkTemplateUserValues {
    pub values: Vec<SmdkTemplateValue>,
}

impl SmdkTemplateUserValues {
    pub fn new() -> (r: SmdkTemplateUserValues)
        ensures
            r.values@ == Seq::<SmdkTemplateValue>::empty(),
    {
        SmdkTemplateUserValues { values: Vec::new() }
    }

    pub fn with_smart_module_cargo_dependency(
        &mut self,
        dependency: Option<CargoSmDependSource>,
    ) -> (r: &mut Self)
        ensures
            r.values@ == (match dependency {
                Some(d) => old(self).values@.push(SmdkTemplateValue::SmCargoDependency(d)),
                None => old(self).values@,
            }),
            *final(self) == *final(r),
    {
        if let Some(d) = dependency {
            self.values.push(SmdkTemplateValue::SmCargoDependency(d));
        }
        self
    }

    pub fn with_smart_module_type(&mut self, sm_type: Option<SmartModuleType>) -> (r: &mut Self)
        ensures
            r.values@ == (match sm_type {
                Some(t) => old(self).values@.push(SmdkTemplateValue::SmType(t)),
                None => old(self).values@,
            }),
            *final(self) == *final(r),
    {
        if let Some(t) = sm_type {
            self.values.push(SmdkTemplateValue::SmType(t));
        }
        self
    }

    pub fn with_smart_module_params(&mut self, request: Option<bool>) -> (r: &mut Self)
        ensures
            r.values@ == (match request {
                Some(b) => old(self).values@.push(SmdkTemplateValue::UseParams(b)),
                None => old(self).values@,
            }),
            *final(self) == *final(r),
    {
        if let Some(b) = request {
            self.values.push(SmdkTemplateValue::UseParams(b));
        }
        self
    }

    pub fn with_project_group(&mut self, group: Option<String>) -> (r: &mut Self)
        ensures
            r.values@ == (match group {
                Some(g) => old(self).values@.push(SmdkTemplateValue::ProjectGroup(g)),
                None => old(self).values@,
            }),
            *final(self) == *final(r),
    {
        if let Some(g) = group {
            self.values.push(SmdkTemplateValue::ProjectGroup(g));
        }
        self
    }

    pub fn with_smart_module_public(&mut self, public: Option<bool>) -> (r: &mut Self)
        ensures
            r.values@ == (match public {
                Some(b) => old(self).values@.push(SmdkTemplateValue::SmPublic(b)),
                None => old(self).values@,
            }),
            *final(self) == *final(r),
    {
        if let Some(b) = public {
            self.values.push(SmdkTemplateValue::SmPublic(b));
        }
        self
    }

    /// A copy of the values.
    pub fn to_vec(&self) -> (r: Vec<SmdkTemplateValue>)
        ensures
            value_models(r@) == value_models(self.values@),
    {
        let mut r: Vec<SmdkTemplateValue> = Vec::new();
        let mut i: usize = 0;
        let ghost all = value_models(self.values@);
        assert(value_models(r@) =~= all.take(0));
        while i < self.values.len()
            invariant
                i <= self.values@.len(),
                all == value_models(self.values@),
                value_models(r@) == all.take(i as int),
            decreases self.values.len() - i,
        {
            let ghost before = value_models(r@);
            r.push(self.values[i].clone());
            assert(value_models(r@) =~= before.push(all[i as int]));
            i += 1;
            assert(value_models(r@) =~= all.take(i as int));
        }
        assert(all.take(i as int) =~= all);
        r
    }

    /// The values as definitions.
    pub fn to_cargo_generate(&self) -> (r: Vec<String>)
        ensures
            texts(r@) == definitions(value_models(self.values@)),
    {
        let mut r: Vec<String> = Vec::new();
        let mut i: usize = 0;
        let ghost all = definitions(value_models(self.values@));
        assert(texts(r@) =~= all.take(0));
        while i < self.values.len()
            invariant
                i <= self.values@.len(),
                all == definitions(value_models(self.values@)),
                texts(r@) == all.take(i as int),
            decreases self.values.len() - i,
        {
            let ghost before = texts(r@);
            r.push(self.values[i].text());
            assert(texts(r@) =~= before.push(all[i as int]));
            i += 1;
            assert(texts(r@) =~= all.take(i as int));
        }
        assert(all.take(i as int) =~= all);
        r
    }
}

/// The request for a new SmartModule project.
#[derive(Debug)]
pub struct GenerateCmd {
    /// The name of the project.
    pub name: Option<String>,
    /// The group that the project belongs to.
    pub project_group: Option<String>,
    /// Where the project is made, the current directory where it is not given.
    pub destination: Option<String>,
    /// Ask nothing.
    pub silent: bool,
    /// The repository of a template; a branch or a tag of it.
    pub template_repo: Option<String>,
    pub template_repo_branch: Option<String>,
    pub template_repo_tag: Option<String>,
    /// The directory of a template.
    pub template_path: Option<String>,
    /// The repository of the SmartModule library; a branch, a tag or a revision of it.
    pub sm_crate_repo: Option<String>,
    pub sm_repo_branch: Option<String>,
    pub sm_repo_tag: Option<String>,
    pub sm_repo_rev: Option<String>,
    /// The directory of the SmartModule library.
    pub sm_crate_path: Option<String>,
    /// The published version of the SmartModule library.
    pub sm_crate_version: Option<String>,
    /// What the SmartModule does with its input.
    pub sm_type: Option<SmartModuleType>,
    /// Whether the SmartModule is public.
    pub sm_public: Option<bool>,
    /// Whether the SmartModule takes parameters.
    pub with_params: bool,
    pub no_params: bool,
    /// The address of the hub.
    pub hub_remote: Option<String>,
    /// Take the SmartModule library from its repository.
    pub develop: bool,
}

/// Where the SmartModule library comes from, as far as the request says.
#[derive(Debug)]
pub enum DependencyChoice {
    Known(CargoSmDependSource),
    /// The latest published version, which is still to be found out.
    FetchLatest,
}

/// Where the repository of the SmartModule library holds the template.
pub const LIBRARY_TEMPLATE_DIR: &'static str = "smartmodule/cargo_template";

/// Where the template comes from.
#[derive(Debug)]
pub enum TemplateChoice {
    /// The template that comes with the tool.
    BuiltIn,
    /// A directory.
    LocalDir(String),
    /// A repository, and the branch or tag of it where one is given.
    Repository { url: String, reference: Option<String> },
    /// The repository of the SmartModule library, in the directory [`LIBRARY_TEMPLATE_DIR`].
    LibraryRepository,
}

impl GenerateCmd {
    /// The source that the request names: a version, a repository, a directory, or for development
    /// the repository of the library, in this order.
    pub open spec fn named_source(self) -> Option<SourceModel> {
        if let Some(version) = self.sm_crate_version {
            Some(SourceModel::CratesIo(version@))
        } else if let Some(repo) = self.sm_crate_repo {
            if let Some(branch) = self.sm_repo_branch {
                Some(SourceModel::GitBranch(repo@, branch@))
            } else if let Some(tag) = self.sm_repo_tag {
                Some(SourceModel::GitTag(repo@, tag@))
            } else if let Some(rev) = self.sm_repo_rev {
                Some(SourceModel::GitRev(repo@, rev@))
            } else {
                Some(SourceModel::Git(repo@))
            }
        } else if let Some(path) = self.sm_crate_path {
            Some(SourceModel::Path(path@))
        } else if self.develop {
            Some(SourceModel::Git(FLUVIO_SMARTMODULE_REPO@))
        } else {
            None
        }
    }

    /// Decides where the SmartModule library comes from. Where the request names no source, the
    /// latest published version is to be found out.
    pub fn dependency_source(&self) -> (r: DependencyChoice)
        ensures
            (match r {
                DependencyChoice::Known(source) => self.named_source() == Some(source@),
                DependencyChoice::FetchLatest => self.named_source() is None,
            }),
    {
        if let Some(version) = &self.sm_crate_version {
            DependencyChoice::Known(CargoSmDependSource::CratesIo(version.clone()))
        } else if let Some(repo) = &self.sm_crate_repo {
            let url = repo.clone();
            if let Some(branch) = &self.sm_repo_branch {
                DependencyChoice::Known(
                    CargoSmDependSource::GitBranch { url, branch: branch.clone() },
                )
            } else if let Some(tag) = &self.sm_repo_tag {
                DependencyChoice::Known(CargoSmDependSource::GitTag { url, tag: tag.clone() })
            } else if let Some(rev) = &self.sm_repo_rev {
                DependencyChoice::Known(CargoSmDependSource::GitRev { url, rev: rev.clone() })
            } else {
                DependencyChoice::Known(CargoSmDependSource::Git(url))
            }
        } else if let Some(path) = &self.sm_crate_path {
            DependencyChoice::Known(CargoSmDependSource::Path(path.clone()))
        } else if self.develop {
            DependencyChoice::Known(CargoSmDependSource::Git(FLUVIO_SMARTMODULE_REPO.to_owned()))
        } else {
            DependencyChoice::FetchLatest
        }
    }

    /// The branch of the repository of the template, or its tag where no branch is given.
    pub open spec fn template_reference(self) -> Option<Seq<char>> {
        if self.template_repo_branch is Some {
            opt_text(self.template_repo_branch)
        } else {
            opt_text(self.template_repo_tag)
        }
    }

    /// Decides where the template comes from: the repository that is given, else the directory that
    /// is given, else for development the repository of the library, else the tool.
    pub fn template_source(&self) -> (r: TemplateChoice)
        ensures
            (match r {
                TemplateChoice::Repository { url, reference } => {
                    &&& opt_text(self.template_repo) == Some(url@)
                    &&& opt_text(reference) == self.template_reference()
                },
                TemplateChoice::LocalDir(path) => self.template_repo is None && opt_text(
                    self.template_path,
                ) == Some(path@),
                TemplateChoice::LibraryRepository => self.template_repo is None
                    && self.template_path is None && self.develop,
                TemplateChoice::BuiltIn => self.template_repo is None && self.template_path is None
                    && !self.develop,
            }),
    {
        if let Some(url) = &self.template_repo {
            let reference = match &self.template_repo_branch {
                Some(branch) => Some(branch.clone()),
                None => copy_opt_text(&self.template_repo_tag),
            };
            TemplateChoice::Repository { url: url.clone(), reference }
        } else if let Some(path) = &self.template_path {
            TemplateChoice::LocalDir(path.clone())
        } else if self.develop {
            TemplateChoice::LibraryRepository
        } else {
            TemplateChoice::BuiltIn
        }
    }

    /// Whether the SmartModule takes parameters, where exactly one of the two flags is set.
    pub open spec fn params(self) -> Option<bool> {
        if self.with_params && !self.no_params {
            Some(true)
        } else if !self.with_params && self.no_params {
            Some(false)
        } else {
            None
        }
    }

    /// The group, unless it is empty.
    pub open spec fn group(self) -> Option<Seq<char>> {
        match self.project_group {
            Some(g) => if g@.len() == 0 {
                None
            } else {
                Some(g@)
            },
            None => None,
        }
    }

    /// The values that the request gives to the template.
    pub open spec fn chosen_values(self, source: SourceModel) -> Seq<ValueModel> {
        let none = Seq::<ValueModel>::empty();
        let first = match self.group() {
            Some(g) => none.push(ValueModel::ProjectGroup(g)),
            None => none,
        };
        let second = match self.sm_type {
            Some(t) => first.push(ValueModel::SmType(t)),
            None => first,
        };
        let third = match self.params() {
            Some(b) => second.push(ValueModel::UseParams(b)),
            None => second,
        };
        let fourth = third.push(ValueModel::SmCargoDependency(source));
        match self.sm_public {
            Some(b) => fourth.push(ValueModel::SmPublic(b)),
            None => fourth,
        }
    }

    fn user_values(&self, source: CargoSmDependSource) -> (values: SmdkTemplateUserValues)
        ensures
            value_models(values.values@) == self.chosen_values(source@),
    {
        let group = match &self.project_group {
            Some(g) => if g.as_str().is_empty() {
                None
            } else {
                Some(g.clone())
            },
            None => None,
        };
        let params = if self.with_params && !self.no_params {
            Some(true)
        } else if !self.with_params && self.no_params {
            Some(false)
        } else {
            None
        };
        let mut values = SmdkTemplateUserValues::new();
        values.with_project_group(group).with_smart_module_type(
            self.sm_type,
        ).with_smart_module_params(params).with_smart_module_cargo_dependency(
            Some(source),
        ).with_smart_module_public(self.sm_public);
        assert(value_models(values.values@) =~= self.chosen_values(source@));
        values
    }

    /// What is wrong where nothing may be asked and a value is missing that is asked for: the name of
    /// the project, its type, whether it takes parameters, or whether it is public.
    pub open spec fn missing_value(self) -> Option<Seq<char>> {
        if self.name is None {
            Some(NAME_MISSING@)
        } else if self.sm_type is None {
            Some(TYPE_MISSING@)
        } else if self.params() is None {
            Some(PARAMS_MISSING@)
        } else if self.sm_public is None {
            Some(VISIBILITY_MISSING@)
        } else {
            None
        }
    }

    fn find_missing_value(&self) -> (r: Option<&'static str>)
        ensures
            (match r {
                Some(e) => self.missing_value() == Some(e@),
                None => self.missing_value() is None,
            }),
    {
        if self.name.is_none() {
            Some(NAME_MISSING)
        } else if self.sm_type.is_none() {
            Some(TYPE_MISSING)
        } else if self.with_params == self.no_params {
            Some(PARAMS_MISSING)
        } else if self.sm_public.is_none() {
            Some(VISIBILITY_MISSING)
        } else {
            None
        }
    }

    /// The configuration for the generation of the project, with its library from `source`. Where
    /// nothing may be asked, all values that are asked for must be given.
    pub fn config(&self, source: CargoSmDependSource) -> (r: Result<GenerateConfig, String>)
        ensures
            r is Err <==> self.silent && self.missing_value() is Some,
            r matches Err(e) ==> self.missing_value() == Some(e@),
            r matches Ok(config) ==> {
                &&& config.name@ == (match self.name {
                    Some(n) => n@,
                    None => "my-smartmodule"@,
                })
                &&& opt_text(config.destination) == opt_text(self.destination)
                &&& texts(config.define@) == definitions(self.chosen_values(source@))
                &&& config.silent == self.silent
                &&& config.verbose == !self.silent
            },
    {
        if self.silent {
            if let Some(e) = self.find_missing_value() {
                return Err(e.to_owned());
            }
        }
        let name = match &self.name {
            Some(n) => n.clone(),
            None => "my-smartmodule".to_owned(),
        };
        let values = self.user_values(source);
        Ok(
            GenerateConfig {
                name,
                destination: copy_opt_text(&self.destination),
                define: values.to_cargo_generate(),
                silent: self.silent,
                verbose: !self.silent,
            },
        )
    }
}

/// The values that were chosen become one definition each, in the order in which they were chosen.
pub proof fn law_values_become_definitions_one_by_one(values: Seq<SmdkTemplateValue>)
    ensures
        definitions(value_models(values)).len() == values.len(),
        forall|i: int|
            0 <= i < values.len() ==> #[trigger] definitions(value_models(values))[i]
                == values[i]@.definition(),
{
}

} // verus!
