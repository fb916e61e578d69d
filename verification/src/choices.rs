//! What the template of a new project gets to see of what the user chose.
use vstd::prelude::*;

use crate::cdk;
use crate::cdk::{with_value, ConnectorType};
use crate::generate::project::{NAME_MISSING, TYPE_MISSING, VISIBILITY_MISSING};
use crate::generate::variables::{
    defined, lemma_defined_push, lemma_project_map, project_variables, underscored,
};
use crate::smdk;
use crate::smdk::{
    definitions, SmartModuleType, SourceModel, ValueModel, PARAMS_MISSING,
};
use crate::string_map::map_of;
use crate::text::opt_text;

verus! {

/// The name of a variable in both spellings is set to a value, or to nothing.
pub open spec fn is_set_to(
    vars: Map<Seq<char>, Seq<char>>,
    hyphened: Seq<char>,
    plain: Seq<char>,
    value: Option<Seq<char>>,
) -> bool {
    match value {
        Some(v) => vars.contains_key(hyphened) && vars[hyphened] == v && vars.contains_key(plain)
            && vars[plain] == v,
        None => !vars.contains_key(hyphened) && !vars.contains_key(plain),
    }
}

/// A map with a value under both spellings of a name, where there is a value.
spec fn with_setting(
    vars: Map<Seq<char>, Seq<char>>,
    hyphened: Seq<char>,
    plain: Seq<char>,
    value: Option<Seq<char>>,
) -> Map<Seq<char>, Seq<char>> {
    match value {
        Some(v) => vars.insert(hyphened, v).insert(plain, v),
        None => vars,
    }
}

/// A definition with an equals sign behind its name sets both spellings of the name.
proof fn lemma_with_value(
    list: Seq<Seq<char>>,
    prefix: Seq<char>,
    hyphened: Seq<char>,
    plain: Seq<char>,
    value: Option<Seq<char>>,
)
    requires
        prefix == hyphened + seq!['='],
        !hyphened.contains('='),
        plain == underscored(hyphened),
    ensures
        map_of(defined(with_value(list, prefix, value))) == with_setting(
            map_of(defined(list)),
            hyphened,
            plain,
            value,
        ),
{
    if let Some(v) = value {
        lemma_defined_push(list, hyphened, v);
    }
}

proof fn lemma_nothing_defined()
    ensures
        map_of(defined(Seq::empty())) == Map::<Seq<char>, Seq<char>>::empty(),
{
    assert(map_of(defined(Seq::empty())) =~= Map::<Seq<char>, Seq<char>>::empty());
}

/// The names of the variables of a connector's template.
proof fn lemma_connector_names()
    ensures
        "fluvio-cargo-dependency-hash="@ == "fluvio-cargo-dependency-hash"@ + seq!['='],
        "project-group="@ == "project-group"@ + seq!['='],
        "project-description="@ == "project-description"@ + seq!['='],
        "connector-type="@ == "connector-type"@ + seq!['='],
        "connector-public="@ == "connector-public"@ + seq!['='],
        "fluvio_cargo_dependency_hash"@ == underscored("fluvio-cargo-dependency-hash"@),
        "project_group"@ == underscored("project-group"@),
        "project_description"@ == underscored("project-description"@),
        "connector_type"@ == underscored("connector-type"@),
        "connector_public"@ == underscored("connector-public"@),
        !"fluvio-cargo-dependency-hash"@.contains('='),
        !"project-group"@.contains('='),
        !"project-description"@.contains('='),
        !"connector-type"@.contains('='),
        !"connector-public"@.contains('='),
        "fluvio-cargo-dependency-hash"@.len() == 28,
        "project-group"@.len() == 13,
        "project-description"@.len() == 19,
        "connector-type"@.len() == 14,
        "connector-public"@.len() == 16,
        "fluvio_cargo_dependency_hash"@.len() == 28,
        "project_group"@.len() == 13,
        "project_description"@.len() == 19,
        "connector_type"@.len() == 14,
        "connector_public"@.len() == 16,
{
    reveal_strlit("fluvio-cargo-dependency-hash");
    reveal_strlit("fluvio-cargo-dependency-hash=");
    reveal_strlit("fluvio_cargo_dependency_hash");
    reveal_strlit("project-group");
    reveal_strlit("project-group=");
    reveal_strlit("project_group");
    reveal_strlit("project-description");
    reveal_strlit("project-description=");
    reveal_strlit("project_description");
    reveal_strlit("connector-type");
    reveal_strlit("connector-type=");
    reveal_strlit("connector_type");
    reveal_strlit("connector-public");
    reveal_strlit("connector-public=");
    reveal_strlit("connector_public");
    assert("fluvio-cargo-dependency-hash="@ =~= "fluvio-cargo-dependency-hash"@ + seq!['=']);
    assert("project-group="@ =~= "project-group"@ + seq!['=']);
    assert("project-description="@ =~= "project-description"@ + seq!['=']);
    assert("connector-type="@ =~= "connector-type"@ + seq!['=']);
    assert("connector-public="@ =~= "connector-public"@ + seq!['=']);
    assert("fluvio_cargo_dependency_hash"@ =~= underscored("fluvio-cargo-dependency-hash"@));
    assert("project_group"@ =~= underscored("project-group"@));
    assert("project_description"@ =~= underscored("project-description"@));
    assert("connector_type"@ =~= underscored("connector-type"@));
    assert("connector_public"@ =~= underscored("connector-public"@));
}

/// The names that are set for every project have other lengths than those above.
proof fn lemma_project_names()
    ensures
        "project-name"@.len() == 12,
        "project_name"@.len() == 12,
        "crate-name"@.len() == 10,
        "crate_name"@.len() == 10,
{
    reveal_strlit("project-name");
    reveal_strlit("project_name");
    reveal_strlit("crate-name");
    reveal_strlit("crate_name");
}

/// The template of a new connector gets the revision that it depends on and the name of the project,
/// the group, the description, the direction and the visibility that were chosen, each under its
/// name, and nothing for what was not chosen. The name is the one given, or `my-connector`.
pub proof fn law_connector_template_gets_what_was_chosen(
    cmd: cdk::GenerateCmd,
    git_hash: Seq<char>,
)
    ensures
        ({
            let vars = map_of(project_variables(cmd.project_name(), cmd.definitions(git_hash)));
            let name = match cmd.name {
                Some(n) => n@,
                None => "my-connector"@,
            };
            &&& vars["project-name"@] == name && vars["project_name"@] == name
            &&& is_set_to(
                vars,
                "fluvio-cargo-dependency-hash"@,
                "fluvio_cargo_dependency_hash"@,
                Some(git_hash),
            )
            &&& is_set_to(vars, "project-group"@, "project_group"@, opt_text(cmd.group))
            &&& is_set_to(
                vars,
                "project-description"@,
                "project_description"@,
                opt_text(cmd.conn_description),
            )
            &&& is_set_to(
                vars,
                "connector-type"@,
                "connector_type"@,
                match cmd.conn_type {
                    Some(ConnectorType::Sink) => Some("sink"@),
                    Some(ConnectorType::Source) => Some("source"@),
                    None => None,
                },
            )
            &&& is_set_to(
                vars,
                "connector-public"@,
                "connector_public"@,
                match cmd.conn_public {
                    Some(true) => Some("true"@),
                    Some(false) => Some("false"@),
                    None => None,
                },
            )
        }),
{
    lemma_connector_names();
    lemma_project_names();
    lemma_nothing_defined();
    reveal_strlit("project-name");
    reveal_strlit("project_name");
    assert("project-name"@[7] == '-' && "project_name"@[7] == '_');
    let none = Seq::<Seq<char>>::empty();
    let first = with_value(none, "fluvio-cargo-dependency-hash="@, Some(git_hash));
    let second = with_value(first, "project-group="@, opt_text(cmd.group));
    let third = with_value(second, "project-description="@, opt_text(cmd.conn_description));
    let direction = match cmd.conn_type {
        Some(t) => Some(t.name()),
        None => None,
    };
    let public = match cmd.conn_public {
        Some(b) => Some(cdk::bool_name(b)),
        None => None,
    };
    let fourth = with_value(third, "connector-type="@, direction);
    lemma_with_value(
        none,
        "fluvio-cargo-dependency-hash="@,
        "fluvio-cargo-dependency-hash"@,
        "fluvio_cargo_dependency_hash"@,
        Some(git_hash),
    );
    lemma_with_value(
        first,
        "project-group="@,
        "project-group"@,
        "project_group"@,
        opt_text(cmd.group),
    );
    lemma_with_value(
        second,
        "project-description="@,
        "project-description"@,
        "project_description"@,
        opt_text(cmd.conn_description),
    );
    lemma_with_value(third, "connector-type="@, "connector-type"@, "connector_type"@, direction);
    lemma_with_value(
        fourth,
        "connector-public="@,
        "connector-public"@,
        "connector_public"@,
        public,
    );
    let list = with_value(fourth, "connector-public="@, public);
    assert(cmd.definitions(git_hash) == list);
    lemma_project_map(cmd.project_name(), list);
}

/// Where nothing may be asked, a connector project is refused exactly where its name, its direction or
/// its visibility is missing; what is said names the first of these that is.
pub proof fn law_connector_needs_its_values(cmd: cdk::GenerateCmd)
    ensures
        cmd.missing_value() is None <==> cmd.name is Some && cmd.conn_type is Some
            && cmd.conn_public is Some,
        cmd.name is None ==> cmd.missing_value() == Some(NAME_MISSING@),
        cmd.name is Some && cmd.conn_type is None ==> cmd.missing_value() == Some(TYPE_MISSING@),
        cmd.name is Some && cmd.conn_type is Some && cmd.conn_public is None ==> cmd.missing_value()
            == Some(VISIBILITY_MISSING@),
{
}

/// Where nothing may be asked, a SmartModule project is refused exactly where its name, its kind,
/// whether it takes parameters or its visibility is missing; what is said names the first of these
/// that is. Whether it takes parameters is known where exactly one of the two flags is set.
pub proof fn law_smartmodule_needs_its_values(cmd: smdk::GenerateCmd)
    ensures
        cmd.missing_value() is None <==> cmd.name is Some && cmd.sm_type is Some && cmd.with_params
            != cmd.no_params && cmd.sm_public is Some,
        cmd.name is None ==> cmd.missing_value() == Some(NAME_MISSING@),
        cmd.name is Some && cmd.sm_type is None ==> cmd.missing_value() == Some(TYPE_MISSING@),
        cmd.name is Some && cmd.sm_type is Some && cmd.with_params == cmd.no_params
            ==> cmd.missing_value() == Some(PARAMS_MISSING@),
        cmd.name is Some && cmd.sm_type is Some && cmd.with_params != cmd.no_params && cmd.sm_public
            is None ==> cmd.missing_value() == Some(VISIBILITY_MISSING@),
{
}

/// A published version is a text in quotes; a repository is a table with its address and, where one is
/// chosen, its branch, tag or revision; a directory is a table with its path.
pub proof fn law_dependency_names_its_source(source: SourceModel)
    ensures
        source.dependency() == (match source {
            SourceModel::CratesIo(v) => "\""@ + v + "\""@,
            SourceModel::Git(url) => "{ git = \""@ + url + "\" }"@,
            SourceModel::GitBranch(url, b) => "{ git = \""@ + url + "\", branch = \""@ + b + "\" }"@,
            SourceModel::GitTag(url, t) => "{ git = \""@ + url + "\", tag = \""@ + t + "\" }"@,
            SourceModel::GitRev(url, r) => "{ git = \""@ + url + "\", rev = \""@ + r + "\" }"@,
            SourceModel::Path(p) => "{ path = \""@ + p + "\" }"@,
        }),
{
    reveal_strlit("\", ");
    reveal_strlit(" = \"");
    reveal_strlit("branch");
    reveal_strlit("tag");
    reveal_strlit("rev");
    reveal_strlit("\", branch = \"");
    reveal_strlit("\", tag = \"");
    reveal_strlit("\", rev = \"");
    assert("\", branch = \""@ =~= "\", "@ + "branch"@ + " = \""@);
    assert("\", tag = \""@ =~= "\", "@ + "tag"@ + " = \""@);
    assert("\", rev = \""@ =~= "\", "@ + "rev"@ + " = \""@);
    match source {
        SourceModel::GitBranch(url, b) => {
            assert(source.dependency() =~= "{ git = \""@ + url + "\", branch = \""@ + b + "\" }"@);
        },
        SourceModel::GitTag(url, t) => {
            assert(source.dependency() =~= "{ git = \""@ + url + "\", tag = \""@ + t + "\" }"@);
        },
        SourceModel::GitRev(url, r) => {
            assert(source.dependency() =~= "{ git = \""@ + url + "\", rev = \""@ + r + "\" }"@);
        },
        _ => {},
    }
}

/// The library of a SmartModule comes from the version, the repository or the directory that is given,
/// in this order; else, for development, from the repository of the library. Of a repository the
/// branch, the tag or the revision that is given is taken, in this order.
pub proof fn law_library_comes_from_where_it_was_chosen(cmd: smdk::GenerateCmd)
    ensures
        cmd.sm_crate_version matches Some(v) ==> cmd.named_source() == Some(
            SourceModel::CratesIo(v@),
        ),
        cmd.sm_crate_version is None ==> {
            &&& cmd.sm_crate_repo matches Some(url) ==> {
                &&& cmd.sm_repo_branch matches Some(b) ==> cmd.named_source() == Some(
                    SourceModel::GitBranch(url@, b@),
                )
                &&& cmd.sm_repo_branch is None && cmd.sm_repo_tag is Some ==> cmd.named_source()
                    == Some(SourceModel::GitTag(url@, cmd.sm_repo_tag->0@))
                &&& cmd.sm_repo_branch is None && cmd.sm_repo_tag is None && cmd.sm_repo_rev is Some
                    ==> cmd.named_source() == Some(SourceModel::GitRev(url@, cmd.sm_repo_rev->0@))
                &&& cmd.sm_repo_branch is None && cmd.sm_repo_tag is None && cmd.sm_repo_rev is None
                    ==> cmd.named_source() == Some(SourceModel::Git(url@))
            }
            &&& cmd.sm_crate_repo is None && cmd.sm_crate_path is Some ==> cmd.named_source() == Some(
                SourceModel::Path(cmd.sm_crate_path->0@),
            )
            &&& cmd.sm_crate_repo is None && cmd.sm_crate_path is None && cmd.develop
                ==> cmd.named_source() == Some(
                SourceModel::Git("https://github.com/fluvio-community/fluvio.git"@),
            )
            &&& cmd.sm_crate_repo is None && cmd.sm_crate_path is None && !cmd.develop
                ==> cmd.named_source() is None
        },
        cmd.template_repo_branch matches Some(b) ==> cmd.template_reference() == Some(b@),
        cmd.template_repo_branch is None ==> cmd.template_reference() == opt_text(
            cmd.template_repo_tag,
        ),
{
}

/// The definitions with one more, where there is a value for it.
spec fn with_choice(list: Seq<ValueModel>, value: Option<ValueModel>) -> Seq<ValueModel> {
    match value {
        Some(v) => list.push(v),
        None => list,
    }
}

proof fn lemma_with_choice(
    list: Seq<ValueModel>,
    value: Option<ValueModel>,
    hyphened: Seq<char>,
    plain: Seq<char>,
    setting: Option<Seq<char>>,
)
    requires
        !hyphened.contains('='),
        plain == underscored(hyphened),
        value is Some <==> setting is Some,
        value matches Some(v) ==> v.definition() == hyphened + seq!['='] + setting->0,
    ensures
        map_of(defined(definitions(with_choice(list, value)))) == with_setting(
            map_of(defined(definitions(list))),
            hyphened,
            plain,
            setting,
        ),
{
    if let Some(v) = value {
        assert(definitions(list.push(v)) =~= definitions(list).push(v.definition()));
        lemma_defined_push(definitions(list), hyphened, setting->0);
    }
}

/// The names of the variables of a SmartModule's template.
proof fn lemma_smartmodule_names()
    ensures
        "project-group="@ == "project-group"@ + seq!['='],
        "smartmodule-type="@ == "smartmodule-type"@ + seq!['='],
        "smartmodule-params="@ == "smartmodule-params"@ + seq!['='],
        "smartmodule-public="@ == "smartmodule-public"@ + seq!['='],
        "fluvio-smartmodule-cargo-dependency="@ == "fluvio-smartmodule-cargo-dependency"@ + seq!['='],
        "project_group"@ == underscored("project-group"@),
        "smartmodule_type"@ == underscored("smartmodule-type"@),
        "smartmodule_params"@ == underscored("smartmodule-params"@),
        "smartmodule_public"@ == underscored("smartmodule-public"@),
        "fluvio_smartmodule_cargo_dependency"@ == underscored("fluvio-smartmodule-cargo-dependency"@),
        !"project-group"@.contains('='),
        !"smartmodule-type"@.contains('='),
        !"smartmodule-params"@.contains('='),
        !"smartmodule-public"@.contains('='),
        !"fluvio-smartmodule-cargo-dependency"@.contains('='),
        "project-group"@.len() == 13,
        "smartmodule-type"@.len() == 16,
        "smartmodule-params"@.len() == 18,
        "smartmodule-public"@.len() == 18,
        "fluvio-smartmodule-cargo-dependency"@.len() == 35,
        "project_group"@.len() == 13,
        "smartmodule_type"@.len() == 16,
        "smartmodule_params"@.len() == 18,
        "smartmodule_public"@.len() == 18,
        "fluvio_smartmodule_cargo_dependency"@.len() == 35,
        "smartmodule-params"@[13] == 'a' && "smartmodule_params"@[13] == 'a',
        "smartmodule-public"@[13] == 'u' && "smartmodule_public"@[13] == 'u',
{
    reveal_strlit("project-group");
    reveal_strlit("project-group=");
    reveal_strlit("project_group");
    reveal_strlit("smartmodule-type");
    reveal_strlit("smartmodule-type=");
    reveal_strlit("smartmodule_type");
    reveal_strlit("smartmodule-params");
    reveal_strlit("smartmodule-params=");
    reveal_strlit("smartmodule_params");
    reveal_strlit("smartmodule-public");
    reveal_strlit("smartmodule-public=");
    reveal_strlit("smartmodule_public");
    reveal_strlit("fluvio-smartmodule-cargo-dependency");
    reveal_strlit("fluvio-smartmodule-cargo-dependency=");
    reveal_strlit("fluvio_smartmodule_cargo_dependency");
    assert("project-group="@ =~= "project-group"@ + seq!['=']);
    assert("smartmodule-type="@ =~= "smartmodule-type"@ + seq!['=']);
    assert("smartmodule-params="@ =~= "smartmodule-params"@ + seq!['=']);
    assert("smartmodule-public="@ =~= "smartmodule-public"@ + seq!['=']);
    assert("fluvio-smartmodule-cargo-dependency="@ =~= "fluvio-smartmodule-cargo-dependency"@ + seq![
        '=',
    ]);
    assert("project_group"@ =~= underscored("project-group"@));
    assert("smartmodule_type"@ =~= underscored("smartmodule-type"@));
    assert("smartmodule_params"@ =~= underscored("smartmodule-params"@));
    assert("smartmodule_public"@ =~= underscored("smartmodule-public"@));
    assert("fluvio_smartmodule_cargo_dependency"@ =~= underscored(
        "fluvio-smartmodule-cargo-dependency"@,
    ));
}

/// The template of a new SmartModule gets its library and the name of the project, the group, the kind,
/// whether it takes parameters and the visibility that were chosen, each under its name, and nothing
/// for what was not chosen. An empty group is none.
#[verifier::rlimit(100)]
pub proof fn law_smartmodule_template_gets_what_was_chosen(
    cmd: smdk::GenerateCmd,
    source: SourceModel,
    name: Seq<char>,
)
    ensures
        ({
            let vars = map_of(project_variables(name, definitions(cmd.chosen_values(source))));
            &&& vars["project-name"@] == name && vars["project_name"@] == name
            &&& is_set_to(
                vars,
                "project-group"@,
                "project_group"@,
                if cmd.project_group is Some && cmd.project_group->0@.len() > 0 {
                    Some(cmd.project_group->0@)
                } else {
                    None
                },
            )
            &&& is_set_to(
                vars,
                "smartmodule-type"@,
                "smartmodule_type"@,
                match cmd.sm_type {
                    Some(SmartModuleType::Filter) => Some("filter"@),
                    Some(SmartModuleType::Mapper) => Some("map"@),
                    Some(SmartModuleType::ArrayMap) => Some("array-map"@),
                    Some(SmartModuleType::Aggregate) => Some("aggregate"@),
                    Some(SmartModuleType::FilterMap) => Some("filter-map"@),
                    None => None,
                },
            )
            &&& is_set_to(
                vars,
                "smartmodule-params"@,
                "smartmodule_params"@,
                if cmd.with_params == cmd.no_params {
                    None
                } else if cmd.with_params {
                    Some("true"@)
                } else {
                    Some("false"@)
                },
            )
            &&& is_set_to(
                vars,
                "smartmodule-public"@,
                "smartmodule_public"@,
                match cmd.sm_public {
                    Some(true) => Some("true"@),
                    Some(false) => Some("false"@),
                    None => None,
                },
            )
            &&& is_set_to(
                vars,
                "fluvio-smartmodule-cargo-dependency"@,
                "fluvio_smartmodule_cargo_dependency"@,
                Some(source.dependency()),
            )
        }),
{
    lemma_smartmodule_names();
    lemma_project_names();
    lemma_nothing_defined();
    reveal_strlit("project-name");
    reveal_strlit("project_name");
    assert("project-name"@[7] == '-' && "project_name"@[7] == '_');
    let none = Seq::<ValueModel>::empty();
    assert(definitions(none) =~= Seq::<Seq<char>>::empty());
    let group = match cmd.group() {
        Some(g) => Some(ValueModel::ProjectGroup(g)),
        None => None,
    };
    let kind = match cmd.sm_type {
        Some(t) => Some(ValueModel::SmType(t)),
        None => None,
    };
    let params = match cmd.params() {
        Some(b) => Some(ValueModel::UseParams(b)),
        None => None,
    };
    let library = Some(ValueModel::SmCargoDependency(source));
    let public = match cmd.sm_public {
        Some(b) => Some(ValueModel::SmPublic(b)),
        None => None,
    };
    let first = with_choice(none, group);
    let second = with_choice(first, kind);
    let third = with_choice(second, params);
    let fourth = with_choice(third, library);
    lemma_with_choice(none, group, "project-group"@, "project_group"@, cmd.group());
    lemma_with_choice(
        first,
        kind,
        "smartmodule-type"@,
        "smartmodule_type"@,
        match cmd.sm_type {
            Some(t) => Some(t.name()),
            None => None,
        },
    );
    lemma_with_choice(
        second,
        params,
        "smartmodule-params"@,
        "smartmodule_params"@,
        match cmd.params() {
            Some(b) => Some(cdk::bool_name(b)),
            None => None,
        },
    );
    lemma_with_choice(
        third,
        library,
        "fluvio-smartmodule-cargo-dependency"@,
        "fluvio_smartmodule_cargo_dependency"@,
        Some(source.dependency()),
    );
    lemma_with_choice(
        fourth,
        public,
        "smartmodule-public"@,
        "smartmodule_public"@,
        match cmd.sm_public {
            Some(b) => Some(cdk::bool_name(b)),
            None => None,
        },
    );
    let list = with_choice(fourth, public);
    assert(cmd.chosen_values(source) == list);
    lemma_project_map(name, definitions(list));
}

} // verus!
