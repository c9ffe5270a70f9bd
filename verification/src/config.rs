//! The settings in memory: organisation, project mappings and field mappings.

use crate::clock::{now, Timestamp};
use crate::error::{ErrorView, TaskMasterError};
use crate::models::config::{ProjectMapping, ProjectMappingView, SubtaskMode, SyncConfig};
use crate::strmap::{lookup, put, StrMap};
use crate::text::{clone_opt, concat2, owned};
use vstd::prelude::*;

verus! {

/// The keeper of the settings, with the place where they are stored.
pub struct ConfigManager {
    config_path: String,
    config: SyncConfig,
}

/// Whether a project mapping can be used: it names a project, by a number
/// above zero.
pub open spec fn usable_mapping(m: ProjectMappingView) -> bool {
    m.project_id.len() > 0 && m.project_number > 0
}

/// The first project mapping that cannot be used, with its tag.
pub open spec fn first_unusable(mappings: Seq<(Seq<char>, ProjectMappingView)>) -> Option<
    (Seq<char>, ProjectMappingView),
>
    decreases mappings.len(),
{
    if mappings.len() == 0 {
        None
    } else if !usable_mapping(mappings[0].1) {
        Some(mappings[0])
    } else {
        first_unusable(mappings.drop_first())
    }
}

/// What is wrong with the settings, if anything: no organisation, or the
/// first mapping that lacks a project id or has no number above zero.
pub open spec fn config_fault(
    organization: Seq<char>,
    mappings: Seq<(Seq<char>, ProjectMappingView)>,
) -> Option<ErrorView> {
    if organization.len() == 0 {
        Some(ErrorView::ConfigError("Organization name is required"@))
    } else {
        match first_unusable(mappings) {
            Some(e) => if e.1.project_id.len() == 0 {
                Some(ErrorView::ConfigError("Project ID is missing for tag: "@ + e.0))
            } else {
                Some(ErrorView::ConfigError("Invalid project number for tag: "@ + e.0))
            },
            None => None,
        }
    }
}

/// The mapping of a tag to a project of which only number and id are known.
pub open spec fn plain_mapping(project_number: i32, project_id: Seq<char>) -> ProjectMappingView {
    ProjectMappingView {
        project_number: project_number,
        project_id: project_id,
        repository: None,
        subtask_mode: SubtaskMode::Nested,
        field_mappings: None,
    }
}

impl ConfigManager {
    /// The place where the settings are stored.
    pub closed spec fn path(&self) -> Seq<char> {
        self.config_path@
    }

    /// The organisation.
    pub closed spec fn org(&self) -> Seq<char> {
        self.config.organization@
    }

    /// The project mappings by tag.
    pub closed spec fn mappings(&self) -> Seq<(Seq<char>, ProjectMappingView)> {
        self.config.project_mappings.pairs()
    }

    /// When each tag was last synchronised.
    pub closed spec fn last_syncs(&self) -> Seq<(Seq<char>, Timestamp)> {
        self.config.last_sync.pairs()
    }

    /// A manager with the default settings, to be stored at `config_path`.
    pub fn new(config_path: &str) -> (m: ConfigManager)
        ensures
            m.path() == config_path@,
            m.org().len() == 0,
            m.mappings().len() == 0,
            m.last_syncs().len() == 0,
    {
        ConfigManager { config_path: owned(config_path), config: SyncConfig::default() }
    }

    /// A manager for the settings of the directory `taskmaster_dir`.
    pub fn for_project(taskmaster_dir: &str) -> (m: ConfigManager)
        ensures
            m.path() == taskmaster_dir@ + "/sync-config.json"@,
            m.org().len() == 0,
            m.mappings().len() == 0,
    {
        let path = concat2(taskmaster_dir, "/sync-config.json");
        ConfigManager::new(path.as_str())
    }

    /// The place where the settings are stored.
    pub fn config_path(&self) -> (p: &str)
        ensures
            p@ == self.path(),
    {
        self.config_path.as_str()
    }

    /// The settings.
    pub fn config(&self) -> (c: &SyncConfig)
        ensures
            c.organization@ == self.org(),
            c.project_mappings.pairs() == self.mappings(),
            c.last_sync.pairs() == self.last_syncs(),
    {
        &self.config
    }

    /// The settings, to be changed.
    pub fn config_mut(&mut self) -> (c: &mut SyncConfig)
        ensures
            c.organization@ == old(self).org(),
            c.project_mappings.pairs() == old(self).mappings(),
            c.last_sync.pairs() == old(self).last_syncs(),
            final(self).path() == old(self).path(),
            final(self).org() == final(c).organization@,
            final(self).mappings() == final(c).project_mappings.pairs(),
            final(self).last_syncs() == final(c).last_sync.pairs(),
    {
        &mut self.config
    }

    /// Replaces the settings.
    pub fn set_config(&mut self, config: SyncConfig)
        ensures
            final(self).path() == old(self).path(),
            final(self).org() == config.organization@,
            final(self).mappings() == config.project_mappings.pairs(),
            final(self).last_syncs() == config.last_sync.pairs(),
    {
        self.config = config;
    }

    /// Checks the settings: an organisation is named, and every project
    /// mapping names a project by id and by a number above zero. Fails for
    /// the first fault, in the order of the mappings.
    #[verifier::loop_isolation(false)]
    pub fn validate(&self) -> (r: Result<(), TaskMasterError>)
        ensures
            match config_fault(self.org(), self.mappings()) {
                Some(e) => r is Err && r->Err_0@ == e,
                None => r is Ok,
            },
    {
        if self.config.organization.as_str().is_empty() {
            return Err(TaskMasterError::ConfigError(owned("Organization name is required")));
        }
        let n = self.config.project_mappings.len();
        let ghost all = self.mappings();
        let mut i: usize = 0;
        assert(all.subrange(0, all.len() as int) =~= all);
        while i < n
            invariant
                i <= n,
                first_unusable(all) == first_unusable(all.subrange(i as int, all.len() as int)),
            decreases n - i,
        {
            let ghost cur = all.subrange(i as int, all.len() as int);
            assert(cur[0] == all[i as int]);
            assert(cur.drop_first() =~= all.subrange(i + 1, all.len() as int));
            let tag = self.config.project_mappings.key_at(i);
            let mapping = self.config.project_mappings.value_at(i);
            if mapping.project_id.as_str().is_empty() {
                return Err(
                    TaskMasterError::ConfigError(
                        concat2("Project ID is missing for tag: ", tag.as_str()),
                    ),
                );
            }
            if mapping.project_number <= 0 {
                return Err(
                    TaskMasterError::ConfigError(
                        concat2("Invalid project number for tag: ", tag.as_str()),
                    ),
                );
            }
            i = i + 1;
        }
        Ok(())
    }

    /// Maps the tag to the project with this number and id, without
    /// repository or field mappings.
    pub fn add_project_mapping(&mut self, tag: &str, project_number: i32, project_id: String)
        ensures
            final(self).mappings() == put(
                old(self).mappings(),
                tag@,
                plain_mapping(project_number, project_id@),
            ),
            final(self).path() == old(self).path(),
            final(self).org() == old(self).org(),
            final(self).last_syncs() == old(self).last_syncs(),
    {
        self.config.project_mappings.insert(
            owned(tag),
            ProjectMapping {
                project_number,
                project_id,
                repository: None,
                subtask_mode: SubtaskMode::default(),
                field_mappings: None,
            },
        );
    }

    /// Maps the tag to a project.
    pub fn set_project_mapping(&mut self, tag: &str, mapping: ProjectMapping)
        ensures
            final(self).mappings() == put(old(self).mappings(), tag@, mapping@),
            final(self).path() == old(self).path(),
            final(self).org() == old(self).org(),
            final(self).last_syncs() == old(self).last_syncs(),
    {
        self.config.project_mappings.insert(owned(tag), mapping);
    }

    /// Notes that the tag was synchronised at the time `at`.
    pub fn update_last_sync_at(&mut self, tag: &str, at: Timestamp)
        ensures
            final(self).last_syncs() == put(old(self).last_syncs(), tag@, at),
            final(self).path() == old(self).path(),
            final(self).org() == old(self).org(),
            final(self).mappings() == old(self).mappings(),
    {
        self.config.last_sync.insert(owned(tag), at);
    }

    /// Notes that the tag was synchronised now.
    pub fn update_last_sync(&mut self, tag: &str)
        ensures
            exists|at: Timestamp| final(self).last_syncs() == put(old(self).last_syncs(), tag@, at),
            final(self).path() == old(self).path(),
            final(self).org() == old(self).org(),
            final(self).mappings() == old(self).mappings(),
    {
        let at = now();
        self.update_last_sync_at(tag, at);
    }

    /// The field mappings of a tag, if it has any.
    pub fn field_mappings(&self, tag: &str) -> (r: Option<&StrMap<String>>)
        ensures
            match lookup(self.mappings(), tag@) {
                Some(m) => match m.field_mappings {
                    Some(f) => r is Some && r->0.pairs() == f,
                    None => r is None,
                },
                None => r is None,
            },
    {
        match self.config.project_mappings.get(tag) {
            Some(m) => match &m.field_mappings {
                Some(f) => Some(f),
                None => None,
            },
            None => None,
        }
    }

    /// Sets the field mappings of a tag that is mapped to a project; leaves
    /// the settings alone where the tag is not.
    pub fn update_field_mappings(&mut self, tag: &str, mappings: StrMap<String>)
        ensures
            final(self).mappings() == match lookup(old(self).mappings(), tag@) {
                Some(m) => put(
                    old(self).mappings(),
                    tag@,
                    ProjectMappingView { field_mappings: Some(mappings.pairs()), ..m },
                ),
                None => old(self).mappings(),
            },
            final(self).path() == old(self).path(),
            final(self).org() == old(self).org(),
            final(self).last_syncs() == old(self).last_syncs(),
    {
        let updated = match self.config.project_mappings.get(tag) {
            Some(m) => Some(
                ProjectMapping {
                    project_number: m.project_number,
                    project_id: m.project_id.clone(),
                    repository: clone_opt(&m.repository),
                    subtask_mode: m.subtask_mode,
                    field_mappings: Some(mappings),
                },
            ),
            None => None,
        };
        match updated {
            Some(u) => {
                self.config.project_mappings.insert(owned(tag), u);
            },
            None => {},
        }
    }

    /// The organisation.
    pub fn organization(&self) -> (r: &str)
        ensures
            r@ == self.org(),
    {
        self.config.organization.as_str()
    }

    /// The project mapping of a tag, if it has one.
    pub fn get_project_mapping(&self, tag: &str) -> (r: Option<&ProjectMapping>)
        ensures
            r.deep_view() == lookup(self.mappings(), tag@),
    {
        self.config.project_mappings.get(tag)
    }

    /// Names the organisation.
    pub fn set_organization(&mut self, org: String)
        ensures
            final(self).org() == org@,
            final(self).path() == old(self).path(),
            final(self).mappings() == old(self).mappings(),
            final(self).last_syncs() == old(self).last_syncs(),
    {
        self.config.organization = org;
    }
}

impl Default for ConfigManager {
    fn default() -> (m: ConfigManager)
        ensures
            m.path() == ".taskmaster/sync-config.json"@,
            m.org().len() == 0,
            m.mappings().len() == 0,
    {
        ConfigManager::new(".taskmaster/sync-config.json")
    }
}

} // verus!
