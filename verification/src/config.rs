//! The saved settings: the last folders chosen, how many versions to keep
//! and the daily schedule.
use vstd::prelude::*;

verus! {

/// The saved settings of the application.
#[derive(Debug, Clone)]
pub struct AppConfig {
    pub last_source: Option<String>,
    pub last_dest: Option<String>,
    pub max_versions: usize,
    pub schedule_enabled: bool,
    pub schedule_time: Option<String>,
}

impl Default for AppConfig {
    /// No folders, three versions kept, no schedule.
    fn default() -> (r: Self)
        ensures
            r.last_source is None,
            r.last_dest is None,
            r.max_versions == 3,
            !r.schedule_enabled,
            r.schedule_time is None,
    {
        AppConfig {
            last_source: None,
            last_dest: None,
            max_versions: 3,
            schedule_enabled: false,
            schedule_time: None,
        }
    }
}

/// Which folder a saved configuration lacks.
#[derive(Clone, Copy, Debug, PartialEq, Eq, Structural)]
pub enum MissingPath {
    Source,
    Destination,
}

fn copy_opt(o: &Option<String>) -> (r: Option<String>)
    ensures
        r == *o,
{
    match o {
        Some(s) => Some(s.clone()),
        None => None,
    }
}

/// The settings the window saves: its folders, the versions to keep and
/// the schedule, the schedule time always written.
pub open spec fn settings_of(
    source: Option<String>,
    dest: Option<String>,
    max_versions: usize,
    schedule_enabled: bool,
    schedule_time: String,
) -> AppConfig {
    AppConfig {
        last_source: source,
        last_dest: dest,
        max_versions,
        schedule_enabled,
        schedule_time: Some(schedule_time),
    }
}

/// The folders saved in `c` for a backup without the window, or which of
/// them is missing (the source is looked at first).
pub open spec fn saved_folders(c: AppConfig) -> Result<(String, String), MissingPath> {
    match (c.last_source, c.last_dest) {
        (Some(s), Some(d)) => Ok((s, d)),
        (None, _) => Err(MissingPath::Source),
        (Some(_), None) => Err(MissingPath::Destination),
    }
}

impl AppConfig {
    /// A copy of the settings.
    pub fn duplicate(&self) -> (r: Self)
        ensures
            r == *self,
    {
        AppConfig {
            last_source: copy_opt(&self.last_source),
            last_dest: copy_opt(&self.last_dest),
            max_versions: self.max_versions,
            schedule_enabled: self.schedule_enabled,
            schedule_time: copy_opt(&self.schedule_time),
        }
    }

    /// The settings with the schedule switched on or off and set to `time`;
    /// the rest is kept.
    pub fn with_schedule(&self, enabled: bool, time: &str) -> (r: Self)
        ensures
            r.schedule_enabled == enabled,
            r.schedule_time matches Some(t) && t@ == time@,
            r.last_source == self.last_source,
            r.last_dest == self.last_dest,
            r.max_versions == self.max_versions,
    {
        let mut cfg = self.duplicate();
        cfg.schedule_enabled = enabled;
        cfg.schedule_time = Some(time.to_owned());
        cfg
    }

    /// The settings as the window holds them: folders, versions to keep and
    /// schedule, the schedule time always written.
    pub fn with_settings(
        &self,
        source: Option<String>,
        dest: Option<String>,
        max_versions: usize,
        schedule_enabled: bool,
        schedule_time: String,
    ) -> (r: Self)
        ensures
            r == settings_of(source, dest, max_versions, schedule_enabled, schedule_time),
    {
        AppConfig {
            last_source: source,
            last_dest: dest,
            max_versions,
            schedule_enabled,
            schedule_time: Some(schedule_time),
        }
    }

    /// The folders a backup without the window uses: both must be saved;
    /// the source is looked at first.
    pub fn backup_paths(&self) -> (r: Result<(String, String), MissingPath>)
        ensures
            r == saved_folders(*self),
    {
        let source = match &self.last_source {
            Some(p) => p.clone(),
            None => return Err(MissingPath::Source),
        };
        let dest = match &self.last_dest {
            Some(p) => p.clone(),
            None => return Err(MissingPath::Destination),
        };
        Ok((source, dest))
    }
}

/// A backup without the window uses the folders the window saved last:
/// settings saved with a source and a destination give back exactly those
/// two folders, whatever else was saved with them.
pub proof fn lemma_saved_folders_are_used(
    source: String,
    dest: String,
    max_versions: usize,
    schedule_enabled: bool,
    schedule_time: String,
)
    ensures
        saved_folders(settings_of(Some(source), Some(dest), max_versions, schedule_enabled, schedule_time))
            == Ok::<(String, String), MissingPath>((source, dest)),
{
}

} // verus!
