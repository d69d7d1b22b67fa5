//! User preferences: their defaults, their stored forms, and the overrides of
//! one run.
use crate::text;
use vstd::prelude::*;

verus! {

/// Build profile. It is empty for a plain build, and "Devel" for a development
/// build.
pub const PROFILE: &'static str = "";

/// How often the automatic update timer should fire.
#[derive(Debug, Clone, Copy, PartialEq, Eq, Structural)]
pub enum UpdateInterval {
    Hourly,
    Daily,
    Weekly,
    Custom,
}

impl DeepView for UpdateInterval {
    type V = UpdateInterval;

    open spec fn deep_view(&self) -> UpdateInterval {
        *self
    }
}

/// Position of an interval in the list that is shown.
pub open spec fn interval_index(i: UpdateInterval) -> u32 {
    match i {
        UpdateInterval::Hourly => 0,
        UpdateInterval::Daily => 1,
        UpdateInterval::Weekly => 2,
        UpdateInterval::Custom => 3,
    }
}

/// The interval at a position of the list; behind its end it is `Custom`.
pub open spec fn interval_at(i: u32) -> UpdateInterval {
    if i == 0 {
        UpdateInterval::Hourly
    } else if i == 1 {
        UpdateInterval::Daily
    } else if i == 2 {
        UpdateInterval::Weekly
    } else {
        UpdateInterval::Custom
    }
}

/// The stored name of an interval.
pub open spec fn interval_name(i: UpdateInterval) -> Seq<char> {
    match i {
        UpdateInterval::Hourly => "hourly"@,
        UpdateInterval::Daily => "daily"@,
        UpdateInterval::Weekly => "weekly"@,
        UpdateInterval::Custom => "custom"@,
    }
}

/// The interval of a stored name; an unknown name means `Daily`.
pub open spec fn interval_named(name: Seq<char>) -> UpdateInterval {
    if name == "hourly"@ {
        UpdateInterval::Hourly
    } else if name == "weekly"@ {
        UpdateInterval::Weekly
    } else if name == "custom"@ {
        UpdateInterval::Custom
    } else {
        UpdateInterval::Daily
    }
}

impl UpdateInterval {
    /// Position in the list that is shown.
    pub fn to_index(&self) -> (r: u32)
        ensures
            r == interval_index(*self),
    {
        match self {
            UpdateInterval::Hourly => 0,
            UpdateInterval::Daily => 1,
            UpdateInterval::Weekly => 2,
            UpdateInterval::Custom => 3,
        }
    }

    /// The interval at a position of the list that is shown.
    pub fn from_index(i: u32) -> (r: UpdateInterval)
        ensures
            r == interval_at(i),
    {
        if i == 0 {
            UpdateInterval::Hourly
        } else if i == 1 {
            UpdateInterval::Daily
        } else if i == 2 {
            UpdateInterval::Weekly
        } else {
            UpdateInterval::Custom
        }
    }

    /// The stored name.
    pub fn name(&self) -> (r: &'static str)
        ensures
            r@ == interval_name(*self),
    {
        match self {
            UpdateInterval::Hourly => "hourly",
            UpdateInterval::Daily => "daily",
            UpdateInterval::Weekly => "weekly",
            UpdateInterval::Custom => "custom",
        }
    }

    /// The interval of a stored name.
    pub fn named(name: &str) -> (r: UpdateInterval)
        ensures
            r == interval_named(name@),
    {
        if text::same(name, "hourly") {
            UpdateInterval::Hourly
        } else if text::same(name, "weekly") {
            UpdateInterval::Weekly
        } else if text::same(name, "custom") {
            UpdateInterval::Custom
        } else {
            UpdateInterval::Daily
        }
    }
}

/// Each interval stands at its own position of the list.
pub proof fn law_interval_index_round_trip(i: UpdateInterval)
    ensures
        interval_at(interval_index(i)) == i,
{
}

/// Each interval has a stored name of its own.
pub proof fn law_interval_name_round_trip(i: UpdateInterval)
    ensures
        interval_named(interval_name(i)) == i,
{
    reveal_strlit("hourly");
    reveal_strlit("daily");
    reveal_strlit("weekly");
    reveal_strlit("custom");
    assert("hourly"@[0] == 'h' && "daily"@[0] == 'd' && "weekly"@[0] == 'w' && "custom"@[0] == 'c');
}

/// An image to pretend the system is booted on.
#[derive(Debug, PartialEq)]
pub struct MockBootcIdentity {
    pub registry: String,
    pub org: String,
    pub image: String,
    pub tag: String,
    pub digest: Option<String>,
    /// RFC 3339 time of the boot.
    pub booted_at: Option<String>,
}

/// What such an image is.
#[verifier::ext_equal]
pub struct MockView {
    pub registry: Seq<char>,
    pub org: Seq<char>,
    pub image: Seq<char>,
    pub tag: Seq<char>,
    pub digest: Option<Seq<char>>,
    pub booted_at: Option<Seq<char>>,
}

impl DeepView for MockBootcIdentity {
    type V = MockView;

    open spec fn deep_view(&self) -> MockView {
        MockView {
            registry: self.registry@,
            org: self.org@,
            image: self.image@,
            tag: self.tag@,
            digest: self.digest.deep_view(),
            booted_at: self.booted_at.deep_view(),
        }
    }
}

impl Clone for MockBootcIdentity {
    fn clone(&self) -> (r: Self)
        ensures
            r.deep_view() == self.deep_view(),
    {
        MockBootcIdentity {
            registry: self.registry.clone(),
            org: self.org.clone(),
            image: self.image.clone(),
            tag: self.tag.clone(),
            digest: self.digest.clone(),
            booted_at: self.booted_at.clone(),
        }
    }
}

/// `registry/org/image:tag`.
pub open spec fn full_image_ref(
    registry: Seq<char>,
    org: Seq<char>,
    image: Seq<char>,
    tag: Seq<char>,
) -> Seq<char> {
    registry + "/"@ + org + "/"@ + image + ":"@ + tag
}

impl MockBootcIdentity {
    /// The image as `registry/org/image:tag`.
    pub fn full_ref(&self) -> (r: String)
        ensures
            r@ == full_image_ref(self.registry@, self.org@, self.image@, self.tag@),
    {
        text::cat7(
            self.registry.as_str(),
            "/",
            self.org.as_str(),
            "/",
            self.image.as_str(),
            ":",
            self.tag.as_str(),
        )
    }
}

/// All preferences.
#[derive(Debug)]
pub struct Settings {
    /// Whether updates run automatically.
    pub auto_updates: bool,
    /// How often the timer fires.
    pub update_interval: UpdateInterval,
    /// Whether automatic updates pause on a metered connection.
    pub pause_on_metered: bool,
    /// Interval in hours, where `update_interval` is `Custom`.
    pub custom_interval_hours: u32,
    /// Whether updates are simulated.
    pub dev_mode: bool,
    /// An image to pretend the system is booted on.
    pub mock_identity: Option<MockBootcIdentity>,
    /// Whether destructive commands are withheld.
    pub dry_run: bool,
    /// Whether applications are updated along with the system image.
    pub include_app_updates: bool,
    /// Scenario of the simulated update; read on startup in developer mode.
    pub sim_scenario: Option<String>,
}

/// What preferences are.
#[verifier::ext_equal]
pub struct SettingsView {
    pub auto_updates: bool,
    pub update_interval: UpdateInterval,
    pub pause_on_metered: bool,
    pub custom_interval_hours: u32,
    pub dev_mode: bool,
    pub mock_identity: Option<MockView>,
    pub dry_run: bool,
    pub include_app_updates: bool,
    pub sim_scenario: Option<Seq<char>>,
}

impl DeepView for Settings {
    type V = SettingsView;

    open spec fn deep_view(&self) -> SettingsView {
        SettingsView {
            auto_updates: self.auto_updates,
            update_interval: self.update_interval,
            pause_on_metered: self.pause_on_metered,
            custom_interval_hours: self.custom_interval_hours,
            dev_mode: self.dev_mode,
            mock_identity: self.mock_identity.deep_view(),
            dry_run: self.dry_run,
            include_app_updates: self.include_app_updates,
            sim_scenario: self.sim_scenario.deep_view(),
        }
    }
}

impl Clone for Settings {
    fn clone(&self) -> (r: Self)
        ensures
            r.deep_view() == self.deep_view(),
    {
        Settings {
            auto_updates: self.auto_updates,
            update_interval: self.update_interval,
            pause_on_metered: self.pause_on_metered,
            custom_interval_hours: self.custom_interval_hours,
            dev_mode: self.dev_mode,
            mock_identity: self.mock_identity.clone(),
            dry_run: self.dry_run,
            include_app_updates: self.include_app_updates,
            sim_scenario: self.sim_scenario.clone(),
        }
    }
}

/// The default of a switch that is on unless it is turned off.
pub fn default_true() -> (r: bool)
    ensures
        r,
{
    true
}

/// Whether a profile is one of development, for which destructive commands are
/// withheld by default.
pub open spec fn is_dev_profile(profile: Seq<char>) -> bool {
    profile == "Devel"@ || profile.len() == 0
}

/// The default preferences of a profile.
pub open spec fn default_settings(profile: Seq<char>) -> SettingsView {
    SettingsView {
        auto_updates: true,
        update_interval: UpdateInterval::Daily,
        pause_on_metered: true,
        custom_interval_hours: 6,
        dev_mode: false,
        mock_identity: None,
        dry_run: is_dev_profile(profile),
        include_app_updates: true,
        sim_scenario: None,
    }
}

impl Default for Settings {
    fn default() -> (r: Self)
        ensures
            r.deep_view() == default_settings(PROFILE@),
    {
        Settings::for_profile(PROFILE)
    }
}

/// Overrides of one run, which are never stored. `None` defers to what is
/// stored.
#[derive(Debug)]
pub struct RuntimeOverrides {
    pub dev_mode: Option<bool>,
    pub dry_run: Option<bool>,
    pub sim_scenario: Option<String>,
    pub mock_identity: Option<MockBootcIdentity>,
}

/// What overrides are.
#[verifier::ext_equal]
pub struct OverridesView {
    pub dev_mode: Option<bool>,
    pub dry_run: Option<bool>,
    pub sim_scenario: Option<Seq<char>>,
    pub mock_identity: Option<MockView>,
}

impl DeepView for RuntimeOverrides {
    type V = OverridesView;

    open spec fn deep_view(&self) -> OverridesView {
        OverridesView {
            dev_mode: self.dev_mode,
            dry_run: self.dry_run,
            sim_scenario: self.sim_scenario.deep_view(),
            mock_identity: self.mock_identity.deep_view(),
        }
    }
}

impl Default for RuntimeOverrides {
    fn default() -> (r: Self)
        ensures
            r.deep_view() == (OverridesView {
                dev_mode: None,
                dry_run: None,
                sim_scenario: None,
                mock_identity: None,
            }),
    {
        RuntimeOverrides {
            dev_mode: None,
            dry_run: None,
            sim_scenario: None,
            mock_identity: None,
        }
    }
}

/// The overrides of a process, which are set at most once.
#[derive(Debug)]
pub struct OverrideSlot {
    pub value: Option<RuntimeOverrides>,
}

/// Sets the overrides of a process; a second call changes nothing. The result
/// says whether they were set.
pub fn set_runtime_overrides(slot: &mut OverrideSlot, o: RuntimeOverrides) -> (r: bool)
    ensures
        r == (old(slot).value is None),
        final(slot).value == if old(slot).value is None {
            Some(o)
        } else {
            old(slot).value
        },
{
    if slot.value.is_none() {
        slot.value = Some(o);
        true
    } else {
        false
    }
}

/// The overrides of a process, once they are set.
pub fn overrides(slot: &OverrideSlot) -> (r: Option<&RuntimeOverrides>)
    ensures
        match slot.value {
            Some(o) => r == Some(&o),
            None => r is None,
        },
{
    slot.value.as_ref()
}

/// What stored preferences become under the overrides of a run.
pub open spec fn overridden(s: SettingsView, o: Option<OverridesView>) -> SettingsView {
    match o {
        None => s,
        Some(o) => SettingsView {
            dev_mode: match o.dev_mode {
                Some(v) => v,
                None => s.dev_mode,
            },
            dry_run: match o.dry_run {
                Some(v) => v,
                None => s.dry_run,
            },
            sim_scenario: if o.sim_scenario is Some {
                o.sim_scenario
            } else {
                s.sim_scenario
            },
            mock_identity: if o.mock_identity is Some {
                o.mock_identity
            } else {
                s.mock_identity
            },
            ..s
        },
    }
}

/// Preferences without the overrides of the run: each forced field is as stored.
pub open spec fn without_overrides(
    s: SettingsView,
    kept: SettingsView,
    o: Option<OverridesView>,
) -> SettingsView {
    match o {
        None => s,
        Some(o) => SettingsView {
            dev_mode: if o.dev_mode is Some {
                kept.dev_mode
            } else {
                s.dev_mode
            },
            dry_run: if o.dry_run is Some {
                kept.dry_run
            } else {
                s.dry_run
            },
            sim_scenario: if o.sim_scenario is Some {
                kept.sim_scenario
            } else {
                s.sim_scenario
            },
            mock_identity: if o.mock_identity is Some {
                kept.mock_identity
            } else {
                s.mock_identity
            },
            ..s
        },
    }
}

/// Preferences as the desktop's settings store holds them.
#[derive(Debug)]
pub struct StoredSettings {
    pub auto_updates: bool,
    pub update_interval: String,
    pub pause_on_metered: bool,
    pub custom_interval_hours: u32,
    pub dev_mode: bool,
    /// What the stored text means, if it is not empty and well formed.
    pub mock_identity: Option<MockBootcIdentity>,
    pub dry_run: bool,
    pub include_app_updates: bool,
    /// Empty where none is chosen.
    pub sim_scenario: String,
}

/// What stored preferences are.
#[verifier::ext_equal]
pub struct StoredView {
    pub auto_updates: bool,
    pub update_interval: Seq<char>,
    pub pause_on_metered: bool,
    pub custom_interval_hours: u32,
    pub dev_mode: bool,
    pub mock_identity: Option<MockView>,
    pub dry_run: bool,
    pub include_app_updates: bool,
    pub sim_scenario: Seq<char>,
}

impl DeepView for StoredSettings {
    type V = StoredView;

    open spec fn deep_view(&self) -> StoredView {
        StoredView {
            auto_updates: self.auto_updates,
            update_interval: self.update_interval@,
            pause_on_metered: self.pause_on_metered,
            custom_interval_hours: self.custom_interval_hours,
            dev_mode: self.dev_mode,
            mock_identity: self.mock_identity.deep_view(),
            dry_run: self.dry_run,
            include_app_updates: self.include_app_updates,
            sim_scenario: self.sim_scenario@,
        }
    }
}

/// The preferences that stored values stand for.
pub open spec fn restored(s: StoredView) -> SettingsView {
    SettingsView {
        auto_updates: s.auto_updates,
        update_interval: interval_named(s.update_interval),
        pause_on_metered: s.pause_on_metered,
        custom_interval_hours: s.custom_interval_hours,
        dev_mode: s.dev_mode,
        mock_identity: s.mock_identity,
        dry_run: s.dry_run,
        include_app_updates: s.include_app_updates,
        sim_scenario: if s.sim_scenario.len() == 0 {
            None
        } else {
            Some(s.sim_scenario)
        },
    }
}

/// The values to store for preferences.
pub open spec fn stored(s: SettingsView) -> StoredView {
    StoredView {
        auto_updates: s.auto_updates,
        update_interval: interval_name(s.update_interval),
        pause_on_metered: s.pause_on_metered,
        custom_interval_hours: s.custom_interval_hours,
        dev_mode: s.dev_mode,
        mock_identity: s.mock_identity,
        dry_run: s.dry_run,
        include_app_updates: s.include_app_updates,
        sim_scenario: match s.sim_scenario {
            Some(t) => t,
            None => ""@,
        },
    }
}

/// Preferences survive being stored and read back. (An empty scenario reads
/// back as none.)
pub proof fn law_stored_settings_round_trip(s: SettingsView)
    requires
        s.sim_scenario matches Some(t) ==> t.len() > 0,
    ensures
        restored(stored(s)) == s,
{
    law_interval_name_round_trip(s.update_interval);
    reveal_strlit("");
    assert(restored(stored(s)) =~= s);
}

/// Preferences as a file may hold them; what it leaves out is `None`.
#[derive(Debug)]
pub struct PartialSettings {
    pub auto_updates: Option<bool>,
    pub update_interval: Option<UpdateInterval>,
    pub pause_on_metered: Option<bool>,
    pub custom_interval_hours: Option<u32>,
    pub dev_mode: Option<bool>,
    pub mock_identity: Option<MockBootcIdentity>,
    pub dry_run: Option<bool>,
    pub include_app_updates: Option<bool>,
    pub sim_scenario: Option<String>,
}

/// The preferences that a file stands for. What it leaves out has its default,
/// except that a file that does not speak of `dry_run` means no.
pub open spec fn completed(p: PartialSettings, profile: Seq<char>) -> SettingsView {
    let d = default_settings(profile);
    SettingsView {
        auto_updates: match p.auto_updates {
            Some(v) => v,
            None => d.auto_updates,
        },
        update_interval: match p.update_interval {
            Some(v) => v,
            None => d.update_interval,
        },
        pause_on_metered: match p.pause_on_metered {
            Some(v) => v,
            None => d.pause_on_metered,
        },
        custom_interval_hours: match p.custom_interval_hours {
            Some(v) => v,
            None => d.custom_interval_hours,
        },
        dev_mode: match p.dev_mode {
            Some(v) => v,
            None => d.dev_mode,
        },
        mock_identity: p.mock_identity.deep_view(),
        dry_run: match p.dry_run {
            Some(v) => v,
            None => false,
        },
        include_app_updates: match p.include_app_updates {
            Some(v) => v,
            None => true,
        },
        sim_scenario: p.sim_scenario.deep_view(),
    }
}

/// What reading the settings file gave.
#[derive(Debug)]
pub enum SettingsFile {
    /// There is none, or it cannot be read, or it is malformed.
    Unusable,
    /// It holds this.
    Holds(PartialSettings),
}

/// The preferences before the overrides of a run: from the settings store where
/// its schema is installed, else from the file, else the defaults.
pub open spec fn base_settings(
    store: Option<StoredView>,
    file: SettingsFile,
    profile: Seq<char>,
) -> SettingsView {
    match store {
        Some(s) => restored(s),
        None => match file {
            SettingsFile::Unusable => default_settings(profile),
            SettingsFile::Holds(p) => completed(p, profile),
        },
    }
}

/// What is due before the settings store is read.
#[derive(Debug, Clone, Copy, PartialEq, Eq, Structural)]
pub enum Migration {
    /// Nothing.
    Done,
    /// Remember that the file was looked for.
    MarkOnly,
    /// Store what the file holds, and remember that.
    ImportAndMark,
}

/// What is due before the settings store is read.
pub open spec fn migration_due(migrated: bool, file_exists: bool) -> Migration {
    if migrated {
        Migration::Done
    } else if file_exists {
        Migration::ImportAndMark
    } else {
        Migration::MarkOnly
    }
}

/// The file is imported at most once, and only where it is there; that it was looked for
/// is remembered.
pub proof fn law_file_is_imported_once(file_exists: bool)
    ensures
        migration_due(true, file_exists) == Migration::Done,
        migration_due(false, file_exists) != Migration::Done,
        migration_due(false, file_exists) == Migration::ImportAndMark <==> file_exists,
{
}

/// What is due before the settings store is read: the file is imported once.
pub fn migration(migrated: bool, file_exists: bool) -> (r: Migration)
    ensures
        r == migration_due(migrated, file_exists),
{
    if migrated {
        Migration::Done
    } else if file_exists {
        Migration::ImportAndMark
    } else {
        Migration::MarkOnly
    }
}

/// Where preferences are to be stored.
#[derive(Debug)]
pub enum SaveTarget {
    /// The settings store, as these values.
    Store(StoredSettings),
    /// The settings file.
    File,
}

/// Whether preferences live in the settings store: exactly where its schema is
/// installed.
pub fn using_gsettings(schema_installed: bool) -> (r: bool)
    ensures
        r == schema_installed,
{
    schema_installed
}

impl Settings {
    /// The default preferences of a profile.
    pub fn for_profile(profile: &str) -> (r: Settings)
        ensures
            r.deep_view() == default_settings(profile@),
    {
        Settings {
            auto_updates: true,
            update_interval: UpdateInterval::Daily,
            pause_on_metered: true,
            custom_interval_hours: 6,
            dev_mode: false,
            mock_identity: None,
            dry_run: text::same(profile, "Devel") || profile.is_empty(),
            include_app_updates: default_true(),
            sim_scenario: None,
        }
    }

    /// The preferences that stored values stand for.
    pub fn from_gsettings(s: &StoredSettings) -> (r: Settings)
        ensures
            r.deep_view() == restored(s.deep_view()),
    {
        Settings {
            auto_updates: s.auto_updates,
            update_interval: UpdateInterval::named(s.update_interval.as_str()),
            pause_on_metered: s.pause_on_metered,
            custom_interval_hours: s.custom_interval_hours,
            dev_mode: s.dev_mode,
            mock_identity: s.mock_identity.clone(),
            dry_run: s.dry_run,
            include_app_updates: s.include_app_updates,
            sim_scenario: if s.sim_scenario.as_str().is_empty() {
                None
            } else {
                Some(s.sim_scenario.clone())
            },
        }
    }

    /// The values to store for these preferences.
    pub fn write_gsettings(&self) -> (r: StoredSettings)
        ensures
            r.deep_view() == stored(self.deep_view()),
    {
        StoredSettings {
            auto_updates: self.auto_updates,
            update_interval: self.update_interval.name().to_string(),
            pause_on_metered: self.pause_on_metered,
            custom_interval_hours: self.custom_interval_hours,
            dev_mode: self.dev_mode,
            mock_identity: self.mock_identity.clone(),
            dry_run: self.dry_run,
            include_app_updates: self.include_app_updates,
            sim_scenario: match &self.sim_scenario {
                Some(t) => t.clone(),
                None => "".to_string(),
            },
        }
    }

    /// The preferences that a file stands for.
    pub fn from_partial(p: PartialSettings, profile: &str) -> (r: Settings)
        ensures
            r.deep_view() == completed(p, profile@),
    {
        let d: Settings = Settings::for_profile(profile);
        Settings {
            auto_updates: p.auto_updates.unwrap_or(d.auto_updates),
            update_interval: p.update_interval.unwrap_or(d.update_interval),
            pause_on_metered: p.pause_on_metered.unwrap_or(d.pause_on_metered),
            custom_interval_hours: p.custom_interval_hours.unwrap_or(d.custom_interval_hours),
            dev_mode: p.dev_mode.unwrap_or(d.dev_mode),
            mock_identity: p.mock_identity,
            dry_run: p.dry_run.unwrap_or(false),
            include_app_updates: p.include_app_updates.unwrap_or(true),
            sim_scenario: p.sim_scenario,
        }
    }

    /// The preferences of a run: from the settings store where its schema is
    /// installed, else from the file, else the defaults; then the overrides of
    /// the run.
    pub fn load(
        store: Option<&StoredSettings>,
        file: SettingsFile,
        profile: &str,
        o: Option<&RuntimeOverrides>,
    ) -> (r: Settings)
        ensures
            r.deep_view() == overridden(
                base_settings(
                    match store {
                        Some(s) => Some(s.deep_view()),
                        None => None,
                    },
                    file,
                    profile@,
                ),
                match o {
                    Some(o) => Some(o.deep_view()),
                    None => None,
                },
            ),
    {
        let mut settings: Settings = match store {
            Some(s) => Settings::from_gsettings(s),
            None => match file {
                SettingsFile::Unusable => Settings::for_profile(profile),
                SettingsFile::Holds(p) => Settings::from_partial(p, profile),
            },
        };
        settings.apply_overrides(o);
        settings
    }

    /// Applies the overrides of a run.
    pub fn apply_overrides(&mut self, o: Option<&RuntimeOverrides>)
        ensures
            final(self).deep_view() == overridden(
                old(self).deep_view(),
                match o {
                    Some(o) => Some(o.deep_view()),
                    None => None,
                },
            ),
    {
        if let Some(o) = o {
            if let Some(v) = o.dev_mode {
                self.dev_mode = v;
            }
            if let Some(v) = o.dry_run {
                self.dry_run = v;
            }
            if let Some(v) = &o.sim_scenario {
                self.sim_scenario = Some(v.clone());
            }
            if let Some(v) = &o.mock_identity {
                self.mock_identity = Some(v.clone());
            }
        }
    }

    /// Takes the overrides of the run out again: each forced field is as in
    /// `kept`, the preferences without them.
    pub fn remove_overrides(&mut self, kept: &Settings, o: Option<&RuntimeOverrides>)
        ensures
            final(self).deep_view() == without_overrides(
                old(self).deep_view(),
                kept.deep_view(),
                match o {
                    Some(o) => Some(o.deep_view()),
                    None => None,
                },
            ),
    {
        if let Some(o) = o {
            if o.dev_mode.is_some() {
                self.dev_mode = kept.dev_mode;
            }
            if o.dry_run.is_some() {
                self.dry_run = kept.dry_run;
            }
            if o.sim_scenario.is_some() {
                self.sim_scenario = kept.sim_scenario.clone();
            }
            if o.mock_identity.is_some() {
                self.mock_identity = kept.mock_identity.clone();
            }
        }
    }

    /// Where and how to store these preferences.
    pub fn save(&self, schema_installed: bool) -> (r: SaveTarget)
        ensures
            match r {
                SaveTarget::Store(values) => schema_installed && values.deep_view() == stored(
                    self.deep_view(),
                ),
                SaveTarget::File => !schema_installed,
            },
    {
        if using_gsettings(schema_installed) {
            SaveTarget::Store(self.write_gsettings())
        } else {
            SaveTarget::File
        }
    }
}

/// Overrides never reach what is stored: taken out again, they leave the
/// preferences as they were before.
pub proof fn law_overrides_are_per_run(kept: SettingsView, o: Option<OverridesView>)
    ensures
        without_overrides(overridden(kept, o), kept, o) == kept,
{
}

/// A forced flag wins over what is stored, on or off.
pub proof fn law_override_wins(s: SettingsView, o: OverridesView)
    ensures
        o.dev_mode matches Some(v) ==> overridden(s, Some(o)).dev_mode == v,
        o.dry_run matches Some(v) ==> overridden(s, Some(o)).dry_run == v,
        o.dev_mode is None ==> overridden(s, Some(o)).dev_mode == s.dev_mode,
        o.dry_run is None ==> overridden(s, Some(o)).dry_run == s.dry_run,
{
}

/// An override changes the one preference that it is for. The others are as they were,
/// and without overrides all are.
pub proof fn law_override_changes_its_own_setting(s: SettingsView, o: OverridesView)
    ensures
        overridden(s, None) == s,
        ({
            let r = overridden(s, Some(o));
            &&& r.auto_updates == s.auto_updates
            &&& r.update_interval == s.update_interval
            &&& r.pause_on_metered == s.pause_on_metered
            &&& r.custom_interval_hours == s.custom_interval_hours
            &&& r.include_app_updates == s.include_app_updates
            &&& o.sim_scenario is Some ==> r.sim_scenario == o.sim_scenario
            &&& o.sim_scenario is None ==> r.sim_scenario == s.sim_scenario
            &&& o.mock_identity is Some ==> r.mock_identity == o.mock_identity
            &&& o.mock_identity is None ==> r.mock_identity == s.mock_identity
        }),
{
}

/// Taking overrides out restores what was kept for the preferences that were overridden,
/// and leaves the others as they came to be during the run.
pub proof fn law_changes_of_a_run_are_kept(s: SettingsView, kept: SettingsView, o: OverridesView)
    ensures
        without_overrides(s, kept, None) == s,
        ({
            let r = without_overrides(s, kept, Some(o));
            &&& r.auto_updates == s.auto_updates
            &&& r.update_interval == s.update_interval
            &&& r.pause_on_metered == s.pause_on_metered
            &&& r.custom_interval_hours == s.custom_interval_hours
            &&& r.include_app_updates == s.include_app_updates
            &&& r.dev_mode == if o.dev_mode is Some {
                kept.dev_mode
            } else {
                s.dev_mode
            }
            &&& r.dry_run == if o.dry_run is Some {
                kept.dry_run
            } else {
                s.dry_run
            }
        }),
{
}

/// Every preference has a place of its own in the settings store.
pub proof fn law_each_setting_has_its_place(s: SettingsView, t: StoredView)
    ensures
        stored(s).auto_updates == s.auto_updates,
        stored(s).pause_on_metered == s.pause_on_metered,
        stored(s).custom_interval_hours == s.custom_interval_hours,
        stored(s).dev_mode == s.dev_mode,
        stored(s).dry_run == s.dry_run,
        stored(s).include_app_updates == s.include_app_updates,
        stored(s).mock_identity == s.mock_identity,
        s.update_interval == UpdateInterval::Weekly <==> stored(s).update_interval == "weekly"@,
        s.update_interval == UpdateInterval::Hourly <==> stored(s).update_interval == "hourly"@,
        restored(t).auto_updates == t.auto_updates,
        restored(t).pause_on_metered == t.pause_on_metered,
        restored(t).custom_interval_hours == t.custom_interval_hours,
        restored(t).dev_mode == t.dev_mode,
        restored(t).dry_run == t.dry_run,
        restored(t).include_app_updates == t.include_app_updates,
        restored(t).mock_identity == t.mock_identity,
        restored(t).sim_scenario is None <==> t.sim_scenario.len() == 0,
        restored(t).sim_scenario matches Some(x) ==> x == t.sim_scenario,
{
    law_interval_name_round_trip(s.update_interval);
    reveal_strlit("weekly");
    reveal_strlit("hourly");
    reveal_strlit("daily");
    reveal_strlit("custom");
    assert("weekly"@[0] != "hourly"@[0]);
    assert("daily"@.len() != "weekly"@.len());
    assert("custom"@[0] != "weekly"@[0] && "custom"@[0] != "hourly"@[0]);
}

/// What a settings file holds counts, each value for its own preference. What it lacks
/// is as in a fresh installation, except that nothing is withheld.
pub proof fn law_file_counts_where_it_speaks(p: PartialSettings, profile: Seq<char>)
    ensures
        ({
            let r = completed(p, profile);
            &&& p.auto_updates matches Some(v) ==> r.auto_updates == v
            &&& p.auto_updates is None ==> r.auto_updates
            &&& p.update_interval matches Some(v) ==> r.update_interval == v
            &&& p.update_interval is None ==> r.update_interval == UpdateInterval::Daily
            &&& p.pause_on_metered matches Some(v) ==> r.pause_on_metered == v
            &&& p.pause_on_metered is None ==> r.pause_on_metered
            &&& p.custom_interval_hours matches Some(v) ==> r.custom_interval_hours == v
            &&& p.custom_interval_hours is None ==> r.custom_interval_hours == 6
            &&& p.dev_mode matches Some(v) ==> r.dev_mode == v
            &&& p.dev_mode is None ==> !r.dev_mode
            &&& p.dry_run matches Some(v) ==> r.dry_run == v
            &&& p.dry_run is None ==> !r.dry_run
            &&& p.include_app_updates matches Some(v) ==> r.include_app_updates == v
            &&& p.include_app_updates is None ==> r.include_app_updates
            &&& r.mock_identity == p.mock_identity.deep_view()
            &&& r.sim_scenario == p.sim_scenario.deep_view()
        }),
{
}

/// A fresh installation withholds commands exactly where it is one for development, and
/// simulates nothing. Updates run by themselves every day, and not on a metered
/// connection.
pub proof fn law_fresh_installation(profile: Seq<char>)
    ensures
        default_settings(profile).dry_run <==> profile == "Devel"@ || profile == ""@,
        !default_settings(profile).dev_mode,
        default_settings(profile).mock_identity is None,
        default_settings(profile).sim_scenario is None,
        default_settings(profile).auto_updates,
        default_settings(profile).pause_on_metered,
        default_settings(profile).include_app_updates,
        default_settings(profile).update_interval == UpdateInterval::Daily,
{
    reveal_strlit("");
    if profile.len() == 0 {
        assert(profile =~= ""@);
    }
}

/// The settings store counts before the file, and the file before the defaults.
pub proof fn law_store_counts_first(
    store: StoredView,
    p: PartialSettings,
    file: SettingsFile,
    profile: Seq<char>,
)
    ensures
        base_settings(Some(store), file, profile) == restored(store),
        base_settings(None, SettingsFile::Holds(p), profile) == completed(p, profile),
        base_settings(None, SettingsFile::Unusable, profile) == default_settings(profile),
{
}

} // verus!
