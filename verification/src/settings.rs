use vstd::prelude::*;
use crate::text::owned;

verus! {

/// The version of the settings file this library writes.
pub const SETTINGS_VERSION: u8 = 1;

/// The content of the settings file.
#[derive(Debug)]
pub struct PersistedSettings {
    pub version: u8,
    pub sticker_library_root: Option<String>,
}

/// Why a setting was refused.
#[derive(Debug, Clone, Copy, PartialEq, Eq, Structural)]
pub enum SettingsError {
    /// The library directory must be an absolute path.
    NotAbsolute,
}

impl SettingsError {
    /// The message shown for the error.
    pub fn message(&self) -> (r: String)
        ensures
            r@ == "表情库目录必须是绝对路径"@,
    {
        owned("表情库目录必须是绝对路径")
    }
}

/// The application settings: where they are stored, the default library
/// directory and the library directory in use.
pub struct AppSettings {
    settings_path: String,
    default_sticker_library_root: String,
    sticker_library_root: String,
}

/// The library directory that a settings file names, when it names one.
pub open spec fn stored_root_spec(primary: Option<PersistedSettings>, legacy: Option<PersistedSettings>) -> Option<String> {
    match primary {
        Some(p) => p.sticker_library_root,
        None => match legacy {
            Some(l) => l.sticker_library_root,
            None => None,
        },
    }
}

/// The library directory used at start-up: the stored one when there is
/// one and it is absolute, else the default.
pub open spec fn startup_root(stored: Option<String>, stored_is_absolute: bool, default: Seq<char>) -> Seq<char> {
    match stored {
        Some(s) => if stored_is_absolute { s@ } else { default },
        None => default,
    }
}

/// Law: a library directory that was accepted (it is absolute) and saved is
/// the one the next start-up uses, whatever the default directory and the
/// legacy settings file.
pub proof fn law_saved_root_is_used_at_startup(
    root: Seq<char>,
    is_absolute: bool,
    saved: PersistedSettings,
    legacy: Option<PersistedSettings>,
    default: Seq<char>,
)
    requires
        is_absolute,
        saved.sticker_library_root matches Some(s) && s@ == root,
    ensures
        startup_root(stored_root_spec(Some(saved), legacy), is_absolute, default) == root,
{
}

impl AppSettings {
    /// Where the settings are stored.
    pub closed spec fn path(&self) -> Seq<char> {
        self.settings_path@
    }

    /// The default library directory.
    pub closed spec fn default_root(&self) -> Seq<char> {
        self.default_sticker_library_root@
    }

    /// The library directory in use.
    pub closed spec fn root(&self) -> Seq<char> {
        self.sticker_library_root@
    }

    /// The library directory named by the settings read at start-up: the
    /// current settings file when it could be read, else the legacy one.
    pub fn stored_root(primary: Option<PersistedSettings>, legacy: Option<PersistedSettings>) -> (r: Option<String>)
        ensures
            r == stored_root_spec(primary, legacy),
    {
        match primary {
            Some(p) => p.sticker_library_root,
            None => match legacy {
                Some(l) => l.sticker_library_root,
                None => None,
            },
        }
    }

    /// The settings at start-up: the stored library directory when there is
    /// one and it is absolute (`stored_is_absolute`), else the default.
    pub fn initialize(
        settings_path: String,
        default_sticker_library_root: String,
        stored: Option<String>,
        stored_is_absolute: bool,
    ) -> (r: Self)
        ensures
            r.path() == settings_path@,
            r.default_root() == default_sticker_library_root@,
            r.root() == startup_root(stored, stored_is_absolute, default_sticker_library_root@),
    {
        let sticker_library_root = match stored {
            Some(s) => if stored_is_absolute { s } else { default_sticker_library_root.clone() },
            None => default_sticker_library_root.clone(),
        };
        AppSettings { settings_path, default_sticker_library_root, sticker_library_root }
    }

    /// Where the settings are stored.
    pub fn settings_path(&self) -> (r: &str)
        ensures
            r@ == self.path(),
    {
        self.settings_path.as_str()
    }

    /// The library directory in use.
    pub fn sticker_library_root(&self) -> (r: &str)
        ensures
            r@ == self.root(),
    {
        self.sticker_library_root.as_str()
    }

    /// The default library directory.
    pub fn default_sticker_library_root(&self) -> (r: &str)
        ensures
            r@ == self.default_root(),
    {
        self.default_sticker_library_root.as_str()
    }

    /// Moves the library to `root_directory`, which must be absolute
    /// (`is_absolute`); gives back the directory used before, which
    /// `restore_sticker_library_root` puts back when saving fails.
    pub fn set_sticker_library_root(&mut self, root_directory: String, is_absolute: bool) -> (r: Result<String, SettingsError>)
        ensures
            final(self).path() == old(self).path(),
            final(self).default_root() == old(self).default_root(),
            !is_absolute ==> r == Err::<String, SettingsError>(SettingsError::NotAbsolute) && final(self).root()
                == old(self).root(),
            is_absolute ==> (r matches Ok(previous) && previous@ == old(self).root()) && final(self).root()
                == root_directory@,
    {
        if !is_absolute {
            return Err(SettingsError::NotAbsolute);
        }
        let previous = self.sticker_library_root.clone();
        self.sticker_library_root = root_directory;
        Ok(previous)
    }

    /// Puts back the library directory used before a change that could not be saved.
    pub fn restore_sticker_library_root(&mut self, previous: String)
        ensures
            final(self).path() == old(self).path(),
            final(self).default_root() == old(self).default_root(),
            final(self).root() == previous@,
    {
        self.sticker_library_root = previous;
    }

    /// What the settings file holds for these settings.
    pub fn to_persisted(&self) -> (r: PersistedSettings)
        ensures
            r.version == SETTINGS_VERSION,
            r.sticker_library_root matches Some(s) && s@ == self.root(),
    {
        PersistedSettings { version: SETTINGS_VERSION, sticker_library_root: Some(self.sticker_library_root.clone()) }
    }
}

} // verus!
