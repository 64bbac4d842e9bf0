//! The loaded profile catalog and the daemon-wide configuration.

use vstd::prelude::*;
use crate::profile::ScreensProfile;

verus! {

/// First catalog position holding a profile of this name, or `-1`.
pub open spec fn name_index_from(
    profiles: Seq<(String, ScreensProfile)>,
    name: Seq<char>,
    i: int,
) -> int
    decreases profiles.len() - i,
{
    if i < 0 || i >= profiles.len() {
        -1
    } else if profiles[i].0@ == name {
        i
    } else {
        name_index_from(profiles, name, i + 1)
    }
}

/// Daemon configuration: the catalog of named profiles, in the order the
/// control loop ranks ties by, plus the compositor config path it writes.
#[derive(Clone, Debug)]
pub struct AppConfiguration {
    pub hyprland_config_file: String,
    pub profiles: Vec<(String, ScreensProfile)>,
}

impl AppConfiguration {
    pub fn hyprland_config_file(&self) -> (r: &String)
        ensures
            r == self.hyprland_config_file,
    {
        &self.hyprland_config_file
    }

    pub fn profiles(&self) -> (r: &Vec<(String, ScreensProfile)>)
        ensures
            r == self.profiles,
    {
        &self.profiles
    }

    /// Look a profile up by name: the first catalog entry carrying it.
    pub fn profile_by_name(&self, name: &String) -> (r: Option<&ScreensProfile>)
        ensures
            match r {
                Some(p) => {
                    let i = name_index_from(self.profiles@, name@, 0);
                    &&& 0 <= i < self.profiles@.len()
                    &&& self.profiles@[i].0@ == name@
                    &&& *p == self.profiles@[i].1
                },
                None => forall|i: int|
                    0 <= i < self.profiles@.len() ==> (#[trigger] self.profiles@[i]).0@ != name@,
            },
    {
        let n = self.profiles.len();
        let mut i: usize = 0;
        while i < n
            invariant
                0 <= i <= n,
                n == self.profiles@.len(),
                forall|t: int| 0 <= t < i ==> (#[trigger] self.profiles@[t]).0@ != name@,
                name_index_from(self.profiles@, name@, 0) == name_index_from(
                    self.profiles@,
                    name@,
                    i as int,
                ),
            decreases n - i,
        {
            if self.profiles[i].0 == *name {
                return Some(&self.profiles[i].1);
            }
            i += 1;
        }
        None
    }
}

impl Default for AppConfiguration {
    /// An empty catalog writing to the conventional compositor config path.
    fn default() -> (r: Self)
        ensures
            r.profiles@.len() == 0,
            r.hyprland_config_file@ == "~/.config/hypr/display.conf"@,
    {
        AppConfiguration {
            hyprland_config_file: String::from_str("~/.config/hypr/display.conf"),
            profiles: Vec::new(),
        }
    }
}

} // verus!
