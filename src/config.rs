//! The configuration: the profiles a user has and which one is active.

use vstd::prelude::*;
use crate::source::{Profile, same_name, eq_ignore_ascii_case};

verus! {

/// Where a profile is kept: in a file of its own, or inside the configuration.
pub enum ProfileSource {
    Path(String),
    Embedded(Profile),
}

/// A profile under its name, with the game directory it manages.
pub struct ProfileItem {
    pub profile: ProfileSource,
    pub name: String,
    pub minecraft_dir: String,
}

pub struct Config {
    pub active_profile: usize,
    pub profiles: Vec<ProfileItem>,
}

/// Why no active profile could be settled on.
#[derive(Debug, PartialEq, Eq)]
pub enum ActiveProfileError {
    /// There are no profiles at all.
    NoProfiles,
    /// The active index is out of range; the user has to pick a profile.
    OutOfRange,
}

impl Config {
    /// The index of the active profile. A lone profile becomes the active one.
    pub fn active_index(&mut self) -> (r: Result<usize, ActiveProfileError>)
        ensures
            final(self).profiles@ == old(self).profiles@,
            old(self).profiles@.len() == 0 ==> r == Err::<usize, ActiveProfileError>(ActiveProfileError::NoProfiles)
                && final(self).active_profile == old(self).active_profile,
            old(self).profiles@.len() == 1 ==> r == Ok::<usize, ActiveProfileError>(0) && final(self).active_profile == 0,
            old(self).profiles@.len() > 1 ==> final(self).active_profile == old(self).active_profile && (if old(
                self,
            ).active_profile < old(self).profiles@.len() {
                r == Ok::<usize, ActiveProfileError>(old(self).active_profile)
            } else {
                r == Err::<usize, ActiveProfileError>(ActiveProfileError::OutOfRange)
            }),
    {
        let n = self.profiles.len();
        if n == 0 {
            Err(ActiveProfileError::NoProfiles)
        } else if n == 1 {
            self.active_profile = 0;
            Ok(0)
        } else if self.active_profile < n {
            Ok(self.active_profile)
        } else {
            Err(ActiveProfileError::OutOfRange)
        }
    }

    /// The position of the profile named `name`, ignoring ASCII case.
    pub fn find_profile(&self, name: &str) -> (r: Option<usize>)
        ensures
            match r {
                Some(i) => i < self.profiles@.len() && same_name(self.profiles@[i as int].name@, name@)
                    && forall|k: int| 0 <= k < i ==> !same_name(#[trigger] self.profiles@[k].name@, name@),
                None => forall|k: int| 0 <= k < self.profiles@.len() ==> !same_name(#[trigger] self.profiles@[k].name@, name@),
            },
    {
        let mut i: usize = 0;
        while i < self.profiles.len()
            invariant
                i <= self.profiles@.len(),
                forall|k: int| 0 <= k < i ==> !same_name(#[trigger] self.profiles@[k].name@, name@),
            decreases self.profiles@.len() - i,
        {
            if eq_ignore_ascii_case(self.profiles[i].name.as_str(), name) {
                return Some(i);
            }
            i = i + 1;
        }
        None
    }

    /// Removes the profile at `index` and keeps the active index on the same
    /// profile. Returns whether the active profile itself was removed while
    /// more than one profile remains, in which case another must be picked.
    pub fn remove_profile(&mut self, index: usize) -> (must_pick: bool)
        requires
            index < old(self).profiles@.len(),
        ensures
            final(self).profiles@ == old(self).profiles@.remove(index as int),
            old(self).active_profile > index ==> final(self).active_profile == old(self).active_profile - 1 && !must_pick,
            old(self).active_profile < index ==> final(self).active_profile == old(self).active_profile && !must_pick,
            old(self).active_profile == index ==> (if final(self).profiles@.len() > 1 {
                must_pick && final(self).active_profile == old(self).active_profile
            } else {
                !must_pick && final(self).active_profile == 0
            }),
    {
        self.profiles.remove(index);
        if self.active_profile == index {
            if self.profiles.len() > 1 {
                true
            } else {
                self.active_profile = 0;
                false
            }
        } else {
            if self.active_profile > index {
                self.active_profile = self.active_profile - 1;
            }
            false
        }
    }
}

} // verus!
