use vstd::prelude::*;

verus! {

/// Next thing to do while looking for the settings file.
#[derive(Clone, Copy, Debug, PartialEq, Eq, Structural)]
pub enum SearchAction {
    /// Check whether the settings file exists in directory `i`.
    Check(usize),
    /// Load the settings file found in directory `i`.
    Load(usize),
    /// No directory has the file: keep the default settings.
    UseDefaults,
}

/// Search for the settings file through a list of directories, in order.
pub struct ConfigSearch {
    /// The directory whose check is awaited.
    pub next: usize,
    pub dir_count: usize,
}

/// The first action of a search through `dir_count` directories.
pub open spec fn spec_first_action(dir_count: int) -> SearchAction {
    if dir_count > 0 { SearchAction::Check(0) } else { SearchAction::UseDefaults }
}

/// The action that follows the check of directory `next`: load from it if
/// the file is there, otherwise check the next directory, or fall back to
/// the defaults after the last one.
pub open spec fn spec_after_check(next: int, dir_count: int, found: bool) -> SearchAction {
    if found {
        SearchAction::Load(next as usize)
    } else if next + 1 < dir_count {
        SearchAction::Check((next + 1) as usize)
    } else {
        SearchAction::UseDefaults
    }
}

impl ConfigSearch {
    /// Starts a search through `dir_count` directories.
    pub fn new(dir_count: usize) -> (r: (ConfigSearch, SearchAction))
        ensures
            r.0.next == 0,
            r.0.dir_count == dir_count,
            r.1 == spec_first_action(dir_count as int),
            dir_count > 0 ==> r.1 == SearchAction::Check(0),
            dir_count == 0 ==> r.1 == SearchAction::UseDefaults,
    {
        let action = if dir_count > 0 { SearchAction::Check(0) } else { SearchAction::UseDefaults };
        (ConfigSearch { next: 0, dir_count }, action)
    }

    /// Takes the result of the awaited check: whether the file exists in
    /// directory `next` (a failed check counts as absent).
    pub fn report(&mut self, found: bool) -> (r: SearchAction)
        requires
            old(self).next < old(self).dir_count,
        ensures
            r == spec_after_check(old(self).next as int, old(self).dir_count as int, found),
            found ==> r == SearchAction::Load(old(self).next),
            !found && old(self).next + 1 < old(self).dir_count ==> r == SearchAction::Check(
                (old(self).next + 1) as usize,
            ),
            !found && old(self).next + 1 >= old(self).dir_count ==> r == SearchAction::UseDefaults,
            final(self).dir_count == old(self).dir_count,
            final(self).next == if found { old(self).next as int } else { old(self).next + 1 },
    {
        if found {
            SearchAction::Load(self.next)
        } else {
            self.next = self.next + 1;
            if self.next < self.dir_count {
                SearchAction::Check(self.next)
            } else {
                SearchAction::UseDefaults
            }
        }
    }
}

/// Where a search ends once it has reached directory `i`, when every
/// check of a directory `k` answers `found[k]`: at the first directory from
/// `i` on that has the file, or at the defaults.
pub open spec fn spec_search_from(found: Seq<bool>, i: int) -> SearchAction
    decreases found.len() - i,
{
    if i < 0 || i >= found.len() {
        SearchAction::UseDefaults
    } else if found[i] {
        SearchAction::Load(i as usize)
    } else {
        spec_search_from(found, i + 1)
    }
}

/// Each step of the search keeps where it ends: the first action leads to
/// the outcome of a search from directory 0, and answering the check of
/// directory `i` either ends the search there or moves it to directory
/// `i + 1` with the same outcome.
pub proof fn lemma_search_steps(found: Seq<bool>, i: int)
    requires
        found.len() <= usize::MAX,
        0 <= i < found.len(),
    ensures
        spec_first_action(found.len() as int) == SearchAction::Check(0),
        match spec_after_check(i, found.len() as int, found[i]) {
            SearchAction::Check(j) => j == i + 1 && spec_search_from(found, j as int)
                == spec_search_from(found, i),
            other => other == spec_search_from(found, i),
        },
{
    if !found[i] {
        assert(spec_search_from(found, i) == spec_search_from(found, i + 1));
    }
}

/// The directories are searched in order: the search ends by loading from
/// the first directory that has the file, and keeps the defaults exactly
/// when none has it.
pub proof fn lemma_search_loads_first_found(found: Seq<bool>)
    requires
        found.len() <= usize::MAX,
    ensures
        found.len() == 0 ==> spec_first_action(0) == SearchAction::UseDefaults,
        forall|f: int|
            0 <= f < found.len() && found[f] && (forall|k: int| 0 <= k < f ==> !found[k])
                ==> spec_search_from(found, 0) == SearchAction::Load(f as usize),
        (forall|k: int| 0 <= k < found.len() ==> !found[k]) ==> spec_search_from(found, 0)
            == SearchAction::UseDefaults,
{
    assert forall|f: int|
        0 <= f < found.len() && found[f] && (forall|k: int| 0 <= k < f ==> !found[k])
            implies spec_search_from(found, 0) == SearchAction::Load(f as usize) by {
        lemma_search_reaches(found, 0, f);
    }
    if forall|k: int| 0 <= k < found.len() ==> !found[k] {
        lemma_search_misses(found, 0);
    }
}

/// A search from `i` passes the directories without the file up to `f`.
proof fn lemma_search_reaches(found: Seq<bool>, i: int, f: int)
    requires
        0 <= i <= f < found.len(),
        found[f],
        forall|k: int| i <= k < f ==> !found[k],
    ensures
        spec_search_from(found, i) == SearchAction::Load(f as usize),
    decreases f - i,
{
    if i < f {
        lemma_search_reaches(found, i + 1, f);
    }
}

/// A search from `i` keeps the defaults when no directory from `i` on has the file.
proof fn lemma_search_misses(found: Seq<bool>, i: int)
    requires
        0 <= i,
        forall|k: int| i <= k < found.len() ==> !found[k],
    ensures
        spec_search_from(found, i) == SearchAction::UseDefaults,
    decreases found.len() - i,
{
    if i < found.len() {
        lemma_search_misses(found, i + 1);
    }
}

/// A value read from the settings file, as far as the non-floating-point
/// settings care: a boolean, an integer, or something else.
#[derive(Clone, Copy, Debug, PartialEq, Eq, Structural)]
pub enum SettingValue {
    Bool(bool),
    Integer(i64),
    Other,
}

/// Why a setting's value is refused.
#[derive(Clone, Copy, Debug, PartialEq, Eq, Structural)]
pub enum SettingError {
    /// The value has the wrong type.
    WrongType,
    /// The value is negative where a count is expected.
    Negative,
}

/// A yes/no setting: kept at `current` when the file does not give it,
/// set to the file's value when that is a boolean, refused otherwise.
pub fn bool_setting(current: bool, value: Option<SettingValue>) -> (r: Result<bool, SettingError>)
    ensures
        r == match value {
            None => Ok(current),
            Some(SettingValue::Bool(b)) => Ok(b),
            Some(_) => Err(SettingError::WrongType),
        },
{
    match value {
        None => Ok(current),
        Some(SettingValue::Bool(b)) => Ok(b),
        Some(_) => Err(SettingError::WrongType),
    }
}

/// The point count setting: kept at `current` when the file does not give
/// it; otherwise the file's value, which must be an integer that is not
/// negative.
pub fn point_count_setting(current: u64, value: Option<SettingValue>) -> (r: Result<u64, SettingError>)
    ensures
        r == match value {
            None => Ok(current),
            Some(SettingValue::Integer(n)) => if n >= 0 {
                Ok(n as u64)
            } else {
                Err(SettingError::Negative)
            },
            Some(_) => Err(SettingError::WrongType),
        },
{
    match value {
        None => Ok(current),
        Some(SettingValue::Integer(n)) => if n >= 0 {
            Ok(n as u64)
        } else {
            Err(SettingError::Negative)
        },
        Some(_) => Err(SettingError::WrongType),
    }
}

} // verus!
