//! The desktop appearance preference and how an update is applied.

use vstd::prelude::*;

verus! {

pub const APPEARANCE_CHANGED_EVENT: &'static str = "appearance-changed";

#[derive(Debug, Clone, Copy, PartialEq, Eq, Structural)]
pub enum AppearancePreference {
    System,
    Light,
    Dark,
}

impl AppearancePreference {
    /// The stored and wire text of a preference.
    pub open spec fn text(self) -> Seq<char> {
        match self {
            AppearancePreference::System => "system"@,
            AppearancePreference::Light => "light"@,
            AppearancePreference::Dark => "dark"@,
        }
    }

    /// The preference a stored text stands for; anything unknown is `System`.
    pub open spec fn parse_spec(value: Seq<char>) -> AppearancePreference {
        if value == "light"@ {
            AppearancePreference::Light
        } else if value == "dark"@ {
            AppearancePreference::Dark
        } else {
            AppearancePreference::System
        }
    }

    pub fn as_str(self) -> (s: &'static str)
        ensures
            s@ == self.text(),
    {
        match self {
            AppearancePreference::System => "system",
            AppearancePreference::Light => "light",
            AppearancePreference::Dark => "dark",
        }
    }

    pub fn parse(value: &str) -> (p: AppearancePreference)
        ensures
            p == AppearancePreference::parse_spec(value@),
    {
        if crate::text::string_eq_str(&value.to_owned(), "light") {
            AppearancePreference::Light
        } else if crate::text::string_eq_str(&value.to_owned(), "dark") {
            AppearancePreference::Dark
        } else {
            AppearancePreference::System
        }
    }
}

/// Law: parsing the text of any preference gives the preference back.
pub proof fn lemma_appearance_text_round_trip(p: AppearancePreference)
    ensures
        AppearancePreference::parse_spec(p.text()) == p,
{
    reveal_strlit("system");
    reveal_strlit("light");
    reveal_strlit("dark");
    if p == AppearancePreference::System {
        assert("system"@ != "light"@) by {
            assert("system"@.len() != "light"@.len());
        }
        assert("system"@ != "dark"@) by {
            assert("system"@[0] != "dark"@[0]);
        }
    }
    if p == AppearancePreference::Dark {
        assert("dark"@ != "light"@) by {
            assert("dark"@.len() != "light"@.len());
        }
    }
}

#[derive(Debug, Clone, Copy, PartialEq, Eq, Structural)]
pub enum PreferenceCommandError {
    PreferenceStorageUnavailable,
}

/// The result of an update whose durable write gave `persisted`.
pub open spec fn update_outcome(
    value: AppearancePreference,
    persisted: Result<(), PreferenceCommandError>,
) -> Result<AppearancePreference, PreferenceCommandError> {
    match persisted {
        Ok(()) => Ok(value),
        Err(e) => Err(e),
    }
}

/// Persists an appearance update when possible, always publishes the
/// selected value so that open windows stay in step, and still reports a
/// failed durable write.
pub fn apply_appearance_preference_update<
    E,
    P: FnOnce() -> Result<(), PreferenceCommandError>,
    M: FnOnce(AppearancePreference) -> Result<(), E>,
>(value: AppearancePreference, persist: P, emit: M) -> (r: Result<
    AppearancePreference,
    PreferenceCommandError,
>)
    requires
        call_requires(persist, ()),
        call_requires(emit, (value,)),
    ensures
        exists|persisted: Result<(), PreferenceCommandError>|
            #[trigger] call_ensures(persist, (), persisted) && r == update_outcome(value, persisted),
        exists|emitted: Result<(), E>| #[trigger] call_ensures(emit, (value,), emitted),
{
    let persist_result = persist();
    let _ = emit(value);
    let r = match persist_result {
        Ok(()) => Ok(value),
        Err(e) => Err(e),
    };
    assert(call_ensures(persist, (), persist_result) && r == update_outcome(value, persist_result));
    r
}

} // verus!
