use vstd::prelude::*;
use crate::i18n::Language;

verus! {

/// The preferences of one user.
#[derive(Debug, Clone, Copy)]
pub struct UserPreferences {
    pub language: Language,
}

impl Default for UserPreferences {
    fn default() -> (r: Self)
        ensures
            r.language == Language::Es,
    {
        UserPreferences { language: Language::Es }
    }
}

} // verus!
