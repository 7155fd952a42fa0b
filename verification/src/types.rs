//! Shared record types: row status, visibility, relation type and uid validation.
//!
//! Each enum is stored in the database as an upper-case name; `as_str` gives that name and
//! `parse` reads it back.
use crate::text::{ascii_alphanumeric, chars_of, is_ascii_alphanumeric, str_equals};
use vstd::prelude::*;

verus! {

/// Longest uid, in characters.
pub const MAX_UID_LENGTH: usize = 64;

/// Row status of a record.
#[derive(Debug, Clone, Copy, PartialEq, Eq)]
pub enum RowStatus {
    Normal,
    Archived,
}

/// Who may see a memo.
#[derive(Debug, Clone, Copy, PartialEq, Eq)]
pub enum Visibility {
    Public,
    Protected,
    Private,
}

/// Kind of link between two memos.
#[derive(Debug, Clone, Copy, PartialEq, Eq)]
pub enum MemoRelationType {
    Reference,
    Comment,
}

/// Stored name of a row status.
pub open spec fn row_status_name(s: RowStatus) -> Seq<char> {
    match s {
        RowStatus::Normal => "NORMAL"@,
        RowStatus::Archived => "ARCHIVED"@,
    }
}

/// Stored name of a visibility.
pub open spec fn visibility_name(v: Visibility) -> Seq<char> {
    match v {
        Visibility::Public => "PUBLIC"@,
        Visibility::Protected => "PROTECTED"@,
        Visibility::Private => "PRIVATE"@,
    }
}

/// Stored name of a relation type.
pub open spec fn relation_type_name(t: MemoRelationType) -> Seq<char> {
    match t {
        MemoRelationType::Reference => "REFERENCE"@,
        MemoRelationType::Comment => "COMMENT"@,
    }
}

impl RowStatus {
    /// The default status of a new record.
    pub fn default_status() -> (r: RowStatus)
        ensures
            r == RowStatus::Normal,
    {
        RowStatus::Normal
    }

    /// The stored name: `NORMAL` or `ARCHIVED`.
    pub fn as_str(&self) -> (r: &'static str)
        ensures
            r@ == row_status_name(*self),
    {
        match self {
            RowStatus::Normal => "NORMAL",
            RowStatus::Archived => "ARCHIVED",
        }
    }

    /// Reads a stored name; any other text is refused.
    pub fn parse(s: &str) -> (r: Option<RowStatus>)
        ensures
            r == (if s@ == "NORMAL"@ {
                Some(RowStatus::Normal)
            } else if s@ == "ARCHIVED"@ {
                Some(RowStatus::Archived)
            } else {
                None
            }),
    {
        if str_equals(s, "NORMAL") {
            Some(RowStatus::Normal)
        } else if str_equals(s, "ARCHIVED") {
            Some(RowStatus::Archived)
        } else {
            None
        }
    }
}

impl Visibility {
    /// The default visibility of a new memo.
    pub fn default_visibility() -> (r: Visibility)
        ensures
            r == Visibility::Private,
    {
        Visibility::Private
    }

    /// The stored name: `PUBLIC`, `PROTECTED` or `PRIVATE`.
    pub fn as_str(&self) -> (r: &'static str)
        ensures
            r@ == visibility_name(*self),
    {
        match self {
            Visibility::Public => "PUBLIC",
            Visibility::Protected => "PROTECTED",
            Visibility::Private => "PRIVATE",
        }
    }

    /// Reads a stored name; any other text is refused.
    pub fn parse(s: &str) -> (r: Option<Visibility>)
        ensures
            r == (if s@ == "PUBLIC"@ {
                Some(Visibility::Public)
            } else if s@ == "PROTECTED"@ {
                Some(Visibility::Protected)
            } else if s@ == "PRIVATE"@ {
                Some(Visibility::Private)
            } else {
                None
            }),
    {
        if str_equals(s, "PUBLIC") {
            Some(Visibility::Public)
        } else if str_equals(s, "PROTECTED") {
            Some(Visibility::Protected)
        } else if str_equals(s, "PRIVATE") {
            Some(Visibility::Private)
        } else {
            None
        }
    }
}

impl MemoRelationType {
    /// The stored name: `REFERENCE` or `COMMENT`.
    pub fn as_str(&self) -> (r: &'static str)
        ensures
            r@ == relation_type_name(*self),
    {
        match self {
            MemoRelationType::Reference => "REFERENCE",
            MemoRelationType::Comment => "COMMENT",
        }
    }

    /// Reads a stored name; any other text is refused.
    pub fn parse(s: &str) -> (r: Option<MemoRelationType>)
        ensures
            r == (if s@ == "REFERENCE"@ {
                Some(MemoRelationType::Reference)
            } else if s@ == "COMMENT"@ {
                Some(MemoRelationType::Comment)
            } else {
                None
            }),
    {
        if str_equals(s, "REFERENCE") {
            Some(MemoRelationType::Reference)
        } else if str_equals(s, "COMMENT") {
            Some(MemoRelationType::Comment)
        } else {
            None
        }
    }
}

/// A well-formed uid: 1 to 64 characters, each an ASCII letter, digit or `_`.
pub open spec fn valid_uid(s: Seq<char>) -> bool {
    &&& 0 < s.len() <= MAX_UID_LENGTH
    &&& forall|k: int| 0 <= k < s.len() ==> ascii_alphanumeric(#[trigger] s[k]) || s[k] == '_'
}

/// Whether `uid` is a well-formed uid (1 to 64 ASCII letters, digits or `_`).
pub fn validate_uid(uid: &str) -> (r: bool)
    ensures
        r == valid_uid(uid@),
{
    let c = chars_of(uid);
    if c.len() == 0 || c.len() > MAX_UID_LENGTH {
        return false;
    }
    let mut k: usize = 0;
    while k < c.len()
        invariant
            k <= c.len(),
            c@ == uid@,
            forall|q: int| 0 <= q < k ==> ascii_alphanumeric(#[trigger] c@[q]) || c@[q] == '_',
        decreases c.len() - k,
    {
        if !(is_ascii_alphanumeric(c[k]) || c[k] == '_') {
            assert(!(ascii_alphanumeric(uid@[k as int]) || uid@[k as int] == '_'));
            return false;
        }
        k = k + 1;
    }
    true
}

/// Law: reading back the stored name of any row status, visibility or relation type gives
/// the same value, and distinct values have distinct names.
pub proof fn law_stored_names_round_trip(s: RowStatus, v: Visibility, t: MemoRelationType)
    ensures
        (if row_status_name(s) == "NORMAL"@ {
            Some(RowStatus::Normal)
        } else if row_status_name(s) == "ARCHIVED"@ {
            Some(RowStatus::Archived)
        } else {
            None
        }) == Some(s),
        (if visibility_name(v) == "PUBLIC"@ {
            Some(Visibility::Public)
        } else if visibility_name(v) == "PROTECTED"@ {
            Some(Visibility::Protected)
        } else if visibility_name(v) == "PRIVATE"@ {
            Some(Visibility::Private)
        } else {
            None
        }) == Some(v),
        (if relation_type_name(t) == "REFERENCE"@ {
            Some(MemoRelationType::Reference)
        } else if relation_type_name(t) == "COMMENT"@ {
            Some(MemoRelationType::Comment)
        } else {
            None
        }) == Some(t),
{
    reveal_strlit("NORMAL");
    reveal_strlit("ARCHIVED");
    reveal_strlit("PUBLIC");
    reveal_strlit("PROTECTED");
    reveal_strlit("PRIVATE");
    reveal_strlit("REFERENCE");
    reveal_strlit("COMMENT");
    assert("NORMAL"@ != "ARCHIVED"@) by {
        assert("NORMAL"@.len() != "ARCHIVED"@.len());
    }
    assert("PUBLIC"@ != "PROTECTED"@) by {
        assert("PUBLIC"@.len() != "PROTECTED"@.len());
    }
    assert("PUBLIC"@ != "PRIVATE"@) by {
        assert("PUBLIC"@[1] != "PRIVATE"@[1]);
    }
    assert("PROTECTED"@ != "PRIVATE"@) by {
        assert("PROTECTED"@.len() != "PRIVATE"@.len());
    }
    assert("REFERENCE"@ != "COMMENT"@) by {
        assert("REFERENCE"@.len() != "COMMENT"@.len());
    }
}

} // verus!
