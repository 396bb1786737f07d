//! The loosely typed parameter bag of a scenario, and the extraction of
//! typed arguments for the `open` target.
use vstd::prelude::*;
use crate::flags::{flags_mask, o_creat, o_creat_value, o_rdonly, o_rdonly_value, parse_flags, spells};

verus! {

/// One parameter value, as far as the extractors can read it.
#[derive(Clone, Debug, PartialEq, Eq)]
pub enum ParamValue {
    /// A string.
    Text(String),
    /// A non-negative integer that fits in 64 bits.
    Unsigned(u64),
    /// Anything else (a negative or fractional number, a boolean, null,
    /// an array or an object).
    Other,
}

/// A key-value bag of parameters; the first entry with a key is the one
/// that counts.
#[derive(Clone, Debug, PartialEq, Eq)]
pub struct Params {
    pub entries: Vec<(String, ParamValue)>,
}

/// Why the arguments of an `open` call could not be extracted.
#[derive(PartialEq, Eq, Structural, Clone, Copy, Debug)]
pub enum ParamError {
    /// `path` is absent or not a string.
    MissingPath,
    /// `path` holds a NUL character.
    InvalidPath,
}

/// The arguments of one `open` call.
#[derive(Clone, Debug, PartialEq, Eq)]
pub struct OpenRequest {
    pub path: String,
    pub flags: i32,
    /// The creation mode, present exactly when `flags` holds the create flag.
    pub mode: Option<u32>,
}

pub struct OpenRequestView {
    pub path: Seq<char>,
    pub flags: i32,
    pub mode: Option<u32>,
}

impl View for OpenRequest {
    type V = OpenRequestView;

    open spec fn view(&self) -> OpenRequestView {
        OpenRequestView { path: self.path@, flags: self.flags, mode: self.mode }
    }
}

/// The value of the first entry whose key is `key`.
pub open spec fn lookup(entries: Seq<(String, ParamValue)>, key: Seq<char>) -> Option<ParamValue>
    decreases entries.len(),
{
    if entries.len() == 0 {
        None
    } else if entries[0].0@ == key {
        Some(entries[0].1)
    } else {
        lookup(entries.drop_first(), key)
    }
}

/// The `path` parameter, when it is a string.
pub open spec fn path_param(p: Params) -> Option<Seq<char>> {
    match lookup(p.entries@, "path"@) {
        Some(ParamValue::Text(s)) => Some(s@),
        _ => None,
    }
}

/// The requested flags: those the `flags` string names, or read-only when
/// there is no such string.
pub open spec fn flags_param(p: Params) -> i32 {
    match lookup(p.entries@, "flags"@) {
        Some(ParamValue::Text(s)) => flags_mask(s@),
        _ => o_rdonly(),
    }
}

/// The creation mode: the `mode` parameter, or octal 644 when absent.
pub open spec fn mode_param(p: Params) -> u64 {
    match lookup(p.entries@, "mode"@) {
        Some(ParamValue::Unsigned(m)) => m,
        _ => 0o644,
    }
}

pub open spec fn has_nul(s: Seq<char>) -> bool {
    exists|i: int| 0 <= i < s.len() && s[i] == '\0'
}

/// Whether the flags ask for the file to be created.
pub open spec fn creates(flags: i32) -> bool {
    flags & o_creat() != 0
}

/// What the extraction of `open` arguments yields for a parameter bag.
pub open spec fn open_args(p: Params) -> Result<OpenRequestView, ParamError> {
    match path_param(p) {
        None => Err(ParamError::MissingPath),
        Some(path) => if has_nul(path) {
            Err(ParamError::InvalidPath)
        } else {
            let flags = flags_param(p);
            Ok(OpenRequestView {
                path,
                flags,
                mode: if creates(flags) { Some(mode_param(p) as u32) } else { None },
            })
        },
    }
}

proof fn lemma_lookup_skip(entries: Seq<(String, ParamValue)>, key: Seq<char>, i: int)
    requires
        0 <= i < entries.len(),
        forall|j: int| 0 <= j < i ==> entries[j].0@ != key,
    ensures
        lookup(entries, key) == lookup(entries.subrange(i, entries.len() as int), key),
    decreases i,
{
    if i > 0 {
        let rest = entries.drop_first();
        assert forall|j: int| 0 <= j < i - 1 implies rest[j].0@ != key by {
            assert(rest[j] == entries[j + 1]);
        }
        lemma_lookup_skip(rest, key, i - 1);
        assert(rest.subrange(i - 1, rest.len() as int) =~= entries.subrange(i, entries.len() as int));
    } else {
        assert(entries.subrange(0, entries.len() as int) =~= entries);
    }
}

/// Looks up the first entry whose key is `key`.
pub fn find_param<'a>(p: &'a Params, key: &str) -> (r: Option<&'a ParamValue>)
    ensures
        match r {
            Some(v) => lookup(p.entries@, key@) == Some(*v),
            None => lookup(p.entries@, key@) is None,
        },
{
    let n = p.entries.len();
    let mut i: usize = 0;
    while i < n
        invariant
            n == p.entries@.len(),
            i <= n,
            forall|j: int| 0 <= j < i ==> p.entries@[j].0@ != key@,
        decreases n - i,
    {
        let k = p.entries[i].0.as_str();
        if spells(k, 0, k.unicode_len(), key) {
            proof {
                assert(k@.subrange(0, k@.len() as int) =~= k@);
                lemma_lookup_skip(p.entries@, key@, i as int);
            }
            return Some(&p.entries[i].1);
        }
        proof {
            assert(k@.subrange(0, k@.len() as int) =~= k@);
        }
        i += 1;
    }
    proof {
        lemma_lookup_absent(p.entries@, key@);
    }
    None
}

proof fn lemma_lookup_absent(entries: Seq<(String, ParamValue)>, key: Seq<char>)
    requires
        forall|j: int| 0 <= j < entries.len() ==> entries[j].0@ != key,
    ensures
        lookup(entries, key) is None,
    decreases entries.len(),
{
    if entries.len() > 0 {
        let rest = entries.drop_first();
        assert forall|j: int| 0 <= j < rest.len() implies rest[j].0@ != key by {
            assert(rest[j] == entries[j + 1]);
        }
        lemma_lookup_absent(rest, key);
    }
}

/// Whether `s` holds a NUL character.
pub fn contains_nul(s: &str) -> (r: bool)
    ensures
        r == has_nul(s@),
{
    let n = s.unicode_len();
    let mut i: usize = 0;
    while i < n
        invariant
            n == s@.len(),
            i <= n,
            forall|j: int| 0 <= j < i ==> s@[j] != '\0',
        decreases n - i,
    {
        if s.get_char(i) == '\0' {
            return true;
        }
        i += 1;
    }
    false
}

/// Extracts the arguments of an `open` call: a string `path` (required,
/// without NUL characters), the `flags` string (read-only when absent) and,
/// when the flags ask for creation, the `mode` (octal 644 when absent).
pub fn extract_open(p: &Params) -> (r: Result<OpenRequest, ParamError>)
    ensures
        match r {
            Ok(q) => open_args(*p) == Ok::<OpenRequestView, ParamError>(q@),
            Err(e) => open_args(*p) == Err::<OpenRequestView, ParamError>(e),
        },
{
    let path = match find_param(p, "path") {
        Some(ParamValue::Text(s)) => s,
        _ => {
            return Err(ParamError::MissingPath);
        },
    };
    if contains_nul(path.as_str()) {
        return Err(ParamError::InvalidPath);
    }
    let flags = match find_param(p, "flags") {
        Some(ParamValue::Text(s)) => parse_flags(s.as_str()),
        _ => o_rdonly_value(),
    };
    let mode = if flags & o_creat_value() != 0 {
        let m: u64 = match find_param(p, "mode") {
            Some(ParamValue::Unsigned(m)) => *m,
            _ => 0o644,
        };
        Some(m as u32)
    } else {
        None
    };
    Ok(OpenRequest { path: path.clone(), flags, mode })
}

} // verus!
