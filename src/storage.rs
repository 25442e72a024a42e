//! Storage references, paths inside them, and the value types of paths.
use vstd::prelude::*;

use crate::error::MCAsmError;
use crate::scoreboard::{append_score, score_text, Scoreboard, ScoreboardView};
use crate::text::{chars_eq_str, chars_of, dec_nat, dec_string, string_of};

verus! {

/// The numeric width used when a value moves between a path and a register.
#[derive(Clone, Copy, Debug, PartialEq, Eq, Structural)]
pub enum StorageType {
    Byte,
    Short,
    Int,
    Long,
    Float,
    Double,
}

/// The lowercase keyword of a value type.
pub open spec fn type_keyword(t: StorageType) -> Seq<char> {
    match t {
        StorageType::Byte => "byte"@,
        StorageType::Short => "short"@,
        StorageType::Int => "int"@,
        StorageType::Long => "long"@,
        StorageType::Float => "float"@,
        StorageType::Double => "double"@,
    }
}

/// The value type whose keyword is `s`, if any.
pub open spec fn type_of(s: Seq<char>) -> Option<StorageType> {
    if s == "byte"@ {
        Some(StorageType::Byte)
    } else if s == "short"@ {
        Some(StorageType::Short)
    } else if s == "int"@ {
        Some(StorageType::Int)
    } else if s == "long"@ {
        Some(StorageType::Long)
    } else if s == "float"@ {
        Some(StorageType::Float)
    } else if s == "double"@ {
        Some(StorageType::Double)
    } else {
        None
    }
}

impl StorageType {
    /// The value type named by the keyword `from` (case-sensitive).
    pub fn try_from(from: &str) -> (r: Option<StorageType>)
        ensures
            r == type_of(from@),
    {
        let cs = chars_of(from);
        StorageType::from_chars(cs.as_slice())
    }

    /// [`StorageType::try_from`] on the characters of a keyword.
    pub fn from_chars(cs: &[char]) -> (r: Option<StorageType>)
        ensures
            r == type_of(cs@),
    {
        if chars_eq_str(cs, "byte") {
            Some(StorageType::Byte)
        } else if chars_eq_str(cs, "short") {
            Some(StorageType::Short)
        } else if chars_eq_str(cs, "int") {
            Some(StorageType::Int)
        } else if chars_eq_str(cs, "long") {
            Some(StorageType::Long)
        } else if chars_eq_str(cs, "float") {
            Some(StorageType::Float)
        } else if chars_eq_str(cs, "double") {
            Some(StorageType::Double)
        } else {
            None
        }
    }

    /// The keyword of this value type.
    pub fn to_string(&self) -> (r: String)
        ensures
            r@ == type_keyword(*self),
    {
        match self {
            StorageType::Byte => String::from_str("byte"),
            StorageType::Short => String::from_str("short"),
            StorageType::Int => String::from_str("int"),
            StorageType::Long => String::from_str("long"),
            StorageType::Float => String::from_str("float"),
            StorageType::Double => String::from_str("double"),
        }
    }
}

/// A named structured-data container, written `namespace:name`.
pub struct Storage {
    pub namespace: String,
    pub name: String,
}

/// The texts that name a storage.
pub struct StorageView {
    pub namespace: Seq<char>,
    pub name: Seq<char>,
}

impl View for Storage {
    type V = StorageView;

    open spec fn view(&self) -> StorageView {
        StorageView { namespace: self.namespace@, name: self.name@ }
    }
}

/// The characters a namespace or a storage name may hold: `[a-z0-9_\-.]`.
pub open spec fn is_storage_char(c: char) -> bool {
    ('a' <= c && c <= 'z') || ('0' <= c && c <= '9') || c == '_' || c == '-' || c == '.'
}

/// Where the run of storage characters that starts at `i` ends.
pub open spec fn run_end(s: Seq<char>, i: int) -> int
    decreases s.len() - i,
{
    if 0 <= i < s.len() && is_storage_char(s[i]) {
        run_end(s, i + 1)
    } else {
        i
    }
}

/// Whether `([a-z0-9_\-.]+):([a-z0-9_\-.]+)` matches `s` from `i` on. The
/// first run cannot hold a `:`, so it is the whole run that starts at `i`.
pub open spec fn storage_match_at(s: Seq<char>, i: int) -> bool {
    let e = run_end(s, i);
    0 <= i && e > i && e + 1 < s.len() && s[e] == ':' && is_storage_char(s[e + 1])
}

/// The storage named by the leftmost match of
/// `([a-z0-9_\-.]+):([a-z0-9_\-.]+)` in `s`, each run taken as long as it goes.
#[verifier::opaque]
pub open spec fn storage_of(s: Seq<char>) -> Option<StorageView> {
    if exists|i: int| storage_match_at(s, i) {
        let i = choose|i: int|
            storage_match_at(s, i) && forall|j: int| 0 <= j < i ==> !storage_match_at(s, j);
        let e = run_end(s, i);
        Some(StorageView { namespace: s.subrange(i, e), name: s.subrange(e + 1, run_end(s, e + 1)) })
    } else {
        None
    }
}

/// The pattern of a storage reference: two runs of `[a-z0-9_\-.]` around a `:`.
pub const STORAGE_PATTERN: &'static str = r"([a-z0-9\_\-\.]+):([a-z0-9\_\-\.]+)";

/// Relies on `regex::Regex::new`, which compiles this fixed pattern, and on
/// `regex::Regex::captures`, which returns the groups of the first match: the
/// one that starts leftmost, with `+` repeating greedily.
#[verifier::external_body]
fn storage_captures(pattern: &str, haystack: &str) -> (r: Option<(String, String)>)
    requires
        pattern@ == STORAGE_PATTERN@,
    ensures
        match r {
            Some(p) => storage_of(haystack@) == Some(
                StorageView { namespace: p.0@, name: p.1@ },
            ),
            None => storage_of(haystack@) is None,
        },
{
    let re = regex::Regex::new(pattern).unwrap();
    re.captures(haystack).map(|c| (c[1].to_string(), c[2].to_string()))
}

/// `namespace:name`.
pub open spec fn fullname_text(s: StorageView) -> Seq<char> {
    s.namespace + ":"@ + s.name
}

/// `execute store result score <register> run data get <storage> <path> <magnification>`.
pub open spec fn store_to_score_text(
    st: StorageView,
    sb: ScoreboardView,
    path: Seq<char>,
    magnification: nat,
) -> Seq<char> {
    "execute store result score "@ + score_text(sb) + " run data get "@ + fullname_text(st)
        + " "@ + path + " "@ + dec_nat(magnification)
}

impl Storage {
    /// Reads the first `namespace:name` in `from`.
    pub fn try_from(from: &str) -> (r: Result<Storage, MCAsmError>)
        ensures
            match r {
                Ok(s) => storage_of(from@) == Some(s@),
                Err(e) => storage_of(from@) is None && e == MCAsmError::InvalidStorage,
            },
    {
        match storage_captures(STORAGE_PATTERN, from) {
            Some((namespace, name)) => Ok(Storage { namespace, name }),
            None => Err(MCAsmError::InvalidStorage),
        }
    }

    /// `namespace:name`.
    pub fn fullname(&self) -> (r: String)
        ensures
            r@ == fullname_text(self@),
    {
        let mut out = String::new();
        out.append(self.namespace.as_str());
        out.append(":");
        out.append(self.name.as_str());
        assert(out@ =~= fullname_text(self@));
        out
    }

    /// Stores the value at `path` in this storage, scaled by `magnification`,
    /// into `scoreboard`.
    pub fn store_to_score(&self, scoreboard: &Scoreboard, path: &String, magnification: u32) -> (r:
        String)
        ensures
            r@ == store_to_score_text(self@, scoreboard@, path@, magnification as nat),
    {
        let mut out = String::new();
        out.append("execute store result score ");
        append_score(&mut out, scoreboard);
        out.append(" run data get ");
        out.append(self.fullname().as_str());
        out.append(" ");
        out.append(path.as_str());
        out.append(" ");
        out.append(dec_string(magnification as i64).as_str());
        assert(out@ =~= store_to_score_text(self@, scoreboard@, path@, magnification as nat));
        out
    }
}

/// A location inside a storage and the value type read or written there.
pub struct Path {
    pub path: String,
    pub type_annotation: StorageType,
}

/// The path text and its value type.
pub struct PathView {
    pub path: Seq<char>,
    pub type_annotation: StorageType,
}

impl View for Path {
    type V = PathView;

    open spec fn view(&self) -> PathView {
        PathView { path: self.path@, type_annotation: self.type_annotation }
    }
}

/// Whether `s[k..k + 3]` is `::<`.
pub open spec fn annotation_at(s: Seq<char>, k: int) -> bool {
    0 <= k && k + 2 < s.len() && s[k] == ':' && s[k + 1] == ':' && s[k + 2] == '<'
}

/// A path written `<path>::<<type>>` names the type between its last `::<` and
/// its final `>`; a path that does not end so is all path, of type `int`.
#[verifier::opaque]
pub open spec fn path_of(s: Seq<char>) -> Result<PathView, MCAsmError> {
    if s.len() > 0 && s.last() == '>' && exists|k: int| annotation_at(s, k) {
        let k = choose|k: int|
            annotation_at(s, k) && forall|j: int| k < j ==> !annotation_at(s, j);
        match type_of(s.subrange(k + 3, s.len() - 1)) {
            Some(t) => Ok(PathView { path: s.take(k), type_annotation: t }),
            None => Err(MCAsmError::UnknownType),
        }
    } else {
        Ok(PathView { path: s, type_annotation: StorageType::Int })
    }
}

impl Path {
    /// Reads a path with an optional `::<type>` suffix.
    pub fn try_from(from: &str) -> (r: Result<Path, MCAsmError>)
        ensures
            match r {
                Ok(p) => path_of(from@) == Ok::<PathView, MCAsmError>(p@),
                Err(e) => path_of(from@) == Err::<PathView, MCAsmError>(e),
            },
    {
        let cs = chars_of(from);
        Path::from_chars(cs.as_slice())
    }

    /// [`Path::try_from`] on the characters of a word.
    pub fn from_chars(cs: &[char]) -> (r: Result<Path, MCAsmError>)
        ensures
            match r {
                Ok(p) => path_of(cs@) == Ok::<PathView, MCAsmError>(p@),
                Err(e) => path_of(cs@) == Err::<PathView, MCAsmError>(e),
            },
    {
        reveal(path_of);
        let n = cs.len();
        if n > 0 && cs[n - 1] == '>' {
            let mut k: usize = n;
            while k > 0
                invariant
                    k <= n,
                    n == cs@.len(),
                    n > 0,
                    cs@[n - 1] == '>',
                    forall|j: int| k <= j ==> !annotation_at(cs@, j),
                decreases k,
            {
                k = k - 1;
                if n - k > 2 && cs[k] == ':' && cs[k + 1] == ':' && cs[k + 2] == '<' {
                    proof {
                        reveal(path_of);
                        assert(annotation_at(cs@, k as int));
                        let c = choose|c: int|
                            annotation_at(cs@, c) && forall|j: int| c < j ==> !annotation_at(cs@, j);
                        assert(c == k);
                        assert(path_of(cs@) == match type_of(cs@.subrange(k + 3, n - 1)) {
                            Some(t) => Ok(PathView { path: cs@.take(k as int), type_annotation: t }),
                            None => Err(MCAsmError::UnknownType),
                        });
                    }
                    let ann = vstd::slice::slice_subrange(cs, k + 3, n - 1);
                    return match StorageType::from_chars(ann) {
                        Some(t) => {
                            let path = string_of(vstd::slice::slice_subrange(cs, 0, k));
                            assert(cs@.subrange(0, k as int) == cs@.take(k as int));
                            Ok(Path { path, type_annotation: t })
                        },
                        None => Err(MCAsmError::UnknownType),
                    };
                }
            }
            assert forall|j: int| !annotation_at(cs@, j) by {
                if j < 0 {
                }
            }
        }
        Ok(Path { path: string_of(cs), type_annotation: StorageType::Int })
    }
}

impl Scoreboard {
    /// Stores this register, scaled by `magnif`, into `path` of `storage` as a
    /// value of type `ntb_type`.
    pub fn storage_to_score(
        &self,
        storage: &Storage,
        ntb_type: &StorageType,
        path: &String,
        magnif: u32,
    ) -> (r: String)
        ensures
            r@ == storage_to_score_text(self@, storage@, *ntb_type, path@, magnif as nat),
    {
        let mut out = String::new();
        out.append("execute store result storage ");
        out.append(storage.fullname().as_str());
        out.append(" ");
        out.append(path.as_str());
        out.append(" ");
        out.append(ntb_type.to_string().as_str());
        out.append(" ");
        out.append(dec_string(magnif as i64).as_str());
        out.append(" run ");
        out.append(self.get().command.as_str());
        assert(out@ =~= storage_to_score_text(self@, storage@, *ntb_type, path@, magnif as nat));
        out
    }
}

/// `execute store result storage <storage> <path> <type> <magnification> run
/// scoreboard players get <register>`.
pub open spec fn storage_to_score_text(
    sb: ScoreboardView,
    st: StorageView,
    t: StorageType,
    path: Seq<char>,
    magnification: nat,
) -> Seq<char> {
    "execute store result storage "@ + fullname_text(st) + " "@ + path + " "@ + type_keyword(t)
        + " "@ + dec_nat(magnification) + " run "@ + crate::scoreboard::get_text(sb)
}

} // verus!
