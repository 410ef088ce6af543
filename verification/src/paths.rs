//! File paths: the parts of a path that std's `Path` reads, and the choice of
//! a free file name next to an existing one.
use vstd::prelude::*;
use crate::text::{opt_view, owned, push_chars, push_str, u64_to_decimal, decimal};

verus! {

/// What `Path::parent` gives for a path text.
pub uninterp spec fn std_path_parent(p: Seq<char>) -> Option<Seq<char>>;

/// What `Path::file_stem` gives for a path text.
pub uninterp spec fn std_path_file_stem(p: Seq<char>) -> Option<Seq<char>>;

/// What `Path::extension` gives for a path text.
pub uninterp spec fn std_path_extension(p: Seq<char>) -> Option<Seq<char>>;

/// What `Path::join` gives for a base path and a further part.
pub uninterp spec fn std_path_join(base: Seq<char>, part: Seq<char>) -> Seq<char>;

/// `std::path::Path::parent`: the path without its final component, if it
/// has one. The contract names the result; a text taken from `&str` is
/// valid UTF-8, so the conversion back loses nothing.
#[verifier::external_body]
pub(crate) fn path_parent(p: &str) -> (r: Option<String>)
    ensures
        opt_view(r) == std_path_parent(p@),
{
    match std::path::Path::new(p).parent() {
        Some(q) => Some(q.to_string_lossy().into_owned()),
        None => None,
    }
}

/// `std::path::Path::file_stem`: the final component without its extension.
/// The contract names the result.
#[verifier::external_body]
pub(crate) fn path_file_stem(p: &str) -> (r: Option<String>)
    ensures
        opt_view(r) == std_path_file_stem(p@),
{
    match std::path::Path::new(p).file_stem() {
        Some(q) => Some(q.to_string_lossy().into_owned()),
        None => None,
    }
}

/// `std::path::Path::extension`: the part of the final component after its
/// last dot. The contract names the result.
#[verifier::external_body]
pub(crate) fn path_extension(p: &str) -> (r: Option<String>)
    ensures
        opt_view(r) == std_path_extension(p@),
{
    match std::path::Path::new(p).extension() {
        Some(q) => Some(q.to_string_lossy().into_owned()),
        None => None,
    }
}

/// `std::path::Path::join`: `part` appended to `base` as a further
/// component. The contract names the result; how a part is adjoined
/// depends on the platform's path rules, so nothing more is stated.
#[verifier::external_body]
pub(crate) fn path_join(base: &str, part: &str) -> (r: String)
    ensures
        r@ == std_path_join(base@, part@),
{
    std::path::Path::new(base).join(part).to_string_lossy().into_owned()
}

/// What `Path::with_extension` gives for a path text and an extension.
pub uninterp spec fn std_path_with_extension(p: Seq<char>, ext: Seq<char>) -> Seq<char>;

/// `std::path::Path::with_extension`: the path with its extension replaced
/// by `ext`. The contract names the result. `ext` holds neither `/` nor
/// `\`: the extension is set through `PathBuf::set_extension`, which panics
/// on an extension that holds a path separator, and those two are the
/// separators of the platforms the application runs on.
#[verifier::external_body]
pub(crate) fn path_with_extension(p: &str, ext: &str) -> (r: String)
    requires
        !ext@.contains('/'),
        !ext@.contains('\\'),
    ensures
        r@ == std_path_with_extension(p@, ext@),
{
    std::path::Path::new(p).with_extension(ext).to_string_lossy().into_owned()
}

/// The directory in which a free name is sought: the parent of `base`, or `.`.
pub open spec fn unique_parent(base: Seq<char>) -> Seq<char> {
    match std_path_parent(base) {
        Some(p) => p,
        None => seq!['.'],
    }
}

/// The stem of `base`, or `file`.
pub open spec fn unique_stem(base: Seq<char>) -> Seq<char> {
    match std_path_file_stem(base) {
        Some(s) => s,
        None => seq!['f', 'i', 'l', 'e'],
    }
}

/// The extension of `base`, or nothing.
pub open spec fn unique_ext(base: Seq<char>) -> Seq<char> {
    match std_path_extension(base) {
        Some(e) => e,
        None => Seq::empty(),
    }
}

/// `name` followed by `.ext` where the extension is not empty.
pub open spec fn with_ext(name: Seq<char>, ext: Seq<char>) -> Seq<char> {
    if ext.len() == 0 { name } else { name + seq!['.'] + ext }
}

/// `stem (i)` with the extension: the i-th numbered name.
pub open spec fn numbered_name(stem: Seq<char>, i: nat, ext: Seq<char>) -> Seq<char> {
    with_ext(stem + seq![' ', '('] + decimal(i) + seq![')'], ext)
}

/// `stem_ts` with the extension: the name used when every numbered name is taken.
pub open spec fn stamped_name(stem: Seq<char>, ts: nat, ext: Seq<char>) -> Seq<char> {
    with_ext(stem + seq!['_'] + decimal(ts), ext)
}

/// The i-th candidate next to `base`.
pub open spec fn numbered_candidate(base: Seq<char>, i: nat) -> Seq<char> {
    std_path_join(unique_parent(base), numbered_name(unique_stem(base), i, unique_ext(base)))
}

/// The candidate used once the numbered ones run out.
pub open spec fn stamped_candidate(base: Seq<char>, ts: nat) -> Seq<char> {
    std_path_join(unique_parent(base), stamped_name(unique_stem(base), ts, unique_ext(base)))
}

/// How many numbered names are tried before the time stamp is used.
pub open spec fn max_numbered() -> nat {
    1000
}

/// `file_exists` may answer `b` for the path text `p`.
pub open spec fn answered<F: Fn(&str) -> bool>(file_exists: F, p: Seq<char>, b: bool) -> bool {
    exists|s: &str| s@ == p && call_ensures(file_exists, (s,), b)
}

fn numbered_name_exec(stem: &str, i: u64, ext: &str) -> (r: String)
    ensures
        r@ == numbered_name(stem@, i as nat, ext@),
{
    let mut s = owned(stem);
    push_str(&mut s, " (");
    let d = u64_to_decimal(i);
    push_chars(&mut s, &d);
    push_str(&mut s, ")");
    if !ext.is_empty() {
        push_str(&mut s, ".");
        push_str(&mut s, ext);
    }
    proof {
        reveal_strlit(" (");
        reveal_strlit(")");
        reveal_strlit(".");
    }
    assert(s@ =~= numbered_name(stem@, i as nat, ext@));
    s
}

fn stamped_name_exec(stem: &str, ts: u64, ext: &str) -> (r: String)
    ensures
        r@ == stamped_name(stem@, ts as nat, ext@),
{
    let mut s = owned(stem);
    push_str(&mut s, "_");
    let d = u64_to_decimal(ts);
    push_chars(&mut s, &d);
    if !ext.is_empty() {
        push_str(&mut s, ".");
        push_str(&mut s, ext);
    }
    proof {
        reveal_strlit("_");
        reveal_strlit(".");
    }
    assert(s@ =~= stamped_name(stem@, ts as nat, ext@));
    s
}

/// A path next to `base_path` that `file_exists` reports as free, as a browser
/// names a second download: `base_path` itself when it is free, else the
/// first free `stem (i).ext` for i from 1 to 1000 in the same directory,
/// else `stem_timestamp.ext` when that is free; `None` when every one of
/// them is taken. `file_exists` is asked about each candidate in turn, so a
/// path returned was reported free, and it is `base_path` itself or a name
/// joined to the directory of `base_path`.
pub fn get_unique_file_path<F: Fn(&str) -> bool>(base_path: &str, file_exists: F, timestamp: u64) -> (r: Option<String>)
    requires
        forall|s: &str| call_requires(file_exists, (s,)),
    ensures
        ({
            let b = base_path@;
            let all_numbered_taken = forall|j: nat|
                1 <= j <= max_numbered() ==> answered(file_exists, #[trigger] numbered_candidate(b, j), true);
            match r {
                Some(p) => {
                    ||| p@ == b && answered(file_exists, b, false)
                    ||| answered(file_exists, b, true) && exists|i: nat|
                        1 <= i <= max_numbered() && p@ == numbered_candidate(b, i)
                            && answered(file_exists, numbered_candidate(b, i), false)
                            && (forall|j: nat| 1 <= j < i ==> answered(file_exists, #[trigger] numbered_candidate(b, j), true))
                    ||| answered(file_exists, b, true) && all_numbered_taken
                        && p@ == stamped_candidate(b, timestamp as nat)
                        && answered(file_exists, stamped_candidate(b, timestamp as nat), false)
                },
                None => answered(file_exists, b, true) && all_numbered_taken
                    && answered(file_exists, stamped_candidate(b, timestamp as nat), true),
            }
        }),
        r matches Some(p) ==> p@ == base_path@ || exists|name: Seq<char>|
            p@ == #[trigger] std_path_join(unique_parent(base_path@), name),
{
    let ghost b = base_path@;
    let base_taken = file_exists(base_path);
    if !base_taken {
        assert(answered(file_exists, b, false));
        return Some(owned(base_path));
    }
    assert(answered(file_exists, b, true));
    let parent = match path_parent(base_path) {
        Some(p) => p,
        None => owned("."),
    };
    let stem = match path_file_stem(base_path) {
        Some(s) => s,
        None => owned("file"),
    };
    let ext = match path_extension(base_path) {
        Some(e) => e,
        None => String::new(),
    };
    proof {
        reveal_strlit(".");
        reveal_strlit("file");
    }
    assert(parent@ == unique_parent(b));
    assert(stem@ == unique_stem(b));
    assert(ext@ == unique_ext(b));
    let mut index: u64 = 1;
    while index <= 1000
        invariant
            1 <= index <= 1001,
            parent@ == unique_parent(b),
            stem@ == unique_stem(b),
            ext@ == unique_ext(b),
            b == base_path@,
            answered(file_exists, b, true),
            forall|s: &str| call_requires(file_exists, (s,)),
            forall|j: nat| 1 <= j < index ==> answered(file_exists, #[trigger] numbered_candidate(b, j), true),
        decreases 1001 - index,
    {
        let name = numbered_name_exec(stem.as_str(), index, ext.as_str());
        let candidate = path_join(parent.as_str(), name.as_str());
        assert(candidate@ == numbered_candidate(b, index as nat));
        let taken = file_exists(candidate.as_str());
        if !taken {
            assert(answered(file_exists, numbered_candidate(b, index as nat), false));
            return Some(candidate);
        }
        assert(answered(file_exists, numbered_candidate(b, index as nat), true));
        index = index + 1;
    }
    let name = stamped_name_exec(stem.as_str(), timestamp, ext.as_str());
    let r = path_join(parent.as_str(), name.as_str());
    assert(r@ == stamped_candidate(b, timestamp as nat));
    if file_exists(r.as_str()) {
        assert(answered(file_exists, stamped_candidate(b, timestamp as nat), true));
        None
    } else {
        assert(answered(file_exists, stamped_candidate(b, timestamp as nat), false));
        Some(r)
    }
}

} // verus!
