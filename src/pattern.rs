//! Shell-style patterns over file names, as the glob crate matches them.

use crate::naming::{join_path, joined};
use vstd::prelude::*;

verus! {

#[verifier::external_type_specification]
#[verifier::external_body]
pub struct ExGlobPattern(glob::Pattern);

/// The glob crate accepts `pattern` as a pattern.
pub uninterp spec fn glob_accepts(pattern: Seq<char>) -> bool;

/// `name` matches `pattern` under glob's default options.
pub uninterp spec fn glob_matches(pattern: Seq<char>, name: Seq<char>) -> bool;

/// Relies on glob's `Pattern::new`: it compiles `text`, or rejects it with
/// an error whose text is returned.
#[verifier::external_body]
fn compile_glob(text: &str) -> (r: Result<glob::Pattern, String>)
    ensures
        r is Ok <==> glob_accepts(text@),
{
    match glob::Pattern::new(text) {
        Ok(p) => Ok(p),
        Err(e) => Err(e.to_string()),
    }
}

/// A compiled pattern, together with the text it was compiled from.
#[derive(Debug)]
pub struct GlobPattern {
    source: String,
    compiled: glob::Pattern,
}

impl View for GlobPattern {
    type V = Seq<char>;

    closed spec fn view(&self) -> Seq<char> {
        self.source@
    }
}

/// Relies on glob's `Pattern::matches` (default options) applied to the
/// pattern that `Pattern::new` compiled from the source text; a
/// `GlobPattern` is built only by `GlobPattern::new`, which keeps the two
/// together.
#[verifier::external_body]
fn pattern_matches(pattern: &GlobPattern, name: &str) -> (r: bool)
    ensures
        r == glob_matches(pattern@, name@),
{
    pattern.compiled.matches(name)
}

impl GlobPattern {
    /// Compiles `text`, or returns glob's reason for rejecting it.
    pub fn new(text: &str) -> (r: Result<GlobPattern, String>)
        ensures
            r is Ok <==> glob_accepts(text@),
            r matches Ok(p) ==> p@ == text@,
    {
        match compile_glob(text) {
            Ok(compiled) => {
                let p = GlobPattern { source: String::from_str(text), compiled };
                assert(p@ == text@);
                Ok(p)
            },
            Err(e) => Err(e),
        }
    }

    /// The text this pattern was compiled from.
    pub fn as_str(&self) -> (r: &str)
        ensures
            r@ == self@,
    {
        self.source.as_str()
    }

    /// Whether `name` matches this pattern.
    pub fn matches(&self, name: &str) -> (r: bool)
        ensures
            r == glob_matches(self@, name@),
    {
        pattern_matches(self, name)
    }
}

/// The pattern of archive file names.
pub open spec fn archive_pattern() -> Seq<char> {
    "*.7z"@
}

/// The paths under `dir` of the names that match `pattern`, in order.
pub open spec fn matching_paths(dir: Seq<char>, pattern: Seq<char>, names: Seq<String>) -> Seq<Seq<char>>
    decreases names.len(),
{
    if names.len() == 0 {
        Seq::empty()
    } else if glob_matches(pattern, names.last()@) {
        matching_paths(dir, pattern, names.drop_last()).push(joined(dir, names.last()@))
    } else {
        matching_paths(dir, pattern, names.drop_last())
    }
}

/// The archives among the file names of directory `dir`, as paths: every
/// name that matches `*.7z`, whatever its age. Both bulk upload and local
/// cleanup take all of them.
pub fn archives_in(dir: &str, names: &Vec<String>) -> (r: Result<Vec<String>, String>)
    ensures
        r is Ok <==> glob_accepts(archive_pattern()),
        r matches Ok(paths) ==> paths@.map_values(|p: String| p@) == matching_paths(
            dir@,
            archive_pattern(),
            names@,
        ),
{
    let pattern = match GlobPattern::new("*.7z") {
        Ok(p) => p,
        Err(e) => {
            return Err(e);
        },
    };
    let mut out: Vec<String> = Vec::new();
    let mut i: usize = 0;
    while i < names.len()
        invariant
            pattern@ == archive_pattern(),
            0 <= i <= names.len(),
            out@.map_values(|p: String| p@) == matching_paths(
                dir@,
                archive_pattern(),
                names@.subrange(0, i as int),
            ),
        decreases names.len() - i,
    {
        proof {
            assert(names@.subrange(0, i + 1).drop_last() =~= names@.subrange(0, i as int));
        }
        let name = &names[i];
        if pattern.matches(name.as_str()) {
            let p = join_path(dir, name.as_str());
            out.push(p);
            proof {
                assert(out@.map_values(|p: String| p@) =~= matching_paths(
                    dir@,
                    archive_pattern(),
                    names@.subrange(0, i as int),
                ).push(joined(dir@, name@)));
            }
        }
        i = i + 1;
    }
    proof {
        assert(names@.subrange(0, i as int) =~= names@);
    }
    Ok(out)
}

} // verus!
