//! Decides which directory entries the scan is after: a directory matches
//! when its path ends with the fixed target name, and hidden entries are
//! recognised from their platform file attributes.

use vstd::prelude::*;
use vstd::std_specs::iter::IteratorSpec;

verus! {

/// File-attribute bit that marks an entry as hidden on platforms that
/// record hiddenness in metadata attributes.
pub const ATTR_HIDDEN: u32 = 2;

/// The fixed directory name the scan searches for.
pub open spec fn target_name() -> Seq<char> {
    "node_modules"@
}

/// A path identifies a target directory when it ends with the target name.
pub open spec fn is_match(path: Seq<char>) -> bool {
    &&& path.len() >= target_name().len()
    &&& path.subrange(path.len() - target_name().len(), path.len() as int) == target_name()
}

/// Collects the characters of a string slice into a vector.
fn chars_of(s: &str) -> (r: Vec<char>)
    ensures
        r@ == s@,
{
    broadcast use vstd::string::next_postcondition, vstd::string::axiom_spec_iter;

    let mut it = s.chars();
    let mut r: Vec<char> = Vec::new();
    loop
        invariant
            r@ + it.remaining() == s@,
            it.decrease() is Some,
        ensures
            r@ == s@,
        decreases it.decrease()->0,
    {
        match it.next() {
            Some(c) => {
                r.push(c);
            },
            None => {
                proof {
                    assert(r@ =~= s@);
                }
                break ;
            },
        }
    }
    r
}

/// Does this path identify a target directory?
pub fn is_match_name(path: &str) -> (r: bool)
    ensures
        r == is_match(path@),
{
    let chars = chars_of(path);
    let pat = chars_of("node_modules");
    if chars.len() < pat.len() {
        return false;
    }
    let start = chars.len() - pat.len();
    let ghost suffix = path@.subrange(path@.len() - target_name().len(), path@.len() as int);
    let mut i: usize = 0;
    while i < pat.len()
        invariant
            chars@ == path@,
            pat@ == target_name(),
            pat.len() <= chars.len(),
            start == chars.len() - pat.len(),
            suffix == path@.subrange(path@.len() - target_name().len(), path@.len() as int),
            0 <= i <= pat.len(),
            forall|j: int| 0 <= j < i ==> suffix[j] == pat@[j],
        decreases pat.len() - i,
    {
        if chars[start + i] != pat[i] {
            proof {
                assert(suffix[i as int] == chars@[start + i]);
            }
            return false;
        }
        i += 1;
    }
    proof {
        assert(suffix =~= target_name());
    }
    true
}

/// Is an entry with these file attributes hidden?  Only platforms that
/// record hiddenness in attributes (`attrs_supported`) can say yes; on every
/// other platform an entry is never hidden.
pub open spec fn spec_hidden(attrs_supported: bool, attributes: u32) -> bool {
    attrs_supported && attributes & ATTR_HIDDEN > 0
}

/// Decides hiddenness from an entry's file attributes, degrading to "never
/// hidden" on platforms without an attribute bit for it.
pub fn is_hidden_attributes(attrs_supported: bool, attributes: u32) -> (r: bool)
    ensures
        r == spec_hidden(attrs_supported, attributes),
{
    if attrs_supported {
        attributes & ATTR_HIDDEN > 0
    } else {
        false
    }
}

} // verus!
