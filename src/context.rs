use vstd::prelude::*;
use vstd::string::StringSliceAdditionalSpecFns;

verus! {

/// `t` occurs in `s` at position `i` as a whole space-separated word.
pub open spec fn word_at(s: Seq<u8>, t: Seq<u8>, i: int) -> bool {
    &&& 0 <= i && i + t.len() <= s.len()
    &&& s.subrange(i, i + t.len()) == t
    &&& i == 0 || s[i - 1] == 32u8
    &&& i + t.len() == s.len() || s[i + t.len()] == 32u8
}

/// `t` is one of the space-separated words of `s`.
pub open spec fn has_word(s: Seq<u8>, t: Seq<u8>) -> bool {
    exists|i: int| word_at(s, t, i)
}

/// The extension that lets a context be made current without a surface.
pub open spec fn surfaceless_name() -> Seq<u8> {
    "EGL_KHR_surfaceless_context".spec_bytes()
}

/// The extension that lets a context be created with explicit attributes.
pub open spec fn create_context_name() -> Seq<u8> {
    "EGL_KHR_create_context".spec_bytes()
}

/// A rendering-context capability that the display does not offer.
#[derive(Clone, Copy, Debug, PartialEq, Eq, Structural)]
pub enum MissingExtension {
    SurfacelessContext,
    CreateContext,
}

fn matches_at(s: &[u8], t: &[u8], i: usize) -> (r: bool)
    requires
        i + t@.len() <= s@.len(),
    ensures
        r == (s@.subrange(i as int, i + t@.len()) == t@),
{
    let n: usize = s.len();
    let mut k: usize = 0;
    while k < t.len()
        invariant
            n == s@.len(),
            k <= t@.len(),
            i + t@.len() <= s@.len(),
            forall|j: int| 0 <= j < k ==> s@[i + j] == t@[j],
        decreases t.len() - k,
    {
        if s[i + k] != t[k] {
            proof {
                assert(s@.subrange(i as int, i + t@.len())[k as int] != t@[k as int]);
            }
            return false;
        }
        k = k + 1;
    }
    proof {
        assert(s@.subrange(i as int, i + t@.len()) =~= t@);
    }
    true
}

/// Whether `t` is one of the space-separated words of `s`.
pub fn contains_word(s: &[u8], t: &[u8]) -> (r: bool)
    ensures
        r == has_word(s@, t@),
{
    if t.len() > s.len() {
        return false;
    }
    let last: usize = s.len() - t.len();
    let mut i: usize = 0;
    loop
        invariant
            t@.len() <= s@.len(),
            last == s@.len() - t@.len(),
            i <= last,
            forall|j: int| 0 <= j < i ==> !word_at(s@, t@, j),
        decreases last - i,
    {
        let before = i == 0 || s[i - 1] == 32u8;
        let after = i + t.len() == s.len() || s[i + t.len()] == 32u8;
        if before && after && matches_at(s, t, i) {
            assert(word_at(s@, t@, i as int));
            return true;
        }
        if i == last {
            return false;
        }
        i = i + 1;
    }
}

/// Checks the display's extension list (space-separated names) for the two
/// capabilities a render target needs, and names the first one missing.
pub fn check_extensions(extensions: &str) -> (r: Result<(), MissingExtension>)
    ensures
        r == (if !has_word(extensions.spec_bytes(), surfaceless_name()) {
            Err(MissingExtension::SurfacelessContext)
        } else if !has_word(extensions.spec_bytes(), create_context_name()) {
            Err(MissingExtension::CreateContext)
        } else {
            Ok(())
        }),
{
    let list = extensions.as_bytes();
    if !contains_word(list, "EGL_KHR_surfaceless_context".as_bytes()) {
        return Err(MissingExtension::SurfacelessContext);
    }
    if !contains_word(list, "EGL_KHR_create_context".as_bytes()) {
        return Err(MissingExtension::CreateContext);
    }
    Ok(())
}

} // verus!
