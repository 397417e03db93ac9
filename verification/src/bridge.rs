//! The capability bridge: the security boundary between the host and a
//! sandboxed guest.
//!
//! Before a guest runs, the host pre-opens a fixed, pre-declared set of
//! directories (the models root and the images root) and grants the guest
//! read access to those and nothing else.  The check below decides which
//! requested paths fall inside the grant: a path is permitted only when it
//! is relative, names no parent (`..`) segment, and descends from one of
//! the declared roots.  Paths are byte strings normalized to
//! forward-slash separators (see `normalize_separators`).

use vstd::prelude::*;

verus! {

/// The forward-slash separator byte.
pub open spec fn sep() -> u8 {
    47u8
}

/// What normalization does to one byte: a backslash becomes a forward
/// slash, every other byte is kept.
pub open spec fn normalize_byte(b: u8) -> u8 {
    if b == 92u8 {
        47u8
    } else {
        b
    }
}

/// Rewrites a path to forward-slash separators, byte for byte.
pub fn normalize_separators(path: &Vec<u8>) -> (r: Vec<u8>)
    ensures
        r@.len() == path@.len(),
        forall|i: int| 0 <= i < path@.len() ==> r@[i] == normalize_byte(#[trigger] path@[i]),
{
    let n = path.len();
    let mut out: Vec<u8> = Vec::new();
    let mut i: usize = 0;
    while i < n
        invariant
            i <= n,
            n == path@.len(),
            out@.len() == i,
            forall|j: int| 0 <= j < i ==> out@[j] == normalize_byte(#[trigger] path@[j]),
        decreases n - i,
    {
        let b = path[i];
        if b == 92u8 {
            out.push(47u8);
        } else {
            out.push(b);
        }
        i = i + 1;
    }
    out
}

/// The path begins with a separator, so it names an absolute location.
pub open spec fn is_absolute(p: Seq<u8>) -> bool {
    p.len() > 0 && p[0] == sep()
}

/// A parent (`..`) segment starts at byte `i`: two dots bounded by the
/// path's ends or by separators.
pub open spec fn dotdot_at(p: Seq<u8>, i: int) -> bool {
    &&& 0 <= i
    &&& i + 2 <= p.len()
    &&& p[i] == 46u8
    &&& p[i + 1] == 46u8
    &&& (i == 0 || p[i - 1] == sep())
    &&& (i + 2 == p.len() || p[i + 2] == sep())
}

/// The path names a parent directory somewhere.
pub open spec fn has_parent_segment(p: Seq<u8>) -> bool {
    exists|i: int| dotdot_at(p, i)
}

/// `p` descends from the directory `root`: it starts with `root` followed
/// by a separator and at least one more byte.
pub open spec fn descends_from(root: Seq<u8>, p: Seq<u8>) -> bool {
    &&& p.len() > root.len() + 1
    &&& p.subrange(0, root.len() as int) == root
    &&& p[root.len() as int] == sep()
}

/// The bridge's whole judgement: a requested path is inside the grant iff
/// it is relative, never climbs to a parent, and descends from one of the
/// declared roots.
pub open spec fn permitted(roots: Seq<Seq<u8>>, p: Seq<u8>) -> bool {
    &&& !is_absolute(p)
    &&& !has_parent_segment(p)
    &&& exists|k: int| 0 <= k < roots.len() && descends_from(#[trigger] roots[k], p)
}

/// A declared root is acceptable when it is itself a confined relative
/// name: nonempty, relative, no parent segment, and no trailing
/// separator (so that `root + "/"` is a clean prefix).
pub open spec fn valid_root(r: Seq<u8>) -> bool {
    &&& r.len() > 0
    &&& !is_absolute(r)
    &&& !has_parent_segment(r)
    &&& r[r.len() - 1] != sep()
}

/// Decides whether `p` has a parent segment.
fn scan_parent_segment(p: &Vec<u8>) -> (r: bool)
    ensures
        r == has_parent_segment(p@),
{
    let n = p.len();
    if n < 2 {
        assert(!has_parent_segment(p@)) by {
            assert(forall|i: int| !dotdot_at(p@, i));
        }
        return false;
    }
    let mut i: usize = 0;
    while i <= n - 2
        invariant
            i <= n - 1,
            n == p@.len(),
            n >= 2,
            forall|j: int| 0 <= j < i ==> !dotdot_at(p@, j),
        decreases n - i,
    {
        if p[i] == 46u8 && p[i + 1] == 46u8 && (i == 0 || p[i - 1] == 47u8) && (i + 2 == n || p[i
            + 2] == 47u8) {
            assert(dotdot_at(p@, i as int));
            return true;
        }
        assert(!dotdot_at(p@, i as int));
        i = i + 1;
    }
    assert forall|j: int| !dotdot_at(p@, j) by {
        if j >= i {
            assert(j + 2 > p@.len());
        }
    }
    false
}

/// Decides whether `p` descends from `root`.
fn check_descends(root: &Vec<u8>, p: &Vec<u8>) -> (r: bool)
    ensures
        r == descends_from(root@, p@),
{
    let rl = root.len();
    let pl = p.len();
    if pl < 2 || pl - 2 < rl {
        return false;
    }
    let mut i: usize = 0;
    while i < rl
        invariant
            i <= rl,
            rl == root@.len(),
            pl == p@.len(),
            pl >= rl + 2,
            forall|j: int| 0 <= j < i ==> p@[j] == root@[j],
        decreases rl - i,
    {
        if p[i] != root[i] {
            assert(p@.subrange(0, rl as int) != root@) by {
                assert(p@.subrange(0, rl as int)[i as int] == p@[i as int]);
            }
            return false;
        }
        i = i + 1;
    }
    proof {
        assert(p@.subrange(0, rl as int) =~= root@);
    }
    p[rl] == 47u8
}

/// Grants read access to a fixed set of pre-declared host directories and
/// nothing else; a guest's resource references cross the boundary as
/// catalog handles, never as raw paths.
pub struct CapabilityBridge {
    roots: Vec<Vec<u8>>,
}

impl View for CapabilityBridge {
    type V = Seq<Seq<u8>>;

    /// The declared roots, in declaration order.
    closed spec fn view(&self) -> Seq<Seq<u8>> {
        self.roots.deep_view()
    }
}

impl CapabilityBridge {
    pub open spec fn wf(&self) -> bool {
        forall|k: int| 0 <= k < self@.len() ==> valid_root(#[trigger] self@[k])
    }

    /// Declares the directories the guest may read.  Construction
    /// succeeds exactly when every root is a confined relative name;
    /// whether each root exists on disk is the host process's check,
    /// made before any inference is attempted.
    pub fn new(roots: Vec<Vec<u8>>) -> (r: Result<Self, crate::errors::ErrorType>)
        ensures
            match r {
                Result::Ok(bridge) => {
                    &&& bridge.wf()
                    &&& bridge@ == roots.deep_view()
                    &&& forall|k: int|
                        0 <= k < roots.deep_view().len() ==> valid_root(
                            #[trigger] roots.deep_view()[k],
                        )
                },
                Result::Err(e) => {
                    &&& e == crate::errors::ErrorType::SessionCreation
                    &&& !(forall|k: int|
                        0 <= k < roots.deep_view().len() ==> valid_root(
                            #[trigger] roots.deep_view()[k],
                        ))
                },
            },
    {
        let n = roots.len();
        let mut k: usize = 0;
        while k < n
            invariant
                k <= n,
                n == roots.deep_view().len(),
                forall|j: int| 0 <= j < k ==> valid_root(#[trigger] roots.deep_view()[j]),
            decreases n - k,
        {
            proof {
                assert(roots.deep_view()[k as int] =~= roots@[k as int]@);
            }
            let root = &roots[k];
            let ok = root.len() > 0 && root[0] != 47u8 && root[root.len() - 1] != 47u8
                && !scan_parent_segment(root);
            if !ok {
                assert(!valid_root(roots.deep_view()[k as int]));
                return Err(crate::errors::ErrorType::SessionCreation);
            }
            assert(valid_root(roots.deep_view()[k as int]));
            k = k + 1;
        }
        Ok(CapabilityBridge { roots })
    }

    /// The boundary decision: may the guest read `path`?  True exactly
    /// when the path is relative, has no parent segment, and descends
    /// from a declared root.
    pub fn permits(&self, path: &Vec<u8>) -> (r: bool)
        ensures
            r == permitted(self@, path@),
    {
        let pl = path.len();
        if pl == 0 || path[0] == 47u8 {
            return false;
        }
        if scan_parent_segment(path) {
            return false;
        }
        let n = self.roots.len();
        let mut k: usize = 0;
        while k < n
            invariant
                k <= n,
                n == self@.len(),
                !is_absolute(path@),
                !has_parent_segment(path@),
                forall|j: int| 0 <= j < k ==> !descends_from(#[trigger] self@[j], path@),
            decreases n - k,
        {
            proof {
                assert(self@[k as int] =~= self.roots@[k as int]@);
            }
            if check_descends(&self.roots[k], path) {
                proof {
                    assert(exists|j: int|
                        0 <= j < self@.len() && descends_from(#[trigger] self@[j], path@)) by {
                        assert(descends_from(self@[k as int], path@));
                    }
                }
                return true;
            }
            k = k + 1;
        }
        false
    }
}

/// Law: sandbox containment.  A permitted path always descends from a
/// declared root and never climbs out of it, so a request for any path
/// outside every declared root — absolute, parent-escaping, or simply
/// elsewhere — is refused.
pub proof fn lemma_sandbox_containment(roots: Seq<Seq<u8>>, p: Seq<u8>)
    requires
        forall|k: int| 0 <= k < roots.len() ==> !descends_from(#[trigger] roots[k], p),
    ensures
        !permitted(roots, p),
{
}

} // verus!
