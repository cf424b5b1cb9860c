//! Which resolved paths a source may index: those under one of its roots,
//! compared component by component as `Path::starts_with` does.
use crate::privileged::executor::{segments, segments_of};
use crate::text::{chars_eq, chars_of, views};
use vstd::prelude::*;

verus! {

/// The components of a path: the root (`/`) or a leading current
/// directory (`.`), then its named segments.
pub open spec fn path_components(p: Seq<char>) -> Seq<Seq<char>> {
    if p.len() > 0 && p[0] == '/' {
        seq!["/"@] + segments(p)
    } else if p == "."@ || (p.len() >= 2 && p[0] == '.' && p[1] == '/') {
        seq!["."@] + segments(p)
    } else {
        segments(p)
    }
}

/// `base`'s components begin `child`'s.
pub open spec fn path_starts_with(child: Seq<char>, base: Seq<char>) -> bool {
    let c = path_components(child);
    let b = path_components(base);
    b.len() <= c.len() && c.take(b.len() as int) == b
}

fn components_of(p: &str) -> (r: Vec<Vec<char>>)
    ensures
        views(r@) == path_components(p@),
{
    let c = chars_of(p);
    let segs = segments_of(c.as_slice());
    let lead: Option<char> = if c.len() > 0 && c[0] == '/' {
        Some('/')
    } else if (c.len() == 1 && c[0] == '.') || (c.len() >= 2 && c[0] == '.' && c[1] == '/') {
        Some('.')
    } else {
        None
    };
    proof {
        reveal_strlit(".");
        reveal_strlit("/");
        if c.len() == 1 && c[0] == '.' {
            assert(p@ =~= "."@);
        }
        if p@ == "."@ {
            assert(p@[0] == '.');
        }
    }
    match lead {
        None => segs,
        Some(x) => {
            let mut out: Vec<Vec<char>> = Vec::new();
            let mut first: Vec<char> = Vec::new();
            first.push(x);
            out.push(first);
            assert(views(out@) =~= seq![seq![x]] + views(segs@).take(0));
            let mut i: usize = 0;
            while i < segs.len()
                invariant
                    i <= segs.len(),
                    views(out@) == seq![seq![x]] + views(segs@).take(i as int),
                decreases segs.len() - i,
            {
                let ghost before = out@;
                let seg = crate::text::slice_of(segs[i].as_slice(), 0, segs[i].len());
                assert(seg@ =~= segs@[i as int]@);
                out.push(seg);
                assert(views(out@) =~= views(before).push(segs@[i as int]@));
                assert(views(segs@).take(i + 1) =~= views(segs@).take(i as int).push(segs@[i as int]@));
                i = i + 1;
                assert(views(out@) =~= seq![seq![x]] + views(segs@).take(i as int));
            }
            assert(views(segs@).take(segs.len() as int) =~= views(segs@));
            assert(seq![x] =~= (if x == '/' { "/"@ } else { "."@ }));
            out
        },
    }
}

/// The roots that a source's documents must lie under.
#[derive(Debug, Clone)]
pub struct Allowlist {
    roots: Vec<String>,
}

impl Allowlist {
    pub closed spec fn roots(&self) -> Seq<Seq<char>> {
        self.roots@.map_values(|r: String| r@)
    }

    /// The allowlist of one root, as `canonicalize` gave it.
    pub fn for_canonical_root(root: String) -> (r: Self)
        ensures
            r.roots() == seq![root@],
    {
        let r = Allowlist { roots: vec![root] };
        assert(r.roots() =~= seq![r.roots@[0]@]);
        r
    }

    /// Whether a resolved path lies under one of the roots.
    pub fn contains_resolved(&self, resolved: &str) -> (r: bool)
        ensures
            r == exists|i: int| 0 <= i < self.roots().len() && path_starts_with(resolved@, #[trigger] self.roots()[i]),
    {
        let child = components_of(resolved);
        let mut i: usize = 0;
        while i < self.roots.len()
            invariant
                i <= self.roots.len(),
                views(child@) == path_components(resolved@),
                forall|j: int| 0 <= j < i ==> !path_starts_with(resolved@, #[trigger] self.roots()[j]),
            decreases self.roots.len() - i,
        {
            let base = components_of(self.roots[i].as_str());
            assert(self.roots()[i as int] == self.roots@[i as int]@);
            if base.len() <= child.len() {
                let mut k: usize = 0;
                let mut same = true;
                assert(views(child@).take(0) =~= views(base@).take(0));
                while k < base.len()
                    invariant
                        k <= base.len() <= child.len(),
                        same == (views(child@).take(k as int) == views(base@).take(k as int)),
                    decreases base.len() - k,
                {
                    let eq = chars_eq(child[k].as_slice(), base[k].as_slice());
                    proof {
                        assert(views(child@)[k as int] == child@[k as int]@);
                        assert(views(base@)[k as int] == base@[k as int]@);
                        if same {
                            assert(views(child@).take(k + 1) =~= views(child@).take(k as int).push(views(child@)[k as int]));
                            assert(views(base@).take(k + 1) =~= views(base@).take(k as int).push(views(base@)[k as int]));
                        } else {
                            if views(child@).take(k + 1) == views(base@).take(k + 1) {
                                assert(views(child@).take(k as int) =~= views(child@).take(k + 1).take(k as int));
                                assert(views(base@).take(k as int) =~= views(base@).take(k + 1).take(k as int));
                            }
                        }
                        if !eq {
                            if views(child@).take(k + 1) == views(base@).take(k + 1) {
                                assert(views(child@).take(k + 1)[k as int] == views(base@).take(k + 1)[k as int]);
                            }
                        }
                    }
                    same = same && eq;
                    k = k + 1;
                }
                assert(views(base@).take(base.len() as int) =~= views(base@));
                if same {
                    return true;
                }
            }
            i = i + 1;
        }
        false
    }
}

} // verus!
