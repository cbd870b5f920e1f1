//! A file-system path modelled as its sequence of components.  An absolute
//! POSIX path such as `/home/u/.rsdk` is the components `["", "home", "u",
//! ".rsdk"]`; rendering joins them with `/`.  The unverified shell converts
//! between this model and the platform's native paths.

use vstd::prelude::*;
use vstd::string::*;
use crate::text;

verus! {

pub struct DirPath {
    pub segments: Vec<String>,
}

impl View for DirPath {
    type V = Seq<Seq<char>>;

    open spec fn view(&self) -> Seq<Seq<char>> {
        self.segments.deep_view()
    }
}

impl DirPath {
    /// The empty path, to be extended with `child`.
    pub fn empty() -> (r: DirPath)
        ensures
            r@ == Seq::<Seq<char>>::empty(),
    {
        let r = DirPath { segments: Vec::new() };
        proof {
            assert(r@ =~~= Seq::<Seq<char>>::empty());
        }
        r
    }

    /// A structural copy.
    pub fn duplicate(&self) -> (r: DirPath)
        ensures
            r@ == self@,
    {
        let segments = self.segments.clone();
        proof {
            assert(segments.deep_view() =~~= self.segments.deep_view());
        }
        DirPath { segments }
    }

    /// The path extended by one component.
    pub fn child(&self, seg: &str) -> (r: DirPath)
        ensures
            r@ == self@.push(seg@),
    {
        let mut segments = self.segments.clone();
        proof {
            assert(segments.deep_view() =~~= self.segments.deep_view());
        }
        segments.push(String::from_str(seg));
        let r = DirPath { segments };
        proof {
            assert(r@ =~~= self@.push(seg@));
        }
        r
    }

    /// The path extended by one component given as a `String`.
    pub fn child_string(&self, seg: &String) -> (r: DirPath)
        ensures
            r@ == self@.push(seg@),
    {
        self.child(seg.as_str())
    }

    /// Structural path equality.
    pub fn path_eq(&self, other: &DirPath) -> (r: bool)
        ensures
            r == (self@ == other@),
    {
        let n = self.segments.len();
        if n != other.segments.len() {
            proof {
                assert(self@.len() != other@.len());
            }
            return false;
        }
        let mut i: usize = 0;
        while i < n
            invariant
                n == self.segments.len(),
                n == other.segments.len(),
                i <= n,
                forall|k: int| 0 <= k < i ==> self@[k] == other@[k],
            decreases n - i,
        {
            if !text::str_eq(self.segments[i].as_str(), other.segments[i].as_str()) {
                proof {
                    assert(self@[i as int] != other@[i as int]);
                }
                return false;
            }
            i = i + 1;
        }
        proof {
            assert(self@ =~~= other@);
        }
        true
    }

    /// Whether `prefix` is an initial run of this path's components, as
    /// `Path::starts_with` compares whole components.
    pub fn starts_with(&self, prefix: &DirPath) -> (r: bool)
        ensures
            r == prefix@.is_prefix_of(self@),
    {
        let m = prefix.segments.len();
        if m > self.segments.len() {
            proof {
                assert(prefix@.len() > self@.len());
            }
            return false;
        }
        let mut i: usize = 0;
        while i < m
            invariant
                m == prefix.segments.len(),
                m <= self.segments.len(),
                i <= m,
                forall|k: int| 0 <= k < i ==> self@[k] == prefix@[k],
            decreases m - i,
        {
            if !text::str_eq(self.segments[i].as_str(), prefix.segments[i].as_str()) {
                proof {
                    assert(self@[i as int] != prefix@[i as int]);
                    assert(!prefix@.is_prefix_of(self@)) by {
                        if prefix@.is_prefix_of(self@) {
                            assert(prefix@[i as int] == self@.subrange(
                                0,
                                prefix@.len() as int,
                            )[i as int]);
                        }
                    }
                }
                return false;
            }
            i = i + 1;
        }
        proof {
            assert(prefix@ =~~= self@.take(m as int));
        }
        true
    }

    /// The final component, if any.
    pub fn last_segment(&self) -> (r: Option<String>)
        ensures
            self@.len() == 0 ==> r is None,
            self@.len() > 0 ==> r == Some(self.segments[self.segments.len() - 1]),
    {
        let n = self.segments.len();
        if n == 0 {
            None
        } else {
            Some(self.segments[n - 1].clone())
        }
    }

    /// The path rendered with `/` between components.
    pub fn render(&self) -> (r: String)
        ensures
            r@ == text::spec_join(self@, '/'),
    {
        text::join_text(&self.segments, '/')
    }
}

} // verus!
