//! A model of the object backend: the set of keys under which immutable
//! content objects live. Renames and moves never touch it; only the
//! content-addressed store writes to it, and only the reference-counted
//! delete removes from it.

use vstd::prelude::*;
use crate::strutil::str_eq;

verus! {

/// The object store's key set. At most one object ever lives under a key.
pub struct Backend {
    pub keys: Vec<String>,
}

impl Backend {
    /// The keys as character sequences.
    pub open spec fn view(&self) -> Seq<Seq<char>> {
        self.keys@.map_values(|k: String| k@)
    }

    /// No key occurs twice: the store holds at most one object per key.
    pub open spec fn wf(&self) -> bool {
        forall|i: int, j: int|
            0 <= i < self@.len() && 0 <= j < self@.len() && i != j ==> (#[trigger] self@[i])
                != (#[trigger] self@[j])
    }

    pub open spec fn spec_contains(&self, key: Seq<char>) -> bool {
        self@.contains(key)
    }

    /// An empty backend.
    pub fn new() -> (b: Backend)
        ensures
            b.wf(),
            b@.len() == 0,
    {
        Backend { keys: Vec::new() }
    }

    /// Whether an object lives under `key`.
    pub fn contains_key(&self, key: &str) -> (r: bool)
        ensures
            r == self.spec_contains(key@),
    {
        let mut i: usize = 0;
        while i < self.keys.len()
            invariant
                i <= self.keys@.len(),
                forall|j: int| 0 <= j < i ==> (#[trigger] self@[j]) != key@,
            decreases self.keys@.len() - i,
        {
            if str_eq(self.keys[i].as_str(), key) {
                proof {
                    assert(self@[i as int] == key@);
                }
                return true;
            }
            i = i + 1;
        }
        false
    }

    /// Commits an object under `key`. Idempotent by key: content under a
    /// content-addressed key is the same whoever writes it.
    pub fn put(&mut self, key: String)
        requires
            old(self).wf(),
        ensures
            final(self).wf(),
            final(self).spec_contains(key@),
            forall|k: Seq<char>|
                #[trigger] final(self).spec_contains(k) == (old(self).spec_contains(k) || k
                    == key@),
            old(self).spec_contains(key@) ==> final(self)@ == old(self)@,
            !old(self).spec_contains(key@) ==> final(self)@ == old(self)@.push(key@),
    {
        if !self.contains_key(key.as_str()) {
            let ghost pre = self@;
            let ghost keyv = key@;
            self.keys.push(key);
            proof {
                assert(self@ =~= pre.push(keyv));
                assert forall|k: Seq<char>| #[trigger]
                    self.spec_contains(k) == (pre.contains(k) || k == keyv) by {
                    if self.spec_contains(k) {
                        let w = choose|w: int| 0 <= w < self@.len() && self@[w] == k;
                        if w < pre.len() {
                            assert(pre[w] == k);
                        } else {
                            assert(self@[w] == keyv);
                        }
                    }
                    if pre.contains(k) {
                        let w = choose|w: int| 0 <= w < pre.len() && pre[w] == k;
                        assert(self@[w] == k);
                    }
                    if k == keyv {
                        assert(self@[pre.len() as int] == keyv);
                    }
                }
            }
        }
    }

    /// Deletes the object under `key`, if any.
    pub fn delete(&mut self, key: &str)
        requires
            old(self).wf(),
        ensures
            final(self).wf(),
            !final(self).spec_contains(key@),
            forall|k: Seq<char>|
                k != key@ ==> #[trigger] final(self).spec_contains(k) == old(
                    self,
                ).spec_contains(k),
    {
        let mut i: usize = 0;
        while i < self.keys.len()
            invariant
                i <= self.keys@.len(),
                old(self).wf(),
                self@ == old(self)@,
                forall|j: int| 0 <= j < i ==> (#[trigger] self@[j]) != key@,
            decreases self.keys@.len() - i,
        {
            if str_eq(self.keys[i].as_str(), key) {
                let ghost pre = self@;
                proof {
                    assert(pre[i as int] == key@);
                }
                self.keys.remove(i);
                proof {
                    assert(self@ =~= pre.remove(i as int));
                    assert forall|x: int, y: int|
                        0 <= x < self@.len() && 0 <= y < self@.len() && x != y implies (
                    #[trigger] self@[x]) != (#[trigger] self@[y]) by {
                        let px: int = if x < i { x } else { x + 1 };
                        let py: int = if y < i { y } else { y + 1 };
                        assert(self@[x] == pre[px]);
                        assert(self@[y] == pre[py]);
                        lemma_backend_unique_at(*old(self), px, py);
                    }
                    assert forall|k: Seq<char>| #[trigger]
                        self.spec_contains(k) implies pre.contains(k) && k != key@ by {
                        let w = choose|w: int| 0 <= w < self@.len() && self@[w] == k;
                        let pw: int = if w < i { w } else { w + 1 };
                        assert(self@[w] == pre[pw]);
                        assert(pre.contains(k));
                        assert(pw != i);
                        if pw != i as int {
                            lemma_backend_unique_at(*old(self), pw, i as int);
                        }
                    }
                    assert forall|k: Seq<char>|
                        k != key@ && pre.contains(k) implies #[trigger] self.spec_contains(
                        k,
                    ) by {
                        let w = choose|w: int| 0 <= w < pre.len() && pre[w] == k;
                        assert(w != i);
                        if w < i {
                            assert(self@[w] == k);
                        } else {
                            assert(self@[w - 1] == k);
                        }
                    }
                }
                return ;
            }
            i = i + 1;
        }
        proof {
            if self.spec_contains(key@) {
                let w = choose|w: int| 0 <= w < self@.len() && self@[w] == key@;
                assert(self@[w] != key@);
            }
        }
    }
}

/// Two distinct slots of a well-formed backend hold distinct keys.
pub proof fn lemma_backend_unique_at(b: Backend, x: int, y: int)
    requires
        b.wf(),
        0 <= x < b@.len(),
        0 <= y < b@.len(),
        x != y,
    ensures
        b@[x] != b@[y],
{
    assert(b@[x] != b@[y]);
}

} // verus!
