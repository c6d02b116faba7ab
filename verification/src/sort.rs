//! The deterministic output order: every category of the document is sorted
//! ascending, case-sensitively, by name.

use vstd::prelude::*;
use crate::idl::{IdlConst, IdlEvent, IdlInstruction, IdlTypeDefinition};
use crate::text::{lemma_lex_le_refl, lemma_lex_le_total, lemma_lex_le_trans, lex_le, str_le};

verus! {

/// A record sorted by its name.
pub trait Keyed: Sized {
    /// The sort key.
    spec fn key(self) -> Seq<char>;

    /// The sort key, as a string.
    fn key_str(&self) -> (r: &str)
        ensures
            r@ == self.key(),
    ;
}

impl Keyed for IdlInstruction {
    open spec fn key(self) -> Seq<char> {
        self.name@
    }

    fn key_str(&self) -> (r: &str) {
        self.name.as_str()
    }
}

impl Keyed for IdlTypeDefinition {
    open spec fn key(self) -> Seq<char> {
        self.name@
    }

    fn key_str(&self) -> (r: &str) {
        self.name.as_str()
    }
}

impl Keyed for IdlEvent {
    open spec fn key(self) -> Seq<char> {
        self.name@
    }

    fn key_str(&self) -> (r: &str) {
        self.name.as_str()
    }
}

impl Keyed for IdlConst {
    open spec fn key(self) -> Seq<char> {
        self.name@
    }

    fn key_str(&self) -> (r: &str) {
        self.name.as_str()
    }
}

/// Every adjacent pair (indeed every pair) stands in ascending name order.
pub open spec fn sorted_by_name<T: Keyed>(s: Seq<T>) -> bool {
    forall|i: int, j: int| 0 <= i < j < s.len() ==> lex_le(s[i].key(), s[j].key())
}

/// Sort a category by name: the result is ordered and holds exactly the
/// given records.
pub fn sort_by_name<T: Keyed>(v: Vec<T>) -> (r: Vec<T>)
    ensures
        sorted_by_name(r@),
        r@.to_multiset() == v@.to_multiset(),
{
    broadcast use vstd::seq_lib::group_to_multiset_ensures;
    broadcast use vstd::multiset::group_multiset_axioms;

    let mut src = v;
    let mut out: Vec<T> = Vec::new();
    proof {
        assert(out@.to_multiset().add(src@.to_multiset()) =~= src@.to_multiset());
    }
    while src.len() > 0
        invariant
            sorted_by_name(out@),
            out@.to_multiset().add(src@.to_multiset()) == v@.to_multiset(),
            forall|a: int, b: int|
                0 <= a < out@.len() && 0 <= b < src@.len() ==> lex_le(
                    out@[a].key(),
                    src@[b].key(),
                ),
        decreases src@.len(),
    {
        let mut m: usize = 0;
        let mut i: usize = 1;
        proof {
            lemma_lex_le_refl(src@[0].key());
        }
        while i < src.len()
            invariant
                src@.len() > 0,
                m < i <= src@.len(),
                forall|k: int| 0 <= k < i ==> lex_le(src@[m as int].key(), src@[k].key()),
            decreases src@.len() - i,
        {
            if !str_le(src[m].key_str(), src[i].key_str()) {
                proof {
                    lemma_lex_le_total(src@[m as int].key(), src@[i as int].key());
                    assert forall|k: int| 0 <= k < i implies lex_le(
                        src@[i as int].key(),
                        src@[k].key(),
                    ) by {
                        lemma_lex_le_trans(src@[i as int].key(), src@[m as int].key(), src@[k].key());
                    }
                    lemma_lex_le_refl(src@[i as int].key());
                }
                m = i;
            }
            i = i + 1;
        }
        let ghost old_src = src@;
        let ghost old_out = out@;
        let x = src.remove(m);
        out.push(x);
        proof {
            old_out.to_multiset_ensures();
            old_src.to_multiset_ensures();
            assert(x == old_src[m as int]);
            assert(old_src.contains(x)) by {
                assert(old_src[m as int] == x);
            }
            assert(old_src.to_multiset().count(x) > 0);
            assert(out@ == old_out.push(x));
            assert(src@ == old_src.remove(m as int));
            assert(out@.to_multiset() =~= old_out.to_multiset().insert(x));
            assert(src@.to_multiset() =~= old_src.to_multiset().remove(x));
            assert(out@.to_multiset().add(src@.to_multiset()) =~= old_out.to_multiset().add(
                old_src.to_multiset(),
            ));
            assert forall|b: int| 0 <= b < src@.len() implies lex_le(x.key(), src@[b].key()) by {
                assert(src@[b] == if b < m {
                    old_src[b]
                } else {
                    old_src[b + 1]
                });
            }
            assert forall|a: int, b: int|
                0 <= a < out@.len() && 0 <= b < src@.len() implies lex_le(
                out@[a].key(),
                src@[b].key(),
            ) by {
                if a < old_out.len() {
                    assert(src@[b] == if b < m {
                        old_src[b]
                    } else {
                        old_src[b + 1]
                    });
                    assert(out@[a] == old_out[a]);
                }
            }
            assert(sorted_by_name(out@)) by {
                assert forall|p: int, q: int| 0 <= p < q < out@.len() implies lex_le(
                    out@[p].key(),
                    out@[q].key(),
                ) by {
                    if q < old_out.len() {
                        assert(out@[p] == old_out[p] && out@[q] == old_out[q]);
                    } else {
                        assert(out@[q] == x && out@[p] == old_out[p]);
                        assert(lex_le(old_out[p].key(), old_src[m as int].key()));
                    }
                }
            }
        }
    }
    proof {
        assert(src@ =~= Seq::<T>::empty());
        assert forall|x: T| src@.to_multiset().count(x) == 0 by {
            assert(!src@.contains(x));
        }
        assert(out@.to_multiset().add(src@.to_multiset()) =~= out@.to_multiset());
    }
    out
}


/// Sequences holding the same records map to the same multiset of images.
pub proof fn lemma_map_multiset<A, B>(a: Seq<A>, b: Seq<A>, f: spec_fn(A) -> B)
    requires
        a.to_multiset() == b.to_multiset(),
    ensures
        a.map_values(f).to_multiset() == b.map_values(f).to_multiset(),
    decreases a.len(),
{
    broadcast use vstd::seq_lib::group_to_multiset_ensures;
    broadcast use vstd::multiset::group_multiset_axioms;

    a.to_multiset_ensures();
    b.to_multiset_ensures();
    if a.len() == 0 {
        assert(b.to_multiset().len() == 0);
        assert(b.len() == 0);
        assert(a.map_values(f) =~= b.map_values(f));
    } else {
        let x = a.last();
        let a1 = a.drop_last();
        a1.to_multiset_ensures();
        assert(a =~= a1.push(x));
        assert(a.to_multiset() =~= a1.to_multiset().insert(x));
        assert(a.contains(x)) by {
            assert(a[a.len() - 1] == x);
        }
        assert(b.to_multiset().count(x) > 0);
        assert(b.contains(x));
        let i = choose|i: int| 0 <= i < b.len() && b[i] == x;
        let b1 = b.remove(i);
        b1.to_multiset_ensures();
        assert(b1.to_multiset() =~= b.to_multiset().remove(x));
        assert(a1.to_multiset() =~= b1.to_multiset()) by {
            assert forall|y: A| a1.to_multiset().count(y) == b1.to_multiset().count(y) by {
                assert(a.to_multiset().count(y) == a1.to_multiset().insert(x).count(y));
                assert(b1.to_multiset().count(y) == b.to_multiset().remove(x).count(y));
            }
        }
        lemma_map_multiset(a1, b1, f);
        let fa = a.map_values(f);
        let fb = b.map_values(f);
        let fa1 = a1.map_values(f);
        let fb1 = b1.map_values(f);
        fa.to_multiset_ensures();
        fb.to_multiset_ensures();
        fa1.to_multiset_ensures();
        fb1.to_multiset_ensures();
        assert(fa =~= fa1.push(f(x)));
        assert(fa.to_multiset() =~= fa1.to_multiset().insert(f(x)));
        assert(fb.remove(i) =~= fb1);
        assert(fb.remove(i).to_multiset() =~= fb.to_multiset().remove(f(b[i])));
        assert(fb1.to_multiset() =~= fb.to_multiset().remove(f(x)));
        assert(fb.contains(f(x))) by {
            assert(fb[i] == f(x));
        }
        assert(fb.to_multiset().count(f(x)) > 0);
        assert forall|y: B| fa.to_multiset().count(y) == fb.to_multiset().count(y) by {
            assert(fa.to_multiset().count(y) == fa1.to_multiset().insert(f(x)).count(y));
            assert(fb1.to_multiset().count(y) == fb.to_multiset().remove(f(x)).count(y));
        }
        assert(fa.to_multiset() =~= fb.to_multiset());
    }
}

} // verus!
