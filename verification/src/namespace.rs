//! Namespaces of a datastore.

use vstd::prelude::*;
use crate::sort::Keyed;
use crate::text::{join_with, joined, str_eq, texts};

verus! {

/// A namespace, as the path of names that leads to it. The root has an empty path.
pub struct BackupNamespace {
    pub components: Vec<String>,
}

impl View for BackupNamespace {
    type V = Seq<Seq<char>>;

    open spec fn view(&self) -> Seq<Seq<char>> {
        texts(self.components@)
    }
}

/// Length of the printed form of a namespace: its names, and one separator
/// between neighbours.
pub open spec fn printed_len(path: Seq<Seq<char>>) -> nat {
    joined(path, seq!['/']).len()
}

/// Whether `outer` is `inner` or a namespace that `inner` lies in.
pub open spec fn is_ancestor(outer: Seq<Seq<char>>, inner: Seq<Seq<char>>) -> bool {
    outer.len() <= inner.len() && inner.take(outer.len() as int) == outer
}

/// Whether the path consists of names that are not empty.
pub open spec fn proper(path: Seq<Seq<char>>) -> bool {
    forall|i: int| 0 <= i < path.len() ==> (#[trigger] path[i]).len() > 0
}

impl Keyed for BackupNamespace {
    open spec fn key_spec(&self) -> int {
        self.name_len_spec() as int
    }

    fn key(&self) -> (r: i128) {
        self.name_len() as i128
    }
}

impl BackupNamespace {
    /// Length of the printed form, as far as it fits.
    pub open spec fn name_len_spec(&self) -> nat {
        if printed_len(self@) <= usize::MAX {
            printed_len(self@)
        } else {
            usize::MAX as nat
        }
    }

    /// The root.
    pub fn root() -> (r: Self)
        ensures
            r@ == Seq::<Seq<char>>::empty(),
    {
        let r = BackupNamespace { components: Vec::new() };
        assert(r@ =~= Seq::<Seq<char>>::empty());
        r
    }

    /// A copy.
    pub fn copy(&self) -> (r: Self)
        ensures
            r@ == self@,
    {
        let mut components: Vec<String> = Vec::new();
        for i in 0..self.components.len()
            invariant
                texts(components@) == self@.take(i as int),
        {
            let ghost before = components@;
            let name: String = self.components[i].clone();
            components.push(name);
            assert(texts(components@) =~= texts(before).push(self@[i as int]));
            assert(self@.take(i + 1) =~= self@.take(i as int).push(self@[i as int]));
        }
        assert(self@.take(self@.len() as int) =~= self@);
        BackupNamespace { components }
    }

    /// Whether this is the root.
    pub fn is_root(&self) -> (r: bool)
        ensures
            r == (self@.len() == 0),
    {
        self.components.len() == 0
    }

    /// How many names lead to it.
    pub fn depth(&self) -> (r: usize)
        ensures
            r == self@.len(),
    {
        self.components.len()
    }

    /// The printed form: its names, separated by slashes.
    pub fn to_string(&self) -> (r: String)
        ensures
            r@ == joined(self@, "/"@),
    {
        join_with(&self.components, "/")
    }

    /// Number of characters of the printed form.
    pub fn name_len(&self) -> (r: usize)
        ensures
            r == self.name_len_spec(),
    {
        let mut n: usize = 0;
        for i in 0..self.components.len()
            invariant
                n == (if printed_len(self@.take(i as int)) <= usize::MAX {
                    printed_len(self@.take(i as int)) as int
                } else {
                    usize::MAX as int
                }),
        {
            proof {
                let before = self@.take(i as int);
                let after = self@.take(i + 1);
                assert(after.drop_last() =~= before);
                assert(after.last() == self.components@[i as int]@);
                if i > 0 {
                    assert(printed_len(after) == printed_len(before) + 1 + after.last().len());
                }
            }
            if i > 0 {
                n = n.saturating_add(1);
            }
            n = n.saturating_add(self.components[i].as_str().unicode_len());
        }
        assert(self@.take(self@.len() as int) =~= self@);
        n
    }

    /// Whether both are the same namespace.
    pub fn same(&self, other: &BackupNamespace) -> (r: bool)
        ensures
            r == (self@ == other@),
    {
        if self.components.len() != other.components.len() {
            assert(self@.len() != other@.len());
            return false;
        }
        for i in 0..self.components.len()
            invariant
                self.components@.len() == other.components@.len(),
                forall|j: int| 0 <= j < i ==> self@[j] == other@[j],
        {
            if !str_eq(self.components[i].as_str(), other.components[i].as_str()) {
                assert(self@[i as int] != other@[i as int]);
                return false;
            }
        }
        assert(self@ =~= other@);
        true
    }

    /// Whether this is `inner` or a namespace that `inner` lies in.
    pub fn contains(&self, inner: &BackupNamespace) -> (r: bool)
        ensures
            r == is_ancestor(self@, inner@),
    {
        if self.components.len() > inner.components.len() {
            return false;
        }
        for i in 0..self.components.len()
            invariant
                self.components@.len() <= inner.components@.len(),
                forall|j: int| 0 <= j < i ==> self@[j] == inner@[j],
        {
            if !str_eq(self.components[i].as_str(), inner.components[i].as_str()) {
                assert(inner@.take(self@.len() as int)[i as int] != self@[i as int]);
                return false;
            }
        }
        assert(inner@.take(self@.len() as int) =~= self@);
        true
    }

    /// The namespace that takes the place of this one when `source` is moved to
    /// `target`, or `None` if this one does not lie in `source`.
    pub fn map_prefix(&self, source: &BackupNamespace, target: &BackupNamespace) -> (r: Option<
        BackupNamespace,
    >)
        ensures
            match r {
                Some(mapped) => is_ancestor(source@, self@) && mapped@ == target@ + self@.skip(
                    source@.len() as int,
                ),
                None => !is_ancestor(source@, self@),
            },
    {
        if !source.contains(self) {
            return None;
        }
        let mut components: Vec<String> = target.copy().components;
        let from: usize = source.components.len();
        assert(target@ + self@.subrange(from as int, from as int) =~= target@);
        for i in from..self.components.len()
            invariant
                from == source@.len(),
                from <= self@.len(),
                texts(components@) == target@ + self@.subrange(from as int, i as int),
        {
            let ghost before = components@;
            let name: String = self.components[i].clone();
            components.push(name);
            assert(texts(components@) =~= texts(before).push(self@[i as int]));
            assert(self@.subrange(from as int, i + 1) =~= self@.subrange(
                from as int,
                i as int,
            ).push(self@[i as int]));
        }
        assert(self@.subrange(from as int, self@.len() as int) =~= self@.skip(from as int));
        Some(BackupNamespace { components })
    }

    /// The namespace of the given name in this one.
    pub fn child(&self, name: &str) -> (r: BackupNamespace)
        ensures
            r@ == self@.push(name@),
    {
        let mut r = self.copy();
        let ghost before = r.components@;
        r.components.push(name.to_owned());
        assert(texts(r.components@) =~= texts(before).push(name@));
        r
    }

    /// The namespace that this one lies in; the root is its own parent.
    pub fn parent(&self) -> (r: BackupNamespace)
        ensures
            r@ == (if self@.len() == 0 {
                self@
            } else {
                self@.drop_last()
            }),
    {
        let mut r = self.copy();
        if r.components.len() > 0 {
            let ghost before = r.components@;
            let _ = r.components.pop();
            assert(texts(r.components@) =~= texts(before).drop_last());
        }
        r
    }
}

/// A namespace has a longer printed form than those that it lies in.
pub proof fn inner_name_is_longer(outer: Seq<Seq<char>>, inner: Seq<Seq<char>>)
    requires
        is_ancestor(outer, inner),
        outer != inner,
        proper(inner),
    ensures
        printed_len(outer) < printed_len(inner),
    decreases inner.len(),
{
    let up = inner.drop_last();
    if outer.len() == inner.len() {
        assert(inner.take(inner.len() as int) =~= inner);
    }
    assert(inner.last().len() > 0);
    if outer.len() == up.len() {
        assert(up =~= inner.take(up.len() as int));
        assert(up == outer);
    } else {
        assert(up.take(outer.len() as int) =~= inner.take(outer.len() as int));
        assert forall|i: int| 0 <= i < up.len() implies (#[trigger] up[i]).len() > 0 by {
            assert(up[i] == inner[i]);
        }
        inner_name_is_longer(outer, up);
    }
    if inner.len() == 1 {
        assert(outer.len() == 0);
        assert(outer =~= Seq::<Seq<char>>::empty());
    }
}

/// Moving a namespace keeps what lies in what.
pub proof fn mapping_keeps_nesting(
    outer: Seq<Seq<char>>,
    inner: Seq<Seq<char>>,
    source: Seq<Seq<char>>,
    target: Seq<Seq<char>>,
)
    requires
        is_ancestor(source, outer),
        is_ancestor(outer, inner),
    ensures
        is_ancestor(source, inner),
        is_ancestor(
            target + outer.skip(source.len() as int),
            target + inner.skip(source.len() as int),
        ),
{
    let n = source.len() as int;
    assert(inner.take(n) =~= outer.take(n)) by {
        assert(inner.take(outer.len() as int).take(n) =~= inner.take(n));
    }
    let a = target + outer.skip(n);
    let b = target + inner.skip(n);
    assert(b.take(a.len() as int) =~= a) by {
        assert forall|i: int| 0 <= i < a.len() implies b[i] == a[i] by {
            if i >= target.len() {
                let k = i - target.len() + n;
                assert(outer[k] == inner.take(outer.len() as int)[k]);
            }
        }
    }
}

/// Distinct namespaces of the source are mapped to distinct ones of the target.
pub proof fn mapping_is_injective(
    a: Seq<Seq<char>>,
    b: Seq<Seq<char>>,
    source: Seq<Seq<char>>,
    target: Seq<Seq<char>>,
)
    requires
        is_ancestor(source, a),
        is_ancestor(source, b),
        target + a.skip(source.len() as int) == target + b.skip(source.len() as int),
    ensures
        a == b,
{
    let n = source.len() as int;
    let ma = target + a.skip(n);
    let mb = target + b.skip(n);
    assert(ma.len() == mb.len());
    assert(a =~= b) by {
        assert forall|i: int| 0 <= i < a.len() implies a[i] == b[i] by {
            if i < n {
                assert(a.take(n)[i] == source[i]);
                assert(b.take(n)[i] == source[i]);
            } else {
                assert(ma[target.len() + i - n] == a[i]);
                assert(mb[target.len() + i - n] == b[i]);
            }
        }
    }
}

} // verus!
