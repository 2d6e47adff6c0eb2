//! The namespace manager: the ordered, deduplicated set of namespaces a
//! configuration requests, lookup by kind, and the decision of how a
//! descriptor is entered (join an existing namespace by path, or create a
//! new one).

use vstd::prelude::*;

use crate::config::{LinuxNamespace, LinuxNamespaceType};

verus! {

/// Whether a namespace in `s` has kind `k`.
pub open spec fn has_kind(s: Seq<LinuxNamespace>, k: LinuxNamespaceType) -> bool {
    exists|i: int| 0 <= i < s.len() && s[i].typ == k
}

/// The first namespace of kind `k` in `s`, if any.
pub open spec fn first_of_kind(s: Seq<LinuxNamespace>, k: LinuxNamespaceType) -> Option<
    LinuxNamespace,
>
    decreases s.len(),
{
    if s.len() == 0 {
        None
    } else if s[0].typ == k {
        Some(s[0])
    } else {
        first_of_kind(s.drop_first(), k)
    }
}

/// `s` with every namespace dropped whose kind already occurred earlier.
pub open spec fn dedup_by_kind(s: Seq<LinuxNamespace>) -> Seq<LinuxNamespace>
    decreases s.len(),
{
    if s.len() == 0 {
        Seq::empty()
    } else {
        let rest = dedup_by_kind(s.drop_last());
        if has_kind(rest, s.last().typ) {
            rest
        } else {
            rest.push(s.last())
        }
    }
}

/// At most one namespace per kind.
pub open spec fn kinds_unique(s: Seq<LinuxNamespace>) -> bool {
    forall|i: int, j: int|
        0 <= i < j < s.len() ==> s[i].typ != s[j].typ
}

/// Dropping later duplicates leaves the kinds unique.
pub proof fn lemma_dedup_kinds_unique(s: Seq<LinuxNamespace>)
    ensures
        kinds_unique(dedup_by_kind(s)),
    decreases s.len(),
{
    if s.len() > 0 {
        lemma_dedup_kinds_unique(s.drop_last());
    }
}

/// Dropping later duplicates keeps exactly the kinds of `s`.
pub proof fn lemma_dedup_same_kinds(s: Seq<LinuxNamespace>, k: LinuxNamespaceType)
    ensures
        has_kind(dedup_by_kind(s), k) == has_kind(s, k),
    decreases s.len(),
{
    if s.len() > 0 {
        lemma_dedup_same_kinds(s.drop_last(), k);
        let rest = dedup_by_kind(s.drop_last());
        let last = s.last();
        if has_kind(s, k) {
            let i = choose|i: int| 0 <= i < s.len() && s[i].typ == k;
            if i < s.len() - 1 {
                assert(s.drop_last()[i].typ == k);
                assert(has_kind(rest, k));
                if !has_kind(rest, last.typ) {
                    let j = choose|j: int| 0 <= j < rest.len() && rest[j].typ == k;
                    assert(rest.push(last)[j].typ == k);
                }
            } else {
                assert(last.typ == k);
                if has_kind(rest, last.typ) {
                    assert(has_kind(rest, k));
                } else {
                    assert(rest.push(last)[rest.len() as int].typ == k);
                }
            }
            assert(has_kind(dedup_by_kind(s), k));
        }
        if has_kind(dedup_by_kind(s), k) {
            if has_kind(rest, last.typ) {
                assert(has_kind(rest, k));
                let i = choose|i: int|
                    0 <= i < s.drop_last().len() && s.drop_last()[i].typ == k;
                assert(s[i].typ == k);
            } else {
                let i = choose|i: int|
                    0 <= i < rest.push(last).len() && rest.push(last)[i].typ == k;
                if i < rest.len() {
                    assert(rest[i].typ == k);
                    let j = choose|j: int|
                        0 <= j < s.drop_last().len() && s.drop_last()[j].typ == k;
                    assert(s[j].typ == k);
                } else {
                    assert(s[s.len() - 1].typ == k);
                }
            }
            assert(has_kind(s, k));
        }
    }
}

/// Dropping later duplicates does not change which namespace is found first
/// for any kind.
pub proof fn lemma_dedup_first_of_kind(s: Seq<LinuxNamespace>, k: LinuxNamespaceType)
    ensures
        first_of_kind(dedup_by_kind(s), k) == first_of_kind(s, k),
    decreases s.len(),
{
    if s.len() > 0 {
        lemma_dedup_first_of_kind(s.drop_last(), k);
        lemma_first_of_kind_extend(s.drop_last(), s.last(), k);
        let rest = dedup_by_kind(s.drop_last());
        if has_kind(rest, s.last().typ) {
            lemma_dedup_same_kinds(s.drop_last(), s.last().typ);
            lemma_first_of_kind_some_iff_has_kind(s.drop_last(), k);
            lemma_first_of_kind_some_iff_has_kind(rest, k);
            if k == s.last().typ {
                assert(first_of_kind(s.drop_last(), k) is Some);
            }
        } else {
            lemma_first_of_kind_extend(rest, s.last(), k);
            lemma_first_of_kind_some_iff_has_kind(s.drop_last(), k);
            lemma_first_of_kind_some_iff_has_kind(rest, k);
            lemma_dedup_same_kinds(s.drop_last(), k);
        }
        assert(s.drop_last().push(s.last()) =~= s);
    }
}

/// A first namespace of kind `k` exists exactly when some namespace has
/// kind `k`.
pub proof fn lemma_first_of_kind_some_iff_has_kind(s: Seq<LinuxNamespace>, k: LinuxNamespaceType)
    ensures
        first_of_kind(s, k) is Some <==> has_kind(s, k),
        first_of_kind(s, k) matches Some(ns) ==> exists|i: int|
            0 <= i < s.len() && s[i] == ns && ns.typ == k,
    decreases s.len(),
{
    if s.len() > 0 {
        lemma_first_of_kind_some_iff_has_kind(s.drop_first(), k);
        if s[0].typ != k {
            if has_kind(s, k) {
                let i = choose|i: int| 0 <= i < s.len() && s[i].typ == k;
                assert(s.drop_first()[i - 1].typ == k);
            }
            if has_kind(s.drop_first(), k) {
                let i = choose|i: int|
                    0 <= i < s.drop_first().len() && s.drop_first()[i].typ == k;
                assert(s[i + 1].typ == k);
            }
            if first_of_kind(s.drop_first(), k) is Some {
                let ns = first_of_kind(s.drop_first(), k).unwrap();
                let i = choose|i: int|
                    0 <= i < s.drop_first().len() && s.drop_first()[i] == ns;
                assert(s[i + 1] == ns);
            }
        }
    }
}

/// Appending one namespace changes the first of kind `k` only when no
/// namespace of that kind was present before.
proof fn lemma_first_of_kind_extend(
    s: Seq<LinuxNamespace>,
    ns: LinuxNamespace,
    k: LinuxNamespaceType,
)
    ensures
        first_of_kind(s.push(ns), k) == if first_of_kind(s, k) is Some {
            first_of_kind(s, k)
        } else if ns.typ == k {
            Some(ns)
        } else {
            None::<LinuxNamespace>
        },
    decreases s.len(),
{
    if s.len() == 0 {
        assert(s.push(ns)[0] == ns);
        assert(s.push(ns).drop_first() =~= Seq::<LinuxNamespace>::empty());
    } else {
        assert(s.push(ns)[0] == s[0]);
        assert(s.push(ns).drop_first() =~= s.drop_first().push(ns));
        lemma_first_of_kind_extend(s.drop_first(), ns, k);
    }
}

/// How a namespace descriptor is entered: by joining the existing namespace
/// at its path, or by creating a new one.
#[derive(Clone, Copy, Debug, PartialEq, Eq, Structural)]
pub enum NamespaceEntryMode {
    Join,
    Create,
}

/// The policy decision of the namespace manager: a descriptor that names an
/// existing namespace is joined, any other is created fresh.
pub fn entry_mode(ns: &LinuxNamespace) -> (m: NamespaceEntryMode)
    ensures
        m == NamespaceEntryMode::Join <==> ns.path is Some,
        m == NamespaceEntryMode::Create <==> ns.path is None,
{
    match &ns.path {
        Some(_) => NamespaceEntryMode::Join,
        None => NamespaceEntryMode::Create,
    }
}

/// The ordered, deduplicated namespace set requested by a configuration.
pub struct Namespaces {
    items: Vec<LinuxNamespace>,
}

impl View for Namespaces {
    type V = Seq<LinuxNamespace>;

    closed spec fn view(&self) -> Seq<LinuxNamespace> {
        self.items@
    }
}

impl Namespaces {
    /// At most one namespace per kind is held.
    pub open spec fn wf(&self) -> bool {
        kinds_unique(self@)
    }

    /// Builds the set from the configuration's namespace list, keeping the
    /// first descriptor of each kind.
    pub fn from_spec(namespaces: &Vec<LinuxNamespace>) -> (r: Namespaces)
        ensures
            r@ == dedup_by_kind(namespaces@),
            r.wf(),
    {
        let mut items: Vec<LinuxNamespace> = Vec::new();
        let mut idx: usize = 0;
        while idx < namespaces.len()
            invariant
                idx <= namespaces.len(),
                items@ == dedup_by_kind(namespaces@.take(idx as int)),
            decreases namespaces.len() - idx,
        {
            let ns = &namespaces[idx];
            let ghost taken = namespaces@.take(idx as int + 1);
            proof {
                assert(taken.drop_last() =~= namespaces@.take(idx as int));
                assert(taken.last() == namespaces@[idx as int]);
            }
            if !contains_kind(&items, ns.typ) {
                items.push(ns.duplicate());
            }
            idx = idx + 1;
        }
        proof {
            assert(namespaces@.take(namespaces@.len() as int) =~= namespaces@);
            lemma_dedup_kinds_unique(namespaces@);
        }
        Namespaces { items }
    }

    /// Looks a namespace up by kind; since kinds are unique this is exact.
    pub fn get(&self, k: LinuxNamespaceType) -> (r: Option<&LinuxNamespace>)
        ensures
            r matches Some(ns) ==> first_of_kind(self@, k) == Some(*ns),
            r is None ==> first_of_kind(self@, k) is None,
    {
        let mut idx: usize = 0;
        proof {
            assert(self@.skip(0) =~= self@);
        }
        while idx < self.items.len()
            invariant
                idx <= self.items.len(),
                first_of_kind(self@, k) == first_of_kind(self@.skip(idx as int), k),
                forall|i: int| 0 <= i < idx ==> self@[i].typ != k,
            decreases self.items.len() - idx,
        {
            proof {
                assert(self@.skip(idx as int).drop_first() =~= self@.skip(idx as int + 1));
                assert(self@.skip(idx as int)[0] == self@[idx as int]);
            }
            if self.items[idx].typ == k {
                return Some(&self.items[idx]);
            }
            idx = idx + 1;
        }
        proof {
            assert(self@.skip(self@.len() as int) =~= Seq::<LinuxNamespace>::empty());
        }
        None
    }
}

/// Whether some held namespace has kind `k`.
fn contains_kind(items: &Vec<LinuxNamespace>, k: LinuxNamespaceType) -> (r: bool)
    ensures
        r == has_kind(items@, k),
{
    let mut idx: usize = 0;
    while idx < items.len()
        invariant
            idx <= items.len(),
            forall|i: int| 0 <= i < idx ==> items@[i].typ != k,
        decreases items.len() - idx,
    {
        if items[idx].typ == k {
            return true;
        }
        idx = idx + 1;
    }
    false
}

} // verus!
