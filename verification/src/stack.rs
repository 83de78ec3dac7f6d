//! A generic singly-linked stack.
//!
//! A `List<T>` owns a chain of `Node<T>` cells through `Link<T>` slots
//! (`Option<Box<Node<T>>>`): the list owns the head node, each node owns its
//! successor.  The abstract value of a list is the sequence of its elements
//! from head to tail, i.e. most-recently-pushed first.

use vstd::prelude::*;

verus! {

/// An ownership slot: either empty or owning exactly one node.
type Link<T> = Option<Box<Node<T>>>;

/// One cell of the chain: an element and the link to its successor.
pub struct Node<T> {
    elem: T,
    next: Link<T>,
}

/// A LIFO stack: the head link and the number of nodes reachable from it.
pub struct List<T> {
    head: Link<T>,
    size: usize,
}

/// The sequence of elements stored in the chain hanging off `link`,
/// nearest first.
pub closed spec fn link_view<T>(link: Link<T>) -> Seq<T>
    decreases link,
{
    match link {
        None => Seq::empty(),
        Some(node) => seq![node.elem] + link_view(node.next),
    }
}

/// The sequence of elements stored in the chain rooted at `node`: its own
/// element, then everything hanging off its successor link.
pub closed spec fn node_view<T>(node: Node<T>) -> Seq<T> {
    seq![node.elem] + link_view(node.next)
}

impl<T> View for List<T> {
    type V = Seq<T>;

    closed spec fn view(&self) -> Seq<T> {
        link_view(self.head)
    }
}

impl<T> List<T> {
    /// Well-formedness: the stored count equals the length of the chain.
    pub closed spec fn wf(&self) -> bool {
        self.size == self@.len()
    }

    /// Creates an empty list.
    pub fn new() -> (l: List<T>)
        ensures
            l@ == Seq::<T>::empty(),
            l.wf(),
    {
        List { head: None, size: 0 }
    }

    /// The number of elements in the list.
    pub fn size(&self) -> (n: usize)
        requires
            self.wf(),
        ensures
            n == self@.len(),
    {
        self.size
    }

    /// Pushes `elem` on top of the list.
    pub fn push(&mut self, elem: T)
        requires
            old(self).wf(),
            old(self)@.len() < usize::MAX,
        ensures
            final(self).wf(),
            final(self)@ == seq![elem] + old(self)@,
    {
        let next = self.head.take();
        self.head = Some(Box::new(Node { elem, next }));
        self.size = self.size + 1;
    }

    /// Removes and returns the top element, or `None` if the list is empty.
    pub fn pop(&mut self) -> (r: Option<T>)
        requires
            old(self).wf(),
        ensures
            final(self).wf(),
            old(self)@.len() == 0 ==> r.is_none() && final(self)@ == old(self)@,
            old(self)@.len() != 0 ==> r == Some(old(self)@[0]) && final(self)@ == old(self)@.skip(
                1,
            ),
    {
        match self.head.take() {
            None => None,
            Some(node) => {
                let node = *node;
                self.head = node.next;
                self.size = self.size - 1;
                proof {
                    assert(self@ =~= old(self)@.skip(1));
                }
                Some(node.elem)
            },
        }
    }

    /// Returns a reference to the top element, or `None` if the list is empty.
    pub fn peek(&self) -> (r: Option<&T>)
        ensures
            self@.len() == 0 ==> r.is_none(),
            self@.len() != 0 ==> r.is_some() && *r.unwrap() == self@[0],
    {
        match &self.head {
            None => None,
            Some(node) => Some(&node.elem),
        }
    }

    /// Returns a mutable reference to the top element, or `None` if the list
    /// is empty.  The list afterwards holds whatever the caller wrote through
    /// the reference, in place of the old top element.
    pub fn peek_mut(&mut self) -> (r: Option<&mut T>)
        requires
            old(self).wf(),
        ensures
            final(self).wf(),
            old(self)@.len() == 0 ==> r.is_none() && final(self)@ == old(self)@,
            old(self)@.len() != 0 ==> r.is_some() && *r.unwrap() == old(self)@[0]
                && final(self)@ == old(self)@.update(0, *final(r.unwrap())),
    {
        match &mut self.head {
            None => None,
            Some(node) => Some(&mut node.elem),
        }
    }

    /// Consumes the list and returns an iterator over its elements, top first.
    pub fn into_iter(self) -> (it: IntoIter<T>)
        requires
            self.wf(),
        ensures
            it.wf(),
            it@ == self@,
    {
        IntoIter(self)
    }

    /// Returns an iterator over mutable references to the elements, top
    /// first.  The iterator borrows the whole chain: the elements the list
    /// holds after the borrow ends are whatever the cursor's node finally
    /// holds, so every write made through the iterator lands in the list.
    pub fn iter_mut(&mut self) -> (it: IterMut<'_, T>)
        requires
            old(self).wf(),
        ensures
            it@ == old(self)@,
            it.cursor().is_some() <==> old(self)@.len() != 0,
            it.cursor().is_some() ==> node_view(*it.cursor().unwrap()) == old(self)@,
            it.cursor().is_none() ==> final(self)@ == old(self)@,
            it.cursor().is_some() ==> final(self)@ == node_view(*final(it.cursor().unwrap())),
            final(self)@.len() == old(self)@.len() ==> final(self).wf(),
    {
        IterMut {
            next: match &mut self.head {
                None => None,
                Some(node) => Some(&mut **node),
            },
        }
    }

    /// Returns an iterator over references to the elements, top first.
    pub fn iter(&self) -> (it: Iter<'_, T>)
        ensures
            it@ == self@,
    {
        Iter {
            next: match &self.head {
                None => None,
                Some(node) => Some(&**node),
            },
        }
    }

    /// Releases the chain iteratively: each node's successor link is moved
    /// out before the node itself goes away, so no drop recurses down the
    /// chain and auxiliary space stays constant whatever the length.
    pub fn clear(&mut self)
        ensures
            final(self)@ == Seq::<T>::empty(),
            final(self).wf(),
        opens_invariants none
        no_unwind
    {
        let mut cur: Link<T> = None;
        core::mem::swap(&mut cur, &mut self.head);
        self.size = 0;
        loop
            decreases link_view(cur).len(),
        {
            match cur {
                None => {
                    break;
                },
                Some(node) => {
                    let node = *node;
                    cur = node.next;
                },
            }
        }
    }
}

impl<T> Drop for List<T> {
    /// Teardown goes through `clear`, so it is iterative and never recurses
    /// down the chain: the body itself empties the list, leaving nothing for
    /// the automatic field-drop that runs afterwards.
    fn drop(&mut self)
        ensures
            final(self)@ == Seq::<T>::empty(),
            final(self).wf(),
        opens_invariants none
        no_unwind
    {
        self.clear();
    }
}

/// A consuming iterator: owns the list and pops one element per step.
pub struct IntoIter<T>(List<T>);

impl<T> View for IntoIter<T> {
    type V = Seq<T>;

    closed spec fn view(&self) -> Seq<T> {
        self.0@
    }
}

impl<T> IntoIter<T> {
    /// Well-formedness of the underlying list.
    pub closed spec fn wf(&self) -> bool {
        self.0.wf()
    }

    /// Removes and returns the next element, or `None` once exhausted.
    pub fn next(&mut self) -> (r: Option<T>)
        requires
            old(self).wf(),
        ensures
            final(self).wf(),
            old(self)@.len() == 0 ==> r.is_none() && final(self)@ == old(self)@,
            old(self)@.len() != 0 ==> r == Some(old(self)@[0]) && final(self)@ == old(self)@.skip(
                1,
            ),
    {
        self.0.pop()
    }
}

/// An iterator over shared references: holds the next node to visit, if any.
pub struct Iter<'a, T> {
    next: Option<&'a Node<T>>,
}

impl<'a, T> View for Iter<'a, T> {
    type V = Seq<T>;

    closed spec fn view(&self) -> Seq<T> {
        match self.next {
            None => Seq::empty(),
            Some(node) => seq![node.elem] + link_view(node.next),
        }
    }
}

impl<'a, T> Iter<'a, T> {
    /// Returns a reference to the next element and advances the cursor,
    /// or returns `None` once exhausted.
    pub fn next(&mut self) -> (r: Option<&'a T>)
        ensures
            old(self)@.len() == 0 ==> r.is_none() && final(self)@ == old(self)@,
            old(self)@.len() != 0 ==> r.is_some() && *r.unwrap() == old(self)@[0]
                && final(self)@ == old(self)@.skip(1),
    {
        match self.next {
            None => None,
            Some(node) => {
                self.next = match &node.next {
                    None => None,
                    Some(b) => Some(&**b),
                };
                proof {
                    assert(self@ =~= old(self)@.skip(1));
                }
                Some(&node.elem)
            },
        }
    }
}

/// An iterator over mutable references: holds the next node to visit; each
/// step surrenders the held reference in exchange for the element reference
/// and the successor, so no two live references alias.
pub struct IterMut<'a, T> {
    next: Option<&'a mut Node<T>>,
}

impl<'a, T> View for IterMut<'a, T> {
    type V = Seq<T>;

    closed spec fn view(&self) -> Seq<T> {
        match self.next {
            None => Seq::empty(),
            Some(node) => seq![node.elem] + link_view(node.next),
        }
    }
}

impl<'a, T> IterMut<'a, T> {
    /// The held reference to the next node to visit, if any.  Its final
    /// referent — `final` of the `Some` content — is the value the node will
    /// hold once the borrow ends, which is how the contracts of `iter_mut`
    /// and `next` account for writes made through the returned references.
    pub closed spec fn cursor(&self) -> Option<&'a mut Node<T>> {
        self.next
    }

    /// Returns a mutable reference to the next element and advances the
    /// cursor, or returns `None` once exhausted.  The chain keeps every
    /// element the caller writes through a returned reference: the elements
    /// the old cursor's node will finally hold are the final value behind
    /// this reference followed by the elements the advanced cursor's node
    /// will finally hold.
    pub fn next(&mut self) -> (r: Option<&'a mut T>)
        ensures
            old(self)@.len() == 0 ==> r.is_none() && final(self)@ == old(self)@
                && old(self).cursor().is_none() && final(self).cursor().is_none(),
            old(self)@.len() != 0 ==> r.is_some() && *r.unwrap() == old(self)@[0]
                && final(self)@ == old(self)@.skip(1) && old(self).cursor().is_some()
                && node_view(*final(old(self).cursor().unwrap())) == seq![*final(r.unwrap())]
                + (match final(self).cursor() {
                    None => Seq::<T>::empty(),
                    Some(p) => node_view(*final(p)),
                }),
            final(self).cursor().is_some() <==> final(self)@.len() != 0,
            final(self).cursor().is_some() ==> node_view(*final(self).cursor().unwrap())
                == final(self)@,
    {
        match self.next.take() {
            None => None,
            Some(node) => {
                self.next = match &mut node.next {
                    None => None,
                    Some(b) => Some(&mut **b),
                };
                proof {
                    assert(self@ =~= old(self)@.skip(1));
                }
                Some(&mut node.elem)
            },
        }
    }
}

/// Size invariant, witnessed by execution: draining a list through the
/// consuming iterator produces exactly as many elements as `size` reports,
/// whatever sequence of pushes and pops built the list.
pub fn drain_count<T>(l: List<T>) -> (n: usize)
    requires
        l.wf(),
    ensures
        n == l@.len(),
{
    let ghost total = l@.len();
    let mut it = l.into_iter();
    let mut n: usize = 0;
    loop
        invariant
            it.wf(),
            n + it@.len() == total,
            total <= usize::MAX,
        ensures
            n == total,
        decreases it@.len(),
    {
        match it.next() {
            None => {
                break;
            },
            Some(_) => {
                n = n + 1;
            },
        }
    }
    n
}

/// LIFO order, witnessed by execution: draining a list through the consuming
/// iterator yields exactly the elements of its view, in view order — that is,
/// most-recently-pushed first.
pub fn drain_to_vec<T>(l: List<T>) -> (r: Vec<T>)
    requires
        l.wf(),
    ensures
        r@ == l@,
{
    let ghost total = l@;
    let mut it = l.into_iter();
    let mut r: Vec<T> = Vec::new();
    loop
        invariant
            it.wf(),
            r@ + it@ == total,
        ensures
            r@ == total,
        decreases it@.len(),
    {
        match it.next() {
            None => {
                proof {
                    assert(r@ =~= total);
                }
                break;
            },
            Some(v) => {
                r.push(v);
                proof {
                    assert(r@ + it@ =~= total);
                }
            },
        }
    }
    r
}

/// LIFO order, witnessed by execution on the push side: pushing every
/// element of `vs` onto `l`, first to last, leaves the list holding them in
/// reverse push order on top of what it held before.
pub fn push_all<T>(l: &mut List<T>, vs: Vec<T>)
    requires
        old(l).wf(),
        old(l)@.len() + vs@.len() < usize::MAX,
    ensures
        final(l).wf(),
        final(l)@ == vs@.reverse() + old(l)@,
{
    let ghost vs0 = vs@;
    proof {
        lemma_lifo_order(old(l)@, vs0);
    }
    let mut vs = vs;
    while vs.len() > 0
        invariant
            l.wf(),
            view_after_pushes(l@, vs@) == view_after_pushes(old(l)@, vs0),
            l@.len() + vs@.len() == old(l)@.len() + vs0.len(),
            old(l)@.len() + vs0.len() < usize::MAX,
        decreases vs@.len(),
    {
        let ghost l_before = l@;
        let ghost vs_before = vs@;
        let v = vs.remove(0);
        l.push(v);
        proof {
            assert(vs@ =~= vs_before.skip(1));
            assert(view_after_pushes(l_before, vs_before) == view_after_pushes(
                seq![vs_before[0]] + l_before,
                vs_before.skip(1),
            ));
        }
    }
}

/// The view of a list after pushing the elements of `vs` onto a list whose
/// view is `s`, first to last: each push puts its element in front, exactly
/// as the contract of `push` states.
pub open spec fn view_after_pushes<T>(s: Seq<T>, vs: Seq<T>) -> Seq<T>
    decreases vs.len(),
{
    if vs.len() == 0 {
        s
    } else {
        view_after_pushes(seq![vs[0]] + s, vs.skip(1))
    }
}

/// LIFO order: pushing the values of `vs` in order, with no interleaved
/// pops, leaves them on top in reverse push order, so popping — or the
/// consuming iterator, which pops — yields them most-recently-pushed first.
pub proof fn lemma_lifo_order<T>(s: Seq<T>, vs: Seq<T>)
    ensures
        view_after_pushes(s, vs) == vs.reverse() + s,
    decreases vs.len(),
{
    if vs.len() == 0 {
        assert(view_after_pushes(s, vs) =~= vs.reverse() + s);
    } else {
        lemma_lifo_order(seq![vs[0]] + s, vs.skip(1));
        assert(vs.skip(1).reverse() + (seq![vs[0]] + s) =~= vs.reverse() + s);
    }
}

/// Peek/pop agreement: `peek` returns the element at index 0 of the view,
/// which is exactly what an immediately following `pop` returns; that `pop`
/// leaves the rest of the view, so the next `peek` sees what was previously
/// the second element, or nothing when there was none.
pub proof fn lemma_peek_pop_agreement<T>(s: Seq<T>)
    requires
        s.len() > 0,
    ensures
        s.skip(1).len() == s.len() - 1,
        s.len() > 1 ==> s.skip(1)[0] == s[1],
{
}

/// Mutation through `peek_mut`: writing `y` over the head element — what the
/// contract of `peek_mut` says the list becomes — makes `y` the element that
/// `peek` then observes and that `pop` then returns, and leaves the rest of
/// the list unchanged.
pub proof fn lemma_peek_mut_overwrite<T>(s: Seq<T>, y: T)
    requires
        s.len() > 0,
    ensures
        s.update(0, y)[0] == y,
        s.update(0, y).len() == s.len(),
        s.update(0, y).skip(1) == s.skip(1),
{
    assert(s.update(0, y).skip(1) =~= s.skip(1));
}

} // verus!
