//! Look-ahead over a sequence of items.
use vstd::prelude::*;
use vstd::std_specs::cmp::PartialEqSpec;

verus! {

/// Items, which can be looked at any distance ahead before they are taken.
pub struct PeekableNth<T> {
    /// Items not yet looked at, the next one last.
    source: Vec<T>,
    /// Items already looked at, the next one first.
    buf: Vec<T>,
}

impl<T> View for PeekableNth<T> {
    type V = Seq<T>;

    /// The items still to come, in order.
    closed spec fn view(&self) -> Seq<T> {
        self.buf@ + self.source@.reverse()
    }
}

/// Something which can be looked ahead into.
pub trait IntoPeekableNth<T>: Sized {
    spec fn spec_items(&self) -> Seq<T>;

    fn peekable_nth(self) -> (r: PeekableNth<T>)
        ensures
            r@ == self.spec_items(),
    ;
}

impl<T> IntoPeekableNth<T> for Vec<T> {
    open spec fn spec_items(&self) -> Seq<T> {
        self@
    }

    fn peekable_nth(self) -> (r: PeekableNth<T>) {
        PeekableNth::with_capacity(self, 32)
    }
}

impl<T> PeekableNth<T> {
    #[verifier::type_invariant]
    spec fn fits(&self) -> bool {
        self.buf@.len() + self.source@.len() <= usize::MAX
    }

    /// Look-ahead over `items`, with room for `capacity` looked-at items before reallocating.
    fn with_capacity(items: Vec<T>, capacity: usize) -> (r: Self)
        ensures
            r@ == items@,
    {
        let ghost orig = items@;
        let n = items.len();
        assert(orig.len() == n);
        let mut items = items;
        let mut source: Vec<T> = Vec::new();
        while items.len() > 0
            invariant
                items@ + source@.reverse() == orig,
                orig.len() <= usize::MAX,
            decreases items@.len(),
        {
            let ghost before = items@;
            let x = items.pop().unwrap();
            source.push(x);
            proof {
                assert(before == items@.push(x));
                assert(source@.reverse() =~= seq![x] + source@.drop_last().reverse());
                assert(items@ + source@.reverse() =~= before + source@.drop_last().reverse());
            }
        }
        assert(source@.reverse() =~= orig);
        PeekableNth { source, buf: Vec::with_capacity(capacity) }
    }

    /// Look-ahead over `items`.
    pub fn new(items: Vec<T>) -> (r: Self)
        ensures
            r@ == items@,
    {
        Self::with_capacity(items, 32)
    }

    /// Bounds on how many items are still to come: the exact count where it fits in a
    /// `usize`.
    pub fn size_hint(&self) -> (r: (usize, Option<usize>))
        ensures
            r.0 == (if self@.len() <= usize::MAX { self@.len() } else { usize::MAX as nat }),
            r.1 == (if self@.len() <= usize::MAX { Some(self@.len() as usize) } else { None }),
    {
        let buf_size = self.buf.len();
        let source_size = self.source.len();
        (source_size.saturating_add(buf_size), source_size.checked_add(buf_size))
    }

    /// Takes the buffer and the source out, leaving both empty.
    fn take_parts(&mut self) -> (r: (Vec<T>, Vec<T>))
        ensures
            r.0@ == old(self).buf@,
            r.1@ == old(self).source@,
            r.0@.len() + r.1@.len() <= usize::MAX,
    {
        proof {
            use_type_invariant(&*self);
        }
        let mut buf: Vec<T> = Vec::new();
        let mut source: Vec<T> = Vec::new();
        std::mem::swap(&mut buf, &mut self.buf);
        std::mem::swap(&mut source, &mut self.source);
        (buf, source)
    }

    /// Moves items from the source into the buffer until it holds `offset + 1` of them, or
    /// the source runs out.
    fn fill(&mut self, offset: usize)
        ensures
            final(self)@ == old(self)@,
            final(self).buf@.len() > offset || final(self).source@.len() == 0,
    {
        let (mut buf, mut source) = self.take_parts();
        let ghost total = buf@.len() + source@.len();
        while buf.len() <= offset && source.len() > 0
            invariant
                buf@ + source@.reverse() == old(self)@,
                buf@.len() + source@.len() == total,
                total <= usize::MAX,
            decreases source@.len(),
        {
            let ghost b = buf@;
            let ghost s = source@;
            let item = source.pop().unwrap();
            buf.push(item);
            proof {
                assert(s == source@.push(item));
                assert(s.reverse() =~= seq![item] + source@.reverse());
                assert(buf@ + source@.reverse() =~= b + s.reverse());
            }
        }
        *self = PeekableNth { source, buf };
    }

    pub fn peek(&mut self) -> (r: Option<&T>)
        ensures
            final(self)@ == old(self)@,
            match r {
                Some(x) => old(self)@.len() > 0 && *x == old(self)@[0],
                None => old(self)@.len() == 0,
            },
    {
        self.peek_nth(0)
    }

    pub fn peek_nth(&mut self, offset: usize) -> (r: Option<&T>)
        ensures
            final(self)@ == old(self)@,
            match r {
                Some(x) => offset < old(self)@.len() && *x == old(self)@[offset as int],
                None => offset >= old(self)@.len(),
            },
    {
        self.fill(offset);
        if offset < self.buf.len() {
            Some(&self.buf[offset])
        } else {
            None
        }
    }

    pub fn next(&mut self) -> (r: Option<T>)
        ensures
            match r {
                Some(x) => old(self)@.len() > 0 && x == old(self)@[0] && final(self)@ == old(
                    self,
                )@.drop_first(),
                None => old(self)@.len() == 0 && final(self)@ == old(self)@,
            },
    {
        let (mut buf, mut source) = self.take_parts();
        if buf.len() == 0 {
            let ghost s = source@;
            let r = source.pop();
            proof {
                if s.len() > 0 {
                    assert(s == source@.push(r.unwrap()));
                    assert(s.reverse() =~= seq![r.unwrap()] + source@.reverse());
                    assert(old(self)@ =~= s.reverse());
                }
                assert(buf@ + source@.reverse() =~= source@.reverse());
            }
            *self = PeekableNth { source, buf };
            r
        } else {
            let x = buf.remove(0);
            assert(buf@ + source@.reverse() =~= old(self)@.drop_first());
            *self = PeekableNth { source, buf };
            Some(x)
        }
    }

    pub fn next_back(&mut self) -> (r: Option<T>)
        ensures
            match r {
                Some(x) => old(self)@.len() > 0 && x == old(self)@.last() && final(self)@ == old(
                    self,
                )@.drop_last(),
                None => old(self)@.len() == 0 && final(self)@ == old(self)@,
            },
    {
        let (mut buf, mut source) = self.take_parts();
        if source.len() > 0 {
            let ghost s = source@;
            let x = source.remove(0);
            proof {
                assert(s =~= seq![x] + source@);
                assert(s.reverse() =~= source@.reverse().push(x));
                assert(buf@ + source@.reverse() =~= old(self)@.drop_last());
            }
            *self = PeekableNth { source, buf };
            Some(x)
        } else {
            let r = buf.pop();
            proof {
                assert(old(self).source@.reverse() =~= Seq::<T>::empty());
                assert(source@.reverse() =~= Seq::<T>::empty());
                assert(old(self)@ =~= old(self).buf@);
                assert(buf@ + source@.reverse() =~= buf@);
            }
            *self = PeekableNth { source, buf };
            r
        }
    }

    /// Drops the next `n` items, which must exist.
    fn advance_by(&mut self, n: usize)
        requires
            n <= old(self)@.len(),
        ensures
            final(self)@ == old(self)@.skip(n as int),
    {
        let mut k: usize = 0;
        while k < n
            invariant
                k <= n <= old(self)@.len(),
                self@ == old(self)@.skip(k as int),
            decreases n - k,
        {
            let _ = self.next();
            k = k + 1;
            assert(self@ =~= old(self)@.skip(k as int));
        }
    }
}

/// The first index at or after `k` where `items` holds an error or an item that `accepted`
/// rejects, or the length where there is none.
pub open spec fn collect_end<U, E>(items: Seq<Result<U, E>>, accepted: spec_fn(U) -> bool, k: int) -> int
    decreases items.len() - k,
{
    if 0 <= k < items.len() && items[k] is Ok && accepted(items[k]->Ok_0) {
        collect_end(items, accepted, k + 1)
    } else {
        k
    }
}

/// The values of the items `items[0..k]`, which must all be `Ok`.
pub open spec fn ok_values<U, E>(items: Seq<Result<U, E>>, k: int) -> Seq<U> {
    Seq::new(k as nat, |i: int| items[i]->Ok_0)
}

/// The outcome of taking the longest run of values on which `condition` gives `wanted`, from
/// `before` (leaving `after`): either the values of the run, or the error which cut it short.
pub open spec fn collect_outcome<U, E, F: Fn(&U) -> bool>(
    condition: F,
    wanted: bool,
    before: Seq<Result<U, E>>,
    after: Seq<Result<U, E>>,
    r: Result<Vec<U>, E>,
) -> bool {
    exists|k: int|
        #![trigger before.skip(k)]
        0 <= k <= before.len() && (forall|j: int|
            0 <= j < k ==> before[j] is Ok && condition.ensures(
                (&(#[trigger] before[j])->Ok_0,),
                wanted,
            )) && (k < before.len() ==> match before[k] {
            Ok(x) => condition.ensures((&x,), !wanted) && (r matches Ok(v) && v@ == ok_values(
                before,
                k,
            ) && after == before.skip(k)),
            Err(e) => r == Err::<Vec<U>, E>(e) && after == before.skip(k + 1),
        }) && (k == before.len() ==> (r matches Ok(v) && v@ == ok_values(before, k) && after
            == before.skip(k)))
}

impl<U, E> PeekableNth<Result<U, E>> {
    pub fn try_peek(&mut self) -> (r: Result<Option<&U>, E>)
        ensures
            old(self)@.len() == 0 ==> (r matches Ok(None) && final(self)@ == old(self)@),
            old(self)@.len() > 0 ==> match old(self)@[0] {
                Ok(x) => r matches Ok(Some(y)) && *y == x && final(self)@ == old(self)@,
                Err(e) => r == Err::<Option<&U>, E>(e) && final(self)@ == old(self)@.skip(1),
            },
    {
        self.try_peek_nth(0)
    }

    /// Looks at the item `offset` ahead. An error there is taken out, with every item before
    /// it, and returned.
    pub fn try_peek_nth(&mut self, offset: usize) -> (r: Result<Option<&U>, E>)
        ensures
            offset >= old(self)@.len() ==> (r matches Ok(None) && final(self)@ == old(self)@),
            offset < old(self)@.len() ==> match old(self)@[offset as int] {
                Ok(x) => r matches Ok(Some(y)) && *y == x && final(self)@ == old(self)@,
                Err(e) => r == Err::<Option<&U>, E>(e) && final(self)@ == old(self)@.skip(
                    offset + 1,
                ),
            },
    {
        let is_err = match self.peek_nth(offset) {
            None => return Ok(None),
            Some(Ok(_)) => false,
            Some(Err(_)) => true,
        };
        if is_err {
            self.advance_by(offset);
            match self.next() {
                Some(Err(err)) => {
                    assert(self@ =~= old(self)@.skip(offset + 1));
                    Err(err)
                },
                _ => {
                    assert(false);
                    Ok(None)
                },
            }
        } else {
            match self.peek_nth(offset) {
                Some(Ok(value)) => Ok(Some(value)),
                _ => {
                    assert(false);
                    Ok(None)
                },
            }
        }
    }

    pub fn try_next(&mut self) -> (r: Result<Option<U>, E>)
        ensures
            old(self)@.len() == 0 ==> (r matches Ok(None) && final(self)@ == old(self)@),
            old(self)@.len() > 0 ==> final(self)@ == old(self)@.drop_first() && match old(self)@[0] {
                Ok(x) => r == Ok::<Option<U>, E>(Some(x)),
                Err(e) => r == Err::<Option<U>, E>(e),
            },
    {
        match self.next() {
            None => Ok(None),
            Some(Ok(x)) => Ok(Some(x)),
            Some(Err(e)) => Err(e),
        }
    }

    /// Takes the next item if it is a value that `condition` accepts.
    pub fn try_next_if(&mut self, condition: impl FnOnce(&U) -> bool) -> (r: Result<Option<U>, E>)
        requires
            forall|x: &U| #[trigger] condition.requires((x,)),
        ensures
            old(self)@.len() == 0 ==> (r matches Ok(None) && final(self)@ == old(self)@),
            old(self)@.len() > 0 ==> match old(self)@[0] {
                Ok(x) => match r {
                    Ok(Some(y)) => y == x && condition.ensures((&x,), true) && final(self)@ == old(
                        self,
                    )@.drop_first(),
                    Ok(None) => condition.ensures((&x,), false) && final(self)@ == old(self)@,
                    Err(_) => false,
                },
                Err(e) => r == Err::<Option<U>, E>(e) && final(self)@ == old(self)@.drop_first(),
            },
    {
        let accepted = match self.try_peek() {
            Err(e) => {
                assert(self@ =~= old(self)@.drop_first());
                return Err(e);
            },
            Ok(None) => return Ok(None),
            Ok(Some(next)) => condition(next),
        };
        if accepted {
            match self.next() {
                Some(Ok(item)) => Ok(Some(item)),
                _ => {
                    assert(false);
                    Ok(None)
                },
            }
        } else {
            Ok(None)
        }
    }

    /// Takes the next item if it is a value equal to `expected`.
    pub fn try_next_if_eq<V>(&mut self, expected: &V) -> (r: Result<Option<U>, E>) where
        U: PartialEq<V>,
        V: ?Sized,

        ensures
            old(self)@.len() == 0 ==> (r matches Ok(None) && final(self)@ == old(self)@),
            old(self)@.len() > 0 ==> match old(self)@[0] {
                Ok(x) => match r {
                    Ok(Some(y)) => y == x && (<U as PartialEqSpec<V>>::obeys_eq_spec() ==> x.eq_spec(expected))
                        && final(self)@ == old(self)@.drop_first(),
                    Ok(None) => (<U as PartialEqSpec<V>>::obeys_eq_spec() ==> !x.eq_spec(expected)) && final(self)@
                        == old(self)@,
                    Err(_) => false,
                },
                Err(e) => r == Err::<Option<U>, E>(e) && final(self)@ == old(self)@.drop_first(),
            },
    {
        let accepted = match self.try_peek() {
            Err(e) => {
                assert(self@ =~= old(self)@.drop_first());
                return Err(e);
            },
            Ok(None) => return Ok(None),
            Ok(Some(next)) => next.eq(expected),
        };
        if accepted {
            match self.next() {
                Some(Ok(item)) => Ok(Some(item)),
                _ => {
                    assert(false);
                    Ok(None)
                },
            }
        } else {
            Ok(None)
        }
    }

    /// Takes the next item, which must be a value equal to `expected`.
    pub fn try_next_exact<V>(&mut self, expected: &V) -> (r: Result<(), E>) where
        U: PartialEq<V>,
        V: ?Sized,

        requires
            <U as PartialEqSpec<V>>::obeys_eq_spec(),
            old(self)@.len() > 0,
            old(self)@[0] matches Ok(x) ==> x.eq_spec(expected),
        ensures
            final(self)@ == old(self)@.drop_first(),
            match old(self)@[0] {
                Ok(_) => r is Ok,
                Err(e) => r == Err::<(), E>(e),
            },
    {
        match self.next() {
            Some(Ok(_)) => Ok(()),
            Some(Err(e)) => Err(e),
            None => {
                assert(false);
                Ok(())
            },
        }
    }

    /// Takes the longest run of values which `condition` accepts. An error met before the run
    /// ends is taken out, with every item before it, and returned.
    pub fn try_collect_while(&mut self, condition: impl Fn(&U) -> bool) -> (r: Result<Vec<U>, E>)
        requires
            forall|x: &U| #[trigger] condition.requires((x,)),
        ensures
            collect_outcome(condition, true, old(self)@, final(self)@, r),
    {
        self.collect_matching(condition, true)
    }

    /// Takes the longest run of values which `condition` rejects. An error met before the run
    /// ends is taken out, with every item before it, and returned.
    pub fn try_collect_until(&mut self, condition: impl Fn(&U) -> bool) -> (r: Result<Vec<U>, E>)
        requires
            forall|x: &U| #[trigger] condition.requires((x,)),
        ensures
            collect_outcome(condition, false, old(self)@, final(self)@, r),
    {
        self.collect_matching(condition, false)
    }

    /// Takes the longest run of values on which `condition` gives `wanted`.
    fn collect_matching(&mut self, condition: impl Fn(&U) -> bool, wanted: bool) -> (r: Result<Vec<U>, E>)
        requires
            forall|x: &U| #[trigger] condition.requires((x,)),
        ensures
            collect_outcome(condition, wanted, old(self)@, final(self)@, r),
    {
        proof {
            use_type_invariant(&*self);
        }
        let mut idx: usize = 0;
        loop
            invariant
                forall|x: &U| #[trigger] condition.requires((x,)),
                self@.len() <= usize::MAX,
                self@ == old(self)@,
                idx <= self@.len(),
                forall|j: int|
                    0 <= j < idx ==> self@[j] is Ok && condition.ensures(
                        (&(#[trigger] self@[j])->Ok_0,),
                        wanted,
                    ),
            ensures
                self@ == old(self)@,
                idx <= self@.len(),
                forall|j: int|
                    0 <= j < idx ==> self@[j] is Ok && condition.ensures(
                        (&(#[trigger] self@[j])->Ok_0,),
                        wanted,
                    ),
                idx < self@.len() ==> (self@[idx as int] is Ok && condition.ensures(
                    (&self@[idx as int]->Ok_0,),
                    !wanted,
                )),
            decreases self@.len() - idx,
        {
            match self.try_peek_nth(idx) {
                Err(e) => {
                    assert(old(self)@.skip(idx as int) == old(self)@.skip(idx as int));
                    return Err(e);
                },
                Ok(None) => {
                    break;
                },
                Ok(Some(item)) => {
                    if condition(item) != wanted {
                        break;
                    }
                },
            }
            idx = idx + 1;
        }
        let mut out: Vec<U> = Vec::new();
        let mut k: usize = 0;
        while k < idx
            invariant
                k <= idx <= old(self)@.len(),
                forall|j: int| 0 <= j < idx ==> (#[trigger] old(self)@[j]) is Ok,
                self@ == old(self)@.skip(k as int),
                out@ == ok_values(old(self)@, k as int),
            decreases idx - k,
        {
            match self.next() {
                Some(Ok(item)) => {
                    out.push(item);
                },
                _ => {
                    assert(false);
                },
            }
            k = k + 1;
            assert(self@ =~= old(self)@.skip(k as int));
            assert(out@ =~= ok_values(old(self)@, k as int));
        }
        assert(old(self)@.skip(idx as int) == old(self)@.skip(idx as int));
        Ok(out)
    }
}

impl<E> PeekableNth<Result<char, E>> {
    /// Takes the characters of `expected` if the next items are exactly those values; an error
    /// met while comparing is taken out, with every item before it, and returned.
    pub fn try_consume_str(&mut self, expected: &str) -> (r: Result<bool, E>)
        ensures
            match r {
                Ok(true) => expected@.len() <= old(self)@.len() && (forall|j: int|
                    0 <= j < expected@.len() ==> old(self)@[j] == Ok::<char, E>(
                        #[trigger] expected@[j],
                    )) && final(self)@ == old(self)@.skip(expected@.len() as int),
                Ok(false) => final(self)@ == old(self)@ && exists|j: int|
                    0 <= j < expected@.len() && (j >= old(self)@.len() || old(self)@[j]
                        != Ok::<char, E>(#[trigger] expected@[j])) && forall|i: int|
                        0 <= i < j ==> old(self)@[i] == Ok::<char, E>(#[trigger] expected@[i]),
                Err(e) => exists|j: int|
                    0 <= j < expected@.len() && j < old(self)@.len() && old(self)@[j] == Err::<
                        char,
                        E,
                    >(e) && final(self)@ == old(self)@.skip(j + 1) && forall|i: int|
                        0 <= i < j ==> old(self)@[i] == Ok::<char, E>(#[trigger] expected@[i]),
            },
    {
        let n = expected.unicode_len();
        let mut idx: usize = 0;
        while idx < n
            invariant
                n == expected@.len(),
                idx <= n,
                self@ == old(self)@,
                idx <= self@.len(),
                forall|i: int| 0 <= i < idx ==> self@[i] == Ok::<char, E>(#[trigger] expected@[i]),
            decreases n - idx,
        {
            let ch = expected.get_char(idx);
            let same = match self.try_peek_nth(idx) {
                Err(e) => return Err(e),
                Ok(None) => false,
                Ok(Some(item)) => *item == ch,
            };
            if !same {
                return Ok(false);
            }
            idx = idx + 1;
        }
        self.advance_by(n);
        Ok(true)
    }
}

} // verus!
