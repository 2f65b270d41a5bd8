use vstd::prelude::*;

verus! {

/// A cursor over a borrowed sequence of elements that supports speculative
/// reading: an attempt either commits what it consumed or leaves the cursor
/// where it was.
pub struct TryReader<'l, T> {
    elements: &'l Vec<T>,
    needle: usize,
}

impl<'l, T> TryReader<'l, T> {
    #[verifier::type_invariant]
    spec fn within_bounds(self) -> bool {
        self.needle <= self.elements@.len()
    }

    /// The elements the cursor reads.
    pub closed spec fn items(&self) -> Seq<T> {
        self.elements@
    }

    /// The index of the next element to read.
    pub closed spec fn position(&self) -> int {
        self.needle as int
    }

    /// A cursor that stands before the first of `elements`.
    pub fn new(elements: &'l Vec<T>) -> (r: TryReader<'l, T>)
        ensures
            r.items() == elements@,
            r.position() == 0,
    {
        TryReader { elements, needle: 0 }
    }

    /// Reads the next element and moves past it.
    pub fn next(&mut self) -> (r: Option<&'l T>)
        ensures
            final(self).items() == old(self).items(),
            0 <= old(self).position() <= old(self).items().len(),
            match r {
                Some(t) => old(self).position() < old(self).items().len()
                    && *t == old(self).items()[old(self).position()]
                    && final(self).position() == old(self).position() + 1,
                None => old(self).position() == old(self).items().len()
                    && final(self).position() == old(self).position(),
            },
    {
        proof {
            use_type_invariant(&*self);
        }
        if self.needle < self.elements.len() {
            let t = &self.elements[self.needle];
            self.needle += 1;
            Some(t)
        } else {
            None
        }
    }

    /// Tells whether an element is left to read.
    pub fn has_next(&self) -> (b: bool)
        ensures
            b == (self.position() < self.items().len()),
            0 <= self.position() <= self.items().len(),
    {
        proof {
            use_type_invariant(self);
        }
        self.elements.len() != self.needle
    }

    /// Looks at the next element without moving.
    pub fn peek(&self) -> (r: Option<&'l T>)
        ensures
            0 <= self.position() <= self.items().len(),
            match r {
                Some(t) => self.position() < self.items().len()
                    && *t == self.items()[self.position()],
                None => self.position() == self.items().len(),
            },
    {
        proof {
            use_type_invariant(self);
        }
        if self.needle < self.elements.len() {
            Some(&self.elements[self.needle])
        } else {
            None
        }
    }

    /// The index of the next element to read.
    pub fn offset(&self) -> (r: usize)
        ensures
            r == self.position(),
            0 <= self.position() <= self.items().len(),
    {
        proof {
            use_type_invariant(self);
        }
        self.needle
    }

    /// Moves the cursor back to an index it has already passed.
    pub fn rewind(&mut self, to: usize)
        requires
            to <= old(self).position(),
        ensures
            final(self).items() == old(self).items(),
            final(self).position() == to,
    {
        proof {
            use_type_invariant(&*self);
        }
        self.needle = to;
    }

    /// Runs `f` on a copy of the cursor. If `f` succeeds, the cursor takes
    /// over the copy's position and the result comes with the number of
    /// elements consumed; if `f` fails, the cursor stays where it was.
    pub fn try_<R, S, F>(&mut self, f: F) -> (res: Result<(usize, R), S>) where
        F: FnOnce(&mut TryReader<T>) -> Result<R, S>,

        requires
            forall|r: &mut TryReader<T>|
                r.items() == old(self).items() && r.position() == old(self).position()
                    ==> call_requires(f, (r,)),
            forall|r: &mut TryReader<T>, out: Result<R, S>|
                call_ensures(f, (r,), out) ==> final(r).items() == r.items() && r.position()
                    <= final(r).position(),
        ensures
            final(self).items() == old(self).items(),
            match res {
                Ok((consumed, value)) => final(self).position() == old(self).position()
                    + consumed && exists|r: &mut TryReader<T>|
                    r.items() == old(self).items() && r.position() == old(self).position()
                        && final(r).position() == final(self).position() && call_ensures(
                        f,
                        (r,),
                        Ok::<R, S>(value),
                    ),
                Err(error) => final(self).position() == old(self).position() && exists|
                    r: &mut TryReader<T>,
                |
                    r.items() == old(self).items() && r.position() == old(self).position()
                        && call_ensures(f, (r,), Err::<R, S>(error)),
            },
    {
        proof {
            use_type_invariant(&*self);
        }
        let mut clone = TryReader { elements: self.elements, needle: self.needle };
        assert(clone.items() == old(self).items() && clone.position() == old(self).position());
        match f(&mut clone) {
            Ok(result) => {
                proof {
                    use_type_invariant(&clone);
                }
                let consumed = clone.needle - self.needle;
                self.needle = clone.needle;
                Ok((consumed, result))
            },
            Err(err) => Err(err),
        }
    }

    /// Applies `f` to the next element and moves past it only if `f`
    /// succeeds. Fails with `None` when no element is left.
    pub fn try_next<R, S, F>(&mut self, f: F) -> (res: Result<R, Option<S>>) where
        F: FnOnce(&T) -> Result<R, S>,

        requires
            old(self).position() < old(self).items().len() ==> call_requires(
                f,
                (&old(self).items()[old(self).position()],),
            ),
        ensures
            final(self).items() == old(self).items(),
            0 <= old(self).position() <= old(self).items().len(),
            match res {
                Ok(value) => old(self).position() < old(self).items().len() && call_ensures(
                    f,
                    (&old(self).items()[old(self).position()],),
                    Ok::<R, S>(value),
                ) && final(self).position() == old(self).position() + 1,
                Err(Some(error)) => old(self).position() < old(self).items().len()
                    && call_ensures(
                    f,
                    (&old(self).items()[old(self).position()],),
                    Err::<R, S>(error),
                ) && final(self).position() == old(self).position(),
                Err(None) => old(self).position() == old(self).items().len()
                    && final(self).position() == old(self).position(),
            },
    {
        proof {
            use_type_invariant(&*self);
        }
        if self.needle >= self.elements.len() {
            return Err(None);
        }
        match f(&self.elements[self.needle]) {
            Ok(r) => {
                self.needle += 1;
                Ok(r)
            },
            Err(s) => Err(Some(s)),
        }
    }

    /// Moves past every element that `f` accepts, up to the first one that it
    /// rejects.
    pub fn drop_while<F>(&mut self, f: F) where F: Fn(&T) -> bool
        requires
            forall|i: int|
                old(self).position() <= i < old(self).items().len() ==> call_requires(
                    f,
                    (&#[trigger] old(self).items()[i],),
                ),
        ensures
            final(self).items() == old(self).items(),
            old(self).position() <= final(self).position() <= old(self).items().len(),
            forall|i: int|
                old(self).position() <= i < final(self).position() ==> call_ensures(
                    f,
                    (&#[trigger] old(self).items()[i],),
                    true,
                ),
            final(self).position() < old(self).items().len() ==> call_ensures(
                f,
                (&old(self).items()[final(self).position()],),
                false,
            ),
    {
        proof {
            use_type_invariant(&*self);
        }
        let ghost start = self.position();
        let ghost items = self.items();
        let mut accepted = true;
        while accepted && self.needle < self.elements.len()
            invariant
                self.items() == items,
                start <= self.position() <= items.len(),
                forall|i: int| start <= i < items.len() ==> call_requires(f, (&#[trigger] items[i],)),
                forall|i: int|
                    start <= i < self.position() ==> call_ensures(f, (&#[trigger] items[i],), true),
                !accepted ==> self.position() < items.len() && call_ensures(
                    f,
                    (&items[self.position()],),
                    false,
                ),
            decreases items.len() - self.position() + (if accepted { 1int } else { 0int }),
        {
            if f(&self.elements[self.needle]) {
                self.needle += 1;
            } else {
                accepted = false;
            }
        }
    }
}

} // verus!
