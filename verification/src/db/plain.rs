use vstd::prelude::*;

verus! {

/// A value that stands for a mathematical value, its model, and can be copied with the model kept.
pub trait Plain: Sized {
    type Model;

    spec fn model(&self) -> Self::Model;

    fn replica(&self) -> (out: Self)
        ensures
            out.model() == self.model(),
    ;
}

impl Plain for String {
    type Model = Seq<char>;

    open spec fn model(&self) -> Seq<char> {
        self@
    }

    fn replica(&self) -> (out: String) {
        self.clone()
    }
}

impl Plain for i32 {
    type Model = int;

    open spec fn model(&self) -> int {
        *self as int
    }

    fn replica(&self) -> (out: i32) {
        *self
    }
}

impl Plain for bool {
    type Model = bool;

    open spec fn model(&self) -> bool {
        *self
    }

    fn replica(&self) -> (out: bool) {
        *self
    }
}

impl Plain for usize {
    type Model = int;

    open spec fn model(&self) -> int {
        *self as int
    }

    fn replica(&self) -> (out: usize) {
        *self
    }
}

impl Plain for u128 {
    type Model = int;

    open spec fn model(&self) -> int {
        *self as int
    }

    fn replica(&self) -> (out: u128) {
        *self
    }
}

impl<A: Plain, B: Plain, C: Plain> Plain for (A, B, C) {
    type Model = (A::Model, B::Model, C::Model);

    open spec fn model(&self) -> (A::Model, B::Model, C::Model) {
        (self.0.model(), self.1.model(), self.2.model())
    }

    fn replica(&self) -> (out: (A, B, C)) {
        (self.0.replica(), self.1.replica(), self.2.replica())
    }
}

/// The models of the items of a sequence, in order.
pub open spec fn models<T: Plain>(items: Seq<T>) -> Seq<T::Model> {
    items.map_values(|item: T| item.model())
}

/// The models of a sequence with one more item are those of the sequence and that of the item.
pub proof fn lemma_models_push<T: Plain>(items: Seq<T>, item: T)
    ensures
        models(items.push(item)) == models(items).push(item.model()),
{
    assert(models(items.push(item)) =~= models(items).push(item.model()));
}

impl<T: Plain> Plain for Vec<T> {
    type Model = Seq<T::Model>;

    open spec fn model(&self) -> Seq<T::Model> {
        models(self@)
    }

    fn replica(&self) -> (out: Vec<T>) {
        let mut out: Vec<T> = Vec::new();
        let mut i: usize = 0;
        while i < self.len()
            invariant
                i <= self@.len(),
                out@.len() == i,
                forall|k: int| 0 <= k < i ==> (#[trigger] out@[k]).model() == self@[k].model(),
            decreases self@.len() - i,
        {
            out.push(self[i].replica());
            i += 1;
        }
        assert(models(out@) =~= models(self@));
        out
    }
}

impl<T: Plain> Plain for Option<T> {
    type Model = Option<T::Model>;

    open spec fn model(&self) -> Option<T::Model> {
        match self {
            Some(item) => Some(item.model()),
            None => None,
        }
    }

    fn replica(&self) -> (out: Option<T>) {
        match self {
            Some(item) => Some(item.replica()),
            None => None,
        }
    }
}

} // verus!
