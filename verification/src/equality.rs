//! Equality by value: two trees are equal when they have the same shape and
//! carry the same payloads.

use vstd::prelude::*;
use vstd::std_specs::cmp::PartialEqSpecImpl;
use crate::structure::{lemma_view, names, trees, Instruments, Mask, MaskItems, Wrappers};

verus! {

/// Whether two layers hold the same steps.
fn same_layer(a: &Vec<MaskItems>, b: &Vec<MaskItems>) -> (same: bool)
    ensures
        same == (a@ == b@),
{
    if a.len() != b.len() {
        return false;
    }
    let mut k: usize = 0;
    while k < a.len()
        invariant
            k <= a@.len() == b@.len(),
            forall|j: int| 0 <= j < k ==> a@[j] == b@[j],
        decreases a@.len() - k,
    {
        if a[k] != b[k] {
            return false;
        }
        k = k + 1;
    }
    assert(a@ =~= b@);
    true
}

/// Whether two lists hold the same names.
fn same_names(a: &Vec<String>, b: &Vec<String>) -> (same: bool)
    ensures
        same == (names(a@) == names(b@)),
{
    if a.len() != b.len() {
        assert(names(a@).len() != names(b@).len());
        return false;
    }
    let mut k: usize = 0;
    while k < a.len()
        invariant
            k <= a@.len() == b@.len(),
            forall|j: int| 0 <= j < k ==> names(a@)[j] == names(b@)[j],
        decreases a@.len() - k,
    {
        if a[k] != b[k] {
            assert(names(a@)[k as int] != names(b@)[k as int]);
            return false;
        }
        k = k + 1;
    }
    assert(names(a@) =~= names(b@));
    true
}

/// Whether two waveform expressions are the same.
fn same_instrument(a: &Instruments, b: &Instruments) -> (same: bool)
    ensures
        same == (*a == *b),
    decreases a,
{
    match a {
        Instruments::Sine(x) => match b {
            Instruments::Sine(y) => *x == *y,
            _ => false,
        },
        Instruments::Square(x) => match b {
            Instruments::Square(y) => *x == *y,
            _ => false,
        },
        Instruments::Triangle(x) => match b {
            Instruments::Triangle(y) => *x == *y,
            _ => false,
        },
        Instruments::Noise { tuning, low, high } => match b {
            Instruments::Noise { tuning: other, low: other_low, high: other_high } => *tuning
                == *other && *low == *other_low && *high == *other_high,
            _ => false,
        },
        Instruments::Product(x) => match b {
            Instruments::Product(y) => same_instrument(&x.0, &y.0) && same_instrument(&x.1, &y.1),
            _ => false,
        },
        Instruments::Sum(x) => match b {
            Instruments::Sum(y) => same_instrument(&x.0, &y.0) && same_instrument(&x.1, &y.1),
            _ => false,
        },
    }
}

impl PartialEq for Instruments {
    fn eq(&self, other: &Instruments) -> (same: bool) {
        same_instrument(self, other)
    }
}

impl PartialEqSpecImpl for Instruments {
    open spec fn obeys_eq_spec() -> bool {
        true
    }

    /// Two waveform expressions are equal when they are the same
    /// expression.
    open spec fn eq_spec(&self, other: &Instruments) -> bool {
        *self == *other
    }
}

impl PartialEq for Mask {
    fn eq(&self, other: &Mask) -> (same: bool) {
        self.id == other.id && same_layer(&self.layer, &other.layer)
    }
}

impl PartialEqSpecImpl for Mask {
    open spec fn obeys_eq_spec() -> bool {
        true
    }

    /// Two masks are equal when they have the same id and the same layer.
    open spec fn eq_spec(&self, other: &Mask) -> bool {
        self.id == other.id && self.layer@ == other.layer@
    }
}

/// Whether two nodes have the same tree.
fn same_tree(a: &Wrappers, b: &Wrappers) -> (same: bool)
    ensures
        same == (a@ == b@),
    decreases a,
{
    proof {
        lemma_view(*a);
        lemma_view(*b);
    }
    match a {
        Wrappers::Song(x, kids) => match b {
            Wrappers::Song(y, others) => *x == *y && same_forest(kids, others),
            _ => false,
        },
        Wrappers::Album(x, kids) => match b {
            Wrappers::Album(y, others) => *x == *y && same_forest(kids, others),
            _ => false,
        },
        Wrappers::Artist(x, kids) => match b {
            Wrappers::Artist(y, others) => *x == *y && same_forest(kids, others),
            _ => false,
        },
        Wrappers::Year(x, kids) => match b {
            Wrappers::Year(y, others) => *x == *y && same_forest(kids, others),
            _ => false,
        },
        Wrappers::Tempo(x, kids) => match b {
            Wrappers::Tempo(y, others) => *x == *y && same_forest(kids, others),
            _ => false,
        },
        Wrappers::Accel(x, kids) => match b {
            Wrappers::Accel(y, others) => *x == *y && same_forest(kids, others),
            _ => false,
        },
        Wrappers::NoteDef(x, kids) => match b {
            Wrappers::NoteDef(y, others) => same_names(x, y) && same_forest(kids, others),
            _ => false,
        },
        Wrappers::Channel(x, kids) => match b {
            Wrappers::Channel(y, others) => *x == *y && same_forest(kids, others),
            _ => false,
        },
        Wrappers::Instrument(x, kids) => match b {
            Wrappers::Instrument(y, others) => same_instrument(x, y) && same_forest(kids, others),
            _ => false,
        },
        Wrappers::Length(x, kids) => match b {
            Wrappers::Length(y, others) => *x == *y && same_forest(kids, others),
            _ => false,
        },
        Wrappers::Octave(x, kids) => match b {
            Wrappers::Octave(y, others) => *x == *y && same_forest(kids, others),
            _ => false,
        },
        Wrappers::Loop(x, kids) => match b {
            Wrappers::Loop(y, others) => *x == *y && same_forest(kids, others),
            _ => false,
        },
        Wrappers::Glissando(x, kids) => match b {
            Wrappers::Glissando(y, others) => *x == *y && same_forest(kids, others),
            _ => false,
        },
        Wrappers::Vibrato(x, config, kids) => match b {
            Wrappers::Vibrato(y, other, others) => *x == *y && *config == *other && same_forest(
                kids,
                others,
            ),
            _ => false,
        },
        Wrappers::Volume(x, kids) => match b {
            Wrappers::Volume(y, others) => *x == *y && same_forest(kids, others),
            _ => false,
        },
        Wrappers::VolumeFader(x, kids) => match b {
            Wrappers::VolumeFader(y, others) => *x == *y && same_forest(kids, others),
            _ => false,
        },
        Wrappers::ADSR(x, kids) => match b {
            Wrappers::ADSR(y, others) => *x == *y && same_forest(kids, others),
            _ => false,
        },
        Wrappers::Singleton(x) => match b {
            Wrappers::Singleton(y) => *x == *y,
            _ => false,
        },
        Wrappers::Mask(what, x) => match b {
            Wrappers::Mask(other, y) => *what == *other && x.id == y.id && same_layer(
                &x.layer,
                &y.layer,
            ),
            _ => false,
        },
        Wrappers::Masked(x, kids) => match b {
            Wrappers::Masked(y, others) => *x == *y && same_forest(kids, others),
            _ => false,
        },
        Wrappers::Test(x, kids) => match b {
            Wrappers::Test(y, others) => *x == *y && same_forest(kids, others),
            _ => false,
        },
        Wrappers::Test2(x, kids) => match b {
            Wrappers::Test2(y, others) => *x == *y && same_forest(kids, others),
            _ => false,
        },
    }
}

/// Whether two lists of nodes have the same trees.
fn same_forest(a: &Vec<Wrappers>, b: &Vec<Wrappers>) -> (same: bool)
    ensures
        same == (trees(a@) == trees(b@)),
    decreases a,
{
    if a.len() != b.len() {
        assert(trees(a@).len() != trees(b@).len());
        return false;
    }
    let mut k: usize = 0;
    while k < a.len()
        invariant
            k <= a@.len() == b@.len(),
            forall|j: int| 0 <= j < k ==> trees(a@)[j] == trees(b@)[j],
        decreases a@.len() - k,
    {
        if !same_tree(&a[k], &b[k]) {
            assert(trees(a@)[k as int] != trees(b@)[k as int]);
            return false;
        }
        k = k + 1;
    }
    assert(trees(a@) =~= trees(b@));
    true
}

impl PartialEq for Wrappers {
    fn eq(&self, other: &Wrappers) -> (same: bool) {
        same_tree(self, other)
    }
}

impl PartialEqSpecImpl for Wrappers {
    open spec fn obeys_eq_spec() -> bool {
        true
    }

    /// Two nodes are equal when their trees are: the same payload over the
    /// same children, in the same order.
    open spec fn eq_spec(&self, other: &Wrappers) -> bool {
        self@ == other@
    }
}

} // verus!
