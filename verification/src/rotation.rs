//! Which fractal is shown after a cycle. At the end of each cycle every
//! shown fractal is hidden and one of the hidden ones, picked at random, is
//! shown; on the first cycle, when none is hidden yet, all but the first
//! shown fractal are hidden. Fractals are named by the bits of their entity.

use rand::rngs::ThreadRng;
use rand::seq::IteratorRandom;
use vstd::multiset::*;
use vstd::prelude::*;

verus! {

broadcast use {vstd::multiset::group_multiset_axioms, vstd::seq_lib::group_to_multiset_ensures};

#[verifier::external_type_specification]
#[verifier::external_body]
pub struct ExThreadRng(ThreadRng);

/// `rand::rng`: a handle on the generator of the calling thread. Nothing is
/// claimed of it. It panics only where the operating system gives no entropy
/// to seed the generator, which rests on the machine, not on an argument.
pub assume_specification[ rand::rng ]() -> ThreadRng;

/// `IteratorRandom::choose` of `rand`, on the range `0..len`. The range tells
/// its exact length, so the call gives `None` for an empty range and
/// otherwise the element at a random position of the range. Claimed: `None`
/// exactly when `len` is 0, else a number below `len`. Which number comes
/// out rests on chance and is not stated. Like `rand::rng`, the generator
/// panics only where reseeding from the operating system fails.
#[verifier::external_body]
fn choose_below(len: usize, rng: &mut ThreadRng) -> (pick: Option<usize>)
    ensures
        pick is None <==> len == 0,
        pick matches Some(i) ==> i < len,
{
    (0..len).choose(rng)
}

/// The outcomes of drawing the position of the next fractal among
/// `hidden_len` hidden ones: position 0 when none is hidden, else a position
/// below `hidden_len - 1` (the last hidden one is never drawn), and nothing
/// when exactly one is hidden.
pub open spec fn valid_next_index(hidden_len: nat, ind: Option<usize>) -> bool {
    if hidden_len == 0 {
        ind == Some(0usize)
    } else {
        match ind {
            None => hidden_len == 1,
            Some(i) => i + 1 < hidden_len,
        }
    }
}

/// Draws the position, among the hidden fractals, of the one to show next.
pub fn next_index(hidden_len: usize, rng: &mut ThreadRng) -> (ind: Option<usize>)
    ensures
        valid_next_index(hidden_len as nat, ind),
{
    if hidden_len == 0 {
        Some(0)
    } else {
        choose_below(hidden_len - 1, rng)
    }
}

/// What to do at the end of a cycle.
pub struct SwitchPlan {
    /// The drawn position among the hidden fractals.
    pub pick: Option<usize>,
    /// The hidden fractal to show, if any.
    pub enable: Option<u64>,
    /// The shown fractals to hide, in the order they were given.
    pub disable: Vec<u64>,
}

/// The fractal to show: none when none is hidden; else the hidden one at the
/// drawn position, or the first hidden one when the position is out of range.
pub open spec fn chosen(hidden: Seq<u64>, pick: Option<usize>) -> Option<u64> {
    if hidden.len() == 0 {
        None
    } else {
        let i = pick.unwrap();
        if i < hidden.len() {
            Some(hidden[i as int])
        } else {
            Some(hidden[0])
        }
    }
}

/// The shown fractals to hide: all of them when some are hidden already,
/// all but the first when none is.
pub open spec fn to_hide(hidden: Seq<u64>, shown: Seq<u64>) -> Seq<u64> {
    if hidden.len() > 0 || shown.len() == 0 {
        shown
    } else {
        shown.drop_first()
    }
}

/// The plan for the end of a cycle, given the hidden and the shown fractals
/// and the drawn position.
pub fn plan_switch(hidden: &Vec<u64>, shown: &Vec<u64>, pick: Option<usize>) -> (plan: SwitchPlan)
    requires
        hidden.len() > 0 ==> pick is Some,
    ensures
        plan.pick == pick,
        plan.enable == chosen(hidden@, pick),
        plan.disable@ == to_hide(hidden@, shown@),
{
    let mut next: Option<u64> = if hidden.len() > 0 {
        Some(hidden[0])
    } else {
        None
    };
    let mut i: usize = 0;
    while i < hidden.len()
        invariant
            i <= hidden.len(),
            hidden.len() > 0 ==> pick is Some,
            hidden.len() == 0 ==> next is None,
            hidden.len() > 0 ==> next == (if pick.unwrap() < i {
                Some(hidden@[pick.unwrap() as int])
            } else {
                Some(hidden@[0])
            }),
        decreases hidden.len() - i,
    {
        if i == pick.unwrap() {
            next = Some(hidden[i]);
        }
        i = i + 1;
    }
    let start: usize = if hidden.len() == 0 && shown.len() > 0 {
        1
    } else {
        0
    };
    let mut disable: Vec<u64> = Vec::new();
    let mut j: usize = start;
    while j < shown.len()
        invariant
            start <= j <= shown.len(),
            disable@ == shown@.subrange(start as int, j as int),
        decreases shown.len() - j,
    {
        disable.push(shown[j]);
        j = j + 1;
    }
    assert(disable@ =~= to_hide(hidden@, shown@));
    SwitchPlan { pick, enable: next, disable }
}

/// The end of a cycle: draws the next fractal among the hidden ones and
/// plans the switch.
pub fn switch_materials(hidden: &Vec<u64>, shown: &Vec<u64>) -> (plan: SwitchPlan)
    requires
        hidden.len() != 1,
    ensures
        valid_next_index(hidden@.len(), plan.pick),
        plan.enable == chosen(hidden@, plan.pick),
        plan.disable@ == to_hide(hidden@, shown@),
{
    let mut rng = rand::rng();
    let ind = next_index(hidden.len(), &mut rng);
    plan_switch(hidden, shown, ind)
}

/// The multiset of an optional fractal.
pub open spec fn opt_multiset(o: Option<u64>) -> Multiset<u64> {
    match o {
        Some(x) => Multiset::singleton(x),
        None => Multiset::empty(),
    }
}

/// The fractals shown once a plan is carried out.
pub open spec fn shown_after(shown: Seq<u64>, enable: Option<u64>, disable: Seq<u64>) -> Multiset<
    u64,
> {
    shown.to_multiset().sub(disable.to_multiset()).add(opt_multiset(enable))
}

/// The fractals hidden once a plan is carried out.
pub open spec fn hidden_after(hidden: Seq<u64>, enable: Option<u64>, disable: Seq<u64>) -> Multiset<
    u64,
> {
    hidden.to_multiset().sub(opt_multiset(enable)).add(disable.to_multiset())
}

proof fn lemma_split_first(s: Seq<u64>)
    requires
        s.len() > 0,
    ensures
        s.to_multiset() =~= Multiset::singleton(s[0]).add(s.drop_first().to_multiset()),
{
    assert(s =~= seq![s[0]] + s.drop_first());
    vstd::seq_lib::lemma_multiset_commutative(seq![s[0]], s.drop_first());
    assert(seq![s[0]] =~= Seq::<u64>::empty().push(s[0]));
    vstd::seq_lib::to_multiset_build(Seq::<u64>::empty(), s[0]);
    assert(Seq::<u64>::empty().to_multiset() =~= Multiset::<u64>::empty());
}

/// After the end of a cycle exactly one fractal is shown, whatever was
/// drawn, as long as there is a fractal at all.
pub proof fn lemma_one_shown(hidden: Seq<u64>, shown: Seq<u64>, pick: Option<usize>)
    requires
        valid_next_index(hidden.len(), pick),
        hidden.len() != 1,
        hidden.len() + shown.len() > 0,
    ensures
        shown_after(shown, chosen(hidden, pick), to_hide(hidden, shown)).len() == 1,
{
    let after = shown_after(shown, chosen(hidden, pick), to_hide(hidden, shown));
    if hidden.len() == 0 {
        lemma_split_first(shown);
        assert(after =~= Multiset::singleton(shown[0]));
    } else {
        assert(after =~= Multiset::singleton(hidden[pick.unwrap() as int]));
    }
}

/// Carrying out a plan neither loses nor duplicates a fractal: the shown
/// and the hidden ones after it are, together, those before it.
pub proof fn lemma_nothing_lost(hidden: Seq<u64>, shown: Seq<u64>, pick: Option<usize>)
    requires
        hidden.len() > 0 ==> pick is Some,
    ensures
        shown_after(shown, chosen(hidden, pick), to_hide(hidden, shown)).add(
            hidden_after(hidden, chosen(hidden, pick), to_hide(hidden, shown)),
        ) == shown.to_multiset().add(hidden.to_multiset()),
{
    let enable = chosen(hidden, pick);
    let disable = to_hide(hidden, shown);
    if hidden.len() == 0 {
        if shown.len() > 0 {
            lemma_split_first(shown);
        }
    } else {
        let x = enable.unwrap();
        let k: int = if pick.unwrap() < hidden.len() { pick.unwrap() as int } else { 0 };
        assert(hidden[k] == x);
        assert(hidden.contains(x));
        assert(hidden.to_multiset().count(x) > 0);
    }
    assert(shown_after(shown, enable, disable).add(hidden_after(hidden, enable, disable))
        =~= shown.to_multiset().add(hidden.to_multiset()));
}

/// When fractals are hidden at the end of a cycle, the one shown next is one
/// of them, never the last of them, and no fractal shown before stays shown.
pub proof fn lemma_shows_a_hidden_one(hidden: Seq<u64>, shown: Seq<u64>, pick: Option<usize>)
    requires
        valid_next_index(hidden.len(), pick),
        hidden.len() > 1,
    ensures
        exists|i: int|
            0 <= i < hidden.len() - 1 && shown_after(shown, chosen(hidden, pick), to_hide(hidden, shown))
                == Multiset::singleton(#[trigger] hidden[i]),
{
    let i = pick.unwrap() as int;
    assert(shown_after(shown, chosen(hidden, pick), to_hide(hidden, shown)) =~= Multiset::singleton(
        hidden[i],
    ));
}

/// Every position below `hidden_len - 1` is an outcome of the draw, and
/// distinct positions show distinct hidden fractals: a draw that is uniform
/// over its range gives every hidden fractal but the last the same chance.
pub proof fn lemma_every_position_can_show(hidden: Seq<u64>, i: usize, j: usize)
    requires
        hidden.no_duplicates(),
        i + 1 < hidden.len(),
        j + 1 < hidden.len(),
    ensures
        valid_next_index(hidden.len(), Some(i)),
        chosen(hidden, Some(i)) == Some(hidden[i as int]),
        i != j ==> chosen(hidden, Some(i)) != chosen(hidden, Some(j)),
{
}

} // verus!
