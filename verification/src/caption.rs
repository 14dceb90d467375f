//! The scrolling caption: a line of colour values that grows by one record
//! each second and loses its first character each frame.

use vstd::prelude::*;
use vstd::string::*;

verus! {

/// The caption after one frame of scrolling: the first character is gone,
/// an empty caption stays empty.
pub open spec fn scrolled(data: Seq<char>) -> Seq<char> {
    if data.len() == 0 {
        data
    } else {
        data.drop_first()
    }
}

/// A character that takes one byte in UTF-8.
pub open spec fn is_one_byte(c: char) -> bool {
    (c as u32) < 128
}

/// One frame of the caption: returns the text to show, which is the whole
/// caption, and drops the caption's first character.
pub fn update_text(data: &mut String) -> (shown: String)
    requires
        old(data)@.len() > 0 ==> is_one_byte(old(data)@[0]),
    ensures
        shown@ == old(data)@,
        final(data)@ == scrolled(old(data)@),
        old(data)@.len() == 0 ==> final(data)@.len() == 0,
        old(data)@.len() > 0 ==> final(data)@.len() == old(data)@.len() - 1,
        forall|i: int|
            0 <= i < final(data)@.len() ==> #[trigger] final(data)@[i] == old(data)@[i + 1],
{
    let shown = data.clone();
    let len = data.as_str().unicode_len();
    if len > 0 {
        let rest = data.as_str().substring_char(1, len).to_owned();
        *data = rest;
    }
    shown
}

/// How many colour components a record lists: the first two of the three.
pub const RECORDED_COMPONENTS: usize = 2;

/// The record of the first `n` colour components: for each component, a bar
/// and the new value, then a bar and the previous value.
pub open spec fn color_record(new: Seq<String>, prev: Seq<String>, n: nat) -> Seq<char>
    decreases n,
{
    if n == 0 {
        Seq::empty()
    } else {
        let k = (n - 1) as int;
        color_record(new, prev, (n - 1) as nat) + seq!['|'] + new[k]@ + seq!['|'] + prev[k]@
    }
}

/// Appends the record of a colour change to the caption. `new` and `prev`
/// hold the printed components of the new and of the previous colour.
pub fn record_colors(data: &mut String, new: &[String; 3], prev: &[String; 3])
    ensures
        final(data)@ == old(data)@ + color_record(new@, prev@, RECORDED_COMPONENTS as nat),
        final(data)@ == old(data)@ + seq!['|'] + new@[0]@ + seq!['|'] + prev@[0]@ + seq!['|']
            + new@[1]@ + seq!['|'] + prev@[1]@,
{
    let bar = "|";
    proof {
        reveal_strlit("|");
    }
    let mut i: usize = 0;
    while i < RECORDED_COMPONENTS
        invariant
            i <= RECORDED_COMPONENTS,
            bar@ == seq!['|'],
            data@ == old(data)@ + color_record(new@, prev@, i as nat),
        decreases RECORDED_COMPONENTS - i,
    {
        data.append(bar);
        data.append(new[i].as_str());
        data.append(bar);
        data.append(prev[i].as_str());
        i = i + 1;
        assert(data@ =~= old(data)@ + color_record(new@, prev@, i as nat));
    }
    proof {
        lemma_record_of_two(new@, prev@);
        assert(data@ =~= old(data)@ + seq!['|'] + new@[0]@ + seq!['|'] + prev@[0]@ + seq!['|']
            + new@[1]@ + seq!['|'] + prev@[1]@);
    }
}

/// One frame drops exactly the first character of a non-empty caption and
/// keeps the rest in order; an empty caption stays empty.
pub proof fn lemma_scroll_drops_one(data: Seq<char>)
    ensures
        data.len() == 0 ==> scrolled(data).len() == 0,
        data.len() > 0 ==> scrolled(data).len() == data.len() - 1,
        forall|i: int| 0 <= i < scrolled(data).len() ==> #[trigger] scrolled(data)[i] == data[i + 1],
        data.len() > 0 ==> seq![data[0]] + scrolled(data) == data,
{
    if data.len() > 0 {
        assert(seq![data[0]] + scrolled(data) =~= data);
    }
}

/// `k` frames in a row drop the first `k` characters of a caption at least
/// `k` long.
pub proof fn lemma_scroll_frames(data: Seq<char>, k: nat)
    requires
        k <= data.len(),
    ensures
        scrolled_n(data, k) == data.subrange(k as int, data.len() as int),
    decreases k,
{
    if k == 0 {
        assert(data.subrange(0, data.len() as int) =~= data);
    } else {
        lemma_scroll_frames(data, (k - 1) as nat);
        let before = data.subrange((k - 1) as int, data.len() as int);
        lemma_scroll_drops_one(before);
        assert(scrolled(before) =~= data.subrange(k as int, data.len() as int));
    }
}

/// The caption after `k` frames.
pub open spec fn scrolled_n(data: Seq<char>, k: nat) -> Seq<char>
    decreases k,
{
    if k == 0 {
        data
    } else {
        scrolled(scrolled_n(data, (k - 1) as nat))
    }
}

/// The record of the two listed components is, in order: a bar, the new
/// first component as given, a bar, the previous first component, a bar, the
/// new second component, a bar, the previous second component.
pub proof fn lemma_record_of_two(new: Seq<String>, prev: Seq<String>)
    ensures
        color_record(new, prev, 2) == seq!['|'] + new[0]@ + seq!['|'] + prev[0]@ + seq!['|']
            + new[1]@ + seq!['|'] + prev[1]@,
        color_record(new, prev, 2).len() == 4 + new[0]@.len() + prev[0]@.len() + new[1]@.len()
            + prev[1]@.len(),
{
    reveal_with_fuel(color_record, 3);
    assert(color_record(new, prev, 2) =~= seq!['|'] + new[0]@ + seq!['|'] + prev[0]@ + seq!['|']
        + new[1]@ + seq!['|'] + prev[1]@);
}

} // verus!
