//! Two functions on lists: one takes a list over and hands it back longer, one only
//! looks at it.
use vstd::prelude::*;

verus! {

/// `words` with `new_word` behind its last item.
pub fn add_word_and_return<'a>(
    mut words: Vec<&'a str>,
    new_word: &'a str,
) -> (longer: Vec<&'a str>)
    ensures
        longer@ == words@.push(new_word),
{
    words.push(new_word);
    words
}

/// How many items `items` holds.
pub fn count_items<T>(items: &Vec<T>) -> (count: usize)
    ensures
        count == items@.len(),
{
    items.len()
}

} // verus!
