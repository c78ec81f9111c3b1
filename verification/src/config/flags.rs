//! Words the config accepts for fields with a fixed vocabulary.

use vstd::prelude::*;
use vstd::string::*;

pub mod cache_type;
pub mod expert_offload;
pub mod numa;
pub mod split_mode;

verus! {

/// `values`, each between `open` and `close`, with commas between them.
pub open spec fn list_of(values: Seq<&str>, open: Seq<char>, close: Seq<char>) -> Seq<char>
    decreases values.len(),
{
    if values.len() == 0 {
        Seq::empty()
    } else if values.len() == 1 {
        open + values[0]@ + close
    } else {
        list_of(values.drop_last(), open, close) + ", "@ + (open + values.last()@ + close)
    }
}

/// `values`, each between `open` and `close`, with commas between them.
pub fn wrapped_list(values: &[&str], open: &str, close: &str) -> (r: String)
    ensures
        r@ == list_of(values@, open@, close@),
{
    let mut r: String = String::new();
    assert(r@ =~= list_of(values@.take(0), open@, close@));
    for i in 0..values.len()
        invariant
            r@ == list_of(values@.take(i as int), open@, close@),
    {
        proof {
            let upto = values@.take(i + 1);
            assert(upto.drop_last() =~= values@.take(i as int));
            assert(upto.last() == values@[i as int]);
            assert(upto[0] == values@[0]);
        }
        if i > 0 {
            r.append(", ");
        }
        let ghost before = r@;
        let one: String = open.to_owned().concat(values[i]).concat(close);
        r.append(one.as_str());
        if i == 0 {
            assert(r@ =~= one@);
        }
    }
    assert(values@.take(values@.len() as int) =~= values@);
    r
}

/// A vocabulary as a list of quoted words, with commas between them.
pub fn quoted_list(values: &[&str]) -> (r: String)
    ensures
        r@ == list_of(values@, "\""@, "\""@),
{
    wrapped_list(values, "\"", "\"")
}

} // verus!
