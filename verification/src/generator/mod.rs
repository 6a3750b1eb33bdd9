//! Writing components and properties back as folded, escaped text.
pub mod ical;
pub mod laws;
pub mod property;
pub mod round_trip;
pub mod round_trip_blocks;
pub mod round_trip_documents;
pub mod round_trip_kinds;

use crate::parser::views;
use vstd::prelude::*;

pub use crate::generator::property::{
    escape, fold, get_params, protect_param, split_line, unescape, unprotect_param,
};

verus! {

/// Values that can be written as text.
pub trait Emitter: View {
    /// The text of a value.
    spec fn generated(v: Self::V) -> Seq<char>;

    /// Writes the value as text.
    fn generate(&self) -> (r: String)
        ensures
            r@ == Self::generated(self@),
    ;
}

/// The texts of the items, one after the other.
pub open spec fn generated_all<T: Emitter>(items: Seq<T::V>) -> Seq<char>
    decreases items.len(),
{
    if items.len() == 0 {
        Seq::empty()
    } else {
        generated_all::<T>(items.drop_last()) + T::generated(items.last())
    }
}

/// Appends the texts of the items to `out`: see [`generated_all`].
pub fn generate_all<T: Emitter>(out: &mut String, items: &Vec<T>)
    ensures
        final(out)@ == old(out)@ + generated_all::<T>(views(items@)),
{
    let ghost all = views(items@);
    let mut i: usize = 0;
    assert(all.take(0) =~= Seq::empty());
    assert(out@ =~= old(out)@ + generated_all::<T>(all.take(0)));
    while i < items.len()
        invariant
            i <= items.len(),
            all == views(items@),
            out@ == old(out)@ + generated_all::<T>(all.take(i as int)),
        decreases items.len() - i,
    {
        let text = items[i].generate();
        out.append(text.as_str());
        proof {
            let next = all.take(i + 1);
            assert(next.drop_last() =~= all.take(i as int));
            assert(next.last() == items[i as int]@);
            assert(out@ =~= old(out)@ + generated_all::<T>(next));
        }
        i += 1;
    }
    assert(all.take(items.len() as int) =~= all);
}

/// The text of a component: its `BEGIN` line, its body and its `END` line.
pub open spec fn block(kind: Seq<char>, body: Seq<char>) -> Seq<char> {
    "BEGIN:"@ + kind + "\r\n"@ + body + "END:"@ + kind + "\r\n"@
}

/// Opens a component: the `BEGIN` line of the given kind.
pub fn begin_block(kind: &str) -> (r: String)
    ensures
        r@ == "BEGIN:"@ + kind@ + "\r\n"@,
{
    let mut out = String::new();
    out.append("BEGIN:");
    out.append(kind);
    out.append("\r\n");
    assert(out@ =~= "BEGIN:"@ + kind@ + "\r\n"@);
    out
}

/// Closes a component: appends the `END` line of the given kind to what was
/// written behind the `BEGIN` line.
pub(crate) fn end_block(out: &mut String, kind: &str, Ghost(body): Ghost<Seq<char>>)
    requires
        old(out)@ == "BEGIN:"@ + kind@ + "\r\n"@ + body,
    ensures
        final(out)@ == block(kind@, body),
{
    out.append("END:");
    out.append(kind);
    out.append("\r\n");
    assert(out@ =~= block(kind@, body));
}

} // verus!
