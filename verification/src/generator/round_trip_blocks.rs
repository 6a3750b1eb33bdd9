//! Reading back what was written: blocks of lines.
use crate::generator::ical::generated_properties;
use crate::generator::round_trip::{capitals, frame_line, lemma_read_written, written_property};
use crate::generator::{block, Emitter};
use crate::parser::{parse_block, Item, Parsed, ParserErrorView};
use crate::property::{properties_of, Property, PropertyError, PropertyView};
use vstd::prelude::*;
use vstd::utf8::encode_utf8;

verus! {

/// The lines as outcomes of the property parser that met no fault.
pub open spec fn oks(lines: Seq<PropertyView>) -> Seq<Item> {
    lines.map_values(|p: PropertyView| Ok::<PropertyView, PropertyError>(p))
}

/// The draft that has taken the properties one after the other.
pub open spec fn add_all<D>(d: D, props: Seq<PropertyView>, add_property: spec_fn(D, PropertyView) -> D) -> D
    decreases props.len(),
{
    if props.len() == 0 {
        d
    } else {
        add_all(add_property(d, props[0]), props.drop_first(), add_property)
    }
}

/// Reading body properties adds them to the draft, one after the other.
pub proof fn lemma_parse_props<D>(
    d: D,
    props: Seq<PropertyView>,
    tail: Seq<Item>,
    add_property: spec_fn(D, PropertyView) -> D,
    add_sub: spec_fn(D, Seq<char>, Seq<Item>) -> Parsed<D>,
)
    requires
        forall|i: int|
            0 <= i < props.len() ==> (#[trigger] props[i]).name != "BEGIN"@ && props[i].name
                != "END"@,
    ensures
        parse_block(d, oks(props) + tail, add_property, add_sub) == parse_block(
            add_all(d, props, add_property),
            tail,
            add_property,
            add_sub,
        ),
    decreases props.len(),
{
    if props.len() == 0 {
        assert(oks(props) + tail =~= tail);
    } else {
        let items = oks(props) + tail;
        assert(items[0] == Ok::<PropertyView, PropertyError>(props[0]));
        assert(items.drop_first() =~= oks(props.drop_first()) + tail);
        assert(props[0].name != "BEGIN"@ && props[0].name != "END"@);
        let rest = props.drop_first();
        assert forall|i: int| 0 <= i < rest.len() implies (#[trigger] rest[i]).name != "BEGIN"@
            && rest[i].name != "END"@ by {
            assert(rest[i] == props[i + 1]);
        }
        lemma_parse_props(add_property(d, props[0]), rest, tail, add_property, add_sub);
    }
}

/// An `END` line ends the reading with the draft.
pub proof fn lemma_parse_end<D>(
    d: D,
    kind: Seq<char>,
    more: Seq<Item>,
    add_property: spec_fn(D, PropertyView) -> D,
    add_sub: spec_fn(D, Seq<char>, Seq<Item>) -> Parsed<D>,
)
    ensures
        parse_block(
            d,
            seq![Ok::<PropertyView, PropertyError>(frame_line("END"@, kind))] + more,
            add_property,
            add_sub,
        ) == (Parsed { result: Ok::<D, ParserErrorView>(d), rest: more }),
{
    let items = seq![Ok::<PropertyView, PropertyError>(frame_line("END"@, kind))] + more;
    assert(items[0] == Ok::<PropertyView, PropertyError>(frame_line("END"@, kind)));
    assert(items.drop_first() =~= more);
}

/// A `BEGIN` line hands what follows to the reading of the nested component
/// and goes on behind it with the draft that holds the component.
pub proof fn lemma_parse_child<D>(
    d: D,
    kind: Seq<char>,
    inner: Seq<Item>,
    tail: Seq<Item>,
    next: D,
    add_property: spec_fn(D, PropertyView) -> D,
    add_sub: spec_fn(D, Seq<char>, Seq<Item>) -> Parsed<D>,
)
    requires
        add_sub(d, kind, inner + tail) == (Parsed { result: Ok::<D, ParserErrorView>(next), rest: tail }),
    ensures
        parse_block(
            d,
            seq![Ok::<PropertyView, PropertyError>(frame_line("BEGIN"@, kind))] + (inner + tail),
            add_property,
            add_sub,
        ) == parse_block(next, tail, add_property, add_sub),
{
    reveal_strlit("BEGIN");
    reveal_strlit("END");
    let items = seq![Ok::<PropertyView, PropertyError>(frame_line("BEGIN"@, kind))] + (inner + tail);
    assert(items[0] == Ok::<PropertyView, PropertyError>(frame_line("BEGIN"@, kind)));
    assert(items.drop_first() =~= inner + tail);
    assert("BEGIN"@ != "END"@) by {
        assert("BEGIN"@.len() == 5);
        assert("END"@.len() == 3);
    }
}

/// The text of two lists of properties, one behind the other.
pub proof fn lemma_generated_concat(a: Seq<PropertyView>, b: Seq<PropertyView>)
    ensures
        generated_properties(a + b) == generated_properties(a) + generated_properties(b),
    decreases b.len(),
{
    if b.len() == 0 {
        assert(a + b =~= a);
        assert(generated_properties(b) =~= Seq::<char>::empty());
        assert(generated_properties(a) + generated_properties(b) =~= generated_properties(a));
    } else {
        lemma_generated_concat(a, b.drop_last());
        assert((a + b).drop_last() =~= a + b.drop_last());
        assert((a + b).last() == b.last());
        assert(generated_properties(a + b) =~= generated_properties(a) + generated_properties(b));
    }
}

/// The lines of a block: its `BEGIN` line, its body and its `END` line.
pub open spec fn framed(kind: Seq<char>, body: Seq<PropertyView>) -> Seq<PropertyView> {
    seq![frame_line("BEGIN"@, kind)] + body + seq![frame_line("END"@, kind)]
}

/// The text of a block is the text of its lines.
pub proof fn lemma_block_text(kind: Seq<char>, body: Seq<PropertyView>)
    requires
        capitals(kind),
    ensures
        block(kind, generated_properties(body)) == generated_properties(framed(kind, body)),
        written_property(frame_line("BEGIN"@, kind)),
        written_property(frame_line("END"@, kind)),
{
    reveal_strlit("BEGIN");
    reveal_strlit("END");
    reveal_strlit("BEGIN:");
    reveal_strlit("END:");
    reveal_strlit("\r\n");
    let begin = frame_line("BEGIN"@, kind);
    let end = frame_line("END"@, kind);
    crate::generator::round_trip::lemma_frame_line_text("BEGIN"@, kind);
    crate::generator::round_trip::lemma_frame_line_text("END"@, kind);
    lemma_generated_concat(seq![begin] + body, seq![end]);
    lemma_generated_concat(seq![begin], body);
    lemma_single(begin);
    lemma_single(end);
    assert("BEGIN:"@ =~= "BEGIN"@ + seq![':']);
    assert("END:"@ =~= "END"@ + seq![':']);
    assert("\r\n"@ =~= seq!['\r', '\n']);
    assert(block(kind, generated_properties(body)) =~= generated_properties(framed(kind, body)));
}

/// What the text of a block holds: the outcomes of its `BEGIN` line, of the
/// lines of its body and of its `END` line, in order and without a fault.
pub proof fn lemma_block_items(kind: Seq<char>, body: Seq<PropertyView>, text: Seq<char>)
    requires
        text == generated_properties(framed(kind, body)),
        forall|i: int|
            0 <= i < framed(kind, body).len() ==> written_property(#[trigger] framed(kind, body)[i]),
    ensures
        properties_of(encode_utf8(text)).len() > 0,
        properties_of(encode_utf8(text))[0] == Ok::<PropertyView, PropertyError>(
            frame_line("BEGIN"@, kind),
        ),
        properties_of(encode_utf8(text)).drop_first() == oks(body) + (seq![
            Ok::<PropertyView, PropertyError>(frame_line("END"@, kind)),
        ] + Seq::<Item>::empty()),
{
    let lines = framed(kind, body);
    lemma_read_written(lines);
    let items = properties_of(encode_utf8(text));
    assert(items =~= oks(lines));
    assert(items[0] == Ok::<PropertyView, PropertyError>(frame_line("BEGIN"@, kind)));
    assert(items.drop_first() =~= oks(body) + (seq![
        Ok::<PropertyView, PropertyError>(frame_line("END"@, kind)),
    ] + Seq::<Item>::empty()));
}

proof fn lemma_single(p: PropertyView)
    ensures
        generated_properties(seq![p]) == <Property as Emitter>::generated(p),
{
    let s = seq![p];
    assert(s.drop_last() =~= Seq::<PropertyView>::empty());
    assert(generated_properties(s.drop_last()) =~= Seq::<char>::empty());
    assert(s.last() == p);
    assert(generated_properties(s) =~= <Property as Emitter>::generated(p));
}

} // verus!
