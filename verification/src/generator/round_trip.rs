//! Reading back what was written: the line of a property.
use crate::generator::property::{escape, escape_char, escape_run, join, line_text, param_text};
use crate::property::{
    find_char, find_delimiter, parse_params, parse_values, skip_commas, tokenize, ParamView,
    PropertyError, PropertyView,
};
use crate::generator::ical::generated_properties;
use crate::generator::laws::{
    folded_all, is_line, lemma_unfold_folded_all, no_line_feed,
};
use crate::generator::property::fold;
use crate::property::properties_of;
use crate::text::upper_of;
use vstd::utf8::encode_utf8;
use vstd::prelude::*;

verus! {

/// Whether a name is written and read without change: it is not empty, is
/// its own upper-case form and holds none of `;`, `:` and the line feed.
pub open spec fn plain_name(name: Seq<char>) -> bool {
    &&& name.len() > 0
    &&& upper_of(name) == name
    &&& forall|i: int|
        0 <= i < name.len() ==> #[trigger] name[i] != ';' && name[i] != ':' && name[i] != '\n'
}

/// Whether a parameter key is written and read without change: it is not
/// empty, is its own upper-case form and holds neither `=` nor the line feed.
pub open spec fn plain_key(key: Seq<char>) -> bool {
    &&& key.len() > 0
    &&& upper_of(key) == key
    &&& forall|i: int| 0 <= i < key.len() ==> #[trigger] key[i] != '=' && key[i] != '\n'
}

/// Whether a character needs no escape and ends no parameter value.
pub open spec fn plain_char(c: char) -> bool {
    c != ';' && c != ':' && c != ',' && c != '"' && c != '\\' && c != '\n'
}

/// Whether a parameter value needs no escape: every character of it is
/// plain. The empty value is such a value.
pub open spec fn plain_value(v: Seq<char>) -> bool {
    forall|i: int| 0 <= i < v.len() ==> plain_char(#[trigger] v[i])
}

/// Whether no value between the first and the last is empty. Two commas in
/// a row are read as one, so an empty value is told from no value only at
/// the start and at the end of the values.
pub open spec fn inner_values_filled(values: Seq<Seq<char>>) -> bool {
    forall|j: int| 0 < j < values.len() - 1 ==> (#[trigger] values[j]).len() > 0
}

/// Whether a parameter is written and read without change: its key is plain,
/// it has a value, its values need no escape, and none of them but the first
/// and the last is empty.
pub open spec fn plain_param(p: ParamView) -> bool {
    &&& plain_key(p.0)
    &&& p.1.len() > 0
    &&& forall|j: int| 0 <= j < p.1.len() ==> plain_value(#[trigger] p.1[j])
    &&& inner_values_filled(p.1)
}

/// Whether a property is written and read without change: its name and its
/// parameters are, and its value, where it has one, is not empty and holds no
/// line feed.
pub open spec fn plain_property(p: PropertyView) -> bool {
    &&& plain_name(p.name)
    &&& forall|i: int| 0 <= i < p.params.len() ==> plain_param(#[trigger] p.params[i])
    &&& match p.value {
        Some(v) => v.len() > 0 && forall|i: int| 0 <= i < v.len() ==> #[trigger] v[i] != '\n',
        None => true,
    }
}

/// The values from the place `j` on, with commas between them, and `after`
/// behind the last.
pub open spec fn tail_values(values: Seq<Seq<char>>, j: int, after: Seq<char>) -> Seq<char>
    decreases values.len() - j,
{
    if j < 0 || j >= values.len() {
        after
    } else if j + 1 == values.len() {
        values[j] + after
    } else {
        values[j] + seq![','] + tail_values(values, j + 1, after)
    }
}

/// The parameters from the place `i` on, each behind a semicolon, and then
/// the colon and the value.
pub open spec fn tail_params(params: Seq<ParamView>, i: int, value: Seq<char>) -> Seq<char>
    decreases params.len() - i,
{
    if i < 0 || i >= params.len() {
        seq![':'] + value
    } else {
        seq![';'] + params[i].0 + seq!['='] + tail_values(
            params[i].1,
            0,
            tail_params(params, i + 1, value),
        )
    }
}

/// The text of the value of a property.
pub open spec fn value_text(p: PropertyView) -> Seq<char> {
    match p.value {
        Some(v) => v,
        None => Seq::empty(),
    }
}

proof fn lemma_escape_plain(v: Seq<char>)
    requires
        forall|i: int| 0 <= i < v.len() ==> plain_char(#[trigger] v[i]),
    ensures
        escape_run(v, true) == v,
    decreases v.len(),
{
    if v.len() > 0 {
        let rest = v.drop_first();
        assert forall|i: int| 0 <= i < rest.len() implies plain_char(#[trigger] rest[i]) by {
            assert(rest[i] == v[i + 1]);
        }
        lemma_escape_plain(rest);
        assert(plain_char(v[0]));
        assert(escape_char(v[0], true) == seq![v[0]]);
        assert(seq![v[0]] + rest =~= v);
    } else {
        assert(v =~= Seq::<char>::empty());
    }
}

proof fn lemma_escape_value(v: Seq<char>)
    requires
        plain_value(v),
    ensures
        escape(v) == v,
{
    if v.len() > 0 {
        assert(plain_char(v[0]));
    }
    lemma_escape_plain(v);
}

proof fn lemma_join_front(parts: Seq<Seq<char>>, sep: char)
    requires
        parts.len() > 0,
    ensures
        join(parts, sep) == if parts.len() == 1 {
            parts[0]
        } else {
            parts[0] + seq![sep] + join(parts.drop_first(), sep)
        },
    decreases parts.len(),
{
    if parts.len() > 2 {
        let shorter = parts.drop_last();
        lemma_join_front(shorter, sep);
        assert(shorter[0] == parts[0]);
        assert(shorter.drop_first() =~= parts.drop_first().drop_last());
        assert(parts.drop_first().last() == parts.last());
        assert(join(parts.drop_first(), sep) == join(parts.drop_first().drop_last(), sep).push(sep)
            + parts.last());
        assert(join(parts, sep) =~= parts[0] + seq![sep] + join(parts.drop_first(), sep));
    } else if parts.len() == 2 {
        let shorter = parts.drop_last();
        assert(shorter.len() == 1);
        assert(shorter[0] == parts[0]);
        assert(join(shorter, sep) == parts[0]);
        assert(parts.drop_first().len() == 1);
        assert(parts.drop_first()[0] == parts[1]);
        assert(join(parts.drop_first(), sep) == parts[1]);
        assert(join(parts, sep) =~= parts[0] + seq![sep] + join(parts.drop_first(), sep));
    }
}

proof fn lemma_values_text(values: Seq<Seq<char>>, j: int, after: Seq<char>)
    requires
        0 <= j < values.len(),
        forall|k: int| 0 <= k < values.len() ==> plain_value(#[trigger] values[k]),
    ensures
        tail_values(values, j, after) == join(
            values.skip(j).map_values(|v: Seq<char>| escape(v)),
            ',',
        ) + after,
    decreases values.len() - j,
{
    let parts = values.skip(j).map_values(|v: Seq<char>| escape(v));
    lemma_join_front(parts, ',');
    lemma_escape_value(values[j]);
    assert(parts[0] == escape(values[j]));
    if j + 1 < values.len() {
        lemma_values_text(values, j + 1, after);
        assert(parts.drop_first() =~= values.skip(j + 1).map_values(|v: Seq<char>| escape(v)));
        assert(tail_values(values, j, after) =~= join(parts, ',') + after);
    } else {
        assert(tail_values(values, j, after) =~= join(parts, ',') + after);
    }
}

proof fn lemma_params_text(params: Seq<ParamView>, i: int, value: Seq<char>)
    requires
        0 <= i < params.len(),
        forall|k: int| 0 <= k < params.len() ==> plain_param(#[trigger] params[k]),
    ensures
        tail_params(params, i, value) == seq![';'] + join(
            params.skip(i).map_values(|p: ParamView| param_text(p)),
            ';',
        ) + seq![':'] + value,
    decreases params.len() - i,
{
    let parts = params.skip(i).map_values(|p: ParamView| param_text(p));
    lemma_join_front(parts, ';');
    assert(plain_param(params[i]));
    assert(parts[0] == param_text(params[i]));
    let values = params[i].1;
    assert(values.skip(0) =~= values);
    if i + 1 < params.len() {
        lemma_params_text(params, i + 1, value);
        lemma_values_text(values, 0, tail_params(params, i + 1, value));
        assert(parts.drop_first() =~= params.skip(i + 1).map_values(|p: ParamView| param_text(p)));
        assert(tail_params(params, i, value) =~= seq![';'] + join(parts, ';') + seq![':'] + value);
    } else {
        lemma_values_text(values, 0, tail_params(params, i + 1, value));
        assert(tail_params(params, i + 1, value) == seq![':'] + value);
        assert(tail_params(params, i, value) =~= seq![';'] + join(parts, ';') + seq![':'] + value);
    }
}

/// The line of a plain property is its name followed by its parameters, each
/// behind a semicolon, the colon and the value.
pub proof fn lemma_line_text(p: PropertyView)
    requires
        plain_property(p),
    ensures
        line_text(p) == p.name + tail_params(p.params, 0, value_text(p)),
{
    if p.params.len() > 0 {
        lemma_params_text(p.params, 0, value_text(p));
        assert(p.params.skip(0) =~= p.params);
        assert(line_text(p) =~= p.name + tail_params(p.params, 0, value_text(p)));
    } else {
        assert(line_text(p) =~= p.name + tail_params(p.params, 0, value_text(p)));
    }
}

proof fn lemma_find_delimiter(s: Seq<char>, from: int, to: int, with_comma: bool)
    requires
        0 <= from <= to < s.len(),
        forall|k: int|
            from <= k < to ==> #[trigger] s[k] != ';' && s[k] != ':' && (with_comma ==> s[k]
                != ','),
        s[to] == ';' || s[to] == ':' || (with_comma && s[to] == ','),
    ensures
        find_delimiter(s, from, with_comma) == to,
    decreases to - from,
{
    if from < to {
        lemma_find_delimiter(s, from + 1, to, with_comma);
    }
}

proof fn lemma_find_char(s: Seq<char>, from: int, to: int, c: char)
    requires
        0 <= from <= to < s.len(),
        forall|k: int| from <= k < to ==> #[trigger] s[k] != c,
        s[to] == c,
    ensures
        find_char(s, from, c) == to,
    decreases to - from,
{
    if from < to {
        lemma_find_char(s, from + 1, to, c);
    }
}

/// What stands behind the values of a parameter starts with `;` or `:`.
proof fn lemma_tail_params_starts(params: Seq<ParamView>, i: int, value: Seq<char>)
    ensures
        tail_params(params, i, value).len() > 0,
        tail_params(params, i, value)[0] == ';' || tail_params(params, i, value)[0] == ':',
{
}

/// Reading the values of a parameter from their text gives the values.
proof fn lemma_read_values(
    s: Seq<char>,
    pos: int,
    number: usize,
    values: Seq<Seq<char>>,
    j: int,
    after: Seq<char>,
    acc: Seq<Seq<char>>,
)
    requires
        0 <= pos <= s.len(),
        0 <= j < values.len(),
        forall|k: int| 0 <= k < values.len() ==> plain_value(#[trigger] values[k]),
        inner_values_filled(values),
        s.skip(pos) == tail_values(values, j, after),
        after.len() > 0,
        after[0] == ';' || after[0] == ':',
    ensures
        parse_values(s, pos, number, acc) == Ok::<(Seq<Seq<char>>, int), PropertyError>(
            (acc + values.skip(j), s.len() - after.len()),
        ),
    decreases values.len() - j,
{
    let v = values[j];
    let tail = s.skip(pos);
    assert(plain_value(v));
    let end = pos + v.len();
    let behind: Seq<char> = if j + 1 == values.len() {
        after
    } else {
        seq![','] + tail_values(values, j + 1, after)
    };
    assert(tail =~= v + behind);
    assert(behind.len() > 0);
    assert(s.len() - pos == v.len() + behind.len());
    assert forall|k: int| pos <= k < end implies #[trigger] s[k] != ';' && s[k] != ':' && s[k]
        != ',' by {
        assert(tail[k - pos] == s[k]);
        assert(tail[k - pos] == v[k - pos]);
        assert(plain_char(v[k - pos]));
    }
    assert(tail[0] == s[pos]);
    if v.len() > 0 {
        assert(tail[0] == v[0]);
        assert(plain_char(v[0]));
    } else {
        assert(tail[0] == behind[0]);
    }
    assert(s[pos] != '"');
    assert(s.subrange(pos, end) =~= v) by {
        assert forall|k: int| 0 <= k < v.len() implies s.subrange(pos, end)[k] == v[k] by {
            assert(tail[k] == s[pos + k]);
        }
    }
    if j + 1 == values.len() {
        assert(tail =~= v + after);
        assert(tail[v.len() as int] == s[end]);
        assert(tail[v.len() as int] == after[0]);
        lemma_find_delimiter(s, pos, end, true);
        assert(acc.push(v) =~= acc + values.skip(j));
        assert(s.len() - after.len() == end);
    } else {
        let next = tail_values(values, j + 1, after);
        assert(tail =~= v + seq![','] + next);
        assert(tail[v.len() as int] == s[end]);
        assert(s[end] == ',');
        lemma_find_delimiter(s, pos, end, true);
        let w = values[j + 1];
        assert(plain_value(w));
        assert(next.len() > 0 && next[0] != ',') by {
            if j + 2 == values.len() {
                assert(next == w + after);
                if w.len() > 0 {
                    assert(next[0] == w[0]);
                    assert(plain_char(w[0]));
                } else {
                    assert(next[0] == after[0]);
                }
            } else {
                assert(w.len() > 0);
                assert(next == w + seq![','] + tail_values(values, j + 2, after));
                assert(next[0] == w[0]);
                assert(plain_char(w[0]));
            }
        }
        assert(tail[v.len() as int + 1] == s[end + 1]);
        assert(tail[v.len() as int + 1] == next[0]);
        assert(s[end + 1] != ',');
        assert(skip_commas(s, end + 1) == end + 1);
        assert(skip_commas(s, end) == end + 1);
        assert(s.skip(end + 1) =~= next) by {
            assert forall|k: int| 0 <= k < next.len() implies s.skip(end + 1)[k] == next[k] by {
                assert(tail[v.len() + 1 + k] == s[pos + v.len() + 1 + k]);
            }
        }
        lemma_read_values(s, end + 1, number, values, j + 1, after, acc.push(v));
        assert(acc.push(v) + values.skip(j + 1) =~= acc + values.skip(j));
    }
}

/// Reading the parameters of a property from their text gives the
/// parameters and ends at the colon in front of the value.
proof fn lemma_read_params(
    s: Seq<char>,
    pos: int,
    number: usize,
    params: Seq<ParamView>,
    i: int,
    value: Seq<char>,
    acc: Seq<ParamView>,
)
    requires
        0 <= pos <= s.len(),
        0 <= i <= params.len(),
        forall|k: int| 0 <= k < params.len() ==> plain_param(#[trigger] params[k]),
        s.skip(pos) == tail_params(params, i, value),
    ensures
        parse_params(s, pos, number, acc) == Ok::<(Seq<ParamView>, int), PropertyError>(
            (acc + params.skip(i), s.len() - value.len() - 1),
        ),
    decreases params.len() - i,
{
    let tail = s.skip(pos);
    assert(tail.len() > 0);
    assert(tail[0] == s[pos]);
    if i >= params.len() {
        assert(tail =~= seq![':'] + value);
        assert(s[pos] == ':');
        assert(acc + params.skip(i) =~= acc);
    } else {
        let key = params[i].0;
        let values = params[i].1;
        let after = tail_params(params, i + 1, value);
        let rest = tail_values(values, 0, after);
        assert(plain_param(params[i]));
        assert(tail =~= seq![';'] + key + seq!['='] + rest);
        assert(s.len() - pos == 2 + key.len() + rest.len());
        assert(s[pos] == ';');
        let eq = pos + 1 + key.len();
        assert forall|k: int| pos + 1 <= k < eq implies #[trigger] s[k] != '=' by {
            assert(tail[k - pos] == s[k]);
            assert(tail[k - pos] == key[k - pos - 1]);
        }
        assert(tail[1 + key.len() as int] == s[eq]);
        assert(s[eq] == '=');
        lemma_find_char(s, pos + 1, eq, '=');
        assert(s.subrange(pos + 1, eq) =~= key) by {
            assert forall|k: int| 0 <= k < key.len() implies s.subrange(pos + 1, eq)[k]
                == key[k] by {
                assert(tail[1 + k] == s[pos + 1 + k]);
            }
        }
        assert(s.skip(eq + 1) =~= rest) by {
            assert forall|k: int| 0 <= k < rest.len() implies s.skip(eq + 1)[k] == rest[k] by {
                assert(tail[2 + key.len() + k] == s[pos + 2 + key.len() + k]);
            }
        }
        lemma_tail_params_starts(params, i + 1, value);
        lemma_read_values(s, eq + 1, number, values, 0, after, Seq::empty());
        assert(Seq::<Seq<char>>::empty() + values.skip(0) =~= values);
        let next = s.len() - after.len();
        lemma_tail_values_len(values, 0, after);
        assert(s.len() - (eq + 1) == rest.len());
        assert(0 <= next <= s.len());
        assert(s.skip(next) =~= after) by {
            assert forall|k: int| 0 <= k < after.len() implies s.skip(next)[k] == after[k] by {
                assert(rest[rest.len() - after.len() + k] == after[k]);
                assert(s.skip(eq + 1)[rest.len() - after.len() + k] == s[next + k]);
            }
        }
        lemma_read_params(s, next, number, params, i + 1, value, acc.push((key, values)));
        assert(acc.push((key, values)) + params.skip(i + 1) =~= acc + params.skip(i));
        assert(params[i] == (key, values));
        assert(upper_of(s.subrange(pos + 1, eq)) == key);
    }
}

/// The text of values ends with what stands behind them.
proof fn lemma_tail_values_len(values: Seq<Seq<char>>, j: int, after: Seq<char>)
    requires
        0 <= j <= values.len(),
    ensures
        tail_values(values, j, after).len() >= after.len(),
        forall|k: int|
            0 <= k < after.len() ==> #[trigger] tail_values(values, j, after)[tail_values(
                values,
                j,
                after,
            ).len() - after.len() + k] == after[k],
    decreases values.len() - j,
{
    if j < values.len() {
        if j + 1 < values.len() {
            lemma_tail_values_len(values, j + 1, after);
            let inner = tail_values(values, j + 1, after);
            let all = tail_values(values, j, after);
            assert(all == values[j] + seq![','] + inner);
            assert forall|k: int| 0 <= k < after.len() implies #[trigger] all[all.len()
                - after.len() + k] == after[k] by {
                assert(all[all.len() - after.len() + k] == inner[inner.len() - after.len() + k]);
            }
        } else {
            let all = tail_values(values, j, after);
            assert(all == values[j] + after);
        }
    }
}

/// Reading the line of a plain property gives the property: the line that
/// is written for a property whose name, parameters and value need no escape
/// is read back as the same name, the same parameters and the same value.
pub proof fn lemma_tokenize_line_text(p: PropertyView, number: usize)
    requires
        plain_property(p),
    ensures
        tokenize(line_text(p), number) == Ok::<PropertyView, PropertyError>(p),
{
    lemma_line_text(p);
    let s = line_text(p);
    let value = value_text(p);
    let tail = tail_params(p.params, 0, value);
    let n = p.name.len() as int;
    lemma_tail_params_starts(p.params, 0, value);
    assert(s == p.name + tail);
    assert forall|k: int| 0 <= k < n implies #[trigger] s[k] != ';' && s[k] != ':' by {
        assert(s[k] == p.name[k]);
    }
    assert(s[n] == tail[0]);
    lemma_find_delimiter(s, 0, n, false);
    assert(s.skip(n) =~= tail);
    lemma_read_params(s, n, number, p.params, 0, value, Seq::empty());
    assert(Seq::<ParamView>::empty() + p.params.skip(0) =~= p.params);
    let colon = s.len() - value.len() - 1;
    lemma_colon(p.params, 0, value);
    assert(s[colon] == tail[tail.len() - value.len() - 1]);
    assert(s.subrange(0, n) =~= p.name);
    if value.len() > 0 {
        assert(s.subrange(colon + 1, s.len() as int) =~= value) by {
            assert forall|k: int| 0 <= k < value.len() implies s.subrange(
                colon + 1,
                s.len() as int,
            )[k] == value[k] by {
                assert(s[colon + 1 + k] == tail[tail.len() - value.len() + k]);
            }
        }
    }
}

/// The text of parameters ends with the colon and the value.
proof fn lemma_colon(params: Seq<ParamView>, i: int, value: Seq<char>)
    requires
        0 <= i <= params.len(),
    ensures
        tail_params(params, i, value).len() >= value.len() + 1,
        tail_params(params, i, value)[tail_params(params, i, value).len() - value.len() - 1]
            == ':',
        forall|k: int|
            0 <= k < value.len() ==> #[trigger] tail_params(params, i, value)[tail_params(
                params,
                i,
                value,
            ).len() - value.len() + k] == value[k],
    decreases params.len() - i,
{
    let all = tail_params(params, i, value);
    if i < params.len() {
        lemma_colon(params, i + 1, value);
        let after = tail_params(params, i + 1, value);
        let rest = tail_values(params[i].1, 0, after);
        lemma_tail_values_len(params[i].1, 0, after);
        let head = seq![';'] + params[i].0 + seq!['='];
        assert(all =~= head + rest);
        assert(all[all.len() - value.len() - 1] == rest[rest.len() - value.len() - 1]);
        assert(rest[rest.len() - after.len() + (after.len() - value.len() - 1)] == after[after.len()
            - value.len() - 1]);
        assert forall|k: int| 0 <= k < value.len() implies #[trigger] all[all.len() - value.len()
            + k] == value[k] by {
            assert(all[all.len() - value.len() + k] == rest[rest.len() - value.len() + k]);
            assert(rest[rest.len() - after.len() + (after.len() - value.len() + k)] == after[after.len()
                - value.len() + k]);
        }
    } else {
        assert(all =~= seq![':'] + value);
    }
}

/// Whether a property is written as a line that is told from the lines
/// around it and read back without change: it is plain and its name starts
/// with none of space, tab and carriage return.
pub open spec fn written_property(p: PropertyView) -> bool {
    plain_property(p) && p.name[0] != ' ' && p.name[0] != '\t' && p.name[0] != '\r'
}

proof fn lemma_tail_values_no_lf(values: Seq<Seq<char>>, j: int, after: Seq<char>)
    requires
        0 <= j <= values.len(),
        forall|k: int| 0 <= k < values.len() ==> plain_value(#[trigger] values[k]),
        no_line_feed(after),
    ensures
        no_line_feed(tail_values(values, j, after)),
    decreases values.len() - j,
{
    if j < values.len() {
        let v = values[j];
        assert(plain_value(v));
        let all = tail_values(values, j, after);
        if j + 1 < values.len() {
            lemma_tail_values_no_lf(values, j + 1, after);
            let inner = tail_values(values, j + 1, after);
            assert(all == v + seq![','] + inner);
            assert forall|i: int| 0 <= i < all.len() implies #[trigger] all[i] != '\n' by {
                if i < v.len() {
                    assert(plain_char(v[i]));
                } else if i > v.len() {
                    assert(all[i] == inner[i - v.len() - 1]);
                }
            }
        } else {
            assert(all == v + after);
            assert forall|i: int| 0 <= i < all.len() implies #[trigger] all[i] != '\n' by {
                if i < v.len() {
                    assert(plain_char(v[i]));
                } else {
                    assert(all[i] == after[i - v.len()]);
                }
            }
        }
    }
}

proof fn lemma_tail_params_no_lf(params: Seq<ParamView>, i: int, value: Seq<char>)
    requires
        0 <= i <= params.len(),
        forall|k: int| 0 <= k < params.len() ==> plain_param(#[trigger] params[k]),
        no_line_feed(value),
    ensures
        no_line_feed(tail_params(params, i, value)),
    decreases params.len() - i,
{
    let all = tail_params(params, i, value);
    if i < params.len() {
        lemma_tail_params_no_lf(params, i + 1, value);
        let after = tail_params(params, i + 1, value);
        assert(plain_param(params[i]));
        lemma_tail_values_no_lf(params[i].1, 0, after);
        let rest = tail_values(params[i].1, 0, after);
        let key = params[i].0;
        assert(all == seq![';'] + key + seq!['='] + rest);
        assert forall|k: int| 0 <= k < all.len() implies #[trigger] all[k] != '\n' by {
            if 1 <= k && k < 1 + key.len() {
                assert(all[k] == key[k - 1]);
            } else if k > 1 + key.len() {
                assert(all[k] == rest[k - 2 - key.len()]);
            }
        }
    } else {
        assert(all == seq![':'] + value);
        assert forall|k: int| 0 <= k < all.len() implies #[trigger] all[k] != '\n' by {
            if k > 0 {
                assert(all[k] == value[k - 1]);
            }
        }
    }
}

/// The line of a written property is a logical line.
pub proof fn lemma_written_is_line(p: PropertyView)
    requires
        written_property(p),
    ensures
        is_line(line_text(p)),
{
    lemma_line_text(p);
    let value = value_text(p);
    assert(no_line_feed(value));
    lemma_tail_params_no_lf(p.params, 0, value);
    let tail = tail_params(p.params, 0, value);
    let s = line_text(p);
    assert(s == p.name + tail);
    assert(s[0] == p.name[0]);
    assert forall|k: int| 0 <= k < s.len() implies #[trigger] s[k] != '\n' by {
        if k < p.name.len() {
            assert(s[k] == p.name[k]);
        } else {
            assert(s[k] == tail[k - p.name.len()]);
        }
    }
}

proof fn lemma_folded_all_concat(a: Seq<Seq<char>>, b: Seq<Seq<char>>)
    ensures
        folded_all(a + b) == folded_all(a) + folded_all(b),
    decreases a.len(),
{
    if a.len() == 0 {
        assert(a + b =~= b);
        assert(folded_all(a) =~= Seq::<char>::empty());
        assert(folded_all(a) + folded_all(b) =~= folded_all(b));
    } else {
        lemma_folded_all_concat(a.drop_first(), b);
        assert((a + b).drop_first() =~= a.drop_first() + b);
        assert((a + b)[0] == a[0]);
        assert(folded_all(a + b) =~= folded_all(a) + folded_all(b));
    }
}

/// The text of properties is the folded form of their lines, one after the
/// other.
pub proof fn lemma_generated_properties(ps: Seq<PropertyView>)
    ensures
        generated_properties(ps) == folded_all(ps.map_values(|p: PropertyView| line_text(p))),
    decreases ps.len(),
{
    let lines = ps.map_values(|p: PropertyView| line_text(p));
    if ps.len() == 0 {
        assert(folded_all(lines) =~= Seq::<char>::empty());
    } else {
        lemma_generated_properties(ps.drop_last());
        let front = ps.drop_last().map_values(|p: PropertyView| line_text(p));
        let last = seq![line_text(ps.last())];
        assert(lines =~= front + last);
        lemma_folded_all_concat(front, last);
        assert(last.drop_first() =~= Seq::<Seq<char>>::empty());
        assert(folded_all(last) =~= fold(line_text(ps.last()))) by {
            assert(folded_all(last.drop_first()) =~= Seq::<char>::empty());
        }
        assert(<crate::property::Property as crate::generator::Emitter>::generated(ps.last()) == fold(
            line_text(ps.last()),
        ));
    }
}

/// What is written for properties is read back as these properties: the
/// text of written properties, as bytes, is split into one property for
/// each, in order and without a fault.
pub proof fn lemma_read_written(ps: Seq<PropertyView>)
    requires
        forall|i: int| 0 <= i < ps.len() ==> written_property(#[trigger] ps[i]),
    ensures
        properties_of(encode_utf8(generated_properties(ps))) == ps.map_values(
            |p: PropertyView| Ok::<PropertyView, PropertyError>(p),
        ),
{
    let lines = ps.map_values(|p: PropertyView| line_text(p));
    lemma_generated_properties(ps);
    let data = encode_utf8(generated_properties(ps));
    assert forall|i: int| 0 <= i < lines.len() implies is_line(#[trigger] lines[i]) by {
        lemma_written_is_line(ps[i]);
    }
    assert(lines.skip(0) =~= lines);
    assert(data.skip(0) =~= data);
    lemma_unfold_folded_all(lines, 0, 0, data, 0);
    let raw = crate::line::unfold(data);
    let out = properties_of(data);
    assert(out.len() == ps.len());
    assert forall|i: int| 0 <= i < ps.len() implies out[i] == Ok::<PropertyView, PropertyError>(
        ps[i],
    ) by {
        let line = raw[i];
        assert(line.bytes == encode_utf8(lines[0 + i]));
        vstd::utf8::encode_utf8_valid_utf8(lines[i]);
        vstd::utf8::encode_utf8_decode_utf8(lines[i]);
        lemma_tokenize_line_text(ps[i], line.number as usize);
        assert(out[i] == crate::property::tokenize_raw(line));
    }
    assert(out =~= ps.map_values(|p: PropertyView| Ok::<PropertyView, PropertyError>(p)));
}

/// The line that opens or closes a component: `BEGIN` or `END` with the name
/// of the component as its value.
pub open spec fn frame_line(word: Seq<char>, kind: Seq<char>) -> PropertyView {
    PropertyView { name: word, params: Seq::empty(), value: Some(kind) }
}

/// Whether a property can stand in the body of a component and be read back:
/// it is written, and its name is neither `BEGIN` nor `END`.
pub open spec fn body_property(p: PropertyView) -> bool {
    written_property(p) && p.name != "BEGIN"@ && p.name != "END"@
}

/// A text of upper-case ASCII letters is its own upper-case form.
pub proof fn lemma_upper_of_capitals(s: Seq<char>)
    requires
        forall|i: int| 0 <= i < s.len() ==> 'A' <= #[trigger] s[i] && s[i] <= 'Z',
    ensures
        upper_of(s) == s,
{
    assert(crate::text::is_ascii_text(s)) by {
        assert forall|i: int| 0 <= i < s.len() implies '\0' <= #[trigger] s[i] && s[i]
            <= '\u{7f}' by {
            assert('A' <= s[i] && s[i] <= 'Z');
        }
    }
    assert(s.map_values(|c: char| crate::text::ascii_upper(c)) =~= s) by {
        assert forall|i: int| 0 <= i < s.len() implies crate::text::ascii_upper(s[i]) == s[i] by {
            assert('A' <= s[i] && s[i] <= 'Z');
        }
    }
}

/// Whether a text is a name of capital letters, as the names of components
/// are.
pub open spec fn capitals(s: Seq<char>) -> bool {
    0 < s.len() < 60 && forall|i: int| 0 <= i < s.len() ==> 'A' <= #[trigger] s[i] && s[i] <= 'Z'
}

/// A frame line is a written property, and its text is its word, a colon, its
/// kind and a line break.
pub proof fn lemma_frame_line_text(word: Seq<char>, kind: Seq<char>)
    requires
        capitals(word),
        word.len() < 8,
        capitals(kind),
    ensures
        written_property(frame_line(word, kind)),
        <crate::property::Property as crate::generator::Emitter>::generated(
            frame_line(word, kind),
        ) == word + seq![':'] + kind + seq!['\r', '\n'],
{
    lemma_frame_line(word, kind);
}

proof fn lemma_frame_line(word: Seq<char>, kind: Seq<char>)
    requires
        capitals(word),
        word.len() < 8,
        capitals(kind),
    ensures
        written_property(frame_line(word, kind)),
        fold(line_text(frame_line(word, kind))) == word + seq![':'] + kind + seq!['\r', '\n'],
{
    let p = frame_line(word, kind);
    lemma_upper_of_capitals(word);
    assert(plain_name(word)) by {
        assert forall|i: int| 0 <= i < word.len() implies #[trigger] word[i] != ';' && word[i]
            != ':' && word[i] != '\n' by {
            assert('A' <= word[i] && word[i] <= 'Z');
        }
    }
    assert('A' <= word[0] && word[0] <= 'Z');
    assert forall|i: int| 0 <= i < kind.len() implies #[trigger] kind[i] != '\n' by {
        assert('A' <= kind[i] && kind[i] <= 'Z');
    }
    assert(written_property(p));
    let line = line_text(p);
    assert(line =~= word + seq![':'] + kind);
    assert(line.len() < 75);
    assert(fold(line) =~= word + seq![':'] + kind + seq!['\r', '\n']);
}

} // verus!
