//! Folding of long lines and escaping of parameter values.
use crate::property::{Property, PropertyView};
use crate::text::{push_range, to_chars};
use vstd::prelude::*;

verus! {

/// The folded form of `t` when its first physical line may hold `width`
/// characters: while at least `width` characters are left, `width` of them are
/// written and followed by a line break and one space; what is left after that
/// ends with a line break. Every line after the first holds 74 characters
/// behind its leading space.
pub open spec fn fold_from(t: Seq<char>, width: int) -> Seq<char>
    decreases t.len(),
{
    if width <= 0 || t.len() < width {
        t + seq!['\r', '\n']
    } else {
        t.take(width) + seq!['\r', '\n', ' '] + fold_from(t.skip(width), 74)
    }
}

/// The folded form of one logical line: physical lines of at most 75
/// characters, each continuation line starting with a single space.
pub open spec fn fold(t: Seq<char>) -> Seq<char> {
    fold_from(t, 75)
}

/// Folds one logical line and ends it with a line break. The text is cut
/// between characters, never inside one.
pub fn split_line(line: String) -> (output: String)
    ensures
        output@ == fold(line@),
{
    let chars = to_chars(line.as_str());
    let n = chars.len();
    let mut output = String::new();
    let mut pos: usize = 0;
    let mut width: usize = 75;
    assert(chars@.skip(0) =~= chars@);
    assert(output@ + fold_from(chars@.skip(0), 75) =~= fold(chars@));
    while n - pos >= width
        invariant
            pos <= n,
            n == chars.len(),
            width == 75 || width == 74,
            output@ + fold_from(chars@.skip(pos as int), width as int) == fold(chars@),
        decreases n - pos,
    {
        let ghost before = output@;
        let ghost rest = chars@.skip(pos as int);
        push_range(&mut output, &chars, pos, pos + width);
        output.push('\r');
        output.push('\n');
        output.push(' ');
        proof {
            assert(rest.take(width as int) =~= chars@.subrange(pos as int, pos + width));
            assert(rest.skip(width as int) =~= chars@.skip(pos + width));
            assert(output@ =~= before + (rest.take(width as int) + seq!['\r', '\n', ' ']));
            assert(output@ + fold_from(chars@.skip(pos + width), 74) =~= before + fold_from(
                rest,
                width as int,
            ));
        }
        pos = pos + width;
        width = 74;
    }
    let ghost before = output@;
    push_range(&mut output, &chars, pos, n);
    output.push('\r');
    output.push('\n');
    proof {
        let rest = chars@.skip(pos as int);
        assert(rest =~= chars@.subrange(pos as int, n as int));
        assert(output@ =~= before + fold_from(rest, width as int));
    }
    output
}

/// Whether `v` is wrapped in a pair of double quotes.
pub open spec fn is_quoted(v: Seq<char>) -> bool {
    v.len() > 1 && v[0] == '"' && v[v.len() - 1] == '"'
}

/// Whether `c` is written with a backslash in front when it stands in a value
/// that is not wrapped in quotes.
pub open spec fn is_delimiter(c: char) -> bool {
    c == ';' || c == ':' || c == ',' || c == '\\'
}

/// The escaped form of one character. A line feed becomes a backslash and the
/// letter `n`, a double quote gets a backslash, and so do the four delimiters
/// where `bare` says that no quotes protect them.
pub open spec fn escape_char(c: char, bare: bool) -> Seq<char> {
    if c == '\n' {
        seq!['\\', 'n']
    } else if c == '"' {
        seq!['\\', '"']
    } else if bare && is_delimiter(c) {
        seq!['\\', c]
    } else {
        seq![c]
    }
}

/// The escaped forms of the characters of `v`, one after the other.
pub open spec fn escape_run(v: Seq<char>, bare: bool) -> Seq<char>
    decreases v.len(),
{
    if v.len() == 0 {
        Seq::empty()
    } else {
        escape_char(v[0], bare) + escape_run(v.drop_first(), bare)
    }
}

/// The escaped form of a parameter value. A value wrapped in double quotes
/// keeps its two quotes and its delimiters; any other value has every
/// delimiter escaped.
pub open spec fn escape(v: Seq<char>) -> Seq<char> {
    if is_quoted(v) {
        seq!['"'] + escape_run(v.subrange(1, v.len() - 1), false) + seq!['"']
    } else {
        escape_run(v, true)
    }
}

/// Whether a backslash in front of `c` forms an escape.
pub open spec fn is_escape_code(c: char, bare: bool) -> bool {
    c == 'n' || c == '"' || (bare && is_delimiter(c))
}

/// The character that a backslash followed by `c` stands for.
pub open spec fn escape_target(c: char) -> char {
    if c == 'n' {
        '\n'
    } else {
        c
    }
}

/// Reads `w` from the left and replaces each escape by the character it
/// stands for. A backslash that starts no escape stays as it is.
pub open spec fn unescape_run(w: Seq<char>, bare: bool) -> Seq<char>
    decreases w.len(),
{
    if w.len() == 0 {
        Seq::empty()
    } else if w[0] == '\\' && w.len() >= 2 && is_escape_code(w[1], bare) {
        seq![escape_target(w[1])] + unescape_run(w.skip(2), bare)
    } else {
        seq![w[0]] + unescape_run(w.drop_first(), bare)
    }
}

/// The value that an escaped parameter value stands for.
pub open spec fn unescape(w: Seq<char>) -> Seq<char> {
    if is_quoted(w) {
        seq!['"'] + unescape_run(w.subrange(1, w.len() - 1), false) + seq!['"']
    } else {
        unescape_run(w, true)
    }
}

fn is_quoted_chars(v: &Vec<char>) -> (r: bool)
    ensures
        r == is_quoted(v@),
{
    v.len() > 1 && v[0] == '"' && v[v.len() - 1] == '"'
}

fn push_escaped(out: &mut String, v: &Vec<char>, from: usize, to: usize, bare: bool)
    requires
        from <= to <= v.len(),
    ensures
        final(out)@ == old(out)@ + escape_run(v@.subrange(from as int, to as int), bare),
{
    let mut i: usize = from;
    assert(old(out)@ + escape_run(v@.subrange(from as int, to as int), bare) =~= out@ + escape_run(
        v@.subrange(i as int, to as int),
        bare,
    ));
    while i < to
        invariant
            from <= i <= to <= v.len(),
            out@ + escape_run(v@.subrange(i as int, to as int), bare) == old(out)@ + escape_run(
                v@.subrange(from as int, to as int),
                bare,
            ),
        decreases to - i,
    {
        let c = v[i];
        let ghost before = out@;
        let ghost rest = v@.subrange(i as int, to as int);
        if c == '\n' {
            out.push('\\');
            out.push('n');
        } else if c == '"' {
            out.push('\\');
            out.push('"');
        } else if bare && (c == ';' || c == ':' || c == ',' || c == '\\') {
            out.push('\\');
            out.push(c);
        } else {
            out.push(c);
        }
        i += 1;
        proof {
            assert(rest[0] == c);
            assert(rest.drop_first() =~= v@.subrange(i as int, to as int));
            assert(out@ =~= before + escape_char(c, bare));
            assert(out@ + escape_run(v@.subrange(i as int, to as int), bare) =~= before
                + escape_run(rest, bare));
        }
    }
    assert(v@.subrange(to as int, to as int) =~= Seq::<char>::empty());
    assert(out@ =~= old(out)@ + escape_run(v@.subrange(from as int, to as int), bare));
}

/// Escapes a parameter value for writing: see [`escape`].
pub fn protect_param(param: &str) -> (escaped: String)
    ensures
        escaped@ == escape(param@),
{
    let v = to_chars(param);
    let mut escaped = String::new();
    if is_quoted_chars(&v) {
        escaped.push('"');
        push_escaped(&mut escaped, &v, 1, v.len() - 1, false);
        escaped.push('"');
        assert(escaped@ =~= escape(v@));
    } else {
        push_escaped(&mut escaped, &v, 0, v.len(), true);
        assert(v@.subrange(0, v.len() as int) =~= v@);
        assert(escaped@ =~= escape(v@));
    }
    escaped
}

fn push_unescaped(out: &mut String, w: &Vec<char>, from: usize, to: usize, bare: bool)
    requires
        from <= to <= w.len(),
    ensures
        final(out)@ == old(out)@ + unescape_run(w@.subrange(from as int, to as int), bare),
{
    let mut i: usize = from;
    assert(old(out)@ + unescape_run(w@.subrange(from as int, to as int), bare) =~= out@
        + unescape_run(w@.subrange(i as int, to as int), bare));
    while i < to
        invariant
            from <= i <= to <= w.len(),
            out@ + unescape_run(w@.subrange(i as int, to as int), bare) == old(out)@
                + unescape_run(w@.subrange(from as int, to as int), bare),
        decreases to - i,
    {
        let c = w[i];
        let ghost before = out@;
        let ghost rest = w@.subrange(i as int, to as int);
        assert(rest[0] == c);
        if c == '\\' && to - i >= 2 && code_starts(w[i + 1], bare) {
            let d = w[i + 1];
            assert(rest[1] == d);
            if d == 'n' {
                out.push('\n');
            } else {
                out.push(d);
            }
            i += 2;
            proof {
                assert(rest.skip(2) =~= w@.subrange(i as int, to as int));
                assert(out@ =~= before + seq![escape_target(d)]);
                assert(out@ + unescape_run(w@.subrange(i as int, to as int), bare) =~= before
                    + unescape_run(rest, bare));
            }
        } else {
            out.push(c);
            i += 1;
            proof {
                assert(rest.len() >= 2 ==> rest[1] == w@[i as int]);
                assert(rest.drop_first() =~= w@.subrange(i as int, to as int));
                assert(out@ =~= before + seq![c]);
                assert(out@ + unescape_run(w@.subrange(i as int, to as int), bare) =~= before
                    + unescape_run(rest, bare));
            }
        }
    }
    assert(w@.subrange(to as int, to as int) =~= Seq::<char>::empty());
    assert(out@ =~= old(out)@ + unescape_run(w@.subrange(from as int, to as int), bare));
}

fn code_starts(c: char, bare: bool) -> (r: bool)
    ensures
        r == is_escape_code(c, bare),
{
    c == 'n' || c == '"' || (bare && (c == ';' || c == ':' || c == ',' || c == '\\'))
}

/// Reads an escaped parameter value back: see [`unescape`].
pub fn unprotect_param(param: &str) -> (value: String)
    ensures
        value@ == unescape(param@),
{
    let w = to_chars(param);
    let mut value = String::new();
    if is_quoted_chars(&w) {
        value.push('"');
        push_unescaped(&mut value, &w, 1, w.len() - 1, false);
        value.push('"');
        assert(value@ =~= unescape(w@));
    } else {
        push_unescaped(&mut value, &w, 0, w.len(), true);
        assert(w@.subrange(0, w.len() as int) =~= w@);
        assert(value@ =~= unescape(w@));
    }
    value
}

/// Whether a backslash in `v` is directly followed by the letter `n`.
pub open spec fn has_backslash_n(v: Seq<char>) -> bool {
    exists|i: int| 0 <= i && i + 1 < v.len() && v[i] == '\\' && #[trigger] v[i + 1] == 'n'
}

proof fn lemma_unescape_escape_run(v: Seq<char>, bare: bool)
    requires
        bare || !has_backslash_n(v),
    ensures
        unescape_run(escape_run(v, bare), bare) == v,
    decreases v.len(),
{
    if v.len() == 0 {
    } else {
        let c = v[0];
        let rest = v.drop_first();
        let head = escape_char(c, bare);
        let tail = escape_run(rest, bare);
        let w = escape_run(v, bare);
        assert(w == head + tail);
        if !bare {
            assert forall|i: int| 0 <= i && i + 1 < rest.len() && rest[i] == '\\' implies #[trigger] rest[i
                + 1] != 'n' by {
                assert(v[i + 1] == rest[i]);
                assert(v[(i + 1) + 1] == rest[i + 1]);
            }
        }
        lemma_unescape_escape_run(rest, bare);
        if head.len() == 2 {
            assert(w[0] == '\\');
            assert(w[1] == head[1]);
            assert(is_escape_code(w[1], bare));
            assert(escape_target(w[1]) == c);
            assert(w.skip(2) =~= tail);
            assert(unescape_run(w, bare) =~= seq![c] + rest);
        } else {
            assert(head =~= seq![c]);
            assert(w[0] == c);
            assert(w.drop_first() =~= tail);
            if c == '\\' && w.len() >= 2 {
                assert(!bare);
                assert(rest.len() > 0);
                let d = rest[0];
                assert(tail == escape_char(d, bare) + escape_run(rest.drop_first(), bare));
                assert(w[1] == escape_char(d, bare)[0]);
                assert(v[0int + 1] == d);
                assert(d != 'n');
                assert(!is_escape_code(w[1], bare));
            }
            assert(unescape_run(w, bare) =~= seq![c] + rest);
        }
        assert(seq![c] + rest =~= v);
    }
}

proof fn lemma_escape_run_starts_without_quote(v: Seq<char>)
    requires
        v.len() > 0,
    ensures
        escape_run(v, true).len() > 0,
        escape_run(v, true)[0] != '"',
{
    let head = escape_char(v[0], true);
    assert(escape_run(v, true) == head + escape_run(v.drop_first(), true));
    assert(escape_run(v, true)[0] == head[0]);
}

/// Escaping can be undone: reading the escaped form of a value gives the value
/// back. This holds of every value that is not wrapped in quotes, whatever
/// backslashes, delimiters, quotes and line feeds it holds, and of a quoted
/// value unless a backslash inside it is directly followed by the letter `n`
/// (quotes keep backslashes as they are, so that pair reads as a line feed).
pub proof fn lemma_unescape_escape(v: Seq<char>)
    requires
        is_quoted(v) ==> !has_backslash_n(v.subrange(1, v.len() - 1)),
    ensures
        unescape(escape(v)) == v,
{
    if is_quoted(v) {
        let inner = v.subrange(1, v.len() - 1);
        let e = escape(v);
        lemma_unescape_escape_run(inner, false);
        assert(e[0] == '"');
        assert(e[e.len() - 1] == '"');
        assert(is_quoted(e));
        assert(e.subrange(1, e.len() - 1) =~= escape_run(inner, false));
        assert(unescape(e) =~= seq!['"'] + inner + seq!['"']);
        assert(seq!['"'] + inner + seq!['"'] =~= v);
    } else {
        lemma_unescape_escape_run(v, true);
        if v.len() > 0 {
            lemma_escape_run_starts_without_quote(v);
        }
        assert(!is_quoted(escape(v)));
    }
}

/// The texts `parts` one after the other, with `sep` between each two.
pub open spec fn join(parts: Seq<Seq<char>>, sep: char) -> Seq<char>
    decreases parts.len(),
{
    if parts.len() == 0 {
        Seq::empty()
    } else if parts.len() == 1 {
        parts[0]
    } else {
        join(parts.drop_last(), sep).push(sep) + parts.last()
    }
}

/// The text of one parameter: its key, an equals sign, and its values,
/// escaped, with commas between them.
pub open spec fn param_text(param: (Seq<char>, Seq<Seq<char>>)) -> Seq<char> {
    param.0.push('=') + join(param.1.map_values(|v: Seq<char>| escape(v)), ',')
}

/// The text of the parameters of a property, with semicolons between them.
pub open spec fn params_text(params: Seq<(Seq<char>, Seq<Seq<char>>)>) -> Seq<char> {
    join(params.map_values(|p: (Seq<char>, Seq<Seq<char>>)| param_text(p)), ';')
}

/// The logical line of a property: its name, its parameters behind a
/// semicolon where it has any, a colon, and its value where it has one.
pub open spec fn line_text(p: PropertyView) -> Seq<char> {
    p.name + (if p.params.len() > 0 {
        seq![';'] + params_text(p.params)
    } else {
        Seq::empty()
    }) + seq![':'] + (match p.value {
        Some(v) => v,
        None => Seq::empty(),
    })
}

fn push_values(out: &mut String, values: &Vec<String>)
    ensures
        final(out)@ == old(out)@ + join(
            values.deep_view().map_values(|v: Seq<char>| escape(v)),
            ',',
        ),
{
    let ghost all = values.deep_view().map_values(|v: Seq<char>| escape(v));
    let mut i: usize = 0;
    assert(all.take(0) =~= Seq::empty());
    assert(out@ =~= old(out)@ + join(all.take(0), ','));
    while i < values.len()
        invariant
            i <= values.len(),
            all == values.deep_view().map_values(|v: Seq<char>| escape(v)),
            out@ == old(out)@ + join(all.take(i as int), ','),
        decreases values.len() - i,
    {
        if i > 0 {
            out.push(',');
        }
        let escaped = protect_param(values[i].as_str());
        out.append(escaped.as_str());
        proof {
            let next = all.take(i + 1);
            assert(next.drop_last() =~= all.take(i as int));
            assert(next.last() == escaped@);
            if i == 0 {
                assert(join(all.take(0), ',') =~= Seq::empty());
                assert(out@ =~= old(out)@ + join(next, ','));
            } else {
                assert(out@ =~= old(out)@ + join(next, ','));
            }
        }
        i += 1;
    }
    assert(all.take(values.len() as int) =~= all);
}

fn push_params(out: &mut String, params: &Vec<(String, Vec<String>)>)
    ensures
        final(out)@ == old(out)@ + params_text(params.deep_view()),
{
    let ghost all = params.deep_view().map_values(|p: (Seq<char>, Seq<Seq<char>>)| param_text(p));
    let mut i: usize = 0;
    assert(all.take(0) =~= Seq::empty());
    assert(out@ =~= old(out)@ + join(all.take(0), ';'));
    while i < params.len()
        invariant
            i <= params.len(),
            all == params.deep_view().map_values(|p: (Seq<char>, Seq<Seq<char>>)| param_text(p)),
            out@ == old(out)@ + join(all.take(i as int), ';'),
        decreases params.len() - i,
    {
        if i > 0 {
            out.push(';');
        }
        let ghost mid = out@;
        out.append(params[i].0.as_str());
        out.push('=');
        push_values(out, &params[i].1);
        proof {
            let next = all.take(i + 1);
            assert(next.drop_last() =~= all.take(i as int));
            assert(params.deep_view()[i as int] == (params[i as int].0@, params[i as int].1.deep_view()));
            assert(next.last() == param_text(params.deep_view()[i as int]));
            assert(out@ =~= mid + param_text(params.deep_view()[i as int]));
            if i == 0 {
                assert(join(all.take(0), ';') =~= Seq::empty());
                assert(out@ =~= old(out)@ + join(next, ';'));
            } else {
                assert(out@ =~= old(out)@ + join(next, ';'));
            }
        }
        i += 1;
    }
    assert(all.take(params.len() as int) =~= all);
}

/// The text of the parameters of a property: see [`params_text`].
pub fn get_params(params: &Vec<(String, Vec<String>)>) -> (r: String)
    ensures
        r@ == params_text(params.deep_view()),
{
    let mut out = String::new();
    push_params(&mut out, params);
    assert(out@ =~= params_text(params.deep_view()));
    out
}

impl crate::generator::Emitter for Property {
    /// The folded line of a property: see [`line_text`] and [`fold`].
    open spec fn generated(p: PropertyView) -> Seq<char> {
        fold(line_text(p))
    }

    fn generate(&self) -> (r: String) {
        let mut output = self.name.clone();
        if self.params.len() > 0 {
            output.push(';');
            push_params(&mut output, &self.params);
        }
        output.push(':');
        match &self.value {
            Some(value) => {
                output.append(value.as_str());
            },
            None => {},
        }
        assert(output@ =~= line_text(self@));
        split_line(output)
    }
}

} // verus!
