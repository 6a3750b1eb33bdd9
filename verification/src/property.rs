//! Splitting of a logical line into a property: a name, parameters and a value.
//!
//! The grammar of a line is `NAME[;KEY=VALUE[,VALUE...]]...:VALUE`. The name and
//! the parameter keys are put in upper case; values are kept as they stand.
use crate::line::{read_line, Line, LineReader, RawLine};
use crate::text::{string_of_range, to_chars, to_upper, upper_of};
use vstd::prelude::*;

verus! {

/// Why a line could not be split. Each kind carries the number of the line.
#[derive(Debug, Clone, Copy, PartialEq, Eq, Structural)]
pub enum PropertyError {
    /// No name stands in front of the first `;` or `:`, or neither occurs.
    MissingName(usize),
    /// A quoted parameter value is not closed.
    MissingClosingQuote(usize),
    /// A parameter has no `=` behind its key.
    MissingDelimiter(usize, char),
    /// An unquoted parameter value runs to the end of the line.
    MissingContentAfter(usize, char),
    /// A parameter starts with `=`.
    MissingParamKey(usize),
    /// No `:` follows the name and the parameters.
    MissingValue(usize),
    /// The bytes of the line are not well-formed UTF-8.
    InvalidEncoding(usize),
}

/// A property of a calendar or contact component.
#[derive(Debug, Default, Eq, PartialEq, Hash)]
pub struct Property {
    /// Property name.
    pub name: String,
    /// Parameters in the order in which they were written; a key may occur
    /// more than once.
    pub params: Vec<(String, Vec<String>)>,
    /// Property value; `None` where nothing follows the `:`.
    pub value: Option<String>,
}

/// One parameter as a plain value: its key and its values.
pub type ParamView = (Seq<char>, Seq<Seq<char>>);

/// A property as a plain value.
pub struct PropertyView {
    pub name: Seq<char>,
    pub params: Seq<ParamView>,
    pub value: Option<Seq<char>>,
}

impl View for Property {
    type V = PropertyView;

    open spec fn view(&self) -> PropertyView {
        PropertyView {
            name: self.name@,
            params: self.params.deep_view(),
            value: match self.value {
                Some(v) => Some(v@),
                None => None,
            },
        }
    }
}

impl DeepView for Property {
    type V = PropertyView;

    open spec fn deep_view(&self) -> PropertyView {
        self@
    }
}

/// The first value of the first parameter with the key `name` that has a
/// value, where the first parameter with that key is looked at alone.
pub open spec fn first_param(params: Seq<ParamView>, name: Seq<char>) -> Option<Seq<char>>
    decreases params.len(),
{
    if params.len() == 0 {
        None
    } else if params[0].0 == name {
        if params[0].1.len() > 0 {
            Some(params[0].1[0])
        } else {
            None
        }
    } else {
        first_param(params.drop_first(), name)
    }
}

/// Pushing an item onto a vector pushes its plain value onto the vector's
/// plain value.
pub proof fn lemma_push_deep_view<T: DeepView>(before: Vec<T>, after: Vec<T>, item: T)
    requires
        after@ == before@.push(item),
    ensures
        after.deep_view() == before.deep_view().push(item.deep_view()),
{
    assert(after.deep_view() =~= before.deep_view().push(item.deep_view()));
}

impl Clone for Property {
    fn clone(&self) -> (r: Self)
        ensures
            r@ == self@,
    {
        let mut params: Vec<(String, Vec<String>)> = Vec::new();
        let mut i: usize = 0;
        while i < self.params.len()
            invariant
                i <= self.params.len(),
                params.deep_view() == self.params.deep_view().take(i as int),
            decreases self.params.len() - i,
        {
            let key = self.params[i].0.clone();
            let values = duplicate_vec(&self.params[i].1);
            let ghost before = params;
            let ghost item = (key, values);
            params.push((key, values));
            i += 1;
            proof {
                lemma_push_deep_view(before, params, item);
                assert(params.deep_view() =~= self.params.deep_view().take(i as int));
            }
        }
        assert(self.params.deep_view().take(self.params.len() as int) =~= self.params.deep_view());
        let value = match &self.value {
            Some(v) => Some(v.clone()),
            None => None,
        };
        Property { name: self.name.clone(), params, value }
    }
}

/// Values that can be copied with their plain value kept.
pub trait Duplicate: DeepView + Sized {
    /// A copy with the same plain value.
    fn duplicate(&self) -> (r: Self)
        ensures
            r.deep_view() == self.deep_view(),
    ;
}

impl Duplicate for String {
    fn duplicate(&self) -> (r: Self) {
        self.clone()
    }
}

impl Duplicate for Property {
    fn duplicate(&self) -> (r: Self) {
        self.clone()
    }
}

/// A copy of a list, item by item.
pub fn duplicate_vec<T: Duplicate>(v: &Vec<T>) -> (r: Vec<T>)
    ensures
        r.deep_view() == v.deep_view(),
{
    let mut r: Vec<T> = Vec::new();
    let mut i: usize = 0;
    assert(r.deep_view() =~= v.deep_view().take(0));
    while i < v.len()
        invariant
            i <= v.len(),
            r.deep_view() == v.deep_view().take(i as int),
        decreases v.len() - i,
    {
        let item = v[i].duplicate();
        let ghost before = r;
        let ghost pushed = item;
        r.push(item);
        i += 1;
        proof {
            lemma_push_deep_view(before, r, pushed);
            assert(r.deep_view() =~= v.deep_view().take(i as int));
        }
    }
    assert(v.deep_view().take(v.len() as int) =~= v.deep_view());
    r
}

impl Property {
    /// A property without name, parameters and value.
    pub fn new() -> (r: Property)
        ensures
            r@.name.len() == 0,
            r@.params.len() == 0,
            r@.value is None,
    {
        let r = Property { name: String::new(), params: Vec::new(), value: None };
        assert(r.params.deep_view() =~= Seq::empty());
        r
    }

    /// The first value of the first parameter whose key is `name`.
    pub fn get_param(&self, name: &str) -> (r: Option<&str>)
        ensures
            match r {
                Some(s) => first_param(self@.params, name@) == Some(s@),
                None => first_param(self@.params, name@) is None,
            },
    {
        let mut i: usize = 0;
        let ghost all = self@.params;
        assert(all.skip(0) =~= all);
        while i < self.params.len()
            invariant
                i <= self.params.len(),
                all == self.params.deep_view(),
                first_param(all.skip(i as int), name@) == first_param(all, name@),
            decreases self.params.len() - i,
        {
            let ghost rest = all.skip(i as int);
            assert(rest[0] == all[i as int]);
            assert(all[i as int] == self.params[i as int].deep_view());
            assert(self.params[i as int].1.deep_view().len() == self.params[i as int].1.len());
            if self.params[i].0.as_str().eq(name) {
                if self.params[i].1.len() > 0 {
                    assert(self.params[i as int].1.deep_view()[0] == self.params[i as int].1[0]@);
                    return Some(self.params[i].1[0].as_str());
                } else {
                    return None;
                }
            }
            assert(rest.drop_first() =~= all.skip(i + 1));
            i += 1;
        }
        None
    }

    /// The value of the `TZID` parameter.
    pub fn get_tzid(&self) -> (r: Option<&str>)
        ensures
            match r {
                Some(s) => first_param(self@.params, "TZID"@) == Some(s@),
                None => first_param(self@.params, "TZID"@) is None,
            },
    {
        self.get_param("TZID")
    }

    /// The value of the `VALUE` parameter.
    pub fn get_value_type(&self) -> (r: Option<&str>)
        ensures
            match r {
                Some(s) => first_param(self@.params, "VALUE"@) == Some(s@),
                None => first_param(self@.params, "VALUE"@) is None,
            },
    {
        self.get_param("VALUE")
    }
}

/// The place of the first `;` or `:` at or after `from`, or of the first `,`
/// if that comes earlier and `with_comma` is set; the length of `s` where there
/// is none.
pub open spec fn find_delimiter(s: Seq<char>, from: int, with_comma: bool) -> int
    decreases s.len() - from,
{
    if from < 0 || from >= s.len() {
        s.len() as int
    } else if s[from] == ';' || s[from] == ':' || (with_comma && s[from] == ',') {
        from
    } else {
        find_delimiter(s, from + 1, with_comma)
    }
}

/// The place of the first `c` at or after `from`, or the length of `s`.
pub open spec fn find_char(s: Seq<char>, from: int, c: char) -> int
    decreases s.len() - from,
{
    if from < 0 || from >= s.len() {
        s.len() as int
    } else if s[from] == c {
        from
    } else {
        find_char(s, from + 1, c)
    }
}

/// The place of the first double quote at or after `from` that no backslash
/// escapes, or the length of `s`. A backslash takes the character behind it
/// with it.
pub open spec fn closing_quote(s: Seq<char>, from: int) -> int
    decreases s.len() - from,
{
    if from < 0 || from >= s.len() {
        s.len() as int
    } else if s[from] == '"' {
        from
    } else if s[from] == '\\' && from + 1 < s.len() {
        closing_quote(s, from + 2)
    } else {
        closing_quote(s, from + 1)
    }
}

/// The place of the first character at or after `from` that is no comma.
pub open spec fn skip_commas(s: Seq<char>, from: int) -> int
    decreases s.len() - from,
{
    if from < 0 || from >= s.len() {
        s.len() as int
    } else if s[from] == ',' {
        skip_commas(s, from + 1)
    } else {
        from
    }
}

/// The four searches stay between their start and the end of the line.
pub proof fn lemma_search_bounds(s: Seq<char>, from: int, with_comma: bool, c: char)
    requires
        0 <= from <= s.len(),
    ensures
        from <= find_delimiter(s, from, with_comma) <= s.len(),
        from <= find_char(s, from, c) <= s.len(),
        from <= closing_quote(s, from) <= s.len(),
        from <= skip_commas(s, from) <= s.len(),
        from < s.len() && s[from] == ',' ==> from < skip_commas(s, from),
    decreases s.len() - from,
{
    if from < s.len() {
        lemma_search_bounds(s, from + 1, with_comma, c);
        if from + 1 < s.len() {
            lemma_search_bounds(s, from + 2, with_comma, c);
        }
    }
}

/// The values of one parameter, read from `from` on, behind the values `acc`
/// that were read before, and the place behind the last of them. A value is
/// either a run in double quotes, which ends at the next quote that no
/// backslash escapes and is kept without its two quotes, or a run that ends in
/// front of the next `;`, `:` or `,`. Commas between two values are passed over.
pub open spec fn parse_values(s: Seq<char>, from: int, number: usize, acc: Seq<Seq<char>>) -> Result<
    (Seq<Seq<char>>, int),
    PropertyError,
>
    decreases s.len() - from,
    via parse_values_decreases
{
    if from < 0 || from > s.len() {
        Err(PropertyError::MissingContentAfter(number, '='))
    } else if from < s.len() && s[from] == '"' {
        let close = closing_quote(s, from + 1);
        if close >= s.len() {
            Err(PropertyError::MissingClosingQuote(number))
        } else {
            let values = acc.push(s.subrange(from + 1, close));
            if close + 1 < s.len() && s[close + 1] == ',' {
                parse_values(s, skip_commas(s, close + 1), number, values)
            } else {
                Ok((values, close + 1))
            }
        }
    } else {
        let end = find_delimiter(s, from, true);
        if end >= s.len() {
            Err(PropertyError::MissingContentAfter(number, '='))
        } else {
            let values = acc.push(s.subrange(from, end));
            if s[end] == ',' {
                parse_values(s, skip_commas(s, end), number, values)
            } else {
                Ok((values, end))
            }
        }
    }
}

#[via_fn]
proof fn parse_values_decreases(s: Seq<char>, from: int, number: usize, acc: Seq<Seq<char>>) {
    if 0 <= from <= s.len() {
        lemma_search_bounds(s, from, true, ',');
        if from < s.len() {
            lemma_search_bounds(s, from + 1, true, ',');
            let close = closing_quote(s, from + 1);
            if close < s.len() {
                lemma_search_bounds(s, close + 1, true, ',');
            }
        }
        let end = find_delimiter(s, from, true);
        if end < s.len() {
            lemma_search_bounds(s, end, true, ',');
        }
    }
}

/// Reading values moves forward and stays inside the line.
pub proof fn lemma_parse_values_bounds(s: Seq<char>, from: int, number: usize, acc: Seq<Seq<char>>)
    requires
        0 <= from <= s.len(),
    ensures
        parse_values(s, from, number, acc) matches Ok((values, next)) ==> from <= next <= s.len()
            && values.len() > acc.len(),
    decreases s.len() - from,
{
    lemma_search_bounds(s, from, true, ',');
    if from < s.len() && s[from] == '"' {
        lemma_search_bounds(s, from + 1, true, ',');
        let close = closing_quote(s, from + 1);
        if close < s.len() {
            lemma_search_bounds(s, close + 1, true, ',');
            if close + 1 < s.len() && s[close + 1] == ',' {
                lemma_parse_values_bounds(
                    s,
                    skip_commas(s, close + 1),
                    number,
                    acc.push(s.subrange(from + 1, close)),
                );
            }
        }
    } else {
        let end = find_delimiter(s, from, true);
        if end < s.len() {
            lemma_search_bounds(s, end, true, ',');
            if s[end] == ',' {
                lemma_parse_values_bounds(
                    s,
                    skip_commas(s, end),
                    number,
                    acc.push(s.subrange(from, end)),
                );
            }
        }
    }
}

/// The parameters of a line, read from `from` on, behind the parameters `acc`
/// that were read before, and the place behind the last of them. While a `;`
/// stands at the place, one parameter follows: a key, which ends in front of
/// the next `=` and is put in upper case, and its values.
pub open spec fn parse_params(s: Seq<char>, from: int, number: usize, acc: Seq<ParamView>) -> Result<
    (Seq<ParamView>, int),
    PropertyError,
>
    decreases s.len() - from,
    via parse_params_decreases
{
    if from < 0 || from >= s.len() || s[from] != ';' {
        Ok((acc, from))
    } else {
        let eq = find_char(s, from + 1, '=');
        if eq >= s.len() {
            Err(PropertyError::MissingDelimiter(number, '='))
        } else if eq == from + 1 {
            Err(PropertyError::MissingParamKey(number))
        } else {
            match parse_values(s, eq + 1, number, Seq::empty()) {
                Err(e) => Err(e),
                Ok((values, next)) => parse_params(
                    s,
                    next,
                    number,
                    acc.push((upper_of(s.subrange(from + 1, eq)), values)),
                ),
            }
        }
    }
}

#[via_fn]
proof fn parse_params_decreases(s: Seq<char>, from: int, number: usize, acc: Seq<ParamView>) {
    if 0 <= from < s.len() {
        lemma_search_bounds(s, from + 1, true, '=');
        let eq = find_char(s, from + 1, '=');
        if eq < s.len() {
            lemma_parse_values_bounds(s, eq + 1, number, Seq::empty());
        }
    }
}

/// Reading parameters moves forward and stays inside the line.
pub proof fn lemma_parse_params_bounds(s: Seq<char>, from: int, number: usize, acc: Seq<ParamView>)
    requires
        0 <= from <= s.len(),
    ensures
        parse_params(s, from, number, acc) matches Ok((params, next)) ==> from <= next <= s.len(),
    decreases s.len() - from,
{
    if from < s.len() && s[from] == ';' {
        lemma_search_bounds(s, from + 1, true, '=');
        let eq = find_char(s, from + 1, '=');
        if eq < s.len() && eq != from + 1 {
            lemma_parse_values_bounds(s, eq + 1, number, Seq::empty());
            match parse_values(s, eq + 1, number, Seq::empty()) {
                Err(e) => {},
                Ok((values, next)) => {
                    lemma_parse_params_bounds(
                        s,
                        next,
                        number,
                        acc.push((upper_of(s.subrange(from + 1, eq)), values)),
                    );
                },
            }
        }
    }
}

/// The property that the line `s` with the given number spells, or the first
/// fault in it. The name is what stands in front of the first `;` or `:`, in
/// upper case, and must not be empty. The parameters follow. Behind them a `:`
/// must stand; what follows it is the value, and nothing there is no value.
pub open spec fn tokenize(s: Seq<char>, number: usize) -> Result<PropertyView, PropertyError> {
    let end_name = find_delimiter(s, 0, false);
    if end_name >= s.len() || end_name == 0 {
        Err(PropertyError::MissingName(number))
    } else {
        match parse_params(s, end_name, number, Seq::empty()) {
            Err(e) => Err(e),
            Ok((params, next)) => {
                if next >= s.len() || s[next] != ':' {
                    Err(PropertyError::MissingValue(number))
                } else {
                    Ok(
                        PropertyView {
                            name: upper_of(s.subrange(0, end_name)),
                            params,
                            value: if next + 1 == s.len() {
                                None
                            } else {
                                Some(s.subrange(next + 1, s.len() as int))
                            },
                        },
                    )
                }
            },
        }
    }
}

/// What a logical line gives once it is read as text and split.
pub open spec fn tokenize_raw(raw: RawLine) -> Result<PropertyView, PropertyError> {
    match read_line(raw) {
        Ok((text, number)) => tokenize(text, number),
        Err(number) => Err(PropertyError::InvalidEncoding(number)),
    }
}

/// The outcome of splitting a line, as a plain value.
pub open spec fn property_outcome(r: Result<Property, PropertyError>) -> Result<
    PropertyView,
    PropertyError,
> {
    match r {
        Ok(p) => Ok(p@),
        Err(e) => Err(e),
    }
}

fn find_delimiter_in(s: &Vec<char>, from: usize, with_comma: bool) -> (r: usize)
    requires
        from <= s.len(),
    ensures
        r == find_delimiter(s@, from as int, with_comma),
        from <= r <= s.len(),
{
    let mut i: usize = from;
    while i < s.len() && !(s[i] == ';' || s[i] == ':' || (with_comma && s[i] == ','))
        invariant
            from <= i <= s.len(),
            find_delimiter(s@, i as int, with_comma) == find_delimiter(s@, from as int, with_comma),
        decreases s.len() - i,
    {
        i += 1;
    }
    i
}

fn find_char_in(s: &Vec<char>, from: usize, c: char) -> (r: usize)
    requires
        from <= s.len(),
    ensures
        r == find_char(s@, from as int, c),
        from <= r <= s.len(),
{
    let mut i: usize = from;
    while i < s.len() && s[i] != c
        invariant
            from <= i <= s.len(),
            find_char(s@, i as int, c) == find_char(s@, from as int, c),
        decreases s.len() - i,
    {
        i += 1;
    }
    i
}

fn closing_quote_in(s: &Vec<char>, from: usize) -> (r: usize)
    requires
        from <= s.len(),
    ensures
        r == closing_quote(s@, from as int),
        from <= r <= s.len(),
{
    let mut i: usize = from;
    while i < s.len() && s[i] != '"'
        invariant
            from <= i <= s.len(),
            closing_quote(s@, i as int) == closing_quote(s@, from as int),
        decreases s.len() - i,
    {
        if s[i] == '\\' && s.len() - i > 1 {
            i += 2;
        } else {
            i += 1;
        }
    }
    i
}

fn skip_commas_in(s: &Vec<char>, from: usize) -> (r: usize)
    requires
        from <= s.len(),
    ensures
        r == skip_commas(s@, from as int),
        from <= r <= s.len(),
{
    let mut i: usize = from;
    while i < s.len() && s[i] == ','
        invariant
            from <= i <= s.len(),
            skip_commas(s@, i as int) == skip_commas(s@, from as int),
        decreases s.len() - i,
    {
        i += 1;
    }
    i
}

/// The values of one parameter: see [`parse_values`].
fn read_values(s: &Vec<char>, from: usize, number: usize) -> (r: Result<
    (Vec<String>, usize),
    PropertyError,
>)
    requires
        from <= s.len(),
    ensures
        match r {
            Ok((values, next)) => parse_values(s@, from as int, number, Seq::empty()) == Ok::<
                (Seq<Seq<char>>, int),
                PropertyError,
            >((values.deep_view(), next as int)) && from <= next <= s.len(),
            Err(e) => parse_values(s@, from as int, number, Seq::empty()) == Err::<
                (Seq<Seq<char>>, int),
                PropertyError,
            >(e),
        },
{
    let mut values: Vec<String> = Vec::new();
    let mut pos: usize = from;
    assert(values.deep_view() =~= Seq::empty());
    loop
        invariant
            from <= pos <= s.len(),
            parse_values(s@, pos as int, number, values.deep_view()) == parse_values(
                s@,
                from as int,
                number,
                Seq::empty(),
            ),
        decreases s.len() - pos,
    {
        let ghost before = values.deep_view();
        if pos < s.len() && s[pos] == '"' {
            let close = closing_quote_in(s, pos + 1);
            if close >= s.len() {
                return Err(PropertyError::MissingClosingQuote(number));
            }
            values.push(string_of_range(s, pos + 1, close));
            assert(values.deep_view() =~= before.push(s@.subrange(pos + 1, close as int)));
            if close + 1 < s.len() && s[close + 1] == ',' {
                proof {
                    lemma_search_bounds(s@, close + 1, true, ',');
                }
                pos = skip_commas_in(s, close + 1);
            } else {
                return Ok((values, close + 1));
            }
        } else {
            let end = find_delimiter_in(s, pos, true);
            if end >= s.len() {
                return Err(PropertyError::MissingContentAfter(number, '='));
            }
            values.push(string_of_range(s, pos, end));
            assert(values.deep_view() =~= before.push(s@.subrange(pos as int, end as int)));
            if s[end] == ',' {
                proof {
                    lemma_search_bounds(s@, end as int, true, ',');
                }
                pos = skip_commas_in(s, end);
            } else {
                return Ok((values, end));
            }
        }
    }
}

/// Splits lines into properties.
pub struct PropertyParser {
    reader: LineReader,
}

impl PropertyParser {
    /// The outcomes that have not been handed out yet, in order.
    pub closed spec fn remaining(&self) -> Seq<Result<PropertyView, PropertyError>> {
        self.reader.remaining().map_values(|raw: RawLine| tokenize_raw(raw))
    }

    /// The bytes that the parser reads.
    pub closed spec fn bytes(&self) -> Seq<u8> {
        self.reader.bytes()
    }

    /// A parser on the lines of `line_reader`.
    pub fn new(line_reader: LineReader) -> (r: PropertyParser)
        ensures
            r.bytes() == line_reader.bytes(),
            r.remaining() == line_reader.remaining().map_values(|raw: RawLine| tokenize_raw(raw)),
    {
        PropertyParser { reader: line_reader }
    }

    /// A parser on the lines of a byte buffer.
    pub fn from_reader(reader: Vec<u8>) -> (r: PropertyParser)
        ensures
            r.bytes() == reader@,
            r.remaining() == properties_of(reader@),
    {
        PropertyParser { reader: LineReader::new(reader) }
    }

    /// Splits one line: see [`tokenize`].
    pub fn parse(&self, line: Line) -> (r: Result<Property, PropertyError>)
        ensures
            property_outcome(r) == tokenize(line@.0, line@.1),
    {
        let number = line.number();
        let s = to_chars(line.as_str());
        let n = s.len();
        let end_name = find_delimiter_in(&s, 0, false);
        if end_name >= n || end_name == 0 {
            return Err(PropertyError::MissingName(number));
        }
        let mut params: Vec<(String, Vec<String>)> = Vec::new();
        let mut pos: usize = end_name;
        assert(params.deep_view() =~= Seq::empty());
        while pos < n && s[pos] == ';'
            invariant
                n == s.len(),
                s@ == line@.0,
                number == line@.1,
                0 < end_name < n,
                end_name == find_delimiter(s@, 0, false),
                end_name <= pos <= n,
                parse_params(s@, pos as int, number, params.deep_view()) == parse_params(
                    s@,
                    end_name as int,
                    number,
                    Seq::empty(),
                ),
            decreases n - pos,
        {
            let eq = find_char_in(&s, pos + 1, '=');
            if eq >= n {
                return Err(PropertyError::MissingDelimiter(number, '='));
            }
            if eq == pos + 1 {
                return Err(PropertyError::MissingParamKey(number));
            }
            let key = string_of_range(&s, pos + 1, eq);
            match read_values(&s, eq + 1, number) {
                Err(e) => {
                    return Err(e);
                },
                Ok((values, next)) => {
                    let ghost before = params.deep_view();
                    proof {
                        lemma_parse_values_bounds(s@, eq + 1, number, Seq::empty());
                    }
                    params.push((to_upper(key.as_str()), values));
                    assert(params.deep_view() =~= before.push(
                        (upper_of(s@.subrange(pos + 1, eq as int)), values.deep_view()),
                    ));
                    assert(eq + 1 <= next);
                    pos = next;
                },
            }
        }
        if pos >= n || s[pos] != ':' {
            return Err(PropertyError::MissingValue(number));
        }
        let name = string_of_range(&s, 0, end_name);
        let value = if pos + 1 == n {
            None
        } else {
            Some(string_of_range(&s, pos + 1, n))
        };
        Ok(Property { name: to_upper(name.as_str()), params, value })
    }

    /// The next property, or the fault in the next line; `None` when no line is
    /// left.
    pub fn next(&mut self) -> (r: Option<Result<Property, PropertyError>>)
        ensures
            final(self).bytes() == old(self).bytes(),
            old(self).remaining().len() == 0 ==> r is None && final(self).remaining().len() == 0,
            old(self).remaining().len() > 0 ==> r is Some && property_outcome(r->0) == old(
                self,
            ).remaining()[0] && final(self).remaining() == old(self).remaining().drop_first(),
    {
        let ghost lines = self.reader.remaining();
        let got = self.reader.next();
        proof {
            assert(self.reader.remaining().map_values(|raw: RawLine| tokenize_raw(raw))
                =~= lines.map_values(|raw: RawLine| tokenize_raw(raw)).drop_first()
                || lines.len() == 0);
        }
        match got {
            None => None,
            Some(Ok(line)) => Some(self.parse(line)),
            Some(Err(e)) => Some(Err(PropertyError::InvalidEncoding(e.number))),
        }
    }
}

/// The outcomes of splitting every logical line of `data`.
pub open spec fn properties_of(data: Seq<u8>) -> Seq<Result<PropertyView, PropertyError>> {
    crate::line::unfold(data).map_values(|raw: RawLine| tokenize_raw(raw))
}

} // verus!
