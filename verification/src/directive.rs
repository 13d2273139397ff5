//! The grammar of a `Cache-Control` value: directives separated by commas,
//! each a name that `=` may part from a value, and the search for the first
//! directive named `max-age`.

use crate::text::{
    all_space, ascii_lower, decimal, eq_ignore_ascii_case, find_char, index_of, is_digit, is_space,
    lacks, lemma_decimal_value, lemma_index_of, lemma_index_of_after, lemma_parse_decimal,
    lemma_trim_padded, parse_u64, read_u64, to_ascii_lower, trim, trim_bounds,
};
use vstd::prelude::*;

verus! {

/// What a `Cache-Control` value says about `max-age`.
#[derive(Clone, Copy, Debug, PartialEq, Eq)]
pub enum MaxAge {
    /// No directive is named `max-age`.
    Absent,
    /// The first `max-age` directive has no `=`.
    Bare,
    /// The first `max-age` directive has nothing but whitespace after its `=`.
    Empty,
    /// The value of the first `max-age` directive is no number of seconds.
    Malformed,
    /// The value of the first `max-age` directive, in seconds.
    Seconds(u64),
}

/// The parts of `s` between the occurrences of `sep`: one more part than
/// there are separators.
pub open spec fn split(s: Seq<char>, sep: char) -> Seq<Seq<char>>
    decreases s.len(),
{
    let at = index_of(s, sep);
    if 0 <= at < s.len() {
        seq![s.take(at)] + split(s.skip(at + 1), sep)
    } else {
        seq![s]
    }
}

/// The name that a directive is compared by.
pub open spec fn max_age_name() -> Seq<char> {
    seq!['m', 'a', 'x', '-', 'a', 'g', 'e']
}

/// The name of a directive: what stands before its first `=`, trimmed.
pub open spec fn directive_name(directive: Seq<char>) -> Seq<char> {
    trim(directive.take(index_of(directive, '=')))
}

/// The value of a directive: what stands after its first `=`, trimmed; none
/// where it has no `=`.
pub open spec fn directive_value(directive: Seq<char>) -> Option<Seq<char>> {
    let at = index_of(directive, '=');
    if 0 <= at < directive.len() {
        Some(trim(directive.skip(at + 1)))
    } else {
        None
    }
}

/// Whether a directive is named `max-age`, in any case of the letters.
pub open spec fn names_max_age(directive: Seq<char>) -> bool {
    eq_ignore_ascii_case(directive_name(directive), max_age_name())
}

/// What a directive's value says as a number of seconds.
pub open spec fn seconds_of(value: Option<Seq<char>>) -> MaxAge {
    match value {
        None => MaxAge::Bare,
        Some(text) => if text.len() == 0 {
            MaxAge::Empty
        } else {
            match parse_u64(text) {
                Some(seconds) => MaxAge::Seconds(seconds),
                None => MaxAge::Malformed,
            }
        },
    }
}

/// What the first directive named `max-age` says; later ones are not read.
pub open spec fn first_max_age(directives: Seq<Seq<char>>) -> MaxAge
    decreases directives.len(),
{
    if directives.len() == 0 {
        MaxAge::Absent
    } else if names_max_age(directives[0]) {
        seconds_of(directive_value(directives[0]))
    } else {
        first_max_age(directives.skip(1))
    }
}

/// What the `Cache-Control` value `value` says about `max-age`.
pub open spec fn max_age(value: Seq<char>) -> MaxAge {
    first_max_age(split(value, ','))
}

/// Whether a byte of a header value is printable ASCII or a tab.
pub open spec fn is_visible_ascii(byte: u8) -> bool {
    32 <= byte < 127 || byte == 9
}

/// The text of a header value: its bytes as characters, where each is
/// printable ASCII or a tab; none where one is not.
pub open spec fn header_text(bytes: Seq<u8>) -> Option<Seq<char>> {
    if forall|i: int| 0 <= i < bytes.len() ==> is_visible_ascii(#[trigger] bytes[i]) {
        Some(Seq::new(bytes.len(), |i: int| bytes[i] as char))
    } else {
        None
    }
}

/// Reads the bytes of a header value as text, or finds a byte that no text
/// of a header may hold.
pub fn read_header_text(bytes: &[u8]) -> (text: Option<Vec<char>>)
    ensures
        match text {
            Some(chars) => header_text(bytes@) == Some(chars@),
            None => header_text(bytes@) is None,
        },
{
    let mut chars: Vec<char> = Vec::new();
    let mut at: usize = 0;
    while at < bytes.len()
        invariant
            at <= bytes.len(),
            chars@.len() == at,
            forall|i: int| 0 <= i < at ==> is_visible_ascii(#[trigger] bytes@[i]),
            forall|i: int| 0 <= i < at ==> chars@[i] == bytes@[i] as char,
        decreases bytes.len() - at,
    {
        let byte: u8 = bytes[at];
        if !((32 <= byte && byte < 127) || byte == 9) {
            assert(!is_visible_ascii(bytes@[at as int]));
            return None;
        }
        chars.push(byte as char);
        at += 1;
    }
    assert(chars@ =~= Seq::new(bytes@.len(), |i: int| bytes@[i] as char));
    Some(chars)
}

/// Tells whether `chars[from..to]` is `max-age` in any case of the letters.
fn is_max_age_name(chars: &[char], from: usize, to: usize) -> (b: bool)
    requires
        from <= to <= chars.len(),
    ensures
        b == eq_ignore_ascii_case(chars@.subrange(from as int, to as int), max_age_name()),
{
    let want: [char; 7] = ['m', 'a', 'x', '-', 'a', 'g', 'e'];
    let ghost name = chars@.subrange(from as int, to as int);
    assert(want@ =~= max_age_name());
    if to - from != 7 {
        return false;
    }
    let mut at: usize = 0;
    while at < 7
        invariant
            at <= 7,
            from + 7 == to <= chars.len(),
            name == chars@.subrange(from as int, to as int),
            want@ == max_age_name(),
            forall|i: int| 0 <= i < at ==> ascii_lower(#[trigger] name[i]) == ascii_lower(want@[i]),
        decreases 7 - at,
    {
        assert(name[at as int] == chars@[from + at]);
        assert(ascii_lower(want@[at as int]) == want@[at as int]);
        if to_ascii_lower(chars[from + at]) != want[at] {
            return false;
        }
        at += 1;
    }
    true
}

/// Reads a `Cache-Control` value, directive by directive, up to the first one
/// named `max-age`.
pub fn find_max_age(chars: &[char]) -> (found: MaxAge)
    ensures
        found == max_age(chars@),
{
    let len: usize = chars.len();
    let mut start: usize = 0;
    assert(chars@.skip(0) =~= chars@);
    loop
        invariant
            start <= len == chars.len(),
            max_age(chars@) == first_max_age(split(chars@.skip(start as int), ',')),
        decreases len - start,
    {
        let ghost rest = chars@.skip(start as int);
        assert(rest =~= chars@.subrange(start as int, len as int));
        let end: usize = find_char(chars, start, len, ',');
        let ghost directive = chars@.subrange(start as int, end as int);
        let ghost later = if end < len {
            split(chars@.skip(end + 1), ',')
        } else {
            Seq::<Seq<char>>::empty()
        };
        proof {
            lemma_index_of(rest, ',');
            assert(rest.take(end - start) =~= directive);
            if end < len {
                assert(rest.skip(end - start + 1) =~= chars@.skip(end + 1));
            } else {
                assert(directive =~= rest);
            }
            let parts = split(rest, ',');
            assert(parts =~= seq![directive] + later);
            assert(parts[0] == directive);
            assert(parts.skip(1) =~= later);
        }
        let eq: usize = find_char(chars, start, end, '=');
        let (name_from, name_to) = trim_bounds(chars, start, eq);
        proof {
            lemma_index_of(directive, '=');
            assert(directive.take(eq - start) =~= chars@.subrange(start as int, eq as int));
        }
        if is_max_age_name(chars, name_from, name_to) {
            if eq == end {
                return MaxAge::Bare;
            }
            let (value_from, value_to) = trim_bounds(chars, eq + 1, end);
            proof {
                assert(directive.skip(eq - start + 1) =~= chars@.subrange(eq + 1, end as int));
            }
            if value_from == value_to {
                return MaxAge::Empty;
            }
            return match read_u64(chars, value_from, value_to) {
                Some(seconds) => MaxAge::Seconds(seconds),
                None => MaxAge::Malformed,
            };
        }
        if end == len {
            assert(first_max_age(later) == MaxAge::Absent);
            return MaxAge::Absent;
        }
        start = end + 1;
    }
}

/// The texts of `parts` written one after another with `sep` between them.
pub open spec fn join(parts: Seq<Seq<char>>, sep: char) -> Seq<char>
    decreases parts.len(),
{
    if parts.len() == 0 {
        Seq::empty()
    } else if parts.len() == 1 {
        parts[0]
    } else {
        parts[0] + seq![sep] + join(parts.skip(1), sep)
    }
}

/// Splitting undoes joining: texts that hold no separator come back as they
/// were written, in their order.
pub proof fn lemma_split_join(parts: Seq<Seq<char>>, sep: char)
    requires
        parts.len() > 0,
        forall|i: int| 0 <= i < parts.len() ==> lacks(#[trigger] parts[i], sep),
    ensures
        split(join(parts, sep), sep) == parts,
    decreases parts.len(),
{
    let whole = join(parts, sep);
    if parts.len() == 1 {
        lemma_index_of_after(parts[0], sep, Seq::empty());
        assert(split(whole, sep) =~= parts);
    } else {
        let rest = parts.skip(1);
        assert forall|i: int| 0 <= i < rest.len() implies lacks(#[trigger] rest[i], sep) by {
            assert(rest[i] == parts[i + 1]);
        }
        lemma_split_join(rest, sep);
        lemma_index_of_after(parts[0], sep, join(rest, sep));
        let at = parts[0].len() as int;
        assert(whole.take(at) =~= parts[0]);
        assert(whole.skip(at + 1) =~= join(rest, sep));
        assert(split(whole, sep) =~= seq![parts[0]] + rest);
        assert(seq![parts[0]] + rest =~= parts);
    }
}

/// Directives that are not named `max-age` are passed over: the first one
/// that is decides, whatever follows it.
pub proof fn lemma_first_max_age_at(directives: Seq<Seq<char>>, at: int)
    requires
        0 <= at < directives.len(),
        forall|i: int| 0 <= i < at ==> !names_max_age(#[trigger] directives[i]),
        names_max_age(directives[at]),
    ensures
        first_max_age(directives) == seconds_of(directive_value(directives[at])),
    decreases at,
{
    if at > 0 {
        let rest = directives.skip(1);
        assert(!names_max_age(directives[0]));
        assert forall|i: int| 0 <= i < at - 1 implies !names_max_age(#[trigger] rest[i]) by {
            assert(rest[i] == directives[i + 1]);
        }
        assert(rest[at - 1] == directives[at]);
        lemma_first_max_age_at(rest, at - 1);
    }
}

/// Where no directive is named `max-age`, none is found.
pub proof fn lemma_first_max_age_absent(directives: Seq<Seq<char>>)
    requires
        forall|i: int| 0 <= i < directives.len() ==> !names_max_age(#[trigger] directives[i]),
    ensures
        first_max_age(directives) == MaxAge::Absent,
    decreases directives.len(),
{
    if directives.len() > 0 {
        let rest = directives.skip(1);
        assert(!names_max_age(directives[0]));
        assert forall|i: int| 0 <= i < rest.len() implies !names_max_age(#[trigger] rest[i]) by {
            assert(rest[i] == directives[i + 1]);
        }
        lemma_first_max_age_absent(rest);
    }
}

/// A directive written as a name, `=` and a value, with any whitespace round
/// the name and round the value.
pub open spec fn written(
    name: Seq<char>,
    value: Seq<char>,
    pad: (Seq<char>, Seq<char>, Seq<char>, Seq<char>),
) -> Seq<char> {
    pad.0 + name + pad.1 + seq!['='] + pad.2 + value + pad.3
}

/// A name that reads `max-age` in any case of the letters holds neither
/// whitespace nor `=` nor a comma.
pub proof fn lemma_name_is_plain(name: Seq<char>)
    requires
        eq_ignore_ascii_case(name, max_age_name()),
    ensures
        name.len() == 7,
        lacks(name, '='),
        lacks(name, ','),
        forall|i: int| 0 <= i < name.len() ==> !is_space(#[trigger] name[i]),
{
    let want = max_age_name();
    assert forall|i: int| 0 <= i < name.len() implies name[i] != '=' && name[i] != ','
        && !is_space(#[trigger] name[i]) by {
        assert(ascii_lower(name[i]) == ascii_lower(want[i]));
        assert(i == 0 || i == 1 || i == 2 || i == 3 || i == 4 || i == 5 || i == 6);
    }
}

/// The decimal numeral of a number holds neither whitespace nor `=` nor a
/// comma, and is not empty.
pub proof fn lemma_decimal_is_plain(n: nat)
    ensures
        decimal(n).len() > 0,
        lacks(decimal(n), '='),
        lacks(decimal(n), ','),
        forall|i: int| 0 <= i < decimal(n).len() ==> !is_space(#[trigger] decimal(n)[i]),
{
    lemma_decimal_value(n);
    let d = decimal(n);
    assert forall|i: int| 0 <= i < d.len() implies d[i] != '=' && d[i] != ',' && !is_space(
        #[trigger] d[i],
    ) by {
        assert(is_digit(d[i]));
    }
}

/// A directive written as `max-age`, `=` and the decimal numeral of a number
/// of seconds that fits in 64 bits is named `max-age`, holds no comma and
/// says that number, whatever the case of the letters and whatever
/// whitespace stands round the name and the numeral.
pub proof fn lemma_written_max_age(
    name: Seq<char>,
    seconds: nat,
    pad: (Seq<char>, Seq<char>, Seq<char>, Seq<char>),
)
    requires
        eq_ignore_ascii_case(name, max_age_name()),
        seconds <= u64::MAX,
        all_space(pad.0),
        all_space(pad.1),
        all_space(pad.2),
        all_space(pad.3),
    ensures
        names_max_age(written(name, decimal(seconds), pad)),
        seconds_of(directive_value(written(name, decimal(seconds), pad))) == MaxAge::Seconds(
            seconds as u64,
        ),
        lacks(written(name, decimal(seconds), pad), ','),
{
    let value = decimal(seconds);
    let directive = written(name, value, pad);
    let head = pad.0 + name + pad.1;
    let tail = pad.2 + value + pad.3;
    lemma_name_is_plain(name);
    lemma_decimal_is_plain(seconds);
    lemma_parse_decimal(seconds);
    assert(directive =~= head + seq!['='] + tail);
    assert forall|i: int| 0 <= i < head.len() implies #[trigger] head[i] != '=' && head[i]
        != ',' by {
        if i < pad.0.len() {
            assert(head[i] == pad.0[i]);
            assert(is_space(pad.0[i]));
        } else if i < pad.0.len() + name.len() {
            assert(head[i] == name[i - pad.0.len()]);
        } else {
            assert(head[i] == pad.1[i - pad.0.len() - name.len()]);
            assert(is_space(pad.1[i - pad.0.len() - name.len()]));
        }
    }
    assert forall|i: int| 0 <= i < tail.len() implies #[trigger] tail[i] != ',' by {
        if i < pad.2.len() {
            assert(tail[i] == pad.2[i]);
            assert(is_space(pad.2[i]));
        } else if i < pad.2.len() + value.len() {
            assert(tail[i] == value[i - pad.2.len()]);
        } else {
            assert(tail[i] == pad.3[i - pad.2.len() - value.len()]);
            assert(is_space(pad.3[i - pad.2.len() - value.len()]));
        }
    }
    lemma_index_of_after(head, '=', tail);
    let at = head.len() as int;
    assert(directive.take(at) =~= head);
    assert(directive.skip(at + 1) =~= tail);
    lemma_trim_padded(pad.0, name, pad.1);
    lemma_trim_padded(pad.2, value, pad.3);
    assert forall|i: int| 0 <= i < directive.len() implies #[trigger] directive[i] != ',' by {
        if i < at {
            assert(directive[i] == head[i]);
        } else if i > at {
            assert(directive[i] == tail[i - at - 1]);
        }
    }
}

/// Among directives without commas, joined by commas, the first one named
/// `max-age` decides what the whole value says, whatever the others are and
/// in whatever order they stand.
pub proof fn lemma_max_age_of_joined(directives: Seq<Seq<char>>, at: int)
    requires
        0 <= at < directives.len(),
        forall|i: int| 0 <= i < directives.len() ==> lacks(#[trigger] directives[i], ','),
        forall|i: int| 0 <= i < at ==> !names_max_age(#[trigger] directives[i]),
        names_max_age(directives[at]),
    ensures
        max_age(join(directives, ',')) == seconds_of(directive_value(directives[at])),
{
    lemma_split_join(directives, ',');
    lemma_first_max_age_at(directives, at);
}

/// A value that holds the directive `max-age=N`, with `N` the decimal numeral
/// of a number of seconds that fits in 64 bits, says exactly that number,
/// whatever directives stand before and after it, so long as none before it
/// is named `max-age` too.
pub proof fn lemma_max_age_is_read(
    before: Seq<Seq<char>>,
    name: Seq<char>,
    seconds: nat,
    pad: (Seq<char>, Seq<char>, Seq<char>, Seq<char>),
    after: Seq<Seq<char>>,
)
    requires
        forall|i: int| 0 <= i < before.len() ==> lacks(#[trigger] before[i], ','),
        forall|i: int| 0 <= i < before.len() ==> !names_max_age(#[trigger] before[i]),
        forall|i: int| 0 <= i < after.len() ==> lacks(#[trigger] after[i], ','),
        eq_ignore_ascii_case(name, max_age_name()),
        seconds <= u64::MAX,
        all_space(pad.0),
        all_space(pad.1),
        all_space(pad.2),
        all_space(pad.3),
    ensures
        max_age(
            join(before + seq![written(name, decimal(seconds), pad)] + after, ','),
        ) == MaxAge::Seconds(seconds as u64),
{
    let directive = written(name, decimal(seconds), pad);
    let directives = before + seq![directive] + after;
    let at = before.len() as int;
    lemma_written_max_age(name, seconds, pad);
    assert(directives[at] == directive);
    assert forall|i: int| 0 <= i < directives.len() implies lacks(#[trigger] directives[i], ',') by {
        if i < at {
            assert(directives[i] == before[i]);
        } else if i > at {
            assert(directives[i] == after[i - at - 1]);
        }
    }
    assert forall|i: int| 0 <= i < at implies !names_max_age(#[trigger] directives[i]) by {
        assert(directives[i] == before[i]);
    }
    lemma_max_age_of_joined(directives, at);
}

/// A value none of whose directives is named `max-age` says nothing of it.
pub proof fn lemma_max_age_absent(directives: Seq<Seq<char>>)
    requires
        directives.len() > 0,
        forall|i: int| 0 <= i < directives.len() ==> lacks(#[trigger] directives[i], ','),
        forall|i: int| 0 <= i < directives.len() ==> !names_max_age(#[trigger] directives[i]),
    ensures
        max_age(join(directives, ',')) == MaxAge::Absent,
{
    lemma_split_join(directives, ',');
    lemma_first_max_age_absent(directives);
}

} // verus!
