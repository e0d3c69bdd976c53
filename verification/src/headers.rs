//! What a header may hold, and how headers are looked up.
use vstd::prelude::*;

use crate::text;

verus! {

/// A header as its name and the bytes of its value.
pub type HeaderEntry = (Seq<char>, Seq<u8>);

/// The headers of a list of names and values.
pub open spec fn entries_of(list: Seq<(String, Vec<u8>)>) -> Seq<HeaderEntry> {
    list.map_values(|header: (String, Vec<u8>)| (header.0@, header.1@))
}

/// The characters that a header name may hold.
pub open spec fn is_header_name_char(c: char) -> bool {
    ||| text::is_ascii_alphanumeric(c)
    ||| '!' <= c <= '\''
    ||| c == '*' || c == '+' || c == '-' || c == '.'
    ||| c == '^' || c == '_' || c == '`' || c == '|' || c == '~'
}

/// The longest header name, in characters.
pub const MAX_HEADER_NAME_LEN: usize = 65535;

/// The header name that `name` stands for: `name` in lower case, where it is
/// a header name at all.
pub open spec fn header_name(name: Seq<char>) -> Option<Seq<char>> {
    if 0 < name.len() <= MAX_HEADER_NAME_LEN && (forall|i: int|
        0 <= i < name.len() ==> is_header_name_char(#[trigger] name[i])) {
        Some(text::ascii_lowercase(name))
    } else {
        None
    }
}

/// Whether `value` may be the value of a header: it holds no control
/// character but the tab.
pub open spec fn is_header_value(value: Seq<char>) -> bool {
    forall|i: int|
        0 <= i < value.len() ==> {
            let c = #[trigger] value[i];
            c == '\t' || (' ' <= c && c != '\u{7f}')
        }
}

/// Whether a byte of a header's value is a visible ASCII character, a space or
/// a tab.
pub open spec fn is_visible(b: u8) -> bool {
    32 <= b < 127 || b == 9
}

/// Whether the value of a header can be read as text.
pub open spec fn is_text(value: Seq<u8>) -> bool {
    forall|i: int| 0 <= i < value.len() ==> is_visible(#[trigger] value[i])
}

/// The text of a header's value that can be read as text.
pub open spec fn value_as_text(value: Seq<u8>) -> Seq<char> {
    value.map_values(|b: u8| b as char)
}

/// The headers called `name`, in their order.
pub open spec fn named(entries: Seq<HeaderEntry>, name: Seq<char>) -> Seq<HeaderEntry> {
    entries.filter(|entry: HeaderEntry| entry.0 == name)
}

/// Whether two lists hold the same headers, with the values of each name in
/// the same order.
pub open spec fn same_headers(a: Seq<HeaderEntry>, b: Seq<HeaderEntry>) -> bool {
    forall|name: Seq<char>| #[trigger] named(a, name) == named(b, name)
}

/// The value of the first header called `name`, whatever the case of its
/// letters.
pub open spec fn first_value(
    entries: Seq<(Seq<char>, Seq<char>)>,
    name: Seq<char>,
) -> Option<Seq<char>>
    decreases entries.len(),
{
    if entries.len() == 0 {
        None
    } else if text::same_uncased(entries[0].0, name) {
        Some(entries[0].1)
    } else {
        first_value(entries.drop_first(), name)
    }
}

/// The headers of a list are its own one for one, in its order.
pub proof fn law_entries_are_one_for_one(list: Seq<(String, Vec<u8>)>)
    ensures
        entries_of(list).len() == list.len(),
        forall|i: int|
            0 <= i < list.len() ==> (#[trigger] entries_of(list)[i]).0 == list[i].0@
                && entries_of(list)[i].1 == list[i].1@,
{
}

/// A name is a header name where it is neither empty nor too long and holds
/// nothing but ASCII letters, digits and these marks, and it is then the name in
/// lower case.
pub proof fn law_header_names(name: Seq<char>)
    ensures
        header_name(name) is Some <==> {
            &&& 1 <= name.len() <= 65535
            &&& forall|i: int|
                0 <= i < name.len() ==> 'a' <= #[trigger] name[i] <= 'z' || 'A' <= name[i] <= 'Z'
                    || '0' <= name[i] <= '9' || "!\"#$%&'*+-.^_`|~"@.contains(name[i])
        },
        header_name(name) is Some ==> header_name(name) == Some(text::ascii_lowercase(name)),
{
    assert forall|c: char| #[trigger] is_header_name_char(c) <==> 'a' <= c <= 'z' || 'A' <= c
        <= 'Z' || '0' <= c <= '9' || "!\"#$%&'*+-.^_`|~"@.contains(c) by {
        reveal_strlit("!\"#$%&'*+-.^_`|~");
        let marks = "!\"#$%&'*+-.^_`|~"@;
        assert(marks.len() == 16);
        assert(marks[0] == '!' && marks[1] == '"' && marks[2] == '#' && marks[3] == '$'
            && marks[4] == '%' && marks[5] == '&' && marks[6] == '\'' && marks[7] == '*'
            && marks[8] == '+' && marks[9] == '-' && marks[10] == '.' && marks[11] == '^'
            && marks[12] == '_' && marks[13] == '`' && marks[14] == '|' && marks[15] == '~');
    }
    if forall|i: int|
        0 <= i < name.len() ==> 'a' <= #[trigger] name[i] <= 'z' || 'A' <= name[i] <= 'Z' || '0'
            <= name[i] <= '9' || "!\"#$%&'*+-.^_`|~"@.contains(name[i]) {
        assert(forall|i: int| 0 <= i < name.len() ==> is_header_name_char(#[trigger] name[i]));
    }
    if forall|i: int| 0 <= i < name.len() ==> is_header_name_char(#[trigger] name[i]) {
        assert forall|i: int| 0 <= i < name.len() implies 'a' <= #[trigger] name[i] <= 'z' || 'A'
            <= name[i] <= 'Z' || '0' <= name[i] <= '9'
                || "!\"#$%&'*+-.^_`|~"@.contains(name[i]) by {
            assert(is_header_name_char(name[i]));
        }
    }
}

/// A text is the value of a header where none of its characters is a control
/// character, or a tab at most.
pub proof fn law_header_values(value: Seq<char>)
    ensures
        is_header_value(value) <==> forall|i: int|
            0 <= i < value.len() ==> #[trigger] value[i] as int == 9 || (value[i] as int >= 32
                && value[i] as int != 127),
{
}

/// Lists with the same headers hold under each name the same values, as often
/// and in the same order, and so no header that the other one does not hold.
pub proof fn law_same_headers_hold_the_same(
    a: Seq<HeaderEntry>,
    b: Seq<HeaderEntry>,
    entry: HeaderEntry,
)
    requires
        same_headers(a, b),
    ensures
        a.filter(|other: HeaderEntry| other.0 == entry.0) == b.filter(
            |other: HeaderEntry| other.0 == entry.0,
        ),
        a.contains(entry) <==> b.contains(entry),
{
    let called = |other: HeaderEntry| other.0 == entry.0;
    assert(named(a, entry.0) == named(b, entry.0));
    assert(a.filter(called) == b.filter(called));
    lemma_filter_contains(a, entry);
    lemma_filter_contains(b, entry);
}

proof fn lemma_filter_contains(entries: Seq<HeaderEntry>, entry: HeaderEntry)
    ensures
        entries.contains(entry) <==> named(entries, entry.0).contains(entry),
{
    let called = |other: HeaderEntry| other.0 == entry.0;
    broadcast use vstd::seq_lib::group_filter_ensures;

    let found = entries.filter(called);
    if entries.contains(entry) {
        let i = choose|i: int| 0 <= i < entries.len() && entries[i] == entry;
        assert(called(entries[i]));
        assert(found.contains(entries[i]));
    }
    if found.contains(entry) {
        let i = choose|i: int| 0 <= i < found.len() && found[i] == entry;
        entries.lemma_filter_contains_rev(called, found[i]);
    }
}

} // verus!
