//! The URI that a request is handed on with.
use vstd::prelude::*;
use vstd::string::*;
use vstd::utf8::*;

use crate::outside;
use crate::outside::percent_encode;
use crate::text;

verus! {

/// The bytes that percent-encoding leaves as they are.
pub open spec fn is_plain(b: u8) -> bool {
    let c = b as char;
    ||| text::is_ascii_alphanumeric(c)
    ||| c == '-' || c == '.' || c == '_' || c == '~' || c == '!' || c == '$' || c == '\''
    ||| c == '(' || c == ')' || c == '*' || c == ',' || c == ';' || c == ':' || c == '@'
    ||| c == '[' || c == ']'
}

/// The upper-case hexadecimal digit of a number below sixteen.
pub open spec fn hex_digit(n: u8) -> char {
    if n < 10 {
        (48 + n) as char
    } else {
        (55 + n) as char
    }
}

/// A byte, percent-encoded.
pub open spec fn encoded_byte(b: u8) -> Seq<char> {
    if is_plain(b) {
        seq![b as char]
    } else {
        seq!['%', hex_digit(b / 16), hex_digit(b % 16)]
    }
}

/// A string of bytes, percent-encoded.
pub open spec fn encoded_bytes(bytes: Seq<u8>) -> Seq<char>
    decreases bytes.len(),
{
    if bytes.len() == 0 {
        Seq::empty()
    } else {
        encoded_byte(bytes[0]) + encoded_bytes(bytes.drop_first())
    }
}

/// The characters of a URI's path.
pub open spec fn is_path_char(c: char) -> bool {
    ||| text::is_ascii_alphanumeric(c)
    ||| c == '-' || c == '.' || c == '_' || c == '~' || c == '%' || c == '!' || c == '$'
    ||| '&' <= c <= ',' || c == ';' || c == '=' || c == ':' || c == '@' || c == '/'
    ||| c == '[' || c == ']'
}

/// The characters of a URI's query.
pub open spec fn is_query_char(c: char) -> bool {
    ||| is_path_char(c)
    ||| c == '?' || c == '{' || c == '}' || c == '\\' || c == '^' || c == '`' || c == '|'
}

/// Whether `s` is an absolute path, with or without a query.
pub open spec fn is_origin(s: Seq<char>) -> bool {
    let path = text::prefix_before(s, '?');
    &&& s.len() > 0 && s[0] == '/'
    &&& forall|i: int| 0 <= i < path.len() ==> is_path_char(#[trigger] path[i])
    &&& forall|i: int| path.len() < i < s.len() ==> is_query_char(#[trigger] s[i])
}


/// A parameter of a query: its key and one value.
pub type Param = (Seq<char>, Seq<char>);

/// A string, percent-encoded.
pub open spec fn encoded(s: Seq<char>) -> Seq<char> {
    encoded_bytes(encode_utf8(s))
}

/// Each of `values` as a parameter under `key`.
pub open spec fn key_params(key: Seq<char>, values: Seq<Seq<char>>) -> Seq<Param> {
    values.map_values(|value: Seq<char>| (key, value))
}

/// The parameters of keys that have any number of values.
pub open spec fn all_params(grouped: Seq<(Seq<char>, Seq<Seq<char>>)>) -> Seq<Param>
    decreases grouped.len(),
{
    if grouped.len() == 0 {
        Seq::empty()
    } else {
        all_params(grouped.drop_last()) + key_params(grouped.last().0, grouped.last().1)
    }
}

/// The character before a parameter that follows `n` others.
pub open spec fn separator(n: nat) -> char {
    if n == 0 {
        '?'
    } else {
        '&'
    }
}

/// A parameter as a URI has it.
pub open spec fn param_text(param: Param) -> Seq<char> {
    encoded(param.0) + seq!['='] + encoded(param.1)
}

/// The query of a URI, from its question mark on; nothing where there are no
/// parameters.
pub open spec fn query_text(params: Seq<Param>) -> Seq<char>
    decreases params.len(),
{
    if params.len() == 0 {
        Seq::empty()
    } else {
        query_text(params.drop_last()) + seq![separator((params.len() - 1) as nat)]
            + param_text(params.last())
    }
}

/// A path and the query that holds `params`.
pub open spec fn path_and_query(path: Seq<char>, params: Seq<Param>) -> Seq<char> {
    path + query_text(params)
}

/// The texts of keys and their values.
pub open spec fn grouped_texts(grouped: Seq<(String, Vec<String>)>) -> Seq<
    (Seq<char>, Seq<Seq<char>>),
> {
    grouped.map_values(|group: (String, Vec<String>)| (group.0@, text::texts(group.1@)))
}

/// The parameters that a query map holds, in the order of `keys`.
pub open spec fn walked_params(
    query: Map<Seq<char>, Seq<Seq<char>>>,
    keys: Seq<Seq<char>>,
) -> Seq<Param> {
    all_params(keys.map_values(|key: Seq<char>| (key, query[key])))
}

/// The number that a hexadecimal digit stands for.
pub open spec fn hex_value(digit: char) -> int {
    if '0' <= digit <= '9' {
        digit as int - '0' as int
    } else if 'A' <= digit <= 'F' {
        10 + digit as int - 'A' as int
    } else if 'a' <= digit <= 'f' {
        10 + digit as int - 'a' as int
    } else {
        0
    }
}

/// The bytes that a percent-encoded text stands for: two hexadecimal digits
/// behind a percent sign are one byte, every other character is its own.
pub open spec fn decoded_bytes(s: Seq<char>) -> Seq<u8>
    decreases s.len(),
{
    if s.len() == 0 {
        Seq::empty()
    } else if s[0] == '%' && s.len() >= 3 {
        seq![(16 * hex_value(s[1]) + hex_value(s[2])) as u8] + decoded_bytes(s.skip(3))
    } else {
        seq![s[0] as u8] + decoded_bytes(s.skip(1))
    }
}

/// The text that a percent-encoded text stands for.
pub open spec fn decoded(s: Seq<char>) -> Seq<char> {
    decode_utf8(decoded_bytes(s))
}

/// The pieces of a text between the separators `c`.
pub open spec fn split(s: Seq<char>, c: char) -> Seq<Seq<char>>
    decreases s.len(),
{
    if s.len() == 0 {
        seq![s]
    } else if s[0] == c {
        seq![Seq::empty()] + split(s.skip(1), c)
    } else {
        let rest = split(s.skip(1), c);
        rest.update(0, seq![s[0]] + rest[0])
    }
}

/// A piece of a query as a parameter: what stands before its equals sign and
/// what stands behind it, decoded.
pub open spec fn read_param(piece: Seq<char>) -> Param {
    let sides = split(piece, '=');
    (decoded(sides[0]), decoded(sides[1]))
}

/// The parameters that a reader finds in a query: between the question mark, the
/// ampersands and the equals signs stand keys and values, percent-encoded.
pub open spec fn read_query(query: Seq<char>) -> Seq<Param> {
    if query.len() == 0 {
        Seq::empty()
    } else {
        split(query.skip(1), '&').map_values(|piece: Seq<char>| read_param(piece))
    }
}

/// The values of one key, in the order in which the parameters have them.
pub open spec fn values_of(params: Seq<Param>, key: Seq<char>) -> Seq<Seq<char>> {
    params.filter(|param: Param| param.0 == key).map_values(|param: Param| param.1)
}

/// Whether a query escapes as little as it can: every character of it is a
/// letter, a digit, a mark or a separator, but for the percent signs, and behind
/// each percent sign stand two upper-case hexadecimal digits of a byte that is no
/// letter, no digit and no mark.
#[verifier::opaque]
pub open spec fn is_canonical(query: Seq<char>) -> bool {
    forall|i: int|
        0 <= i < query.len() ==> {
            let c = #[trigger] query[i];
            let escaped = (16 * hex_value(query[i + 1]) + hex_value(query[i + 2])) as char;
            ||| 'a' <= c <= 'z' || 'A' <= c <= 'Z' || '0' <= c <= '9'
            ||| "-._~!$'()*,;:@[]"@.contains(c)
            ||| c == '?' || c == '&' || c == '='
            ||| {
                &&& c == '%'
                &&& i + 2 < query.len()
                &&& '0' <= query[i + 1] <= '9' || 'A' <= query[i + 1] <= 'F'
                &&& '0' <= query[i + 2] <= '9' || 'A' <= query[i + 2] <= 'F'
                &&& !('a' <= escaped <= 'z' || 'A' <= escaped <= 'Z' || '0' <= escaped <= '9')
                &&& !"-._~!$'()*,;:@[]"@.contains(escaped)
            }
        }
}

/// Whether `uri` is `path` and behind it a query from which `query` is read
/// back: under each key that is found in it at all, the values of that key in
/// their order and next to each other, and all the keys where each has a value.
pub open spec fn is_read_back(
    uri: Seq<char>,
    path: Seq<char>,
    query: Map<Seq<char>, Seq<Seq<char>>>,
) -> bool {
    let rest = uri.skip(path.len() as int);
    let params = read_query(rest);
    &&& uri == path + rest
    &&& rest.len() > 0 ==> rest[0] == '?'
    &&& is_canonical(rest)
    &&& forall|i: int, j: int, k: int|
        0 <= i < j < k < params.len() && (#[trigger] params[i]).0 == (#[trigger] params[k]).0 ==> (
        #[trigger] params[j]).0 == params[i].0
    &&& forall|key: Seq<char>|
        (#[trigger] values_of(params, key)).len() > 0 ==> query.contains_key(key) && values_of(
            params,
            key,
        ) == query[key]
    &&& (forall|key: Seq<char>| #[trigger] query.contains_key(key) ==> query[key].len() > 0)
        ==> forall|key: Seq<char>|
        query.contains_key(key) ==> #[trigger] values_of(params, key) == query[key]
}

/// Appends a query with the values of each key, in their order, to a path.
pub fn append_query(path: String, grouped: &Vec<(String, Vec<String>)>) -> (uri: String)
    ensures
        uri@ == path_and_query(path@, all_params(grouped_texts(grouped@))),
        path@.len() <= uri@.len(),
        uri@.take(path@.len() as int) == path@,
        path@.len() < uri@.len() ==> uri@[path@.len() as int] == '?',
        is_canonical(uri@.skip(path@.len() as int)),
        read_query(uri@.skip(path@.len() as int)) == grouped@.map_values(
            |group: (String, Vec<String>)|
                group.1@.map_values(|value: String| (group.0@, value@)),
        ).flatten(),
{
    let ghost start = path@;
    let ghost groups = grouped_texts(grouped@);
    let ghost mut params: Seq<Param> = Seq::empty();
    let mut uri = path;
    let mut first = true;
    let mut i: usize = 0;
    proof {
        reveal_strlit("?");
        reveal_strlit("&");
        reveal_strlit("=");
        assert("?"@ =~= seq!['?']);
        assert("&"@ =~= seq!['&']);
        assert("="@ =~= seq!['=']);
        assert(groups.take(0) =~= Seq::empty());
        assert(uri@ =~= path_and_query(start, params));
    }
    while i < grouped.len()
        invariant
            i <= grouped@.len(),
            groups == grouped_texts(grouped@),
            params == all_params(groups.take(i as int)),
            uri@ == path_and_query(start, params),
            first == (params.len() == 0),
            "?"@ == seq!['?'],
            "&"@ == seq!['&'],
            "="@ == seq!['='],
        decreases grouped@.len() - i,
    {
        let key = &grouped[i].0;
        let values = &grouped[i].1;
        let ghost before = params;
        let ghost all = key_params(key@, text::texts(values@));
        let mut j: usize = 0;
        proof {
            assert(all.take(0) =~= Seq::empty());
            assert(before + all.take(0) =~= params);
        }
        while j < values.len()
            invariant
                j <= values@.len(),
                all == key_params(key@, text::texts(values@)),
                params == before + all.take(j as int),
                uri@ == path_and_query(start, params),
                first == (params.len() == 0),
                "?"@ == seq!['?'],
                "&"@ == seq!['&'],
                "="@ == seq!['='],
            decreases values@.len() - j,
        {
            let value = &values[j];
            if first {
                uri.append("?");
            } else {
                uri.append("&");
            }
            let encoded_key = percent_encode(key.as_str());
            let encoded_value = percent_encode(value.as_str());
            uri.append(encoded_key.as_str());
            uri.append("=");
            uri.append(encoded_value.as_str());
            first = false;
            proof {
                let param = (key@, value@);
                let next = params.push(param);
                assert(all[j as int] == param);
                assert(before + all.take(j + 1) =~= next);
                assert(next.drop_last() =~= params);
                assert(uri@ =~= path_and_query(start, next));
                params = next;
            }
            j = j + 1;
        }
        proof {
            assert(all.take(values@.len() as int) =~= all);
            assert(groups.take(i + 1).drop_last() =~= groups.take(i as int));
            assert(groups.take(i + 1).last() == (key@, text::texts(values@)));
        }
        i = i + 1;
    }
    proof {
        assert(groups.take(grouped@.len() as int) =~= groups);
        law_query_is_read_back(params);
        law_query_is_canonical(params);
        assert(uri@.take(start.len() as int) =~= start);
        assert(uri@.skip(start.len() as int) =~= query_text(params));
        if params.len() > 0 {
            assert(uri@[start.len() as int] == query_text(params)[0]);
        }
        lemma_params_of_groups(grouped@);
    }
    uri
}

/// The characters that keep the parts of a query apart.
pub open spec fn is_separator(c: char) -> bool {
    c == '?' || c == '&' || c == '='
}

/// An encoded byte holds no separator.
proof fn lemma_encoded_byte(b: u8)
    ensures
        forall|i: int|
            0 <= i < encoded_byte(b).len() ==> !is_separator(#[trigger] encoded_byte(b)[i]),
{
}

/// Percent-encoding leaves no separator in a text: what stands between two
/// separators of a query is one key or one value.
pub proof fn law_encoded_holds_no_separator(s: Seq<char>)
    ensures
        forall|i: int| 0 <= i < encoded(s).len() ==> !is_separator(#[trigger] encoded(s)[i]),
{
    lemma_encoded_bytes(encode_utf8(s));
}

proof fn lemma_encoded_bytes(bytes: Seq<u8>)
    ensures
        forall|i: int|
            0 <= i < encoded_bytes(bytes).len() ==> !is_separator(
                #[trigger] encoded_bytes(bytes)[i],
            ),
    decreases bytes.len(),
{
    if bytes.len() > 0 {
        lemma_encoded_byte(bytes[0]);
        lemma_encoded_bytes(bytes.drop_first());
        let head = encoded_byte(bytes[0]);
        let tail = encoded_bytes(bytes.drop_first());
        assert forall|i: int| 0 <= i < encoded_bytes(bytes).len() implies !is_separator(
            #[trigger] encoded_bytes(bytes)[i],
        ) by {
            if i < head.len() {
                assert(encoded_bytes(bytes)[i] == head[i]);
            } else {
                assert(encoded_bytes(bytes)[i] == tail[i - head.len()]);
            }
        }
    }
}

/// No two numbers below sixteen have one hexadecimal digit.
proof fn lemma_hex_digit_injective(m: u8, n: u8)
    requires
        m < 16,
        n < 16,
        hex_digit(m) == hex_digit(n),
    ensures
        m == n,
{
}

/// Two bytes that are not plain have one encoding only where they are the same.
proof fn lemma_escaped_byte_injective(a: u8, b: u8)
    requires
        hex_digit(a / 16) == hex_digit(b / 16),
        hex_digit(a % 16) == hex_digit(b % 16),
    ensures
        a == b,
{
    lemma_hex_digit_injective(a / 16, b / 16);
    lemma_hex_digit_injective(a % 16, b % 16);
}

/// The encodings of two bytes agree in what follows only where the bytes do.
#[verifier::spinoff_prover]
proof fn lemma_encoded_byte_prefix(a: u8, b: u8, s: Seq<char>, t: Seq<char>)
    requires
        encoded_byte(a) + s == encoded_byte(b) + t,
    ensures
        a == b,
        s == t,
{
    let x = encoded_byte(a) + s;
    let y = encoded_byte(b) + t;
    assert(x[0] == encoded_byte(a)[0]);
    assert(y[0] == encoded_byte(b)[0]);
    assert(is_plain(a) == is_plain(b));
    if !is_plain(a) {
        assert(x[1] == encoded_byte(a)[1] && x[2] == encoded_byte(a)[2]);
        assert(y[1] == encoded_byte(b)[1] && y[2] == encoded_byte(b)[2]);
        lemma_escaped_byte_injective(a, b);
    }
    let n = encoded_byte(a).len() as int;
    assert(s =~= x.skip(n));
    assert(t =~= y.skip(n));
}

proof fn lemma_encoded_bytes_injective(a: Seq<u8>, b: Seq<u8>)
    requires
        encoded_bytes(a) == encoded_bytes(b),
    ensures
        a == b,
    decreases a.len(),
{
    if a.len() == 0 || b.len() == 0 {
        assert(encoded_bytes(a).len() == 0);
        assert(a.len() == 0 && b.len() == 0);
        assert(a =~= b);
    } else {
        lemma_encoded_byte_prefix(
            a[0],
            b[0],
            encoded_bytes(a.drop_first()),
            encoded_bytes(b.drop_first()),
        );
        lemma_encoded_bytes_injective(a.drop_first(), b.drop_first());
        assert(a =~= seq![a[0]] + a.drop_first());
        assert(b =~= seq![b[0]] + b.drop_first());
    }
}

/// No two texts have the same percent-encoding.
pub proof fn law_encoding_is_injective(a: Seq<char>, b: Seq<char>)
    requires
        encoded(a) == encoded(b),
    ensures
        a == b,
{
    lemma_encoded_bytes_injective(encode_utf8(a), encode_utf8(b));
    encode_utf8_decode_utf8(a);
    encode_utf8_decode_utf8(b);
}

/// A text falls apart in one way at its last separator.
proof fn lemma_last_separator(
    s: Seq<char>,
    c: char,
    x: Seq<char>,
    t: Seq<char>,
    d: char,
    y: Seq<char>,
)
    requires
        s + seq![c] + x == t + seq![d] + y,
        is_separator(c),
        is_separator(d),
        forall|i: int| 0 <= i < x.len() ==> !is_separator(#[trigger] x[i]),
        forall|i: int| 0 <= i < y.len() ==> !is_separator(#[trigger] y[i]),
    ensures
        s == t,
        c == d,
        x == y,
{
    let left = s + seq![c] + x;
    let right = t + seq![d] + y;
    assert(left.len() == s.len() + 1 + x.len());
    assert(right.len() == t.len() + 1 + y.len());
    assert(left[s.len() as int] == c);
    assert(right[t.len() as int] == d);
    if s.len() < t.len() {
        assert(left[t.len() as int] == x[t.len() - s.len() - 1]);
    }
    if t.len() < s.len() {
        assert(right[s.len() as int] == y[s.len() - t.len() - 1]);
    }
    assert(s =~= left.take(s.len() as int));
    assert(t =~= right.take(t.len() as int));
    assert(x =~= left.skip(s.len() as int + 1));
    assert(y =~= right.skip(t.len() as int + 1));
}

/// A query determines its parameters: no two lists of parameters are written
/// as the same query.
pub proof fn law_query_determines_params(a: Seq<Param>, b: Seq<Param>)
    requires
        query_text(a) == query_text(b),
    ensures
        a == b,
    decreases a.len(),
{
    if a.len() == 0 || b.len() == 0 {
        assert(a =~= b);
    } else {
        let p = a.last();
        let q = b.last();
        let c = separator((a.len() - 1) as nat);
        let d = separator((b.len() - 1) as nat);
        let s = query_text(a.drop_last());
        let t = query_text(b.drop_last());
        law_encoded_holds_no_separator(p.0);
        law_encoded_holds_no_separator(p.1);
        law_encoded_holds_no_separator(q.0);
        law_encoded_holds_no_separator(q.1);
        let front_a = s + seq![c] + encoded(p.0);
        let front_b = t + seq![d] + encoded(q.0);
        assert(query_text(a) =~= front_a + seq!['='] + encoded(p.1));
        assert(query_text(b) =~= front_b + seq!['='] + encoded(q.1));
        lemma_last_separator(front_a, '=', encoded(p.1), front_b, '=', encoded(q.1));
        lemma_last_separator(s, c, encoded(p.0), t, d, encoded(q.0));
        law_encoding_is_injective(p.0, q.0);
        law_encoding_is_injective(p.1, q.1);
        law_query_determines_params(a.drop_last(), b.drop_last());
        assert(a =~= a.drop_last().push(p));
        assert(b =~= b.drop_last().push(q));
    }
}

/// A URI keeps its path, and determines the parameters that were appended to
/// the path.
pub proof fn law_uri_determines_params(path: Seq<char>, a: Seq<Param>, b: Seq<Param>)
    ensures
        path_and_query(path, a).take(path.len() as int) == path,
        path_and_query(path, a) == path_and_query(path, b) ==> a == b,
{
    let left = path_and_query(path, a);
    let right = path_and_query(path, b);
    assert(left.take(path.len() as int) =~= path);
    if left == right {
        assert(query_text(a) =~= left.skip(path.len() as int));
        assert(query_text(b) =~= right.skip(path.len() as int));
        law_query_determines_params(a, b);
    }
}

proof fn lemma_all_params_contains(
    grouped: Seq<(Seq<char>, Seq<Seq<char>>)>,
    i: int,
    j: int,
)
    requires
        0 <= i < grouped.len(),
        0 <= j < grouped[i].1.len(),
    ensures
        all_params(grouped).contains((grouped[i].0, grouped[i].1[j])),
    decreases grouped.len(),
{
    let rest = all_params(grouped.drop_last());
    let last = key_params(grouped.last().0, grouped.last().1);
    if i == grouped.len() - 1 {
        assert(all_params(grouped)[rest.len() + j] == last[j]);
    } else {
        lemma_all_params_contains(grouped.drop_last(), i, j);
        let k = choose|k: int|
            0 <= k < rest.len() && rest[k] == (grouped[i].0, grouped[i].1[j]);
        assert(all_params(grouped)[k] == rest[k]);
    }
}

proof fn lemma_all_params_only(grouped: Seq<(Seq<char>, Seq<Seq<char>>)>, param: Param)
    requires
        all_params(grouped).contains(param),
    ensures
        exists|i: int|
            0 <= i < grouped.len() && (#[trigger] grouped[i]).0 == param.0 && grouped[i].1.contains(
                param.1,
            ),
    decreases grouped.len(),
{
    if grouped.len() > 0 {
        let rest = all_params(grouped.drop_last());
        let last = key_params(grouped.last().0, grouped.last().1);
        let k = choose|k: int|
            0 <= k < all_params(grouped).len() && all_params(grouped)[k] == param;
        if k < rest.len() {
            assert(rest[k] == param);
            lemma_all_params_only(grouped.drop_last(), param);
            let i = choose|i: int|
                0 <= i < grouped.drop_last().len() && (#[trigger] grouped.drop_last()[i]).0
                    == param.0 && grouped.drop_last()[i].1.contains(param.1);
            assert(grouped[i] == grouped.drop_last()[i]);
        } else {
            assert(last[k - rest.len()] == param);
            assert(grouped.last().1[k - rest.len()] == param.1);
            assert(grouped[grouped.len() - 1].1.contains(param.1));
        }
    }
}

/// Where each key of a query has a value, a walk over the query loses no value
/// and adds none, in whatever order it meets the keys.
pub proof fn law_walk_keeps_every_value(
    query: Map<Seq<char>, Seq<Seq<char>>>,
    keys: Seq<Seq<char>>,
    param: Param,
)
    requires
        outside::is_walk(query, keys),
        forall|key: Seq<char>| #[trigger] query.contains_key(key) ==> query[key].len() > 0,
    ensures
        walked_params(query, keys).contains(param) <==> query.contains_key(param.0)
            && query[param.0].contains(param.1),
{
    let grouped = keys.map_values(|key: Seq<char>| (key, query[key]));
    if walked_params(query, keys).contains(param) {
        lemma_all_params_only(grouped, param);
        let i = choose|i: int|
            0 <= i < grouped.len() && (#[trigger] grouped[i]).0 == param.0 && grouped[i].1.contains(
                param.1,
            );
        assert(grouped[i] == (keys[i], query[keys[i]]));
    }
    if query.contains_key(param.0) && query[param.0].contains(param.1) {
        assert(keys.contains(param.0));
        let i = choose|i: int| 0 <= i < keys.len() && keys[i] == param.0;
        let j = choose|j: int| 0 <= j < query[param.0].len() && query[param.0][j] == param.1;
        assert(grouped[i] == (keys[i], query[keys[i]]));
        lemma_all_params_contains(grouped, i, j);
    }
}

proof fn lemma_decoded_byte(b: u8, rest: Seq<char>)
    ensures
        decoded_bytes(encoded_byte(b) + rest) == seq![b] + decoded_bytes(rest),
{
    let s = encoded_byte(b) + rest;
    assert(s[0] == encoded_byte(b)[0]);
    if is_plain(b) {
        assert(s.skip(1) =~= rest);
        assert(s[0] != '%' && s[0] as u8 == b);
    } else {
        assert(s[1] == hex_digit(b / 16) && s[2] == hex_digit(b % 16));
        assert(hex_value(hex_digit(b / 16)) == b / 16);
        assert(hex_value(hex_digit(b % 16)) == b % 16);
        assert(s.skip(3) =~= rest);
    }
}

proof fn lemma_decoded_bytes(bytes: Seq<u8>)
    ensures
        decoded_bytes(encoded_bytes(bytes)) == bytes,
    decreases bytes.len(),
{
    if bytes.len() > 0 {
        lemma_decoded_byte(bytes[0], encoded_bytes(bytes.drop_first()));
        lemma_decoded_bytes(bytes.drop_first());
        assert(bytes =~= seq![bytes[0]] + bytes.drop_first());
    } else {
        assert(bytes =~= Seq::empty());
    }
}

/// Decoding a percent-encoded text gives the text back.
pub proof fn law_encoding_is_decoded(s: Seq<char>)
    ensures
        decoded(encoded(s)) == s,
{
    lemma_decoded_bytes(encode_utf8(s));
    encode_utf8_decode_utf8(s);
}

/// A text without a separator is one piece.
proof fn lemma_split_none(s: Seq<char>, c: char)
    requires
        forall|i: int| 0 <= i < s.len() ==> #[trigger] s[i] != c,
    ensures
        split(s, c) == seq![s],
    decreases s.len(),
{
    if s.len() > 0 {
        lemma_split_none(s.skip(1), c);
        assert(seq![s[0]] + s.skip(1) =~= s);
        assert(split(s, c) =~= seq![s]);
    }
}

/// There is always a piece.
proof fn lemma_split_len(s: Seq<char>, c: char)
    ensures
        split(s, c).len() > 0,
    decreases s.len(),
{
    if s.len() > 0 {
        lemma_split_len(s.skip(1), c);
    }
}

/// A separator ends a piece: what follows it is split on its own.
proof fn lemma_split_concat(a: Seq<char>, c: char, b: Seq<char>)
    ensures
        split(a + seq![c] + b, c) == split(a, c) + split(b, c),
    decreases a.len(),
{
    let s = a + seq![c] + b;
    if a.len() == 0 {
        assert(s[0] == c);
        assert(s.skip(1) =~= b);
        assert(split(a, c) =~= seq![Seq::<char>::empty()]) by {
            assert(a =~= Seq::empty());
        }
    } else {
        let rest = split(a.skip(1), c);
        lemma_split_concat(a.skip(1), c, b);
        lemma_split_len(a.skip(1), c);
        assert(s[0] == a[0]);
        assert(s.skip(1) =~= a.skip(1) + seq![c] + b);
        if a[0] == c {
            assert(split(s, c) =~= split(a, c) + split(b, c));
        } else {
            let all = rest + split(b, c);
            assert(all[0] == rest[0]);
            assert(all.update(0, seq![a[0]] + all[0]) =~= rest.update(0, seq![a[0]] + rest[0])
                + split(b, c));
        }
    }
}

/// A parameter is read back.
proof fn lemma_param_is_read_back(param: Param)
    ensures
        read_param(param_text(param)) == param,
        forall|i: int|
            0 <= i < param_text(param).len() ==> #[trigger] param_text(param)[i] != '&',
{
    let key = encoded(param.0);
    let value = encoded(param.1);
    let text = param_text(param);
    law_encoded_holds_no_separator(param.0);
    law_encoded_holds_no_separator(param.1);
    lemma_split_concat(key, '=', value);
    lemma_split_none(key, '=');
    lemma_split_none(value, '=');
    law_encoding_is_decoded(param.0);
    law_encoding_is_decoded(param.1);
    assert forall|i: int| 0 <= i < text.len() implies #[trigger] text[i] != '&' by {
        if i < key.len() {
            assert(text[i] == key[i]);
        } else if i > key.len() {
            assert(text[i] == value[i - key.len() - 1]);
        }
    }
}

/// Reading a query gives back the parameters that it was written of, each as
/// often as it was written, and in the order in which they were.
pub proof fn law_query_is_read_back(params: Seq<Param>)
    ensures
        read_query(query_text(params)) == params,
        params.len() == 0 <==> query_text(params).len() == 0,
        params.len() > 0 ==> query_text(params)[0] == '?',
    decreases params.len(),
{
    if params.len() == 0 {
        assert(params =~= Seq::empty());
    } else {
        let front = params.drop_last();
        let param = params.last();
        let query = query_text(params);
        let before = query_text(front);
        let piece = param_text(param);
        law_query_is_read_back(front);
        lemma_param_is_read_back(param);
        lemma_split_none(piece, '&');
        if front.len() == 0 {
            assert(query.skip(1) =~= piece);
        } else {
            assert(query.skip(1) =~= before.skip(1) + seq!['&'] + piece);
            assert(query[0] == before[0]);
            lemma_split_concat(before.skip(1), '&', piece);
        }
        assert(read_query(query) =~= front.push(param));
        assert(params =~= front.push(param));
    }
}

/// A URI of a path and parameters starts with the path, and behind the path
/// stands a query from which the parameters are read back.
pub proof fn law_uri_is_read_back(path: Seq<char>, params: Seq<Param>)
    ensures
        ({
            let uri = path_and_query(path, params);
            let query = uri.skip(path.len() as int);
            &&& uri.len() >= path.len()
            &&& uri.take(path.len() as int) == path
            &&& read_query(query) == params
            &&& is_canonical(query)
            &&& query.len() == 0 <==> params.len() == 0
            &&& query.len() > 0 ==> query[0] == '?'
        }),
{
    let uri = path_and_query(path, params);
    law_query_is_read_back(params);
    law_query_is_canonical(params);
    assert(uri.take(path.len() as int) =~= path);
    assert(uri.skip(path.len() as int) =~= query_text(params));
}

proof fn lemma_params_of_groups(grouped: Seq<(String, Vec<String>)>)
    ensures
        all_params(grouped_texts(grouped)) == grouped.map_values(
            |group: (String, Vec<String>)|
                group.1@.map_values(|value: String| (group.0@, value@)),
        ).flatten(),
    decreases grouped.len(),
{
    let params_of = |group: (String, Vec<String>)|
        group.1@.map_values(|value: String| (group.0@, value@));
    let lists = grouped.map_values(params_of);
    lists.lemma_flatten_and_flatten_alt_are_equivalent();
    if grouped.len() > 0 {
        let front = grouped.drop_last();
        lemma_params_of_groups(front);
        front.map_values(params_of).lemma_flatten_and_flatten_alt_are_equivalent();
        assert(lists.drop_last() =~= front.map_values(params_of));
        assert(grouped_texts(grouped).drop_last() =~= grouped_texts(front));
        let group = grouped.last();
        assert(grouped_texts(grouped).last() == (group.0@, text::texts(group.1@)));
        assert(key_params(group.0@, text::texts(group.1@)) =~= params_of(group));
    }
}

/// The values of a key among the parameters of one key.
proof fn lemma_values_of_key(key: Seq<char>, values: Seq<Seq<char>>, wanted: Seq<char>)
    ensures
        values_of(key_params(key, values), wanted) == if key == wanted {
            values
        } else {
            Seq::empty()
        },
    decreases values.len(),
{
    reveal(Seq::filter);
    let params = key_params(key, values);
    let wanted_param = |param: Param| param.0 == wanted;
    if values.len() > 0 {
        let front = key_params(key, values.drop_last());
        lemma_values_of_key(key, values.drop_last(), wanted);
        assert(params.drop_last() =~= front);
        assert(params.last() == (key, values.last()));
        if key == wanted {
            assert(params.filter(wanted_param) == front.filter(wanted_param).push(params.last()));
            assert(values_of(params, wanted) =~= values_of(front, wanted).push(values.last()));
            assert(values =~= values.drop_last().push(values.last()));
        } else {
            assert(params.filter(wanted_param) == front.filter(wanted_param));
        }
    } else {
        assert(params.filter(wanted_param).len() == 0);
        assert(values_of(params, wanted) =~= Seq::empty());
        assert(values =~= Seq::empty());
    }
}

proof fn lemma_values_of_concat(a: Seq<Param>, b: Seq<Param>, key: Seq<char>)
    ensures
        values_of(a + b, key) == values_of(a, key) + values_of(b, key),
{
    Seq::filter_distributes_over_add(a, b, |param: Param| param.0 == key);
    assert(values_of(a + b, key) =~= values_of(a, key) + values_of(b, key));
}

/// Of each key that a walk meets, the parameters hold the values that the query
/// has, as often and in the order in which it has them; of no other key do they
/// hold any.
pub proof fn law_walk_keeps_the_values_of_a_key(
    query: Map<Seq<char>, Seq<Seq<char>>>,
    keys: Seq<Seq<char>>,
    key: Seq<char>,
)
    requires
        keys.no_duplicates(),
    ensures
        keys.contains(key) ==> values_of(walked_params(query, keys), key) == query[key],
        !keys.contains(key) ==> values_of(walked_params(query, keys), key).len() == 0,
    decreases keys.len(),
{
    let group_of = |key: Seq<char>| (key, query[key]);
    if keys.len() == 0 {
        reveal(Seq::filter);
    } else {
        let front = keys.drop_last();
        let last = keys.last();
        assert forall|i: int, j: int|
            0 <= i < front.len() && 0 <= j < front.len() && i != j implies front[i] != front[j] by {
            assert(keys[i] != keys[j]);
        }
        law_walk_keeps_the_values_of_a_key(query, front, key);
        assert(keys.map_values(group_of).drop_last() =~= front.map_values(group_of));
        lemma_values_of_concat(walked_params(query, front), key_params(last, query[last]), key);
        lemma_values_of_key(last, query[last], key);
        if front.contains(key) {
            let i = choose|i: int| 0 <= i < front.len() && front[i] == key;
            assert(keys[i] == key && keys[i] != last);
        } else if keys.contains(key) {
            let i = choose|i: int| 0 <= i < keys.len() && keys[i] == key;
            if i < front.len() {
                assert(front[i] == key);
            }
        } else {
            assert(keys[keys.len() - 1] == last);
        }
        assert(values_of(walked_params(query, keys), key) =~= values_of(
            walked_params(query, front),
            key,
        ) + values_of(key_params(last, query[last]), key));
    }
}

/// The parameters of one key stand next to each other.
pub proof fn law_walk_keeps_the_values_together(
    query: Map<Seq<char>, Seq<Seq<char>>>,
    keys: Seq<Seq<char>>,
    i: int,
    j: int,
    k: int,
)
    requires
        keys.no_duplicates(),
        0 <= i < j < k < walked_params(query, keys).len(),
        walked_params(query, keys)[i].0 == walked_params(query, keys)[k].0,
    ensures
        walked_params(query, keys)[j].0 == walked_params(query, keys)[i].0,
    decreases keys.len(),
{
    let group_of = |key: Seq<char>| (key, query[key]);
    let front = keys.drop_last();
    let last = keys.last();
    let all = walked_params(query, keys);
    let rest = walked_params(query, front);
    assert(keys.map_values(group_of).drop_last() =~= front.map_values(group_of));
    assert(all =~= rest + key_params(last, query[last]));
    if k < rest.len() {
        assert forall|x: int, y: int|
            0 <= x < front.len() && 0 <= y < front.len() && x != y implies front[x] != front[y] by {
            assert(keys[x] != keys[y]);
        }
        assert(all[i] == rest[i] && all[j] == rest[j] && all[k] == rest[k]);
        law_walk_keeps_the_values_together(query, front, i, j, k);
    } else if i < rest.len() {
        assert(all[i] == rest[i]);
        assert(rest.contains(rest[i]));
        lemma_all_params_only(front.map_values(group_of), rest[i]);
        let x = choose|x: int|
            0 <= x < front.len() && (#[trigger] front.map_values(group_of)[x]).0 == rest[i].0
                && front.map_values(group_of)[x].1.contains(rest[i].1);
        assert(keys[x] == last);
        assert(keys[keys.len() - 1] == last);
    }
}

/// The characters besides letters and digits that stand for themselves in a
/// percent-encoded text.
pub open spec fn marks() -> Seq<char> {
    "-._~!$'()*,;:@[]"@
}

/// The plain bytes are the ASCII letters and digits and the marks.
proof fn lemma_plain(b: u8)
    ensures
        is_plain(b) <==> (text::is_ascii_alphanumeric(b as char) || marks().contains(b as char)),
{
    reveal_strlit("-._~!$'()*,;:@[]");
    let marks = marks();
    assert(marks.len() == 16);
    assert(marks[0] == '-' && marks[1] == '.' && marks[2] == '_' && marks[3] == '~'
        && marks[4] == '!' && marks[5] == '$' && marks[6] == '\'' && marks[7] == '('
        && marks[8] == ')' && marks[9] == '*' && marks[10] == ',' && marks[11] == ';'
        && marks[12] == ':' && marks[13] == '@' && marks[14] == '[' && marks[15] == ']');
}

/// Percent-encoding changes as little as it can: every character of the encoding
/// is a letter, a digit or a mark, but for the percent signs, and behind each
/// percent sign stand two upper-case hexadecimal digits of a byte that is none of
/// these.
pub proof fn law_encoding_is_canonical(s: Seq<char>, i: int)
    requires
        0 <= i < encoded(s).len(),
    ensures
        ({
            let c = encoded(s)[i];
            ||| 'a' <= c <= 'z' || 'A' <= c <= 'Z' || '0' <= c <= '9'
            ||| "-._~!$'()*,;:@[]"@.contains(c)
            ||| c == '%'
        }),
        encoded(s)[i] == '%' ==> {
            let high = encoded(s)[i + 1];
            let low = encoded(s)[i + 2];
            let c = (16 * hex_value(high) + hex_value(low)) as char;
            &&& i + 2 < encoded(s).len()
            &&& '0' <= high <= '9' || 'A' <= high <= 'F'
            &&& '0' <= low <= '9' || 'A' <= low <= 'F'
            &&& !('a' <= c <= 'z' || 'A' <= c <= 'Z' || '0' <= c <= '9')
            &&& !"-._~!$'()*,;:@[]"@.contains(c)
        },
{
    lemma_encoding_is_canonical(encode_utf8(s), i);
}

proof fn lemma_canonical_concat(a: Seq<char>, b: Seq<char>)
    requires
        is_canonical(a),
        is_canonical(b),
    ensures
        is_canonical(a + b),
{
    reveal(is_canonical);
    let all = a + b;
    assert forall|i: int| 0 <= i < all.len() implies {
        let c = #[trigger] all[i];
        let escaped = (16 * hex_value(all[i + 1]) + hex_value(all[i + 2])) as char;
        ||| 'a' <= c <= 'z' || 'A' <= c <= 'Z' || '0' <= c <= '9'
        ||| "-._~!$'()*,;:@[]"@.contains(c)
        ||| c == '?' || c == '&' || c == '='
        ||| {
            &&& c == '%'
            &&& i + 2 < all.len()
            &&& '0' <= all[i + 1] <= '9' || 'A' <= all[i + 1] <= 'F'
            &&& '0' <= all[i + 2] <= '9' || 'A' <= all[i + 2] <= 'F'
            &&& !('a' <= escaped <= 'z' || 'A' <= escaped <= 'Z' || '0' <= escaped <= '9')
            &&& !"-._~!$'()*,;:@[]"@.contains(escaped)
        }
    } by {
        if i < a.len() {
            assert(all[i] == a[i]);
            if i + 2 < a.len() {
                assert(all[i + 1] == a[i + 1] && all[i + 2] == a[i + 2]);
            }
        } else {
            let j = i - a.len();
            assert(all[i] == b[j]);
            if j + 2 < b.len() {
                assert(all[i + 1] == b[j + 1] && all[i + 2] == b[j + 2]);
            }
        }
    }
}

/// The query of a URI escapes as little as it can.
pub proof fn law_query_is_canonical(params: Seq<Param>)
    ensures
        is_canonical(query_text(params)),
    decreases params.len(),
{
    assert(is_canonical(Seq::empty()) && is_canonical(seq!['?']) && is_canonical(seq!['&'])
        && is_canonical(seq!['='])) by {
        reveal(is_canonical);
    }
    if params.len() > 0 {
        let front = query_text(params.drop_last());
        let separator = seq![separator((params.len() - 1) as nat)];
        let key = encoded(params.last().0);
        let value = encoded(params.last().1);
        law_query_is_canonical(params.drop_last());
        lemma_encoded_is_canonical(params.last().0);
        lemma_encoded_is_canonical(params.last().1);
        lemma_canonical_concat(front, separator);
        lemma_canonical_concat(key, seq!['=']);
        lemma_canonical_concat(key + seq!['='], value);
        lemma_canonical_concat(front + separator, key + seq!['='] + value);
        assert(query_text(params) =~= front + separator + (key + seq!['='] + value));
    }
}

proof fn lemma_encoded_is_canonical(s: Seq<char>)
    ensures
        is_canonical(encoded(s)),
{
    reveal(is_canonical);
    let all = encoded(s);
    assert forall|i: int| 0 <= i < all.len() implies {
        let c = #[trigger] all[i];
        let escaped = (16 * hex_value(all[i + 1]) + hex_value(all[i + 2])) as char;
        ||| 'a' <= c <= 'z' || 'A' <= c <= 'Z' || '0' <= c <= '9'
        ||| "-._~!$'()*,;:@[]"@.contains(c)
        ||| c == '?' || c == '&' || c == '='
        ||| {
            &&& c == '%'
            &&& i + 2 < all.len()
            &&& '0' <= all[i + 1] <= '9' || 'A' <= all[i + 1] <= 'F'
            &&& '0' <= all[i + 2] <= '9' || 'A' <= all[i + 2] <= 'F'
            &&& !('a' <= escaped <= 'z' || 'A' <= escaped <= 'Z' || '0' <= escaped <= '9')
            &&& !"-._~!$'()*,;:@[]"@.contains(escaped)
        }
    } by {
        law_encoding_is_canonical(s, i);
    }
}

proof fn lemma_encoding_is_canonical(bytes: Seq<u8>, i: int)
    requires
        0 <= i < encoded_bytes(bytes).len(),
    ensures
        ({
            let c = encoded_bytes(bytes)[i];
            text::is_ascii_alphanumeric(c) || marks().contains(c) || c == '%'
        }),
        encoded_bytes(bytes)[i] == '%' ==> {
            let high = encoded_bytes(bytes)[i + 1];
            let low = encoded_bytes(bytes)[i + 2];
            let c = (16 * hex_value(high) + hex_value(low)) as char;
            &&& i + 2 < encoded_bytes(bytes).len()
            &&& '0' <= high <= '9' || 'A' <= high <= 'F'
            &&& '0' <= low <= '9' || 'A' <= low <= 'F'
            &&& !text::is_ascii_alphanumeric(c)
            &&& !marks().contains(c)
        },
    decreases bytes.len(),
{
    let b = bytes[0];
    let head = encoded_byte(b);
    let tail = encoded_bytes(bytes.drop_first());
    let all = encoded_bytes(bytes);
    if i < head.len() {
        lemma_plain(b);
        assert(all[i] == head[i]);
        if !is_plain(b) && i == 0 {
            assert(all[1] == head[1] && all[2] == head[2]);
            assert(hex_value(hex_digit(b / 16)) == b / 16);
            assert(hex_value(hex_digit(b % 16)) == b % 16);
        }
    } else {
        lemma_encoding_is_canonical(bytes.drop_first(), i - head.len());
        assert(all[i] == tail[i - head.len()]);
        assert(all[i] == '%' ==> all[i + 1] == tail[i - head.len() + 1] && all[i + 2] == tail[i
            - head.len() + 2]);
    }
}

/// A path is an absolute path where it starts with a slash and holds nothing but
/// the characters of paths; with a query behind a question mark it still is one
/// where the query holds nothing but the characters of queries.
pub proof fn law_origins(path: Seq<char>, query: Seq<char>)
    requires
        !path.contains('?'),
    ensures
        is_origin(path) <==> {
            &&& path.len() > 0 && path[0] == '/'
            &&& forall|i: int|
                0 <= i < path.len()
                    ==> 'a' <= #[trigger] path[i] <= 'z' || 'A' <= path[i] <= 'Z'
                    || '0' <= path[i] <= '9' || "-._~%!$&'()*+,;=:@/[]"@.contains(path[i])
        },
        is_origin(path + seq!['?'] + query) <==> is_origin(path) && forall|i: int|
            0 <= i < query.len()
                ==> 'a' <= #[trigger] query[i] <= 'z' || 'A' <= query[i] <= 'Z'
                || '0' <= query[i] <= '9' || "-._~%!$&'()*+,;=:@/[]"@.contains(query[i])
                || "?{}\\^`|"@.contains(query[i]),
{
    let whole = path + seq!['?'] + query;
    text::law_cut_at_the_first(path, '?', query);
    assert forall|c: char| (#[trigger] is_path_char(c))
        <==> ('a' <= c <= 'z' || 'A' <= c <= 'Z' || '0' <= c <= '9'
        || "-._~%!$&'()*+,;=:@/[]"@.contains(c)) by {
        lemma_path_char(c);
    }
    assert forall|c: char| (#[trigger] is_query_char(c))
        <==> ('a' <= c <= 'z' || 'A' <= c <= 'Z' || '0' <= c <= '9'
        || "-._~%!$&'()*+,;=:@/[]"@.contains(c) || "?{}\\^`|"@.contains(c)) by {
        lemma_path_char(c);
    }
    assert(is_origin(path) <==> path.len() > 0 && path[0] == '/' && forall|i: int|
        0 <= i < path.len() ==> is_path_char(#[trigger] path[i]));
    assert(path.len() > 0 ==> whole[0] == path[0]);
    assert(path.len() == 0 ==> whole[0] == '?');
    assert forall|i: int| 0 <= i < query.len() implies whole[path.len() + 1 + i]
        == #[trigger] query[i] by {}
    assert forall|i: int| path.len() < i < whole.len() implies #[trigger] whole[i] == query[i
        - path.len() - 1] by {}
    assert(is_origin(whole) <==> is_origin(path) && forall|i: int|
        0 <= i < query.len() ==> is_query_char(#[trigger] query[i])) by {
        if is_origin(whole) {
            assert forall|i: int| 0 <= i < query.len() implies is_query_char(
                #[trigger] query[i],
            ) by {
                assert(is_query_char(whole[path.len() + 1 + i]));
            }
        }
    }
}

/// The characters of paths and of queries, one by one.
proof fn lemma_path_char(c: char)
    ensures
        is_path_char(c)
            <==> ('a' <= c <= 'z' || 'A' <= c <= 'Z' || '0' <= c <= '9'
            || "-._~%!$&'()*+,;=:@/[]"@.contains(c)),
        is_query_char(c)
            <==> ('a' <= c <= 'z' || 'A' <= c <= 'Z' || '0' <= c <= '9'
            || "-._~%!$&'()*+,;=:@/[]"@.contains(c) || "?{}\\^`|"@.contains(c)),
{
    reveal_strlit("-._~%!$&'()*+,;=:@/[]");
    reveal_strlit("?{}\\^`|");
    let of_paths = "-._~%!$&'()*+,;=:@/[]"@;
    let of_queries = "?{}\\^`|"@;
    assert(of_paths.len() == 21);
    assert(of_paths[0] == '-' && of_paths[1] == '.' && of_paths[2] == '_' && of_paths[3] == '~'
        && of_paths[4] == '%' && of_paths[5] == '!' && of_paths[6] == '$' && of_paths[7] == '&'
        && of_paths[8] == '\'' && of_paths[9] == '(' && of_paths[10] == ')'
        && of_paths[11] == '*' && of_paths[12] == '+' && of_paths[13] == ','
        && of_paths[14] == ';' && of_paths[15] == '=' && of_paths[16] == ':'
        && of_paths[17] == '@' && of_paths[18] == '/' && of_paths[19] == '['
        && of_paths[20] == ']');
    assert(of_queries.len() == 7);
    assert(of_queries[0] == '?' && of_queries[1] == '{' && of_queries[2] == '}'
        && of_queries[3] == '\\' && of_queries[4] == '^' && of_queries[5] == '`'
        && of_queries[6] == '|');
}

} // verus!
