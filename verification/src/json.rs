use vstd::prelude::*;

verus! {

/// The lower-case hexadecimal digit of `d` (`0 <= d < 16`).
pub open spec fn hex_digit(d: int) -> char {
    if d < 10 {
        (48 + d) as char
    } else {
        (87 + d) as char
    }
}

/// How a JSON string literal writes the character `c`: quotes, backslashes
/// and control characters are escaped, every other character stands as it is.
pub open spec fn json_escape_char(c: char) -> Seq<char> {
    if c == '"' {
        seq!['\\', '"']
    } else if c == '\\' {
        seq!['\\', '\\']
    } else if c == '\x08' {
        seq!['\\', 'b']
    } else if c == '\x0c' {
        seq!['\\', 'f']
    } else if c == '\n' {
        seq!['\\', 'n']
    } else if c == '\r' {
        seq!['\\', 'r']
    } else if c == '\t' {
        seq!['\\', 't']
    } else if (c as u32) < 0x20 {
        seq!['\\', 'u', '0', '0', hex_digit((c as int) / 16), hex_digit((c as int) % 16)]
    } else {
        seq![c]
    }
}

/// The escaped characters of `s`.
pub open spec fn json_escaped(s: Seq<char>) -> Seq<char>
    decreases s.len(),
{
    if s.len() == 0 {
        seq![]
    } else {
        json_escaped(s.drop_last()) + json_escape_char(s.last())
    }
}

/// The JSON string literal of `s`.
pub open spec fn json_string(s: Seq<char>) -> Seq<char> {
    seq!['"'] + json_escaped(s) + seq!['"']
}

/// The decimal digits of the natural number `n`.
pub open spec fn decimal_digits(n: nat) -> Seq<char>
    decreases n,
{
    if n < 10 {
        seq![(48 + n) as char]
    } else {
        decimal_digits(n / 10).push((48 + n % 10) as char)
    }
}

/// The decimal text of the integer `n`, with a leading `-` when negative.
pub open spec fn decimal_text(n: int) -> Seq<char> {
    if n < 0 {
        seq!['-'] + decimal_digits((-n) as nat)
    } else {
        decimal_digits(n as nat)
    }
}

/// The JSON text of a boolean.
pub open spec fn json_bool(b: bool) -> Seq<char> {
    if b {
        "true"@
    } else {
        "false"@
    }
}

/// `parts` joined by `sep`.
pub open spec fn join(parts: Seq<Seq<char>>, sep: Seq<char>) -> Seq<char>
    decreases parts.len(),
{
    if parts.len() == 0 {
        seq![]
    } else if parts.len() == 1 {
        parts[0]
    } else {
        join(parts.drop_last(), sep) + sep + parts.last()
    }
}

/// The order of Rust's `String`: byte-wise on UTF-8, which orders texts as
/// their sequences of code points, a proper prefix first.
pub open spec fn text_lt(a: Seq<char>, b: Seq<char>) -> bool
    decreases a.len(),
{
    if a.len() == 0 {
        b.len() > 0
    } else if b.len() == 0 {
        false
    } else if a[0] != b[0] {
        (a[0] as u32) < (b[0] as u32)
    } else {
        text_lt(a.drop_first(), b.drop_first())
    }
}

/// Whether the keys of `members` ascend strictly in the order of `String`, as
/// the keys of a `serde_json` map are written.
pub open spec fn keys_ascending(members: Seq<(Seq<char>, Seq<char>)>) -> bool {
    forall|i: int, j: int| 0 <= i < j < members.len() ==> text_lt(#[trigger] members[i].0, #[trigger] members[j].0)
}

/// The member text of the first member of `members` with key `key`, if any.
pub open spec fn json_member(members: Seq<(Seq<char>, Seq<char>)>, key: Seq<char>) -> Option<Seq<char>>
    decreases members.len(),
{
    if members.len() == 0 {
        None
    } else if members[0].0 == key {
        Some(members[0].1)
    } else {
        json_member(members.drop_first(), key)
    }
}

/// The order of `String` is transitive.
pub proof fn lemma_text_lt_transitive(a: Seq<char>, b: Seq<char>, c: Seq<char>)
    requires
        text_lt(a, b),
        text_lt(b, c),
    ensures
        text_lt(a, c),
    decreases a.len(),
{
    if a.len() > 0 && b.len() > 0 && c.len() > 0 && a[0] == b[0] && b[0] == c[0] {
        lemma_text_lt_transitive(a.drop_first(), b.drop_first(), c.drop_first());
    }
}

/// Keys that ascend from each member to the next ascend throughout.
pub proof fn lemma_keys_ascending_from_neighbours(members: Seq<(Seq<char>, Seq<char>)>)
    requires
        forall|i: int| 0 <= i < members.len() - 1 ==> text_lt(#[trigger] members[i].0, members[i + 1].0),
    ensures
        keys_ascending(members),
{
    assert forall|i: int, j: int| 0 <= i < j < members.len() implies text_lt(
        #[trigger] members[i].0,
        #[trigger] members[j].0,
    ) by {
        lemma_keys_chain(members, i, j);
    }
}

proof fn lemma_keys_chain(members: Seq<(Seq<char>, Seq<char>)>, i: int, j: int)
    requires
        forall|k: int| 0 <= k < members.len() - 1 ==> text_lt(#[trigger] members[k].0, members[k + 1].0),
        0 <= i < j < members.len(),
    ensures
        text_lt(members[i].0, members[j].0),
    decreases j - i,
{
    if j > i + 1 {
        lemma_keys_chain(members, i, j - 1);
        assert(text_lt(members[j - 1].0, members[j].0));
        lemma_text_lt_transitive(members[i].0, members[j - 1].0, members[j].0);
    }
}

/// The compact JSON text of an object whose members are the given key and
/// member text pairs, in the given order.
pub open spec fn json_object(members: Seq<(Seq<char>, Seq<char>)>) -> Seq<char> {
    seq!['{'] + join(members.map_values(|m: (Seq<char>, Seq<char>)| json_string(m.0) + seq![':'] + m.1), seq![','])
        + seq!['}']
}

/// The compact JSON text of an array whose items have the given texts.
pub open spec fn json_array(items: Seq<Seq<char>>) -> Seq<char> {
    seq!['['] + join(items, seq![',']) + seq![']']
}

/// Calls `serde_json`'s serialization of a string (`Value::String(..).to_string()`).
/// Trusted: the text is the quoted literal that `json_string` describes, as
/// the escape table in `serde_json`'s serializer shows.
#[verifier::external_body]
pub(crate) fn quote(s: &str) -> (text: String)
    ensures
        text@ == json_string(s@),
{
    serde_json::Value::String(s.to_owned()).to_string()
}

/// Calls `serde_json`'s serialization of an integer (`Value::from(n).to_string()`).
/// Trusted: the text is the decimal numeral of `n`, with `-` when negative.
#[verifier::external_body]
pub(crate) fn integer(n: i64) -> (text: String)
    ensures
        text@ == decimal_text(n as int),
{
    serde_json::Value::from(n).to_string()
}

/// The JSON text of a boolean.
pub fn boolean(b: bool) -> (text: String)
    ensures
        text@ == json_bool(b),
{
    if b {
        "true".to_owned()
    } else {
        "false".to_owned()
    }
}

/// `parts` joined by `sep`.
pub fn join_texts(parts: &Vec<String>, sep: &str) -> (text: String)
    ensures
        text@ == join(parts@.map_values(|p: String| p@), sep@),
{
    let ghost views = parts@.map_values(|p: String| p@);
    let mut text = String::new();
    let mut i: usize = 0;
    while i < parts.len()
        invariant
            i <= parts@.len(),
            views == parts@.map_values(|p: String| p@),
            text@ == join(views.subrange(0, i as int), sep@),
        decreases parts@.len() - i,
    {
        proof {
            let next = views.subrange(0, i as int + 1);
            assert(next.drop_last() =~= views.subrange(0, i as int));
            assert(next.last() == parts@[i as int]@);
            if i == 0 {
                assert(text@ =~= Seq::<char>::empty());
            }
        }
        if i > 0 {
            text.append(sep);
        }
        text.append(parts[i].as_str());
        proof {
            let next = views.subrange(0, i as int + 1);
            if i == 0 {
                assert(next.len() == 1);
                assert(text@ =~= next[0]);
            }
        }
        i = i + 1;
    }
    proof {
        assert(views.subrange(0, parts@.len() as int) =~= views);
    }
    text
}

/// The JSON text of an object whose members are `(key, member text)` pairs,
/// given in ascending key order, the order in which a `serde_json` map
/// writes them.
pub fn object(members: &Vec<(&str, String)>) -> (text: String)
    requires
        keys_ascending(members@.map_values(|m: (&str, String)| (m.0@, m.1@))),
    ensures
        text@ == json_object(members@.map_values(|m: (&str, String)| (m.0@, m.1@))),
{
    let ghost ms = members@.map_values(|m: (&str, String)| (m.0@, m.1@));
    let mut parts: Vec<String> = Vec::new();
    let mut i: usize = 0;
    while i < members.len()
        invariant
            i <= members@.len(),
            ms == members@.map_values(|m: (&str, String)| (m.0@, m.1@)),
            parts@.len() == i,
            forall|k: int|
                0 <= k < i ==> (#[trigger] parts@[k])@ == json_string(ms[k].0) + seq![':'] + ms[k].1,
        decreases members@.len() - i,
    {
        let mut part = quote(members[i].0);
        part.append(":");
        part.append(members[i].1.as_str());
        proof {
            reveal_strlit(":");
            assert(":"@ =~= seq![':']);
        }
        parts.push(part);
        i = i + 1;
    }
    let mut text = "{".to_owned();
    let inner = join_texts(&parts, ",");
    text.append(inner.as_str());
    text.append("}");
    proof {
        reveal_strlit("{");
        reveal_strlit("}");
        reveal_strlit(",");
        assert("{"@ =~= seq!['{']);
        assert("}"@ =~= seq!['}']);
        assert(","@ =~= seq![',']);
        assert(parts@.map_values(|p: String| p@) =~= ms.map_values(
            |m: (Seq<char>, Seq<char>)| json_string(m.0) + seq![':'] + m.1,
        ));
        assert(text@ =~= json_object(ms));
    }
    text
}

/// The JSON text of an array whose items have the given texts.
pub fn array(items: &Vec<String>) -> (text: String)
    ensures
        text@ == json_array(items@.map_values(|p: String| p@)),
{
    let mut text = "[".to_owned();
    let inner = join_texts(items, ",");
    text.append(inner.as_str());
    text.append("]");
    proof {
        reveal_strlit("[");
        reveal_strlit("]");
        reveal_strlit(",");
        assert("["@ =~= seq!['[']);
        assert("]"@ =~= seq![']']);
        assert(","@ =~= seq![',']);
        assert(text@ =~= json_array(items@.map_values(|p: String| p@)));
    }
    text
}

} // verus!
