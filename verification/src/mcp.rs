use vstd::prelude::*;
use vstd::set_lib::{lemma_int_range, lemma_len_subset, lemma_map_size, set_int_range};

use crate::text::{
    chars_of, concat, contains_string, decimal, decimal_string, digit, is_ascii_alphanumeric, push_char,
    string_from_range, string_views, trim, trim_end, trim_start, trim_str,
};

verus! {

/// One character of a sanitized name: ASCII letters and digits lowercased, `_` and `-`
/// kept, anything else replaced by `_`.
pub open spec fn sanitize_char(c: char) -> char {
    if is_ascii_alphanumeric(c) || c == '_' || c == '-' {
        crate::text::ascii_lower(c)
    } else {
        '_'
    }
}

/// `s` without leading `_` characters.
pub open spec fn strip_leading_underscores(s: Seq<char>) -> Seq<char>
    decreases s.len(),
{
    if s.len() > 0 && s[0] == '_' {
        strip_leading_underscores(s.drop_first())
    } else {
        s
    }
}

/// `s` without trailing `_` characters.
pub open spec fn strip_trailing_underscores(s: Seq<char>) -> Seq<char>
    decreases s.len(),
{
    if s.len() > 0 && s.last() == '_' {
        strip_trailing_underscores(s.drop_last())
    } else {
        s
    }
}

/// The name-safe form of a server or tool name: trimmed, sanitized character by character,
/// stripped of `_` at both ends; `unnamed` when nothing is left.
pub open spec fn sanitized(value: Seq<char>) -> Seq<char> {
    let mapped = trim(value).map_values(|c: char| sanitize_char(c));
    let stripped = strip_trailing_underscores(strip_leading_underscores(mapped));
    if stripped.len() == 0 {
        "unnamed"@
    } else {
        stripped
    }
}

/// The name under which a server's tool is exposed.
pub open spec fn exposed_name_spec(server: Seq<char>, tool: Seq<char>) -> Seq<char> {
    "mcp__"@ + sanitized(server) + "__"@ + sanitized(tool)
}

proof fn lemma_strip_leading(s: Seq<char>, i: int)
    requires
        0 <= i <= s.len(),
        forall|k: int| 0 <= k < i ==> s[k] == '_',
        i < s.len() ==> s[i] != '_',
    ensures
        strip_leading_underscores(s) == s.subrange(i, s.len() as int),
    decreases i,
{
    if i == 0 {
        assert(s.subrange(0, s.len() as int) =~= s);
    } else {
        let t = s.drop_first();
        lemma_strip_leading(t, i - 1);
        assert(t.subrange(i - 1, t.len() as int) =~= s.subrange(i, s.len() as int));
    }
}

proof fn lemma_strip_trailing(s: Seq<char>, j: int)
    requires
        0 <= j <= s.len(),
        forall|k: int| j <= k < s.len() ==> s[k] == '_',
        j > 0 ==> s[j - 1] != '_',
    ensures
        strip_trailing_underscores(s) == s.subrange(0, j),
    decreases s.len() - j,
{
    if j == s.len() {
        assert(s.subrange(0, j) =~= s);
    } else {
        let t = s.drop_last();
        lemma_strip_trailing(t, j);
        assert(t.subrange(0, j) =~= s.subrange(0, j));
    }
}

/// Sanitizes a server or tool name.
pub fn sanitize_name(value: &str) -> (r: String)
    ensures
        r@ == sanitized(value@),
{
    let t = trim_str(value);
    let v = chars_of(t.as_str());
    let mut mapped: Vec<char> = Vec::new();
    let mut i: usize = 0;
    while i < v.len()
        invariant
            i <= v.len(),
            v@ == trim(value@),
            mapped@ == v@.take(i as int).map_values(|c: char| sanitize_char(c)),
        decreases v.len() - i,
    {
        let c = v[i];
        let out = if ('0' <= c && c <= '9') || ('a' <= c && c <= 'z') || ('A' <= c && c <= 'Z')
            || c == '_' || c == '-' {
            if 'A' <= c && c <= 'Z' {
                ((c as u32) + 32) as u8 as char
            } else {
                c
            }
        } else {
            '_'
        };
        assert(out == sanitize_char(c)) by {
            if 'A' <= c <= 'Z' {
                assert((((c as u32) + 32) as u8 as char) == (((c as u32) + 32) as char));
            }
        }
        mapped.push(out);
        assert(v@.take(i + 1).map_values(|c: char| sanitize_char(c)) =~= v@.take(i as int).map_values(
            |c: char| sanitize_char(c),
        ).push(out));
        i += 1;
    }
    assert(v@.take(v.len() as int) =~= v@);
    let ghost m = mapped@;
    let mut lo: usize = 0;
    while lo < mapped.len() && mapped[lo] == '_'
        invariant
            lo <= mapped.len(),
            forall|k: int| 0 <= k < lo ==> mapped@[k] == '_',
        decreases mapped.len() - lo,
    {
        lo += 1;
    }
    proof {
        lemma_strip_leading(m, lo as int);
    }
    let mut hi: usize = mapped.len();
    while hi > lo && mapped[hi - 1] == '_'
        invariant
            lo <= hi <= mapped.len(),
            forall|k: int| hi <= k < mapped.len() ==> mapped@[k] == '_',
        decreases hi,
    {
        hi -= 1;
    }
    proof {
        let s = m.subrange(lo as int, m.len() as int);
        let j = hi - lo;
        assert forall|k: int| j <= k < s.len() implies s[k] == '_' by {
            assert(s[k] == m[k + lo]);
        }
        if j > 0 {
            assert(s[j - 1] == m[hi - 1]);
        }
        lemma_strip_trailing(s, j as int);
        assert(s.subrange(0, j as int) =~= m.subrange(lo as int, hi as int));
    }
    if hi == lo {
        "unnamed".to_owned()
    } else {
        string_from_range(&mapped, lo, hi)
    }
}

/// A character a sanitized name may hold: a lowercase ASCII letter, a digit, `_` or `-`.
pub open spec fn is_name_char(c: char) -> bool {
    ||| 'a' <= c <= 'z'
    ||| '0' <= c <= '9'
    ||| c == '_'
    ||| c == '-'
}

/// The shape of a sanitized name: not empty, only name characters, and no `_` at either end.
pub open spec fn is_sanitized(s: Seq<char>) -> bool {
    &&& s.len() > 0
    &&& forall|k: int| 0 <= k < s.len() ==> is_name_char(#[trigger] s[k])
    &&& s[0] != '_'
    &&& s.last() != '_'
}

proof fn lemma_sanitize_char(c: char)
    ensures
        is_name_char(sanitize_char(c)),
        is_name_char(c) ==> sanitize_char(c) == c,
{
}

proof fn lemma_strip_leading_shape(s: Seq<char>)
    ensures
        strip_leading_underscores(s).len() <= s.len(),
        strip_leading_underscores(s) == s.subrange(s.len() - strip_leading_underscores(s).len(), s.len() as int),
        strip_leading_underscores(s).len() > 0 ==> strip_leading_underscores(s)[0] != '_',
    decreases s.len(),
{
    if s.len() > 0 && s[0] == '_' {
        lemma_strip_leading_shape(s.drop_first());
        let r = strip_leading_underscores(s.drop_first());
        assert(s.drop_first().subrange(s.drop_first().len() - r.len(), s.drop_first().len() as int) =~= s.subrange(
            s.len() - r.len(),
            s.len() as int,
        ));
    } else {
        assert(s.subrange(0, s.len() as int) =~= s);
    }
}

proof fn lemma_strip_trailing_shape(s: Seq<char>)
    ensures
        strip_trailing_underscores(s).len() <= s.len(),
        strip_trailing_underscores(s) == s.subrange(0, strip_trailing_underscores(s).len() as int),
        strip_trailing_underscores(s).len() > 0 ==> strip_trailing_underscores(s).last() != '_',
    decreases s.len(),
{
    if s.len() > 0 && s.last() == '_' {
        lemma_strip_trailing_shape(s.drop_last());
        let r = strip_trailing_underscores(s.drop_last());
        assert(s.drop_last().subrange(0, r.len() as int) =~= s.subrange(0, r.len() as int));
    } else {
        assert(s.subrange(0, s.len() as int) =~= s);
    }
}

/// A name already in sanitized shape is left as it is.
proof fn lemma_sanitized_is_fixed(s: Seq<char>)
    requires
        is_sanitized(s),
    ensures
        sanitized(s) == s,
{
    assert(is_name_char(s[0]));
    assert(is_name_char(s[s.len() - 1]));
    assert(trim_start(s) == s);
    assert(trim_end(s) == s);
    assert(trim(s) == s);
    let mapped = s.map_values(|c: char| sanitize_char(c));
    assert forall|k: int| 0 <= k < s.len() implies mapped[k] == s[k] by {
        assert(is_name_char(s[k]));
        lemma_sanitize_char(s[k]);
    }
    assert(mapped =~= s);
    assert(strip_leading_underscores(s) == s);
    assert(strip_trailing_underscores(s) == s);
}

/// A sanitized name is never empty, holds only lowercase ASCII letters, digits, `_` and `-`,
/// neither starts nor ends with `_`, and sanitizing it again leaves it as it is.
pub proof fn law_sanitized_names(value: Seq<char>)
    ensures
        is_sanitized(sanitized(value)),
        sanitized(sanitized(value)) == sanitized(value),
{
    let mapped = trim(value).map_values(|c: char| sanitize_char(c));
    let lead = strip_leading_underscores(mapped);
    let stripped = strip_trailing_underscores(lead);
    lemma_strip_leading_shape(mapped);
    lemma_strip_trailing_shape(lead);
    if stripped.len() == 0 {
        reveal_strlit("unnamed");
        assert(sanitized(value) == "unnamed"@);
    } else {
        assert(sanitized(value) == stripped);
        assert forall|k: int| 0 <= k < stripped.len() implies is_name_char(#[trigger] stripped[k]) by {
            let off = mapped.len() - lead.len();
            assert(stripped[k] == lead[k]);
            assert(lead[k] == mapped[k + off]);
            lemma_sanitize_char(trim(value)[k + off]);
        }
        assert(stripped[0] == lead[0]);
    }
    lemma_sanitized_is_fixed(sanitized(value));
}

/// The name under which a server's tool is exposed.
pub fn exposed_tool_name(server: &str, tool: &str) -> (r: String)
    ensures
        r@ == exposed_name_spec(server@, tool@),
{
    let s = sanitize_name(server);
    let t = sanitize_name(tool);
    let a = concat("mcp__", s.as_str());
    let b = concat(a.as_str(), "__");
    concat(b.as_str(), t.as_str())
}

/// The `k`-th alternative of a taken name.
pub open spec fn numbered_name(base: Seq<char>, k: nat) -> Seq<char> {
    base + "__"@ + decimal(k)
}

/// `name` is the first free name among `base`, `base__2`, `base__3`, ... given the taken names.
pub open spec fn is_unique_choice(base: Seq<char>, taken: Seq<Seq<char>>, name: Seq<char>) -> bool {
    if !taken.contains(base) {
        name == base
    } else {
        exists|k: nat|
            #![trigger numbered_name(base, k)]
            k >= 2 && name == numbered_name(base, k) && !taken.contains(numbered_name(base, k))
                && forall|j: nat| 2 <= j < k ==> taken.contains(#[trigger] numbered_name(base, j))
    }
}

proof fn lemma_digit_code(d: nat)
    requires
        d < 10,
    ensures
        digit(d) as u32 == 48 + d,
{
    let t = seq!['0', '1', '2', '3', '4', '5', '6', '7', '8', '9'];
    assert(digit(d) == t[d as int]);
    if d == 0 {
        assert(t[0] == '0');
    } else if d == 1 {
        assert(t[1] == '1');
    } else if d == 2 {
        assert(t[2] == '2');
    } else if d == 3 {
        assert(t[3] == '3');
    } else if d == 4 {
        assert(t[4] == '4');
    } else if d == 5 {
        assert(t[5] == '5');
    } else if d == 6 {
        assert(t[6] == '6');
    } else if d == 7 {
        assert(t[7] == '7');
    } else if d == 8 {
        assert(t[8] == '8');
    } else {
        assert(t[9] == '9');
    }
}

proof fn lemma_decimal_injective(a: nat, b: nat)
    requires
        decimal(a) == decimal(b),
    ensures
        a == b,
    decreases a + b,
{
    lemma_decimal_len(a);
    lemma_decimal_len(b);
    if a < 10 && b < 10 {
        assert(decimal(a) == seq![digit(a)]);
        assert(decimal(b) == seq![digit(b)]);
        assert(decimal(a)[0] == decimal(b)[0]);
        assert(seq![digit(a)][0] == digit(a));
        assert(seq![digit(b)][0] == digit(b));
        lemma_digit_code(a);
        lemma_digit_code(b);
        assert(digit(a) == digit(b));
        assert(a == b);
    } else if a >= 10 && b >= 10 {
        assert(decimal(a) == decimal(a / 10).push(digit(a % 10)));
        assert(decimal(b) == decimal(b / 10).push(digit(b % 10)));
        assert(decimal(a).last() == decimal(b).last());
        assert(decimal(a).last() == digit(a % 10));
        assert(decimal(b).last() == digit(b % 10));
        lemma_digit_code(a % 10);
        lemma_digit_code(b % 10);
        assert(a % 10 == b % 10);
        assert(decimal(a).drop_last() =~= decimal(a / 10));
        assert(decimal(b).drop_last() =~= decimal(b / 10));
        lemma_decimal_injective(a / 10, b / 10);
        vstd::arithmetic::div_mod::lemma_fundamental_div_mod(a as int, 10);
        vstd::arithmetic::div_mod::lemma_fundamental_div_mod(b as int, 10);
        assert(a / 10 == b / 10);
        assert(a == b);
    } else if a < 10 {
        assert(decimal(a) == seq![digit(a)]);
        assert(decimal(b) == decimal(b / 10).push(digit(b % 10)));
        lemma_decimal_len(b / 10);
        assert(decimal(b).len() >= 2);
    } else {
        assert(decimal(b) == seq![digit(b)]);
        assert(decimal(a) == decimal(a / 10).push(digit(a % 10)));
        lemma_decimal_len(a / 10);
        assert(decimal(a).len() >= 2);
    }
}

proof fn lemma_decimal_len(n: nat)
    ensures
        decimal(n).len() >= 1,
        n >= 10 ==> decimal(n).len() >= 2,
    decreases n,
{
    if n >= 10 {
        lemma_decimal_len(n / 10);
    }
}

proof fn lemma_numbered_injective(base: Seq<char>, a: nat, b: nat)
    requires
        numbered_name(base, a) == numbered_name(base, b),
    ensures
        a == b,
{
    let p = base + "__"@;
    assert(numbered_name(base, a) == p + decimal(a));
    assert(numbered_name(base, b) == p + decimal(b));
    assert((p + decimal(a)).subrange(p.len() as int, (p + decimal(a)).len() as int) =~= decimal(a));
    assert((p + decimal(b)).subrange(p.len() as int, (p + decimal(b)).len() as int) =~= decimal(b));
    lemma_decimal_injective(a, b);
}

proof fn lemma_pigeonhole(base: Seq<char>, taken: Seq<Seq<char>>)
    ensures
        exists|j: nat| 2 <= j <= taken.len() + 2 && !taken.contains(#[trigger] numbered_name(base, j)),
{
    broadcast use vstd::seq_lib::seq_to_set_is_finite;

    if forall|j: nat| 2 <= j <= taken.len() + 2 ==> taken.contains(#[trigger] numbered_name(base, j)) {
        let n = taken.len();
        let x = set_int_range(2, n as int + 3);
        let f = |j: int| numbered_name(base, j as nat);
        lemma_int_range(2, n as int + 3);
        assert forall|a: int, b: int| x.contains(a) && x.contains(b) && #[trigger] f(a) == #[trigger] f(b) implies a == b by {
            lemma_numbered_injective(base, a as nat, b as nat);
        }
        let y = x.map(f);
        lemma_map_size(x, y, f);
        let ts = taken.to_set();
        assert forall|s: Seq<char>| y.contains(s) implies ts.contains(s) by {
            let j = choose|j: int| x.contains(j) && f(j) == s;
            assert(taken.contains(numbered_name(base, j as nat)));
        }
        lemma_len_subset(y, ts);
        taken.lemma_cardinality_of_set();
    }
}

/// The first free name among `base`, `base__2`, `base__3`, ... given the taken names.
pub fn unique_tool_name(base_name: &str, taken: &Vec<String>) -> (r: String)
    ensures
        is_unique_choice(base_name@, string_views(taken@), r@),
{
    if !contains_string(taken, base_name) {
        return base_name.to_owned();
    }
    let ghost tv = string_views(taken@);
    let n = taken.len();
    proof {
        lemma_pigeonhole(base_name@, tv);
    }
    let mut suffix: u128 = 2;
    loop
        invariant
            2 <= suffix <= n + 2,
            tv == string_views(taken@),
            n == taken.len(),
            tv.contains(base_name@),
            exists|j: nat| suffix <= j <= n + 2 && !tv.contains(#[trigger] numbered_name(base_name@, j)),
            forall|j: nat| 2 <= j < suffix ==> tv.contains(#[trigger] numbered_name(base_name@, j)),
        decreases n + 2 - suffix,
    {
        let head = concat(base_name, "__");
        let digits = decimal_string(suffix);
        let candidate = concat(head.as_str(), digits.as_str());
        assert(candidate@ == numbered_name(base_name@, suffix as nat));
        if !contains_string(taken, candidate.as_str()) {
            return candidate;
        }
        proof {
            let j = choose|j: nat| suffix <= j <= n + 2 && !tv.contains(#[trigger] numbered_name(base_name@, j));
            assert(j != suffix);
        }
        suffix += 1;
    }
}

/// The alternative number chosen for a taken name: the least `k >= 2` whose numbered name
/// is free.
pub open spec fn first_free_number(base: Seq<char>, taken: Seq<Seq<char>>) -> nat {
    choose|k: nat|
        #![trigger numbered_name(base, k)]
        k >= 2 && !taken.contains(numbered_name(base, k)) && forall|j: nat|
            2 <= j < k ==> taken.contains(#[trigger] numbered_name(base, j))
}

/// The name under which a tool is exposed, given the names already taken.
pub open spec fn unique_name_spec(base: Seq<char>, taken: Seq<Seq<char>>) -> Seq<char> {
    if !taken.contains(base) {
        base
    } else {
        numbered_name(base, first_free_number(base, taken))
    }
}

/// A unique choice is the functional one, and it is never among the taken names.
pub proof fn lemma_unique_choice_is_spec(base: Seq<char>, taken: Seq<Seq<char>>, name: Seq<char>)
    requires
        is_unique_choice(base, taken, name),
    ensures
        name == unique_name_spec(base, taken),
        !taken.contains(name),
{
    if taken.contains(base) {
        let k = choose|k: nat|
            #![trigger numbered_name(base, k)]
            k >= 2 && name == numbered_name(base, k) && !taken.contains(numbered_name(base, k))
                && forall|j: nat| 2 <= j < k ==> taken.contains(#[trigger] numbered_name(base, j));
        let c = first_free_number(base, taken);
        assert(c >= 2 && !taken.contains(numbered_name(base, c)) && forall|j: nat|
            2 <= j < c ==> taken.contains(#[trigger] numbered_name(base, j)));
        if c < k {
            assert(taken.contains(numbered_name(base, c)));
        }
        if k < c {
            assert(taken.contains(numbered_name(base, k)));
        }
    }
}

/// Where an exposed tool name leads: its server and its name there.
#[derive(Debug, Clone)]
pub struct McpToolRef {
    pub exposed_name: String,
    pub server_name: String,
    pub original_tool_name: String,
}

/// A tool as a server lists it: its name and optional description.
#[derive(Debug, Clone)]
pub struct McpToolListing {
    pub name: String,
    pub description: Option<String>,
}

/// A tool that was registered: its exposed name and description, and its position in the
/// server's listing (which the caller uses to attach the tool's parameter schema).
#[derive(Debug, Clone)]
pub struct DiscoveredMcpTool {
    pub exposed_name: String,
    pub description: String,
    pub listing_index: usize,
}

/// The description shown for a server's tool.
pub open spec fn tool_description(server: Seq<char>, description: Option<Seq<char>>) -> Seq<char> {
    "[MCP:"@ + server + "] "@ + match description {
        Some(d) => d,
        None => "MCP tool from "@ + server + " server"@,
    }
}

/// The plain view of a listing.
pub open spec fn listing_view(l: McpToolListing) -> (Seq<char>, Option<Seq<char>>) {
    (l.name@, crate::text::opt_view(l.description))
}

/// Registering a server's tools: every tool with a non-blank (trimmed) name gets the first
/// free exposed name. Gives the new `(exposed, original, description, listing index)`
/// entries in listing order, starting after `taken`.
pub open spec fn registered(
    taken: Seq<Seq<char>>,
    server: Seq<char>,
    listing: Seq<(Seq<char>, Option<Seq<char>>)>,
) -> Seq<(Seq<char>, Seq<char>, Seq<char>, nat)>
    decreases listing.len(),
{
    if listing.len() == 0 {
        Seq::empty()
    } else {
        let before = registered(taken, server, listing.drop_last());
        let keys = taken + before.map_values(|e: (Seq<char>, Seq<char>, Seq<char>, nat)| e.0);
        let original = trim(listing.last().0);
        if original.len() == 0 {
            before
        } else {
            let exposed = unique_name_spec(exposed_name_spec(server, original), keys);
            before.push(
                (
                    exposed,
                    original,
                    tool_description(server, listing.last().1),
                    (listing.len() - 1) as nat,
                ),
            )
        }
    }
}

/// The first entry from position `i` on whose exposed name is `name`.
pub open spec fn first_ref(refs: Seq<(Seq<char>, Seq<char>, Seq<char>)>, name: Seq<char>, i: int) -> Option<
    (Seq<char>, Seq<char>, Seq<char>),
>
    decreases refs.len() - i,
{
    if i < 0 || i >= refs.len() {
        None
    } else if refs[i].0 == name {
        Some(refs[i])
    } else {
        first_ref(refs, name, i + 1)
    }
}

/// The tools of all connected servers, by exposed name.
pub struct McpToolIndex {
    entries: Vec<McpToolRef>,
}

impl McpToolIndex {
    /// The exposed names in registration order.
    pub closed spec fn names(&self) -> Seq<Seq<char>> {
        self.entries@.map_values(|e: McpToolRef| e.exposed_name@)
    }

    /// The entries as `(exposed, server, original)` triples.
    pub closed spec fn refs(&self) -> Seq<(Seq<char>, Seq<char>, Seq<char>)> {
        self.entries@.map_values(
            |e: McpToolRef| (e.exposed_name@, e.server_name@, e.original_tool_name@),
        )
    }

    pub fn new() -> (r: Self)
        ensures
            r.refs() == Seq::<(Seq<char>, Seq<char>, Seq<char>)>::empty(),
            r.names() == Seq::<Seq<char>>::empty(),
    {
        let r = Self { entries: Vec::new() };
        assert(r.refs() =~= Seq::<(Seq<char>, Seq<char>, Seq<char>)>::empty());
        assert(r.names() =~= Seq::<Seq<char>>::empty());
        r
    }

    /// The number of registered tools.
    pub fn len(&self) -> (n: usize)
        ensures
            n == self.refs().len(),
    {
        self.entries.len()
    }

    /// Looks up an exposed name: the first entry with that name.
    pub fn get(&self, exposed_name: &str) -> (r: Option<&McpToolRef>)
        ensures
            match r {
                Some(e) => exists|i: int|
                    0 <= i < self.refs().len() && self.refs()[i] == (
                        e.exposed_name@,
                        e.server_name@,
                        e.original_tool_name@,
                    ) && e.exposed_name@ == exposed_name@ && forall|j: int|
                        0 <= j < i ==> #[trigger] self.refs()[j].0 != exposed_name@,
                None => forall|j: int|
                    0 <= j < self.refs().len() ==> #[trigger] self.refs()[j].0 != exposed_name@,
            },
            match r {
                Some(e) => first_ref(self.refs(), exposed_name@, 0) == Some(
                    (e.exposed_name@, e.server_name@, e.original_tool_name@),
                ),
                None => first_ref(self.refs(), exposed_name@, 0) is None,
            },
    {
        let mut i: usize = 0;
        while i < self.entries.len()
            invariant
                i <= self.entries.len(),
                forall|j: int| 0 <= j < i ==> #[trigger] self.refs()[j].0 != exposed_name@,
                first_ref(self.refs(), exposed_name@, 0) == first_ref(self.refs(), exposed_name@, i as int),
            decreases self.entries.len() - i,
        {
            if crate::text::str_eq(self.entries[i].exposed_name.as_str(), exposed_name) {
                assert(self.refs()[i as int].0 == exposed_name@);
                return Some(&self.entries[i]);
            }
            assert(self.refs()[i as int].0 == self.entries@[i as int].exposed_name@);
            i += 1;
        }
        None
    }

    /// Registers the tools of one server and returns what was registered.
    pub fn register_server_tools(&mut self, server_name: &str, tools: &Vec<McpToolListing>) -> (d:
        Vec<DiscoveredMcpTool>)
        ensures
            d@.map_values(
                |t: DiscoveredMcpTool| (t.exposed_name@, t.description@, t.listing_index as nat),
            ) == registered(
                old(self).names(),
                server_name@,
                tools@.map_values(|l: McpToolListing| listing_view(l)),
            ).map_values(
                |e: (Seq<char>, Seq<char>, Seq<char>, nat)| (e.0, e.2, e.3),
            ),
            final(self).refs() == old(self).refs() + registered(
                old(self).names(),
                server_name@,
                tools@.map_values(|l: McpToolListing| listing_view(l)),
            ).map_values(
                |e: (Seq<char>, Seq<char>, Seq<char>, nat)| (e.0, server_name@, e.1),
            ),
            old(self).names().no_duplicates() ==> final(self).names().no_duplicates(),
    {
        let ghost listing = tools@.map_values(|l: McpToolListing| listing_view(l));
        let ghost start_refs = self.refs();
        let ghost start_names = self.names();
        let mut out: Vec<DiscoveredMcpTool> = Vec::new();
        let mut i: usize = 0;
        assert(listing.take(0) =~= Seq::<(Seq<char>, Option<Seq<char>>)>::empty());
        assert(out@.map_values(|t: DiscoveredMcpTool| (t.exposed_name@, t.description@, t.listing_index as nat)) =~= Seq::<(Seq<char>, Seq<char>, nat)>::empty());
        assert(self.refs() =~= start_refs + Seq::<(Seq<char>, Seq<char>, Seq<char>)>::empty());
        while i < tools.len()
            invariant
                i <= tools.len(),
                listing == tools@.map_values(|l: McpToolListing| listing_view(l)),
                out@.map_values(
                    |t: DiscoveredMcpTool| (t.exposed_name@, t.description@, t.listing_index as nat),
                ) == registered(start_names, server_name@, listing.take(i as int)).map_values(
                    |e: (Seq<char>, Seq<char>, Seq<char>, nat)| (e.0, e.2, e.3),
                ),
                self.refs() == start_refs + registered(start_names, server_name@, listing.take(i as int)).map_values(
                    |e: (Seq<char>, Seq<char>, Seq<char>, nat)| (e.0, server_name@, e.1),
                ),
                self.names() == start_names + registered(start_names, server_name@, listing.take(i as int)).map_values(
                    |e: (Seq<char>, Seq<char>, Seq<char>, nat)| e.0,
                ),
                start_names.no_duplicates() ==> self.names().no_duplicates(),
            decreases tools.len() - i,
        {
            let ghost prev = registered(start_names, server_name@, listing.take(i as int));
            proof {
                assert(listing.take(i + 1).drop_last() =~= listing.take(i as int));
                assert(listing.take(i + 1).last() == listing_view(tools@[i as int]));
            }
            let original = trim_str(tools[i].name.as_str());
            if original.as_str().is_empty() {
                i += 1;
                continue;
            }
            let base = exposed_tool_name(server_name, original.as_str());
            let taken = self.exposed_names();
            let exposed = unique_tool_name(base.as_str(), &taken);
            proof {
                lemma_unique_choice_is_spec(base@, self.names(), exposed@);
            }
            let description = match &tools[i].description {
                Some(d) => d.clone(),
                None => {
                    let a = concat("MCP tool from ", server_name);
                    concat(a.as_str(), " server")
                },
            };
            let head = concat("[MCP:", server_name);
            let head = concat(head.as_str(), "] ");
            let full = concat(head.as_str(), description.as_str());
            let ghost entry = (exposed@, original@, full@, i as nat);
            proof {
                let next = registered(start_names, server_name@, listing.take(i + 1));
                assert(next == prev.push(entry));
            }
            let ghost names_before = self.names();
            let ghost refs_before = self.refs();
            let ghost out_before = out@.map_values(|t: DiscoveredMcpTool| (t.exposed_name@, t.description@, t.listing_index as nat));
            out.push(DiscoveredMcpTool { exposed_name: exposed.clone(), description: full, listing_index: i });
            self.entries.push(McpToolRef { exposed_name: exposed, server_name: server_name.to_owned(), original_tool_name: original });
            proof {
                let next = prev.push(entry);
                assert(out@.map_values(|t: DiscoveredMcpTool| (t.exposed_name@, t.description@, t.listing_index as nat)) =~= out_before.push((entry.0, entry.2, entry.3)));
                assert(self.refs() =~= refs_before.push((entry.0, server_name@, entry.1)));
                assert(next.map_values(|e: (Seq<char>, Seq<char>, Seq<char>, nat)| (e.0, e.2, e.3)) =~= prev.map_values(|e: (Seq<char>, Seq<char>, Seq<char>, nat)| (e.0, e.2, e.3)).push((entry.0, entry.2, entry.3)));
                assert(next.map_values(|e: (Seq<char>, Seq<char>, Seq<char>, nat)| (e.0, server_name@, e.1)) =~= prev.map_values(|e: (Seq<char>, Seq<char>, Seq<char>, nat)| (e.0, server_name@, e.1)).push((entry.0, server_name@, entry.1)));
                assert(next.map_values(|e: (Seq<char>, Seq<char>, Seq<char>, nat)| e.0) =~= prev.map_values(|e: (Seq<char>, Seq<char>, Seq<char>, nat)| e.0).push(entry.0));
                assert(out@.map_values(|t: DiscoveredMcpTool| (t.exposed_name@, t.description@, t.listing_index as nat)) =~= next.map_values(|e: (Seq<char>, Seq<char>, Seq<char>, nat)| (e.0, e.2, e.3)));
                assert(self.refs() =~= start_refs + next.map_values(|e: (Seq<char>, Seq<char>, Seq<char>, nat)| (e.0, server_name@, e.1)));
                assert(self.names() =~= names_before.push(entry.0));
                assert(self.names() =~= start_names + next.map_values(|e: (Seq<char>, Seq<char>, Seq<char>, nat)| e.0));
                if start_names.no_duplicates() {
                    assert forall|a: int, b: int| 0 <= a < self.names().len() && 0 <= b < self.names().len() && a != b implies self.names()[a] != self.names()[b] by {
                        if a == names_before.len() {
                            assert(names_before.contains(names_before[b]));
                        } else if b == names_before.len() {
                            assert(names_before.contains(names_before[a]));
                        }
                    }
                }
            }
            i += 1;
        }
        assert(listing.take(tools.len() as int) =~= listing);
        out
    }

    /// The exposed names, in registration order.
    pub fn exposed_names(&self) -> (v: Vec<String>)
        ensures
            string_views(v@) == self.names(),
    {
        let mut v: Vec<String> = Vec::new();
        let mut i: usize = 0;
        while i < self.entries.len()
            invariant
                i <= self.entries.len(),
                string_views(v@) == self.names().take(i as int),
            decreases self.entries.len() - i,
        {
            let ghost before = string_views(v@);
            v.push(self.entries[i].exposed_name.clone());
            assert(self.names()[i as int] == self.entries@[i as int].exposed_name@);
            assert(string_views(v@) =~= before.push(self.names()[i as int]));
            assert(string_views(v@) =~= self.names().take(i + 1));
            i += 1;
        }
        assert(self.names().take(self.entries.len() as int) =~= self.names());
        v
    }

    /// The names are the first parts of the entries.
    pub proof fn lemma_names_of_refs(&self)
        ensures
            self.names() == self.refs().map_values(|e: (Seq<char>, Seq<char>, Seq<char>)| e.0),
    {
        assert(self.names() =~= self.refs().map_values(|e: (Seq<char>, Seq<char>, Seq<char>)| e.0));
    }
}

/// Given one free numbered name, there is a least one.
proof fn lemma_least_free(base: Seq<char>, taken: Seq<Seq<char>>, j: nat)
    requires
        j >= 2,
        !taken.contains(numbered_name(base, j)),
    ensures
        exists|k: nat|
            #![trigger numbered_name(base, k)]
            k >= 2 && !taken.contains(numbered_name(base, k)) && forall|i: nat|
                2 <= i < k ==> taken.contains(#[trigger] numbered_name(base, i)),
    decreases j,
{
    if forall|i: nat| 2 <= i < j ==> taken.contains(#[trigger] numbered_name(base, i)) {
        assert(numbered_name(base, j) == numbered_name(base, j));
    } else {
        let i = choose|i: nat| 2 <= i < j && !taken.contains(#[trigger] numbered_name(base, i));
        lemma_least_free(base, taken, i);
    }
}

/// The name chosen for a tool is never among the names already taken.
proof fn lemma_unique_name_is_free(base: Seq<char>, taken: Seq<Seq<char>>)
    ensures
        !taken.contains(unique_name_spec(base, taken)),
{
    if taken.contains(base) {
        lemma_pigeonhole(base, taken);
        let j = choose|j: nat| 2 <= j <= taken.len() + 2 && !taken.contains(#[trigger] numbered_name(base, j));
        lemma_least_free(base, taken, j);
    }
}

/// Registering a server's tools after names with no duplicates leaves no duplicates, and every
/// registered tool has a non-blank name on its server.
proof fn lemma_registered_fresh(
    taken: Seq<Seq<char>>,
    server: Seq<char>,
    listing: Seq<(Seq<char>, Option<Seq<char>>)>,
)
    requires
        taken.no_duplicates(),
    ensures
        (taken + registered(taken, server, listing).map_values(|e: (Seq<char>, Seq<char>, Seq<char>, nat)| e.0))
            .no_duplicates(),
        forall|i: int|
            0 <= i < registered(taken, server, listing).len() ==> (#[trigger] registered(taken, server, listing)[i]).1.len()
                > 0,
    decreases listing.len(),
{
    if listing.len() > 0 {
        let before = registered(taken, server, listing.drop_last());
        lemma_registered_fresh(taken, server, listing.drop_last());
        let keys = taken + before.map_values(|e: (Seq<char>, Seq<char>, Seq<char>, nat)| e.0);
        let original = trim(listing.last().0);
        if original.len() > 0 {
            let exposed = unique_name_spec(exposed_name_spec(server, original), keys);
            lemma_unique_name_is_free(exposed_name_spec(server, original), keys);
            let entry = (exposed, original, tool_description(server, listing.last().1), (listing.len() - 1) as nat);
            let after = registered(taken, server, listing);
            assert(after == before.push(entry));
            let all = taken + after.map_values(|e: (Seq<char>, Seq<char>, Seq<char>, nat)| e.0);
            assert(all =~= keys.push(exposed));
            assert forall|a: int, b: int| 0 <= a < all.len() && 0 <= b < all.len() && a != b implies all[a] != all[b] by {
                if a == keys.len() {
                    assert(keys.contains(keys[b]));
                } else if b == keys.len() {
                    assert(keys.contains(keys[a]));
                }
            }
            assert forall|i: int| 0 <= i < after.len() implies (#[trigger] after[i]).1.len() > 0 by {
                if i < before.len() {
                    assert(after[i] == before[i]);
                }
            }
        }
    }
}

/// A server as its connection turned out: its name, and its tool listing when it connected
/// (`None` when connecting failed).
pub type ServerOutcome = (Seq<char>, Option<Seq<(Seq<char>, Option<Seq<char>>)>>);

/// The `(exposed, server, original)` entries of an index after the servers' tools are
/// registered in order, starting from an empty index; a server that failed adds nothing.
pub open spec fn connected_refs(servers: Seq<ServerOutcome>) -> Seq<(Seq<char>, Seq<char>, Seq<char>)>
    decreases servers.len(),
{
    if servers.len() == 0 {
        Seq::empty()
    } else {
        let before = connected_refs(servers.drop_last());
        match servers.last().1 {
            None => before,
            Some(listing) => before + registered(
                before.map_values(|e: (Seq<char>, Seq<char>, Seq<char>)| e.0),
                servers.last().0,
                listing,
            ).map_values(|e: (Seq<char>, Seq<char>, Seq<char>, nat)| (e.0, servers.last().0, e.1)),
        }
    }
}

/// However the servers' connections turn out, the tools registered from all of them have
/// pairwise distinct exposed names; each comes from a server that connected and has a
/// non-blank name there.
pub proof fn law_exposed_names_distinct(servers: Seq<ServerOutcome>)
    ensures
        connected_refs(servers).map_values(|e: (Seq<char>, Seq<char>, Seq<char>)| e.0).no_duplicates(),
        forall|i: int|
            0 <= i < connected_refs(servers).len() ==> (#[trigger] connected_refs(servers)[i]).2.len() > 0
                && exists|k: int| 0 <= k < servers.len() && servers[k].0 == connected_refs(servers)[i].1 && servers[k].1 is Some,
    decreases servers.len(),
{
    let refs = connected_refs(servers);
    if servers.len() == 0 {
        assert(refs.map_values(|e: (Seq<char>, Seq<char>, Seq<char>)| e.0) =~= Seq::<Seq<char>>::empty());
    } else {
        let rest = servers.drop_last();
        let before = connected_refs(rest);
        law_exposed_names_distinct(rest);
        let taken = before.map_values(|e: (Seq<char>, Seq<char>, Seq<char>)| e.0);
        match servers.last().1 {
            None => {
                assert forall|i: int| 0 <= i < refs.len() implies (#[trigger] refs[i]).2.len() > 0
                    && exists|k: int| 0 <= k < servers.len() && servers[k].0 == refs[i].1 && servers[k].1 is Some by {
                    let k = choose|k: int| 0 <= k < rest.len() && rest[k].0 == before[i].1 && rest[k].1 is Some;
                    assert(servers[k] == rest[k]);
                }
            },
            Some(listing) => {
                let server = servers.last().0;
                let reg = registered(taken, server, listing);
                lemma_registered_fresh(taken, server, listing);
                let added = reg.map_values(|e: (Seq<char>, Seq<char>, Seq<char>, nat)| (e.0, server, e.1));
                assert(refs == before + added);
                assert(refs.map_values(|e: (Seq<char>, Seq<char>, Seq<char>)| e.0) =~= taken + reg.map_values(
                    |e: (Seq<char>, Seq<char>, Seq<char>, nat)| e.0,
                ));
                assert forall|i: int| 0 <= i < refs.len() implies (#[trigger] refs[i]).2.len() > 0
                    && exists|k: int| 0 <= k < servers.len() && servers[k].0 == refs[i].1 && servers[k].1 is Some by {
                    if i < before.len() {
                        assert(refs[i] == before[i]);
                        let k = choose|k: int| 0 <= k < rest.len() && rest[k].0 == before[i].1 && rest[k].1 is Some;
                        assert(servers[k] == rest[k]);
                    } else {
                        assert(refs[i] == added[i - before.len()]);
                        assert(reg[i - before.len()].1.len() > 0);
                        let k = servers.len() - 1;
                        assert(servers[k].0 == refs[i].1);
                    }
                }
            },
        }
    }
}

} // verus!

verus! {

/// How to launch one MCP server over stdio: its command, arguments and environment.
pub struct McpServerConfig {
    pub command: String,
    pub args: Vec<String>,
    pub env: std::collections::HashMap<String, String>,
}

/// The MCP servers of a configuration file, by name.
pub struct McpConfig {
    pub servers: std::collections::HashMap<String, McpServerConfig>,
}

/// The command that launches a server: it must be given and must not be blank.
pub fn server_command(server_name: &str, command: Option<&str>) -> (r: Result<String, crate::error::ToolError>)
    ensures
        match command {
            None => r matches Err(e) && e@ == crate::error::ToolErrorView::ExecutionFailed(
                "MCP server "@ + server_name@ + " requires command"@,
            ),
            Some(c) => if trim(c@).len() == 0 {
                r matches Err(e) && e@ == crate::error::ToolErrorView::ExecutionFailed(
                    "MCP server "@ + server_name@ + " command cannot be empty"@,
                )
            } else {
                r matches Ok(s) && s@ == c@
            },
        },
{
    match command {
        None => {
            let m = concat("MCP server ", server_name);
            Err(crate::error::ToolError::ExecutionFailed(concat(m.as_str(), " requires command")))
        },
        Some(c) => {
            if trim_str(c).as_str().is_empty() {
                let m = concat("MCP server ", server_name);
                Err(crate::error::ToolError::ExecutionFailed(concat(m.as_str(), " command cannot be empty")))
            } else {
                Ok(c.to_owned())
            }
        },
    }
}

/// The error that a failed MCP operation is reported as.
pub fn to_tool_error(message: String) -> (e: crate::error::ToolError)
    ensures
        e@ == crate::error::ToolErrorView::ExecutionFailed(message@),
{
    crate::error::ToolError::ExecutionFailed(message)
}

/// The shape of the arguments of an MCP tool call, as far as the call depends on it: a JSON
/// object, `null`, or another value with its JSON text.
pub enum ArgumentsShape {
    Object,
    Null,
    Other(String),
}

/// Whether a call's arguments are passed as they are (`true`) or as an empty object
/// (`false`, for `null`); any value other than an object or `null` is refused.
pub fn arguments_object(arguments: &ArgumentsShape) -> (r: Result<bool, crate::error::ToolError>)
    ensures
        match arguments {
            ArgumentsShape::Object => r == Ok::<bool, crate::error::ToolError>(true),
            ArgumentsShape::Null => r == Ok::<bool, crate::error::ToolError>(false),
            ArgumentsShape::Other(text) => r matches Err(e) && e@ == crate::error::ToolErrorView::ExecutionFailed(
                "MCP tool arguments must be a JSON object, got "@ + text@,
            ),
        },
{
    match arguments {
        ArgumentsShape::Object => Ok(true),
        ArgumentsShape::Null => Ok(false),
        ArgumentsShape::Other(text) => Err(
            crate::error::ToolError::ExecutionFailed(
                concat("MCP tool arguments must be a JSON object, got ", text.as_str()),
            ),
        ),
    }
}

impl McpToolIndex {
    /// Where a call of `exposed_name` goes: its server, which must be connected, and the
    /// tool's name there.
    pub fn route_call(&self, exposed_name: &str, connected: &Vec<String>) -> (r: Result<
        (String, String),
        crate::error::ToolError,
    >)
        ensures
            (forall|j: int| 0 <= j < self.refs().len() ==> #[trigger] self.refs()[j].0 != exposed_name@)
                ==> (r matches Err(e) && e@ == crate::error::ToolErrorView::ExecutionFailed(
                "unknown MCP tool: "@ + exposed_name@,
            )),
            r matches Ok((server, original)) ==> string_views(connected@).contains(server@) && exists|i: int|
                0 <= i < self.refs().len() && self.refs()[i] == (exposed_name@, server@, original@)
                    && forall|j: int| 0 <= j < i ==> #[trigger] self.refs()[j].0 != exposed_name@,
            match first_ref(self.refs(), exposed_name@, 0) {
                None => r matches Err(e) && e@ == crate::error::ToolErrorView::ExecutionFailed(
                    "unknown MCP tool: "@ + exposed_name@,
                ),
                Some((_, server, original)) => if string_views(connected@).contains(server) {
                    r matches Ok((s, o)) && s@ == server && o@ == original
                } else {
                    r matches Err(e) && e@ == crate::error::ToolErrorView::ExecutionFailed(
                        "MCP server not connected: "@ + server,
                    )
                },
            },
    {
        match self.get(exposed_name) {
            None => Err(crate::error::ToolError::ExecutionFailed(concat("unknown MCP tool: ", exposed_name))),
            Some(t) => {
                proof {
                    let i = choose|i: int|
                        0 <= i < self.refs().len() && self.refs()[i] == (
                            t.exposed_name@,
                            t.server_name@,
                            t.original_tool_name@,
                        ) && t.exposed_name@ == exposed_name@ && forall|j: int|
                            0 <= j < i ==> #[trigger] self.refs()[j].0 != exposed_name@;
                    assert(self.refs()[i].0 == exposed_name@);
                }
                if contains_string(connected, t.server_name.as_str()) {
                    Ok((t.server_name.clone(), t.original_tool_name.clone()))
                } else {
                    let e = crate::error::ToolError::ExecutionFailed(
                        concat("MCP server not connected: ", t.server_name.as_str()),
                    );
                    assert(!string_views(connected@).contains(t.server_name@));
                    Err(e)
                }
            },
        }
    }
}

/// Loading a server's tools when a name already loaded is skipped: every tool with a
/// non-blank (trimmed) name whose exposed name is free is loaded. Gives the
/// `(name, original, description, listing index)` of each tool loaded, in listing order.
pub open spec fn loaded(
    taken: Seq<Seq<char>>,
    server: Seq<char>,
    listing: Seq<(Seq<char>, Option<Seq<char>>)>,
) -> Seq<(Seq<char>, Seq<char>, Seq<char>, nat)>
    decreases listing.len(),
{
    if listing.len() == 0 {
        Seq::empty()
    } else {
        let before = loaded(taken, server, listing.drop_last());
        let keys = taken + before.map_values(|e: (Seq<char>, Seq<char>, Seq<char>, nat)| e.0);
        let original = trim(listing.last().0);
        let name = exposed_name_spec(server, original);
        if original.len() == 0 || keys.contains(name) {
            before
        } else {
            before.push(
                (name, original, tool_description(server, listing.last().1), (listing.len() - 1) as nat),
            )
        }
    }
}

/// A tool loaded from a server: its name, description, name on the server, and position in
/// the server's listing.
pub struct LoadedMcpTool {
    pub name: String,
    pub description: String,
    pub original_tool_name: String,
    pub listing_index: usize,
}

pub open spec fn loaded_view(t: LoadedMcpTool) -> (Seq<char>, Seq<char>, Seq<char>, nat) {
    (t.name@, t.original_tool_name@, t.description@, t.listing_index as nat)
}

/// The names of the tools loaded so far from all servers.
pub struct LoadedToolNames {
    names: Vec<String>,
}

impl LoadedToolNames {
    pub closed spec fn names(&self) -> Seq<Seq<char>> {
        string_views(self.names@)
    }

    pub fn new() -> (r: Self)
        ensures
            r.names() == Seq::<Seq<char>>::empty(),
    {
        let r = Self { names: Vec::new() };
        assert(r.names() =~= Seq::<Seq<char>>::empty());
        r
    }

    /// Loads the tools of one server, skipping a tool whose name is already loaded.
    pub fn load_server_tools(&mut self, server_name: &str, tools: &Vec<McpToolListing>) -> (d: Vec<
        LoadedMcpTool,
    >)
        ensures
            d@.map_values(|t: LoadedMcpTool| loaded_view(t)) == loaded(
                old(self).names(),
                server_name@,
                tools@.map_values(|l: McpToolListing| listing_view(l)),
            ),
            final(self).names() == old(self).names() + loaded(
                old(self).names(),
                server_name@,
                tools@.map_values(|l: McpToolListing| listing_view(l)),
            ).map_values(|e: (Seq<char>, Seq<char>, Seq<char>, nat)| e.0),
            old(self).names().no_duplicates() ==> final(self).names().no_duplicates(),
    {
        let ghost listing = tools@.map_values(|l: McpToolListing| listing_view(l));
        let ghost start = self.names();
        let mut out: Vec<LoadedMcpTool> = Vec::new();
        let mut i: usize = 0;
        assert(listing.take(0) =~= Seq::<(Seq<char>, Option<Seq<char>>)>::empty());
        assert(out@.map_values(|t: LoadedMcpTool| loaded_view(t)) =~= Seq::<
            (Seq<char>, Seq<char>, Seq<char>, nat),
        >::empty());
        assert(self.names() =~= start + Seq::<Seq<char>>::empty());
        while i < tools.len()
            invariant
                i <= tools.len(),
                listing == tools@.map_values(|l: McpToolListing| listing_view(l)),
                out@.map_values(|t: LoadedMcpTool| loaded_view(t)) == loaded(start, server_name@, listing.take(i as int)),
                self.names() == start + loaded(start, server_name@, listing.take(i as int)).map_values(
                    |e: (Seq<char>, Seq<char>, Seq<char>, nat)| e.0,
                ),
                start.no_duplicates() ==> self.names().no_duplicates(),
            decreases tools.len() - i,
        {
            let ghost prev = loaded(start, server_name@, listing.take(i as int));
            proof {
                assert(listing.take(i + 1).drop_last() =~= listing.take(i as int));
                assert(listing.take(i + 1).last() == listing_view(tools@[i as int]));
            }
            let original = trim_str(tools[i].name.as_str());
            if original.as_str().is_empty() {
                i += 1;
                continue;
            }
            let name = exposed_tool_name(server_name, original.as_str());
            if contains_string(&self.names, name.as_str()) {
                i += 1;
                continue;
            }
            let description = match &tools[i].description {
                Some(d) => d.clone(),
                None => {
                    let a = concat("MCP tool from ", server_name);
                    concat(a.as_str(), " server")
                },
            };
            let head = concat("[MCP:", server_name);
            let head = concat(head.as_str(), "] ");
            let full = concat(head.as_str(), description.as_str());
            let ghost entry = (name@, original@, full@, i as nat);
            let ghost names_before = self.names();
            let ghost out_before = out@.map_values(|t: LoadedMcpTool| loaded_view(t));
            let t = LoadedMcpTool {
                name: name.clone(),
                description: full,
                original_tool_name: original,
                listing_index: i,
            };
            out.push(t);
            self.names.push(name);
            proof {
                let next = prev.push(entry);
                assert(loaded(start, server_name@, listing.take(i + 1)) == next);
                assert(out@.map_values(|t: LoadedMcpTool| loaded_view(t)) =~= out_before.push(entry));
                assert(self.names() =~= names_before.push(entry.0));
                assert(next.map_values(|e: (Seq<char>, Seq<char>, Seq<char>, nat)| e.0) =~= prev.map_values(
                    |e: (Seq<char>, Seq<char>, Seq<char>, nat)| e.0,
                ).push(entry.0));
                if start.no_duplicates() {
                    assert forall|a: int, b: int|
                        0 <= a < self.names().len() && 0 <= b < self.names().len() && a != b implies self.names()[a]
                        != self.names()[b] by {
                        if a == names_before.len() {
                            assert(names_before.contains(names_before[b]));
                        } else if b == names_before.len() {
                            assert(names_before.contains(names_before[a]));
                        }
                    }
                }
            }
            i += 1;
        }
        assert(listing.take(tools.len() as int) =~= listing);
        out
    }
}

} // verus!
