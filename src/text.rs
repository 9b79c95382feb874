//! Character-level helpers: whitespace trimming, ASCII case folding and the
//! truth-table parser.
use vstd::prelude::*;
use vstd::std_specs::iter::IteratorSpec;

use crate::error::{ErrorKind, ErrorView};

verus! {

/// The characters with the Unicode `White_Space` property, the set that
/// `char::is_whitespace` and `str::trim` use.
pub open spec fn is_white(c: char) -> bool {
    let u = c as u32;
    (0x9 <= u <= 0xd) || u == 0x20 || u == 0x85 || u == 0xa0 || u == 0x1680 || (0x2000 <= u
        <= 0x200a) || u == 0x2028 || u == 0x2029 || u == 0x202f || u == 0x205f || u == 0x3000
}

/// `s` without its leading whitespace.
pub open spec fn trim_start(s: Seq<char>) -> Seq<char>
    decreases s.len(),
{
    if s.len() > 0 && is_white(s[0]) {
        trim_start(s.drop_first())
    } else {
        s
    }
}

/// `s` without its trailing whitespace.
pub open spec fn trim_end(s: Seq<char>) -> Seq<char>
    decreases s.len(),
{
    if s.len() > 0 && is_white(s.last()) {
        trim_end(s.drop_last())
    } else {
        s
    }
}

/// `s` without leading and trailing whitespace.
pub open spec fn trim(s: Seq<char>) -> Seq<char> {
    trim_end(trim_start(s))
}

/// True when `s` holds nothing but whitespace (or nothing at all).
pub open spec fn is_blank(s: Seq<char>) -> bool {
    forall|i: int| 0 <= i < s.len() ==> is_white(#[trigger] s[i])
}

/// ASCII lower case of one character; every other character is kept.
pub open spec fn lower_char(c: char) -> char {
    if 'A' <= c <= 'Z' {
        (((c as u8) + 32) as u8) as char
    } else {
        c
    }
}

pub open spec fn lower(s: Seq<char>) -> Seq<char> {
    s.map_values(|c: char| lower_char(c))
}

/// Tokens read as `true`.
pub open spec fn truthy_tokens() -> Seq<Seq<char>> {
    seq!["y"@, "yes"@, "t"@, "true"@, "on"@, "1"@]
}

/// Tokens read as `false`. `none` and `null` are deliberately not among them.
pub open spec fn falsy_tokens() -> Seq<Seq<char>> {
    seq!["n"@, "no"@, "f"@, "false"@, "off"@, "0"@]
}

/// The truth table: the input is trimmed and lower-cased, then looked up.
///
/// ASCII folding gives the same answer as full Unicode lower-casing here:
/// every token is ASCII, and no non-ASCII character lower-cases to one of
/// the letters that the tokens use.
pub open spec fn truth_of(s: Seq<char>) -> Option<bool> {
    let t = lower(trim(s));
    if truthy_tokens().contains(t) {
        Some(true)
    } else if falsy_tokens().contains(t) {
        Some(false)
    } else {
        None
    }
}

/// The characters of `s`, in order.
pub fn chars_of(s: &str) -> (r: Vec<char>)
    ensures
        r@ == s@,
{
    let mut r: Vec<char> = Vec::new();
    for c in it: s.chars()
        invariant
            r@ == it.history(),
            it.seq() == s@,
    {
        r.push(c);
    }
    r
}

/// `char::is_whitespace`, on the set that `is_white` names.
pub fn is_whitespace_char(c: char) -> (r: bool)
    ensures
        r == is_white(c),
{
    let u = c as u32;
    (0x9 <= u && u <= 0xd) || u == 0x20 || u == 0x85 || u == 0xa0 || u == 0x1680 || (0x2000 <= u
        && u <= 0x200a) || u == 0x2028 || u == 0x2029 || u == 0x202f || u == 0x205f || u == 0x3000
}

/// Whether `v` holds nothing but whitespace.
pub fn all_white(v: &Vec<char>) -> (r: bool)
    ensures
        r == is_blank(v@),
{
    let n = v.len();
    let mut k: usize = 0;
    while k < n
        invariant
            k <= n == v@.len(),
            forall|i: int| 0 <= i < k ==> is_white(#[trigger] v@[i]),
        decreases n - k,
    {
        if !is_whitespace_char(v[k]) {
            return false;
        }
        k = k + 1;
    }
    true
}

/// The characters of `v` from `lo` up to (not including) `hi`.
pub fn slice_chars(v: &Vec<char>, lo: usize, hi: usize) -> (r: Vec<char>)
    requires
        lo <= hi <= v@.len(),
    ensures
        r@ == v@.subrange(lo as int, hi as int),
{
    let mut r: Vec<char> = Vec::new();
    let mut k: usize = lo;
    while k < hi
        invariant
            lo <= k <= hi <= v@.len(),
            r@ == v@.subrange(lo as int, k as int),
        decreases hi - k,
    {
        r.push(v[k]);
        proof {
            assert(v@.subrange(lo as int, k + 1) =~= v@.subrange(lo as int, k as int).push(v@[k as int]));
        }
        k = k + 1;
    }
    r
}

/// `v` without leading and trailing whitespace.
pub fn trim_chars(v: &Vec<char>) -> (r: Vec<char>)
    ensures
        r@ == trim(v@),
{
    let n = v.len();
    let mut a: usize = 0;
    proof {
        assert(v@.subrange(0, n as int) =~= v@);
    }
    while a < n && is_whitespace_char(v[a])
        invariant
            a <= n == v@.len(),
            trim_start(v@) == trim_start(v@.subrange(a as int, n as int)),
        decreases n - a,
    {
        proof {
            assert(v@.subrange(a as int, n as int).drop_first() =~= v@.subrange(a + 1, n as int));
        }
        a = a + 1;
    }
    let mut b: usize = n;
    proof {
        assert(v@.subrange(a as int, n as int).subrange(0, (n - a) as int) =~= v@.subrange(a as int, n as int));
    }
    while b > a && is_whitespace_char(v[b - 1])
        invariant
            a <= b <= n == v@.len(),
            trim_start(v@) == v@.subrange(a as int, n as int),
            trim(v@) == trim_end(v@.subrange(a as int, b as int)),
        decreases b - a,
    {
        proof {
            assert(v@.subrange(a as int, b as int).drop_last() =~= v@.subrange(a as int, b - 1));
        }
        b = b - 1;
    }
    slice_chars(v, a, b)
}

/// `v` with every ASCII capital letter lower-cased.
pub fn lower_chars(v: &Vec<char>) -> (r: Vec<char>)
    ensures
        r@ == lower(v@),
{
    let mut r: Vec<char> = Vec::new();
    let n = v.len();
    let mut k: usize = 0;
    while k < n
        invariant
            k <= n == v@.len(),
            r@ == lower(v@.subrange(0, k as int)),
        decreases n - k,
    {
        let c = v[k];
        let l = if 'A' <= c && c <= 'Z' {
            ((c as u8) + 32u8) as char
        } else {
            c
        };
        r.push(l);
        proof {
            assert(lower(v@.subrange(0, k + 1)) =~= lower(v@.subrange(0, k as int)).push(lower_char(c)));
        }
        k = k + 1;
    }
    proof {
        assert(v@.subrange(0, n as int) =~= v@);
    }
    r
}

/// Whether two character sequences are equal.
pub fn chars_eq(a: &Vec<char>, b: &Vec<char>) -> (r: bool)
    ensures
        r == (a@ == b@),
{
    if a.len() != b.len() {
        return false;
    }
    let n = a.len();
    let mut k: usize = 0;
    while k < n
        invariant
            k <= n == a@.len() == b@.len(),
            forall|i: int| 0 <= i < k ==> a@[i] == b@[i],
        decreases n - k,
    {
        if a[k] != b[k] {
            return false;
        }
        k = k + 1;
    }
    proof {
        assert(a@ =~= b@);
    }
    true
}

/// What a table of tokens holds, as character sequences.
pub open spec fn table_view(t: Seq<Vec<char>>) -> Seq<Seq<char>> {
    t.map_values(|w: Vec<char>| w@)
}

/// Whether `w` is one of the tokens of `table`.
pub fn table_contains(table: &Vec<Vec<char>>, w: &Vec<char>) -> (r: bool)
    ensures
        r == table_view(table@).contains(w@),
{
    let n = table.len();
    let mut k: usize = 0;
    while k < n
        invariant
            k <= n == table@.len(),
            forall|i: int| 0 <= i < k ==> table@[i]@ != w@,
        decreases n - k,
    {
        if chars_eq(&table[k], w) {
            proof {
                assert(table_view(table@)[k as int] == w@);
            }
            return true;
        }
        k = k + 1;
    }
    proof {
        if table_view(table@).contains(w@) {
            let i = choose|i: int| 0 <= i < table_view(table@).len() && table_view(table@)[i] == w@;
            assert(table@[i]@ == w@);
        }
    }
    false
}

/// Builds a table of tokens from string literals.
fn table_of(words: &[&str]) -> (r: Vec<Vec<char>>)
    ensures
        table_view(r@) == words@.map_values(|w: &str| w@),
{
    let mut r: Vec<Vec<char>> = Vec::new();
    let n = words.len();
    let mut k: usize = 0;
    while k < n
        invariant
            k <= n == words@.len(),
            table_view(r@) == words@.subrange(0, k as int).map_values(|w: &str| w@),
        decreases n - k,
    {
        let w = chars_of(words[k]);
        let ghost before = r@;
        r.push(w);
        proof {
            assert(r@ == before.push(w));
            assert(table_view(r@) =~= table_view(before).push(w@));
            assert(words@.subrange(0, k + 1) =~= words@.subrange(0, k as int).push(words@[k as int]));
            assert(table_view(r@) =~= words@.subrange(0, k + 1).map_values(|w: &str| w@));
        }
        k = k + 1;
    }
    proof {
        assert(words@.subrange(0, n as int) =~= words@);
    }
    r
}

/// The truth table: reads a token as a boolean.
///
/// Leading and trailing whitespace is ignored and ASCII letters match in
/// either case. Any other token is refused with `InvalidBoolean`, which
/// carries the input as given.
pub fn strtobool(val: &str) -> (r: Result<bool, ErrorKind>)
    ensures
        r matches Ok(b) ==> truth_of(val@) == Some(b),
        r is Err <==> truth_of(val@) is None,
        r matches Err(e) ==> e@ == (ErrorView::InvalidBoolean { token: val@ }),
{
    let t = lower_chars(&trim_chars(&chars_of(val)));
    let truthy = table_of(&["y", "yes", "t", "true", "on", "1"]);
    let falsy = table_of(&["n", "no", "f", "false", "off", "0"]);
    proof {
        assert(table_view(truthy@) =~= truthy_tokens());
        assert(table_view(falsy@) =~= falsy_tokens());
    }
    if table_contains(&truthy, &t) {
        Ok(true)
    } else if table_contains(&falsy, &t) {
        Ok(false)
    } else {
        Err(ErrorKind::InvalidBoolean { token: val.to_string() })
    }
}

/// Relies on std's `String: FromIterator<char>`: the string of the given
/// characters, in order.
#[verifier::external_body]
pub(crate) fn string_of(v: &Vec<char>) -> (r: String)
    ensures
        r@ == v@,
{
    v.iter().collect()
}

/// Whether a character has the Unicode `Uppercase` property.
pub uninterp spec fn is_upper(c: char) -> bool;

/// Relies on std's `char::is_uppercase`: the Unicode `Uppercase` property
/// of one character.
#[verifier::external_body]
fn uppercase(c: char) -> (r: bool)
    ensures
        r == is_upper(c),
{
    c.is_uppercase()
}

/// A camel-case text with a space put before each capital that does not
/// start the text or already follow a space.
pub open spec fn slugified(s: Seq<char>) -> Seq<char>
    decreases s.len(),
{
    if s.len() == 0 {
        s
    } else {
        let acc = slugified(s.drop_last());
        let c = s.last();
        if s.len() > 1 && is_upper(c) && acc.last() != ' ' {
            acc.push(' ').push(c)
        } else {
            acc.push(c)
        }
    }
}

proof fn lemma_slugified_nonempty(s: Seq<char>)
    requires
        s.len() > 0,
    ensures
        slugified(s).len() > 0,
    decreases s.len(),
{
}

/// Splits a camel-case text into words: `"HelloWorld"` becomes
/// `"Hello World"`.
pub fn slugify_camelcase(obj: String) -> (r: String)
    ensures
        r@ == slugified(obj@),
{
    let v = chars_of(obj.as_str());
    let n = v.len();
    let mut out: Vec<char> = Vec::new();
    let mut k: usize = 0;
    while k < n
        invariant
            k <= n == v@.len(),
            v@ == obj@,
            out@ == slugified(v@.subrange(0, k as int)),
        decreases n - k,
    {
        let c = v[k];
        let ghost prefix = v@.subrange(0, k as int);
        proof {
            assert(v@.subrange(0, k + 1).drop_last() =~= prefix);
            if k > 0 {
                lemma_slugified_nonempty(prefix);
            }
        }
        if k > 0 && uppercase(c) && out[out.len() - 1] != ' ' {
            out.push(' ');
        }
        out.push(c);
        k = k + 1;
    }
    proof {
        assert(v@.subrange(0, n as int) =~= v@);
    }
    string_of(&out)
}

} // verus!
