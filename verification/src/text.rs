//! Text primitives for log demultiplexing: lossy byte decoding,
//! whitespace trimming, and correlation-prefix matching.

use vstd::prelude::*;
use vstd::string::StrSliceExecFns;
use vstd::string::StringExecFns;

verus! {

/// Name for the text that lossy UTF-8 decoding yields for a byte
/// sequence; the result is a function of the bytes alone.
pub uninterp spec fn decode_lossy(bytes: Seq<u8>) -> Seq<char>;

/// Relies on `String::from_utf8_lossy`: the decoded text depends only on
/// the bytes; no bytes decode to no text; ASCII bytes are valid UTF-8,
/// which the documentation promises is passed through unchanged, each
/// byte as the character it encodes.
#[verifier::external_body]
pub(crate) fn decode_lossy_bytes(bytes: &Vec<u8>) -> (r: String)
    ensures
        r@ == decode_lossy(bytes@),
        bytes@.len() == 0 ==> r@.len() == 0,
        (forall|i: int| 0 <= i < bytes@.len() ==> bytes@[i] < 128) ==> r@ == bytes@.map(
            |i: int, b: u8| b as char,
        ),
{
    String::from_utf8_lossy(bytes).into_owned()
}

/// Whitespace as `char::is_whitespace` defines it: the characters with
/// the Unicode `White_Space` property.
pub open spec fn is_space(c: char) -> bool {
    let u = c as u32;
    (0x09 <= u && u <= 0x0D) || u == 0x20 || u == 0x85 || u == 0xA0 || u == 0x1680 || (0x2000
        <= u && u <= 0x200A) || u == 0x2028 || u == 0x2029 || u == 0x202F || u == 0x205F || u
        == 0x3000
}

/// Decides `is_space` for one character.
pub fn is_space_char(c: char) -> (r: bool)
    ensures
        r == is_space(c),
{
    let u = c as u32;
    (0x09 <= u && u <= 0x0D) || u == 0x20 || u == 0x85 || u == 0xA0 || u == 0x1680 || (0x2000
        <= u && u <= 0x200A) || u == 0x2028 || u == 0x2029 || u == 0x202F || u == 0x205F || u
        == 0x3000
}

/// The text with its leading whitespace removed.
pub open spec fn trim_start_spec(s: Seq<char>) -> Seq<char>
    decreases s.len(),
{
    if s.len() > 0 && is_space(s[0]) {
        trim_start_spec(s.drop_first())
    } else {
        s
    }
}

/// The text with its trailing whitespace removed.
pub open spec fn trim_end_spec(s: Seq<char>) -> Seq<char>
    decreases s.len(),
{
    if s.len() > 0 && is_space(s[s.len() - 1]) {
        trim_end_spec(s.drop_last())
    } else {
        s
    }
}

/// The text with leading and trailing whitespace removed.
pub open spec fn trimmed(s: Seq<char>) -> Seq<char> {
    trim_end_spec(trim_start_spec(s))
}

proof fn lemma_trim_start_as_subrange(s: Seq<char>, i: int)
    requires
        0 <= i <= s.len(),
        forall|k: int| 0 <= k < i ==> is_space(s[k]),
        i == s.len() || !is_space(s[i]),
    ensures
        trim_start_spec(s) == s.subrange(i, s.len() as int),
    decreases i,
{
    if i == 0 {
        assert(s.subrange(0, s.len() as int) =~= s);
    } else {
        assert(is_space(s[0]));
        lemma_trim_start_as_subrange(s.drop_first(), i - 1);
        assert(s.drop_first().subrange(i - 1, s.drop_first().len() as int) =~= s.subrange(
            i,
            s.len() as int,
        ));
    }
}

proof fn lemma_trim_end_as_subrange(s: Seq<char>, j: int)
    requires
        0 <= j <= s.len(),
        forall|k: int| j <= k < s.len() ==> is_space(s[k]),
        j == 0 || !is_space(s[j - 1]),
    ensures
        trim_end_spec(s) == s.subrange(0, j),
    decreases s.len() - j,
{
    if j == s.len() {
        assert(s.subrange(0, s.len() as int) =~= s);
    } else {
        assert(is_space(s[s.len() - 1]));
        lemma_trim_end_as_subrange(s.drop_last(), j);
        assert(s.drop_last().subrange(0, j) =~= s.subrange(0, j));
    }
}

/// Removes leading and trailing whitespace, as `str::trim` would.
pub fn trim<'a>(s: &'a str) -> (r: &'a str)
    ensures
        r@ == trimmed(s@),
{
    let n = s.unicode_len();
    let mut i: usize = 0;
    while i < n && is_space_char(s.get_char(i))
        invariant
            0 <= i <= n,
            n == s@.len(),
            forall|k: int| 0 <= k < i ==> is_space(s@[k]),
        decreases n - i,
    {
        i += 1;
    }
    if i == n {
        proof {
            lemma_trim_start_as_subrange(s@, n as int);
            assert(trim_start_spec(s@) =~= Seq::<char>::empty());
            assert(s@.subrange(n as int, n as int) =~= Seq::<char>::empty());
        }
        return s.substring_char(n, n);
    }
    let mut j: usize = n;
    while is_space_char(s.get_char(j - 1))
        invariant
            i < j <= n,
            n == s@.len(),
            !is_space(s@[i as int]),
            forall|k: int| j <= k < n ==> is_space(s@[k]),
        decreases j,
    {
        j -= 1;
    }
    let r = s.substring_char(i, j);
    proof {
        lemma_trim_start_as_subrange(s@, i as int);
        lemma_trim_end_as_subrange(s@.subrange(i as int, n as int), j - i);
        assert(s@.subrange(i as int, n as int).subrange(0, j - i) =~= s@.subrange(
            i as int,
            j as int,
        ));
    }
    r
}

/// Leading whitespace never survives `trim_start_spec`.
proof fn lemma_trim_start_no_leading(s: Seq<char>)
    ensures
        trim_start_spec(s).len() == 0 || !is_space(trim_start_spec(s)[0]),
    decreases s.len(),
{
    if s.len() > 0 && is_space(s[0]) {
        lemma_trim_start_no_leading(s.drop_first());
    }
}

/// Trailing whitespace never survives `trim_end_spec`.
proof fn lemma_trim_end_no_trailing(s: Seq<char>)
    ensures
        trim_end_spec(s).len() == 0 || !is_space(trim_end_spec(s)[trim_end_spec(s).len() - 1]),
    decreases s.len(),
{
    if s.len() > 0 && is_space(s[s.len() - 1]) {
        lemma_trim_end_no_trailing(s.drop_last());
    }
}

/// `trim_end_spec` keeps the first character when it keeps anything.
proof fn lemma_trim_end_first(s: Seq<char>)
    ensures
        trim_end_spec(s).len() > 0 ==> trim_end_spec(s)[0] == s[0],
    decreases s.len(),
{
    if s.len() > 0 && is_space(s[s.len() - 1]) {
        lemma_trim_end_first(s.drop_last());
    }
}

/// Trimming is idempotent: a trimmed text trims to itself.
pub proof fn lemma_trimmed_idempotent(s: Seq<char>)
    ensures
        trimmed(trimmed(s)) == trimmed(s),
{
    let a = trim_start_spec(s);
    let u = trim_end_spec(a);
    if u.len() == 0 {
        assert(trim_start_spec(u) == u);
        assert(trim_end_spec(u) == u);
    } else {
        lemma_trim_start_no_leading(s);
        assert(a.len() > 0);
        lemma_trim_end_first(a);
        assert(!is_space(u[0]));
        lemma_trim_end_no_trailing(a);
        assert(trim_start_spec(u) == u);
        assert(trim_end_spec(u) == u);
    }
}

/// A non-whitespace character survives `trim_start_spec`.
proof fn lemma_trim_start_keeps(s: Seq<char>, c: char)
    requires
        !is_space(c),
        s.contains(c),
    ensures
        trim_start_spec(s).contains(c),
    decreases s.len(),
{
    if s.len() > 0 && is_space(s[0]) {
        let k = choose|k: int| 0 <= k < s.len() && s[k] == c;
        assert(s.drop_first()[k - 1] == c);
        lemma_trim_start_keeps(s.drop_first(), c);
    }
}

/// A non-whitespace character survives `trim_end_spec`.
proof fn lemma_trim_end_keeps(s: Seq<char>, c: char)
    requires
        !is_space(c),
        s.contains(c),
    ensures
        trim_end_spec(s).contains(c),
    decreases s.len(),
{
    if s.len() > 0 && is_space(s[s.len() - 1]) {
        let k = choose|k: int| 0 <= k < s.len() && s[k] == c;
        assert(s.drop_last()[k] == c);
        lemma_trim_end_keeps(s.drop_last(), c);
    }
}

/// A non-whitespace character survives trimming.
pub proof fn lemma_trimmed_keeps(s: Seq<char>, c: char)
    requires
        !is_space(c),
        s.contains(c),
    ensures
        trimmed(s).contains(c),
{
    lemma_trim_start_keeps(s, c);
    lemma_trim_end_keeps(trim_start_spec(s), c);
}

/// The literal prefix that marks a stdout line as belonging to `key`.
pub open spec fn prefix_for(key: Seq<char>) -> Seq<char> {
    seq!['['] + key + seq![']']
}

/// Whether `p` is a prefix of `s`.
pub open spec fn has_prefix(s: Seq<char>, p: Seq<char>) -> bool {
    p.len() <= s.len() && p == s.subrange(0, p.len() as int)
}

/// Builds the literal correlation prefix `[key]`.
pub fn make_prefix(key: &str) -> (r: String)
    ensures
        r@ == prefix_for(key@),
{
    let mut r = String::from_str("[");
    r.append(key);
    r.append("]");
    proof {
        reveal_strlit("[");
        reveal_strlit("]");
        assert(r@ =~= prefix_for(key@));
    }
    r
}

/// If the line starts with the literal `[key]`, returns the remainder of
/// the line after that prefix; otherwise reports no match.
pub fn strip_key_prefix<'a>(s: &'a str, key: &str) -> (r: Option<&'a str>)
    ensures
        has_prefix(s@, prefix_for(key@)) ==> (r matches Some(t) && t@ == s@.subrange(
            key@.len() + 2 as int,
            s@.len() as int,
        )),
        !has_prefix(s@, prefix_for(key@)) ==> r is None,
{
    let n = s.unicode_len();
    let k = key.unicode_len();
    if n < 2 || k > n - 2 {
        proof {
            assert(prefix_for(key@).len() == key@.len() + 2);
        }
        return None;
    }
    if s.get_char(0) != '[' {
        proof {
            assert(prefix_for(key@)[0] == '[');
        }
        return None;
    }
    if s.get_char(k + 1) != ']' {
        proof {
            assert(prefix_for(key@)[key@.len() as int + 1] == ']');
        }
        return None;
    }
    let mut idx: usize = 0;
    while idx < k
        invariant
            0 <= idx <= k,
            n == s@.len(),
            k == key@.len(),
            k + 2 <= n,
            forall|t: int| 0 <= t < idx ==> s@[t + 1] == key@[t],
        decreases k - idx,
    {
        if s.get_char(idx + 1) != key.get_char(idx) {
            proof {
                assert(prefix_for(key@)[idx + 1] == key@[idx as int]);
            }
            return None;
        }
        idx += 1;
    }
    proof {
        assert(prefix_for(key@) =~= s@.subrange(0, key@.len() as int + 2)) by {
            assert(forall|t: int|
                0 <= t < key@.len() ==> prefix_for(key@)[t + 1] == key@[t]);
        }
    }
    Some(s.substring_char(k + 2, n))
}

} // verus!
