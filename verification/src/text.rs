//! Text handling shared by the wire protocol: the whitespace predicate,
//! trimming of handshake lines, the blank-chunk test, and the framing of a
//! relayed message as `"<sender>: <payload>\n"`.

use vstd::prelude::*;
use vstd::string::StrSliceExecFns;
use vstd::string::StringExecFns;

verus! {

/// A character with the Unicode `White_Space` property, the set that
/// `str::trim` strips from the ends of a line.
pub open spec fn is_whitespace_char(c: char) -> bool {
    c == ' ' || c == '\t' || c == '\n' || c == '\u{0b}' || c == '\u{0c}' || c == '\r'
        || c == '\u{85}' || c == '\u{a0}' || c == '\u{1680}' || c == '\u{2000}'
        || c == '\u{2001}' || c == '\u{2002}' || c == '\u{2003}' || c == '\u{2004}'
        || c == '\u{2005}' || c == '\u{2006}' || c == '\u{2007}' || c == '\u{2008}'
        || c == '\u{2009}' || c == '\u{200a}' || c == '\u{2028}' || c == '\u{2029}'
        || c == '\u{202f}' || c == '\u{205f}' || c == '\u{3000}'
}

fn whitespace_char(c: char) -> (r: bool)
    ensures
        r == is_whitespace_char(c),
{
    c == ' ' || c == '\t' || c == '\n' || c == '\u{0b}' || c == '\u{0c}' || c == '\r'
        || c == '\u{85}' || c == '\u{a0}' || c == '\u{1680}' || c == '\u{2000}'
        || c == '\u{2001}' || c == '\u{2002}' || c == '\u{2003}' || c == '\u{2004}'
        || c == '\u{2005}' || c == '\u{2006}' || c == '\u{2007}' || c == '\u{2008}'
        || c == '\u{2009}' || c == '\u{200a}' || c == '\u{2028}' || c == '\u{2029}'
        || c == '\u{202f}' || c == '\u{205f}' || c == '\u{3000}'
}

/// A blank text: every character is whitespace. A blank chunk is never
/// broadcast.
pub open spec fn is_blank_seq(s: Seq<char>) -> bool {
    forall|i: int| 0 <= i < s.len() ==> is_whitespace_char(s[i])
}

/// What is left of a text after leading whitespace is dropped.
pub open spec fn trim_front_spec(s: Seq<char>) -> Seq<char>
    decreases s.len(),
{
    if s.len() == 0 {
        s
    } else if is_whitespace_char(s[0]) {
        trim_front_spec(s.drop_first())
    } else {
        s
    }
}

/// What is left of a text after trailing whitespace is dropped.
pub open spec fn trim_back_spec(s: Seq<char>) -> Seq<char>
    decreases s.len(),
{
    if s.len() == 0 {
        s
    } else if is_whitespace_char(s.last()) {
        trim_back_spec(s.drop_last())
    } else {
        s
    }
}

/// A text with surrounding whitespace dropped, as the handshake lines are
/// normalised before authentication.
pub open spec fn trim_spec(s: Seq<char>) -> Seq<char> {
    trim_back_spec(trim_front_spec(s))
}

proof fn lemma_trim_front_of_blank(s: Seq<char>)
    requires
        is_blank_seq(s),
    ensures
        trim_front_spec(s) =~= Seq::<char>::empty(),
    decreases s.len(),
{
    if s.len() > 0 {
        assert(is_blank_seq(s.drop_first()));
        lemma_trim_front_of_blank(s.drop_first());
    }
}

proof fn lemma_trim_front_range(s: Seq<char>, i: int)
    requires
        0 <= i < s.len(),
        forall|k: int| 0 <= k < i ==> is_whitespace_char(s[k]),
        !is_whitespace_char(s[i]),
    ensures
        trim_front_spec(s) =~= s.subrange(i, s.len() as int),
    decreases i,
{
    if i == 0 {
        assert(trim_front_spec(s) =~= s.subrange(0, s.len() as int));
    } else {
        let t = s.drop_first();
        assert(forall|k: int| 0 <= k < i - 1 ==> is_whitespace_char(t[k]));
        lemma_trim_front_range(t, i - 1);
        assert(t.subrange(i - 1, t.len() as int) =~= s.subrange(i, s.len() as int));
    }
}

proof fn lemma_trim_back_range(s: Seq<char>, j: int)
    requires
        0 < j <= s.len(),
        forall|k: int| j <= k < s.len() ==> is_whitespace_char(s[k]),
        !is_whitespace_char(s[j - 1]),
    ensures
        trim_back_spec(s) =~= s.subrange(0, j),
    decreases s.len(),
{
    if j == s.len() {
        assert(trim_back_spec(s) =~= s.subrange(0, j));
    } else {
        let t = s.drop_last();
        assert(forall|k: int| j <= k < t.len() ==> is_whitespace_char(t[k]));
        lemma_trim_back_range(t, j);
        assert(t.subrange(0, j) =~= s.subrange(0, j));
    }
}

proof fn lemma_not_blank_trim_front(s: Seq<char>)
    requires
        !is_blank_seq(s),
    ensures
        !is_blank_seq(trim_front_spec(s)),
    decreases s.len(),
{
    let i = choose|i: int| 0 <= i < s.len() && !is_whitespace_char(s[i]);
    if is_whitespace_char(s[0]) {
        let t = s.drop_first();
        assert(t[i - 1] == s[i]);
        assert(!is_blank_seq(t));
        lemma_not_blank_trim_front(t);
    }
}

proof fn lemma_not_blank_trim_back(s: Seq<char>)
    requires
        !is_blank_seq(s),
    ensures
        trim_back_spec(s).len() > 0,
    decreases s.len(),
{
    let i = choose|i: int| 0 <= i < s.len() && !is_whitespace_char(s[i]);
    if is_whitespace_char(s.last()) {
        let t = s.drop_last();
        assert(t[i] == s[i]);
        assert(!is_blank_seq(t));
        lemma_not_blank_trim_back(t);
    }
}

/// A chunk is suppressed exactly when trimming leaves nothing of it: the
/// blank test and an emptiness test after trimming agree on every text.
pub proof fn lemma_blank_iff_trim_empty(s: Seq<char>)
    ensures
        is_blank_seq(s) <==> trim_spec(s).len() == 0,
{
    if is_blank_seq(s) {
        lemma_trim_front_of_blank(s);
    } else {
        lemma_not_blank_trim_front(s);
        lemma_not_blank_trim_back(trim_front_spec(s));
    }
}

/// True when the text is entirely whitespace; such a chunk is not relayed.
pub fn is_blank(s: &str) -> (r: bool)
    ensures
        r == is_blank_seq(s@),
{
    let n = s.unicode_len();
    let mut i: usize = 0;
    while i < n
        invariant
            i <= n,
            n == s@.len(),
            forall|k: int| 0 <= k < i ==> is_whitespace_char(s@[k]),
        decreases n - i,
    {
        if !whitespace_char(s.get_char(i)) {
            return false;
        }
        i += 1;
    }
    true
}

/// Drops surrounding whitespace, as the username and password lines are
/// normalised before they are checked.
pub fn trim(s: &str) -> (r: String)
    ensures
        r@ == trim_spec(s@),
{
    let n = s.unicode_len();
    let mut i: usize = 0;
    while i < n && whitespace_char(s.get_char(i))
        invariant
            i <= n,
            n == s@.len(),
            forall|k: int| 0 <= k < i ==> is_whitespace_char(s@[k]),
        decreases n - i,
    {
        i += 1;
    }
    if i == n {
        proof {
            lemma_trim_front_of_blank(s@);
        }
        return String::new();
    }
    let mut j: usize = n;
    while j > i && whitespace_char(s.get_char(j - 1))
        invariant
            i <= j <= n,
            n == s@.len(),
            forall|k: int| j <= k < n ==> is_whitespace_char(s@[k]),
        decreases j,
    {
        j -= 1;
    }
    proof {
        lemma_trim_front_range(s@, i as int);
        let t = s@.subrange(i as int, n as int);
        lemma_trim_back_range(t, j as int - i as int);
        assert(t.subrange(0, j as int - i as int) =~= s@.subrange(i as int, j as int));
    }
    let sub = s.substring_char(i, j);
    sub.to_owned()
}

/// The text a chunk of bytes decodes to: UTF-8, with invalid sequences
/// replaced. It depends on the bytes alone.
pub uninterp spec fn lossy_decode(bytes: Seq<u8>) -> Seq<char>;

/// Relies on String::from_utf8_lossy: decodes UTF-8, replacing invalid
/// sequences with U+FFFD; the result depends on the bytes alone.
#[verifier::external_body]
pub(crate) fn utf8_lossy(bytes: &[u8]) -> (r: String)
    ensures
        r@ == lossy_decode(bytes@),
{
    String::from_utf8_lossy(bytes).into_owned()
}

/// Character-for-character equality of two texts.
pub fn str_eq(a: &str, b: &str) -> (r: bool)
    ensures
        r == (a@ == b@),
{
    let na = a.unicode_len();
    let nb = b.unicode_len();
    if na != nb {
        return false;
    }
    let mut i: usize = 0;
    while i < na
        invariant
            i <= na,
            na == a@.len(),
            na == b@.len(),
            forall|k: int| 0 <= k < i ==> a@[k] == b@[k],
        decreases na - i,
    {
        if a.get_char(i) != b.get_char(i) {
            return false;
        }
        i += 1;
    }
    proof {
        assert(a@ =~= b@);
    }
    true
}

/// Frames one relayed message: the sender's name, a separating `": "`, the
/// payload as received, and the trailing newline the relay appends.
pub fn format_message(sender: &str, payload: &str) -> (r: String)
    ensures
        r@ == sender@ + ": "@ + payload@ + "\n"@,
{
    let mut m = String::from_str(sender);
    m.append(": ");
    m.append(payload);
    m.append("\n");
    proof {
        assert(m@ =~= sender@ + ": "@ + payload@ + "\n"@);
    }
    m
}

} // verus!
