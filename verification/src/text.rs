//! Text and byte-string operations that the protocols are written with.

use vstd::prelude::*;
use vstd::string::*;
use vstd::utf8::*;

verus! {

broadcast use vstd::string::group_string_axioms;

/// `String::push` appends one character.
pub assume_specification[ String::push ](s: &mut String, c: char)
    ensures
        final(s)@ == old(s)@.push(c),
;

/// `std::str::from_utf8` accepts exactly the valid UTF-8 byte strings, and gives the string
/// that is encoded by them.
#[verifier::external_body]
pub(crate) fn utf8_str(bytes: &[u8]) -> (res: Option<&str>)
    ensures
        res is Some <==> valid_utf8(bytes@),
        res matches Some(s) ==> s.spec_bytes() == bytes@,
{
    std::str::from_utf8(bytes).ok()
}

/// The text of a byte string, where it is valid UTF-8.
pub fn utf8_text(bytes: &[u8]) -> (res: Option<String>)
    ensures
        res is Some <==> valid_utf8(bytes@),
        res matches Some(s) ==> s@ == decode_utf8(bytes@),
{
    match utf8_str(bytes) {
        Some(s) => {
            proof {
                encode_utf8_decode_utf8(s@);
            }
            Some(s.to_owned())
        },
        None => None,
    }
}

/// The encoding of a text behind another is the encoding of the one behind that of the other.
pub proof fn lemma_encode_concat(a: Seq<char>, b: Seq<char>)
    ensures
        encode_utf8(a + b) == encode_utf8(a) + encode_utf8(b),
    decreases a.len(),
{
    if a.len() == 0 {
        assert(a + b =~= b);
        assert(encode_utf8(a) + encode_utf8(b) =~= encode_utf8(b));
    } else {
        assert((a + b).drop_first() =~= a.drop_first() + b);
        lemma_encode_concat(a.drop_first(), b);
        assert(encode_utf8(a + b) =~= encode_utf8(a) + encode_utf8(b));
    }
}

/// The characters of a string, in order.
pub fn chars_of(s: &str) -> (res: Vec<char>)
    ensures
        res@ == s@,
{
    let mut out: Vec<char> = Vec::new();
    for c in it: s.chars()
        invariant
            out@ == it.seq().take(it.index() as int),
            it.seq() == s@,
    {
        out.push(c);
    }
    out
}

/// The decimal digit of a number below ten.
pub open spec fn digit(n: nat) -> char {
    (0x30 + n) as char
}

/// The decimal notation of a number, without leading zeros.
pub open spec fn decimal(n: nat) -> Seq<char>
    decreases n,
{
    if n < 10 {
        seq![digit(n)]
    } else {
        decimal(n / 10).push(digit(n % 10))
    }
}

/// The decimal notation of a number.
pub fn decimal_string(n: u64) -> (res: String)
    ensures
        res@ == decimal(n as nat),
    decreases n,
{
    let mut out = if n < 10 {
        String::new()
    } else {
        decimal_string(n / 10)
    };
    let d: u8 = (n % 10) as u8;
    out.push((0x30 + d) as char);
    out
}

/// The number that decimal digits denote.
pub open spec fn decimal_value(text: Seq<char>) -> nat
    decreases text.len(),
{
    if text.len() == 0 {
        0
    } else {
        (10 * decimal_value(text.drop_last()) + (text.last() as int - 0x30)) as nat
    }
}

/// The decimal notation of a number is made of digits, denotes that number, and starts with a
/// zero only where the number is zero.
pub proof fn law_decimal_notation_reads_back(n: nat)
    ensures
        decimal(n).len() > 0,
        decimal_value(decimal(n)) == n,
        forall|i: int| 0 <= i < decimal(n).len() ==> '0' <= #[trigger] decimal(n)[i] <= '9',
        decimal(n)[0] == '0' ==> decimal(n).len() == 1 && n == 0,
    decreases n,
{
    if n < 10 {
        assert(decimal(n).drop_last() =~= Seq::<char>::empty());
        assert(decimal_value(decimal(n).drop_last()) == 0);
        assert(decimal(n)[0] == digit(n));
    } else {
        law_decimal_notation_reads_back(n / 10);
        assert(decimal(n).drop_last() =~= decimal(n / 10));
        assert(decimal(n)[0] == decimal(n / 10)[0]);
    }
}

/// Whether `bytes` starts with `prefix`.
pub fn starts_with(bytes: &[u8], prefix: &[u8]) -> (res: bool)
    ensures
        res <==> prefix@.is_prefix_of(bytes@),
{
    if bytes.len() < prefix.len() {
        return false;
    }
    let mut i: usize = 0;
    while i < prefix.len()
        invariant
            i <= prefix.len() <= bytes.len(),
            forall|j: int| 0 <= j < i ==> prefix@[j] == bytes@[j],
        decreases prefix.len() - i,
    {
        if bytes[i] != prefix[i] {
            assert(prefix@[i as int] != bytes@.take(prefix@.len() as int)[i as int]);
            return false;
        }
        i = i + 1;
    }
    assert(prefix@ =~= bytes@.take(prefix@.len() as int));
    true
}

/// Whether two byte strings are the same.
pub fn same_bytes(a: &[u8], b: &[u8]) -> (res: bool)
    ensures
        res <==> a@ == b@,
{
    if a.len() != b.len() {
        return false;
    }
    let mut i: usize = 0;
    while i < a.len()
        invariant
            i <= a.len() == b.len(),
            forall|j: int| 0 <= j < i ==> a@[j] == b@[j],
        decreases a.len() - i,
    {
        if a[i] != b[i] {
            return false;
        }
        i = i + 1;
    }
    assert(a@ =~= b@);
    true
}

/// Whether two strings are the same.
pub fn same_text(a: &str, b: &str) -> (res: bool)
    ensures
        res <==> a@ == b@,
{
    let x = a.to_owned();
    let y = b.to_owned();
    x == y
}

/// A copy of a byte string.
pub fn bytes_copy(bytes: &[u8]) -> (res: Vec<u8>)
    ensures
        res@ == bytes@,
{
    let mut out: Vec<u8> = Vec::new();
    out.extend_from_slice(bytes);
    assert(out@ =~= bytes@);
    out
}

/// Whether `pattern` stands in `s` at position `at`.
pub open spec fn occurs_at(s: Seq<char>, pattern: Seq<char>, at: int) -> bool {
    &&& 0 <= at
    &&& at + pattern.len() <= s.len()
    &&& s.subrange(at, at + pattern.len()) == pattern
}

/// What stands in `s` before the first occurrence of `pattern`: all of `s` where there is none.
pub open spec fn is_before(s: Seq<char>, pattern: Seq<char>, head: Seq<char>) -> bool {
    &&& head.is_prefix_of(s)
    &&& forall|i: int| 0 <= i < head.len() ==> !occurs_at(s, pattern, i)
    &&& head.len() == s.len() || occurs_at(s, pattern, head.len() as int)
}

/// There is one text before the first occurrence.
pub proof fn lemma_before_is_unique(
    s: Seq<char>,
    pattern: Seq<char>,
    a: Seq<char>,
    b: Seq<char>,
)
    requires
        is_before(s, pattern, a),
        is_before(s, pattern, b),
    ensures
        a == b,
{
    assert(a =~= s.take(a.len() as int));
    assert(b =~= s.take(b.len() as int));
    if a.len() < b.len() {
        assert(occurs_at(s, pattern, a.len() as int));
    } else if b.len() < a.len() {
        assert(occurs_at(s, pattern, b.len() as int));
    }
}

/// What stands in `s` before the first occurrence of a non-empty `pattern`.
pub fn before(s: &str, pattern: &str) -> (res: String)
    requires
        pattern@.len() > 0,
    ensures
        is_before(s@, pattern@, res@),
{
    let text = chars_of(s);
    let pat = chars_of(pattern);
    let mut head = String::new();
    let mut i: usize = 0;
    while i < text.len()
        invariant
            text@ == s@,
            pat@ == pattern@,
            pat.len() > 0,
            i <= text.len(),
            head@ == s@.take(i as int),
            forall|j: int| 0 <= j < i ==> !occurs_at(s@, pattern@, j),
        decreases text.len() - i,
    {
        if matches_at(&text, &pat, i) {
            return head;
        }
        head.push(text[i]);
        assert(s@.take(i + 1) =~= s@.take(i as int).push(s@[i as int]));
        i = i + 1;
    }
    head
}

/// Whether `pattern` stands in `text` at position `at`.
fn matches_at(text: &Vec<char>, pattern: &Vec<char>, at: usize) -> (res: bool)
    requires
        at <= text.len(),
    ensures
        res <==> occurs_at(text@, pattern@, at as int),
{
    if text.len() - at < pattern.len() {
        return false;
    }
    let mut i: usize = 0;
    while i < pattern.len()
        invariant
            i <= pattern.len(),
            at + pattern.len() <= text.len(),
            forall|j: int| 0 <= j < i ==> text@[at + j] == pattern@[j],
        decreases pattern.len() - i,
    {
        if text[at + i] != pattern[i] {
            assert(text@.subrange(at as int, at + pattern@.len())[i as int] != pattern@[i as int]);
            return false;
        }
        i = i + 1;
    }
    assert(text@.subrange(at as int, at + pattern@.len()) =~= pattern@);
    true
}

/// `s` with every occurrence of `pattern` replaced, found from left to right and without overlap.
pub open spec fn replaced(s: Seq<char>, pattern: Seq<char>, by: Seq<char>) -> Seq<char>
    decreases s.len(),
{
    if s.len() == 0 || pattern.len() == 0 {
        s
    } else if pattern.is_prefix_of(s) {
        by + replaced(s.skip(pattern.len() as int), pattern, by)
    } else {
        seq![s[0]] + replaced(s.skip(1), pattern, by)
    }
}

/// `s` with every occurrence of a non-empty `pattern` replaced.
pub fn replace_all(s: &str, pattern: &str, by: &str) -> (res: String)
    requires
        pattern@.len() > 0,
    ensures
        res@ == replaced(s@, pattern@, by@),
{
    let text = chars_of(s);
    let pat = chars_of(pattern);
    let mut out = String::new();
    let mut i: usize = 0;
    assert(s@.skip(0) =~= s@);
    while i < text.len()
        invariant
            text@ == s@,
            pat@ == pattern@,
            pat.len() > 0,
            i <= text.len(),
            replaced(s@, pattern@, by@) == out@ + replaced(s@.skip(i as int), pattern@, by@),
        decreases text.len() - i,
    {
        let ghost rest = s@.skip(i as int);
        if matches_at(&text, &pat, i) {
            assert(rest.take(pattern@.len() as int) =~= s@.subrange(i as int, i + pattern@.len()));
            assert(rest.skip(pattern@.len() as int) =~= s@.skip(i + pattern@.len()));
            out.append(by);
            i = i + pat.len();
        } else {
            assert(pattern@.is_prefix_of(rest) ==> rest.take(pattern@.len() as int)
                =~= s@.subrange(i as int, i + pattern@.len()));
            assert(rest.skip(1) =~= s@.skip(i + 1));
            out.push(text[i]);
            i = i + 1;
        }
    }
    assert(s@.skip(i as int) =~= Seq::<char>::empty());
    assert(out@ + Seq::<char>::empty() =~= out@);
    out
}

/// A text without an occurrence of the pattern stays as it is. In any other, what stands before
/// the first occurrence stays, the occurrence is replaced, and what stands behind it is dealt
/// with in the same way.
pub proof fn law_first_occurrence_is_replaced_first(
    s: Seq<char>,
    pattern: Seq<char>,
    by: Seq<char>,
    head: Seq<char>,
)
    requires
        pattern.len() > 0,
        is_before(s, pattern, head),
    ensures
        head.len() == s.len() ==> replaced(s, pattern, by) == s,
        head.len() < s.len() ==> replaced(s, pattern, by) == head + by + replaced(
            s.skip((head.len() + pattern.len()) as int),
            pattern,
            by,
        ),
    decreases s.len(),
{
    assert(head =~= s.take(head.len() as int));
    if s.len() > 0 {
        if pattern.is_prefix_of(s) {
            assert(s.subrange(0, pattern.len() as int) =~= s.take(pattern.len() as int));
            assert(occurs_at(s, pattern, 0));
            assert(head.len() == 0);
            assert(head + by =~= by);
        } else {
            if head.len() == 0 {
                assert(occurs_at(s, pattern, 0));
                assert(s.subrange(0, pattern.len() as int) =~= s.take(pattern.len() as int));
            }
            let rest = s.skip(1);
            let tail = head.skip(1);
            assert(tail =~= rest.take(tail.len() as int));
            assert forall|i: int| 0 <= i < tail.len() implies !occurs_at(rest, pattern, i) by {
                if occurs_at(rest, pattern, i) {
                    assert(rest.subrange(i, i + pattern.len()) =~= s.subrange(
                        i + 1,
                        i + 1 + pattern.len(),
                    ));
                    assert(occurs_at(s, pattern, i + 1));
                }
            }
            if head.len() < s.len() {
                let at = tail.len() as int;
                assert(rest.subrange(at, at + pattern.len()) =~= s.subrange(
                    at + 1,
                    at + 1 + pattern.len(),
                ));
                assert(occurs_at(rest, pattern, at));
            }
            law_first_occurrence_is_replaced_first(rest, pattern, by, tail);
            if head.len() < s.len() {
                assert(rest.skip((tail.len() + pattern.len()) as int) =~= s.skip(
                    (head.len() + pattern.len()) as int,
                ));
                assert(seq![s[0]] + (tail + by) =~= head + by);
                assert(replaced(s, pattern, by) =~= head + by + replaced(
                    s.skip((head.len() + pattern.len()) as int),
                    pattern,
                    by,
                ));
            } else {
                assert(seq![s[0]] + rest =~= s);
            }
        }
    }
}

} // verus!
