//! Query strings made fit for a request line.

use vstd::prelude::*;
use vstd::string::*;

verus! {

/// Whether a byte of a query is written as an escape: the controls, all
/// that is not ASCII, and the marks that would end or confuse a path.
pub open spec fn is_escaped_byte(b: u8) -> bool {
    b < 0x20 || b > 0x7E || b == 0x20 || b == 0x22 || b == 0x23 || b == 0x3C || b == 0x3E
        || b == 0x60 || b == 0x3F || b == 0x7B || b == 0x7D
}

/// The sixteen digits of an escape, capitals for ten to fifteen.
pub open spec fn hex_digits() -> Seq<char> {
    seq!['0', '1', '2', '3', '4', '5', '6', '7', '8', '9', 'A', 'B', 'C', 'D', 'E', 'F']
}

/// How one byte of a query is written: as itself, or as a percent sign
/// and its two hexadecimal digits.
pub open spec fn encoded_byte(b: u8) -> Seq<char> {
    if is_escaped_byte(b) {
        seq!['%', hex_digits()[b as int / 16], hex_digits()[b as int % 16]]
    } else {
        seq![b as char]
    }
}

/// The bytes of a query, each written as `encoded_byte` says.
pub open spec fn percent_encoded(bytes: Seq<u8>) -> Seq<char>
    decreases bytes.len(),
{
    if bytes.len() == 0 {
        Seq::empty()
    } else {
        encoded_byte(bytes[0]) + percent_encoded(bytes.drop_first())
    }
}

/// Whether the escape of a question mark begins at `i`.
pub open spec fn question_escape_at(s: Seq<char>, i: int) -> bool {
    0 <= i && i + 3 <= s.len() && s[i] == '%' && s[i + 1] == '3' && s[i + 2] == 'F'
}

/// The text with each escaped question mark written plainly again, read
/// from the left.
pub open spec fn question_marks_restored(s: Seq<char>) -> Seq<char>
    decreases s.len(),
{
    if s.len() == 0 {
        s
    } else if question_escape_at(s, 0) {
        seq!['?'] + question_marks_restored(s.subrange(3, s.len() as int))
    } else {
        seq![s[0]] + question_marks_restored(s.drop_first())
    }
}

/// The query as it is sent: percent-encoded, but for its question marks.
pub open spec fn url_encoded(q: Seq<u8>) -> Seq<char> {
    question_marks_restored(percent_encoded(q))
}

/// `utf8_percent_encode` of the crate url with its default encode set,
/// collected into characters: the UTF-8 bytes of `q`, each kept where
/// `is_escaped_byte` is false and else written as `%` and two capital
/// hexadecimal digits. This is taken from the crate, not proved.
#[verifier::external_body]
fn percent_encode(q: &str) -> (r: Vec<char>)
    ensures
        r@ == percent_encoded(q.spec_bytes()),
{
    url::percent_encoding::utf8_percent_encode(q, url::percent_encoding::DEFAULT_ENCODE_SET)
        .flat_map(|part| part.chars())
        .collect()
}

/// Writes escaped question marks plainly again.
pub fn restore_question_marks(s: &Vec<char>) -> (r: String)
    ensures
        r@ == question_marks_restored(s@),
{
    let n: usize = s.len();
    let mut r = String::new();
    let mut i: usize = 0;
    assert(s@.subrange(0, n as int) =~= s@);
    while i < n
        invariant
            n == s@.len(),
            i <= n,
            r@ + question_marks_restored(s@.subrange(i as int, n as int))
                == question_marks_restored(s@),
        decreases n - i,
    {
        let ghost rest = s@.subrange(i as int, n as int);
        let ghost before = r@;
        if n - i >= 3 && s[i] == '%' && s[i + 1] == '3' && s[i + 2] == 'F' {
            r.push('?');
            assert(question_escape_at(rest, 0));
            assert(rest.subrange(3, rest.len() as int) =~= s@.subrange(i + 3, n as int));
            assert(r@ + question_marks_restored(s@.subrange(i + 3, n as int)) =~= before
                + question_marks_restored(rest));
            i = i + 3;
        } else {
            r.push(s[i]);
            assert(!question_escape_at(rest, 0));
            assert(rest.drop_first() =~= s@.subrange(i + 1, n as int));
            assert(r@ + question_marks_restored(s@.subrange(i + 1, n as int)) =~= before
                + question_marks_restored(rest));
            i = i + 1;
        }
    }
    assert(r@ + Seq::<char>::empty() =~= r@);
    r
}

/// Encodes a query for a request: percent-encoding for all that a path
/// cannot hold, the question mark left as it is.
pub fn url_encode(q: &str) -> (r: String)
    ensures
        r@ == url_encoded(q.spec_bytes()),
{
    let encoded = percent_encode(q);
    restore_question_marks(&encoded)
}

} // verus!
