//! Byte-wise string ordering, string equality and small text builders.

use vstd::prelude::*;
use vstd::utf8::*;

verus! {

broadcast use vstd::utf8::encode_utf8_decode_utf8;

/// Result of a three-way comparison.
#[derive(Debug, Clone, Copy, PartialEq, Eq, Structural)]
pub enum Cmp3 {
    Less,
    Equal,
    Greater,
}

/// Strict lexicographic order on byte sequences: the order in which `[u8]`
/// (and so `str`) compares with `Ord`.
pub open spec fn bytes_lt(a: Seq<u8>, b: Seq<u8>) -> bool
    decreases a.len(),
{
    if a.len() == 0 {
        b.len() > 0
    } else if b.len() == 0 {
        false
    } else if a[0] != b[0] {
        a[0] < b[0]
    } else {
        bytes_lt(a.drop_first(), b.drop_first())
    }
}

/// Strict order on strings as `str`'s `Ord` has it: by their UTF-8 bytes.
pub open spec fn str_lt(a: Seq<char>, b: Seq<char>) -> bool {
    bytes_lt(encode_utf8(a), encode_utf8(b))
}

/// No byte sequence is below itself.
pub proof fn lemma_bytes_lt_irreflexive(a: Seq<u8>)
    ensures
        !bytes_lt(a, a),
    decreases a.len(),
{
    if a.len() > 0 {
        lemma_bytes_lt_irreflexive(a.drop_first());
    }
}

/// The byte order is asymmetric.
pub proof fn lemma_bytes_lt_asymmetric(a: Seq<u8>, b: Seq<u8>)
    requires
        bytes_lt(a, b),
    ensures
        !bytes_lt(b, a),
    decreases a.len(),
{
    if a.len() > 0 && b.len() > 0 && a[0] == b[0] {
        lemma_bytes_lt_asymmetric(a.drop_first(), b.drop_first());
    }
}

/// The byte order is transitive.
pub proof fn lemma_bytes_lt_transitive(a: Seq<u8>, b: Seq<u8>, c: Seq<u8>)
    requires
        bytes_lt(a, b),
        bytes_lt(b, c),
    ensures
        bytes_lt(a, c),
    decreases a.len(),
{
    if a.len() > 0 && a[0] == b[0] && b[0] == c[0] {
        lemma_bytes_lt_transitive(a.drop_first(), b.drop_first(), c.drop_first());
    }
}

/// Any two byte sequences are equal or one is below the other.
pub proof fn lemma_bytes_lt_total(a: Seq<u8>, b: Seq<u8>)
    ensures
        a == b || bytes_lt(a, b) || bytes_lt(b, a),
    decreases a.len(),
{
    if a.len() == 0 {
        if b.len() == 0 {
            assert(a =~= b);
        }
    } else if b.len() > 0 && a[0] == b[0] {
        lemma_bytes_lt_total(a.drop_first(), b.drop_first());
        if a.drop_first() == b.drop_first() {
            assert(a.len() == a.drop_first().len() + 1);
            assert(b.len() == b.drop_first().len() + 1);
            assert forall|i: int| 0 <= i < a.len() implies a[i] == b[i] by {
                if i > 0 {
                    assert(a[i] == a.drop_first()[i - 1]);
                    assert(b[i] == b.drop_first()[i - 1]);
                }
            }
            assert(a =~= b);
        }
    }
}

/// The string order is transitive.
pub proof fn lemma_str_lt_transitive(a: Seq<char>, b: Seq<char>, c: Seq<char>)
    requires
        str_lt(a, b),
        str_lt(b, c),
    ensures
        str_lt(a, c),
{
    lemma_bytes_lt_transitive(encode_utf8(a), encode_utf8(b), encode_utf8(c));
}

/// The string order is irreflexive and asymmetric.
pub proof fn lemma_str_lt_strict(a: Seq<char>, b: Seq<char>)
    ensures
        !str_lt(a, a),
        str_lt(a, b) ==> !str_lt(b, a),
{
    lemma_bytes_lt_irreflexive(encode_utf8(a));
    if str_lt(a, b) {
        lemma_bytes_lt_asymmetric(encode_utf8(a), encode_utf8(b));
    }
}

/// The byte order is lexicographic: where two sequences agree on their first
/// `k` bytes and differ at byte `k`, the one with the smaller byte there is
/// below; a proper prefix is below the sequence it starts.
pub proof fn lemma_bytes_lt_lexicographic(a: Seq<u8>, b: Seq<u8>, k: int)
    requires
        0 <= k,
        k <= a.len(),
        k <= b.len(),
        a.take(k) == b.take(k),
    ensures
        k < a.len() && k < b.len() && a[k] < b[k] ==> bytes_lt(a, b),
        k < a.len() && k < b.len() && a[k] > b[k] ==> bytes_lt(b, a),
        k == a.len() && a.len() < b.len() ==> bytes_lt(a, b),
    decreases k,
{
    if k > 0 {
        assert(a[0] == a.take(k)[0] && b[0] == b.take(k)[0]);
        assert(a.drop_first().take(k - 1) =~= a.take(k).drop_first());
        assert(b.drop_first().take(k - 1) =~= b.take(k).drop_first());
        lemma_bytes_lt_lexicographic(a.drop_first(), b.drop_first(), k - 1);
        if k < a.len() && k < b.len() {
            assert(a.drop_first()[k - 1] == a[k] && b.drop_first()[k - 1] == b[k]);
        }
    }
}

/// Equal UTF-8 encodings come from equal strings.
pub proof fn lemma_encode_utf8_injective(a: Seq<char>, b: Seq<char>)
    requires
        encode_utf8(a) == encode_utf8(b),
    ensures
        a == b,
{
    assert(decode_utf8(encode_utf8(a)) == a);
    assert(decode_utf8(encode_utf8(b)) == b);
}

/// Compares two byte slices lexicographically.
pub fn compare_bytes(a: &[u8], b: &[u8]) -> (r: Cmp3)
    ensures
        (r == Cmp3::Less) == bytes_lt(a@, b@),
        (r == Cmp3::Equal) == (a@ == b@),
        (r == Cmp3::Greater) == bytes_lt(b@, a@),
{
    let mut i: usize = 0;
    assert(a@.skip(0) =~= a@);
    assert(b@.skip(0) =~= b@);
    while i < a.len() && i < b.len()
        invariant
            i <= a@.len(),
            i <= b@.len(),
            a@.take(i as int) == b@.take(i as int),
            bytes_lt(a@, b@) == bytes_lt(a@.skip(i as int), b@.skip(i as int)),
            bytes_lt(b@, a@) == bytes_lt(b@.skip(i as int), a@.skip(i as int)),
        decreases a@.len() - i,
    {
        let x = a[i];
        let y = b[i];
        assert(a@.skip(i as int)[0] == x);
        assert(b@.skip(i as int)[0] == y);
        if x < y {
            proof {
                lemma_bytes_lt_asymmetric(a@, b@);
                lemma_bytes_lt_irreflexive(a@);
            }
            return Cmp3::Less;
        }
        if y < x {
            proof {
                lemma_bytes_lt_asymmetric(b@, a@);
                lemma_bytes_lt_irreflexive(a@);
            }
            return Cmp3::Greater;
        }
        assert(a@.skip(i as int).drop_first() =~= a@.skip(i + 1));
        assert(b@.skip(i as int).drop_first() =~= b@.skip(i + 1));
        assert(a@.take(i + 1) =~= a@.take(i as int).push(x));
        assert(b@.take(i + 1) =~= b@.take(i as int).push(y));
        i = i + 1;
    }
    proof {
        lemma_bytes_lt_irreflexive(a@);
    }
    if a.len() == b.len() {
        assert(a@ =~= a@.take(i as int));
        assert(b@ =~= b@.take(i as int));
        Cmp3::Equal
    } else if a.len() < b.len() {
        assert(a@.skip(i as int).len() == 0);
        proof {
            lemma_bytes_lt_asymmetric(a@, b@);
        }
        Cmp3::Less
    } else {
        assert(b@.skip(i as int).len() == 0);
        proof {
            lemma_bytes_lt_asymmetric(b@, a@);
        }
        Cmp3::Greater
    }
}

/// Compares two strings as `str`'s `Ord` does, by their UTF-8 bytes.
pub fn compare_str(a: &str, b: &str) -> (r: Cmp3)
    ensures
        (r == Cmp3::Less) == str_lt(a@, b@),
        (r == Cmp3::Equal) == (a@ == b@),
        (r == Cmp3::Greater) == str_lt(b@, a@),
{
    let r = compare_bytes(a.as_bytes(), b.as_bytes());
    proof {
        if encode_utf8(a@) == encode_utf8(b@) {
            lemma_encode_utf8_injective(a@, b@);
        }
    }
    r
}

/// Tests two strings for equality.
pub fn str_eq(a: &str, b: &str) -> (r: bool)
    ensures
        r == (a@ == b@),
{
    compare_str(a, b) == Cmp3::Equal
}

/// The character of decimal digit `d`.
pub open spec fn digit_char(d: nat) -> char {
    (d + 48) as char
}

/// `n` written in decimal, as `u64`'s `Display` writes it.
pub open spec fn decimal_text(n: nat) -> Seq<char>
    decreases n,
{
    if n < 10 {
        seq![digit_char(n)]
    } else {
        decimal_text(n / 10).push(digit_char(n % 10))
    }
}

/// The number that a run of decimal digits stands for.
pub open spec fn digits_value(s: Seq<char>) -> int
    decreases s.len(),
{
    if s.len() == 0 {
        0
    } else {
        digits_value(s.drop_last()) * 10 + (s.last() as int - 48)
    }
}

/// The decimal text of `n` is made of the digits `0` to `9` only, stands for
/// `n`, is never empty, and has no leading zero.
pub proof fn lemma_decimal_text_reads_back(n: nat)
    ensures
        decimal_text(n).len() > 0,
        forall|i: int|
            0 <= i < decimal_text(n).len() ==> '0' <= #[trigger] decimal_text(n)[i] && decimal_text(
                n,
            )[i] <= '9',
        digits_value(decimal_text(n)) == n,
        n > 0 ==> decimal_text(n)[0] != '0',
    decreases n,
{
    if n >= 10 {
        lemma_decimal_text_reads_back(n / 10);
        let t = decimal_text(n / 10);
        let d = n % 10;
        assert(decimal_text(n) == t.push(digit_char(d)));
        assert(decimal_text(n).drop_last() =~= t);
        assert(decimal_text(n).last() == digit_char(d));
        assert((digit_char(d) as int) == d + 48);
        assert(digits_value(decimal_text(n)) == digits_value(t) * 10 + d);
        assert(n == (n / 10) * 10 + d);
        assert(decimal_text(n)[0] == t[0]);
    } else {
        assert((digit_char(n) as int) == n + 48);
        assert(decimal_text(n).drop_last() =~= Seq::<char>::empty());
        assert(digits_value(decimal_text(n).drop_last()) == 0);
        assert(digits_value(decimal_text(n)) == 0 * 10 + n);
    }
}

/// The one-character string of digit `d`.
fn digit_str(d: u64) -> (r: &'static str)
    requires
        d < 10,
    ensures
        r@ == seq![digit_char(d as nat)],
{
    proof {
        reveal_strlit("0");
        reveal_strlit("1");
        reveal_strlit("2");
        reveal_strlit("3");
        reveal_strlit("4");
        reveal_strlit("5");
        reveal_strlit("6");
        reveal_strlit("7");
        reveal_strlit("8");
        reveal_strlit("9");
    }
    match d {
        0 => "0",
        1 => "1",
        2 => "2",
        3 => "3",
        4 => "4",
        5 => "5",
        6 => "6",
        7 => "7",
        8 => "8",
        _ => "9",
    }
}

/// Appends `n` in decimal to `out`.
pub fn push_decimal(n: u64, out: &mut String)
    ensures
        final(out)@ == old(out)@ + decimal_text(n as nat),
    decreases n,
{
    if n >= 10 {
        push_decimal(n / 10, out);
    }
    out.append(digit_str(n % 10));
    assert(final(out)@ =~= old(out)@ + decimal_text(n as nat));
}

/// `n` in decimal.
pub fn decimal_string(n: u64) -> (r: String)
    ensures
        r@ == decimal_text(n as nat),
{
    let mut s = String::new();
    push_decimal(n, &mut s);
    assert(s@ =~= decimal_text(n as nat));
    s
}

/// `s` without its trailing `/` characters, as `str::trim_end_matches('/')` gives it.
pub open spec fn trim_end_slashes(s: Seq<char>) -> Seq<char>
    decreases s.len(),
{
    if s.len() > 0 && s.last() == '/' {
        trim_end_slashes(s.drop_last())
    } else {
        s
    }
}

/// Trimming keeps a start of `s` that is empty or does not end with `/`, and
/// drops only `/` characters after it.
pub proof fn lemma_trim_end_slashes_drops_only_slashes(s: Seq<char>)
    ensures
        trim_end_slashes(s).len() <= s.len(),
        trim_end_slashes(s) == s.take(trim_end_slashes(s).len() as int),
        forall|i: int| trim_end_slashes(s).len() <= i < s.len() ==> #[trigger] s[i] == '/',
        trim_end_slashes(s).len() == 0 || trim_end_slashes(s).last() != '/',
    decreases s.len(),
{
    if s.len() > 0 && s.last() == '/' {
        let d = s.drop_last();
        lemma_trim_end_slashes_drops_only_slashes(d);
        let t = trim_end_slashes(d);
        assert(t == d.take(t.len() as int));
        assert(s.take(t.len() as int) =~= d.take(t.len() as int));
        assert forall|i: int| t.len() <= i < s.len() implies #[trigger] s[i] == '/' by {
            if i < d.len() {
                assert(d[i] == '/');
            }
        }
    } else {
        assert(s.take(s.len() as int) =~= s);
    }
}

/// `s` without its trailing `/` characters.
pub fn trimmed_end_slashes(s: &str) -> (r: String)
    ensures
        r@ == trim_end_slashes(s@),
{
    let n = s.unicode_len();
    let mut k: usize = n;
    assert(s@.take(n as int) =~= s@);
    while k > 0 && s.get_char(k - 1) == '/'
        invariant
            k <= n,
            n == s@.len(),
            trim_end_slashes(s@) == trim_end_slashes(s@.take(k as int)),
        decreases k,
    {
        assert(s@.take(k as int).drop_last() =~= s@.take(k - 1));
        k = k - 1;
    }
    String::from_str(s.substring_char(0, k))
}

/// `s` padded with spaces at its end to `width` characters, as `{:<width}`
/// formats it.
pub open spec fn pad_end(s: Seq<char>, width: nat) -> Seq<char> {
    if s.len() >= width {
        s
    } else {
        s + Seq::new((width - s.len()) as nat, |i: int| ' ')
    }
}

/// Padding keeps `s` at the start, is at least `width` characters long, is
/// `s` itself where that already is, and adds only spaces.
pub proof fn lemma_pad_end_adds_spaces(s: Seq<char>, width: nat)
    ensures
        pad_end(s, width).len() == if s.len() >= width {
            s.len()
        } else {
            width
        },
        pad_end(s, width).take(s.len() as int) == s,
        forall|i: int| s.len() <= i < pad_end(s, width).len() ==> #[trigger] pad_end(s, width)[i] == ' ',
{
    assert(pad_end(s, width).take(s.len() as int) =~= s);
}

/// `s` padded with spaces at its end to `width` characters.
pub fn padded_end(s: &str, width: usize) -> (r: String)
    ensures
        r@ == pad_end(s@, width as nat),
{
    let mut r = String::from_str(s);
    let mut n = s.unicode_len();
    proof {
        reveal_strlit(" ");
    }
    while n < width
        invariant
            n == r@.len(),
            s@.len() <= n,
            n <= width || n == s@.len(),
            r@ =~= s@ + Seq::new((n - s@.len()) as nat, |i: int| ' '),
        decreases width - n,
    {
        proof {
            reveal_strlit(" ");
        }
        r.append(" ");
        n = n + 1;
    }
    assert(r@ =~= pad_end(s@, width as nat));
    r
}

/// Whether `short_id` can shorten `id`: an id of more than 22 bytes is cut
/// after its first 14 bytes and before its last 4, and both cuts must fall
/// between characters (elsewhere `str` slicing panics).
pub open spec fn short_id_cuttable(id: Seq<char>) -> bool {
    let b = encode_utf8(id);
    b.len() > 22 ==> is_char_boundary(b, 14) && is_char_boundary(b, b.len() - 4)
}

/// An id as the table shows it: one of more than 22 bytes as its first 14
/// bytes, an ellipsis and its last 4 bytes; a shorter one whole.
pub open spec fn short_id_text(id: Seq<char>) -> Seq<char> {
    let b = encode_utf8(id);
    if b.len() > 22 {
        decode_utf8(b.subrange(0, 14)) + "…"@ + decode_utf8(b.subrange(b.len() - 4, b.len() as int))
    } else {
        id
    }
}

/// An id of at most 22 bytes is shown whole; a longer one as the characters
/// of its first 14 bytes, `…`, and the characters of its last 4 bytes.
pub proof fn lemma_short_id_cuts_long_ids(id: Seq<char>)
    ensures
        encode_utf8(id).len() <= 22 ==> short_id_text(id) == id,
        encode_utf8(id).len() > 22 ==> short_id_text(id) == decode_utf8(encode_utf8(id).take(14))
            + seq!['…'] + decode_utf8(encode_utf8(id).skip(encode_utf8(id).len() - 4)),
{
    let b = encode_utf8(id);
    reveal_strlit("…");
    assert(b.subrange(0, 14) =~= b.take(14));
    assert(b.subrange(b.len() - 4, b.len() as int) =~= b.skip(b.len() - 4));
    assert("…"@ =~= seq!['…']);
}

/// An id as the table shows it.
pub fn short_id(id: &str) -> (r: String)
    requires
        short_id_cuttable(id@),
    ensures
        r@ == short_id_text(id@),
{
    let len = id.as_bytes().len();
    if len > 22 {
        let (head, _) = id.split_at(14);
        let (_, tail) = id.split_at(len - 4);
        assert(decode_utf8(encode_utf8(head@)) == head@);
        assert(decode_utf8(encode_utf8(tail@)) == tail@);
        String::from_str(head).concat("…").concat(tail)
    } else {
        String::from_str(id)
    }
}

} // verus!
