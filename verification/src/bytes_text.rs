use vstd::prelude::*;

verus! {

/// Concatenation of `parts`, with `sep` between consecutive parts.
pub open spec fn join_spec<A>(parts: Seq<Seq<A>>, sep: Seq<A>) -> Seq<A>
    decreases parts.len(),
{
    if parts.len() == 0 {
        Seq::empty()
    } else if parts.len() == 1 {
        parts[0]
    } else {
        join_spec(parts.drop_last(), sep) + sep + parts.last()
    }
}

/// A byte that an HTTP header value may hold: visible octets, obs-text
/// (128..=255) and horizontal tab.
pub open spec fn is_header_byte(b: u8) -> bool {
    (b >= 32 && b != 127) || b == 9
}

/// A byte that reads back as text out of a header value: visible ASCII or tab.
pub open spec fn is_visible_ascii(b: u8) -> bool {
    (b >= 32 && b < 127) || b == 9
}

pub open spec fn all_header_bytes(s: Seq<u8>) -> bool {
    forall|i: int| 0 <= i < s.len() ==> is_header_byte(#[trigger] s[i])
}

pub open spec fn all_visible_ascii(s: Seq<u8>) -> bool {
    forall|i: int| 0 <= i < s.len() ==> is_visible_ascii(#[trigger] s[i])
}

/// The UTF-8 bytes of a string.
pub open spec fn utf8(s: Seq<char>) -> Seq<u8> {
    vstd::utf8::encode_utf8(s)
}

/// Copies the UTF-8 bytes of `s`.
pub fn str_bytes(s: &str) -> (r: Vec<u8>)
    ensures
        r@ == utf8(s@),
{
    vstd::slice::slice_to_vec(s.as_bytes())
}

/// Appends all of `src` to `dst`.
pub fn extend_bytes(dst: &mut Vec<u8>, src: &[u8])
    ensures
        final(dst)@ == old(dst)@ + src@,
{
    let mut i: usize = 0;
    while i < src.len()
        invariant
            i <= src@.len(),
            dst@ == old(dst)@ + src@.subrange(0, i as int),
        decreases src@.len() - i,
    {
        dst.push(src[i]);
        i = i + 1;
        assert(src@.subrange(0, i as int) == src@.subrange(0, i - 1) + seq![src@[i - 1]]);
    }
    assert(src@.subrange(0, src@.len() as int) == src@);
}

/// Joins `parts` with `sep` between them.
pub fn join_bytes(parts: &Vec<Vec<u8>>, sep: &[u8]) -> (r: Vec<u8>)
    ensures
        r@ == join_spec(parts@.map_values(|p: Vec<u8>| p@), sep@),
{
    let ghost views = parts@.map_values(|p: Vec<u8>| p@);
    let mut out: Vec<u8> = Vec::new();
    let mut i: usize = 0;
    while i < parts.len()
        invariant
            i <= parts@.len(),
            views == parts@.map_values(|p: Vec<u8>| p@),
            out@ == join_spec(views.take(i as int), sep@),
        decreases parts@.len() - i,
    {
        if i > 0 {
            extend_bytes(&mut out, sep);
        }
        extend_bytes(&mut out, parts[i].as_slice());
        assert(views.take(i + 1).drop_last() == views.take(i as int));
        i = i + 1;
    }
    assert(views.take(parts@.len() as int) == views);
    out
}

/// Whether every byte of `s` may stand in an HTTP header value.
pub fn is_valid_header_value(s: &[u8]) -> (r: bool)
    ensures
        r == all_header_bytes(s@),
{
    let mut i: usize = 0;
    while i < s.len()
        invariant
            i <= s@.len(),
            forall|j: int| 0 <= j < i ==> is_header_byte(#[trigger] s@[j]),
        decreases s@.len() - i,
    {
        let b = s[i];
        if !((b >= 32 && b != 127) || b == 9) {
            return false;
        }
        i = i + 1;
    }
    true
}

/// Whether `s` reads back as text: every byte is visible ASCII or tab.
pub fn is_visible_text(s: &[u8]) -> (r: bool)
    ensures
        r == all_visible_ascii(s@),
{
    let mut i: usize = 0;
    while i < s.len()
        invariant
            i <= s@.len(),
            forall|j: int| 0 <= j < i ==> is_visible_ascii(#[trigger] s@[j]),
        decreases s@.len() - i,
    {
        let b = s[i];
        if !((b >= 32 && b < 127) || b == 9) {
            return false;
        }
        i = i + 1;
    }
    true
}


pub open spec fn is_digit(b: u8) -> bool {
    48 <= b <= 57
}

pub open spec fn all_digits(s: Seq<u8>) -> bool {
    forall|i: int| 0 <= i < s.len() ==> is_digit(#[trigger] s[i])
}

/// The number that a string of decimal digits denotes.
pub open spec fn digits_value(s: Seq<u8>) -> nat
    decreases s.len(),
{
    if s.len() == 0 {
        0
    } else {
        digits_value(s.drop_last()) * 10 + (s.last() - 48) as nat
    }
}

/// The digits after an optional leading `+`, as an unsigned decimal parse
/// reads them (a lone `+` keeps its sign and so is no number).
pub open spec fn unsigned_digits(s: Seq<u8>) -> Seq<u8> {
    if s.len() > 1 && s[0] == 43 {
        s.drop_first()
    } else {
        s
    }
}

/// Parsing a `u64` in base 10: an optional `+`, then one or more digits
/// whose value fits in 64 bits.
pub open spec fn parse_u64_spec(s: Seq<u8>) -> Option<u64> {
    let d = unsigned_digits(s);
    if d.len() > 0 && all_digits(d) && digits_value(d) <= u64::MAX {
        Some(digits_value(d) as u64)
    } else {
        None
    }
}

proof fn lemma_digits_value_prefix_grows(s: Seq<u8>, i: int)
    requires
        0 <= i <= s.len(),
    ensures
        digits_value(s.take(i)) <= digits_value(s),
    decreases s.len() - i,
{
    if i < s.len() {
        lemma_digits_value_prefix_grows(s, i + 1);
        assert(s.take(i + 1).drop_last() == s.take(i));
    } else {
        assert(s.take(i) == s);
    }
}

/// Reads `s` as an unsigned 64-bit decimal number.
pub fn parse_u64(s: &[u8]) -> (r: Option<u64>)
    ensures
        r == parse_u64_spec(s@),
{
    let start: usize = if s.len() > 1 && s[0] == 43 { 1 } else { 0 };
    let ghost d = unsigned_digits(s@);
    assert(d == s@.subrange(start as int, s@.len() as int));
    if start >= s.len() {
        return None;
    }
    let mut value: u64 = 0;
    let mut i: usize = start;
    while i < s.len()
        invariant
            start <= i <= s@.len(),
            d == s@.subrange(start as int, s@.len() as int),
            d == unsigned_digits(s@),
            all_digits(d.take(i - start)),
            value == digits_value(d.take(i - start)),
        decreases s@.len() - i,
    {
        let b = s[i];
        if b < 48 || b > 57 {
            assert(d[i - start] == b);
            assert(!is_digit(d[i - start]));
            return None;
        }
        let ghost k = i - start;
        assert(d.take(k + 1).drop_last() == d.take(k));
        assert(d.take(k + 1).last() == b);
        if value > 1844674407370955161 || (value == 1844674407370955161 && b > 53) {
            proof {
                let v = value as int;
                let x = (b - 48) as int;
                assert(v * 10 + x > u64::MAX) by (nonlinear_arith)
                    requires
                        v > 1844674407370955161 || (v == 1844674407370955161 && x > 5),
                        0 <= x;
                lemma_digits_value_prefix_grows(d, k + 1);
            }
            return None;
        }
        proof {
            let v = value as int;
            let x = (b - 48) as int;
            assert(v * 10 + x <= u64::MAX) by (nonlinear_arith)
                requires
                    v <= 1844674407370955161,
                    v < 1844674407370955161 || x <= 5,
                    0 <= x <= 9;
        }
        value = value * 10 + (b - 48) as u64;
        i = i + 1;
    }
    assert(d.take(i - start) == d);
    Some(value)
}

/// The decimal digits of `n`, most significant first, without leading zeros.
pub open spec fn decimal_spec(n: nat) -> Seq<u8>
    decreases n,
{
    if n < 10 {
        seq![(48 + n) as u8]
    } else {
        decimal_spec(n / 10) + seq![(48 + n % 10) as u8]
    }
}

/// Writes `n` in decimal.
pub fn decimal(n: u64) -> (r: Vec<u8>)
    ensures
        r@ == decimal_spec(n as nat),
    decreases n,
{
    if n < 10 {
        let mut v: Vec<u8> = Vec::new();
        v.push((48 + n) as u8);
        assert(v@ =~= seq![(48 + n) as u8]);
        v
    } else {
        let mut v = decimal(n / 10);
        v.push((48 + n % 10) as u8);
        v
    }
}


/// Whether two byte strings are equal.
pub fn bytes_eq(a: &[u8], b: &[u8]) -> (r: bool)
    ensures
        r == (a@ == b@),
{
    if a.len() != b.len() {
        return false;
    }
    let mut i: usize = 0;
    while i < a.len()
        invariant
            a@.len() == b@.len(),
            i <= a@.len(),
            forall|j: int| 0 <= j < i ==> a@[j] == b@[j],
        decreases a@.len() - i,
    {
        if a[i] != b[i] {
            return false;
        }
        i = i + 1;
    }
    assert(a@ =~= b@);
    true
}


/// Text of printable ASCII characters is a valid header value once encoded.
pub proof fn lemma_printable_text_is_header_value(s: Seq<char>)
    requires
        forall|i: int| 0 <= i < s.len() ==> ' ' <= #[trigger] s[i] <= '~',
    ensures
        all_header_bytes(utf8(s)),
{
    assert(vstd::utf8::is_ascii_chars(s));
    vstd::utf8::is_ascii_chars_encode_utf8(s);
    assert forall|i: int| 0 <= i < utf8(s).len() implies is_header_byte(#[trigger] utf8(s)[i]) by {
        assert(s[i] as u8 == utf8(s)[i]);
    }
}

/// Joining valid header values with a valid separator gives a valid one.
pub proof fn lemma_join_header_bytes(parts: Seq<Seq<u8>>, sep: Seq<u8>)
    requires
        forall|i: int| 0 <= i < parts.len() ==> all_header_bytes(#[trigger] parts[i]),
        all_header_bytes(sep),
    ensures
        all_header_bytes(join_spec(parts, sep)),
    decreases parts.len(),
{
    if parts.len() > 1 {
        lemma_join_header_bytes(parts.drop_last(), sep);
        let a = join_spec(parts.drop_last(), sep);
        let b = parts.last();
        assert(all_header_bytes(b));
        assert forall|i: int| 0 <= i < (a + sep + b).len() implies is_header_byte(
            #[trigger] (a + sep + b)[i],
        ) by {
            if i < a.len() {
                assert((a + sep + b)[i] == a[i]);
            } else if i < a.len() + sep.len() {
                assert((a + sep + b)[i] == sep[i - a.len()]);
            } else {
                assert((a + sep + b)[i] == b[i - a.len() - sep.len()]);
            }
        }
    } else if parts.len() == 1 {
        assert(all_header_bytes(parts[0]));
    }
}

/// Decimal digits are a valid header value.
pub proof fn lemma_decimal_is_header_value(n: nat)
    ensures
        all_header_bytes(decimal_spec(n)),
        all_digits(decimal_spec(n)),
    decreases n,
{
    if n >= 10 {
        lemma_decimal_is_header_value(n / 10);
        let a = decimal_spec(n / 10);
        let t = seq![(48 + n % 10) as u8];
        assert forall|i: int| 0 <= i < (a + t).len() implies is_header_byte(#[trigger] (a + t)[i])
            && is_digit((a + t)[i]) by {
            if i < a.len() {
                assert((a + t)[i] == a[i]);
            }
        }
    }
}


/// Joins `parts` with `sep` between them.
pub fn join_strings(parts: &Vec<String>, sep: &str) -> (r: String)
    ensures
        r@ == join_spec(parts@.map_values(|p: String| p@), sep@),
{
    let ghost views = parts@.map_values(|p: String| p@);
    let mut out = String::new();
    let mut i: usize = 0;
    while i < parts.len()
        invariant
            i <= parts@.len(),
            views == parts@.map_values(|p: String| p@),
            out@ == join_spec(views.take(i as int), sep@),
        decreases parts@.len() - i,
    {
        if i > 0 {
            out = out.concat(sep);
        }
        out = out.concat(parts[i].as_str());
        assert(views.take(i + 1).drop_last() == views.take(i as int));
        i = i + 1;
    }
    assert(views.take(parts@.len() as int) == views);
    out
}


/// Law: a number written in decimal reads back as itself.
pub proof fn law_decimal_reads_back(n: u64)
    ensures
        parse_u64_spec(decimal_spec(n as nat)) == Some(n),
{
    lemma_decimal_digits(n as nat);
    lemma_decimal_is_header_value(n as nat);
    let s = decimal_spec(n as nat);
    assert(s[0] != 43u8) by {
        assert(is_digit(s[0]));
    }
    assert(unsigned_digits(s) == s);
}

proof fn lemma_decimal_digits(n: nat)
    ensures
        digits_value(decimal_spec(n)) == n,
        decimal_spec(n).len() > 0,
    decreases n,
{
    if n >= 10 {
        lemma_decimal_digits(n / 10);
        let s = decimal_spec(n);
        assert(s.drop_last() == decimal_spec(n / 10));
        assert(s.last() == (48 + n % 10) as u8);
        assert((48 + n % 10) as u8 == 48 + n % 10);
        assert(digits_value(s) == digits_value(s.drop_last()) * 10 + (s.last() - 48) as nat);
        assert((n / 10) * 10 + n % 10 == n);
        assert(digits_value(s) == n);
    } else {
        assert((48 + n) as u8 == 48 + n);
        let s = decimal_spec(n);
        assert(s.drop_last() =~= Seq::<u8>::empty());
        assert(digits_value(s.drop_last()) == 0);
        assert(s.last() == (48 + n) as u8);
        assert(digits_value(s) == n);
    }
}


/// Calls `std::str::from_utf8`: as its documentation says, it gives the
/// text when the bytes are valid UTF-8, and that text's bytes are the
/// given ones.
#[verifier::external_body]
fn utf8_text(bytes: &[u8]) -> (r: Option<&str>)
    ensures
        r is Some == vstd::utf8::valid_utf8(bytes@),
        r matches Some(s) ==> utf8(s@) == bytes@,
{
    std::str::from_utf8(bytes).ok()
}

/// The text that header value bytes read as, when they are visible ASCII.
pub open spec fn visible_text_spec(bytes: Seq<u8>) -> Option<Seq<char>> {
    if all_visible_ascii(bytes) {
        Some(vstd::utf8::decode_utf8(bytes))
    } else {
        None
    }
}

proof fn lemma_visible_is_utf8(bytes: Seq<u8>)
    requires
        all_visible_ascii(bytes),
    ensures
        vstd::utf8::valid_utf8(bytes),
{
    assert(bytes.subrange(0, 0) =~= Seq::<u8>::empty());
    assert(vstd::utf8::partial_valid_utf8(bytes, 0));
    assert forall|i: int| 0 <= 0 <= i < bytes.len() <= bytes.len() implies #[trigger] vstd::utf8::is_leading_byte_width_1(bytes[i]) by {
        assert(is_visible_ascii(bytes[i]));
    }
    vstd::utf8::partial_valid_utf8_extend_ascii_block(bytes, 0, bytes.len() as int);
    assert(bytes.subrange(0, bytes.len() as int) =~= bytes);
}

/// Reads header value bytes as text: only when every byte is visible ASCII
/// or tab.
pub fn visible_text(bytes: &[u8]) -> (r: Option<&str>)
    ensures
        match r {
            Some(s) => visible_text_spec(bytes@) == Some(s@),
            None => visible_text_spec(bytes@) is None,
        },
{
    if !is_visible_text(bytes) {
        return None;
    }
    proof {
        lemma_visible_is_utf8(bytes@);
    }
    match utf8_text(bytes) {
        Some(s) => {
            proof {
                vstd::utf8::encode_utf8_decode_utf8(s@);
            }
            Some(s)
        },
        None => None,
    }
}

} // verus!
