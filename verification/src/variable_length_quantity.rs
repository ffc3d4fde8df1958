//! Variable-length quantities: big-endian base-128 numbers of at most four bytes, where every
//! byte but the last has its top (continuation) bit set.
use vstd::prelude::*;
use vstd::string::*;
use vstd::arithmetic::power2::{lemma2_to64, pow2};

verus! {

#[derive(Debug, PartialEq, Eq, Clone, Copy, Structural)]
pub enum ParseError {
    InputEmpty,
    ContinuationIn4thByte,
    ContinuationAtEndOfInput,
}

/// Whether a byte carries the continuation bit.
pub open spec fn has_continuation(byte: u8) -> bool {
    byte >= 0x80
}

/// Number of leading bytes of `bytes` that carry the continuation bit.
pub open spec fn continuation_run(bytes: Seq<u8>) -> nat
    decreases bytes.len(),
{
    if bytes.len() == 0 || !has_continuation(bytes[0]) {
        0
    } else {
        1 + continuation_run(bytes.drop_first())
    }
}

/// The big-endian base-128 number spelled by the low seven bits of each byte.
pub open spec fn base128_value(bytes: Seq<u8>) -> nat
    decreases bytes.len(),
{
    if bytes.len() == 0 {
        0
    } else {
        base128_value(bytes.drop_last()) * 128 + (bytes.last() % 128) as nat
    }
}

/// What reading a variable-length quantity from the front of `input` gives: the number of bytes
/// it takes and its value, or why there is none.
pub open spec fn spec_variable_length_quantity(input: Seq<u8>) -> Result<(usize, u32), ParseError> {
    let run = continuation_run(input);
    if input.len() == 0 {
        Err(ParseError::InputEmpty)
    } else if run >= 4 {
        Err(ParseError::ContinuationIn4thByte)
    } else if run == input.len() {
        Err(ParseError::ContinuationAtEndOfInput)
    } else {
        Ok(((run + 1) as usize, base128_value(input.take((run + 1) as int)) as u32))
    }
}

/// The run of continuation bytes ends at the first byte without the bit.
pub proof fn lemma_continuation_run(bytes: Seq<u8>)
    ensures
        continuation_run(bytes) <= bytes.len(),
        forall|j: int| 0 <= j < continuation_run(bytes) ==> has_continuation(#[trigger] bytes[j]),
        continuation_run(bytes) < bytes.len() ==> !has_continuation(
            bytes[continuation_run(bytes) as int],
        ),
    decreases bytes.len(),
{
    if bytes.len() > 0 && has_continuation(bytes[0]) {
        lemma_continuation_run(bytes.drop_first());
        assert forall|j: int| 0 <= j < continuation_run(bytes) implies has_continuation(
            #[trigger] bytes[j],
        ) by {
            if j > 0 {
                assert(bytes[j] == bytes.drop_first()[j - 1]);
            }
        }
    }
}

/// A run of `i` continuation bytes followed by one without the bit has length `i`.
proof fn lemma_continuation_run_is(bytes: Seq<u8>, i: int)
    requires
        0 <= i <= bytes.len(),
        forall|j: int| 0 <= j < i ==> has_continuation(#[trigger] bytes[j]),
        i < bytes.len() ==> !has_continuation(bytes[i]),
    ensures
        continuation_run(bytes) == i,
    decreases i,
{
    if i > 0 {
        assert forall|j: int| 0 <= j < i - 1 implies has_continuation(
            #[trigger] bytes.drop_first()[j],
        ) by {
            assert(bytes.drop_first()[j] == bytes[j + 1]);
        }
        lemma_continuation_run_is(bytes.drop_first(), i - 1);
    }
}

/// A base-128 number of `n` digits is below `128^n`; four digits stay under `2^28`.
pub proof fn lemma_base128_bound(bytes: Seq<u8>)
    requires
        bytes.len() <= 4,
    ensures
        base128_value(bytes) < 0x1000_0000,
        bytes.len() <= 3 ==> base128_value(bytes) < 0x20_0000,
        bytes.len() <= 2 ==> base128_value(bytes) < 0x4000,
        bytes.len() <= 1 ==> base128_value(bytes) < 0x80,
    decreases bytes.len(),
{
    if bytes.len() > 0 {
        lemma_base128_bound(bytes.drop_last());
    }
}

/// A variable-length quantity takes one to four bytes of its input and is below `2^28`.
pub proof fn lemma_variable_length_quantity_bounds(input: Seq<u8>)
    ensures
        spec_variable_length_quantity(input) matches Ok((n, v)) ==> 1 <= n <= 4 && n <= input.len()
            && v < 0x1000_0000,
{
    lemma_continuation_run(input);
    let run = continuation_run(input);
    if input.len() > 0 && run < 4 && run < input.len() {
        lemma_base128_bound(input.take((run + 1) as int));
    }
}

/// The bytes after a variable-length quantity do not change what it reads as: a quantity read
/// from the front of some bytes reads the same with more bytes after them.
pub proof fn law_variable_length_quantity_prefix(input: Seq<u8>, more: Seq<u8>)
    requires
        spec_variable_length_quantity(input) is Ok,
    ensures
        spec_variable_length_quantity(input + more) == spec_variable_length_quantity(input),
{
    lemma_continuation_run(input);
    let run = continuation_run(input) as int;
    let all = input + more;
    assert forall|j: int| 0 <= j < run implies has_continuation(#[trigger] all[j]) by {
        assert(all[j] == input[j]);
        assert(has_continuation(input[j]));
    }
    assert(all[run] == input[run]);
    lemma_continuation_run_is(all, run);
    assert(all.take(run + 1) =~= input.take(run + 1));
}

/// The value of a quantity read bitwise: the low seven bits of each byte shifted in from the
/// right.
pub open spec fn shifted_value(bytes: Seq<u8>) -> u32
    decreases bytes.len(),
{
    if bytes.len() == 0 {
        0
    } else {
        (shifted_value(bytes.drop_last()) << 7u32) | ((bytes.last() & 0x7f) as u32)
    }
}

/// The continuation bit, read with a mask, is the top half of the byte range.
proof fn lemma_continuation_bit(byte: u8)
    ensures
        (byte & 0x80 != 0) == has_continuation(byte),
{
    assert((byte & 0x80 != 0) == (byte >= 0x80)) by (bit_vector);
}

/// For at most four bytes, shifting in seven bits at a time spells the base-128 number.
proof fn lemma_shifted_value(bytes: Seq<u8>)
    requires
        bytes.len() <= 4,
    ensures
        shifted_value(bytes) as nat == base128_value(bytes),
    decreases bytes.len(),
{
    if bytes.len() > 0 {
        let init = bytes.drop_last();
        lemma_shifted_value(init);
        lemma_base128_bound(init);
        let x = shifted_value(init);
        let b = bytes.last();
        assert(x < 0x20_0000 ==> ((x << 7u32) | ((b & 0x7f) as u32)) as nat == (x as nat) * 128 + (
        b % 128) as nat) by (bit_vector);
    }
}

/// What reads as a variable-length quantity of `n` bytes: one to four bytes of the input, each
/// but the last with the continuation bit set and the last without it. Its value is those bytes'
/// low seven bits shifted in from the right, below `2^(7n)`.
pub proof fn law_variable_length_quantity_bytes(input: Seq<u8>, n: int)
    ensures
        (spec_variable_length_quantity(input) matches Ok((m, _)) && m == n) <==> (1 <= n <= 4
            && n <= input.len() && (forall|i: int| 0 <= i < n - 1 ==> #[trigger] input[i] & 0x80 != 0)
            && input[n - 1] & 0x80 == 0),
        spec_variable_length_quantity(input) matches Ok((m, v)) ==> v == shifted_value(
            input.take(m as int),
        ) && (v as nat) < pow2((7 * m) as nat),
{
    lemma_continuation_run(input);
    lemma_variable_length_quantity_bounds(input);
    let run = continuation_run(input) as int;
    assert forall|i: int| 0 <= i < input.len() implies (#[trigger] input[i] & 0x80 != 0)
        == has_continuation(input[i]) by {
        lemma_continuation_bit(input[i]);
    }
    if 1 <= n <= 4 && n <= input.len() && (forall|i: int| 0 <= i < n - 1 ==> #[trigger] input[i]
        & 0x80 != 0) && input[n - 1] & 0x80 == 0 {
        assert forall|j: int| 0 <= j < n - 1 implies has_continuation(#[trigger] input[j]) by {
            assert(input[j] & 0x80 != 0);
        }
        lemma_continuation_run_is(input, n - 1);
    }
    if spec_variable_length_quantity(input) is Ok {
        let m = run + 1;
        assert forall|i: int| 0 <= i < m - 1 implies #[trigger] input[i] & 0x80 != 0 by {
            assert(has_continuation(input[i]));
        }
        lemma_shifted_value(input.take(m));
        lemma_base128_bound(input.take(m));
        lemma2_to64();
    }
}

/// The base-128 digits of `v`, most significant first, without leading zero digits (zero has
/// the one digit zero).
pub open spec fn base128_digits(v: nat) -> Seq<u8>
    decreases v,
{
    if v < 128 {
        seq![v as u8]
    } else {
        base128_digits(v / 128).push((v % 128) as u8)
    }
}

/// The shortest variable-length quantity for `v`: its base-128 digits, with the continuation bit
/// set on every digit but the last.
pub open spec fn spec_encoding(v: nat) -> Seq<u8> {
    let digits = base128_digits(v);
    Seq::new(
        digits.len(),
        |i: int|
            if i + 1 < digits.len() {
                (digits[i] + 0x80) as u8
            } else {
                digits[i]
            },
    )
}

/// The digits of `v` are below 128, spell `v`, and number at most four below `2^28`.
proof fn lemma_base128_digits(v: nat)
    ensures
        base128_digits(v).len() >= 1,
        forall|i: int| 0 <= i < base128_digits(v).len() ==> #[trigger] base128_digits(v)[i] < 128,
        base128_value(base128_digits(v)) == v,
        v < 0x80 ==> base128_digits(v).len() == 1,
        v < 0x4000 ==> base128_digits(v).len() <= 2,
        v < 0x20_0000 ==> base128_digits(v).len() <= 3,
        v < 0x1000_0000 ==> base128_digits(v).len() <= 4,
    decreases v,
{
    let d = base128_digits(v);
    if v < 128 {
        assert(d.drop_last() =~= Seq::<u8>::empty());
        assert(d.last() == v);
        assert(base128_value(d) == base128_value(d.drop_last()) * 128 + (d.last() % 128) as nat);
    } else {
        let high = base128_digits(v / 128);
        lemma_base128_digits(v / 128);
        assert(d.drop_last() =~= high);
        assert(d.last() == (v % 128) as u8);
        assert(v == (v / 128) * 128 + v % 128) by (nonlinear_arith);
        assert(d.last() % 128 == v % 128);
        assert(base128_value(high) == v / 128);
        assert(base128_value(d) == base128_value(high) * 128 + (d.last() % 128) as nat);
        assert forall|i: int| 0 <= i < d.len() implies #[trigger] d[i] < 128 by {
            if i < high.len() {
                assert(d[i] == high[i]);
            }
        }
    }
}

/// Bytes that agree in their low seven bits spell the same base-128 number.
proof fn lemma_base128_low_bits(a: Seq<u8>, b: Seq<u8>)
    requires
        a.len() == b.len(),
        forall|i: int| 0 <= i < a.len() ==> #[trigger] a[i] % 128 == #[trigger] b[i] % 128,
    ensures
        base128_value(a) == base128_value(b),
    decreases a.len(),
{
    if a.len() > 0 {
        assert forall|i: int| 0 <= i < a.len() - 1 implies #[trigger] a.drop_last()[i] % 128
            == #[trigger] b.drop_last()[i] % 128 by {
            assert(a.drop_last()[i] == a[i] && b.drop_last()[i] == b[i]);
        }
        lemma_base128_low_bits(a.drop_last(), b.drop_last());
        assert(a.last() % 128 == b.last() % 128);
    }
}

/// Every number below `2^28` has a variable-length quantity of one to four bytes that reads back
/// as that number, whatever bytes follow it.
pub proof fn law_encoding_reads_back(v: nat, rest: Seq<u8>)
    requires
        v < 0x1000_0000,
    ensures
        1 <= spec_encoding(v).len() <= 4,
        spec_variable_length_quantity(spec_encoding(v) + rest) == Ok::<(usize, u32), ParseError>(
            (spec_encoding(v).len() as usize, v as u32),
        ),
{
    let d = base128_digits(v);
    let e = spec_encoding(v);
    lemma_base128_digits(v);
    let n = e.len() as int;
    assert forall|j: int| 0 <= j < n - 1 implies has_continuation(#[trigger] e[j]) by {
        assert(d[j] < 128);
    }
    assert(e[n - 1] == d[n - 1]);
    lemma_continuation_run_is(e, n - 1);
    assert forall|i: int| 0 <= i < n implies #[trigger] e[i] % 128 == #[trigger] d[i] % 128 by {
        assert(d[i] < 128);
    }
    lemma_base128_low_bits(e, d);
    assert(e.take(n) =~= e);
    law_variable_length_quantity_prefix(e, rest);
}

/// Reads a variable-length quantity from the front of `input`, returning how many bytes it
/// takes and its value.
pub fn variable_length_quantity(input: &[u8]) -> (res: Result<(usize, u32), ParseError>)
    ensures
        res == spec_variable_length_quantity(input@),
        res matches Ok((n, v)) ==> 1 <= n <= 4 && n <= input@.len() && v < 0x1000_0000,
{
    if input.len() == 0 {
        return Err(ParseError::InputEmpty);
    }
    let mut result: u32 = 0;
    let mut i: usize = 0;
    while i < 4
        invariant
            i <= 4,
            i <= input@.len(),
            input@.len() > 0,
            forall|j: int| 0 <= j < i ==> has_continuation(#[trigger] input@[j]),
            result as nat == base128_value(input@.take(i as int)),
            i < 4,
        decreases 4 - i,
    {
        if i >= input.len() {
            proof {
                lemma_continuation_run_is(input@, i as int);
            }
            return Err(ParseError::ContinuationAtEndOfInput);
        }
        let byte = input[i];
        let is_continuation_bit_set = byte & 0x80 > 0;
        proof {
            lemma_base128_bound(input@.take(i as int));
            assert(byte & 0x80 > 0 <==> byte >= 0x80) by (bit_vector);
            assert(byte & 0x7f == byte % 128) by (bit_vector);
            assert(input@.take(i + 1).drop_last() == input@.take(i as int));
        }
        let low = byte & 0x7f;
        proof {
            let r = result;
            assert(r < 0x20_0000 ==> r << 7 == r * 128) by (bit_vector);
        }
        result = (result << 7) + low as u32;
        if !is_continuation_bit_set {
            proof {
                lemma_continuation_run_is(input@, i as int);
                lemma_base128_bound(input@.take(i + 1));
            }
            return Ok((i + 1, result));
        } else if i == 3 {
            proof {
                lemma_continuation_run(input@);
                if continuation_run(input@) < 4 {
                    let k = continuation_run(input@) as int;
                    assert(has_continuation(input@[k]));
                }
            }
            return Err(ParseError::ContinuationIn4thByte);
        }
        i = i + 1;
    }
    proof {
        assert(false);
    }
    Err(ParseError::ContinuationAtEndOfInput)
}

/// Like `variable_length_quantity`, with the value widened to `usize`.
pub fn variable_length_quantity_usize(input: &[u8]) -> (res: Result<(usize, usize), ParseError>)
    ensures
        match (res, spec_variable_length_quantity(input@)) {
            (Ok((n, v)), Ok((m, w))) => n == m && v as int == w as int,
            (Err(e), Err(f)) => e == f,
            _ => false,
        },
        res matches Ok((n, v)) ==> 1 <= n <= 4 && n <= input@.len() && v < 0x1000_0000,
{
    match variable_length_quantity(input) {
        Ok((consumed, value)) => Ok((consumed, crate::u32_as_usize(value))),
        Err(e) => Err(e),
    }
}

impl ParseError {
    /// A description of the error.
    pub open spec fn spec_to_string(self) -> Seq<char> {
        match self {
            ParseError::InputEmpty => "input empty"@,
            ParseError::ContinuationIn4thByte =>
                "received continuation in 4th byte, max. size of variable length quantity is 4 bytes"@,
            ParseError::ContinuationAtEndOfInput =>
                "received continuation, but there is no more input left to process"@,
        }
    }

    /// A description of the error.
    pub fn to_string(&self) -> (res: String)
        ensures
            res@ == self.spec_to_string(),
    {
        String::from_str(
            match self {
                ParseError::InputEmpty => "input empty",
                ParseError::ContinuationIn4thByte =>
                    "received continuation in 4th byte, max. size of variable length quantity is 4 bytes",
                ParseError::ContinuationAtEndOfInput =>
                    "received continuation, but there is no more input left to process",
            },
        )
    }
}

} // verus!
