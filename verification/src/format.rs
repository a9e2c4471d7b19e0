//! Human-readable size rendering.
//!
//! Sizes are shown with the largest binary unit they reach, with two
//! decimal places computed by integer arithmetic (truncated, not
//! rounded): 1536 bytes render as "1.50 KB", plain byte counts as
//! "512 B".

use vstd::prelude::*;

verus! {

/// The decimal digits of a non-negative value, most significant first.
pub open spec fn dec_digits(n: int) -> Seq<u8>
    recommends
        n >= 0,
    decreases n,
{
    if n < 10 {
        seq![(48 + if n >= 0 {
            n
        } else {
            0
        }) as u8]
    } else {
        dec_digits(n / 10).push((48 + n % 10) as u8)
    }
}

pub proof fn lemma_dec_digits_ascii(n: int)
    requires
        n >= 0,
    ensures
        forall|i: int| 0 <= i < dec_digits(n).len() ==> 48 <= #[trigger] dec_digits(n)[i] < 58,
    decreases n,
{
    if n >= 10 {
        lemma_dec_digits_ascii(n / 10);
        assert forall|i: int| 0 <= i < dec_digits(n).len() implies 48 <= #[trigger] dec_digits(
            n,
        )[i] < 58 by {
            if i < dec_digits(n / 10).len() {
                assert(dec_digits(n)[i] == dec_digits(n / 10)[i]);
            }
        }
    }
}

/// Appends the decimal digits of a value.
fn push_digits(n: u128, out: &mut Vec<u8>)
    ensures
        final(out)@ == old(out)@ + dec_digits(n as int),
    decreases n,
{
    if n < 10 {
        out.push(48 + n as u8);
        proof {
            assert(out@ =~= old(out)@ + dec_digits(n as int));
        }
    } else {
        push_digits(n / 10, out);
        out.push(48 + (n % 10) as u8);
        proof {
            assert(out@ =~= old(out)@ + dec_digits(n as int));
        }
    }
}

/// Which binary unit a byte count reaches: 0 for bytes up to 4 for
/// tebibytes.
pub open spec fn size_unit_index(bytes: u64) -> int {
    if bytes >= 0x10000000000 {
        4
    } else if bytes >= 0x40000000 {
        3
    } else if bytes >= 0x100000 {
        2
    } else if bytes >= 0x400 {
        1
    } else {
        0
    }
}

/// 1024 to the power of the unit index.
pub open spec fn unit_divisor(k: int) -> int {
    if k == 4 {
        0x10000000000
    } else if k == 3 {
        0x40000000
    } else if k == 2 {
        0x100000
    } else if k == 1 {
        0x400
    } else {
        1
    }
}

/// The suffix of a unit, as ASCII bytes.
pub open spec fn unit_suffix(k: int) -> Seq<u8> {
    if k == 4 {
        seq![32u8, 84u8, 66u8]
    } else if k == 3 {
        seq![32u8, 71u8, 66u8]
    } else if k == 2 {
        seq![32u8, 77u8, 66u8]
    } else if k == 1 {
        seq![32u8, 75u8, 66u8]
    } else {
        seq![32u8, 66u8]
    }
}

/// The rendering of a size, as ASCII bytes: the plain count for bytes,
/// otherwise the scaled value with two truncated decimal places.
pub open spec fn format_size_spec(bytes: u64) -> Seq<u8> {
    let k = size_unit_index(bytes);
    if k == 0 {
        dec_digits(bytes as int) + unit_suffix(0)
    } else {
        let scaled = bytes * 100 / unit_divisor(k);
        dec_digits(scaled / 100) + seq![46u8, (48 + (scaled % 100) / 10) as u8, (48 + scaled % 10) as u8]
            + unit_suffix(k)
    }
}

/// The characters of an ASCII byte sequence.
pub open spec fn ascii_chars(s: Seq<u8>) -> Seq<char> {
    s.map_values(|b: u8| b as char)
}

/// Relies on `String::from_utf8`: bytes below 128 decode to the chars
/// with the same code points.
#[verifier::external_body]
fn ascii_to_string(bytes: Vec<u8>) -> (r: String)
    requires
        forall|i: int| 0 <= i < bytes@.len() ==> bytes@[i] < 128,
    ensures
        r@ == ascii_chars(bytes@),
{
    String::from_utf8(bytes).unwrap_or_default()
}

/// Renders the scaled part and the suffix for a non-zero unit.
fn push_scaled(scaled: u128, out: &mut Vec<u8>)
    ensures
        final(out)@ == old(out)@ + dec_digits(scaled as int / 100) + seq![
            46u8,
            (48 + (scaled as int % 100) / 10) as u8,
            (48 + scaled as int % 10) as u8,
        ],
{
    push_digits(scaled / 100, out);
    out.push(46);
    out.push(48 + ((scaled % 100) / 10) as u8);
    out.push(48 + (scaled % 10) as u8);
    proof {
        assert(out@ =~= old(out)@ + dec_digits(scaled as int / 100) + seq![
            46u8,
            (48 + (scaled as int % 100) / 10) as u8,
            (48 + scaled as int % 10) as u8,
        ]);
    }
}

/// Renders a byte count with the largest binary unit it reaches.
pub fn format_size(bytes: u64) -> (r: String)
    ensures
        r@ == ascii_chars(format_size_spec(bytes)),
{
    let mut out: Vec<u8> = Vec::new();
    if bytes >= 0x10000000000 {
        let scaled = (bytes as u128) * 100 / 0x10000000000;
        push_scaled(scaled, &mut out);
        out.push(32);
        out.push(84);
        out.push(66);
    } else if bytes >= 0x40000000 {
        let scaled = (bytes as u128) * 100 / 0x40000000;
        push_scaled(scaled, &mut out);
        out.push(32);
        out.push(71);
        out.push(66);
    } else if bytes >= 0x100000 {
        let scaled = (bytes as u128) * 100 / 0x100000;
        push_scaled(scaled, &mut out);
        out.push(32);
        out.push(77);
        out.push(66);
    } else if bytes >= 0x400 {
        let scaled = (bytes as u128) * 100 / 0x400;
        push_scaled(scaled, &mut out);
        out.push(32);
        out.push(75);
        out.push(66);
    } else {
        push_digits(bytes as u128, &mut out);
        out.push(32);
        out.push(66);
    }
    proof {
        assert(out@ =~= format_size_spec(bytes));
        let k = size_unit_index(bytes);
        if k == 0 {
            lemma_dec_digits_ascii(bytes as int);
        } else {
            let scaled = bytes * 100 / unit_divisor(k);
            lemma_dec_digits_ascii(scaled / 100);
        }
        assert(forall|i: int| 0 <= i < out@.len() ==> out@[i] < 128);
    }
    ascii_to_string(out)
}

} // verus!
