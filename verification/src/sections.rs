use vstd::prelude::*;
use vstd::arithmetic::div_mod::{lemma_fundamental_div_mod, lemma_remainder_lower, lemma_remainder_upper};
use vstd::arithmetic::mul::lemma_mul_inequality;
use vstd::arithmetic::power2::{lemma2_to64, lemma_pow2_strictly_increases, lemma_pow2_unfold, pow2};

use crate::errors::{DecodeError, ErrorView};
use crate::tags::{compound_get, opt_string_view, spec_lookup, Compound, Tag};

verus! {

/// Ceiling of the base-2 logarithm: the smallest `k` with
/// `n <= pow2(k)` (0 when `n <= 1`).
pub open spec fn spec_ceil_log2(n: int) -> int
    decreases n,
{
    if n <= 1 {
        0
    } else {
        1 + spec_ceil_log2((n + 1) / 2)
    }
}

/// `spec_ceil_log2` lands where a ceiling logarithm must: at the
/// unique exponent whose power of two first reaches `n`.
pub proof fn lemma_ceil_log2_bounds(n: int)
    requires
        n >= 1,
    ensures
        spec_ceil_log2(n) >= 0,
        n <= pow2(spec_ceil_log2(n) as nat),
        pow2(spec_ceil_log2(n) as nat) < 2 * n,
    decreases n,
{
    if n == 1 {
        lemma2_to64();
    } else {
        let m = (n + 1) / 2;
        assert(1 <= m < n);
        lemma_ceil_log2_bounds(m);
        let k = spec_ceil_log2(m);
        assert(spec_ceil_log2(n) == k + 1);
        lemma_pow2_unfold((k + 1) as nat);
        assert(pow2((k + 1) as nat) == 2 * pow2(k as nat));
        // upper direction: pow2(k) >= m and 2*m >= n
        assert(2 * m >= n);
        // strictness: pow2(k+1) < 2*n
        if n % 2 == 0 {
            assert(m == n / 2);
            assert(2 * m <= n);
            assert(pow2(k as nat) < 2 * m);
            assert(2 * pow2(k as nat) < 4 * m - 1);
        } else {
            assert(2 * m == n + 1);
            if k == 0 {
                lemma2_to64();
                assert(pow2(0) == 1);
                assert(2 * pow2(k as nat) == 2);
                assert(n >= 2);
            } else {
                lemma_pow2_unfold(k as nat);
                assert(pow2(k as nat) == 2 * pow2((k - 1) as nat));
                // pow2(k) is even and below 2*m, and 2*m - 1 is odd,
                // so pow2(k) <= 2*m - 2 == n - 1
                assert(pow2(k as nat) < 2 * m);
                assert(pow2(k as nat) != 2 * m - 1);
                assert(pow2(k as nat) <= n - 1);
            }
        }
    }
}

/// No exponent other than `spec_ceil_log2(n)` satisfies the ceiling
/// logarithm's two sides.
pub proof fn lemma_ceil_log2_minimal(n: int, k: nat)
    requires
        n >= 1,
        n <= pow2(k),
        k == 0 || pow2((k - 1) as nat) < n,
    ensures
        k as int == spec_ceil_log2(n),
{
    lemma_ceil_log2_bounds(n);
    let s = spec_ceil_log2(n) as nat;
    if k < s {
        assert(s >= 1);
        if k < s - 1 {
            lemma_pow2_strictly_increases(k, (s - 1) as nat);
        }
        lemma_pow2_unfold(s);
        assert(pow2((s - 1) as nat) < n);
        assert(pow2(k) < n);
        assert(false);
    } else if k > s {
        assert(k >= 1);
        if s < k - 1 {
            lemma_pow2_strictly_increases(s, (k - 1) as nat);
        }
        assert(pow2(s) <= pow2((k - 1) as nat));
        assert(pow2((k - 1) as nat) < n);
        assert(n <= pow2(s));
        assert(false);
    }
}

/// Smallest `k` with `pow2(k) >= n`, computed by doubling.
fn ceil_log2(n: usize) -> (r: usize)
    ensures
        r as int == spec_ceil_log2(n as int),
        r <= 64,
{
    let mut k: usize = 0;
    let mut p: u128 = 1;
    proof {
        lemma2_to64();
    }
    while p < n as u128
        invariant
            k <= 64,
            1 <= p,
            p == pow2(k as nat),
            p <= 0x1_0000_0000_0000_0000u128,
            k == 0 || pow2((k - 1) as nat) < n as int,
        decreases 64 - k,
    {
        proof {
            lemma_pow2_64_value();
            if k >= 64 {
                assert(p >= 0x1_0000_0000_0000_0000u128);
                assert(false);
            }
            if k < 63 {
                lemma_pow2_strictly_increases(k as nat, 63);
            }
            assert(pow2(63) == 0x8000000000000000) by {
                vstd::arithmetic::power2::lemma2_to64_rest();
            }
            assert(p <= 0x8000_0000_0000_0000u128);
            lemma_pow2_unfold((k + 1) as nat);
        }
        p = p * 2;
        k = k + 1;
    }
    proof {
        lemma_ceil_log2_minimal(if n as int >= 1 { n as int } else { 1 }, k as nat);
        if n == 0 {
            assert(k == 0);
        }
    }
    k
}

/// The value of `pow2(64)`, just past every 64-bit integer.
proof fn lemma_pow2_64_value()
    ensures
        pow2(64) == 0x10000000000000000,
{
    vstd::arithmetic::power2::lemma2_to64_rest();
}

/// The packed bit width the format assigns to a block palette of
/// `n` entries: 0 for at most one entry, at least 4 bits, at most 15.
pub open spec fn spec_bits_per_entry(n: int) -> int {
    if n <= 1 {
        0
    } else if spec_ceil_log2(n) <= 4 {
        4
    } else if spec_ceil_log2(n) <= 15 {
        spec_ceil_log2(n)
    } else {
        15
    }
}

/// Calculate the bits per entry of a block-state palette with
/// `palette_size` entries: sizes up to 16 use 4 bits, larger ones the
/// ceiling logarithm of the size, capped at 15 bits.
pub fn calculate_bits_per_entry(palette_size: usize) -> (r: usize)
    ensures
        r as int == spec_bits_per_entry(palette_size as int),
        r <= 15,
        palette_size > 1 ==> 4 <= r,
{
    if palette_size <= 1 {
        return 0;
    }

    let min_bits = ceil_log2(palette_size);

    if min_bits <= 4 {
        4
    } else if min_bits <= 15 {
        min_bits
    } else {
        15
    }
}

/// The four regimes of `spec_bits_per_entry`, written out against the
/// ceiling logarithm: at most one entry packs into 0 bits, 2 to 16
/// entries into exactly 4, 17 to 256 into the ceiling logarithm, and
/// anything larger into the ceiling logarithm capped at 15.
pub proof fn lemma_bits_per_entry_cases(n: int)
    ensures
        n <= 1 ==> spec_bits_per_entry(n) == 0,
        2 <= n <= 16 ==> spec_bits_per_entry(n) == 4,
        17 <= n <= 256 ==> spec_bits_per_entry(n) == spec_ceil_log2(n),
        n > 256 ==> spec_bits_per_entry(n) == if spec_ceil_log2(n) <= 15 {
            spec_ceil_log2(n)
        } else {
            15int
        },
{
    lemma2_to64();
    if 2 <= n <= 16 {
        lemma_ceil_log2_bounds(n);
        let s = spec_ceil_log2(n);
        if s > 4 {
            lemma_pow2_unfold(s as nat);
            assert(pow2((s - 1) as nat) < n);
            if s - 1 > 4 {
                lemma_pow2_strictly_increases(4, (s - 1) as nat);
            }
            assert(pow2((s - 1) as nat) >= 16);
            assert(false);
        }
    }
    if 17 <= n <= 256 {
        lemma_ceil_log2_bounds(n);
        let s = spec_ceil_log2(n);
        if s <= 4 {
            if s < 4 {
                lemma_pow2_strictly_increases(s as nat, 4);
            }
            assert(n <= pow2(s as nat));
            assert(false);
        }
        if s > 8 {
            lemma_pow2_unfold(s as nat);
            assert(pow2((s - 1) as nat) < n);
            if s - 1 > 8 {
                lemma_pow2_strictly_increases(8, (s - 1) as nat);
            }
            assert(pow2((s - 1) as nat) >= 256);
            assert(false);
        }
    }
    if n > 256 {
        lemma_ceil_log2_bounds(n);
        let s = spec_ceil_log2(n);
        if s <= 8 {
            if s < 8 {
                lemma_pow2_strictly_increases(s as nat, 8);
            }
            assert(n <= pow2(s as nat));
            assert(false);
        }
    }
}

/// All ones in the low `bits` positions.
pub open spec fn spec_palette_mask(bits: int) -> u64
    recommends
        1 <= bits <= 64,
{
    u64::MAX >> ((64int - bits) as u64)
}

/// Bit position of packed element `element_index` inside its word.
pub open spec fn spec_palette_slot_shift(element_index: int, bits: int) -> int
    recommends
        1 <= bits <= 64,
{
    (element_index % (64int / bits)) * bits
}

/// The packed field of element `element_index`: its word, shifted
/// down to the element's bit position and masked to `bits` bits.
pub open spec fn spec_palette_field(words: Seq<i64>, element_index: int, bits: int) -> u64
    recommends
        1 <= bits <= 64,
        0 <= element_index / (64int / bits) < words.len(),
{
    ((words[element_index / (64int / bits)] as u64) >> (spec_palette_slot_shift(
        element_index,
        bits,
    ) as u64)) & spec_palette_mask(bits)
}

/// What `extract_palette_index` returns: 0 when no bits are stored,
/// an out-of-bounds error when the element's word lies past the end
/// of the array, and the packed field otherwise.
pub open spec fn spec_extract_palette_index(
    words: Seq<i64>,
    element_index: int,
    bits: int,
) -> Result<u64, ErrorView>
    recommends
        0 <= bits <= 64,
        0 <= element_index,
{
    if bits == 0 {
        Ok(0u64)
    } else if element_index / (64int / bits) >= words.len() {
        Err(
            ErrorView::WordIndexOutOfBounds {
                word_index: element_index / (64int / bits),
                data_len: words.len() as int,
            },
        )
    } else {
        Ok(spec_palette_field(words, element_index, bits))
    }
}

/// Read the packed palette index of element `block_index` from a
/// word array at `bits_per_entry` bits per element.  Elements never
/// straddle a word boundary; a zero width means the palette has a
/// single entry and index 0 is the only answer.
pub fn extract_palette_index(data: &[i64], block_index: usize, bits_per_entry: usize) -> (r:
    Result<u64, DecodeError>)
    requires
        bits_per_entry <= 64,
    ensures
        match r {
            Ok(v) => spec_extract_palette_index(
                data@,
                block_index as int,
                bits_per_entry as int,
            ) == Ok::<u64, ErrorView>(v),
            Err(e) => spec_extract_palette_index(
                data@,
                block_index as int,
                bits_per_entry as int,
            ) == Err::<u64, ErrorView>(e@),
        },
{
    if bits_per_entry == 0 {
        return Ok(0);
    }

    let entries_per_long = 64 / bits_per_entry;
    proof {
        vstd::arithmetic::div_mod::lemma_div_is_ordered_by_denominator(
            64,
            bits_per_entry as int,
            64,
        );
        assert(entries_per_long >= 1);
    }
    let long_index = block_index / entries_per_long;
    let entry_index = block_index % entries_per_long;

    if long_index >= data.len() {
        return Err(
            DecodeError::WordIndexOutOfBounds { word_index: long_index, data_len: data.len() },
        );
    }

    proof {
        lemma_fundamental_div_mod(64, bits_per_entry as int);
        lemma_remainder_lower(64, bits_per_entry as int);
        lemma_remainder_upper(block_index as int, entries_per_long as int);
        lemma_fundamental_div_mod(block_index as int, entries_per_long as int);
        assert(entry_index < entries_per_long);
        assert(entries_per_long * bits_per_entry <= 64);
        lemma_mul_inequality(
            entry_index as int + 1,
            entries_per_long as int,
            bits_per_entry as int,
        );
        assert((entry_index + 1) * bits_per_entry <= entries_per_long * bits_per_entry);
        assert(entry_index * bits_per_entry + bits_per_entry <= 64) by (nonlinear_arith)
            requires
                (entry_index + 1) * bits_per_entry <= 64,
        ;
    }

    let long_value = data[long_index] as u64;
    let shift = entry_index * bits_per_entry;
    let mask = u64::MAX >> ((64 - bits_per_entry) as u64);
    let palette_index = (long_value >> (shift as u64)) & mask;

    Ok(palette_index)
}

/// A zero bit width stores no indices at all: extraction answers 0
/// for every element of every word array, the empty one included.
pub proof fn lemma_zero_width_always_zero(words: Seq<i64>, element_index: int)
    ensures
        spec_extract_palette_index(words, element_index, 0) == Ok::<u64, ErrorView>(0u64),
{
}

/// The array after re-encoding `v` at element `element_index`: the
/// element's slot is cleared and `v`'s low `bits` bits are written at
/// its bit position; every other word is untouched.
pub open spec fn spec_store_palette_index(
    words: Seq<i64>,
    element_index: int,
    bits: int,
    v: u64,
) -> Seq<i64>
    recommends
        1 <= bits <= 64,
        0 <= element_index / (64int / bits) < words.len(),
{
    let word_index = element_index / (64int / bits);
    let shift = spec_palette_slot_shift(element_index, bits) as u64;
    let mask = spec_palette_mask(bits);
    let word = words[word_index] as u64;
    let stored = ((word & !(mask << shift)) | ((v & mask) << shift)) as i64;
    words.update(word_index, stored)
}

/// Writing a field's own decoded value back into its slot reproduces
/// the word bit for bit.
proof fn lemma_store_own_field(w: u64, shift: u64, mask: u64)
    by (bit_vector)
    requires
        shift < 64,
    ensures
        (w & !(mask << shift)) | (((((w >> shift) & mask)) & mask) << shift) == w,
{
}

/// Decoding element `element_index` and re-encoding the decoded
/// index with the same bits per entry round-trips: the packed array
/// comes back word for word.
pub proof fn lemma_palette_index_round_trip(words: Seq<i64>, element_index: int, bits: int)
    requires
        1 <= bits <= 64,
        0 <= element_index,
        element_index / (64int / bits) < words.len(),
    ensures
        spec_store_palette_index(
            words,
            element_index,
            bits,
            spec_palette_field(words, element_index, bits),
        ) =~= words,
{
    let epl = 64int / bits;
    lemma_entries_per_word_positive(bits);
    let word_index = element_index / epl;
    let shift_int = spec_palette_slot_shift(element_index, bits);
    lemma_fundamental_div_mod(64, bits);
    lemma_remainder_lower(64, bits);
    lemma_remainder_upper(element_index, epl);
    lemma_fundamental_div_mod(element_index, epl);
    assert(element_index % epl < epl);
    assert(0 <= element_index % epl);
    assert(epl * bits <= 64);
    lemma_mul_inequality(element_index % epl + 1, epl, bits);
    assert(shift_int + bits <= 64) by (nonlinear_arith)
        requires
            shift_int == (element_index % epl) * bits,
            (element_index % epl + 1) * bits <= epl * bits,
            epl * bits <= 64,
    ;
    assert(shift_int >= 0) by (nonlinear_arith)
        requires
            shift_int == (element_index % epl) * bits,
            element_index % epl >= 0,
            bits >= 1,
    ;
    let shift = shift_int as u64;
    let mask = spec_palette_mask(bits);
    let w = words[word_index] as u64;
    let v = spec_palette_field(words, element_index, bits);
    assert(v == (w >> shift) & mask);
    lemma_store_own_field(w, shift, mask);
    let stored_u = (w & !(mask << shift)) | ((v & mask) << shift);
    assert(stored_u == w);
    let w_word = words[word_index];
    assert((w as i64) == w_word) by (bit_vector)
        requires
            w == w_word as u64,
    ;
    assert(spec_store_palette_index(words, element_index, bits, v)[word_index]
        == words[word_index]);
}

/// `64 / bits` is at least 1 for every admissible bit width.
proof fn lemma_entries_per_word_positive(bits: int)
    requires
        1 <= bits <= 64,
    ensures
        64int / bits >= 1,
{
    vstd::arithmetic::div_mod::lemma_div_is_ordered_by_denominator(64, bits, 64);
}

/// The `snowy` property kept from a block's `Properties` compound:
/// present only when the compound stores it as a string.
pub open spec fn spec_snowy_of(props: Seq<(String, Tag)>) -> Option<Seq<char>> {
    match spec_lookup(props, "snowy"@) {
        Some(t) => match t {
            Tag::Str(s) => Some(s@),
            _ => None,
        },
        None => None,
    }
}

/// The required `Name` of a palette entry, paired with an already
/// resolved `snowy` property.
pub open spec fn spec_block_name_with(block: Seq<(String, Tag)>, snowy: Option<Seq<char>>) -> Result<
    (Seq<char>, Option<Seq<char>>),
    ErrorView,
> {
    match spec_lookup(block, "Name"@) {
        Some(t) => match t {
            Tag::Str(name) => Ok((name@, snowy)),
            _ => Err(ErrorView::WrongTag { key: "Name"@, found: Some(t.kind_spec()) }),
        },
        None => Err(ErrorView::WrongTag { key: "Name"@, found: None }),
    }
}

/// What `extract_block_data` returns for one palette entry: its
/// `Name`, and the `snowy` property if a `Properties` compound holds
/// one as a string.  A `Properties` tag of any other kind is a
/// structural error; every other property is discarded.
pub open spec fn spec_extract_block_data(block: Seq<(String, Tag)>) -> Result<
    (Seq<char>, Option<Seq<char>>),
    ErrorView,
> {
    match spec_lookup(block, "Properties"@) {
        Some(t) => match t {
            Tag::Compound(c) => spec_block_name_with(block, spec_snowy_of(c@)),
            _ => Err(ErrorView::WrongTag { key: "Properties"@, found: Some(t.kind_spec()) }),
        },
        None => spec_block_name_with(block, None),
    }
}

/// Read a palette entry's block name and retained `snowy` property.
/// Only `snowy` is kept from `Properties`; everything else the entry
/// stores is deliberately dropped.
pub fn extract_block_data(block: &Compound) -> (r: Result<(String, Option<String>), DecodeError>)
    ensures
        match r {
            Ok(p) => spec_extract_block_data(block@) == Ok::<(Seq<char>, Option<Seq<char>>), ErrorView>(
                (p.0@, opt_string_view(p.1)),
            ),
            Err(e) => spec_extract_block_data(block@) == Err::<(Seq<char>, Option<Seq<char>>), ErrorView>(
                e@,
            ),
        },
{
    let mut snowy: Option<String> = None;

    match compound_get(block, "Properties") {
        Some(t) => {
            match t {
                Tag::Compound(c) => {
                    match compound_get(c, "snowy") {
                        Some(st) => {
                            match st {
                                Tag::Str(s) => {
                                    snowy = Some(s.clone());
                                },
                                _ => {},
                            }
                        },
                        None => {},
                    }
                },
                _ => {
                    return Err(
                        DecodeError::WrongTag {
                            key: "Properties".to_owned(),
                            found: Some(t.kind()),
                        },
                    );
                },
            }
        },
        None => {},
    }

    match compound_get(block, "Name") {
        Some(t) => {
            match t {
                Tag::Str(name) => Ok((name.clone(), snowy)),
                _ => Err(DecodeError::WrongTag { key: "Name".to_owned(), found: Some(t.kind()) }),
            }
        },
        None => Err(DecodeError::WrongTag { key: "Name".to_owned(), found: None }),
    }
}

/// What `get_block_at_position` returns once the palette list is in
/// hand: the sole entry of a single-entry palette, otherwise the
/// entry selected by the packed index at `(y*16 + z)*16 + x`.
pub open spec fn spec_block_from_palette(
    block_states: Seq<(String, Tag)>,
    palette: Seq<Tag>,
    x: int,
    y: int,
    z: int,
) -> Result<(Seq<char>, Option<Seq<char>>), ErrorView> {
    if palette.len() == 1 {
        match palette[0] {
            Tag::Compound(b) => spec_extract_block_data(b@),
            _ => Err(
                ErrorView::WrongTag { key: "palette[0]"@, found: Some(palette[0].kind_spec()) },
            ),
        }
    } else {
        match spec_lookup(block_states, "data"@) {
            Some(dt) => match dt {
                Tag::LongArray(words) => {
                    let block_index = (y * 16 + z) * 16 + x;
                    let bits = spec_bits_per_entry(palette.len() as int);
                    match spec_extract_palette_index(words@, block_index, bits) {
                        Err(e) => Err(e),
                        Ok(pi) => if pi as int >= palette.len() as int {
                            Err(
                                ErrorView::PaletteIndexOutOfBounds {
                                    palette_index: pi as int,
                                    palette_len: palette.len() as int,
                                    bits_per_entry: bits,
                                    element_index: block_index,
                                },
                            )
                        } else {
                            match palette[pi as int] {
                                Tag::Compound(b) => spec_extract_block_data(b@),
                                _ => Err(
                                    ErrorView::WrongTag {
                                        key: "palette[palette_index]"@,
                                        found: Some(palette[pi as int].kind_spec()),
                                    },
                                ),
                            }
                        },
                    }
                },
                _ => Err(
                    ErrorView::WrongTag { key: "block_states.data"@, found: Some(dt.kind_spec()) },
                ),
            },
            None => Err(ErrorView::WrongTag { key: "block_states.data"@, found: None }),
        }
    }
}

/// What `get_block_at_position` returns for a section subtree and a
/// section-local coordinate.
pub open spec fn spec_get_block_at_position(
    section: Seq<(String, Tag)>,
    x: int,
    y: int,
    z: int,
) -> Result<(Seq<char>, Option<Seq<char>>), ErrorView> {
    match spec_lookup(section, "block_states"@) {
        Some(bs) => match bs {
            Tag::Compound(bsc) => match spec_lookup(bsc@, "palette"@) {
                Some(pt) => match pt {
                    Tag::List(palette) => spec_block_from_palette(bsc@, palette@, x, y, z),
                    _ => Err(
                        ErrorView::WrongTag {
                            key: "block_states.palette"@,
                            found: Some(pt.kind_spec()),
                        },
                    ),
                },
                None => Err(ErrorView::WrongTag { key: "block_states.palette"@, found: None }),
            },
            _ => Err(ErrorView::WrongTag { key: "block_states"@, found: Some(bs.kind_spec()) }),
        },
        None => Err(ErrorView::WrongTag { key: "block_states"@, found: None }),
    }
}

/// Resolve the block stored at a section-local coordinate: name plus
/// the retained `snowy` property.  A single-entry palette answers for
/// every coordinate; otherwise the packed index array selects the
/// entry, and an index outside the palette is reported with every
/// number needed to diagnose it.
pub fn get_block_at_position(section: &Compound, x: usize, y: usize, z: usize) -> (r: Result<
    (String, Option<String>),
    DecodeError,
>)
    requires
        x < 16,
        y < 16,
        z < 16,
    ensures
        match r {
            Ok(p) => spec_get_block_at_position(section@, x as int, y as int, z as int)
                == Ok::<(Seq<char>, Option<Seq<char>>), ErrorView>((p.0@, opt_string_view(p.1))),
            Err(e) => spec_get_block_at_position(section@, x as int, y as int, z as int)
                == Err::<(Seq<char>, Option<Seq<char>>), ErrorView>(e@),
        },
{
    let block_states = match compound_get(section, "block_states") {
        Some(t) => {
            match t {
                Tag::Compound(c) => c,
                _ => {
                    return Err(
                        DecodeError::WrongTag {
                            key: "block_states".to_owned(),
                            found: Some(t.kind()),
                        },
                    );
                },
            }
        },
        None => {
            return Err(DecodeError::WrongTag { key: "block_states".to_owned(), found: None });
        },
    };

    let palette = match compound_get(block_states, "palette") {
        Some(t) => {
            match t {
                Tag::List(v) => v,
                _ => {
                    return Err(
                        DecodeError::WrongTag {
                            key: "block_states.palette".to_owned(),
                            found: Some(t.kind()),
                        },
                    );
                },
            }
        },
        None => {
            return Err(
                DecodeError::WrongTag { key: "block_states.palette".to_owned(), found: None },
            );
        },
    };

    if palette.len() == 1 {
        let entry = &palette[0];
        return match entry {
            Tag::Compound(b) => extract_block_data(b),
            _ => Err(
                DecodeError::WrongTag { key: "palette[0]".to_owned(), found: Some(entry.kind()) },
            ),
        };
    }

    let data = match compound_get(block_states, "data") {
        Some(t) => {
            match t {
                Tag::LongArray(words) => words,
                _ => {
                    return Err(
                        DecodeError::WrongTag {
                            key: "block_states.data".to_owned(),
                            found: Some(t.kind()),
                        },
                    );
                },
            }
        },
        None => {
            return Err(DecodeError::WrongTag { key: "block_states.data".to_owned(), found: None });
        },
    };

    let block_index = (y * 16 + z) * 16 + x;
    let bits_per_entry = calculate_bits_per_entry(palette.len());
    let palette_index = match extract_palette_index(data.as_slice(), block_index, bits_per_entry) {
        Ok(v) => v,
        Err(e) => {
            return Err(e);
        },
    };

    if palette_index >= palette.len() as u64 {
        return Err(
            DecodeError::PaletteIndexOutOfBounds {
                palette_index,
                palette_len: palette.len(),
                bits_per_entry,
                element_index: block_index,
            },
        );
    }

    let entry = &palette[palette_index as usize];
    match entry {
        Tag::Compound(b) => extract_block_data(b),
        _ => Err(
            DecodeError::WrongTag {
                key: "palette[palette_index]".to_owned(),
                found: Some(entry.kind()),
            },
        ),
    }
}

/// What `get_biome_at_position` returns once the palette list is in
/// hand: the sole entry of a single-entry palette, otherwise the
/// entry selected by the packed index of the 4-block cell.
pub open spec fn spec_biome_from_palette(
    biomes: Seq<(String, Tag)>,
    palette: Seq<Tag>,
    x: int,
    y: int,
    z: int,
) -> Result<Seq<char>, ErrorView> {
    if palette.len() == 1 {
        match palette[0] {
            Tag::Str(name) => Ok(name@),
            _ => Err(
                ErrorView::WrongTag {
                    key: "biomes.palette[0]"@,
                    found: Some(palette[0].kind_spec()),
                },
            ),
        }
    } else {
        match spec_lookup(biomes, "data"@) {
            Some(dt) => match dt {
                Tag::LongArray(words) => {
                    let biome_index = ((y / 4) * 4 + z / 4) * 4 + x / 4;
                    let bits = spec_ceil_log2(palette.len() as int);
                    match spec_extract_palette_index(words@, biome_index, bits) {
                        Err(e) => Err(e),
                        Ok(pi) => if pi as int >= palette.len() as int {
                            Err(
                                ErrorView::PaletteIndexOutOfBounds {
                                    palette_index: pi as int,
                                    palette_len: palette.len() as int,
                                    bits_per_entry: bits,
                                    element_index: biome_index,
                                },
                            )
                        } else {
                            match palette[pi as int] {
                                Tag::Str(name) => Ok(name@),
                                _ => Err(
                                    ErrorView::WrongTag {
                                        key: "biomes.palette[palette_index]"@,
                                        found: Some(palette[pi as int].kind_spec()),
                                    },
                                ),
                            }
                        },
                    }
                },
                _ => Err(ErrorView::WrongTag { key: "biomes.data"@, found: Some(dt.kind_spec()) }),
            },
            None => Err(ErrorView::WrongTag { key: "biomes.data"@, found: None }),
        }
    }
}

/// What `get_biome_at_position` returns for a section subtree and a
/// section-local coordinate.
pub open spec fn spec_get_biome_at_position(
    section: Seq<(String, Tag)>,
    x: int,
    y: int,
    z: int,
) -> Result<Seq<char>, ErrorView> {
    match spec_lookup(section, "biomes"@) {
        Some(bt) => match bt {
            Tag::Compound(bc) => match spec_lookup(bc@, "palette"@) {
                Some(pt) => match pt {
                    Tag::List(palette) => spec_biome_from_palette(bc@, palette@, x, y, z),
                    _ => Err(
                        ErrorView::WrongTag {
                            key: "biomes.palette"@,
                            found: Some(pt.kind_spec()),
                        },
                    ),
                },
                None => Err(ErrorView::WrongTag { key: "biomes.palette"@, found: None }),
            },
            _ => Err(ErrorView::WrongTag { key: "biomes"@, found: Some(bt.kind_spec()) }),
        },
        None => Err(ErrorView::WrongTag { key: "biomes"@, found: None }),
    }
}

/// Resolve the biome name at a section-local coordinate.  Biomes live
/// on a 4x4x4 cell grid inside the section, and their palettes use
/// the plain ceiling-logarithm bit width with no clamping.
pub fn get_biome_at_position(section: &Compound, x: usize, y: usize, z: usize) -> (r: Result<
    String,
    DecodeError,
>)
    requires
        x < 16,
        y < 16,
        z < 16,
    ensures
        match r {
            Ok(name) => spec_get_biome_at_position(section@, x as int, y as int, z as int)
                == Ok::<Seq<char>, ErrorView>(name@),
            Err(e) => spec_get_biome_at_position(section@, x as int, y as int, z as int)
                == Err::<Seq<char>, ErrorView>(e@),
        },
{
    let biomes = match compound_get(section, "biomes") {
        Some(t) => {
            match t {
                Tag::Compound(c) => c,
                _ => {
                    return Err(
                        DecodeError::WrongTag { key: "biomes".to_owned(), found: Some(t.kind()) },
                    );
                },
            }
        },
        None => {
            return Err(DecodeError::WrongTag { key: "biomes".to_owned(), found: None });
        },
    };

    let palette = match compound_get(biomes, "palette") {
        Some(t) => {
            match t {
                Tag::List(v) => v,
                _ => {
                    return Err(
                        DecodeError::WrongTag {
                            key: "biomes.palette".to_owned(),
                            found: Some(t.kind()),
                        },
                    );
                },
            }
        },
        None => {
            return Err(DecodeError::WrongTag { key: "biomes.palette".to_owned(), found: None });
        },
    };

    if palette.len() == 1 {
        let entry = &palette[0];
        return match entry {
            Tag::Str(name) => Ok(name.clone()),
            _ => Err(
                DecodeError::WrongTag {
                    key: "biomes.palette[0]".to_owned(),
                    found: Some(entry.kind()),
                },
            ),
        };
    }

    let data = match compound_get(biomes, "data") {
        Some(t) => {
            match t {
                Tag::LongArray(words) => words,
                _ => {
                    return Err(
                        DecodeError::WrongTag {
                            key: "biomes.data".to_owned(),
                            found: Some(t.kind()),
                        },
                    );
                },
            }
        },
        None => {
            return Err(DecodeError::WrongTag { key: "biomes.data".to_owned(), found: None });
        },
    };

    let biome_index = ((y / 4) * 4 + z / 4) * 4 + x / 4;
    let bits_per_entry = ceil_log2(palette.len());
    let palette_index = match extract_palette_index(data.as_slice(), biome_index, bits_per_entry) {
        Ok(v) => v,
        Err(e) => {
            return Err(e);
        },
    };

    if palette_index >= palette.len() as u64 {
        return Err(
            DecodeError::PaletteIndexOutOfBounds {
                palette_index,
                palette_len: palette.len(),
                bits_per_entry,
                element_index: biome_index,
            },
        );
    }

    let entry = &palette[palette_index as usize];
    match entry {
        Tag::Str(name) => Ok(name.clone()),
        _ => Err(
            DecodeError::WrongTag {
                key: "biomes.palette[palette_index]".to_owned(),
                found: Some(entry.kind()),
            },
        ),
    }
}

} // verus!
