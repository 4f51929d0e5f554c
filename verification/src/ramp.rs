//! The parts of a gamma ramp that are counted rather than measured: which rows
//! of the black-body table a temperature lies between, in which order the
//! entries of a ramp stand in the buffer that the compositor reads, and how
//! long that buffer is.
//!
//! The entries themselves come out of floating-point arithmetic and are the
//! caller's to compute.

use crate::color::{valid_temperature, TEMP_MAX, TEMP_MIN};
use crate::state::Publication;
use vstd::prelude::*;

verus! {

/// The distance in kelvin between two rows of the black-body table.
pub const TABLE_STEP: u16 = 100;

/// The number of rows that the black-body table needs: one for each hundred
/// kelvin from 1000 K to 10000 K.
pub const TABLE_ROWS: usize = 91;

/// Where a temperature lies in the black-body table: between the rows `lower`
/// and `upper`, `weight` hundredths of the way from the one to the other. The
/// white point is `(1 - weight/100) * row[lower] + weight/100 * row[upper]`
/// in each of red, green and blue.
#[derive(Clone, Copy, Debug, PartialEq, Eq, Structural)]
pub struct Whitepoint {
    pub lower: usize,
    pub upper: usize,
    pub weight: u16,
}

/// The place of `temp` in the table. The row above the last is never asked
/// for: at 10000 K the weight is zero, and the last row stands for both.
pub open spec fn spec_whitepoint(temp: u16) -> Whitepoint {
    let lower = (temp - TEMP_MIN) / (TABLE_STEP as int);
    Whitepoint {
        lower: lower as usize,
        upper: if temp == TEMP_MAX {
            lower as usize
        } else {
            (lower + 1) as usize
        },
        weight: (temp % TABLE_STEP) as u16,
    }
}

/// One channel as it stands in the buffer: back to front if the display is
/// inverted.
pub open spec fn channel(entries: Seq<u16>, inverted: bool) -> Seq<u16> {
    if inverted {
        entries.reverse()
    } else {
        entries
    }
}

/// The buffer for a ramp: all of red, then all of green, then all of blue.
pub open spec fn buffer_of(red: Seq<u16>, green: Seq<u16>, blue: Seq<u16>, inverted: bool) -> Seq<
    u16,
> {
    channel(red, inverted) + channel(green, inverted) + channel(blue, inverted)
}

/// The bytes of `words`, the less significant byte of each word first.
pub open spec fn little_endian(words: Seq<u16>) -> Seq<u8> {
    Seq::new(
        2 * words.len(),
        |i: int|
            if i % 2 == 0 {
                (words[i / 2] % 256) as u8
            } else {
                (words[i / 2] / 256) as u8
            },
    )
}

/// The bytes of `words`, the more significant byte of each word first.
pub open spec fn big_endian(words: Seq<u16>) -> Seq<u8> {
    Seq::new(
        2 * words.len(),
        |i: int|
            if i % 2 == 0 {
                (words[i / 2] / 256) as u8
            } else {
                (words[i / 2] % 256) as u8
            },
    )
}

/// Whether `bytes` are `words` as a machine holds them in memory: two bytes
/// for each word, in one of the two byte orders throughout.
pub open spec fn in_memory(bytes: Seq<u8>, words: Seq<u16>) -> bool {
    bytes == little_endian(words) || bytes == big_endian(words)
}

/// `bytemuck::cast_slice` from `u16` to `u8`: the words seen as the bytes
/// that hold them in memory. The cast cannot fail, for a byte needs no
/// alignment and every word is two bytes. Which byte of a word comes first
/// is the machine's choice.
#[verifier::external_body]
fn bytes_in_memory(words: &Vec<u16>) -> (r: Vec<u8>)
    ensures
        in_memory(r@, words@),
{
    bytemuck::cast_slice::<u16, u8>(words).to_vec()
}

/// The place of a temperature of the domain in the black-body table.
#[verifier::when_used_as_spec(spec_whitepoint)]
pub fn whitepoint(temp: u16) -> (r: Whitepoint)
    requires
        valid_temperature(temp),
    ensures
        r == spec_whitepoint(temp),
        r.lower <= r.upper < TABLE_ROWS,
        r.weight < TABLE_STEP,
        r.lower * 100 + r.weight + 1000 == temp,
{
    let lower: usize = ((temp - TEMP_MIN) / TABLE_STEP) as usize;
    let upper: usize = if temp == TEMP_MAX {
        lower
    } else {
        lower + 1
    };
    Whitepoint { lower, upper, weight: temp % TABLE_STEP }
}

fn push_channel(out: &mut Vec<u16>, entries: &Vec<u16>, inverted: bool)
    ensures
        final(out)@ == old(out)@ + channel(entries@, inverted),
{
    let n: usize = entries.len();
    let ghost start = out@;
    let mut k: usize = 0;
    while k < n
        invariant
            k <= n,
            n == entries.len(),
            out@ == start + channel(entries@, inverted).take(k as int),
        decreases n - k,
    {
        let from: usize = if inverted {
            n - 1 - k
        } else {
            k
        };
        out.push(entries[from]);
        assert(out@ =~= start + channel(entries@, inverted).take(k + 1));
        k += 1;
    }
    assert(channel(entries@, inverted).take(n as int) =~= channel(entries@, inverted));
}

/// Lays the three channels of a ramp out as the compositor reads them: red,
/// then green, then blue, each back to front if `inverted`. `None` if the
/// channels differ in length.
pub fn ramp_buffer(red: &Vec<u16>, green: &Vec<u16>, blue: &Vec<u16>, inverted: bool) -> (r:
    Option<Vec<u16>>)
    ensures
        r is Some == (red@.len() == green@.len() && green@.len() == blue@.len()),
        r matches Some(words) ==> words@ == buffer_of(red@, green@, blue@, inverted)
            && words@.len() == 3 * red@.len(),
{
    if red.len() != green.len() || green.len() != blue.len() {
        return None;
    }
    let mut out: Vec<u16> = Vec::new();
    push_channel(&mut out, red, inverted);
    push_channel(&mut out, green, inverted);
    push_channel(&mut out, blue, inverted);
    assert(out@ =~= buffer_of(red@, green@, blue@, inverted));
    Some(out)
}

/// The bytes of the buffer that is handed to the compositor: the ramp laid
/// out as [`ramp_buffer`] does it, each entry as the machine holds it in
/// memory. `None` if the channels differ in length.
pub fn ramp_bytes(red: &Vec<u16>, green: &Vec<u16>, blue: &Vec<u16>, inverted: bool) -> (r: Option<
    Vec<u8>,
>)
    ensures
        r is Some == (red@.len() == green@.len() && green@.len() == blue@.len()),
        r matches Some(bytes) ==> in_memory(bytes@, buffer_of(red@, green@, blue@, inverted))
            && bytes@.len() == 6 * red@.len(),
{
    match ramp_buffer(red, green, blue, inverted) {
        Some(words) => Some(bytes_in_memory(&words)),
        None => None,
    }
}

impl Publication {
    /// The number of 16-bit entries in the buffer: three channels of
    /// `ramp_size` entries.
    pub fn entries(&self) -> (r: u64)
        ensures
            r == 3 * self.ramp_size,
    {
        3 * (self.ramp_size as u64)
    }

    /// The length in bytes of the buffer that is handed to the compositor:
    /// two bytes for each entry.
    pub fn byte_len(&self) -> (r: u64)
        ensures
            r == 6 * self.ramp_size,
    {
        6 * (self.ramp_size as u64)
    }
}

/// A buffer for `n` entries per channel holds `3 * n` entries, and turning
/// the channels back to front moves entry `k` of each to place `n - 1 - k`.
pub proof fn lemma_buffer_layout(
    red: Seq<u16>,
    green: Seq<u16>,
    blue: Seq<u16>,
    inverted: bool,
    k: int,
)
    requires
        red.len() == green.len(),
        green.len() == blue.len(),
        0 <= k < red.len(),
    ensures
        buffer_of(red, green, blue, inverted).len() == 3 * red.len(),
        buffer_of(red, green, blue, false)[k] == red[k],
        buffer_of(red, green, blue, false)[red.len() + k] == green[k],
        buffer_of(red, green, blue, false)[2 * red.len() + k] == blue[k],
        buffer_of(red, green, blue, true)[k] == red[red.len() - 1 - k],
        buffer_of(red, green, blue, true)[red.len() + k] == green[red.len() - 1 - k],
        buffer_of(red, green, blue, true)[2 * red.len() + k] == blue[red.len() - 1 - k],
{
}

/// Inversion keeps what a channel holds and turns its order round: a channel
/// that never falls, laid out without inversion, never falls in the buffer.
pub proof fn lemma_rising_channel_stays_rising(entries: Seq<u16>)
    requires
        forall|i: int, j: int| 0 <= i <= j < entries.len() ==> entries[i] <= entries[j],
    ensures
        forall|i: int, j: int|
            0 <= i <= j < entries.len() ==> channel(entries, false)[i] <= channel(
                entries,
                false,
            )[j],
        forall|i: int, j: int|
            0 <= i <= j < entries.len() ==> channel(entries, true)[i] >= channel(entries, true)[j],
{
}

} // verus!
