//! Verified core of the MTS-ESP microtuning client: the client handle, the conversions between
//! the client's arguments and results and the C API's, and the integer side of walking a scale.
use vstd::prelude::*;
use vstd::utf8::{decode_utf8, valid_utf8};

pub mod sys;
pub mod tuning;

pub use sys::MTSClient;
pub use tuning::{KeyShift, KeyWalk, KeyboardMap, MtsTuning, ResolvedKey, KEY_COUNT, LAST_KEY};

verus! {

/// A registered MTS-ESP client instance, held by the address of the client that the C side
/// allocated for it. That address is never zero.
pub struct Client {
    address: usize,
}

impl Client {
    /// The address of the C side's client, which this client carries.
    pub closed spec fn address_spec(&self) -> usize {
        self.address
    }

    /// The client's type invariant: it always holds a registered, non-null client.
    #[verifier::type_invariant]
    spec fn registered(&self) -> bool {
        self.address != 0
    }

    /// Takes the client that registration with MTS-ESP returned, by its address. A null client
    /// means that the C side could not allocate one, which is the only possible error.
    pub fn new(registered: usize) -> (client: Result<Client, &'static str>)
        ensures
            registered == 0 <==> client is Err,
            client matches Ok(c) ==> c.address_spec() == registered,
            client matches Err(e) ==> e@ == "Failed to allocate the MTS-ESP client"@,
    {
        if registered == 0 {
            Err("Failed to allocate the MTS-ESP client")
        } else {
            Ok(Client { address: registered })
        }
    }

    /// The address of the C side's client, to hand to each call of the C API.
    pub fn address(&self) -> (address: usize)
        ensures
            address == self.address_spec(),
            address != 0,
    {
        proof {
            use_type_invariant(self);
        }
        self.address
    }
}

/// The C API's channel argument for an optional MIDI channel: `None` is "no particular channel"
/// (-1), and a channel past 15 is clamped to 15.
pub open spec fn channel_argument(channel: Option<u8>) -> int {
    match channel {
        Some(c) => if c < 16 { c as int } else { 15 },
        None => -1,
    }
}

/// The C API's channel argument for `channel`: -1 for `None`, else the channel clamped to
/// `0..=15`.
pub fn midi_channel(channel: Option<u8>) -> (arg: i8)
    ensures
        arg == channel_argument(channel),
        -1 <= arg <= 15,
        channel is None ==> arg == -1,
        channel matches Some(c) ==> (c < 16 ==> arg == c),
        channel matches Some(c) ==> (c >= 16 ==> arg == 15),
{
    match channel {
        Some(channel) => {
            if channel < 15 {
                channel as i8
            } else {
                15
            }
        },
        None => -1,
    }
}

/// The C API's note argument for `note`: the note clamped to `0..=127`, as the C side masks notes
/// to that range.
pub fn midi_note(note: u8) -> (arg: i8)
    ensures
        arg == (if note < 128 { note as int } else { 127 }),
        0 <= arg <= 127,
{
    if note < 127 {
        note as i8
    } else {
        127
    }
}

/// A keyboard map query's result: the C API reports "not supplied by a master" as a negative
/// value.
pub fn optional_key(value: i8) -> (key: Option<u8>)
    ensures
        value >= 0 <==> key is Some,
        key matches Some(k) ==> k == value,
{
    if value >= 0 {
        Some(value as u8)
    } else {
        None
    }
}

/// The byte of a C `char` read as an unsigned note number.
pub open spec fn unsigned_byte(value: i8) -> int {
    if value >= 0 {
        value as int
    } else {
        value + 256
    }
}

/// The note that the C API's nearest-note query answers, as a `u8`: the byte the C side
/// returns, read unsigned.
pub fn note_from_c(note: i8) -> (key: u8)
    ensures
        key == unsigned_byte(note),
        note >= 0 ==> key == note,
        note < 0 ==> key == note + 256,
        #[verifier::truncate] (key as i8) == note,
{
    let key = #[verifier::truncate] (note as u8);
    assert(note >= 0 ==> key == note) by (bit_vector)
        requires
            key == #[verifier::truncate] (note as u8),
    ;
    assert(note < 0 ==> key == note + 256) by (bit_vector)
        requires
            key == #[verifier::truncate] (note as u8),
    ;
    assert(#[verifier::truncate] (key as i8) == note) by (bit_vector)
        requires
            key == #[verifier::truncate] (note as u8),
    ;
    key
}

/// The note and channel that the C API's nearest-note-and-channel query answers, masked to a
/// MIDI note (`0..=127`) and a MIDI channel (`0..=15`).
pub fn note_and_channel_from_c(note: i8, channel: i8) -> (result: (u8, u8))
    ensures
        result.0 == unsigned_byte(note) % 128,
        result.1 == unsigned_byte(channel) % 16,
        result.0 < 128,
        result.1 < 16,
        note >= 0 ==> result.0 == note,
        note < 0 ==> result.0 == note + 128,
        0 <= channel < 16 ==> result.1 == channel,
{
    let n: u8 = note_from_c(note);
    let c: u8 = note_from_c(channel);
    assert(n & 127 == n % 128 && c & 15 == c % 16) by (bit_vector);
    (n & 127, c & 15)
}

/// The length to pass with a block of MIDI bytes: the C API takes an `int`, so a longer block is
/// cut to `i32::MAX` bytes.
pub fn midi_data_length(len: usize) -> (length: i32)
    ensures
        length == (if len <= i32::MAX { len as int } else { i32::MAX as int }),
        length >= 0,
{
    if len <= i32::MAX as usize {
        len as i32
    } else {
        i32::MAX
    }
}

/// What `String::from_utf8_lossy` makes of `bytes`.
pub uninterp spec fn lossy_utf8(bytes: Seq<u8>) -> Seq<char>;

/// `String::from_utf8_lossy`, taken as an owned `String`. Its documentation says that valid
/// UTF-8 comes back as the text it encodes; of invalid input it says that each invalid sequence
/// is replaced by U+FFFD, which is not stated here and only named by `lossy_utf8`.
#[verifier::external_body]
fn utf8_lossy(bytes: &[u8]) -> (text: String)
    ensures
        text@ == lossy_utf8(bytes@),
        valid_utf8(bytes@) ==> text@ == decode_utf8(bytes@),
{
    String::from_utf8_lossy(bytes).into_owned()
}

/// The scale name to report, from the bytes of the C string that the master supplied, or `None`
/// when the C side returned no string. The master supplies arbitrary bytes, which need not be
/// UTF-8.
pub fn scale_name_from_c(name: Option<&[u8]>) -> (text: String)
    ensures
        name is None ==> text@ == Seq::<char>::empty(),
        name matches Some(bytes) ==> text@ == lossy_utf8(bytes@),
        name matches Some(bytes) ==> (valid_utf8(bytes@) ==> text@ == decode_utf8(bytes@)),
{
    match name {
        Some(bytes) => utf8_lossy(bytes),
        None => String::new(),
    }
}

/// Every MIDI channel is handed to the C API as itself: only channels past 15 are clamped, to
/// 15, and no channel at all is -1.
pub proof fn lemma_channel_argument_passes_channels_through(c: u8)
    ensures
        c < 16 ==> channel_argument(Some(c)) == c,
        c >= 16 ==> channel_argument(Some(c)) == 15,
        channel_argument(None) == -1,
        channel_argument(Some(c)) <= c,
{
}

/// Reading a C byte unsigned keeps a non-negative byte as it is and reads a negative one as its
/// two's complement; the result is a `u8` value that reads back as the same signed byte.
pub proof fn lemma_unsigned_byte_is_twos_complement(v: i8)
    ensures
        0 <= unsigned_byte(v) < 256,
        v >= 0 ==> unsigned_byte(v) == v,
        v < 0 ==> unsigned_byte(v) == v + 256,
        unsigned_byte(v) == v || unsigned_byte(v) == v + 256,
{
}

/// A note in `0..=127` and a channel in `0..=15` that the C side answers come back unchanged from
/// the masking; a negative byte keeps its low bits.
pub proof fn lemma_masking_keeps_midi_values(note: i8, channel: i8)
    ensures
        0 <= note ==> unsigned_byte(note) % 128 == note,
        0 <= channel < 16 ==> unsigned_byte(channel) % 16 == channel,
        note < 0 ==> unsigned_byte(note) % 128 == note + 128,
{
}

} // verus!
