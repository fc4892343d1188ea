//! Decoding of the 128-byte display identification block (EDID).

use vstd::prelude::*;
use vstd::string::*;

verus! {

/// Length of an identification block.
pub const BLOCK_LEN: usize = 128;

/// Length of one display descriptor.
pub const DESCRIPTOR_LEN: usize = 18;

/// Offset of the first of the four display descriptors.
pub const FIRST_DESCRIPTOR: usize = 54;

/// Descriptor tag of a serial number.
pub const TAG_SERIAL: u8 = 0xFF;

/// Descriptor tag of a model name.
pub const TAG_MODEL: u8 = 0xFC;

/// Why an identification block could not be decoded.
#[derive(Debug, Clone, Copy, PartialEq, Eq, Structural)]
pub enum ParseError {
    /// Fewer bytes than a whole block.
    Truncated,
    /// A manufacturer letter index outside 1 to 26.
    InvalidManufacturer,
    /// A descriptor of the wrong length, or a text payload that is not ASCII.
    BadDescriptor,
}

/// The identity of one display: a three-letter manufacturer code, a model
/// name and a serial number.
#[derive(Debug, Clone)]
pub struct DeviceInfo {
    pub manufacturer: String,
    pub model: String,
    pub serial: String,
}

/// The identity of a display, under the name the discovery code uses.
pub type DisplayInfo = DeviceInfo;

/// One decoded display descriptor.
#[derive(Debug, Clone)]
pub enum Descriptor {
    Serial(String),
    Model(String),
    Other,
}

/// The characters of bytes read as ASCII.
pub open spec fn ascii_text(b: Seq<u8>) -> Seq<char> {
    b.map_values(|x: u8| x as char)
}

pub open spec fn is_ascii_bytes(b: Seq<u8>) -> bool {
    forall|i: int| 0 <= i < b.len() ==> b[i] < 128
}

/// The six ASCII characters that `char::is_whitespace` accepts.
pub open spec fn is_space(b: u8) -> bool {
    b == 32 || (9 <= b && b <= 13)
}

pub open spec fn trim_start(b: Seq<u8>) -> Seq<u8>
    decreases b.len(),
{
    if b.len() > 0 && is_space(b[0]) {
        trim_start(b.drop_first())
    } else {
        b
    }
}

pub open spec fn trim_end(b: Seq<u8>) -> Seq<u8>
    decreases b.len(),
{
    if b.len() > 0 && is_space(b.last()) {
        trim_end(b.drop_last())
    } else {
        b
    }
}

/// Bytes without leading and trailing white space.
pub open spec fn trimmed(b: Seq<u8>) -> Seq<u8> {
    trim_end(trim_start(b))
}

/// The first letter index: bits 14 to 10 of the big-endian pair.
pub open spec fn letter_index_1(b0: u8) -> int {
    (b0 as int % 128) / 4
}

/// The second letter index: bits 9 to 5.
pub open spec fn letter_index_2(b0: u8, b1: u8) -> int {
    (b0 as int % 4) * 8 + b1 as int / 32
}

/// The third letter index: bits 4 to 0.
pub open spec fn letter_index_3(b1: u8) -> int {
    b1 as int % 32
}

pub open spec fn is_letter_index(g: int) -> bool {
    1 <= g <= 26
}

/// Letter index 1 is 'A', 26 is 'Z'.
pub open spec fn letter(g: int) -> char {
    ((64 + g) as u8) as char
}

/// The manufacturer code packed in two bytes, if each index names a letter.
pub open spec fn manufacturer_of(b0: u8, b1: u8) -> Option<Seq<char>> {
    let g1 = letter_index_1(b0);
    let g2 = letter_index_2(b0, b1);
    let g3 = letter_index_3(b1);
    if is_letter_index(g1) && is_letter_index(g2) && is_letter_index(g3) {
        Some(seq![letter(g1), letter(g2), letter(g3)])
    } else {
        None
    }
}


/// Relies on `String::from_utf8`: ASCII bytes are valid UTF-8, one
/// character per byte.
#[verifier::external_body]
fn ascii_string(b: Vec<u8>) -> (r: String)
    requires
        is_ascii_bytes(b@),
    ensures
        r@ == ascii_text(b@),
{
    match String::from_utf8(b) {
        Ok(s) => s,
        Err(_) => String::new(),
    }
}

/// Decodes the manufacturer code from identification bytes 8 and 9: three
/// 5-bit letter indices under a reserved top bit.
pub fn read_mfg_id(bytes: &[u8]) -> (r: Result<String, ParseError>)
    ensures
        bytes@.len() != 2 ==> r == Err::<String, ParseError>(ParseError::Truncated),
        bytes@.len() == 2 ==> match manufacturer_of(bytes@[0], bytes@[1]) {
            Some(m) => r is Ok && r->Ok_0@ == m,
            None => r == Err::<String, ParseError>(ParseError::InvalidManufacturer),
        },
{
    if bytes.len() != 2 {
        return Err(ParseError::Truncated);
    }
    let b0 = bytes[0];
    let b1 = bytes[1];
    let g1: u8 = (b0 & 0x7C) >> 2;
    let g2: u8 = ((b0 & 0x03) << 3) | ((b1 & 0xE0) >> 5);
    let g3: u8 = b1 & 0x1F;
    assert(g1 as int == letter_index_1(b0)) by (bit_vector)
        requires g1 == (b0 & 0x7C) >> 2;
    assert(g2 as int == letter_index_2(b0, b1)) by (bit_vector)
        requires g2 == ((b0 & 0x03) << 3) | ((b1 & 0xE0) >> 5);
    assert(g3 as int == letter_index_3(b1)) by (bit_vector)
        requires g3 == b1 & 0x1F;
    if g1 < 1 || g1 > 26 || g2 < 1 || g2 > 26 || g3 < 1 || g3 > 26 {
        return Err(ParseError::InvalidManufacturer);
    }
    let letters: Vec<u8> = vec![64 + g1, 64 + g2, 64 + g3];
    let r = ascii_string(letters);
    assert(r@ =~= seq![letter(g1 as int), letter(g2 as int), letter(g3 as int)]);
    Ok(r)
}

/// The text of a descriptor: payload bytes 5 to 17 read as ASCII, white
/// space trimmed at both ends.
pub open spec fn descriptor_text(d: Seq<u8>) -> Seq<char> {
    ascii_text(trimmed(d.subrange(5, 18)))
}

/// What a descriptor decodes to.
pub open spec fn descriptor_of(d: Seq<u8>) -> Result<(u8, Seq<char>), ParseError> {
    if d.len() != 18 {
        Err(ParseError::BadDescriptor)
    } else if d[3] != TAG_SERIAL && d[3] != TAG_MODEL {
        Ok((d[3], Seq::<char>::empty()))
    } else if !is_ascii_bytes(d.subrange(5, 18)) {
        Err(ParseError::BadDescriptor)
    } else {
        Ok((d[3], descriptor_text(d)))
    }
}

proof fn lemma_trim_start_skip(b: Seq<u8>, i: int)
    requires
        0 <= i < b.len(),
        is_space(b[i]),
    ensures
        trim_start(b.subrange(i, b.len() as int)) == trim_start(b.subrange(i + 1, b.len() as int)),
{
    assert(b.subrange(i, b.len() as int).drop_first() =~= b.subrange(i + 1, b.len() as int));
}

proof fn lemma_trim_end_skip(b: Seq<u8>, j: int)
    requires
        0 < j <= b.len(),
        is_space(b[j - 1]),
    ensures
        trim_end(b.subrange(0, j)) == trim_end(b.subrange(0, j - 1)),
{
    assert(b.subrange(0, j).drop_last() =~= b.subrange(0, j - 1));
}

/// The trimmed ASCII text of `b[lo..hi]`.
fn trimmed_ascii(b: &[u8], lo: usize, hi: usize) -> (r: String)
    requires
        lo <= hi <= b@.len(),
        is_ascii_bytes(b@.subrange(lo as int, hi as int)),
    ensures
        r@ == ascii_text(trimmed(b@.subrange(lo as int, hi as int))),
{
    let ghost whole = b@.subrange(lo as int, hi as int);
    let mut i: usize = lo;
    while i < hi && (b[i] == 32 || (9 <= b[i] && b[i] <= 13))
        invariant
            lo <= i <= hi <= b@.len(),
            whole == b@.subrange(lo as int, hi as int),
            trim_start(whole) == trim_start(b@.subrange(i as int, hi as int)),
        decreases hi - i,
    {
        proof {
            let t = b@.subrange(0, hi as int);
            lemma_trim_start_skip(t, i as int);
            assert(t.subrange(i as int, hi as int) =~= b@.subrange(i as int, hi as int));
            assert(t.subrange(i + 1, hi as int) =~= b@.subrange(i + 1, hi as int));
        }
        i = i + 1;
    }
    proof {
        let t = b@.subrange(i as int, hi as int);
        if t.len() > 0 {
            assert(t[0] == b@[i as int]);
        }
        assert(trim_start(t) == t);
    }
    let ghost front = b@.subrange(i as int, hi as int);
    let mut j: usize = hi;
    while j > i && (b[j - 1] == 32 || (9 <= b[j - 1] && b[j - 1] <= 13))
        invariant
            i <= j <= hi <= b@.len(),
            front == b@.subrange(i as int, hi as int),
            trim_end(front) == trim_end(b@.subrange(i as int, j as int)),
        decreases j - i,
    {
        proof {
            let t = b@.subrange(i as int, hi as int);
            lemma_trim_end_skip(t, (j - i) as int);
            assert(t.subrange(0, (j - i) as int) =~= b@.subrange(i as int, j as int));
            assert(t.subrange(0, (j - i - 1) as int) =~= b@.subrange(i as int, j - 1));
        }
        j = j - 1;
    }
    proof {
        let t = b@.subrange(i as int, j as int);
        if t.len() > 0 {
            assert(t.last() == b@[j - 1]);
        }
        assert(trim_end(t) == t);
    }
    let mut out: Vec<u8> = Vec::new();
    let mut k: usize = i;
    while k < j
        invariant
            lo <= i <= k <= j <= hi <= b@.len(),
            whole == b@.subrange(lo as int, hi as int),
            is_ascii_bytes(whole),
            out@ == b@.subrange(i as int, k as int),
        decreases j - k,
    {
        assert(whole[k - lo] == b@[k as int]);
        out.push(b[k]);
        assert(out@ =~= b@.subrange(i as int, k + 1));
        k = k + 1;
    }
    proof {
        assert forall|x: int| 0 <= x < out@.len() implies out@[x] < 128 by {
            assert(out@[x] == whole[i - lo + x]);
        }
    }
    ascii_string(out)
}

/// Decodes one 18-byte display descriptor: tag 0xFF holds a serial number,
/// tag 0xFC a model name, and any other tag is passed over.
pub fn read_descriptor(descr: &[u8]) -> (r: Result<Descriptor, ParseError>)
    ensures
        match r {
            Ok(Descriptor::Serial(s)) => descriptor_of(descr@) == Ok::<(u8, Seq<char>), ParseError>((TAG_SERIAL, s@)),
            Ok(Descriptor::Model(s)) => descriptor_of(descr@) == Ok::<(u8, Seq<char>), ParseError>((TAG_MODEL, s@)),
            Ok(Descriptor::Other) => descriptor_of(descr@) is Ok && descriptor_of(descr@)->Ok_0.0 != TAG_SERIAL
                && descriptor_of(descr@)->Ok_0.0 != TAG_MODEL,
            Err(e) => descriptor_of(descr@) == Err::<(u8, Seq<char>), ParseError>(e),
        },
{
    if descr.len() != DESCRIPTOR_LEN {
        return Err(ParseError::BadDescriptor);
    }
    let tag = descr[3];
    if tag != TAG_SERIAL && tag != TAG_MODEL {
        return Ok(Descriptor::Other);
    }
    let mut k: usize = 5;
    while k < 18
        invariant
            5 <= k <= 18,
            descr@.len() == 18,
            descr@[3] == TAG_SERIAL || descr@[3] == TAG_MODEL,
            forall|x: int| 5 <= x < k ==> descr@[x] < 128,
        decreases 18 - k,
    {
        if descr[k] >= 128 {
            assert(descr@.subrange(5, 18)[k - 5] == descr@[k as int]);
            assert(!is_ascii_bytes(descr@.subrange(5, 18)));
            return Err(ParseError::BadDescriptor);
        }
        k = k + 1;
    }
    assert(is_ascii_bytes(descr@.subrange(5, 18)));
    let text = trimmed_ascii(descr, 5, 18);
    if tag == TAG_SERIAL {
        Ok(Descriptor::Serial(text))
    } else {
        Ok(Descriptor::Model(text))
    }
}

/// Manufacturer, model and serial, as characters.
pub type Identity = (Seq<char>, Seq<char>, Seq<char>);

impl View for DeviceInfo {
    type V = Identity;

    open spec fn view(&self) -> Identity {
        (self.manufacturer@, self.model@, self.serial@)
    }
}

impl DeviceInfo {
    /// The identity as text: manufacturer, model, and the serial number in
    /// parentheses.
    pub fn to_string(&self) -> (r: String)
        ensures
            r@ == self.manufacturer@ + " "@ + self.model@ + " (SN: "@ + self.serial@ + ")"@,
    {
        String::from_str(self.manufacturer.as_str()).concat(" ").concat(self.model.as_str()).concat(
            " (SN: ",
        ).concat(self.serial.as_str()).concat(")")
    }
}

/// Descriptor `i` (0 to 3) of a block.
pub open spec fn descriptor_at(block: Seq<u8>, i: int) -> Seq<u8> {
    block.subrange(54 + 18 * i, 72 + 18 * i)
}

/// The text of the last of the first `n` descriptors that carries `tag`, or
/// the empty text where none does.
pub open spec fn last_text(block: Seq<u8>, tag: u8, n: nat) -> Seq<char>
    decreases n,
{
    if n == 0 {
        Seq::empty()
    } else if descriptor_at(block, n - 1)[3] == tag {
        descriptor_text(descriptor_at(block, n - 1))
    } else {
        last_text(block, tag, (n - 1) as nat)
    }
}

pub open spec fn descriptors_decode(block: Seq<u8>) -> bool {
    forall|i: int| 0 <= i < 4 ==> (#[trigger] descriptor_of(descriptor_at(block, i))) is Ok
}

/// The identity that a block decodes to.
pub open spec fn identity_of(block: Seq<u8>) -> Result<Identity, ParseError> {
    if block.len() < 128 {
        Err(ParseError::Truncated)
    } else if !descriptors_decode(block) {
        Err(ParseError::BadDescriptor)
    } else {
        match manufacturer_of(block[8], block[9]) {
            None => Err(ParseError::InvalidManufacturer),
            Some(m) => Ok((m, last_text(block, TAG_MODEL, 4), last_text(block, TAG_SERIAL, 4))),
        }
    }
}

impl DeviceInfo {
    /// Decodes an identification block. Only its first 128 bytes are read.
    /// Where several descriptors carry a model name or a serial number, the
    /// last one wins; a missing one leaves the text empty.
    pub fn parse(block: &[u8]) -> (r: Result<DeviceInfo, ParseError>)
        ensures
            match r {
                Ok(info) => identity_of(block@) == Ok::<Identity, ParseError>(info@),
                Err(e) => identity_of(block@) == Err::<Identity, ParseError>(e),
            },
    {
        if block.len() < BLOCK_LEN {
            return Err(ParseError::Truncated);
        }
        let mut model = String::new();
        let mut serial = String::new();
        let mut i: usize = 0;
        while i < 4
            invariant
                i <= 4,
                block@.len() >= 128,
                model@ == last_text(block@, TAG_MODEL, i as nat),
                serial@ == last_text(block@, TAG_SERIAL, i as nat),
                forall|j: int| 0 <= j < i ==> (#[trigger] descriptor_of(descriptor_at(block@, j))) is Ok,
            decreases 4 - i,
        {
            let start: usize = FIRST_DESCRIPTOR + DESCRIPTOR_LEN * i;
            let d = &block[start..start + DESCRIPTOR_LEN];
            assert(d@ == descriptor_at(block@, i as int));
            match read_descriptor(d) {
                Err(e) => {
                    assert(!descriptors_decode(block@));
                    return Err(e);
                },
                Ok(Descriptor::Serial(s)) => {
                    serial = s;
                },
                Ok(Descriptor::Model(s)) => {
                    model = s;
                },
                Ok(Descriptor::Other) => {},
            }
            i = i + 1;
        }
        let manufacturer = match read_mfg_id(&block[8..10]) {
            Ok(m) => m,
            Err(e) => {
                return Err(e);
            },
        };
        Ok(DeviceInfo { manufacturer, model, serial })
    }
}

/// Two bytes that pack the letter indices `g1`, `g2`, `g3`, top bit clear.
pub open spec fn packs_letters(b0: u8, b1: u8, g1: int, g2: int, g3: int) -> bool {
    &&& b0 as int == g1 * 4 + g2 / 8
    &&& b1 as int == (g2 % 8) * 32 + g3
}

/// Text that reads back unchanged: ASCII, at most 13 bytes, and without
/// white space at either end.
pub open spec fn is_clean_text(t: Seq<u8>) -> bool {
    &&& t.len() <= 13
    &&& is_ascii_bytes(t)
    &&& t.len() > 0 ==> !is_space(t[0]) && !is_space(t.last())
}

/// A descriptor with tag `tag` whose payload is `text` followed by white
/// space.
pub open spec fn carries(d: Seq<u8>, tag: u8, text: Seq<u8>) -> bool {
    &&& d.len() == 18
    &&& d[3] == tag
    &&& text.len() <= 13
    &&& d.subrange(5, 5 + text.len() as int) == text
    &&& forall|i: int| 5 + text.len() <= i < 18 ==> is_space(#[trigger] d[i])
}

proof fn lemma_all_space_trims_away(p: Seq<u8>)
    requires
        forall|i: int| 0 <= i < p.len() ==> is_space(#[trigger] p[i]),
    ensures
        trim_start(p) == Seq::<u8>::empty(),
    decreases p.len(),
{
    if p.len() > 0 {
        lemma_all_space_trims_away(p.drop_first());
    } else {
        assert(p =~= Seq::<u8>::empty());
    }
}

proof fn lemma_trim_end_padding(t: Seq<u8>, p: Seq<u8>)
    requires
        forall|i: int| 0 <= i < p.len() ==> is_space(#[trigger] p[i]),
        t.len() > 0 ==> !is_space(t.last()),
    ensures
        trim_end(t + p) == t,
    decreases p.len(),
{
    if p.len() > 0 {
        assert((t + p).drop_last() =~= t + p.drop_last());
        assert((t + p).last() == p.last());
        lemma_trim_end_padding(t, p.drop_last());
    } else {
        assert(t + p =~= t);
    }
}

proof fn lemma_padded_text(d: Seq<u8>, tag: u8, text: Seq<u8>)
    requires
        carries(d, tag, text),
        is_clean_text(text),
    ensures
        is_ascii_bytes(d.subrange(5, 18)),
        trimmed(d.subrange(5, 18)) == text,
{
    let pay = d.subrange(5, 18);
    let pad = d.subrange(5 + text.len() as int, 18);
    assert(pay =~= text + pad);
    assert forall|i: int| 0 <= i < pad.len() implies is_space(#[trigger] pad[i]) by {
        assert(pad[i] == d[5 + text.len() + i]);
    }
    assert forall|i: int| 0 <= i < pay.len() implies pay[i] < 128 by {
        if i < text.len() {
            assert(pay[i] == text[i]);
        } else {
            assert(pay[i] == pad[i - text.len()]);
        }
    }
    if text.len() > 0 {
        assert(trim_start(pay) == pay);
        lemma_trim_end_padding(text, pad);
    } else {
        assert(pay =~= pad);
        lemma_all_space_trims_away(pad);
        assert(trim_end(Seq::<u8>::empty()) == Seq::<u8>::empty());
        assert(text =~= Seq::<u8>::empty());
    }
}

/// A block built from three letter indices, a model name in descriptor
/// `im`, a serial number in another descriptor `is`, and descriptors of
/// other kinds elsewhere decodes to exactly those letters, that model and
/// that serial.
pub proof fn lemma_identity_round_trip(
    block: Seq<u8>,
    g1: int,
    g2: int,
    g3: int,
    im: int,
    is: int,
    model: Seq<u8>,
    serial: Seq<u8>,
)
    requires
        block.len() == 128,
        is_letter_index(g1),
        is_letter_index(g2),
        is_letter_index(g3),
        packs_letters(block[8], block[9], g1, g2, g3),
        0 <= im < 4,
        0 <= is < 4,
        im != is,
        is_clean_text(model),
        is_clean_text(serial),
        carries(descriptor_at(block, im), TAG_MODEL, model),
        carries(descriptor_at(block, is), TAG_SERIAL, serial),
        forall|j: int|
            0 <= j < 4 && j != im && j != is ==> #[trigger] descriptor_at(block, j)[3] != TAG_MODEL
                && descriptor_at(block, j)[3] != TAG_SERIAL,
    ensures
        identity_of(block) == Ok::<Identity, ParseError>(
            (seq![letter(g1), letter(g2), letter(g3)], ascii_text(model), ascii_text(serial)),
        ),
{
    let b0 = block[8];
    let b1 = block[9];
    assert(letter_index_1(b0) == g1);
    assert(letter_index_2(b0, b1) == g2);
    assert(letter_index_3(b1) == g3);
    lemma_padded_text(descriptor_at(block, im), TAG_MODEL, model);
    lemma_padded_text(descriptor_at(block, is), TAG_SERIAL, serial);
    assert(descriptors_decode(block)) by {
        assert forall|i: int| 0 <= i < 4 implies (#[trigger] descriptor_of(descriptor_at(block, i))) is Ok by {
            assert(descriptor_at(block, i).len() == 18);
        }
    }
    assert(descriptor_at(block, 0)[3] == descriptor_at(block, 0)[3]);
    assert(descriptor_at(block, 1)[3] == descriptor_at(block, 1)[3]);
    assert(descriptor_at(block, 2)[3] == descriptor_at(block, 2)[3]);
    assert(descriptor_at(block, 3)[3] == descriptor_at(block, 3)[3]);
    reveal_with_fuel(last_text, 5);
}

} // verus!
