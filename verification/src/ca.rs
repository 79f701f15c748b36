//! Channel Access: the channels of a process, and values on the wire.

use vstd::prelude::*;
use vstd::string::*;
use vstd::utf8::*;

use crate::codec::{lossy_text, text_lossy};
use crate::documents::{plain_key, DataKey, DataKeyView, Dtype};
use crate::error::{CirrusError, Span};
use crate::signal::BackendFromPv;
use crate::status::{Status, StatusError, StatusOutcome};
use crate::strmap::StrMap;
use crate::text::{dec_i64, decimal, join2, join3, signed_decimal};
use crate::value::Double;

verus! {

/// How text travels: as one short string, or as a waveform of characters.
#[derive(Clone, Copy, Debug, PartialEq, Eq, Structural)]
pub enum CaStringKind {
    /// One string of at most 39 bytes.
    Short,
    /// A waveform of characters that ends at the first NUL.
    Long,
}

/// The type in which a channel keeps its value.
#[derive(Clone, Copy, Debug, PartialEq, Eq, Structural)]
pub enum FieldType {
    /// A string.
    String,
    /// 16 signed bits.
    Short,
    /// A single-precision number.
    Float,
    /// The index of a choice.
    Enum,
    /// 8 unsigned bits.
    Char,
    /// 32 signed bits.
    Long,
    /// A double-precision number.
    Double,
    /// 64 signed bits.
    Int64,
}

/// A single-precision number, held by its IEEE-754 bit pattern.
#[derive(Clone, Copy, Debug, PartialEq, Eq, Structural)]
pub struct Single {
    /// The bit pattern.
    pub bits: u32,
}

/// A value on the wire.
#[derive(Debug, PartialEq, Eq)]
pub enum WireValue {
    /// A string.
    Text(String),
    /// 16 signed bits.
    Short(i16),
    /// A single-precision number.
    Float(Single),
    /// The index of a choice.
    Enum(u16),
    /// 8 unsigned bits.
    Char(u8),
    /// 32 signed bits.
    Long(i32),
    /// A double-precision number.
    Double(Double),
    /// 64 signed bits.
    Int64(i64),
    /// A waveform of characters.
    CharArray(Vec<u8>),
    /// Any other value.
    Other,
}

/// A number as it came.
#[derive(Clone, Copy, Debug, PartialEq, Eq, Structural)]
pub enum Number {
    /// An integer.
    Integer(i64),
    /// An integer above the signed range.
    Unsigned(u64),
    /// A single-precision number.
    Float(Single),
    /// A double-precision number.
    Double(Double),
}

/// A double-precision number together with its forms in the other types.
#[derive(Debug)]
pub struct DoubleForms {
    /// The number.
    pub double: Double,
    /// In single precision.
    pub float: Single,
    /// Cut to 64 signed bits.
    pub int64: i64,
    /// Cut to 32 signed bits.
    pub long: i32,
    /// Cut to 16 signed bits.
    pub short: i16,
    /// Cut to 8 unsigned bits.
    pub char: u8,
    /// Cut to 16 unsigned bits.
    pub choice: u16,
    /// As text.
    pub text: String,
}

/// An integer together with its forms in floating point.
#[derive(Clone, Copy, Debug, PartialEq, Eq, Structural)]
pub struct IntForms {
    /// The integer.
    pub int: i64,
    /// In double precision.
    pub double: Double,
    /// In single precision.
    pub float: Single,
}

/// Whether `v` holds a value of type `t`.
pub open spec fn of_type(v: WireValue, t: FieldType) -> bool {
    match t {
        FieldType::String => v is Text,
        FieldType::Short => v is Short,
        FieldType::Float => v is Float,
        FieldType::Enum => v is Enum,
        FieldType::Char => v is Char,
        FieldType::Long => v is Long,
        FieldType::Double => v is Double,
        FieldType::Int64 => v is Int64,
    }
}

/// The number of bytes of a value of type `t` on the wire.
pub open spec fn width(t: FieldType) -> nat {
    match t {
        FieldType::String => 40,
        FieldType::Short => 2,
        FieldType::Float => 4,
        FieldType::Enum => 2,
        FieldType::Char => 1,
        FieldType::Long => 4,
        FieldType::Double => 8,
        FieldType::Int64 => 8,
    }
}

/// The number of bytes of a value on the wire.
pub open spec fn wire_width(v: WireValue) -> Option<nat> {
    match v {
        WireValue::Text(_) => Some(width(FieldType::String)),
        WireValue::Short(_) => Some(width(FieldType::Short)),
        WireValue::Float(_) => Some(width(FieldType::Float)),
        WireValue::Enum(_) => Some(width(FieldType::Enum)),
        WireValue::Char(_) => Some(width(FieldType::Char)),
        WireValue::Long(_) => Some(width(FieldType::Long)),
        WireValue::Double(_) => Some(width(FieldType::Double)),
        WireValue::Int64(_) => Some(width(FieldType::Int64)),
        WireValue::CharArray(b) => Some(b@.len()),
        WireValue::Other => None,
    }
}

impl WireValue {
    /// The number of bytes on the wire.
    pub fn wire_len(&self) -> (n: Option<usize>)
        ensures
            match n {
                Some(n) => wire_width(*self) == Some(n as nat),
                None => wire_width(*self) is None,
            },
    {
        match self {
            WireValue::Text(_) => Some(40),
            WireValue::Short(_) => Some(2),
            WireValue::Float(_) => Some(4),
            WireValue::Enum(_) => Some(2),
            WireValue::Char(_) => Some(1),
            WireValue::Long(_) => Some(4),
            WireValue::Double(_) => Some(8),
            WireValue::Int64(_) => Some(8),
            WireValue::CharArray(b) => Some(b.len()),
            WireValue::Other => None,
        }
    }
}

/// Puts a double-precision number into the type of its channel.
pub fn f64_to_wire(t: FieldType, v: DoubleForms) -> (w: WireValue)
    ensures
        w == match t {
            FieldType::Double => WireValue::Double(v.double),
            FieldType::Float => WireValue::Float(v.float),
            FieldType::Long => WireValue::Long(v.long),
            FieldType::Int64 => WireValue::Int64(v.int64),
            FieldType::Short => WireValue::Short(v.short),
            FieldType::Char => WireValue::Char(v.char),
            FieldType::Enum => WireValue::Enum(v.choice),
            FieldType::String => WireValue::Text(v.text),
        },
        of_type(w, t),
        wire_width(w) == Some(width(t)),
{
    match t {
        FieldType::Double => WireValue::Double(v.double),
        FieldType::Float => WireValue::Float(v.float),
        FieldType::Long => WireValue::Long(v.long),
        FieldType::Int64 => WireValue::Int64(v.int64),
        FieldType::Short => WireValue::Short(v.short),
        FieldType::Char => WireValue::Char(v.char),
        FieldType::Enum => WireValue::Enum(v.choice),
        FieldType::String => WireValue::Text(v.text),
    }
}

/// Puts an integer into the type of its channel, cut to its width.
pub fn i64_to_wire(t: FieldType, v: IntForms) -> (w: WireValue)
    ensures
        match t {
            FieldType::Int64 => w == WireValue::Int64(v.int),
            FieldType::Double => w == WireValue::Double(v.double),
            FieldType::Float => w == WireValue::Float(v.float),
            FieldType::Long => w == WireValue::Long(v.int as i32),
            FieldType::Short => w == WireValue::Short(v.int as i16),
            FieldType::Char => w == WireValue::Char(v.int as u8),
            FieldType::Enum => w == WireValue::Enum(v.int as u16),
            FieldType::String => w matches WireValue::Text(s) && s@ == signed_decimal(
                v.int as int,
            ),
        },
        of_type(w, t),
        wire_width(w) == Some(width(t)),
{
    match t {
        FieldType::Int64 => WireValue::Int64(v.int),
        FieldType::Double => WireValue::Double(v.double),
        FieldType::Float => WireValue::Float(v.float),
        FieldType::Long => WireValue::Long(#[verifier::truncate] (v.int as i32)),
        FieldType::Short => WireValue::Short(#[verifier::truncate] (v.int as i16)),
        FieldType::Char => WireValue::Char(#[verifier::truncate] (v.int as u8)),
        FieldType::Enum => WireValue::Enum(#[verifier::truncate] (v.int as u16)),
        FieldType::String => WireValue::Text(dec_i64(v.int)),
    }
}

/// Zero or one, together with its forms in floating point.
pub open spec fn bit_forms(v: bool) -> IntForms {
    if v {
        IntForms {
            int: 1,
            double: Double { bits: 0x3ff0000000000000 },
            float: Single { bits: 0x3f800000 },
        }
    } else {
        IntForms { int: 0, double: Double { bits: 0 }, float: Single { bits: 0 } }
    }
}

/// Puts a truth value into the type of its channel, as zero or one.
pub fn bool_to_wire(t: FieldType, v: bool) -> (w: WireValue)
    ensures
        match t {
            FieldType::Int64 => w == WireValue::Int64(bit_forms(v).int),
            FieldType::Double => w == WireValue::Double(bit_forms(v).double),
            FieldType::Float => w == WireValue::Float(bit_forms(v).float),
            FieldType::Long => w == WireValue::Long(bit_forms(v).int as i32),
            FieldType::Short => w == WireValue::Short(bit_forms(v).int as i16),
            FieldType::Char => w == WireValue::Char(bit_forms(v).int as u8),
            FieldType::Enum => w == WireValue::Enum(bit_forms(v).int as u16),
            FieldType::String => w matches WireValue::Text(s) && s@ == signed_decimal(
                bit_forms(v).int as int,
            ),
        },
        of_type(w, t),
        wire_width(w) == Some(width(t)),
{
    let forms = if v {
        IntForms {
            int: 1,
            double: Double { bits: 0x3ff0000000000000 },
            float: Single { bits: 0x3f800000 },
        }
    } else {
        IntForms { int: 0, double: Double { bits: 0 }, float: Single { bits: 0 } }
    };
    i64_to_wire(t, forms)
}

/// The number on the wire, if there is one.
pub open spec fn wire_number(v: WireValue) -> Option<Number> {
    match v {
        WireValue::Double(d) => Some(Number::Double(d)),
        WireValue::Float(f) => Some(Number::Float(f)),
        WireValue::Long(l) => Some(Number::Integer(l as i64)),
        WireValue::Short(s) => Some(Number::Integer(s as i64)),
        WireValue::Char(c) => Some(Number::Integer(c as i64)),
        WireValue::Int64(i) => Some(Number::Integer(i)),
        WireValue::Enum(e) => Some(Number::Integer(e as i64)),
        _ => None,
    }
}

/// Reads the number that is to be taken as a double-precision one.
pub fn epics_to_f64(v: &WireValue) -> (n: Option<Number>)
    ensures
        n == wire_number(*v),
{
    match v {
        WireValue::Double(d) => Some(Number::Double(*d)),
        WireValue::Float(f) => Some(Number::Float(*f)),
        WireValue::Long(l) => Some(Number::Integer(*l as i64)),
        WireValue::Short(s) => Some(Number::Integer(*s as i64)),
        WireValue::Char(c) => Some(Number::Integer(*c as i64)),
        WireValue::Int64(i) => Some(Number::Integer(*i)),
        WireValue::Enum(e) => Some(Number::Integer(*e as i64)),
        _ => None,
    }
}

/// Reads the number that is to be taken as an integer.
pub fn epics_to_i64(v: &WireValue) -> (n: Option<Number>)
    ensures
        n == wire_number(*v),
{
    epics_to_f64(v)
}

/// Whether the whole part of a double-precision number differs from zero. That of NaN is zero.
pub open spec fn double_has_whole(x: Double) -> bool {
    &&& (x.bits >> 52u64) & 0x7ffu64 >= 0x3ffu64
    &&& !((x.bits >> 52u64) & 0x7ffu64 == 0x7ffu64 && x.bits & 0xfffffffffffffu64 != 0u64)
}

/// Whether the whole part of a single-precision number differs from zero. That of NaN is zero.
pub open spec fn single_has_whole(x: Single) -> bool {
    &&& (x.bits >> 23u32) & 0xffu32 >= 0x7fu32
    &&& !((x.bits >> 23u32) & 0xffu32 == 0xffu32 && x.bits & 0x7fffffu32 != 0u32)
}

/// Whether the whole part of a number differs from zero.
pub open spec fn has_whole(n: Number) -> bool {
    match n {
        Number::Integer(i) => i != 0,
        Number::Unsigned(u) => u != 0,
        Number::Float(f) => single_has_whole(f),
        Number::Double(d) => double_has_whole(d),
    }
}

/// Reads a truth value: whether the whole part of the number differs from zero.
pub fn epics_to_bool(v: &WireValue) -> (b: Option<bool>)
    ensures
        b == match wire_number(*v) {
            Some(n) => Some(has_whole(n)),
            None => None,
        },
{
    match epics_to_i64(v) {
        Some(Number::Integer(i)) => Some(i != 0),
        Some(Number::Unsigned(u)) => Some(u != 0),
        Some(Number::Float(f)) => Some(
            (f.bits >> 23u32) & 0xffu32 >= 0x7fu32 && !((f.bits >> 23u32) & 0xffu32 == 0xffu32
                && f.bits & 0x7fffffu32 != 0u32),
        ),
        Some(Number::Double(d)) => Some(
            (d.bits >> 52u64) & 0x7ffu64 >= 0x3ffu64 && !((d.bits >> 52u64) & 0x7ffu64 == 0x7ffu64
                && d.bits & 0xfffffffffffffu64 != 0u64),
        ),
        None => None,
    }
}

/// The bytes before the first NUL.
pub open spec fn before_nul(bytes: Seq<u8>) -> Seq<u8>
    decreases bytes.len(),
{
    if bytes.len() == 0 || bytes[0] == 0u8 {
        seq![]
    } else {
        seq![bytes[0]] + before_nul(bytes.skip(1))
    }
}

/// The text on the wire, if there is one. A short string and a waveform are both read, whichever
/// kind the channel was declared to be.
pub open spec fn wire_text(v: WireValue) -> Option<Seq<char>> {
    match v {
        WireValue::Text(s) => Some(s@),
        WireValue::CharArray(b) => Some(text_lossy(before_nul(b@))),
        _ => None,
    }
}

/// The bytes before the first NUL.
fn cut_at_nul(bytes: &Vec<u8>) -> (head: Vec<u8>)
    ensures
        head@ == before_nul(bytes@),
{
    let mut head: Vec<u8> = Vec::new();
    let mut i: usize = 0;
    assert(bytes@.skip(0) =~= bytes@);
    assert(head@ + before_nul(bytes@) =~= before_nul(bytes@));
    while i < bytes.len()
        invariant
            i <= bytes.len(),
            head@ + before_nul(bytes@.skip(i as int)) == before_nul(bytes@),
        decreases bytes.len() - i,
    {
        let ghost rest = bytes@.skip(i as int);
        if bytes[i] == 0 {
            assert(head@ + before_nul(rest) =~= head@);
            return head;
        }
        let ghost before = head@;
        head.push(bytes[i]);
        assert(rest.skip(1) =~= bytes@.skip(i + 1));
        assert(head@ + before_nul(rest.skip(1)) =~= before + (seq![rest[0]] + before_nul(
            rest.skip(1),
        )));
        i += 1;
    }
    assert(head@ + before_nul(bytes@.skip(i as int)) =~= head@);
    head
}

/// Reads text.
pub fn epics_to_string(v: &WireValue, kind: CaStringKind) -> (s: Option<String>)
    ensures
        s.deep_view() == wire_text(*v),
{
    match (kind, v) {
        (_, WireValue::Text(s)) => Some(s.clone()),
        (_, WireValue::CharArray(bytes)) => {
            let head = cut_at_nul(bytes);
            Some(lossy_text(head.as_slice()))
        },
        _ => None,
    }
}

/// Puts text on the wire: a long string ends in a NUL.
pub fn string_to_epics(s: &str, kind: CaStringKind) -> (w: WireValue)
    ensures
        match kind {
            CaStringKind::Short => w matches WireValue::Text(t) && t@ == s@,
            CaStringKind::Long => w matches WireValue::CharArray(b) && b@ == encode_utf8(
                s@,
            ).push(0u8),
        },
{
    match kind {
        CaStringKind::Short => WireValue::Text(s.to_owned()),
        CaStringKind::Long => {
            let mut bytes: Vec<u8> = vstd::slice::slice_to_vec(s.as_bytes());
            bytes.push(0);
            WireValue::CharArray(bytes)
        },
    }
}

/// Bytes without a NUL end at the first NUL that follows them.
proof fn lemma_before_nul(bytes: Seq<u8>)
    requires
        forall|i: int| 0 <= i < bytes.len() ==> #[trigger] bytes[i] != 0u8,
    ensures
        before_nul(bytes.push(0u8)) =~= bytes,
    decreases bytes.len(),
{
    if bytes.len() > 0 {
        let rest = bytes.skip(1);
        assert forall|i: int| 0 <= i < rest.len() implies #[trigger] rest[i] != 0u8 by {
            assert(rest[i] == bytes[i + 1]);
        }
        lemma_before_nul(rest);
        assert(bytes.push(0u8).skip(1) =~= rest.push(0u8));
        assert(bytes[0] != 0u8);
    }
}

/// The encoding of a character other than NUL holds no NUL.
proof fn lemma_scalar_without_nul(c: u32)
    requires
        is_scalar(c),
        c != 0,
    ensures
        forall|i: int| 0 <= i < encode_scalar(c).len() ==> #[trigger] encode_scalar(c)[i] != 0u8,
{
    assert((0x80u8 | ((c & 0x3F) as u8)) != 0u8) by (bit_vector);
    assert((0x80u8 | (((c >> 6) & 0x3F) as u8)) != 0u8) by (bit_vector);
    assert((0x80u8 | (((c >> 12) & 0x3F) as u8)) != 0u8) by (bit_vector);
    assert((0xC0u8 | (((c >> 6) & 0x1F) as u8)) != 0u8) by (bit_vector);
    assert((0xE0u8 | (((c >> 12) & 0x0F) as u8)) != 0u8) by (bit_vector);
    assert((0xF0u8 | (((c >> 18) & 0x7) as u8)) != 0u8) by (bit_vector);
    assert(0 < c && c <= 0x7Fu32 ==> ((c & 0x7F) as u8) != 0u8) by (bit_vector);
}

/// The encoding of text without NUL holds no NUL.
proof fn lemma_text_without_nul(s: Seq<char>)
    requires
        forall|i: int| 0 <= i < s.len() ==> #[trigger] s[i] != '\0',
    ensures
        forall|i: int| 0 <= i < encode_utf8(s).len() ==> #[trigger] encode_utf8(s)[i] != 0u8,
    decreases s.len(),
{
    if s.len() > 0 {
        let head = encode_scalar(s[0] as u32);
        let rest = encode_utf8(s.drop_first());
        assert(s[0] != '\0');
        char_is_scalar(s[0]);
        if s[0] as u32 == 0 {
            char_u32_cast(s[0], 0u32);
            assert(0u32 as char == '\0');
        }
        lemma_scalar_without_nul(s[0] as u32);
        assert forall|i: int| 0 <= i < s.drop_first().len() implies #[trigger] s.drop_first()[i]
            != '\0' by {
            assert(s.drop_first()[i] == s[i + 1]);
        }
        lemma_text_without_nul(s.drop_first());
        assert forall|i: int| 0 <= i < encode_utf8(s).len() implies #[trigger] encode_utf8(s)[i]
            != 0u8 by {
            assert(encode_utf8(s) == head + rest);
            if i < head.len() {
                assert(encode_utf8(s)[i] == head[i]);
            } else {
                assert(encode_utf8(s)[i] == rest[i - head.len()]);
            }
        }
    }
}

/// Text without NUL that is put on the wire as a long string is read back as it was.
pub proof fn law_long_text_round_trip(s: Seq<char>, w: WireValue)
    requires
        forall|i: int| 0 <= i < s.len() ==> #[trigger] s[i] != '\0',
        w matches WireValue::CharArray(b) && b@ == encode_utf8(s).push(0u8),
    ensures
        wire_text(w) == Some(s),
{
    lemma_text_without_nul(s);
    lemma_before_nul(encode_utf8(s));
    encode_utf8_valid_utf8(s);
    encode_utf8_decode_utf8(s);
}

/// A long string is read up to the first NUL, whatever follows.
pub proof fn law_nothing_is_read_after_nul(head: Seq<u8>, tail: Seq<u8>)
    requires
        forall|i: int| 0 <= i < head.len() ==> #[trigger] head[i] != 0u8,
    ensures
        before_nul(head.push(0u8) + tail) =~= head,
    decreases head.len(),
{
    if head.len() > 0 {
        let rest = head.skip(1);
        assert forall|i: int| 0 <= i < rest.len() implies #[trigger] rest[i] != 0u8 by {
            assert(rest[i] == head[i + 1]);
        }
        law_nothing_is_read_after_nul(rest, tail);
        assert((head.push(0u8) + tail).skip(1) =~= rest.push(0u8) + tail);
        assert(head[0] != 0u8);
    }
}

/// The channels of a process: those that are open, by the handles under which the host keeps
/// them, and those that are being opened.
#[derive(Debug)]
pub struct CaContext {
    channels: StrMap<u64>,
    pending: StrMap<u64>,
}

/// What a [`CaContext`] stands for.
pub struct ContextView {
    /// The open channels by the names of their process variables.
    pub channels: Map<Seq<char>, u64>,
    /// The process variables whose channels are being opened.
    pub pending: Set<Seq<char>>,
}

impl View for CaContext {
    type V = ContextView;

    closed spec fn view(&self) -> ContextView {
        ContextView { channels: self.channels@, pending: self.pending@.dom() }
    }
}

/// What is to be done for a channel.
#[derive(Copy, Clone, Debug, PartialEq, Eq, Structural)]
pub enum ChannelStep {
    /// It is open, under this handle.
    Ready(u64),
    /// Another request is opening it: wait for that one to end.
    Wait,
    /// Open it, and report how that ends.
    Open,
}

/// The step for the channel of `pv`.
pub open spec fn channel_step(c: ContextView, pv: Seq<char>) -> ChannelStep {
    if c.channels.dom().contains(pv) {
        ChannelStep::Ready(c.channels[pv])
    } else if c.pending.contains(pv) {
        ChannelStep::Wait
    } else {
        ChannelStep::Open
    }
}

/// Whether a request for the channel of `pv` gets `step`.
pub open spec fn channel_asked(
    before: ContextView,
    after: ContextView,
    pv: Seq<char>,
    step: ChannelStep,
) -> bool {
    &&& step == channel_step(before, pv)
    &&& after.channels == before.channels
    &&& after.pending == if step is Open {
        before.pending.insert(pv)
    } else {
        before.pending
    }
}

/// Whether the opening of the channel of `pv` ends with `outcome`, and gives `r`.
pub open spec fn opening_ended(
    before: ContextView,
    after: ContextView,
    pv: Seq<char>,
    outcome: Result<u64, String>,
    r: Result<u64, CirrusError>,
) -> bool {
    &&& after.pending == before.pending.remove(pv)
    &&& match outcome {
        Ok(handle) => {
            &&& r == Ok::<u64, CirrusError>(handle)
            &&& after.channels == before.channels.insert(pv, handle)
        },
        Err(e) => {
            &&& is_backend_error(r, "ca connect "@ + pv + ": "@ + e@)
            &&& after.channels == before.channels
        },
    }
}

impl CaContext {
    /// A process without channels.
    pub fn new() -> (c: Self)
        ensures
            c@.channels == Map::<Seq<char>, u64>::empty(),
            c@.pending == Set::<Seq<char>>::empty(),
    {
        let c = CaContext { channels: StrMap::new(), pending: StrMap::new() };
        assert(c@.pending =~= Set::empty());
        c
    }

    /// Asks for the channel of `pv`. A channel that is to be opened counts as being opened from
    /// then on.
    pub fn get_or_open(&mut self, pv: &str) -> (step: ChannelStep)
        ensures
            channel_asked(old(self)@, final(self)@, pv@, step),
    {
        match self.channels.get(pv) {
            Some(handle) => ChannelStep::Ready(*handle),
            None => if self.pending.contains_key(pv) {
                ChannelStep::Wait
            } else {
                self.pending.insert(pv.to_owned(), 0);
                assert(self.pending@.dom() =~= old(self).pending@.dom().insert(pv@));
                ChannelStep::Open
            },
        }
    }

    /// Takes note of how the opening of a channel ended: with its handle, or with the text of
    /// the error. Those who wait for it are to be woken.
    pub fn opened(&mut self, pv: &str, outcome: Result<u64, String>) -> (r: Result<u64, CirrusError>)
        ensures
            opening_ended(old(self)@, final(self)@, pv@, outcome, r),
    {
        let _ = self.pending.remove(pv);
        assert(self.pending@.dom() =~= old(self).pending@.dom().remove(pv@));
        match outcome {
            Ok(handle) => {
                self.channels.insert(pv.to_owned(), handle);
                Ok(handle)
            },
            Err(e) => Err(
                CirrusError::Backend(join3(&join2("ca connect ", pv), ": ", &e)),
            ),
        }
    }

    /// What a request gets that waited for another one to open the channel.
    pub fn waited(&self, pv: &str) -> (r: Result<u64, CirrusError>)
        ensures
            if self@.channels.dom().contains(pv@) {
                r == Ok::<u64, CirrusError>(self@.channels[pv@])
            } else {
                is_backend_error(r, "ca: peer connect for "@ + pv@ + " failed"@)
            },
    {
        match self.channels.get(pv) {
            Some(handle) => Ok(*handle),
            None => Err(CirrusError::Backend(join3("ca: peer connect for ", pv, " failed"))),
        }
    }
}

/// Whether `r` is a backend error with the given message.
pub open spec fn is_backend_error<T>(r: Result<T, CirrusError>, message: Seq<char>) -> bool {
    r matches Err(CirrusError::Backend(s)) && s@ == message
}

/// While one request opens a channel, no other is told to open it; once it is open, every
/// request gets that one channel.
pub proof fn law_one_opening_at_a_time(c: ContextView, pv: Seq<char>, handle: u64)
    requires
        channel_step(c, pv) is Open,
    ensures
        ({
            let opening = ContextView { pending: c.pending.insert(pv), ..c };
            let open = ContextView {
                channels: opening.channels.insert(pv, handle),
                pending: opening.pending.remove(pv),
            };
            &&& channel_step(opening, pv) == ChannelStep::Wait
            &&& channel_step(open, pv) == ChannelStep::Ready(handle)
        }),
{
}

/// After an attempt that failed, the next request opens the channel anew.
pub proof fn law_failed_opening_is_retried(c: ContextView, pv: Seq<char>)
    requires
        channel_step(c, pv) is Open,
    ensures
        channel_step(
            ContextView { pending: c.pending.insert(pv).remove(pv), ..c },
            pv,
        ) is Open,
{
}

/// What a channel is read and written as.
#[derive(Copy, Clone, Debug, PartialEq, Eq, Structural)]
pub enum CaType {
    /// A double-precision number.
    Number,
    /// An integer.
    Integer,
    /// A truth value.
    Boolean,
    /// Text.
    Text(CaStringKind),
}

/// The key that describes a channel of `count` elements.
pub open spec fn channel_key(t: CaType, source: Seq<char>, count: u32) -> DataKeyView {
    let dtype = match t {
        CaType::Number => Dtype::Number,
        CaType::Integer => Dtype::Integer,
        CaType::Boolean => Dtype::Boolean,
        CaType::Text(_) => Dtype::String,
    };
    let numpy = match t {
        CaType::Number => "<f8"@,
        CaType::Integer => "<i8"@,
        CaType::Boolean => "|b1"@,
        CaType::Text(_) => "|S"@,
    };
    let shaped = count > 1 && t != CaType::Boolean && t != CaType::Text(CaStringKind::Short);
    DataKeyView {
        dtype_numpy: Some(numpy),
        ..plain_key(
            "ca://"@ + source,
            dtype,
            if shaped {
                seq![Some(count as u64)]
            } else {
                seq![]
            },
        )
    }
}

/// What is known of one channel: its process variable, and how its value is taken.
#[derive(Debug)]
pub struct EpicsCaBackend {
    /// The process variable.
    pub pv: String,
    /// How the value is taken.
    pub kind: CaType,
}

impl EpicsCaBackend {
    /// A channel for a number.
    pub fn new(pv: &str) -> (b: Self)
        ensures
            b.pv@ == pv@,
            b.kind == CaType::Number,
    {
        EpicsCaBackend { pv: pv.to_owned(), kind: CaType::Number }
    }

    /// A channel for text that travels as one short string.
    pub fn new_string(pv: &str) -> (b: Self)
        ensures
            b.pv@ == pv@,
            b.kind == CaType::Text(CaStringKind::Short),
    {
        EpicsCaBackend { pv: pv.to_owned(), kind: CaType::Text(CaStringKind::Short) }
    }

    /// A channel for text that travels as a waveform of characters.
    pub fn new_long_string(pv: &str) -> (b: Self)
        ensures
            b.pv@ == pv@,
            b.kind == CaType::Text(CaStringKind::Long),
    {
        EpicsCaBackend { pv: pv.to_owned(), kind: CaType::Text(CaStringKind::Long) }
    }

    /// How long an operation waits for the channel: two seconds, unless told otherwise.
    pub fn wait_limit(timeout: Option<Span>) -> (t: Span)
        ensures
            t == match timeout {
                Some(t) => t,
                None => Span { secs: 2, nanos: 0 },
            },
    {
        match timeout {
            Some(t) => t,
            None => Span { secs: 2, nanos: 0 },
        }
    }

    /// The status of a put, given how the channel took it.
    pub fn put_status(outcome: Result<(), String>) -> (s: Status)
        ensures
            match outcome {
                Ok(()) => s@.outcome == Some(StatusOutcome::Success),
                Err(e) => {
                    &&& s@.outcome matches Some(StatusOutcome::Failed(StatusError::Failed(m)))
                    &&& m@ == "ca put: "@ + e@
                },
            },
    {
        match outcome {
            Ok(()) => Status::done(),
            Err(e) => Status::fail(StatusError::Failed(join2("ca put: ", &e))),
        }
    }

    /// Describes a channel of `count` elements.
    pub fn get_datakey(&self, source: &str, count: u32) -> (key: DataKey)
        ensures
            key.deep_view() == channel_key(self.kind, source@, count),
    {
        let dtype = match self.kind {
            CaType::Number => Dtype::Number,
            CaType::Integer => Dtype::Integer,
            CaType::Boolean => Dtype::Boolean,
            CaType::Text(_) => Dtype::String,
        };
        let numpy = match self.kind {
            CaType::Number => "<f8",
            CaType::Integer => "<i8",
            CaType::Boolean => "|b1",
            CaType::Text(_) => "|S",
        };
        let mut shape: Vec<Option<u64>> = Vec::new();
        let shaped = match self.kind {
            CaType::Boolean => false,
            CaType::Text(CaStringKind::Short) => false,
            _ => count > 1,
        };
        if shaped {
            shape.push(Some(count as u64));
            assert(shape@ =~= seq![Some(count as u64)]);
        }
        DataKey {
            dtype_numpy: Some(numpy.to_owned()),
            ..DataKey::plain(join2("ca://", source), dtype, shape)
        }
    }

    /// Reads the text of a channel. `shown` is how the value is shown in an error.
    pub fn text_value(v: &WireValue, kind: CaStringKind, shown: &str) -> (r: Result<
        String,
        CirrusError,
    >)
        ensures
            match wire_text(*v) {
                Some(t) => r matches Ok(s) && s@ == t,
                None => is_backend_error(r, "ca: not stringable: "@ + shown@),
            },
    {
        match epics_to_string(v, kind) {
            Some(s) => Ok(s),
            None => Err(CirrusError::Backend(join2("ca: not stringable: ", shown))),
        }
    }

    /// Reads the number of a channel. `shown` is how the value is shown in an error.
    pub fn number_value(v: &WireValue, shown: &str) -> (r: Result<Number, CirrusError>)
        ensures
            match wire_number(*v) {
                Some(n) => r == Ok::<Number, CirrusError>(n),
                None => is_backend_error(r, "ca: not numeric: "@ + shown@),
            },
    {
        match epics_to_f64(v) {
            Some(n) => Ok(n),
            None => Err(CirrusError::Backend(join2("ca: not numeric: ", shown))),
        }
    }

    /// Reads the integer of a channel. `shown` is how the value is shown in an error.
    pub fn int_value(v: &WireValue, shown: &str) -> (r: Result<Number, CirrusError>)
        ensures
            match wire_number(*v) {
                Some(n) => r == Ok::<Number, CirrusError>(n),
                None => is_backend_error(r, "ca: not int: "@ + shown@),
            },
    {
        match epics_to_i64(v) {
            Some(n) => Ok(n),
            None => Err(CirrusError::Backend(join2("ca: not int: ", shown))),
        }
    }

    /// Reads the truth value of a channel. `shown` is how the value is shown in an error.
    pub fn bool_value(v: &WireValue, shown: &str) -> (r: Result<bool, CirrusError>)
        ensures
            match wire_number(*v) {
                Some(n) => r == Ok::<bool, CirrusError>(has_whole(n)),
                None => is_backend_error(r, "ca: not bool: "@ + shown@),
            },
    {
        match epics_to_bool(v) {
            Some(b) => Ok(b),
            None => Err(CirrusError::Backend(join2("ca: not bool: ", shown))),
        }
    }

    /// The address of the given name.
    pub fn source(&self, name: &str) -> (s: String)
        ensures
            s@ == "ca://"@ + name@,
    {
        join2("ca://", name)
    }
}

impl BackendFromPv for EpicsCaBackend {
    open spec fn made_from(&self, pv: Seq<char>) -> bool {
        self.pv@ == pv && self.kind == CaType::Number
    }

    fn from_pv(pv: &str) -> (b: Self) {
        EpicsCaBackend::new(pv)
    }
}

/// A channel is opened once: the first request is told to open it, a second one waits, and after
/// the opening ended both a new request and the one that waited get the handle that was opened.
pub proof fn law_channel_is_shared(
    c0: ContextView,
    c1: ContextView,
    c2: ContextView,
    c3: ContextView,
    c4: ContextView,
    pv: Seq<char>,
    first: ChannelStep,
    second: ChannelStep,
    third: ChannelStep,
    handle: u64,
    r: Result<u64, CirrusError>,
)
    requires
        !c0.channels.dom().contains(pv),
        !c0.pending.contains(pv),
        channel_asked(c0, c1, pv, first),
        channel_asked(c1, c2, pv, second),
        opening_ended(c2, c3, pv, Ok(handle), r),
        channel_asked(c3, c4, pv, third),
    ensures
        first is Open,
        second is Wait,
        r == Ok::<u64, CirrusError>(handle),
        third == ChannelStep::Ready(handle),
        c4.channels[pv] == handle,
        forall|other: Seq<char>|
            other != pv ==> (#[trigger] c4.channels.dom().contains(other)
                <==> c0.channels.dom().contains(other)) && c4.channels[other]
                == c0.channels[other],
        forall|other: Seq<char>|
            other != pv ==> (#[trigger] c4.pending.contains(other) <==> c0.pending.contains(other)),
{
}

/// After an opening that failed, the channel is not there, the error tells of the variable, and
/// the next request is told to open it again.
pub proof fn law_failed_channel_is_not_kept(
    c0: ContextView,
    c1: ContextView,
    c2: ContextView,
    c3: ContextView,
    pv: Seq<char>,
    first: ChannelStep,
    second: ChannelStep,
    e: String,
    r: Result<u64, CirrusError>,
)
    requires
        channel_asked(c0, c1, pv, first),
        first is Open,
        opening_ended(c1, c2, pv, Err(e), r),
        channel_asked(c2, c3, pv, second),
    ensures
        r is Err,
        second is Open,
        c2.channels == c0.channels,
        forall|other: Seq<char>|
            other != pv ==> (#[trigger] c2.pending.contains(other) <==> c0.pending.contains(other)),
{
}

/// A request that waited gets the channel that another one opened, and an error where there is
/// none.
pub proof fn law_waiting_ends_with_the_channel(c: &CaContext, pv: &str, r: Result<u64, CirrusError>)
    requires
        call_ensures(CaContext::waited, (c, pv), r),
    ensures
        r is Ok <==> c@.channels.dom().contains(pv@),
        r matches Ok(h) ==> c@.channels[pv@] == h,
{
}

/// An integer that fits the type of its channel is read back from the wire as it was put there;
/// a floating-point channel gives back the floating-point form.
pub proof fn law_integers_come_back(t: FieldType, v: IntForms, w: WireValue, n: Option<Number>)
    requires
        call_ensures(i64_to_wire, (t, v), w),
        call_ensures(epics_to_i64, (&w,), n),
    ensures
        t is Int64 ==> n == Some(Number::Integer(v.int)),
        t is Long && i32::MIN <= v.int <= i32::MAX ==> n == Some(Number::Integer(v.int)),
        t is Short && i16::MIN <= v.int <= i16::MAX ==> n == Some(Number::Integer(v.int)),
        t is Char && 0 <= v.int <= u8::MAX ==> n == Some(Number::Integer(v.int)),
        t is Enum && 0 <= v.int <= u16::MAX ==> n == Some(Number::Integer(v.int)),
        t is Double ==> n == Some(Number::Double(v.double)),
        t is Float ==> n == Some(Number::Float(v.float)),
        t is String ==> n is None,
        t is String ==> (w matches WireValue::Text(s) && (v.int >= 0 ==> s@ == decimal(
            v.int as nat,
        ))),
{
}

/// A floating-point number is read back from a floating-point channel as it was put there, and
/// from an integer channel as what it was cut to.
pub proof fn law_numbers_come_back(t: FieldType, v: DoubleForms, w: WireValue, n: Option<Number>)
    requires
        call_ensures(f64_to_wire, (t, v), w),
        call_ensures(epics_to_f64, (&w,), n),
    ensures
        t is Double ==> n == Some(Number::Double(v.double)),
        t is Float ==> n == Some(Number::Float(v.float)),
        t is Int64 ==> n == Some(Number::Integer(v.int64)),
        t is Long ==> n == Some(Number::Integer(v.long as i64)),
        t is Short ==> n == Some(Number::Integer(v.short as i64)),
        t is Char ==> n == Some(Number::Integer(v.char as i64)),
        t is Enum ==> n == Some(Number::Integer(v.choice as i64)),
        t is String ==> n is None && w == WireValue::Text(v.text),
{
}

/// A truth value is read back from the wire as it was put there, whatever the type of the
/// channel, unless that holds text.
pub proof fn law_truth_values_come_back(t: FieldType, v: bool, w: WireValue, b: Option<bool>)
    requires
        call_ensures(bool_to_wire, (t, v), w),
        call_ensures(epics_to_bool, (&w,), b),
    ensures
        t !is String ==> b == Some(v),
        t is String ==> b is None,
{
    assert((0x3ff0000000000000u64 >> 52u64) & 0x7ffu64 == 0x3ffu64) by (bit_vector);
    assert((0u64 >> 52u64) & 0x7ffu64 == 0u64) by (bit_vector);
    assert((0x3f800000u32 >> 23u32) & 0xffu32 == 0x7fu32) by (bit_vector);
    assert((0u32 >> 23u32) & 0xffu32 == 0u32) by (bit_vector);
}

/// Text without NUL is read back from the wire as it was put there, in either kind, and whichever
/// kind the reader expects.
pub proof fn law_text_comes_back(
    s: &str,
    kind: CaStringKind,
    expected: CaStringKind,
    w: WireValue,
    r: Option<String>,
)
    requires
        forall|i: int| 0 <= i < s@.len() ==> #[trigger] s@[i] != '\0',
        call_ensures(string_to_epics, (s, kind), w),
        call_ensures(epics_to_string, (&w, expected), r),
    ensures
        r matches Some(t) && t@ == s@,
{
    if kind is Long {
        law_long_text_round_trip(s@, w);
    }
    assert(r.deep_view() == Some(s@));
}

/// A channel is described by where it is and how it is taken; a waveform of numbers or characters
/// gives its length, and a single value, a truth value or a short string gives no shape.
pub proof fn law_channel_is_described(b: &EpicsCaBackend, source: &str, count: u32, key: DataKey)
    requires
        call_ensures(EpicsCaBackend::get_datakey, (b, source, count), key),
    ensures
        ({
            let k = key.deep_view();
            &&& k.source == "ca://"@ + source@
            &&& k.dtype == match b.kind {
                CaType::Number => Dtype::Number,
                CaType::Integer => Dtype::Integer,
                CaType::Boolean => Dtype::Boolean,
                CaType::Text(_) => Dtype::String,
            }
            &&& k.dtype_numpy == Some(
                match b.kind {
                    CaType::Number => "<f8"@,
                    CaType::Integer => "<i8"@,
                    CaType::Boolean => "|b1"@,
                    CaType::Text(_) => "|S"@,
                },
            )
            &&& k.shape.len() <= 1
            &&& k.shape.len() == 1 ==> k.shape[0] == Some(count as u64) && count > 1
            &&& b.kind is Boolean || b.kind == CaType::Text(CaStringKind::Short) ==> k.shape.len()
                == 0
            &&& (b.kind is Number || b.kind is Integer || b.kind == CaType::Text(
                CaStringKind::Long,
            )) && count > 1 ==> k.shape.len() == 1
        }),
{
}

/// A put ends as the channel took it, and an operation waits two seconds unless told otherwise.
pub proof fn law_put_ends_as_the_channel_took_it(
    outcome: Result<(), String>,
    s: Status,
    timeout: Option<Span>,
    t: Span,
)
    requires
        call_ensures(EpicsCaBackend::put_status, (outcome,), s),
        call_ensures(EpicsCaBackend::wait_limit, (timeout,), t),
    ensures
        outcome is Ok <==> s@.outcome == Some(StatusOutcome::Success),
        outcome is Err <==> s@.outcome matches Some(StatusOutcome::Failed(_)),
        timeout matches Some(x) ==> t == x,
        timeout is None ==> t.secs == 2 && t.nanos == 0,
{
}

/// A process keeps its channels as it is said to.
pub proof fn law_process_keeps_its_channels(
    a: &mut CaContext,
    pv: &str,
    step: ChannelStep,
    b: &mut CaContext,
    outcome: Result<u64, String>,
    r: Result<u64, CirrusError>,
)
    requires
        call_ensures(CaContext::get_or_open, (a, pv), step),
        call_ensures(CaContext::opened, (b, pv, outcome), r),
    ensures
        channel_asked(old(a)@, final(a)@, pv@, step),
        opening_ended(old(b)@, final(b)@, pv@, outcome, r),
        step matches ChannelStep::Ready(h) ==> old(a)@.channels.dom().contains(pv@)
            && old(a)@.channels[pv@] == h,
        outcome matches Ok(h) ==> final(b)@.channels.dom().contains(pv@)
            && final(b)@.channels[pv@] == h && r == Ok::<u64, CirrusError>(h),
{
}

/// What is put on the wire has the type of its channel and as many bytes as that type has: forty for
/// a string, eight for a double and a long long, four for a float and a long, two for a short and a
/// choice, and one for a character; a waveform has as many as it has characters.
pub proof fn law_values_fit_their_channel(
    t: FieldType,
    d: DoubleForms,
    x: WireValue,
    i: IntForms,
    y: WireValue,
    b: bool,
    z: WireValue,
    w: WireValue,
    n: Option<usize>,
)
    requires
        call_ensures(f64_to_wire, (t, d), x),
        call_ensures(i64_to_wire, (t, i), y),
        call_ensures(bool_to_wire, (t, b), z),
        call_ensures(WireValue::wire_len, (&w,), n),
    ensures
        t is String ==> x is Text && y is Text && z is Text,
        t is Short ==> x is Short && y is Short && z is Short,
        t is Float ==> x is Float && y is Float && z is Float,
        t is Enum ==> x is Enum && y is Enum && z is Enum,
        t is Char ==> x is Char && y is Char && z is Char,
        t is Long ==> x is Long && y is Long && z is Long,
        t is Double ==> x is Double && y is Double && z is Double,
        t is Int64 ==> x is Int64 && y is Int64 && z is Int64,
        match w {
            WireValue::Text(_) => n == Some(40usize),
            WireValue::Short(_) | WireValue::Enum(_) => n == Some(2usize),
            WireValue::Float(_) | WireValue::Long(_) => n == Some(4usize),
            WireValue::Double(_) | WireValue::Int64(_) => n == Some(8usize),
            WireValue::Char(_) => n == Some(1usize),
            WireValue::CharArray(c) => n matches Some(k) && k == c@.len(),
            WireValue::Other => n is None,
        },
{
}

} // verus!
